use flint_render::DebugMode;

const ALL: [DebugMode; 7] = [
    DebugMode::Pbr,
    DebugMode::WireframeOnly,
    DebugMode::Normals,
    DebugMode::Depth,
    DebugMode::UvChecker,
    DebugMode::Unlit,
    DebugMode::MetallicRoughness,
];

#[test]
fn debug_mode_default_is_pbr() {
    assert_eq!(DebugMode::default(), DebugMode::Pbr);
}

#[test]
fn debug_mode_next_cycles_in_order() {
    for i in 0..7 {
        assert_eq!(ALL[i].next(), ALL[(i + 1) % 7]);
    }
}

#[test]
fn debug_mode_seven_steps_return_to_start() {
    for start in ALL {
        let mut m = start;
        for step in 1..=7 {
            m = m.next();
            if step < 7 {
                assert_ne!(m, start);
            }
        }
        assert_eq!(m, start);
    }
}

#[test]
fn debug_mode_shader_values() {
    let values: Vec<u32> = ALL.iter().map(|m| m.as_u32()).collect();
    assert_eq!(values, vec![0, 0, 1, 2, 3, 4, 5]);
}

#[test]
fn debug_mode_labels() {
    let labels: Vec<&str> = ALL.iter().map(|m| m.label()).collect();
    assert_eq!(
        labels,
        vec!["PBR", "Wireframe", "Normals", "Depth", "UV Checker", "Unlit", "Metal/Rough"]
    );
}
