use flint_render::gpu_select::{gpu_override, is_blank, name_filter, set_gpu_override};
use flint_render::model_loader::ModelLoadConfig;
use flint_render::{parse_blend_mode, BlendMode, CameraMode, RenderError, RenderPhase, RendererConfig};

#[test]
fn blend_mode_names() {
    assert_eq!(parse_blend_mode("additive"), BlendMode::Additive);
    assert_eq!(parse_blend_mode("multiply"), BlendMode::Multiply);
    assert_eq!(parse_blend_mode("alpha"), BlendMode::Alpha);
    assert_eq!(parse_blend_mode("Additive"), BlendMode::Alpha);
    assert_eq!(parse_blend_mode(""), BlendMode::Alpha);
}

#[test]
fn render_phases() {
    assert!(RenderPhase::All.draws_opaque() && RenderPhase::All.draws_ocean_and_after());
    assert!(RenderPhase::PreOcean.draws_opaque() && !RenderPhase::PreOcean.draws_ocean_and_after());
    assert!(!RenderPhase::PostOcean.draws_opaque() && RenderPhase::PostOcean.draws_ocean_and_after());
}

#[test]
fn defaults() {
    assert!(!RendererConfig::default().show_grid);
    assert_eq!(CameraMode::default(), CameraMode::Orbit);
}

#[test]
fn render_error_messages() {
    assert_eq!(RenderError::AdapterNotFound.message(), "Failed to get adapter");
    assert_eq!(
        RenderError::SurfaceCreation("x".to_string()).message(),
        "Failed to create surface: x"
    );
    assert_eq!(
        RenderError::DeviceCreation("lost".to_string()).message(),
        "Failed to create device: lost"
    );
    assert_eq!(RenderError::SurfaceError("s".to_string()).message(), "Surface error: s");
    assert_eq!(
        RenderError::BufferReadFailed("b".to_string()).message(),
        "Failed to read render buffer: b"
    );
}

#[test]
fn gpu_override_blank_names_clear() {
    let mut slot = Some("old".to_string());
    set_gpu_override(&mut slot, Some("  \t\n".to_string()));
    assert_eq!(gpu_override(&slot), None);
    set_gpu_override(&mut slot, Some(" NVIDIA ".to_string()));
    assert_eq!(gpu_override(&slot), Some(" NVIDIA ".to_string()));
    set_gpu_override(&mut slot, None);
    assert_eq!(slot, None);
    assert!(is_blank("\u{3000}\u{a0} "));
    assert!(!is_blank(" x "));
    assert!(is_blank(""));
}

#[test]
fn gpu_name_filter_order() {
    let set = Some("intel".to_string());
    assert_eq!(name_filter(&set, Some("nvidia".to_string())), Some("intel".to_string()));
    assert_eq!(name_filter(&None, Some("nvidia".to_string())), Some("nvidia".to_string()));
    assert_eq!(name_filter(&None, Some(String::new())), None);
    assert_eq!(name_filter(&None, None), None);
}

#[test]
fn model_config_from_scene_path() {
    let c = ModelLoadConfig::from_scene_path("levels/demo/scene.toml");
    assert_eq!(c.scene_dir, "levels/demo");
    assert_eq!(c.overrides.len(), 0);
    let c = ModelLoadConfig::from_scene_path("scene.toml");
    assert_eq!(c.scene_dir, "");
    let c = ModelLoadConfig::from_scene_path("/");
    assert_eq!(c.scene_dir, ".");
}

#[test]
fn model_candidate_paths() {
    let mut c = ModelLoadConfig::from_scene_path("levels/demo/scene.toml");
    assert_eq!(
        c.model_path_candidates("crate"),
        vec!["levels/demo/models/crate.glb".to_string(), "levels/models/crate.glb".to_string()]
    );
    c.overrides.insert("crate".to_string(), "cat/crate.glb".to_string());
    assert_eq!(
        c.model_path_candidates("crate"),
        vec![
            "cat/crate.glb".to_string(),
            "levels/demo/models/crate.glb".to_string(),
            "levels/models/crate.glb".to_string()
        ]
    );
    assert_eq!(
        c.texture_path_candidates("tex/wood.png"),
        vec!["levels/demo/tex/wood.png".to_string(), "levels/tex/wood.png".to_string()]
    );
    let root = ModelLoadConfig::from_scene_path("/");
    assert_eq!(root.texture_path_candidates("a.png"), vec!["./a.png".to_string(), "a.png".to_string()]);
}

#[test]
fn blank_matches_trim_for_every_char() {
    for u in 0u32..0x1_0000 {
        if let Some(c) = char::from_u32(u) {
            let s = c.to_string();
            assert_eq!(is_blank(&s), s.trim().is_empty(), "U+{:04X}", u);
        }
    }
}
