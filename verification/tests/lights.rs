use flint_render::lights::{assign_light_slots, LightKind};

fn types(v: &[Option<&str>]) -> Vec<Option<String>> {
    v.iter().map(|t| t.map(|s| s.to_string())).collect()
}

#[test]
fn lights_fill_their_own_slots() {
    let r = assign_light_slots(&types(&[None, Some("point"), Some("spot"), Some("directional"), Some("area")]));
    assert_eq!(
        r.slots,
        vec![
            Some((LightKind::Directional, 0)),
            Some((LightKind::Point, 0)),
            Some((LightKind::Spot, 0)),
            Some((LightKind::Directional, 1)),
            None
        ]
    );
    assert_eq!((r.directional_count, r.point_count, r.spot_count), (2, 1, 1));
    assert!(!r.use_defaults);
}

#[test]
fn lights_beyond_capacity_are_dropped() {
    let r = assign_light_slots(&types(&[Some("directional"); 6]));
    assert_eq!(r.directional_count, 4);
    assert_eq!(r.slots[3], Some((LightKind::Directional, 3)));
    assert_eq!(r.slots[4], None);
    assert_eq!(r.slots[5], None);
    let r = assign_light_slots(&types(&[Some("spot"); 9]));
    assert_eq!(r.spot_count, 8);
    assert_eq!(r.slots[8], None);
    let r = assign_light_slots(&types(&[Some("point"); 17]));
    assert_eq!(r.point_count, 16);
}

#[test]
fn no_lights_use_defaults() {
    assert!(assign_light_slots(&Vec::new()).use_defaults);
    assert!(assign_light_slots(&types(&[Some("Point"), Some("")])).use_defaults);
}
