use flint_render::sprite_batch::{batch_sprite2d_instances, sprite_batches, sprite_draw_order, text_precedes};

fn keys(v: &[(i32, &str)]) -> Vec<(i32, String)> {
    v.iter().map(|(l, t)| (*l, t.to_string())).collect()
}

#[test]
fn sprite_order_by_layer_then_texture_stable() {
    let k = keys(&[(1, "b"), (0, "a"), (1, "a"), (0, "b"), (0, "a")]);
    assert_eq!(sprite_draw_order(&k), vec![1, 4, 3, 2, 0]);
    let (order, batches) = batch_sprite2d_instances(&k);
    assert_eq!(order, vec![1, 4, 3, 2, 0]);
    assert_eq!(batches, vec![(0, 2), (2, 3), (3, 4), (4, 5)]);
}

#[test]
fn sprite_batches_merge_same_texture_across_layers() {
    let k = keys(&[(1, "x"), (0, "x"), (-3, "x")]);
    let (order, batches) = batch_sprite2d_instances(&k);
    assert_eq!(order, vec![2, 1, 0]);
    assert_eq!(batches, vec![(0, 3)]);
}

#[test]
fn sprite_batches_empty_and_single() {
    let (order, batches) = batch_sprite2d_instances(&Vec::new());
    assert!(order.is_empty() && batches.is_empty());
    assert_eq!(sprite_batches(&vec!["".to_string()]), vec![(0, 1)]);
}

#[test]
fn sprite_order_matches_std_stable_sort() {
    let k = keys(&[
        (2, "zeta"), (0, "alpha"), (2, "Zeta"), (0, ""), (1, "é"), (1, "e"), (0, "alpha"),
        (2, "zeta"), (-1, "b"), (1, "ea"),
    ]);
    let mut expected: Vec<usize> = (0..k.len()).collect();
    expected.sort_by(|&a, &b| k[a].0.cmp(&k[b].0).then_with(|| k[a].1.cmp(&k[b].1)));
    assert_eq!(sprite_draw_order(&k), expected);
}

#[test]
fn text_order() {
    assert!(text_precedes("", "a"));
    assert!(!text_precedes("a", ""));
    assert!(text_precedes("ab", "b"));
    assert!(text_precedes("Z", "a"));
    assert!(text_precedes("e", "é"));
    assert!(!text_precedes("same", "same"));
}
