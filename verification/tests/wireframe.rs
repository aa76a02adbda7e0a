use flint_render::triangles_to_wireframe_indices;

#[test]
fn wireframe_single_triangle() {
    assert_eq!(triangles_to_wireframe_indices(&[2, 0, 1]), vec![0, 2, 0, 1, 1, 2]);
}

#[test]
fn wireframe_shared_edge_once() {
    // Two triangles of a quad share the diagonal 0-2.
    let lines = triangles_to_wireframe_indices(&[0, 1, 2, 0, 2, 3]);
    assert_eq!(lines, vec![0, 1, 1, 2, 0, 2, 2, 3, 0, 3]);
}

#[test]
fn wireframe_ignores_trailing_partial_triangle() {
    assert_eq!(triangles_to_wireframe_indices(&[0, 1, 2, 7, 8]), vec![0, 1, 1, 2, 0, 2]);
    assert!(triangles_to_wireframe_indices(&[4, 5]).is_empty());
    assert!(triangles_to_wireframe_indices(&[]).is_empty());
}

#[test]
fn wireframe_degenerate_and_repeated_triangles() {
    assert_eq!(triangles_to_wireframe_indices(&[3, 3, 3, 3, 3, 3]), vec![3, 3]);
    assert_eq!(
        triangles_to_wireframe_indices(&[u32::MAX, 0, 1, 1, 0, u32::MAX]),
        vec![0, u32::MAX, 0, 1, 1, u32::MAX]
    );
}

#[test]
fn wireframe_box_has_eighteen_edges() {
    // A cube of 12 triangles: 12 outer edges plus 6 face diagonals.
    let idx: Vec<u32> = vec![
        0, 1, 2, 0, 2, 3, 4, 6, 5, 4, 7, 6, 0, 4, 5, 0, 5, 1, 1, 5, 6, 1, 6, 2, 2, 6, 7, 2, 7, 3,
        3, 7, 4, 3, 4, 0,
    ];
    let lines = triangles_to_wireframe_indices(&idx);
    assert_eq!(lines.len(), 36);
    let mut pairs: Vec<(u32, u32)> = lines.chunks(2).map(|p| (p[0], p[1])).collect();
    assert!(pairs.iter().all(|(a, b)| a <= b));
    pairs.sort();
    pairs.dedup();
    assert_eq!(pairs.len(), 18);
}
