use flint_render::bitmap_font::FontGrid;
use flint_render::headless::{readback_layout, strip_row_padding};
use flint_render::particle_pipeline::ensure_capacity;
use flint_render::render_stats::FrameDraws;

fn test_grid() -> FontGrid {
    FontGrid {
        texture: "test_font.png".to_string(),
        glyph_width: 8,
        glyph_height: 16,
        columns: 16,
        first_char: 32,
        char_count: 95,
    }
}

#[test]
fn glyph_cell_space_is_first_cell() {
    let g = test_grid();
    assert!(g.layout_fits());
    assert_eq!(g.glyph_cell(' '), Some([0, 0, 8, 16]));
}

#[test]
fn glyph_cell_a() {
    // 'A' = 65, index 33: column 1, row 2.
    assert_eq!(test_grid().glyph_cell('A'), Some([8, 32, 16, 48]));
}

#[test]
fn glyph_cell_out_of_range() {
    let g = test_grid();
    assert_eq!(g.glyph_cell('\x00'), None);
    assert_eq!(g.glyph_cell('\u{FF}'), None);
    assert_eq!(g.glyph_cell('~'), Some([112, 80, 120, 96]));
    assert_eq!(g.glyph_cell('\u{7F}'), None);
}

#[test]
fn font_grid_from_toml_with_defaults() {
    let g = FontGrid::from_toml(
        "[font]\ntexture = \"f.png\"\nglyph_width = 6\nglyph_height = 10\ncolumns = 12\nspacing = 1.5\n",
    )
    .unwrap();
    assert_eq!(g.texture, "f.png");
    assert_eq!((g.glyph_width, g.glyph_height, g.columns), (6, 10, 12));
    assert_eq!((g.first_char, g.char_count), (32, 95));
    let g = FontGrid::from_toml(
        "[font]\ntexture = \"f.png\"\nglyph_width = 6\nglyph_height = 10\ncolumns = 12\nfirst_char = 48\nchar_count = 10\n",
    )
    .unwrap();
    assert_eq!((g.first_char, g.char_count), (48, 10));
}

#[test]
fn font_grid_requires_fields() {
    assert!(FontGrid::from_toml("[font]\ntexture = \"f.png\"\nglyph_width = 6\nglyph_height = 10\n").is_none());
    assert!(FontGrid::from_toml("[font]\ntexture = 1\nglyph_width = 6\nglyph_height = 10\ncolumns = 2\n").is_none());
    assert!(FontGrid::from_toml("not toml [").is_none());
    assert!(FontGrid::from_toml("[other]\n").is_none());
}

#[test]
fn font_grid_fit_check() {
    let mut g = test_grid();
    g.columns = 0;
    assert!(!g.layout_fits());
    let mut g = test_grid();
    g.glyph_width = u32::MAX;
    assert!(!g.layout_fits());
    let mut g = test_grid();
    g.first_char = u32::MAX;
    assert!(!g.layout_fits());
}

#[test]
fn particle_capacity_growth() {
    let mut cap = 1024;
    assert!(!ensure_capacity(&mut cap, 1000));
    assert_eq!(cap, 1024);
    assert!(ensure_capacity(&mut cap, 1025));
    assert_eq!(cap, 2048);
    let mut small = 0;
    assert!(ensure_capacity(&mut small, 5));
    assert_eq!(small, 1024);
    assert!(ensure_capacity(&mut cap, 0x8000_0000));
    assert_eq!(cap, 0x8000_0000);
    let mut c = 4096;
    assert!(ensure_capacity(&mut c, 4097));
    assert_eq!(c, 8192);
}

#[test]
fn readback_row_layout() {
    assert_eq!(readback_layout(64, 2), (256, 256, 512));
    assert_eq!(readback_layout(65, 3), (260, 512, 1536));
    assert_eq!(readback_layout(1, 1), (4, 256, 256));
    assert_eq!(readback_layout(0, 5), (0, 0, 0));
}

#[test]
fn strip_padding_keeps_row_starts() {
    let data: Vec<u8> = (0..24).collect();
    assert_eq!(strip_row_padding(&data, 3, 8, 3), vec![0, 1, 2, 8, 9, 10, 16, 17, 18]);
    assert_eq!(strip_row_padding(&data, 8, 8, 2), (0..16).collect::<Vec<u8>>());
    assert!(strip_row_padding(&data, 3, 8, 0).is_empty());
}

#[test]
fn frame_statistics() {
    let draws = FrameDraws {
        entity_index_counts: vec![36, 6, 4],
        skinned_index_counts: vec![300],
        transparent_index_counts: vec![12],
        transparent_skinned_index_counts: vec![],
        terrain_index_counts: vec![600, 600],
        terrain_visible_chunks: 2,
        terrain_total_chunks: 16,
        billboard_draws: 3,
        particle_instance_counts: vec![10, 20],
        sprite_instance_counts: vec![5],
        grass_instance_count: 100,
    };
    assert!(draws.counts_fit());
    let s = draws.collect_stats();
    assert_eq!(s.entity_draws, 3);
    assert_eq!(s.skinned_draws, 1);
    assert_eq!(s.terrain_draws, 2);
    assert_eq!(s.transparent_draws, 1);
    assert_eq!(s.particle_draws, 2);
    assert_eq!(s.particle_instances, 30);
    assert_eq!(s.sprite_batches, 1);
    assert_eq!(s.grass_draw_calls, 1);
    assert_eq!(s.draw_calls, 3 + 1 + 2 + 1 + 3 + 2 + 1 + 1);
    // 12 + 2 + 1 + 100 + 4 + 400 + 6 + 60 + 10 + 1200
    assert_eq!(s.triangles, 12 + 2 + 1 + 100 + 4 + 200 + 200 + 6 + 60 + 10 + 1200);
    assert_eq!(s.shadow_draw_calls, 3 * 6);
    assert_eq!(s.shadow_triangles, 3 * (15 + 100 + 400));
    assert_eq!(s.terrain_total_chunks, 16);
}

#[test]
fn frame_statistics_overflow_detected() {
    let draws = FrameDraws {
        entity_index_counts: vec![],
        skinned_index_counts: vec![],
        transparent_index_counts: vec![],
        transparent_skinned_index_counts: vec![],
        terrain_index_counts: vec![],
        terrain_visible_chunks: 0,
        terrain_total_chunks: 0,
        billboard_draws: 0,
        particle_instance_counts: vec![u32::MAX, 1],
        sprite_instance_counts: vec![],
        grass_instance_count: 0,
    };
    assert!(!draws.counts_fit());
}
