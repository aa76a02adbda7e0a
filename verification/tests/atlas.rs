use flint_render::atlas::{AtlasRegistry, TextureAtlas};
use flint_render::toml_doc::TomlValue;

#[test]
fn test_atlas_parse() {
    let toml = r#"
[atlas]
texture = "player_sheet.png"

[atlas.regions]
idle_0 = [0, 0, 64, 64]
run_0 = [64, 0, 64, 64]
run_1 = [128, 0, 64, 64]
"#;
    let atlas = TextureAtlas::from_toml(toml).unwrap();
    assert_eq!(atlas.texture, "player_sheet.png");
    assert_eq!(atlas.regions.len(), 3);
    assert_eq!(atlas.regions.get("idle_0"), Some(&[0, 0, 64, 64]));
    assert_eq!(atlas.regions.get("run_1"), Some(&[128, 0, 64, 64]));
}

#[test]
fn test_atlas_registry_resolve() {
    let toml = r#"
[atlas]
texture = "sprites.png"

[atlas.regions]
hero = [0, 0, 32, 32]
"#;
    let atlas = TextureAtlas::from_toml(toml).unwrap();
    let mut registry = AtlasRegistry::new();
    registry.insert(atlas);

    assert_eq!(
        registry.resolve("sprites.png", "hero"),
        Some([0, 0, 32, 32])
    );
    assert_eq!(registry.resolve("sprites.png", "missing"), None);
    assert_eq!(registry.resolve("other.png", "hero"), None);
}

fn err_of(r: Result<TextureAtlas, String>) -> String {
    match r {
        Ok(_) => panic!("expected an error"),
        Err(e) => e,
    }
}

#[test]
fn atlas_missing_table_is_rejected() {
    let e = err_of(TextureAtlas::from_toml("[other]\nx = 1\n"));
    assert_eq!(e, "Missing [atlas] table");
}

#[test]
fn atlas_missing_texture_is_rejected() {
    let e = err_of(TextureAtlas::from_toml("[atlas]\ntexture = 3\n"));
    assert_eq!(e, "Missing atlas.texture string");
    let e = err_of(TextureAtlas::from_toml("atlas = 5\n"));
    assert_eq!(e, "Missing atlas.texture string");
}

#[test]
fn atlas_parse_error_is_reported() {
    let e = err_of(TextureAtlas::from_toml("[atlas\ntexture = "));
    assert!(e.starts_with("Atlas TOML parse error: "));
    assert!(e.len() > "Atlas TOML parse error: ".len());
}

#[test]
fn atlas_ignores_malformed_regions() {
    let toml = r#"
[atlas]
texture = "t.png"

[atlas.regions]
good = [1, 2, 3, 4]
short = [1, 2, 3]
long = [1, 2, 3, 4, 5]
floaty = [1, 2.5, 3, 4]
text = "nope"
wrapped = [-1, 4294967296, 4294967297, 7]
"#;
    let atlas = TextureAtlas::from_toml(toml).unwrap();
    assert_eq!(atlas.regions.len(), 2);
    assert_eq!(atlas.regions.get("good"), Some(&[1, 2, 3, 4]));
    assert_eq!(atlas.regions.get("wrapped"), Some(&[u32::MAX, 0, 1, 7]));
    assert_eq!(atlas.regions.get("short"), None);
}

#[test]
fn atlas_without_regions_table_has_no_regions() {
    let atlas = TextureAtlas::from_toml("[atlas]\ntexture = \"a.png\"\nregions = 4\n").unwrap();
    assert_eq!(atlas.texture, "a.png");
    assert_eq!(atlas.regions.len(), 0);
}

#[test]
fn atlas_from_document_value() {
    let region = TomlValue::Array(vec![
        TomlValue::Integer(5),
        TomlValue::Integer(6),
        TomlValue::Integer(7),
        TomlValue::Integer(8),
    ]);
    let atlas_table = TomlValue::Table(vec![
        ("texture".to_string(), TomlValue::String("doc.png".to_string())),
        ("regions".to_string(), TomlValue::Table(vec![("r".to_string(), region)])),
    ]);
    let doc = TomlValue::Table(vec![("atlas".to_string(), atlas_table)]);
    let atlas = TextureAtlas::from_toml_value(&doc).unwrap();
    assert_eq!(atlas.texture, "doc.png");
    assert_eq!(atlas.regions.get("r"), Some(&[5, 6, 7, 8]));
}

#[test]
fn registry_later_insert_replaces_earlier() {
    let a = TextureAtlas::from_toml("[atlas]\ntexture = \"s.png\"\n[atlas.regions]\nx = [1, 1, 1, 1]\n").unwrap();
    let b = TextureAtlas::from_toml("[atlas]\ntexture = \"s.png\"\n[atlas.regions]\ny = [2, 2, 2, 2]\n").unwrap();
    let c = TextureAtlas::from_toml("[atlas]\ntexture = \"t.png\"\n[atlas.regions]\nx = [3, 3, 3, 3]\n").unwrap();
    let mut registry = AtlasRegistry::default();
    assert_eq!(registry.resolve("s.png", "x"), None);
    registry.insert(a);
    registry.insert(c);
    assert_eq!(registry.resolve("s.png", "x"), Some([1, 1, 1, 1]));
    registry.insert(b);
    assert_eq!(registry.resolve("s.png", "x"), None);
    assert_eq!(registry.resolve("s.png", "y"), Some([2, 2, 2, 2]));
    assert_eq!(registry.resolve("t.png", "x"), Some([3, 3, 3, 3]));
}
