//! Texture atlas support: parses `.atlas.toml` documents and resolves named
//! regions to pixel-space `[x, y, w, h]` rectangles.
//!
//! Atlas TOML format:
//! ```toml
//! [atlas]
//! texture = "assets/textures/player_sheet.png"
//!
//! [atlas.regions]
//! idle_0 = [0, 0, 64, 64]
//! run_0  = [0, 64, 64, 64]
//! ```

use vstd::prelude::*;
use vstd::hash_map::StringHashMap;
use crate::toml_doc::{TomlValue, toml_document, parse_toml, toml_get, value_get};

verus! {

broadcast use vstd::hash_map::group_hash_map_axioms;

/// A parsed texture atlas: maps region names to pixel-space `[x, y, w, h]`.
pub struct TextureAtlas {
    /// The texture file this atlas refers to
    pub texture: String,
    /// Named regions: name to [x, y, w, h] in pixels
    pub regions: StringHashMap<[u32; 4]>,
}

/// What an atlas holds: its texture name and its named regions.
pub struct AtlasView {
    pub texture: Seq<char>,
    pub regions: Map<Seq<char>, [u32; 4]>,
}

impl View for TextureAtlas {
    type V = AtlasView;

    open spec fn view(&self) -> AtlasView {
        AtlasView { texture: self.texture@, regions: self.regions@ }
    }
}

/// The rectangle an atlas entry describes: an array of exactly four integers,
/// each truncated to `u32`; anything else describes none.
pub open spec fn region_rect(v: TomlValue) -> Option<[u32; 4]> {
    match v {
        TomlValue::Array(items) => {
            if items@.len() == 4 {
                match (items@[0], items@[1], items@[2], items@[3]) {
                    (
                        TomlValue::Integer(x),
                        TomlValue::Integer(y),
                        TomlValue::Integer(w),
                        TomlValue::Integer(h),
                    ) => Some([x as u32, y as u32, w as u32, h as u32]),
                    _ => None,
                }
            } else {
                None
            }
        },
        _ => None,
    }
}

/// The regions described by table entries, later entries overriding earlier ones.
pub open spec fn regions_of(entries: Seq<(String, TomlValue)>) -> Map<Seq<char>, [u32; 4]>
    decreases entries.len(),
{
    if entries.len() == 0 {
        Map::empty()
    } else {
        let prev = regions_of(entries.drop_last());
        match region_rect(entries.last().1) {
            Some(r) => prev.insert(entries.last().0@, r),
            None => prev,
        }
    }
}

/// The regions of an `atlas` table: those of its `regions` table, if it has one.
pub open spec fn atlas_regions(atlas: TomlValue) -> Map<Seq<char>, [u32; 4]> {
    match value_get(atlas, "regions"@) {
        Some(TomlValue::Table(entries)) => regions_of(entries@),
        _ => Map::empty(),
    }
}

/// The atlas a parsed document describes, or the message for what is missing.
pub open spec fn atlas_from_document(doc: TomlValue) -> Result<AtlasView, Seq<char>> {
    match value_get(doc, "atlas"@) {
        None => Err("Missing [atlas] table"@),
        Some(atlas) => match value_get(atlas, "texture"@) {
            Some(TomlValue::String(t)) => Ok(AtlasView { texture: t@, regions: atlas_regions(atlas) }),
            _ => Err("Missing atlas.texture string"@),
        },
    }
}

/// The atlas a TOML text describes, or the error message.
pub open spec fn atlas_from_text(text: Seq<char>) -> Result<AtlasView, Seq<char>> {
    match toml_document(text) {
        Err(e) => Err("Atlas TOML parse error: "@ + e),
        Ok(doc) => atlas_from_document(doc),
    }
}

/// Reads one region entry's value.
fn read_region(v: &TomlValue) -> (r: Option<[u32; 4]>)
    ensures
        r == region_rect(*v),
{
    match v {
        TomlValue::Array(items) => {
            if items.len() == 4 {
                match (&items[0], &items[1], &items[2], &items[3]) {
                    (
                        TomlValue::Integer(x),
                        TomlValue::Integer(y),
                        TomlValue::Integer(w),
                        TomlValue::Integer(h),
                    ) => Some([*x as u32, *y as u32, *w as u32, *h as u32]),
                    _ => None,
                }
            } else {
                None
            }
        },
        _ => None,
    }
}

impl TextureAtlas {
    /// Build an atlas from a parsed TOML document.
    pub fn from_toml_value(doc: &TomlValue) -> (r: Result<TextureAtlas, String>)
        ensures
            match r {
                Ok(a) => atlas_from_document(*doc) == Ok::<AtlasView, Seq<char>>(a@),
                Err(e) => atlas_from_document(*doc) == Err::<AtlasView, Seq<char>>(e@),
            },
    {
        let atlas = match toml_get(doc, "atlas") {
            Some(a) => a,
            None => {
                return Err(String::from_str("Missing [atlas] table"));
            },
        };
        let texture = match toml_get(atlas, "texture") {
            Some(TomlValue::String(t)) => t.clone(),
            _ => {
                return Err(String::from_str("Missing atlas.texture string"));
            },
        };
        let mut regions: StringHashMap<[u32; 4]> = StringHashMap::new();
        match toml_get(atlas, "regions") {
            Some(TomlValue::Table(entries)) => {
                let n = entries.len();
                let mut i: usize = 0;
                while i < n
                    invariant
                        n == entries@.len(),
                        i <= n,
                        regions@ == regions_of(entries@.take(i as int)),
                    decreases n - i,
                {
                    assert(entries@.take(i + 1).drop_last() =~= entries@.take(i as int));
                    assert(entries@.take(i + 1).last() == entries@[i as int]);
                    match read_region(&entries[i].1) {
                        Some(rect) => {
                            regions.insert(entries[i].0.clone(), rect);
                        },
                        None => {},
                    }
                    i = i + 1;
                }
                assert(entries@.take(n as int) =~= entries@);
            },
            _ => {},
        }
        let result = TextureAtlas { texture, regions };
        assert(result@.regions =~= atlas_regions(*atlas));
        Ok(result)
    }

    /// Parse an atlas from a TOML string.
    pub fn from_toml(toml_str: &str) -> (r: Result<TextureAtlas, String>)
        ensures
            match r {
                Ok(a) => atlas_from_text(toml_str@) == Ok::<AtlasView, Seq<char>>(a@),
                Err(e) => atlas_from_text(toml_str@) == Err::<AtlasView, Seq<char>>(e@),
            },
    {
        match parse_toml(toml_str) {
            Ok(doc) => TextureAtlas::from_toml_value(&doc),
            Err(e) => {
                let mut msg = String::from_str("Atlas TOML parse error: ");
                msg.append(e.as_str());
                Err(msg)
            },
        }
    }
}

/// Registry of loaded texture atlases, keyed by texture name.
pub struct AtlasRegistry {
    atlases: StringHashMap<TextureAtlas>,
}

impl View for AtlasRegistry {
    type V = Map<Seq<char>, AtlasView>;

    closed spec fn view(&self) -> Map<Seq<char>, AtlasView> {
        self.atlases@.map_values(|a: TextureAtlas| a@)
    }
}

/// The rectangle of `region` in the atlas registered for `texture`, if both exist.
pub open spec fn resolved(reg: Map<Seq<char>, AtlasView>, texture: Seq<char>, region: Seq<char>) -> Option<
    [u32; 4],
> {
    if reg.contains_key(texture) && reg[texture].regions.contains_key(region) {
        Some(reg[texture].regions[region])
    } else {
        None
    }
}

impl AtlasRegistry {
    /// An empty registry.
    pub fn new() -> (r: AtlasRegistry)
        ensures
            r@ == Map::<Seq<char>, AtlasView>::empty(),
    {
        let r = AtlasRegistry { atlases: StringHashMap::new() };
        assert(r@ =~= Map::<Seq<char>, AtlasView>::empty());
        r
    }

    /// Register an atlas under its texture name, replacing any atlas registered
    /// under that name before.
    pub fn insert(&mut self, atlas: TextureAtlas)
        ensures
            final(self)@ == old(self)@.insert(atlas.texture@, atlas@),
    {
        let key = atlas.texture.clone();
        let ghost a = atlas@;
        self.atlases.insert(key, atlas);
        assert(self@ =~= old(self)@.insert(a.texture, a));
    }

    /// Resolve a region name within a texture's atlas.
    /// Returns `[x, y, w, h]` in pixels if found.
    pub fn resolve(&self, texture: &str, region: &str) -> (r: Option<[u32; 4]>)
        ensures
            r == resolved(self@, texture@, region@),
    {
        match self.atlases.get(texture) {
            Some(a) => match a.regions.get(region) {
                Some(rect) => Some(*rect),
                None => None,
            },
            None => None,
        }
    }
}

impl Default for AtlasRegistry {
    fn default() -> (r: AtlasRegistry)
        ensures
            r@ == Map::<Seq<char>, AtlasView>::empty(),
    {
        AtlasRegistry::new()
    }
}

/// A region is resolved from the atlas registered last under its texture name;
/// registering an atlas leaves every other texture's lookups unchanged.
pub proof fn law_resolve_after_insert(
    reg: Map<Seq<char>, AtlasView>,
    atlas: AtlasView,
    texture: Seq<char>,
    region: Seq<char>,
)
    ensures
        resolved(reg.insert(atlas.texture, atlas), texture, region) == (if texture
            == atlas.texture {
            if atlas.regions.contains_key(region) {
                Some(atlas.regions[region])
            } else {
                None
            }
        } else {
            resolved(reg, texture, region)
        }),
{
}

/// Nothing resolves in an empty registry.
pub proof fn law_empty_registry_resolves_nothing(texture: Seq<char>, region: Seq<char>)
    ensures
        resolved(Map::empty(), texture, region) is None,
{
}

/// Every region an atlas holds came from an entry whose value is an array of
/// four integers, under that entry's name.
pub proof fn law_regions_come_from_entries(entries: Seq<(String, TomlValue)>, name: Seq<char>)
    ensures
        regions_of(entries).contains_key(name) ==> exists|i: int|
            0 <= i < entries.len() && #[trigger] entries[i].0@ == name && region_rect(entries[i].1)
                == Some(regions_of(entries)[name]),
    decreases entries.len(),
{
    if entries.len() > 0 {
        let init = entries.drop_last();
        law_regions_come_from_entries(init, name);
        if regions_of(entries).contains_key(name) {
            if regions_of(init).contains_key(name) && regions_of(entries)[name] == regions_of(
                init,
            )[name] {
                let i = choose|i: int|
                    0 <= i < init.len() && #[trigger] init[i].0@ == name && region_rect(init[i].1)
                        == Some(regions_of(init)[name]);
                assert(entries[i] == init[i]);
            } else {
                assert(entries[entries.len() - 1] == entries.last());
            }
        }
    }
}

/// A region entry of four integers, each in `0..2^32`, gives exactly those
/// four integers as its `[x, y, w, h]` rectangle.
pub proof fn law_region_rect_exact(v: TomlValue, x: i64, y: i64, w: i64, h: i64)
    requires
        v matches TomlValue::Array(items) && items@ == seq![
            TomlValue::Integer(x),
            TomlValue::Integer(y),
            TomlValue::Integer(w),
            TomlValue::Integer(h),
        ],
        0 <= x < 0x1_0000_0000,
        0 <= y < 0x1_0000_0000,
        0 <= w < 0x1_0000_0000,
        0 <= h < 0x1_0000_0000,
    ensures
        region_rect(v) is Some,
        region_rect(v).unwrap()@.map_values(|c: u32| c as int) == seq![
            x as int,
            y as int,
            w as int,
            h as int,
        ],
{
    let r = region_rect(v).unwrap();
    assert(r@.map_values(|c: u32| c as int) =~= seq![x as int, y as int, w as int, h as int]);
}

/// A table entry that describes a rectangle sets its name's region to that
/// rectangle, over whatever an earlier entry of the same name set; an entry
/// that describes none leaves the regions as they were.
pub proof fn law_region_entry_recorded(
    entries: Seq<(String, TomlValue)>,
    name: String,
    v: TomlValue,
)
    ensures
        region_rect(v) matches Some(r) ==> regions_of(entries.push((name, v))) == regions_of(
            entries,
        ).insert(name@, r),
        region_rect(v) is None ==> regions_of(entries.push((name, v))) == regions_of(entries),
{
    assert(entries.push((name, v)).drop_last() =~= entries);
}

} // verus!
