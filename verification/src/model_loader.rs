//! Path resolution for model and texture assets named by a scene.
//!
//! A scene's assets are looked up next to the scene file and one directory
//! above it, after any pre-resolved override. This module decides the
//! candidate paths and their order; checking which exists is left to the caller.

use vstd::prelude::*;
use vstd::hash_map::StringHashMap;

verus! {

broadcast use vstd::hash_map::group_hash_map_axioms;

/// The parent that `std::path::Path::parent` gives for a path, as text.
pub uninterp spec fn path_parent(path: Seq<char>) -> Option<Seq<char>>;

/// The path that `std::path::Path::join` gives for a base and a part, as text.
pub uninterp spec fn path_joined(base: Seq<char>, part: Seq<char>) -> Seq<char>;

/// `Path::new(path).parent()`, as text.
/// Trusted: the result depends on the path text alone, named [`path_parent`].
#[verifier::external_body]
fn parent_of(path: &str) -> (r: Option<String>)
    ensures
        match r {
            Some(p) => path_parent(path@) == Some(p@),
            None => path_parent(path@) is None,
        },
{
    std::path::Path::new(path).parent().map(|p| p.to_string_lossy().into_owned())
}

/// `Path::new(base).join(part)`, as text.
/// Trusted: the result depends on the two texts alone, named [`path_joined`].
#[verifier::external_body]
fn join_path(base: &str, part: &str) -> (r: String)
    ensures
        r@ == path_joined(base@, part@),
{
    std::path::Path::new(base).join(part).to_string_lossy().into_owned()
}

/// Configuration for model and texture path resolution.
pub struct ModelLoadConfig {
    /// Directory of the scene file.
    pub scene_dir: String,
    /// Pre-resolved paths for specific asset names (e.g. from catalog lookup).
    /// Checked before the standard scene_dir/models/ search.
    pub overrides: StringHashMap<String>,
}

/// The scene directory for a scene file path: its parent, or `.` when it has none.
pub open spec fn scene_dir_of(scene_path: Seq<char>) -> Seq<char> {
    match path_parent(scene_path) {
        Some(p) => p,
        None => "."@,
    }
}

/// The override path for a name, as a one-element or empty list.
pub open spec fn override_candidates(overrides: Map<Seq<char>, String>, name: Seq<char>) -> Seq<
    Seq<char>,
> {
    if overrides.contains_key(name) {
        seq![overrides[name]@]
    } else {
        Seq::empty()
    }
}

/// `dir/models/<asset>.glb`.
pub open spec fn model_file_in(dir: Seq<char>, asset: Seq<char>) -> Seq<char> {
    path_joined(path_joined(dir, "models"@), asset + ".glb"@)
}

/// The paths tried for a model asset, in order: its override, the scene's
/// `models` directory, then the `models` directory beside the scene directory.
pub open spec fn model_candidates(
    scene_dir: Seq<char>,
    overrides: Map<Seq<char>, String>,
    asset: Seq<char>,
) -> Seq<Seq<char>> {
    override_candidates(overrides, asset) + seq![model_file_in(scene_dir, asset)] + match path_parent(
        scene_dir,
    ) {
        Some(p) => seq![model_file_in(p, asset)],
        None => Seq::empty(),
    }
}

/// The paths tried for a texture, in order: its override, the scene
/// directory, then the directory above it.
pub open spec fn texture_candidates(
    scene_dir: Seq<char>,
    overrides: Map<Seq<char>, String>,
    tex: Seq<char>,
) -> Seq<Seq<char>> {
    override_candidates(overrides, tex) + seq![path_joined(scene_dir, tex)] + match path_parent(
        scene_dir,
    ) {
        Some(p) => seq![path_joined(p, tex)],
        None => Seq::empty(),
    }
}

/// The views of a list of strings.
pub open spec fn views(v: Seq<String>) -> Seq<Seq<char>> {
    v.map_values(|s: String| s@)
}

impl ModelLoadConfig {
    /// Create a config from a scene file path, with no overrides.
    pub fn from_scene_path(scene_path: &str) -> (c: ModelLoadConfig)
        ensures
            c.scene_dir@ == scene_dir_of(scene_path@),
            c.overrides@ == Map::<Seq<char>, String>::empty(),
    {
        let scene_dir = match parent_of(scene_path) {
            Some(p) => p,
            None => String::from_str("."),
        };
        ModelLoadConfig { scene_dir, overrides: StringHashMap::new() }
    }

    /// The override path for a name, if any, as the start of a candidate list.
    fn override_list(&self, name: &str) -> (r: Vec<String>)
        ensures
            views(r@) == override_candidates(self.overrides@, name@),
    {
        let mut r: Vec<String> = Vec::new();
        match self.overrides.get(name) {
            Some(p) => {
                r.push(p.clone());
            },
            None => {},
        }
        assert(views(r@) =~= override_candidates(self.overrides@, name@));
        r
    }

    /// The file paths to try, in order, for a model asset name; the first
    /// that exists is the model file.
    pub fn model_path_candidates(&self, asset_name: &str) -> (r: Vec<String>)
        ensures
            views(r@) == model_candidates(self.scene_dir@, self.overrides@, asset_name@),
    {
        let mut r = self.override_list(asset_name);
        let ghost start = views(r@);
        let mut file_name = String::from_str(asset_name);
        file_name.append(".glb");
        let models = join_path(self.scene_dir.as_str(), "models");
        r.push(join_path(models.as_str(), file_name.as_str()));
        let ghost mid = views(r@);
        assert(mid =~= start + seq![model_file_in(self.scene_dir@, asset_name@)]);
        match parent_of(self.scene_dir.as_str()) {
            Some(p) => {
                let up_models = join_path(p.as_str(), "models");
                r.push(join_path(up_models.as_str(), file_name.as_str()));
                assert(views(r@) =~= mid + seq![model_file_in(p@, asset_name@)]);
            },
            None => {
                assert(views(r@) =~= mid + Seq::<Seq<char>>::empty());
            },
        }
        r
    }

    /// The file paths to try, in order, for a texture name; the first that
    /// exists is the texture file.
    pub fn texture_path_candidates(&self, tex_name: &str) -> (r: Vec<String>)
        ensures
            views(r@) == texture_candidates(self.scene_dir@, self.overrides@, tex_name@),
    {
        let mut r = self.override_list(tex_name);
        let ghost start = views(r@);
        r.push(join_path(self.scene_dir.as_str(), tex_name));
        let ghost mid = views(r@);
        assert(mid =~= start + seq![path_joined(self.scene_dir@, tex_name@)]);
        match parent_of(self.scene_dir.as_str()) {
            Some(p) => {
                r.push(join_path(p.as_str(), tex_name));
                assert(views(r@) =~= mid + seq![path_joined(p@, tex_name@)]);
            },
            None => {
                assert(views(r@) =~= mid + Seq::<Seq<char>>::empty());
            },
        }
        r
    }
}

/// An override is always tried first, and at most three paths are tried.
pub proof fn law_override_first(
    scene_dir: Seq<char>,
    overrides: Map<Seq<char>, String>,
    asset: Seq<char>,
)
    ensures
        overrides.contains_key(asset) ==> model_candidates(scene_dir, overrides, asset)[0]
            == overrides[asset]@ && texture_candidates(scene_dir, overrides, asset)[0]
            == overrides[asset]@,
        1 <= model_candidates(scene_dir, overrides, asset).len() <= 3,
        1 <= texture_candidates(scene_dir, overrides, asset).len() <= 3,
{
}

/// The paths tried for an asset of a scene directory when no override names
/// it: the file in the scene directory, then the one in its parent, if the
/// scene directory has a parent.
pub open spec fn scene_paths(scene_dir: Seq<char>, file: spec_fn(Seq<char>) -> Seq<char>) -> Seq<
    Seq<char>,
> {
    match path_parent(scene_dir) {
        Some(p) => seq![file(scene_dir), file(p)],
        None => seq![file(scene_dir)],
    }
}

/// An override only adds a first candidate: with an override for a name, the
/// candidates are the override followed by exactly the candidates without it;
/// without one, they are the scene directory's path, then its parent's.
pub proof fn law_override_prepends(
    scene_dir: Seq<char>,
    overrides: Map<Seq<char>, String>,
    name: Seq<char>,
)
    ensures
        overrides.contains_key(name) ==> texture_candidates(scene_dir, overrides, name) == seq![
            overrides[name]@,
        ] + texture_candidates(scene_dir, overrides.remove(name), name),
        overrides.contains_key(name) ==> model_candidates(scene_dir, overrides, name) == seq![
            overrides[name]@,
        ] + model_candidates(scene_dir, overrides.remove(name), name),
        !overrides.contains_key(name) ==> texture_candidates(scene_dir, overrides, name)
            == scene_paths(scene_dir, |d: Seq<char>| path_joined(d, name)),
        !overrides.contains_key(name) ==> model_candidates(scene_dir, overrides, name)
            == scene_paths(scene_dir, |d: Seq<char>| model_file_in(d, name)),
{
    let rest = overrides.remove(name);
    assert(!rest.contains_key(name));
    assert(override_candidates(rest, name) =~= Seq::<Seq<char>>::empty());
    match path_parent(scene_dir) {
        Some(p) => {
            assert(texture_candidates(scene_dir, rest, name) =~= seq![
                path_joined(scene_dir, name),
                path_joined(p, name),
            ]);
            assert(model_candidates(scene_dir, rest, name) =~= seq![
                model_file_in(scene_dir, name),
                model_file_in(p, name),
            ]);
        },
        None => {
            assert(texture_candidates(scene_dir, rest, name) =~= seq![path_joined(scene_dir, name)]);
            assert(model_candidates(scene_dir, rest, name) =~= seq![model_file_in(scene_dir, name)]);
        },
    }
    if overrides.contains_key(name) {
        assert(texture_candidates(scene_dir, overrides, name) =~= seq![overrides[name]@]
            + texture_candidates(scene_dir, rest, name));
        assert(model_candidates(scene_dir, overrides, name) =~= seq![overrides[name]@]
            + model_candidates(scene_dir, rest, name));
    } else {
        assert(override_candidates(overrides, name) =~= Seq::<Seq<char>>::empty());
        assert(texture_candidates(scene_dir, overrides, name) =~= texture_candidates(
            scene_dir,
            rest,
            name,
        ));
        assert(model_candidates(scene_dir, overrides, name) =~= model_candidates(
            scene_dir,
            rest,
            name,
        ));
    }
}

} // verus!
