//! Asset references and the rules that map them to files.
use vstd::prelude::*;
use crate::text::{chars_of, string_of, seq_eq, append_chars};
use crate::paths::{components, is_absolute, path_components, path_is_absolute, views, spec_extension,
    spec_strip_prefix, spec_join, name_stem, extension, strip_prefix, join, name_stem_chars};

verus! {

/// Where an asset lives: embedded in the engine, or in the game's asset directory.
#[derive(Debug, Clone, Copy, PartialEq, Eq, Structural)]
pub enum AssetSource {
    Engine,
    Game,
}

/// A reference to an asset by source and slash-separated path.
#[derive(Debug, Clone)]
pub struct AssetRef {
    pub source: AssetSource,
    pub path: String,
}

impl PartialEq for AssetRef {
    fn eq(&self, other: &Self) -> (r: bool) {
        self.source == other.source && self.path == other.path
    }
}

impl vstd::std_specs::cmp::PartialEqSpecImpl for AssetRef {
    open spec fn obeys_eq_spec() -> bool {
        true
    }

    open spec fn eq_spec(&self, other: &Self) -> bool {
        self.source == other.source && self.path@ == other.path@
    }
}

impl AssetRef {
    /// An engine asset at `path`.
    pub fn engine(path: String) -> (a: AssetRef)
        ensures
            a.source == AssetSource::Engine,
            a.path@ == path@,
    {
        AssetRef { source: AssetSource::Engine, path }
    }

    /// A game asset at `path`.
    pub fn game(path: String) -> (a: AssetRef)
        ensures
            a.source == AssetSource::Game,
            a.path@ == path@,
    {
        AssetRef { source: AssetSource::Game, path }
    }

    /// A copy of this reference.
    pub fn copy(&self) -> (a: AssetRef)
        ensures
            a.source == self.source,
            a.path@ == self.path@,
    {
        AssetRef { source: self.source, path: self.path.clone() }
    }
}

/// Why a game asset path was refused.
#[derive(Debug, Clone, Copy, PartialEq, Eq, Structural)]
pub enum AssetPathError {
    NotRelative,
    LeavesAssetsRoot,
}

/// A game asset path must be relative and must not climb out of the assets root.
pub open spec fn spec_game_path_error(p: Seq<char>) -> Option<AssetPathError> {
    if is_absolute(p) {
        Some(AssetPathError::NotRelative)
    } else if components(p).contains(seq!['.', '.']) {
        Some(AssetPathError::LeavesAssetsRoot)
    } else {
        None
    }
}

/// Checks that a game asset path stays inside the assets root.
pub fn check_game_path(path: &str) -> (r: Result<(), AssetPathError>)
    ensures
        match r {
            Ok(()) => spec_game_path_error(path@) is None,
            Err(e) => spec_game_path_error(path@) == Some(e),
        },
{
    let p = chars_of(path);
    if path_is_absolute(p.as_slice()) {
        return Err(AssetPathError::NotRelative);
    }
    let comps = path_components(p.as_slice());
    let dotdot = vec!['.', '.'];
    assert(dotdot@ =~= seq!['.', '.']);
    let mut i: usize = 0;
    while i < comps.len()
        invariant
            i <= comps@.len(),
            dotdot@ == seq!['.', '.'],
            !is_absolute(p@),
            views(comps@) == components(p@),
            p@ == path@,
            forall|k: int| 0 <= k < i ==> comps@[k]@ != seq!['.', '.'],
        decreases comps@.len() - i,
    {
        if seq_eq(comps[i].as_slice(), dotdot.as_slice()) {
            assert(views(comps@)[i as int] == seq!['.', '.']);
            assert(components(p@)[i as int] == seq!['.', '.']);
            assert(components(p@).contains(seq!['.', '.']));
            return Err(AssetPathError::LeavesAssetsRoot);
        }
        i = i + 1;
    }
    proof {
        if components(p@).contains(seq!['.', '.']) {
            let k = choose|k: int| 0 <= k < components(p@).len() && components(p@)[k] == seq!['.', '.'];
            assert(comps@[k]@ == seq!['.', '.']);
        }
    }
    Ok(())
}

pub open spec fn wgsl() -> Seq<char> {
    seq!['w', 'g', 's', 'l']
}

pub open spec fn shaders() -> Seq<char> {
    seq!['s', 'h', 'a', 'd', 'e', 'r', 's']
}

/// Where a compiled game shader is read from: `.wgsl` files under `shaders/` map to
/// `<assets root>/.compiled/shaders/<rest>`.
pub open spec fn spec_compiled_shader_path(root: Seq<char>, relative: Seq<char>) -> Option<Seq<char>> {
    if spec_extension(relative) != Some(wgsl()) {
        None
    } else {
        match spec_strip_prefix(relative, shaders()) {
            Some(rest) => Some(spec_join(spec_join(spec_join(root, seq!['.', 'c', 'o', 'm', 'p', 'i', 'l', 'e', 'd']),
                shaders()), rest)),
            None => None,
        }
    }
}

pub fn compiled_shader_path(assets_root: &str, relative: &str) -> (out: Option<String>)
    ensures
        match out {
            Some(p) => spec_compiled_shader_path(assets_root@, relative@) == Some(p@),
            None => spec_compiled_shader_path(assets_root@, relative@) is None,
        },
{
    let ext = extension(relative);
    let wv = vec!['w', 'g', 's', 'l'];
    assert(wv@ =~= wgsl());
    let wgsl_s = string_of(wv.as_slice());
    let is_wgsl = match &ext {
        Some(e) => *e == wgsl_s,
        None => false,
    };
    if !is_wgsl {
        return None;
    }
    let sv = vec!['s', 'h', 'a', 'd', 'e', 'r', 's'];
    assert(sv@ =~= shaders());
    let shaders_s = string_of(sv.as_slice());
    let cv = vec!['.', 'c', 'o', 'm', 'p', 'i', 'l', 'e', 'd'];
    assert(cv@ =~= seq!['.', 'c', 'o', 'm', 'p', 'i', 'l', 'e', 'd']);
    let compiled_s = string_of(cv.as_slice());
    match strip_prefix(relative, shaders_s.as_str()) {
        Some(rest) => {
            let a = join(assets_root, compiled_s.as_str());
            let b = join(a.as_str(), shaders_s.as_str());
            Some(join(b.as_str(), rest.as_str()))
        },
        None => None,
    }
}

/// The file a game asset is read from: the compiled shader for `.wgsl` files under
/// `shaders/`, otherwise the path under the assets root.
pub open spec fn spec_game_asset_file(root: Seq<char>, relative: Seq<char>) -> Seq<char> {
    match spec_compiled_shader_path(root, relative) {
        Some(p) => p,
        None => spec_join(root, relative),
    }
}

/// Resolves a game asset path against the assets root, refusing paths that leave it.
pub fn resolve_game_path(assets_root: &str, path: &str) -> (r: Result<String, AssetPathError>)
    ensures
        match r {
            Ok(p) => spec_game_path_error(path@) is None && p@ == spec_game_asset_file(assets_root@, path@),
            Err(e) => spec_game_path_error(path@) == Some(e),
        },
{
    check_game_path(path)?;
    match compiled_shader_path(assets_root, path) {
        Some(p) => Ok(p),
        None => Ok(join(assets_root, path)),
    }
}

/// Whether any component of `path` is `target` (a cargo build directory).
pub open spec fn spec_path_contains_target(p: Seq<char>) -> bool {
    components(p).contains(seq!['t', 'a', 'r', 'g', 'e', 't'])
}

pub fn path_contains_target(path: &str) -> (b: bool)
    ensures
        b == spec_path_contains_target(path@),
{
    let p = chars_of(path);
    let comps = path_components(p.as_slice());
    let target = vec!['t', 'a', 'r', 'g', 'e', 't'];
    assert(target@ =~= seq!['t', 'a', 'r', 'g', 'e', 't']);
    let mut i: usize = 0;
    while i < comps.len()
        invariant
            i <= comps@.len(),
            target@ == seq!['t', 'a', 'r', 'g', 'e', 't'],
            views(comps@) == components(p@),
            p@ == path@,
            forall|k: int| 0 <= k < i ==> comps@[k]@ != seq!['t', 'a', 'r', 'g', 'e', 't'],
        decreases comps@.len() - i,
    {
        if seq_eq(comps[i].as_slice(), target.as_slice()) {
            assert(views(comps@)[i as int] == seq!['t', 'a', 'r', 'g', 'e', 't']);
            return true;
        }
        i = i + 1;
    }
    proof {
        if spec_path_contains_target(path@) {
            let k = choose|k: int| 0 <= k < components(p@).len() && components(p@)[k] == seq!['t', 'a', 'r',
                'g', 'e', 't'];
            assert(comps@[k]@ == seq!['t', 'a', 'r', 'g', 'e', 't']);
        }
    }
    false
}

/// The WESL module path of a shader file: `package::` followed by its components joined
/// with `::`, the extension dropped from the last one.
pub open spec fn module_parts(c: Seq<Seq<char>>) -> Seq<Seq<char>> {
    if c.len() == 0 {
        c
    } else {
        c.update(c.len() - 1, name_stem(c.last()))
    }
}

pub open spec fn join_module(parts: Seq<Seq<char>>) -> Seq<char>
    decreases parts.len(),
{
    if parts.len() == 0 {
        seq!['p', 'a', 'c', 'k', 'a', 'g', 'e']
    } else {
        join_module(parts.drop_last()) + seq![':', ':'] + parts.last()
    }
}

/// `None` when the path is absolute or climbs out with `..`.
pub open spec fn spec_wesl_module_path(p: Seq<char>) -> Option<Seq<char>> {
    if is_absolute(p) || components(p).contains(seq!['.', '.']) {
        None
    } else {
        Some(join_module(module_parts(components(p))))
    }
}

pub fn wesl_module_path(relative: &str) -> (out: Option<String>)
    ensures
        match out {
            Some(m) => spec_wesl_module_path(relative@) == Some(m@),
            None => spec_wesl_module_path(relative@) is None,
        },
{
    if check_game_path(relative).is_err() {
        return None;
    }
    let p = chars_of(relative);
    let mut comps = path_components(p.as_slice());
    let ghost full = views(comps@);
    if comps.len() > 0 {
        let last = comps.len() - 1;
        let stem = name_stem_chars(comps[last].as_slice());
        comps.set(last, stem);
        proof {
            assert(views(comps@) =~= module_parts(full));
        }
    } else {
        assert(views(comps@) =~= module_parts(full));
    }
    let mut module = vec!['p', 'a', 'c', 'k', 'a', 'g', 'e'];
    let mut i: usize = 0;
    proof {
        assert(views(comps@).take(0) =~= Seq::<Seq<char>>::empty());
    }
    while i < comps.len()
        invariant
            i <= comps@.len(),
            module@ == join_module(views(comps@).take(i as int)),
        decreases comps@.len() - i,
    {
        module.push(':');
        module.push(':');
        append_chars(&mut module, comps[i].as_slice());
        proof {
            let t = views(comps@).take(i + 1);
            assert(t.drop_last() =~= views(comps@).take(i as int));
            assert(t.last() == comps@[i as int]@);
            assert(module@ =~= join_module(t));
        }
        i = i + 1;
    }
    assert(views(comps@).take(i as int) =~= views(comps@));
    Some(string_of(module.as_slice()))
}

pub open spec fn sprite_shader_a() -> Seq<char> {
    seq!['s', 'h', 'a', 'd', 'e', 'r', 's', '/', 'e', 'n', 'g', 'i', 'n', 'e', '/', 's', 'p', 'r', 'i', 't', 'e',
        '.', 'w', 'g', 's', 'l']
}

pub open spec fn sprite_shader_b() -> Seq<char> {
    seq!['s', 'h', 'a', 'd', 'e', 'r', 's', '/', 's', 'p', 'r', 'i', 't', 'e', '.', 'w', 'g', 's', 'l']
}

/// Whether `path` names the engine's embedded sprite shader (the only engine asset).
pub fn is_embedded_sprite_shader(path: &str) -> (b: bool)
    ensures
        b == (path@ == sprite_shader_a() || path@ == sprite_shader_b()),
{
    let p = chars_of(path);
    let a = vec!['s', 'h', 'a', 'd', 'e', 'r', 's', '/', 'e', 'n', 'g', 'i', 'n', 'e', '/', 's', 'p', 'r', 'i', 't',
        'e', '.', 'w', 'g', 's', 'l'];
    let b = vec!['s', 'h', 'a', 'd', 'e', 'r', 's', '/', 's', 'p', 'r', 'i', 't', 'e', '.', 'w', 'g', 's', 'l'];
    assert(a@ =~= sprite_shader_a());
    assert(b@ =~= sprite_shader_b());
    seq_eq(p.as_slice(), a.as_slice()) || seq_eq(p.as_slice(), b.as_slice())
}

/// Where a running game looks for its packed assets, in order: `Game/assets.zepack` next
/// to the executable, then `assets.zepack` there.
pub fn asset_pack_candidates(exe_dir: &str) -> (out: Vec<String>)
    ensures
        out@.len() == 2,
        out@[0]@ == spec_join(spec_join(exe_dir@, "Game"@), "assets.zepack"@),
        out@[1]@ == spec_join(exe_dir@, "assets.zepack"@),
{
    let game = join(exe_dir, "Game");
    vec![join(game.as_str(), "assets.zepack"), join(exe_dir, "assets.zepack")]
}

/// The loose assets folder a running game uses when no asset pack could be opened: the
/// given fallback when the executable runs from a cargo `target` folder or has no
/// `assets` folder beside it (`exe_assets_exists`), else that folder.
pub fn runtime_assets_root(exe_dir: Option<&str>, exe_assets_exists: bool, fallback: &str) -> (root: String)
    ensures
        root@ == match exe_dir {
            Some(d) => if spec_path_contains_target(d@) || !exe_assets_exists {
                fallback@
            } else {
                spec_join(d@, "assets"@)
            },
            None => fallback@,
        },
{
    match exe_dir {
        Some(d) => {
            if path_contains_target(d) || !exe_assets_exists {
                crate::text::owned(fallback)
            } else {
                join(d, "assets")
            }
        },
        None => crate::text::owned(fallback),
    }
}

} // verus!
