//! Project descriptions: scene lists, main scene, and the paths a project derives.
use vstd::prelude::*;
use crate::text::{trimmed, trim_string, chars_of, string_of, seq_ends_with, ends_with, contains_char,
    seq_eq, lemma_trimmed_idempotent, lemma_trimmed_empty, lemma_trim_start_bounds, lemma_trim_end_bounds,
    is_ws, slice_chars, append_str, trim_start_from, trim_end_from};
use crate::paths::{spec_join, spec_parent, spec_file_name, spec_file_stem, spec_with_file_name,
    spec_strip_prefix, is_absolute, join, parent, file_name, file_stem, with_file_name, strip_prefix,
    path_is_absolute};
use crate::sorting::{string_views, strictly_sorted, sorted, sort_strings, sorted_unique, contains_string,
    strings_eq, lemma_strictly_sorted_unique};

verus! {

pub open spec fn scene_extension() -> Seq<char> {
    seq!['.', 'z', 'e', 's', 'c', 'e', 'n', 'e', '.', 'j', 's', 'o', 'n']
}

/// The file-name suffix of scene files.
pub fn scene_extension_chars() -> (out: Vec<char>)
    ensures
        out@ == scene_extension(),
{
    let v = vec!['.', 'z', 'e', 's', 'c', 'e', 'n', 'e', '.', 'j', 's', 'o', 'n'];
    assert(v@ =~= scene_extension());
    v
}

/// Why a scene name was refused.
#[derive(Debug, Clone, Copy, PartialEq, Eq)]
pub enum SceneNameError {
    Empty,
    SurroundingWhitespace,
    NotAFileStem,
    HasSceneExtension,
}

/// The first rule a scene name breaks, in the order they are checked.
pub open spec fn scene_name_error(s: Seq<char>) -> Option<SceneNameError> {
    if trimmed(s).len() == 0 {
        Some(SceneNameError::Empty)
    } else if s != trimmed(s) {
        Some(SceneNameError::SurroundingWhitespace)
    } else if s == seq!['.'] || s == seq!['.', '.'] || s.contains('/') || s.contains('\\') {
        Some(SceneNameError::NotAFileStem)
    } else if seq_ends_with(s, scene_extension()) {
        Some(SceneNameError::HasSceneExtension)
    } else {
        None
    }
}

/// Checks that `scene` is a bare, trimmed file stem without the scene extension.
pub fn validate_scene_name(scene: &str) -> (r: Result<(), SceneNameError>)
    ensures
        match r {
            Ok(()) => scene_name_error(scene@) is None,
            Err(e) => scene_name_error(scene@) == Some(e),
        },
{
    let chars = chars_of(scene);
    let t = crate::text::trim_chars(chars.as_slice());
    if t.len() == 0 {
        return Err(SceneNameError::Empty);
    }
    if !seq_eq(chars.as_slice(), t.as_slice()) {
        return Err(SceneNameError::SurroundingWhitespace);
    }
    let dot = vec!['.'];
    let dotdot = vec!['.', '.'];
    assert(dot@ =~= seq!['.']);
    assert(dotdot@ =~= seq!['.', '.']);
    if seq_eq(chars.as_slice(), dot.as_slice()) || seq_eq(chars.as_slice(), dotdot.as_slice())
        || contains_char(chars.as_slice(), '/') || contains_char(chars.as_slice(), '\\') {
        return Err(SceneNameError::NotAFileStem);
    }
    let ext = scene_extension_chars();
    if ends_with(chars.as_slice(), ext.as_slice()) {
        return Err(SceneNameError::HasSceneExtension);
    }
    Ok(())
}

/// `scene` trimmed, when anything is left.
pub open spec fn spec_normalized_scene_name(s: Seq<char>) -> Option<Seq<char>> {
    if trimmed(s).len() > 0 {
        Some(trimmed(s))
    } else {
        None
    }
}

/// `scene` trimmed, or `None` when it is blank.
pub fn normalized_scene_name(scene: &str) -> (out: Option<String>)
    ensures
        match out {
            Some(n) => spec_normalized_scene_name(scene@) == Some(n@),
            None => spec_normalized_scene_name(scene@) is None,
        },
{
    let t = trim_string(scene);
    if t.as_str().is_empty() {
        proof {
            assert(t@.len() == 0) by {
                if t@.len() > 0 {
                    assert(t@ =~= seq![t@[0]] + t@.drop_first());
                }
            }
        }
        None
    } else {
        proof {
            assert(t@.len() > 0) by {
                if t@.len() == 0 {
                    assert(t@ =~= Seq::<char>::empty());
                }
            }
        }
        Some(t)
    }
}

/// The scene name a scene file path stands for: its file name without `.zescene.json`.
pub open spec fn spec_scene_name_from_path(p: Seq<char>) -> Option<Seq<char>> {
    match spec_file_name(p) {
        Some(n) => if seq_ends_with(n, scene_extension()) {
            Some(n.subrange(0, n.len() - scene_extension().len()))
        } else {
            None
        },
        None => None,
    }
}

pub fn scene_name_from_path(path: &str) -> (out: Option<String>)
    ensures
        match out {
            Some(n) => spec_scene_name_from_path(path@) == Some(n@),
            None => spec_scene_name_from_path(path@) is None,
        },
{
    let name = match file_name(path) {
        Some(n) => n,
        None => return None,
    };
    let chars = chars_of(name.as_str());
    let ext = scene_extension_chars();
    if ends_with(chars.as_slice(), ext.as_slice()) {
        let stem = slice_chars(chars.as_slice(), 0, chars.len() - ext.len());
        Some(string_of(stem.as_slice()))
    } else {
        None
    }
}

pub open spec fn spec_main_default() -> Seq<char> {
    seq!['m', 'a', 'i', 'n']
}

/// The main scene used when none is configured: `main`.
pub fn default_main_scene() -> (s: String)
    ensures
        s@ == spec_main_default(),
{
    let s = String::from_str("main");
    proof {
        reveal_strlit("main");
    }
    s
}

/// The default asset directory: `assets`.
pub fn default_asset_dir() -> (s: String)
    ensures
        s@ == seq!['a', 's', 's', 'e', 't', 's'],
{
    let s = String::from_str("assets");
    proof {
        reveal_strlit("assets");
    }
    s
}

/// The default scripts assembly: `assets/bin/Scripts.dll`.
pub fn default_scripts_dll() -> (s: String)
    ensures
        s@ == seq!['a', 's', 's', 'e', 't', 's', '/', 'b', 'i', 'n', '/', 'S', 'c', 'r', 'i', 'p', 't', 's',
            '.', 'd', 'l', 'l'],
{
    let s = String::from_str("assets/bin/Scripts.dll");
    proof {
        reveal_strlit("assets/bin/Scripts.dll");
    }
    s
}

/// The default game name: `ZeroEngine Game`.
pub fn default_game_name() -> (s: String)
    ensures
        s@ == seq!['Z', 'e', 'r', 'o', 'E', 'n', 'g', 'i', 'n', 'e', ' ', 'G', 'a', 'm', 'e'],
{
    let s = String::from_str("ZeroEngine Game");
    proof {
        reveal_strlit("ZeroEngine Game");
    }
    s
}

/// The default game version: `0.1.0`.
pub fn default_game_version() -> (s: String)
    ensures
        s@ == seq!['0', '.', '1', '.', '0'],
{
    let s = String::from_str("0.1.0");
    proof {
        reveal_strlit("0.1.0");
    }
    s
}

/// Default solver iterations of a project's physics settings.
pub fn default_solver_iterations() -> (n: u32)
    ensures
        n == 8,
{
    8
}

/// `path` when absolute, otherwise `path` under `base_dir`.
pub open spec fn spec_resolve_project_path(base: Seq<char>, path: Seq<char>) -> Seq<char> {
    if is_absolute(path) {
        path
    } else {
        spec_join(base, path)
    }
}

pub fn resolve_project_path(base_dir: &str, path: &str) -> (out: String)
    ensures
        out@ == spec_resolve_project_path(base_dir@, path@),
{
    let p = chars_of(path);
    if path_is_absolute(p.as_slice()) {
        string_of(p.as_slice())
    } else {
        join(base_dir, path)
    }
}

/// `path` relative to `base_dir` when it lies strictly inside it, otherwise unchanged.
pub open spec fn spec_path_relative_to(base: Seq<char>, path: Seq<char>) -> Seq<char> {
    match spec_strip_prefix(path, base) {
        Some(r) => if r.len() > 0 {
            r
        } else {
            path
        },
        None => path,
    }
}

pub fn path_relative_to(base_dir: &str, path: &str) -> (out: String)
    ensures
        out@ == spec_path_relative_to(base_dir@, path@),
{
    match strip_prefix(path, base_dir) {
        Some(r) => {
            if !r.as_str().is_empty() {
                proof {
                    assert(r@.len() > 0) by {
                        if r@.len() == 0 {
                            assert(r@ =~= Seq::<char>::empty());
                        }
                    }
                }
                r
            } else {
                proof {
                    assert(r@.len() == 0) by {
                        if r@.len() > 0 {
                            assert(r@ =~= seq![r@[0]] + r@.drop_first());
                        }
                    }
                }
                path.to_owned()
            }
        },
        None => path.to_owned(),
    }
}

/// The game a project builds: its display name, version and optional icon.
#[derive(Debug, Clone)]
pub struct GameSettings {
    pub name: String,
    pub version: String,
    pub icon_path: Option<String>,
}

impl GameSettings {
    /// The settings of a fresh game: default name and version, no icon.
    pub fn new() -> (g: GameSettings)
        ensures
            g.name@ == seq!['Z', 'e', 'r', 'o', 'E', 'n', 'g', 'i', 'n', 'e', ' ', 'G', 'a', 'm', 'e'],
            g.version@ == seq!['0', '.', '1', '.', '0'],
            g.icon_path is None,
    {
        GameSettings { name: default_game_name(), version: default_game_version(), icon_path: None }
    }
}

/// Why a project description was refused.
#[derive(Debug, Clone, Copy, PartialEq, Eq)]
pub enum ProjectError {
    EmptyName,
    EmptyGameName,
    MissingAssetDir,
    InvalidScene(SceneNameError),
    NoScenes,
    MainSceneNotListed,
    NoScriptsDllParent,
    NoBinParent,
}

/// A game project: name, scenes, and where its assets and script assembly live.
#[derive(Debug, Clone)]
pub struct Project {
    pub name: String,
    pub main_scene: String,
    pub scenes: Vec<String>,
    pub asset_dir: String,
    pub scripts_dll: String,
    pub game: GameSettings,
    pub root_dir: String,
}

pub open spec fn bin_name() -> Seq<char> {
    seq!['b', 'i', 'n']
}

/// The directory holding the C# sources: the assembly's directory, or its parent when
/// that directory is named `bin`.
pub open spec fn spec_scripts_dir(dll: Seq<char>) -> Result<Seq<char>, ProjectError> {
    match spec_parent(dll) {
        None => Err(ProjectError::NoScriptsDllParent),
        Some(out) => if spec_file_name(out) == Some(bin_name()) {
            match spec_parent(out) {
                Some(p) => Ok(p),
                None => Err(ProjectError::NoBinParent),
            }
        } else {
            Ok(out)
        },
    }
}

pub open spec fn csproj_suffix() -> Seq<char> {
    seq!['.', 'c', 's', 'p', 'r', 'o', 'j']
}

pub open spec fn game_data_name() -> Seq<char> {
    seq!['G', 'a', 'm', 'e', 'D', 'a', 't', 'a', '.', 't', 'o', 'm', 'l']
}

pub open spec fn runtime_config_suffix() -> Seq<char> {
    seq!['.', 'r', 'u', 'n', 't', 'i', 'm', 'e', 'c', 'o', 'n', 'f', 'i', 'g', '.', 'j', 's', 'o', 'n']
}

pub open spec fn spec_runtime_config_name(dll: Seq<char>) -> Seq<char> {
    match spec_file_stem(dll) {
        Some(stem) => stem + runtime_config_suffix(),
        None => seq!['S', 'c', 'r', 'i', 'p', 't', 's'] + runtime_config_suffix(),
    }
}

/// The scene list that `normalize_scene_settings` produces holds exactly these names.
pub open spec fn normalized_scene_member(main: Seq<char>, scenes: Seq<Seq<char>>, x: Seq<char>) -> bool {
    x == main || (x.len() > 0 && exists|i: int| 0 <= i < scenes.len() && trimmed(#[trigger] scenes[i]) == x)
}

/// The main scene after normalization: the trimmed main scene, or `main` when blank.
pub open spec fn spec_normalized_main(main: Seq<char>) -> Seq<char> {
    match spec_normalized_scene_name(main) {
        Some(m) => m,
        None => spec_main_default(),
    }
}

/// A project whose scene settings are normalized: main scene listed, scene list strictly
/// sorted, every name trimmed and non-empty.
pub open spec fn scenes_normalized(main: Seq<char>, scenes: Seq<Seq<char>>) -> bool {
    &&& strictly_sorted(scenes)
    &&& scenes.contains(main)
    &&& forall|i: int| 0 <= i < scenes.len() ==> #[trigger] trimmed(scenes[i]) == scenes[i] && scenes[i].len() > 0
}

impl Project {
    /// A project with one scene, `main_scene`, and a game named after the project.
    pub fn new(name: String, main_scene: String, asset_dir: String, scripts_dll: String) -> (p: Project)
        ensures
            p.name@ == name@,
            p.main_scene@ == main_scene@,
            string_views(p.scenes@) == seq![main_scene@],
            p.asset_dir@ == asset_dir@,
            p.scripts_dll@ == scripts_dll@,
            p.game.name@ == name@,
            p.game.version@ == seq!['0', '.', '1', '.', '0'],
            p.game.icon_path is None,
            p.root_dir@.len() == 0,
    {
        let game_name = name.clone();
        let mut scenes: Vec<String> = Vec::new();
        scenes.push(main_scene.clone());
        assert(string_views(scenes@) =~= seq![main_scene@]);
        Project {
            name,
            main_scene,
            scenes,
            asset_dir,
            scripts_dll,
            game: GameSettings { name: game_name, version: default_game_version(), icon_path: None },
            root_dir: String::new(),
        }
    }

    /// The directory of the C# project next to the scripts assembly.
    pub fn scripts_dir(&self) -> (r: Result<String, ProjectError>)
        ensures
            match r {
                Ok(d) => spec_scripts_dir(self.scripts_dll@) == Ok::<Seq<char>, ProjectError>(d@),
                Err(e) => spec_scripts_dir(self.scripts_dll@) == Err::<Seq<char>, ProjectError>(e),
            },
    {
        let out = match parent(self.scripts_dll.as_str()) {
            Some(o) => o,
            None => return Err(ProjectError::NoScriptsDllParent),
        };
        let is_bin = match file_name(out.as_str()) {
            Some(n) => {
                let bin = vec!['b', 'i', 'n'];
                assert(bin@ =~= bin_name());
                let nc = chars_of(n.as_str());
                seq_eq(nc.as_slice(), bin.as_slice())
            },
            None => false,
        };
        if is_bin {
            match parent(out.as_str()) {
                Some(p) => Ok(p),
                None => Err(ProjectError::NoBinParent),
            }
        } else {
            Ok(out)
        }
    }

    /// `<scripts dir>/<name>.csproj`.
    pub fn csproj_path(&self) -> (r: Result<String, ProjectError>)
        ensures
            match r {
                Ok(p) => match spec_scripts_dir(self.scripts_dll@) {
                    Ok(d) => p@ == spec_join(d, self.name@ + csproj_suffix()),
                    Err(_) => false,
                },
                Err(e) => spec_scripts_dir(self.scripts_dll@) == Err::<Seq<char>, ProjectError>(e),
            },
    {
        let dir = match self.scripts_dir() {
            Ok(d) => d,
            Err(e) => return Err(e),
        };
        let mut file: Vec<char> = chars_of(self.name.as_str());
        append_str(&mut file, ".csproj");
        proof {
            reveal_strlit(".csproj");
        }
        let file = string_of(file.as_slice());
        Ok(join(dir.as_str(), file.as_str()))
    }

    /// `<asset dir>/GameData.toml`.
    pub fn game_data_path(&self) -> (p: String)
        ensures
            p@ == spec_join(self.asset_dir@, game_data_name()),
    {
        let name = String::from_str("GameData.toml");
        proof {
            reveal_strlit("GameData.toml");
        }
        join(self.asset_dir.as_str(), name.as_str())
    }

    /// The `.runtimeconfig.json` next to the scripts assembly, named after its stem.
    pub fn runtime_config_path(&self) -> (p: String)
        ensures
            p@ == spec_with_file_name(self.scripts_dll@, spec_runtime_config_name(self.scripts_dll@)),
    {
        let mut name: Vec<char> = match file_stem(self.scripts_dll.as_str()) {
            Some(stem) => chars_of(stem.as_str()),
            None => {
                let v = vec!['S', 'c', 'r', 'i', 'p', 't', 's'];
                v
            },
        };
        append_str(&mut name, ".runtimeconfig.json");
        proof {
            reveal_strlit(".runtimeconfig.json");
        }
        let name = string_of(name.as_slice());
        with_file_name(self.scripts_dll.as_str(), name.as_str())
    }

    /// Checks the project's names and scene list; `asset_dir_exists` tells whether the
    /// asset directory is present on disk.
    pub fn validate_structure(&self, asset_dir_exists: bool) -> (r: Result<(), ProjectError>)
        ensures
            r == spec_validate_structure(self.name@, self.game.name@, asset_dir_exists, self.main_scene@,
                string_views(self.scenes@)),
    {
        let name_t = trim_string(self.name.as_str());
        if name_t.as_str().is_empty() {
            proof { crate::text::lemma_len_zero(name_t@); }
            return Err(ProjectError::EmptyName);
        }
        proof { crate::text::lemma_len_pos(name_t@); }
        let game_t = trim_string(self.game.name.as_str());
        if game_t.as_str().is_empty() {
            proof { crate::text::lemma_len_zero(game_t@); }
            return Err(ProjectError::EmptyGameName);
        }
        proof { crate::text::lemma_len_pos(game_t@); }
        if !asset_dir_exists {
            return Err(ProjectError::MissingAssetDir);
        }
        if let Err(e) = validate_scene_name(self.main_scene.as_str()) {
            return Err(ProjectError::InvalidScene(e));
        }
        if self.scenes.len() == 0 {
            return Err(ProjectError::NoScenes);
        }
        let mut i: usize = 0;
        while i < self.scenes.len()
            invariant
                i <= self.scenes@.len(),
                self.scenes@.len() > 0,
                asset_dir_exists,
                trimmed(self.name@).len() > 0,
                trimmed(self.game.name@).len() > 0,
                scene_name_error(self.main_scene@) is None,
                forall|k: int| 0 <= k < i ==> scene_name_error(#[trigger] self.scenes@[k]@) is None,
            decreases self.scenes@.len() - i,
        {
            if let Err(e) = validate_scene_name(self.scenes[i].as_str()) {
                proof {
                    assert(first_invalid_scene(string_views(self.scenes@)) == Some(e)) by {
                        lemma_first_invalid_scene(string_views(self.scenes@), i as int);
                    }
                }
                return Err(ProjectError::InvalidScene(e));
            }
            i = i + 1;
        }
        proof {
            lemma_first_invalid_scene_none(string_views(self.scenes@));
        }
        if !contains_string(&self.scenes, &self.main_scene) {
            return Err(ProjectError::MainSceneNotListed);
        }
        Ok(())
    }

    /// Brings the scene settings to normal form: the main scene trimmed (or `main`), and
    /// the scene list trimmed, blank entries dropped, the main scene added, sorted and
    /// de-duplicated.
    pub fn normalize_scene_settings(&mut self)
        ensures
            final(self).main_scene@ == spec_normalized_main(old(self).main_scene@),
            strictly_sorted(string_views(final(self).scenes@)),
            forall|x: Seq<char>| #[trigger] string_views(final(self).scenes@).contains(x) <==>
                normalized_scene_member(spec_normalized_main(old(self).main_scene@),
                    string_views(old(self).scenes@), x),
            final(self).name == old(self).name,
            final(self).asset_dir == old(self).asset_dir,
            final(self).scripts_dll == old(self).scripts_dll,
            final(self).game == old(self).game,
            final(self).root_dir == old(self).root_dir,
    {
        let ghost old_scenes = string_views(self.scenes@);
        let main = match normalized_scene_name(self.main_scene.as_str()) {
            Some(m) => m,
            None => default_main_scene(),
        };
        proof {
            lemma_main_nonempty(self.main_scene@);
        }
        let mut collected: Vec<String> = Vec::new();
        let mut i: usize = 0;
        while i < self.scenes.len()
            invariant
                i <= self.scenes@.len(),
                string_views(self.scenes@) == old_scenes,
                forall|x: Seq<char>| #[trigger] string_views(collected@).contains(x) <==> (x.len() > 0
                    && exists|k: int| 0 <= k < i && trimmed(#[trigger] old_scenes[k]) == x),
            decreases self.scenes@.len() - i,
        {
            let ghost before = string_views(collected@);
            match normalized_scene_name(self.scenes[i].as_str()) {
                Some(n) => {
                    collected.push(n);
                    proof {
                        assert(string_views(collected@) =~= before.push(n@));
                        assert forall|x: Seq<char>| #[trigger] string_views(collected@).contains(x) <==> (x.len() > 0
                            && exists|k: int| 0 <= k < i + 1 && trimmed(#[trigger] old_scenes[k]) == x) by {
                            if string_views(collected@).contains(x) && !before.contains(x) {
                                assert(x == n@);
                                assert(trimmed(old_scenes[i as int]) == x);
                            }
                            if x.len() > 0 && (exists|k: int| 0 <= k < i + 1 && trimmed(#[trigger] old_scenes[k]) == x) {
                                let k = choose|k: int| 0 <= k < i + 1 && trimmed(#[trigger] old_scenes[k]) == x;
                                if k == i {
                                    assert(string_views(collected@)[before.len() as int] == x);
                                } else {
                                    assert(before.contains(x));
                                    let m = choose|m: int| 0 <= m < before.len() && before[m] == x;
                                    assert(string_views(collected@)[m] == x);
                                }
                            }
                        }
                    }
                },
                None => {
                    proof {
                        assert forall|x: Seq<char>| #[trigger] string_views(collected@).contains(x) <==> (x.len() > 0
                            && exists|k: int| 0 <= k < i + 1 && trimmed(#[trigger] old_scenes[k]) == x) by {
                            if x.len() > 0 && (exists|k: int| 0 <= k < i + 1 && trimmed(#[trigger] old_scenes[k]) == x) {
                                let k = choose|k: int| 0 <= k < i + 1 && trimmed(#[trigger] old_scenes[k]) == x;
                                assert(k != i);
                            }
                        }
                    }
                },
            }
            i = i + 1;
        }
        let ghost before = string_views(collected@);
        collected.push(main.clone());
        proof {
            assert(string_views(collected@) =~= before.push(main@));
            assert forall|x: Seq<char>| #[trigger] string_views(collected@).contains(x) <==>
                normalized_scene_member(main@, old_scenes, x) by {
                if string_views(collected@).contains(x) && !before.contains(x) {
                    let m = choose|m: int| 0 <= m < string_views(collected@).len() && string_views(collected@)[m] == x;
                    if m < before.len() {
                        assert(before[m] == x);
                    }
                }
                if normalized_scene_member(main@, old_scenes, x) {
                    if x == main@ {
                        assert(string_views(collected@)[before.len() as int] == x);
                    } else {
                        assert(before.contains(x));
                        let m = choose|m: int| 0 <= m < before.len() && before[m] == x;
                        assert(string_views(collected@)[m] == x);
                    }
                }
            }
        }
        self.scenes = sorted_unique(collected);
        self.main_scene = main;
    }

    /// Adds a scene (trimmed) to the list and sorts it; `Ok(false)` when already listed.
    pub fn add_scene(&mut self, scene: &str) -> (r: Result<bool, SceneNameError>)
        ensures
            match r {
                Err(e) => scene_name_error(trimmed(scene@)) == Some(e) && *final(self) == *old(self),
                Ok(false) => scene_name_error(trimmed(scene@)) is None
                    && string_views(old(self).scenes@).contains(trimmed(scene@)) && *final(self) == *old(self),
                Ok(true) => scene_name_error(trimmed(scene@)) is None
                    && !string_views(old(self).scenes@).contains(trimmed(scene@))
                    && sorted(string_views(final(self).scenes@))
                    && string_views(final(self).scenes@).to_multiset()
                        == string_views(old(self).scenes@).to_multiset().insert(trimmed(scene@))
                    && final(self).main_scene == old(self).main_scene
                    && final(self).name == old(self).name
                    && final(self).asset_dir == old(self).asset_dir
                    && final(self).scripts_dll == old(self).scripts_dll
                    && final(self).game == old(self).game
                    && final(self).root_dir == old(self).root_dir,
            },
    {
        let scene = trim_string(scene);
        if let Err(e) = validate_scene_name(scene.as_str()) {
            return Err(e);
        }
        if contains_string(&self.scenes, &scene) {
            return Ok(false);
        }
        let mut scenes = copy_strings(&self.scenes);
        let ghost old_views = string_views(scenes@);
        let ghost sv = scene@;
        scenes.push(scene);
        proof {
            assert(string_views(scenes@) =~= old_views.push(sv));
            vstd::seq_lib::to_multiset_build(old_views, sv);
        }
        self.scenes = sort_strings(scenes);
        Ok(true)
    }

    /// Makes `scene` (trimmed) the main scene, adding it to the sorted list when missing.
    pub fn set_main_scene(&mut self, scene: &str) -> (r: Result<(), SceneNameError>)
        ensures
            match r {
                Err(e) => scene_name_error(trimmed(scene@)) == Some(e) && *final(self) == *old(self),
                Ok(()) => scene_name_error(trimmed(scene@)) is None
                    && final(self).main_scene@ == trimmed(scene@)
                    && string_views(final(self).scenes@).contains(trimmed(scene@))
                    && (string_views(old(self).scenes@).contains(trimmed(scene@)) ==> final(self).scenes
                        == old(self).scenes)
                    && (!string_views(old(self).scenes@).contains(trimmed(scene@)) ==> (sorted(
                        string_views(final(self).scenes@)) && string_views(final(self).scenes@).to_multiset()
                        == string_views(old(self).scenes@).to_multiset().insert(trimmed(scene@)))),
            },
    {
        let scene = trim_string(scene);
        if let Err(e) = validate_scene_name(scene.as_str()) {
            return Err(e);
        }
        if !contains_string(&self.scenes, &scene) {
            let mut scenes = copy_strings(&self.scenes);
            let ghost old_views = string_views(scenes@);
            scenes.push(scene.clone());
            proof {
                assert(string_views(scenes@) =~= old_views.push(scene@));
            }
            let sorted_scenes = sort_strings(scenes);
            proof {
                vstd::seq_lib::to_multiset_build(old_views, scene@);
                vstd::seq_lib::to_multiset_contains(string_views(sorted_scenes@), scene@);
                vstd::seq_lib::to_multiset_contains(old_views.push(scene@), scene@);
                assert(old_views.push(scene@)[old_views.len() as int] == scene@);
            }
            self.scenes = sorted_scenes;
        }
        self.main_scene = scene;
        Ok(())
    }

    /// Replaces the scene list with the scene names found on disk plus the main scene,
    /// sorted and de-duplicated, after normalizing; reports whether the list changed.
    pub fn sync_scenes_from_disk(&mut self, disk_scenes: Vec<String>) -> (changed: bool)
        ensures
            final(self).main_scene@ == spec_normalized_main(old(self).main_scene@),
            strictly_sorted(string_views(final(self).scenes@)),
            forall|x: Seq<char>| #[trigger] string_views(final(self).scenes@).contains(x) <==> (x
                == final(self).main_scene@ || string_views(disk_scenes@).contains(x)),
            changed == (string_views(final(self).scenes@) != spec_normalized_scenes(*old(self))),
    {
        self.normalize_scene_settings();
        let ghost normalized = string_views(self.scenes@);
        let mut scenes = disk_scenes;
        let ghost disk = string_views(scenes@);
        if !contains_string(&scenes, &self.main_scene) {
            scenes.push(self.main_scene.clone());
            proof {
                assert(string_views(scenes@) =~= disk.push(self.main_scene@));
            }
        }
        let scenes = sorted_unique(scenes);
        proof {
            assert forall|x: Seq<char>| #[trigger] string_views(scenes@).contains(x) <==> (x == self.main_scene@
                || disk.contains(x)) by {
                if x == self.main_scene@ && !disk.contains(x) {
                    assert(disk.push(self.main_scene@)[disk.len() as int] == x);
                }
                if disk.contains(x) && !disk.contains(self.main_scene@) {
                    let m = choose|m: int| 0 <= m < disk.len() && disk[m] == x;
                    assert(disk.push(self.main_scene@)[m] == x);
                }
            }
            lemma_normalized_scenes_determined(*old(self), normalized);
        }
        let changed = !strings_eq(&self.scenes, &scenes);
        self.scenes = scenes;
        changed
    }

    /// A field-by-field copy of the project.
    pub fn copy(&self) -> (p: Project)
        ensures
            p.name@ == self.name@,
            p.main_scene@ == self.main_scene@,
            p.scenes@ == self.scenes@,
            p.asset_dir@ == self.asset_dir@,
            p.scripts_dll@ == self.scripts_dll@,
            p.game.name@ == self.game.name@,
            p.game.version@ == self.game.version@,
            p.game.icon_path == self.game.icon_path,
            p.root_dir@ == self.root_dir@,
    {
        Project {
            name: self.name.clone(),
            main_scene: self.main_scene.clone(),
            scenes: copy_strings(&self.scenes),
            asset_dir: self.asset_dir.clone(),
            scripts_dll: self.scripts_dll.clone(),
            game: GameSettings {
                name: self.game.name.clone(),
                version: self.game.version.clone(),
                icon_path: match &self.game.icon_path {
                    Some(i) => Some(i.clone()),
                    None => None,
                },
            },
            root_dir: self.root_dir.clone(),
        }
    }

    /// The project as written to disk under `base_dir`: normalized, with its paths made
    /// relative to `base_dir` where they lie inside it.
    pub fn serializable_at(&self, base_dir: &str) -> (p: Project)
        ensures
            p.main_scene@ == spec_normalized_main(self.main_scene@),
            strictly_sorted(string_views(p.scenes@)),
            forall|x: Seq<char>| #[trigger] string_views(p.scenes@).contains(x) <==> normalized_scene_member(
                spec_normalized_main(self.main_scene@), string_views(self.scenes@), x),
            p.asset_dir@ == spec_path_relative_to(base_dir@, self.asset_dir@),
            p.scripts_dll@ == spec_path_relative_to(base_dir@, self.scripts_dll@),
            match (p.game.icon_path, self.game.icon_path) {
                (Some(a), Some(b)) => a@ == spec_path_relative_to(base_dir@, b@),
                (None, None) => true,
                _ => false,
            },
            p.name@ == self.name@,
            p.game.name@ == self.game.name@,
            p.game.version@ == self.game.version@,
            p.root_dir@ == self.root_dir@,
    {
        let mut project = self.copy();
        proof {
            assert(string_views(project.scenes@) == string_views(self.scenes@));
        }
        project.normalize_scene_settings();
        project.asset_dir = path_relative_to(base_dir, project.asset_dir.as_str());
        project.scripts_dll = path_relative_to(base_dir, project.scripts_dll.as_str());
        let icon = match &project.game.icon_path {
            Some(icon) => Some(path_relative_to(base_dir, icon.as_str())),
            None => None,
        };
        project.game.icon_path = icon;
        project
    }
}

/// A copy of a list of strings.
pub fn copy_strings(v: &Vec<String>) -> (out: Vec<String>)
    ensures
        out@ == v@,
{
    let mut out: Vec<String> = Vec::new();
    let mut i: usize = 0;
    while i < v.len()
        invariant
            i <= v@.len(),
            out@ == v@.take(i as int),
        decreases v@.len() - i,
    {
        out.push(v[i].clone());
        assert(out@ =~= v@.take(i + 1));
        i = i + 1;
    }
    assert(v@.take(i as int) =~= v@);
    out
}

/// The scene list of a project after `normalize_scene_settings`.
pub closed spec fn spec_normalized_scenes(p: Project) -> Seq<Seq<char>> {
    choose|s: Seq<Seq<char>>| strictly_sorted(s) && (forall|x: Seq<char>| #[trigger] s.contains(x) <==>
        normalized_scene_member(spec_normalized_main(p.main_scene@), string_views(p.scenes@), x))
}

proof fn lemma_normalized_scenes_determined(p: Project, s: Seq<Seq<char>>)
    requires
        strictly_sorted(s),
        forall|x: Seq<char>| #[trigger] s.contains(x) <==> normalized_scene_member(
            spec_normalized_main(p.main_scene@), string_views(p.scenes@), x),
    ensures
        spec_normalized_scenes(p) == s,
{
    let c = spec_normalized_scenes(p);
    assert(strictly_sorted(c) && (forall|x: Seq<char>| #[trigger] c.contains(x) <==>
        normalized_scene_member(spec_normalized_main(p.main_scene@), string_views(p.scenes@), x)));
    lemma_strictly_sorted_unique(c, s);
}

/// Normalizing the scene settings twice gives the same result as normalizing once: the
/// main scene and the scene list are unchanged by a second normalization.
pub proof fn law_normalize_idempotent(main: Seq<char>, scenes: Seq<Seq<char>>, once: Seq<Seq<char>>,
    twice: Seq<Seq<char>>)
    requires
        strictly_sorted(once),
        forall|x: Seq<char>| #[trigger] once.contains(x) <==> normalized_scene_member(spec_normalized_main(main), scenes, x),
        strictly_sorted(twice),
        forall|x: Seq<char>| #[trigger] twice.contains(x) <==> normalized_scene_member(
            spec_normalized_main(spec_normalized_main(main)), once, x),
    ensures
        spec_normalized_main(spec_normalized_main(main)) == spec_normalized_main(main),
        twice == once,
        scenes_normalized(spec_normalized_main(main), once),
{
    let m1 = spec_normalized_main(main);
    lemma_normalized_main_trimmed(main);
    assert(trimmed(m1) == m1);
    assert(spec_normalized_main(m1) == m1);
    assert(once.contains(m1));
    assert forall|i: int| 0 <= i < once.len() implies #[trigger] trimmed(once[i]) == once[i] && once[i].len() > 0 by {
        let x = once[i];
        assert(once.contains(x));
        if x != m1 {
            let k = choose|k: int| 0 <= k < scenes.len() && trimmed(#[trigger] scenes[k]) == x;
            lemma_trimmed_idempotent(scenes[k]);
        }
    }
    assert forall|x: Seq<char>| #[trigger] twice.contains(x) <==> once.contains(x) by {
        if once.contains(x) && x != m1 {
            let k = choose|k: int| 0 <= k < once.len() && once[k] == x;
            assert(trimmed(once[k]) == x);
        }
        if normalized_scene_member(m1, once, x) && x != m1 {
            let k = choose|k: int| 0 <= k < once.len() && trimmed(#[trigger] once[k]) == x;
            assert(once.contains(once[k]));
        }
    }
    lemma_strictly_sorted_unique(twice, once);
}

proof fn lemma_normalized_main_trimmed(main: Seq<char>)
    ensures
        trimmed(spec_normalized_main(main)) == spec_normalized_main(main),
{
    if trimmed(main).len() > 0 {
        lemma_trimmed_idempotent(main);
    } else {
        let m = spec_main_default();
        assert(trim_start_from(m, 0) == 0);
        assert(trim_end_from(m, 4) == 4);
        assert(m.subrange(0, 4) =~= m);
    }
}

proof fn lemma_main_nonempty(main: Seq<char>)
    ensures
        spec_normalized_main(main).len() > 0,
{
}

pub open spec fn spec_validate_structure(name: Seq<char>, game_name: Seq<char>, asset_dir_exists: bool,
    main: Seq<char>, scenes: Seq<Seq<char>>) -> Result<(), ProjectError> {
    if trimmed(name).len() == 0 {
        Err(ProjectError::EmptyName)
    } else if trimmed(game_name).len() == 0 {
        Err(ProjectError::EmptyGameName)
    } else if !asset_dir_exists {
        Err(ProjectError::MissingAssetDir)
    } else if scene_name_error(main) is Some {
        Err(ProjectError::InvalidScene(scene_name_error(main).unwrap()))
    } else if scenes.len() == 0 {
        Err(ProjectError::NoScenes)
    } else if first_invalid_scene(scenes) is Some {
        Err(ProjectError::InvalidScene(first_invalid_scene(scenes).unwrap()))
    } else if !scenes.contains(main) {
        Err(ProjectError::MainSceneNotListed)
    } else {
        Ok(())
    }
}

/// The error of the first invalid name in `scenes`.
pub open spec fn first_invalid_scene(scenes: Seq<Seq<char>>) -> Option<SceneNameError>
    decreases scenes.len(),
{
    if scenes.len() == 0 {
        None
    } else if scene_name_error(scenes[0]) is Some {
        scene_name_error(scenes[0])
    } else {
        first_invalid_scene(scenes.drop_first())
    }
}

proof fn lemma_first_invalid_scene(scenes: Seq<Seq<char>>, i: int)
    requires
        0 <= i < scenes.len(),
        scene_name_error(scenes[i]) is Some,
        forall|k: int| 0 <= k < i ==> scene_name_error(#[trigger] scenes[k]) is None,
    ensures
        first_invalid_scene(scenes) == scene_name_error(scenes[i]),
    decreases i,
{
    if i > 0 {
        let t = scenes.drop_first();
        assert forall|k: int| 0 <= k < i - 1 implies scene_name_error(#[trigger] t[k]) is None by {
            assert(t[k] == scenes[k + 1]);
        }
        lemma_first_invalid_scene(t, i - 1);
    }
}

proof fn lemma_first_invalid_scene_none(scenes: Seq<Seq<char>>)
    requires
        forall|k: int| 0 <= k < scenes.len() ==> scene_name_error(#[trigger] scenes[k]) is None,
    ensures
        first_invalid_scene(scenes) is None,
    decreases scenes.len(),
{
    if scenes.len() > 0 {
        let t = scenes.drop_first();
        assert forall|k: int| 0 <= k < t.len() implies scene_name_error(#[trigger] t[k]) is None by {
            assert(t[k] == scenes[k + 1]);
        }
        lemma_first_invalid_scene_none(t);
    }
}

/// The project's game data: the tags entities can carry.
#[derive(Debug, Clone)]
pub struct GameData {
    pub tags: Vec<String>,
}

pub open spec fn starter_tags() -> Seq<Seq<char>> {
    seq!["Untagged"@, "Camera"@, "Player"@, "Enemy"@, "StaticGeometry"@]
}

impl GameData {
    /// No tags (what a game-data file without a `tags` entry reads as).
    pub fn empty() -> (d: GameData)
        ensures
            d.tags@.len() == 0,
    {
        GameData { tags: Vec::new() }
    }

    /// The tags a new project starts with.
    pub fn starter() -> (d: GameData)
        ensures
            string_views(d.tags@) == starter_tags(),
    {
        let tags = vec![owned_str("Untagged"), owned_str("Camera"), owned_str("Player"), owned_str("Enemy"),
            owned_str("StaticGeometry")];
        assert(string_views(tags@) =~= starter_tags());
        GameData { tags }
    }

    /// The game data of a project, given whether its file exists and, when it does, what
    /// reading it gave (`None` when it could not be read or parsed): the file's data, no
    /// tags when it was unreadable, and the starter tags when there is no file (which the
    /// caller then writes).
    pub fn load_or_create(file_exists: bool, loaded: Option<GameData>) -> (d: GameData)
        ensures
            file_exists && loaded is Some ==> d == loaded.unwrap(),
            file_exists && loaded is None ==> d.tags@.len() == 0,
            !file_exists ==> string_views(d.tags@) == starter_tags(),
    {
        if file_exists {
            match loaded {
                Some(d) => d,
                None => GameData::empty(),
            }
        } else {
            GameData::starter()
        }
    }
}

fn owned_str(s: &str) -> (out: String)
    ensures
        out@ == s@,
{
    s.to_owned()
}

/// The scenes found among the files of a project's scene directory: the scene name of
/// every `*.zescene.json` file, sorted and without repeats; the first invalid scene name
/// met is an error.
pub fn scene_names_from_files(file_paths: &[String]) -> (r: Result<Vec<String>, SceneNameError>)
    ensures
        match r {
            Ok(names) => {
                &&& strictly_sorted(string_views(names@))
                &&& forall|x: Seq<char>| #[trigger] string_views(names@).contains(x) <==> exists|i: int| 0 <= i
                    < file_paths@.len() && #[trigger] spec_scene_name_from_path(file_paths@[i]@) == Some(x)
                &&& forall|i: int| 0 <= i < file_paths@.len() && #[trigger] spec_scene_name_from_path(file_paths@[i]@) is Some
                    ==> scene_name_error(spec_scene_name_from_path(file_paths@[i]@).unwrap()) is None
            },
            Err(e) => exists|i: int| {
                &&& 0 <= i < file_paths@.len()
                &&& #[trigger] spec_scene_name_from_path(file_paths@[i]@) is Some
                &&& scene_name_error(spec_scene_name_from_path(file_paths@[i]@).unwrap()) == Some(e)
                &&& forall|j: int| 0 <= j < i && #[trigger] spec_scene_name_from_path(file_paths@[j]@) is Some
                    ==> scene_name_error(spec_scene_name_from_path(file_paths@[j]@).unwrap()) is None
            },
        },
{
    let mut names: Vec<String> = Vec::new();
    let mut i: usize = 0;
    while i < file_paths.len()
        invariant
            i <= file_paths@.len(),
            forall|x: Seq<char>| #[trigger] string_views(names@).contains(x) <==> exists|k: int| 0 <= k < i
                && #[trigger] spec_scene_name_from_path(file_paths@[k]@) == Some(x),
            forall|k: int| 0 <= k < i && #[trigger] spec_scene_name_from_path(file_paths@[k]@) is Some
                ==> scene_name_error(spec_scene_name_from_path(file_paths@[k]@).unwrap()) is None,
        decreases file_paths@.len() - i,
    {
        match scene_name_from_path(file_paths[i].as_str()) {
            Some(scene) => {
                match validate_scene_name(scene.as_str()) {
                    Ok(()) => {},
                    Err(e) => {
                        return Err(e);
                    },
                }
                let ghost before = names@;
                names.push(scene);
                proof {
                    assert(string_views(names@) =~= string_views(before).push(scene@));
                    assert forall|x: Seq<char>| #[trigger] string_views(names@).contains(x) <==> exists|k: int| 0 <= k
                        < i + 1 && #[trigger] spec_scene_name_from_path(file_paths@[k]@) == Some(x) by {
                        broadcast use vstd::seq_lib::group_seq_properties;
                        if x == scene@ {
                            assert(spec_scene_name_from_path(file_paths@[i as int]@) == Some(x));
                        }
                    }
                }
            },
            None => {},
        }
        i = i + 1;
    }
    Ok(sorted_unique(names))
}

/// The scenes a project can open: those found on disk, those the project lists, and its
/// main scene, sorted and each once.
pub fn available_scene_names(project: &Project, disk_scenes: Vec<String>) -> (names: Vec<String>)
    ensures
        strictly_sorted(string_views(names@)),
        forall|x: Seq<char>| #[trigger] string_views(names@).contains(x) <==> (string_views(disk_scenes@).contains(x)
            || string_views(project.scenes@).contains(x) || x == project.main_scene@),
{
    let mut names = disk_scenes;
    let ghost disk = string_views(names@);
    let mut i: usize = 0;
    while i < project.scenes.len()
        invariant
            i <= project.scenes@.len(),
            string_views(names@) == disk + string_views(project.scenes@).take(i as int),
        decreases project.scenes@.len() - i,
    {
        let ghost before = string_views(names@);
        names.push(project.scenes[i].clone());
        proof {
            assert(string_views(names@) =~= before.push(project.scenes@[i as int]@));
            assert(string_views(project.scenes@).take(i + 1) =~= string_views(project.scenes@).take(i as int).push(
                project.scenes@[i as int]@,
            ));
        }
        i = i + 1;
    }
    proof {
        assert(string_views(project.scenes@).take(i as int) =~= string_views(project.scenes@));
    }
    let ghost listed = string_views(names@);
    if !contains_string(&names, &project.main_scene) {
        names.push(project.main_scene.clone());
        proof {
            assert(string_views(names@) =~= listed.push(project.main_scene@));
        }
    }
    let ghost all = string_views(names@);
    assert(all == listed || (all == listed.push(project.main_scene@) && !listed.contains(project.main_scene@)));
    let out = sorted_unique(names);
    proof {
        assert forall|x: Seq<char>| #[trigger] string_views(out@).contains(x) <==> (disk.contains(x)
            || string_views(project.scenes@).contains(x) || x == project.main_scene@) by {
            let sc = string_views(project.scenes@);
            assert(listed == disk + sc);
            if disk.contains(x) {
                let k = choose|k: int| 0 <= k < disk.len() && disk[k] == x;
                assert(listed[k] == x);
            }
            if sc.contains(x) {
                let k = choose|k: int| 0 <= k < sc.len() && sc[k] == x;
                assert(listed[disk.len() + k] == x);
            }
            if listed.contains(x) {
                let k = choose|k: int| 0 <= k < listed.len() && listed[k] == x;
                if k < disk.len() {
                    assert(disk[k] == x);
                } else {
                    assert(sc[k - disk.len()] == x);
                }
            }
            if listed.contains(x) && all != listed {
                let k = choose|k: int| 0 <= k < listed.len() && listed[k] == x;
                assert(all[k] == x);
            }
            if x == project.main_scene@ && all != listed {
                assert(all[listed.len() as int] == x);
            }
            if all.contains(x) && !listed.contains(x) {
                let k = choose|k: int| 0 <= k < all.len() && all[k] == x;
                assert(k == listed.len());
            }
        }
    }
    out
}

/// The message for a refused scene name.
pub open spec fn spec_scene_name_message(e: SceneNameError, scene: Seq<char>) -> Seq<char> {
    match e {
        SceneNameError::Empty => "scene name cannot be empty"@,
        SceneNameError::SurroundingWhitespace => "scene name `"@ + scene
            + "` must not have leading or trailing whitespace"@,
        SceneNameError::NotAFileStem => "scene name `"@ + scene + "` must be a file stem, not a path"@,
        SceneNameError::HasSceneExtension => "scene name `"@ + scene
            + "` must not include the scene file extension"@,
    }
}

/// Says why `scene` is not a valid scene name.
pub fn scene_name_message(e: SceneNameError, scene: &str) -> (m: String)
    ensures
        m@ == spec_scene_name_message(e, scene@),
{
    match e {
        SceneNameError::Empty => owned_str("scene name cannot be empty"),
        _ => {
            let mut v = chars_of("scene name `");
            append_str(&mut v, scene);
            match e {
                SceneNameError::SurroundingWhitespace => append_str(
                    &mut v,
                    "` must not have leading or trailing whitespace",
                ),
                SceneNameError::NotAFileStem => append_str(&mut v, "` must be a file stem, not a path"),
                _ => append_str(&mut v, "` must not include the scene file extension"),
            }
            string_of(v.as_slice())
        },
    }
}

/// The name of a project's file in its root directory.
pub open spec fn project_file_name() -> Seq<char> {
    "ZEProject.toml"@
}

/// Where a project's file is written: in its root directory, or the bare file name when
/// the root is unknown (empty).
pub fn project_file_path(root_dir: &str) -> (p: String)
    ensures
        p@ == if root_dir@.len() == 0 { project_file_name() } else { spec_join(root_dir@, project_file_name()) },
{
    if root_dir.is_empty() {
        owned_str("ZEProject.toml")
    } else {
        proof {
            assert(root_dir@.len() > 0) by {
                if root_dir@.len() == 0 {
                    assert(root_dir@ =~= Seq::<char>::empty());
                }
            }
        }
        join(root_dir, "ZEProject.toml")
    }
}

impl Project {
    /// A project just read from its file in `base_dir`: its paths resolved against that
    /// directory, its root set to it, and its scene settings normalized. (Loading then
    /// checks the structure with `validate_structure`.)
    pub fn resolve_loaded(&mut self, base_dir: &str)
        ensures
            final(self).asset_dir@ == spec_resolve_project_path(base_dir@, old(self).asset_dir@),
            final(self).scripts_dll@ == spec_resolve_project_path(base_dir@, old(self).scripts_dll@),
            match (final(self).game.icon_path, old(self).game.icon_path) {
                (Some(a), Some(b)) => a@ == spec_resolve_project_path(base_dir@, b@),
                (None, None) => true,
                _ => false,
            },
            final(self).root_dir@ == base_dir@,
            final(self).main_scene@ == spec_normalized_main(old(self).main_scene@),
            strictly_sorted(string_views(final(self).scenes@)),
            forall|x: Seq<char>| #[trigger] string_views(final(self).scenes@).contains(x) <==> normalized_scene_member(
                spec_normalized_main(old(self).main_scene@),
                string_views(old(self).scenes@),
                x,
            ),
            final(self).name == old(self).name,
            final(self).game.name == old(self).game.name,
            final(self).game.version == old(self).game.version,
    {
        self.asset_dir = resolve_project_path(base_dir, self.asset_dir.as_str());
        self.scripts_dll = resolve_project_path(base_dir, self.scripts_dll.as_str());
        let icon = match &self.game.icon_path {
            Some(icon) => Some(resolve_project_path(base_dir, icon.as_str())),
            None => None,
        };
        self.game.icon_path = icon;
        self.root_dir = owned_str(base_dir);
        self.normalize_scene_settings();
    }

    /// The project a new-project directory starts with: named `name`, one scene `Main`,
    /// assets in `<directory>/assets`, the scripts assembly at
    /// `<directory>/assets/bin/<name>.dll`, and the game named after the project.
    pub fn for_new_directory(directory: &str, name: &str) -> (p: Project)
        ensures
            p.name@ == name@,
            p.main_scene@ == "Main"@,
            string_views(p.scenes@) == seq!["Main"@],
            p.asset_dir@ == spec_join(directory@, "assets"@),
            p.scripts_dll@ == spec_join(spec_join(directory@, "assets/bin"@), name@ + ".dll"@),
            p.game.name@ == name@,
            p.game.version@ == seq!['0', '.', '1', '.', '0'],
            p.game.icon_path is None,
            p.root_dir@ == directory@,
    {
        let assets = join(directory, "assets");
        let bin = join(directory, "assets/bin");
        let mut dll = chars_of(name);
        append_str(&mut dll, ".dll");
        let dll = string_of(dll.as_slice());
        let scripts_dll = join(bin.as_str(), dll.as_str());
        let mut p = Project::new(owned_str(name), owned_str("Main"), assets, scripts_dll);
        p.root_dir = owned_str(directory);
        p
    }

    /// The C# project file's text for this project, compiling the engine's API sources from
    /// `api_dir`; the assembly is named after the scripts assembly's file stem.
    pub fn csproj_contents(&self, api_dir: &str) -> (s: String)
        ensures
            s@ == spec_csproj_contents(
                match spec_file_stem(self.scripts_dll@) {
                    Some(n) => n,
                    None => "Scripts"@,
                },
                api_dir@,
            ),
    {
        let assembly = match file_stem(self.scripts_dll.as_str()) {
            Some(n) => n,
            None => owned_str("Scripts"),
        };
        let mut v = chars_of(
            "<Project Sdk=\"Microsoft.NET.Sdk\">\n  <PropertyGroup>\n    <TargetFramework>net10.0</TargetFramework>\n    <RollForward>LatestMajor</RollForward>\n    <Nullable>enable</Nullable>\n    <ImplicitUsings>enable</ImplicitUsings>\n    <AssemblyName>",
        );
        append_str(&mut v, assembly.as_str());
        append_str(&mut v, "</AssemblyName>\n    <RootNamespace>");
        append_str(&mut v, assembly.as_str());
        append_str(
            &mut v,
            "</RootNamespace>\n    <GenerateRuntimeConfigurationFiles>true</GenerateRuntimeConfigurationFiles>\n    <EnableDynamicLoading>true</EnableDynamicLoading>\n    <OutputPath>bin/</OutputPath>\n    <AppendTargetFrameworkToOutputPath>false</AppendTargetFrameworkToOutputPath>\n    <AppendRuntimeIdentifierToOutputPath>false</AppendRuntimeIdentifierToOutputPath>\n    <AllowUnsafeBlocks>true</AllowUnsafeBlocks>\n    <InvariantGlobalization>true</InvariantGlobalization>\n  </PropertyGroup>\n\n  <ItemGroup>\n    <Compile Include=\"",
        );
        append_str(&mut v, api_dir);
        append_str(
            &mut v,
            "/**/*.cs\" Link=\"ZeroEngine/api/cs/public/%(RecursiveDir)%(Filename)%(Extension)\" />\n  </ItemGroup>\n\n  <ItemGroup>\n    <Watch Remove=\"bin/**\" />\n    <Watch Remove=\"obj/**\" />\n  </ItemGroup>\n</Project>\n",
        );
        string_of(v.as_slice())
    }
}

pub open spec fn csproj_head() -> Seq<char> {
    "<Project Sdk=\"Microsoft.NET.Sdk\">\n  <PropertyGroup>\n    <TargetFramework>net10.0</TargetFramework>\n    <RollForward>LatestMajor</RollForward>\n    <Nullable>enable</Nullable>\n    <ImplicitUsings>enable</ImplicitUsings>\n    <AssemblyName>"@
}

pub open spec fn csproj_middle() -> Seq<char> {
    "</RootNamespace>\n    <GenerateRuntimeConfigurationFiles>true</GenerateRuntimeConfigurationFiles>\n    <EnableDynamicLoading>true</EnableDynamicLoading>\n    <OutputPath>bin/</OutputPath>\n    <AppendTargetFrameworkToOutputPath>false</AppendTargetFrameworkToOutputPath>\n    <AppendRuntimeIdentifierToOutputPath>false</AppendRuntimeIdentifierToOutputPath>\n    <AllowUnsafeBlocks>true</AllowUnsafeBlocks>\n    <InvariantGlobalization>true</InvariantGlobalization>\n  </PropertyGroup>\n\n  <ItemGroup>\n    <Compile Include=\""@
}

pub open spec fn csproj_tail() -> Seq<char> {
    "/**/*.cs\" Link=\"ZeroEngine/api/cs/public/%(RecursiveDir)%(Filename)%(Extension)\" />\n  </ItemGroup>\n\n  <ItemGroup>\n    <Watch Remove=\"bin/**\" />\n    <Watch Remove=\"obj/**\" />\n  </ItemGroup>\n</Project>\n"@
}

/// The C# project file: the assembly and root namespace named `assembly`, the engine's API
/// sources from `api_dir` compiled in, build outputs under `bin/`.
pub open spec fn spec_csproj_contents(assembly: Seq<char>, api_dir: Seq<char>) -> Seq<char> {
    csproj_head() + assembly + "</AssemblyName>\n    <RootNamespace>"@ + assembly + csproj_middle() + api_dir + csproj_tail()
}

/// Whether the C# project file must be written: only when its present text (none when it
/// cannot be read) differs, so that an unchanged file keeps its modification time.
pub fn csproj_write_needed(existing: Option<&str>, contents: &str) -> (b: bool)
    ensures
        b == match existing {
            Some(e) => e@ != contents@,
            None => contents@.len() != 0,
        },
{
    let e = match existing {
        Some(e) => chars_of(e),
        None => Vec::new(),
    };
    let c = chars_of(contents);
    proof {
        if existing is None {
            assert(e@ =~= Seq::<char>::empty());
            if contents@.len() == 0 {
                assert(c@ =~= e@);
            }
        }
    }
    !seq_eq(e.as_slice(), c.as_slice())
}

/// The folders a new project directory gets, in order.
pub fn new_project_directories(directory: &str) -> (dirs: Vec<String>)
    ensures
        string_views(dirs@) == seq![
            spec_join(spec_join(directory@, "assets"@), "scenes"@),
            spec_join(spec_join(directory@, "assets"@), "scripts"@),
            spec_join(spec_join(directory@, "assets"@), "shaders"@),
            spec_join(spec_join(directory@, "assets"@), "textures"@),
        ],
{
    let assets = join(directory, "assets");
    let dirs = vec![join(assets.as_str(), "scenes"), join(assets.as_str(), "scripts"), join(assets.as_str(), "shaders"),
        join(assets.as_str(), "textures")];
    assert(string_views(dirs@) =~= seq![
        spec_join(spec_join(directory@, "assets"@), "scenes"@),
        spec_join(spec_join(directory@, "assets"@), "scripts"@),
        spec_join(spec_join(directory@, "assets"@), "shaders"@),
        spec_join(spec_join(directory@, "assets"@), "textures"@),
    ]);
    dirs
}

/// A file a new project directory gets, with its text, when it does not exist yet.
#[derive(Debug, Clone)]
pub struct ScaffoldFile {
    pub path: String,
    pub contents: String,
}

/// The ignore files a new project directory gets: the root's keep compiled output out of
/// version control and packaging, the assets' keep the C# project and build folders out.
pub fn new_project_ignore_files(directory: &str) -> (files: Vec<ScaffoldFile>)
    ensures
        files@.len() == 4,
        files@[0].path@ == spec_join(directory@, ".gitignore"@) && files@[0].contents@ == ".compiled/\n"@,
        files@[1].path@ == spec_join(directory@, ".zeignore"@) && files@[1].contents@ == ".compiled\n"@,
        files@[2].path@ == spec_join(spec_join(directory@, "assets"@), ".gitignore"@) && files@[2].contents@
            == "*.csproj\nbin/\nobj/\n"@,
        files@[3].path@ == spec_join(spec_join(directory@, "assets"@), ".zeignore"@) && files@[3].contents@
            == "*.csproj\nbin/\nobj/\n"@,
{
    let assets = join(directory, "assets");
    vec![
        ScaffoldFile { path: join(directory, ".gitignore"), contents: owned_str(".compiled/\n") },
        ScaffoldFile { path: join(directory, ".zeignore"), contents: owned_str(".compiled\n") },
        ScaffoldFile { path: join(assets.as_str(), ".gitignore"), contents: owned_str("*.csproj\nbin/\nobj/\n") },
        ScaffoldFile { path: join(assets.as_str(), ".zeignore"), contents: owned_str("*.csproj\nbin/\nobj/\n") },
    ]
}

/// The first scene name in `scenes` that is not valid.
pub open spec fn first_invalid_name(scenes: Seq<Seq<char>>) -> Option<Seq<char>>
    decreases scenes.len(),
{
    if scenes.len() == 0 {
        None
    } else if scene_name_error(scenes[0]) is Some {
        Some(scenes[0])
    } else {
        first_invalid_name(scenes.drop_first())
    }
}

proof fn lemma_first_invalid_name(scenes: Seq<Seq<char>>, i: int)
    requires
        0 <= i < scenes.len(),
        scene_name_error(scenes[i]) is Some,
        forall|k: int| 0 <= k < i ==> scene_name_error(#[trigger] scenes[k]) is None,
    ensures
        first_invalid_name(scenes) == Some(scenes[i]),
    decreases i,
{
    if i > 0 {
        let t = scenes.drop_first();
        assert forall|k: int| 0 <= k < i - 1 implies scene_name_error(#[trigger] t[k]) is None by {
            assert(t[k] == scenes[k + 1]);
        }
        lemma_first_invalid_name(t, i - 1);
    }
}

proof fn lemma_first_invalid_name_none(scenes: Seq<Seq<char>>)
    requires
        forall|k: int| 0 <= k < scenes.len() ==> scene_name_error(#[trigger] scenes[k]) is None,
    ensures
        first_invalid_name(scenes) is None,
    decreases scenes.len(),
{
    if scenes.len() > 0 {
        let t = scenes.drop_first();
        assert forall|k: int| 0 <= k < t.len() implies scene_name_error(#[trigger] t[k]) is None by {
            assert(t[k] == scenes[k + 1]);
        }
        lemma_first_invalid_name_none(t);
    }
}

/// The scene name a structure check refuses: the main scene when it is invalid, else the
/// first invalid name in the list.
pub open spec fn offending_scene(main: Seq<char>, scenes: Seq<Seq<char>>) -> Seq<char> {
    if scene_name_error(main) is Some {
        main
    } else {
        match first_invalid_name(scenes) {
            Some(n) => n,
            None => main,
        }
    }
}

/// The message for a refused project description.
pub open spec fn spec_project_error_message(e: ProjectError, asset_dir: Seq<char>, main: Seq<char>, scenes: Seq<
    Seq<char>,
>) -> Seq<char> {
    match e {
        ProjectError::EmptyName => "project name cannot be empty"@,
        ProjectError::EmptyGameName => "game name cannot be empty"@,
        ProjectError::MissingAssetDir => "project assets directory does not exist: "@ + asset_dir,
        ProjectError::InvalidScene(n) => spec_scene_name_message(n, offending_scene(main, scenes)),
        ProjectError::NoScenes => "project must contain at least one scene"@,
        ProjectError::MainSceneNotListed => "main scene `"@ + main + "` is not listed in project scenes"@,
        ProjectError::NoScriptsDllParent => "scripts_dll does not have parent directory"@,
        ProjectError::NoBinParent => "scripts_dll bin directory does not have parent directory"@,
    }
}

impl Project {
    /// Says why the project was refused.
    pub fn error_message(&self, e: ProjectError) -> (m: String)
        ensures
            m@ == spec_project_error_message(e, self.asset_dir@, self.main_scene@, string_views(self.scenes@)),
    {
        match e {
            ProjectError::EmptyName => owned_str("project name cannot be empty"),
            ProjectError::EmptyGameName => owned_str("game name cannot be empty"),
            ProjectError::MissingAssetDir => {
                let mut v = chars_of("project assets directory does not exist: ");
                append_str(&mut v, self.asset_dir.as_str());
                string_of(v.as_slice())
            },
            ProjectError::InvalidScene(n) => {
                let name = self.offending_scene_name();
                scene_name_message(n, name.as_str())
            },
            ProjectError::NoScenes => owned_str("project must contain at least one scene"),
            ProjectError::MainSceneNotListed => {
                let mut v = chars_of("main scene `");
                append_str(&mut v, self.main_scene.as_str());
                append_str(&mut v, "` is not listed in project scenes");
                string_of(v.as_slice())
            },
            ProjectError::NoScriptsDllParent => owned_str("scripts_dll does not have parent directory"),
            ProjectError::NoBinParent => owned_str("scripts_dll bin directory does not have parent directory"),
        }
    }

    fn offending_scene_name(&self) -> (n: String)
        ensures
            n@ == offending_scene(self.main_scene@, string_views(self.scenes@)),
    {
        if validate_scene_name(self.main_scene.as_str()).is_err() {
            return self.main_scene.clone();
        }
        let mut i: usize = 0;
        while i < self.scenes.len()
            invariant
                i <= self.scenes@.len(),
                scene_name_error(self.main_scene@) is None,
                forall|k: int| 0 <= k < i ==> scene_name_error(#[trigger] string_views(self.scenes@)[k]) is None,
            decreases self.scenes@.len() - i,
        {
            if validate_scene_name(self.scenes[i].as_str()).is_err() {
                proof {
                    lemma_first_invalid_name(string_views(self.scenes@), i as int);
                }
                return self.scenes[i].clone();
            }
            i = i + 1;
        }
        proof {
            lemma_first_invalid_name_none(string_views(self.scenes@));
        }
        self.main_scene.clone()
    }
}

proof fn lemma_first_invalid_agree(scenes: Seq<Seq<char>>)
    ensures
        first_invalid_scene(scenes) is Some <==> first_invalid_name(scenes) is Some,
        first_invalid_name(scenes) matches Some(n) ==> scene_name_error(n) == first_invalid_scene(scenes),
    decreases scenes.len(),
{
    if scenes.len() > 0 {
        lemma_first_invalid_agree(scenes.drop_first());
    }
}

/// A trimmed name that is no path but ends with the scene extension `.zescene.json` is
/// refused for that extension; so no accepted name ends with it.
pub proof fn law_scene_extension_is_refused(s: Seq<char>)
    ensures
        s.len() > 0 && trimmed(s) == s && !s.contains('/') && !s.contains('\\') && scene_extension().len() <= s.len()
            && s.subrange(s.len() - scene_extension().len(), s.len() as int) == scene_extension()
            ==> scene_name_error(s) == Some(SceneNameError::HasSceneExtension),
        scene_name_error(s) is None ==> !(scene_extension().len() <= s.len() && s.subrange(
            s.len() - scene_extension().len(),
            s.len() as int,
        ) == scene_extension()),
{
}

/// An accepted scene name is a bare file stem: not blank, without surrounding whitespace,
/// without a path separator, neither `.` nor `..`.
pub proof fn law_accepted_scene_name_is_bare_stem(s: Seq<char>)
    requires
        scene_name_error(s) is None,
    ensures
        s.len() > 0,
        trimmed(s) == s,
        !s.contains('/'),
        !s.contains('\\'),
        s != seq!['.'],
        s != seq!['.', '.'],
{
}

/// When the structure check refuses a scene name, the scene its message names is one that
/// breaks exactly that rule.
pub proof fn law_invalid_scene_message_names_the_offender(name: Seq<char>, game_name: Seq<char>,
    asset_dir_exists: bool, main: Seq<char>, scenes: Seq<Seq<char>>, e: SceneNameError)
    requires
        spec_validate_structure(name, game_name, asset_dir_exists, main, scenes) == Err::<(), ProjectError>(
            ProjectError::InvalidScene(e),
        ),
    ensures
        scene_name_error(offending_scene(main, scenes)) == Some(e),
{
    lemma_first_invalid_agree(scenes);
}

/// Saving a project (its description as written, `saved`) and loading that description
/// back (`loaded`) keeps the scene selection the project had once normalized: the same
/// main scene and the same scene list.
pub proof fn law_save_load_preserves_scene_selection(p: Project, saved: Project, loaded: Project)
    requires
        saved.main_scene@ == spec_normalized_main(p.main_scene@),
        strictly_sorted(string_views(saved.scenes@)),
        forall|x: Seq<char>| #[trigger] string_views(saved.scenes@).contains(x) <==> normalized_scene_member(
            spec_normalized_main(p.main_scene@),
            string_views(p.scenes@),
            x,
        ),
        loaded.main_scene@ == spec_normalized_main(saved.main_scene@),
        strictly_sorted(string_views(loaded.scenes@)),
        forall|x: Seq<char>| #[trigger] string_views(loaded.scenes@).contains(x) <==> normalized_scene_member(
            spec_normalized_main(saved.main_scene@),
            string_views(saved.scenes@),
            x,
        ),
    ensures
        loaded.main_scene@ == saved.main_scene@,
        string_views(loaded.scenes@) == string_views(saved.scenes@),
        scenes_normalized(loaded.main_scene@, string_views(loaded.scenes@)),
{
    law_normalize_idempotent(p.main_scene@, string_views(p.scenes@), string_views(saved.scenes@), string_views(
        loaded.scenes@,
    ));
}

pub open spec fn workspace_gitignore_text() -> Seq<char> {
    "# ZeroEngine\n/target\n/bin\n*.dll\n*.pdb\n\n# IDE\n.idea/\n.vs/\n.vscode/\n*.swp\n*.swo\n\n# OS\nthumbs.db\n.DS_Store\n"@
}

/// The ignore files the editor makes sure a project folder has when it opens the
/// project: `.zeignore` keeping build output out of packaging, and a `.gitignore` for build
/// output, IDE and OS files. Each is written only when missing.
pub fn workspace_config_files(root_dir: &str) -> (files: Vec<ScaffoldFile>)
    ensures
        files@.len() == 2,
        files@[0].path@ == spec_join(root_dir@, ".zeignore"@) && files@[0].contents@ == "/target\n/bin\n.zepack\n"@,
        files@[1].path@ == spec_join(root_dir@, ".gitignore"@) && files@[1].contents@ == workspace_gitignore_text(),
{
    vec![
        ScaffoldFile { path: join(root_dir, ".zeignore"), contents: owned_str("/target\n/bin\n.zepack\n") },
        ScaffoldFile {
            path: join(root_dir, ".gitignore"),
            contents: owned_str(
                "# ZeroEngine\n/target\n/bin\n*.dll\n*.pdb\n\n# IDE\n.idea/\n.vs/\n.vscode/\n*.swp\n*.swo\n\n# OS\nthumbs.db\n.DS_Store\n",
            ),
        },
    ]
}

} // verus!
