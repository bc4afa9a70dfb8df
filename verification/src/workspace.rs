//! The editor workspace's state types and the text it shows about them: save and build
//! status, script status, window and settings labels, scene labels, and the short
//! initials shown for long scene names.
use vstd::prelude::*;
use crate::text::{chars_of, string_of, owned, append_str, decimal, push_decimal};
use crate::assets::AssetRef;
use crate::packaging::BuildTarget;
use crate::sorting::{sorted, strictly_sorted, string_views, sorted_unique};
use crate::project::Project;
use crate::paths::{path_components, join_with_slash, path_is_absolute, components, join_segments, is_absolute,
    views, spec_extension, spec_file_name, extension, file_name, strip_prefix, spec_strip_prefix};
use crate::text::{seq_eq, starts_with, seq_starts_with, ends_with, seq_ends_with};

verus! {

/// The state of the C# scripts as the status bar shows it.
#[derive(Debug, Clone, Copy, PartialEq, Eq, Structural)]
pub enum ScriptStatus {
    Unavailable,
    UpToDate,
    Recompiling,
    ReloadPending,
    Failed,
}

/// The textures that changed on disk since the last frame.
#[derive(Debug)]
pub struct AssetReloadSet {
    pub(crate) texture_assets: Vec<AssetRef>,
}

impl AssetReloadSet {
    pub closed spec fn assets(&self) -> Seq<AssetRef> {
        self.texture_assets@
    }

    /// A set holding the given textures.
    pub fn new(texture_assets: Vec<AssetRef>) -> (s: AssetReloadSet)
        ensures
            s.assets() == texture_assets@,
    {
        AssetReloadSet { texture_assets }
    }

    /// The changed textures.
    pub fn texture_assets(&self) -> (r: &[AssetRef])
        ensures
            r@ == self.assets(),
    {
        self.texture_assets.as_slice()
    }
}

/// Whether the editor is editing the scene or playing it.
#[derive(Debug, Clone, Copy, PartialEq, Eq, Structural)]
pub enum EditorMode {
    Edit,
    Play,
}

/// A request from the workspace's menus to the application.
#[derive(Debug, Clone)]
pub enum EditorRequest {
    OpenProject,
    NewProject,
    SaveProject,
    CreateScene(String),
    SwitchScene(String),
    EnterPlayMode,
    StopPlayMode,
    OpenTextureSheetAsset(String),
}

/// Whether the project's changes are saved.
#[derive(Debug, Clone, Copy, PartialEq, Eq, Structural)]
pub enum SaveState {
    Saved,
    Saving,
    UnsavedChanges,
    SaveFailed,
}

/// The state of a distributable build.
#[derive(Debug, Clone, Copy, PartialEq, Eq, Structural)]
pub enum BuildStatus {
    Idle,
    Running,
    Done,
    Failed,
}

/// The save state and when (in seconds of the editor's clock) the last save succeeded.
#[derive(Debug, Clone, Copy, PartialEq, Eq, Structural)]
pub struct SaveStatus {
    pub state: SaveState,
    pub last_successful_save: Option<u64>,
}

impl SaveStatus {
    /// Saved, with no save made yet.
    pub fn saved() -> (s: SaveStatus)
        ensures
            s == (SaveStatus { state: SaveState::Saved, last_successful_save: None }),
    {
        SaveStatus { state: SaveState::Saved, last_successful_save: None }
    }

    /// The same status in another state.
    pub fn with_state(self, state: SaveState) -> (s: SaveStatus)
        ensures
            s == (SaveStatus { state, ..self }),
    {
        SaveStatus { state, ..self }
    }
}

/// What the status bar shows.
#[derive(Debug, Clone)]
pub struct EditorStatus {
    pub script: ScriptStatus,
    pub save: SaveStatus,
    pub build: BuildStatus,
    pub build_message: Option<String>,
}

/// A scene loaded in the editor.
#[derive(Debug, Clone)]
pub struct SceneInfo {
    pub name: String,
    pub active: bool,
    pub dirty: bool,
}

/// A request to build a distributable.
#[derive(Debug, Clone)]
pub struct BuildRequest {
    pub output_dir: String,
    pub target: BuildTarget,
}

/// The dockable windows of the workspace.
#[derive(Debug, Clone, Copy, PartialEq, Eq, Structural)]
pub enum WindowPanel {
    Scene,
    Hierarchy,
    Inspector,
    AssetBrowser,
    Files,
    Console,
    TextureSheet,
}

impl WindowPanel {
    /// The window's entry in the Window menu.
    pub fn menu_label(self) -> (s: &'static str)
        ensures
            s@ == match self {
                WindowPanel::Scene => "Scene"@,
                WindowPanel::Hierarchy => "Hierarchy"@,
                WindowPanel::Inspector => "Inspector"@,
                WindowPanel::AssetBrowser => "Asset Browser"@,
                WindowPanel::Files => "File Explorer"@,
                WindowPanel::Console => "Console"@,
                WindowPanel::TextureSheet => "Texture Sheet"@,
            },
    {
        match self {
            WindowPanel::Scene => "Scene",
            WindowPanel::Hierarchy => "Hierarchy",
            WindowPanel::Inspector => "Inspector",
            WindowPanel::AssetBrowser => "Asset Browser",
            WindowPanel::Files => "File Explorer",
            WindowPanel::Console => "Console",
            WindowPanel::TextureSheet => "Texture Sheet",
        }
    }

    /// The name of the window's tab; the asset browser and the file explorer share one.
    pub fn tab_name(self) -> (s: &'static str)
        ensures
            s@ == match self {
                WindowPanel::Scene => "Scene"@,
                WindowPanel::Hierarchy => "Hierarchy"@,
                WindowPanel::Inspector => "Inspector"@,
                WindowPanel::AssetBrowser | WindowPanel::Files => "File Explorer"@,
                WindowPanel::Console => "Console"@,
                WindowPanel::TextureSheet => "Texture Sheet"@,
            },
    {
        match self {
            WindowPanel::Scene => "Scene",
            WindowPanel::Hierarchy => "Hierarchy",
            WindowPanel::Inspector => "Inspector",
            WindowPanel::AssetBrowser | WindowPanel::Files => "File Explorer",
            WindowPanel::Console => "Console",
            WindowPanel::TextureSheet => "Texture Sheet",
        }
    }
}

/// The pages of the settings window.
#[derive(Debug, Clone, Copy, PartialEq, Eq, Structural)]
pub enum SettingsCategory {
    Project,
    Physics,
}

impl SettingsCategory {
    pub fn label(self) -> (s: &'static str)
        ensures
            s@ == match self {
                SettingsCategory::Project => "Project"@,
                SettingsCategory::Physics => "Physics"@,
            },
    {
        match self {
            SettingsCategory::Project => "Project",
            SettingsCategory::Physics => "Physics",
        }
    }
}

/// Which physics settings an edit applies to.
#[derive(Debug, Clone, Copy, PartialEq, Eq, Structural)]
pub enum PhysicsSettingsScope {
    ThisScene,
    AllScenesDefault,
}

impl PhysicsSettingsScope {
    pub fn label(self) -> (s: &'static str)
        ensures
            s@ == match self {
                PhysicsSettingsScope::ThisScene => "This Scene"@,
                PhysicsSettingsScope::AllScenesDefault => "All Scenes (Default)"@,
            },
    {
        match self {
            PhysicsSettingsScope::ThisScene => "This Scene",
            PhysicsSettingsScope::AllScenesDefault => "All Scenes (Default)",
        }
    }
}

pub open spec fn spec_save_state_label(state: SaveState) -> Seq<char> {
    match state {
        SaveState::Saved => "Saved"@,
        SaveState::Saving => "Saving..."@,
        SaveState::UnsavedChanges => "Unsaved changes"@,
        SaveState::SaveFailed => "Save failed"@,
    }
}

/// The words shown for a save state.
pub fn save_state_label(state: SaveState) -> (s: &'static str)
    ensures
        s@ == spec_save_state_label(state),
{
    match state {
        SaveState::Saved => "Saved",
        SaveState::Saving => "Saving...",
        SaveState::UnsavedChanges => "Unsaved changes",
        SaveState::SaveFailed => "Save failed",
    }
}

pub open spec fn spec_relative_save_time(seconds: nat) -> Seq<char> {
    if seconds < 5 {
        "last save just now"@
    } else if seconds < 60 {
        "last save "@ + decimal(seconds) + "s ago"@
    } else if seconds / 60 < 60 {
        "last save "@ + decimal(seconds / 60) + "m ago"@
    } else {
        "last save "@ + decimal(seconds / 3600) + "h ago"@
    }
}

/// How long ago the last save was, given the seconds elapsed since it.
pub fn relative_save_time(elapsed_seconds: u64) -> (s: String)
    ensures
        s@ == spec_relative_save_time(elapsed_seconds as nat),
{
    if elapsed_seconds < 5 {
        return owned("last save just now");
    }
    let (amount, unit) = if elapsed_seconds < 60 {
        (elapsed_seconds, 's')
    } else if elapsed_seconds / 60 < 60 {
        (elapsed_seconds / 60, 'm')
    } else {
        (elapsed_seconds / 60 / 60, 'h')
    };
    proof {
        assert(elapsed_seconds / 60 / 60 == elapsed_seconds / 3600) by (nonlinear_arith)
            requires
                elapsed_seconds >= 0,
        ;
    }
    let mut out = chars_of("last save ");
    push_decimal(&mut out, amount);
    out.push(unit);
    append_str(&mut out, " ago");
    proof {
        reveal_strlit("s ago");
        reveal_strlit("m ago");
        reveal_strlit("h ago");
        reveal_strlit(" ago");
        let tail = seq![unit] + " ago"@;
        assert(unit == 's' ==> tail =~= "s ago"@);
        assert(unit == 'm' ==> tail =~= "m ago"@);
        assert(unit == 'h' ==> tail =~= "h ago"@);
        assert(out@ =~= "last save "@ + decimal(amount as nat) + tail);
    }
    string_of(out.as_slice())
}

pub open spec fn spec_save_status_tooltip(status: SaveStatus, project_loaded: bool, now: u64) -> Seq<char> {
    let current = if project_loaded {
        spec_save_state_label(status.state)
    } else {
        "No project loaded"@
    };
    let last_save = match status.last_successful_save {
        Some(at) => spec_relative_save_time(if now >= at { (now - at) as nat } else { 0 }),
        None => "no successful save yet"@,
    };
    current + seq!['\n'] + last_save + legend()
}

pub open spec fn legend() -> Seq<char> {
    "\nGreen: saved\nYellow: saving or unsaved changes\nRed: save failed\nGray: no project loaded"@
}

/// The hover text of the save indicator, at time `now` of the editor's clock.
pub fn save_status_tooltip(status: SaveStatus, project_loaded: bool, now: u64) -> (s: String)
    ensures
        s@ == spec_save_status_tooltip(status, project_loaded, now),
{
    let mut out = if project_loaded {
        chars_of(save_state_label(status.state))
    } else {
        chars_of("No project loaded")
    };
    out.push('\n');
    match status.last_successful_save {
        Some(at) => {
            let elapsed = if now >= at { now - at } else { 0 };
            let r = relative_save_time(elapsed);
            append_str(&mut out, r.as_str());
        },
        None => {
            append_str(&mut out, "no successful save yet");
        },
    }
    append_str(&mut out, "\nGreen: saved\nYellow: saving or unsaved changes\nRed: save failed\nGray: no project loaded");
    string_of(out.as_slice())
}

/// A scene's entry in the build window; the main scene is marked.
pub fn build_scene_label(scene_name: &str, is_main_scene: bool) -> (s: String)
    ensures
        s@ == if is_main_scene { scene_name@ + " (main)"@ } else { scene_name@ },
{
    let mut out = chars_of(scene_name);
    if is_main_scene {
        append_str(&mut out, " (main)");
    }
    string_of(out.as_slice())
}

pub open spec fn spec_script_status_label(status: ScriptStatus) -> Seq<char> {
    match status {
        ScriptStatus::Unavailable => "Scripts: unavailable"@,
        ScriptStatus::UpToDate => "Ready"@,
        ScriptStatus::Recompiling | ScriptStatus::ReloadPending => "Compiling"@,
        ScriptStatus::Failed => "Error"@,
    }
}

/// The words shown for a script status.
pub fn script_status_label(status: ScriptStatus) -> (s: &'static str)
    ensures
        s@ == spec_script_status_label(status),
{
    match status {
        ScriptStatus::Unavailable => "Scripts: unavailable",
        ScriptStatus::UpToDate => "Ready",
        ScriptStatus::Recompiling | ScriptStatus::ReloadPending => "Compiling",
        ScriptStatus::Failed => "Error",
    }
}

/// The scenes offered by the scene switcher: the loaded ones and the project's, each
/// once, in order.
pub fn project_scene_names(project: &Project, scenes: &[SceneInfo]) -> (names: Vec<String>)
    ensures
        strictly_sorted(string_views(names@)),
        forall|x: Seq<char>| #[trigger] string_views(names@).contains(x) <==> (exists|i: int| 0 <= i < scenes@.len()
            && #[trigger] scenes@[i].name@ == x) || string_views(project.scenes@).contains(x),
{
    let mut all: Vec<String> = Vec::new();
    let mut i: usize = 0;
    while i < scenes.len()
        invariant
            i <= scenes@.len(),
            all@.len() == i,
            forall|k: int| 0 <= k < i ==> #[trigger] all@[k]@ == scenes@[k].name@,
        decreases scenes@.len() - i,
    {
        all.push(scenes[i].name.clone());
        i = i + 1;
    }
    let mut j: usize = 0;
    while j < project.scenes.len()
        invariant
            j <= project.scenes@.len(),
            all@.len() == scenes@.len() + j,
            forall|k: int| 0 <= k < scenes@.len() ==> #[trigger] all@[k]@ == scenes@[k].name@,
            forall|k: int| 0 <= k < j ==> #[trigger] all@[scenes@.len() + k]@ == project.scenes@[k]@,
        decreases project.scenes@.len() - j,
    {
        all.push(project.scenes[j].clone());
        j = j + 1;
    }
    proof {
        assert forall|x: Seq<char>| #[trigger] string_views(all@).contains(x) <==> (exists|i: int| 0 <= i
            < scenes@.len() && #[trigger] scenes@[i].name@ == x) || string_views(project.scenes@).contains(x) by {
            let n = scenes@.len();
            if string_views(all@).contains(x) {
                let k = choose|k: int| 0 <= k < all@.len() && string_views(all@)[k] == x;
                if k < n {
                    assert(scenes@[k].name@ == x);
                } else {
                    assert(all@[n + (k - n)]@ == project.scenes@[k - n]@);
                    assert(string_views(project.scenes@)[k - n] == x);
                }
            }
            if exists|i: int| 0 <= i < scenes@.len() && #[trigger] scenes@[i].name@ == x {
                let i = choose|i: int| 0 <= i < scenes@.len() && #[trigger] scenes@[i].name@ == x;
                assert(string_views(all@)[i] == x);
            }
            if string_views(project.scenes@).contains(x) {
                let k = choose|k: int| 0 <= k < project.scenes@.len() && string_views(project.scenes@)[k] == x;
                assert(all@[n + k]@ == project.scenes@[k]@);
                assert(string_views(all@)[n + k] == x);
            }
        }
    }
    sorted_unique(all)
}

/// Names what `char::is_uppercase` answers for `c` (the Unicode `Uppercase` property).
pub uninterp spec fn uppercase_char(c: char) -> bool;

/// Names what `str::to_uppercase` returns for `s` (Unicode upper-case mapping).
pub uninterp spec fn uppercased(s: Seq<char>) -> Seq<char>;

/// `char::is_uppercase`: the result is named; for an ASCII character it is, as std
/// documents, whether the character is one of `A` to `Z`.
#[verifier::external_body]
fn is_uppercase(c: char) -> (b: bool)
    ensures
        b == uppercase_char(c),
        (c as u32) < 0x80 ==> (b <==> ('A' <= c && c <= 'Z')),
{
    c.is_uppercase()
}

/// `str::to_uppercase`; the result is named, not described.
#[verifier::external_body]
fn to_uppercase(s: &str) -> (r: String)
    ensures
        r@ == uppercased(s@),
{
    s.to_uppercase()
}

/// The number of bytes `c` takes in UTF-8.
pub open spec fn utf8_width(c: char) -> nat {
    if (c as u32) < 0x80 {
        1
    } else if (c as u32) < 0x800 {
        2
    } else if (c as u32) < 0x10000 {
        3
    } else {
        4
    }
}

/// The number of bytes `s` takes in UTF-8 (what `str::len` returns).
pub open spec fn utf8_len(s: Seq<char>) -> nat
    decreases s.len(),
{
    if s.len() == 0 {
        0
    } else {
        utf8_len(s.drop_last()) + utf8_width(s.last())
    }
}

proof fn lemma_utf8_len_bound(s: Seq<char>)
    ensures
        utf8_len(s) <= 4 * s.len(),
    decreases s.len(),
{
    if s.len() > 0 {
        lemma_utf8_len_bound(s.drop_last());
    }
}

/// The UTF-8 length of `s`.
pub fn utf8_length(s: &[char]) -> (n: u128)
    ensures
        n == utf8_len(s@),
{
    let mut total: u128 = 0;
    let mut i: usize = 0;
    while i < s.len()
        invariant
            i <= s@.len(),
            total == utf8_len(s@.take(i as int)),
        decreases s@.len() - i,
    {
        let c = s[i];
        let code = c as u32;
        let w: u128 = if code < 0x80 {
            1
        } else if code < 0x800 {
            2
        } else if code < 0x10000 {
            3
        } else {
            4
        };
        proof {
            assert(s@.take(i + 1).drop_last() =~= s@.take(i as int));
            lemma_utf8_len_bound(s@.take(i as int));
        }
        total = total + w;
        i = i + 1;
    }
    assert(s@.take(i as int) =~= s@);
    total
}

pub open spec fn word_separator(c: char) -> bool {
    c == '_' || c == '-' || c == ' '
}

/// Position `i` of `s` starts a word: an upper-case character, or one that is not a
/// separator and comes first or right after a separator.
pub open spec fn starts_word(s: Seq<char>, i: int) -> bool {
    uppercase_char(s[i]) || (!word_separator(s[i]) && (i == 0 || (!uppercase_char(s[i - 1]) && word_separator(
        s[i - 1],
    ))))
}

/// The first character of every word of `s`.
pub open spec fn initials(s: Seq<char>) -> Seq<char>
    decreases s.len(),
{
    if s.len() == 0 {
        Seq::empty()
    } else {
        let rest = initials(s.drop_last());
        if starts_word(s, s.len() - 1) {
            rest.push(s.last())
        } else {
            rest
        }
    }
}

pub open spec fn spec_abbreviate(name: Seq<char>) -> Seq<char> {
    if utf8_len(name) <= 7 {
        name
    } else {
        uppercased(initials(name))
    }
}

/// A short form of a scene name for narrow tabs: names of up to seven bytes stay as
/// they are; longer ones become the upper-cased first letters of their words, where a
/// word starts at an upper-case letter or after `_`, `-` or a space.
pub fn abbreviate(name: &str) -> (out: String)
    ensures
        out@ == spec_abbreviate(name@),
{
    let chars = chars_of(name);
    if utf8_length(chars.as_slice()) <= 7 {
        return string_of(chars.as_slice());
    }
    let mut firsts: Vec<char> = Vec::new();
    let mut current_empty = true;
    let mut i: usize = 0;
    while i < chars.len()
        invariant
            i <= chars@.len(),
            chars@ == name@,
            firsts@ == initials(chars@.take(i as int)),
            current_empty == (i == 0 || (!uppercase_char(chars@[i - 1]) && word_separator(chars@[i - 1]))),
        decreases chars@.len() - i,
    {
        let ch = chars[i];
        proof {
            assert(chars@.take(i + 1).drop_last() =~= chars@.take(i as int));
            assert(chars@.take(i + 1).last() == ch);
            assert(i > 0 ==> chars@.take(i + 1)[i - 1] == chars@[i - 1]);
        }
        if is_uppercase(ch) {
            firsts.push(ch);
            current_empty = false;
        } else if ch == '_' || ch == '-' || ch == ' ' {
            current_empty = true;
        } else {
            if current_empty {
                firsts.push(ch);
            }
            current_empty = false;
        }
        i = i + 1;
    }
    proof {
        assert(chars@.take(i as int) =~= chars@);
    }
    let collected = string_of(firsts.as_slice());
    to_uppercase(collected.as_str())
}

pub open spec fn spec_is_texture_asset(path: Seq<char>) -> bool {
    spec_extension(path) == Some("jpeg"@) || spec_extension(path) == Some("jpg"@) || spec_extension(path) == Some(
        "png"@,
    ) || spec_extension(path) == Some("webp"@)
}

/// Whether the path's extension is one of the texture formats (`jpeg`, `jpg`, `png`, `webp`).
pub fn is_texture_asset(path: &str) -> (b: bool)
    ensures
        b == spec_is_texture_asset(path@),
{
    match extension(path) {
        Some(e) => {
            let v = chars_of(e.as_str());
            let jpeg = chars_of("jpeg");
            let jpg = chars_of("jpg");
            let png = chars_of("png");
            let webp = chars_of("webp");
            seq_eq(v.as_slice(), jpeg.as_slice()) || seq_eq(v.as_slice(), jpg.as_slice()) || seq_eq(
                v.as_slice(),
                png.as_slice(),
            ) || seq_eq(v.as_slice(), webp.as_slice())
        },
        None => false,
    }
}

/// Whether one of `c` is `name`.
fn has_component(c: &Vec<Vec<char>>, name: &[char]) -> (b: bool)
    ensures
        b == views(c@).contains(name@),
{
    let mut i: usize = 0;
    while i < c.len()
        invariant
            i <= c@.len(),
            forall|k: int| 0 <= k < i ==> #[trigger] c@[k]@ != name@,
        decreases c@.len() - i,
    {
        if seq_eq(c[i].as_slice(), name) {
            assert(views(c@)[i as int] == name@);
            return true;
        }
        i = i + 1;
    }
    proof {
        if views(c@).contains(name@) {
            let k = choose|k: int| 0 <= k < views(c@).len() && views(c@)[k] == name@;
            assert(c@[k]@ == name@);
        }
    }
    false
}

pub open spec fn spec_is_script_source(path: Seq<char>) -> bool {
    (spec_extension(path) == Some("cs"@) || spec_extension(path) == Some("csproj"@)) && !components(path).contains(
        "bin"@,
    ) && !components(path).contains("obj"@)
}

/// Whether the path is a C# source or project file outside any `bin` or `obj` directory.
pub fn is_script_source(path: &str) -> (b: bool)
    ensures
        b == spec_is_script_source(path@),
{
    let is_script = match extension(path) {
        Some(e) => {
            let v = chars_of(e.as_str());
            let cs = chars_of("cs");
            let csproj = chars_of("csproj");
            seq_eq(v.as_slice(), cs.as_slice()) || seq_eq(v.as_slice(), csproj.as_slice())
        },
        None => false,
    };
    if !is_script {
        return false;
    }
    let p = chars_of(path);
    let c = path_components(p.as_slice());
    let bin = chars_of("bin");
    let obj = chars_of("obj");
    !has_component(&c, bin.as_slice()) && !has_component(&c, obj.as_slice())
}

/// The path starts with a `.` component, which `Path::components` keeps.
pub open spec fn leading_cur_dir(p: Seq<char>) -> bool {
    p == seq!['.'] || seq_starts_with(p, seq!['.', '/'])
}

/// The `/`-joined components of a relative path made only of plain names.
pub open spec fn spec_asset_path_string(p: Seq<char>) -> Option<Seq<char>> {
    let c = components(p);
    if is_absolute(p) || leading_cur_dir(p) || c.contains(seq!['.', '.']) || c.len() == 0 {
        None
    } else {
        Some(join_segments(c))
    }
}

/// The path as an asset path: its components joined with `/`; `None` when it is absolute,
/// starts with `.`, goes up with `..`, or is empty.
pub fn asset_path_string(path: &str) -> (out: Option<String>)
    ensures
        match out {
            Some(s) => spec_asset_path_string(path@) == Some(s@),
            None => spec_asset_path_string(path@) is None,
        },
{
    let p = chars_of(path);
    if path_is_absolute(p.as_slice()) {
        return None;
    }
    let dot = vec!['.'];
    let dot_slash = vec!['.', '/'];
    if seq_eq(p.as_slice(), dot.as_slice()) || starts_with(p.as_slice(), dot_slash.as_slice()) {
        proof {
            assert(dot@ =~= seq!['.']);
            assert(dot_slash@ =~= seq!['.', '/']);
        }
        return None;
    }
    proof {
        assert(dot@ =~= seq!['.']);
        assert(dot_slash@ =~= seq!['.', '/']);
    }
    let c = path_components(p.as_slice());
    let dotdot = vec!['.', '.'];
    proof {
        assert(dotdot@ =~= seq!['.', '.']);
    }
    if has_component(&c, dotdot.as_slice()) || c.len() == 0 {
        return None;
    }
    let joined = join_with_slash(c.as_slice());
    Some(string_of(joined.as_slice()))
}

pub open spec fn spec_relativize_asset_path(root: Seq<char>, absolute: Seq<char>) -> Option<Seq<char>> {
    match spec_strip_prefix(absolute, root) {
        Some(r) => spec_asset_path_string(r),
        None => None,
    }
}

/// `absolute` as an asset path relative to `assets_root`; `None` when it is not below it.
pub fn relativize_asset_path(assets_root: &str, absolute: &str) -> (out: Option<String>)
    ensures
        match out {
            Some(s) => spec_relativize_asset_path(assets_root@, absolute@) == Some(s@),
            None => spec_relativize_asset_path(assets_root@, absolute@) is None,
        },
{
    match strip_prefix(absolute, assets_root) {
        Some(r) => asset_path_string(r.as_str()),
        None => None,
    }
}

pub open spec fn texture_sheet_suffix() -> Seq<char> {
    ".texturesheet.json"@
}

pub open spec fn spec_display_name_for_relative_path(relative: Seq<char>) -> Seq<char> {
    let n = match spec_file_name(relative) {
        Some(n) => n,
        None => relative,
    };
    if seq_ends_with(n, texture_sheet_suffix()) {
        n.take(n.len() - texture_sheet_suffix().len())
    } else {
        n
    }
}

/// The name shown for a texture sheet: its file name without `.texturesheet.json`.
pub fn display_name_for_relative_path(relative: &str) -> (out: String)
    ensures
        out@ == spec_display_name_for_relative_path(relative@),
{
    let n = match file_name(relative) {
        Some(n) => chars_of(n.as_str()),
        None => chars_of(relative),
    };
    let suffix = chars_of(".texturesheet.json");
    if ends_with(n.as_slice(), suffix.as_slice()) {
        let keep = n.len() - suffix.len();
        let mut out: Vec<char> = Vec::new();
        let mut k: usize = 0;
        while k < keep
            invariant
                k <= keep,
                keep <= n@.len(),
                out@ == n@.take(k as int),
            decreases keep - k,
        {
            out.push(n[k]);
            assert(n@.take(k as int).push(n@[k as int]) =~= n@.take(k + 1));
            k = k + 1;
        }
        string_of(out.as_slice())
    } else {
        string_of(n.as_slice())
    }
}

impl SaveStatus {
    /// After a periodic check: a save in progress or a failed save is left as it is;
    /// otherwise the state says whether any scene has unsaved changes.
    pub fn refreshed(self, has_dirty_scenes: bool) -> (s: SaveStatus)
        ensures
            s.last_successful_save == self.last_successful_save,
            s.state == (if self.state == SaveState::Saving || self.state == SaveState::SaveFailed {
                self.state
            } else if has_dirty_scenes {
                SaveState::UnsavedChanges
            } else {
                SaveState::Saved
            }),
    {
        if self.state == SaveState::Saving || self.state == SaveState::SaveFailed {
            self
        } else if has_dirty_scenes {
            self.with_state(SaveState::UnsavedChanges)
        } else {
            self.with_state(SaveState::Saved)
        }
    }

    /// A save succeeded at time `now`.
    pub fn save_succeeded(self, now: u64) -> (s: SaveStatus)
        ensures
            s == (SaveStatus { state: SaveState::Saved, last_successful_save: Some(now) }),
    {
        SaveStatus { state: SaveState::Saved, last_successful_save: Some(now) }
    }

    /// The project settings were saved at time `now`: a failed state clears to saved.
    pub fn project_config_saved(self, now: u64) -> (s: SaveStatus)
        ensures
            s.last_successful_save == Some(now),
            s.state == (if self.state == SaveState::SaveFailed { SaveState::Saved } else { self.state }),
    {
        let state = if self.state == SaveState::SaveFailed {
            SaveState::Saved
        } else {
            self.state
        };
        SaveStatus { state, last_successful_save: Some(now) }
    }
}

/// Whether a window event goes to the running game: only in play mode, and then keyboard
/// events always, other events when the editor's UI did not take them.
pub fn should_forward_game_input(is_keyboard_event: bool, game_input_active: bool, egui_consumed: bool) -> (b: bool)
    ensures
        b == (game_input_active && (is_keyboard_event || !egui_consumed)),
{
    if !game_input_active {
        return false;
    }
    if is_keyboard_event {
        return true;
    }
    !egui_consumed
}

/// The first component of a build output directory below the project root, which the
/// project's `.gitignore` should list.
pub fn build_dir_top_component(output_dir: &str, project_root: &str) -> (out: Option<String>)
    ensures
        match out {
            Some(t) => spec_strip_prefix(output_dir@, project_root@) is Some && components(
                spec_strip_prefix(output_dir@, project_root@).unwrap(),
            ).len() > 0 && t@ == components(spec_strip_prefix(output_dir@, project_root@).unwrap())[0],
            None => spec_strip_prefix(output_dir@, project_root@) is None || components(
                spec_strip_prefix(output_dir@, project_root@).unwrap(),
            ).len() == 0,
        },
{
    match strip_prefix(output_dir, project_root) {
        Some(r) => {
            let rc = chars_of(r.as_str());
            let c = path_components(rc.as_slice());
            if c.len() == 0 {
                None
            } else {
                assert(views(c@)[0] == c@[0]@);
                Some(string_of(c[0].as_slice()))
            }
        },
        None => None,
    }
}

/// `s` without leading and trailing `/`.
pub open spec fn trim_slashes(s: Seq<char>) -> Seq<char> {
    crate::packaging::trim_char(s, '/')
}

/// The `.gitignore` text with `/<top>/` appended on a line of its own, or `None` when a
/// line already names that directory (ignoring surrounding whitespace and slashes).
pub open spec fn spec_gitignore_with(existing: Seq<char>, top: Seq<char>) -> Option<Seq<char>> {
    let lines = crate::text::split_at_char(existing, '\n');
    if exists|i: int| 0 <= i < lines.len() && #[trigger] trim_slashes(crate::text::trimmed(lines[i])) == trim_slashes(top) {
        None
    } else {
        let line = seq!['/'] + top + seq!['/', '\n'];
        if existing.len() == 0 || existing.last() == '\n' {
            Some(existing + line)
        } else {
            Some(existing + seq!['\n'] + line)
        }
    }
}

fn trim_slashes_exec(s: &[char]) -> (out: Vec<char>)
    ensures
        out@ == trim_slashes(s@),
{
    let n = s.len();
    let mut a: usize = 0;
    while a < n && s[a] == '/'
        invariant
            a <= n,
            n == s@.len(),
            crate::packaging::skip_leading(s@, '/', a as int) == crate::packaging::skip_leading(s@, '/', 0),
        decreases n - a,
    {
        a = a + 1;
    }
    let mut b: usize = n;
    while b > a && s[b - 1] == '/'
        invariant
            a <= b <= n,
            n == s@.len(),
            crate::packaging::skip_trailing(s@, '/', a as int, b as int) == crate::packaging::skip_trailing(
                s@,
                '/',
                a as int,
                n as int,
            ),
        decreases b,
    {
        b = b - 1;
    }
    let mut out: Vec<char> = Vec::new();
    let mut k = a;
    while k < b
        invariant
            a <= k <= b,
            b <= n,
            n == s@.len(),
            out@ == s@.subrange(a as int, k as int),
        decreases b - k,
    {
        out.push(s[k]);
        assert(s@.subrange(a as int, k as int).push(s@[k as int]) =~= s@.subrange(a as int, k + 1));
        k = k + 1;
    }
    out
}

/// Adds the build output directory to a project's `.gitignore` text, unless listed.
pub fn gitignore_with_build_dir(existing: &str, top: &str) -> (out: Option<String>)
    ensures
        match out {
            Some(t) => spec_gitignore_with(existing@, top@) == Some(t@),
            None => spec_gitignore_with(existing@, top@) is None,
        },
{
    let e = chars_of(existing);
    let t = chars_of(top);
    let want = trim_slashes_exec(t.as_slice());
    let lines = crate::text::split_chars(e.as_slice(), '\n');
    let ghost ls = crate::text::split_at_char(existing@, '\n');
    let mut i: usize = 0;
    while i < lines.len()
        invariant
            i <= lines@.len(),
            ls == crate::text::split_at_char(existing@, '\n'),
            lines@.len() == ls.len(),
            forall|k: int| 0 <= k < lines@.len() ==> #[trigger] lines@[k]@ == ls[k],
            want@ == trim_slashes(top@),
            forall|k: int| 0 <= k < i ==> #[trigger] trim_slashes(crate::text::trimmed(ls[k])) != trim_slashes(top@),
        decreases lines@.len() - i,
    {
        let tl = crate::text::trim_chars(lines[i].as_slice());
        let tt = trim_slashes_exec(tl.as_slice());
        if seq_eq(tt.as_slice(), want.as_slice()) {
            assert(trim_slashes(crate::text::trimmed(ls[i as int])) == trim_slashes(top@));
            return None;
        }
        i = i + 1;
    }
    let mut out = e;
    let ends_with_newline = out.len() == 0 || out[out.len() - 1] == '\n';
    if !ends_with_newline {
        out.push('\n');
    }
    let ghost before = out@;
    out.push('/');
    crate::text::append_chars(&mut out, t.as_slice());
    out.push('/');
    out.push('\n');
    assert(out@ =~= before + (seq!['/'] + top@ + seq!['/', '\n']));
    Some(string_of(out.as_slice()))
}

/// Where a distributable build goes: the trimmed output directory (`dist` when blank),
/// below the project root unless it is absolute.
pub open spec fn spec_build_output_dir(root_dir: Seq<char>, output_dir: Seq<char>) -> Seq<char> {
    let dir = if crate::text::trimmed(output_dir).len() == 0 {
        "dist"@
    } else {
        crate::text::trimmed(output_dir)
    };
    crate::paths::spec_join(root_dir, dir)
}

/// The directory a distributable build writes to.
pub fn build_output_dir(root_dir: &str, output_dir: &str) -> (out: String)
    ensures
        out@ == spec_build_output_dir(root_dir@, output_dir@),
{
    let t = crate::text::trim_string(output_dir);
    if t.as_str().is_empty() {
        proof {
            assert(t@.len() == 0) by {
                if t@.len() > 0 {
                    assert(t@ =~= seq![t@[0]] + t@.drop_first());
                }
            }
        }
        crate::paths::join(root_dir, "dist")
    } else {
        proof {
            assert(t@.len() > 0) by {
                if t@.len() == 0 {
                    assert(t@ =~= Seq::<char>::empty());
                }
            }
        }
        crate::paths::join(root_dir, t.as_str())
    }
}

/// The save state the status bar shows: a saved state reads as unsaved while the settings
/// window or an open editor tab has unsaved project changes.
pub fn visible_save_status(settings_dirty: bool, tabs_dirty: bool, status: SaveStatus) -> (s: SaveStatus)
    ensures
        s == (if (settings_dirty || tabs_dirty) && status.state == SaveState::Saved {
            SaveStatus { state: SaveState::UnsavedChanges, ..status }
        } else {
            status
        }),
{
    if (settings_dirty || tabs_dirty) && status.state == SaveState::Saved {
        return status.with_state(SaveState::UnsavedChanges);
    }
    status
}

/// The colour of the save indicator, as red, green and blue: gray without a project, then
/// green when saved, amber while saving or with unsaved changes, red when saving failed.
pub fn save_status_color(state: SaveState, project_loaded: bool) -> (rgb: (u8, u8, u8))
    ensures
        rgb == if !project_loaded {
            (130u8, 130u8, 136u8)
        } else {
            match state {
                SaveState::Saved => (80u8, 190u8, 110u8),
                SaveState::Saving | SaveState::UnsavedChanges => (230u8, 185u8, 70u8),
                SaveState::SaveFailed => (230u8, 80u8, 80u8),
            }
        },
{
    if !project_loaded {
        return (130, 130, 136);
    }
    match state {
        SaveState::Saved => (80, 190, 110),
        SaveState::Saving | SaveState::UnsavedChanges => (230, 185, 70),
        SaveState::SaveFailed => (230, 80, 80),
    }
}

/// The colour of the script indicator, as red, green and blue: gray when unavailable,
/// green when ready, amber while compiling, red on error.
pub fn script_status_color(status: ScriptStatus) -> (rgb: (u8, u8, u8))
    ensures
        rgb == match status {
            ScriptStatus::Unavailable => (130u8, 130u8, 136u8),
            ScriptStatus::UpToDate => (80u8, 190u8, 110u8),
            ScriptStatus::Recompiling | ScriptStatus::ReloadPending => (230u8, 185u8, 70u8),
            ScriptStatus::Failed => (230u8, 80u8, 80u8),
        },
{
    match status {
        ScriptStatus::Unavailable => (130, 130, 136),
        ScriptStatus::UpToDate => (80, 190, 110),
        ScriptStatus::Recompiling | ScriptStatus::ReloadPending => (230, 185, 70),
        ScriptStatus::Failed => (230, 80, 80),
    }
}

/// What the Play button asks of the application: to enter play mode, when a project is
/// loaded and the editor is not already playing.
pub fn play_request(project_loaded: bool, mode: EditorMode) -> (r: Option<EditorRequest>)
    ensures
        r is Some <==> project_loaded && mode == EditorMode::Edit,
        r matches Some(q) ==> q is EnterPlayMode,
{
    if !project_loaded {
        return None;
    }
    match mode {
        EditorMode::Play => None,
        EditorMode::Edit => Some(EditorRequest::EnterPlayMode),
    }
}

/// What the Stop button asks of the application: to stop play mode, when a project is
/// loaded and the editor is playing.
pub fn stop_request(project_loaded: bool, mode: EditorMode) -> (r: Option<EditorRequest>)
    ensures
        r is Some <==> project_loaded && mode == EditorMode::Play,
        r matches Some(q) ==> q is StopPlayMode,
{
    if !project_loaded {
        return None;
    }
    match mode {
        EditorMode::Edit => None,
        EditorMode::Play => Some(EditorRequest::StopPlayMode),
    }
}

/// The build window's fields: the project it is for, the output directory typed (blank
/// means `dist`), and the target chosen.
#[derive(Debug, Clone)]
pub struct BuildWindowState {
    pub project_root: String,
    pub output_dir: String,
    pub target: BuildTarget,
}

impl BuildWindowState {
    /// The build window for a project: blank output directory, the host's target.
    pub fn from_project(project: &Project, system: crate::packaging::HostSystem) -> (s: BuildWindowState)
        ensures
            s.project_root@ == project.root_dir@,
            s.output_dir@.len() == 0,
            s.target == crate::packaging::spec_host(system),
    {
        BuildWindowState {
            project_root: project.root_dir.clone(),
            output_dir: String::new(),
            target: BuildTarget::host(system),
        }
    }
}

/// Whether the build window must start over for `project`: it is not open yet, or it was
/// opened for another project root.
pub fn build_window_needs_reset(window: &Option<BuildWindowState>, project: &Project) -> (b: bool)
    ensures
        b == match window {
            Some(w) => !crate::explorer::same_path(w.project_root@, project.root_dir@),
            None => true,
        },
{
    match window {
        Some(w) => !crate::explorer::paths_equal(w.project_root.as_str(), project.root_dir.as_str()),
        None => true,
    }
}

/// The files among `files` whose name ends with `suffix` and that lie below the assets,
/// as asset paths.
pub open spec fn assets_with_suffix(assets_root: Seq<char>, files: Seq<String>, suffix: Seq<char>) -> Seq<Seq<char>>
    decreases files.len(),
{
    if files.len() == 0 {
        Seq::empty()
    } else {
        let rest = assets_with_suffix(assets_root, files.drop_last(), suffix);
        let f = files.last()@;
        if spec_file_name(f) is Some && seq_ends_with(spec_file_name(f).unwrap(), suffix)
            && spec_relativize_asset_path(assets_root, f) is Some {
            rest.push(spec_relativize_asset_path(assets_root, f).unwrap())
        } else {
            rest
        }
    }
}

/// The assets a picker lists: of the files found below the assets folder, those whose
/// name ends with `suffix`, as asset paths, sorted.
pub fn scan_assets_with_extension(assets_root: &str, files: &[String], suffix: &str) -> (out: Vec<String>)
    ensures
        sorted(string_views(out@)),
        string_views(out@).to_multiset() == assets_with_suffix(assets_root@, files@, suffix@).to_multiset(),
{
    let suf = chars_of(suffix);
    let mut found: Vec<String> = Vec::new();
    let mut i: usize = 0;
    while i < files.len()
        invariant
            i <= files@.len(),
            suf@ == suffix@,
            string_views(found@) == assets_with_suffix(assets_root@, files@.take(i as int), suffix@),
        decreases files@.len() - i,
    {
        proof {
            assert(files@.take(i + 1).drop_last() =~= files@.take(i as int));
        }
        let path = files[i].as_str();
        let matches = match file_name(path) {
            Some(n) => {
                let nc = chars_of(n.as_str());
                ends_with(nc.as_slice(), suf.as_slice())
            },
            None => false,
        };
        if matches {
            match relativize_asset_path(assets_root, path) {
                Some(rel) => {
                    let ghost before = string_views(found@);
                    found.push(rel);
                    proof {
                        assert(string_views(found@) =~= before.push(found@[found@.len() - 1]@));
                    }
                },
                None => {},
            }
        }
        i = i + 1;
    }
    proof {
        assert(files@.take(i as int) =~= files@);
    }
    crate::sorting::sort_strings(found)
}

/// The new-scene prompt: the name typed and the last error.
#[derive(Debug, Clone)]
pub struct SceneCreatePrompt {
    pub name: String,
    pub error: Option<String>,
}

impl Default for SceneCreatePrompt {
    /// A prompt proposing the name `NewScene`.
    fn default() -> (p: SceneCreatePrompt)
        ensures
            p.name@ == "NewScene"@,
            p.error is None,
    {
        SceneCreatePrompt { name: owned("NewScene"), error: None }
    }
}

} // verus!
