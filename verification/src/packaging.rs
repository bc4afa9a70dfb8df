//! Packaging a project for distribution: build targets and their file names, build
//! options, where the runtime binary is found, the name given to the packaged
//! executable, and which scene files go into the package.
use vstd::prelude::*;
use crate::text::{chars_of, string_of, seq_eq, ends_with, seq_ends_with, append_str, owned, trimmed, trim_chars,
    split_chars, split_at_char, contains_char};
use crate::paths::{spec_extension, extension};
use crate::paths::{join, file_name, spec_join, spec_file_name};
use crate::project::{Project, scene_extension, scene_extension_chars};

verus! {

/// The platform a distributable is built for.
#[derive(Debug, Clone, Copy, PartialEq, Eq, Structural)]
pub enum BuildTarget {
    Linux,
    Windows,
}

/// The operating system the editor itself runs on.
#[derive(Debug, Clone, Copy, PartialEq, Eq, Structural)]
pub enum HostSystem {
    Linux,
    Windows,
    Other,
}

pub open spec fn spec_host(system: HostSystem) -> BuildTarget {
    match system {
        HostSystem::Windows => BuildTarget::Windows,
        _ => BuildTarget::Linux,
    }
}

pub open spec fn spec_target_triple(t: BuildTarget, system: HostSystem) -> Seq<char> {
    match t {
        BuildTarget::Linux => "x86_64-unknown-linux-gnu"@,
        BuildTarget::Windows => if system == HostSystem::Linux {
            "x86_64-pc-windows-gnu"@
        } else {
            "x86_64-pc-windows-msvc"@
        },
    }
}

pub open spec fn spec_binary_name(t: BuildTarget) -> Seq<char> {
    match t {
        BuildTarget::Linux => "ZeroEngine"@,
        BuildTarget::Windows => "ZeroEngine.exe"@,
    }
}

pub open spec fn spec_dotnet_rid(t: BuildTarget) -> Seq<char> {
    match t {
        BuildTarget::Linux => "linux-x64"@,
        BuildTarget::Windows => "win-x64"@,
    }
}

impl BuildTarget {
    /// The target matching the system the editor runs on: Windows there, Linux otherwise.
    pub fn host(system: HostSystem) -> (t: BuildTarget)
        ensures
            t == spec_host(system),
    {
        match system {
            HostSystem::Windows => BuildTarget::Windows,
            _ => BuildTarget::Linux,
        }
    }

    /// The Rust target triple; for Windows it is the GNU one when building on Linux and
    /// the MSVC one elsewhere.
    pub fn target_triple(self, system: HostSystem) -> (s: &'static str)
        ensures
            s@ == spec_target_triple(self, system),
    {
        match self {
            BuildTarget::Linux => "x86_64-unknown-linux-gnu",
            BuildTarget::Windows => match system {
                HostSystem::Linux => "x86_64-pc-windows-gnu",
                _ => "x86_64-pc-windows-msvc",
            },
        }
    }

    /// The file name of the runtime binary for this target.
    pub fn binary_name(self) -> (s: &'static str)
        ensures
            s@ == spec_binary_name(self),
    {
        match self {
            BuildTarget::Linux => "ZeroEngine",
            BuildTarget::Windows => "ZeroEngine.exe",
        }
    }

    /// The .NET runtime identifier for this target.
    pub fn dotnet_rid(self) -> (s: &'static str)
        ensures
            s@ == spec_dotnet_rid(self),
    {
        match self {
            BuildTarget::Linux => "linux-x64",
            BuildTarget::Windows => "win-x64",
        }
    }
}

/// Where the runtime binary comes from: a cargo workspace checkout (development) or the
/// directory the editor executable sits in (release).
#[derive(Debug, Clone)]
pub enum RuntimeBinaryMode {
    Dev { workspace_root: String },
    Release { executable_dir: String },
}

/// What building a distributable needs to know of the editor's own environment.
#[derive(Debug, Clone)]
pub struct BuildEnvironment {
    pub mode: RuntimeBinaryMode,
    pub system: HostSystem,
    /// The cargo profile the editor was built with.
    pub profile: String,
}

/// The cargo profile in effect: the configured one, `debug` when none is set.
pub fn current_build_profile(configured: Option<&str>) -> (s: String)
    ensures
        s@ == match configured {
            Some(p) => p@,
            None => "debug"@,
        },
{
    match configured {
        Some(p) => owned(p),
        None => owned("debug"),
    }
}

/// Which runtime binary source applies, from the configured mode (`dev`, `release` or
/// `packaged`), the executable's directory and the cargo workspace found above it.
/// Returns `None` where a `dev` mode is configured and no workspace was found.
pub fn runtime_binary_mode(configured: Option<&str>, executable_dir: String, workspace_root: Option<String>) -> (m:
    Option<RuntimeBinaryMode>)
    ensures
        (configured is Some && configured.unwrap()@ == "dev"@) ==> match workspace_root {
            Some(w) => m == Some(RuntimeBinaryMode::Dev { workspace_root: w }),
            None => m is None,
        },
        (configured is Some && (configured.unwrap()@ == "release"@ || configured.unwrap()@ == "packaged"@)) ==> m
            == Some(RuntimeBinaryMode::Release { executable_dir }),
        !(configured is Some && (configured.unwrap()@ == "dev"@ || configured.unwrap()@ == "release"@
            || configured.unwrap()@ == "packaged"@)) ==> m == Some(
            match workspace_root {
                Some(w) => RuntimeBinaryMode::Dev { workspace_root: w },
                None => RuntimeBinaryMode::Release { executable_dir },
            },
        ),
{
    proof {
        reveal_strlit("dev");
        reveal_strlit("release");
        reveal_strlit("packaged");
    }
    match configured {
        Some(c) => {
            let cv = chars_of(c);
            let dev = chars_of("dev");
            let release = chars_of("release");
            let packaged = chars_of("packaged");
            if seq_eq(cv.as_slice(), dev.as_slice()) {
                assert(c@.len() == 3);
                assert(c@ != "release"@ && c@ != "packaged"@);
                return match workspace_root {
                    Some(w) => Some(RuntimeBinaryMode::Dev { workspace_root: w }),
                    None => None,
                };
            }
            if seq_eq(cv.as_slice(), release.as_slice()) || seq_eq(cv.as_slice(), packaged.as_slice()) {
                return Some(RuntimeBinaryMode::Release { executable_dir });
            }
        },
        None => {},
    }
    match workspace_root {
        Some(w) => Some(RuntimeBinaryMode::Dev { workspace_root: w }),
        None => Some(RuntimeBinaryMode::Release { executable_dir }),
    }
}

pub open spec fn spec_workspace_runtime_binary_path(root: Seq<char>, t: BuildTarget, system: HostSystem, profile: Seq<
    char,
>) -> Seq<char> {
    spec_join(
        spec_join(spec_join(spec_join(root, "target"@), spec_target_triple(t, system)), profile),
        spec_binary_name(t),
    )
}

/// `<workspace>/target/<triple>/<profile>/<binary>`.
pub fn workspace_runtime_binary_path(workspace_root: &str, target: BuildTarget, system: HostSystem, profile: &str) -> (p:
    String)
    ensures
        p@ == spec_workspace_runtime_binary_path(workspace_root@, target, system, profile@),
{
    let a = join(workspace_root, "target");
    let b = join(a.as_str(), target.target_triple(system));
    let c = join(b.as_str(), profile);
    join(c.as_str(), target.binary_name())
}

pub open spec fn spec_zeroengine_binary_path(t: BuildTarget, env: BuildEnvironment) -> Seq<char> {
    match env.mode {
        RuntimeBinaryMode::Dev { workspace_root } => spec_workspace_runtime_binary_path(
            workspace_root@,
            t,
            env.system,
            env.profile@,
        ),
        RuntimeBinaryMode::Release { executable_dir } => spec_join(executable_dir@, spec_binary_name(t)),
    }
}

/// Where the runtime binary for `target` is expected.
pub fn zeroengine_binary_path(target: BuildTarget, env: &BuildEnvironment) -> (p: String)
    ensures
        p@ == spec_zeroengine_binary_path(target, *env),
{
    match &env.mode {
        RuntimeBinaryMode::Dev { workspace_root } => workspace_runtime_binary_path(
            workspace_root.as_str(),
            target,
            env.system,
            env.profile.as_str(),
        ),
        RuntimeBinaryMode::Release { executable_dir } => join(executable_dir.as_str(), target.binary_name()),
    }
}

/// How a distributable is built.
#[derive(Debug, Clone)]
pub struct BuildOptions {
    pub configuration: String,
    pub output_dir: String,
    pub zeroengine_binary: String,
    pub notice_path: String,
    pub api_source_dir: Option<String>,
    pub target: BuildTarget,
}

/// Where a distributable build put its files.
#[derive(Debug, Clone)]
pub struct BuildOutput {
    pub output_dir: String,
    pub assets_pack: String,
    pub scripts_dll: String,
    pub scripts_deps: String,
    pub scripts_runtime_config: String,
    pub zeroengine_binary: String,
    pub notice: String,
}

impl BuildOptions {
    /// Options for a release build for the host system.
    pub fn release(output_dir: String, notice_path: String, env: &BuildEnvironment) -> (o: BuildOptions)
        ensures
            o.configuration@ == "Release"@,
            o.output_dir == output_dir,
            o.notice_path == notice_path,
            o.api_source_dir is None,
            o.target == spec_host(env.system),
            o.zeroengine_binary@ == spec_zeroengine_binary_path(spec_host(env.system), *env),
    {
        let target = BuildTarget::host(env.system);
        BuildOptions {
            configuration: owned("Release"),
            output_dir,
            zeroengine_binary: zeroengine_binary_path(target, env),
            notice_path,
            api_source_dir: None,
            target,
        }
    }

    /// Options for a debug build for the host system.
    pub fn debug(output_dir: String, notice_path: String, env: &BuildEnvironment) -> (o: BuildOptions)
        ensures
            o.configuration@ == "Debug"@,
            o.output_dir == output_dir,
            o.notice_path == notice_path,
            o.api_source_dir is None,
            o.target == spec_host(env.system),
            o.zeroengine_binary@ == spec_zeroengine_binary_path(spec_host(env.system), *env),
    {
        let target = BuildTarget::host(env.system);
        BuildOptions {
            configuration: owned("Debug"),
            output_dir,
            zeroengine_binary: zeroengine_binary_path(target, env),
            notice_path,
            api_source_dir: None,
            target,
        }
    }

    /// The same options with an explicit runtime binary.
    pub fn with_zeroengine_binary(self, zeroengine_binary: String) -> (o: BuildOptions)
        ensures
            o == (BuildOptions { zeroengine_binary, ..self }),
    {
        BuildOptions { zeroengine_binary, ..self }
    }

    /// The same options with a C# API source directory.
    pub fn with_api_source_dir(self, api_source_dir: String) -> (o: BuildOptions)
        ensures
            o == (BuildOptions { api_source_dir: Some(api_source_dir), ..self }),
    {
        BuildOptions { api_source_dir: Some(api_source_dir), ..self }
    }

    /// The same options for another target, with that target's runtime binary.
    pub fn with_target(self, target: BuildTarget, env: &BuildEnvironment) -> (o: BuildOptions)
        ensures
            o.configuration == self.configuration,
            o.output_dir == self.output_dir,
            o.notice_path == self.notice_path,
            o.api_source_dir == self.api_source_dir,
            o.target == target,
            o.zeroengine_binary@ == spec_zeroengine_binary_path(target, *env),
    {
        let zeroengine_binary = zeroengine_binary_path(target, env);
        BuildOptions { target, zeroengine_binary, ..self }
    }
}

/// ASCII letters and digits.
pub open spec fn is_ascii_alnum(c: char) -> bool {
    ('a' <= c && c <= 'z') || ('A' <= c && c <= 'Z') || ('0' <= c && c <= '9')
}

/// Characters kept as they are in a file stem.
pub open spec fn stem_char_kept(c: char) -> bool {
    is_ascii_alnum(c) || c == '-' || c == '_' || c == '.'
}

/// `s` with every character outside `[A-Za-z0-9._-]` replaced by `_`.
pub open spec fn stem_chars(s: Seq<char>) -> Seq<char> {
    s.map_values(|c: char| if stem_char_kept(c) { c } else { '_' })
}

/// Index of the first character at or after `i` that is not `ch` (or the length).
pub open spec fn skip_leading(s: Seq<char>, ch: char, i: int) -> int
    decreases s.len() - i,
{
    if i < 0 || i >= s.len() {
        s.len() as int
    } else if s[i] == ch {
        skip_leading(s, ch, i + 1)
    } else {
        i
    }
}

/// One past the last character before `j` that is not `ch`, not going below `lo`.
pub open spec fn skip_trailing(s: Seq<char>, ch: char, lo: int, j: int) -> int
    decreases j - lo,
{
    if j <= lo || j > s.len() {
        lo
    } else if s[j - 1] == ch {
        skip_trailing(s, ch, lo, j - 1)
    } else {
        j
    }
}

/// `s` without leading and trailing `ch`, as `str::trim_matches` with one character does.
pub open spec fn trim_char(s: Seq<char>, ch: char) -> Seq<char> {
    let a = skip_leading(s, ch, 0);
    let b = skip_trailing(s, ch, a, s.len() as int);
    s.subrange(a, b)
}

pub open spec fn spec_sanitize_file_stem(s: Seq<char>) -> Seq<char> {
    trim_char(stem_chars(s), '_')
}

proof fn lemma_skip_trailing_bounds(s: Seq<char>, ch: char, lo: int, j: int)
    requires
        0 <= lo <= j <= s.len(),
    ensures
        lo <= skip_trailing(s, ch, lo, j) <= j,
    decreases j - lo,
{
    if j > lo && s[j - 1] == ch {
        lemma_skip_trailing_bounds(s, ch, lo, j - 1);
    }
}

proof fn lemma_skip_leading_bounds(s: Seq<char>, ch: char, i: int)
    requires
        0 <= i <= s.len(),
    ensures
        i <= skip_leading(s, ch, i) <= s.len(),
    decreases s.len() - i,
{
    if i < s.len() && s[i] == ch {
        lemma_skip_leading_bounds(s, ch, i + 1);
    }
}

/// A game name made safe as a file stem: characters outside `[A-Za-z0-9._-]` become `_`,
/// and leading and trailing `_` are dropped.
pub fn sanitize_file_stem(value: &str) -> (out: String)
    ensures
        out@ == spec_sanitize_file_stem(value@),
{
    let chars = chars_of(value);
    let mut mapped: Vec<char> = Vec::new();
    let mut i: usize = 0;
    while i < chars.len()
        invariant
            i <= chars@.len(),
            chars@ == value@,
            mapped@ == stem_chars(chars@.take(i as int)),
        decreases chars@.len() - i,
    {
        let c = chars[i];
        let keep = ('a' <= c && c <= 'z') || ('A' <= c && c <= 'Z') || ('0' <= c && c <= '9') || c == '-' || c
            == '_' || c == '.';
        if keep {
            mapped.push(c);
        } else {
            mapped.push('_');
        }
        assert(stem_chars(chars@.take(i + 1)) =~= stem_chars(chars@.take(i as int)).push(
            if stem_char_kept(c) { c } else { '_' },
        ));
        i = i + 1;
    }
    assert(chars@.take(i as int) =~= chars@);
    let n = mapped.len();
    let mut a: usize = 0;
    while a < n && mapped[a] == '_'
        invariant
            a <= n,
            n == mapped@.len(),
            skip_leading(mapped@, '_', a as int) == skip_leading(mapped@, '_', 0),
        decreases n - a,
    {
        a = a + 1;
    }
    let mut b: usize = n;
    while b > a && mapped[b - 1] == '_'
        invariant
            a <= b <= n,
            n == mapped@.len(),
            skip_trailing(mapped@, '_', a as int, b as int) == skip_trailing(mapped@, '_', a as int, n as int),
        decreases b,
    {
        b = b - 1;
    }
    let mut out: Vec<char> = Vec::new();
    let mut k = a;
    while k < b
        invariant
            a <= k <= b,
            b <= n,
            n == mapped@.len(),
            out@ == mapped@.subrange(a as int, k as int),
        decreases b - k,
    {
        out.push(mapped[k]);
        assert(mapped@.subrange(a as int, k as int).push(mapped@[k as int]) =~= mapped@.subrange(a as int, k + 1));
        k = k + 1;
    }
    string_of(out.as_slice())
}

pub open spec fn spec_executable_file_name(game_name: Seq<char>, ext: Seq<char>) -> Seq<char> {
    let stem = spec_sanitize_file_stem(game_name);
    let base = if stem.len() == 0 { "ZeroEngineGame"@ } else { stem };
    if ext.len() == 0 {
        base
    } else {
        base + seq!['.'] + ext
    }
}

/// The packaged executable's file name: the sanitized game name (`ZeroEngineGame` when
/// nothing is left of it), with `.` and `extension` appended when there is one.
pub fn executable_file_name(game_name: &str, extension: &str) -> (out: String)
    ensures
        out@ == spec_executable_file_name(game_name@, extension@),
{
    let stem = sanitize_file_stem(game_name);
    let mut name = chars_of(stem.as_str());
    if name.len() == 0 {
        name = chars_of("ZeroEngineGame");
    }
    let ext = chars_of(extension);
    if ext.len() > 0 {
        let ghost before = name@;
        name.push('.');
        append_str(&mut name, extension);
        assert(name@ =~= before + seq!['.'] + extension@);
    }
    string_of(name.as_slice())
}

/// Whether `path` names the runtime binary of `target`.
pub fn is_zeroengine_binary(path: &str, target: BuildTarget) -> (b: bool)
    ensures
        b == (spec_file_name(path@) == Some(spec_binary_name(target))),
{
    match file_name(path) {
        Some(n) => {
            let a = chars_of(n.as_str());
            let b = chars_of(target.binary_name());
            seq_eq(a.as_slice(), b.as_slice())
        },
        None => false,
    }
}

/// Whether `path` names the editor's own binary.
pub fn is_editor_binary(path: &str) -> (b: bool)
    ensures
        b == (spec_file_name(path@) == Some("ZeroEditor"@) || spec_file_name(path@) == Some("ZeroEditor.exe"@)),
{
    match file_name(path) {
        Some(n) => {
            let a = chars_of(n.as_str());
            let plain = chars_of("ZeroEditor");
            let exe = chars_of("ZeroEditor.exe");
            seq_eq(a.as_slice(), plain.as_slice()) || seq_eq(a.as_slice(), exe.as_slice())
        },
        None => false,
    }
}

/// Whether `path` names a scene file (`*.zescene.json`).
pub fn is_scene_file(path: &str) -> (b: bool)
    ensures
        b == (spec_file_name(path@) is Some && seq_ends_with(spec_file_name(path@).unwrap(), scene_extension())),
{
    match file_name(path) {
        Some(n) => {
            let a = chars_of(n.as_str());
            let ext = scene_extension_chars();
            ends_with(a.as_slice(), ext.as_slice())
        },
        None => false,
    }
}

/// The scene name a scene file stands for: its file name without `.zescene.json`.
pub open spec fn scene_name_of_file(path: Seq<char>) -> Option<Seq<char>> {
    match spec_file_name(path) {
        Some(n) => if seq_ends_with(n, scene_extension()) {
            Some(n.take(n.len() - scene_extension().len()))
        } else {
            None
        },
        None => None,
    }
}

/// Whether the scene file at `path` belongs to one of the scenes the project includes.
pub fn scene_file_is_included(path: &str, included_scenes: &[String]) -> (b: bool)
    ensures
        b == (scene_name_of_file(path@) is Some && exists|i: int| 0 <= i < included_scenes@.len()
            && #[trigger] included_scenes@[i]@ == scene_name_of_file(path@).unwrap()),
{
    let n = match file_name(path) {
        Some(n) => n,
        None => return false,
    };
    let a = chars_of(n.as_str());
    let ext = scene_extension_chars();
    if !ends_with(a.as_slice(), ext.as_slice()) {
        return false;
    }
    let stem_len = a.len() - ext.len();
    let mut stem: Vec<char> = Vec::new();
    let mut k: usize = 0;
    while k < stem_len
        invariant
            k <= stem_len,
            stem_len <= a@.len(),
            stem@ == a@.take(k as int),
        decreases stem_len - k,
    {
        stem.push(a[k]);
        assert(a@.take(k as int).push(a@[k as int]) =~= a@.take(k + 1));
        k = k + 1;
    }
    let mut i: usize = 0;
    while i < included_scenes.len()
        invariant
            i <= included_scenes@.len(),
            scene_name_of_file(path@) is Some,
            stem@ == scene_name_of_file(path@).unwrap(),
            forall|j: int| 0 <= j < i ==> #[trigger] included_scenes@[j]@ != stem@,
        decreases included_scenes@.len() - i,
    {
        let candidate = chars_of(included_scenes[i].as_str());
        if seq_eq(candidate.as_slice(), stem.as_slice()) {
            return true;
        }
        i = i + 1;
    }
    false
}

pub open spec fn spec_project_scene_path(asset_dir: Seq<char>, scene_name: Seq<char>) -> Seq<char> {
    spec_join(spec_join(asset_dir, "scenes"@), scene_name + scene_extension())
}

/// `<asset dir>/scenes/<scene name>.zescene.json`.
pub fn project_scene_path(project: &Project, scene_name: &str) -> (p: String)
    ensures
        p@ == spec_project_scene_path(project.asset_dir@, scene_name@),
{
    let scenes = join(project.asset_dir.as_str(), "scenes");
    let mut file = chars_of(scene_name);
    let ext = scene_extension_chars();
    let ghost before = file@;
    let mut i: usize = 0;
    while i < ext.len()
        invariant
            i <= ext@.len(),
            file@ == before + ext@.take(i as int),
        decreases ext@.len() - i,
    {
        file.push(ext[i]);
        assert(before + ext@.take(i + 1) =~= (before + ext@.take(i as int)).push(ext@[i as int]));
        i = i + 1;
    }
    assert(ext@.take(i as int) =~= ext@);
    let file_string = string_of(file.as_slice());
    join(scenes.as_str(), file_string.as_str())
}

/// Some line of `source` is `[workspace]` once trimmed.
pub open spec fn spec_is_workspace_manifest(source: Seq<char>) -> bool {
    exists|i: int| 0 <= i < split_at_char(source, '\n').len() && #[trigger] trimmed(split_at_char(source, '\n')[i])
        == "[workspace]"@
}

/// Whether a `Cargo.toml` text declares a workspace.
pub fn is_workspace_manifest_text(source: &str) -> (b: bool)
    ensures
        b == spec_is_workspace_manifest(source@),
{
    let c = chars_of(source);
    let lines = split_chars(c.as_slice(), '\n');
    let target = chars_of("[workspace]");
    let mut i: usize = 0;
    while i < lines.len()
        invariant
            i <= lines@.len(),
            lines@.len() == split_at_char(source@, '\n').len(),
            forall|k: int| 0 <= k < lines@.len() ==> #[trigger] lines@[k]@ == split_at_char(source@, '\n')[k],
            target@ == "[workspace]"@,
            forall|k: int| 0 <= k < i ==> #[trigger] trimmed(split_at_char(source@, '\n')[k]) != "[workspace]"@,
        decreases lines@.len() - i,
    {
        let t = trim_chars(lines[i].as_slice());
        if seq_eq(t.as_slice(), target.as_slice()) {
            assert(trimmed(split_at_char(source@, '\n')[i as int]) == "[workspace]"@);
            return true;
        }
        i = i + 1;
    }
    false
}

/// What packaging does with one file of the asset folder.
#[derive(Debug, Clone, Copy, PartialEq, Eq, Structural)]
pub enum AssetCopy {
    /// A scene file of a scene the build leaves out.
    Skip,
    /// A scene file of an included scene: copied with editor-only entities removed.
    CopyFilteredScene,
    /// Any other file: copied as it is.
    Copy,
}

/// How the asset file at `path` goes into the package.
pub fn asset_copy_action(path: &str, included_scenes: &[String]) -> (a: AssetCopy)
    ensures
        a == if !(spec_file_name(path@) is Some && seq_ends_with(spec_file_name(path@).unwrap(), scene_extension())) {
            AssetCopy::Copy
        } else if scene_name_of_file(path@) is Some && exists|i: int| 0 <= i < included_scenes@.len()
            && #[trigger] included_scenes@[i]@ == scene_name_of_file(path@).unwrap() {
            AssetCopy::CopyFilteredScene
        } else {
            AssetCopy::Skip
        },
{
    if !is_scene_file(path) {
        AssetCopy::Copy
    } else if scene_file_is_included(path, included_scenes) {
        AssetCopy::CopyFilteredScene
    } else {
        AssetCopy::Skip
    }
}

/// Entries of the self-contained .NET publish output that the package leaves out: the
/// game assembly itself, runtime and dependency configs, debug symbols, XML docs, and
/// culture-specific resource folders (two-letter names, or five letters with a `-`).
pub open spec fn spec_dist_entry_skipped(name: Seq<char>, scripts_dll_name: Seq<char>, is_dir: bool) -> bool {
    ||| name == scripts_dll_name
    ||| seq_ends_with(name, ".runtimeconfig.json"@)
    ||| seq_ends_with(name, ".deps.json"@)
    ||| spec_extension(name) == Some("pdb"@)
    ||| spec_extension(name) == Some("xml"@)
    ||| (is_dir && (utf8_byte_len(name) == 2 || (utf8_byte_len(name) == 5 && name.contains('-'))))
}

/// The number of bytes of `s` in UTF-8.
pub open spec fn utf8_byte_len(s: Seq<char>) -> nat
    decreases s.len(),
{
    if s.len() == 0 {
        0
    } else {
        utf8_byte_len(s.drop_last()) + (if (s.last() as u32) < 0x80 {
            1nat
        } else if (s.last() as u32) < 0x800 {
            2nat
        } else if (s.last() as u32) < 0x10000 {
            3nat
        } else {
            4nat
        })
    }
}

fn utf8_byte_length(s: &[char]) -> (n: u128)
    ensures
        n == utf8_byte_len(s@),
{
    let mut total: u128 = 0;
    let mut i: usize = 0;
    while i < s.len()
        invariant
            i <= s@.len(),
            total == utf8_byte_len(s@.take(i as int)),
            total <= 4 * i,
        decreases s@.len() - i,
    {
        let code = s[i] as u32;
        let w: u128 = if code < 0x80 {
            1
        } else if code < 0x800 {
            2
        } else if code < 0x10000 {
            3
        } else {
            4
        };
        proof {
            assert(s@.take(i + 1).drop_last() =~= s@.take(i as int));
        }
        total = total + w;
        i = i + 1;
    }
    assert(s@.take(i as int) =~= s@);
    total
}

/// Whether a publish-output entry stays out of the package's `dotnet` folder.
pub fn dist_entry_skipped(name: &str, scripts_dll_name: &str, is_dir: bool) -> (b: bool)
    ensures
        b == spec_dist_entry_skipped(name@, scripts_dll_name@, is_dir),
{
    let n = chars_of(name);
    let dll = chars_of(scripts_dll_name);
    if seq_eq(n.as_slice(), dll.as_slice()) {
        return true;
    }
    let rc = chars_of(".runtimeconfig.json");
    let deps = chars_of(".deps.json");
    if ends_with(n.as_slice(), rc.as_slice()) || ends_with(n.as_slice(), deps.as_slice()) {
        return true;
    }
    match extension(name) {
        Some(e) => {
            let ev = chars_of(e.as_str());
            let pdb = chars_of("pdb");
            let xml = chars_of("xml");
            if seq_eq(ev.as_slice(), pdb.as_slice()) || seq_eq(ev.as_slice(), xml.as_slice()) {
                return true;
            }
        },
        None => {},
    }
    if is_dir {
        let len = utf8_byte_length(n.as_slice());
        if len == 2 || (len == 5 && contains_char(n.as_slice(), '-')) {
            return true;
        }
    }
    false
}

/// The options for a distributable build started from the editor: the .NET configuration
/// follows the cargo profile the editor was built with (`Release` for `release`, else
/// `Debug`), for the host system, with the C# API sources when they were found.
pub fn distributable_options(output_dir: String, notice_path: String, api_source_dir: Option<String>,
    env: &BuildEnvironment) -> (o: BuildOptions)
    ensures
        o.configuration@ == (if env.profile@ == "release"@ { "Release"@ } else { "Debug"@ }),
        o.output_dir == output_dir,
        o.notice_path == notice_path,
        o.api_source_dir == api_source_dir,
        o.target == spec_host(env.system),
        o.zeroengine_binary@ == spec_zeroengine_binary_path(spec_host(env.system), *env),
{
    let release = crate::text::chars_of("release");
    let profile = crate::text::chars_of(env.profile.as_str());
    let options = if crate::text::seq_eq(profile.as_slice(), release.as_slice()) {
        BuildOptions::release(output_dir, notice_path, env)
    } else {
        BuildOptions::debug(output_dir, notice_path, env)
    };
    match api_source_dir {
        Some(dir) => options.with_api_source_dir(dir),
        None => options,
    }
}

/// Where the runtime binary a distributable ships comes from, and what to say when it is
/// not there.
#[derive(Debug, Clone)]
pub enum RuntimeBinaryPlan {
    /// The path names the editor itself: the build is refused with this message.
    Refuse(String),
    /// Build the runtime with cargo in the workspace, then use `built`, failing with
    /// `missing` when the build did not produce it.
    BuildInWorkspace { workspace_root: String, built: String, missing: String },
    /// Use `path` when it is a file, else fail with `missing`.
    UseExisting { path: String, missing: String },
}

pub open spec fn spec_runtime_binary_plan(path: Seq<char>, target: BuildTarget, env: BuildEnvironment) -> (
    u8,
    Seq<char>,
    Seq<char>,
) {
    if spec_file_name(path) == Some("ZeroEditor"@) || spec_file_name(path) == Some("ZeroEditor.exe"@) {
        (0u8, "refusing to package editor binary as game runtime: "@ + path + "; expected "@ + spec_binary_name(target),
            Seq::empty())
    } else if spec_file_name(path) == Some(spec_binary_name(target)) {
        match env.mode {
            RuntimeBinaryMode::Dev { workspace_root } => {
                let built = spec_workspace_runtime_binary_path(workspace_root@, target, env.system, env.profile@);
                (1u8, built, "ZeroEngine runtime binary was not produced at "@ + built)
            },
            RuntimeBinaryMode::Release { executable_dir } => (2u8, path,
                "ZeroEngine runtime binary not found next to editor at "@ + spec_join(
                    executable_dir@,
                    spec_binary_name(target),
                ) + "; release editor builds do not invoke cargo"@),
        }
    } else {
        (2u8, path, "ZeroEngine runtime binary not found at "@ + path
            + "; build the `ZeroEngine` package first or pass BuildOptions::with_zeroengine_binary"@)
    }
}

/// How the runtime binary named in the build options is obtained: the editor binary is
/// refused; the runtime's own name is built with cargo in a workspace checkout, or taken
/// as it is next to a release editor; any other path is taken as it is.
pub fn runtime_binary_plan(path: &str, target: BuildTarget, env: &BuildEnvironment) -> (plan: RuntimeBinaryPlan)
    ensures
        ({
            let (kind, a, b) = spec_runtime_binary_plan(path@, target, *env);
            match plan {
                RuntimeBinaryPlan::Refuse(m) => kind == 0 && m@ == a,
                RuntimeBinaryPlan::BuildInWorkspace { workspace_root, built, missing } => kind == 1 && built@ == a
                    && missing@ == b && env.mode == (RuntimeBinaryMode::Dev { workspace_root }),
                RuntimeBinaryPlan::UseExisting { path: p, missing } => kind == 2 && p@ == a && missing@ == b,
            }
        }),
{
    if is_editor_binary(path) {
        let mut m = chars_of("refusing to package editor binary as game runtime: ");
        append_str(&mut m, path);
        append_str(&mut m, "; expected ");
        append_str(&mut m, target.binary_name());
        return RuntimeBinaryPlan::Refuse(string_of(m.as_slice()));
    }
    if is_zeroengine_binary(path, target) {
        match &env.mode {
            RuntimeBinaryMode::Dev { workspace_root } => {
                let built = workspace_runtime_binary_path(workspace_root.as_str(), target, env.system,
                    env.profile.as_str());
                let mut m = chars_of("ZeroEngine runtime binary was not produced at ");
                append_str(&mut m, built.as_str());
                return RuntimeBinaryPlan::BuildInWorkspace {
                    workspace_root: workspace_root.clone(),
                    built,
                    missing: string_of(m.as_slice()),
                };
            },
            RuntimeBinaryMode::Release { executable_dir } => {
                let expected = join(executable_dir.as_str(), target.binary_name());
                let mut m = chars_of("ZeroEngine runtime binary not found next to editor at ");
                append_str(&mut m, expected.as_str());
                append_str(&mut m, "; release editor builds do not invoke cargo");
                return RuntimeBinaryPlan::UseExisting { path: owned(path), missing: string_of(m.as_slice()) };
            },
        }
    }
    let mut m = chars_of("ZeroEngine runtime binary not found at ");
    append_str(&mut m, path);
    append_str(&mut m, "; build the `ZeroEngine` package first or pass BuildOptions::with_zeroengine_binary");
    RuntimeBinaryPlan::UseExisting { path: owned(path), missing: string_of(m.as_slice()) }
}

/// The arguments of the `cargo` call that builds the runtime for `target`: the `debug`
/// profile is cargo's default, `release` has its own flag, other profiles are named.
pub open spec fn spec_runtime_build_args(target: BuildTarget, system: HostSystem, profile: Seq<char>) -> Seq<
    Seq<char>,
> {
    let base = seq!["build"@, "-p"@, "ZeroEngine"@, "--target"@, spec_target_triple(target, system)];
    if profile == "debug"@ {
        base
    } else if profile == "release"@ {
        base.push("--release"@)
    } else {
        base.push("--profile"@).push(profile)
    }
}

/// The `cargo` arguments for building the runtime binary.
pub fn runtime_build_args(target: BuildTarget, system: HostSystem, profile: &str) -> (args: Vec<String>)
    ensures
        crate::sorting::string_views(args@) == spec_runtime_build_args(target, system, profile@),
{
    let mut args = vec![owned("build"), owned("-p"), owned("ZeroEngine"), owned("--target"),
        owned(target.target_triple(system))];
    let ghost base = crate::sorting::string_views(args@);
    let p = chars_of(profile);
    let debug = chars_of("debug");
    let release = chars_of("release");
    if seq_eq(p.as_slice(), debug.as_slice()) {
    } else if seq_eq(p.as_slice(), release.as_slice()) {
        args.push(owned("--release"));
    } else {
        args.push(owned("--profile"));
        args.push(owned(profile));
    }
    proof {
        assert(base =~= seq!["build"@, "-p"@, "ZeroEngine"@, "--target"@, spec_target_triple(target, system)]);
        assert(crate::sorting::string_views(args@) =~= spec_runtime_build_args(target, system, profile@));
    }
    args
}

/// Whether `rustup target list --installed` printed `triple` on a line of its own.
pub fn rustup_target_installed(listing: &str, triple: &str) -> (b: bool)
    ensures
        b == exists|i: int| 0 <= i < crate::text::split_at_char(listing@, '\n').len() && #[trigger] trimmed(
            crate::text::split_at_char(listing@, '\n')[i],
        ) == triple@,
{
    let text = chars_of(listing);
    let want = chars_of(triple);
    let lines = crate::text::split_chars(text.as_slice(), '\n');
    let ghost ls = crate::text::split_at_char(listing@, '\n');
    let mut i: usize = 0;
    while i < lines.len()
        invariant
            i <= lines@.len(),
            lines@.len() == ls.len(),
            ls == crate::text::split_at_char(listing@, '\n'),
            want@ == triple@,
            forall|k: int| 0 <= k < lines@.len() ==> #[trigger] lines@[k]@ == ls[k],
            forall|k: int| 0 <= k < i ==> #[trigger] trimmed(ls[k]) != triple@,
        decreases lines@.len() - i,
    {
        let t = trim_chars(lines[i].as_slice());
        if seq_eq(t.as_slice(), want.as_slice()) {
            assert(trimmed(ls[i as int]) == triple@);
            return true;
        }
        i = i + 1;
    }
    false
}

/// Where the pieces of a distributable go under `output_dir`: the asset pack and the
/// script assembly in `Game`, the notice in `Engine`, and the game's executable (named
/// after the game, with the runtime binary's extension) at the top.
pub fn dist_layout(output_dir: &str, scripts_dll: &str, game_name: &str, runtime_extension: &str) -> (r: Result<
    BuildOutput,
    String,
>)
    ensures
        match r {
            Ok(o) => {
                &&& spec_file_name(scripts_dll@) is Some
                &&& o.output_dir@ == output_dir@
                &&& o.assets_pack@ == spec_join(spec_join(output_dir@, "Game"@), "assets.zepack"@)
                &&& o.scripts_dll@ == spec_join(spec_join(output_dir@, "Game"@), spec_file_name(scripts_dll@).unwrap())
                &&& o.scripts_deps@.len() == 0
                &&& o.scripts_runtime_config@.len() == 0
                &&& o.zeroengine_binary@ == spec_join(output_dir@, spec_executable_file_name(game_name@,
                    runtime_extension@))
                &&& o.notice@ == spec_join(spec_join(output_dir@, "Engine"@), "NOTICE"@)
            },
            Err(m) => spec_file_name(scripts_dll@) is None && m@ == "scripts_dll path has no file name"@,
        },
{
    let dll_name = match file_name(scripts_dll) {
        Some(n) => n,
        None => return Err(owned("scripts_dll path has no file name")),
    };
    let game = join(output_dir, "Game");
    let engine = join(output_dir, "Engine");
    let exe = executable_file_name(game_name, runtime_extension);
    Ok(BuildOutput {
        output_dir: owned(output_dir),
        assets_pack: join(game.as_str(), "assets.zepack"),
        scripts_dll: join(game.as_str(), dll_name.as_str()),
        scripts_deps: String::new(),
        scripts_runtime_config: String::new(),
        zeroengine_binary: join(output_dir, exe.as_str()),
        notice: join(engine.as_str(), "NOTICE"),
    })
}

} // verus!

verus! {

/// The host's path separator.
pub open spec fn spec_main_separator(system: HostSystem) -> char {
    match system {
        HostSystem::Windows => '\\',
        _ => '/',
    }
}

pub fn main_separator(system: HostSystem) -> (c: char)
    ensures
        c == spec_main_separator(system),
{
    match system {
        HostSystem::Windows => '\\',
        _ => '/',
    }
}

pub open spec fn spec_dotnet_build_args(project_path: Seq<char>, configuration: Seq<char>) -> Seq<Seq<char>> {
    seq!["build"@, project_path, "--configuration"@, configuration, "--nologo"@]
}

/// The `dotnet` arguments that build the scripts assembly of the project file `project_path`.
pub fn dotnet_build_args(project_path: &str, configuration: &str) -> (args: Vec<String>)
    ensures
        crate::sorting::string_views(args@) == spec_dotnet_build_args(project_path@, configuration@),
{
    let args = vec![owned("build"), owned(project_path), owned("--configuration"), owned(configuration), owned("--nologo")];
    assert(crate::sorting::string_views(args@) =~= spec_dotnet_build_args(project_path@, configuration@));
    args
}

/// The intermediate build output of a self-contained publish: the `build` directory of the
/// publish directory, with a trailing separator.
pub open spec fn spec_publish_build_output(publish_dir: Seq<char>, system: HostSystem) -> Seq<char> {
    spec_join(publish_dir, "build"@).push(spec_main_separator(system))
}

pub open spec fn spec_dotnet_publish_args(
    project_path: Seq<char>,
    configuration: Seq<char>,
    rid: Seq<char>,
    publish_dir: Seq<char>,
    system: HostSystem,
) -> Seq<Seq<char>> {
    seq![
        "publish"@,
        project_path,
        "--configuration"@,
        configuration,
        "--self-contained"@,
        "true"@,
        "-r"@,
        rid,
        "--nologo"@,
        "-o"@,
        publish_dir,
        "-p:OutputPath="@ + spec_publish_build_output(publish_dir, system),
        "-p:EnableDynamicLoading=true"@,
    ]
}

/// The `dotnet` arguments that publish the scripts self-contained for runtime `rid` into
/// `publish_dir`. The publish's own build writes below `publish_dir` so that it leaves the
/// framework-dependent assembly in the project's `bin` directory alone.
pub fn dotnet_publish_args(
    project_path: &str,
    configuration: &str,
    rid: &str,
    publish_dir: &str,
    system: HostSystem,
) -> (args: Vec<String>)
    ensures
        crate::sorting::string_views(args@) == spec_dotnet_publish_args(
            project_path@,
            configuration@,
            rid@,
            publish_dir@,
            system,
        ),
{
    let mut output = chars_of("-p:OutputPath=");
    let build_dir = join(publish_dir, "build");
    append_str(&mut output, build_dir.as_str());
    output.push(main_separator(system));
    let args = vec![
        owned("publish"),
        owned(project_path),
        owned("--configuration"),
        owned(configuration),
        owned("--self-contained"),
        owned("true"),
        owned("-r"),
        owned(rid),
        owned("--nologo"),
        owned("-o"),
        owned(publish_dir),
        string_of(output.as_slice()),
        owned("-p:EnableDynamicLoading=true"),
    ];
    assert(output@ =~= "-p:OutputPath="@ + spec_publish_build_output(publish_dir@, system));
    assert(crate::sorting::string_views(args@) =~= spec_dotnet_publish_args(
        project_path@,
        configuration@,
        rid@,
        publish_dir@,
        system,
    ));
    args
}

} // verus!
