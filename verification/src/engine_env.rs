//! Decisions the engine takes about its surroundings at start-up: where the C# API
//! sources are, and what main-thread stack limit to ask for.
use vstd::prelude::*;
use crate::paths::{join, spec_join};

verus! {

/// The main-thread stack size the engine wants: 64 MiB.
pub const DESIRED_STACK_BYTES: u64 = 67108864;

pub open spec fn dev_api_subdir() -> Seq<char> {
    "ZeroEngine/api/cs"@
}

pub open spec fn dist_api_subdir() -> Seq<char> {
    "api/cs"@
}

/// Where the C# API sources lie in a workspace checkout rooted at `root`.
pub fn engine_api_dev_dir(root: &str) -> (p: String)
    ensures
        p@ == spec_join(root@, dev_api_subdir()),
{
    join(root, "ZeroEngine/api/cs")
}

/// The C# API source directory under the engine root: the workspace layout's when that
/// directory exists (`dev_dir_exists`), else the distribution's `api/cs`.
pub fn engine_api_dir(root: &str, dev_dir_exists: bool) -> (p: String)
    ensures
        p@ == if dev_dir_exists { spec_join(root@, dev_api_subdir()) } else { spec_join(root@, dist_api_subdir()) },
{
    if dev_dir_exists {
        engine_api_dev_dir(root)
    } else {
        join(root, "api/cs")
    }
}

pub open spec fn spec_stack_limit_request(current: u64, maximum: u64, unlimited: u64) -> Option<u64> {
    if current == unlimited || current >= DESIRED_STACK_BYTES {
        None
    } else if maximum == unlimited {
        Some(DESIRED_STACK_BYTES)
    } else if DESIRED_STACK_BYTES <= maximum {
        Some(DESIRED_STACK_BYTES)
    } else {
        Some(maximum)
    }
}

/// The soft stack limit to set before re-executing, given the current soft and hard
/// limits and the value that stands for "unlimited": none when the current limit is
/// unlimited or already large enough, else the desired size capped by the hard limit.
pub fn ensure_large_main_thread_stack(current: u64, maximum: u64, unlimited: u64) -> (r: Option<u64>)
    ensures
        r == spec_stack_limit_request(current, maximum, unlimited),
        r matches Some(v) ==> v <= DESIRED_STACK_BYTES && (maximum != unlimited ==> v <= maximum),
{
    if current == unlimited || current >= DESIRED_STACK_BYTES {
        None
    } else if maximum == unlimited {
        Some(DESIRED_STACK_BYTES)
    } else if DESIRED_STACK_BYTES <= maximum {
        Some(DESIRED_STACK_BYTES)
    } else {
        Some(maximum)
    }
}

pub open spec fn opt_seq(o: Option<&str>) -> Option<Seq<char>> {
    match o {
        Some(s) => Some(s@),
        None => None,
    }
}

/// The places searched, in order, for the engine's C# API sources when building a
/// distributable: the engine root's and the project's workspace layout, the working
/// directory's, and `api/cs` beside the executable; a missing base is skipped.
pub open spec fn spec_api_source_candidates(engine_root: Option<Seq<char>>, project_root: Seq<char>, cwd: Option<
    Seq<char>,
>, exe_dir: Option<Seq<char>>) -> Seq<Seq<char>> {
    let a = match engine_root {
        Some(r) => seq![spec_join(r, dev_api_subdir())],
        None => Seq::empty(),
    };
    let b = seq![spec_join(project_root, dev_api_subdir())];
    let c = match cwd {
        Some(d) => seq![spec_join(d, dev_api_subdir())],
        None => Seq::empty(),
    };
    let d = match exe_dir {
        Some(e) => seq![spec_join(e, dist_api_subdir())],
        None => Seq::empty(),
    };
    a + b + c + d
}

/// The candidate C# API source directories, in search order; the caller takes the first
/// that is a directory.
pub fn api_source_candidates(engine_root: Option<&str>, project_root: &str, cwd: Option<&str>, exe_dir: Option<&str>) -> (out: Vec<String>)
    ensures
        crate::sorting::string_views(out@) == spec_api_source_candidates(opt_seq(engine_root), project_root@, opt_seq(cwd), opt_seq(exe_dir)),
{
    let mut out: Vec<String> = Vec::new();
    match engine_root {
        Some(r) => out.push(join(r, "ZeroEngine/api/cs")),
        None => {},
    }
    out.push(join(project_root, "ZeroEngine/api/cs"));
    match cwd {
        Some(d) => out.push(join(d, "ZeroEngine/api/cs")),
        None => {},
    }
    match exe_dir {
        Some(e) => out.push(join(e, "api/cs")),
        None => {},
    }
    proof {
        assert(crate::sorting::string_views(out@) =~= spec_api_source_candidates(opt_seq(engine_root), project_root@, opt_seq(cwd), opt_seq(exe_dir)));
    }
    out
}

pub open spec fn notice_name() -> Seq<char> {
    "NOTICE"@
}

/// The places searched, in order, for the `NOTICE` file a distributable ships: under the
/// project root, the working directory, the executable's directory and the engine root; a
/// missing base is skipped.
pub open spec fn spec_notice_candidates(project_root: Option<Seq<char>>, cwd: Option<Seq<char>>, exe_dir: Option<
    Seq<char>,
>, engine_root: Option<Seq<char>>) -> Seq<Seq<char>> {
    let f = |o: Option<Seq<char>>| match o {
        Some(d) => seq![spec_join(d, notice_name())],
        None => Seq::<Seq<char>>::empty(),
    };
    f(project_root) + f(cwd) + f(exe_dir) + f(engine_root)
}

fn push_notice(out: &mut Vec<String>, dir: Option<&str>)
    ensures
        crate::sorting::string_views(final(out)@) == crate::sorting::string_views(old(out)@) + match opt_seq(dir) {
            Some(d) => seq![spec_join(d, notice_name())],
            None => Seq::<Seq<char>>::empty(),
        },
{
    let ghost before = crate::sorting::string_views(out@);
    match dir {
        Some(d) => {
            out.push(join(d, "NOTICE"));
            assert(crate::sorting::string_views(out@) =~= before + seq![spec_join(d@, notice_name())]);
        },
        None => {
            assert(crate::sorting::string_views(out@) =~= before + Seq::<Seq<char>>::empty());
        },
    }
}

/// The candidate `NOTICE` files, in search order; the caller takes the first that is a
/// file, else `notice_fallback`.
pub fn notice_candidates(project_root: Option<&str>, cwd: Option<&str>, exe_dir: Option<&str>, engine_root: Option<&str>) -> (out: Vec<String>)
    ensures
        crate::sorting::string_views(out@) == spec_notice_candidates(opt_seq(project_root), opt_seq(cwd), opt_seq(exe_dir), opt_seq(engine_root)),
{
    let mut out: Vec<String> = Vec::new();
    push_notice(&mut out, project_root);
    push_notice(&mut out, cwd);
    push_notice(&mut out, exe_dir);
    push_notice(&mut out, engine_root);
    proof {
        assert(crate::sorting::string_views(out@) =~= spec_notice_candidates(opt_seq(project_root), opt_seq(cwd), opt_seq(exe_dir), opt_seq(engine_root)));
    }
    out
}

/// The `NOTICE` path named in the error when none was found: in the working directory, or
/// bare when that is unknown.
pub fn notice_fallback(cwd: Option<&str>) -> (p: String)
    ensures
        p@ == match cwd {
            Some(d) => spec_join(d@, notice_name()),
            None => notice_name(),
        },
{
    match cwd {
        Some(d) => join(d, "NOTICE"),
        None => crate::text::owned("NOTICE"),
    }
}

/// Where a game looks for its scripts when neither a project nor a packaged build names
/// them: `scripts/bin/Scripts.dll` and its runtime configuration under the assets.
pub fn fallback_script_paths(game_assets_root: &str) -> (paths: (String, String))
    ensures
        paths.0@ == spec_join(spec_join(spec_join(game_assets_root@, "scripts"@), "bin"@), "Scripts.dll"@),
        paths.1@ == spec_join(spec_join(spec_join(game_assets_root@, "scripts"@), "bin"@),
            "Scripts.runtimeconfig.json"@),
{
    let scripts = join(game_assets_root, "scripts");
    let bin = join(scripts.as_str(), "bin");
    (join(bin.as_str(), "Scripts.dll"), join(bin.as_str(), "Scripts.runtimeconfig.json"))
}

/// The runtime configuration file that belongs beside an assembly: the assembly's path
/// with its extension replaced by `runtimeconfig.json`.
pub fn runtime_config_beside(assembly: &str) -> (p: Option<String>)
    ensures
        match p {
            Some(q) => crate::paths::spec_file_stem(assembly@) is Some && q@ == crate::paths::spec_with_file_name(
                assembly@,
                crate::paths::spec_file_stem(assembly@).unwrap() + ".runtimeconfig.json"@,
            ),
            None => crate::paths::spec_file_stem(assembly@) is None,
        },
{
    match crate::paths::file_stem(assembly) {
        Some(stem) => {
            let mut name = crate::text::chars_of(stem.as_str());
            crate::text::append_str(&mut name, ".runtimeconfig.json");
            let name = crate::text::string_of(name.as_slice());
            Some(crate::paths::with_file_name(assembly, name.as_str()))
        },
        None => None,
    }
}

} // verus!
