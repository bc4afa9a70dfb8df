//! When the editor rebuilds and reloads the game's C# scripts. Each watcher poll is a
//! series of steps; between them the caller reads the disk, starts `dotnet build`, or
//! reloads the assembly, and hands back what happened. Times are milliseconds of the
//! editor's clock; modification times are opaque stamps.
use vstd::prelude::*;
use crate::workspace::{ScriptStatus, AssetReloadSet, spec_relativize_asset_path, spec_is_texture_asset,
    spec_is_script_source, relativize_asset_path, is_texture_asset, is_script_source};
use crate::explorer::{same_path, paths_equal};
use crate::assets::{AssetRef, AssetSource};
use crate::sorting::{sorted_unique, string_views, strictly_sorted};
use crate::paths::{spec_parent, spec_strip_prefix, parent, path_starts_with, is_absolute, path_is_absolute,
    spec_join, join};

verus! {

/// How long source edits settle before a rebuild, and reload attempts are spaced.
pub const SCRIPT_DEBOUNCE_MS: u64 = 500;

/// The script side of the hot-reload watcher.
#[derive(Debug, Clone, Copy, PartialEq, Eq, Structural)]
pub struct ScriptReloadState {
    pub script_status: ScriptStatus,
    /// A `dotnet build` is running.
    pub building: bool,
    /// There is a C# project to build.
    pub has_csproj: bool,
    pub last_successful_load_mtime: Option<u64>,
    pub last_reload_attempt: Option<u64>,
    pub last_source_change: Option<u64>,
    pub script_build_paused: bool,
    pub script_rebuild_pending: bool,
    pub script_classes_dirty: bool,
    pub assembly_candidate_mtime: Option<u64>,
}

/// At least `SCRIPT_DEBOUNCE_MS` have passed since `since` (or it never happened).
pub open spec fn settled(since: Option<u64>, now: u64) -> bool {
    match since {
        Some(t) => now >= t && now - t >= SCRIPT_DEBOUNCE_MS,
        None => true,
    }
}

fn settled_exec(since: Option<u64>, now: u64) -> (b: bool)
    ensures
        b == settled(since, now),
{
    match since {
        Some(t) => now >= t && now - t >= SCRIPT_DEBOUNCE_MS,
        None => true,
    }
}

/// How a running build was found when polled.
#[derive(Debug, Clone, Copy, PartialEq, Eq, Structural)]
pub enum BuildPoll {
    StillRunning,
    Succeeded,
    Failed,
    /// Polling the build process failed.
    Lost,
}

impl ScriptReloadState {
    /// The state right after start-up: a build started (`Some(true)`), failed to start
    /// (`Some(false)`), or no C# project (`None`).
    pub fn start(build_started: Option<bool>, assembly_mtime: Option<u64>) -> (s: ScriptReloadState)
        ensures
            s.has_csproj == build_started is Some,
            s.building == (build_started == Some(true)),
            s.script_status == match build_started {
                None => ScriptStatus::Unavailable,
                Some(true) => ScriptStatus::Recompiling,
                Some(false) => ScriptStatus::Failed,
            },
            s.last_successful_load_mtime == assembly_mtime,
            s.last_reload_attempt is None && s.last_source_change is None,
            !s.script_build_paused && !s.script_rebuild_pending && !s.script_classes_dirty,
            s.assembly_candidate_mtime is None,
    {
        let (building, status) = match build_started {
            None => (false, ScriptStatus::Unavailable),
            Some(true) => (true, ScriptStatus::Recompiling),
            Some(false) => (false, ScriptStatus::Failed),
        };
        ScriptReloadState {
            script_status: status,
            building,
            has_csproj: build_started.is_some(),
            last_successful_load_mtime: assembly_mtime,
            last_reload_attempt: None,
            last_source_change: None,
            script_build_paused: false,
            script_rebuild_pending: false,
            script_classes_dirty: false,
            assembly_candidate_mtime: None,
        }
    }

    /// Takes the "script classes changed" flag, clearing it.
    pub fn take_script_classes_dirty(&mut self) -> (dirty: bool)
        ensures
            dirty == old(self).script_classes_dirty,
            *final(self) == (ScriptReloadState { script_classes_dirty: false, ..*old(self) }),
    {
        let dirty = self.script_classes_dirty;
        self.script_classes_dirty = false;
        dirty
    }

    /// A distributable build is about to start: watching pauses and a running script build
    /// is stopped.
    pub fn pause_for_build(&mut self)
        ensures
            *final(self) == (ScriptReloadState { script_build_paused: true, building: false, ..*old(self) }),
    {
        self.script_build_paused = true;
        self.building = false;
    }

    /// The distributable build ended: watching resumes from the assembly as it now is.
    pub fn resume_after_build(&mut self, assembly_mtime: Option<u64>)
        ensures
            *final(self) == (ScriptReloadState {
                script_build_paused: false,
                last_successful_load_mtime: assembly_mtime,
                ..*old(self)
            }),
    {
        self.script_build_paused = false;
        self.last_successful_load_mtime = assembly_mtime;
    }

    /// Collects a running build's outcome. A finished successful build leaves scripts up to
    /// date when the assembly did not change; a failed or lost build marks a recompile as
    /// failed.
    pub fn reap_build(&mut self, poll: BuildPoll, assembly_mtime: Option<u64>)
        ensures
            !old(self).building || poll == BuildPoll::StillRunning ==> *final(self) == *old(self),
            old(self).building && poll != BuildPoll::StillRunning ==> *final(self) == (ScriptReloadState {
                building: false,
                script_status: if poll == BuildPoll::Succeeded {
                    if assembly_mtime == old(self).last_successful_load_mtime {
                        ScriptStatus::UpToDate
                    } else {
                        old(self).script_status
                    }
                } else if old(self).script_status == ScriptStatus::Recompiling {
                    ScriptStatus::Failed
                } else {
                    old(self).script_status
                },
                ..*old(self)
            }),
    {
        if !self.building {
            return;
        }
        match poll {
            BuildPoll::StillRunning => {},
            BuildPoll::Succeeded => {
                if assembly_mtime == self.last_successful_load_mtime {
                    self.script_status = ScriptStatus::UpToDate;
                }
                self.building = false;
            },
            BuildPoll::Failed | BuildPoll::Lost => {
                if self.script_status == ScriptStatus::Recompiling {
                    self.script_status = ScriptStatus::Failed;
                }
                self.building = false;
            },
        }
    }

    /// After the watcher's events were read: a changed source marks scripts as
    /// recompiling with a rebuild pending. Returns whether to start `dotnet build` now:
    /// a rebuild is pending, none is running, sources settled, and there is a project.
    pub fn after_source_scan(&mut self, script_source_changed: bool, now: u64) -> (start_build: bool)
        ensures
            ({
                let s1 = if script_source_changed {
                    ScriptReloadState {
                        script_status: ScriptStatus::Recompiling,
                        script_rebuild_pending: true,
                        ..*old(self)
                    }
                } else {
                    *old(self)
                };
                let due = s1.script_rebuild_pending && !s1.building && settled(s1.last_source_change, now);
                &&& start_build == (due && s1.has_csproj)
                &&& *final(self) == if due { ScriptReloadState { last_source_change: Some(now), ..s1 } } else { s1 }
            }),
    {
        if script_source_changed {
            self.script_status = ScriptStatus::Recompiling;
            self.script_rebuild_pending = true;
        }
        if self.script_rebuild_pending && !self.building && settled_exec(self.last_source_change, now) {
            self.last_source_change = Some(now);
            return self.has_csproj;
        }
        false
    }

    /// Whether starting the build succeeded.
    pub fn build_started(&mut self, started: bool)
        ensures
            started ==> *final(self) == (ScriptReloadState { building: true, script_rebuild_pending: false, ..*old(self) }),
            !started ==> *final(self) == (ScriptReloadState { script_status: ScriptStatus::Failed, ..*old(self) }),
    {
        if started {
            self.building = true;
            self.script_rebuild_pending = false;
        } else {
            self.script_status = ScriptStatus::Failed;
        }
    }

    /// After a write to the assembly or its runtime config was seen: returns whether to
    /// reload now (enough time since the last attempt and the assembly changed since it was
    /// last loaded); when not reloading, the attempt is still counted.
    pub fn on_output_written(&mut self, now: u64, assembly_mtime: Option<u64>) -> (reload: bool)
        ensures
            !settled(old(self).last_reload_attempt, now) ==> !reload && *final(self) == *old(self),
            settled(old(self).last_reload_attempt, now) ==> {
                &&& reload == (assembly_mtime is Some && assembly_mtime != old(self).last_successful_load_mtime)
                &&& *final(self) == if reload {
                    ScriptReloadState { assembly_candidate_mtime: None, ..*old(self) }
                } else {
                    ScriptReloadState { assembly_candidate_mtime: None, last_reload_attempt: Some(now), ..*old(self) }
                }
            },
    {
        if !settled_exec(self.last_reload_attempt, now) {
            return false;
        }
        let reload = assembly_mtime.is_some() && assembly_mtime != self.last_successful_load_mtime;
        if !reload {
            self.last_reload_attempt = Some(now);
        }
        self.assembly_candidate_mtime = None;
        reload
    }

    /// A reload was attempted at `now`: on success scripts are up to date, the loaded
    /// assembly's time is recorded and the script classes are marked changed.
    pub fn reloaded(&mut self, now: u64, ok: bool, assembly_mtime: Option<u64>)
        ensures
            ok ==> *final(self) == (ScriptReloadState {
                assembly_candidate_mtime: None,
                last_reload_attempt: Some(now),
                script_status: ScriptStatus::UpToDate,
                last_successful_load_mtime: assembly_mtime,
                script_classes_dirty: true,
                ..*old(self)
            }),
            !ok ==> *final(self) == (ScriptReloadState {
                assembly_candidate_mtime: None,
                last_reload_attempt: Some(now),
                script_status: ScriptStatus::Failed,
                ..*old(self)
            }),
    {
        self.assembly_candidate_mtime = None;
        self.last_reload_attempt = Some(now);
        if ok {
            self.script_status = ScriptStatus::UpToDate;
            self.last_successful_load_mtime = assembly_mtime;
            self.script_classes_dirty = true;
        } else {
            self.script_status = ScriptStatus::Failed;
        }
    }

    /// The fallback for watchers that report no writes: once no build runs and scripts are
    /// recompiling, a changed assembly time is remembered, and seen unchanged on a later
    /// poll (with enough time since the last attempt) it triggers a reload. Returns whether
    /// to reload now.
    pub fn settle_check(&mut self, now: u64, assembly_mtime: Option<u64>) -> (reload: bool)
        ensures
            ({
                let applies = !old(self).building && old(self).script_status == ScriptStatus::Recompiling
                    && assembly_mtime is Some && assembly_mtime != old(self).last_successful_load_mtime;
                let same = old(self).assembly_candidate_mtime == assembly_mtime;
                &&& reload == (applies && same && settled(old(self).last_reload_attempt, now))
                &&& *final(self) == if !applies {
                    *old(self)
                } else if same {
                    if settled(old(self).last_reload_attempt, now) {
                        ScriptReloadState { assembly_candidate_mtime: None, ..*old(self) }
                    } else {
                        *old(self)
                    }
                } else {
                    ScriptReloadState { assembly_candidate_mtime: assembly_mtime, ..*old(self) }
                }
            }),
    {
        if self.building || self.script_status != ScriptStatus::Recompiling {
            return false;
        }
        if assembly_mtime.is_none() || assembly_mtime == self.last_successful_load_mtime {
            return false;
        }
        if self.assembly_candidate_mtime == assembly_mtime {
            if settled_exec(self.last_reload_attempt, now) {
                self.assembly_candidate_mtime = None;
                return true;
            }
            return false;
        }
        self.assembly_candidate_mtime = assembly_mtime;
        false
    }

    /// The last step of a poll: with no build running, a recompile whose assembly is the
    /// one loaded counts as up to date.
    pub fn finish_poll(&mut self, assembly_mtime: Option<u64>)
        ensures
            (!old(self).building && old(self).script_status == ScriptStatus::Recompiling && assembly_mtime
                == old(self).last_successful_load_mtime) ==> *final(self) == (ScriptReloadState {
                script_status: ScriptStatus::UpToDate,
                ..*old(self)
            }),
            !(!old(self).building && old(self).script_status == ScriptStatus::Recompiling && assembly_mtime
                == old(self).last_successful_load_mtime) ==> *final(self) == *old(self),
    {
        if !self.building && self.script_status == ScriptStatus::Recompiling && assembly_mtime
            == self.last_successful_load_mtime {
            self.script_status = ScriptStatus::UpToDate;
        }
    }
}

/// The kinds of file-system event the watcher reports.
#[derive(Debug, Clone, Copy, PartialEq, Eq, Structural)]
pub enum WatchEventKind {
    Any,
    Create,
    Modify,
    Remove,
    Other,
    /// A file opened for writing was closed.
    CloseWrite,
    /// Any other access (open, read, close after reading).
    OtherAccess,
}

/// Events that can mean a watched file changed: all but plain accesses.
pub open spec fn spec_is_reload_event(kind: WatchEventKind) -> bool {
    kind != WatchEventKind::OtherAccess
}

/// Whether an event of this kind can mean a watched file changed.
pub fn is_reload_event(kind: WatchEventKind) -> (b: bool)
    ensures
        b == spec_is_reload_event(kind),
{
    match kind {
        WatchEventKind::OtherAccess => false,
        _ => true,
    }
}

/// One watcher event: its kind and the (absolute) paths it names.
#[derive(Debug, Clone)]
pub struct WatchEvent {
    pub kind: WatchEventKind,
    pub paths: Vec<String>,
}

/// What a batch of watcher events says: the changed textures (as game asset paths, each
/// once, in order), whether a C# source changed, and whether the script assembly or its
/// runtime configuration was written.
#[derive(Debug)]
pub struct WatchSummary {
    pub texture_assets: AssetReloadSet,
    pub script_source_changed: bool,
    pub script_output_written: bool,
}

/// The paths of asset references.
pub open spec fn ref_paths(refs: Seq<AssetRef>) -> Seq<Seq<char>> {
    refs.map_values(|r: AssetRef| r.path@)
}

/// The `b`-th path of a reload event is the texture asset `x` below `assets_root`.
pub open spec fn texture_hit(ev: WatchEvent, b: int, assets_root: Seq<char>, x: Seq<char>) -> bool {
    &&& spec_is_reload_event(ev.kind)
    &&& spec_relativize_asset_path(assets_root, ev.paths@[b]@) == Some(x)
    &&& spec_is_texture_asset(x)
}

/// The `b`-th path of a reload event is a C# source.
pub open spec fn source_hit(ev: WatchEvent, b: int) -> bool {
    spec_is_reload_event(ev.kind) && spec_is_script_source(ev.paths@[b]@)
}

/// The `b`-th path of a close-after-write event is the assembly or its runtime config.
pub open spec fn output_hit(ev: WatchEvent, b: int, assembly: Seq<char>, runtime_config: Seq<char>) -> bool {
    ev.kind == WatchEventKind::CloseWrite && (same_path(ev.paths@[b]@, assembly) || same_path(
        ev.paths@[b]@,
        runtime_config,
    ))
}

/// Some event among the first `n` names the texture asset `x`.
pub open spec fn textures_named(events: Seq<WatchEvent>, n: int, assets_root: Seq<char>, x: Seq<char>) -> bool {
    exists|a: int, b: int| 0 <= a < n && 0 <= b < events[a].paths@.len() && #[trigger] texture_hit(events[a], b, assets_root, x)
}

/// Some event among the first `n` names a C# source.
pub open spec fn sources_named(events: Seq<WatchEvent>, n: int) -> bool {
    exists|a: int, b: int| 0 <= a < n && 0 <= b < events[a].paths@.len() && #[trigger] source_hit(events[a], b)
}

/// Some event among the first `n` reports a write of the script output.
pub open spec fn outputs_named(events: Seq<WatchEvent>, n: int, assembly: Seq<char>, runtime_config: Seq<char>) -> bool {
    exists|a: int, b: int| 0 <= a < n && 0 <= b < events[a].paths@.len() && #[trigger] output_hit(events[a], b, assembly, runtime_config)
}

/// Sorts one batch of watcher events into what the hot-reload step needs.
pub fn summarize_watch_events(events: &[WatchEvent], assets_root: &str, assembly: &str, runtime_config: &str) -> (s:
    WatchSummary)
    ensures
        strictly_sorted(ref_paths(s.texture_assets.assets())),
        forall|i: int| 0 <= i < s.texture_assets.assets().len() ==> (#[trigger] s.texture_assets.assets()[i]).source
            == AssetSource::Game,
        forall|x: Seq<char>| #[trigger] ref_paths(s.texture_assets.assets()).contains(x)
            <==> textures_named(events@, events@.len() as int, assets_root@, x),
        s.script_source_changed == sources_named(events@, events@.len() as int),
        s.script_output_written == outputs_named(events@, events@.len() as int, assembly@, runtime_config@),
{
    let mut found: Vec<String> = Vec::new();
    let mut source_changed = false;
    let mut output_written = false;
    let mut a: usize = 0;
    while a < events.len()
        invariant
            a <= events@.len(),
            forall|x: Seq<char>| #[trigger] string_views(found@).contains(x) <==> textures_named(events@, a as int, assets_root@, x),
            source_changed == sources_named(events@, a as int),
            output_written == outputs_named(events@, a as int, assembly@, runtime_config@),
        decreases events@.len() - a,
    {
        let ev = &events[a];
        let reload = is_reload_event(ev.kind);
        let close_write = ev.kind == WatchEventKind::CloseWrite;
        let ghost found_before = string_views(found@);
        let mut b: usize = 0;
        while b < ev.paths.len()
            invariant
                a < events@.len(),
                *ev == events@[a as int],
                reload == spec_is_reload_event(ev.kind),
                close_write == (ev.kind == WatchEventKind::CloseWrite),
                b <= ev.paths@.len(),
                forall|x: Seq<char>| #[trigger] string_views(found@).contains(x) <==> (found_before.contains(x) || exists|k: int| 0 <= k < b && #[trigger] texture_hit(*ev, k, assets_root@, x)),
                source_changed == (sources_named(events@, a as int) || exists|k: int| 0 <= k < b && #[trigger] source_hit(*ev, k)),
                output_written == (outputs_named(events@, a as int, assembly@, runtime_config@) || exists|k: int| 0 <= k < b && #[trigger] output_hit(*ev, k, assembly@, runtime_config@)),
            decreases ev.paths@.len() - b,
        {
            let path = ev.paths[b].as_str();
            let ghost before = string_views(found@);
            let ghost mut pushed: Option<Seq<char>> = None;
            if reload {
                match relativize_asset_path(assets_root, path) {
                    Some(rel) => {
                        if is_texture_asset(rel.as_str()) {
                            proof {
                                pushed = Some(rel@);
                            }
                            found.push(rel);
                            proof {
                                assert(string_views(found@) =~= before.push(found@[found@.len() - 1]@));
                            }
                        }
                    },
                    None => {},
                }
                if is_script_source(path) {
                    source_changed = true;
                }
            }
            if close_write && (paths_equal(path, assembly) || paths_equal(path, runtime_config)) {
                output_written = true;
            }
            proof {
                assert forall|x: Seq<char>| texture_hit(*ev, b as int, assets_root@, x) <==> pushed == Some(x) by {}
                assert(string_views(found@) == match pushed {
                    Some(y) => before.push(y),
                    None => before,
                });
                assert forall|x: Seq<char>| #[trigger] string_views(found@).contains(x) <==> (found_before.contains(x)
                    || exists|k: int| 0 <= k < b + 1 && #[trigger] texture_hit(*ev, k, assets_root@, x)) by {
                    if exists|k: int| 0 <= k < b + 1 && #[trigger] texture_hit(*ev, k, assets_root@, x) {
                        let k = choose|k: int| 0 <= k < b + 1 && #[trigger] texture_hit(*ev, k, assets_root@, x);
                        if k < b {
                            assert(exists|k2: int| 0 <= k2 < b && #[trigger] texture_hit(*ev, k2, assets_root@, x));
                            assert(before.contains(x));
                        } else {
                            assert(pushed == Some(x));
                        }
                    }
                    match pushed {
                        Some(y) => {
                            if y == x {
                                assert(texture_hit(*ev, b as int, assets_root@, x));
                                assert(before.push(y)[before.len() as int] == x);
                            }
                            if before.contains(x) {
                                let idx = choose|idx: int| 0 <= idx < before.len() && before[idx] == x;
                                assert(before.push(y)[idx] == x);
                            }
                        },
                        None => {},
                    }
                }
                if source_hit(*ev, b as int) {
                    assert(source_changed);
                }
                if exists|k: int| 0 <= k < b + 1 && #[trigger] source_hit(*ev, k) {
                    let k = choose|k: int| 0 <= k < b + 1 && #[trigger] source_hit(*ev, k);
                    if k < b {
                        assert(exists|k2: int| 0 <= k2 < b && #[trigger] source_hit(*ev, k2));
                    }
                }
                if output_hit(*ev, b as int, assembly@, runtime_config@) {
                    assert(output_written);
                }
                if exists|k: int| 0 <= k < b + 1 && #[trigger] output_hit(*ev, k, assembly@, runtime_config@) {
                    let k = choose|k: int| 0 <= k < b + 1 && #[trigger] output_hit(*ev, k, assembly@, runtime_config@);
                    if k < b {
                        assert(exists|k2: int| 0 <= k2 < b && #[trigger] output_hit(*ev, k2, assembly@, runtime_config@));
                    }
                }
            }
            b = b + 1;
        }
        proof {
            lemma_named_step(events@, a as int, assets_root@, assembly@, runtime_config@);
        }
        a = a + 1;
    }
    let unique = sorted_unique(found);
    let mut refs: Vec<AssetRef> = Vec::new();
    let mut i: usize = 0;
    while i < unique.len()
        invariant
            i <= unique@.len(),
            refs@.len() == i,
            forall|k: int| 0 <= k < i ==> (#[trigger] refs@[k]).source == AssetSource::Game && refs@[k].path@ == unique@[k]@,
        decreases unique@.len() - i,
    {
        refs.push(AssetRef::game(unique[i].clone()));
        i = i + 1;
    }
    let set = AssetReloadSet::new(refs);
    proof {
        assert(ref_paths(set.assets()) =~= string_views(unique@));
    }
    WatchSummary { texture_assets: set, script_source_changed: source_changed, script_output_written: output_written }
}

/// Going from the first `a` events to the first `a + 1` adds exactly what event `a` names.
proof fn lemma_named_step(events: Seq<WatchEvent>, a: int, assets_root: Seq<char>, assembly: Seq<char>, runtime_config: Seq<char>)
    requires
        0 <= a < events.len(),
    ensures
        forall|x: Seq<char>| #[trigger] textures_named(events, a + 1, assets_root, x) <==> (textures_named(events, a, assets_root, x)
            || exists|k: int| 0 <= k < events[a].paths@.len() && #[trigger] texture_hit(events[a], k, assets_root, x)),
        sources_named(events, a + 1) <==> (sources_named(events, a) || exists|k: int| 0 <= k < events[a].paths@.len()
            && #[trigger] source_hit(events[a], k)),
        outputs_named(events, a + 1, assembly, runtime_config) <==> (outputs_named(events, a, assembly, runtime_config)
            || exists|k: int| 0 <= k < events[a].paths@.len() && #[trigger] output_hit(events[a], k, assembly, runtime_config)),
{
    assert forall|x: Seq<char>| #[trigger] textures_named(events, a + 1, assets_root, x) <==> (textures_named(events, a, assets_root, x)
        || exists|k: int| 0 <= k < events[a].paths@.len() && #[trigger] texture_hit(events[a], k, assets_root, x)) by {
        if textures_named(events, a + 1, assets_root, x) {
            let (p, q) = choose|p: int, q: int| 0 <= p < a + 1 && 0 <= q < events[p].paths@.len() && #[trigger] texture_hit(events[p], q, assets_root, x);
            if p < a {
                assert(textures_named(events, a, assets_root, x));
            }
        }
        if exists|k: int| 0 <= k < events[a].paths@.len() && #[trigger] texture_hit(events[a], k, assets_root, x) {
            let k = choose|k: int| 0 <= k < events[a].paths@.len() && #[trigger] texture_hit(events[a], k, assets_root, x);
            assert(texture_hit(events[a], k, assets_root, x));
        }
    }
    if sources_named(events, a + 1) {
        let (p, q) = choose|p: int, q: int| 0 <= p < a + 1 && 0 <= q < events[p].paths@.len() && #[trigger] source_hit(events[p], q);
        if p < a {
            assert(sources_named(events, a));
        }
    }
    if exists|k: int| 0 <= k < events[a].paths@.len() && #[trigger] source_hit(events[a], k) {
        let k = choose|k: int| 0 <= k < events[a].paths@.len() && #[trigger] source_hit(events[a], k);
        assert(source_hit(events[a], k));
    }
    if outputs_named(events, a + 1, assembly, runtime_config) {
        let (p, q) = choose|p: int, q: int| 0 <= p < a + 1 && 0 <= q < events[p].paths@.len() && #[trigger] output_hit(events[p], q, assembly, runtime_config);
        if p < a {
            assert(outputs_named(events, a, assembly, runtime_config));
        }
    }
    if exists|k: int| 0 <= k < events[a].paths@.len() && #[trigger] output_hit(events[a], k, assembly, runtime_config) {
        let k = choose|k: int| 0 <= k < events[a].paths@.len() && #[trigger] output_hit(events[a], k, assembly, runtime_config);
        assert(output_hit(events[a], k, assembly, runtime_config));
    }
}

/// A path made absolute against the working directory (`None` when it is unknown, which
/// leaves the path as it is).
pub open spec fn spec_absolute_path(path: Seq<char>, cwd: Option<Seq<char>>) -> Seq<char> {
    if is_absolute(path) {
        path
    } else {
        match cwd {
            Some(d) => spec_join(d, path),
            None => path,
        }
    }
}

/// The path made absolute against the working directory, when known.
pub fn absolute_path(path: &str, cwd: Option<&str>) -> (out: String)
    ensures
        out@ == spec_absolute_path(
            path@,
            match cwd {
                Some(d) => Some(d@),
                None => None,
            },
        ),
{
    let chars = crate::text::chars_of(path);
    if path_is_absolute(chars.as_slice()) {
        return crate::text::owned(path);
    }
    match cwd {
        Some(d) => join(d, path),
        None => crate::text::owned(path),
    }
}

/// A directory for the watcher to watch.
#[derive(Debug, Clone)]
pub struct WatchTarget {
    pub path: String,
    pub recursive: bool,
}

/// A directory outside the assets, which the recursive assets watch already covers.
pub open spec fn outside_assets(dir: Option<Seq<char>>, assets_root: Seq<char>) -> bool {
    dir is Some && spec_strip_prefix(dir.unwrap(), assets_root) is None
}

/// The directories the hot-reload watcher asks to watch, in order: the assets (with all
/// sub-folders), the script assembly's folder (alone) and the C# project's folder (with
/// sub-folders), each of the last two only when it lies outside the assets. The caller
/// watches those that are directories.
pub fn watch_targets(assets_root: &str, assembly: &str, csproj: Option<&str>) -> (out: Vec<WatchTarget>)
    ensures
        ({
            let out_dir = spec_parent(assembly@);
            let script_root = match csproj {
                Some(c) => spec_parent(c@),
                None => None,
            };
            let a = seq![(assets_root@, true)];
            let b = if outside_assets(out_dir, assets_root@) {
                seq![(out_dir.unwrap(), false)]
            } else {
                Seq::empty()
            };
            let c = if outside_assets(script_root, assets_root@) {
                seq![(script_root.unwrap(), true)]
            } else {
                Seq::empty()
            };
            out@.map_values(|t: WatchTarget| (t.path@, t.recursive)) == a + b + c
        }),
{
    let mut out: Vec<WatchTarget> = Vec::new();
    out.push(WatchTarget { path: crate::text::owned(assets_root), recursive: true });
    let ghost after_a = out@.map_values(|t: WatchTarget| (t.path@, t.recursive));
    match parent(assembly) {
        Some(d) => {
            if !path_starts_with(d.as_str(), assets_root) {
                out.push(WatchTarget { path: d, recursive: false });
            }
        },
        None => {},
    }
    let ghost after_b = out@.map_values(|t: WatchTarget| (t.path@, t.recursive));
    let ghost mid = out@;
    match csproj {
        Some(c) => match parent(c) {
            Some(d) => {
                if !path_starts_with(d.as_str(), assets_root) {
                    out.push(WatchTarget { path: d, recursive: true });
                    proof {
                        assert(out@ == mid.push(out@[mid.len() as int]));
                    }
                }
            },
            None => {},
        },
        None => {},
    }
    proof {
        let out_dir = spec_parent(assembly@);
        let script_root = match csproj {
            Some(c) => spec_parent(c@),
            None => None,
        };
        let b = if outside_assets(out_dir, assets_root@) {
            seq![(out_dir.unwrap(), false)]
        } else {
            Seq::empty()
        };
        let c = if outside_assets(script_root, assets_root@) {
            seq![(script_root.unwrap(), true)]
        } else {
            Seq::empty()
        };
        assert(after_a =~= seq![(assets_root@, true)]);
        assert(after_b =~= seq![(assets_root@, true)] + b);
        assert(out@.map_values(|t: WatchTarget| (t.path@, t.recursive)) =~= after_b + c);
    }
    out
}

/// Every watcher event except a plain access can mean a file changed: an event of any
/// other kind (created, modified, removed, written and closed, ...) that names a texture
/// below the assets root puts that texture in the reload set, and one that names a C#
/// source marks the scripts as changed.
pub proof fn law_changing_events_trigger_reload(
    events: Seq<WatchEvent>,
    a: int,
    b: int,
    assets_root: Seq<char>,
    x: Seq<char>,
)
    requires
        0 <= a < events.len(),
        0 <= b < events[a].paths@.len(),
        events[a].kind != WatchEventKind::OtherAccess,
    ensures
        spec_relativize_asset_path(assets_root, events[a].paths@[b]@) == Some(x) && spec_is_texture_asset(x)
            ==> textures_named(events, events.len() as int, assets_root, x),
        spec_is_script_source(events[a].paths@[b]@) ==> sources_named(events, events.len() as int),
{
    if spec_relativize_asset_path(assets_root, events[a].paths@[b]@) == Some(x) && spec_is_texture_asset(x) {
        assert(texture_hit(events[a], b, assets_root, x));
    }
    if spec_is_script_source(events[a].paths@[b]@) {
        assert(source_hit(events[a], b));
    }
}

/// A plain access (an open, a read, a close after reading) never causes a reload.
pub proof fn law_access_does_not_trigger_reload(ev: WatchEvent, b: int, assets_root: Seq<char>, x: Seq<char>)
    requires
        ev.kind == WatchEventKind::OtherAccess,
    ensures
        !texture_hit(ev, b, assets_root, x),
        !source_hit(ev, b),
{
}

/// After the scripts were reloaded from an assembly, neither a write event nor the settle
/// check reloads that same assembly again: a reload happens only for an assembly whose
/// time differs from the last one loaded.
pub proof fn law_loaded_assembly_is_not_reloaded(before: ScriptReloadState, loaded: ScriptReloadState, reload_now: u64,
    later: u64, assembly_mtime: Option<u64>, written_reload: bool, settle_reload: bool)
    requires
        loaded == (ScriptReloadState {
            assembly_candidate_mtime: None,
            last_reload_attempt: Some(reload_now),
            script_status: ScriptStatus::UpToDate,
            last_successful_load_mtime: assembly_mtime,
            script_classes_dirty: true,
            ..before
        }),
        settled(loaded.last_reload_attempt, later) ==> written_reload == (assembly_mtime is Some && assembly_mtime
            != loaded.last_successful_load_mtime),
        !settled(loaded.last_reload_attempt, later) ==> !written_reload,
        settle_reload == ((!loaded.building && loaded.script_status == ScriptStatus::Recompiling && assembly_mtime is Some
            && assembly_mtime != loaded.last_successful_load_mtime) && loaded.assembly_candidate_mtime == assembly_mtime
            && settled(loaded.last_reload_attempt, later)),
    ensures
        !written_reload,
        !settle_reload,
{
}

} // verus!

verus! {

/// How long a build waits for the editor to let go of the script outputs, in milliseconds.
pub const SCRIPT_OUTPUT_LOCK_RELEASE_TIMEOUT_MS: u64 = 10000;

/// How often the script outputs are probed while waiting, in milliseconds.
pub const SCRIPT_OUTPUT_LOCK_POLL_INTERVAL_MS: u64 = 50;

/// The files a scripts build rewrites: the assembly, its runtime configuration, and the
/// assembly's `deps.json` and `pdb` siblings.
pub fn script_output_paths(assembly: &str, runtime_config: &str) -> (out: Vec<String>)
    ensures
        string_views(out@) == seq![
            assembly@,
            runtime_config@,
            crate::paths::spec_with_extension(assembly@, "deps.json"@),
            crate::paths::spec_with_extension(assembly@, "pdb"@),
        ],
{
    let out = vec![
        crate::text::owned(assembly),
        crate::text::owned(runtime_config),
        crate::paths::with_extension(assembly, "deps.json"),
        crate::paths::with_extension(assembly, "pdb"),
    ];
    assert(string_views(out@) =~= seq![
        assembly@,
        runtime_config@,
        crate::paths::spec_with_extension(assembly@, "deps.json"@),
        crate::paths::spec_with_extension(assembly@, "pdb"@),
    ]);
    out
}

/// What the wait for the script outputs does after one probe.
#[derive(Debug, Clone, PartialEq, Eq)]
pub enum LockWait {
    /// No output is held open: the build may go ahead.
    Released,
    /// Probe again after the poll interval.
    Retry,
    /// The deadline passed while an output was still held; the message says which.
    TimedOut(String),
}

pub open spec fn spec_lock_timeout_message(path: Seq<char>, error: Seq<char>) -> Seq<char> {
    "timed out waiting for script hot reload to release "@ + path + ": "@ + error
}

/// One step of waiting for the script outputs: `locked` is the first existing output that
/// could not be opened for writing, with the error, in the order of `script_output_paths`.
pub fn lock_wait_step(locked: Option<(String, String)>, now_ms: u64, deadline_ms: u64) -> (w: LockWait)
    ensures
        match locked {
            None => w == LockWait::Released,
            Some((path, error)) => if now_ms >= deadline_ms {
                w matches LockWait::TimedOut(m) && m@ == spec_lock_timeout_message(path@, error@)
            } else {
                w == LockWait::Retry
            },
        },
{
    match locked {
        None => LockWait::Released,
        Some((path, error)) => {
            if now_ms >= deadline_ms {
                let mut m = crate::text::chars_of("timed out waiting for script hot reload to release ");
                crate::text::append_str(&mut m, path.as_str());
                crate::text::append_str(&mut m, ": ");
                crate::text::append_str(&mut m, error.as_str());
                LockWait::TimedOut(crate::text::string_of(m.as_slice()))
            } else {
                LockWait::Retry
            }
        },
    }
}

} // verus!

verus! {

/// What a poll of the watcher reports: nothing while the script watcher is paused for a
/// distributable build (its events are drained and dropped), else the events' summary.
pub fn gate_poll(state: &ScriptReloadState, s: WatchSummary) -> (r: WatchSummary)
    ensures
        state.script_build_paused ==> r.texture_assets.assets().len() == 0 && !r.script_source_changed
            && !r.script_output_written,
        !state.script_build_paused ==> r == s,
{
    if state.script_build_paused {
        WatchSummary {
            texture_assets: AssetReloadSet::new(Vec::new()),
            script_source_changed: false,
            script_output_written: false,
        }
    } else {
        s
    }
}

} // verus!
