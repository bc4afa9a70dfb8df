use zeroengine::hot_reload::{
    is_reload_event, summarize_watch_events, BuildPoll, ScriptReloadState, WatchEvent, WatchEventKind,
    SCRIPT_DEBOUNCE_MS,
};
use zeroengine::build_flow::{BuildReport, BuildStart, BuildWorker};
use zeroengine::scenes::EditorSceneManager;
use zeroengine::scene_meta::{SaveHeader, SceneMeta};
use zeroengine::components::SceneType;
use zeroengine::workspace::BuildStatus;
use zeroengine::workspace::{
    build_dir_top_component, gitignore_with_build_dir, should_forward_game_input, SaveState, SaveStatus,
    ScriptStatus,
};

fn names(m: &EditorSceneManager) -> Vec<String> {
    m.slots.iter().map(|s| s.name.clone()).collect()
}

fn two_scenes() -> EditorSceneManager {
    let mut m = EditorSceneManager::from_scene("main".to_string(), Some("a".to_string()));
    m.insert_scene("level".to_string(), Some("b".to_string()));
    m
}

#[test]
fn scenes_are_kept_in_name_order_and_replaced_by_name() {
    let mut m = two_scenes();
    assert_eq!(names(&m), vec!["level", "main"]);
    assert_eq!(m.active_scene, "main");
    assert!(m.contains("level"));
    assert!(!m.contains("other"));
    m.insert_scene("level".to_string(), None);
    assert_eq!(names(&m), vec!["level", "main"]);
    assert_eq!(m.slots[0].saved_fingerprint, None);
}

#[test]
fn switching_to_an_unloaded_scene_fails() {
    let mut m = two_scenes();
    assert_eq!(m.set_active_scene("level"), Ok(()));
    assert_eq!(m.active_scene, "level");
    assert_eq!(m.set_active_scene("nope"), Err("scene `nope` is not loaded".to_string()));
    assert_eq!(m.active_scene, "level");
}

#[test]
fn dirty_scenes_are_told_by_their_fingerprints() {
    let m = two_scenes();
    assert!(!EditorSceneManager::is_dirty(&Some("a".to_string()), "a"));
    assert!(EditorSceneManager::is_dirty(&Some("a".to_string()), "b"));
    assert!(EditorSceneManager::is_dirty(&None, "a"));
    let same = vec!["b".to_string(), "a".to_string()];
    assert!(!m.has_dirty_scenes(&same));
    let changed = vec!["b".to_string(), "changed".to_string()];
    assert!(m.has_dirty_scenes(&changed));
    let infos = m.scene_infos(&changed);
    assert_eq!(infos.len(), 2);
    assert_eq!(infos[0].name, "level");
    assert!(!infos[0].active && !infos[0].dirty);
    assert_eq!(infos[1].name, "main");
    assert!(infos[1].active && infos[1].dirty);
}

#[test]
fn marking_a_scene_saved_updates_only_that_scene() {
    let mut m = two_scenes();
    m.mark_saved("main", "c".to_string());
    assert_eq!(m.slots[1].saved_fingerprint, Some("c".to_string()));
    assert_eq!(m.slots[0].saved_fingerprint, Some("b".to_string()));
    m.mark_saved("missing", "d".to_string());
    assert_eq!(names(&m), vec!["level", "main"]);
}

#[test]
fn play_mode_round_trip_restores_scenes_and_active_scene() {
    let mut m = two_scenes();
    assert_eq!(m.enter_play_mode(), Ok(()));
    assert!(m.play_snapshot.is_some());
    // Entering again while playing changes nothing.
    assert_eq!(m.enter_play_mode(), Ok(()));
    m.insert_scene("extra".to_string(), None);
    m.mark_saved("main", "played".to_string());
    assert_eq!(m.set_active_scene("extra"), Ok(()));
    let restored = m.stop_play_mode();
    assert_eq!(restored, vec!["level", "main"]);
    assert_eq!(names(&m), vec!["level", "main"]);
    assert_eq!(m.slots[1].saved_fingerprint, Some("a".to_string()));
    assert_eq!(m.active_scene, "main");
    assert!(m.play_snapshot.is_none());
    assert!(m.stop_play_mode().is_empty());
}

#[test]
fn entering_play_mode_needs_a_loaded_active_scene() {
    let mut m = two_scenes();
    m.active_scene = "gone".to_string();
    assert_eq!(
        m.enter_play_mode(),
        Err("cannot enter Play mode because no active scene is loaded".to_string())
    );
    // The snapshot is taken anyway; stopping falls back to the first scene.
    let restored = m.stop_play_mode();
    assert_eq!(restored.len(), 2);
    assert_eq!(m.active_scene, "level");
}

#[test]
fn project_scene_refresh_keeps_listed_and_dirty_scenes() {
    let mut m = two_scenes();
    m.insert_scene("scratch".to_string(), None);
    m.insert_scene("draft".to_string(), None);
    assert_eq!(m.set_active_scene("scratch"), Ok(()));
    // Loaded in name order: draft, level, main, scratch.
    let on_disk = vec!["level".to_string()];
    let listed = vec!["main".to_string()];
    m.retain_project_scenes(&on_disk, &listed, "main", &[true, false, false, false]);
    assert_eq!(names(&m), vec!["draft", "level", "main"]);
    assert_eq!(m.active_scene, "main");
    assert_eq!(m.slots[1].saved_fingerprint, Some("b".to_string()));
}

#[test]
fn project_scene_refresh_falls_back_to_first_or_main_name() {
    let mut m = EditorSceneManager::from_scene("solo".to_string(), None);
    m.insert_scene("alpha".to_string(), None);
    m.retain_project_scenes(&["alpha".to_string()], &[], "main", &[false, false]);
    assert_eq!(names(&m), vec!["alpha"]);
    assert_eq!(m.active_scene, "alpha");
    m.retain_project_scenes(&[], &[], "main", &[false]);
    assert!(m.slots.is_empty());
    assert_eq!(m.active_scene, "main");
}

#[test]
fn script_watcher_starts_from_the_build_outcome() {
    let s = ScriptReloadState::start(Some(true), Some(7));
    assert!(s.building && s.has_csproj);
    assert_eq!(s.script_status, ScriptStatus::Recompiling);
    assert_eq!(s.last_successful_load_mtime, Some(7));
    let s = ScriptReloadState::start(Some(false), None);
    assert!(!s.building && s.has_csproj);
    assert_eq!(s.script_status, ScriptStatus::Failed);
    let s = ScriptReloadState::start(None, None);
    assert!(!s.has_csproj);
    assert_eq!(s.script_status, ScriptStatus::Unavailable);
}

#[test]
fn source_edits_debounce_then_build_then_reload() {
    let mut s = ScriptReloadState::start(Some(true), Some(1));
    s.reap_build(BuildPoll::Succeeded, Some(1));
    assert!(!s.building);
    assert_eq!(s.script_status, ScriptStatus::UpToDate);

    // An edit at t=1000 starts a build at once (no earlier change to wait for).
    assert!(s.after_source_scan(true, 1000));
    assert_eq!(s.script_status, ScriptStatus::Recompiling);
    assert_eq!(s.last_source_change, Some(1000));
    s.build_started(true);
    assert!(s.building && !s.script_rebuild_pending);

    // Another edit while building waits for the build.
    assert!(!s.after_source_scan(true, 1100));
    assert!(s.script_rebuild_pending);
    s.reap_build(BuildPoll::StillRunning, Some(1));
    assert!(s.building);
    s.reap_build(BuildPoll::Succeeded, Some(2));
    assert!(!s.building);
    assert_eq!(s.script_status, ScriptStatus::Recompiling);

    // The pending rebuild waits until the debounce interval since the last start.
    assert!(!s.after_source_scan(false, 1000 + SCRIPT_DEBOUNCE_MS - 1));
    assert!(s.after_source_scan(false, 1000 + SCRIPT_DEBOUNCE_MS));
    s.build_started(false);
    assert_eq!(s.script_status, ScriptStatus::Failed);
}

#[test]
fn assembly_writes_trigger_spaced_reloads() {
    let mut s = ScriptReloadState::start(Some(true), Some(1));
    s.reap_build(BuildPoll::Failed, Some(1));
    assert_eq!(s.script_status, ScriptStatus::Failed);
    assert!(s.on_output_written(100, Some(2)));
    s.reloaded(100, true, Some(2));
    assert_eq!(s.script_status, ScriptStatus::UpToDate);
    assert_eq!(s.last_successful_load_mtime, Some(2));
    assert!(s.take_script_classes_dirty());
    assert!(!s.take_script_classes_dirty());
    // Too soon after the last attempt.
    assert!(!s.on_output_written(300, Some(3)));
    // The same assembly as loaded: no reload, but the attempt counts.
    assert!(!s.on_output_written(700, Some(2)));
    assert_eq!(s.last_reload_attempt, Some(700));
    assert!(s.on_output_written(1300, Some(3)));
    s.reloaded(1300, false, Some(3));
    assert_eq!(s.script_status, ScriptStatus::Failed);
    assert_eq!(s.last_successful_load_mtime, Some(2));
}

#[test]
fn settled_assembly_is_reloaded_without_write_events() {
    let mut s = ScriptReloadState::start(Some(true), Some(1));
    s.building = false;
    assert!(!s.settle_check(1000, Some(5)));
    assert_eq!(s.assembly_candidate_mtime, Some(5));
    assert!(s.settle_check(1100, Some(5)));
    assert_eq!(s.assembly_candidate_mtime, None);
    // Not recompiling: nothing to do.
    let mut t = ScriptReloadState::start(None, Some(1));
    assert!(!t.settle_check(1000, Some(5)));
    assert_eq!(t, ScriptReloadState::start(None, Some(1)));
}

#[test]
fn polls_finish_and_builds_pause_watching() {
    let mut s = ScriptReloadState::start(Some(true), Some(4));
    s.finish_poll(Some(4));
    assert_eq!(s.script_status, ScriptStatus::Recompiling);
    s.pause_for_build();
    assert!(s.script_build_paused && !s.building);
    s.finish_poll(Some(4));
    assert_eq!(s.script_status, ScriptStatus::UpToDate);
    s.resume_after_build(Some(9));
    assert!(!s.script_build_paused);
    assert_eq!(s.last_successful_load_mtime, Some(9));
}

#[test]
fn save_status_follows_saves_and_checks() {
    let s = SaveStatus::saved();
    assert_eq!(s.refreshed(true).state, SaveState::UnsavedChanges);
    assert_eq!(s.refreshed(true).refreshed(false).state, SaveState::Saved);
    let failed = s.with_state(SaveState::SaveFailed);
    assert_eq!(failed.refreshed(false).state, SaveState::SaveFailed);
    assert_eq!(s.with_state(SaveState::Saving).refreshed(true).state, SaveState::Saving);
    let done = failed.save_succeeded(50);
    assert_eq!(done, SaveStatus { state: SaveState::Saved, last_successful_save: Some(50) });
    let cfg = failed.project_config_saved(60);
    assert_eq!(cfg, SaveStatus { state: SaveState::Saved, last_successful_save: Some(60) });
    let unsaved = s.with_state(SaveState::UnsavedChanges).project_config_saved(70);
    assert_eq!(unsaved.state, SaveState::UnsavedChanges);
}

#[test]
fn game_input_goes_to_the_game_only_while_playing() {
    assert!(!should_forward_game_input(true, false, false));
    assert!(should_forward_game_input(true, true, true));
    assert!(should_forward_game_input(false, true, false));
    assert!(!should_forward_game_input(false, true, true));
}

#[test]
fn build_directory_is_added_to_gitignore_once() {
    assert_eq!(build_dir_top_component("/game/dist/linux", "/game"), Some("dist".to_string()));
    assert_eq!(build_dir_top_component("/elsewhere/out", "/game"), None);
    assert_eq!(build_dir_top_component("/game", "/game"), None);
    assert_eq!(gitignore_with_build_dir("", "dist"), Some("/dist/\n".to_string()));
    assert_eq!(gitignore_with_build_dir("target", "dist"), Some("target\n/dist/\n".to_string()));
    assert_eq!(gitignore_with_build_dir("a\n", "dist"), Some("a\n/dist/\n".to_string()));
    assert_eq!(gitignore_with_build_dir("x\n  /dist/  \n", "dist"), None);
    assert_eq!(gitignore_with_build_dir("dist", "/dist/"), None);
}

fn event(kind: WatchEventKind, paths: &[&str]) -> WatchEvent {
    WatchEvent { kind, paths: paths.iter().map(|p| p.to_string()).collect() }
}

#[test]
fn watcher_events_are_sorted_into_textures_sources_and_outputs() {
    assert!(is_reload_event(WatchEventKind::Modify));
    assert!(is_reload_event(WatchEventKind::CloseWrite));
    assert!(!is_reload_event(WatchEventKind::OtherAccess));
    let events = vec![
        event(WatchEventKind::Modify, &["/game/assets/textures/b.png", "/game/assets/a.webp"]),
        event(WatchEventKind::Create, &["/game/assets/textures/b.png", "/game/assets/notes.txt"]),
        event(WatchEventKind::OtherAccess, &["/game/assets/skipped.png", "/game/scripts/Skipped.cs"]),
        event(WatchEventKind::Modify, &["/elsewhere/c.png", "/game/scripts/bin/Gen.cs"]),
    ];
    let s = summarize_watch_events(&events, "/game/assets", "/game/scripts/bin/Game.dll", "/game/scripts/bin/Game.runtimeconfig.json");
    let paths: Vec<&str> = s.texture_assets.texture_assets().iter().map(|r| r.path.as_str()).collect();
    assert_eq!(paths, vec!["a.webp", "textures/b.png"]);
    assert!(!s.script_source_changed);
    assert!(!s.script_output_written);

    let events = vec![
        event(WatchEventKind::Modify, &["/game/scripts/Player.cs"]),
        event(WatchEventKind::Modify, &["/game/scripts/bin/Game.dll"]),
    ];
    let s = summarize_watch_events(&events, "/game/assets", "/game/scripts/bin/Game.dll", "/game/scripts/bin/Game.runtimeconfig.json");
    assert!(s.script_source_changed);
    assert!(!s.script_output_written);
    assert!(s.texture_assets.texture_assets().is_empty());

    let events = vec![event(WatchEventKind::CloseWrite, &["/game/scripts/bin//Game.runtimeconfig.json"])];
    let s = summarize_watch_events(&events, "/game/assets", "/game/scripts/bin/Game.dll", "/game/scripts/bin/Game.runtimeconfig.json");
    assert!(s.script_output_written);
}

#[test]
fn distributable_builds_run_once_and_resume_the_watcher() {
    let mut w = BuildWorker::new();
    assert_eq!(w.start_check(false), BuildStart::NoProject);
    assert_eq!(w.start_check(true), BuildStart::Proceed);
    w.watcher_pause_result(true);
    assert!(!w.worker_started(true));
    assert_eq!(w.status, BuildStatus::Running);
    assert_eq!(w.start_check(true), BuildStart::AlreadyRunning);
    let r = w.take_report(BuildReport::Stage("Building scripts...".to_string()));
    assert!(r.repaint && !r.resume_watcher);
    assert_eq!(w.message.as_deref(), Some("Building scripts..."));
    let r = w.take_report(BuildReport::Nothing);
    assert!(!r.repaint && w.receiving);
    let r = w.take_report(BuildReport::Succeeded);
    assert!(r.resume_watcher && r.reload_scripts);
    assert_eq!(w.status, BuildStatus::Done);
    assert!(w.message.is_none() && !w.receiving && !w.watcher_paused);

    let mut w = BuildWorker::new();
    w.watcher_pause_result(true);
    assert!(w.worker_started(false));
    assert_eq!(w.status, BuildStatus::Failed);
    let mut w = BuildWorker::new();
    w.watcher_pause_result(false);
    assert_eq!(w.status, BuildStatus::Failed);
    let mut w = BuildWorker::new();
    w.worker_started(true);
    let r = w.take_report(BuildReport::Disconnected);
    assert!(!r.resume_watcher && !r.reload_scripts);
    assert_eq!(w.status, BuildStatus::Failed);
    let mut w = BuildWorker::new();
    w.save_failed();
    assert_eq!(w.status, BuildStatus::Failed);
}

#[test]
fn a_loaded_assembly_is_not_reloaded_again() {
    let mut s = ScriptReloadState::start(Some(true), Some(1));
    s.building = false;
    s.reloaded(0, true, Some(2));
    assert!(!s.on_output_written(10_000, Some(2)));
    s.script_status = ScriptStatus::Recompiling;
    assert!(!s.settle_check(20_000, Some(2)));
    assert!(!s.settle_check(30_000, Some(2)));
}

#[test]
fn a_scripts_build_waits_for_every_output_it_rewrites() {
    let paths = zeroengine::hot_reload::script_output_paths(
        "/p/assets/bin/Sandbox.dll",
        "/p/assets/bin/Sandbox.runtimeconfig.json",
    );
    assert_eq!(
        paths,
        vec![
            "/p/assets/bin/Sandbox.dll",
            "/p/assets/bin/Sandbox.runtimeconfig.json",
            "/p/assets/bin/Sandbox.deps.json",
            "/p/assets/bin/Sandbox.pdb",
        ]
    );
}

#[test]
fn waiting_for_script_outputs_times_out_with_the_held_file() {
    let step = zeroengine::hot_reload::lock_wait_step;
    assert_eq!(step(None, 5, 0), zeroengine::hot_reload::LockWait::Released);
    let held = Some(("/p/Sandbox.dll".to_string(), "in use".to_string()));
    assert_eq!(step(held.clone(), 10, 20), zeroengine::hot_reload::LockWait::Retry);
    assert_eq!(
        step(held, 20, 20),
        zeroengine::hot_reload::LockWait::TimedOut(
            "timed out waiting for script hot reload to release /p/Sandbox.dll: in use".to_string()
        )
    );
    assert_eq!(zeroengine::hot_reload::SCRIPT_OUTPUT_LOCK_RELEASE_TIMEOUT_MS, 10_000);
    assert_eq!(zeroengine::hot_reload::SCRIPT_OUTPUT_LOCK_POLL_INTERVAL_MS, 50);
}

#[test]
fn a_paused_script_watcher_reports_nothing() {
    let summary = || zeroengine::hot_reload::WatchSummary {
        texture_assets: zeroengine::workspace::AssetReloadSet::new(vec![zeroengine::assets::AssetRef::game("a.png".to_string())]),
        script_source_changed: true,
        script_output_written: true,
    };
    let mut state = ScriptReloadState::start(Some(false), None);
    let open = zeroengine::hot_reload::gate_poll(&state, summary());
    assert_eq!(open.texture_assets.texture_assets().len(), 1);
    assert!(open.script_source_changed && open.script_output_written);
    state.pause_for_build();
    let paused = zeroengine::hot_reload::gate_poll(&state, summary());
    assert!(paused.texture_assets.texture_assets().is_empty());
    assert!(!paused.script_source_changed && !paused.script_output_written);
}

#[test]
fn save_all_dirty_scenes_writes_inactive_loaded_scenes() {
    let mut m = EditorSceneManager::from_scene("First".to_string(), Some("first-v1".to_string()));
    m.insert_scene("Second".to_string(), Some("second-v1".to_string()));
    let current = vec!["first-v2".to_string(), "second-v2".to_string()];
    assert_eq!(m.dirty_scene_names(&current), vec!["First", "Second"]);
    assert_eq!(m.mark_dirty_saved(&current), 2);
    assert!(m.dirty_scene_names(&current).is_empty());
    assert!(!m.has_dirty_scenes(&current));
    assert_eq!(m.active_scene, "First");
}

#[test]
fn snapshot_includes_scene_metadata() {
    let mut scene = SceneMeta::new("internal_name");
    scene.display_name = "Display Name".to_string();
    scene.scene_type = SceneType::Prefab;

    let snapshot = scene.snapshot_header();

    assert_eq!(snapshot.name, "Display Name");
    assert_eq!(snapshot.scene_type, SceneType::Prefab);
}

#[test]
fn a_new_scene_shows_its_own_name_and_is_a_level() {
    let scene = SceneMeta::new("level_one");
    assert_eq!(scene.name, "level_one");
    assert_eq!(scene.display_name, "level_one");
    assert_eq!(scene.scene_type, SceneType::Scene);
    assert_eq!(scene.snapshot_header().version, "0.1.0");
}

#[test]
fn restoring_a_snapshot_gives_back_the_scene_identity() {
    let mut scene = SceneMeta::new("internal_name");
    scene.display_name = "Shown".to_string();
    scene.scene_type = SceneType::Prefab;
    let snapshot = scene.snapshot_header();
    scene.display_name = "Changed in play".to_string();
    scene.scene_type = SceneType::Scene;
    scene.restore_header(&snapshot);
    assert_eq!(scene.name, "internal_name");
    assert_eq!(scene.display_name, "Shown");
    assert_eq!(scene.scene_type, SceneType::Prefab);
}

#[test]
fn a_header_without_a_name_shows_the_scene_name() {
    let mut scene = SceneMeta::new("internal_name");
    scene.display_name = "Other".to_string();
    let header = SaveHeader { version: "0.1.0".to_string(), name: String::new(), scene_type: SceneType::Scene };
    scene.restore_header(&header);
    assert_eq!(scene.display_name, "internal_name");
}

#[test]
fn a_loaded_scene_is_named_after_its_file() {
    let header = SaveHeader { version: "0.1.0".to_string(), name: String::new(), scene_type: SceneType::Prefab };
    let scene = SceneMeta::loaded("/game/assets/scenes/boss_room.zescene.json", &header);
    assert_eq!(scene.name, "boss_room");
    assert_eq!(scene.display_name, "boss_room");
    assert_eq!(scene.scene_type, SceneType::Prefab);
    let named = SaveHeader { version: "0.1.0".to_string(), name: "Boss Room".to_string(), scene_type: SceneType::Scene };
    let other = SceneMeta::loaded("/game/assets/scenes/notes.txt", &named);
    assert_eq!(other.name, "");
    assert_eq!(other.display_name, "Boss Room");
}
