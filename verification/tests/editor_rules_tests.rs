use zeroengine::animation::{animation_clip_destination, animation_clip_source, navigate_frames, FrameKeys};
use zeroengine::engine_env::{api_source_candidates, notice_candidates, notice_fallback};
use zeroengine::explorer::{csharp_component_template, csharp_script_template, entry_icon_color, entry_text_color};
use zeroengine::hot_reload::{absolute_path, watch_targets};
use zeroengine::undo::{begin_scene_edit, edit_needs_snapshot, finish_scene_edit, mark_scene_edit_dirty, PendingSceneEdit};
use zeroengine::inspector::{
    add_tag, entity_header_metadata, format_modified_time, parse_i32_zero_empty, parse_u32_zero_empty,
    resolve_tag_list, SpriteColorModeKind, TagAddition,
};
use zeroengine::packaging::{
    dist_layout, distributable_options, runtime_binary_plan, runtime_build_args, rustup_target_installed,
    BuildEnvironment, BuildTarget, HostSystem, RuntimeBinaryMode, RuntimeBinaryPlan,
};
use zeroengine::paths::ancestors;
use zeroengine::project::{
    available_scene_names, csproj_write_needed, new_project_directories, new_project_ignore_files,
    project_file_path, scene_name_message, GameData, Project, ProjectError, SceneNameError,
};
use zeroengine::scene_doc::{
    scenes_without_primary_camera, CameraCheckError, SceneComponentDoc, SceneDoc, SceneEntityDoc, SceneLookup,
};
use zeroengine::scenes::{check_new_scene, new_scene_message, EditorSceneManager, NewSceneError};
use zeroengine::workspace::{
    build_output_dir, build_window_needs_reset, play_request, save_status_color, script_status_color, stop_request,
    visible_save_status, BuildWindowState, EditorMode, EditorRequest, SaveState, SaveStatus, ScriptStatus,
};

fn project() -> Project {
    let mut p = Project::new(
        "Demo".to_string(),
        "main".to_string(),
        "/game/assets".to_string(),
        "/game/assets/scripts/bin/Demo.dll".to_string(),
    );
    p.scenes = vec!["level".to_string(), "main".to_string()];
    p.root_dir = "/game".to_string();
    p
}

#[test]
fn modified_times_are_told_in_the_largest_unit() {
    assert_eq!(format_modified_time(0), "0s ago");
    assert_eq!(format_modified_time(59), "59s ago");
    assert_eq!(format_modified_time(60), "1m ago");
    assert_eq!(format_modified_time(7199), "1h ago");
    assert_eq!(format_modified_time(86400 * 3 + 5), "3d ago");
}

#[test]
fn entity_headers_name_tag_and_index() {
    assert_eq!(entity_header_metadata(Some("Player"), 7), "Tag: Player | ID 7");
    assert_eq!(entity_header_metadata(None, 12), "No tag | ID 12");
    assert_eq!(SpriteColorModeKind::Plain.label(), "None");
    assert_eq!(SpriteColorModeKind::GrayscaleTint.label(), "Grayscale Tint");
}

#[test]
fn tag_list_falls_back_when_there_are_no_tags() {
    let fallback = vec!["Untagged", "Camera", "Player"];
    assert_eq!(resolve_tag_list(None), fallback);
    assert_eq!(resolve_tag_list(Some(&GameData::empty())), fallback);
    let data = GameData { tags: vec!["Enemy".to_string()] };
    assert_eq!(resolve_tag_list(Some(&data)), vec!["Enemy"]);
}

#[test]
fn new_tags_are_trimmed_and_not_repeated_up_to_ascii_case() {
    let mut tags = vec!["Player".to_string()];
    assert_eq!(add_tag(&mut tags, "   "), TagAddition::Blank);
    assert_eq!(add_tag(&mut tags, " pLAYER "), TagAddition::Duplicate);
    assert_eq!(add_tag(&mut tags, "  Enemy "), TagAddition::Added);
    assert_eq!(tags, vec!["Player", "Enemy"]);
}

#[test]
fn integer_fields_read_blank_as_zero() {
    assert_eq!(parse_i32_zero_empty("  "), Some(0));
    assert_eq!(parse_i32_zero_empty(" -42 "), Some(-42));
    assert_eq!(parse_i32_zero_empty("+7"), Some(7));
    assert_eq!(parse_i32_zero_empty("2147483648"), None);
    assert_eq!(parse_i32_zero_empty("1.5"), None);
    assert_eq!(parse_u32_zero_empty("4294967295"), Some(4294967295));
    assert_eq!(parse_u32_zero_empty("-1"), None);
    assert_eq!(parse_u32_zero_empty("-0"), None);
    assert_eq!(parse_u32_zero_empty(""), Some(0));
}

#[test]
fn available_scenes_merge_disk_listed_and_main() {
    let mut p = project();
    p.main_scene = "start".to_string();
    let names = available_scene_names(&p, vec!["zeta".to_string(), "level".to_string()]);
    assert_eq!(names, vec!["level", "main", "start", "zeta"]);
}

#[test]
fn scene_name_messages_name_the_scene() {
    assert_eq!(scene_name_message(SceneNameError::Empty, ""), "scene name cannot be empty");
    assert_eq!(
        scene_name_message(SceneNameError::NotAFileStem, "a/b"),
        "scene name `a/b` must be a file stem, not a path"
    );
    assert_eq!(
        scene_name_message(SceneNameError::HasSceneExtension, "x.zescene.json"),
        "scene name `x.zescene.json` must not include the scene file extension"
    );
}

#[test]
fn new_scenes_are_checked_in_order() {
    let mut m = EditorSceneManager::from_scene("main".to_string(), None);
    m.insert_scene("level".to_string(), None);
    let p = project();
    assert_eq!(check_new_scene(Some(&m), Some(&p), false, "level"), Err(NewSceneError::AlreadyLoaded));
    assert_eq!(check_new_scene(None, None, false, "fresh"), Err(NewSceneError::NoProject));
    assert_eq!(check_new_scene(Some(&m), Some(&p), true, "fresh"), Err(NewSceneError::FileExists));
    assert_eq!(
        check_new_scene(Some(&m), Some(&p), false, "a/b"),
        Err(NewSceneError::InvalidName(SceneNameError::NotAFileStem))
    );
    let mut listed = project();
    listed.scenes.push("old".to_string());
    listed.scenes.sort();
    assert_eq!(check_new_scene(Some(&m), Some(&listed), false, " old "), Err(NewSceneError::AlreadyRegistered));
    assert_eq!(check_new_scene(Some(&m), Some(&p), false, "fresh"), Ok(()));
    assert_eq!(new_scene_message(NewSceneError::AlreadyLoaded, "level"), "scene `level` is already loaded");
    assert_eq!(
        new_scene_message(NewSceneError::NoProject, "x"),
        "cannot create scene `x` without a project loaded"
    );
    assert_eq!(
        new_scene_message(NewSceneError::FileExists, "x"),
        "scene `x` already exists; open it instead"
    );
    assert_eq!(
        new_scene_message(NewSceneError::AlreadyRegistered, "x"),
        "scene `x` is already registered in the project"
    );
    assert_eq!(
        new_scene_message(NewSceneError::InvalidName(SceneNameError::NotAFileStem), " a/b "),
        "scene name `a/b` must be a file stem, not a path"
    );
}

#[test]
fn missing_scenes_are_loaded_and_dirty_ones_saved() {
    let mut m = EditorSceneManager::from_scene("First".to_string(), Some("f1".to_string()));
    m.insert_scene("Second".to_string(), Some("s1".to_string()));
    let names = vec!["First".to_string(), "Third".to_string(), "Fourth".to_string()];
    assert_eq!(m.scenes_to_load(&names, &[true, true, false]), vec!["Third"]);
    // Both loaded scenes changed; the inactive one is saved too.
    let current = vec!["f2".to_string(), "s2".to_string()];
    assert_eq!(m.dirty_scene_names(&current), vec!["First", "Second"]);
    let current = vec!["f1".to_string(), "s2".to_string()];
    assert_eq!(m.dirty_scene_names(&current), vec!["Second"]);
}

#[test]
fn build_output_defaults_to_dist_under_the_project() {
    assert_eq!(build_output_dir("/game", "  "), "/game/dist");
    assert_eq!(build_output_dir("/game", " out/linux "), "/game/out/linux");
    assert_eq!(build_output_dir("/game", "/tmp/build"), "/tmp/build");
}

#[test]
fn unsaved_project_changes_show_as_unsaved() {
    let saved = SaveStatus::saved();
    assert_eq!(visible_save_status(true, false, saved).state, SaveState::UnsavedChanges);
    assert_eq!(visible_save_status(false, true, saved).state, SaveState::UnsavedChanges);
    assert_eq!(visible_save_status(false, false, saved), saved);
    let failed = saved.with_state(SaveState::SaveFailed);
    assert_eq!(visible_save_status(true, true, failed), failed);
}

#[test]
fn frame_list_keys_move_and_delete() {
    let mut frames = vec![10, 20, 30];
    let mut selected = 0usize;
    let mut playing = true;
    let none = FrameKeys { next: false, previous: false, delete: false };
    let next = FrameKeys { next: true, ..none };
    let previous = FrameKeys { previous: true, ..none };
    let delete = FrameKeys { delete: true, ..none };
    assert!(!navigate_frames(&mut frames, &mut selected, &mut playing, next, true));
    assert!(playing && selected == 0);
    assert!(!navigate_frames(&mut frames, &mut selected, &mut playing, next, false));
    assert_eq!(selected, 1);
    assert!(!playing);
    navigate_frames(&mut frames, &mut selected, &mut playing, next, false);
    navigate_frames(&mut frames, &mut selected, &mut playing, next, false);
    assert_eq!(selected, 2);
    assert!(navigate_frames(&mut frames, &mut selected, &mut playing, delete, false));
    assert_eq!(frames, vec![10, 20]);
    assert_eq!(selected, 1);
    navigate_frames(&mut frames, &mut selected, &mut playing, previous, false);
    navigate_frames(&mut frames, &mut selected, &mut playing, previous, false);
    assert_eq!(selected, 0);
    navigate_frames(&mut frames, &mut selected, &mut playing, delete, false);
    navigate_frames(&mut frames, &mut selected, &mut playing, delete, false);
    assert!(frames.is_empty());
    assert_eq!(selected, 0);
    assert!(!navigate_frames(&mut frames, &mut selected, &mut playing, delete, false));
}

#[test]
fn new_clips_go_to_the_animation_clips_folder() {
    assert_eq!(
        animation_clip_destination("/game/assets", "walk", 0),
        "/game/assets/animation_clips/walk.animationclip.json"
    );
    assert_eq!(
        animation_clip_destination("/game/assets", "walk", 1),
        "/game/assets/animation_clips/walk_2.animationclip.json"
    );
    assert_eq!(animation_clip_source(None, Some("/game/assets")), Err("No source texture sheet selected.".to_string()));
    assert_eq!(animation_clip_source(Some("/game/assets/a.texturesheet.json"), None), Err("No project loaded.".to_string()));
    assert_eq!(
        animation_clip_source(Some("/elsewhere/a.texturesheet.json"), Some("/game/assets")),
        Err("Source sheet is not inside the project's asset directory.".to_string())
    );
    assert_eq!(
        animation_clip_source(Some("/game/assets/sheets/a.texturesheet.json"), Some("/game/assets")),
        Ok("sheets/a.texturesheet.json".to_string())
    );
}

#[test]
fn script_templates_name_the_class() {
    let script = csharp_script_template("Player");
    assert!(script.starts_with("using ZeroEngine;\n\npublic class Player : ZEScript\n{\n\t// Fields\n"));
    assert!(script.contains("\tpublic override void OnFixedUpdate()\n\t{\n\t}\n}\n"));
    assert_eq!(
        csharp_component_template("Health"),
        "using ZeroEngine;\n\npublic class Health : ZEScript\n{\n\t// Fields\n}\n"
    );
}

#[test]
fn distributable_search_paths_are_ordered() {
    assert_eq!(
        api_source_candidates(Some("/engine"), "/game", None, Some("/opt/ze")),
        vec!["/engine/ZeroEngine/api/cs", "/game/ZeroEngine/api/cs", "/opt/ze/api/cs"]
    );
    assert_eq!(
        notice_candidates(Some("/game"), Some("/cwd"), None, Some("/engine")),
        vec!["/game/NOTICE", "/cwd/NOTICE", "/engine/NOTICE"]
    );
    assert_eq!(notice_fallback(Some("/cwd")), "/cwd/NOTICE");
    assert_eq!(notice_fallback(None), "NOTICE");
}

#[test]
fn distributable_options_follow_the_editor_profile() {
    let env = BuildEnvironment {
        mode: RuntimeBinaryMode::Release { executable_dir: "/opt/ze".to_string() },
        system: HostSystem::Linux,
        profile: "release".to_string(),
    };
    let o = distributable_options("/out".to_string(), "/n/NOTICE".to_string(), Some("/api".to_string()), &env);
    assert_eq!(o.configuration, "Release");
    assert_eq!(o.api_source_dir, Some("/api".to_string()));
    assert_eq!(o.target, BuildTarget::Linux);
    assert_eq!(o.zeroengine_binary, "/opt/ze/ZeroEngine");
    let debug = BuildEnvironment { profile: "debug".to_string(), ..env };
    let o = distributable_options("/out".to_string(), "/n/NOTICE".to_string(), None, &debug);
    assert_eq!(o.configuration, "Debug");
    assert_eq!(o.api_source_dir, None);
}

fn camera_entity(primary: bool) -> SceneEntityDoc {
    SceneEntityDoc {
        id: None,
        components: Some(vec![SceneComponentDoc {
            component_type: Some("ze.renderer.camera".to_string()),
            primary: Some(primary),
        }]),
    }
}

#[test]
fn included_scenes_without_a_runtime_camera_are_listed() {
    let names = vec!["a".to_string(), "b".to_string(), "c".to_string(), "d".to_string()];
    let scenes = vec![
        SceneLookup::Found(SceneDoc { entities: Some(vec![camera_entity(false)]) }),
        SceneLookup::Missing,
        SceneLookup::Found(SceneDoc { entities: Some(vec![]) }),
        SceneLookup::Found(SceneDoc { entities: Some(vec![camera_entity(true)]) }),
    ];
    assert_eq!(scenes_without_primary_camera(&names, scenes), Ok(vec!["c".to_string()]));
    let scenes = vec![
        SceneLookup::Missing,
        SceneLookup::Found(SceneDoc { entities: None }),
        SceneLookup::Unreadable,
        SceneLookup::Missing,
    ];
    assert_eq!(scenes_without_primary_camera(&names, scenes), Err(CameraCheckError::NoEntities(1)));
    let scenes = vec![SceneLookup::Unreadable, SceneLookup::Missing, SceneLookup::Missing, SceneLookup::Missing];
    assert_eq!(scenes_without_primary_camera(&names, scenes), Err(CameraCheckError::Unreadable(0)));
}

#[test]
fn project_files_and_new_project_layout() {
    assert_eq!(project_file_path(""), "ZEProject.toml");
    assert_eq!(project_file_path("/game"), "/game/ZEProject.toml");
    let p = Project::for_new_directory("/games/Demo", "Demo");
    assert_eq!(p.scenes, vec!["Main"]);
    assert_eq!(p.asset_dir, "/games/Demo/assets");
    assert_eq!(p.scripts_dll, "/games/Demo/assets/bin/Demo.dll");
    assert_eq!(p.root_dir, "/games/Demo");
    assert_eq!(p.game.name, "Demo");
    assert_eq!(
        new_project_directories("/g"),
        vec!["/g/assets/scenes", "/g/assets/scripts", "/g/assets/shaders", "/g/assets/textures"]
    );
    let files = new_project_ignore_files("/g");
    assert_eq!(files[0].path, "/g/.gitignore");
    assert_eq!(files[0].contents, ".compiled/\n");
    assert_eq!(files[3].path, "/g/assets/.zeignore");
    assert_eq!(files[3].contents, "*.csproj\nbin/\nobj/\n");
}

#[test]
fn loaded_projects_resolve_paths_and_normalize_scenes() {
    let mut p = Project::new("Demo".to_string(), " level ".to_string(), "assets".to_string(), "/abs/Demo.dll".to_string());
    p.scenes = vec!["zeta".to_string(), " ".to_string()];
    p.game.icon_path = Some("icon.png".to_string());
    p.resolve_loaded("/game");
    assert_eq!(p.asset_dir, "/game/assets");
    assert_eq!(p.scripts_dll, "/abs/Demo.dll");
    assert_eq!(p.game.icon_path, Some("/game/icon.png".to_string()));
    assert_eq!(p.root_dir, "/game");
    assert_eq!(p.main_scene, "level");
    assert_eq!(p.scenes, vec!["level", "zeta"]);
}

#[test]
fn csproj_is_written_only_when_changed() {
    let p = project();
    let text = p.csproj_contents("/engine/ZeroEngine/api/cs");
    assert!(text.contains("<AssemblyName>Demo</AssemblyName>\n    <RootNamespace>Demo</RootNamespace>"));
    assert!(text.contains("<Compile Include=\"/engine/ZeroEngine/api/cs/**/*.cs\""));
    assert!(text.starts_with("<Project Sdk=\"Microsoft.NET.Sdk\">\n"));
    assert!(text.ends_with("</Project>\n"));
    assert!(!csproj_write_needed(Some(&text), &text));
    assert!(csproj_write_needed(Some("old"), &text));
    assert!(csproj_write_needed(None, &text));
    assert!(!csproj_write_needed(None, ""));
}

#[test]
fn ancestors_walk_up_to_the_root() {
    assert_eq!(ancestors("/a/b/c"), vec!["/a/b/c", "/a/b", "/a", "/"]);
    assert_eq!(ancestors("x/y"), vec!["x/y", "x", ""]);
    assert_eq!(ancestors("/"), vec!["/"]);
}

#[test]
fn scene_edits_become_one_undo_step_only_when_they_changed_something() {
    let mut pending: Option<PendingSceneEdit<u32>> = None;
    assert!(edit_needs_snapshot(&pending));
    begin_scene_edit(&mut pending, 1);
    assert!(!edit_needs_snapshot(&pending));
    begin_scene_edit(&mut pending, 2);
    assert_eq!(pending.as_ref().map(|p| p.before), Some(1));
    assert_eq!(finish_scene_edit(&mut pending), None);
    assert!(pending.is_none());
    begin_scene_edit(&mut pending, 3);
    mark_scene_edit_dirty(&mut pending);
    assert_eq!(finish_scene_edit(&mut pending), Some(3));
    mark_scene_edit_dirty(&mut pending);
    assert!(pending.is_none());
}

#[test]
fn status_colors() {
    assert_eq!(save_status_color(SaveState::Saved, false), (130, 130, 136));
    assert_eq!(save_status_color(SaveState::Saved, true), (80, 190, 110));
    assert_eq!(save_status_color(SaveState::UnsavedChanges, true), (230, 185, 70));
    assert_eq!(save_status_color(SaveState::SaveFailed, true), (230, 80, 80));
    assert_eq!(script_status_color(ScriptStatus::ReloadPending), (230, 185, 70));
    assert_eq!(script_status_color(ScriptStatus::Failed), (230, 80, 80));
    assert_eq!(entry_icon_color(true), (95, 145, 220));
    assert_eq!(entry_text_color(false), (214, 214, 218));
}

#[test]
fn play_and_stop_requests_need_a_project_and_the_other_mode() {
    assert!(matches!(play_request(true, EditorMode::Edit), Some(EditorRequest::EnterPlayMode)));
    assert!(play_request(true, EditorMode::Play).is_none());
    assert!(play_request(false, EditorMode::Edit).is_none());
    assert!(matches!(stop_request(true, EditorMode::Play), Some(EditorRequest::StopPlayMode)));
    assert!(stop_request(true, EditorMode::Edit).is_none());
    assert!(stop_request(false, EditorMode::Play).is_none());
}

#[test]
fn build_window_resets_for_another_project() {
    let p = project();
    let w = BuildWindowState::from_project(&p, HostSystem::Windows);
    assert_eq!(w.project_root, "/game");
    assert!(w.output_dir.is_empty());
    assert_eq!(w.target, BuildTarget::Windows);
    assert!(build_window_needs_reset(&None, &p));
    assert!(!build_window_needs_reset(&Some(w.clone()), &p));
    let moved = BuildWindowState { project_root: "/other".to_string(), ..w };
    assert!(build_window_needs_reset(&Some(moved), &p));
}

#[test]
fn watcher_covers_assets_and_outside_script_folders() {
    let t = watch_targets("/game/assets", "/game/scripts/bin/Demo.dll", Some("/game/scripts/Demo.csproj"));
    let got: Vec<(&str, bool)> = t.iter().map(|w| (w.path.as_str(), w.recursive)).collect();
    assert_eq!(got, vec![("/game/assets", true), ("/game/scripts/bin", false), ("/game/scripts", true)]);
    let t = watch_targets("/game/assets", "/game/assets/bin/Demo.dll", None);
    assert_eq!(t.len(), 1);
    assert_eq!(absolute_path("a/b", Some("/cwd")), "/cwd/a/b");
    assert_eq!(absolute_path("/x", Some("/cwd")), "/x");
    assert_eq!(absolute_path("a", None), "a");
}

#[test]
fn structure_errors_name_the_offending_scene() {
    let mut p = project();
    p.scenes = vec!["good".to_string(), "bad/one".to_string(), "main".to_string()];
    assert_eq!(p.validate_structure(true), Err(ProjectError::InvalidScene(SceneNameError::NotAFileStem)));
    assert_eq!(
        p.error_message(ProjectError::InvalidScene(SceneNameError::NotAFileStem)),
        "scene name `bad/one` must be a file stem, not a path"
    );
    assert_eq!(p.error_message(ProjectError::MissingAssetDir), "project assets directory does not exist: /game/assets");
    assert_eq!(
        p.error_message(ProjectError::MainSceneNotListed),
        "main scene `main` is not listed in project scenes"
    );
    assert_eq!(p.error_message(ProjectError::NoScenes), "project must contain at least one scene");
}

#[test]
fn runtime_binary_is_refused_built_or_taken() {
    let dev = BuildEnvironment {
        mode: RuntimeBinaryMode::Dev { workspace_root: "/work".to_string() },
        system: HostSystem::Linux,
        profile: "debug".to_string(),
    };
    match runtime_binary_plan("/work/target/debug/ZeroEditor", BuildTarget::Linux, &dev) {
        RuntimeBinaryPlan::Refuse(m) => assert_eq!(
            m,
            "refusing to package editor binary as game runtime: /work/target/debug/ZeroEditor; expected ZeroEngine"
        ),
        other => panic!("unexpected plan {other:?}"),
    }
    match runtime_binary_plan("/work/ZeroEngine", BuildTarget::Linux, &dev) {
        RuntimeBinaryPlan::BuildInWorkspace { workspace_root, built, missing } => {
            assert_eq!(workspace_root, "/work");
            assert_eq!(built, "/work/target/x86_64-unknown-linux-gnu/debug/ZeroEngine");
            assert_eq!(missing, "ZeroEngine runtime binary was not produced at /work/target/x86_64-unknown-linux-gnu/debug/ZeroEngine");
        }
        other => panic!("unexpected plan {other:?}"),
    }
    let release = BuildEnvironment {
        mode: RuntimeBinaryMode::Release { executable_dir: "/opt/ze".to_string() },
        ..dev.clone()
    };
    match runtime_binary_plan("/opt/ze/ZeroEngine", BuildTarget::Linux, &release) {
        RuntimeBinaryPlan::UseExisting { path, missing } => {
            assert_eq!(path, "/opt/ze/ZeroEngine");
            assert!(missing.ends_with("; release editor builds do not invoke cargo"));
        }
        other => panic!("unexpected plan {other:?}"),
    }
    match runtime_binary_plan("/custom/runtime", BuildTarget::Linux, &release) {
        RuntimeBinaryPlan::UseExisting { path, missing } => {
            assert_eq!(path, "/custom/runtime");
            assert!(missing.starts_with("ZeroEngine runtime binary not found at /custom/runtime; "));
        }
        other => panic!("unexpected plan {other:?}"),
    }
}

#[test]
fn runtime_build_arguments_follow_the_profile() {
    let base = vec!["build", "-p", "ZeroEngine", "--target", "x86_64-pc-windows-gnu"];
    assert_eq!(runtime_build_args(BuildTarget::Windows, HostSystem::Linux, "debug"), base);
    let mut release = base.clone();
    release.push("--release");
    assert_eq!(runtime_build_args(BuildTarget::Windows, HostSystem::Linux, "release"), release);
    let mut custom = base.clone();
    custom.extend(["--profile", "dist"]);
    assert_eq!(runtime_build_args(BuildTarget::Windows, HostSystem::Linux, "dist"), custom);
    assert!(rustup_target_installed("x86_64-unknown-linux-gnu\r\n  wasm32-unknown-unknown \n", "wasm32-unknown-unknown"));
    assert!(!rustup_target_installed("x86_64-unknown-linux-gnu-extra\n", "x86_64-unknown-linux-gnu"));
}

#[test]
fn distributable_layout() {
    let o = dist_layout("/out", "/game/assets/bin/Demo.dll", "My Game!", "exe").unwrap();
    assert_eq!(o.assets_pack, "/out/Game/assets.zepack");
    assert_eq!(o.scripts_dll, "/out/Game/Demo.dll");
    assert_eq!(o.notice, "/out/Engine/NOTICE");
    assert_eq!(o.zeroengine_binary, "/out/My_Game.exe");
    assert_eq!(dist_layout("/out", "/", "g", "").unwrap_err(), "scripts_dll path has no file name");
}

#[test]
fn running_games_find_their_assets() {
    let c = zeroengine::assets::asset_pack_candidates("/opt/game");
    assert_eq!(c, vec!["/opt/game/Game/assets.zepack", "/opt/game/assets.zepack"]);
    assert_eq!(zeroengine::assets::runtime_assets_root(Some("/opt/game"), true, "/src/assets"), "/opt/game/assets");
    assert_eq!(zeroengine::assets::runtime_assets_root(Some("/opt/game"), false, "/src/assets"), "/src/assets");
    assert_eq!(zeroengine::assets::runtime_assets_root(Some("/w/target/debug"), true, "/src/assets"), "/src/assets");
    assert_eq!(zeroengine::assets::runtime_assets_root(None, true, "/src/assets"), "/src/assets");
}

#[test]
fn scripts_fall_back_to_the_assets_bin_folder() {
    let (dll, config) = zeroengine::engine_env::fallback_script_paths("/g/assets");
    assert_eq!(dll, "/g/assets/scripts/bin/Scripts.dll");
    assert_eq!(config, "/g/assets/scripts/bin/Scripts.runtimeconfig.json");
    assert_eq!(
        zeroengine::engine_env::runtime_config_beside("/opt/game/Game/Demo.dll"),
        Some("/opt/game/Game/Demo.runtimeconfig.json".to_string())
    );
    assert_eq!(zeroengine::engine_env::runtime_config_beside("/"), None);
}

#[test]
fn opened_projects_get_workspace_ignore_files() {
    let files = zeroengine::project::workspace_config_files("/game");
    assert_eq!(files[0].path, "/game/.zeignore");
    assert_eq!(files[0].contents, "/target\n/bin\n.zepack\n");
    assert_eq!(files[1].path, "/game/.gitignore");
    assert!(files[1].contents.starts_with("# ZeroEngine\n/target\n/bin\n*.dll\n*.pdb\n\n# IDE\n"));
    assert!(files[1].contents.ends_with("# OS\nthumbs.db\n.DS_Store\n"));
}
