use zeroengine::project::{scene_names_from_files, GameData, Project, ProjectError, SceneNameError};

fn sandbox(dll: &str) -> Project {
    Project::new("Sandbox".to_string(), "main".to_string(), "assets".to_string(), dll.to_string())
}

#[test]
fn csproj_path_uses_script_source_dir_when_dll_is_in_bin() {
    let project = sandbox("assets/bin/Sandbox.dll");
    assert_eq!(project.csproj_path().unwrap(), "assets/Sandbox.csproj");
}

#[test]
fn csproj_path_uses_dll_parent_when_dll_is_not_in_bin() {
    let project = sandbox("assets/Sandbox.dll");
    assert_eq!(project.csproj_path().unwrap(), "assets/Sandbox.csproj");
}

#[test]
fn csproj_path_fails_without_a_dll_directory() {
    let project = sandbox("");
    assert_eq!(project.csproj_path(), Err(ProjectError::NoScriptsDllParent));
}

#[test]
fn sync_scenes_from_disk_adds_scene_files() {
    let files = vec![
        "/p/assets/scenes/main.zescene.json".to_string(),
        "/p/assets/scenes/LevelOne.zescene.json".to_string(),
        "/p/assets/scenes/notes.txt".to_string(),
    ];
    let disk_scenes = scene_names_from_files(&files).unwrap();
    assert_eq!(disk_scenes, vec!["LevelOne", "main"]);

    let mut project = sandbox("/p/assets/bin/Sandbox.dll");
    assert!(project.sync_scenes_from_disk(disk_scenes));
    assert_eq!(project.scenes, vec!["LevelOne", "main"]);
}

#[test]
fn scene_listing_rejects_invalid_names() {
    let files = vec!["/p/scenes/ bad.zescene.json".to_string()];
    assert_eq!(scene_names_from_files(&files), Err(SceneNameError::SurroundingWhitespace));
}

#[test]
fn game_data_starts_with_the_starter_tags() {
    let created = GameData::load_or_create(false, None);
    assert_eq!(created.tags, vec!["Untagged", "Camera", "Player", "Enemy", "StaticGeometry"]);
    let unreadable = GameData::load_or_create(true, None);
    assert!(unreadable.tags.is_empty());
    let loaded = GameData::load_or_create(true, Some(GameData { tags: vec!["Boss".to_string()] }));
    assert_eq!(loaded.tags, vec!["Boss"]);
}

#[test]
fn saved_then_loaded_projects_keep_their_scene_selection() {
    let mut project = zeroengine::project::Project::new(
        "Sandbox".to_string(),
        " main ".to_string(),
        "/root/sandbox/assets".to_string(),
        "/root/sandbox/assets/bin/Sandbox.dll".to_string(),
    );
    project.scenes = vec!["Menu".to_string(), " ".to_string()];
    project.root_dir = "/root/sandbox".to_string();
    let saved = project.serializable_at("/root/sandbox");
    assert_eq!(saved.main_scene, "main");
    assert_eq!(saved.scenes, vec!["Menu", "main"]);
    assert_eq!(saved.asset_dir, "assets");
    assert_eq!(saved.scripts_dll, "assets/bin/Sandbox.dll");
    let mut loaded = saved.clone();
    loaded.resolve_loaded("/root/sandbox");
    assert_eq!(loaded.main_scene, saved.main_scene);
    assert_eq!(loaded.scenes, saved.scenes);
    assert_eq!(loaded.asset_dir, "/root/sandbox/assets");
    assert_eq!(loaded.scripts_dll, "/root/sandbox/assets/bin/Sandbox.dll");
    let disk = zeroengine::project::scene_names_from_files(&[
        "/root/sandbox/assets/scenes/main.zescene.json".to_string(),
        "/root/sandbox/assets/scenes/Menu.zescene.json".to_string(),
    ])
    .unwrap();
    assert_eq!(disk, vec!["Menu", "main"]);
}

fn sandbox_in(root: &str) -> Project {
    let mut project = Project::new(
        "Sandbox".to_string(),
        "main".to_string(),
        format!("{root}/assets"),
        format!("{root}/assets/bin/Sandbox.dll"),
    );
    project.root_dir = root.to_string();
    project
}

#[test]
fn save_preserves_scene_selection() {
    let project = sandbox_in("/tmp/project_save_selection");
    let saved = project.serializable_at("/tmp/project_save_selection");
    assert_eq!(saved.main_scene, "main");
    assert_eq!(saved.scenes, vec!["main"]);
    assert!(!saved.scenes.iter().any(|s| s.contains("Menu")));
}

#[test]
fn load_preserves_scene_selection() {
    let root = "/tmp/project_load_selection";
    let mut loaded = sandbox_in(root).serializable_at(root);
    loaded.resolve_loaded(root);
    assert_eq!(loaded.scenes, vec!["main"]);
    let disk = scene_names_from_files(&[
        format!("{root}/assets/scenes/main.zescene.json"),
        format!("{root}/assets/scenes/Menu.zescene.json"),
    ])
    .unwrap();
    assert_eq!(disk, vec!["Menu", "main"]);
}

#[test]
fn legacy_start_scene_loads_as_main_scene() {
    // A legacy project file names only `start_scene`; the file reader takes it as the main
    // scene, with no scene list.
    let mut project = Project::new("Sandbox".to_string(), "level_one".to_string(), "assets".to_string(), String::new());
    project.scenes = vec![];
    project.normalize_scene_settings();
    assert_eq!(project.main_scene, "level_one");
    assert_eq!(project.scenes, vec!["level_one"]);
}

#[test]
fn serialized_project_uses_main_scene_and_scenes() {
    let project = Project::new(
        "Sandbox".to_string(),
        "main".to_string(),
        "assets".to_string(),
        "assets/bin/Sandbox.dll".to_string(),
    );
    let saved = project.serializable_at("");
    assert_eq!(saved.main_scene, "main");
    assert_eq!(saved.scenes, vec!["main"]);
}
