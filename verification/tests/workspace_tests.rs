use zeroengine::assets::AssetRef;
use zeroengine::packaging::BuildTarget;
use zeroengine::panels::{ConsolePanel, NoProjectPanel, SceneHierarchyPanel};
use zeroengine::project::Project;
use zeroengine::workspace::{
    abbreviate, asset_path_string, build_scene_label, display_name_for_relative_path, is_script_source,
    is_texture_asset, project_scene_names, relative_save_time, relativize_asset_path, save_state_label,
    save_status_tooltip, script_status_label, AssetReloadSet, BuildRequest, SaveState, SaveStatus, SceneInfo,
    ScriptStatus, WindowPanel,
};

#[test]
fn save_times_are_told_in_the_largest_unit() {
    assert_eq!(relative_save_time(3), "last save just now");
    assert_eq!(relative_save_time(42), "last save 42s ago");
    assert_eq!(relative_save_time(125), "last save 2m ago");
    assert_eq!(relative_save_time(7300), "last save 2h ago");
}

#[test]
fn save_status_tooltip_names_state_and_age() {
    let status = SaveStatus::saved().with_state(SaveState::UnsavedChanges);
    assert_eq!(status.state, SaveState::UnsavedChanges);
    assert_eq!(
        save_status_tooltip(status, true, 100),
        "Unsaved changes\nno successful save yet\nGreen: saved\nYellow: saving or unsaved changes\nRed: save failed\nGray: no project loaded"
    );
    let saved = SaveStatus { state: SaveState::Saved, last_successful_save: Some(40) };
    assert!(save_status_tooltip(saved, false, 100).starts_with("No project loaded\nlast save 1m ago\n"));
    assert_eq!(save_state_label(SaveState::Saving), "Saving...");
}

#[test]
fn long_scene_names_are_abbreviated_to_initials() {
    assert_eq!(abbreviate("Level"), "Level");
    assert_eq!(abbreviate("MainMenuScene"), "MMS");
    assert_eq!(abbreviate("boss_fight-arena"), "BFA");
    assert_eq!(abbreviate("level one two"), "LOT");
    assert_eq!(abbreviate("ÄÖÜäö"), "ÄÖÜ");
}

#[test]
fn labels_for_status_and_windows() {
    assert_eq!(script_status_label(ScriptStatus::ReloadPending), "Compiling");
    assert_eq!(script_status_label(ScriptStatus::Unavailable), "Scripts: unavailable");
    assert_eq!(WindowPanel::Files.menu_label(), "File Explorer");
    assert_eq!(WindowPanel::AssetBrowser.tab_name(), "File Explorer");
    assert_eq!(build_scene_label("main", true), "main (main)");
    assert_eq!(build_scene_label("Menu", false), "Menu");
}

#[test]
fn scene_switcher_lists_each_scene_once() {
    let mut project =
        Project::new("Sandbox".to_string(), "main".to_string(), "assets".to_string(), "assets/bin/S.dll".to_string());
    project.scenes.push("Menu".to_string());
    let loaded = vec![
        SceneInfo { name: "main".to_string(), active: true, dirty: false },
        SceneInfo { name: "Credits".to_string(), active: false, dirty: true },
    ];
    assert_eq!(project_scene_names(&project, &loaded), vec!["Credits", "Menu", "main"]);
}

#[test]
fn asset_paths_are_classified() {
    assert!(is_texture_asset("textures/player.png"));
    assert!(is_texture_asset("a.webp"));
    assert!(!is_texture_asset("a.gif"));
    assert!(is_script_source("scripts/Player.cs"));
    assert!(!is_script_source("scripts/bin/Player.cs"));
    assert!(!is_script_source("scripts/obj/x.csproj"));
    assert!(!is_script_source("scripts/Player.txt"));
    assert_eq!(asset_path_string("textures//a.png"), Some("textures/a.png".to_string()));
    assert_eq!(asset_path_string("./a.png"), None);
    assert_eq!(asset_path_string("../a.png"), None);
    assert_eq!(asset_path_string("/a.png"), None);
    assert_eq!(relativize_asset_path("/p/assets", "/p/assets/sheets/a.texturesheet.json"), Some("sheets/a.texturesheet.json".to_string()));
    assert_eq!(relativize_asset_path("/p/assets", "/q/a.png"), None);
    assert_eq!(display_name_for_relative_path("sheets/hero.texturesheet.json"), "hero");
    assert_eq!(display_name_for_relative_path("sheets/hero.png"), "hero.png");
}

#[test]
fn reload_sets_and_panels() {
    let set = AssetReloadSet::new(vec![AssetRef::game("a.png".to_string())]);
    assert_eq!(set.texture_assets().len(), 1);
    let _console = ConsolePanel::new();
    let _none = NoProjectPanel::new();
    let request = BuildRequest { output_dir: "/out".to_string(), target: BuildTarget::Linux };
    assert_eq!(request.target, BuildTarget::Linux);
}

#[test]
fn hierarchy_panel_toggles_collapse_and_renames() {
    let mut panel = SceneHierarchyPanel::new();
    assert!(!panel.is_collapsed(3));
    panel.toggle_collapsed(3);
    assert!(panel.is_collapsed(3));
    panel.toggle_collapsed(3);
    assert!(!panel.is_collapsed(3));

    panel.start_rename(5, "Player".to_string());
    panel.rename_buffer = "Hero".to_string();
    panel.is_new_unconfirmed = true;
    assert_eq!(panel.cancel_rename(), Some(5));
    assert_eq!(panel.rename_buffer, "Player");
    assert!(panel.renaming_entity.is_none());
    panel.start_rename(6, "Enemy".to_string());
    assert_eq!(panel.cancel_rename(), None);
}
