use zeroengine::explorer::{
    already_exists_message, ignore_patterns_in, match_flat_name, match_pattern, matches_ignore_pattern,
    paste_candidate_name, valid_parent, entry_icon, FileExplorer, IgnorePattern,
};
use zeroengine::explorer::{grid_navigation, GridKey};
use zeroengine::panels::{PendingCreate, PendingCreateKind};

fn explorer() -> FileExplorer {
    // Ancestors of /proj/assets: /proj/assets, /proj, / -- the project file is in /proj.
    FileExplorer::new("/proj/assets".to_string(), &vec![false, true, false])
}

#[test]
fn the_project_root_is_the_nearest_ancestor_with_a_project_file() {
    let e = explorer();
    assert_eq!(e.project_root, "/proj");
    assert_eq!(e.current_path, "/proj/assets");
    let nested = FileExplorer::new("/a/b/c".to_string(), &vec![false, true, false, true]);
    assert_eq!(nested.project_root, "/a/b");
    let none = FileExplorer::new("/a/b".to_string(), &vec![false, false, false]);
    assert_eq!(none.project_root, "/a/b");
}

#[test]
fn back_then_forward_returns_to_the_starting_directory() {
    let mut e = explorer();
    e.open_directory("/proj/assets/textures".to_string(), true);
    assert_eq!(e.current_path, "/proj/assets/textures");
    e.go_back();
    assert_eq!(e.current_path, "/proj/assets");
    e.go_forward();
    assert_eq!(e.current_path, "/proj/assets/textures");
    assert!(e.forward_history.is_empty());
}

#[test]
fn navigation_stays_inside_the_project() {
    let mut e = explorer();
    e.open_directory("/elsewhere".to_string(), true);
    assert_eq!(e.current_path, "/proj/assets");
    e.open_directory("/proj/assets/file.txt".to_string(), false);
    assert_eq!(e.current_path, "/proj/assets");
    e.back_history.push("/outside".to_string());
    e.go_back();
    assert_eq!(e.current_path, "/proj/assets");
    assert!(e.back_history.is_empty());
    e.current_path = "/tmp".to_string();
    e.ensure_current_path_is_valid();
    assert_eq!(e.current_path, "/proj");
}

#[test]
fn flat_patterns_match_names() {
    assert!(match_flat_name("build", "build"));
    assert!(match_flat_name("anything", "*"));
    assert!(match_flat_name("notes.tmp", "*.tmp"));
    assert!(match_flat_name("cache_dir", "cache*"));
    assert!(match_flat_name("abXcd", "ab*cd"));
    assert!(!match_flat_name("abcd", "abc*bcd"));
    assert!(!match_flat_name("other", "build"));
}

#[test]
fn path_patterns_match_relative_paths() {
    assert!(match_pattern("target", "target"));
    assert!(!match_pattern("target/debug/app", "target"));
    assert!(match_pattern("a/b/c", "/a/b/"));
    assert!(!match_pattern("x/a/b", "/a/b"));
    assert!(match_pattern("x/a/b", "a/b"));
    assert!(match_pattern("x/a/b/c", "a/b"));
    assert!(!match_pattern("x/ab/c", "a/b"));
}

#[test]
fn ignore_files_are_read_line_by_line() {
    let patterns = ignore_patterns_in("/proj/assets", "# comment\n\n  *.tmp  \r\nbuild/\n");
    assert_eq!(patterns.len(), 2);
    assert_eq!(patterns[0].pattern, "*.tmp");
    assert_eq!(patterns[1].pattern, "build/");
    assert_eq!(patterns[1].dir, "/proj/assets");
    assert!(matches_ignore_pattern("/proj/assets/x/notes.tmp", &patterns));
    assert!(matches_ignore_pattern("/proj/assets/build", &patterns));
    assert!(!matches_ignore_pattern("/proj/other/notes.tmp", &patterns));
    let none: Vec<IgnorePattern> = Vec::new();
    assert!(!matches_ignore_pattern("/proj/assets/build", &none));
}

#[test]
fn new_entry_names_are_validated() {
    assert_eq!(FileExplorer::validate_new_folder_name("  Sprites "), Ok("Sprites".to_string()));
    assert_eq!(FileExplorer::validate_new_folder_name("   "), Err("Folder name cannot be empty".to_string()));
    assert_eq!(
        FileExplorer::validate_new_file_name("a/b.txt"),
        Err("File name cannot contain path separators".to_string())
    );
    assert_eq!(FileExplorer::validate_new_file_name(".."), Err("File name is not a plain file name".to_string()));
    let mut e = explorer();
    assert_eq!(e.new_folder_path("Sprites"), Ok("/proj/assets/Sprites".to_string()));
    assert_eq!(e.new_file_path("main.cs"), Ok("/proj/assets/main.cs".to_string()));
    assert_eq!(already_exists_message(true, "Sprites"), "Folder 'Sprites' already exists");
}

#[test]
fn top_level_asset_folders_are_protected() {
    let e = explorer();
    assert!(e.is_protected_path("/proj/assets/scenes"));
    assert!(e.is_protected_path("/proj/assets/scenes/main.zescene.json"));
    assert!(!e.is_protected_path("/proj/assets"));
    assert!(!e.is_protected_path("/proj/scripts"));
}

#[test]
fn paste_candidates_count_copies() {
    assert_eq!(paste_candidate_name("player.png", 0), "player.png");
    assert_eq!(paste_candidate_name("player.png", 1), "player_copy1.png");
    assert_eq!(paste_candidate_name("Makefile", 12), "Makefile_copy12");
    let e = explorer();
    assert_eq!(e.resolve_paste_destination("a.txt", 2), "/proj/assets/a_copy2.txt");
}

#[test]
fn favorites_toggle_and_are_stored_relative() {
    let mut e = explorer();
    e.toggle_favorite("/proj/assets/textures".to_string());
    assert!(e.is_favorite("/proj/assets/textures/"));
    assert!(e.favorites_dirty);
    e.toggle_favorite("/proj/assets/textures".to_string());
    assert!(!e.is_favorite("/proj/assets/textures"));
    e.toggle_favorite("/proj/assets".to_string());
    e.favorites.push("/elsewhere".to_string());
    assert_eq!(e.favorites_relative(), vec!["assets"]);
    assert_eq!(e.favorites_path(), "/proj/.zeroeditor/favorites_folders.toml");
    assert_eq!(e.tree_expanded_path(), "/proj/.zeroeditor/tree_expanded.toml");
}

#[test]
fn clipboard_and_rename_follow_the_selection() {
    let mut e = explorer();
    e.cut_selected(Some("/proj/assets/a.png".to_string()));
    assert!(e.clipboard.is_none());
    e.selected_entry = Some("a.png".to_string());
    assert_eq!(e.selected_source(), Some("/proj/assets/a.png".to_string()));
    e.copy_selected(None);
    assert!(e.clipboard.is_none());
    e.cut_selected(Some("/proj/assets/a.png".to_string()));
    assert!(e.clipboard.as_ref().unwrap().cut);
    e.copy_selected(Some("/proj/assets/a.png".to_string()));
    assert!(!e.clipboard.as_ref().unwrap().cut);
    e.begin_rename();
    assert_eq!(e.renaming.as_deref(), Some("a.png"));
    e.pending_create = Some(PendingCreate::new(PendingCreateKind::Folder));
    e.cancel_pending_create();
    assert!(e.pending_create.is_none());
}

#[test]
fn entry_icons_and_parents() {
    assert_eq!(entry_icon("/x/dir", true), "\u{F024B}");
    assert_eq!(entry_icon("/x/a.cs", false), "\u{F031B}");
    assert_eq!(entry_icon("/x/a.bin", false), "\u{F0214}");
    assert_eq!(valid_parent("/proj/assets"), Some("/proj".to_string()));
    assert_eq!(valid_parent("assets"), None);
    assert_eq!(valid_parent(""), None);
    assert_eq!(PendingCreateKind::Scene.title(), "New Scene");
    assert_eq!(PendingCreateKind::AnimationClip.prompt(), "Animation clip name");
    let clip = PendingCreate::for_animation_clip("sheets/a.texturesheet.json".to_string());
    assert_eq!(clip.kind, PendingCreateKind::AnimationClip);
}

#[test]
fn grid_lists_folders_first_then_files_by_name() {
    let entries = vec![
        ("b.png".to_string(), false),
        ("Zeta".to_string(), true),
        ("a.png".to_string(), false),
        ("bin".to_string(), true),
        ("Alpha".to_string(), true),
    ];
    let patterns = vec![zeroengine::explorer::IgnorePattern { dir: "/game".to_string(), pattern: "bin/".to_string() }];
    let shown = zeroengine::explorer::grid_entries("/game", &entries, &patterns);
    let names: Vec<(&str, bool)> = shown.iter().map(|(n, d)| (n.as_str(), *d)).collect();
    assert_eq!(names, vec![("Alpha", true), ("Zeta", true), ("a.png", false), ("b.png", false)]);
}

#[test]
fn grid_arrow_keys_step_and_stop_at_the_ends() {
    assert_eq!(grid_navigation(None, 5, 2, GridKey::Right), None);
    assert_eq!(grid_navigation(Some(4), 5, 2, GridKey::Right), Some(4));
    assert_eq!(grid_navigation(Some(0), 5, 2, GridKey::Left), Some(0));
    assert_eq!(grid_navigation(Some(1), 5, 2, GridKey::Down), Some(3));
    assert_eq!(grid_navigation(Some(3), 5, 2, GridKey::Down), Some(4));
    assert_eq!(grid_navigation(Some(3), 5, 2, GridKey::Up), Some(1));
    assert_eq!(grid_navigation(Some(1), 5, 2, GridKey::Up), Some(0));
}

#[test]
fn renames_trim_and_skip_unchanged_names() {
    let t = zeroengine::explorer::rename_target("/game/assets", Some("old.png"), "  new.png ").unwrap();
    assert_eq!(t.src, "/game/assets/old.png");
    assert_eq!(t.dst, "/game/assets/new.png");
    assert_eq!(t.name, "new.png");
    assert!(zeroengine::explorer::rename_target("/game/assets", Some("old.png"), " old.png ").is_none());
    assert!(zeroengine::explorer::rename_target("/game/assets", Some("old.png"), "   ").is_none());
    assert!(zeroengine::explorer::rename_target("/game/assets", None, "x").is_none());
}
