use zeroengine::components::{CollisionDetection, RigidBodyType, SceneType, TransformInheritance};
use zeroengine::engine_env::{engine_api_dev_dir, engine_api_dir, ensure_large_main_thread_stack, DESIRED_STACK_BYTES};
use zeroengine::inspector::{
    available_components, component_header, label_matches_search, resolve_project_path_required,
    rigidbody_type_label, rigidbody_type_matches, script_component_header, script_field_kind,
    display_project_relative_path, collision_detection_label, FieldEdit, InspectableComponent, ScriptFieldKind,
};
use zeroengine::text::{decimal_string, trim_string};
use zeroengine::undo::{Command, UndoRedoBuffer};

/// Adds a number to a counter; fails when it would make the counter negative.
struct Add(i64);

impl Command<i64> for Add {
    fn execute(&mut self, scene: &mut i64) -> Result<(), String> {
        if *scene + self.0 < 0 {
            return Err("negative".to_string());
        }
        *scene += self.0;
        Ok(())
    }

    fn undo(&mut self, scene: &mut i64) -> Result<(), String> {
        *scene -= self.0;
        Ok(())
    }
}

#[test]
fn undo_then_redo_restores_the_scene() {
    let mut scene = 0i64;
    let mut history: UndoRedoBuffer<Add> = UndoRedoBuffer::new(2);
    history.execute(Add(5), &mut scene);
    history.execute(Add(-10), &mut scene);
    assert_eq!(scene, 5);
    assert_eq!(history.undo_depth(), 1);
    history.undo(&mut scene);
    assert_eq!(scene, 0);
    assert_eq!(history.redo_depth(), 1);
    history.redo(&mut scene);
    assert_eq!(scene, 5);
    assert_eq!(history.redo_depth(), 0);
}

#[test]
fn undo_history_is_bounded() {
    let mut scene = 0i64;
    let mut history: UndoRedoBuffer<Add> = UndoRedoBuffer::new(2);
    for _ in 0..3 {
        history.execute(Add(1), &mut scene);
    }
    assert_eq!(history.undo_depth(), 2);
    history.undo(&mut scene);
    history.undo(&mut scene);
    history.undo(&mut scene);
    assert_eq!(scene, 1);
    history.record_executed(Add(4));
    assert_eq!(history.redo_depth(), 0);
    let mut none: UndoRedoBuffer<Add> = UndoRedoBuffer::new(0);
    none.record_executed(Add(1));
    assert_eq!(none.undo_depth(), 0);
}

#[test]
fn numbers_and_trimming() {
    assert_eq!(decimal_string(0), "0");
    assert_eq!(decimal_string(1203), "1203");
    assert_eq!(decimal_string(u64::MAX), "18446744073709551615");
    assert_eq!(trim_string("\u{3000} a b \n"), "a b");
}

#[test]
fn engine_environment_decisions() {
    assert_eq!(engine_api_dev_dir("/repo"), "/repo/ZeroEngine/api/cs");
    assert_eq!(engine_api_dir("/repo", true), "/repo/ZeroEngine/api/cs");
    assert_eq!(engine_api_dir("/opt/zero", false), "/opt/zero/api/cs");
    let unlimited = u64::MAX;
    assert_eq!(ensure_large_main_thread_stack(8 << 20, unlimited, unlimited), Some(DESIRED_STACK_BYTES));
    assert_eq!(ensure_large_main_thread_stack(8 << 20, 16 << 20, unlimited), Some(16 << 20));
    assert_eq!(ensure_large_main_thread_stack(128 << 20, unlimited, unlimited), None);
    assert_eq!(ensure_large_main_thread_stack(unlimited, unlimited, unlimited), None);
}

#[test]
fn inspector_rules() {
    let all = available_components(false);
    assert_eq!(all.len(), 12);
    let without_transform = available_components(true);
    assert_eq!(without_transform.len(), 11);
    assert!(!without_transform.contains(&InspectableComponent::Transform));
    assert_eq!(InspectableComponent::RigidBody.label(), "Rigidbody");
    assert_eq!(script_field_kind("Int32"), Some(ScriptFieldKind::Int));
    assert_eq!(script_field_kind("Vector3"), Some(ScriptFieldKind::Vec3));
    assert_eq!(script_field_kind("Quaternion"), None);
    assert!(rigidbody_type_matches(RigidBodyType::Dynamic, RigidBodyType::Dynamic));
    assert!(!rigidbody_type_matches(RigidBodyType::Dynamic, RigidBodyType::Static));
    assert_eq!(rigidbody_type_label(RigidBodyType::KinematicPositionBased), "Kinematic Position Based");
    assert_eq!(collision_detection_label(CollisionDetection::default()), "Discrete");
    assert_eq!(component_header("Camera"), " Camera");
    assert_eq!(script_component_header("  "), "Script");
    assert_eq!(script_component_header(" Game.Player "), "Game.Player");
    assert!(label_matches_search("Audio Source", ""));
    assert!(label_matches_search("Audio Source", "source"));
    assert!(!label_matches_search("Audio Source", "Source"));
    let mut edit = FieldEdit::changed(false);
    edit.absorb(FieldEdit { changed: true, committed: false });
    assert_eq!(edit, FieldEdit { changed: true, committed: false });
    assert_eq!(SceneType::default(), SceneType::Scene);
    let inherit = TransformInheritance::default();
    assert!(inherit.inherit_position && inherit.inherit_rotation && inherit.inherit_scale);
}

#[test]
fn settings_paths_stay_in_the_project() {
    assert_eq!(resolve_project_path_required("/p", " assets ", "asset directory"), Ok("/p/assets".to_string()));
    assert_eq!(resolve_project_path_required("/p", "  ", "asset directory"), Err("asset directory cannot be empty".to_string()));
    assert_eq!(
        resolve_project_path_required("/p", "../x", "icon path"),
        Err("icon path: path `../x` must not traverse outside the project root".to_string())
    );
    assert_eq!(
        resolve_project_path_required("/p", "/q/x", "icon path"),
        Err("icon path: path `/q/x` is outside project root `/p`".to_string())
    );
    assert_eq!(resolve_project_path_required("/p", "/p/x", "icon path"), Ok("/p/x".to_string()));
    assert_eq!(display_project_relative_path("/p", "/p/a/b"), "a/b");
    assert_eq!(display_project_relative_path("/p", "/q/a"), "/q/a");
}

#[test]
fn settings_paths_are_shown_relative_to_the_project_root() {
    let mut project = zeroengine::project::Project::new(
        "Game".to_string(),
        "main".to_string(),
        "/work/game/assets".to_string(),
        "/opt/scripts/Game.dll".to_string(),
    );
    project.root_dir = "/work/game".to_string();
    project.game.icon_path = Some("/work/game/icons/icon.png".to_string());
    let fields = zeroengine::inspector::SettingsPathFields::from_project(&project);
    assert_eq!(fields.asset_dir, "assets");
    assert_eq!(fields.scripts_dll, "/opt/scripts/Game.dll");
    assert_eq!(fields.icon_path, "icons/icon.png");

    project.game.icon_path = None;
    let fields = zeroengine::inspector::SettingsPathFields::from_project(&project);
    assert_eq!(fields.icon_path, "");
}

#[test]
fn new_scene_prompt_proposes_new_scene() {
    let prompt = zeroengine::workspace::SceneCreatePrompt::default();
    assert_eq!(prompt.name, "NewScene");
    assert!(prompt.error.is_none());
}

#[test]
fn a_leading_dot_stays_a_component_of_a_relative_path() {
    assert_eq!(zeroengine::paths::strip_prefix("./x", ""), Some("./x".to_string()));
    assert_eq!(zeroengine::paths::strip_prefix("./a/b", "a"), None);
    assert_eq!(zeroengine::paths::strip_prefix("./a/b", "./a"), Some("b".to_string()));
    assert_eq!(zeroengine::paths::parent("."), Some(String::new()));
    assert_eq!(zeroengine::paths::parent("./a"), Some(".".to_string()));
    assert_eq!(zeroengine::paths::file_name("./"), None);
    assert_eq!(zeroengine::paths::file_name("/p/./a"), Some("a".to_string()));
    assert_eq!(zeroengine::workspace::relativize_asset_path("", "./x"), None);
    assert_eq!(zeroengine::workspace::relativize_asset_path("/p/assets", "/p/assets/./x.png"), Some("x.png".to_string()));
}

#[test]
fn frame_list_edits_move_swap_duplicate_and_remove_frames() {
    let mut frames = vec![10, 20, 30, 40];
    let mut selected = 0usize;

    assert!(!zeroengine::animation::apply_frame_edit(&mut frames, &mut selected, zeroengine::animation::FrameEdit::Move { from: 1, to: 2 }));
    assert!(!zeroengine::animation::apply_frame_edit(&mut frames, &mut selected, zeroengine::animation::FrameEdit::Move { from: 1, to: 1 }));
    assert_eq!(frames, vec![10, 20, 30, 40]);

    assert!(zeroengine::animation::apply_frame_edit(&mut frames, &mut selected, zeroengine::animation::FrameEdit::Move { from: 0, to: 3 }));
    assert_eq!(frames, vec![20, 30, 10, 40]);
    assert_eq!(selected, 2);
    assert!(zeroengine::animation::apply_frame_edit(&mut frames, &mut selected, zeroengine::animation::FrameEdit::Move { from: 3, to: 0 }));
    assert_eq!(frames, vec![40, 20, 30, 10]);
    assert_eq!(selected, 0);

    assert!(zeroengine::animation::apply_frame_edit(&mut frames, &mut selected, zeroengine::animation::FrameEdit::SwapWithNext(0)));
    assert_eq!(frames, vec![20, 40, 30, 10]);
    assert_eq!(selected, 1);

    assert!(zeroengine::animation::apply_frame_edit(&mut frames, &mut selected, zeroengine::animation::FrameEdit::Duplicate(2)));
    assert_eq!(frames, vec![20, 40, 30, 30, 10]);
    assert_eq!(selected, 3);

    assert!(zeroengine::animation::apply_frame_edit(&mut frames, &mut selected, zeroengine::animation::FrameEdit::Remove(4)));
    assert_eq!(frames, vec![20, 40, 30, 30]);
    assert_eq!(selected, 3);
}

#[test]
fn settings_tags_are_at_most_sixty_four_bytes() {
    let mut tags = vec!["Player".to_string()];
    assert!(!zeroengine::inspector::add_settings_tag(&mut tags, "   "));
    assert!(!zeroengine::inspector::add_settings_tag(&mut tags, " player "));
    assert!(!zeroengine::inspector::add_settings_tag(&mut tags, &"x".repeat(65)));
    assert!(zeroengine::inspector::add_settings_tag(&mut tags, &format!(" {} ", "y".repeat(64))));
    assert_eq!(tags.len(), 2);
    assert_eq!(tags[1], "y".repeat(64));
    assert!(!zeroengine::inspector::add_settings_tag(&mut tags, &"é".repeat(33)));
}

#[test]
fn clip_viewport_badges_list_one_based_positions() {
    let frames = vec![3, 1, 3, 3];
    assert_eq!(zeroengine::animation::cell_ordinal_label(&frames, 3).as_deref(), Some("1,3,4"));
    assert_eq!(zeroengine::animation::cell_ordinal_label(&frames, 1).as_deref(), Some("2"));
    assert_eq!(zeroengine::animation::cell_ordinal_label(&frames, 7), None);
}

#[test]
fn clicking_a_cell_appends_it_only_when_it_has_content() {
    let trim = zeroengine::sheet::CellTrim { offset: (0, 0), size: (4, 4), original_size: (8, 8), manual: false };
    let cells = vec![
        zeroengine::sheet::GridCell { trim: Some(trim) },
        zeroengine::sheet::GridCell { trim: None },
    ];
    let mut frames = vec![];
    assert!(zeroengine::animation::append_clicked_cell(&mut frames, Some(0), &cells));
    assert!(!zeroengine::animation::append_clicked_cell(&mut frames, Some(1), &cells));
    assert!(!zeroengine::animation::append_clicked_cell(&mut frames, Some(5), &cells));
    assert!(!zeroengine::animation::append_clicked_cell(&mut frames, None, &cells));
    assert_eq!(frames, vec![0]);
}
