use zeroengine::frame::{frame_actions, FrameAction, FrameOutcome};
use zeroengine::workspace::EditorRequest;

fn quiet() -> FrameOutcome {
    FrameOutcome {
        menu_request: None,
        build_request: None,
        project_saved: false,
        project_save_error: None,
        project_config_changed: false,
        close_requested: false,
    }
}

fn names(actions: &[FrameAction]) -> Vec<String> {
    actions.iter().map(|a| format!("{a:?}")).collect()
}

#[test]
fn a_quiet_frame_does_nothing() {
    assert!(frame_actions(quiet(), false).is_empty());
}

#[test]
fn saved_settings_are_marked_saved_unless_the_frame_saves_the_project() {
    let mut o = quiet();
    o.project_saved = true;
    o.project_config_changed = true;
    assert_eq!(
        names(&frame_actions(o.clone(), false)),
        vec!["MarkProjectConfigDirty", "ApplySavedProject", "MarkProjectConfigSaved"]
    );
    o.menu_request = Some(EditorRequest::SaveProject);
    o.project_save_error = Some("disk full".to_string());
    assert_eq!(
        names(&frame_actions(o, false)),
        vec![
            "MarkProjectConfigDirty",
            "ApplySavedProject",
            "SaveProject { config_error: Some(\"disk full\") }"
        ]
    );
}

#[test]
fn requests_and_builds_are_carried_out_in_order() {
    let mut o = quiet();
    o.menu_request = Some(EditorRequest::CreateScene("level".to_string()));
    o.build_request = Some("/out".to_string());
    assert_eq!(names(&frame_actions(o, false)), vec!["CreateAndOpenScene(\"level\")", "StartBuild(\"/out\")"]);
    let mut o = quiet();
    o.menu_request = Some(EditorRequest::OpenTextureSheetAsset("a.png".to_string()));
    assert!(frame_actions(o, false).is_empty());
}

#[test]
fn closing_wins_over_a_script_shutdown() {
    let mut o = quiet();
    o.close_requested = true;
    assert_eq!(names(&frame_actions(o, true)), vec!["Exit"]);
    assert_eq!(names(&frame_actions(quiet(), true)), vec!["StopPlayIfPlaying"]);
}

#[test]
fn workspace_shortcuts_clear_undo_redo_and_save() {
    let keys = zeroengine::frame::WorkspaceKeys { escape: true, ctrl_z: true, ctrl_y: true, ctrl_s: true };
    let (steps, request) =
        zeroengine::frame::workspace_key_steps(keys, false, zeroengine::workspace::EditorMode::Edit);
    assert_eq!(
        steps,
        vec![
            zeroengine::frame::WorkspaceStep::ClearSelection,
            zeroengine::frame::WorkspaceStep::Undo,
            zeroengine::frame::WorkspaceStep::Redo
        ]
    );
    assert!(matches!(request, Some(EditorRequest::SaveProject)));
    let (steps, request) = zeroengine::frame::workspace_key_steps(keys, true, zeroengine::workspace::EditorMode::Play);
    assert_eq!(steps, vec![zeroengine::frame::WorkspaceStep::Undo, zeroengine::frame::WorkspaceStep::Redo]);
    assert!(request.is_none());
}

#[test]
fn menus_need_a_project_and_some_need_edit_mode() {
    let m = zeroengine::frame::menu_availability(true, zeroengine::workspace::EditorMode::Play);
    assert!(!m.new_scene && !m.open_scene && !m.save_project && m.build && m.settings);
    let m = zeroengine::frame::menu_availability(true, zeroengine::workspace::EditorMode::Edit);
    assert!(m.new_scene && m.open_scene && m.save_project);
    let m = zeroengine::frame::menu_availability(false, zeroengine::workspace::EditorMode::Edit);
    assert!(!m.new_scene && !m.build && !m.settings);
}

#[test]
fn texture_sheet_requests_stay_in_the_workspace() {
    let (open, passed) = zeroengine::frame::route_workspace_request(Some(EditorRequest::OpenTextureSheetAsset(
        "/p/a.texturesheet.json".to_string(),
    )));
    assert_eq!(open.as_deref(), Some("/p/a.texturesheet.json"));
    assert!(passed.is_none());
    let (open, passed) = zeroengine::frame::route_workspace_request(Some(EditorRequest::NewProject));
    assert!(open.is_none());
    assert!(matches!(passed, Some(EditorRequest::NewProject)));
}
