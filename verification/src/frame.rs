//! What the application does, in order, with what one rendered editor frame reported.
use vstd::prelude::*;
use crate::workspace::{EditorRequest, EditorMode};

verus! {

/// What the workspace reported after drawing a frame.
#[derive(Debug, Clone)]
pub struct FrameOutcome {
    /// A request from the menus, the title bar or a panel.
    pub menu_request: Option<EditorRequest>,
    /// The output directory of a requested distributable build.
    pub build_request: Option<String>,
    /// Whether the project settings were saved during the frame.
    pub project_saved: bool,
    /// Why saving the project settings failed, when it did.
    pub project_save_error: Option<String>,
    /// Whether the project settings were changed.
    pub project_config_changed: bool,
    /// Whether the window's close button was pressed.
    pub close_requested: bool,
}

/// One thing the application does after a frame.
#[derive(Debug, Clone)]
pub enum FrameAction {
    MarkProjectConfigDirty,
    ApplySavedProject,
    MarkProjectConfigSaved,
    /// Save the project; `config_error` is the settings' save error, if any.
    SaveProject { config_error: Option<String> },
    OpenProject,
    NewProject,
    CreateAndOpenScene(String),
    SwitchScene(String),
    EnterPlayMode,
    StopPlayMode,
    StartBuild(String),
    Exit,
    /// The scripts asked to shut down: leave Play mode if the editor is in it.
    StopPlayIfPlaying,
}

/// The action for a menu request; a texture sheet asset is opened by the workspace itself.
pub open spec fn spec_request_action(r: EditorRequest, config_error: Option<String>) -> Option<FrameAction> {
    match r {
        EditorRequest::SaveProject => Some(FrameAction::SaveProject { config_error }),
        EditorRequest::OpenProject => Some(FrameAction::OpenProject),
        EditorRequest::NewProject => Some(FrameAction::NewProject),
        EditorRequest::CreateScene(n) => Some(FrameAction::CreateAndOpenScene(n)),
        EditorRequest::SwitchScene(n) => Some(FrameAction::SwitchScene(n)),
        EditorRequest::EnterPlayMode => Some(FrameAction::EnterPlayMode),
        EditorRequest::StopPlayMode => Some(FrameAction::StopPlayMode),
        EditorRequest::OpenTextureSheetAsset(_) => None,
    }
}

pub open spec fn opt_seq(a: Option<FrameAction>) -> Seq<FrameAction> {
    match a {
        Some(x) => seq![x],
        None => seq![],
    }
}

pub open spec fn only_if(c: bool, a: FrameAction) -> Seq<FrameAction> {
    if c {
        seq![a]
    } else {
        seq![]
    }
}

/// The actions after a frame: a settings change marks the project dirty; saved settings are
/// applied and, unless the frame asked to save the project (which reports on its own), marked
/// saved; then the request is carried out and a requested build started. A close request ends
/// the application and nothing follows it; otherwise a shutdown asked for by the scripts
/// leaves Play mode.
pub open spec fn spec_frame_actions(o: FrameOutcome, shutdown_requested: bool) -> Seq<FrameAction> {
    let save_requested = o.menu_request matches Some(EditorRequest::SaveProject);
    only_if(o.project_config_changed, FrameAction::MarkProjectConfigDirty)
        + only_if(o.project_saved, FrameAction::ApplySavedProject)
        + only_if(o.project_saved && !save_requested, FrameAction::MarkProjectConfigSaved)
        + match o.menu_request {
            Some(r) => opt_seq(spec_request_action(r, o.project_save_error)),
            None => seq![],
        }
        + match o.build_request {
            Some(d) => seq![FrameAction::StartBuild(d)],
            None => seq![],
        }
        + if o.close_requested {
            seq![FrameAction::Exit]
        } else {
            only_if(shutdown_requested, FrameAction::StopPlayIfPlaying)
        }
}

fn request_action(r: EditorRequest, config_error: Option<String>) -> (a: Option<FrameAction>)
    ensures
        a == spec_request_action(r, config_error),
{
    match r {
        EditorRequest::SaveProject => Some(FrameAction::SaveProject { config_error }),
        EditorRequest::OpenProject => Some(FrameAction::OpenProject),
        EditorRequest::NewProject => Some(FrameAction::NewProject),
        EditorRequest::CreateScene(n) => Some(FrameAction::CreateAndOpenScene(n)),
        EditorRequest::SwitchScene(n) => Some(FrameAction::SwitchScene(n)),
        EditorRequest::EnterPlayMode => Some(FrameAction::EnterPlayMode),
        EditorRequest::StopPlayMode => Some(FrameAction::StopPlayMode),
        EditorRequest::OpenTextureSheetAsset(_) => None,
    }
}

/// What to do, in order, after a frame that reported `o`; `shutdown_requested` is whether
/// the scripts asked the editor to shut down.
pub fn frame_actions(o: FrameOutcome, shutdown_requested: bool) -> (actions: Vec<FrameAction>)
    ensures
        actions@ == spec_frame_actions(o, shutdown_requested),
{
    let ghost og = o;
    let save_requested = match &o.menu_request {
        Some(EditorRequest::SaveProject) => true,
        _ => false,
    };
    let mut actions: Vec<FrameAction> = Vec::new();
    if o.project_config_changed {
        actions.push(FrameAction::MarkProjectConfigDirty);
    }
    let ghost a1 = actions@;
    if o.project_saved {
        actions.push(FrameAction::ApplySavedProject);
    }
    let ghost a2 = actions@;
    if o.project_saved && !save_requested {
        actions.push(FrameAction::MarkProjectConfigSaved);
    }
    let ghost a3 = actions@;
    if let Some(r) = o.menu_request {
        if let Some(a) = request_action(r, o.project_save_error) {
            actions.push(a);
        }
    }
    let ghost a4 = actions@;
    if let Some(d) = o.build_request {
        actions.push(FrameAction::StartBuild(d));
    }
    let ghost a5 = actions@;
    if o.close_requested {
        actions.push(FrameAction::Exit);
    } else if shutdown_requested {
        actions.push(FrameAction::StopPlayIfPlaying);
    }
    proof {
        let save_req = og.menu_request matches Some(EditorRequest::SaveProject);
        assert(save_requested == save_req);
        assert(a1 =~= only_if(og.project_config_changed, FrameAction::MarkProjectConfigDirty));
        assert(a2 =~= a1 + only_if(og.project_saved, FrameAction::ApplySavedProject));
        assert(a3 =~= a2 + only_if(og.project_saved && !save_req, FrameAction::MarkProjectConfigSaved));
        assert(a4 =~= a3 + match og.menu_request {
            Some(r) => opt_seq(spec_request_action(r, og.project_save_error)),
            None => seq![],
        });
        assert(a5 =~= a4 + match og.build_request {
            Some(d) => seq![FrameAction::StartBuild(d)],
            None => seq![],
        });
        assert(actions@ =~= a5 + if og.close_requested {
            seq![FrameAction::Exit]
        } else {
            only_if(shutdown_requested, FrameAction::StopPlayIfPlaying)
        });
    }
    actions
}


/// The workspace's keyboard shortcuts pressed this frame (each with Ctrl where named so).
#[derive(Debug, Clone, Copy)]
pub struct WorkspaceKeys {
    pub escape: bool,
    pub ctrl_z: bool,
    pub ctrl_y: bool,
    pub ctrl_s: bool,
}

/// What the workspace does itself for a shortcut.
#[derive(Debug, Clone, Copy, PartialEq, Eq, Structural)]
pub enum WorkspaceStep {
    ClearSelection,
    Undo,
    Redo,
}

pub open spec fn step_if(c: bool, s: WorkspaceStep) -> Seq<WorkspaceStep> {
    if c {
        seq![s]
    } else {
        seq![]
    }
}

/// The workspace's shortcuts, in order: Escape clears the selection unless the tag popup is
/// open; Ctrl+Z undoes; Ctrl+Y redoes; Ctrl+S asks to save the project, in Edit mode only.
pub fn workspace_key_steps(keys: WorkspaceKeys, tag_popup_open: bool, mode: EditorMode) -> (r: (Vec<WorkspaceStep>, Option<EditorRequest>))
    ensures
        r.0@ == step_if(keys.escape && !tag_popup_open, WorkspaceStep::ClearSelection) + step_if(keys.ctrl_z, WorkspaceStep::Undo)
            + step_if(keys.ctrl_y, WorkspaceStep::Redo),
        r.1 == if keys.ctrl_s && mode == EditorMode::Edit {
            Some(EditorRequest::SaveProject)
        } else {
            None
        },
{
    let mut steps: Vec<WorkspaceStep> = Vec::new();
    if keys.escape && !tag_popup_open {
        steps.push(WorkspaceStep::ClearSelection);
    }
    let ghost a = steps@;
    if keys.ctrl_z {
        steps.push(WorkspaceStep::Undo);
    }
    let ghost b = steps@;
    if keys.ctrl_y {
        steps.push(WorkspaceStep::Redo);
    }
    proof {
        assert(a =~= step_if(keys.escape && !tag_popup_open, WorkspaceStep::ClearSelection));
        assert(b =~= a + step_if(keys.ctrl_z, WorkspaceStep::Undo));
        assert(steps@ =~= b + step_if(keys.ctrl_y, WorkspaceStep::Redo));
    }
    let request = if keys.ctrl_s && mode == EditorMode::Edit {
        Some(EditorRequest::SaveProject)
    } else {
        None
    };
    (steps, request)
}

/// Which title-bar menu entries can be used.
#[derive(Debug, Clone, Copy, PartialEq, Eq, Structural)]
pub struct MenuAvailability {
    pub new_scene: bool,
    pub open_scene: bool,
    pub save_project: bool,
    pub build: bool,
    pub settings: bool,
}

/// New Scene, Open Scene and Save Project need a loaded project in Edit mode; Build and
/// Settings need a loaded project.
pub fn menu_availability(project_loaded: bool, mode: EditorMode) -> (m: MenuAvailability)
    ensures
        m.new_scene == (project_loaded && mode == EditorMode::Edit),
        m.open_scene == (project_loaded && mode == EditorMode::Edit),
        m.save_project == (project_loaded && mode == EditorMode::Edit),
        m.build == project_loaded,
        m.settings == project_loaded,
{
    let editing = project_loaded && mode == EditorMode::Edit;
    MenuAvailability { new_scene: editing, open_scene: editing, save_project: editing, build: project_loaded, settings: project_loaded }
}

/// A request from the panels as the workspace passes it on: a texture sheet asset to open
/// is taken by the workspace (it selects the asset and shows the texture sheet panel) and
/// goes no further; any other request goes on to the application.
pub fn route_workspace_request(request: Option<EditorRequest>) -> (r: (Option<String>, Option<EditorRequest>))
    ensures
        match request {
            Some(EditorRequest::OpenTextureSheetAsset(p)) => r.0 == Some(p) && r.1 is None,
            _ => r.0 is None && r.1 == request,
        },
{
    match request {
        Some(EditorRequest::OpenTextureSheetAsset(p)) => (Some(p), None),
        other => (None, other),
    }
}
} // verus!
