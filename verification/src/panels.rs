//! The editor panels' own state: what the hierarchy panel keeps between frames (collapsed
//! entities, an entity being renamed), what the editor has selected, and the small panels
//! that hold no state at all.
use vstd::prelude::*;
use crate::sheet::CellId;
use crate::text::owned;

verus! {

/// The console panel; it has no state of its own.
#[derive(Debug)]
pub struct ConsolePanel;

impl ConsolePanel {
    pub fn new() -> (p: ConsolePanel) {
        ConsolePanel
    }
}

/// The panel shown in place of the file explorer while no project is open.
#[derive(Debug)]
pub struct NoProjectPanel;

impl NoProjectPanel {
    pub fn new() -> (p: NoProjectPanel) {
        NoProjectPanel
    }
}

/// What the editor has selected: an entity of the scene, or an asset file.
#[derive(Debug, Clone)]
pub enum EditorSelection {
    Entity(u64),
    Asset(String),
}

/// Whether the scene view is flat or perspective.
#[derive(Debug, Clone, Copy, PartialEq, Eq, Structural)]
pub enum ViewportMode {
    TwoDimensional,
    ThreeDimensional,
}

/// The sheet cell painted by the tile tool.
#[derive(Debug, Clone)]
pub struct TileBrush {
    /// The sheet's path relative to the asset root.
    pub sheet_path: String,
    pub cell_id: CellId,
}

/// Events the game window's loop receives from outside it.
#[derive(Debug, Clone, Copy, PartialEq, Eq, Structural)]
pub enum CustomEvents {
    Shutdown,
}

/// The hierarchy panel's state.
#[derive(Debug)]
pub struct SceneHierarchyPanel {
    pub renaming_entity: Option<u64>,
    pub rename_buffer: String,
    pub rename_original_name: String,
    pub rename_focus_requested: bool,
    pub is_new_unconfirmed: bool,
    pub collapsed_entities: Vec<u64>,
}

impl SceneHierarchyPanel {
    /// No entity listed twice among the collapsed ones.
    pub open spec fn wf(&self) -> bool {
        self.collapsed_entities@.no_duplicates()
    }

    /// Nothing collapsed, nothing being renamed.
    pub fn new() -> (p: SceneHierarchyPanel)
        ensures
            p.wf(),
            p.renaming_entity is None,
            p.rename_buffer@.len() == 0,
            p.rename_original_name@.len() == 0,
            !p.rename_focus_requested,
            !p.is_new_unconfirmed,
            p.collapsed_entities@.len() == 0,
    {
        SceneHierarchyPanel {
            renaming_entity: None,
            rename_buffer: String::new(),
            rename_original_name: String::new(),
            rename_focus_requested: false,
            is_new_unconfirmed: false,
            collapsed_entities: Vec::new(),
        }
    }

    /// Whether the entity's children are hidden in the tree.
    pub fn is_collapsed(&self, entity: u64) -> (b: bool)
        ensures
            b == self.collapsed_entities@.contains(entity),
    {
        let mut i: usize = 0;
        while i < self.collapsed_entities.len()
            invariant
                i <= self.collapsed_entities@.len(),
                forall|k: int| 0 <= k < i ==> self.collapsed_entities@[k] != entity,
            decreases self.collapsed_entities@.len() - i,
        {
            if self.collapsed_entities[i] == entity {
                return true;
            }
            i = i + 1;
        }
        false
    }

    /// Collapses the entity, or expands it when it is collapsed.
    pub fn toggle_collapsed(&mut self, entity: u64)
        requires
            old(self).wf(),
        ensures
            final(self).wf(),
            final(self).collapsed_entities@.contains(entity) == !old(self).collapsed_entities@.contains(entity),
            forall|x: u64| x != entity ==> (#[trigger] final(self).collapsed_entities@.contains(x)
                == old(self).collapsed_entities@.contains(x)),
            final(self).renaming_entity == old(self).renaming_entity,
            final(self).rename_buffer == old(self).rename_buffer,
            final(self).rename_original_name == old(self).rename_original_name,
            final(self).rename_focus_requested == old(self).rename_focus_requested,
            final(self).is_new_unconfirmed == old(self).is_new_unconfirmed,
    {
        let ghost before = self.collapsed_entities@;
        let mut i: usize = 0;
        let mut found: Option<usize> = None;
        while i < self.collapsed_entities.len() && found.is_none()
            invariant
                i <= self.collapsed_entities@.len(),
                self.collapsed_entities@ == before,
                found is None ==> forall|k: int| 0 <= k < i ==> before[k] != entity,
                found is Some ==> found.unwrap() < before.len() && before[found.unwrap() as int] == entity,
            decreases self.collapsed_entities@.len() - i,
        {
            if self.collapsed_entities[i] == entity {
                found = Some(i);
            }
            i = i + 1;
        }
        match found {
            Some(k) => {
                self.collapsed_entities.remove(k);
                proof {
                    let after = self.collapsed_entities@;
                    assert(after =~= before.remove(k as int));
                    assert forall|a: int, b: int| 0 <= a < b < after.len() implies after[a] != after[b] by {
                        let a2 = if a < k { a } else { a + 1 };
                        let b2 = if b < k { b } else { b + 1 };
                        assert(after[a] == before[a2] && after[b] == before[b2]);
                    }
                    assert forall|x: u64| #[trigger] after.contains(x) <==> (before.contains(x) && x != entity) by {
                        if after.contains(x) {
                            let j = choose|j: int| 0 <= j < after.len() && after[j] == x;
                            let j2 = if j < k { j } else { j + 1 };
                            assert(before[j2] == x);
                            assert(j2 != k as int);
                        }
                        if before.contains(x) && x != entity {
                            let j = choose|j: int| 0 <= j < before.len() && before[j] == x;
                            if j < k {
                                assert(after[j] == x);
                            } else {
                                assert(j != k as int);
                                assert(after[j - 1] == x);
                            }
                        }
                    }
                }
            },
            None => {
                self.collapsed_entities.push(entity);
                proof {
                    broadcast use vstd::seq_lib::group_seq_properties;
                    let after = self.collapsed_entities@;
                    assert(!before.contains(entity));
                    assert forall|a: int, b: int| 0 <= a < b < after.len() implies after[a] != after[b] by {
                        if b == after.len() - 1 {
                            assert(before.contains(before[a]));
                        }
                    }
                }
            },
        }
    }

    /// Starts renaming `entity`, whose current label is `label`.
    pub fn start_rename(&mut self, entity: u64, label: String)
        ensures
            final(self).renaming_entity == Some(entity),
            final(self).rename_buffer@ == label@,
            final(self).rename_original_name@ == label@,
            final(self).rename_focus_requested,
            !final(self).is_new_unconfirmed,
            final(self).collapsed_entities == old(self).collapsed_entities,
    {
        self.is_new_unconfirmed = false;
        self.renaming_entity = Some(entity);
        self.rename_original_name = label.clone();
        self.rename_buffer = label;
        self.rename_focus_requested = true;
    }

    /// Ends a rename.
    pub fn finish_rename(&mut self)
        ensures
            final(self).renaming_entity is None,
            final(self).rename_original_name@.len() == 0,
            !final(self).is_new_unconfirmed,
            final(self).rename_buffer == old(self).rename_buffer,
            final(self).rename_focus_requested == old(self).rename_focus_requested,
            final(self).collapsed_entities == old(self).collapsed_entities,
    {
        self.renaming_entity = None;
        self.rename_original_name = String::new();
        self.is_new_unconfirmed = false;
    }

    /// Abandons a rename, restoring the original name. When the entity was created just
    /// for this rename and never confirmed, returns it so the caller deletes it.
    pub fn cancel_rename(&mut self) -> (discard: Option<u64>)
        ensures
            discard == (if old(self).is_new_unconfirmed { old(self).renaming_entity } else { None }),
            final(self).renaming_entity is None,
            final(self).rename_buffer@ == old(self).rename_original_name@,
            final(self).rename_original_name@.len() == 0,
            !final(self).is_new_unconfirmed,
            final(self).collapsed_entities == old(self).collapsed_entities,
    {
        let discard = if self.is_new_unconfirmed {
            self.renaming_entity
        } else {
            None
        };
        self.is_new_unconfirmed = false;
        self.rename_buffer = self.rename_original_name.clone();
        self.finish_rename();
        discard
    }
}

/// What the file explorer's create prompt creates.
#[derive(Debug, Clone, Copy, PartialEq, Eq, Structural)]
pub enum PendingCreateKind {
    Folder,
    CSharpScript,
    CSharpComponent,
    Scene,
    Shader,
    AnimationClip,
}

impl PendingCreateKind {
    /// The prompt window's title.
    pub fn title(self) -> (s: &'static str)
        ensures
            s@ == match self {
                PendingCreateKind::Folder => "New Folder"@,
                PendingCreateKind::CSharpScript => "C# Script"@,
                PendingCreateKind::CSharpComponent => "C# Component"@,
                PendingCreateKind::Scene => "New Scene"@,
                PendingCreateKind::Shader => "New Shader"@,
                PendingCreateKind::AnimationClip => "New Animation Clip"@,
            },
    {
        match self {
            PendingCreateKind::Folder => "New Folder",
            PendingCreateKind::CSharpScript => "C# Script",
            PendingCreateKind::CSharpComponent => "C# Component",
            PendingCreateKind::Scene => "New Scene",
            PendingCreateKind::Shader => "New Shader",
            PendingCreateKind::AnimationClip => "New Animation Clip",
        }
    }

    /// The label of the prompt's name field.
    pub fn prompt(self) -> (s: &'static str)
        ensures
            s@ == match self {
                PendingCreateKind::Folder => "Folder name"@,
                PendingCreateKind::CSharpScript => "Script name"@,
                PendingCreateKind::CSharpComponent => "Component name"@,
                PendingCreateKind::Scene => "Scene name"@,
                PendingCreateKind::Shader => "Shader name"@,
                PendingCreateKind::AnimationClip => "Animation clip name"@,
            },
    {
        match self {
            PendingCreateKind::Folder => "Folder name",
            PendingCreateKind::CSharpScript => "Script name",
            PendingCreateKind::CSharpComponent => "Component name",
            PendingCreateKind::Scene => "Scene name",
            PendingCreateKind::Shader => "Shader name",
            PendingCreateKind::AnimationClip => "Animation clip name",
        }
    }
}

/// An open create prompt: what it creates, the name typed so far, the last error, and for
/// an animation clip the texture sheet it starts from.
#[derive(Debug)]
pub struct PendingCreate {
    pub kind: PendingCreateKind,
    pub name: String,
    pub error: Option<String>,
    pub source_sheet: Option<String>,
}

impl PendingCreate {
    /// A fresh prompt for `kind`.
    pub fn new(kind: PendingCreateKind) -> (p: PendingCreate)
        ensures
            p.kind == kind,
            p.name@.len() == 0,
            p.error is None,
            p.source_sheet is None,
    {
        PendingCreate { kind, name: String::new(), error: None, source_sheet: None }
    }

    /// A fresh animation-clip prompt for the given texture sheet.
    pub fn for_animation_clip(source_sheet: String) -> (p: PendingCreate)
        ensures
            p.kind == PendingCreateKind::AnimationClip,
            p.name@.len() == 0,
            p.error is None,
            p.source_sheet == Some(source_sheet),
    {
        PendingCreate { source_sheet: Some(source_sheet), ..PendingCreate::new(PendingCreateKind::AnimationClip) }
    }
}

} // verus!
