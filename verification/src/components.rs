//! The plain-data components and save-file types of a scene that the library works with.
use vstd::prelude::*;

verus! {

/// An entity's display name.
#[derive(Debug, Clone)]
pub struct Name {
    pub name: String,
}

/// An entity's gameplay tag.
#[derive(Debug, Clone)]
pub struct Tag {
    pub tag: String,
}

/// The entity id an entity's `Parent` component points at.
#[derive(Debug, Clone, Copy, PartialEq, Eq, Structural)]
pub struct Parent {
    pub id: u64,
}

/// The entity ids an entity lists as its children.
#[derive(Debug, Clone)]
pub struct Children {
    pub ids: Vec<u64>,
}

/// Marks an entity that takes no part in the running game.
#[derive(Debug, Clone, Copy, PartialEq, Eq, Structural)]
pub struct Inactive;

/// Marks an entity that exists only in the editor and is left out of builds.
#[derive(Debug, Clone, Copy, PartialEq, Eq, Structural)]
pub struct EditorOnly;

/// Which parts of the parent's transform an entity inherits.
#[derive(Debug, Clone, Copy, PartialEq, Eq, Structural)]
pub struct TransformInheritance {
    pub inherit_position: bool,
    pub inherit_rotation: bool,
    pub inherit_scale: bool,
}

/// The value a missing `inherit_*` flag takes when a scene is read: `true`.
pub fn default_true() -> (b: bool)
    ensures
        b,
{
    true
}

impl TransformInheritance {
    /// Inherit position, rotation and scale.
    pub fn inherit_all() -> (t: TransformInheritance)
        ensures
            t.inherit_position && t.inherit_rotation && t.inherit_scale,
    {
        TransformInheritance { inherit_position: true, inherit_rotation: true, inherit_scale: true }
    }
}

impl Default for TransformInheritance {
    fn default() -> (t: TransformInheritance)
        ensures
            t.inherit_position && t.inherit_rotation && t.inherit_scale,
    {
        TransformInheritance::inherit_all()
    }
}

/// How a rigid body moves.
#[derive(Debug, Clone, Copy, PartialEq, Eq, Structural)]
pub enum RigidBodyType {
    Static,
    Dynamic,
    KinematicPositionBased,
    KinematicVelocityBased,
}

/// How collisions of a fast body are detected.
#[derive(Debug, Clone, Copy, PartialEq, Eq, Structural)]
pub enum CollisionDetection {
    Discrete,
    Continuous,
}

impl Default for CollisionDetection {
    fn default() -> (c: CollisionDetection)
        ensures
            c == CollisionDetection::Discrete,
    {
        CollisionDetection::Discrete
    }
}

/// The tile-grid cell an entity occupies.
#[derive(Debug, Clone, Copy, PartialEq, Eq, Structural)]
pub struct TileGridPosition {
    pub col: i32,
    pub row: i32,
}

/// Marks the entity that newly painted tiles are parented under.
#[derive(Debug, Clone, Copy, PartialEq, Eq, Structural)]
pub struct TilesRoot;

/// Whether a scene file holds a level or a prefab.
#[derive(Debug, Clone, Copy, PartialEq, Eq, Structural)]
pub enum SceneType {
    Scene,
    Prefab,
}

impl Default for SceneType {
    fn default() -> (t: SceneType)
        ensures
            t == SceneType::Scene,
    {
        SceneType::Scene
    }
}

/// An entity id as saved in a scene file.
#[derive(Debug, Clone, Copy, PartialEq, Eq, Structural)]
pub struct SavedEntityId {
    pub index: u64,
    pub generation: u16,
}

} // verus!
