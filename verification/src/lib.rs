use vstd::prelude::*;

pub mod text;
pub mod paths;
pub mod sorting;
pub mod project;
pub mod undo;
pub mod assets;
pub mod sheet;
pub mod graph;
pub mod subtree;
pub mod entity_edit;
pub mod reparent;
pub mod hierarchy;
pub mod packaging;
pub mod components;
pub mod scene_doc;
pub mod workspace;
pub mod panels;
pub mod explorer;
pub mod engine_env;
pub mod inspector;
pub mod scenes;
pub mod hot_reload;
pub mod build_flow;
pub mod animation;
pub mod physics;
pub mod tiles;
pub mod frame;
pub mod documents;
pub mod scene_meta;

verus! {

} // verus!
