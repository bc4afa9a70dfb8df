//! A scene's identity (its file name, the name it shows, whether it is a level or a prefab)
//! and the header of its saved form: what a snapshot records, and what restoring a snapshot
//! or loading a scene file sets.
use vstd::prelude::*;
use crate::components::SceneType;
use crate::project::{scene_name_from_path, spec_scene_name_from_path};
use crate::text::owned;

verus! {

/// The format version written into every saved scene: `0.1.0`.
pub open spec fn scene_version() -> Seq<char> {
    seq!['0', '.', '1', '.', '0']
}

/// A scene's identity.
#[derive(Debug, Clone)]
pub struct SceneMeta {
    /// The scene's file name without `.zescene.json`.
    pub name: String,
    /// The name shown for the scene.
    pub display_name: String,
    pub scene_type: SceneType,
}

/// The header of a saved scene: format version, shown name and kind.
#[derive(Debug, Clone)]
pub struct SaveHeader {
    pub version: String,
    /// The shown name; empty in files written before scenes had one.
    pub name: String,
    pub scene_type: SceneType,
}

/// The name a scene shows after reading a header: the header's name, or the scene's own
/// name when the header has none.
pub open spec fn shown_name(own: Seq<char>, saved: Seq<char>) -> Seq<char> {
    if saved.len() == 0 {
        own
    } else {
        saved
    }
}

/// A header's version, name and kind.
pub open spec fn header_view(h: SaveHeader) -> (Seq<char>, Seq<char>, SceneType) {
    (h.version@, h.name@, h.scene_type)
}

/// A scene identity's name, shown name and kind.
pub open spec fn meta_view(m: SceneMeta) -> (Seq<char>, Seq<char>, SceneType) {
    (m.name@, m.display_name@, m.scene_type)
}

/// The header a snapshot of a scene with identity `m` carries.
pub open spec fn snapshot_of(m: (Seq<char>, Seq<char>, SceneType)) -> (Seq<char>, Seq<char>, SceneType) {
    (scene_version(), m.1, m.2)
}

/// The identity of a scene with identity `m` after the snapshot header `h` was restored.
pub open spec fn restored(m: (Seq<char>, Seq<char>, SceneType), h: (Seq<char>, Seq<char>, SceneType)) -> (
    Seq<char>,
    Seq<char>,
    SceneType,
) {
    (m.0, shown_name(m.0, h.1), h.2)
}

/// The identity of a scene loaded from the file at `path` with header `h`: its name is the
/// file name without `.zescene.json` (empty when the file name does not end so).
pub open spec fn loaded_from(path: Seq<char>, h: (Seq<char>, Seq<char>, SceneType)) -> (
    Seq<char>,
    Seq<char>,
    SceneType,
) {
    let own = match spec_scene_name_from_path(path) {
        Some(n) => n,
        None => Seq::<char>::empty(),
    };
    (own, shown_name(own, h.1), h.2)
}

fn version_string() -> (s: String)
    ensures
        s@ == scene_version(),
{
    let v = vec!['0', '.', '1', '.', '0'];
    assert(v@ =~= scene_version());
    crate::text::string_of(v.as_slice())
}

impl SceneMeta {
    /// A new, empty scene named `name`: it shows that name and is a level.
    pub fn new(name: &str) -> (m: SceneMeta)
        ensures
            meta_view(m) == (name@, name@, SceneType::Scene),
    {
        SceneMeta { name: owned(name), display_name: owned(name), scene_type: SceneType::Scene }
    }

    /// The header a snapshot of this scene carries: the current format version, the shown
    /// name and the kind.
    pub fn snapshot_header(&self) -> (h: SaveHeader)
        ensures
            header_view(h) == snapshot_of(meta_view(*self)),
    {
        SaveHeader {
            version: version_string(),
            name: owned(self.display_name.as_str()),
            scene_type: self.scene_type,
        }
    }

    /// Restores the header of a snapshot: the shown name becomes the header's (the scene's
    /// own name when the header has none) and the kind the header's; the own name stays.
    pub fn restore_header(&mut self, header: &SaveHeader)
        ensures
            meta_view(*final(self)) == restored(meta_view(*old(self)), header_view(*header)),
    {
        if header.name.as_str().is_empty() {
            self.display_name = owned(self.name.as_str());
        } else {
            self.display_name = owned(header.name.as_str());
        }
        self.scene_type = header.scene_type;
    }

    /// The identity of a scene loaded from the file at `path` whose header is `header`.
    pub fn loaded(path: &str, header: &SaveHeader) -> (m: SceneMeta)
        ensures
            meta_view(m) == loaded_from(path@, header_view(*header)),
    {
        let name = match scene_name_from_path(path) {
            Some(n) => n,
            None => String::new(),
        };
        let display_name = if header.name.as_str().is_empty() {
            owned(name.as_str())
        } else {
            owned(header.name.as_str())
        };
        SceneMeta { name, display_name, scene_type: header.scene_type }
    }
}

/// Restoring a scene's own snapshot gives back its identity, whenever it shows a name; a
/// scene that shows none comes back showing its own name.
pub proof fn law_snapshot_restore_round_trip(m: (Seq<char>, Seq<char>, SceneType))
    ensures
        m.1.len() > 0 ==> restored(m, snapshot_of(m)) == m,
        m.1.len() == 0 ==> restored(m, snapshot_of(m)) == (m.0, m.0, m.2),
{
}

} // verus!
