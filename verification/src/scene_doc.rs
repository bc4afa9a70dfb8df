//! A scene file as the packaging step reads it: entities, their component types, and
//! the `primary` flag of camera components. Packaging drops editor-only entities and
//! makes sure a runtime camera is primary.
use vstd::prelude::*;
use crate::text::{chars_of, seq_eq, owned};
use crate::components::SavedEntityId;
use crate::sorting::string_views;

verus! {

/// One component entry: its `component_type` (when that is a string) and, for cameras,
/// the `primary` flag of its value (when that is a boolean).
#[derive(Debug, Clone)]
pub struct SceneComponentDoc {
    pub component_type: Option<String>,
    pub primary: Option<bool>,
}

/// One entity entry: its id, and its `components` (when that is an array).
#[derive(Debug, Clone)]
pub struct SceneEntityDoc {
    pub id: Option<SavedEntityId>,
    pub components: Option<Vec<SceneComponentDoc>>,
}

/// A scene file: its `entities` (when that is an array).
#[derive(Debug, Clone)]
pub struct SceneDoc {
    pub entities: Option<Vec<SceneEntityDoc>>,
}

pub open spec fn editor_only_type() -> Seq<char> {
    "ze.editor.only"@
}

pub open spec fn camera_type() -> Seq<char> {
    "ze.renderer.camera"@
}

pub open spec fn has_type(c: SceneComponentDoc, t: Seq<char>) -> bool {
    c.component_type is Some && c.component_type.unwrap()@ == t
}

pub open spec fn components_of(e: SceneEntityDoc) -> Seq<SceneComponentDoc> {
    match e.components {
        Some(v) => v@,
        None => Seq::empty(),
    }
}

/// The entity carries the editor-only marker.
pub open spec fn spec_is_editor_only(e: SceneEntityDoc) -> bool {
    exists|i: int| 0 <= i < components_of(e).len() && #[trigger] has_type(components_of(e)[i], editor_only_type())
}

/// The entity has a camera component.
pub open spec fn spec_has_camera(e: SceneEntityDoc) -> bool {
    exists|i: int| 0 <= i < components_of(e).len() && #[trigger] has_type(components_of(e)[i], camera_type())
}

/// The entity has a camera component flagged primary.
pub open spec fn spec_has_primary_camera(e: SceneEntityDoc) -> bool {
    exists|i: int| 0 <= i < components_of(e).len() && #[trigger] has_type(components_of(e)[i], camera_type())
        && components_of(e)[i].primary == Some(true)
}

pub open spec fn missing_entities_message() -> Seq<char> {
    "scene file is missing an entities array"@
}

/// Whether a component's type is `t`.
fn component_has_type(c: &SceneComponentDoc, t: &[char]) -> (b: bool)
    ensures
        b == has_type(*c, t@),
{
    match &c.component_type {
        Some(s) => {
            let v = chars_of(s.as_str());
            seq_eq(v.as_slice(), t)
        },
        None => false,
    }
}

/// The index of the first component of type `t`.
fn first_component_of_type(e: &SceneEntityDoc, t: &[char]) -> (r: Option<usize>)
    ensures
        match r {
            Some(i) => i < components_of(*e).len() && has_type(components_of(*e)[i as int], t@) && forall|k: int|
                0 <= k < i ==> !#[trigger] has_type(components_of(*e)[k], t@),
            None => forall|k: int| 0 <= k < components_of(*e).len() ==> !#[trigger] has_type(components_of(*e)[k], t@),
        },
{
    match &e.components {
        Some(list) => {
            let mut i: usize = 0;
            while i < list.len()
                invariant
                    i <= list@.len(),
                    list@ == components_of(*e),
                    forall|k: int| 0 <= k < i ==> !#[trigger] has_type(list@[k], t@),
                decreases list@.len() - i,
            {
                if component_has_type(&list[i], t) {
                    return Some(i);
                }
                i = i + 1;
            }
            None
        },
        None => None,
    }
}

/// Whether the entity carries the editor-only marker.
pub fn entity_is_editor_only(entity: &SceneEntityDoc) -> (b: bool)
    ensures
        b == spec_is_editor_only(*entity),
{
    let t = chars_of("ze.editor.only");
    let found = first_component_of_type(entity, t.as_slice());
    proof {
        assert(t@ == editor_only_type());
        match found {
            Some(i) => {
                assert(has_type(components_of(*entity)[i as int], editor_only_type()));
            },
            None => {},
        }
    }
    found.is_some()
}

/// Whether the entity has a camera component flagged primary.
pub fn entity_has_primary_camera(entity: &SceneEntityDoc) -> (b: bool)
    ensures
        b == spec_has_primary_camera(*entity),
{
    let t = chars_of("ze.renderer.camera");
    match &entity.components {
        Some(list) => {
            let mut i: usize = 0;
            while i < list.len()
                invariant
                    i <= list@.len(),
                    list@ == components_of(*entity),
                    t@ == camera_type(),
                    forall|k: int| 0 <= k < i ==> !(#[trigger] has_type(list@[k], camera_type()) && list@[k].primary
                        == Some(true)),
                decreases list@.len() - i,
            {
                if component_has_type(&list[i], t.as_slice()) && list[i].primary == Some(true) {
                    return true;
                }
                i = i + 1;
            }
            false
        },
        None => false,
    }
}

/// The message of a scene without an entities array.
fn missing_entities() -> (s: String)
    ensures
        s@ == missing_entities_message(),
{
    owned("scene file is missing an entities array")
}

/// Drops every editor-only entity, keeping the others in order; fails on a scene
/// without an entities array.
pub fn filter_editor_only_entities(scene: &mut SceneDoc) -> (r: Result<(), String>)
    ensures
        match r {
            Ok(()) => old(scene).entities is Some && final(scene).entities is Some
                && final(scene).entities.unwrap()@ == old(scene).entities.unwrap()@.filter(
                |e: SceneEntityDoc| !spec_is_editor_only(e),
            ),
            Err(m) => old(scene).entities is None && m@ == missing_entities_message() && *final(scene) == *old(scene),
        },
{
    let taken = scene.entities.take();
    match taken {
        None => Err(missing_entities()),
        Some(mut rest) => {
            let ghost all = rest@;
            let ghost pred = |e: SceneEntityDoc| !spec_is_editor_only(e);
            let mut kept: Vec<SceneEntityDoc> = Vec::new();
            while rest.len() > 0
                invariant
                    pred == (|e: SceneEntityDoc| !spec_is_editor_only(e)),
                    rest@.len() <= all.len(),
                    rest@ == all.skip(all.len() - rest@.len()),
                    kept@ == all.take(all.len() - rest@.len()).filter(pred),
                decreases rest@.len(),
            {
                let ghost done = all.len() - rest@.len();
                let e = rest.remove(0);
                proof {
                    assert(e == all[done]);
                    assert(all.take(done + 1) =~= all.take(done).push(e));
                    all.take(done).lemma_filter_push(e, pred);
                    assert(rest@ =~= all.skip(done + 1));
                }
                if !entity_is_editor_only(&e) {
                    kept.push(e);
                }
            }
            proof {
                assert(all.take(all.len() as int) =~= all);
            }
            scene.entities = Some(kept);
            Ok(())
        },
    }
}

/// Some entity of `s` has a primary camera.
pub open spec fn any_primary_camera(s: Seq<SceneEntityDoc>) -> bool {
    exists|i: int| 0 <= i < s.len() && #[trigger] spec_has_primary_camera(s[i])
}

/// Some entity of `s` has a camera component.
pub open spec fn any_camera(s: Seq<SceneEntityDoc>) -> bool {
    exists|i: int| 0 <= i < s.len() && #[trigger] spec_has_camera(s[i])
}

/// `k` is the first entity of `s` with a camera component.
pub open spec fn first_camera_entity(s: Seq<SceneEntityDoc>, k: int) -> bool {
    &&& 0 <= k < s.len()
    &&& spec_has_camera(s[k])
    &&& forall|i: int| 0 <= i < k ==> !#[trigger] spec_has_camera(s[i])
}

/// `j` is the first camera component of `c`.
pub open spec fn first_camera_component(c: Seq<SceneComponentDoc>, j: int) -> bool {
    &&& 0 <= j < c.len()
    &&& has_type(c[j], camera_type())
    &&& forall|i: int| 0 <= i < j ==> !#[trigger] has_type(c[i], camera_type())
}

/// `after` is `before` with the first camera component of its entity `k` flagged primary.
pub open spec fn camera_promoted(before: Seq<SceneEntityDoc>, after: Seq<SceneEntityDoc>, k: int, j: int) -> bool {
    &&& first_camera_entity(before, k)
    &&& first_camera_component(components_of(before[k]), j)
    &&& after.len() == before.len()
    &&& forall|i: int| 0 <= i < before.len() && i != k ==> #[trigger] after[i] == before[i]
    &&& after[k].id == before[k].id
    &&& after[k].components is Some
    &&& components_of(after[k]) == components_of(before[k]).update(
        j,
        SceneComponentDoc { component_type: components_of(before[k])[j].component_type, primary: Some(true) },
    )
}

/// What making sure of a primary runtime camera does to the entity list `before`: nothing
/// when a primary camera exists or no camera does, else it flags the first camera of the
/// first entity that has one.
pub open spec fn camera_ensured(before: Seq<SceneEntityDoc>, after: Seq<SceneEntityDoc>) -> bool {
    if any_primary_camera(before) || !any_camera(before) {
        after == before
    } else {
        exists|k: int, j: int| camera_promoted(before, after, k, j)
    }
}

/// Makes sure a camera is primary: when no entity has a primary camera, the first camera
/// component of the first entity that has one is flagged primary. Fails on a scene without
/// an entities array.
pub fn ensure_primary_runtime_camera(scene: &mut SceneDoc) -> (r: Result<(), String>)
    ensures
        match r {
            Ok(()) => old(scene).entities is Some && final(scene).entities is Some && camera_ensured(
                old(scene).entities.unwrap()@,
                final(scene).entities.unwrap()@,
            ),
            Err(m) => old(scene).entities is None && m@ == missing_entities_message() && *final(scene) == *old(scene),
        },
{
    let taken = scene.entities.take();
    let mut entities = match taken {
        None => return Err(missing_entities()),
        Some(v) => v,
    };
    let ghost before = entities@;
    let mut i: usize = 0;
    let mut any = false;
    while i < entities.len()
        invariant
            entities@ == before,
            i <= before.len(),
            any == exists|k: int| 0 <= k < i && #[trigger] spec_has_primary_camera(before[k]),
        decreases before.len() - i,
    {
        if entity_has_primary_camera(&entities[i]) {
            any = true;
        }
        i = i + 1;
    }
    if !any {
        let camera = chars_of("ze.renderer.camera");
        let mut k: usize = 0;
        let mut found: Option<usize> = None;
        while k < entities.len() && found.is_none()
            invariant
                entities@ == before,
                camera@ == camera_type(),
                k <= before.len(),
                found is None ==> forall|x: int| 0 <= x < k ==> !#[trigger] spec_has_camera(before[x]),
                found is Some ==> k >= 1 && first_camera_entity(before, k - 1) && first_camera_component(
                    components_of(before[k - 1]),
                    found.unwrap() as int,
                ),
            decreases before.len() - k,
        {
            let hit = first_component_of_type(&entities[k], camera.as_slice());
            match hit {
                Some(j) => {
                    found = Some(j);
                },
                None => {},
            }
            k = k + 1;
        }
        match found {
            Some(j) => {
                let kk = k - 1;
                let e = entities.remove(kk);
                let SceneEntityDoc { id, components } = e;
                let mut comps = match components {
                    Some(c) => c,
                    None => Vec::new(),
                };
                let c = comps.remove(j);
                let promoted = SceneComponentDoc { component_type: c.component_type, primary: Some(true) };
                comps.insert(j, promoted);
                entities.insert(kk, SceneEntityDoc { id, components: Some(comps) });
                proof {
                    assert(entities@ =~= before.update(kk as int, entities@[kk as int]));
                    assert(components_of(entities@[kk as int]) =~= components_of(before[kk as int]).update(
                        j as int,
                        SceneComponentDoc {
                            component_type: components_of(before[kk as int])[j as int].component_type,
                            primary: Some(true),
                        },
                    ));
                    assert(camera_promoted(before, entities@, kk as int, j as int));
                    assert(!any_primary_camera(before));
                    assert(any_camera(before));
                }
            },
            None => {
                proof {
                    assert(!any_camera(before));
                }
            },
        }
    }
    scene.entities = Some(entities);
    Ok(())
}

/// Whether the scene, as packaged (editor-only entities dropped, a runtime camera made
/// primary), has a primary camera. Leaves the scene in that packaged form.
pub fn scene_has_primary_runtime_camera(scene: &mut SceneDoc) -> (r: Result<bool, String>)
    ensures
        match r {
            Ok(b) => old(scene).entities is Some && b == exists|i: int| 0 <= i < old(scene).entities.unwrap()@.len()
                && !spec_is_editor_only(#[trigger] old(scene).entities.unwrap()@[i]) && spec_has_camera(
                old(scene).entities.unwrap()@[i],
            ),
            Err(m) => old(scene).entities is None && m@ == missing_entities_message(),
        },
{
    let ghost initial = old(scene).entities;
    match filter_editor_only_entities(scene) {
        Ok(()) => {},
        Err(m) => return Err(m),
    }
    let ghost kept = scene.entities.unwrap()@;
    match ensure_primary_runtime_camera(scene) {
        Ok(()) => {},
        Err(m) => return Err(m),
    }
    let entities = match &scene.entities {
        Some(v) => v,
        None => return Err(missing_entities()),
    };
    let mut i: usize = 0;
    let mut any = false;
    while i < entities.len()
        invariant
            i <= entities@.len(),
            any == exists|k: int| 0 <= k < i && #[trigger] spec_has_primary_camera(entities@[k]),
        decreases entities@.len() - i,
    {
        if entity_has_primary_camera(&entities[i]) {
            any = true;
        }
        i = i + 1;
    }
    proof {
        lemma_primary_after_packaging(initial.unwrap()@, kept, entities@);
    }
    Ok(any)
}

/// After dropping editor-only entities (`all` to `kept`) and making sure of a primary
/// camera (`kept` to `after`), a primary camera exists exactly when some entity that is not
/// editor-only has a camera component.
proof fn lemma_primary_after_packaging(all: Seq<SceneEntityDoc>, kept: Seq<SceneEntityDoc>, after: Seq<SceneEntityDoc>)
    requires
        kept == all.filter(|e: SceneEntityDoc| !spec_is_editor_only(e)),
        camera_ensured(kept, after),
    ensures
        any_primary_camera(after) == exists|i: int| 0 <= i < all.len() && !spec_is_editor_only(#[trigger] all[i])
            && spec_has_camera(all[i]),
{
    broadcast use vstd::seq_lib::group_filter_ensures;
    let pred = |e: SceneEntityDoc| !spec_is_editor_only(e);
    let rhs = exists|i: int| 0 <= i < all.len() && !spec_is_editor_only(#[trigger] all[i]) && spec_has_camera(all[i]);
    assert(any_camera(kept) == rhs) by {
        if any_camera(kept) {
            let i = choose|i: int| 0 <= i < kept.len() && #[trigger] spec_has_camera(kept[i]);
            assert(kept.contains(kept[i]));
            all.lemma_filter_contains_rev(pred, kept[i]);
            let w = choose|w: int| 0 <= w < all.len() && all[w] == kept[i];
            all.lemma_filter_pred(pred, i);
            assert(!spec_is_editor_only(all[w]) && spec_has_camera(all[w]));
        }
        if rhs {
            let w = choose|w: int| 0 <= w < all.len() && !spec_is_editor_only(#[trigger] all[w]) && spec_has_camera(all[w]);
            all.lemma_filter_contains(pred, w);
            let i = choose|i: int| 0 <= i < kept.len() && kept[i] == all[w];
            assert(spec_has_camera(kept[i]));
        }
    }
    if any_primary_camera(kept) {
        let i = choose|i: int| 0 <= i < kept.len() && #[trigger] spec_has_primary_camera(kept[i]);
        let j = choose|j: int| 0 <= j < components_of(kept[i]).len() && #[trigger] has_type(components_of(kept[i])[j], camera_type())
            && components_of(kept[i])[j].primary == Some(true);
        assert(spec_has_camera(kept[i]));
    } else if any_camera(kept) {
        let (k, j) = choose|k: int, j: int| camera_promoted(kept, after, k, j);
        let c = components_of(after[k]);
        assert(has_type(c[j], camera_type()) && c[j].primary == Some(true));
        assert(spec_has_primary_camera(after[k]));
    } else {
        assert(after == kept);
    }
}

/// Whether the scene as packaged has a primary camera: some entity that is not
/// editor-only has a camera (meaningful when the entities array is there).
pub open spec fn packaged_has_primary(scene: SceneDoc) -> bool {
    exists|i: int| 0 <= i < scene.entities.unwrap()@.len() && !spec_is_editor_only(
        #[trigger] scene.entities.unwrap()@[i],
    ) && spec_has_camera(scene.entities.unwrap()@[i])
}

/// What reading an included scene's file gave.
#[derive(Debug)]
pub enum SceneLookup {
    /// No file at the scene's path: the scene is skipped.
    Missing,
    /// The file could not be read or parsed.
    Unreadable,
    Found(SceneDoc),
}

/// Why checking the included scenes' cameras stopped, and at which scene.
#[derive(Debug, Clone, Copy, PartialEq, Eq)]
pub enum CameraCheckError {
    Unreadable(usize),
    /// The scene file has no entities array.
    NoEntities(usize),
}

/// The names, in order, of the scenes among the first `n` that were found and have no
/// primary camera once packaged.
pub open spec fn names_without_primary(names: Seq<String>, scenes: Seq<SceneLookup>, n: int) -> Seq<Seq<char>>
    decreases n,
{
    if n <= 0 {
        Seq::empty()
    } else {
        let rest = names_without_primary(names, scenes, n - 1);
        match scenes[n - 1] {
            SceneLookup::Found(d) => if !packaged_has_primary(d) {
                rest.push(names[n - 1]@)
            } else {
                rest
            },
            _ => rest,
        }
    }
}

/// The scene among the first `n` that stops the check: unreadable, or found without an
/// entities array.
pub open spec fn is_camera_check_failure(s: SceneLookup) -> bool {
    match s {
        SceneLookup::Unreadable => true,
        SceneLookup::Found(d) => d.entities is None,
        SceneLookup::Missing => false,
    }
}

/// The scenes a build includes that would ship without a primary runtime camera, given
/// what reading each scene's file gave (one entry per name, in the same order). Scenes
/// without a file are skipped; the first scene that cannot be read, or has no entities
/// array, ends the check with an error naming it.
pub fn scenes_without_primary_camera(names: &[String], scenes: Vec<SceneLookup>) -> (r: Result<
    Vec<String>,
    CameraCheckError,
>)
    requires
        scenes@.len() == names@.len(),
    ensures
        r matches Ok(v) ==> (forall|k: int| 0 <= k < scenes@.len() ==> !is_camera_check_failure(#[trigger] scenes@[k]))
            && string_views(v@) == names_without_primary(names@, scenes@, scenes@.len() as int),
        r matches Err(CameraCheckError::Unreadable(i)) ==> i < scenes@.len() && scenes@[i as int] is Unreadable
            && forall|k: int| 0 <= k < i ==> !is_camera_check_failure(#[trigger] scenes@[k]),
        r matches Err(CameraCheckError::NoEntities(i)) ==> i < scenes@.len() && (scenes@[i as int] matches SceneLookup::Found(
            d,
        ) && d.entities is None) && forall|k: int| 0 <= k < i ==> !is_camera_check_failure(#[trigger] scenes@[k]),
{
    let ghost all = scenes@;
    let mut work = scenes;
    let mut out: Vec<String> = Vec::new();
    let mut i: usize = 0;
    while i < work.len()
        invariant
            all == scenes@,
            work@.len() == all.len(),
            all.len() == names@.len(),
            i <= all.len(),
            forall|k: int| i <= k < all.len() ==> #[trigger] work@[k] == all[k],
            forall|k: int| 0 <= k < i ==> !is_camera_check_failure(#[trigger] all[k]),
            string_views(out@) == names_without_primary(names@, all, i as int),
        decreases all.len() - i,
    {
        let ghost entry = all[i as int];
        let missing = match &work[i] {
            SceneLookup::Missing => true,
            _ => false,
        };
        if !missing {
            let found = match &work[i] {
                SceneLookup::Unreadable => false,
                _ => true,
            };
            if !found {
                return Err(CameraCheckError::Unreadable(i));
            }
            let mut doc = SceneDoc { entities: None };
            match &mut work[i] {
                SceneLookup::Found(d) => {
                    doc = SceneDoc { entities: d.entities.take() };
                },
                _ => {},
            }
            assert(entry matches SceneLookup::Found(d) && d == doc);
            match scene_has_primary_runtime_camera(&mut doc) {
                Err(_) => {
                    return Err(CameraCheckError::NoEntities(i));
                },
                Ok(present) => {
                    if !present {
                        let ghost before = string_views(out@);
                        out.push(names[i].clone());
                        proof {
                            assert(string_views(out@) =~= before.push(names@[i as int]@));
                        }
                    }
                },
            }
        }
        i = i + 1;
    }
    Ok(out)
}

} // verus!
