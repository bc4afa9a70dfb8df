//! The hierarchy panel's entity edits on the scene graph: creating an entity (optionally
//! under a parent), renaming one, and duplicating one without its hierarchy links.
use vstd::prelude::*;
use crate::graph::{EntityRecord, SceneGraph, SavedComponent, component_views, copy_components};
use crate::reparent::{same_record, with_child};
use crate::text::{chars_of, string_of, append_str, trimmed, trim_chars};
use crate::sorting::{contains_string, string_views};

verus! {

/// Whether a component's type is among `types`.
pub open spec fn of_types(types: Seq<Seq<char>>) -> spec_fn(SavedComponent) -> bool {
    |c: SavedComponent| types.contains(c.kind@)
}

/// Copies of the components of `v` whose type is among `types`, in order.
fn components_of_types(v: &Vec<SavedComponent>, types: &Vec<String>) -> (out: Vec<SavedComponent>)
    ensures
        component_views(out@) == component_views(v@.filter(of_types(string_views(types@)))),
{
    let ghost keep = of_types(string_views(types@));
    let mut out: Vec<SavedComponent> = Vec::new();
    let mut i: usize = 0;
    while i < v.len()
        invariant
            i <= v@.len(),
            keep == of_types(string_views(types@)),
            component_views(out@) == component_views(v@.take(i as int).filter(keep)),
        decreases v@.len() - i,
    {
        proof {
            v@.take(i as int).lemma_filter_push(v@[i as int], keep);
            assert(v@.take(i as int).push(v@[i as int]) =~= v@.take(i + 1));
        }
        if contains_string(types, &v[i].kind) {
            let c = SavedComponent {
                kind: crate::text::owned(v[i].kind.as_str()),
                value: crate::text::owned(v[i].value.as_str()),
            };
            let ghost before = out@;
            let ghost cv = (v@[i as int].kind@, v@[i as int].value@);
            out.push(c);
            assert(component_views(v@.take(i as int).filter(keep).push(v@[i as int])) =~= component_views(
                v@.take(i as int).filter(keep),
            ).push(cv));
            assert(component_views(out@) =~= component_views(before).push(cv));
        }
        i = i + 1;
    }
    assert(v@.take(v@.len() as int) =~= v@);
    out
}

impl SceneGraph {
    /// Adds a record for a new entity.
    pub fn add_record(&mut self, r: EntityRecord)
        requires
            old(self).wf(),
            !old(self).has(r.id),
        ensures
            final(self).wf(),
            final(self).entities@ == old(self).entities@.push(r),
            forall|e: u64| #[trigger] final(self).has(e) <==> old(self).has(e) || e == r.id,
            final(self).record(r.id) == r,
            forall|e: u64| #[trigger] old(self).has(e) ==> final(self).record(e) == old(self).record(e),
    {
        let ghost before = *self;
        let ghost id = r.id;
        self.entities.push(r);
        proof {
            let n = before.entities@.len() as int;
            assert forall|a: int, b: int| 0 <= a < b < self.entities@.len() implies #[trigger] self.entities@[a].id
                != #[trigger] self.entities@[b].id by {
                if b == n {
                    if before.entities@[a].id == id {
                        assert(before.has(id));
                    }
                } else {
                    assert(before.entities@[a].id != before.entities@[b].id);
                }
            }
            self.lemma_record_at(n);
            assert forall|e: u64| #[trigger] self.has(e) implies before.has(e) || e == id by {
                let k = choose|k: int| 0 <= k < self.entities@.len() && #[trigger] self.entities@[k].id == e;
                if k < n {
                    assert(before.entities@[k].id == e);
                }
            }
            assert forall|e: u64| #[trigger] before.has(e) implies self.has(e) && self.record(e) == before.record(e) by {
                let k = choose|k: int| 0 <= k < before.entities@.len() && #[trigger] before.entities@[k].id == e;
                before.lemma_record_at(k);
                assert(self.entities@[k] == before.entities@[k]);
                self.lemma_record_at(k);
            }
        }
    }

    /// Creates an entity named `name` as `new_id` (index `new_index`) carrying `components`
    /// (the editor gives a new entity a default transform), a root or, with a parent, linked
    /// under it both ways.
    pub fn create_entity(&mut self, name: &str, new_id: u64, new_index: u64, parent: Option<u64>,
        components: Vec<SavedComponent>)
        requires
            old(self).wf(),
            !old(self).has(new_id),
            parent != Some(new_id),
        ensures
            final(self).wf(),
            forall|e: u64| #[trigger] final(self).has(e) <==> old(self).has(e) || e == new_id,
            final(self).record(new_id).name matches Some(n) && n@ == name@,
            final(self).record(new_id).index == new_index,
            !final(self).record(new_id).hidden,
            component_views(final(self).record(new_id).components@) == component_views(components@),
            match parent {
                None => final(self).record(new_id).parent is None && final(self).record(new_id).children@.len() == 0
                    && forall|e: u64| #[trigger] old(self).has(e) ==> final(self).record(e) == old(self).record(e),
                Some(p) => {
                    &&& final(self).record(new_id).parent == Some(p)
                    &&& final(self).record(new_id).children@.len() == 0
                    &&& old(self).has(p) ==> final(self).record(p).children@ == with_child(
                        old(self).record(p).children@,
                        new_id,
                    )
                    &&& forall|e: u64| #[trigger] old(self).has(e) && e != p ==> same_record(
                        final(self).record(e),
                        old(self).record(e),
                    )
                },
            },
    {
        let r = EntityRecord {
            id: new_id,
            index: new_index,
            name: Some(crate::text::owned(name)),
            parent: None,
            children: Vec::new(),
            hidden: false,
            components,
        };
        self.add_record(r);
        match parent {
            Some(p) => {
                let ghost mid = *self;
                self.attach_to_parent(new_id, p);
                proof {
                    assert forall|e: u64| #[trigger] old(self).has(e) && e != p implies same_record(
                        self.record(e),
                        old(self).record(e),
                    ) by {
                        assert(mid.has(e));
                        assert(self.has(e));
                    }
                }
            },
            None => {},
        }
    }
}

impl SceneGraph {
    /// Renames entity `e` to the trimmed `name`; a blank name is refused, as is a missing
    /// entity. Returns whether the entity was renamed.
    pub fn rename_entity(&mut self, e: u64, name: &str) -> (renamed: bool)
        requires
            old(self).wf(),
        ensures
            final(self).wf(),
            renamed == (old(self).has(e) && trimmed(name@).len() > 0),
            forall|x: u64| #[trigger] final(self).has(x) <==> old(self).has(x),
            !renamed ==> final(self).entities@ == old(self).entities@,
            renamed ==> (final(self).record(e).name matches Some(n) && n@ == trimmed(name@)),
            renamed ==> {
                let r = final(self).record(e);
                let o = old(self).record(e);
                r.id == o.id && r.index == o.index && r.parent == o.parent && r.children@ == o.children@ && r.hidden
                    == o.hidden && component_views(r.components@) == component_views(o.components@)
            },
            forall|x: u64| #[trigger] final(self).has(x) && x != e ==> final(self).record(x) == old(self).record(x),
    {
        let raw = chars_of(name);
        let t = trim_chars(raw.as_slice());
        if t.len() == 0 {
            return false;
        }
        let i = match self.index_of(e) {
            Some(i) => i,
            None => return false,
        };
        let old_r = &self.entities[i];
        let r = EntityRecord {
            id: old_r.id,
            index: old_r.index,
            name: Some(string_of(t.as_slice())),
            parent: old_r.parent,
            children: crate::reparent::copy_ids(&old_r.children),
            hidden: old_r.hidden,
            components: copy_components(&old_r.components),
        };
        self.replace_at(i, r);
        true
    }

    /// Duplicates entity `source` as `new_id` (index `new_index`): named after the source's
    /// label with ` Copy` appended, shown in the hierarchy, without hierarchy links, and
    /// carrying copies of those of the source's components whose type is among
    /// `copied_types` (the editor copies transform, tag, inactive marker, sprite, camera,
    /// rigid body, collider and scripts).
    pub fn duplicate_entity(&mut self, source: u64, new_id: u64, new_index: u64, copied_types: &Vec<String>)
        requires
            old(self).wf(),
            !old(self).has(new_id),
        ensures
            final(self).wf(),
            final(self).entities@ == old(self).entities@.push(final(self).record(new_id)),
            forall|x: u64| #[trigger] final(self).has(x) <==> old(self).has(x) || x == new_id,
            final(self).record(new_id).name matches Some(n) && n@ == old(self).label_of(source) + " Copy"@,
            final(self).record(new_id).index == new_index,
            final(self).record(new_id).parent is None,
            final(self).record(new_id).children@.len() == 0,
            !final(self).record(new_id).hidden,
            component_views(final(self).record(new_id).components@) == if old(self).has(source) {
                component_views(old(self).record(source).components@.filter(of_types(string_views(copied_types@))))
            } else {
                Seq::empty()
            },
            forall|x: u64| #[trigger] old(self).has(x) ==> final(self).record(x) == old(self).record(x),
    {
        let components = match self.index_of(source) {
            Some(i) => components_of_types(&self.entities[i].components, copied_types),
            None => Vec::new(),
        };
        let label = self.entity_label(source);
        let mut v = chars_of(label.as_str());
        append_str(&mut v, " Copy");
        let r = EntityRecord {
            id: new_id,
            index: new_index,
            name: Some(string_of(v.as_slice())),
            parent: None,
            children: Vec::new(),
            hidden: false,
            components,
        };
        self.add_record(r);
    }
}

} // verus!
