//! The scene's own parent/child links (every `Children` entry and every `Parent`
//! pointer, hidden entities included), the subtree walk built on them, and entity
//! deletion, which removes a whole subtree and every link that pointed into it.
use vstd::prelude::*;
use crate::graph::{EntityRecord, SceneGraph, vec_contains, lemma_push_unique};

verus! {

/// Every id that a record mentions: its own id, then its `Children` entries, record by record.
pub open spec fn mentioned_ids(s: Seq<EntityRecord>) -> Seq<u64>
    decreases s.len(),
{
    if s.len() == 0 {
        seq![]
    } else {
        mentioned_ids(s.drop_last()) + seq![s.last().id] + s.last().children@
    }
}

proof fn lemma_mentioned(s: Seq<EntityRecord>, k: int)
    requires
        0 <= k < s.len(),
    ensures
        mentioned_ids(s).contains(s[k].id),
        forall|c: u64| #[trigger] s[k].children@.contains(c) ==> mentioned_ids(s).contains(c),
    decreases s.len(),
{
    broadcast use vstd::seq_lib::group_seq_properties;
    let m = mentioned_ids(s);
    let prev = mentioned_ids(s.drop_last());
    assert(m == prev + seq![s.last().id] + s.last().children@);
    if k < s.len() - 1 {
        lemma_mentioned(s.drop_last(), k);
        assert(s.drop_last()[k] == s[k]);
        assert forall|x: u64| #[trigger] prev.contains(x) implies m.contains(x) by {
            let i = choose|i: int| 0 <= i < prev.len() && prev[i] == x;
            assert(m[i] == x);
        }
    } else {
        assert(m[prev.len() as int] == s[k].id);
        assert forall|c: u64| #[trigger] s[k].children@.contains(c) implies m.contains(c) by {
            let i = choose|i: int| 0 <= i < s[k].children@.len() && s[k].children@[i] == c;
            assert(m[prev.len() + 1 + i] == c);
        }
    }
}

/// A duplicate-free sequence whose elements all occur in `u` is no longer than `u`.
pub proof fn lemma_nodup_within_len(v: Seq<u64>, u: Seq<u64>)
    requires
        v.no_duplicates(),
        forall|x: u64| #[trigger] v.contains(x) ==> u.contains(x),
    ensures
        v.len() <= u.len(),
{
    v.unique_seq_to_set();
    u.lemma_cardinality_of_set();
    vstd::seq_lib::seq_to_set_is_finite(u);
    assert forall|x: u64| v.to_set().contains(x) implies u.to_set().contains(x) by {
        assert(v.contains(x));
    }
    vstd::set_lib::lemma_len_subset(v.to_set(), u.to_set());
}

impl SceneGraph {
    /// `c` hangs below `p` in the scene: listed by `p`'s `Children`, or an entity whose
    /// `Parent` is `p`.
    pub open spec fn scene_child(&self, p: u64, c: u64) -> bool {
        ||| (self.has(p) && self.record(p).children@.contains(c))
        ||| (self.has(c) && self.record(c).parent == Some(p))
    }

    /// `path` leads from `a` down through scene links, one step per element.
    pub open spec fn is_link_path(&self, a: u64, path: Seq<u64>) -> bool {
        &&& path.len() >= 1
        &&& self.scene_child(a, path[0])
        &&& forall|i: int| 0 <= i < path.len() - 1 ==> #[trigger] self.scene_child(path[i], path[i + 1])
    }

    /// `x` is `root` or lies below it through scene links.
    pub open spec fn in_subtree(&self, root: u64, x: u64) -> bool {
        x == root || exists|path: Seq<u64>| #[trigger] self.is_link_path(root, path) && path.last() == x
    }

    /// The scene-level children of `p`, each once: its `Children` entries, then the
    /// entities whose `Parent` is `p`.
    pub fn scene_children_of(&self, p: u64) -> (out: Vec<u64>)
        requires
            self.wf(),
        ensures
            forall|c: u64| #[trigger] out@.contains(c) <==> self.scene_child(p, c),
    {
        let mut out: Vec<u64> = Vec::new();
        match self.index_of(p) {
            Some(pi) => {
                let list = &self.entities[pi].children;
                let mut i: usize = 0;
                while i < list.len()
                    invariant
                        i <= list@.len(),
                        forall|c: u64| #[trigger] out@.contains(c) <==> list@.take(i as int).contains(c),
                    decreases list@.len() - i,
                {
                    let c = list[i];
                    let ghost before = out@;
                    if !vec_contains(&out, c) {
                        out.push(c);
                    }
                    proof {
                        broadcast use vstd::seq_lib::group_seq_properties;
                        assert(list@.take(i + 1) =~= list@.take(i as int).push(c));
                    }
                    i = i + 1;
                }
                proof {
                    assert(list@.take(i as int) =~= list@);
                }
            },
            None => {},
        }
        let ghost explicit = out@;
        let mut j: usize = 0;
        while j < self.entities.len()
            invariant
                self.wf(),
                j <= self.entities@.len(),
                forall|c: u64| #[trigger] explicit.contains(c) <==> (self.has(p) && self.record(p).children@.contains(c)),
                forall|c: u64| #[trigger] out@.contains(c) <==> (explicit.contains(c) || exists|k: int| 0 <= k < j
                    && #[trigger] self.entities@[k].id == c && self.entities@[k].parent == Some(p)),
            decreases self.entities@.len() - j,
        {
            let e = self.entities[j].id;
            let ghost before = out@;
            if self.entities[j].parent == Some(p) && !vec_contains(&out, e) {
                out.push(e);
            }
            proof {
                broadcast use vstd::seq_lib::group_seq_properties;
                assert forall|c: u64| #[trigger] out@.contains(c) <==> (explicit.contains(c) || exists|k: int| 0 <= k
                    < j + 1 && #[trigger] self.entities@[k].id == c && self.entities@[k].parent == Some(p)) by {
                    if c == e && self.entities@[j as int].parent == Some(p) {
                        assert(self.entities@[j as int].id == c);
                    }
                    if before.contains(c) && !explicit.contains(c) {
                        let k = choose|k: int| 0 <= k < j && #[trigger] self.entities@[k].id == c
                            && self.entities@[k].parent == Some(p);
                        assert(0 <= k < j + 1);
                    }
                }
            }
            j = j + 1;
        }
        proof {
            assert forall|c: u64| #[trigger] out@.contains(c) <==> self.scene_child(p, c) by {
                if self.has(c) {
                    let k = choose|k: int| 0 <= k < self.entities@.len() && #[trigger] self.entities@[k].id == c;
                    self.lemma_record_at(k);
                }
                if out@.contains(c) && !explicit.contains(c) {
                    let k = choose|k: int| 0 <= k < j && #[trigger] self.entities@[k].id == c
                        && self.entities@[k].parent == Some(p);
                    self.lemma_record_at(k);
                }
            }
        }
        out
    }

    /// `root` followed by everything below it through scene links, each once, in
    /// breadth-first order.
    pub fn descendant_entities(&self, root: u64) -> (out: Vec<u64>)
        requires
            self.wf(),
        ensures
            out@.len() >= 1,
            out@[0] == root,
            out@.no_duplicates(),
            forall|x: u64| #[trigger] out@.contains(x) <==> self.in_subtree(root, x),
    {
        let ghost universe = seq![root] + mentioned_ids(self.entities@);
        let mut out: Vec<u64> = Vec::new();
        out.push(root);
        proof {
            broadcast use vstd::seq_lib::group_seq_properties;
            assert(universe[0] == root);
            assert(out@ == seq![root]);
        }
        let mut index: usize = 0;
        while index < out.len()
            invariant
                self.wf(),
                universe == seq![root] + mentioned_ids(self.entities@),
                index <= out@.len(),
                out@.len() >= 1,
                out@[0] == root,
                out@.no_duplicates(),
                forall|x: u64| #[trigger] out@.contains(x) ==> universe.contains(x),
                forall|x: u64| #[trigger] out@.contains(x) ==> self.in_subtree(root, x),
                forall|k: int, c: u64| 0 <= k < index && #[trigger] self.scene_child(out@[k], c) ==> out@.contains(c),
            decreases universe.len() - out@.len(), out@.len() - index,
        {
            proof {
                lemma_nodup_within_len(out@, universe);
            }
            let parent = out[index];
            let kids = self.scene_children_of(parent);
            let ghost start = out@;
            let mut i: usize = 0;
            while i < kids.len()
                invariant
                    self.wf(),
                    universe == seq![root] + mentioned_ids(self.entities@),
                    i <= kids@.len(),
                    index < start.len(),
                    parent == start[index as int],
                    forall|c: u64| #[trigger] kids@.contains(c) <==> self.scene_child(parent, c),
                    start.len() <= out@.len(),
                    forall|k: int| 0 <= k < start.len() ==> out@[k] == #[trigger] start[k],
                    out@[0] == root,
                    out@.no_duplicates(),
                    forall|x: u64| #[trigger] out@.contains(x) ==> universe.contains(x),
                    forall|x: u64| #[trigger] out@.contains(x) ==> self.in_subtree(root, x),
                    forall|x: u64| #[trigger] start.contains(x) ==> out@.contains(x),
                    forall|k: int| 0 <= k < i ==> out@.contains(#[trigger] kids@[k]),
                decreases kids@.len() - i,
            {
                let c = kids[i];
                let ghost before = out@;
                if !vec_contains(&out, c) {
                    out.push(c);
                }
                proof {
                    broadcast use vstd::seq_lib::group_seq_properties;
                    lemma_push_unique(before, c, out@);
                    assert(kids@.contains(c));
                    assert(self.scene_child(parent, c));
                    assert(start.contains(start[index as int]));
                    assert(before.contains(parent));
                    self.lemma_subtree_step(root, parent, c);
                    self.lemma_child_mentioned(parent, c);
                    assert(universe.contains(c)) by {
                        let m = mentioned_ids(self.entities@);
                        let w = choose|w: int| 0 <= w < m.len() && m[w] == c;
                        assert(universe[w + 1] == c);
                    }
                    assert forall|k: int| 0 <= k < start.len() implies out@[k] == #[trigger] start[k] by {
                        assert(before[k] == start[k]);
                    }
                }
                i = i + 1;
            }
            proof {
                lemma_nodup_within_len(out@, universe);
                assert forall|k: int, c: u64| 0 <= k < index + 1 && #[trigger] self.scene_child(out@[k], c)
                    implies out@.contains(c) by {
                    if k == index {
                        assert(out@[k] == parent);
                        assert(kids@.contains(c));
                        let w = choose|w: int| 0 <= w < kids@.len() && kids@[w] == c;
                        assert(out@.contains(kids@[w]));
                    } else {
                        assert(out@[k] == start[k]);
                        assert(self.scene_child(start[k], c));
                    }
                }
            }
            index = index + 1;
        }
        proof {
            assert forall|x: u64| #[trigger] self.in_subtree(root, x) implies out@.contains(x) by {
                if x != root {
                    let path = choose|path: Seq<u64>| #[trigger] self.is_link_path(root, path) && path.last() == x;
                    self.lemma_link_path_closed(root, path, out@, (path.len() - 1) as nat);
                }
                assert(out@[0] == root);
            }
        }
        out
    }

    pub proof fn lemma_subtree_step(&self, root: u64, p: u64, c: u64)
        requires
            self.in_subtree(root, p),
            self.scene_child(p, c),
        ensures
            self.in_subtree(root, c),
    {
        if p == root {
            assert(self.is_link_path(root, seq![c]));
            assert(seq![c].last() == c);
        } else {
            let path = choose|path: Seq<u64>| #[trigger] self.is_link_path(root, path) && path.last() == p;
            let np = path.push(c);
            assert forall|i: int| 0 <= i < np.len() - 1 implies #[trigger] self.scene_child(np[i], np[i + 1]) by {
                if i < path.len() - 1 {
                    assert(np[i] == path[i] && np[i + 1] == path[i + 1]);
                } else {
                    assert(np[i] == p);
                }
            }
            assert(self.is_link_path(root, np));
        }
    }

    proof fn lemma_child_mentioned(&self, p: u64, c: u64)
        requires
            self.wf(),
            self.scene_child(p, c),
        ensures
            mentioned_ids(self.entities@).contains(c),
    {
        if self.has(p) && self.record(p).children@.contains(c) {
            let k = choose|k: int| 0 <= k < self.entities@.len() && #[trigger] self.entities@[k].id == p;
            self.lemma_record_at(k);
            lemma_mentioned(self.entities@, k);
        } else {
            let k = choose|k: int| 0 <= k < self.entities@.len() && #[trigger] self.entities@[k].id == c;
            lemma_mentioned(self.entities@, k);
        }
    }

    proof fn lemma_link_path_closed(&self, root: u64, path: Seq<u64>, closed: Seq<u64>, k: nat)
        requires
            self.is_link_path(root, path),
            k < path.len(),
            closed.len() >= 1,
            closed[0] == root,
            forall|j: int, c: u64| 0 <= j < closed.len() && #[trigger] self.scene_child(closed[j], c)
                ==> closed.contains(c),
        ensures
            closed.contains(path[k as int]),
        decreases k,
    {
        if k == 0 {
            assert(self.scene_child(closed[0], path[0]));
        } else {
            self.lemma_link_path_closed(root, path, closed, (k - 1) as nat);
            let i = k - 1;
            assert(self.scene_child(path[i], path[i + 1]));
            let j = choose|j: int| 0 <= j < closed.len() && closed[j] == path[i];
            assert(self.scene_child(closed[j], path[i + 1]));
        }
    }

    /// `new` is what deleting the subtree of `root` leaves of the surviving record `old`:
    /// the same entity, its `Parent` cleared when it pointed into the subtree, and the
    /// subtree's members dropped from its `Children`.
    pub open spec fn cleaned_record(&self, root: u64, new: EntityRecord, old: EntityRecord) -> bool {
        &&& new.id == old.id
        &&& new.index == old.index
        &&& new.name == old.name
        &&& new.hidden == old.hidden
        &&& crate::graph::component_views(new.components@) == crate::graph::component_views(old.components@)
        &&& new.parent == (match old.parent {
            Some(q) => if self.in_subtree(root, q) { None } else { Some(q) },
            None => None,
        })
        &&& new.children@ == old.children@.filter(|c: u64| !self.in_subtree(root, c))
    }

    /// Deletes `root` and everything below it through scene links, and removes every
    /// `Parent` pointer and `Children` entry that referred to a deleted entity.
    pub fn destroy_entity(&mut self, root: u64)
        requires
            old(self).wf(),
        ensures
            final(self).wf(),
            forall|x: u64| #[trigger] final(self).has(x) <==> (old(self).has(x) && !old(self).in_subtree(root, x)),
            forall|x: u64| #[trigger] final(self).has(x) ==> old(self).cleaned_record(
                root,
                final(self).record(x),
                old(self).record(x),
            ),
            !final(self).has(root),
            forall|c: u64| #[trigger] old(self).scene_child(root, c) ==> !final(self).has(c),
            forall|x: u64| #[trigger] final(self).has(x) && final(self).record(x).parent is Some
                ==> !old(self).in_subtree(root, final(self).record(x).parent.unwrap()),
            forall|x: u64, c: u64| #[trigger] final(self).has(x) && #[trigger] final(self).record(x).children@.contains(c)
                ==> !old(self).in_subtree(root, c),
    {
        let doomed = self.descendant_entities(root);
        let ghost keep = |c: u64| !self.in_subtree(root, c);
        proof {
            assert((|c: u64| !doomed@.contains(c)) =~= keep);
        }
        let mut kept: Vec<EntityRecord> = Vec::new();
        let mut i: usize = 0;
        while i < self.entities.len()
            invariant
                self.wf(),
                i <= self.entities@.len(),
                keep == (|c: u64| !self.in_subtree(root, c)),
                (|c: u64| !doomed@.contains(c)) == keep,
                forall|x: u64| #[trigger] doomed@.contains(x) <==> self.in_subtree(root, x),
                forall|a: int, b: int| 0 <= a < b < kept@.len() ==> #[trigger] kept@[a].id != #[trigger] kept@[b].id,
                forall|j: int| 0 <= j < kept@.len() ==> exists|k: int| 0 <= k < i && #[trigger] self.entities@[k].id
                    == #[trigger] kept@[j].id,
                forall|j: int| 0 <= j < kept@.len() ==> #[trigger] self.has(kept@[j].id) && self.cleaned_record(
                    root,
                    kept@[j],
                    self.record(kept@[j].id),
                ),
                forall|j: int| 0 <= j < kept@.len() ==> !self.in_subtree(root, #[trigger] kept@[j].id),
                forall|k: int| 0 <= k < i && !self.in_subtree(root, #[trigger] self.entities@[k].id)
                    ==> exists|j: int| 0 <= j < kept@.len() && #[trigger] kept@[j].id == self.entities@[k].id,
            decreases self.entities@.len() - i,
        {
            let id = self.entities[i].id;
            proof {
                self.lemma_record_at(i as int);
            }
            if !vec_contains(&doomed, id) {
                let r = &self.entities[i];
                let children = filter_out(&r.children, &doomed);
                let parent = match r.parent {
                    Some(q) => if vec_contains(&doomed, q) {
                        None
                    } else {
                        Some(q)
                    },
                    None => None,
                };
                let name = match &r.name {
                    Some(n) => Some(n.clone()),
                    None => None,
                };
                let ghost before = kept@;
                kept.push(EntityRecord {
                    id,
                    index: r.index,
                    name,
                    parent,
                    children,
                    hidden: r.hidden,
                    components: crate::graph::copy_components(&r.components),
                });
                proof {
                    assert(kept@[before.len() as int].id == id);
                    assert forall|a: int, b: int| 0 <= a < b < kept@.len() implies #[trigger] kept@[a].id
                        != #[trigger] kept@[b].id by {
                        if b == before.len() {
                            assert(kept@[a] == before[a]);
                            let k = choose|k: int| 0 <= k < i && #[trigger] self.entities@[k].id == before[a].id;
                            assert(self.entities@[k].id != self.entities@[i as int].id);
                        }
                    }
                    assert forall|j: int| 0 <= j < kept@.len() implies exists|k: int| 0 <= k < i + 1
                        && #[trigger] self.entities@[k].id == #[trigger] kept@[j].id by {
                        if j < before.len() {
                            assert(kept@[j] == before[j]);
                            let k = choose|k: int| 0 <= k < i && #[trigger] self.entities@[k].id == before[j].id;
                            assert(self.entities@[k].id == kept@[j].id);
                        } else {
                            assert(self.entities@[i as int].id == kept@[j].id);
                        }
                    }
                    assert forall|j: int| 0 <= j < kept@.len() implies #[trigger] self.has(kept@[j].id)
                        && self.cleaned_record(root, kept@[j], self.record(kept@[j].id)) by {
                        if j < before.len() {
                            assert(kept@[j] == before[j]);
                        }
                    }
                    assert forall|j: int| 0 <= j < kept@.len() implies !self.in_subtree(root, #[trigger] kept@[j].id) by {
                        if j < before.len() {
                            assert(kept@[j] == before[j]);
                        }
                    }
                    assert forall|k: int| 0 <= k < i + 1 && !self.in_subtree(root, #[trigger] self.entities@[k].id)
                        implies exists|j: int| 0 <= j < kept@.len() && #[trigger] kept@[j].id == self.entities@[k].id by {
                        if k < i {
                            let j = choose|j: int| 0 <= j < before.len() && #[trigger] before[j].id == self.entities@[k].id;
                            assert(kept@[j] == before[j]);
                        } else {
                            assert(kept@[before.len() as int].id == self.entities@[k].id);
                        }
                    }
                }
            } else {
                proof {
                    assert forall|j: int| 0 <= j < kept@.len() implies exists|k: int| 0 <= k < i + 1
                        && #[trigger] self.entities@[k].id == #[trigger] kept@[j].id by {
                        let k = choose|k: int| 0 <= k < i && #[trigger] self.entities@[k].id == kept@[j].id;
                    }
                }
            }
            i = i + 1;
        }
        let ghost old_graph = *self;
        self.entities = kept;
        proof {
            assert forall|x: u64| #[trigger] self.has(x) <==> (old_graph.has(x) && !old_graph.in_subtree(root, x)) by {
                if self.has(x) {
                    let j = choose|j: int| 0 <= j < self.entities@.len() && #[trigger] self.entities@[j].id == x;
                    assert(old_graph.has(kept@[j].id));
                }
                if old_graph.has(x) && !old_graph.in_subtree(root, x) {
                    let k = choose|k: int| 0 <= k < old_graph.entities@.len() && #[trigger] old_graph.entities@[k].id == x;
                    let j = choose|j: int| 0 <= j < kept@.len() && #[trigger] kept@[j].id == old_graph.entities@[k].id;
                    assert(self.entities@[j].id == x);
                }
            }
            assert forall|x: u64| #[trigger] self.has(x) implies old_graph.cleaned_record(
                root,
                self.record(x),
                old_graph.record(x),
            ) by {
                let j = choose|j: int| 0 <= j < self.entities@.len() && #[trigger] self.entities@[j].id == x;
                self.lemma_record_at(j);
            }
            lemma_deletion_links(old_graph, *self, root);
        }
    }

    /// With unique ids, the record of the entity at position `k` is that position's record.
    pub proof fn lemma_record_at(&self, k: int)
        requires
            self.wf(),
            0 <= k < self.entities@.len(),
        ensures
            self.has(self.entities@[k].id),
            self.record(self.entities@[k].id) == self.entities@[k],
    {
        let e = self.entities@[k].id;
        assert(self.has(e));
        let j = choose|j: int| 0 <= j < self.entities@.len() && #[trigger] self.entities@[j].id == e;
        if j < k {
            assert(self.entities@[j].id != self.entities@[k].id);
        } else if k < j {
            assert(self.entities@[k].id != self.entities@[j].id);
        }
    }
}

/// What the deletion's record-by-record description implies about the links that remain.
proof fn lemma_deletion_links(before: SceneGraph, after: SceneGraph, root: u64)
    requires
        forall|x: u64| #[trigger] after.has(x) <==> (before.has(x) && !before.in_subtree(root, x)),
        forall|x: u64| #[trigger] after.has(x) ==> before.cleaned_record(root, after.record(x), before.record(x)),
    ensures
        !after.has(root),
        forall|c: u64| #[trigger] before.scene_child(root, c) ==> !after.has(c),
        forall|x: u64| #[trigger] after.has(x) && after.record(x).parent is Some
            ==> !before.in_subtree(root, after.record(x).parent.unwrap()),
        forall|x: u64, c: u64| #[trigger] after.has(x) && #[trigger] after.record(x).children@.contains(c)
            ==> !before.in_subtree(root, c),
{
    assert forall|c: u64| #[trigger] before.scene_child(root, c) implies !after.has(c) by {
        before.lemma_subtree_step(root, root, c);
    }
    assert forall|x: u64, c: u64| #[trigger] after.has(x) && #[trigger] after.record(x).children@.contains(c)
        implies !before.in_subtree(root, c) by {
        let old_children = before.record(x).children@;
        let pred = |c: u64| !before.in_subtree(root, c);
        assert(after.record(x).children@ == old_children.filter(pred));
        let w = choose|w: int| 0 <= w < after.record(x).children@.len() && after.record(x).children@[w] == c;
        old_children.lemma_filter_pred(pred, w);
    }
}

/// The entries of `list` that do not occur in `drop`, in order.
pub fn filter_out(list: &Vec<u64>, drop: &Vec<u64>) -> (out: Vec<u64>)
    ensures
        out@ == list@.filter(|c: u64| !drop@.contains(c)),
{
    let ghost pred = |c: u64| !drop@.contains(c);
    let mut out: Vec<u64> = Vec::new();
    let mut i: usize = 0;
    while i < list.len()
        invariant
            i <= list@.len(),
            pred == (|c: u64| !drop@.contains(c)),
            out@ == list@.take(i as int).filter(pred),
        decreases list@.len() - i,
    {
        let c = list[i];
        proof {
            assert(list@.take(i + 1) =~= list@.take(i as int).push(c));
            list@.take(i as int).lemma_filter_push(c, pred);
        }
        if !vec_contains(drop, c) {
            out.push(c);
        }
        i = i + 1;
    }
    proof {
        assert(list@.take(i as int) =~= list@);
    }
    out
}

impl SceneGraph {
    /// Whether saving entity `e` yields any component: it exists and has a name, a hierarchy
    /// link, a hiding marker or some other component.
    pub open spec fn has_saved_components(&self, e: u64) -> bool {
        self.has(e) && {
            let t = self.record(e);
            t.name is Some || t.parent is Some || t.children@.len() > 0 || t.hidden || t.components@.len() > 0
        }
    }

    /// Copies entity `template` onto a new entity `new_id` (with index `new_index`), leaving
    /// out its hierarchy links: the copy is a root with no children, named as the template
    /// (or `Entity` when the template has no name), hidden as the template is and carrying
    /// copies of its other components, types and values. Returns the copy's id, or `None` (changing nothing) when the
    /// template has no saved component at all: when it does not exist, or has no name, no
    /// hierarchy links, no hiding marker and no other component.
    pub fn clone_entity(&mut self, template: u64, new_id: u64, new_index: u64) -> (r: Option<u64>)
        requires
            old(self).wf(),
            !old(self).has(new_id),
        ensures
            final(self).wf(),
            !old(self).has_saved_components(template) ==> r is None && final(self).entities@ == old(self).entities@,
            old(self).has_saved_components(template) ==> {
                let t = old(self).record(template);
                let c = final(self).record(new_id);
                &&& r == Some(new_id)
                &&& final(self).entities@.len() == old(self).entities@.len() + 1
                &&& final(self).entities@.take(old(self).entities@.len() as int) == old(self).entities@
                &&& final(self).has(new_id)
                &&& c.id == new_id && c.index == new_index
                &&& c.name matches Some(n) && n@ == match t.name {
                    Some(tn) => tn@,
                    None => "Entity"@,
                }
                &&& c.parent is None && c.children@.len() == 0
                &&& c.hidden == t.hidden
                &&& crate::graph::component_views(c.components@) == crate::graph::component_views(t.components@)
                &&& forall|e: u64| #[trigger] final(self).has(e) <==> old(self).has(e) || e == new_id
            },
            forall|e: u64| #[trigger] old(self).has(e) ==> final(self).has(e) && final(self).record(e) == old(self).record(
                e,
            ),
    {
        let i = match self.index_of(template) {
            Some(i) => i,
            None => return None,
        };
        let t = &self.entities[i];
        if t.name.is_none() && t.parent.is_none() && t.children.len() == 0 && !t.hidden && t.components.len() == 0 {
            return None;
        }
        let components = crate::graph::copy_components(&t.components);
        let name = match &self.entities[i].name {
            Some(n) => n.clone(),
            None => crate::text::owned("Entity"),
        };
        let hidden = self.entities[i].hidden;
        let ghost before = *self;
        self.entities.push(EntityRecord {
            id: new_id,
            index: new_index,
            name: Some(name),
            parent: None,
            children: Vec::new(),
            hidden,
            components,
        });
        proof {
            let n = before.entities@.len() as int;
            assert(self.entities@.take(n) =~= before.entities@);
            assert forall|a: int, b: int| 0 <= a < b < self.entities@.len() implies #[trigger] self.entities@[a].id
                != #[trigger] self.entities@[b].id by {
                if b == n {
                    assert(before.entities@[a].id != new_id) by {
                        if before.entities@[a].id == new_id {
                            assert(before.has(new_id));
                        }
                    }
                } else {
                    assert(before.entities@[a].id != before.entities@[b].id);
                }
            }
            self.lemma_record_at(n);
            assert forall|e: u64| #[trigger] self.has(e) implies before.has(e) || e == new_id by {
                let k = choose|k: int| 0 <= k < self.entities@.len() && #[trigger] self.entities@[k].id == e;
                if k < n {
                    assert(before.entities@[k].id == e);
                }
            }
            assert forall|e: u64| #[trigger] before.has(e) implies self.has(e) && self.record(e) == before.record(e) by {
                let k = choose|k: int| 0 <= k < before.entities@.len() && #[trigger] before.entities@[k].id == e;
                before.lemma_record_at(k);
                assert(self.entities@[k] == before.entities@[k]);
                self.lemma_record_at(k);
            }
        }
        Some(new_id)
    }
}

/// Copying an entity changes no hierarchy link among the entities that were there, and the
/// copy is a root without children, provided no existing entity already refers to the new
/// id.
pub proof fn law_clone_keeps_hierarchy(before: SceneGraph, after: SceneGraph, new_id: u64)
    requires
        before.wf(),
        !before.has(new_id),
        forall|k: int| 0 <= k < before.entities@.len() ==> !(#[trigger] before.entities@[k]).children@.contains(new_id)
            && before.entities@[k].parent != Some(new_id),
        after.has(new_id),
        after.record(new_id).parent is None,
        after.record(new_id).children@.len() == 0,
        forall|e: u64| #[trigger] after.has(e) <==> before.has(e) || e == new_id,
        forall|e: u64| #[trigger] before.has(e) ==> after.record(e) == before.record(e),
    ensures
        forall|p: u64, c: u64| before.has(p) && before.has(c) ==> (#[trigger] after.is_child(p, c) <==> before.is_child(p, c)),
        forall|p: u64| !(#[trigger] after.is_child(p, new_id)),
        forall|c: u64| !(#[trigger] after.is_child(new_id, c)),
{
    assert forall|e: u64| #[trigger] before.has(e) implies before.record(e).parent != Some(new_id)
        && !before.record(e).children@.contains(new_id) by {
        let k = choose|k: int| 0 <= k < before.entities@.len() && #[trigger] before.entities@[k].id == e;
        before.lemma_record_at(k);
    }
    assert forall|p: u64, c: u64| before.has(p) && before.has(c) implies (#[trigger] after.is_child(p, c)
        <==> before.is_child(p, c)) by {
        assert(after.record(c) == before.record(c));
        assert(after.record(p) == before.record(p));
        if before.record(c).parent is Some {
            let q = before.record(c).parent.unwrap();
            assert(q != new_id);
            assert(after.has(q) == before.has(q));
        }
    }
    assert forall|p: u64| !(#[trigger] after.is_child(p, new_id)) by {
        if after.has(p) && p != new_id {
            assert(before.has(p));
            assert(after.record(p) == before.record(p));
        }
    }
    assert forall|c: u64| !(#[trigger] after.is_child(new_id, c)) by {
        if after.has(c) && c != new_id {
            assert(before.has(c));
            assert(after.record(c) == before.record(c));
        }
    }
}

} // verus!
