//! Editing the hierarchy: adding and removing `Children` entries, attaching an entity
//! to a parent, detaching it, and the checks that a drag-and-drop reparent goes through.
use vstd::prelude::*;
use crate::graph::{EntityRecord, SceneGraph, vec_contains};
use crate::subtree::filter_out;

verus! {

/// Why a reparent request was refused.
#[derive(Debug, Clone, Copy, PartialEq, Eq, Structural)]
pub enum ReparentError {
    /// The entity to move does not exist.
    MissingChild,
    /// The requested parent does not exist.
    MissingParent,
    /// An entity cannot be its own parent.
    ParentIsSelf,
    /// The requested parent lies below the entity in the hierarchy.
    ParentIsDescendant,
}

/// `a` and `b` hold the same entity data, link lists compared by content.
pub open spec fn same_record(a: EntityRecord, b: EntityRecord) -> bool {
    &&& a.id == b.id
    &&& a.index == b.index
    &&& a.name == b.name
    &&& a.parent == b.parent
    &&& a.children@ == b.children@
    &&& a.hidden == b.hidden
    &&& crate::graph::component_views(a.components@) == crate::graph::component_views(b.components@)
}

/// `r` is `old` with only its `Parent` and `Children` replaced.
pub open spec fn relinked(r: EntityRecord, old: EntityRecord, parent: Option<u64>, children: Seq<u64>) -> bool {
    &&& r.id == old.id
    &&& r.index == old.index
    &&& r.name == old.name
    &&& r.hidden == old.hidden
    &&& crate::graph::component_views(r.components@) == crate::graph::component_views(old.components@)
    &&& r.parent == parent
    &&& r.children@ == children
}

/// `after` has the same entities as `before`, and every entity other than `a` and `b`
/// keeps its record.
pub open spec fn unchanged_except(before: SceneGraph, after: SceneGraph, a: u64, b: u64) -> bool {
    &&& forall|x: u64| #[trigger] after.has(x) <==> before.has(x)
    &&& forall|x: u64| #[trigger] after.has(x) && x != a && x != b ==> same_record(after.record(x), before.record(x))
}

/// `list` with `c` appended unless it is already there.
pub open spec fn with_child(list: Seq<u64>, c: u64) -> Seq<u64> {
    if list.contains(c) {
        list
    } else {
        list.push(c)
    }
}

/// Whether an id differs from `c`.
pub open spec fn other_than(c: u64) -> spec_fn(u64) -> bool {
    |x: u64| x != c
}

/// `list` without any occurrence of `c`.
pub open spec fn without_child(list: Seq<u64>, c: u64) -> Seq<u64> {
    list.filter(other_than(c))
}

/// `after` is `before` with `child` moved under `parent` (`None`: to the top level): the
/// entities stay the same; `child` gets the new `Parent`; its old parent's `Children` loses
/// it and the new parent's `Children` gains it; every other record is kept.
pub open spec fn reparented(before: SceneGraph, after: SceneGraph, child: u64, parent: Option<u64>) -> bool {
    let q = before.record(child).parent;
    &&& forall|x: u64| #[trigger] after.has(x) <==> before.has(x)
    &&& forall|x: u64| #[trigger] after.has(x) && x != child && Some(x) != q && Some(x) != parent
        ==> same_record(after.record(x), before.record(x))
    &&& relinked(
        after.record(child),
        before.record(child),
        parent,
        if q == Some(child) {
            without_child(before.record(child).children@, child)
        } else {
            before.record(child).children@
        },
    )
    &&& q is Some && q != Some(child) && before.has(q.unwrap()) ==> relinked(
        after.record(q.unwrap()),
        before.record(q.unwrap()),
        before.record(q.unwrap()).parent,
        without_child(before.record(q.unwrap()).children@, child),
    )
    &&& parent is Some ==> relinked(
        after.record(parent.unwrap()),
        before.record(parent.unwrap()),
        before.record(parent.unwrap()).parent,
        with_child(before.record(parent.unwrap()).children@, child),
    )
    &&& after.parent_of_spec(child) == parent
}

/// A record with the same data as `r` but the given links.
fn relink(r: &EntityRecord, parent: Option<u64>, children: Vec<u64>) -> (out: EntityRecord)
    ensures
        relinked(out, *r, parent, children@),
{
    let name = match &r.name {
        Some(n) => Some(n.clone()),
        None => None,
    };
    EntityRecord {
        id: r.id,
        index: r.index,
        name,
        parent,
        children,
        hidden: r.hidden,
        components: crate::graph::copy_components(&r.components),
    }
}

/// A copy of `list`.
pub(crate) fn copy_ids(list: &Vec<u64>) -> (out: Vec<u64>)
    ensures
        out@ == list@,
{
    let mut out: Vec<u64> = Vec::new();
    let mut i: usize = 0;
    while i < list.len()
        invariant
            i <= list@.len(),
            out@ == list@.take(i as int),
        decreases list@.len() - i,
    {
        out.push(list[i]);
        assert(list@.take(i + 1) =~= list@.take(i as int).push(list@[i as int]));
        i = i + 1;
    }
    assert(list@.take(i as int) =~= list@);
    out
}

impl SceneGraph {
    /// Puts `r` in place of the record at position `i`, which has the same id.
    pub(crate) fn replace_at(&mut self, i: usize, r: EntityRecord)
        requires
            old(self).wf(),
            i < old(self).entities@.len(),
            r.id == old(self).entities@[i as int].id,
        ensures
            final(self).wf(),
            final(self).entities@ == old(self).entities@.update(i as int, r),
            forall|x: u64| #[trigger] final(self).has(x) <==> old(self).has(x),
            final(self).record(r.id) == r,
            forall|x: u64| #[trigger] final(self).has(x) && x != r.id ==> final(self).record(x) == old(self).record(x),
    {
        let ghost before = *self;
        self.entities.set(i, r);
        proof {
            assert forall|a: int, b: int| 0 <= a < b < self.entities@.len() implies #[trigger] self.entities@[a].id
                != #[trigger] self.entities@[b].id by {
                assert(before.entities@[a].id != before.entities@[b].id);
            }
            assert forall|x: u64| #[trigger] self.has(x) <==> before.has(x) by {
                if self.has(x) {
                    let k = choose|k: int| 0 <= k < self.entities@.len() && #[trigger] self.entities@[k].id == x;
                    assert(before.entities@[k].id == x);
                }
                if before.has(x) {
                    let k = choose|k: int| 0 <= k < before.entities@.len() && #[trigger] before.entities@[k].id == x;
                    assert(self.entities@[k].id == x);
                }
            }
            self.lemma_record_at(i as int);
            assert forall|x: u64| #[trigger] self.has(x) && x != r.id implies self.record(x) == before.record(x) by {
                let k = choose|k: int| 0 <= k < self.entities@.len() && #[trigger] self.entities@[k].id == x;
                self.lemma_record_at(k);
                before.lemma_record_at(k);
            }
        }
    }

    /// Lists `child` in `parent`'s `Children`, unless it is already there.
    pub fn add_child_reference(&mut self, parent: u64, child: u64)
        requires
            old(self).wf(),
        ensures
            final(self).wf(),
            unchanged_except(*old(self), *final(self), parent, parent),
            old(self).has(parent) ==> relinked(
                final(self).record(parent),
                old(self).record(parent),
                old(self).record(parent).parent,
                with_child(old(self).record(parent).children@, child),
            ),
    {
        match self.index_of(parent) {
            Some(i) => {
                let r = &self.entities[i];
                let mut children = copy_ids(&r.children);
                if !vec_contains(&children, child) {
                    children.push(child);
                }
                let updated = relink(r, r.parent, children);
                self.replace_at(i, updated);
            },
            None => {},
        }
    }

    /// Drops `child` from `parent`'s `Children`.
    pub fn remove_child_reference(&mut self, parent: u64, child: u64)
        requires
            old(self).wf(),
        ensures
            final(self).wf(),
            unchanged_except(*old(self), *final(self), parent, parent),
            old(self).has(parent) ==> relinked(
                final(self).record(parent),
                old(self).record(parent),
                old(self).record(parent).parent,
                without_child(old(self).record(parent).children@, child),
            ),
    {
        match self.index_of(parent) {
            Some(i) => {
                let r = &self.entities[i];
                let drop = vec![child];
                let children = filter_out(&r.children, &drop);
                proof {
                    assert((|c: u64| !drop@.contains(c)) =~= other_than(child));
                }
                let updated = relink(r, r.parent, children);
                self.replace_at(i, updated);
            },
            None => {},
        }
    }

    /// Gives `child` the `Parent` `parent` and lists it in `parent`'s `Children`.
    pub fn attach_to_parent(&mut self, child: u64, parent: u64)
        requires
            old(self).wf(),
        ensures
            final(self).wf(),
            unchanged_except(*old(self), *final(self), child, parent),
            old(self).has(child) && child != parent ==> relinked(
                final(self).record(child),
                old(self).record(child),
                Some(parent),
                old(self).record(child).children@,
            ),
            old(self).has(parent) && child != parent ==> relinked(
                final(self).record(parent),
                old(self).record(parent),
                old(self).record(parent).parent,
                with_child(old(self).record(parent).children@, child),
            ),
    {
        match self.index_of(child) {
            Some(i) => {
                let r = &self.entities[i];
                let children = copy_ids(&r.children);
                let updated = relink(r, Some(parent), children);
                self.replace_at(i, updated);
            },
            None => {},
        }
        let ghost mid = *self;
        self.add_child_reference(parent, child);
        proof {
            assert(self.has(child) == mid.has(child));
            assert(self.has(parent) == mid.has(parent));
        }
    }

    /// What a request to move `child` under `parent` (`None`: to the top level) comes to:
    /// refused, accepted with nothing to change, or accepted with a change.
    pub open spec fn reparent_outcome(&self, child: u64, parent: Option<u64>) -> Result<bool, ReparentError> {
        if !self.has(child) {
            Err(ReparentError::MissingChild)
        } else if parent is Some && !self.has(parent.unwrap()) {
            Err(ReparentError::MissingParent)
        } else if parent == Some(child) {
            Err(ReparentError::ParentIsSelf)
        } else if parent is Some && self.is_descendant_spec(parent.unwrap(), child) {
            Err(ReparentError::ParentIsDescendant)
        } else if self.parent_of_spec(child) == parent {
            Ok(false)
        } else {
            Ok(true)
        }
    }

    /// Checks a request to move `child` under `parent` (`None`: to the top level) and, when
    /// it changes anything, detaches `child` from its current parent and attaches it to the
    /// new one. Returns whether the graph changed.
    pub fn set_parent(&mut self, child: u64, parent: Option<u64>) -> (r: Result<bool, ReparentError>)
        requires
            old(self).wf(),
        ensures
            final(self).wf(),
            r == old(self).reparent_outcome(child, parent),
            r != Ok::<bool, ReparentError>(true) ==> *final(self) == *old(self),
            r == Ok::<bool, ReparentError>(true) ==> reparented(*old(self), *final(self), child, parent),
    {
        if !self.entity_exists(child) {
            return Err(ReparentError::MissingChild);
        }
        match parent {
            Some(p) => {
                if !self.entity_exists(p) {
                    return Err(ReparentError::MissingParent);
                }
                if child == p {
                    return Err(ReparentError::ParentIsSelf);
                }
                if self.is_descendant(p, child) {
                    return Err(ReparentError::ParentIsDescendant);
                }
            },
            None => {},
        }
        if self.parent_of(child) == parent {
            return Ok(false);
        }
        let ghost before = *self;
        self.detach_from_parent(child);
        let ghost mid = *self;
        match parent {
            Some(p) => {
                self.attach_to_parent(child, p);
            },
            None => {},
        }
        proof {
            let q = before.record(child).parent;
            assert(mid.has(child));
            assert(self.has(child));
            if q is Some {
                assert(mid.has(q.unwrap()) == before.has(q.unwrap()));
                assert(self.has(q.unwrap()) == mid.has(q.unwrap()));
                if before.has(q.unwrap()) {
                    assert(Some(q.unwrap()) != parent);
                }
            }
            if parent is Some {
                assert(mid.has(parent.unwrap()));
                if q is Some && q != Some(child) {
                    assert(q != parent);
                }
            }
        }
        Ok(true)
    }

    /// Clears `child`'s `Parent` and drops it from that parent's `Children`.
    pub fn detach_from_parent(&mut self, child: u64)
        requires
            old(self).wf(),
        ensures
            final(self).wf(),
            !old(self).has(child) || old(self).record(child).parent is None ==> unchanged_except(
                *old(self),
                *final(self),
                child,
                child,
            ) && (old(self).has(child) ==> same_record(final(self).record(child), old(self).record(child))),
            old(self).has(child) && old(self).record(child).parent is Some ==> {
                let q = old(self).record(child).parent.unwrap();
                &&& unchanged_except(*old(self), *final(self), child, q)
                &&& q != child ==> relinked(
                    final(self).record(child),
                    old(self).record(child),
                    None,
                    old(self).record(child).children@,
                )
                &&& q == child ==> relinked(
                    final(self).record(child),
                    old(self).record(child),
                    None,
                    without_child(old(self).record(child).children@, child),
                )
                &&& old(self).has(q) && q != child ==> relinked(
                    final(self).record(q),
                    old(self).record(q),
                    old(self).record(q).parent,
                    without_child(old(self).record(q).children@, child),
                )
            },
    {
        match self.index_of(child) {
            Some(i) => {
                let r = &self.entities[i];
                match r.parent {
                    Some(q) => {
                        let children = copy_ids(&r.children);
                        let updated = relink(r, None, children);
                        self.replace_at(i, updated);
                        let ghost mid = *self;
                        self.remove_child_reference(q, child);
                        proof {
                            assert(self.has(child) == mid.has(child));
                            assert(self.has(q) == mid.has(q));
                            assert(mid.has(child));
                        }
                    },
                    None => {},
                }
            },
            None => {},
        }
    }
}

/// No entity lies below itself in the hierarchy.
pub open spec fn hierarchy_acyclic(g: SceneGraph) -> bool {
    forall|e: u64| !#[trigger] g.is_descendant_spec(e, e)
}

/// `b` is `a` or lies below it.
pub open spec fn reaches(g: SceneGraph, a: u64, b: u64) -> bool {
    a == b || g.is_descendant_spec(b, a)
}

proof fn lemma_without_child_contains(list: Seq<u64>, c: u64, y: u64)
    ensures
        without_child(list, c).contains(y) <==> (list.contains(y) && y != c),
{
    let f = list.filter(other_than(c));
    if f.contains(y) {
        list.lemma_filter_contains_rev(other_than(c), y);
        let i = choose|i: int| 0 <= i < f.len() && f[i] == y;
        list.lemma_filter_pred(other_than(c), i);
    }
    if list.contains(y) && y != c {
        let i = choose|i: int| 0 <= i < list.len() && list[i] == y;
        list.lemma_filter_contains(other_than(c), i);
    }
}

proof fn lemma_with_child_contains(list: Seq<u64>, c: u64, y: u64)
    ensures
        with_child(list, c).contains(y) <==> (list.contains(y) || y == c),
{
    if !list.contains(c) {
        let l = list.push(c);
        assert(l[list.len() as int] == c);
        if list.contains(y) {
            let i = choose|i: int| 0 <= i < list.len() && list[i] == y;
            assert(l[i] == y);
        }
        if l.contains(y) && y != c {
            let i = choose|i: int| 0 <= i < l.len() && l[i] == y;
            assert(i < list.len());
            assert(list[i] == y);
        }
    }
}

/// After a reparent, every parent/child step of the hierarchy was one before, or is the new
/// step from `parent` to `child`.
proof fn lemma_reparent_steps(before: SceneGraph, after: SceneGraph, child: u64, parent: Option<u64>, x: u64, y: u64)
    requires
        before.reparent_outcome(child, parent) == Ok::<bool, ReparentError>(true),
        reparented(before, after, child, parent),
        after.is_child(x, y),
    ensures
        before.is_child(x, y) || (parent == Some(x) && y == child),
{
    let q = before.record(child).parent;
    assert(after.has(y) == before.has(y));
    assert(after.has(x) == before.has(x));
    // The entity records that change keep their `hidden` flag and their `Parent` (but for `child`).
    assert(after.record(y).hidden == before.record(y).hidden) by {
        if y != child && Some(y) != q && Some(y) != parent {
        }
    }
    if y != child {
        assert(after.record(y).parent == before.record(y).parent) by {
            if Some(y) != q && Some(y) != parent {
            }
        }
        assert(after.parent_of_spec(y) == before.parent_of_spec(y)) by {
            if after.record(y).parent is Some {
                assert(after.has(after.record(y).parent.unwrap()) == before.has(before.record(y).parent.unwrap()));
            }
        }
        if after.has(x) && after.record(x).children@.contains(y) {
            if x == child {
                if q == Some(child) {
                    lemma_without_child_contains(before.record(child).children@, child, y);
                }
            } else if Some(x) == q && before.has(x) {
                lemma_without_child_contains(before.record(x).children@, child, y);
            } else if Some(x) == parent {
                lemma_with_child_contains(before.record(x).children@, child, y);
            } else {
            }
        }
    } else {
        if after.parent_of_spec(child) == Some(x) {
        } else {
            assert(after.has(x) && after.record(x).children@.contains(child));
            if Some(x) == parent {
            } else if x == child {
                if q == Some(child) {
                    lemma_without_child_contains(before.record(child).children@, child, child);
                }
            } else if Some(x) == q && before.has(x) {
                lemma_without_child_contains(before.record(x).children@, child, child);
            } else {
            }
        }
    }
}

proof fn lemma_path_push(g: SceneGraph, a: u64, path: Seq<u64>, b: u64)
    requires
        g.is_path(a, path),
        g.is_child(path.last(), b),
    ensures
        g.is_path(a, path.push(b)),
{
    let p = path.push(b);
    assert forall|i: int| 0 <= i < p.len() - 1 implies #[trigger] g.is_child(p[i], p[i + 1]) by {
        if i < path.len() - 1 {
            assert(p[i] == path[i] && p[i + 1] == path[i + 1]);
            assert(g.is_child(path[i], path[i + 1]));
        } else {
            assert(p[i] == path.last() && p[i + 1] == b);
        }
    }
}

proof fn lemma_reaches_step(g: SceneGraph, a: u64, b: u64, c: u64)
    requires
        reaches(g, a, b),
        g.is_child(b, c),
    ensures
        g.is_descendant_spec(c, a),
{
    if a == b {
        assert(g.is_path(a, seq![c]));
    } else {
        let path = choose|path: Seq<u64>| #[trigger] g.is_path(a, path) && path.last() == b;
        lemma_path_push(g, a, path, c);
        assert(g.is_path(a, path.push(c)));
    }
}

proof fn lemma_reaches_trans(g: SceneGraph, a: u64, b: u64, c: u64, path: Seq<u64>)
    requires
        reaches(g, a, b),
        g.is_path(b, path),
        path.last() == c,
    ensures
        g.is_descendant_spec(c, a),
    decreases path.len(),
{
    if path.len() == 1 {
        lemma_reaches_step(g, a, b, c);
    } else {
        let init = path.drop_last();
        assert(g.is_path(b, init)) by {
            assert forall|i: int| 0 <= i < init.len() - 1 implies #[trigger] g.is_child(init[i], init[i + 1]) by {
                assert(g.is_child(path[i], path[i + 1]));
            }
        }
        lemma_reaches_trans(g, a, b, init.last(), init);
        let k = path.len() - 2;
        assert(g.is_child(path[k], path[k + 1]));
        assert(path[k] == init.last() && path[k + 1] == c);
        lemma_reaches_step(g, a, init.last(), c);
    }
}

/// A downward path of the reparented hierarchy was a path before, or it passes through the
/// new step from `parent` to `child`.
proof fn lemma_reparent_paths(
    before: SceneGraph,
    after: SceneGraph,
    child: u64,
    parent: Option<u64>,
    a: u64,
    path: Seq<u64>,
)
    requires
        before.reparent_outcome(child, parent) == Ok::<bool, ReparentError>(true),
        reparented(before, after, child, parent),
        after.is_path(a, path),
    ensures
        before.is_descendant_spec(path.last(), a) || (parent is Some && reaches(before, a, parent.unwrap())
            && reaches(before, child, path.last())),
    decreases path.len(),
{
    if path.len() == 1 {
        lemma_reparent_steps(before, after, child, parent, a, path[0]);
        if before.is_child(a, path[0]) {
            assert(before.is_path(a, seq![path[0]]));
        }
    } else {
        let init = path.drop_last();
        assert(after.is_path(a, init)) by {
            assert forall|i: int| 0 <= i < init.len() - 1 implies #[trigger] after.is_child(init[i], init[i + 1]) by {
                assert(after.is_child(path[i], path[i + 1]));
            }
        }
        lemma_reparent_paths(before, after, child, parent, a, init);
        let b = init.last();
        let c = path.last();
        let k = path.len() - 2;
        assert(after.is_child(path[k], path[k + 1]));
        assert(path[k] == b && path[k + 1] == c);
        lemma_reparent_steps(before, after, child, parent, b, c);
        if before.is_child(b, c) {
            if before.is_descendant_spec(b, a) {
                lemma_reaches_step(before, a, b, c);
            } else {
                lemma_reaches_step(before, child, b, c);
            }
        }
    }
}

/// Moving an entity under a new parent never makes an entity lie below itself: the check
/// that refuses a parent below the entity keeps the hierarchy free of cycles.
pub proof fn law_reparent_keeps_hierarchy_acyclic(before: SceneGraph, after: SceneGraph, child: u64, parent: Option<u64>)
    requires
        hierarchy_acyclic(before),
        before.reparent_outcome(child, parent) == Ok::<bool, ReparentError>(true),
        reparented(before, after, child, parent),
    ensures
        hierarchy_acyclic(after),
{
    assert forall|e: u64| !#[trigger] after.is_descendant_spec(e, e) by {
        if after.is_descendant_spec(e, e) {
            let path = choose|path: Seq<u64>| #[trigger] after.is_path(e, path) && path.last() == e;
            lemma_reparent_paths(before, after, child, parent, e, path);
            if !before.is_descendant_spec(e, e) {
                let p = parent.unwrap();
                if child != e {
                    let back = choose|back: Seq<u64>| #[trigger] before.is_path(child, back) && back.last() == e;
                    if e != p {
                        let fwd = choose|fwd: Seq<u64>| #[trigger] before.is_path(e, fwd) && fwd.last() == p;
                        lemma_reaches_trans(before, child, e, p, fwd);
                    }
                } else if e != p {
                    let fwd = choose|fwd: Seq<u64>| #[trigger] before.is_path(e, fwd) && fwd.last() == p;
                    assert(before.is_descendant_spec(p, child));
                }
            }
        }
    }
}

} // verus!
