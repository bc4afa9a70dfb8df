//! The parent/child structure of a scene's entities: queries used by the hierarchy panel,
//! the descendant walk, and entity deletion with link clean-up.
use vstd::prelude::*;

verus! {

/// What the hierarchy needs to know of one entity.
#[derive(Debug, Clone)]
pub struct EntityRecord {
    /// The entity handle.
    pub id: u64,
    /// The entity's index, shown in its default label.
    pub index: u64,
    /// The entity's name component, if any.
    pub name: Option<String>,
    /// The target of the entity's `Parent` component, if any.
    pub parent: Option<u64>,
    /// The ids listed by the entity's `Children` component (empty when it has none).
    pub children: Vec<u64>,
    /// Whether the entity carries physics settings or is editor-only (hidden from the tree).
    pub hidden: bool,
    /// The entity's saved components other than its name, its hierarchy links and the
    /// markers that hide it (a transform, a sprite, ...), as type and serialized value.
    pub components: Vec<SavedComponent>,
}

/// One saved component: its registered type and its serialized value.
#[derive(Debug, Clone)]
pub struct SavedComponent {
    pub kind: String,
    pub value: String,
}

/// The components' types and values.
pub open spec fn component_views(s: Seq<SavedComponent>) -> Seq<(Seq<char>, Seq<char>)> {
    s.map_values(|c: SavedComponent| (c.kind@, c.value@))
}

/// A copy of `v`.
pub fn copy_components(v: &Vec<SavedComponent>) -> (out: Vec<SavedComponent>)
    ensures
        component_views(out@) == component_views(v@),
{
    let mut out: Vec<SavedComponent> = Vec::new();
    let mut i: usize = 0;
    while i < v.len()
        invariant
            i <= v@.len(),
            component_views(out@) == component_views(v@.take(i as int)),
        decreases v@.len() - i,
    {
        let c = SavedComponent {
            kind: crate::text::owned(v[i].kind.as_str()),
            value: crate::text::owned(v[i].value.as_str()),
        };
        let ghost before = out@;
        let ghost cv = (v@[i as int].kind@, v@[i as int].value@);
        out.push(c);
        assert(v@.take(i + 1) =~= v@.take(i as int).push(v@[i as int]));
        assert(component_views(v@.take(i as int).push(v@[i as int])) =~= component_views(v@.take(i as int)).push(cv));
        assert(component_views(out@) =~= component_views(before).push(cv));
        i = i + 1;
    }
    assert(v@.take(v@.len() as int) =~= v@);
    out
}

/// The entities of a scene; ids are unique.
#[derive(Debug, Clone)]
pub struct SceneGraph {
    pub entities: Vec<EntityRecord>,
}

pub open spec fn ids(s: Seq<EntityRecord>) -> Seq<u64> {
    s.map_values(|r: EntityRecord| r.id)
}

impl SceneGraph {
    /// Entity ids are unique.
    pub open spec fn wf(&self) -> bool {
        forall|i: int, j: int| 0 <= i < j < self.entities@.len() ==> #[trigger] self.entities@[i].id
            != #[trigger] self.entities@[j].id
    }

    pub open spec fn has(&self, e: u64) -> bool {
        exists|i: int| 0 <= i < self.entities@.len() && #[trigger] self.entities@[i].id == e
    }

    /// The record of entity `e` (meaningful when `has(e)`).
    pub open spec fn record(&self, e: u64) -> EntityRecord {
        self.entities@[choose|i: int| 0 <= i < self.entities@.len() && #[trigger] self.entities@[i].id == e]
    }

    /// Shown in the hierarchy: not hidden (a missing entity counts as shown).
    pub open spec fn visible(&self, e: u64) -> bool {
        !(self.has(e) && self.record(e).hidden)
    }

    /// The entity's parent, when its `Parent` target exists.
    pub open spec fn parent_of_spec(&self, e: u64) -> Option<u64> {
        if self.has(e) && self.record(e).parent is Some && self.has(self.record(e).parent.unwrap()) {
            self.record(e).parent
        } else {
            None
        }
    }

    /// `c` is a child of `p` in the hierarchy panel: an existing, visible entity listed by
    /// `p`'s `Children` or whose `Parent` is `p`.
    pub open spec fn is_child(&self, p: u64, c: u64) -> bool {
        &&& self.has(c)
        &&& self.visible(c)
        &&& (self.has(p) && self.record(p).children@.contains(c)) || self.parent_of_spec(c) == Some(p)
    }

    /// `path` leads from `a` down through children, one step per element.
    pub open spec fn is_path(&self, a: u64, path: Seq<u64>) -> bool {
        &&& path.len() >= 1
        &&& self.is_child(a, path[0])
        &&& forall|i: int| 0 <= i < path.len() - 1 ==> #[trigger] self.is_child(path[i], path[i + 1])
    }

    /// `e` lies below `a` in the hierarchy.
    pub open spec fn is_descendant_spec(&self, e: u64, a: u64) -> bool {
        exists|path: Seq<u64>| #[trigger] self.is_path(a, path) && path.last() == e
    }

    /// The index of entity `e`.
    pub fn index_of(&self, e: u64) -> (r: Option<usize>)
        requires
            self.wf(),
        ensures
            match r {
                Some(i) => i < self.entities@.len() && self.entities@[i as int].id == e && self.has(e)
                    && self.record(e) == self.entities@[i as int],
                None => !self.has(e),
            },
    {
        let mut i: usize = 0;
        while i < self.entities.len()
            invariant
                self.wf(),
                i <= self.entities@.len(),
                forall|k: int| 0 <= k < i ==> self.entities@[k].id != e,
            decreases self.entities@.len() - i,
        {
            if self.entities[i].id == e {
                proof {
                    assert(self.has(e));
                    let k = choose|k: int| 0 <= k < self.entities@.len() && #[trigger] self.entities@[k].id == e;
                    if k != i {
                        if k < i {
                            assert(self.entities@[k].id != self.entities@[i as int].id);
                        } else {
                            assert(self.entities@[i as int].id != self.entities@[k].id);
                        }
                    }
                }
                return Some(i);
            }
            i = i + 1;
        }
        None
    }

    pub fn entity_exists(&self, e: u64) -> (b: bool)
        requires
            self.wf(),
        ensures
            b == self.has(e),
    {
        self.index_of(e).is_some()
    }

    /// Whether `e` is shown in the hierarchy.
    pub fn hierarchy_visible(&self, e: u64) -> (b: bool)
        requires
            self.wf(),
        ensures
            b == self.visible(e),
    {
        match self.index_of(e) {
            Some(i) => !self.entities[i].hidden,
            None => true,
        }
    }

    /// The entity's parent, when its `Parent` target exists.
    pub fn parent_of(&self, e: u64) -> (r: Option<u64>)
        requires
            self.wf(),
        ensures
            r == self.parent_of_spec(e),
    {
        match self.index_of(e) {
            Some(i) => match self.entities[i].parent {
                Some(p) => {
                    if self.entity_exists(p) {
                        Some(p)
                    } else {
                        None
                    }
                },
                None => None,
            },
            None => None,
        }
    }

    /// The hierarchy children of `p`, each once, in discovery order: `p`'s `Children`
    /// entries first, then entities whose `Parent` is `p`.
    pub fn collect_children(&self, p: u64) -> (out: Vec<u64>)
        requires
            self.wf(),
        ensures
            out@.no_duplicates(),
            forall|c: u64| #[trigger] out@.contains(c) <==> self.is_child(p, c),
    {
        let mut out: Vec<u64> = Vec::new();
        match self.index_of(p) {
            Some(pi) => {
                let list = &self.entities[pi].children;
                let mut i: usize = 0;
                while i < list.len()
                    invariant
                        self.wf(),
                        pi < self.entities@.len(),
                        self.record(p) == self.entities@[pi as int],
                        self.has(p),
                        *list == self.entities@[pi as int].children,
                        i <= list@.len(),
                        out@.no_duplicates(),
                        forall|c: u64| #[trigger] out@.contains(c) <==> (self.has(c) && self.visible(c)
                            && list@.take(i as int).contains(c)),
                    decreases list@.len() - i,
                {
                    let c = list[i];
                    let ghost before = out@;
                    let ok = self.entity_exists(c) && self.hierarchy_visible(c);
                    if ok && !vec_contains(&out, c) {
                        out.push(c);
                    }
                    proof {
                        broadcast use vstd::seq_lib::group_seq_properties;
                        assert(list@.take(i + 1) =~= list@.take(i as int).push(c));
                        lemma_push_unique(before, c, out@);
                    }
                    i = i + 1;
                }
                proof {
                    assert(list@.take(i as int) =~= list@);
                }
            },
            None => {},
        }
        let ghost explicit = out@;
        let mut j: usize = 0;
        while j < self.entities.len()
            invariant
                self.wf(),
                j <= self.entities@.len(),
                out@.no_duplicates(),
                forall|c: u64| #[trigger] explicit.contains(c) <==> (self.has(c) && self.visible(c) && self.has(p)
                    && self.record(p).children@.contains(c)),
                forall|c: u64| #[trigger] out@.contains(c) <==> (explicit.contains(c) || (ids(self.entities@).take(
                    j as int).contains(c) && self.visible(c) && self.parent_of_spec(c) == Some(p))),
            decreases self.entities@.len() - j,
        {
            let e = self.entities[j].id;
            let ghost before = out@;
            proof {
                assert(self.has(e));
            }
            if self.hierarchy_visible(e) && self.parent_of(e) == Some(p) && !vec_contains(&out, e) {
                out.push(e);
            }
            proof {
                broadcast use vstd::seq_lib::group_seq_properties;
                assert(ids(self.entities@).take(j + 1) =~= ids(self.entities@).take(j as int).push(e));
                lemma_push_unique(before, e, out@);
            }
            j = j + 1;
        }
        proof {
            broadcast use vstd::seq_lib::group_seq_properties;
            assert(ids(self.entities@).take(j as int) =~= ids(self.entities@));
            assert forall|c: u64| #[trigger] out@.contains(c) <==> self.is_child(p, c) by {
                if self.has(c) {
                    let k = choose|k: int| 0 <= k < self.entities@.len() && #[trigger] self.entities@[k].id == c;
                    assert(ids(self.entities@)[k] == c);
                }
                if ids(self.entities@).contains(c) {
                    let k = choose|k: int| 0 <= k < ids(self.entities@).len() && ids(self.entities@)[k] == c;
                    assert(self.entities@[k].id == c);
                }
            }
        }
        out
    }

    /// Whether `entity` lies below `ancestor` in the hierarchy (a depth-first walk that
    /// skips entities already visited, so cycles end).
    pub fn is_descendant(&self, entity: u64, ancestor: u64) -> (b: bool)
        requires
            self.wf(),
        ensures
            b == self.is_descendant_spec(entity, ancestor),
    {
        let mut stack = self.collect_children(ancestor);
        let mut visited: Vec<u64> = Vec::new();
        let ghost universe = ids(self.entities@);
        proof {
            assert forall|x: u64| #[trigger] stack@.contains(x) implies self.is_descendant_spec(x, ancestor) by {
                assert(self.is_path(ancestor, seq![x]));
            }
        }
        while stack.len() > 0
            invariant
                self.wf(),
                universe == ids(self.entities@),
                visited@.no_duplicates(),
                visited@.len() <= self.entities@.len(),
                forall|x: u64| #[trigger] visited@.contains(x) ==> self.has(x) && x != entity,
                forall|x: u64| #[trigger] stack@.contains(x) ==> self.has(x),
                forall|x: u64| #[trigger] stack@.contains(x) ==> self.is_descendant_spec(x, ancestor),
                forall|x: u64| #[trigger] visited@.contains(x) ==> self.is_descendant_spec(x, ancestor),
                forall|x: u64, y: u64| #[trigger] visited@.contains(x) && #[trigger] self.is_child(x, y)
                    ==> stack@.contains(y) || visited@.contains(y),
                forall|y: u64| #[trigger] self.is_child(ancestor, y) ==> stack@.contains(y) || visited@.contains(y),
            decreases self.entities@.len() - visited@.len(), stack@.len(),
        {
            let ghost old_stack = stack@;
            let candidate = stack.pop().unwrap();
            proof {
                assert(old_stack.contains(candidate)) by {
                    assert(old_stack[old_stack.len() - 1] == candidate);
                }
                assert(old_stack =~= stack@.push(candidate));
                assert forall|x: u64| #[trigger] old_stack.contains(x) <==> stack@.contains(x) || x == candidate by {
                    broadcast use vstd::seq_lib::group_seq_properties;
                }
                assert forall|x: u64| #[trigger] stack@.contains(x) implies old_stack.contains(x) by {
                    broadcast use vstd::seq_lib::group_seq_properties;
                }
            }
            if candidate == entity {
                return true;
            }
            if vec_contains(&visited, candidate) {
                continue;
            }
            let ghost old_visited = visited@;
            visited.push(candidate);
            proof {
                assert(self.has(candidate));
                assert forall|x: u64| #[trigger] visited@.contains(x) implies self.has(x) by {
                    broadcast use vstd::seq_lib::group_seq_properties;
                    assert(visited@ == old_visited.push(candidate));
                }
                lemma_push_unique(old_visited, candidate, visited@);
                lemma_nodup_subset_len(visited@, universe, self);
            }
            let kids = self.collect_children(candidate);
            let ghost mid = stack@;
            let mut i: usize = 0;
            while i < kids.len()
                invariant
                    self.wf(),
                    i <= kids@.len(),
                    stack@ == mid + kids@.take(i as int),
                    forall|x: u64| #[trigger] kids@.contains(x) <==> self.is_child(candidate, x),
                decreases kids@.len() - i,
            {
                stack.push(kids[i]);
                assert(mid + kids@.take(i + 1) =~= (mid + kids@.take(i as int)).push(kids@[i as int]));
                i = i + 1;
            }
            proof {
                assert(kids@.take(i as int) =~= kids@);
                let ns = stack@;
                assert forall|x: u64| #[trigger] ns.contains(x) <==> mid.contains(x) || kids@.contains(x) by {
                    if ns.contains(x) {
                        let k = choose|k: int| 0 <= k < ns.len() && ns[k] == x;
                        if k < mid.len() {
                            assert(mid[k] == x);
                        } else {
                            assert(kids@[k - mid.len()] == x);
                        }
                    }
                    if mid.contains(x) {
                        let k = choose|k: int| 0 <= k < mid.len() && mid[k] == x;
                        assert(ns[k] == x);
                    }
                    if kids@.contains(x) {
                        let k = choose|k: int| 0 <= k < kids@.len() && kids@[k] == x;
                        assert(ns[mid.len() + k] == x);
                    }
                }
                assert forall|x: u64| #[trigger] visited@.contains(x) <==> old_visited.contains(x) || x == candidate by {
                    if visited@.contains(x) {
                        let k = choose|k: int| 0 <= k < visited@.len() && visited@[k] == x;
                        if k < old_visited.len() {
                            assert(old_visited[k] == x);
                        }
                    }
                    if old_visited.contains(x) {
                        let k = choose|k: int| 0 <= k < old_visited.len() && old_visited[k] == x;
                        assert(visited@[k] == x);
                    }
                    if x == candidate {
                        assert(visited@[old_visited.len() as int] == x);
                    }
                }
                assert forall|x: u64| #[trigger] ns.contains(x) implies self.is_descendant_spec(x, ancestor) by {
                    if kids@.contains(x) && !mid.contains(x) {
                        lemma_descendant_step(self, ancestor, candidate, x);
                    }
                }
            }
        }
        proof {
            assert forall|path: Seq<u64>| #[trigger] self.is_path(ancestor, path) implies path.last() != entity by {
                lemma_path_in_visited(self, ancestor, path, visited@, (path.len() - 1) as nat);
            }
        }
        false
    }
}

proof fn lemma_descendant_step(g: &SceneGraph, a: u64, c: u64, x: u64)
    requires
        g.is_descendant_spec(c, a),
        g.is_child(c, x),
    ensures
        g.is_descendant_spec(x, a),
{
    let path = choose|path: Seq<u64>| #[trigger] g.is_path(a, path) && path.last() == c;
    let np = path.push(x);
    assert forall|i: int| 0 <= i < np.len() - 1 implies #[trigger] g.is_child(np[i], np[i + 1]) by {
        if i < path.len() - 1 {
            assert(np[i] == path[i] && np[i + 1] == path[i + 1]);
        } else {
            assert(np[i] == c);
        }
    }
    assert(g.is_path(a, np));
}

proof fn lemma_path_in_visited(g: &SceneGraph, a: u64, path: Seq<u64>, visited: Seq<u64>, k: nat)
    requires
        g.is_path(a, path),
        k < path.len(),
        forall|x: u64, y: u64| #[trigger] visited.contains(x) && #[trigger] g.is_child(x, y) ==> visited.contains(y),
        forall|y: u64| #[trigger] g.is_child(a, y) ==> visited.contains(y),
    ensures
        visited.contains(path[k as int]),
    decreases k,
{
    if k > 0 {
        lemma_path_in_visited(g, a, path, visited, (k - 1) as nat);
        let i = k - 1;
        assert(g.is_child(path[i], path[i + 1]));
        assert(path[i + 1] == path[k as int]);
    }
}

/// A duplicate-free sequence of entity ids is no longer than the entity list.
proof fn lemma_nodup_subset_len(v: Seq<u64>, universe: Seq<u64>, g: &SceneGraph)
    requires
        v.no_duplicates(),
        universe == ids(g.entities@),
        forall|x: u64| #[trigger] v.contains(x) ==> g.has(x),
    ensures
        v.len() <= g.entities@.len(),
{
    v.unique_seq_to_set();
    universe.lemma_cardinality_of_set();
    vstd::seq_lib::seq_to_set_is_finite(universe);
    assert forall|x: u64| v.to_set().contains(x) implies universe.to_set().contains(x) by {
        assert(v.contains(x));
        let i = choose|i: int| 0 <= i < g.entities@.len() && #[trigger] g.entities@[i].id == x;
        assert(universe[i] == x);
    }
    vstd::set_lib::lemma_len_subset(v.to_set(), universe.to_set());
}

/// After an optional push of `x` that happens only when `x` is absent, the sequence stays
/// duplicate-free and gains exactly `x`.
pub proof fn lemma_push_unique(before: Seq<u64>, x: u64, after: Seq<u64>)
    requires
        before.no_duplicates(),
        after == before || (after == before.push(x) && !before.contains(x)),
    ensures
        after.no_duplicates(),
        forall|y: u64| #[trigger] after.contains(y) <==> before.contains(y) || (after != before && y == x),
        after != before ==> after.contains(x),
{
    broadcast use vstd::seq_lib::group_seq_properties;
    if after != before {
        assert forall|a: int, b: int| 0 <= a < b < after.len() implies after[a] != after[b] by {
            if b == after.len() - 1 {
                assert(before.contains(before[a]));
            }
        }
    }
}

/// Whether `x` occurs in `v`.
pub fn vec_contains(v: &Vec<u64>, x: u64) -> (b: bool)
    ensures
        b == v@.contains(x),
{
    let mut i: usize = 0;
    while i < v.len()
        invariant
            i <= v@.len(),
            forall|k: int| 0 <= k < i ==> v@[k] != x,
        decreases v@.len() - i,
    {
        if v[i] == x {
            return true;
        }
        i = i + 1;
    }
    false
}

} // verus!
