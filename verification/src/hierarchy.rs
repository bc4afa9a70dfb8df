//! What the hierarchy panel shows of a scene: entity labels, the order of siblings (by
//! lower-cased label, then index), each entity's children, and the top-level entities.
use vstd::prelude::*;
use crate::graph::{EntityRecord, SceneGraph};
use crate::text::{chars_of, string_of, append_str, push_decimal, decimal, seq_lt, compare_chars, lowercased,
    to_lowercase, lemma_seq_lt_total, lemma_seq_lt_transitive, lemma_seq_lt_irreflexive, lemma_seq_lt_asymmetric};

verus! {

/// An entity with its sort key.
pub struct Keyed {
    pub text: Vec<char>,
    pub index: u64,
    pub id: u64,
}

/// Sibling order: by lower-cased label, then by index.
pub open spec fn key_le(at: Seq<char>, ai: u64, bt: Seq<char>, bi: u64) -> bool {
    seq_lt(at, bt) || (at == bt && ai <= bi)
}

pub open spec fn keyed_le(a: Keyed, b: Keyed) -> bool {
    key_le(a.text@, a.index, b.text@, b.index)
}

pub open spec fn keyed_sorted(s: Seq<Keyed>) -> bool {
    forall|i: int, j: int| 0 <= i < j < s.len() ==> keyed_le(#[trigger] s[i], #[trigger] s[j])
}

pub open spec fn keyed_ids(s: Seq<Keyed>) -> Seq<u64> {
    s.map_values(|k: Keyed| k.id)
}

proof fn lemma_key_le_transitive(a: Keyed, b: Keyed, c: Keyed)
    requires
        keyed_le(a, b),
        keyed_le(b, c),
    ensures
        keyed_le(a, c),
{
    lemma_seq_lt_transitive(a.text@, b.text@, c.text@);
}

proof fn lemma_key_total(a: Keyed, b: Keyed)
    ensures
        keyed_le(a, b) || keyed_le(b, a),
{
    lemma_seq_lt_total(a.text@, b.text@);
}

/// Inserts `x` into a sorted list after the elements whose key is not greater.
fn insert_keyed(v: &mut Vec<Keyed>, x: Keyed)
    requires
        keyed_sorted(old(v)@),
    ensures
        keyed_sorted(final(v)@),
        exists|p: int| 0 <= p <= old(v)@.len() && final(v)@ == old(v)@.insert(p, x),
{
    let mut pos: usize = 0;
    let mut found = false;
    while pos < v.len() && !found
        invariant
            pos <= v@.len(),
            v@ == old(v)@,
            keyed_sorted(v@),
            found ==> pos < v@.len() && !keyed_le(v@[pos as int], x),
            forall|k: int| 0 <= k < pos ==> keyed_le(#[trigger] v@[k], x),
        decreases v@.len() - pos + (if found { 0int } else { 1int }),
    {
        let c = compare_chars(v[pos].text.as_slice(), x.text.as_slice());
        if c == 1 || (c == 0 && v[pos].index > x.index) {
            proof {
                lemma_seq_lt_asymmetric(x.text@, v@[pos as int].text@);
                lemma_seq_lt_irreflexive(x.text@);
            }
            found = true;
        } else {
            pos = pos + 1;
        }
    }
    let ghost old_v = v@;
    proof {
        if pos < old_v.len() {
            assert forall|k: int| pos <= k < old_v.len() implies !keyed_le(#[trigger] old_v[k], x) by {
                if k > pos {
                    assert(keyed_le(old_v[pos as int], old_v[k]));
                    if keyed_le(old_v[k], x) {
                        lemma_key_le_transitive(old_v[pos as int], old_v[k], x);
                    }
                }
            }
        }
    }
    v.insert(pos, x);
    proof {
        let nv = v@;
        assert(nv =~= old_v.insert(pos as int, x));
        assert forall|i: int, j: int| 0 <= i < j < nv.len() implies keyed_le(#[trigger] nv[i], #[trigger] nv[j]) by {
            if i < pos && j == pos {
            } else if i < pos && j > pos {
                assert(nv[j] == old_v[j - 1]);
            } else if i == pos {
                assert(nv[j] == old_v[j - 1]);
                lemma_key_total(x, old_v[j - 1]);
            } else if i > pos {
                assert(nv[i] == old_v[i - 1]);
                assert(nv[j] == old_v[j - 1]);
            }
        }
    }
}

impl SceneGraph {
    /// The index shown for `e`: its record's, or the id itself when it has none.
    pub open spec fn shown_index(&self, e: u64) -> u64 {
        if self.has(e) {
            self.record(e).index
        } else {
            e
        }
    }

    /// The label of `e`: its name, or `Entity <index>`.
    pub open spec fn label_of(&self, e: u64) -> Seq<char> {
        if self.has(e) && self.record(e).name is Some {
            self.record(e).name.unwrap()@
        } else {
            "Entity "@ + decimal(self.shown_index(e) as nat)
        }
    }

    /// `a` comes before or level with `b` among siblings.
    pub open spec fn sibling_le(&self, a: u64, b: u64) -> bool {
        key_le(lowercased(self.label_of(a)), self.shown_index(a), lowercased(self.label_of(b)), self.shown_index(b))
    }

    /// Listed in sibling order.
    pub open spec fn in_sibling_order(&self, s: Seq<u64>) -> bool {
        forall|i: int, j: int| 0 <= i < j < s.len() ==> self.sibling_le(#[trigger] s[i], #[trigger] s[j])
    }

    /// The entity's label: its name, or `Entity <index>` when it has none.
    pub fn entity_label(&self, e: u64) -> (s: String)
        requires
            self.wf(),
        ensures
            s@ == self.label_of(e),
    {
        match self.index_of(e) {
            Some(i) => match &self.entities[i].name {
                Some(n) => n.clone(),
                None => {
                    let mut v = chars_of("Entity ");
                    push_decimal(&mut v, self.entities[i].index);
                    string_of(v.as_slice())
                },
            },
            None => {
                let mut v = chars_of("Entity ");
                push_decimal(&mut v, e);
                string_of(v.as_slice())
            },
        }
    }

    /// Puts the entities in sibling order (a stable sort by lower-cased label, then index).
    pub fn sort_entities(&self, entities: &mut Vec<u64>)
        requires
            self.wf(),
        ensures
            final(entities)@.to_multiset() == old(entities)@.to_multiset(),
            self.in_sibling_order(final(entities)@),
    {
        let mut sorted: Vec<Keyed> = Vec::new();
        let mut i: usize = 0;
        proof {
            assert(keyed_ids(sorted@) =~= Seq::<u64>::empty());
            assert(entities@.take(0) =~= Seq::<u64>::empty());
        }
        while i < entities.len()
            invariant
                self.wf(),
                i <= entities@.len(),
                entities@ == old(entities)@,
                keyed_sorted(sorted@),
                keyed_ids(sorted@).to_multiset() == entities@.take(i as int).to_multiset(),
                forall|k: int| 0 <= k < sorted@.len() ==> (#[trigger] sorted@[k]).text@ == lowercased(
                    self.label_of(sorted@[k].id),
                ) && sorted@[k].index == self.shown_index(sorted@[k].id),
            decreases entities@.len() - i,
        {
            let e = entities[i];
            let label = self.entity_label(e);
            let lower = to_lowercase(label.as_str());
            let index = match self.index_of(e) {
                Some(j) => self.entities[j].index,
                None => e,
            };
            let key = Keyed { text: chars_of(lower.as_str()), index, id: e };
            let ghost before = sorted@;
            insert_keyed(&mut sorted, key);
            proof {
                let p = choose|p: int| 0 <= p <= before.len() && sorted@ == before.insert(p, key);
                assert(keyed_ids(sorted@) =~= keyed_ids(before).insert(p, e));
                vstd::seq_lib::to_multiset_insert(keyed_ids(before), p, e);
                assert(entities@.take(i + 1) =~= entities@.take(i as int).push(e));
                vstd::seq_lib::to_multiset_build(entities@.take(i as int), e);
                assert forall|k: int| 0 <= k < sorted@.len() implies (#[trigger] sorted@[k]).text@ == lowercased(
                    self.label_of(sorted@[k].id),
                ) && sorted@[k].index == self.shown_index(sorted@[k].id) by {
                    if k < p {
                        assert(sorted@[k] == before[k]);
                    } else if k > p {
                        assert(sorted@[k] == before[k - 1]);
                    }
                }
            }
            i = i + 1;
        }
        proof {
            assert(entities@.take(i as int) =~= entities@);
        }
        let mut out: Vec<u64> = Vec::new();
        let mut j: usize = 0;
        while j < sorted.len()
            invariant
                j <= sorted@.len(),
                out@ == keyed_ids(sorted@).take(j as int),
            decreases sorted@.len() - j,
        {
            out.push(sorted[j].id);
            assert(keyed_ids(sorted@).take(j + 1) =~= keyed_ids(sorted@).take(j as int).push(sorted@[j as int].id));
            j = j + 1;
        }
        proof {
            assert(out@ =~= keyed_ids(sorted@));
            assert forall|a: int, b: int| 0 <= a < b < out@.len() implies self.sibling_le(#[trigger] out@[a],
                #[trigger] out@[b]) by {
                assert(keyed_le(sorted@[a], sorted@[b]));
            }
        }
        *entities = out;
    }
}

/// A sequence with the same elements, counted, as a duplicate-free one has none twice.
proof fn lemma_permutation_no_duplicates(a: Seq<u64>, b: Seq<u64>)
    requires
        a.to_multiset() == b.to_multiset(),
        b.no_duplicates(),
    ensures
        a.no_duplicates(),
        forall|x: u64| a.contains(x) <==> b.contains(x),
{
    b.lemma_multiset_has_no_duplicates();
    a.lemma_multiset_has_no_duplicates_conv();
    assert forall|x: u64| a.contains(x) <==> b.contains(x) by {
        vstd::seq_lib::to_multiset_contains(a, x);
        vstd::seq_lib::to_multiset_contains(b, x);
    }
}

impl SceneGraph {
    /// The hierarchy children of `p` in sibling order.
    pub fn children_of(&self, p: u64) -> (out: Vec<u64>)
        requires
            self.wf(),
        ensures
            out@.no_duplicates(),
            forall|c: u64| #[trigger] out@.contains(c) <==> self.is_child(p, c),
            self.in_sibling_order(out@),
    {
        let mut out = self.collect_children(p);
        let ghost before = out@;
        self.sort_entities(&mut out);
        proof {
            lemma_permutation_no_duplicates(out@, before);
        }
        out
    }

    /// A top-level entity of the hierarchy: shown, and without a shown parent.
    pub open spec fn is_root(&self, e: u64) -> bool {
        &&& self.has(e)
        &&& self.visible(e)
        &&& (self.parent_of_spec(e) is None || !self.visible(self.parent_of_spec(e).unwrap()))
    }

    /// The top-level entities of the hierarchy, in sibling order.
    pub fn hierarchy_roots(&self) -> (out: Vec<u64>)
        requires
            self.wf(),
        ensures
            out@.no_duplicates(),
            forall|e: u64| #[trigger] out@.contains(e) <==> self.is_root(e),
            self.in_sibling_order(out@),
    {
        let mut roots: Vec<u64> = Vec::new();
        let mut i: usize = 0;
        while i < self.entities.len()
            invariant
                self.wf(),
                i <= self.entities@.len(),
                roots@.no_duplicates(),
                forall|k: int| 0 <= k < roots@.len() ==> exists|j: int| 0 <= j < i && #[trigger] self.entities@[j].id
                    == #[trigger] roots@[k],
                forall|e: u64| #[trigger] roots@.contains(e) <==> (self.is_root(e) && exists|j: int| 0 <= j < i
                    && #[trigger] self.entities@[j].id == e),
            decreases self.entities@.len() - i,
        {
            let e = self.entities[i].id;
            proof {
                self.lemma_record_at(i as int);
            }
            let shown = self.hierarchy_visible(e);
            let root = shown && match self.parent_of(e) {
                Some(q) => !self.hierarchy_visible(q),
                None => true,
            };
            let ghost before = roots@;
            if root {
                roots.push(e);
            }
            proof {
                broadcast use vstd::seq_lib::group_seq_properties;
                if root {
                    assert(!before.contains(e)) by {
                        if before.contains(e) {
                            let k = choose|k: int| 0 <= k < before.len() && before[k] == e;
                            let j = choose|j: int| 0 <= j < i && #[trigger] self.entities@[j].id == before[k];
                            assert(self.entities@[j].id != self.entities@[i as int].id);
                        }
                    }
                    assert forall|a: int, b: int| 0 <= a < b < roots@.len() implies roots@[a] != roots@[b] by {
                        if b == roots@.len() - 1 {
                            assert(before.contains(before[a]));
                        }
                    }
                }
                assert forall|k: int| 0 <= k < roots@.len() implies exists|j: int| 0 <= j < i + 1
                    && #[trigger] self.entities@[j].id == #[trigger] roots@[k] by {
                    if k < before.len() {
                        let j = choose|j: int| 0 <= j < i && #[trigger] self.entities@[j].id == before[k];
                        assert(roots@[k] == before[k]);
                    } else {
                        assert(self.entities@[i as int].id == roots@[k]);
                    }
                }
                assert forall|x: u64| #[trigger] roots@.contains(x) <==> (self.is_root(x) && exists|j: int| 0 <= j
                    < i + 1 && #[trigger] self.entities@[j].id == x) by {
                    if x == e {
                        assert(self.entities@[i as int].id == x);
                    }
                    if exists|j: int| 0 <= j < i + 1 && #[trigger] self.entities@[j].id == x {
                        let j = choose|j: int| 0 <= j < i + 1 && #[trigger] self.entities@[j].id == x;
                        if j < i {
                            assert(exists|j2: int| 0 <= j2 < i && #[trigger] self.entities@[j2].id == x);
                        }
                    }
                }
            }
            i = i + 1;
        }
        proof {
            assert forall|e: u64| #[trigger] roots@.contains(e) <==> self.is_root(e) by {
                if self.is_root(e) {
                    let j = choose|j: int| 0 <= j < self.entities@.len() && #[trigger] self.entities@[j].id == e;
                }
            }
        }
        let ghost before = roots@;
        self.sort_entities(&mut roots);
        proof {
            lemma_permutation_no_duplicates(roots@, before);
        }
        roots
    }
}

/// One entity's children in a hierarchy index.
pub struct IndexEntry {
    pub entity: u64,
    pub children: Vec<u64>,
}

/// The hierarchy of a scene, computed once per frame: the top-level entities and the
/// children of every entity that has some.
pub struct HierarchyIndex {
    pub entries: Vec<IndexEntry>,
    pub roots: Vec<u64>,
}

impl HierarchyIndex {
    /// The index describes `g`: its roots are `g`'s top-level entities, and every entity
    /// with children has an entry listing them in sibling order.
    pub open spec fn describes(&self, g: &SceneGraph) -> bool {
        &&& self.roots@.no_duplicates()
        &&& forall|e: u64| #[trigger] self.roots@.contains(e) <==> g.is_root(e)
        &&& g.in_sibling_order(self.roots@)
        &&& forall|k: int| 0 <= k < self.entries@.len() ==> {
            let en = #[trigger] self.entries@[k];
            &&& en.children@.no_duplicates()
            &&& forall|c: u64| #[trigger] en.children@.contains(c) <==> g.is_child(en.entity, c)
            &&& g.in_sibling_order(en.children@)
            &&& en.children@.len() > 0
        }
        &&& forall|a: int, b: int| 0 <= a < b < self.entries@.len() ==> #[trigger] self.entries@[a].entity
            != #[trigger] self.entries@[b].entity
        &&& forall|e: u64, c: u64| g.has(e) && #[trigger] g.is_child(e, c) ==> exists|k: int| 0 <= k < self.entries@.len()
            && #[trigger] self.entries@[k].entity == e
    }

    /// Builds the index of `g`.
    pub fn build(g: &SceneGraph) -> (idx: HierarchyIndex)
        requires
            g.wf(),
        ensures
            idx.describes(g),
    {
        let mut entries: Vec<IndexEntry> = Vec::new();
        let mut i: usize = 0;
        while i < g.entities.len()
            invariant
                g.wf(),
                i <= g.entities@.len(),
                forall|k: int| 0 <= k < entries@.len() ==> {
                    let en = #[trigger] entries@[k];
                    &&& en.children@.no_duplicates()
                    &&& forall|c: u64| #[trigger] en.children@.contains(c) <==> g.is_child(en.entity, c)
                    &&& g.in_sibling_order(en.children@)
                    &&& en.children@.len() > 0
                },
                forall|k: int| 0 <= k < entries@.len() ==> exists|j: int| 0 <= j < i && #[trigger] g.entities@[j].id
                    == #[trigger] entries@[k].entity,
                forall|a: int, b: int| 0 <= a < b < entries@.len() ==> #[trigger] entries@[a].entity
                    != #[trigger] entries@[b].entity,
                forall|j: int, c: u64| 0 <= j < i && #[trigger] g.is_child(g.entities@[j].id, c) ==> exists|k: int| 0 <= k
                    < entries@.len() && #[trigger] entries@[k].entity == g.entities@[j].id,
            decreases g.entities@.len() - i,
        {
            let e = g.entities[i].id;
            let children = g.children_of(e);
            let ghost before = entries@;
            if children.len() > 0 {
                entries.push(IndexEntry { entity: e, children });
                proof {
                    assert forall|a: int, b: int| 0 <= a < b < entries@.len() implies #[trigger] entries@[a].entity
                        != #[trigger] entries@[b].entity by {
                        if b == before.len() {
                            assert(entries@[a] == before[a]);
                            let j = choose|j: int| 0 <= j < i && #[trigger] g.entities@[j].id == before[a].entity;
                            assert(g.entities@[j].id != g.entities@[i as int].id);
                        }
                    }
                }
            } else {
                proof {
                    assert forall|c: u64| !g.is_child(e, c) by {
                        if g.is_child(e, c) {
                            assert(children@.contains(c));
                        }
                    }
                }
            }
            proof {
                assert forall|k: int| 0 <= k < entries@.len() implies exists|j: int| 0 <= j < i + 1
                    && #[trigger] g.entities@[j].id == #[trigger] entries@[k].entity by {
                    if k < before.len() {
                        assert(entries@[k] == before[k]);
                        let j = choose|j: int| 0 <= j < i && #[trigger] g.entities@[j].id == before[k].entity;
                    } else {
                        assert(g.entities@[i as int].id == entries@[k].entity);
                    }
                }
                assert forall|j: int, c: u64| 0 <= j < i + 1 && #[trigger] g.is_child(g.entities@[j].id, c)
                    implies exists|k: int| 0 <= k < entries@.len() && #[trigger] entries@[k].entity == g.entities@[j].id by {
                    if j < i {
                        let k = choose|k: int| 0 <= k < before.len() && #[trigger] before[k].entity == g.entities@[j].id;
                        assert(entries@[k] == before[k]);
                    } else {
                        assert(children@.contains(c));
                        assert(entries@[before.len() as int].entity == e);
                    }
                }
            }
            i = i + 1;
        }
        let roots = g.hierarchy_roots();
        let idx = HierarchyIndex { entries, roots };
        proof {
            assert forall|e: u64, c: u64| g.has(e) && #[trigger] g.is_child(e, c) implies exists|k: int| 0 <= k
                < idx.entries@.len() && #[trigger] idx.entries@[k].entity == e by {
                let j = choose|j: int| 0 <= j < g.entities@.len() && #[trigger] g.entities@[j].id == e;
                assert(g.is_child(g.entities@[j].id, c));
                let k = choose|k: int| 0 <= k < entries@.len() && #[trigger] entries@[k].entity == g.entities@[j].id;
                assert(idx.entries@[k].entity == e);
            }
        }
        idx
    }

    /// The children the index lists for `e` (none when it has no entry).
    pub open spec fn listed_children(&self, e: u64) -> Seq<u64> {
        if exists|k: int| 0 <= k < self.entries@.len() && #[trigger] self.entries@[k].entity == e {
            self.entries@[choose|k: int| 0 <= k < self.entries@.len() && #[trigger] self.entries@[k].entity == e].children@
        } else {
            Seq::empty()
        }
    }

    /// The children of `e` as the index lists them.
    pub fn children_of(&self, e: u64) -> (out: Vec<u64>)
        requires
            forall|a: int, b: int| 0 <= a < b < self.entries@.len() ==> #[trigger] self.entries@[a].entity
                != #[trigger] self.entries@[b].entity,
        ensures
            out@ == self.listed_children(e),
    {
        let mut k: usize = 0;
        while k < self.entries.len()
            invariant
                k <= self.entries@.len(),
                forall|j: int| 0 <= j < k ==> #[trigger] self.entries@[j].entity != e,
                forall|a: int, b: int| 0 <= a < b < self.entries@.len() ==> #[trigger] self.entries@[a].entity
                    != #[trigger] self.entries@[b].entity,
            decreases self.entries@.len() - k,
        {
            if self.entries[k].entity == e {
                let list = &self.entries[k].children;
                let mut out: Vec<u64> = Vec::new();
                let mut i: usize = 0;
                while i < list.len()
                    invariant
                        k < self.entries@.len(),
                        list@ == self.entries@[k as int].children@,
                        i <= list@.len(),
                        out@ == list@.take(i as int),
                    decreases list@.len() - i,
                {
                    out.push(list[i]);
                    assert(list@.take(i + 1) =~= list@.take(i as int).push(list@[i as int]));
                    i = i + 1;
                }
                assert(list@.take(i as int) =~= list@);
                proof {
                    let j = choose|j: int| 0 <= j < self.entries@.len() && #[trigger] self.entries@[j].entity == e;
                    if j != k {
                        if j < k {
                            assert(self.entries@[j].entity != self.entries@[k as int].entity);
                        } else {
                            assert(self.entries@[k as int].entity != self.entries@[j].entity);
                        }
                    }
                }
                return out;
            }
            k = k + 1;
        }
        Vec::new()
    }

    /// In an index that describes `g`, the children listed for an entity of `g` are its
    /// children in the hierarchy, each once, in sibling order.
    pub proof fn lemma_listed_children(&self, g: &SceneGraph, e: u64)
        requires
            self.describes(g),
            g.has(e),
        ensures
            forall|c: u64| #[trigger] self.listed_children(e).contains(c) <==> g.is_child(e, c),
            self.listed_children(e).no_duplicates(),
            g.in_sibling_order(self.listed_children(e)),
    {
        if exists|k: int| 0 <= k < self.entries@.len() && #[trigger] self.entries@[k].entity == e {
            let k = choose|k: int| 0 <= k < self.entries@.len() && #[trigger] self.entries@[k].entity == e;
            let en = self.entries@[k];
            assert(self.listed_children(e) == en.children@);
        } else {
            assert forall|c: u64| !g.is_child(e, c) by {
                if g.is_child(e, c) {
                    let j = choose|j: int| 0 <= j < self.entries@.len() && #[trigger] self.entries@[j].entity == e;
                }
            }
            assert(self.listed_children(e) =~= Seq::<u64>::empty());
        }
    }
}


impl SceneGraph {
    /// No two entities share a place in sibling order (their lower-cased labels or their
    /// indices differ).
    pub open spec fn no_sibling_ties(&self) -> bool {
        forall|a: u64, b: u64| self.has(a) && self.has(b) && a != b ==> !(#[trigger] self.sibling_le(a, b)
            && #[trigger] self.sibling_le(b, a))
    }

    /// Two lists of the same entities, each once and in sibling order, are the same list
    /// when no two entities tie.
    proof fn lemma_sibling_order_unique(&self, a: Seq<u64>, b: Seq<u64>)
        requires
            self.no_sibling_ties(),
            a.no_duplicates(),
            b.no_duplicates(),
            forall|x: u64| #[trigger] a.contains(x) <==> b.contains(x),
            forall|x: u64| #[trigger] a.contains(x) ==> self.has(x),
            self.in_sibling_order(a),
            self.in_sibling_order(b),
        ensures
            a == b,
        decreases a.len(),
    {
        if a.len() == 0 {
            if b.len() > 0 {
                assert(b.contains(b[0]));
                assert(a.contains(b[0]));
            }
            assert(a =~= b);
        } else {
            assert(a.contains(a[0]));
            assert(b.len() > 0);
            assert(b.contains(b[0]));
            let x = a[0];
            let y = b[0];
            assert(a.contains(y));
            assert(b.contains(x));
            let i = choose|i: int| 0 <= i < a.len() && a[i] == y;
            let j = choose|j: int| 0 <= j < b.len() && b[j] == x;
            if x != y {
                assert(i > 0 && j > 0);
                assert(self.sibling_le(a[0], a[i]));
                assert(self.sibling_le(b[0], b[j]));
                assert(self.has(x) && self.has(y));
                assert(false);
            }
            let ra = a.drop_first();
            let rb = b.drop_first();
            assert forall|z: u64| #[trigger] ra.contains(z) <==> rb.contains(z) by {
                if ra.contains(z) {
                    let k = choose|k: int| 0 <= k < ra.len() && ra[k] == z;
                    assert(a[k + 1] == z);
                    assert(a.contains(z));
                    assert(b.contains(z));
                    assert(a[k + 1] != a[0]);
                    let m = choose|m: int| 0 <= m < b.len() && b[m] == z;
                    assert(m != 0);
                    assert(rb[m - 1] == z);
                }
                if rb.contains(z) {
                    let k = choose|k: int| 0 <= k < rb.len() && rb[k] == z;
                    assert(b[k + 1] == z);
                    assert(b.contains(z));
                    assert(a.contains(z));
                    assert(b[k + 1] != b[0]);
                    let m = choose|m: int| 0 <= m < a.len() && a[m] == z;
                    assert(m != 0);
                    assert(ra[m - 1] == z);
                }
            }
            assert forall|z: u64| #[trigger] ra.contains(z) implies self.has(z) by {
                let k = choose|k: int| 0 <= k < ra.len() && ra[k] == z;
                assert(a[k + 1] == z);
                assert(a.contains(z));
            }
            assert(ra.no_duplicates()) by {
                assert forall|p: int, q: int| 0 <= p < ra.len() && 0 <= q < ra.len() && p != q implies ra[p] != ra[q] by {
                    assert(a[p + 1] != a[q + 1]);
                }
            }
            assert(rb.no_duplicates()) by {
                assert forall|p: int, q: int| 0 <= p < rb.len() && 0 <= q < rb.len() && p != q implies rb[p] != rb[q] by {
                    assert(b[p + 1] != b[q + 1]);
                }
            }
            assert(self.in_sibling_order(ra)) by {
                assert forall|p: int, q: int| 0 <= p < q < ra.len() implies self.sibling_le(#[trigger] ra[p], #[trigger] ra[q]) by {
                    assert(self.sibling_le(a[p + 1], a[q + 1]));
                }
            }
            assert(self.in_sibling_order(rb)) by {
                assert forall|p: int, q: int| 0 <= p < q < rb.len() implies self.sibling_le(#[trigger] rb[p], #[trigger] rb[q]) by {
                    assert(self.sibling_le(b[p + 1], b[q + 1]));
                }
            }
            self.lemma_sibling_order_unique(ra, rb);
            assert(a =~= seq![x] + ra);
            assert(b =~= seq![y] + rb);
        }
    }
}

impl HierarchyIndex {
    /// An index built for a scene lists, for every entity, exactly the scene's children list
    /// (the entities `SceneGraph::children_of` gives, in that order) and exactly its list of
    /// top-level entities (as `hierarchy_roots` gives them), when no two entities tie in
    /// sibling order.
    pub proof fn law_index_matches_scene_lists(
        &self,
        g: &SceneGraph,
        p: u64,
        children: Seq<u64>,
        roots: Seq<u64>,
    )
        requires
            self.describes(g),
            g.no_sibling_ties(),
            g.has(p),
            children.no_duplicates(),
            forall|c: u64| #[trigger] children.contains(c) <==> g.is_child(p, c),
            g.in_sibling_order(children),
            roots.no_duplicates(),
            forall|e: u64| #[trigger] roots.contains(e) <==> g.is_root(e),
            g.in_sibling_order(roots),
        ensures
            self.listed_children(p) == children,
            self.roots@ == roots,
    {
        self.lemma_listed_children(g, p);
        g.lemma_sibling_order_unique(self.listed_children(p), children);
        g.lemma_sibling_order_unique(self.roots@, roots);
    }
}
} // verus!
