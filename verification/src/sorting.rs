//! Sorting and de-duplicating lists of strings in `str` order.
use vstd::prelude::*;
use crate::text::{compare_chars, chars_of, seq_lt, lemma_seq_lt_total, lemma_seq_lt_transitive,
    lemma_seq_lt_irreflexive, lemma_seq_lt_asymmetric};

verus! {

/// The character sequences of a list of strings.
pub open spec fn string_views(v: Seq<String>) -> Seq<Seq<char>> {
    v.map_values(|s: String| s@)
}

pub open spec fn seq_le(a: Seq<char>, b: Seq<char>) -> bool {
    seq_lt(a, b) || a == b
}

/// Non-decreasing in `str` order.
pub open spec fn sorted(s: Seq<Seq<char>>) -> bool {
    forall|i: int, j: int| 0 <= i < j < s.len() ==> seq_le(#[trigger] s[i], #[trigger] s[j])
}

/// Strictly increasing in `str` order: sorted with no repeated element.
pub open spec fn strictly_sorted(s: Seq<Seq<char>>) -> bool {
    forall|i: int, j: int| 0 <= i < j < s.len() ==> seq_lt(#[trigger] s[i], #[trigger] s[j])
}

/// Two strictly sorted sequences with the same elements are equal.
pub proof fn lemma_strictly_sorted_unique(a: Seq<Seq<char>>, b: Seq<Seq<char>>)
    requires
        strictly_sorted(a),
        strictly_sorted(b),
        forall|x: Seq<char>| a.contains(x) <==> b.contains(x),
    ensures
        a == b,
    decreases a.len(),
{
    if a.len() == 0 {
        if b.len() > 0 {
            assert(b.contains(b[0]));
        }
        assert(a =~= b);
    } else if b.len() == 0 {
        assert(a.contains(a[0]));
    } else {
        // the first elements are both the minimum
        assert(a.contains(a[0]));
        assert(b.contains(b[0]));
        let j = choose|j: int| 0 <= j < b.len() && b[j] == a[0];
        let k = choose|k: int| 0 <= k < a.len() && a[k] == b[0];
        if j > 0 {
            assert(seq_lt(b[0], b[j]));
            if k > 0 {
                assert(seq_lt(a[0], a[k]));
                lemma_seq_lt_asymmetric(a[0], b[0]);
            } else {
                lemma_seq_lt_irreflexive(b[0]);
            }
        }
        assert(a[0] == b[0]);
        let a1 = a.drop_first();
        let b1 = b.drop_first();
        assert forall|x: Seq<char>| a1.contains(x) <==> b1.contains(x) by {
            if a1.contains(x) {
                let i = choose|i: int| 0 <= i < a1.len() && a1[i] == x;
                assert(a.contains(x));
                assert(seq_lt(a[0], a[i + 1]));
                lemma_seq_lt_irreflexive(a[0]);
                let m = choose|m: int| 0 <= m < b.len() && b[m] == x;
                assert(m != 0);
                assert(b1[m - 1] == x);
            }
            if b1.contains(x) {
                let i = choose|i: int| 0 <= i < b1.len() && b1[i] == x;
                assert(b.contains(x));
                assert(seq_lt(b[0], b[i + 1]));
                lemma_seq_lt_irreflexive(b[0]);
                let m = choose|m: int| 0 <= m < a.len() && a[m] == x;
                assert(m != 0);
                assert(a1[m - 1] == x);
            }
        }
        lemma_strictly_sorted_unique(a1, b1);
        assert(a =~= seq![a[0]] + a1);
        assert(b =~= seq![b[0]] + b1);
    }
}

/// Inserts `x` into an already sorted list, after any equal elements.
pub fn insert_sorted(v: &mut Vec<String>, x: String)
    requires
        sorted(string_views(old(v)@)),
    ensures
        sorted(string_views(final(v)@)),
        string_views(final(v)@).to_multiset() == string_views(old(v)@).to_multiset().insert(x@),
        exists|p: int| 0 <= p <= old(v)@.len() && final(v)@ == old(v)@.insert(p, x),
{
    let xc = chars_of(x.as_str());
    let mut pos: usize = 0;
    let mut found = false;
    while pos < v.len() && !found
        invariant
            pos <= v@.len(),
            found ==> pos < v@.len() && seq_lt(x@, v@[pos as int]@),
            xc@ == x@,
            v@ == old(v)@,
            sorted(string_views(v@)),
            forall|k: int| 0 <= k < pos ==> seq_le(#[trigger] string_views(v@)[k], x@),
        decreases v@.len() - pos + (if found { 0int } else { 1int }),
    {
        let ec = chars_of(v[pos].as_str());
        let c = compare_chars(xc.as_slice(), ec.as_slice());
        if c == -1 {
            found = true;
        } else {
            proof {
                lemma_seq_lt_total(x@, v@[pos as int]@);
            }
            pos = pos + 1;
        }
    }
    let ghost old_views = string_views(v@);
    proof {
        // everything from `pos` on is strictly greater than x
        if pos < v@.len() {
            assert forall|k: int| pos <= k < v@.len() implies seq_lt(x@, #[trigger] old_views[k]) by {
                assert(seq_lt(x@, old_views[pos as int]));
                if k > pos {
                    assert(seq_le(old_views[pos as int], old_views[k]));
                    lemma_seq_lt_transitive(x@, old_views[pos as int], old_views[k]);
                }
            }
        }
    }
    let ghost old_v = v@;
    v.insert(pos, x);
    proof {
        let nv = string_views(v@);
        assert(nv =~= old_views.insert(pos as int, x@));
        to_multiset_insert_views(old_views, pos as int, x@);
        assert forall|i: int, j: int| 0 <= i < j < nv.len() implies seq_le(#[trigger] nv[i], #[trigger] nv[j]) by {
            if i < pos && j < pos {
            } else if i < pos && j == pos {
            } else if i < pos && j > pos {
                assert(nv[j] == old_views[j - 1]);
                assert(seq_le(old_views[i], old_views[j - 1]));
            } else if i == pos {
                assert(nv[j] == old_views[j - 1]);
                assert(seq_lt(x@, old_views[j - 1]));
            } else {
                assert(nv[i] == old_views[i - 1]);
                assert(nv[j] == old_views[j - 1]);
            }
        }
        assert(v@ == old_v.insert(pos as int, x));
    }
}

proof fn to_multiset_insert_views(s: Seq<Seq<char>>, i: int, a: Seq<char>)
    requires
        0 <= i <= s.len(),
    ensures
        s.insert(i, a).to_multiset() == s.to_multiset().insert(a),
{
    vstd::seq_lib::to_multiset_insert(s, i, a);
}

/// The strings of `v` in `str` order (as `slice::sort`).
pub fn sort_strings(v: Vec<String>) -> (out: Vec<String>)
    ensures
        sorted(string_views(out@)),
        string_views(out@).to_multiset() == string_views(v@).to_multiset(),
{
    let mut out: Vec<String> = Vec::new();
    let mut i: usize = 0;
    proof {
        assert(string_views(out@) =~= string_views(v@).take(0));
    }
    while i < v.len()
        invariant
            i <= v@.len(),
            sorted(string_views(out@)),
            string_views(out@).to_multiset() == string_views(v@).take(i as int).to_multiset(),
        decreases v@.len() - i,
    {
        insert_sorted(&mut out, v[i].clone());
        proof {
            let t = string_views(v@).take(i as int);
            assert(string_views(v@).take(i + 1) =~= t.push(v@[i as int]@));
            vstd::seq_lib::to_multiset_build(t, v@[i as int]@);
        }
        i = i + 1;
    }
    assert(string_views(v@).take(i as int) =~= string_views(v@));
    out
}

/// Removes adjacent repeats from a sorted list (as `Vec::dedup`).
pub fn dedup_sorted(v: Vec<String>) -> (out: Vec<String>)
    requires
        sorted(string_views(v@)),
    ensures
        strictly_sorted(string_views(out@)),
        forall|x: Seq<char>| #[trigger] string_views(out@).contains(x) <==> string_views(v@).contains(x),
{
    let mut out: Vec<String> = Vec::new();
    let mut i: usize = 0;
    while i < v.len()
        invariant
            i <= v@.len(),
            sorted(string_views(v@)),
            strictly_sorted(string_views(out@)),
            forall|x: Seq<char>| #[trigger] string_views(out@).contains(x) <==> string_views(v@).take(i as int).contains(x),
            i > 0 ==> out@.len() > 0 && string_views(out@).last() == string_views(v@)[i - 1],
            i == 0 ==> out@.len() == 0,
        decreases v@.len() - i,
    {
        let ghost vv = string_views(v@);
        let ghost prev = string_views(out@);
        let keep = if out.len() == 0 {
            true
        } else {
            let last = out.len() - 1;
            !(out[last] == v[i])
        };
        if keep {
            out.push(v[i].clone());
            proof {
                let nv = string_views(out@);
                assert(nv =~= prev.push(vv[i as int]));
                if i > 0 {
                    assert(seq_le(vv[i - 1], vv[i as int]));
                    assert(vv[i - 1] != vv[i as int]);
                    assert forall|a: int, b: int| 0 <= a < b < nv.len() implies seq_lt(#[trigger] nv[a], #[trigger] nv[b]) by {
                        if b == nv.len() - 1 && a < b {
                            if a < prev.len() - 1 {
                                assert(seq_lt(prev[a], prev.last()));
                                lemma_seq_lt_transitive(prev[a], prev.last(), vv[i as int]);
                            }
                        }
                    }
                }
            }
        } else {
            proof {
                assert(string_views(out@).last() == vv[i as int]);
            }
        }
        proof {
            let nv = string_views(out@);
            let t1 = vv.take(i + 1);
            let t0 = vv.take(i as int);
            assert(t1 =~= t0.push(vv[i as int]));
            assert forall|x: Seq<char>| #[trigger] nv.contains(x) <==> t1.contains(x) by {
                if t1.contains(x) {
                    let k = choose|k: int| 0 <= k < t1.len() && t1[k] == x;
                    if k < i {
                        assert(t0[k] == x);
                        assert(t0.contains(x));
                        assert(prev.contains(x));
                        let m = choose|m: int| 0 <= m < prev.len() && prev[m] == x;
                        assert(nv[m] == x);
                    } else {
                        assert(nv.last() == x);
                    }
                }
                if nv.contains(x) {
                    let m = choose|m: int| 0 <= m < nv.len() && nv[m] == x;
                    if m < prev.len() {
                        assert(prev.contains(x));
                        assert(t0.contains(x));
                        let k = choose|k: int| 0 <= k < t0.len() && t0[k] == x;
                        assert(t1[k] == x);
                    } else {
                        assert(t1[i as int] == x);
                    }
                }
            }
        }
        i = i + 1;
    }
    assert(string_views(v@).take(i as int) =~= string_views(v@));
    out
}

/// The distinct strings of `v` in strictly increasing `str` order (sort, then dedup).
pub fn sorted_unique(v: Vec<String>) -> (out: Vec<String>)
    ensures
        strictly_sorted(string_views(out@)),
        forall|x: Seq<char>| #[trigger] string_views(out@).contains(x) <==> string_views(v@).contains(x),
{
    let s = sort_strings(v);
    proof {
        assert forall|x: Seq<char>| #[trigger] string_views(s@).contains(x) <==> string_views(v@).contains(x) by {
            vstd::seq_lib::to_multiset_contains(string_views(s@), x);
            vstd::seq_lib::to_multiset_contains(string_views(v@), x);
        }
    }
    dedup_sorted(s)
}

/// Whether `x` occurs in `v`.
pub fn contains_string(v: &Vec<String>, x: &String) -> (b: bool)
    ensures
        b == string_views(v@).contains(x@),
{
    let mut i: usize = 0;
    while i < v.len()
        invariant
            i <= v@.len(),
            forall|k: int| 0 <= k < i ==> v@[k]@ != x@,
        decreases v@.len() - i,
    {
        if v[i] == *x {
            assert(string_views(v@)[i as int] == x@);
            return true;
        }
        i = i + 1;
    }
    proof {
        if string_views(v@).contains(x@) {
            let k = choose|k: int| 0 <= k < string_views(v@).len() && string_views(v@)[k] == x@;
            assert(v@[k]@ == x@);
        }
    }
    false
}

/// Element-wise equality of two string lists.
pub fn strings_eq(a: &Vec<String>, b: &Vec<String>) -> (r: bool)
    ensures
        r == (string_views(a@) == string_views(b@)),
{
    if a.len() != b.len() {
        proof {
            if string_views(a@) == string_views(b@) {
                assert(string_views(a@).len() == string_views(b@).len());
            }
        }
        return false;
    }
    let mut i: usize = 0;
    while i < a.len()
        invariant
            i <= a@.len(),
            a@.len() == b@.len(),
            forall|k: int| 0 <= k < i ==> a@[k]@ == b@[k]@,
        decreases a@.len() - i,
    {
        if !(a[i] == b[i]) {
            assert(string_views(a@)[i as int] != string_views(b@)[i as int]);
            return false;
        }
        i = i + 1;
    }
    assert(string_views(a@) =~= string_views(b@));
    true
}

} // verus!
