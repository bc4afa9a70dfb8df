//! The editor's list of loaded scenes: which scene is active, which were saved with what
//! content (a fingerprint of the saved form), and the snapshot taken on entering play mode
//! that stopping it goes back to. The scenes' own contents stay with the caller, which
//! keeps them by name.
use vstd::prelude::*;
use crate::text::{chars_of, string_of, owned, append_str, seq_eq, compare_chars, seq_lt,
    lemma_seq_lt_total, lemma_seq_lt_transitive, lemma_seq_lt_irreflexive, lemma_seq_lt_asymmetric};
use crate::workspace::SceneInfo;
use crate::project::{Project, SceneNameError, scene_name_error, spec_scene_name_message, scene_name_message};
use crate::sorting::string_views;

verus! {

/// A loaded scene: its name and the fingerprint of its last saved form (`None` when it was
/// never saved).
#[derive(Debug)]
pub struct SceneSlot {
    pub name: String,
    pub saved_fingerprint: Option<String>,
}

/// What entering play mode remembered: the active scene and every loaded scene's slot.
#[derive(Debug)]
pub struct PlaySnapshot {
    pub active_scene: String,
    pub slots: Vec<SceneSlot>,
}

/// The loaded scenes, in name order, with the active one and the play-mode snapshot.
#[derive(Debug)]
pub struct EditorSceneManager {
    pub slots: Vec<SceneSlot>,
    pub active_scene: String,
    pub play_snapshot: Option<PlaySnapshot>,
}

pub open spec fn opt_view(o: Option<String>) -> Option<Seq<char>> {
    match o {
        Some(s) => Some(s@),
        None => None,
    }
}

/// Slot names in strictly increasing order.
pub open spec fn slots_sorted(s: Seq<SceneSlot>) -> bool {
    forall|i: int, j: int| 0 <= i < j < s.len() ==> seq_lt(#[trigger] s[i].name@, #[trigger] s[j].name@)
}

pub open spec fn slots_have(s: Seq<SceneSlot>, name: Seq<char>) -> bool {
    exists|i: int| 0 <= i < s.len() && #[trigger] s[i].name@ == name
}

/// The saved fingerprint of the named slot (meaningful when it is there).
pub open spec fn slots_saved(s: Seq<SceneSlot>, name: Seq<char>) -> Option<Seq<char>> {
    opt_view(s[choose|i: int| 0 <= i < s.len() && #[trigger] s[i].name@ == name].saved_fingerprint)
}

/// Two slot lists hold the same scenes with the same saved fingerprints.
pub open spec fn same_slots(a: Seq<SceneSlot>, b: Seq<SceneSlot>) -> bool {
    &&& forall|n: Seq<char>| #[trigger] slots_have(a, n) <==> slots_have(b, n)
    &&& forall|n: Seq<char>| #[trigger] slots_have(a, n) ==> slots_saved(a, n) == slots_saved(b, n)
}

proof fn lemma_slot_at(s: Seq<SceneSlot>, k: int)
    requires
        slots_sorted(s),
        0 <= k < s.len(),
    ensures
        slots_have(s, s[k].name@),
        slots_saved(s, s[k].name@) == opt_view(s[k].saved_fingerprint),
{
    let n = s[k].name@;
    assert(slots_have(s, n));
    let j = choose|i: int| 0 <= i < s.len() && #[trigger] s[i].name@ == n;
    assert(s[j].name@ == n);
    lemma_seq_lt_irreflexive(n);
    if j != k {
        if j < k {
            assert(seq_lt(s[j].name@, s[k].name@));
        } else {
            assert(seq_lt(s[k].name@, s[j].name@));
        }
        assert(false);
    }
    assert(s[j] == s[k]);
}

fn copy_opt(o: &Option<String>) -> (r: Option<String>)
    ensures
        r == *o,
{
    match o {
        Some(s) => Some(s.clone()),
        None => None,
    }
}

fn copy_slots(s: &Vec<SceneSlot>) -> (out: Vec<SceneSlot>)
    ensures
        out@.len() == s@.len(),
        forall|i: int| 0 <= i < s@.len() ==> #[trigger] out@[i].name == s@[i].name && out@[i].saved_fingerprint
            == s@[i].saved_fingerprint,
{
    let mut out: Vec<SceneSlot> = Vec::new();
    let mut i: usize = 0;
    while i < s.len()
        invariant
            i <= s@.len(),
            out@.len() == i,
            forall|k: int| 0 <= k < i ==> #[trigger] out@[k].name == s@[k].name && out@[k].saved_fingerprint
                == s@[k].saved_fingerprint,
        decreases s@.len() - i,
    {
        let ghost before = out@;
        let slot = SceneSlot { name: s[i].name.clone(), saved_fingerprint: copy_opt(&s[i].saved_fingerprint) };
        out.push(slot);
        proof {
            assert(out@ == before.push(slot));
            assert forall|k: int| 0 <= k < i + 1 implies #[trigger] out@[k].name == s@[k].name
                && out@[k].saved_fingerprint == s@[k].saved_fingerprint by {
                if k < i {
                    assert(out@[k] == before[k]);
                }
            }
        }
        i = i + 1;
    }
    out
}

/// The position of the named slot, if any.
fn find_slot(s: &Vec<SceneSlot>, name: &str) -> (r: Option<usize>)
    requires
        slots_sorted(s@),
    ensures
        match r {
            Some(i) => i < s@.len() && s@[i as int].name@ == name@,
            None => !slots_have(s@, name@),
        },
{
    let n = chars_of(name);
    let mut i: usize = 0;
    while i < s.len()
        invariant
            i <= s@.len(),
            n@ == name@,
            forall|k: int| 0 <= k < i ==> #[trigger] s@[k].name@ != name@,
        decreases s@.len() - i,
    {
        let c = chars_of(s[i].name.as_str());
        if seq_eq(c.as_slice(), n.as_slice()) {
            return Some(i);
        }
        i = i + 1;
    }
    None
}

impl EditorSceneManager {
    /// Slot names stay sorted and unique, in the snapshot too.
    pub open spec fn wf(&self) -> bool {
        &&& slots_sorted(self.slots@)
        &&& match self.play_snapshot {
            Some(p) => slots_sorted(p.slots@),
            None => true,
        }
    }

    pub open spec fn has(&self, name: Seq<char>) -> bool {
        slots_have(self.slots@, name)
    }

    pub open spec fn saved(&self, name: Seq<char>) -> Option<Seq<char>> {
        slots_saved(self.slots@, name)
    }

    /// A manager holding one scene, which is active.
    pub fn from_scene(name: String, saved_fingerprint: Option<String>) -> (m: EditorSceneManager)
        ensures
            m.wf(),
            m.active_scene == name,
            m.play_snapshot is None,
            forall|n: Seq<char>| #[trigger] m.has(n) <==> n == name@,
            m.saved(name@) == opt_view(saved_fingerprint),
    {
        let active_scene = name.clone();
        let mut slots: Vec<SceneSlot> = Vec::new();
        slots.push(SceneSlot { name, saved_fingerprint });
        let m = EditorSceneManager { slots, active_scene, play_snapshot: None };
        proof {
            lemma_slot_at(m.slots@, 0);
        }
        m
    }

    /// Whether the named scene is loaded.
    pub fn contains(&self, name: &str) -> (b: bool)
        requires
            self.wf(),
        ensures
            b == self.has(name@),
    {
        find_slot(&self.slots, name).is_some()
    }

    /// Adds a loaded scene, replacing one of the same name.
    pub fn insert_scene(&mut self, name: String, saved_fingerprint: Option<String>)
        requires
            old(self).wf(),
        ensures
            final(self).wf(),
            final(self).active_scene == old(self).active_scene,
            final(self).play_snapshot == old(self).play_snapshot,
            forall|n: Seq<char>| #[trigger] final(self).has(n) <==> (old(self).has(n) || n == name@),
            final(self).saved(name@) == opt_view(saved_fingerprint),
            forall|n: Seq<char>| #[trigger] old(self).has(n) && n != name@ ==> final(self).saved(n) == old(self).saved(n),
    {
        let ghost before = self.slots@;
        let n = chars_of(name.as_str());
        let mut pos: usize = 0;
        let mut equal = false;
        let mut stop = false;
        while pos < self.slots.len() && !stop
            invariant
                pos <= self.slots@.len(),
                self.slots@ == before,
                slots_sorted(before),
                n@ == name@,
                equal ==> stop,
                stop ==> pos < before.len() && (equal ==> before[pos as int].name@ == name@) && (!equal ==> seq_lt(
                    name@,
                    before[pos as int].name@,
                )),
                forall|k: int| 0 <= k < pos ==> seq_lt(#[trigger] before[k].name@, name@),
            decreases before.len() - pos + (if stop { 0int } else { 1int }),
        {
            let c = chars_of(self.slots[pos].name.as_str());
            let r = compare_chars(n.as_slice(), c.as_slice());
            if r == 0 {
                equal = true;
                stop = true;
            } else if r == -1 {
                stop = true;
            } else {
                pos = pos + 1;
            }
        }
        let slot = SceneSlot { name, saved_fingerprint };
        let ghost s = slot;
        proof {
            if pos < before.len() {
                assert forall|k: int| pos < k < before.len() implies seq_lt(name@, #[trigger] before[k].name@) by {
                    assert(seq_lt(before[pos as int].name@, before[k].name@));
                    if !equal {
                        lemma_seq_lt_transitive(name@, before[pos as int].name@, before[k].name@);
                    }
                }
            }
        }
        if equal {
            self.slots.set(pos, slot);
            proof {
                let after = self.slots@;
                assert(after == before.update(pos as int, s));
                assert forall|i: int, j: int| 0 <= i < j < after.len() implies seq_lt(#[trigger] after[i].name@,
                    #[trigger] after[j].name@) by {
                    if i == pos {
                        assert(seq_lt(before[i].name@, before[j].name@));
                    } else if j == pos {
                        assert(seq_lt(before[i].name@, before[j].name@));
                    }
                }
                self.lemma_update_view(before, pos as int, s);
            }
        } else {
            self.slots.insert(pos, slot);
            proof {
                let after = self.slots@;
                assert(after == before.insert(pos as int, s));
                assert forall|i: int, j: int| 0 <= i < j < after.len() implies seq_lt(#[trigger] after[i].name@,
                    #[trigger] after[j].name@) by {
                    if i < pos && j == pos {
                    } else if i < pos && j > pos {
                        assert(after[j] == before[j - 1]);
                        lemma_seq_lt_transitive(before[i].name@, name@, before[j - 1].name@);
                    } else if i == pos {
                        assert(after[j] == before[j - 1]);
                    } else if i > pos {
                        assert(after[i] == before[i - 1]);
                        assert(after[j] == before[j - 1]);
                    }
                }
                self.lemma_insert_view(before, pos as int, s);
            }
        }
    }

    proof fn lemma_update_view(&self, before: Seq<SceneSlot>, pos: int, s: SceneSlot)
        requires
            slots_sorted(before),
            slots_sorted(self.slots@),
            0 <= pos < before.len(),
            before[pos].name@ == s.name@,
            self.slots@ == before.update(pos, s),
        ensures
            forall|n: Seq<char>| #[trigger] self.has(n) <==> (slots_have(before, n) || n == s.name@),
            self.saved(s.name@) == opt_view(s.saved_fingerprint),
            forall|n: Seq<char>| #[trigger] slots_have(before, n) && n != s.name@ ==> self.saved(n) == slots_saved(before, n),
    {
        lemma_slot_at(self.slots@, pos);
        assert forall|n: Seq<char>| #[trigger] self.has(n) <==> (slots_have(before, n) || n == s.name@) by {
            if self.has(n) {
                let i = choose|i: int| 0 <= i < self.slots@.len() && #[trigger] self.slots@[i].name@ == n;
                if i != pos {
                    assert(before[i].name@ == n);
                }
            }
            if slots_have(before, n) {
                let i = choose|i: int| 0 <= i < before.len() && #[trigger] before[i].name@ == n;
                if i != pos {
                    assert(self.slots@[i].name@ == n);
                }
            }
        }
        assert forall|n: Seq<char>| #[trigger] slots_have(before, n) && n != s.name@ implies self.saved(n) == slots_saved(
            before,
            n,
        ) by {
            let i = choose|i: int| 0 <= i < before.len() && #[trigger] before[i].name@ == n;
            lemma_slot_at(before, i);
            assert(i != pos);
            assert(self.slots@[i] == before[i]);
            lemma_slot_at(self.slots@, i);
        }
    }

    proof fn lemma_insert_view(&self, before: Seq<SceneSlot>, pos: int, s: SceneSlot)
        requires
            slots_sorted(before),
            slots_sorted(self.slots@),
            0 <= pos <= before.len(),
            self.slots@ == before.insert(pos, s),
        ensures
            forall|n: Seq<char>| #[trigger] self.has(n) <==> (slots_have(before, n) || n == s.name@),
            self.saved(s.name@) == opt_view(s.saved_fingerprint),
            forall|n: Seq<char>| #[trigger] slots_have(before, n) && n != s.name@ ==> self.saved(n) == slots_saved(before, n),
    {
        lemma_slot_at(self.slots@, pos);
        assert forall|n: Seq<char>| #[trigger] self.has(n) <==> (slots_have(before, n) || n == s.name@) by {
            if self.has(n) {
                let i = choose|i: int| 0 <= i < self.slots@.len() && #[trigger] self.slots@[i].name@ == n;
                if i < pos {
                    assert(before[i].name@ == n);
                } else if i > pos {
                    assert(before[i - 1].name@ == n);
                }
            }
            if slots_have(before, n) {
                let i = choose|i: int| 0 <= i < before.len() && #[trigger] before[i].name@ == n;
                if i < pos {
                    assert(self.slots@[i].name@ == n);
                } else {
                    assert(self.slots@[i + 1].name@ == n);
                }
            }
        }
        assert forall|n: Seq<char>| #[trigger] slots_have(before, n) && n != s.name@ implies self.saved(n) == slots_saved(
            before,
            n,
        ) by {
            let i = choose|i: int| 0 <= i < before.len() && #[trigger] before[i].name@ == n;
            lemma_slot_at(before, i);
            if i < pos {
                assert(self.slots@[i] == before[i]);
                lemma_slot_at(self.slots@, i);
            } else {
                assert(self.slots@[i + 1] == before[i]);
                lemma_slot_at(self.slots@, i + 1);
            }
        }
    }

    /// Makes the named scene active; fails when it is not loaded.
    pub fn set_active_scene(&mut self, name: &str) -> (r: Result<(), String>)
        requires
            old(self).wf(),
        ensures
            final(self).wf(),
            final(self).slots == old(self).slots,
            final(self).play_snapshot == old(self).play_snapshot,
            old(self).has(name@) ==> r is Ok && final(self).active_scene@ == name@,
            !old(self).has(name@) ==> (r matches Err(m) && m@ == "scene `"@ + name@ + "` is not loaded"@)
                && final(self).active_scene == old(self).active_scene,
    {
        if !self.contains(name) {
            let mut m = chars_of("scene `");
            append_str(&mut m, name);
            append_str(&mut m, "` is not loaded");
            return Err(string_of(m.as_slice()));
        }
        self.active_scene = owned(name);
        Ok(())
    }

    /// Whether a scene with the given saved fingerprint has unsaved changes, given the
    /// fingerprint of its current content.
    pub fn is_dirty(saved_fingerprint: &Option<String>, current: &str) -> (b: bool)
        ensures
            b == (opt_view(*saved_fingerprint) != Some(current@)),
    {
        match saved_fingerprint {
            Some(s) => {
                let a = chars_of(s.as_str());
                let b = chars_of(current);
                !seq_eq(a.as_slice(), b.as_slice())
            },
            None => true,
        }
    }
}

/// What entering play mode does: the scenes and the active scene stay, and the snapshot
/// records both.
pub open spec fn spec_entered(before: EditorSceneManager, after: EditorSceneManager) -> bool {
    &&& after.slots@.len() == before.slots@.len()
    &&& forall|i: int| 0 <= i < before.slots@.len() ==> (#[trigger] after.slots@[i]).name == before.slots@[i].name
        && after.slots@[i].saved_fingerprint == before.slots@[i].saved_fingerprint
    &&& after.active_scene == before.active_scene
    &&& after.play_snapshot matches Some(p) && p.active_scene == before.active_scene && p.slots@.len()
        == before.slots@.len() && forall|i: int| 0 <= i < before.slots@.len() ==> (#[trigger] p.slots@[i]).name
        == before.slots@[i].name && p.slots@[i].saved_fingerprint == before.slots@[i].saved_fingerprint
}

/// What stopping play mode does with the snapshot `p`: scenes that were not loaded when
/// play began are dropped, the others take back their saved fingerprints, and the active
/// scene returns to the snapshot's when it is still loaded (else the first scene, else
/// `main`).
pub open spec fn spec_stopped(before: EditorSceneManager, after: EditorSceneManager) -> bool {
    match before.play_snapshot {
        None => after.slots == before.slots && after.active_scene == before.active_scene && after.play_snapshot is None,
        Some(p) => {
            &&& after.play_snapshot is None
            &&& forall|n: Seq<char>| #[trigger] after.has(n) <==> (before.has(n) && slots_have(p.slots@, n))
            &&& forall|n: Seq<char>| #[trigger] after.has(n) ==> after.saved(n) == slots_saved(p.slots@, n)
            &&& after.active_scene@ == (if after.has(p.active_scene@) {
                p.active_scene@
            } else if after.slots@.len() > 0 {
                after.slots@[0].name@
            } else {
                "main"@
            })
        },
    }
}

/// Entering play mode and stopping it again, with nothing loaded or unloaded in between,
/// gives back the same scenes with the same saved state and the same active scene.
pub proof fn law_play_round_trip(m0: EditorSceneManager, m1: EditorSceneManager, m2: EditorSceneManager)
    requires
        m0.wf(),
        m0.play_snapshot is None,
        m0.has(m0.active_scene@),
        spec_entered(m0, m1),
        spec_stopped(m1, m2),
    ensures
        forall|n: Seq<char>| #[trigger] m2.has(n) <==> m0.has(n),
        forall|n: Seq<char>| #[trigger] m2.has(n) ==> m2.saved(n) == m0.saved(n),
        m2.active_scene@ == m0.active_scene@,
{
    let p = m1.play_snapshot.unwrap();
    assert(m1.slots@ =~= m0.slots@) by {
        assert forall|i: int| 0 <= i < m0.slots@.len() implies m1.slots@[i] == m0.slots@[i] by {
            assert(m1.slots@[i].name == m0.slots@[i].name);
        }
    }
    assert(p.slots@ =~= m0.slots@) by {
        assert forall|i: int| 0 <= i < m0.slots@.len() implies p.slots@[i] == m0.slots@[i] by {
            assert(p.slots@[i].name == m0.slots@[i].name);
        }
    }
}

impl EditorSceneManager {
    /// Remembers the scenes and the active scene for play mode (nothing happens when play
    /// mode is already on); fails, with the snapshot taken, when no active scene is loaded.
    pub fn enter_play_mode(&mut self) -> (r: Result<(), String>)
        requires
            old(self).wf(),
        ensures
            final(self).wf(),
            old(self).play_snapshot is Some ==> r is Ok && *final(self) == *old(self),
            old(self).play_snapshot is None ==> spec_entered(*old(self), *final(self)),
            old(self).play_snapshot is None && old(self).has(old(self).active_scene@) ==> r is Ok,
            old(self).play_snapshot is None && !old(self).has(old(self).active_scene@) ==> (r matches Err(m) && m@
                == "cannot enter Play mode because no active scene is loaded"@),
    {
        if self.play_snapshot.is_some() {
            return Ok(());
        }
        let slots = copy_slots(&self.slots);
        proof {
            assert forall|i: int, j: int| 0 <= i < j < slots@.len() implies seq_lt(#[trigger] slots@[i].name@,
                #[trigger] slots@[j].name@) by {
                assert(slots@[i].name == self.slots@[i].name);
                assert(slots@[j].name == self.slots@[j].name);
            }
        }
        self.play_snapshot = Some(PlaySnapshot { active_scene: self.active_scene.clone(), slots });
        if !self.contains(self.active_scene.as_str()) {
            return Err(owned("cannot enter Play mode because no active scene is loaded"));
        }
        Ok(())
    }

    /// Leaves play mode, going back to the snapshot taken on entering it. Returns the names
    /// of the scenes whose content the caller restores from its own copies.
    pub fn stop_play_mode(&mut self) -> (restored: Vec<String>)
        requires
            old(self).wf(),
        ensures
            final(self).wf(),
            spec_stopped(*old(self), *final(self)),
            old(self).play_snapshot is None ==> restored@.len() == 0,
            old(self).play_snapshot is Some ==> restored@.len() == final(self).slots@.len() && forall|i: int| 0 <= i
                < restored@.len() ==> #[trigger] restored@[i] == final(self).slots@[i].name,
    {
        let snapshot = match self.play_snapshot.take() {
            Some(p) => p,
            None => return Vec::new(),
        };
        let ghost before = self.slots@;
        let mut kept: Vec<SceneSlot> = Vec::new();
        let mut restored: Vec<String> = Vec::new();
        let mut i: usize = 0;
        while i < self.slots.len()
            invariant
                self.slots@ == before,
                slots_sorted(before),
                slots_sorted(snapshot.slots@),
                i <= before.len(),
                restored@.len() == kept@.len(),
                forall|k: int| 0 <= k < restored@.len() ==> #[trigger] restored@[k] == kept@[k].name,
                forall|a: int, b: int| 0 <= a < b < kept@.len() ==> seq_lt(#[trigger] kept@[a].name@,
                    #[trigger] kept@[b].name@),
                forall|a: int| 0 <= a < kept@.len() ==> exists|k: int| 0 <= k < i && #[trigger] before[k].name
                    == #[trigger] kept@[a].name,
                forall|n: Seq<char>| #[trigger] slots_have(kept@, n) <==> (slots_have(snapshot.slots@, n) && exists|k: int|
                    0 <= k < i && #[trigger] before[k].name@ == n),
                forall|a: int| 0 <= a < kept@.len() ==> opt_view(#[trigger] kept@[a].saved_fingerprint) == slots_saved(
                    snapshot.slots@,
                    kept@[a].name@,
                ),
            decreases before.len() - i,
        {
            let name = &self.slots[i].name;
            proof {
                lemma_slot_at(before, i as int);
            }
            match find_slot(&snapshot.slots, name.as_str()) {
                Some(j) => {
                    proof {
                        lemma_slot_at(snapshot.slots@, j as int);
                    }
                    let ghost old_kept = kept@;
                    kept.push(SceneSlot { name: name.clone(), saved_fingerprint: copy_opt(&snapshot.slots[j].saved_fingerprint) });
                    let ghost pushed = kept@[old_kept.len() as int];
                    restored.push(name.clone());
                    proof {
                        assert(kept@ == old_kept.push(pushed));
                        assert forall|a: int| 0 <= a < old_kept.len() implies #[trigger] kept@[a] == old_kept[a] by {}
                        assert forall|a: int, b: int| 0 <= a < b < kept@.len() implies seq_lt(#[trigger] kept@[a].name@,
                            #[trigger] kept@[b].name@) by {
                            if b == old_kept.len() {
                                assert(kept@[a] == old_kept[a]);
                                let k = choose|k: int| 0 <= k < i && #[trigger] before[k].name == old_kept[a].name;
                                assert(seq_lt(before[k].name@, before[i as int].name@));
                            }
                        }
                        assert forall|a: int| 0 <= a < kept@.len() implies exists|k: int| 0 <= k < i + 1
                            && #[trigger] before[k].name == #[trigger] kept@[a].name by {
                            if a < old_kept.len() {
                                assert(kept@[a] == old_kept[a]);
                                let k = choose|k: int| 0 <= k < i && #[trigger] before[k].name == old_kept[a].name;
                            } else {
                                assert(before[i as int].name == kept@[a].name);
                            }
                        }
                        assert forall|n: Seq<char>| #[trigger] slots_have(kept@, n) <==> (slots_have(snapshot.slots@, n)
                            && exists|k: int| 0 <= k < i + 1 && #[trigger] before[k].name@ == n) by {
                            if slots_have(kept@, n) {
                                let a = choose|a: int| 0 <= a < kept@.len() && #[trigger] kept@[a].name@ == n;
                                if a < old_kept.len() {
                                    assert(kept@[a] == old_kept[a]);
                                    assert(slots_have(old_kept, n));
                                } else {
                                    assert(before[i as int].name@ == n);
                                    assert(snapshot.slots@[j as int].name@ == n);
                                }
                            }
                            if slots_have(snapshot.slots@, n) && exists|k: int| 0 <= k < i + 1 && #[trigger] before[k].name@ == n {
                                let k = choose|k: int| 0 <= k < i + 1 && #[trigger] before[k].name@ == n;
                                if k < i {
                                    assert(before[k].name@ == n);
                                    assert(exists|k2: int| 0 <= k2 < i && #[trigger] before[k2].name@ == n);
                                    assert(slots_have(old_kept, n));
                                    let a = choose|a: int| 0 <= a < old_kept.len() && #[trigger] old_kept[a].name@ == n;
                                    assert(kept@[a] == old_kept[a]);
                                } else {
                                    assert(kept@[old_kept.len() as int].name@ == n);
                                }
                            }
                        }
                        assert forall|a: int| 0 <= a < kept@.len() implies opt_view(#[trigger] kept@[a].saved_fingerprint)
                            == slots_saved(snapshot.slots@, kept@[a].name@) by {
                            if a < old_kept.len() {
                                assert(kept@[a] == old_kept[a]);
                            }
                        }
                    }
                },
                None => {
                    proof {
                        assert forall|n: Seq<char>| #[trigger] slots_have(kept@, n) <==> (slots_have(snapshot.slots@, n)
                            && exists|k: int| 0 <= k < i + 1 && #[trigger] before[k].name@ == n) by {
                            if slots_have(snapshot.slots@, n) && exists|k: int| 0 <= k < i + 1 && #[trigger] before[k].name@ == n {
                                let k = choose|k: int| 0 <= k < i + 1 && #[trigger] before[k].name@ == n;
                                assert(k < i);
                            }
                        }
                        assert forall|a: int| 0 <= a < kept@.len() implies exists|k: int| 0 <= k < i + 1
                            && #[trigger] before[k].name == #[trigger] kept@[a].name by {
                            let k = choose|k: int| 0 <= k < i && #[trigger] before[k].name == kept@[a].name;
                        }
                    }
                },
            }
            i = i + 1;
        }
        let ghost old_self = *self;
        self.slots = kept;
        proof {
            assert forall|n: Seq<char>| #[trigger] self.has(n) <==> (old_self.has(n) && slots_have(snapshot.slots@, n)) by {
                if old_self.has(n) {
                    let k = choose|k: int| 0 <= k < before.len() && #[trigger] before[k].name@ == n;
                }
            }
            assert forall|n: Seq<char>| #[trigger] self.has(n) implies self.saved(n) == slots_saved(snapshot.slots@, n) by {
                let a = choose|a: int| 0 <= a < self.slots@.len() && #[trigger] self.slots@[a].name@ == n;
                lemma_slot_at(self.slots@, a);
            }
        }
        if self.contains(snapshot.active_scene.as_str()) {
            self.active_scene = snapshot.active_scene;
        } else if self.slots.len() > 0 {
            self.active_scene = self.slots[0].name.clone();
        } else {
            self.active_scene = owned("main");
        }
        restored
    }

    /// The scenes as the switcher shows them, in name order; `current` holds the
    /// fingerprint of each scene's present content, in the same order.
    pub fn scene_infos(&self, current: &[String]) -> (infos: Vec<SceneInfo>)
        requires
            current@.len() == self.slots@.len(),
        ensures
            infos@.len() == self.slots@.len(),
            forall|i: int| 0 <= i < infos@.len() ==> {
                &&& (#[trigger] infos@[i]).name == self.slots@[i].name
                &&& infos@[i].active == (self.slots@[i].name@ == self.active_scene@)
                &&& infos@[i].dirty == (opt_view(self.slots@[i].saved_fingerprint) != Some(current@[i]@))
            },
    {
        let mut infos: Vec<SceneInfo> = Vec::new();
        let active = chars_of(self.active_scene.as_str());
        let mut i: usize = 0;
        while i < self.slots.len()
            invariant
                i <= self.slots@.len(),
                current@.len() == self.slots@.len(),
                active@ == self.active_scene@,
                infos@.len() == i,
                forall|k: int| 0 <= k < i ==> {
                    &&& (#[trigger] infos@[k]).name == self.slots@[k].name
                    &&& infos@[k].active == (self.slots@[k].name@ == self.active_scene@)
                    &&& infos@[k].dirty == (opt_view(self.slots@[k].saved_fingerprint) != Some(current@[k]@))
                },
            decreases self.slots@.len() - i,
        {
            let n = chars_of(self.slots[i].name.as_str());
            let is_active = seq_eq(n.as_slice(), active.as_slice());
            let dirty = EditorSceneManager::is_dirty(&self.slots[i].saved_fingerprint, current[i].as_str());
            infos.push(SceneInfo { name: self.slots[i].name.clone(), active: is_active, dirty });
            i = i + 1;
        }
        infos
    }

    /// Whether any scene has unsaved changes, given each scene's present fingerprint.
    pub fn has_dirty_scenes(&self, current: &[String]) -> (b: bool)
        requires
            current@.len() == self.slots@.len(),
        ensures
            b == exists|i: int| 0 <= i < self.slots@.len() && opt_view(#[trigger] self.slots@[i].saved_fingerprint)
                != Some(current@[i]@),
    {
        let mut i: usize = 0;
        while i < self.slots.len()
            invariant
                i <= self.slots@.len(),
                current@.len() == self.slots@.len(),
                forall|k: int| 0 <= k < i ==> opt_view(#[trigger] self.slots@[k].saved_fingerprint) == Some(current@[k]@),
            decreases self.slots@.len() - i,
        {
            if EditorSceneManager::is_dirty(&self.slots[i].saved_fingerprint, current[i].as_str()) {
                return true;
            }
            i = i + 1;
        }
        false
    }

    /// Records that the named scene was saved with the given fingerprint.
    pub fn mark_saved(&mut self, name: &str, fingerprint: String)
        requires
            old(self).wf(),
        ensures
            final(self).wf(),
            final(self).active_scene == old(self).active_scene,
            forall|n: Seq<char>| #[trigger] final(self).has(n) <==> old(self).has(n),
            old(self).has(name@) ==> final(self).saved(name@) == Some(fingerprint@),
            forall|n: Seq<char>| #[trigger] old(self).has(n) && n != name@ ==> final(self).saved(n) == old(self).saved(n),
    {
        if self.contains(name) {
            self.insert_scene(owned(name), Some(fingerprint));
        }
    }
}

/// Whether some string of `v` has the characters `n`.
pub open spec fn lists(v: Seq<String>, n: Seq<char>) -> bool {
    exists|i: int| 0 <= i < v.len() && #[trigger] v[i]@ == n
}

fn lists_exec(v: &[String], n: &str) -> (b: bool)
    ensures
        b == lists(v@, n@),
{
    let nc = chars_of(n);
    let mut i: usize = 0;
    while i < v.len()
        invariant
            i <= v@.len(),
            nc@ == n@,
            forall|k: int| 0 <= k < i ==> #[trigger] v@[k]@ != n@,
        decreases v@.len() - i,
    {
        let c = chars_of(v[i].as_str());
        if seq_eq(c.as_slice(), nc.as_slice()) {
            return true;
        }
        i = i + 1;
    }
    false
}

impl EditorSceneManager {
    /// After the project's scene list changed: keeps the scenes found on disk
    /// (`scene_names`), those the project lists, and those with unsaved changes (`dirty`,
    /// one flag per loaded scene in order); when the active scene went, the main scene
    /// becomes active if loaded, else the first scene, else the main scene's name.
    pub fn retain_project_scenes(&mut self, scene_names: &[String], project_scenes: &[String], main_scene: &str,
        dirty: &[bool])
        requires
            old(self).wf(),
            dirty@.len() == old(self).slots@.len(),
        ensures
            final(self).wf(),
            final(self).play_snapshot == old(self).play_snapshot,
            forall|n: Seq<char>| #[trigger] final(self).has(n) <==> (exists|i: int| 0 <= i < old(self).slots@.len()
                && #[trigger] old(self).slots@[i].name@ == n && (lists(scene_names@, n) || lists(project_scenes@, n)
                || dirty@[i])),
            forall|n: Seq<char>| #[trigger] final(self).has(n) ==> final(self).saved(n) == old(self).saved(n),
            final(self).active_scene@ == (if final(self).has(old(self).active_scene@) {
                old(self).active_scene@
            } else if final(self).has(main_scene@) {
                main_scene@
            } else if final(self).slots@.len() > 0 {
                final(self).slots@[0].name@
            } else {
                main_scene@
            }),
    {
        let ghost before = self.slots@;
        let ghost old_self = *self;
        let mut kept: Vec<SceneSlot> = Vec::new();
        let mut i: usize = 0;
        while i < self.slots.len()
            invariant
                self.slots@ == before,
                old_self.slots@ == before,
                slots_sorted(before),
                dirty@.len() == before.len(),
                i <= before.len(),
                forall|a: int, b: int| 0 <= a < b < kept@.len() ==> seq_lt(#[trigger] kept@[a].name@,
                    #[trigger] kept@[b].name@),
                forall|a: int| 0 <= a < kept@.len() ==> exists|k: int| 0 <= k < i && #[trigger] before[k].name
                    == #[trigger] kept@[a].name && before[k].saved_fingerprint == kept@[a].saved_fingerprint,
                forall|n: Seq<char>| #[trigger] slots_have(kept@, n) <==> (exists|k: int| 0 <= k < i
                    && #[trigger] before[k].name@ == n && (lists(scene_names@, n) || lists(project_scenes@, n)
                    || dirty@[k])),
            decreases before.len() - i,
        {
            let name = &self.slots[i].name;
            let keep = lists_exec(scene_names, name.as_str()) || lists_exec(project_scenes, name.as_str()) || dirty[i];
            let ghost old_kept = kept@;
            if keep {
                kept.push(SceneSlot { name: name.clone(), saved_fingerprint: copy_opt(&self.slots[i].saved_fingerprint) });
                proof {
                    let pushed = kept@[old_kept.len() as int];
                    assert(kept@ == old_kept.push(pushed));
                    assert forall|a: int, b: int| 0 <= a < b < kept@.len() implies seq_lt(#[trigger] kept@[a].name@,
                        #[trigger] kept@[b].name@) by {
                        if b == old_kept.len() {
                            assert(kept@[a] == old_kept[a]);
                            let k = choose|k: int| 0 <= k < i && #[trigger] before[k].name == old_kept[a].name
                                && before[k].saved_fingerprint == old_kept[a].saved_fingerprint;
                            assert(seq_lt(before[k].name@, before[i as int].name@));
                        }
                    }
                    assert forall|a: int| 0 <= a < kept@.len() implies exists|k: int| 0 <= k < i + 1
                        && #[trigger] before[k].name == #[trigger] kept@[a].name && before[k].saved_fingerprint
                        == kept@[a].saved_fingerprint by {
                        if a < old_kept.len() {
                            assert(kept@[a] == old_kept[a]);
                            let k = choose|k: int| 0 <= k < i && #[trigger] before[k].name == old_kept[a].name
                                && before[k].saved_fingerprint == old_kept[a].saved_fingerprint;
                        } else {
                            assert(before[i as int].name == kept@[a].name);
                        }
                    }
                }
            }
            proof {
                assert forall|n: Seq<char>| #[trigger] slots_have(kept@, n) <==> (exists|k: int| 0 <= k < i + 1
                    && #[trigger] before[k].name@ == n && (lists(scene_names@, n) || lists(project_scenes@, n)
                    || dirty@[k])) by {
                    if slots_have(kept@, n) {
                        let a = choose|a: int| 0 <= a < kept@.len() && #[trigger] kept@[a].name@ == n;
                        if a < old_kept.len() {
                            assert(kept@[a] == old_kept[a]);
                            assert(slots_have(old_kept, n));
                        } else {
                            assert(before[i as int].name@ == n);
                        }
                    }
                    if exists|k: int| 0 <= k < i + 1 && #[trigger] before[k].name@ == n && (lists(scene_names@, n)
                        || lists(project_scenes@, n) || dirty@[k]) {
                        let k = choose|k: int| 0 <= k < i + 1 && #[trigger] before[k].name@ == n && (lists(scene_names@, n)
                            || lists(project_scenes@, n) || dirty@[k]);
                        if k < i {
                            assert(slots_have(old_kept, n));
                            let a = choose|a: int| 0 <= a < old_kept.len() && #[trigger] old_kept[a].name@ == n;
                            assert(kept@[a] == old_kept[a]);
                        } else {
                            assert(keep);
                            assert(kept@[old_kept.len() as int].name@ == n);
                        }
                    }
                }
                if !keep {
                    assert forall|a: int| 0 <= a < kept@.len() implies exists|k: int| 0 <= k < i + 1
                        && #[trigger] before[k].name == #[trigger] kept@[a].name && before[k].saved_fingerprint
                        == kept@[a].saved_fingerprint by {
                        let k = choose|k: int| 0 <= k < i && #[trigger] before[k].name == kept@[a].name
                            && before[k].saved_fingerprint == kept@[a].saved_fingerprint;
                    }
                }
            }
            i = i + 1;
        }
        self.slots = kept;
        let ghost kv = self.slots@;
        proof {
            assert forall|n: Seq<char>| #[trigger] slots_have(kv, n) implies slots_saved(kv, n) == slots_saved(before, n) by {
                let a = choose|a: int| 0 <= a < kv.len() && #[trigger] kv[a].name@ == n;
                lemma_slot_at(kv, a);
                let k = choose|k: int| 0 <= k < before.len() && #[trigger] before[k].name == kv[a].name
                    && before[k].saved_fingerprint == kv[a].saved_fingerprint;
                lemma_slot_at(before, k);
            }
        }
        if self.contains(self.active_scene.as_str()) {
            return;
        }
        if self.contains(main_scene) {
            self.active_scene = owned(main_scene);
        } else if self.slots.len() > 0 {
            self.active_scene = self.slots[0].name.clone();
        } else {
            self.active_scene = owned(main_scene);
        }
    }
}

/// The names among `names` that are not loaded and whose file exists, in order.
pub open spec fn names_to_load(m: EditorSceneManager, names: Seq<String>, file_exists: Seq<bool>) -> Seq<Seq<char>>
    decreases names.len(),
{
    if names.len() == 0 {
        Seq::empty()
    } else {
        let i = names.len() - 1;
        let rest = names_to_load(m, names.drop_last(), file_exists);
        if !m.has(names[i]@) && file_exists[i] {
            rest.push(names[i]@)
        } else {
            rest
        }
    }
}

impl EditorSceneManager {
    /// The scenes to load from disk: those named in `scene_names` that are not loaded and
    /// whose file exists (`file_exists`, one flag per name), in the given order.
    pub fn scenes_to_load(&self, scene_names: &[String], file_exists: &[bool]) -> (out: Vec<String>)
        requires
            self.wf(),
            file_exists@.len() == scene_names@.len(),
        ensures
            string_views(out@) == names_to_load(*self, scene_names@, file_exists@),
    {
        let mut out: Vec<String> = Vec::new();
        let mut i: usize = 0;
        while i < scene_names.len()
            invariant
                self.wf(),
                i <= scene_names@.len(),
                file_exists@.len() == scene_names@.len(),
                string_views(out@) == names_to_load(*self, scene_names@.take(i as int), file_exists@),
            decreases scene_names@.len() - i,
        {
            proof {
                assert(scene_names@.take(i + 1).drop_last() =~= scene_names@.take(i as int));
            }
            if !self.contains(scene_names[i].as_str()) && file_exists[i] {
                let ghost before = string_views(out@);
                out.push(scene_names[i].clone());
                proof {
                    assert(string_views(out@) =~= before.push(scene_names@[i as int]@));
                }
            }
            i = i + 1;
        }
        proof {
            assert(scene_names@.take(i as int) =~= scene_names@);
        }
        out
    }
}

/// Why a new scene cannot be created.
#[derive(Debug, Clone, Copy, PartialEq, Eq)]
pub enum NewSceneError {
    /// A scene of that name is loaded.
    AlreadyLoaded,
    NoProject,
    /// The scene's file is already on disk.
    FileExists,
    InvalidName(SceneNameError),
    /// The project already lists the scene.
    AlreadyRegistered,
}

/// The first reason, in the order they are checked, that a scene named `name` cannot be
/// created: loaded already, no project, its file exists, an invalid (trimmed) name, or
/// listed by the project already.
pub open spec fn spec_new_scene_error(loaded: bool, project_scenes: Option<Seq<Seq<char>>>, file_exists: bool,
    name: Seq<char>) -> Option<NewSceneError> {
    if loaded {
        Some(NewSceneError::AlreadyLoaded)
    } else {
        match project_scenes {
            None => Some(NewSceneError::NoProject),
            Some(scenes) => if file_exists {
                Some(NewSceneError::FileExists)
            } else {
                match scene_name_error(crate::text::trimmed(name)) {
                    Some(e) => Some(NewSceneError::InvalidName(e)),
                    None => if scenes.contains(crate::text::trimmed(name)) {
                        Some(NewSceneError::AlreadyRegistered)
                    } else {
                        None
                    },
                }
            },
        }
    }
}

/// Checks that a new scene `name` can be created, given the loaded scenes (if any), the
/// project (if any) and whether the scene's file exists.
pub fn check_new_scene(manager: Option<&EditorSceneManager>, project: Option<&Project>, scene_file_exists: bool,
    name: &str) -> (r: Result<(), NewSceneError>)
    requires
        manager matches Some(m) ==> m.wf(),
    ensures
        ({
            let loaded = match manager {
                Some(m) => m.has(name@),
                None => false,
            };
            let scenes = match project {
                Some(p) => Some(string_views(p.scenes@)),
                None => None,
            };
            match r {
                Ok(()) => spec_new_scene_error(loaded, scenes, scene_file_exists, name@) is None,
                Err(e) => spec_new_scene_error(loaded, scenes, scene_file_exists, name@) == Some(e),
            }
        }),
{
    match manager {
        Some(m) => {
            if m.contains(name) {
                return Err(NewSceneError::AlreadyLoaded);
            }
        },
        None => {},
    }
    let p = match project {
        Some(p) => p,
        None => return Err(NewSceneError::NoProject),
    };
    if scene_file_exists {
        return Err(NewSceneError::FileExists);
    }
    let mut trial = p.copy();
    match trial.add_scene(name) {
        Err(e) => Err(NewSceneError::InvalidName(e)),
        Ok(false) => Err(NewSceneError::AlreadyRegistered),
        Ok(true) => Ok(()),
    }
}

/// The message for a scene that cannot be created.
pub open spec fn spec_new_scene_message(e: NewSceneError, name: Seq<char>) -> Seq<char> {
    match e {
        NewSceneError::AlreadyLoaded => "scene `"@ + name + "` is already loaded"@,
        NewSceneError::NoProject => "cannot create scene `"@ + name + "` without a project loaded"@,
        NewSceneError::FileExists => "scene `"@ + name + "` already exists; open it instead"@,
        NewSceneError::InvalidName(n) => spec_scene_name_message(n, crate::text::trimmed(name)),
        NewSceneError::AlreadyRegistered => "scene `"@ + name + "` is already registered in the project"@,
    }
}

/// Says why the scene `name` cannot be created.
pub fn new_scene_message(e: NewSceneError, name: &str) -> (m: String)
    ensures
        m@ == spec_new_scene_message(e, name@),
{
    match e {
        NewSceneError::InvalidName(n) => {
            let t = crate::text::trim_string(name);
            scene_name_message(n, t.as_str())
        },
        NewSceneError::NoProject => {
            let mut v = chars_of("cannot create scene `");
            append_str(&mut v, name);
            append_str(&mut v, "` without a project loaded");
            string_of(v.as_slice())
        },
        _ => {
            let mut v = chars_of("scene `");
            append_str(&mut v, name);
            match e {
                NewSceneError::AlreadyLoaded => append_str(&mut v, "` is already loaded"),
                NewSceneError::FileExists => append_str(&mut v, "` already exists; open it instead"),
                _ => append_str(&mut v, "` is already registered in the project"),
            }
            string_of(v.as_slice())
        },
    }
}

impl EditorSceneManager {
    /// The scenes with unsaved changes, in name order, given each scene's present
    /// fingerprint: the ones saving all dirty scenes writes.
    pub fn dirty_scene_names(&self, current: &[String]) -> (out: Vec<String>)
        requires
            current@.len() == self.slots@.len(),
        ensures
            string_views(out@) == dirty_names(self.slots@, current@),
    {
        let mut out: Vec<String> = Vec::new();
        let mut i: usize = 0;
        while i < self.slots.len()
            invariant
                i <= self.slots@.len(),
                current@.len() == self.slots@.len(),
                string_views(out@) == dirty_names(self.slots@.take(i as int), current@),
            decreases self.slots@.len() - i,
        {
            proof {
                assert(self.slots@.take(i + 1).drop_last() =~= self.slots@.take(i as int));
            }
            if EditorSceneManager::is_dirty(&self.slots[i].saved_fingerprint, current[i].as_str()) {
                let ghost before = string_views(out@);
                out.push(self.slots[i].name.clone());
                proof {
                    assert(string_views(out@) =~= before.push(self.slots@[i as int].name@));
                }
            }
            i = i + 1;
        }
        proof {
            assert(self.slots@.take(i as int) =~= self.slots@);
        }
        out
    }
}

/// The names of the slots whose saved fingerprint differs from the present one.
pub open spec fn dirty_names(slots: Seq<SceneSlot>, current: Seq<String>) -> Seq<Seq<char>>
    decreases slots.len(),
{
    if slots.len() == 0 {
        Seq::empty()
    } else {
        let i = slots.len() - 1;
        let rest = dirty_names(slots.drop_last(), current);
        if opt_view(slots[i].saved_fingerprint) != Some(current[i]@) {
            rest.push(slots[i].name@)
        } else {
            rest
        }
    }
}


impl EditorSceneManager {
    /// Records that every scene with unsaved changes was written with its present
    /// fingerprint (`current`, one per scene, in slot order): the end of saving all dirty
    /// scenes. Returns how many scenes were dirty. Afterwards no scene is dirty.
    pub fn mark_dirty_saved(&mut self, current: &[String]) -> (saved: usize)
        requires
            old(self).wf(),
            current@.len() == old(self).slots@.len(),
        ensures
            final(self).wf(),
            saved == dirty_names(old(self).slots@, current@).len(),
            final(self).active_scene == old(self).active_scene,
            final(self).slots@.len() == old(self).slots@.len(),
            forall|i: int| 0 <= i < final(self).slots@.len() ==> (#[trigger] final(self).slots@[i]).name@
                == old(self).slots@[i].name@ && opt_view(final(self).slots@[i].saved_fingerprint) == Some(current@[i]@),
            dirty_names(final(self).slots@, current@) == Seq::<Seq<char>>::empty(),
    {
        let ghost before = self.slots@;
        let mut saved: usize = 0;
        let mut i: usize = 0;
        while i < self.slots.len()
            invariant
                i <= self.slots@.len(),
                self.slots@.len() == before.len(),
                current@.len() == before.len(),
                self.active_scene == old(self).active_scene,
                self.play_snapshot == old(self).play_snapshot,
                forall|k: int| 0 <= k < self.slots@.len() ==> (#[trigger] self.slots@[k]).name@ == before[k].name@,
                forall|k: int| 0 <= k < i ==> opt_view((#[trigger] self.slots@[k]).saved_fingerprint) == Some(current@[k]@),
                forall|k: int| i <= k < self.slots@.len() ==> #[trigger] self.slots@[k] == before[k],
                saved == dirty_names(before.take(i as int), current@).len(),
                saved <= i,
            decreases self.slots@.len() - i,
        {
            proof {
                assert(before.take(i + 1).drop_last() =~= before.take(i as int));
            }
            if EditorSceneManager::is_dirty(&self.slots[i].saved_fingerprint, current[i].as_str()) {
                let slot = SceneSlot { name: self.slots[i].name.clone(), saved_fingerprint: Some(current[i].clone()) };
                self.slots.set(i, slot);
                saved = saved + 1;
            }
            i = i + 1;
        }
        proof {
            assert(before.take(i as int) =~= before);
            assert(slots_sorted(self.slots@)) by {
                assert forall|a: int, b: int| 0 <= a < b < self.slots@.len() implies seq_lt(
                    #[trigger] self.slots@[a].name@,
                    #[trigger] self.slots@[b].name@,
                ) by {
                    assert(seq_lt(before[a].name@, before[b].name@));
                }
            }
            lemma_none_dirty(self.slots@, current@);
        }
        saved
    }
}

/// With every saved fingerprint equal to the present one, no scene is dirty.
proof fn lemma_none_dirty(slots: Seq<SceneSlot>, current: Seq<String>)
    requires
        slots.len() <= current.len(),
        forall|k: int| 0 <= k < slots.len() ==> opt_view((#[trigger] slots[k]).saved_fingerprint) == Some(current[k]@),
    ensures
        dirty_names(slots, current) == Seq::<Seq<char>>::empty(),
    decreases slots.len(),
{
    if slots.len() > 0 {
        let r = slots.drop_last();
        assert forall|k: int| 0 <= k < r.len() implies opt_view((#[trigger] r[k]).saved_fingerprint) == Some(current[k]@) by {
            assert(r[k] == slots[k]);
        }
        lemma_none_dirty(r, current);
        assert(opt_view(slots[slots.len() - 1].saved_fingerprint) == Some(current[slots.len() - 1]@));
    }
}

} // verus!
