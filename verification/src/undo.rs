//! A bounded undo/redo history of editor commands.
use vstd::prelude::*;

verus! {

/// An edit that can be applied to and reverted from a scene.
pub trait Command<S> {
    fn execute(&mut self, scene: &mut S) -> Result<(), String>;

    fn undo(&mut self, scene: &mut S) -> Result<(), String>;
}

/// `stack` with `c` pushed on top; when the stack is at `cap`, the oldest entry is dropped,
/// and with a capacity of zero nothing is kept.
pub open spec fn push_capped<C>(stack: Seq<C>, c: C, cap: nat) -> Seq<C> {
    if cap == 0 {
        stack
    } else if stack.len() == cap {
        stack.drop_first().push(c)
    } else {
        stack.push(c)
    }
}

/// The stacks after a command on top of the undo stack was reverted: it moves to the redo stack.
pub open spec fn undone<C>(undo: Seq<C>, redo: Seq<C>) -> (Seq<C>, Seq<C>) {
    (undo.drop_last(), redo.push(undo.last()))
}

/// The stacks after a command on top of the redo stack was re-applied: it moves back to the
/// (bounded) undo stack.
pub open spec fn redone<C>(undo: Seq<C>, redo: Seq<C>, cap: nat) -> (Seq<C>, Seq<C>) {
    (push_capped(undo, redo.last(), cap), redo.drop_last())
}

/// A bounded history of commands. Every recorded command gets an entry number that
/// travels with it between the two stacks, so that which command moves can be told apart
/// from the commands themselves, whose `execute` and `undo` may change them.
pub struct UndoRedoBuffer<C> {
    undo_stack: Vec<C>,
    redo_stack: Vec<C>,
    undo_keys: Vec<u64>,
    redo_keys: Vec<u64>,
    next_key: u64,
    max_capacity: usize,
}

impl<C> UndoRedoBuffer<C> {
    /// The undo stack, oldest first.
    pub closed spec fn undo_seq(&self) -> Seq<C> {
        self.undo_stack@
    }

    /// The redo stack, oldest first.
    pub closed spec fn redo_seq(&self) -> Seq<C> {
        self.redo_stack@
    }

    /// The entry numbers of the undo stack's commands, oldest first.
    pub closed spec fn undo_keys(&self) -> Seq<u64> {
        self.undo_keys@
    }

    /// The entry numbers of the redo stack's commands, oldest first.
    pub closed spec fn redo_keys(&self) -> Seq<u64> {
        self.redo_keys@
    }

    /// The entry number the next recorded command gets.
    pub closed spec fn next_key(&self) -> u64 {
        self.next_key
    }

    pub closed spec fn capacity(&self) -> nat {
        self.max_capacity as nat
    }

    /// The undo stack never holds more than the capacity, and each command has its number.
    pub closed spec fn wf(&self) -> bool {
        &&& self.undo_stack@.len() <= self.max_capacity
        &&& self.undo_keys@.len() == self.undo_stack@.len()
        &&& self.redo_keys@.len() == self.redo_stack@.len()
    }

    /// The undo stack never holds more than the capacity, and each command has its number.
    pub proof fn lemma_wf(&self)
        requires
            self.wf(),
        ensures
            self.undo_seq().len() <= self.capacity(),
            self.undo_keys().len() == self.undo_seq().len(),
            self.redo_keys().len() == self.redo_seq().len(),
    {
    }

    /// An empty history keeping at most `max_capacity` undo steps.
    pub fn new(max_capacity: usize) -> (b: Self)
        ensures
            b.wf(),
            b.undo_seq() == Seq::<C>::empty(),
            b.redo_seq() == Seq::<C>::empty(),
            b.undo_keys() == Seq::<u64>::empty(),
            b.redo_keys() == Seq::<u64>::empty(),
            b.next_key() == 0,
            b.capacity() == max_capacity,
    {
        UndoRedoBuffer {
            undo_stack: Vec::new(),
            redo_stack: Vec::new(),
            undo_keys: Vec::new(),
            redo_keys: Vec::new(),
            next_key: 0,
            max_capacity,
        }
    }

    pub fn undo_depth(&self) -> (n: usize)
        ensures
            n == self.undo_seq().len(),
    {
        self.undo_stack.len()
    }

    pub fn redo_depth(&self) -> (n: usize)
        ensures
            n == self.redo_seq().len(),
    {
        self.redo_stack.len()
    }

    fn push_undo(&mut self, key: u64, command: C)
        requires
            old(self).wf(),
        ensures
            final(self).wf(),
            final(self).undo_seq() == push_capped(old(self).undo_seq(), command, old(self).capacity()),
            final(self).undo_keys() == push_capped(old(self).undo_keys(), key, old(self).capacity()),
            final(self).redo_seq() == old(self).redo_seq(),
            final(self).redo_keys() == old(self).redo_keys(),
            final(self).next_key() == old(self).next_key(),
            final(self).capacity() == old(self).capacity(),
    {
        if self.max_capacity == 0 {
            return;
        }
        if self.undo_stack.len() == self.max_capacity {
            self.undo_stack.remove(0);
            self.undo_keys.remove(0);
        }
        self.undo_stack.push(command);
        self.undo_keys.push(key);
        proof {
            let o = old(self).undo_seq();
            let k = old(self).undo_keys();
            if o.len() == old(self).capacity() {
                assert(o.remove(0) =~= o.drop_first());
                assert(k.remove(0) =~= k.drop_first());
            }
        }
    }

    fn fresh_key(&mut self) -> (k: u64)
        ensures
            k == old(self).next_key(),
            final(self).undo_seq() == old(self).undo_seq(),
            final(self).redo_seq() == old(self).redo_seq(),
            final(self).undo_keys() == old(self).undo_keys(),
            final(self).redo_keys() == old(self).redo_keys(),
            final(self).capacity() == old(self).capacity(),
            final(self).wf() == old(self).wf(),
    {
        let k = self.next_key;
        self.next_key = if k < u64::MAX { k + 1 } else { 0 };
        k
    }

    /// Records a command that was already applied: it becomes the newest undo step, under
    /// the next entry number, and the redo history is discarded.
    pub fn record_executed(&mut self, command: C)
        requires
            old(self).wf(),
        ensures
            final(self).wf(),
            final(self).undo_seq() == push_capped(old(self).undo_seq(), command, old(self).capacity()),
            final(self).undo_keys() == push_capped(old(self).undo_keys(), old(self).next_key(), old(self).capacity()),
            final(self).redo_seq() == Seq::<C>::empty(),
            final(self).redo_keys() == Seq::<u64>::empty(),
            final(self).capacity() == old(self).capacity(),
    {
        let key = self.fresh_key();
        self.push_undo(key, command);
        self.redo_stack.clear();
        self.redo_keys.clear();
    }

    /// Settles an execution attempt: a command that applied is recorded, one that failed is
    /// dropped and the history left as it was.
    pub fn finish_execute(&mut self, command: C, applied: bool)
        requires
            old(self).wf(),
        ensures
            final(self).wf(),
            final(self).capacity() == old(self).capacity(),
            applied ==> final(self).undo_seq() == push_capped(old(self).undo_seq(), command, old(self).capacity())
                && final(self).undo_keys() == push_capped(old(self).undo_keys(), old(self).next_key(), old(self).capacity())
                && final(self).redo_seq() == Seq::<C>::empty() && final(self).redo_keys() == Seq::<u64>::empty(),
            !applied ==> final(self).undo_seq() == old(self).undo_seq() && final(self).redo_seq()
                == old(self).redo_seq() && final(self).undo_keys() == old(self).undo_keys()
                && final(self).redo_keys() == old(self).redo_keys() && final(self).next_key() == old(self).next_key(),
    {
        if applied {
            self.record_executed(command);
        }
    }

    /// Applies `command` to `scene` and records it, under the next entry number, when it
    /// succeeds; when it fails the history stays as it was.
    pub fn execute<S>(&mut self, command: C, scene: &mut S)
        where C: Command<S>,
        requires
            old(self).wf(),
        ensures
            final(self).wf(),
            final(self).capacity() == old(self).capacity(),
            (final(self).undo_seq() == old(self).undo_seq() && final(self).redo_seq() == old(self).redo_seq()
                && final(self).undo_keys() == old(self).undo_keys() && final(self).redo_keys() == old(self).redo_keys())
                || ((exists|applied: C| final(self).undo_seq() == #[trigger] push_capped(old(self).undo_seq(), applied,
                old(self).capacity())) && final(self).undo_keys() == push_capped(old(self).undo_keys(),
                old(self).next_key(), old(self).capacity()) && final(self).redo_seq() == Seq::<C>::empty()
                && final(self).redo_keys() == Seq::<u64>::empty()),
    {
        let mut command = command;
        let applied = command.execute(scene).is_ok();
        let ghost ran = command;
        self.finish_execute(command, applied);
        proof {
            if applied {
                assert(self.undo_seq() == push_capped(old(self).undo_seq(), ran, old(self).capacity()));
            }
        }
    }

    /// Settles an undo attempt of the command (with entry number `key`) just taken off the
    /// undo stack: when it was reverted it moves to the redo stack, otherwise it goes back on
    /// the undo stack.
    pub fn finish_undo(&mut self, key: u64, command: C, reverted: bool)
        requires
            old(self).wf(),
            old(self).undo_seq().len() < old(self).capacity(),
        ensures
            final(self).wf(),
            final(self).capacity() == old(self).capacity(),
            final(self).next_key() == old(self).next_key(),
            reverted ==> final(self).undo_seq() == old(self).undo_seq() && final(self).redo_seq()
                == old(self).redo_seq().push(command) && final(self).undo_keys() == old(self).undo_keys()
                && final(self).redo_keys() == old(self).redo_keys().push(key),
            !reverted ==> final(self).undo_seq() == old(self).undo_seq().push(command) && final(self).redo_seq()
                == old(self).redo_seq() && final(self).undo_keys() == old(self).undo_keys().push(key)
                && final(self).redo_keys() == old(self).redo_keys(),
    {
        if reverted {
            self.redo_stack.push(command);
            self.redo_keys.push(key);
        } else {
            self.undo_stack.push(command);
            self.undo_keys.push(key);
        }
    }

    /// Reverts the newest undo step on `scene`. When it is reverted that same entry moves to
    /// the redo stack; when reverting fails it stays on top of the undo stack. An empty
    /// undo stack leaves everything as it was.
    pub fn undo<S>(&mut self, scene: &mut S)
        where C: Command<S>,
        requires
            old(self).wf(),
        ensures
            final(self).wf(),
            final(self).capacity() == old(self).capacity(),
            final(self).next_key() == old(self).next_key(),
            old(self).undo_seq().len() == 0 ==> final(self).undo_seq() == old(self).undo_seq()
                && final(self).redo_seq() == old(self).redo_seq() && final(self).undo_keys() == old(self).undo_keys()
                && final(self).redo_keys() == old(self).redo_keys(),
            old(self).undo_seq().len() > 0 ==> (
                (final(self).undo_seq() == old(self).undo_seq().drop_last() && final(self).redo_seq().drop_last()
                    == old(self).redo_seq() && final(self).redo_seq().len() == old(self).redo_seq().len() + 1
                    && final(self).undo_keys() == old(self).undo_keys().drop_last()
                    && final(self).redo_keys() == old(self).redo_keys().push(old(self).undo_keys().last()))
                || (final(self).undo_seq().drop_last() == old(self).undo_seq().drop_last()
                    && final(self).undo_seq().len() == old(self).undo_seq().len() && final(self).redo_seq()
                    == old(self).redo_seq() && final(self).undo_keys() == old(self).undo_keys()
                    && final(self).redo_keys() == old(self).redo_keys())),
    {
        match self.take_undo() {
            None => {},
            Some((key, command)) => {
                let mut command = command;
                let reverted = command.undo(scene).is_ok();
                let ghost mid = self.undo_seq();
                let ghost mid_keys = self.undo_keys();
                self.finish_undo(key, command, reverted);
                proof {
                    assert(mid == old(self).undo_seq().drop_last());
                    if !reverted {
                        assert(self.undo_seq().drop_last() =~= mid);
                        assert(self.undo_keys() =~= old(self).undo_keys());
                    } else {
                        assert(self.redo_seq().drop_last() =~= old(self).redo_seq());
                    }
                }
            },
        }
    }

    /// Settles a redo attempt of the command (with entry number `key`) just taken off the
    /// redo stack: when it was re-applied it goes back on the undo stack, otherwise back on
    /// the redo stack.
    pub fn finish_redo(&mut self, key: u64, command: C, reapplied: bool)
        requires
            old(self).wf(),
        ensures
            final(self).wf(),
            final(self).capacity() == old(self).capacity(),
            final(self).next_key() == old(self).next_key(),
            reapplied ==> final(self).undo_seq() == push_capped(old(self).undo_seq(), command, old(self).capacity())
                && final(self).redo_seq() == old(self).redo_seq() && final(self).undo_keys() == push_capped(
                old(self).undo_keys(),
                key,
                old(self).capacity(),
            ) && final(self).redo_keys() == old(self).redo_keys(),
            !reapplied ==> final(self).undo_seq() == old(self).undo_seq() && final(self).redo_seq()
                == old(self).redo_seq().push(command) && final(self).undo_keys() == old(self).undo_keys()
                && final(self).redo_keys() == old(self).redo_keys().push(key),
    {
        if reapplied {
            self.push_undo(key, command);
        } else {
            self.redo_stack.push(command);
            self.redo_keys.push(key);
        }
    }

    /// Re-applies the newest redo step on `scene`. When it is re-applied that same entry
    /// moves back to the (bounded) undo stack; when it fails it stays on top of the redo
    /// stack. An empty redo stack leaves everything as it was.
    pub fn redo<S>(&mut self, scene: &mut S)
        where C: Command<S>,
        requires
            old(self).wf(),
        ensures
            final(self).wf(),
            final(self).capacity() == old(self).capacity(),
            final(self).next_key() == old(self).next_key(),
            old(self).redo_seq().len() == 0 ==> final(self).undo_seq() == old(self).undo_seq()
                && final(self).redo_seq() == old(self).redo_seq() && final(self).undo_keys() == old(self).undo_keys()
                && final(self).redo_keys() == old(self).redo_keys(),
            old(self).redo_seq().len() > 0 ==> (
                (final(self).redo_seq() == old(self).redo_seq().drop_last() && (exists|reapplied: C|
                    final(self).undo_seq() == #[trigger] push_capped(old(self).undo_seq(), reapplied, old(self).capacity()))
                    && final(self).redo_keys() == old(self).redo_keys().drop_last()
                    && final(self).undo_keys() == push_capped(old(self).undo_keys(), old(self).redo_keys().last(),
                    old(self).capacity()))
                || (final(self).redo_seq().drop_last() == old(self).redo_seq().drop_last()
                    && final(self).redo_seq().len() == old(self).redo_seq().len() && final(self).undo_seq()
                    == old(self).undo_seq() && final(self).redo_keys() == old(self).redo_keys()
                    && final(self).undo_keys() == old(self).undo_keys())),
    {
        match self.take_redo() {
            None => {},
            Some((key, command)) => {
                let mut command = command;
                let reapplied = command.execute(scene).is_ok();
                let ghost mid = self.redo_seq();
                let ghost ran = command;
                self.finish_redo(key, command, reapplied);
                proof {
                    if reapplied {
                        assert(self.undo_seq() == push_capped(old(self).undo_seq(), ran, old(self).capacity()));
                    } else {
                        assert(self.redo_seq().drop_last() =~= mid);
                        assert(self.redo_keys() =~= old(self).redo_keys());
                    }
                }
            },
        }
    }

    /// Takes the newest undo step off the stack with its entry number (the first half of an
    /// undo).
    pub fn take_undo(&mut self) -> (c: Option<(u64, C)>)
        requires
            old(self).wf(),
        ensures
            final(self).wf(),
            final(self).capacity() == old(self).capacity(),
            final(self).next_key() == old(self).next_key(),
            final(self).redo_seq() == old(self).redo_seq(),
            final(self).redo_keys() == old(self).redo_keys(),
            old(self).undo_seq().len() == 0 ==> c is None && final(self).undo_seq() == old(self).undo_seq()
                && final(self).undo_keys() == old(self).undo_keys(),
            old(self).undo_seq().len() > 0 ==> c == Some((old(self).undo_keys().last(), old(self).undo_seq().last()))
                && final(self).undo_seq() == old(self).undo_seq().drop_last() && final(self).undo_keys()
                == old(self).undo_keys().drop_last(),
    {
        match self.undo_stack.pop() {
            Some(c) => {
                let k = self.undo_keys.pop().unwrap();
                Some((k, c))
            },
            None => None,
        }
    }

    /// Takes the newest redo step off the stack with its entry number (the first half of a
    /// redo).
    pub fn take_redo(&mut self) -> (c: Option<(u64, C)>)
        requires
            old(self).wf(),
        ensures
            final(self).wf(),
            final(self).capacity() == old(self).capacity(),
            final(self).next_key() == old(self).next_key(),
            final(self).undo_seq() == old(self).undo_seq(),
            final(self).undo_keys() == old(self).undo_keys(),
            old(self).redo_seq().len() == 0 ==> c is None && final(self).redo_seq() == old(self).redo_seq()
                && final(self).redo_keys() == old(self).redo_keys(),
            old(self).redo_seq().len() > 0 ==> c == Some((old(self).redo_keys().last(), old(self).redo_seq().last()))
                && final(self).redo_seq() == old(self).redo_seq().drop_last() && final(self).redo_keys()
                == old(self).redo_keys().drop_last(),
    {
        match self.redo_stack.pop() {
            Some(c) => {
                let k = self.redo_keys.pop().unwrap();
                Some((k, c))
            },
            None => None,
        }
    }
}

/// A successful undo followed by a successful redo restores both stacks exactly.
pub proof fn law_undo_then_redo_restores<C>(undo: Seq<C>, redo: Seq<C>, cap: nat)
    requires
        undo.len() > 0,
        undo.len() <= cap,
    ensures
        redone(undone(undo, redo).0, undone(undo, redo).1, cap) == (undo, redo),
{
    let (u1, r1) = undone(undo, redo);
    assert(r1.last() == undo.last());
    assert(r1.drop_last() =~= redo);
    assert(u1.push(undo.last()) =~= undo);
}

/// A successful redo followed by a successful undo restores both stacks exactly, as long as
/// the undo stack had room (nothing was evicted).
pub proof fn law_redo_then_undo_restores<C>(undo: Seq<C>, redo: Seq<C>, cap: nat)
    requires
        redo.len() > 0,
        undo.len() < cap,
    ensures
        undone(redone(undo, redo, cap).0, redone(undo, redo, cap).1) == (undo, redo),
{
    let (u1, r1) = redone(undo, redo, cap);
    assert(u1 == undo.push(redo.last()));
    assert(u1.drop_last() =~= undo);
    assert(r1.push(u1.last()) =~= redo);
}

/// Recording keeps the undo stack within its capacity, and records the new command on top
/// whenever the capacity is non-zero.
pub proof fn law_record_bounded<C>(undo: Seq<C>, c: C, cap: nat)
    requires
        undo.len() <= cap,
    ensures
        push_capped(undo, c, cap).len() <= cap,
        cap > 0 ==> push_capped(undo, c, cap).last() == c,
        cap > 0 ==> push_capped(undo, c, cap).len() == if undo.len() < cap { undo.len() + 1 } else { cap },
{
}

/// Recording keeps the most recent commands in order: with room, every earlier command
/// stays where it was and the new one goes on top; on a full history the oldest command
/// (the first) leaves, every other one moves down by one, and the new one goes on top.
pub proof fn law_record_keeps_most_recent<C>(undo: Seq<C>, c: C, cap: nat)
    requires
        undo.len() <= cap,
        cap > 0,
    ensures
        undo.len() < cap ==> push_capped(undo, c, cap).len() == undo.len() + 1
            && push_capped(undo, c, cap)[undo.len() as int] == c
            && forall|i: int| 0 <= i < undo.len() ==> #[trigger] push_capped(undo, c, cap)[i] == undo[i],
        undo.len() == cap ==> push_capped(undo, c, cap).len() == cap
            && push_capped(undo, c, cap)[cap - 1] == c
            && forall|i: int| 0 <= i < cap - 1 ==> #[trigger] push_capped(undo, c, cap)[i] == undo[i + 1],
{
}

/// A scene edit in progress (a drag, a field being typed into): the scene as it was
/// before, and whether anything changed since. It becomes one undo step when it ends.
#[derive(Debug)]
pub struct PendingSceneEdit<S> {
    pub before: S,
    pub dirty: bool,
}

/// Whether beginning an edit needs a snapshot of the scene: only when no edit is pending.
pub fn edit_needs_snapshot<S>(pending: &Option<PendingSceneEdit<S>>) -> (b: bool)
    ensures
        b == pending is None,
{
    pending.is_none()
}

/// Begins an edit from the snapshot `before`, unless one is already pending.
pub fn begin_scene_edit<S>(pending: &mut Option<PendingSceneEdit<S>>, before: S)
    ensures
        (*old(pending)) is Some ==> *final(pending) == *old(pending),
        (*old(pending)) is None ==> *final(pending) == Some(PendingSceneEdit { before, dirty: false }),
{
    if pending.is_none() {
        *pending = Some(PendingSceneEdit { before, dirty: false });
    }
}

/// Notes that the pending edit (if any) changed the scene.
pub fn mark_scene_edit_dirty<S>(pending: &mut Option<PendingSceneEdit<S>>)
    ensures
        match *old(pending) {
            Some(p) => *final(pending) == Some(PendingSceneEdit { before: p.before, dirty: true }),
            None => (*final(pending)) is None,
        },
{
    match pending {
        Some(p) => {
            p.dirty = true;
        },
        None => {},
    }
}

/// Ends the pending edit. Returns the snapshot from before it when it changed the scene:
/// the caller records one undo step from that snapshot to the scene as it is now.
pub fn finish_scene_edit<S>(pending: &mut Option<PendingSceneEdit<S>>) -> (before: Option<S>)
    ensures
        (*final(pending)) is None,
        match *old(pending) {
            Some(p) => if p.dirty {
                before == Some(p.before)
            } else {
                before is None
            },
            None => before is None,
        },
{
    match pending.take() {
        Some(p) => {
            if p.dirty {
                Some(p.before)
            } else {
                None
            }
        },
        None => None,
    }
}

} // verus!
