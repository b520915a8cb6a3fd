//! Reversible edit history: operations recorded into groups that undo and redo
//! as one unit.
use vstd::prelude::*;
use vstd::utf8::*;

use crate::buffer::{delete_spec, insert_spec, Buffer, MAX_CONTENT};

verus! {

/// Typing pauses longer than this (in milliseconds) start a new undo group.
pub const GROUP_TIMEOUT_MS: u128 = 500;

/// `std::time::Instant`, carried opaquely as the time of the last edit.
#[verifier::external_type_specification]
#[verifier::external_body]
pub struct ExInstant(std::time::Instant);

/// Relies on `std::time::Instant::now`: a reading of the monotonic clock.
#[verifier::external_body]
fn clock_now() -> std::time::Instant {
    std::time::Instant::now()
}

/// Relies on `std::time::Instant::elapsed`, read in whole milliseconds:
/// the monotonic time since `t`. Nothing is promised of the value.
#[verifier::external_body]
fn elapsed_millis(t: &std::time::Instant) -> u128 {
    t.elapsed().as_millis()
}

/// A single text change.
pub enum Operation {
    Insert { pos: usize, text: String },
    Delete { pos: usize, text: String },
}

/// The bytes of an operation's text.
pub open spec fn text_bytes_of(t: String) -> Seq<u8> {
    encode_utf8(t@)
}

/// What applying `op` to content `c` gives. An insertion that would take the
/// content past `MAX_CONTENT` bytes leaves it unchanged.
pub open spec fn apply_op(c: Seq<u8>, op: Operation) -> Seq<u8> {
    match op {
        Operation::Insert { pos, text } => {
            if c.len() + text_bytes_of(text).len() <= MAX_CONTENT {
                insert_spec(c, pos as int, text_bytes_of(text))
            } else {
                c
            }
        },
        Operation::Delete { pos, text } => delete_spec(c, pos as int, text_bytes_of(text).len() as int),
    }
}

/// The opposite operation: same position and text, other kind.
pub open spec fn inverse_op(op: Operation) -> Operation {
    match op {
        Operation::Insert { pos, text } => Operation::Delete { pos, text },
        Operation::Delete { pos, text } => Operation::Insert { pos, text },
    }
}

/// `c` after applying `ops` in order.
pub open spec fn replay_ops(c: Seq<u8>, ops: Seq<Operation>) -> Seq<u8>
    decreases ops.len(),
{
    if ops.len() == 0 {
        c
    } else {
        apply_op(replay_ops(c, ops.drop_last()), ops.last())
    }
}

/// `c` after applying the inverses of `ops`, last one first.
pub open spec fn revert_ops(c: Seq<u8>, ops: Seq<Operation>) -> Seq<u8>
    decreases ops.len(),
{
    if ops.len() == 0 {
        c
    } else {
        revert_ops(apply_op(c, inverse_op(ops.last())), ops.drop_last())
    }
}

/// `op` changes `c` exactly as recorded: an insertion within the content and
/// within the size limit, or a deletion of exactly the recorded bytes.
pub open spec fn applies_exactly(c: Seq<u8>, op: Operation) -> bool {
    match op {
        Operation::Insert { pos, text } => pos <= c.len() && c.len() + text_bytes_of(text).len()
            <= MAX_CONTENT,
        Operation::Delete { pos, text } => pos + text_bytes_of(text).len() <= c.len()
            && c.subrange(pos as int, pos + text_bytes_of(text).len()) == text_bytes_of(text),
    }
}

/// Each operation of `ops`, replayed from `c`, applies exactly.
pub open spec fn replays_exactly(c: Seq<u8>, ops: Seq<Operation>) -> bool
    decreases ops.len(),
{
    if ops.len() == 0 {
        true
    } else {
        replays_exactly(c, ops.drop_last()) && applies_exactly(
            replay_ops(c, ops.drop_last()),
            ops.last(),
        )
    }
}

/// Undoing one exactly-applied operation restores the content.
pub proof fn lemma_op_round_trip(c: Seq<u8>, op: Operation)
    requires
        c.len() <= MAX_CONTENT,
        applies_exactly(c, op),
    ensures
        apply_op(apply_op(c, op), inverse_op(op)) == c,
{
    match op {
        Operation::Insert { pos, text } => {
            let b = text_bytes_of(text);
            let d = insert_spec(c, pos as int, b);
            if b.len() > 0 {
                assert(d.subrange(0, pos as int) + d.subrange(pos + b.len(), d.len() as int) =~= c);
            } else {
                assert(d =~= c);
            }
        },
        Operation::Delete { pos, text } => {
            let b = text_bytes_of(text);
            let d = delete_spec(c, pos as int, b.len() as int);
            if b.len() > 0 {
                assert(d.subrange(0, pos as int) + b + d.subrange(pos as int, d.len() as int) =~= c);
            } else {
                assert(d.subrange(0, pos as int) + b + d.subrange(pos as int, d.len() as int) =~= c);
            }
        },
    }
}

/// Applying a group's operations forward and then their inverses backward
/// restores the content exactly, provided each operation applied as recorded.
pub proof fn lemma_group_round_trip(c: Seq<u8>, ops: Seq<Operation>)
    requires
        c.len() <= MAX_CONTENT,
        replays_exactly(c, ops),
    ensures
        revert_ops(replay_ops(c, ops), ops) == c,
    decreases ops.len(),
{
    if ops.len() > 0 {
        let init = ops.drop_last();
        let mid = replay_ops(c, init);
        lemma_replay_len_bound(c, init);
        lemma_op_round_trip(mid, ops.last());
        lemma_group_round_trip(c, init);
    }
}

/// Replaying never takes the content past `MAX_CONTENT` bytes.
pub proof fn lemma_replay_len_bound(c: Seq<u8>, ops: Seq<Operation>)
    requires
        c.len() <= MAX_CONTENT,
    ensures
        replay_ops(c, ops).len() <= MAX_CONTENT,
    decreases ops.len(),
{
    if ops.len() > 0 {
        lemma_replay_len_bound(c, ops.drop_last());
    }
}

impl Operation {
    /// Applies the operation to `buf`.
    pub fn apply(&self, buf: &mut Buffer)
        requires
            old(buf).wf(),
        ensures
            final(buf).wf(),
            final(buf)@ == apply_op(old(buf)@, *self),
    {
        match self {
            Operation::Insert { pos, text } => {
                let n = text.as_str().as_bytes().len();
                let len = buf.len();
                proof {
                    buf.lemma_len_bound();
                }
                if n <= MAX_CONTENT - len {
                    buf.insert(*pos, text.as_str());
                }
            },
            Operation::Delete { pos, text } => {
                buf.delete(*pos, text.as_str().as_bytes().len());
            },
        }
    }

    /// The operation that undoes this one.
    pub fn invert(&self) -> (r: Operation)
        ensures
            r == inverse_op(*self),
    {
        match self {
            Operation::Insert { pos, text } => Operation::Delete { pos: *pos, text: text.clone() },
            Operation::Delete { pos, text } => Operation::Insert { pos: *pos, text: text.clone() },
        }
    }
}

/// A snapshot of the cursor.
#[derive(Clone, Copy, Debug, PartialEq, Eq, Structural)]
pub struct CursorState {
    pub line: usize,
    pub col: usize,
    pub desired_col: usize,
}

/// The kind of edit that produced an operation.
#[derive(Clone, Copy, Debug, PartialEq, Eq, Structural)]
pub enum GroupContext {
    Typing,
    Deleting,
    Paste,
    Cut,
    Other,
}

/// Edits of these kinds always form a group of their own.
pub open spec fn always_atomic(ctx: GroupContext) -> bool {
    ctx == GroupContext::Paste || ctx == GroupContext::Cut || ctx == GroupContext::Other
}

/// Operations that undo and redo together.
pub struct Group {
    pub ops: Vec<Operation>,
    pub cursor_before: CursorState,
    pub cursor_after: CursorState,
}

pub struct UndoStack {
    undo: Vec<Group>,
    redo: Vec<Group>,
    pending: Vec<Operation>,
    pending_cursor: Option<CursorState>,
    context: GroupContext,
    last_edit: Option<std::time::Instant>,
    saved_at: Option<usize>,
}

/// `g` holds `ops` with the given cursors.
pub open spec fn group_is(
    g: Group,
    ops: Seq<Operation>,
    before: CursorState,
    after: CursorState,
) -> bool {
    g.ops@ == ops && g.cursor_before == before && g.cursor_after == after
}

impl UndoStack {
    /// Pending operations always come with the cursor from before the first
    /// of them.
    pub open spec fn has_pending_start(&self) -> bool {
        self.pending_ops().len() > 0 ==> self.pending_start() is Some
    }

    /// Committed groups, oldest first.
    pub closed spec fn undo_groups(&self) -> Seq<Group> {
        self.undo@
    }

    /// Undone groups, the next to redo last.
    pub closed spec fn redo_groups(&self) -> Seq<Group> {
        self.redo@
    }

    /// Operations recorded but not yet closed into a group.
    pub closed spec fn pending_ops(&self) -> Seq<Operation> {
        self.pending@
    }

    /// Cursor before the first pending operation.
    pub closed spec fn pending_start(&self) -> Option<CursorState> {
        self.pending_cursor
    }

    /// Kind of the last recorded operation.
    pub closed spec fn current_context(&self) -> GroupContext {
        self.context
    }

    /// Depth of the committed history when the document was last saved.
    pub closed spec fn saved_depth(&self) -> Option<usize> {
        self.saved_at
    }

    /// Nothing is pending and the committed depth is the saved one.
    pub open spec fn is_at_saved_spec(&self) -> bool {
        self.pending_ops().len() == 0 && self.saved_depth() == Some(
            self.undo_groups().len() as usize,
        )
    }

    /// A new operation of kind `ctx` opens a new group.
    pub open spec fn splits(&self, ctx: GroupContext, timed_out: bool) -> bool {
        self.pending_ops().len() == 0 || ctx != self.current_context() || always_atomic(ctx)
            || timed_out
    }

    /// `new` is `old` after recording `op` of kind `ctx` with `cursor_before`,
    /// opening a new group when `split`.
    pub open spec fn recorded(
        old: UndoStack,
        new: UndoStack,
        op: Operation,
        cursor_before: CursorState,
        ctx: GroupContext,
        split: bool,
    ) -> bool {
        &&& new.redo_groups().len() == 0
        &&& new.current_context() == ctx
        &&& new.saved_depth() == old.saved_depth()
        &&& if split && old.pending_ops().len() > 0 {
            &&& new.undo_groups().len() == old.undo_groups().len() + 1
            &&& new.undo_groups().drop_last() == old.undo_groups()
            &&& group_is(
                new.undo_groups().last(),
                old.pending_ops(),
                match old.pending_start() {
                    Some(c) => c,
                    None => cursor_before,
                },
                cursor_before,
            )
        } else {
            new.undo_groups() == old.undo_groups()
        }
        &&& if split || old.pending_ops().len() == 0 {
            &&& new.pending_ops() == seq![op]
            &&& new.pending_start() == Some(cursor_before)
        } else {
            &&& new.pending_ops() == old.pending_ops().push(op)
            &&& new.pending_start() == old.pending_start()
        }
    }

    /// `new` is `old` after undoing one group: the pending operations, closed
    /// into a group ending at `current_cursor`, or else the latest committed
    /// group, moves to the top of the redo history.
    pub open spec fn undone(old: UndoStack, new: UndoStack, current_cursor: CursorState) -> bool {
        let g = new.redo_groups().last();
        &&& new.redo_groups().len() == old.redo_groups().len() + 1
        &&& new.redo_groups().drop_last() == old.redo_groups()
        &&& new.pending_ops().len() == 0
        &&& old.pending_ops().len() > 0 ==> {
            &&& new.undo_groups() == old.undo_groups()
            &&& group_is(
                g,
                old.pending_ops(),
                match old.pending_start() {
                    Some(c) => c,
                    None => current_cursor,
                },
                current_cursor,
            )
        }
        &&& old.pending_ops().len() == 0 ==> {
            &&& old.undo_groups().len() > 0
            &&& new.undo_groups() == old.undo_groups().drop_last()
            &&& g == old.undo_groups().last()
        }
    }

    /// `new` is `old` after redoing one group: the top of the redo history
    /// moves back onto the committed history; pending operations stay.
    pub open spec fn redone(old: UndoStack, new: UndoStack) -> bool {
        &&& old.redo_groups().len() > 0
        &&& new.redo_groups() == old.redo_groups().drop_last()
        &&& new.undo_groups() == old.undo_groups().push(old.redo_groups().last())
        &&& new.pending_ops() == old.pending_ops()
        &&& new.pending_start() == old.pending_start()
    }

    /// `new` is `old` with the pending operations closed into a group whose
    /// `cursor_after` is `after`.
    pub open spec fn finished(old: UndoStack, new: UndoStack, after: CursorState) -> bool {
        &&& new.redo_groups() == old.redo_groups()
        &&& new.current_context() == old.current_context()
        &&& new.saved_depth() == old.saved_depth()
        &&& new.pending_ops().len() == 0
        &&& if old.pending_ops().len() > 0 {
            &&& new.undo_groups().len() == old.undo_groups().len() + 1
            &&& new.undo_groups().drop_last() == old.undo_groups()
            &&& group_is(
                new.undo_groups().last(),
                old.pending_ops(),
                match old.pending_start() {
                    Some(c) => c,
                    None => after,
                },
                after,
            )
            &&& new.pending_start() is None
        } else {
            &&& new.undo_groups() == old.undo_groups()
            &&& new.pending_start() == old.pending_start()
        }
    }

    /// An empty history, at the saved state.
    pub fn new() -> (r: Self)
        ensures
            r.undo_groups().len() == 0,
            r.redo_groups().len() == 0,
            r.pending_ops().len() == 0,
            r.pending_start() is None,
            r.saved_depth() == Some(0usize),
            r.has_pending_start(),
    {
        UndoStack {
            undo: Vec::new(),
            redo: Vec::new(),
            pending: Vec::new(),
            pending_cursor: None,
            context: GroupContext::Other,
            last_edit: None,
            saved_at: Some(0),
        }
    }

    /// Records `op`, opening a new group when `timed_out` or when the rules
    /// on pending operations and contexts ask for one. Clears the redo history.
    pub fn record_with_timeout(
        &mut self,
        op: Operation,
        cursor_before: CursorState,
        ctx: GroupContext,
        timed_out: bool,
    )
        requires
            old(self).has_pending_start(),
        ensures
            Self::recorded(
                *old(self),
                *final(self),
                op,
                cursor_before,
                ctx,
                old(self).splits(ctx, timed_out),
            ),
            final(self).has_pending_start(),
    {
        let should_split = self.pending.len() == 0 || ctx != self.context || ctx
            == GroupContext::Paste || ctx == GroupContext::Cut || ctx == GroupContext::Other
            || timed_out;
        if should_split && self.pending.len() > 0 {
            let mut ops: Vec<Operation> = Vec::new();
            std::mem::swap(&mut ops, &mut self.pending);
            let group_cursor_before = match self.pending_cursor {
                Some(c) => c,
                None => cursor_before,
            };
            self.undo.push(
                Group { ops, cursor_before: group_cursor_before, cursor_after: cursor_before },
            );
            proof {
                assert(self.undo@.drop_last() =~= old(self).undo@);
            }
        }
        if self.pending.len() == 0 {
            self.pending_cursor = Some(cursor_before);
        }
        self.pending.push(op);
        proof {
            if should_split || old(self).pending@.len() == 0 {
                assert(self.pending@ =~= seq![op]);
            }
        }
        self.context = ctx;
        self.redo = Vec::new();
    }

    /// Records `op`, with the monotonic clock deciding whether the pause since
    /// the last edit closes the pending group.
    pub fn record(&mut self, op: Operation, cursor_before: CursorState, ctx: GroupContext)
        requires
            old(self).has_pending_start(),
        ensures
            Self::recorded(*old(self), *final(self), op, cursor_before, ctx, true)
                || Self::recorded(*old(self), *final(self), op, cursor_before, ctx, false),
            old(self).splits(ctx, false) ==> Self::recorded(
                *old(self),
                *final(self),
                op,
                cursor_before,
                ctx,
                true,
            ),
            final(self).has_pending_start(),
    {
        let timed_out = match &self.last_edit {
            Some(t) => elapsed_millis(t) >= GROUP_TIMEOUT_MS,
            None => true,
        };
        self.record_with_timeout(op, cursor_before, ctx, timed_out);
        self.last_edit = Some(clock_now());
    }

    /// Closes the pending operations into a group ending at `cursor_after`.
    pub fn finish_group(&mut self, cursor_after: CursorState)
        ensures
            Self::finished(*old(self), *final(self), cursor_after),
            final(self).has_pending_start(),
            old(self).pending_ops().len() == 0 ==> *final(self) == *old(self),
    {
        if self.pending.len() == 0 {
            return;
        }
        let mut ops: Vec<Operation> = Vec::new();
        std::mem::swap(&mut ops, &mut self.pending);
        let cursor_before = match self.pending_cursor {
            Some(c) => c,
            None => cursor_after,
        };
        self.undo.push(Group { ops, cursor_before, cursor_after });
        proof {
            assert(self.undo@.drop_last() =~= old(self).undo@);
        }
        self.pending_cursor = None;
    }

    /// Closes the pending group at `current_cursor`, then reverts the latest
    /// committed group on `buf` and moves it to the redo history. Returns the
    /// cursor from before that group, or `None` when there is nothing to undo.
    pub fn undo(&mut self, buf: &mut Buffer, current_cursor: CursorState) -> (r: Option<
        CursorState,
    >)
        requires
            old(buf).wf(),
        ensures
            final(buf).wf(),
            r is None <==> old(self).undo_groups().len() == 0 && old(self).pending_ops().len()
                == 0,
            r is None ==> final(buf)@ == old(buf)@ && final(self).undo_groups() == old(
                self,
            ).undo_groups() && final(self).redo_groups() == old(self).redo_groups(),
            final(self).pending_ops().len() == 0,
            final(self).current_context() == old(self).current_context(),
            final(self).saved_depth() == old(self).saved_depth(),
            r is Some ==> Self::undone(*old(self), *final(self), current_cursor),
            r is Some ==> {
                let g = final(self).redo_groups().last();
                &&& final(self).redo_groups().drop_last() == old(self).redo_groups()
                &&& final(self).redo_groups().len() == old(self).redo_groups().len() + 1
                &&& r == Some(g.cursor_before)
                &&& final(buf)@ == revert_ops(old(buf)@, g.ops@)
                &&& old(self).pending_ops().len() > 0 ==> {
                    &&& final(self).undo_groups() == old(self).undo_groups()
                    &&& group_is(
                        g,
                        old(self).pending_ops(),
                        match old(self).pending_start() {
                            Some(c) => c,
                            None => current_cursor,
                        },
                        current_cursor,
                    )
                }
                &&& old(self).pending_ops().len() == 0 ==> {
                    &&& final(self).undo_groups() == old(self).undo_groups().drop_last()
                    &&& g == old(self).undo_groups().last()
                }
            },
            final(self).has_pending_start(),
            r is None ==> *final(self) == *old(self),
    {
        self.finish_group(current_cursor);
        let ghost c0 = buf@;
        if self.undo.len() == 0 {
            return None;
        }
        match self.undo.pop() {
            None => None,
            Some(group) => {
                let n = group.ops.len();
                let mut i = n;
                proof {
                    assert(group.ops@.subrange(0, n as int) =~= group.ops@);
                }
                while i > 0
                    invariant
                        buf.wf(),
                        i <= n,
                        n == group.ops@.len(),
                        revert_ops(buf@, group.ops@.subrange(0, i as int)) == revert_ops(
                            c0,
                            group.ops@,
                        ),
                    decreases i,
                {
                    let inv = group.ops[i - 1].invert();
                    let ghost before = buf@;
                    inv.apply(buf);
                    proof {
                        let pre = group.ops@.subrange(0, i as int);
                        assert(pre.last() == group.ops@[i - 1]);
                        assert(pre.drop_last() =~= group.ops@.subrange(0, i - 1));
                    }
                    i = i - 1;
                }
                let cb = group.cursor_before;
                self.redo.push(group);
                proof {
                    assert(self.redo@.drop_last() =~= old(self).redo@);
                }
                Some(cb)
            },
        }
    }

    /// Re-applies the latest undone group to `buf` and moves it back to the
    /// committed history. Returns the cursor from after that group, or `None`
    /// when there is nothing to redo.
    pub fn redo(&mut self, buf: &mut Buffer) -> (r: Option<CursorState>)
        requires
            old(self).has_pending_start(),
            old(buf).wf(),
        ensures
            final(buf).wf(),
            r is None <==> old(self).redo_groups().len() == 0,
            r is None ==> final(buf)@ == old(buf)@ && *final(self) == *old(self),
            final(self).pending_ops() == old(self).pending_ops(),
            final(self).pending_start() == old(self).pending_start(),
            final(self).current_context() == old(self).current_context(),
            final(self).saved_depth() == old(self).saved_depth(),
            r is Some ==> Self::redone(*old(self), *final(self)),
            r is Some ==> {
                let g = old(self).redo_groups().last();
                &&& final(self).redo_groups() == old(self).redo_groups().drop_last()
                &&& final(self).undo_groups() == old(self).undo_groups().push(g)
                &&& r == Some(g.cursor_after)
                &&& final(buf)@ == replay_ops(old(buf)@, g.ops@)
            },
            final(self).has_pending_start(),
    {
        let ghost c0 = buf@;
        if self.redo.len() == 0 {
            return None;
        }
        match self.redo.pop() {
            None => None,
            Some(group) => {
                let n = group.ops.len();
                let mut i: usize = 0;
                while i < n
                    invariant
                        buf.wf(),
                        i <= n,
                        n == group.ops@.len(),
                        buf@ == replay_ops(c0, group.ops@.subrange(0, i as int)),
                    decreases n - i,
                {
                    group.ops[i].apply(buf);
                    proof {
                        let pre = group.ops@.subrange(0, i + 1);
                        assert(pre.last() == group.ops@[i as int]);
                        assert(pre.drop_last() =~= group.ops@.subrange(0, i as int));
                    }
                    i = i + 1;
                }
                proof {
                    assert(group.ops@.subrange(0, n as int) =~= group.ops@);
                }
                let ca = group.cursor_after;
                self.undo.push(group);
                Some(ca)
            },
        }
    }

    /// Closes the pending group and records the committed depth as the saved
    /// state.
    pub fn mark_saved(&mut self, current_cursor: CursorState)
        ensures
            final(self).redo_groups() == old(self).redo_groups(),
            final(self).pending_ops().len() == 0,
            old(self).pending_ops().len() == 0 ==> final(self).undo_groups() == old(
                self,
            ).undo_groups(),
            old(self).pending_ops().len() > 0 ==> final(self).undo_groups().drop_last() == old(
                self,
            ).undo_groups() && final(self).undo_groups().len() == old(self).undo_groups().len()
                + 1,
            final(self).saved_depth() == Some(final(self).undo_groups().len() as usize),
            final(self).has_pending_start(),
            old(self).pending_ops().len() > 0 ==> group_is(
                final(self).undo_groups().last(),
                old(self).pending_ops(),
                match old(self).pending_start() {
                    Some(c) => c,
                    None => current_cursor,
                },
                current_cursor,
            ),
            old(self).pending_ops().len() > 0 ==> final(self).pending_start() is None,
    {
        self.finish_group(current_cursor);
        self.saved_at = Some(self.undo.len());
    }

    /// Nothing is pending and the committed depth is the saved one.
    pub fn is_at_saved(&self) -> (r: bool)
        ensures
            r == (self.pending_ops().len() == 0 && self.saved_depth() == Some(
                self.undo_groups().len() as usize,
            )),
    {
        if self.pending.len() > 0 {
            return false;
        }
        match self.saved_at {
            Some(d) => d == self.undo.len(),
            None => false,
        }
    }

    /// Drops all history; the empty history counts as saved.
    pub fn clear(&mut self)
        ensures
            final(self).undo_groups().len() == 0,
            final(self).redo_groups().len() == 0,
            final(self).pending_ops().len() == 0,
            final(self).pending_start() is None,
            final(self).saved_depth() == Some(0usize),
            final(self).has_pending_start(),
    {
        self.undo = Vec::new();
        self.redo = Vec::new();
        self.pending = Vec::new();
        self.pending_cursor = None;
        self.last_edit = None;
        self.saved_at = Some(0);
    }
}

/// Typing without pauses coalesces: once a typing operation is pending, each
/// further typing operation recorded without a timeout joins the same pending
/// group, and no group is committed.
pub proof fn lemma_typing_coalesces(
    states: Seq<UndoStack>,
    ops: Seq<Operation>,
    cursors: Seq<CursorState>,
)
    requires
        states.len() >= 2,
        ops.len() == states.len() - 1,
        cursors.len() == states.len() - 1,
        forall|i: int|
            0 <= i < states.len() - 1 ==> UndoStack::recorded(
                #[trigger] states[i],
                states[i + 1],
                ops[i],
                cursors[i],
                GroupContext::Typing,
                states[i].splits(GroupContext::Typing, false),
            ),
    ensures
        forall|k: int|
            1 <= k < states.len() ==> (#[trigger] states[k]).undo_groups()
                == states[1].undo_groups() && states[k].pending_ops().len()
                == states[1].pending_ops().len() + (k - 1),
{
    assert forall|k: int| 1 <= k < states.len() implies (#[trigger] states[k]).undo_groups()
        == states[1].undo_groups() && states[k].pending_ops().len() == states[1].pending_ops().len()
        + (k - 1) by {
        lemma_typing_coalesces_upto(states, ops, cursors, k);
    }
}

proof fn lemma_typing_coalesces_upto(
    states: Seq<UndoStack>,
    ops: Seq<Operation>,
    cursors: Seq<CursorState>,
    k: int,
)
    requires
        states.len() >= 2,
        ops.len() == states.len() - 1,
        cursors.len() == states.len() - 1,
        forall|i: int|
            0 <= i < states.len() - 1 ==> UndoStack::recorded(
                #[trigger] states[i],
                states[i + 1],
                ops[i],
                cursors[i],
                GroupContext::Typing,
                states[i].splits(GroupContext::Typing, false),
            ),
        1 <= k < states.len(),
    ensures
        states[k].undo_groups() == states[1].undo_groups(),
        states[k].pending_ops().len() == states[1].pending_ops().len() + (k - 1),
        states[k].pending_ops().len() >= 1,
        states[k].current_context() == GroupContext::Typing,
    decreases k,
{
    assert(UndoStack::recorded(
        states[k - 1],
        states[k],
        ops[k - 1],
        cursors[k - 1],
        GroupContext::Typing,
        states[k - 1].splits(GroupContext::Typing, false),
    ));
    if k > 1 {
        lemma_typing_coalesces_upto(states, ops, cursors, k - 1);
    }
}

/// A paste never joins a neighbouring group, whatever the timing: it closes
/// the pending operations before it, and the next typing operation closes the
/// paste into a group of its own.
pub proof fn lemma_paste_stands_alone(
    s0: UndoStack,
    s1: UndoStack,
    s2: UndoStack,
    paste: Operation,
    typed: Operation,
    c1: CursorState,
    c2: CursorState,
    t1: bool,
    t2: bool,
)
    requires
        UndoStack::recorded(s0, s1, paste, c1, GroupContext::Paste, s0.splits(GroupContext::Paste, t1)),
        UndoStack::recorded(s1, s2, typed, c2, GroupContext::Typing, s1.splits(GroupContext::Typing, t2)),
    ensures
        s1.pending_ops() == seq![paste],
        s2.pending_ops() == seq![typed],
        s2.undo_groups().last().ops@ == seq![paste],
        s0.pending_ops().len() > 0 ==> s1.undo_groups().last().ops@ == s0.pending_ops(),
{
}

} // verus!
