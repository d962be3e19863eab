//! The command log: edits applied to one text buffer, with undo and redo.
use vstd::prelude::*;
use crate::gap_buffer::MAX_LEN;
use crate::key::KeyCode;
use crate::strings::chars_of;
use crate::cmd::{MoveDir, MoveKind};
use crate::text_buffer::{ObjectKind, TextPosition, Textbuffer};

verus! {

pub enum Position {
    Absolute(usize),
    Relative(usize),
}

/// One entry of the command log.
///
/// In the log, `Delete` and `Remove` hold the character that was actually
/// taken away, and `Remove` holds the position the cursor was left at, so
/// that the inverse of an entry puts that very character back.
#[derive(Clone)]
pub enum Operation {
    Insert(usize, char),
    InsertData(usize, String),
    Delete(usize, char),
    Remove(usize, char),
    Copy(ObjectKind),
    MacroRecord,
    MacroStop,
    MacroPlay(String),
    Undo,
    Redo,
}

pub enum OperationResult {
    OK,
    ERR(String),
}

/// A recorded macro: its keystrokes as text.
pub struct Macro {
    data: String,
    lines: usize,
    len: usize,
}

impl Macro {
    pub closed spec fn content(&self) -> Seq<char> {
        self.data@
    }

    pub fn play(&self) -> (r: &str)
        ensures
            r@ == self.content(),
    {
        self.data.as_str()
    }
}

impl Default for Macro {
    fn default() -> (r: Macro)
        ensures
            r.content() == Seq::<char>::empty(),
    {
        Macro { data: String::new(), lines: 0, len: 0 }
    }
}

/// The engine as its contracts see it: the text, the cursor offset, the
/// applied operations (most recent last), the forward history of inverses
/// that undo left, and, entry for entry, the operation that each of those
/// inverses stands for, which redo applies again.
pub struct EngineState {
    pub text: Seq<char>,
    pub cursor: nat,
    pub history: Seq<Operation>,
    pub forward: Seq<Operation>,
    pub redo_ops: Seq<Operation>,
}

/// The four kinds of edit that the log records.
pub open spec fn is_edit(op: Operation) -> bool {
    op is Insert || op is InsertData || op is Delete || op is Remove
}

/// The character at index `i` of `s`.
pub open spec fn char_at(s: Seq<char>, i: int) -> char {
    s[i]
}

/// `s` with `t` inserted at `p`.
pub open spec fn splice(s: Seq<char>, p: int, t: Seq<char>) -> Seq<char> {
    s.subrange(0, p) + t + s.subrange(p, s.len() as int)
}

/// Applies an edit at its position and logs it; the second component tells
/// whether it succeeded. An edit fails, changing nothing, when its position
/// lies past the end of the text, when a forward deletion is at the end,
/// and when a backward deletion is at the start.
pub open spec fn apply_edit(st: EngineState, op: Operation) -> (EngineState, bool) {
    let len = st.text.len();
    match op {
        Operation::Insert(pos, c) => if pos <= len {
            (
                EngineState {
                    text: st.text.insert(pos as int, c),
                    cursor: (pos + 1) as nat,
                    history: st.history.push(Operation::Insert(pos, c)),
                    forward: Seq::empty(),
                    redo_ops: Seq::empty(),
                },
                true,
            )
        } else {
            (st, false)
        },
        Operation::InsertData(pos, t) => if pos <= len {
            (
                EngineState {
                    text: splice(st.text, pos as int, t@),
                    cursor: (pos + t@.len()) as nat,
                    history: st.history.push(Operation::InsertData(pos, t)),
                    forward: Seq::empty(),
                    redo_ops: Seq::empty(),
                },
                true,
            )
        } else {
            (st, false)
        },
        Operation::Delete(pos, _) => if pos < len {
            (
                EngineState {
                    text: st.text.remove(pos as int),
                    cursor: pos as nat,
                    history: st.history.push(Operation::Delete(pos, char_at(st.text, pos as int))),
                    forward: Seq::empty(),
                    redo_ops: Seq::empty(),
                },
                true,
            )
        } else {
            (st, false)
        },
        Operation::Remove(pos, _) => if 0 < pos <= len {
            (
                EngineState {
                    text: st.text.remove(pos - 1),
                    cursor: (pos - 1) as nat,
                    history: st.history.push(
                        Operation::Remove((pos - 1) as usize, char_at(st.text, pos - 1)),
                    ),
                    forward: Seq::empty(),
                    redo_ops: Seq::empty(),
                },
                true,
            )
        } else {
            (st, false)
        },
        _ => (st, false),
    }
}

/// The text after undoing the logged edit `op`, when `op` fits `text`: an
/// insertion must still be there to be taken out again.
pub open spec fn undo_text(text: Seq<char>, op: Operation) -> Option<Seq<char>> {
    match op {
        Operation::Insert(p, c) => if p < text.len() && text[p as int] == c {
            Some(text.remove(p as int))
        } else {
            None
        },
        Operation::InsertData(p, t) => if p + t@.len() <= text.len() && text.subrange(
            p as int,
            p + t@.len(),
        ) == t@ {
            Some(text.subrange(0, p as int) + text.subrange(p + t@.len(), text.len() as int))
        } else {
            None
        },
        Operation::Delete(p, c) => if p <= text.len() {
            Some(text.insert(p as int, c))
        } else {
            None
        },
        Operation::Remove(r, c) => if r <= text.len() {
            Some(text.insert(r as int, c))
        } else {
            None
        },
        _ => None,
    }
}

/// Where undoing the logged edit `op` leaves the cursor: where it stood
/// before the edit.
pub open spec fn undo_cursor(op: Operation) -> nat {
    match op {
        Operation::Insert(p, _) => p as nat,
        Operation::InsertData(p, _) => p as nat,
        Operation::Delete(p, _) => p as nat,
        Operation::Remove(r, _) => (r + 1) as nat,
        _ => 0,
    }
}

/// The text after applying the logged edit `op` again, when `op` fits
/// `text`: a deletion must find its character there.
pub open spec fn redo_text(text: Seq<char>, op: Operation) -> Option<Seq<char>> {
    match op {
        Operation::Insert(p, c) => if p <= text.len() {
            Some(text.insert(p as int, c))
        } else {
            None
        },
        Operation::InsertData(p, t) => if p <= text.len() {
            Some(splice(text, p as int, t@))
        } else {
            None
        },
        Operation::Delete(p, c) => if p < text.len() && text[p as int] == c {
            Some(text.remove(p as int))
        } else {
            None
        },
        Operation::Remove(r, c) => if r < text.len() && text[r as int] == c {
            Some(text.remove(r as int))
        } else {
            None
        },
        _ => None,
    }
}

/// Where applying the logged edit `op` leaves the cursor.
pub open spec fn redo_cursor(op: Operation) -> nat {
    match op {
        Operation::Insert(p, _) => (p + 1) as nat,
        Operation::InsertData(p, t) => (p + t@.len()) as nat,
        Operation::Delete(p, _) => p as nat,
        Operation::Remove(r, _) => r as nat,
        _ => 0,
    }
}

/// The removals that undoing a bulk insertion of `n` characters at `p` of
/// `text` puts on the forward history, one per character, in the order the
/// characters are taken away.
pub open spec fn removals(text: Seq<char>, p: usize, n: nat) -> Seq<Operation>
    decreases n,
{
    if n == 0 {
        Seq::empty()
    } else {
        removals(text, p, (n - 1) as nat).push(Operation::Remove(p, char_at(text, p + n - 1)))
    }
}

/// The single-character insertions that those removals stand for.
pub open spec fn insertions(text: Seq<char>, p: usize, n: nat) -> Seq<Operation>
    decreases n,
{
    if n == 0 {
        Seq::empty()
    } else {
        insertions(text, p, (n - 1) as nat).push(Operation::Insert(p, char_at(text, p + n - 1)))
    }
}

/// The inverse entries that undoing the logged edit `op` on `text` puts on
/// the forward history: `Remove` for an insertion, one per character for a
/// bulk insertion, and `Insert` for a deletion.
pub open spec fn inverse_entries(text: Seq<char>, op: Operation) -> Seq<Operation> {
    match op {
        Operation::Insert(p, c) => seq![Operation::Remove(p, c)],
        Operation::InsertData(p, t) => removals(text, p, t@.len()),
        Operation::Delete(p, c) => seq![Operation::Insert(p, c)],
        Operation::Remove(r, c) => seq![Operation::Insert(r, c)],
        _ => Seq::empty(),
    }
}

/// The operations that those inverse entries stand for, entry for entry.
pub open spec fn redo_entries(text: Seq<char>, op: Operation) -> Seq<Operation> {
    match op {
        Operation::InsertData(p, t) => insertions(text, p, t@.len()),
        _ => seq![op],
    }
}

/// Undoes the most recent history entry: its inverse is applied to the
/// text and its inverse entries go to the forward history.
pub open spec fn undo_step(st: EngineState) -> (EngineState, bool) {
    if st.history.len() == 0 {
        (st, false)
    } else {
        match undo_text(st.text, st.history.last()) {
            Some(t) => (
                EngineState {
                    text: t,
                    cursor: undo_cursor(st.history.last()),
                    history: st.history.drop_last(),
                    forward: st.forward + inverse_entries(st.text, st.history.last()),
                    redo_ops: st.redo_ops + redo_entries(st.text, st.history.last()),
                },
                true,
            ),
            None => (st, false),
        }
    }
}

/// Redoes the most recent forward-history entry: the operation it stands
/// for is applied again and goes back to the history.
pub open spec fn redo_step(st: EngineState) -> (EngineState, bool) {
    if st.redo_ops.len() == 0 {
        (st, false)
    } else {
        match redo_text(st.text, st.redo_ops.last()) {
            Some(t) => (
                EngineState {
                    text: t,
                    cursor: redo_cursor(st.redo_ops.last()),
                    history: st.history.push(st.redo_ops.last()),
                    forward: st.forward.drop_last(),
                    redo_ops: st.redo_ops.drop_last(),
                },
                true,
            ),
            None => (st, false),
        }
    }
}

/// What `execute` does to the state, and whether it succeeds.
pub open spec fn execute_spec(st: EngineState, op: Operation) -> (EngineState, bool) {
    match op {
        Operation::Undo => undo_step(st),
        Operation::Redo => redo_step(st),
        _ => apply_edit(st, op),
    }
}

/// Free room in the text that executing `op` in state `st` may need.
pub open spec fn room_needed(st: EngineState, op: Operation) -> nat {
    match op {
        Operation::InsertData(_, t) => t@.len() + 1,
        Operation::Redo => if st.redo_ops.len() > 0 {
            match st.redo_ops.last() {
                Operation::InsertData(_, t) => t@.len() + 1,
                _ => 1,
            }
        } else {
            1
        },
        _ => 1,
    }
}

/// Every entry of `history`, undone from the most recent on, fits the text
/// it is undone from.
pub open spec fn history_fits(text: Seq<char>, history: Seq<Operation>) -> bool
    decreases history.len(),
{
    if history.len() == 0 {
        true
    } else {
        match undo_text(text, history.last()) {
            Some(t) => history_fits(t, history.drop_last()),
            None => false,
        }
    }
}

/// Every operation of `forward`, redone from the most recently undone on,
/// fits the text it is redone on.
pub open spec fn forward_fits(text: Seq<char>, forward: Seq<Operation>) -> bool
    decreases forward.len(),
{
    if forward.len() == 0 {
        true
    } else {
        match redo_text(text, forward.last()) {
            Some(t) => forward_fits(t, forward.drop_last()),
            None => false,
        }
    }
}

/// The cursor lies within the text, and both logs can be walked back and
/// forth over it, as in every engine.
pub open spec fn state_ok(st: EngineState) -> bool {
    &&& st.cursor <= st.text.len()
    &&& history_fits(st.text, st.history)
    &&& forward_fits(st.text, st.redo_ops)
    &&& st.forward.len() == st.redo_ops.len()
}

/// Undoing a logged edit and applying it again gives the text back.
proof fn lemma_undo_then_redo(text: Seq<char>, op: Operation)
    requires
        undo_text(text, op) is Some,
    ensures
        redo_text(undo_text(text, op)->0, op) == Some(text),
        undo_cursor(op) <= (undo_text(text, op)->0).len(),
{
    match op {
        Operation::Insert(p, c) => {
            assert(text.remove(p as int).insert(p as int, c) =~= text);
        },
        Operation::InsertData(p, t) => {
            let u = undo_text(text, op)->0;
            assert(splice(u, p as int, t@) =~= text);
        },
        Operation::Delete(p, c) => {
            assert(text.insert(p as int, c).remove(p as int) =~= text);
        },
        Operation::Remove(r, c) => {
            assert(text.insert(r as int, c).remove(r as int) =~= text);
        },
        _ => {},
    }
}

/// Applying a logged edit again and undoing it gives the text back.
proof fn lemma_redo_then_undo(text: Seq<char>, op: Operation)
    requires
        redo_text(text, op) is Some,
    ensures
        undo_text(redo_text(text, op)->0, op) == Some(text),
        redo_cursor(op) <= (redo_text(text, op)->0).len(),
{
    match op {
        Operation::Insert(p, c) => {
            assert(text.insert(p as int, c).remove(p as int) =~= text);
        },
        Operation::InsertData(p, t) => {
            let r = splice(text, p as int, t@);
            assert(r.subrange(p as int, p + t@.len()) =~= t@);
            assert(r.subrange(0, p as int) + r.subrange(p + t@.len(), r.len() as int) =~= text);
        },
        Operation::Delete(p, c) => {
            assert(text.remove(p as int).insert(p as int, c) =~= text);
        },
        Operation::Remove(r, c) => {
            assert(text.remove(r as int).insert(r as int, c) =~= text);
        },
        _ => {},
    }
}

/// The entry that a successful edit logs undoes it.
proof fn lemma_logged_edit_undoes(st: EngineState, op: Operation)
    requires
        apply_edit(st, op).1,
    ensures
        apply_edit(st, op).0.history == st.history.push(apply_edit(st, op).0.history.last()),
        undo_text(apply_edit(st, op).0.text, apply_edit(st, op).0.history.last()) == Some(st.text),
        undo_cursor(apply_edit(st, op).0.history.last()) == match op {
            Operation::Insert(pos, _) => pos as nat,
            Operation::InsertData(pos, _) => pos as nat,
            Operation::Delete(pos, _) => pos as nat,
            Operation::Remove(pos, _) => pos as nat,
            _ => 0,
        },
{
    let after = apply_edit(st, op).0;
    match op {
        Operation::Insert(pos, c) => {
            assert(after.text.remove(pos as int) =~= st.text);
        },
        Operation::InsertData(pos, t) => {
            assert(after.text.subrange(pos as int, pos + t@.len()) =~= t@);
            assert(after.text.subrange(0, pos as int) + after.text.subrange(
                pos + t@.len(),
                after.text.len() as int,
            ) =~= st.text);
        },
        Operation::Delete(pos, _) => {
            assert(after.text.insert(pos as int, st.text[pos as int]) =~= st.text);
        },
        Operation::Remove(pos, _) => {
            assert(after.text.insert(pos - 1, st.text[pos - 1]) =~= st.text);
        },
        _ => {},
    }
}

/// Removals and insertions come in equal numbers.
proof fn lemma_entries_len(text: Seq<char>, p: usize, n: nat)
    ensures
        removals(text, p, n).len() == n,
        insertions(text, p, n).len() == n,
    decreases n,
{
    if n > 0 {
        lemma_entries_len(text, p, (n - 1) as nat);
    }
}

/// Redoing, one character at a time, the insertions that undoing a bulk
/// insertion of `k` characters at `p` logged rebuilds the text.
proof fn lemma_insertions_fit(text: Seq<char>, p: usize, k: nat, redo_ops: Seq<Operation>)
    requires
        p + k <= text.len(),
        forward_fits(text, redo_ops),
    ensures
        forward_fits(
            text.subrange(0, p as int) + text.subrange(p + k, text.len() as int),
            redo_ops + insertions(text, p, k),
        ),
    decreases k,
{
    let u = text.subrange(0, p as int) + text.subrange(p + k, text.len() as int);
    let ops = redo_ops + insertions(text, p, k);
    if k == 0 {
        assert(u =~= text);
        assert(ops =~= redo_ops);
    } else {
        let c = char_at(text, p + k - 1);
        lemma_insertions_fit(text, p, (k - 1) as nat, redo_ops);
        assert(ops.last() == Operation::Insert(p, c));
        assert(ops.drop_last() =~= redo_ops + insertions(text, p, (k - 1) as nat));
        assert(u.insert(p as int, c) =~= text.subrange(0, p as int) + text.subrange(
            p + k - 1,
            text.len() as int,
        ));
    }
}

/// Every operation keeps the state consistent.
pub proof fn lemma_execute_keeps_state_ok(st: EngineState, op: Operation)
    requires
        state_ok(st),
    ensures
        state_ok(execute_spec(st, op).0),
{
    let (next, ok) = execute_spec(st, op);
    if ok {
        match op {
            Operation::Undo => {
                let last = st.history.last();
                lemma_undo_then_redo(st.text, last);
                match last {
                    Operation::InsertData(p, t) => {
                        lemma_insertions_fit(st.text, p, t@.len(), st.redo_ops);
                        lemma_entries_len(st.text, p, t@.len());
                    },
                    _ => {
                        assert(next.redo_ops.drop_last() =~= st.redo_ops);
                        assert(next.redo_ops.last() == last);
                    },
                }
            },
            Operation::Redo => {
                let last = st.redo_ops.last();
                lemma_redo_then_undo(st.text, last);
                assert(next.history.drop_last() =~= st.history);
                assert(next.history.last() == last);
            },
            _ => {
                lemma_logged_edit_undoes(st, op);
                assert(next.history.drop_last() =~= st.history);
            },
        }
    }
}

/// In a consistent state, undo succeeds whenever the history holds an
/// entry, and redo whenever the forward history does.
pub proof fn lemma_undo_redo_succeed(st: EngineState)
    requires
        state_ok(st),
    ensures
        st.history.len() > 0 ==> undo_step(st).1,
        st.forward.len() > 0 ==> redo_step(st).1,
{
}

/// A backward deletion on an empty text, or one at offset 0, fails and
/// changes nothing.
pub proof fn lemma_remove_at_start_fails(st: EngineState, pos: usize, c: char)
    requires
        st.text.len() == 0 || pos == 0,
    ensures
        execute_spec(st, Operation::Remove(pos, c)) == (st, false),
{
}

/// The state after executing `ops` one after another from `st`.
pub open spec fn run_ops(st: EngineState, ops: Seq<Operation>) -> EngineState
    decreases ops.len(),
{
    if ops.len() == 0 {
        st
    } else {
        execute_spec(run_ops(st, ops.drop_last()), ops.last()).0
    }
}

/// Every operation of `ops` is an edit that `execute` accepts (the text has
/// room for it) and that succeeds when `ops` is executed from `st`.
pub open spec fn edits_succeed(st: EngineState, ops: Seq<Operation>) -> bool
    decreases ops.len(),
{
    ops.len() == 0 || {
        let before = run_ops(st, ops.drop_last());
        &&& edits_succeed(st, ops.drop_last())
        &&& is_edit(ops.last())
        &&& before.text.len() + room_needed(before, ops.last()) < MAX_LEN
        &&& execute_spec(before, ops.last()).1
    }
}

/// The state after executing `Undo` `n` times from `st`.
pub open spec fn undo_times(st: EngineState, n: nat) -> EngineState
    decreases n,
{
    if n == 0 {
        st
    } else {
        undo_times(execute_spec(st, Operation::Undo).0, (n - 1) as nat)
    }
}

/// Each of `n` successive undos from `st` succeeds.
pub open spec fn undos_succeed(st: EngineState, n: nat) -> bool
    decreases n,
{
    n == 0 || (undo_step(st).1 && undos_succeed(undo_step(st).0, (n - 1) as nat))
}

/// The position that edit `op` names.
pub open spec fn edit_pos(op: Operation) -> nat {
    match op {
        Operation::Insert(pos, _) => pos as nat,
        Operation::InsertData(pos, _) => pos as nat,
        Operation::Delete(pos, _) => pos as nat,
        Operation::Remove(pos, _) => pos as nat,
        _ => 0,
    }
}

/// Undoing a successful edit restores the text and the history, and leaves
/// the cursor at the position the edit named.
proof fn lemma_undo_inverts_edit(st: EngineState, op: Operation)
    requires
        is_edit(op),
        apply_edit(st, op).1,
    ensures
        undo_step(apply_edit(st, op).0).1,
        undo_step(apply_edit(st, op).0).0.text == st.text,
        undo_step(apply_edit(st, op).0).0.history == st.history,
        undo_step(apply_edit(st, op).0).0.cursor == edit_pos(op),
{
    lemma_logged_edit_undoes(st, op);
    let after = apply_edit(st, op).0;
    assert(after.history.drop_last() =~= st.history);
}

/// Undo reads only the text and the history: two states that agree on them
/// undo alike, and after a successful undo they agree on the cursor too.
proof fn lemma_undo_times_agree(x: EngineState, y: EngineState, n: nat)
    requires
        x.text == y.text,
        x.history == y.history,
    ensures
        undos_succeed(x, n) == undos_succeed(y, n),
        undo_times(x, n).text == undo_times(y, n).text,
        undo_times(x, n).history == undo_times(y, n).history,
        n > 0 && undos_succeed(x, n) ==> undo_times(x, n).cursor == undo_times(y, n).cursor,
    decreases n,
{
    if n > 0 {
        lemma_undo_times_agree(undo_step(x).0, undo_step(y).0, (n - 1) as nat);
    }
}

/// Executing any sequence of edits that all succeed, followed by as many
/// undos, gives back the text and the history it started from; the undos
/// all succeed, and the last of them leaves the cursor at the position the
/// first edit named.
pub proof fn lemma_round_trip(st: EngineState, ops: Seq<Operation>)
    requires
        edits_succeed(st, ops),
    ensures
        undos_succeed(run_ops(st, ops), ops.len()),
        undo_times(run_ops(st, ops), ops.len()).text == st.text,
        undo_times(run_ops(st, ops), ops.len()).history == st.history,
        ops.len() > 0 ==> undo_times(run_ops(st, ops), ops.len()).cursor == edit_pos(ops[0]),
    decreases ops.len(),
{
    if ops.len() > 0 {
        let init = ops.drop_last();
        let r = run_ops(st, init);
        let last = ops.last();
        let n = ops.len();
        lemma_round_trip(st, init);
        lemma_undo_inverts_edit(r, last);
        let u = undo_step(run_ops(st, ops)).0;
        lemma_undo_times_agree(u, r, (n - 1) as nat);
        if n > 1 {
            assert(init[0] == ops[0]);
        } else {
            assert(init =~= Seq::<Operation>::empty());
            assert(last == ops[0]);
        }
    }
}

/// When the first of the edits is made at the cursor, the undos also bring
/// the cursor back to where it started.
pub proof fn lemma_edits_then_undos_round_trip(st: EngineState, ops: Seq<Operation>)
    requires
        edits_succeed(st, ops),
        ops.len() > 0 ==> edit_pos(ops[0]) == st.cursor,
    ensures
        undos_succeed(run_ops(st, ops), ops.len()),
        undo_times(run_ops(st, ops), ops.len()).text == st.text,
        undo_times(run_ops(st, ops), ops.len()).history == st.history,
        undo_times(run_ops(st, ops), ops.len()).cursor == st.cursor,
{
    lemma_round_trip(st, ops);
}

/// Executes operations against one text buffer and keeps the log that undo
/// and redo walk.
pub struct CommandEngine {
    history: Vec<Operation>,
    forward_history: Vec<Operation>,
    redo_ops: Vec<Operation>,
    buffer: Textbuffer,
    warning: Option<String>,
    pub combo_trigger: Option<KeyCode>,
}

impl CommandEngine {
    /// The buffer is well formed, and the logs fit its text.
    pub closed spec fn wf(&self) -> bool {
        self.buffer.wf() && state_ok(self.state())
    }

    pub closed spec fn state(&self) -> EngineState {
        EngineState {
            text: self.buffer@,
            cursor: self.buffer.spec_cursor().absolute as nat,
            history: self.history@,
            forward: self.forward_history@,
            redo_ops: self.redo_ops@,
        }
    }

    /// What well-formedness tells a caller about the engine's state.
    pub proof fn lemma_state_ok(&self)
        requires
            self.wf(),
        ensures
            state_ok(self.state()),
            self.state().text.len() <= MAX_LEN,
            self.spec_buffer().wf(),
    {
        self.buffer.lemma_wf_consequences();
    }

    /// The last operation left a warning: a backward deletion removed another
    /// character than the one it named.
    pub closed spec fn has_warning(&self) -> bool {
        self.warning is Some
    }

    /// The warning that the last operation left, if any.
    pub fn warning(&self) -> (r: Option<&String>)
        ensures
            r is Some <==> self.has_warning(),
    {
        self.warning.as_ref()
    }

    pub closed spec fn last_key(&self) -> Option<KeyCode> {
        self.combo_trigger
    }

    pub closed spec fn spec_buffer(&self) -> Textbuffer {
        self.buffer
    }

    pub fn new(buffer: Textbuffer) -> (r: CommandEngine)
        requires
            buffer.wf(),
        ensures
            r.wf(),
            r.spec_buffer() == buffer,
            r.state().text == buffer@,
            r.state().cursor == buffer.spec_cursor().absolute,
            r.state().history == Seq::<Operation>::empty(),
            r.state().forward == Seq::<Operation>::empty(),
            r.state().redo_ops == Seq::<Operation>::empty(),
            r.last_key() is None,
    {
        proof {
            buffer.lemma_wf_consequences();
        }
        CommandEngine {
            history: Vec::new(),
            forward_history: Vec::new(),
            redo_ops: Vec::new(),
            buffer,
            warning: None,
            combo_trigger: None,
        }
    }

    /// The buffer the engine edits.
    pub fn buffer(&self) -> (r: &Textbuffer)
        ensures
            *r == self.spec_buffer(),
            r@ == self.state().text,
            r.spec_cursor().absolute == self.state().cursor,
            self.wf() ==> r.wf(),
    {
        &self.buffer
    }

    pub fn set_last_key(&mut self, kc: KeyCode)
        ensures
            final(self).last_key() == Some(kc),
            final(self).spec_buffer() == old(self).spec_buffer(),
            final(self).state() == old(self).state(),
    {
        self.combo_trigger = Some(kc)
    }

    /// Makes `buf` the edited buffer; the log of the previous one is dropped.
    pub fn register_buffer(&mut self, buf: Textbuffer)
        requires
            buf.wf(),
        ensures
            final(self).wf(),
            final(self).spec_buffer() == buf,
            final(self).state().text == buf@,
            final(self).state().cursor == buf.spec_cursor().absolute,
            final(self).state().history == Seq::<Operation>::empty(),
            final(self).state().forward == Seq::<Operation>::empty(),
            final(self).state().redo_ops == Seq::<Operation>::empty(),
            final(self).last_key() == old(self).last_key(),
    {
        proof {
            buf.lemma_wf_consequences();
        }
        self.buffer = buf;
        self.history = Vec::new();
        self.forward_history = Vec::new();
        self.redo_ops = Vec::new();
    }

    fn exec_insert(&mut self, pos: usize, ch: char) -> (r: OperationResult)
        requires
            old(self).wf(),
            old(self).state().text.len() + 1 < MAX_LEN,
        ensures
            final(self).buffer.wf(),
            final(self).state() == apply_edit(old(self).state(), Operation::Insert(pos, ch)).0,
            (r is OK) == apply_edit(old(self).state(), Operation::Insert(pos, ch)).1,
            final(self).warning == old(self).warning,
            final(self).last_key() == old(self).last_key(),
    {
        if pos > self.buffer.len() {
            return OperationResult::ERR("position past the end of the buffer".to_owned());
        }
        self.buffer.set_textpos(pos);
        self.buffer.insert_ch(ch);
        self.history.push(Operation::Insert(pos, ch));
        self.forward_history.clear();
        self.redo_ops.clear();
        OperationResult::OK
    }

    fn exec_insert_data(&mut self, pos: usize, data: String) -> (r: OperationResult)
        requires
            old(self).wf(),
            old(self).state().text.len() + data@.len() + 1 < MAX_LEN,
        ensures
            final(self).buffer.wf(),
            final(self).state() == apply_edit(old(self).state(), Operation::InsertData(pos, data)).0,
            (r is OK) == apply_edit(old(self).state(), Operation::InsertData(pos, data)).1,
            final(self).warning == old(self).warning,
            final(self).last_key() == old(self).last_key(),
    {
        if pos > self.buffer.len() {
            return OperationResult::ERR("position past the end of the buffer".to_owned());
        }
        self.buffer.set_textpos(pos);
        self.buffer.insert_data(data.as_str());
        self.history.push(Operation::InsertData(pos, data));
        self.forward_history.clear();
        self.redo_ops.clear();
        OperationResult::OK
    }

    fn exec_delete(&mut self, pos: usize, ch: char) -> (r: OperationResult)
        requires
            old(self).wf(),
        ensures
            final(self).buffer.wf(),
            final(self).state() == apply_edit(old(self).state(), Operation::Delete(pos, ch)).0,
            (r is OK) == apply_edit(old(self).state(), Operation::Delete(pos, ch)).1,
            final(self).warning == old(self).warning,
            final(self).last_key() == old(self).last_key(),
    {
        if pos >= self.buffer.len() {
            return OperationResult::ERR("nothing to delete at or past the end of the buffer".to_owned());
        }
        self.buffer.set_textpos(pos);
        match self.buffer.delete() {
            Some(c) => {
                self.history.push(Operation::Delete(pos, c));
            },
            None => {},
        }
        self.forward_history.clear();
        self.redo_ops.clear();
        OperationResult::OK
    }

    fn exec_remove(&mut self, pos: usize, ch: char) -> (r: OperationResult)
        requires
            old(self).wf(),
        ensures
            final(self).buffer.wf(),
            final(self).state() == apply_edit(old(self).state(), Operation::Remove(pos, ch)).0,
            (r is OK) == apply_edit(old(self).state(), Operation::Remove(pos, ch)).1,
            (final(self).warning is Some) <==> (old(self).warning is Some || (apply_edit(
                old(self).state(),
                Operation::Remove(pos, ch),
            ).1 && char_at(old(self).state().text, pos - 1) != ch)),
            final(self).last_key() == old(self).last_key(),
    {
        if pos == 0 {
            return OperationResult::ERR("cannot remove before the buffer start".to_owned());
        }
        if pos > self.buffer.len() {
            return OperationResult::ERR("position past the end of the buffer".to_owned());
        }
        self.buffer.set_textpos(pos);
        match self.buffer.remove() {
            Some(c) => {
                if c != ch {
                    self.warning = Some("the removed character differs from the one named".to_owned());
                }
                self.history.push(Operation::Remove(pos - 1, c));
            },
            None => {},
        }
        self.forward_history.clear();
        self.redo_ops.clear();
        OperationResult::OK
    }

    fn undo(&mut self) -> (r: OperationResult)
        requires
            old(self).wf(),
            old(self).state().text.len() + 1 < MAX_LEN,
        ensures
            final(self).buffer.wf(),
            final(self).state() == undo_step(old(self).state()).0,
            (r is OK) == undo_step(old(self).state()).1,
            final(self).warning == old(self).warning,
            final(self).last_key() == old(self).last_key(),
    {
        let ghost st = self.state();
        let last = match self.history.pop() {
            Some(op) => op,
            None => {
                return OperationResult::ERR("History queue empty.".to_owned());
            },
        };
        proof {
            assert(st.history.drop_last().push(st.history.last()) =~= st.history);
            assert(undo_text(st.text, last) is Some);
        }
        match last {
            Operation::Insert(p, c) => {
                self.buffer.set_textpos(p);
                self.buffer.delete();
                self.forward_history.push(Operation::Remove(p, c));
                self.redo_ops.push(Operation::Insert(p, c));
                proof {
                    assert(self.state().forward =~= st.forward + seq![Operation::Remove(p, c)]);
                    assert(self.state().redo_ops =~= st.redo_ops + seq![Operation::Insert(p, c)]);
                }
                OperationResult::OK
            },
            Operation::Remove(p, c) => {
                self.buffer.set_textpos(p);
                self.buffer.insert_ch(c);
                self.forward_history.push(Operation::Insert(p, c));
                self.redo_ops.push(Operation::Remove(p, c));
                proof {
                    assert(self.state().forward =~= st.forward + seq![Operation::Insert(p, c)]);
                    assert(self.state().redo_ops =~= st.redo_ops + seq![Operation::Remove(p, c)]);
                }
                OperationResult::OK
            },
            Operation::Delete(p, c) => {
                self.buffer.set_textpos(p);
                self.buffer.insert_ch(c);
                self.buffer.set_textpos(p);
                self.forward_history.push(Operation::Insert(p, c));
                self.redo_ops.push(Operation::Delete(p, c));
                proof {
                    assert(self.state().forward =~= st.forward + seq![Operation::Insert(p, c)]);
                    assert(self.state().redo_ops =~= st.redo_ops + seq![Operation::Delete(p, c)]);
                }
                OperationResult::OK
            },
            Operation::InsertData(p, t) => {
                let n = chars_of(t.as_str()).len();
                self.buffer.set_textpos(p);
                let mut k: usize = 0;
                proof {
                    assert(st.text.subrange(0, p as int) + st.text.subrange(p + 0, st.text.len() as int) =~= st.text);
                    assert(st.forward + removals(st.text, p, 0) =~= st.forward);
                    assert(st.redo_ops + insertions(st.text, p, 0) =~= st.redo_ops);
                }
                while k < n
                    invariant
                        self.buffer.wf(),
                        st.history.len() > 0,
                        k <= n,
                        n == t@.len(),
                        p + n <= st.text.len(),
                        self.state().text == st.text.subrange(0, p as int) + st.text.subrange(
                            p + k,
                            st.text.len() as int,
                        ),
                        self.state().cursor == p,
                        self.state().history == st.history.drop_last(),
                        self.state().forward == st.forward + removals(st.text, p, k as nat),
                        self.state().redo_ops == st.redo_ops + insertions(st.text, p, k as nat),
                        self.warning == old(self).warning,
                        self.last_key() == old(self).last_key(),
                    decreases n - k,
                {
                    let ghost before = self.state();
                    match self.buffer.delete() {
                        Some(c) => {
                            self.forward_history.push(Operation::Remove(p, c));
                            self.redo_ops.push(Operation::Insert(p, c));
                        },
                        None => {},
                    }
                    proof {
                        assert(before.text[p as int] == st.text[p + k]);
                        assert(self.state().text =~= st.text.subrange(0, p as int)
                            + st.text.subrange(p + k + 1, st.text.len() as int));
                        assert(removals(st.text, p, (k + 1) as nat) == removals(st.text, p, k as nat).push(
                            Operation::Remove(p, char_at(st.text, p + k)),
                        ));
                        assert(insertions(st.text, p, (k + 1) as nat) == insertions(st.text, p, k as nat).push(
                            Operation::Insert(p, char_at(st.text, p + k)),
                        ));
                        assert(self.state().forward =~= st.forward + removals(st.text, p, (k + 1) as nat));
                        assert(self.state().redo_ops =~= st.redo_ops + insertions(st.text, p, (k + 1) as nat));
                    }
                    k = k + 1;
                }
                OperationResult::OK
            },
            other => {
                self.history.push(other);
                OperationResult::ERR("history entry cannot be undone".to_owned())
            },
        }
    }

    fn redo(&mut self) -> (r: OperationResult)
        requires
            old(self).wf(),
            old(self).state().text.len() + room_needed(old(self).state(), Operation::Redo) < MAX_LEN,
        ensures
            final(self).buffer.wf(),
            final(self).state() == redo_step(old(self).state()).0,
            (r is OK) == redo_step(old(self).state()).1,
            final(self).warning == old(self).warning,
            final(self).last_key() == old(self).last_key(),
    {
        let ghost st = self.state();
        let next = match self.redo_ops.pop() {
            Some(op) => op,
            None => {
                return OperationResult::ERR("Forward history empty.".to_owned());
            },
        };
        self.forward_history.pop();
        proof {
            assert(st.redo_ops.drop_last().push(st.redo_ops.last()) =~= st.redo_ops);
            assert(redo_text(st.text, next) is Some);
        }
        match next {
            Operation::Insert(p, c) => {
                self.buffer.set_textpos(p);
                self.buffer.insert_ch(c);
                self.history.push(Operation::Insert(p, c));
                OperationResult::OK
            },
            Operation::InsertData(p, t) => {
                self.buffer.set_textpos(p);
                self.buffer.insert_data(t.as_str());
                self.history.push(Operation::InsertData(p, t));
                OperationResult::OK
            },
            Operation::Delete(p, c) => {
                self.buffer.set_textpos(p);
                self.buffer.delete();
                self.history.push(Operation::Delete(p, c));
                OperationResult::OK
            },
            Operation::Remove(p, c) => {
                self.buffer.set_textpos(p);
                self.buffer.delete();
                self.history.push(Operation::Remove(p, c));
                OperationResult::OK
            },
            other => {
                self.redo_ops.push(other);
                OperationResult::ERR("forward history entry cannot be redone".to_owned())
            },
        }
    }

    /// Whether the text has room for executing `action`.
    pub fn has_room_for(&self, action: &Operation) -> (r: bool)
        requires
            self.wf(),
        ensures
            r == (self.state().text.len() + room_needed(self.state(), *action) < MAX_LEN),
    {
        proof {
            self.buffer.lemma_wf_consequences();
        }
        let free = MAX_LEN - self.buffer.len();
        let n: usize = match action {
            Operation::InsertData(_, t) => chars_of(t.as_str()).len(),
            Operation::Redo => {
                if self.redo_ops.len() > 0 {
                    match &self.redo_ops[self.redo_ops.len() - 1] {
                        Operation::InsertData(_, t) => chars_of(t.as_str()).len(),
                        _ => 0,
                    }
                } else {
                    0
                }
            },
            _ => 0,
        };
        free > 0 && n < free - 1
    }

    /// Executes one operation. An edit is applied at the position it names,
    /// logged, and clears the forward history; it fails, changing nothing,
    /// when the position lies past the end of the text, for a forward
    /// deletion at the end and for a backward one at the start. `Undo`
    /// applies the inverse of the last logged edit and pushes its inverse
    /// entries on the forward history (one removal per character for a bulk
    /// insertion); `Redo` takes the last forward entry, applies again the
    /// operation it stands for, and logs that operation. They fail, changing
    /// nothing, only when their log is empty.
    /// The macro and copy commands fail.
    pub fn execute(&mut self, action: Operation) -> (r: OperationResult)
        requires
            old(self).wf(),
            old(self).state().text.len() + room_needed(old(self).state(), action) < MAX_LEN,
        ensures
            final(self).wf(),
            final(self).state() == execute_spec(old(self).state(), action).0,
            (r is OK) == execute_spec(old(self).state(), action).1,
            action is Undo ==> ((r is OK) <==> old(self).state().history.len() > 0),
            action is Redo ==> ((r is OK) <==> old(self).state().forward.len() > 0),
            final(self).has_warning() <==> (match action {
                Operation::Remove(pos, ch) => execute_spec(old(self).state(), action).1 && char_at(
                    old(self).state().text,
                    pos - 1,
                ) != ch,
                _ => false,
            }),
            final(self).last_key() == old(self).last_key(),
    {
        self.warning = None;
        let ghost st = self.state();
        proof {
            lemma_undo_redo_succeed(st);
            lemma_execute_keeps_state_ok(st, action);
        }
        match action {
            Operation::Insert(pos, ch) => self.exec_insert(pos, ch),
            Operation::InsertData(pos, data) => self.exec_insert_data(pos, data),
            Operation::Delete(pos, ch) => self.exec_delete(pos, ch),
            Operation::Remove(pos, ch) => self.exec_remove(pos, ch),
            Operation::Undo => self.undo(),
            Operation::Redo => self.redo(),
            Operation::MacroPlay(_) => OperationResult::ERR("macro not found".to_owned()),
            Operation::MacroRecord => OperationResult::ERR("macro recording is not supported".to_owned()),
            Operation::MacroStop => OperationResult::ERR("macro recording is not supported".to_owned()),
            Operation::Copy(_) => OperationResult::ERR("copying text objects is not supported".to_owned()),
        }
    }

    /// Moves the buffer's cursor; the log is left alone.
    pub fn move_cursor(&mut self, movement: MoveKind) -> (r: Option<TextPosition>)
        requires
            old(self).wf(),
        ensures
            final(self).wf(),
            final(self).state().text == old(self).state().text,
            final(self).state().history == old(self).state().history,
            final(self).state().forward == old(self).state().forward,
            final(self).state().redo_ops == old(self).state().redo_ops,
            final(self).state().cursor == match movement {
                MoveKind::Char(MoveDir::Previous) => if old(self).state().cursor > 0 {
                    (old(self).state().cursor - 1) as nat
                } else {
                    0
                },
                MoveKind::Char(MoveDir::Next) => if old(self).state().cursor < old(self).state().text.len() {
                    old(self).state().cursor + 1
                } else {
                    old(self).state().cursor
                },
                _ => old(self).state().cursor,
            },
            r == Some(final(self).spec_buffer().spec_cursor()),
            final(self).last_key() == old(self).last_key(),
    {
        self.buffer.move_cursor(movement)
    }

    /// Marks the buffer's contents as saved; the state is left alone.
    pub fn set_pristine(&mut self)
        requires
            old(self).wf(),
        ensures
            final(self).wf(),
            final(self).state() == old(self).state(),
            !final(self).spec_buffer().spec_dirty(),
            final(self).has_warning() == old(self).has_warning(),
            final(self).last_key() == old(self).last_key(),
    {
        self.buffer.set_pristine();
    }

    /// The inverse entries that undo left, the most recent last.
    pub fn forward_history(&self) -> (r: &Vec<Operation>)
        ensures
            r@ == self.state().forward,
    {
        &self.forward_history
    }

    /// The logged operations, the most recent last.
    pub fn history(&self) -> (r: &Vec<Operation>)
        ensures
            r@ == self.state().history,
    {
        &self.history
    }
}

} // verus!
