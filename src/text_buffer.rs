use vstd::prelude::*;
use crate::cmd::{MoveDir, MoveKind};
use crate::comms::{Event, EventData};
use crate::gap_buffer::{GapBuffer, MAX_LEN};
use crate::scan::{
    close_brace_from, find_boundary, lemma_close_brace_range, lemma_find_range,
    lemma_newline_count_bound, lemma_newline_count_concat, lemma_newline_count_single,
    lemma_open_brace_range, lemma_rfind_prefix, lemma_rfind_range, line_index, line_start,
    newline_count, open_brace_before, rfind_boundary,
};
use crate::strings::chars_of;

verus! {

/// The kinds of text object that `find_range_of` locates.
#[derive(Clone, Copy, Debug, PartialEq, Eq, Structural)]
pub enum ObjectKind {
    Word,
    Line,
    Block,
}

/// How the two ends of a span are meant.
pub enum RangeType {
    /// Both ends belong to the span.
    FullInclusive,
    /// The start belongs to the span, the end is one past it.
    EndExclusive,
    /// Neither end belongs to the span.
    FullExclusive,
}

/// A located text object: its two ends and how they are meant.
pub enum TextObject {
    Word(usize, usize, RangeType),
    Line(usize, usize, RangeType),
    Block(usize, usize, RangeType),
}

/// An absolute offset together with the start of its line and the line's
/// zero-based index.
#[derive(Clone, Copy, Debug)]
pub struct TextPosition {
    pub absolute: usize,
    pub line_start_absolute: usize,
    pub line_number: usize,
}

/// `tp` describes offset `tp.absolute` of the text `s` correctly.
pub open spec fn position_in(s: Seq<char>, tp: TextPosition) -> bool {
    &&& tp.absolute <= s.len()
    &&& tp.line_start_absolute == line_start(s, tp.absolute as int)
    &&& tp.line_number == line_index(s, tp.absolute as int)
}

impl TextPosition {
    pub fn new() -> (r: TextPosition)
        ensures
            r.absolute == 0,
            r.line_start_absolute == 0,
            r.line_number == 0,
    {
        TextPosition { absolute: 0, line_start_absolute: 0, line_number: 0 }
    }

    pub fn get_line_start_abs(&self) -> (r: usize)
        ensures
            r == self.line_start_absolute,
    {
        self.line_start_absolute
    }

    /// Column of the position within its line.
    pub fn get_line_position(&self) -> (r: usize)
        requires
            self.line_start_absolute <= self.absolute,
        ensures
            r == self.absolute - self.line_start_absolute,
    {
        self.absolute - self.line_start_absolute
    }
}

/// The order of two offsets.
pub open spec fn offset_order(a: usize, b: usize) -> std::cmp::Ordering {
    if a < b {
        std::cmp::Ordering::Less
    } else if a == b {
        std::cmp::Ordering::Equal
    } else {
        std::cmp::Ordering::Greater
    }
}

/// Positions are equal when their absolute offsets are.
impl PartialEq for TextPosition {
    fn eq(&self, other: &TextPosition) -> (r: bool) {
        self.absolute == other.absolute
    }
}

impl vstd::std_specs::cmp::PartialEqSpecImpl for TextPosition {
    open spec fn obeys_eq_spec() -> bool {
        true
    }

    open spec fn eq_spec(&self, other: &TextPosition) -> bool {
        self.absolute == other.absolute
    }
}

impl Eq for TextPosition {

}

/// Positions are ordered by their absolute offsets.
impl PartialOrd for TextPosition {
    fn partial_cmp(&self, other: &TextPosition) -> (r: Option<std::cmp::Ordering>) {
        if self.absolute < other.absolute {
            Some(std::cmp::Ordering::Less)
        } else if self.absolute == other.absolute {
            Some(std::cmp::Ordering::Equal)
        } else {
            Some(std::cmp::Ordering::Greater)
        }
    }
}

impl vstd::std_specs::cmp::PartialOrdSpecImpl for TextPosition {
    open spec fn obeys_partial_cmp_spec() -> bool {
        true
    }

    open spec fn partial_cmp_spec(&self, other: &TextPosition) -> Option<std::cmp::Ordering> {
        Some(offset_order(self.absolute, other.absolute))
    }
}

/// A position from its absolute offset, line start and line index.
impl From<(usize, usize, usize)> for TextPosition {
    fn from(parts: (usize, usize, usize)) -> (r: TextPosition) {
        TextPosition { absolute: parts.0, line_start_absolute: parts.1, line_number: parts.2 }
    }
}

impl vstd::std_specs::convert::FromSpecImpl<(usize, usize, usize)> for TextPosition {
    open spec fn obeys_from_spec() -> bool {
        true
    }

    open spec fn from_spec(parts: (usize, usize, usize)) -> TextPosition {
        TextPosition { absolute: parts.0, line_start_absolute: parts.1, line_number: parts.2 }
    }
}

/// Where a scan or an iterator starts: at a given absolute offset, or at the
/// buffer's own edit point.
#[derive(Clone, Copy)]
pub enum Cursor {
    Absolute(usize),
    Buffer,
}

impl Cursor {
    /// Column and zero-based line of an absolute cursor; `(0, 0)` for the
    /// buffer's own cursor.
    pub fn to_row_col(&self, tb: &Textbuffer) -> (r: (usize, usize))
        requires
            tb.wf(),
            match *self {
                Cursor::Absolute(pos) => pos <= tb@.len(),
                Cursor::Buffer => true,
            },
        ensures
            match *self {
                Cursor::Absolute(pos) => r.0 == pos - line_start(tb@, pos as int) && r.1 == line_index(
                    tb@,
                    pos as int,
                ),
                Cursor::Buffer => r == (0usize, 0usize),
            },
    {
        match self {
            Cursor::Absolute(pos) => {
                let text_pos = tb.get_text_position_info(*pos);
                proof {
                    lemma_rfind_range(tb@, *pos as int, false);
                }
                (*pos - text_pos.line_start_absolute, text_pos.line_number)
            },
            Cursor::Buffer => (0, 0),
        }
    }
}

/// Scans the text before `pos` for its newlines.
fn position_of(data: &GapBuffer<char>, pos: usize) -> (r: TextPosition)
    requires
        data.wf(),
        pos <= data@.len(),
    ensures
        r.absolute == pos,
        position_in(data@, r),
{
    let ghost s = data@;
    let mut i: usize = 0;
    let mut count: usize = 0;
    let mut start: usize = 0;
    while i < pos
        invariant
            data.wf(),
            s == data@,
            pos <= s.len(),
            i <= pos,
            count <= i,
            count == newline_count(s.subrange(0, i as int)),
            start == line_start(s, i as int),
        decreases pos - i,
    {
        let c = *data.get(i).unwrap();
        proof {
            assert(s.subrange(0, i + 1).drop_last() =~= s.subrange(0, i as int));
            assert(s.subrange(0, i + 1).last() == c);
        }
        if c == '\n' {
            count = count + 1;
            start = i + 1;
        }
        i = i + 1;
    }
    TextPosition { absolute: pos, line_start_absolute: start, line_number: count }
}

/// One past the last boundary before `pos`; 0 when there is none.
fn boundary_before(data: &GapBuffer<char>, pos: usize, words: bool) -> (r: usize)
    requires
        data.wf(),
        pos <= data@.len(),
    ensures
        r == rfind_boundary(data@, pos as int, words) + 1,
{
    let mut i: usize = pos;
    while i > 0
        invariant
            data.wf(),
            i <= pos <= data@.len(),
            rfind_boundary(data@, pos as int, words) == rfind_boundary(data@, i as int, words),
        decreases i,
    {
        let c = *data.get(i - 1).unwrap();
        if c == '\n' || (words && c == ' ') {
            return i;
        }
        i = i - 1;
    }
    0
}

/// The first boundary at or after `pos`; the length when there is none.
fn boundary_from(data: &GapBuffer<char>, pos: usize, words: bool) -> (r: usize)
    requires
        data.wf(),
        pos <= data@.len(),
    ensures
        r == find_boundary(data@, pos as int, words),
{
    let len = data.len();
    let mut i: usize = pos;
    while i < len
        invariant
            data.wf(),
            len == data@.len(),
            pos <= i <= len,
            find_boundary(data@, pos as int, words) == find_boundary(data@, i as int, words),
        decreases len - i,
    {
        let c = *data.get(i).unwrap();
        if c == '\n' || (words && c == ' ') {
            return i;
        }
        i = i + 1;
    }
    len
}

/// The nearest unmatched `{` before `pos`, if any.
fn open_brace(data: &GapBuffer<char>, pos: usize) -> (r: Option<usize>)
    requires
        data.wf(),
        pos <= data@.len(),
    ensures
        r is None <==> open_brace_before(data@, pos as int, 0) == -1,
        r is Some ==> r->0 == open_brace_before(data@, pos as int, 0),
{
    let mut i: usize = pos;
    let mut depth: usize = 0;
    while i > 0
        invariant
            data.wf(),
            i <= pos <= data@.len(),
            depth <= pos - i,
            open_brace_before(data@, pos as int, 0) == open_brace_before(
                data@,
                i as int,
                depth as nat,
            ),
        decreases i,
    {
        let c = *data.get(i - 1).unwrap();
        if c == '{' {
            if depth == 0 {
                return Some(i - 1);
            }
            depth = depth - 1;
        } else if c == '}' {
            depth = depth + 1;
        }
        i = i - 1;
    }
    None
}

/// The `}` that closes a block open at `pos`; the length when there is none.
fn close_brace(data: &GapBuffer<char>, pos: usize) -> (r: usize)
    requires
        data.wf(),
        pos <= data@.len(),
    ensures
        r == close_brace_from(data@, pos as int, 1),
{
    let len = data.len();
    let mut i: usize = pos;
    let mut extra: usize = 0;
    while i < len
        invariant
            data.wf(),
            len == data@.len(),
            pos <= i <= len,
            extra <= i - pos,
            close_brace_from(data@, pos as int, 1) == close_brace_from(
                data@,
                i as int,
                (extra + 1) as nat,
            ),
        decreases len - i,
    {
        let c = *data.get(i).unwrap();
        if c == '{' {
            extra = extra + 1;
        } else if c == '}' {
            if extra == 0 {
                return i;
            }
            extra = extra - 1;
        }
        i = i + 1;
    }
    len
}

/// Number of newlines in `cs`.
fn count_newlines(cs: &[char]) -> (r: usize)
    ensures
        r == newline_count(cs@),
{
    let mut i: usize = 0;
    let mut n: usize = 0;
    while i < cs.len()
        invariant
            i <= cs@.len(),
            n <= i,
            n == newline_count(cs@.subrange(0, i as int)),
        decreases cs@.len() - i,
    {
        proof {
            assert(cs@.subrange(0, i + 1).drop_last() =~= cs@.subrange(0, i as int));
        }
        if cs[i] == '\n' {
            n = n + 1;
        }
        i = i + 1;
    }
    assert(cs@.subrange(0, cs@.len() as int) =~= cs@);
    n
}

/// The span that `find_range_of` reports for `kind` around offset `p` of `s`.
pub open spec fn object_range(s: Seq<char>, p: int, kind: ObjectKind) -> (int, int) {
    match kind {
        ObjectKind::Word => {
            let f = find_boundary(s, p, true);
            let e = if f < s.len() {
                if f > 0 {
                    f - 1
                } else {
                    0
                }
            } else if s.len() > 0 {
                s.len() - 1
            } else {
                0
            };
            (rfind_boundary(s, p, true) + 1, e)
        },
        ObjectKind::Line => (rfind_boundary(s, p, false) + 1, find_boundary(s, p, false)),
        ObjectKind::Block => {
            let b = open_brace_before(s, p, 0);
            (if b < 0 {
                0
            } else {
                b
            }, close_brace_from(s, p, 1))
        },
    }
}

/// `n` is the zero-based index of the line that starts at `pos` in `s`.
pub open spec fn starts_line(s: Seq<char>, pos: int, n: nat) -> bool {
    &&& 0 <= pos <= s.len()
    &&& line_start(s, pos) == pos
    &&& line_index(s, pos) == n
}

/// Editable text: a gap buffer of characters, the cursor with its line
/// bookkeeping, a dirty flag and the number of newlines.
pub struct Textbuffer {
    data: GapBuffer<char>,
    cursor: TextPosition,
    dirty: bool,
    line_count: usize,
    listening: bool,
    events: Vec<Event>,
}

impl View for Textbuffer {
    type V = Seq<char>;

    closed spec fn view(&self) -> Seq<char> {
        self.data@
    }
}

impl Textbuffer {
    /// The gap sits at the cursor, the cursor's line data match the text, and
    /// the line count is the number of newlines.
    pub closed spec fn wf(&self) -> bool {
        &&& self.data.wf()
        &&& self.data.gap_pos() == self.cursor.absolute
        &&& position_in(self.data@, self.cursor)
        &&& self.line_count == newline_count(self.data@)
        &&& self.data@.len() <= MAX_LEN
    }

    pub closed spec fn spec_cursor(&self) -> TextPosition {
        self.cursor
    }

    pub closed spec fn spec_dirty(&self) -> bool {
        self.dirty
    }

    pub closed spec fn spec_line_count(&self) -> nat {
        self.line_count as nat
    }

    pub closed spec fn spec_listening(&self) -> bool {
        self.listening
    }

    /// Change notifications waiting to be taken by the listener.
    pub closed spec fn pending_events(&self) -> Seq<Event> {
        self.events@
    }

    proof fn lemma_wf_facts(&self)
        requires
            self.wf(),
        ensures
            self.cursor.absolute <= self@.len(),
            self.line_count <= self@.len(),
            self@.len() <= MAX_LEN,
    {
        lemma_newline_count_bound(self.data@);
        self.data.lemma_len_bound();
    }

    pub fn new() -> (r: Textbuffer)
        ensures
            r.wf(),
            r@ == Seq::<char>::empty(),
            r.spec_cursor().absolute == 0,
            !r.spec_dirty(),
            r.spec_line_count() == 0,
            !r.spec_listening(),
            r.pending_events() == Seq::<Event>::empty(),
    {
        let gb: GapBuffer<char> = GapBuffer::new();
        let mut tp = TextPosition::new();
        tp.absolute = gb.get_pos();
        let r = Textbuffer {
            cursor: tp,
            data: gb,
            dirty: false,
            line_count: 0,
            listening: false,
            events: Vec::new(),
        };
        proof {
            assert(r.data@.subrange(0, 0) =~= Seq::<char>::empty());
        }
        r
    }

    pub fn len(&self) -> (r: usize)
        requires
            self.wf(),
        ensures
            r == self@.len(),
    {
        self.data.len()
    }

    pub fn get_textpos(&self) -> (r: TextPosition)
        ensures
            r == self.spec_cursor(),
    {
        self.cursor
    }

    pub fn get_absolute_cursor_pos(&self) -> (r: usize)
        ensures
            r == self.spec_cursor().absolute,
    {
        self.cursor.absolute
    }

    pub fn get_line_number_editing(&self) -> (r: usize)
        ensures
            r == self.spec_cursor().line_number,
    {
        self.cursor.line_number
    }

    pub fn is_dirty(&self) -> (r: bool)
        ensures
            r == self.spec_dirty(),
    {
        self.dirty
    }

    /// Marks the contents as saved.
    pub fn set_pristine(&mut self)
        requires
            old(self).wf(),
        ensures
            final(self).wf(),
            final(self)@ == old(self)@,
            final(self).spec_cursor() == old(self).spec_cursor(),
            !final(self).spec_dirty(),
            final(self).spec_listening() == old(self).spec_listening(),
            final(self).pending_events() == old(self).pending_events(),
    {
        self.dirty = false;
    }

    /// Bounds-checked read of one character.
    pub fn get_at(&self, pos: usize) -> (r: Option<char>)
        requires
            self.wf(),
        ensures
            pos < self@.len() ==> r == Some(self@[pos as int]),
            pos >= self@.len() ==> r is None,
    {
        match self.data.get(pos) {
            Some(c) => Some(*c),
            None => None,
        }
    }

    /// Offset, line start and line index of offset `pos`.
    pub fn get_text_position_info(&self, pos: usize) -> (r: TextPosition)
        requires
            self.wf(),
            pos <= self@.len(),
        ensures
            r.absolute == pos,
            position_in(self@, r),
    {
        position_of(&self.data, pos)
    }

    /// The cursor's position as the gap buffer sees it.
    pub fn get_gap_textpos(&self) -> (r: TextPosition)
        requires
            self.wf(),
        ensures
            r == self.spec_cursor(),
    {
        proof {
            self.lemma_wf_facts();
        }
        self.get_text_position_info(self.data.get_pos())
    }

    /// Moves the cursor to `pos`; does nothing when `pos` is past the end.
    pub fn set_textpos(&mut self, pos: usize)
        requires
            old(self).wf(),
        ensures
            final(self).wf(),
            final(self)@ == old(self)@,
            pos <= old(self)@.len() ==> final(self).spec_cursor().absolute == pos,
            pos > old(self)@.len() ==> final(self).spec_cursor() == old(self).spec_cursor(),
            final(self).spec_dirty() == old(self).spec_dirty(),
            final(self).spec_line_count() == old(self).spec_line_count(),
            final(self).spec_listening() == old(self).spec_listening(),
            final(self).pending_events() == old(self).pending_events(),
    {
        if pos <= self.len() {
            self.cursor = self.get_text_position_info(pos);
            self.data.set_gap_position(pos);
        }
    }

    /// What well-formedness tells a caller: the cursor describes its offset
    /// correctly and the line count is the number of newlines.
    pub proof fn lemma_wf_consequences(&self)
        requires
            self.wf(),
        ensures
            position_in(self@, self.spec_cursor()),
            self.spec_line_count() == newline_count(self@),
            self.spec_line_count() <= self@.len(),
            self@.len() <= MAX_LEN,
    {
        self.lemma_wf_facts();
    }

    /// Inserts `ch` at the cursor and moves the cursor past it.
    pub fn insert_ch(&mut self, ch: char)
        requires
            old(self).wf(),
            old(self)@.len() < MAX_LEN,
        ensures
            final(self).wf(),
            final(self)@ == old(self)@.insert(old(self).spec_cursor().absolute as int, ch),
            final(self).spec_cursor().absolute == old(self).spec_cursor().absolute + 1,
            final(self).spec_dirty(),
            final(self).spec_listening() == old(self).spec_listening(),
            final(self).pending_events() == if old(self).spec_listening() {
                old(self).pending_events().push(
                    Event::INSERTION(old(self).spec_cursor().absolute, EventData::Char(ch)),
                )
            } else {
                old(self).pending_events()
            },
    {
        proof {
            self.lemma_wf_facts();
        }
        let ghost s = self@;
        let ghost p = self.cursor.absolute as int;
        let at = self.cursor.absolute;
        self.data.set_gap_position(self.cursor.absolute);
        self.data.insert(ch);
        proof {
            let t = self.data@;
            assert(s =~= s.subrange(0, p) + s.subrange(p, s.len() as int));
            assert(t =~= s.subrange(0, p) + seq![ch] + s.subrange(p, s.len() as int));
            assert(t.subrange(0, p + 1) =~= s.subrange(0, p) + seq![ch]);
            assert(t.subrange(0, p) =~= s.subrange(0, p));
            lemma_newline_count_concat(s.subrange(0, p), s.subrange(p, s.len() as int));
            lemma_newline_count_concat(s.subrange(0, p) + seq![ch], s.subrange(p, s.len() as int));
            lemma_newline_count_concat(s.subrange(0, p), seq![ch]);
            lemma_newline_count_single(ch);
            lemma_rfind_prefix(s, t, p, false);
        }
        if ch == '\n' {
            self.line_count = self.line_count + 1;
            self.cursor = position_of(&self.data, self.data.get_pos());
        } else {
            self.cursor.absolute = self.cursor.absolute + 1;
        }
        self.dirty = true;
        if self.listening {
            self.events.push(Event::INSERTION(at, EventData::Char(ch)));
        }
    }

    /// Removes the character before the cursor (the "Backspace" key) and
    /// returns it; `None`, with nothing changed, when the cursor is at the start.
    pub fn remove(&mut self) -> (r: Option<char>)
        requires
            old(self).wf(),
        ensures
            final(self).wf(),
            final(self).spec_listening() == old(self).spec_listening(),
            final(self).pending_events() == old(self).pending_events(),
            old(self).spec_cursor().absolute == 0 ==> r is None && final(self)@ == old(self)@
                && final(self).spec_cursor() == old(self).spec_cursor()
                && final(self).spec_dirty() == old(self).spec_dirty(),
            old(self).spec_cursor().absolute > 0 ==> r == Some(
                old(self)@[old(self).spec_cursor().absolute - 1],
            ) && final(self)@ == old(self)@.remove(old(self).spec_cursor().absolute - 1)
                && final(self).spec_cursor().absolute == old(self).spec_cursor().absolute - 1
                && final(self).spec_dirty(),
    {
        proof {
            self.lemma_wf_facts();
        }
        let ghost s = self@;
        let ghost p = self.cursor.absolute as int;
        match self.data.remove() {
            Some(c) => {
                proof {
                    let t = self.data@;
                    assert(s =~= s.subrange(0, p - 1) + seq![c] + s.subrange(p, s.len() as int));
                    assert(t =~= s.subrange(0, p - 1) + s.subrange(p, s.len() as int));
                    lemma_newline_count_concat(s.subrange(0, p - 1) + seq![c], s.subrange(p, s.len() as int));
                    lemma_newline_count_concat(s.subrange(0, p - 1), seq![c]);
                    lemma_newline_count_concat(s.subrange(0, p - 1), s.subrange(p, s.len() as int));
                    lemma_newline_count_single(c);
                    lemma_newline_count_bound(t);
                    self.data.lemma_len_bound();
                }
                if c == '\n' {
                    self.line_count = self.line_count - 1;
                }
                self.cursor = position_of(&self.data, self.data.get_pos());
                self.dirty = true;
                Some(c)
            },
            None => None,
        }
    }

    /// Removes the character at the cursor (the "Delete" key) and returns it;
    /// `None`, with nothing changed, when the cursor is at the end.
    pub fn delete(&mut self) -> (r: Option<char>)
        requires
            old(self).wf(),
        ensures
            final(self).wf(),
            final(self).spec_cursor() == old(self).spec_cursor(),
            final(self).spec_listening() == old(self).spec_listening(),
            final(self).pending_events() == old(self).pending_events(),
            old(self).spec_cursor().absolute == old(self)@.len() ==> r is None && final(self)@
                == old(self)@ && final(self).spec_dirty() == old(self).spec_dirty(),
            old(self).spec_cursor().absolute < old(self)@.len() ==> r == Some(
                old(self)@[old(self).spec_cursor().absolute as int],
            ) && final(self)@ == old(self)@.remove(old(self).spec_cursor().absolute as int)
                && final(self).spec_dirty(),
    {
        proof {
            self.lemma_wf_facts();
        }
        let ghost s = self@;
        let ghost p = self.cursor.absolute as int;
        match self.data.delete() {
            Some(c) => {
                proof {
                    let t = self.data@;
                    assert(s =~= s.subrange(0, p) + seq![c] + s.subrange(p + 1, s.len() as int));
                    assert(t =~= s.subrange(0, p) + s.subrange(p + 1, s.len() as int));
                    assert(t.subrange(0, p) =~= s.subrange(0, p));
                    lemma_newline_count_concat(s.subrange(0, p) + seq![c], s.subrange(p + 1, s.len() as int));
                    lemma_newline_count_concat(s.subrange(0, p), seq![c]);
                    lemma_newline_count_concat(s.subrange(0, p), s.subrange(p + 1, s.len() as int));
                    lemma_newline_count_single(c);
                    lemma_rfind_prefix(s, t, p, false);
                }
                if c == '\n' {
                    self.line_count = self.line_count - 1;
                }
                self.dirty = true;
                Some(c)
            },
            None => None,
        }
    }

    /// Empties the buffer and puts the cursor at the start.
    pub fn clear_buffer_contents(&mut self)
        requires
            old(self).wf(),
        ensures
            final(self).wf(),
            final(self)@ == Seq::<char>::empty(),
            final(self).spec_cursor().absolute == 0,
            final(self).spec_dirty() == old(self).spec_dirty(),
            final(self).spec_listening() == old(self).spec_listening(),
            final(self).pending_events() == old(self).pending_events(),
    {
        self.data = GapBuffer::new();
        self.cursor = TextPosition::new();
        self.line_count = 0;
        proof {
            assert(self.data@.subrange(0, 0) =~= Seq::<char>::empty());
        }
    }

    /// The offset that `c` names in this buffer.
    pub open spec fn cursor_offset(&self, c: Cursor) -> int {
        match c {
            Cursor::Absolute(q) => q as int,
            Cursor::Buffer => self.spec_cursor().absolute as int,
        }
    }

    /// The span of the word, line or block around `cursor`: for a word, from
    /// just after the nearest space or newline before it to just before the
    /// nearest one from it on; for a line, from just after the nearest newline
    /// before it to the nearest newline from it on; for a block, from the
    /// nearest unmatched `{` before it to the `}` that closes it.
    pub fn find_range_of(&self, cursor: Cursor, kind: ObjectKind) -> (r: (TextPosition, TextPosition))
        requires
            self.wf(),
            0 <= self.cursor_offset(cursor) <= self@.len(),
        ensures
            r.0.absolute == object_range(self@, self.cursor_offset(cursor), kind).0,
            r.1.absolute == object_range(self@, self.cursor_offset(cursor), kind).1,
            position_in(self@, r.0),
            position_in(self@, r.1),
    {
        proof {
            self.lemma_wf_facts();
        }
        let p = match cursor {
            Cursor::Absolute(q) => q,
            Cursor::Buffer => self.cursor.absolute,
        };
        let len = self.data.len();
        let (b, e) = match kind {
            ObjectKind::Word => {
                let b = boundary_before(&self.data, p, true);
                let f = boundary_from(&self.data, p, true);
                let e = if f < len {
                    if f > 0 {
                        f - 1
                    } else {
                        0
                    }
                } else if len > 0 {
                    len - 1
                } else {
                    0
                };
                proof {
                    lemma_rfind_range(self@, p as int, true);
                }
                (b, e)
            },
            ObjectKind::Line => {
                let b = boundary_before(&self.data, p, false);
                let e = boundary_from(&self.data, p, false);
                proof {
                    lemma_rfind_range(self@, p as int, false);
                    lemma_find_range(self@, p as int, false);
                }
                (b, e)
            },
            ObjectKind::Block => {
                let b = match open_brace(&self.data, p) {
                    Some(i) => i,
                    None => 0,
                };
                let e = close_brace(&self.data, p);
                proof {
                    lemma_open_brace_range(self@, p as int, 0);
                    lemma_close_brace_range(self@, p as int, 1);
                }
                (b, e)
            },
        };
        (position_of(&self.data, b), position_of(&self.data, e))
    }

    /// The line holding the cursor, with its closing newline if it has one.
    pub fn get_line_at_cursor(&self) -> (r: String)
        requires
            self.wf(),
        ensures
            r@ == self@.subrange(
                line_start(self@, self.spec_cursor().absolute as int),
                if find_boundary(self@, self.spec_cursor().absolute as int, false) < self@.len() {
                    find_boundary(self@, self.spec_cursor().absolute as int, false) + 1
                } else {
                    self@.len() as int
                },
            ),
    {
        proof {
            self.lemma_wf_facts();
            lemma_rfind_range(self@, self.cursor.absolute as int, false);
            lemma_find_range(self@, self.cursor.absolute as int, false);
        }
        let p = self.cursor.absolute;
        let b = boundary_before(&self.data, p, false);
        let f = boundary_from(&self.data, p, false);
        let e = if f < self.data.len() {
            f + 1
        } else {
            f
        };
        self.data.read_string(b..e)
    }

    /// The text between offsets `begin` and `end`; empty when `begin` is not
    /// before `end`.
    pub fn get_data_range(&self, begin: usize, end: usize) -> (r: String)
        requires
            self.wf(),
            end <= self@.len(),
        ensures
            r@ == if begin < end {
                self@.subrange(begin as int, end as int)
            } else {
                Seq::empty()
            },
    {
        self.data.read_string(begin..end)
    }

    /// The whole text.
    pub fn dump_to_string(&self) -> (r: String)
        requires
            self.wf(),
        ensures
            r@ == self@,
    {
        let r = self.data.read_string(0..self.data.len());
        proof {
            if self@.len() > 0 {
                assert(self@.subrange(0, self@.len() as int) =~= self@);
            } else {
                assert(self@ =~= Seq::<char>::empty());
            }
        }
        r
    }

    /// One-based number of the line holding the cursor.
    pub fn get_line_number(&self) -> (r: usize)
        requires
            self.wf(),
        ensures
            r == line_index(self@, self.spec_cursor().absolute as int) + 1,
    {
        proof {
            self.lemma_wf_facts();
            lemma_newline_count_bound(self@.subrange(0, self.cursor.absolute as int));
        }
        let tp = position_of(&self.data, self.data.get_pos());
        tp.line_number + 1
    }

    /// Offset `pos` with the start of its line and the line's one-based number.
    pub fn get_line_number_at(&self, pos: usize) -> (r: TextPosition)
        requires
            self.wf(),
            pos <= self@.len(),
        ensures
            r.absolute == pos,
            r.line_start_absolute == line_start(self@, pos as int),
            r.line_number == line_index(self@, pos as int) + 1,
    {
        proof {
            self.lemma_wf_facts();
            lemma_newline_count_bound(self@.subrange(0, pos as int));
        }
        let mut tp = position_of(&self.data, pos);
        tp.line_number = tp.line_number + 1;
        tp
    }

    /// The line data of offset `absolute`, read at the end of the text when
    /// `absolute` lies past it.
    pub fn line_from_buffer_index(&self, absolute: usize) -> (r: Option<TextPosition>)
        requires
            self.wf(),
        ensures
            r is Some,
            r->0.absolute == absolute,
            r->0.line_start_absolute == line_start(
                self@,
                if absolute <= self@.len() {
                    absolute as int
                } else {
                    self@.len() as int
                },
            ),
            r->0.line_number == line_index(
                self@,
                if absolute <= self@.len() {
                    absolute as int
                } else {
                    self@.len() as int
                },
            ),
    {
        let len = self.data.len();
        let safe = if absolute <= len {
            absolute
        } else {
            len
        };
        let mut tp = position_of(&self.data, safe);
        tp.absolute = absolute;
        Some(tp)
    }

    /// Where the zero-based line `line_number` starts; `None` when the text
    /// has fewer lines.
    pub fn get_line_start_abs(&self, line_number: usize) -> (r: Option<TextPosition>)
        requires
            self.wf(),
        ensures
            r is Some <==> line_number <= newline_count(self@),
            r is Some ==> starts_line(self@, r->0.absolute as int, line_number as nat)
                && r->0.line_start_absolute == r->0.absolute && r->0.line_number == line_number,
    {
        let ghost s = self@;
        if line_number == 0 {
            proof {
                assert(s.subrange(0, 0) =~= Seq::<char>::empty());
                lemma_newline_count_bound(s);
            }
            return Some(TextPosition { absolute: 0, line_start_absolute: 0, line_number: 0 });
        }
        let len = self.data.len();
        let mut i: usize = 0;
        let mut count: usize = 0;
        while i < len
            invariant
                self.wf(),
                s == self@,
                len == s.len(),
                i <= len,
                count <= i,
                count < line_number,
                count == newline_count(s.subrange(0, i as int)),
            decreases len - i,
        {
            let c = *self.data.get(i).unwrap();
            proof {
                assert(s.subrange(0, i + 1).drop_last() =~= s.subrange(0, i as int));
            }
            if c == '\n' {
                count = count + 1;
                if count == line_number {
                    proof {
                        lemma_newline_count_bound(s.subrange(i + 1, s.len() as int));
                        lemma_newline_count_concat(s.subrange(0, i + 1), s.subrange(i + 1, s.len() as int));
                        assert(s =~= s.subrange(0, i + 1) + s.subrange(i + 1, s.len() as int));
                    }
                    return Some(TextPosition { absolute: i + 1, line_start_absolute: i + 1, line_number });
                }
            }
            i = i + 1;
        }
        proof {
            assert(s.subrange(0, len as int) =~= s);
        }
        None
    }

    /// Where the zero-based line `line_number` ends: at its newline, or at the
    /// end of the text for the last line. For a line past the last one it is
    /// the end of the text, on the last line.
    pub fn get_line_end_abs(&self, line_number: usize) -> (r: Option<TextPosition>)
        requires
            self.wf(),
        ensures
            r is Some,
            line_number <= newline_count(self@) ==> starts_line(
                self@,
                r->0.line_start_absolute as int,
                line_number as nat,
            ) && r->0.absolute == find_boundary(self@, r->0.line_start_absolute as int, false)
                && r->0.line_number == line_number,
            line_number > newline_count(self@) ==> starts_line(
                self@,
                r->0.line_start_absolute as int,
                newline_count(self@),
            ) && r->0.absolute == self@.len() && r->0.line_number == newline_count(self@),
    {
        match self.get_line_start_abs(line_number) {
            Some(start) => {
                let e = boundary_from(&self.data, start.absolute, false);
                Some(TextPosition { absolute: e, line_start_absolute: start.absolute, line_number })
            },
            None => {
                let last = self.line_count;
                match self.get_line_start_abs(last) {
                    Some(start) => Some(
                        TextPosition {
                            absolute: self.data.len(),
                            line_start_absolute: start.absolute,
                            line_number: last,
                        },
                    ),
                    None => None,
                }
            },
        }
    }

    /// Inserts `data` at the cursor and moves the cursor past it.
    pub fn insert_data(&mut self, data: &str)
        requires
            old(self).wf(),
            old(self)@.len() + data@.len() < MAX_LEN,
        ensures
            final(self).wf(),
            final(self)@ == old(self)@.subrange(0, old(self).spec_cursor().absolute as int) + data@
                + old(self)@.subrange(old(self).spec_cursor().absolute as int, old(self)@.len() as int),
            final(self).spec_cursor().absolute == old(self).spec_cursor().absolute + data@.len(),
            final(self).spec_dirty(),
            final(self).spec_listening() == old(self).spec_listening(),
            !old(self).spec_listening() ==> final(self).pending_events() == old(self).pending_events(),
            old(self).spec_listening() ==> final(self).pending_events().drop_last()
                == old(self).pending_events() && final(self).pending_events().len()
                == old(self).pending_events().len() + 1 && (match final(self).pending_events().last() {
                Event::INSERTION(at, EventData::CharRange(t)) => at == old(self).spec_cursor().absolute
                    && t@ == data@,
                _ => false,
            }),
    {
        proof {
            self.lemma_wf_facts();
        }
        let ghost s = self@;
        let ghost p = self.cursor.absolute as int;
        let at = self.cursor.absolute;
        let cs = chars_of(data);
        let added = count_newlines(cs.as_slice());
        self.data.set_gap_position(self.cursor.absolute);
        self.data.map_to(cs.as_slice());
        proof {
            let t = self.data@;
            assert(s =~= s.subrange(0, p) + s.subrange(p, s.len() as int));
            lemma_newline_count_concat(s.subrange(0, p), s.subrange(p, s.len() as int));
            lemma_newline_count_concat(s.subrange(0, p) + cs@, s.subrange(p, s.len() as int));
            lemma_newline_count_concat(s.subrange(0, p), cs@);
            lemma_newline_count_bound(t);
            self.data.lemma_len_bound();
        }
        self.line_count = self.line_count + added;
        self.cursor = position_of(&self.data, self.data.get_pos());
        self.dirty = true;
        if self.listening {
            let text = data.to_owned();
            self.events.push(Event::INSERTION(at, EventData::CharRange(text)));
        }
    }

    /// Moves the cursor one character back or forward, staying inside the
    /// text; word and line movements leave it where it is. Returns the new
    /// cursor.
    pub fn move_cursor(&mut self, movement: MoveKind) -> (r: Option<TextPosition>)
        requires
            old(self).wf(),
        ensures
            final(self).wf(),
            final(self)@ == old(self)@,
            r == Some(final(self).spec_cursor()),
            final(self).spec_cursor().absolute == match movement {
                MoveKind::Char(MoveDir::Previous) => if old(self).spec_cursor().absolute > 0 {
                    old(self).spec_cursor().absolute - 1
                } else {
                    0
                },
                MoveKind::Char(MoveDir::Next) => if old(self).spec_cursor().absolute < old(self)@.len() {
                    old(self).spec_cursor().absolute + 1
                } else {
                    old(self).spec_cursor().absolute as int
                },
                _ => old(self).spec_cursor().absolute as int,
            },
            final(self).spec_dirty() == old(self).spec_dirty(),
            final(self).spec_listening() == old(self).spec_listening(),
            final(self).pending_events() == old(self).pending_events(),
    {
        proof {
            self.lemma_wf_facts();
        }
        match movement {
            MoveKind::Char(MoveDir::Previous) => {
                if self.cursor.absolute > 0 {
                    self.set_textpos(self.cursor.absolute - 1);
                }
            },
            MoveKind::Char(MoveDir::Next) => {
                if self.cursor.absolute < self.data.len() {
                    self.set_textpos(self.cursor.absolute + 1);
                }
            },
            _ => {},
        }
        Some(self.cursor)
    }

    /// Starts queueing a change notification for every insertion.
    pub fn register_view(&mut self)
        requires
            old(self).wf(),
        ensures
            final(self).wf(),
            final(self)@ == old(self)@,
            final(self).spec_cursor() == old(self).spec_cursor(),
            final(self).spec_dirty() == old(self).spec_dirty(),
            final(self).spec_listening(),
            final(self).pending_events() == old(self).pending_events(),
    {
        self.listening = true;
    }

    /// Hands out the queued change notifications, oldest first, and empties the queue.
    pub fn take_events(&mut self) -> (r: Vec<Event>)
        requires
            old(self).wf(),
        ensures
            final(self).wf(),
            r@ == old(self).pending_events(),
            final(self)@ == old(self)@,
            final(self).spec_cursor() == old(self).spec_cursor(),
            final(self).spec_dirty() == old(self).spec_dirty(),
            final(self).spec_listening() == old(self).spec_listening(),
            final(self).pending_events() == Seq::<Event>::empty(),
    {
        let mut out: Vec<Event> = Vec::new();
        core::mem::swap(&mut self.events, &mut out);
        out
    }

    /// A buffer holding `contents`, its storage sized to the byte length of
    /// `contents`, with the cursor at the start.
    pub fn from_text(contents: &str) -> (r: Textbuffer)
        requires
            contents@.len() < MAX_LEN,
        ensures
            r.wf(),
            r@ == contents@,
            r.spec_cursor().absolute == 0,
            !r.spec_dirty(),
            !r.spec_listening(),
            r.pending_events() == Seq::<Event>::empty(),
    {
        let cs = chars_of(contents);
        let mut data: GapBuffer<char> = GapBuffer::new_with_capacity(contents.len());
        data.map_to(cs.as_slice());
        data.set_gap_position(0);
        let line_count = count_newlines(cs.as_slice());
        proof {
            assert(data@ =~= cs@);
            assert(data@.subrange(0, 0) =~= Seq::<char>::empty());
        }
        Textbuffer {
            data,
            cursor: TextPosition::new(),
            dirty: false,
            line_count,
            listening: false,
            events: Vec::new(),
        }
    }
}

} // verus!
