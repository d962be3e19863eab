use vstd::prelude::*;
use crate::text_buffer::Cursor;
use crate::strings::push_char;

verus! {

/// Smallest capacity the storage grows to.
pub const MIN_CAPACITY: usize = 16;

/// Largest logical length for which one more insertion can still grow the
/// storage without overflowing `usize`.
pub const MAX_LEN: usize = usize::MAX / 2;

/// Capacity after one insertion into a buffer of capacity `cap` holding `len`
/// elements: the storage doubles (to at least `MIN_CAPACITY`) only when the
/// gap is exhausted.
pub open spec fn next_capacity(cap: nat, len: nat) -> nat {
    if len == cap {
        if 2 * cap < MIN_CAPACITY {
            MIN_CAPACITY as nat
        } else {
            2 * cap
        }
    } else {
        cap
    }
}

/// Capacity of a buffer made by `new` after `n` insertions and no deletions,
/// step by step as `insert` states it.
pub open spec fn capacity_after_inserts(n: nat) -> nat
    decreases n,
{
    if n == 0 {
        0
    } else {
        next_capacity(capacity_after_inserts((n - 1) as nat), (n - 1) as nat)
    }
}

/// `c` is one of 16, 32, 64, ...
pub open spec fn is_growth_size(c: nat) -> bool
    decreases c,
{
    c == MIN_CAPACITY || (c > MIN_CAPACITY && c % 2 == 0 && is_growth_size(c / 2))
}

/// After `n >= 1` insertions into an empty buffer, the capacity is the
/// smallest of 16, 32, 64, ... that is at least `n`: it is one of them, it
/// holds `n`, and the one before it would not.
pub proof fn lemma_growth_law(n: nat)
    requires
        n >= 1,
    ensures
        is_growth_size(capacity_after_inserts(n)),
        capacity_after_inserts(n) >= n,
        capacity_after_inserts(n) == MIN_CAPACITY || capacity_after_inserts(n) / 2 < n,
    decreases n,
{
    if n == 1 {
        assert(capacity_after_inserts(0) == 0);
        assert(capacity_after_inserts(1) == MIN_CAPACITY);
    } else {
        lemma_growth_law((n - 1) as nat);
        let c = capacity_after_inserts((n - 1) as nat);
        if c == n - 1 {
            assert(capacity_after_inserts(n) == 2 * c);
            assert((2 * c) / 2 == c);
            assert((2 * c) % 2 == 0);
        }
    }
}

/// The `n`-th insertion into a buffer made by `new`, with no deletions,
/// leaves the capacity that `insert` states (`next_capacity` of the one
/// before) equal to the smallest of 16, 32, 64, ... that holds `n`.
pub proof fn lemma_nth_insert_capacity(n: nat, cap_before: nat, cap_after: nat)
    requires
        n >= 1,
        cap_before == capacity_after_inserts((n - 1) as nat),
        cap_after == next_capacity(cap_before, (n - 1) as nat),
    ensures
        cap_after == capacity_after_inserts(n),
        is_growth_size(cap_after),
        cap_after >= n,
        cap_after == MIN_CAPACITY || cap_after / 2 < n,
{
    lemma_growth_law(n);
}

/// Growable storage with one relocatable gap of absent slots at the edit point.
///
/// Slots outside the gap hold a value; slots inside the gap hold none.
pub struct GapBuffer<T> {
    data: Vec<Option<T>>,
    gap_start: usize,
    gap_end: usize,
}

impl<T> View for GapBuffer<T> {
    type V = Seq<T>;

    /// The logical contents: the slots before the gap, then those after it.
    closed spec fn view(&self) -> Seq<T> {
        Seq::new(
            (self.data@.len() - (self.gap_end - self.gap_start)) as nat,
            |i: int| self.data@[self.raw_index(i)]->0,
        )
    }
}

impl<T> GapBuffer<T> {
    /// The storage bounds hold the gap, and exactly the slots outside it are filled.
    pub closed spec fn wf(&self) -> bool {
        &&& self.gap_start <= self.gap_end <= self.data@.len() <= usize::MAX
        &&& forall|i: int|
            0 <= i < self.data@.len() ==> (#[trigger] self.data@[i] is Some <==> !(
            self.gap_start <= i < self.gap_end))
    }

    /// Number of slots in the storage, filled or not.
    pub closed spec fn spec_capacity(&self) -> nat {
        self.data@.len()
    }

    /// Logical position of the gap: the number of elements before it.
    pub closed spec fn gap_pos(&self) -> nat {
        self.gap_start as nat
    }

    spec fn raw_index(&self, i: int) -> int {
        if i < self.gap_start {
            i
        } else {
            i + (self.gap_end - self.gap_start)
        }
    }

    proof fn lemma_view_len(&self)
        requires
            self.wf(),
        ensures
            self@.len() == self.data@.len() - (self.gap_end - self.gap_start),
            self.gap_pos() <= self@.len(),
            self@.len() <= self.spec_capacity(),
    {
    }

    /// The gap lies within the contents, which fit in the storage.
    pub proof fn lemma_len_bound(&self)
        requires
            self.wf(),
        ensures
            self.gap_pos() <= self@.len(),
            self@.len() <= self.spec_capacity(),
            self.spec_capacity() <= usize::MAX,
    {
    }

    pub fn new() -> (r: GapBuffer<T>)
        ensures
            r.wf(),
            r@ == Seq::<T>::empty(),
            r.gap_pos() == 0,
            r.spec_capacity() == 0,
    {
        let r = GapBuffer { data: Vec::new(), gap_start: 0, gap_end: 0 };
        assert(r@ =~= Seq::<T>::empty());
        r
    }

    /// An empty buffer whose gap spans `cap` pre-allocated slots.
    pub fn new_with_capacity(cap: usize) -> (r: GapBuffer<T>)
        ensures
            r.wf(),
            r@ == Seq::<T>::empty(),
            r.gap_pos() == 0,
            r.spec_capacity() == cap,
    {
        let mut data: Vec<Option<T>> = Vec::new();
        let mut i: usize = 0;
        while i < cap
            invariant
                i <= cap,
                data@.len() == i,
                forall|j: int| 0 <= j < i ==> data@[j] is None,
            decreases cap - i,
        {
            data.push(None);
            i = i + 1;
        }
        let r = GapBuffer { data, gap_start: 0, gap_end: cap };
        assert(r@ =~= Seq::<T>::empty());
        r
    }

    pub fn capacity(&self) -> (r: usize)
        ensures
            r == self.spec_capacity(),
    {
        self.data.len()
    }

    pub fn len(&self) -> (r: usize)
        requires
            self.wf(),
        ensures
            r == self@.len(),
    {
        self.data.len() - (self.gap_end - self.gap_start)
    }

    /// The logical position of the gap.
    pub fn get_pos(&self) -> (r: usize)
        ensures
            r == self.gap_pos(),
    {
        self.gap_start
    }

    fn index_to_raw(&self, index: usize) -> (r: usize)
        requires
            self.wf(),
            index < self@.len(),
        ensures
            r == self.raw_index(index as int),
            r < self.data@.len(),
    {
        proof {
            self.lemma_view_len();
        }
        if index < self.gap_start {
            index
        } else {
            index + (self.gap_end - self.gap_start)
        }
    }

    /// Bounds-checked logical read.
    pub fn get(&self, index: usize) -> (r: Option<&T>)
        requires
            self.wf(),
        ensures
            index < self@.len() ==> r == Some(&self@[index as int]),
            index >= self@.len() ==> r is None,
    {
        if index < self.len() {
            let raw = self.index_to_raw(index);
            self.data[raw].as_ref()
        } else {
            None
        }
    }

    /// Moves one element across the gap so that the gap moves one place forward.
    fn shift_gap_forward(&mut self)
        requires
            old(self).wf(),
            old(self).gap_end < old(self).data@.len(),
        ensures
            final(self).wf(),
            final(self)@ == old(self)@,
            final(self).gap_pos() == old(self).gap_pos() + 1,
            final(self).spec_capacity() == old(self).spec_capacity(),
    {
        let ghost before = self@;
        let mut tmp: Option<T> = None;
        self.data.set_and_swap(self.gap_end, &mut tmp);
        self.data.set_and_swap(self.gap_start, &mut tmp);
        self.gap_start = self.gap_start + 1;
        self.gap_end = self.gap_end + 1;
        assert(self@ =~= before);
    }

    /// Moves one element across the gap so that the gap moves one place back.
    fn shift_gap_backward(&mut self)
        requires
            old(self).wf(),
            old(self).gap_start > 0,
        ensures
            final(self).wf(),
            final(self)@ == old(self)@,
            final(self).gap_pos() == old(self).gap_pos() - 1,
            final(self).spec_capacity() == old(self).spec_capacity(),
    {
        let ghost before = self@;
        let mut tmp: Option<T> = None;
        self.data.set_and_swap(self.gap_start - 1, &mut tmp);
        self.data.set_and_swap(self.gap_end - 1, &mut tmp);
        self.gap_start = self.gap_start - 1;
        self.gap_end = self.gap_end - 1;
        assert(self@ =~= before);
    }

    /// Relocates the gap to logical position `pos`; the contents are unchanged.
    pub fn set_gap_position(&mut self, pos: usize)
        requires
            old(self).wf(),
            pos <= old(self)@.len(),
        ensures
            final(self).wf(),
            final(self)@ == old(self)@,
            final(self).gap_pos() == pos,
            final(self).spec_capacity() == old(self).spec_capacity(),
    {
        while self.gap_start < pos
            invariant
                self.wf(),
                self@ == old(self)@,
                self.spec_capacity() == old(self).spec_capacity(),
                pos <= self@.len(),
            decreases pos - self.gap_start,
        {
            proof {
                self.lemma_view_len();
            }
            self.shift_gap_forward();
        }
        while self.gap_start > pos
            invariant
                self.wf(),
                self@ == old(self)@,
                self.spec_capacity() == old(self).spec_capacity(),
                pos <= self.gap_start,
            decreases self.gap_start - pos,
        {
            self.shift_gap_backward();
        }
    }

    /// Grows the storage to `max(MIN_CAPACITY, 2 * capacity)`, keeping the
    /// contents and the gap's logical position.
    fn enlarge_gap(&mut self)
        requires
            old(self).wf(),
            old(self).spec_capacity() <= MAX_LEN,
        ensures
            final(self).wf(),
            final(self)@ == old(self)@,
            final(self).gap_pos() == old(self).gap_pos(),
            final(self).spec_capacity() == if 2 * old(self).spec_capacity() < MIN_CAPACITY {
                MIN_CAPACITY as nat
            } else {
                2 * old(self).spec_capacity()
            },
    {
        let ghost orig = self.data@;
        let ghost before = self@;
        let cap = self.data.len();
        let newcap: usize = if cap * 2 < MIN_CAPACITY {
            MIN_CAPACITY
        } else {
            cap * 2
        };
        let after = cap - self.gap_end;
        let new_end = newcap - after;
        let mut newbuf: Vec<Option<T>> = Vec::new();
        let mut i: usize = 0;
        while i < newcap
            invariant
                i <= newcap,
                newbuf@.len() == i,
                forall|j: int| 0 <= j < i ==> newbuf@[j] is None,
            decreases newcap - i,
        {
            newbuf.push(None);
            i = i + 1;
        }
        let mut k: usize = 0;
        while k < self.gap_start
            invariant
                self.gap_start == old(self).gap_start,
                self.gap_end == old(self).gap_end,
                self.data@.len() == orig.len(),
                k <= self.gap_start,
                newbuf@.len() == newcap,
                forall|j: int| 0 <= j < k ==> newbuf@[j] == orig[j],
                forall|j: int| k <= j < newcap ==> newbuf@[j] is None,
                forall|j: int| k <= j < orig.len() ==> self.data@[j] == orig[j],
                self.gap_start <= self.gap_end <= orig.len(),
                new_end == newcap - (orig.len() - self.gap_end),
                self.gap_start <= new_end,
            decreases self.gap_start - k,
        {
            let mut tmp: Option<T> = None;
            self.data.set_and_swap(k, &mut tmp);
            newbuf.set(k, tmp);
            k = k + 1;
        }
        let mut m: usize = 0;
        while m < after
            invariant
                self.gap_start == old(self).gap_start,
                self.gap_end == old(self).gap_end,
                self.data@.len() == orig.len(),
                after == orig.len() - self.gap_end,
                new_end == newcap - after,
                self.gap_start <= new_end,
                self.gap_start <= self.gap_end <= orig.len() <= usize::MAX,
                m <= after,
                newbuf@.len() == newcap,
                forall|j: int| 0 <= j < self.gap_start ==> newbuf@[j] == orig[j],
                forall|j: int| self.gap_start <= j < new_end ==> newbuf@[j] is None,
                forall|j: int| 0 <= j < m ==> #[trigger] newbuf@[new_end + j] == orig[self.gap_end + j],
                forall|j: int| m <= j < after ==> (#[trigger] newbuf@[new_end + j]) is None,
                forall|j: int| m <= j < after ==> #[trigger] self.data@[self.gap_end + j] == orig[self.gap_end + j],
            decreases after - m,
        {
            let mut tmp: Option<T> = None;
            self.data.set_and_swap(self.gap_end + m, &mut tmp);
            newbuf.set(new_end + m, tmp);
            m = m + 1;
        }
        self.data = newbuf;
        self.gap_end = new_end;
        assert forall|j: int| 0 <= j < self.data@.len() implies (#[trigger] self.data@[j] is Some
            <==> !(self.gap_start <= j < self.gap_end)) by {
            if j >= new_end {
                assert(self.data@[new_end + (j - new_end)] == orig[old(self).gap_end + (j
                    - new_end)]);
                assert(old(self).data@[old(self).gap_end + (j - new_end)] is Some);
            } else if j < self.gap_start {
                assert(old(self).data@[j] is Some);
            }
        }
        assert forall|i: int| 0 <= i < self@.len() implies self@[i] == before[i] by {
            if i >= self.gap_start {
                let j = i - self.gap_start;
                assert(self.data@[new_end + j] == orig[old(self).gap_end + j]);
            }
        }
        assert(self@ =~= before);
    }

    /// Writes `elem` at the gap's start and advances the gap; grows the
    /// storage first when the gap is empty.
    pub fn insert(&mut self, elem: T)
        requires
            old(self).wf(),
            old(self)@.len() < MAX_LEN,
        ensures
            final(self).wf(),
            final(self)@ == old(self)@.insert(old(self).gap_pos() as int, elem),
            final(self).gap_pos() == old(self).gap_pos() + 1,
            final(self).spec_capacity() == next_capacity(
                old(self).spec_capacity(),
                old(self)@.len(),
            ),
    {
        proof {
            self.lemma_view_len();
        }
        if self.gap_start == self.gap_end {
            self.enlarge_gap();
        }
        proof {
            self.lemma_view_len();
        }
        let ghost before = self@;
        self.data.set(self.gap_start, Some(elem));
        self.gap_start = self.gap_start + 1;
        assert(self@ =~= before.insert(self.gap_start - 1, elem));
    }

    /// Bulk insertion at the gap, the same as inserting each item in turn.
    pub fn map_to(&mut self, items: &[T])
        where
            T: Copy,
        requires
            old(self).wf(),
            old(self)@.len() + items@.len() < MAX_LEN,
        ensures
            final(self).wf(),
            final(self)@ == old(self)@.subrange(0, old(self).gap_pos() as int) + items@
                + old(self)@.subrange(old(self).gap_pos() as int, old(self)@.len() as int),
            final(self).gap_pos() == old(self).gap_pos() + items@.len(),
    {
        proof {
            self.lemma_view_len();
        }
        let ghost p = self.gap_pos() as int;
        let ghost s = self@;
        let mut i: usize = 0;
        while i < items.len()
            invariant
                self.wf(),
                i <= items@.len(),
                s.len() + items@.len() < MAX_LEN,
                0 <= p <= s.len(),
                self.gap_pos() == p + i,
                self@ == s.subrange(0, p) + items@.subrange(0, i as int) + s.subrange(p, s.len() as int),
            decreases items@.len() - i,
        {
            let ghost prev = self@;
            self.insert(items[i]);
            assert(self@ =~= s.subrange(0, p) + items@.subrange(0, i + 1) + s.subrange(p, s.len() as int));
            i = i + 1;
        }
        assert(items@.subrange(0, items@.len() as int) =~= items@);
    }

    /// Removes and returns the element just after the gap (the "Delete" key);
    /// `None` when the gap is at the end.
    pub fn delete(&mut self) -> (r: Option<T>)
        requires
            old(self).wf(),
        ensures
            final(self).wf(),
            final(self).gap_pos() == old(self).gap_pos(),
            final(self).spec_capacity() == old(self).spec_capacity(),
            old(self).gap_pos() == old(self)@.len() ==> r is None && final(self)@ == old(self)@,
            old(self).gap_pos() < old(self)@.len() ==> r == Some(old(self)@[old(self).gap_pos() as int])
                && final(self)@ == old(self)@.remove(old(self).gap_pos() as int),
    {
        proof {
            self.lemma_view_len();
        }
        if self.gap_end == self.data.len() {
            return None;
        }
        let ghost before = self@;
        let mut tmp: Option<T> = None;
        self.data.set_and_swap(self.gap_end, &mut tmp);
        self.gap_end = self.gap_end + 1;
        assert(self@ =~= before.remove(self.gap_start as int));
        tmp
    }

    /// Removes and returns the element just before the gap (the "Backspace"
    /// key); `None` when the gap is at the start.
    pub fn remove(&mut self) -> (r: Option<T>)
        requires
            old(self).wf(),
        ensures
            final(self).wf(),
            final(self).spec_capacity() == old(self).spec_capacity(),
            old(self).gap_pos() == 0 ==> r is None && final(self)@ == old(self)@
                && final(self).gap_pos() == 0,
            old(self).gap_pos() > 0 ==> r == Some(old(self)@[old(self).gap_pos() - 1])
                && final(self)@ == old(self)@.remove(old(self).gap_pos() - 1)
                && final(self).gap_pos() == old(self).gap_pos() - 1,
    {
        proof {
            self.lemma_view_len();
        }
        if self.gap_start == 0 {
            return None;
        }
        let ghost before = self@;
        let mut tmp: Option<T> = None;
        self.data.set_and_swap(self.gap_start - 1, &mut tmp);
        self.gap_start = self.gap_start - 1;
        assert(self@ =~= before.remove(self.gap_start as int));
        tmp
    }
}

impl<T> GapBuffer<T> {
    /// The logical offset that `cursor` names.
    pub open spec fn cursor_offset(&self, cursor: Cursor) -> nat {
        match cursor {
            Cursor::Absolute(pos) => pos as nat,
            Cursor::Buffer => self.gap_pos(),
        }
    }

    /// Iterates from the start up to `cursor`.
    pub fn iter_begin_to_cursor(&self, cursor: Cursor) -> (r: GapBufferIterator<'_, T>)
        requires
            self.wf(),
            self.cursor_offset(cursor) <= self@.len(),
        ensures
            r.wf(),
            r.remaining() == self@.subrange(0, self.cursor_offset(cursor) as int),
    {
        let pos = match cursor {
            Cursor::Absolute(pos) => pos,
            Cursor::Buffer => self.get_pos(),
        };
        GapBufferIterator { pos: 0, end: pos, buffer: self }
    }

    /// Iterates from `cursor` to the end.
    pub fn iter_cursor_to_end(&self, cursor: Cursor) -> (r: GapBufferIterator<'_, T>)
        requires
            self.wf(),
            self.cursor_offset(cursor) <= self@.len(),
        ensures
            r.wf(),
            r.remaining() == self@.subrange(self.cursor_offset(cursor) as int, self@.len() as int),
    {
        let pos = match cursor {
            Cursor::Absolute(pos) => pos,
            Cursor::Buffer => self.get_pos(),
        };
        GapBufferIterator { pos, end: self.len(), buffer: self }
    }

    /// Iterates over the whole contents.
    pub fn iter(&self) -> (r: GapBufferIterator<'_, T>)
        requires
            self.wf(),
        ensures
            r.wf(),
            r.remaining() == self@,
    {
        proof {
            assert(self@.subrange(0, self@.len() as int) =~= self@);
        }
        GapBufferIterator { pos: 0, end: self.len(), buffer: self }
    }
}

/// Walks a range of a gap buffer's logical indices from either end.
pub struct GapBufferIterator<'a, T> {
    pos: usize,
    end: usize,
    buffer: &'a GapBuffer<T>,
}

impl<'a, T> GapBufferIterator<'a, T> {
    pub closed spec fn wf(&self) -> bool {
        self.buffer.wf() && self.pos <= self.end <= self.buffer@.len()
    }

    /// The elements not yet handed out, front first.
    pub closed spec fn remaining(&self) -> Seq<T> {
        self.buffer@.subrange(self.pos as int, self.end as int)
    }

    /// Hands out the front element.
    pub fn next(&mut self) -> (r: Option<&'a T>)
        requires
            old(self).wf(),
        ensures
            final(self).wf(),
            old(self).remaining().len() == 0 ==> r is None && final(self).remaining()
                == old(self).remaining(),
            old(self).remaining().len() > 0 ==> r == Some(&old(self).remaining()[0])
                && final(self).remaining() == old(self).remaining().drop_first(),
    {
        if self.pos < self.end {
            let r = self.buffer.get(self.pos);
            self.pos = self.pos + 1;
            proof {
                assert(self.remaining() =~= old(self).remaining().drop_first());
            }
            r
        } else {
            None
        }
    }

    /// Hands out the back element.
    pub fn next_back(&mut self) -> (r: Option<&'a T>)
        requires
            old(self).wf(),
        ensures
            final(self).wf(),
            old(self).remaining().len() == 0 ==> r is None && final(self).remaining()
                == old(self).remaining(),
            old(self).remaining().len() > 0 ==> r == Some(&old(self).remaining().last())
                && final(self).remaining() == old(self).remaining().drop_last(),
    {
        if self.pos < self.end {
            self.end = self.end - 1;
            let r = self.buffer.get(self.end);
            proof {
                assert(self.remaining() =~= old(self).remaining().drop_last());
            }
            r
        } else {
            None
        }
    }
}

impl GapBuffer<char> {
    /// The characters at the logical indices of `range` that lie inside the
    /// buffer, in order.
    pub fn read_string(&self, range: std::ops::Range<usize>) -> (r: String)
        requires
            self.wf(),
        ensures
            r@ == clamped_range(self@, range.start as int, range.end as int),
    {
        let len = self.len();
        let end = if range.end < len {
            range.end
        } else {
            len
        };
        let mut out = String::new();
        if range.start >= end {
            assert(out@ =~= Seq::<char>::empty());
            return out;
        }
        let mut i: usize = range.start;
        while i < end
            invariant
                self.wf(),
                end <= self@.len(),
                range.start <= i <= end,
                out@ == self@.subrange(range.start as int, i as int),
            decreases end - i,
        {
            let c = *self.get(i).unwrap();
            push_char(&mut out, c);
            assert(out@ =~= self@.subrange(range.start as int, i + 1));
            i = i + 1;
        }
        out
    }
}

/// The part of `s` between `begin` and `end`, both cut to the length of `s`;
/// empty when `begin` is not before the cut end.
pub open spec fn clamped_range(s: Seq<char>, begin: int, end: int) -> Seq<char> {
    let e = if end < s.len() {
        end
    } else {
        s.len() as int
    };
    if begin < e {
        s.subrange(begin, e)
    } else {
        Seq::empty()
    }
}

/// Storage that takes and gives up elements at an edit point.
pub trait Buffer<T> {
    spec fn contents(&self) -> Seq<T>;

    spec fn edit_point(&self) -> nat;

    spec fn ready(&self) -> bool;

    /// Inserts `data` at the edit point, which moves past it.
    fn insert(&mut self, data: T)
        requires
            old(self).ready(),
            old(self).contents().len() < MAX_LEN,
        ensures
            final(self).ready(),
            final(self).contents() == old(self).contents().insert(old(self).edit_point() as int, data),
            final(self).edit_point() == old(self).edit_point() + 1,
    ;

    /// Takes away the element just after the edit point, if there is one.
    fn remove(&mut self)
        requires
            old(self).ready(),
        ensures
            final(self).ready(),
            final(self).edit_point() == old(self).edit_point(),
            old(self).edit_point() < old(self).contents().len() ==> final(self).contents() == old(
                self,
            ).contents().remove(old(self).edit_point() as int),
            old(self).edit_point() >= old(self).contents().len() ==> final(self).contents() == old(
                self,
            ).contents(),
    ;
}

impl<T> Buffer<T> for GapBuffer<T> {
    open spec fn contents(&self) -> Seq<T> {
        self@
    }

    open spec fn edit_point(&self) -> nat {
        self.gap_pos()
    }

    open spec fn ready(&self) -> bool {
        self.wf()
    }

    fn insert(&mut self, data: T) {
        GapBuffer::insert(self, data);
    }

    fn remove(&mut self) {
        proof {
            self.lemma_len_bound();
        }
        self.delete();
    }
}

/// Text that can be read back over a range of offsets.
pub trait BufferString {
    spec fn text(&self) -> Seq<char>;

    spec fn readable(&self) -> bool;

    /// The characters at the offsets of `range` that lie inside the text.
    fn read_string(&self, range: std::ops::Range<usize>) -> (r: String)
        requires
            self.readable(),
        ensures
            r@ == clamped_range(self.text(), range.start as int, range.end as int),
    ;
}

impl BufferString for GapBuffer<char> {
    open spec fn text(&self) -> Seq<char> {
        self@
    }

    open spec fn readable(&self) -> bool {
        self.wf()
    }

    fn read_string(&self, range: std::ops::Range<usize>) -> (r: String) {
        GapBuffer::<char>::read_string(self, range)
    }
}

} // verus!
