//! Mathematical description of the text's lines and of the boundaries that
//! the word, line and block scans look for.
use vstd::prelude::*;

verus! {

/// Number of newline characters in `s`.
pub open spec fn newline_count(s: Seq<char>) -> nat
    decreases s.len(),
{
    if s.len() == 0 {
        0
    } else {
        newline_count(s.drop_last()) + if s.last() == '\n' {
            1nat
        } else {
            0nat
        }
    }
}

/// A boundary of a line scan (a newline), or of a word scan (a newline or a space).
pub open spec fn is_boundary(c: char, words: bool) -> bool {
    c == '\n' || (words && c == ' ')
}

/// Index of the last boundary before `pos`, or -1 when there is none.
pub open spec fn rfind_boundary(s: Seq<char>, pos: int, words: bool) -> int
    decreases pos,
{
    if pos <= 0 {
        -1
    } else if is_boundary(s[pos - 1], words) {
        pos - 1
    } else {
        rfind_boundary(s, pos - 1, words)
    }
}

/// Index of the first boundary at or after `pos`, or `s.len()` when there is none.
pub open spec fn find_boundary(s: Seq<char>, pos: int, words: bool) -> int
    decreases s.len() - pos,
{
    if pos >= s.len() || pos < 0 {
        s.len() as int
    } else if is_boundary(s[pos], words) {
        pos
    } else {
        find_boundary(s, pos + 1, words)
    }
}

/// Offset at which the line holding offset `pos` starts.
pub open spec fn line_start(s: Seq<char>, pos: int) -> int {
    rfind_boundary(s, pos, false) + 1
}

/// Zero-based index of the line holding offset `pos`.
pub open spec fn line_index(s: Seq<char>, pos: int) -> nat {
    newline_count(s.subrange(0, pos))
}

/// Index of the nearest `{` before `pos` that is not closed before `pos`,
/// where `depth` braces closed further right are still waiting to be opened;
/// -1 when there is none.
pub open spec fn open_brace_before(s: Seq<char>, pos: int, depth: nat) -> int
    decreases pos,
{
    if pos <= 0 {
        -1
    } else if s[pos - 1] == '{' {
        if depth == 0 {
            pos - 1
        } else {
            open_brace_before(s, pos - 1, (depth - 1) as nat)
        }
    } else if s[pos - 1] == '}' {
        open_brace_before(s, pos - 1, depth + 1)
    } else {
        open_brace_before(s, pos - 1, depth)
    }
}

/// Index of the `}` at or after `i` that brings the nesting counter `depth`
/// to zero; `s.len()` when the braces stay unmatched.
pub open spec fn close_brace_from(s: Seq<char>, i: int, depth: nat) -> int
    decreases s.len() - i,
{
    if i >= s.len() || i < 0 {
        s.len() as int
    } else if s[i] == '{' {
        close_brace_from(s, i + 1, depth + 1)
    } else if s[i] == '}' {
        if depth <= 1 {
            i
        } else {
            close_brace_from(s, i + 1, (depth - 1) as nat)
        }
    } else {
        close_brace_from(s, i + 1, depth)
    }
}

pub proof fn lemma_newline_count_concat(a: Seq<char>, b: Seq<char>)
    ensures
        newline_count(a + b) == newline_count(a) + newline_count(b),
    decreases b.len(),
{
    if b.len() == 0 {
        assert(a + b =~= a);
    } else {
        lemma_newline_count_concat(a, b.drop_last());
        assert((a + b).drop_last() =~= a + b.drop_last());
    }
}

pub proof fn lemma_newline_count_bound(s: Seq<char>)
    ensures
        newline_count(s) <= s.len(),
    decreases s.len(),
{
    if s.len() > 0 {
        lemma_newline_count_bound(s.drop_last());
    }
}

pub proof fn lemma_newline_count_single(c: char)
    ensures
        newline_count(seq![c]) == if c == '\n' {
            1nat
        } else {
            0nat
        },
{
    assert(seq![c].drop_last() =~= Seq::<char>::empty());
    assert(newline_count(Seq::<char>::empty()) == 0);
    assert(seq![c].last() == c);
}

/// The last boundary before `pos` depends only on the text before `pos`.
pub proof fn lemma_rfind_prefix(s: Seq<char>, t: Seq<char>, pos: int, words: bool)
    requires
        0 <= pos <= s.len(),
        pos <= t.len(),
        s.subrange(0, pos) == t.subrange(0, pos),
    ensures
        rfind_boundary(s, pos, words) == rfind_boundary(t, pos, words),
    decreases pos,
{
    if pos > 0 {
        assert(s[pos - 1] == s.subrange(0, pos)[pos - 1]);
        assert(t[pos - 1] == t.subrange(0, pos)[pos - 1]);
        assert(s.subrange(0, pos - 1) =~= s.subrange(0, pos).subrange(0, pos - 1));
        assert(t.subrange(0, pos - 1) =~= t.subrange(0, pos).subrange(0, pos - 1));
        lemma_rfind_prefix(s, t, pos - 1, words);
    }
}

pub proof fn lemma_rfind_range(s: Seq<char>, pos: int, words: bool)
    ensures
        -1 <= rfind_boundary(s, pos, words) < if pos < 0 { 0 } else { pos },
        rfind_boundary(s, pos, words) >= 0 ==> is_boundary(s[rfind_boundary(s, pos, words)], words),
    decreases pos,
{
    if pos > 0 {
        lemma_rfind_range(s, pos - 1, words);
    }
}

pub proof fn lemma_find_range(s: Seq<char>, pos: int, words: bool)
    requires
        0 <= pos <= s.len(),
    ensures
        pos <= find_boundary(s, pos, words) <= s.len(),
    decreases s.len() - pos,
{
    if pos < s.len() {
        lemma_find_range(s, pos + 1, words);
    }
}

pub proof fn lemma_open_brace_range(s: Seq<char>, pos: int, depth: nat)
    ensures
        -1 <= open_brace_before(s, pos, depth) < if pos < 0 { 0 } else { pos },
    decreases pos,
{
    if pos > 0 {
        if s[pos - 1] == '{' {
            if depth > 0 {
                lemma_open_brace_range(s, pos - 1, (depth - 1) as nat);
            }
        } else if s[pos - 1] == '}' {
            lemma_open_brace_range(s, pos - 1, depth + 1);
        } else {
            lemma_open_brace_range(s, pos - 1, depth);
        }
    }
}

pub proof fn lemma_close_brace_range(s: Seq<char>, i: int, depth: nat)
    requires
        0 <= i <= s.len(),
    ensures
        i <= close_brace_from(s, i, depth) <= s.len(),
    decreases s.len() - i,
{
    if i < s.len() {
        if s[i] == '{' {
            lemma_close_brace_range(s, i + 1, depth + 1);
        } else if s[i] == '}' {
            if depth > 1 {
                lemma_close_brace_range(s, i + 1, (depth - 1) as nat);
            }
        } else {
            lemma_close_brace_range(s, i + 1, depth);
        }
    }
}

} // verus!
