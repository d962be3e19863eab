use cxedit::gap_buffer::{Buffer, BufferString, GapBuffer};
use cxedit::text_buffer::Cursor;

fn filled(s: &str) -> GapBuffer<char> {
    let mut gb = GapBuffer::new();
    let cs: Vec<char> = s.chars().collect();
    gb.map_to(&cs);
    gb
}

fn all(gb: &GapBuffer<char>) -> Vec<char> {
    (0..gb.len()).map(|i| *gb.get(i).unwrap()).collect()
}

#[test]
fn gap_move_keeps_contents_everywhere() {
    let mut gb = filled("abcdefghijklmnopqrstuvwxyz0123456789");
    let before = all(&gb);
    for pos in [0usize, 36, 5, 20, 35, 1, 18] {
        gb.set_gap_position(pos);
        assert_eq!(gb.get_pos(), pos);
        assert_eq!(all(&gb), before);
    }
}

#[test]
fn growth_follows_doubling_from_sixteen() {
    let mut gb: GapBuffer<u32> = GapBuffer::new();
    assert_eq!(gb.capacity(), 0);
    let mut expected = Vec::new();
    for n in 1..=70u32 {
        gb.insert(n);
        expected.push(n);
        let want = if n <= 16 {
            16
        } else if n <= 32 {
            32
        } else if n <= 64 {
            64
        } else {
            128
        };
        assert_eq!(gb.capacity(), want, "after {} insertions", n);
    }
    assert_eq!(gb.len(), 70);
    let got: Vec<u32> = (0..70).map(|i| *gb.get(i).unwrap()).collect();
    assert_eq!(got, expected);
}

#[test]
fn growth_keeps_gap_in_middle() {
    let mut gb = filled("0123456789abcdef");
    assert_eq!(gb.capacity(), 16);
    gb.set_gap_position(4);
    gb.insert('X');
    assert_eq!(gb.capacity(), 32);
    assert_eq!(gb.get_pos(), 5);
    assert_eq!(gb.read_string(0..100), "0123X456789abcdef");
}

#[test]
fn presized_buffer_does_not_grow_until_full() {
    let mut gb: GapBuffer<char> = GapBuffer::new_with_capacity(5);
    assert_eq!(gb.capacity(), 5);
    assert_eq!(gb.len(), 0);
    gb.map_to(&['a', 'b', 'c', 'd', 'e']);
    assert_eq!(gb.capacity(), 5);
    gb.insert('f');
    assert_eq!(gb.capacity(), 16);
    assert_eq!(gb.read_string(0..6), "abcdef");
}

#[test]
fn delete_and_remove_at_limits() {
    let mut gb = filled("ab");
    assert_eq!(gb.delete(), None);
    gb.set_gap_position(0);
    assert_eq!(gb.remove(), None);
    assert_eq!(gb.delete(), Some('a'));
    assert_eq!(gb.read_string(0..10), "b");
    let mut empty: GapBuffer<char> = GapBuffer::new();
    assert_eq!(empty.delete(), None);
    assert_eq!(empty.remove(), None);
    assert_eq!(empty.get(0), None);
}

#[test]
fn read_string_clamps_and_handles_empty_ranges() {
    let gb = filled("hello");
    assert_eq!(gb.read_string(1..3), "el");
    assert_eq!(gb.read_string(3..3), "");
    assert_eq!(gb.read_string(4..2), "");
    assert_eq!(gb.read_string(7..9), "");
    assert_eq!(BufferString::read_string(&gb, 2..100), "llo");
}

#[test]
fn iterators_walk_both_ways() {
    let mut gb = filled("hello world");
    gb.set_gap_position(3);
    let mut it = gb.iter();
    assert_eq!(it.next(), Some(&'h'));
    assert_eq!(it.next_back(), Some(&'d'));
    let mut front = gb.iter_begin_to_cursor(Cursor::Buffer);
    let mut seen = Vec::new();
    while let Some(c) = front.next() {
        seen.push(*c);
    }
    assert_eq!(seen, vec!['h', 'e', 'l']);
    let mut back = gb.iter_cursor_to_end(Cursor::Absolute(8));
    assert_eq!(back.next_back(), Some(&'d'));
    assert_eq!(back.next_back(), Some(&'l'));
    assert_eq!(back.next(), Some(&'r'));
    assert_eq!(back.next(), None);
}

#[test]
fn buffer_trait_inserts_and_deletes_at_gap() {
    let mut gb = filled("ac");
    gb.set_gap_position(1);
    Buffer::insert(&mut gb, 'b');
    assert_eq!(gb.read_string(0..3), "abc");
    Buffer::remove(&mut gb);
    assert_eq!(gb.read_string(0..3), "ab");
}
