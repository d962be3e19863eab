use cxedit::gap_buffer::GapBuffer as GB;
use cxedit::text_buffer::Textbuffer;

fn chars(s: &str) -> Vec<char> {
    s.chars().collect()
}

#[test]
fn test_gapbuffer_insert() {
    let mut gb = GB::new();
    gb.map_to(&chars("hello world!"));
    assert_eq!(gb.get(0), Some(&'h'));
}

#[test]
fn test_gapbuffer_read_string() {
    let mut gb = GB::new();
    gb.map_to(&chars("hello world!"));
    assert_eq!(gb.read_string(0..5), "hello");
}

#[test]
fn test_gapbuffer_dump_to_string() {
    let mut gb = GB::new();
    gb.map_to(&chars("hello world!"));
    assert_eq!(gb.read_string(0..25), "hello world!");
}

#[test]
fn test_insert_move_insert() {
    let mut gb = GB::new();
    gb.map_to(&chars("hello world!"));
    assert_eq!(gb.read_string(0..25), "hello world!");
    gb.set_gap_position(6);
    gb.map_to(&chars("fucking "));
    assert_eq!(gb.read_string(0..25), "hello fucking world!");
}

#[test]
fn test_insert_lines() {}

#[test]
fn test_remove_char() {
    let mut gb = GB::new();
    gb.map_to(&chars("hello world!"));
    let c = gb.remove();
    assert_eq!(c, Some('!'));
    assert_eq!("hello world", gb.read_string(0..25));
}

#[test]
fn test_insert_newline() {
    let mut gb = GB::new();
    gb.map_to(&chars("hello wor"));
    gb.set_gap_position(5);
    let a = gb.get(5);
    assert_eq!(a, Some(&' '));
    gb.insert('\n');
    assert_eq!("hello\n wor", gb.read_string(0..25));
}

#[test]
fn test_remove_world_from_hello_world() {
    let mut gb = GB::new();
    gb.map_to(&chars("hello world"));
    gb.set_gap_position(6);
    for _ in 0..5 {
        gb.delete();
    }
    assert_eq!("hello ", gb.read_string(0..25));
}

#[test]
fn test_replace_world_with_simon() {
    let mut gb = GB::new();
    gb.map_to(&chars("hello world"));
    gb.set_gap_position(6);
    for _ in 0..5 {
        gb.delete();
    }
    let simon: String = "Simon".into();
    gb.map_to(&chars(&simon));
    assert_eq!("hello Simon", gb.read_string(0..25));
}

#[test]
fn test_text_buffer() {
    let mut tb = Textbuffer::new();
    tb.insert_data("hello Simon");
    assert_eq!("hello Simon", tb.get_data_range(0, 11));
}
