use line_buffer::buffer::Buffer;
use line_buffer::buffer::BufferError;

fn buffer_with(lines: &[&str]) -> Buffer {
    Buffer {
        file: None,
        lines: lines.iter().map(|s| s.chars().collect()).collect(),
        modified: false,
    }
}

fn line_str(b: &Buffer, index: usize) -> String {
    b.get_line(index).unwrap().iter().collect()
}

#[test]
fn new_buffer_is_one_empty_unmodified_line() {
    let b = Buffer::new();
    assert_eq!(b.len(), 1);
    assert_eq!(line_str(&b, 0), "");
    assert!(!b.modified);
    assert_eq!(b.display_name(), "[No Name]");
}

#[test]
fn insert_into_empty_buffer() {
    let mut b = Buffer::new();
    assert_eq!(b.insert_char(0, 0, 'a'), Ok(()));
    assert_eq!(line_str(&b, 0), "a");
    assert!(b.modified);
}

#[test]
fn insert_at_line_length_appends() {
    let mut b = buffer_with(&["ab"]);
    let len = b.line_length(0).unwrap();
    assert_eq!(b.insert_char(0, len, '!'), Ok(()));
    assert_eq!(line_str(&b, 0), "ab!");
}

#[test]
fn insert_past_line_length_fails() {
    let mut b = buffer_with(&["ab"]);
    let len = b.line_length(0).unwrap();
    assert_eq!(b.insert_char(0, len + 1, '!'), Err(BufferError::InvalidColumnIndex(len + 1, 0)));
    assert_eq!(line_str(&b, 0), "ab");
    assert!(!b.modified);
}

#[test]
fn insert_into_missing_line_fails() {
    let mut b = buffer_with(&["ab"]);
    assert_eq!(b.insert_char(1, 0, '!'), Err(BufferError::InvalidLineIndex(1)));
    assert!(!b.modified);
}

#[test]
fn insert_in_the_middle() {
    let mut b = buffer_with(&["ac"]);
    assert_eq!(b.insert_char(0, 1, 'b'), Ok(()));
    assert_eq!(line_str(&b, 0), "abc");
}

#[test]
fn remove_at_line_length_fails() {
    let mut b = buffer_with(&["ab"]);
    let len = b.line_length(0).unwrap();
    assert_eq!(b.remove_char(0, len), Err(BufferError::InvalidColumnIndex(len, 0)));
    assert_eq!(line_str(&b, 0), "ab");
    assert!(!b.modified);
}

#[test]
fn remove_just_before_line_length_succeeds() {
    let mut b = buffer_with(&["ab"]);
    let len = b.line_length(0).unwrap();
    assert_eq!(b.remove_char(0, len - 1), Ok('b'));
    assert_eq!(line_str(&b, 0), "a");
    assert!(b.modified);
}

#[test]
fn remove_from_missing_line_fails() {
    let mut b = buffer_with(&["ab"]);
    assert_eq!(b.remove_char(2, 0), Err(BufferError::InvalidLineIndex(2)));
}

#[test]
fn join_second_line_onto_first() {
    let mut b = buffer_with(&["ab", "cd"]);
    assert_eq!(b.join_with_previous_line(1), Ok(2));
    assert_eq!(b.len(), 1);
    assert_eq!(line_str(&b, 0), "abcd");
    assert!(b.modified);
}

#[test]
fn join_line_zero_always_fails() {
    let mut empty = Buffer::new();
    assert_eq!(empty.join_with_previous_line(0), Err(BufferError::InvalidLineIndex(0)));
    let mut multi = buffer_with(&["ab", "cd", "ef"]);
    assert_eq!(multi.join_with_previous_line(0), Err(BufferError::InvalidLineIndex(0)));
    assert_eq!(multi.len(), 3);
    assert!(!multi.modified);
}

#[test]
fn join_out_of_range_fails() {
    let mut b = buffer_with(&["ab", "cd"]);
    assert_eq!(b.join_with_previous_line(2), Err(BufferError::InvalidLineIndex(2)));
    assert_eq!(b.len(), 2);
}

#[test]
fn delete_only_line_clears_it() {
    let mut b = buffer_with(&["hello"]);
    assert_eq!(b.delete_line(0), Ok(()));
    assert_eq!(b.len(), 1);
    assert_eq!(line_str(&b, 0), "");
    assert!(b.modified);
}

#[test]
fn delete_line_from_many() {
    let mut b = buffer_with(&["ab", "cd", "ef"]);
    assert_eq!(b.delete_line(1), Ok(()));
    assert_eq!(b.len(), 2);
    assert_eq!(line_str(&b, 0), "ab");
    assert_eq!(line_str(&b, 1), "ef");
}

#[test]
fn delete_out_of_range_fails() {
    let mut b = buffer_with(&["ab", "cd"]);
    assert_eq!(b.delete_line(2), Err(BufferError::InvalidLineIndex(2)));
    assert_eq!(b.len(), 2);
    assert!(!b.modified);
}

#[test]
fn repeated_delete_keeps_at_least_one_line() {
    let mut b = buffer_with(&["ab", "cd"]);
    for _ in 0..5 {
        assert_eq!(b.delete_line(0), Ok(()));
        assert!(b.len() >= 1);
    }
    assert_eq!(b.len(), 1);
    assert_eq!(line_str(&b, 0), "");
}

#[test]
fn get_line_out_of_range_fails() {
    let b = buffer_with(&["ab"]);
    assert!(matches!(b.get_line(1), Err(BufferError::InvalidLineIndex(1))));
    assert_eq!(b.line_length(1), Err(BufferError::InvalidLineIndex(1)));
}

#[test]
fn line_length_counts_characters_not_bytes() {
    let b = buffer_with(&["héllo"]);
    assert_eq!(b.line_length(0), Ok(5));
}

#[test]
fn get_line_mut_edits_one_line() {
    let mut b = buffer_with(&["ab", "cd"]);
    {
        let line = b.get_line_mut(1).unwrap();
        line.push('!');
    }
    assert_eq!(line_str(&b, 1), "cd!");
    assert_eq!(line_str(&b, 0), "ab");
    assert!(matches!(b.get_line_mut(2), Err(BufferError::InvalidLineIndex(2))));
}

#[test]
fn display_name_shows_the_path() {
    let mut b = Buffer::new();
    assert_eq!(b.display_name(), "[No Name]");
    b.set_source("notes.txt".to_string());
    assert_eq!(b.display_name(), "notes.txt");
}

#[test]
fn save_content_needs_a_destination() {
    let b = Buffer::new();
    assert!(matches!(b.save_content(), Err(BufferError::NoDestination)));
}

#[test]
fn save_content_yields_path_and_joined_text() {
    let mut b = buffer_with(&["ab", "cd"]);
    b.set_source("doc.txt".to_string());
    let (path, text) = b.save_content().unwrap();
    assert_eq!(path, "doc.txt");
    let text: String = text.into_iter().collect();
    assert_eq!(text, "ab\ncd");
}

#[test]
fn mark_saved_clears_the_flag() {
    let mut b = Buffer::new();
    b.insert_char(0, 0, 'a').unwrap();
    assert!(b.modified);
    b.mark_saved();
    assert!(!b.modified);
    assert_eq!(line_str(&b, 0), "a");
}
