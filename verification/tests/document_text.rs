use line_buffer::buffer::Buffer;
use line_buffer::text::join_lines;
use line_buffer::text::split_document;

fn chars_of(s: &str) -> Vec<char> {
    s.chars().collect()
}

fn strings_of(lines: &[Vec<char>]) -> Vec<String> {
    lines.iter().map(|l| l.iter().collect()).collect()
}

#[test]
fn split_cuts_at_every_newline() {
    assert_eq!(strings_of(&split_document(&chars_of("ab\ncd"))), ["ab", "cd"]);
    assert_eq!(strings_of(&split_document(&chars_of("a\n\nb"))), ["a", "", "b"]);
}

#[test]
fn split_drops_one_trailing_newline() {
    assert_eq!(strings_of(&split_document(&chars_of("ab\ncd\n"))), ["ab", "cd"]);
    assert_eq!(strings_of(&split_document(&chars_of("ab\ncd\n\n"))), ["ab", "cd", ""]);
}

#[test]
fn split_of_empty_text_is_one_empty_line() {
    assert_eq!(strings_of(&split_document(&chars_of(""))), [""]);
    assert_eq!(strings_of(&split_document(&chars_of("\n"))), [""]);
}

#[test]
fn split_keeps_carriage_returns() {
    assert_eq!(strings_of(&split_document(&chars_of("a\r\nb"))), ["a\r", "b"]);
}

#[test]
fn join_separates_lines_with_single_newlines() {
    let lines = vec![chars_of("ab"), chars_of(""), chars_of("cd")];
    let text: String = join_lines(&lines).into_iter().collect();
    assert_eq!(text, "ab\n\ncd");
}

#[test]
fn join_of_one_line_adds_no_separator() {
    let lines = vec![chars_of("ab")];
    let text: String = join_lines(&lines).into_iter().collect();
    assert_eq!(text, "ab");
}

#[test]
fn load_then_save_keeps_text_without_trailing_newline() {
    let source = "ab\ncd";
    let b = Buffer::from_text("doc.txt".to_string(), &chars_of(source));
    let written: String = b.to_text().into_iter().collect();
    assert_eq!(written, source);
}

#[test]
fn load_then_save_drops_one_trailing_newline() {
    let b = Buffer::from_text("doc.txt".to_string(), &chars_of("ab\ncd\n"));
    let written: String = b.to_text().into_iter().collect();
    assert_eq!(written, "ab\ncd");
}

#[test]
fn loaded_buffer_is_clean_and_named() {
    let b = Buffer::from_text("doc.txt".to_string(), &chars_of("ab\ncd\n"));
    assert_eq!(b.len(), 2);
    assert!(!b.modified);
    assert_eq!(b.display_name(), "doc.txt");
}

#[test]
fn loaded_empty_file_has_one_empty_line() {
    let b = Buffer::from_text("doc.txt".to_string(), &chars_of(""));
    assert_eq!(b.len(), 1);
    assert_eq!(b.line_length(0), Ok(0));
}
