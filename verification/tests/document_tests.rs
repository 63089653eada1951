use tedit::document::Document;
use tedit::editor::Position;

fn chars(s: &str) -> Vec<char> {
    s.chars().collect()
}

fn doc_from(text: &str) -> Document {
    Document::from_text(&chars(text), None)
}

fn row_text(doc: &Document, index: usize) -> Vec<char> {
    doc.row(index).expect("row should exist").as_text()
}

fn pos(row: usize, col: usize) -> Position {
    Position { row, col }
}

#[test]
fn default_is_empty_clean_and_unsaved() {
    let doc = Document::default();
    assert_eq!(doc.len(), 0);
    assert!(doc.is_empty());
    assert!(!doc.is_dirty());
    assert!(doc.path().is_none());
}

#[test]
fn from_text_splits_on_newlines() {
    let doc = doc_from("ab\ncd\n");
    assert_eq!(doc.len(), 2);
    assert_eq!(row_text(&doc, 0), chars("ab"));
    assert_eq!(row_text(&doc, 1), chars("cd"));
}

#[test]
fn from_text_final_partial_line_counts() {
    let doc = doc_from("ab\ncd");
    assert_eq!(doc.len(), 2);
    assert_eq!(row_text(&doc, 1), chars("cd"));
}

#[test]
fn from_text_empty_text_has_no_rows() {
    let doc = doc_from("");
    assert_eq!(doc.len(), 0);
}

#[test]
fn from_text_lone_newline_is_one_empty_row() {
    let doc = doc_from("\n");
    assert_eq!(doc.len(), 1);
    assert_eq!(row_text(&doc, 0), Vec::<char>::new());
}

#[test]
fn from_text_keeps_blank_middle_rows() {
    let doc = doc_from("a\n\nb");
    assert_eq!(doc.len(), 3);
    assert_eq!(row_text(&doc, 0), chars("a"));
    assert_eq!(row_text(&doc, 1), Vec::<char>::new());
    assert_eq!(row_text(&doc, 2), chars("b"));
}

#[test]
fn from_text_keeps_path() {
    let doc = Document::from_text(&chars("x\n"), Some(String::from("notes.txt")));
    assert_eq!(doc.path(), Some(String::from("notes.txt")));
    assert!(!doc.is_dirty());
}

#[test]
fn row_out_of_range_is_none() {
    let doc = doc_from("a\n");
    assert!(doc.row(0).is_some());
    assert!(doc.row(1).is_none());
    assert!(doc.row(99).is_none());
}

#[test]
fn typing_two_characters_into_empty_buffer() {
    // empty buffer, insert "hi" at (0,0) then (0,1): row 0 reads "hi"
    let mut doc = Document::default();
    doc.insert(&pos(0, 0), 'h');
    doc.insert(&pos(0, 1), 'i');
    assert_eq!(doc.len(), 1);
    assert_eq!(row_text(&doc, 0), chars("hi"));
}

#[test]
fn insert_at_append_row_creates_new_row() {
    let mut doc = doc_from("ab\n");
    doc.insert(&pos(1, 0), 'c');
    assert_eq!(doc.len(), 2);
    assert_eq!(row_text(&doc, 1), chars("c"));
}

#[test]
fn insert_past_append_row_is_noop() {
    let mut doc = doc_from("ab\n");
    doc.insert(&pos(2, 0), 'c');
    assert_eq!(doc.len(), 1);
    assert_eq!(row_text(&doc, 0), chars("ab"));
    assert!(!doc.is_dirty());
}

#[test]
fn insert_sets_dirty() {
    let mut doc = doc_from("ab\n");
    assert!(!doc.is_dirty());
    doc.insert(&pos(0, 1), 'x');
    assert!(doc.is_dirty());
}

#[test]
fn insert_newline_character_delegates_to_split() {
    let mut doc = doc_from("hello\n");
    doc.insert(&pos(0, 2), '\n');
    assert_eq!(doc.len(), 2);
    assert_eq!(row_text(&doc, 0), chars("he"));
    assert_eq!(row_text(&doc, 1), chars("llo"));
}

#[test]
fn insert_newline_mid_row_splits() {
    // single row "hello", newline at (0,2): rows become "he" and "llo"
    let mut doc = doc_from("hello\n");
    doc.insert_newline(&pos(0, 2));
    assert_eq!(doc.len(), 2);
    assert_eq!(row_text(&doc, 0), chars("he"));
    assert_eq!(row_text(&doc, 1), chars("llo"));
}

#[test]
fn insert_newline_grows_length_by_one() {
    let mut doc = doc_from("a\nb\n");
    doc.insert_newline(&pos(0, 0));
    assert_eq!(doc.len(), 3);
    doc.insert_newline(&pos(3, 0));
    assert_eq!(doc.len(), 4);
}

#[test]
fn insert_newline_at_append_row_adds_empty_row() {
    let mut doc = doc_from("a\n");
    doc.insert_newline(&pos(1, 0));
    assert_eq!(doc.len(), 2);
    assert_eq!(row_text(&doc, 1), Vec::<char>::new());
}

#[test]
fn insert_newline_past_append_row_is_noop() {
    let mut doc = doc_from("a\n");
    doc.insert_newline(&pos(2, 0));
    assert_eq!(doc.len(), 1);
    assert!(!doc.is_dirty());
}

#[test]
fn delete_at_row_end_joins_rows() {
    // rows "ab", "cd"; delete at (0,2) joins them into "abcd"
    let mut doc = doc_from("ab\ncd\n");
    doc.delete(&pos(0, 2));
    assert_eq!(doc.len(), 1);
    assert_eq!(row_text(&doc, 0), chars("abcd"));
}

#[test]
fn delete_mid_row_removes_one_character() {
    let mut doc = doc_from("abc\nd\n");
    doc.delete(&pos(0, 1));
    assert_eq!(doc.len(), 2);
    assert_eq!(row_text(&doc, 0), chars("ac"));
}

#[test]
fn delete_at_end_of_last_row_is_noop_on_content() {
    let mut doc = doc_from("ab\n");
    doc.delete(&pos(0, 2));
    assert_eq!(doc.len(), 1);
    assert_eq!(row_text(&doc, 0), chars("ab"));
}

#[test]
fn delete_past_last_row_is_noop() {
    let mut doc = doc_from("ab\n");
    doc.delete(&pos(1, 0));
    assert_eq!(doc.len(), 1);
    assert!(!doc.is_dirty());
}

#[test]
fn delete_keeps_length_except_on_join() {
    let mut doc = doc_from("ab\ncd\n");
    doc.delete(&pos(0, 0));
    assert_eq!(doc.len(), 2);
    doc.delete(&pos(0, 0));
    assert_eq!(doc.len(), 2);
    doc.delete(&pos(0, 0));
    assert_eq!(doc.len(), 1);
    assert_eq!(row_text(&doc, 0), chars("cd"));
}

#[test]
fn to_text_appends_newline_to_every_row() {
    let doc = doc_from("x\ny\n");
    assert_eq!(doc.to_text(), chars("x\ny\n"));
}

#[test]
fn to_text_of_empty_document_is_empty() {
    let doc = Document::default();
    assert_eq!(doc.to_text(), Vec::<char>::new());
}

#[test]
fn save_format_round_trips() {
    // serializing rows ["x", "y"] and reading the text back yields the
    // same rows
    let mut doc = Document::default();
    doc.insert(&pos(0, 0), 'x');
    doc.insert(&pos(1, 0), 'y');
    assert_eq!(doc.len(), 2);
    let text = doc.to_text();
    let reopened = Document::from_text(&text, None);
    assert_eq!(reopened.len(), 2);
    assert_eq!(row_text(&reopened, 0), chars("x"));
    assert_eq!(row_text(&reopened, 1), chars("y"));
}

#[test]
fn round_trip_after_edits() {
    let mut doc = doc_from("hello\nworld\n");
    doc.insert_newline(&pos(0, 2));
    doc.insert(&pos(1, 0), 'z');
    let text = doc.to_text();
    let reopened = Document::from_text(&text, None);
    assert_eq!(reopened.len(), 3);
    assert_eq!(row_text(&reopened, 0), chars("he"));
    assert_eq!(row_text(&reopened, 1), chars("zllo"));
    assert_eq!(row_text(&reopened, 2), chars("world"));
}
