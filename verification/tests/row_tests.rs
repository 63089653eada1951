use tedit::row::Row;

fn chars(s: &str) -> Vec<char> {
    s.chars().collect()
}

#[test]
fn empty_row() {
    let r = Row::default();
    assert_eq!(r.len(), 0);
    assert_eq!(r.as_text(), Vec::<char>::new());
}

#[test]
fn from_chars_keeps_content() {
    let r = Row::from_chars(chars("hello"));
    assert_eq!(r.len(), 5);
    assert_eq!(r.as_text(), chars("hello"));
}

#[test]
fn insert_mid_row() {
    let mut r = Row::from_chars(chars("hllo"));
    r.insert(1, 'e');
    assert_eq!(r.as_text(), chars("hello"));
}

#[test]
fn insert_at_end_appends() {
    let mut r = Row::from_chars(chars("ab"));
    r.insert(2, 'c');
    assert_eq!(r.as_text(), chars("abc"));
}

#[test]
fn insert_past_end_is_clamped_to_append() {
    let mut r = Row::from_chars(chars("ab"));
    r.insert(99, 'c');
    assert_eq!(r.as_text(), chars("abc"));
}

#[test]
fn delete_in_range() {
    let mut r = Row::from_chars(chars("hxello"));
    r.delete(1);
    assert_eq!(r.as_text(), chars("hello"));
}

#[test]
fn delete_out_of_range_is_noop() {
    let mut r = Row::from_chars(chars("ab"));
    r.delete(2);
    assert_eq!(r.as_text(), chars("ab"));
    r.delete(99);
    assert_eq!(r.as_text(), chars("ab"));
}

#[test]
fn insert_then_delete_restores() {
    // insert/delete are inverses at a fixed position
    let mut r = Row::from_chars(chars("world"));
    r.insert(2, 'z');
    assert_eq!(r.as_text(), chars("wozrld"));
    r.delete(2);
    assert_eq!(r.as_text(), chars("world"));
}

#[test]
fn insert_then_delete_restores_at_clamped_end() {
    let mut r = Row::from_chars(chars("ab"));
    r.insert(10, 'c');
    r.delete(2);
    assert_eq!(r.as_text(), chars("ab"));
}

#[test]
fn split_mid_row() {
    let mut r = Row::from_chars(chars("hello"));
    let rest = r.split(2);
    assert_eq!(r.as_text(), chars("he"));
    assert_eq!(rest.as_text(), chars("llo"));
}

#[test]
fn split_at_zero_moves_everything() {
    let mut r = Row::from_chars(chars("abc"));
    let rest = r.split(0);
    assert_eq!(r.as_text(), Vec::<char>::new());
    assert_eq!(rest.as_text(), chars("abc"));
}

#[test]
fn split_past_end_keeps_everything() {
    let mut r = Row::from_chars(chars("abc"));
    let rest = r.split(7);
    assert_eq!(r.as_text(), chars("abc"));
    assert_eq!(rest.as_text(), Vec::<char>::new());
}

#[test]
fn split_then_append_reconstructs() {
    // split/append are exact inverses
    let mut r = Row::from_chars(chars("terminal"));
    let rest = r.split(3);
    r.append(&rest);
    assert_eq!(r.as_text(), chars("terminal"));
}

#[test]
fn append_joins_rows() {
    let mut r = Row::from_chars(chars("ab"));
    let other = Row::from_chars(chars("cd"));
    r.append(&other);
    assert_eq!(r.as_text(), chars("abcd"));
}

#[test]
fn render_basic_window() {
    let r = Row::from_chars(chars("hello world"));
    assert_eq!(r.render(0, 5), chars("hello"));
    assert_eq!(r.render(6, 11), chars("world"));
}

#[test]
fn render_clamps_end() {
    let r = Row::from_chars(chars("abc"));
    assert_eq!(r.render(1, 99), chars("bc"));
}

#[test]
fn render_out_of_range_start_is_empty() {
    let r = Row::from_chars(chars("abc"));
    assert_eq!(r.render(3, 10), Vec::<char>::new());
    assert_eq!(r.render(7, 10), Vec::<char>::new());
}

#[test]
fn render_empty_when_start_not_before_end() {
    let r = Row::from_chars(chars("abc"));
    assert_eq!(r.render(2, 2), Vec::<char>::new());
    assert_eq!(r.render(2, 1), Vec::<char>::new());
}

#[test]
fn clone_keeps_content() {
    let r = Row::from_chars(chars("xy"));
    let c = r.clone();
    assert_eq!(c.as_text(), chars("xy"));
}
