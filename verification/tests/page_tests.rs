use rhotic::text_buffer::{InsertCharError, Page};

#[test]
fn round_trip_from_string() {
    let s = "first line\nsecond line\n\nfourth";
    let page = Page::from(s);
    assert_eq!(page.as_string(), s);
}

#[test]
fn round_trip_single_line() {
    let page = Page::from("just one line");
    assert_eq!(page.as_string(), "just one line");
    assert_eq!(page.len(), 1);
}

#[test]
fn empty_document_is_one_empty_line() {
    let page = Page::new();
    assert_eq!(page.len(), 1);
    assert_eq!(page.get_line(0), Some(""));
    assert_eq!(page.as_string(), "");
}

#[test]
fn line_count_stays_positive_after_removals() {
    let mut page = Page::from("only");
    let removed = page.remove_line(0);
    assert_eq!(removed, "only");
    assert_eq!(page.len(), 1);
    assert_eq!(page.get_line(0), Some(""));

    let mut page = Page::from("a\nb");
    page.remove_line(1);
    assert_eq!(page.len(), 1);
    page.remove_line(0);
    assert_eq!(page.len(), 1);
    let popped = page.pop_line(0);
    assert_eq!(popped.as_deref(), Some(""));
    assert_eq!(page.len(), 1);
}

#[test]
fn multibyte_characters_address_by_column() {
    let mut page = Page::from("ab");
    page.insert_char(0, 1, 'é').unwrap();
    assert_eq!(page.get_char(0, 1), Some('é'));
    assert_eq!(page.get_line(0), Some("aéb"));

    page.insert_char(0, 2, '🙂').unwrap();
    assert_eq!(page.get_char(0, 2), Some('🙂'));
    assert_eq!(page.get_line(0), Some("aé🙂b"));

    let removed = page.remove_char(0, 2);
    assert_eq!(removed, Some('🙂'));
    assert_eq!(page.get_line(0), Some("aéb"));
}

#[test]
fn newline_splits_and_join_restores() {
    let mut page = Page::from("abcdef");
    page.insert_char(0, 3, '\n').unwrap();
    assert_eq!(page.len(), 2);
    assert_eq!(page.get_line(0), Some("abc"));
    assert_eq!(page.get_line(1), Some("def"));

    let tail = page.remove_line(1);
    page.push_str(0, tail.as_str());
    assert_eq!(page.len(), 1);
    assert_eq!(page.get_line(0), Some("abcdef"));
}

#[test]
fn out_of_bounds_line_is_rejected_unchanged() {
    let mut page = Page::from("a\nb\nc");
    let before = page.as_string();
    match page.insert_char(99, 0, 'x') {
        Err(InsertCharError::LineLookupOutOfBounds { index, length }) => {
            assert_eq!(index, 99);
            assert_eq!(length, 3);
        },
        other => panic!("expected a line lookup failure, got {:?}", other),
    }
    assert_eq!(page.as_string(), before);
}

#[test]
fn out_of_bounds_column_is_rejected_unchanged() {
    let mut page = Page::from("abc");
    let before = page.as_string();
    match page.insert_char(0, 4, 'x') {
        Err(InsertCharError::CharIndexingOutOfBounds { index, length }) => {
            assert_eq!(index, 4);
            assert_eq!(length, 3);
        },
        other => panic!("expected a column failure, got {:?}", other),
    }
    assert_eq!(page.as_string(), before);
}

#[test]
fn insert_at_line_end_appends() {
    let mut page = Page::from("ab");
    page.insert_char(0, 2, 'c').unwrap();
    assert_eq!(page.get_line(0), Some("abc"));
    page.push_char(0, 'd');
    assert_eq!(page.get_line(0), Some("abcd"));
    page.push_char(0, '\n');
    assert_eq!(page.len(), 2);
    assert_eq!(page.get_line(1), Some(""));
}

#[test]
fn insert_line_splits_on_newlines() {
    let mut page = Page::from("x\ny");
    page.insert_line(1, "a\nb");
    assert_eq!(page.as_string(), "x\na\nb\ny");
    page.push_line("tail");
    assert_eq!(page.as_string(), "x\na\nb\ny\ntail");
}

#[test]
fn insert_str_keeps_tail_after_last_fragment() {
    let mut page = Page::from("hello world");
    page.insert_str(0, 5, "X\nY");
    assert_eq!(page.len(), 2);
    assert_eq!(page.get_line(0), Some("helloX"));
    assert_eq!(page.get_line(1), Some("Y world"));

    let mut page = Page::from("ab");
    page.insert_str(0, 1, "--");
    assert_eq!(page.get_line(0), Some("a--b"));
}

#[test]
fn push_str_appends_and_splits() {
    let mut page = Page::from("start");
    page.push_str(0, " end\nnext");
    assert_eq!(page.as_string(), "start end\nnext");
    // an out-of-range line changes nothing
    page.push_str(9, "zzz");
    assert_eq!(page.as_string(), "start end\nnext");
}

#[test]
fn get_str_reads_inclusive_columns() {
    let page = Page::from("abcdef");
    assert_eq!(page.get_str(0, 1, 3), Some("bcd"));
    assert_eq!(page.get_str(0, 0, 5), Some("abcdef"));
    assert_eq!(page.get_str(0, 3, 2), None);
    assert_eq!(page.get_str(0, 0, 6), None);
    assert_eq!(page.get_str(1, 0, 0), None);
}

#[test]
fn remove_str_takes_the_span_and_keeps_the_rest() {
    let mut page = Page::from("abcdef");
    let taken = page.remove_str(0, 1, 3);
    assert_eq!(taken.as_deref(), Some("bcd"));
    assert_eq!(page.get_line(0), Some("aef"));

    let mut page = Page::from("abc");
    let taken = page.remove_str(0, 1, 9);
    assert_eq!(taken.as_deref(), Some("bc"));
    assert_eq!(page.get_line(0), Some("a"));

    let mut page = Page::from("abc");
    let taken = page.remove_str(0, 2, 1);
    assert_eq!(taken.as_deref(), Some(""));
    assert_eq!(page.get_line(0), Some("abc"));

    let mut page = Page::from("abc");
    assert_eq!(page.remove_str(5, 0, 1), None);
}

#[test]
fn pop_char_takes_the_last_character() {
    let mut page = Page::from("hé");
    assert_eq!(page.pop_char(0), Some('é'));
    assert_eq!(page.pop_char(0), Some('h'));
    assert_eq!(page.pop_char(0), None);
    assert_eq!(page.pop_char(5), None);
}

#[test]
fn default_page_is_empty() {
    let page = Page::default();
    assert_eq!(page.len(), 1);
    assert_eq!(page.as_string(), "");
}

#[test]
fn round_trip_keeps_a_trailing_newline() {
    let page = Page::from("a\n");
    assert_eq!(page.len(), 2);
    assert_eq!(page.as_string(), "a\n");
    let page = Page::from("");
    assert_eq!(page.len(), 1);
    assert_eq!(page.as_string(), "");
}

#[test]
fn insert_str_with_many_fragments() {
    let mut page = Page::from("ab");
    page.insert_str(0, 1, "1\n2\n3");
    assert_eq!(page.len(), 3);
    assert_eq!(page.get_line(0), Some("a1"));
    assert_eq!(page.get_line(1), Some("2"));
    assert_eq!(page.get_line(2), Some("3b"));
    assert_eq!(page.as_string(), "a1\n2\n3b");
}
