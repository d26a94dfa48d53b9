use wim::doc::Doc;
use wim::noun::Noun;
use wim::rel::Rel;
use wim::row::Row;
use wim::types::Pos;
use wim::undo::Change;

fn lines(ls: &[&str]) -> Vec<String> {
    ls.iter().map(|s| s.to_string()).collect()
}

fn text_of(doc: &Doc) -> Vec<String> {
    (0..doc.line_count())
        .map(|y| doc.get_row(y).unwrap().as_slice().iter().collect())
        .collect()
}

#[test]
fn opened_document_holds_its_lines() {
    let doc = Doc::open("a.txt".to_string(), &lines(&["hello", "world"]));
    assert_eq!(text_of(&doc), vec!["hello", "world"]);
    assert_eq!(doc.get_filename(), Some("a.txt"));
    assert!(!doc.is_dirty());
    assert_eq!(doc.history_index(), 0);
    assert!(doc.get_row(2).is_none());
}

#[test]
fn empty_document_has_one_empty_row() {
    let doc = Doc::empty();
    assert_eq!(text_of(&doc), vec![""]);
    assert_eq!(doc.get_filename(), None);
    assert!(!doc.is_empty());
}

#[test]
fn undo_after_edit_restores_the_document() {
    let mut doc = Doc::open("a.txt".to_string(), &lines(&["abc"]));
    let op = doc.insert_char(Pos { x: 1, y: 0 }, 'X');
    let p = doc.push_change(Change::new(vec![op], Pos { x: 1, y: 0 }, Pos { x: 2, y: 0 }));
    assert_eq!(p, Pos { x: 2, y: 0 });
    assert_eq!(text_of(&doc), vec!["aXbc"]);
    assert!(doc.is_dirty());
    assert_eq!(doc.history_index(), 1);

    assert_eq!(doc.pop_change(), Some(Pos { x: 1, y: 0 }));
    assert_eq!(text_of(&doc), vec!["abc"]);
    assert_eq!(doc.history_index(), 0);
}

#[test]
fn redo_after_undo_reapplies_the_edit() {
    let mut doc = Doc::open("a.txt".to_string(), &lines(&["abc", "def"]));
    let (op, start) = doc.delete_range(Pos { x: 1, y: 0 }, Pos { x: 2, y: 1 }).unwrap();
    assert_eq!(start, Pos { x: 1, y: 0 });
    doc.push_change(Change::new(vec![op], Pos { x: 2, y: 1 }, start));
    assert_eq!(text_of(&doc), vec!["af"]);
    assert_eq!(doc.pop_change(), Some(Pos { x: 2, y: 1 }));
    assert_eq!(text_of(&doc), vec!["abc", "def"]);
    assert_eq!(doc.redo_change(), Some(Pos { x: 1, y: 0 }));
    assert_eq!(text_of(&doc), vec!["af"]);
    assert_eq!(doc.pop_change(), Some(Pos { x: 2, y: 1 }));
    assert_eq!(text_of(&doc), vec!["abc", "def"]);
}

#[test]
fn undo_and_redo_with_empty_history_do_nothing() {
    let mut doc = Doc::open("a.txt".to_string(), &lines(&["abc"]));
    assert_eq!(doc.pop_change(), None);
    assert_eq!(doc.redo_change(), None);
    assert_eq!(text_of(&doc), vec!["abc"]);
    assert!(!doc.is_dirty());
}

#[test]
fn a_new_edit_forgets_undone_changes() {
    let mut doc = Doc::open("a.txt".to_string(), &lines(&["ab"]));
    let op = doc.insert_char(Pos { x: 0, y: 0 }, '1');
    doc.push_change(Change::new(vec![op], Pos { x: 0, y: 0 }, Pos { x: 1, y: 0 }));
    doc.pop_change();
    let op = doc.insert_char(Pos { x: 2, y: 0 }, '2');
    doc.push_change(Change::new(vec![op], Pos { x: 2, y: 0 }, Pos { x: 3, y: 0 }));
    assert_eq!(text_of(&doc), vec!["ab2"]);
    assert_eq!(doc.redo_change(), None);
    assert_eq!(doc.history_index(), 1);
}

#[test]
fn insert_past_the_last_row_adds_a_row() {
    let mut doc = Doc::open("a.txt".to_string(), &lines(&["ab"]));
    let op = doc.insert_char(Pos { x: 0, y: 1 }, 'z');
    assert_eq!(op.range, 1..1);
    doc.push_change(Change::new(vec![op], Pos { x: 0, y: 1 }, Pos { x: 1, y: 1 }));
    assert_eq!(text_of(&doc), vec!["ab", "z"]);
}

#[test]
fn delete_range_of_equal_ends_is_nothing() {
    let doc = Doc::open("a.txt".to_string(), &lines(&["ab"]));
    assert!(doc.delete_range(Pos { x: 1, y: 0 }, Pos { x: 1, y: 0 }).is_none());
}

#[test]
fn delete_forwards_by_char_and_line() {
    let doc = Doc::open("a.txt".to_string(), &lines(&["hello world"]));
    let op = doc.delete_forwards(Pos { x: 0, y: 0 }, Noun::Char).unwrap();
    assert_eq!(op.rows[0].as_slice().iter().collect::<String>(), "ello world");
    let op = doc.delete_forwards(Pos { x: 5, y: 0 }, Noun::Line).unwrap();
    assert_eq!(op.rows[0].as_slice().iter().collect::<String>(), "hello");
    let last = doc.delete_forwards(Pos { x: 10, y: 0 }, Noun::Char);
    assert!(last.is_none());
}

#[test]
fn word_positions() {
    let doc = Doc::open("a.txt".to_string(), &lines(&["one two", "three"]));
    assert_eq!(doc.get_next_word_pos(Pos { x: 0, y: 0 }), Some(Pos { x: 4, y: 0 }));
    assert_eq!(doc.get_next_word_pos(Pos { x: 4, y: 0 }), Some(Pos { x: 0, y: 1 }));
    assert_eq!(doc.get_prior_word_pos(Pos { x: 0, y: 1 }), Some(Pos { x: 4, y: 0 }));
    let (s, e) = doc.find_range(Pos { x: 0, y: 0 }, Noun::Word, Rel::Next);
    assert_eq!(s, Pos { x: 0, y: 0 });
    assert_eq!(e, Pos { x: 3, y: 0 });
}

#[test]
fn split_and_newline_ops() {
    let doc = Doc::open("a.txt".to_string(), &lines(&["abcd"]));
    let (op, p) = doc.split_newline(Pos { x: 2, y: 0 });
    assert_eq!(p, Pos { x: 0, y: 1 });
    assert_eq!(op.range, 0..1);
    let parts: Vec<String> = op.rows.iter().map(|r| r.as_slice().iter().collect()).collect();
    assert_eq!(parts, vec!["ab", "cd"]);
    let op = doc.insert_newline(1);
    assert_eq!(op.range, 1..1);
    assert_eq!(op.rows.len(), 1);
    assert!(op.rows[0].is_empty());
}

#[test]
fn rows_render_tabs_as_spaces() {
    let row = Row::from_line("a\tb");
    assert_eq!(row.len(), 3);
    assert_eq!(row.cursor_to_render_col(2), 4);
    assert_eq!(row.render_chars_from(0).len(), 6);
    assert_eq!(row.char_at(1), Some('\t'));
    assert_eq!(row.char_at(3), Some('\n'));
}

#[test]
fn row_editing() {
    let row = Row::from_line("hello");
    assert_eq!(row.insert_char(5, '!').as_slice().iter().collect::<String>(), "hello!");
    assert_eq!(row.truncate(2).as_slice().iter().collect::<String>(), "he");
    let [a, b] = row.split_at(2);
    assert_eq!(a.as_slice().iter().collect::<String>(), "he");
    assert_eq!(b.as_slice().iter().collect::<String>(), "llo");
    assert_eq!(row.splice(1, 4, "ipp").as_slice().iter().collect::<String>(), "hippo");
    let joined = Row::joined_rows(&Row::from_line("abc"), &Row::from_line("xyz"), 2, 1);
    assert_eq!(joined.as_slice().iter().collect::<String>(), "abyz");
    assert_eq!(row.get_slice(1, 3), &['e', 'l']);
}

#[test]
fn row_word_breaks() {
    let row = Row::from_line("ab  cd.ef");
    assert_eq!(row.next_word_break(0), 2);
    assert_eq!(row.next_word_break(4), 6);
    assert_eq!(row.prev_word_break(6), 4);
}
