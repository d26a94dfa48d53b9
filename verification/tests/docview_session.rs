use wim::bitmap::{Bitmap, BitmapView};
use wim::consts::{PROP_DOCVIEW_CURSOR_POS, PROP_DOCVIEW_STATUS, PROP_DOC_FILENAME, PROP_DOC_IS_MODIFIED};
use wim::docview::DocView;
use wim::error::Error;
use wim::glyph::Glyph;
use wim::key::Key;
use wim::plugin::Plugin;
use wim::status::Status;
use wim::types::{Pos, Rect, Size};
use wim::variant::Variant;
use wim::view::ViewKey;

fn s(x: &str) -> Variant {
    Variant::String(x.to_string())
}

fn cursor(v: &DocView) -> Pos {
    match v.get_property(PROP_DOCVIEW_CURSOR_POS) {
        Some(Variant::Pos(p)) => p,
        other => panic!("no cursor: {:?}", other),
    }
}

fn screen(v: &DocView, w: usize, h: usize) -> Vec<String> {
    let mut bmp = Bitmap::new(Size { width: w, height: h }, Glyph::from_char(' '));
    {
        let mut view = BitmapView::new(&mut bmp, Rect { x: 0, y: 0, width: w, height: h });
        v.display(&mut view);
    }
    (0..h)
        .map(|y| (0..w).map(|x| bmp.get_glyph(Pos { x, y }).ch).collect::<String>().trim_end().to_string())
        .collect()
}

fn opened(lines: &[&str]) -> DocView {
    let mut v = DocView::new(ViewKey(1), Plugin::new());
    let ls: Vec<String> = lines.iter().map(|l| l.to_string()).collect();
    let r = v.open("t.txt".to_string(), &ls);
    assert!(matches!(r, Ok(Status::Message { ref message, duration_ms: 2000 }) if message == "Opened 't.txt'."));
    v
}

#[test]
fn typing_in_insert_mode_then_undo_and_redo() {
    let mut v = DocView::new(ViewKey(7), Plugin::new());
    assert!(matches!(v.execute_command("switch-mode".to_string(), vec![s("insert")]), Ok(Status::Success)));
    assert!(matches!(v.send_key(Key::Utf8('h')), Ok(Status::Success)));
    assert!(matches!(v.send_key(Key::Utf8('i')), Ok(Status::Success)));
    assert_eq!(cursor(&v), Pos { x: 2, y: 0 });
    assert_eq!(screen(&v, 10, 3), vec!["hi", "~", "~"]);
    assert_eq!(v.get_property(PROP_DOC_IS_MODIFIED), Some(Variant::Bool(true)));

    assert!(matches!(v.execute_command("switch-mode".to_string(), vec![s("normal")]), Ok(Status::Success)));
    assert_eq!(cursor(&v), Pos { x: 1, y: 0 });

    assert!(matches!(v.execute_command("undo".to_string(), vec![]), Ok(Status::Success)));
    assert_eq!(screen(&v, 10, 1), vec!["h"]);
    assert!(matches!(v.execute_command("undo".to_string(), vec![]), Ok(Status::Success)));
    assert_eq!(screen(&v, 10, 1), vec![""]);
    match v.execute_command("undo".to_string(), vec![]) {
        Ok(Status::Message { message, .. }) => assert_eq!(message, "Nothing left to undo."),
        other => panic!("unexpected {:?}", other),
    }
    assert!(matches!(v.execute_command("redo".to_string(), vec![]), Ok(Status::Success)));
    assert_eq!(screen(&v, 10, 1), vec!["h"]);
}

#[test]
fn status_text_names_mode_and_position() {
    let v = opened(&["abc"]);
    match v.get_property(PROP_DOCVIEW_STATUS) {
        Some(Variant::String(t)) => assert_eq!(t, "\u{2590} Normal \u{2590} 1:1 "),
        other => panic!("unexpected {:?}", other),
    }
    assert_eq!(v.get_property("no-such-property"), None);
}

#[test]
fn moving_the_cursor_is_clamped_to_the_text() {
    let mut v = opened(&["abc", "x"]);
    assert!(matches!(v.execute_command("move".to_string(), vec![s("right")]), Ok(Status::Success)));
    assert!(matches!(v.execute_command("move".to_string(), vec![s("right")]), Ok(Status::Success)));
    assert!(matches!(v.execute_command("move".to_string(), vec![s("right")]), Ok(Status::Success)));
    assert_eq!(cursor(&v), Pos { x: 2, y: 0 });
    assert!(matches!(v.execute_command("move".to_string(), vec![s("down")]), Ok(Status::Success)));
    assert_eq!(cursor(&v), Pos { x: 0, y: 1 });
    assert!(matches!(v.execute_command("move".to_string(), vec![s("left")]), Ok(Status::Success)));
    assert_eq!(cursor(&v), Pos { x: 0, y: 1 });
    match v.execute_command("move".to_string(), vec![s("sideways")]) {
        Err(e) => assert_eq!(e.to_string(), "\"'move' expects one of {up,down,left,right}\""),
        other => panic!("unexpected {:?}", other),
    }
}

#[test]
fn word_motions() {
    let mut v = opened(&["one two", "three"]);
    assert!(matches!(v.execute_command("move-rel".to_string(), vec![s("word"), s("next")]), Ok(Status::Success)));
    assert_eq!(cursor(&v), Pos { x: 4, y: 0 });
    assert!(matches!(v.execute_command("move-rel".to_string(), vec![s("word"), s("next")]), Ok(Status::Success)));
    assert_eq!(cursor(&v), Pos { x: 0, y: 1 });
    assert!(matches!(v.execute_command("move-rel".to_string(), vec![s("word"), s("prior")]), Ok(Status::Success)));
    assert_eq!(cursor(&v), Pos { x: 4, y: 0 });
}

#[test]
fn delete_under_cursor_and_join_lines() {
    let mut v = opened(&["abc", "def"]);
    assert!(matches!(v.execute_command("delete-rel".to_string(), vec![s("char"), s("next")]), Ok(Status::Success)));
    assert_eq!(screen(&v, 10, 2), vec!["bc", "def"]);
    assert!(matches!(v.execute_command("join-lines".to_string(), vec![]), Ok(Status::Success)));
    assert_eq!(screen(&v, 10, 2), vec!["bcdef", "~"]);
    assert!(matches!(v.execute_command("undo".to_string(), vec![]), Ok(Status::Success)));
    assert_eq!(screen(&v, 10, 2), vec!["bc", "def"]);
}

#[test]
fn newline_commands() {
    let mut v = opened(&["abc"]);
    assert!(matches!(v.execute_command("newline".to_string(), vec![s("below")]), Ok(Status::Success)));
    assert_eq!(cursor(&v), Pos { x: 0, y: 1 });
    assert_eq!(screen(&v, 10, 3), vec!["abc", "", "~"]);
    match v.execute_command("newline".to_string(), vec![s("sideways")]) {
        Err(e) => assert_eq!(e.to_string(), "\"'newline' expects one of {above,below}\""),
        other => panic!("unexpected {:?}", other),
    }
}

#[test]
fn operator_then_motion_deletes() {
    let mut v = opened(&["abc def"]);
    assert!(matches!(v.execute_command("motion".to_string(), vec![s("delete")]), Ok(Status::Success)));
    assert!(matches!(v.execute_command("move-rel".to_string(), vec![s("char"), s("next")]), Ok(Status::Success)));
    assert_eq!(screen(&v, 10, 1), vec!["c def"]);
}

#[test]
fn visual_selection_delete() {
    let mut v = opened(&["abcdef"]);
    assert!(matches!(v.execute_command("switch-mode".to_string(), vec![s("visual")]), Ok(Status::Success)));
    assert!(matches!(v.execute_command("move".to_string(), vec![s("right")]), Ok(Status::Success)));
    assert!(matches!(v.execute_command("delete".to_string(), vec![]), Ok(Status::Success)));
    assert_eq!(screen(&v, 10, 1), vec!["cdef"]);
}

#[test]
fn keys_without_a_binding_are_reported() {
    let mut v = opened(&["abc"]);
    match v.send_key(Key::Utf8('Z')) {
        Ok(Status::Message { message, duration_ms }) => {
            assert_eq!(message, "No mapping found for Z in Normal mode.");
            assert_eq!(duration_ms, 5000);
        },
        other => panic!("unexpected {:?}", other),
    }
}

#[test]
fn command_errors() {
    let mut v = opened(&["abc"]);
    let r = v.execute_command("switch-mode".to_string(), vec![]);
    assert!(matches!(r, Err(Error::General { .. })));
    let r = v.execute_command("switch-mode".to_string(), vec![s("bogus")]);
    assert!(matches!(r, Err(_)));
    match v.execute_command("frobnicate".to_string(), vec![Variant::Pos(Pos { x: 1, y: 2 })]) {
        Err(Error::NotImplemented { message }) => assert_eq!(
            message,
            "DocView::execute_command needs to handle \"frobnicate\" [Pos(Pos { x: 1, y: 2 })] in mode Normal."
        ),
        other => panic!("unexpected {:?}", other),
    }
    match v.execute_command("newline".to_string(), vec![Variant::Int(3)]) {
        Err(Error::General { message }) => assert_eq!(message, "'newline' encountered unexpected options. [args=[Int(3)]]"),
        other => panic!("unexpected {:?}", other),
    }
    assert!(matches!(v.execute_command("quit".to_string(), vec![]), Ok(Status::Quit)));
    assert!(matches!(v.save_file(), Err(Error::NotImplemented { .. })));
}

#[test]
fn key_bindings_of_normal_mode() {
    let v = opened(&["abc"]);
    let b = v.get_key_bindings();
    assert!(b.contains_key(&vec![Key::Utf8('u')]));
    assert!(b.contains_key(&vec![Key::Ctrl('r')]));
    assert!(b.contains_key(&vec![Key::Utf8('o')]));
    assert!(!b.contains_key(&vec![Key::Esc]));
}

#[test]
fn a_new_view_is_unmodified_and_unnamed() {
    let mut v = DocView::new(ViewKey(0), Plugin::new());
    assert!(matches!(v.execute_command("move".to_string(), vec![s("left")]), Ok(Status::Success)));
    assert_eq!(cursor(&v), Pos { x: 0, y: 0 });
    assert_eq!(v.get_property(PROP_DOC_IS_MODIFIED), Some(Variant::Bool(false)));
    assert_eq!(v.get_property(PROP_DOC_FILENAME), None);
    match v.get_property(PROP_DOCVIEW_STATUS) {
        Some(Variant::String(t)) => assert_eq!(t, "\u{2590} Normal \u{2590} 1:1 "),
        other => panic!("unexpected {:?}", other),
    }
}

#[test]
fn unknown_relative_motions_are_not_implemented() {
    let mut v = opened(&["abc"]);
    let r = v.execute_command("move-rel".to_string(), vec![s("char"), s("begin")]);
    assert!(matches!(r, Err(Error::NotImplemented { .. })));
    assert_eq!(cursor(&v), Pos { x: 0, y: 0 });
    assert_eq!(v.get_property(PROP_DOC_IS_MODIFIED), Some(Variant::Bool(false)));
}
