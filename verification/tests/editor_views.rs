use std::collections::VecDeque;
use wim::bitmap::{Bitmap, BitmapView};
use wim::dk::DK;
use wim::editor::Editor;
use wim::error::Error;
use wim::glyph::Glyph;
use wim::key::Key;
use wim::layout::recursive_layout;
use wim::message::Message;
use wim::plugin::Plugin;
use wim::pump::{after_input, pump_step, wants_input, KeyTimer, PumpStep, TimerChange};
use wim::status::Status;
use wim::target::Target;
use wim::types::{Pos, Rect, Size};
use wim::view::ViewKey;
use wim::view_map::{choices_status, drop_no_keys, push_sequence, HandleKey, ViewMap, ViewRef};

fn installed() -> (ViewMap, ViewKey) {
    let mut vm = ViewMap::new();
    let ek = Editor::install(Plugin::new(), &mut vm);
    (vm, ek)
}

fn deliver(vm: &mut ViewMap, dks: &mut VecDeque<DK>) -> Result<Status, Error> {
    match vm.handle_keys(dks) {
        HandleKey::DK(DK::Dispatch(t, m)) => {
            assert!(vm.open_request(&t, &m).is_none());
            assert!(vm.dispatch_is_safe(&t, &m));
            vm.dispatch(t, m)
        },
        HandleKey::DK(other) => panic!("unexpected {:?}", other),
        HandleKey::Choices(c) => panic!("unexpected choices {:?}", c),
    }
}

fn render(vm: &mut ViewMap, root: ViewKey, w: usize, h: usize, live: bool) -> Vec<String> {
    let frame = Rect { x: 0, y: 0, width: w, height: h };
    let mut rects = Vec::new();
    assert!(vm.layout_fits(root, frame, &rects));
    recursive_layout(vm, root, frame, &mut rects);
    let mut bmp = Bitmap::new(Size { width: w, height: h }, Glyph::from_char(' '));
    for (vk, r) in rects {
        if vm.display_view_is_ok(vk, r) {
            let mut view = BitmapView::new(&mut bmp, r);
            vm.display_view(vk, &mut view, live);
        }
    }
    (0..h)
        .map(|y| (0..w).map(|x| bmp.get_glyph(Pos { x, y }).ch).collect::<String>().trim_end().to_string())
        .collect()
}

#[test]
fn install_registers_editor_document_and_command_line() {
    let (vm, ek) = installed();
    assert_eq!(ek, ViewKey(1));
    assert_eq!(vm.get_root_view_key(), ek);
    assert_eq!(vm.focused_view_key(), ViewKey(2));
    assert_eq!(vm.named_key("command-line"), Some(ViewKey(0)));
    assert_eq!(vm.named_key("editor"), Some(ek));
    assert_eq!(vm.named_key("nothing"), None);
    assert_eq!(vm.parent_of(ViewKey(2)), Some(ek));
    assert_eq!(vm.parent_of(ViewKey(0)), Some(ek));
    assert_eq!(vm.parent_of(ek), None);
    assert!(matches!(vm.get_view(ek), ViewRef::Editor(_)));
    assert!(matches!(vm.get_view(ViewKey(2)), ViewRef::Doc(_)));
    assert!(matches!(vm.get_view(ViewKey(0)), ViewRef::CommandLine(_)));
    assert!(vm.focus_chain_is_ok());
    assert!(!vm.contains(ViewKey(3)));
}

#[test]
fn layout_gives_the_command_line_the_last_two_rows() {
    let (mut vm, ek) = installed();
    let frame = Rect { x: 0, y: 0, width: 20, height: 6 };
    let mut rects = Vec::new();
    assert!(vm.layout_fits(ek, frame, &rects));
    recursive_layout(&mut vm, ek, frame, &mut rects);
    assert_eq!(
        rects,
        vec![
            (ek, frame),
            (ViewKey(2), Rect { x: 0, y: 0, width: 20, height: 4 }),
            (ViewKey(0), Rect { x: 0, y: 4, width: 20, height: 2 }),
        ]
    );
}

#[test]
fn layout_that_cannot_go_through_is_detected() {
    let (vm, ek) = installed();
    assert!(!vm.layout_fits(ek, Rect { x: 0, y: 0, width: 20, height: 1 }, &Vec::new()));
    assert!(!vm.layout_fits(ViewKey(9), Rect { x: 0, y: 0, width: 20, height: 6 }, &Vec::new()));
    let done = vec![(ViewKey(2), Rect { x: 0, y: 0, width: 1, height: 1 })];
    assert!(!vm.layout_fits(ek, Rect { x: 0, y: 0, width: 20, height: 6 }, &done));
}

#[test]
fn typing_goes_to_the_focused_document() {
    let (mut vm, ek) = installed();
    let mut dks: VecDeque<DK> = VecDeque::new();
    dks.push_back(DK::Key(Key::Utf8('i')));
    assert!(matches!(deliver(&mut vm, &mut dks), Ok(Status::Success)));
    assert!(dks.is_empty());

    dks.push_back(DK::Key(Key::Utf8('h')));
    assert!(matches!(deliver(&mut vm, &mut dks), Ok(Status::Success)));

    dks.push_back(DK::Key(Key::Utf8('j')));
    match vm.handle_keys(&mut dks) {
        HandleKey::Choices(c) => assert_eq!(c, vec![Key::Utf8('k')]),
        _ => panic!("expected choices"),
    }
    assert_eq!(dks.len(), 1);
    dks.push_back(DK::Key(Key::Utf8('k')));
    match vm.handle_keys(&mut dks) {
        HandleKey::DK(DK::Key(k)) => {
            assert_eq!(k, Key::Esc);
            dks.push_front(DK::Key(k));
        },
        _ => panic!("expected a key"),
    }
    assert!(matches!(deliver(&mut vm, &mut dks), Ok(Status::Success)));
    assert!(dks.is_empty());

    let screen = render(&mut vm, ek, 24, 6, false);
    assert_eq!(screen[0], "h");
    assert_eq!(screen[1], "~");
    assert!(screen[4].ends_with("\u{2590} Normal \u{2590} 1:1"));
    assert_eq!(vm.focused_cursor(), Some(Pos { x: 0, y: 0 }));
}

#[test]
fn unbound_key_in_normal_mode_is_sent_to_the_view() {
    let (mut vm, _) = installed();
    let mut dks: VecDeque<DK> = VecDeque::new();
    dks.push_back(DK::Key(Key::Utf8('Q')));
    match vm.handle_keys(&mut dks) {
        HandleKey::DK(DK::Dispatch(Target::View(vk), Message::SendKey(k))) => {
            assert_eq!(vk, ViewKey(2));
            assert_eq!(k, Key::Utf8('Q'));
        },
        _ => panic!("expected a key for the focused view"),
    }
    assert!(dks.is_empty());
}

#[test]
fn a_pending_non_key_goes_first() {
    let (vm, _) = installed();
    let mut dks: VecDeque<DK> = VecDeque::new();
    dks.push_back(DK::Dispatch(Target::Focused, Message::SendKey(Key::Utf8('x'))));
    dks.push_back(DK::Key(Key::Utf8('i')));
    match vm.handle_keys(&mut dks) {
        HandleKey::DK(DK::Dispatch(Target::Focused, Message::SendKey(k))) => assert_eq!(k, Key::Utf8('x')),
        _ => panic!("expected the pending dispatch"),
    }
    assert_eq!(dks.len(), 1);
}

#[test]
fn focusing_and_going_back() {
    let (mut vm, _) = installed();
    vm.set_focused_view(ViewKey(0));
    assert_eq!(vm.focused_view_key(), ViewKey(0));
    vm.goto_previous_view();
    assert_eq!(vm.focused_view_key(), ViewKey(2));
    vm.set_focused_view(ViewKey(2));
    assert_eq!(vm.focused_view_key(), ViewKey(2));
    vm.goto_previous_view();
    assert!(!vm.focus_chain_is_ok());
}

#[test]
fn focus_previous_through_the_map() {
    let (mut vm, _) = installed();
    vm.set_focused_view(ViewKey(0));
    let m = Message::Command { name: "focus-previous".to_string(), args: vec![] };
    assert!(vm.dispatch_is_safe(&Target::ViewMap, &m));
    assert!(matches!(vm.dispatch(Target::ViewMap, m), Ok(Status::Cleared)));
    assert_eq!(vm.focused_view_key(), ViewKey(2));
    let other = Message::Command { name: "focus".to_string(), args: vec![] };
    assert!(!vm.dispatch_is_safe(&Target::ViewMap, &other));
}

#[test]
fn status_reaches_the_command_line() {
    let (mut vm, ek) = installed();
    let ed = Editor::new(Plugin::new(), ek, Some(ViewKey(2)), ViewKey(0));
    ed.set_status(&mut vm, Status::message("hello there".to_string()));
    let screen = render(&mut vm, ek, 40, 6, true);
    assert!(screen[4].contains(" hello there"));
    let hidden = render(&mut vm, ek, 40, 6, false);
    assert!(!hidden[4].contains("hello there"));

    let r = ed.eat_status_result(&mut vm, Err(Error::new("bad".to_string())));
    assert!(matches!(r, Err(Error::General { ref message }) if message == "bad"));
    let r = ed.eat_status_result(&mut vm, Ok(Status::Success));
    assert!(r.is_ok());
}

#[test]
fn opening_a_file_in_the_focused_view() {
    let (mut vm, ek) = installed();
    let m = Message::Command { name: "open".to_string(), args: vec![wim::variant::Variant::String("notes.txt".to_string())] };
    let (vk, name) = vm.open_request(&Target::Focused, &m).unwrap();
    assert_eq!(vk, ViewKey(2));
    assert_eq!(name, "notes.txt");
    assert!(!vm.dispatch_is_safe(&Target::Focused, &m));
    let lines = vec!["first".to_string(), "second".to_string()];
    let r = vm.open_doc(vk, name, &lines);
    assert!(matches!(r, Ok(Status::Message { ref message, .. }) if message == "Opened 'notes.txt'."));
    let screen = render(&mut vm, ek, 30, 6, false);
    assert_eq!(screen[0], "first");
    assert_eq!(screen[1], "second");
    assert!(screen[4].starts_with(" notes.txt | "));
}

#[test]
fn choices_and_queue_helpers() {
    match choices_status(&vec![Key::Utf8('k'), Key::Ctrl('x')]) {
        Status::Message { message, duration_ms } => {
            assert_eq!(message, "Valid next bindings: [k, <C-x>]");
            assert_eq!(duration_ms, 2000);
        },
        _ => panic!("expected a message"),
    }
    let mut dks: VecDeque<DK> = VecDeque::new();
    dks.push_back(DK::Key(Key::NoKey));
    dks.push_back(DK::Key(Key::NoKey));
    dks.push_back(DK::Key(Key::Utf8('a')));
    drop_no_keys(&mut dks);
    assert_eq!(dks.len(), 1);
    push_sequence(&mut dks, vec![DK::Key(Key::Utf8('x')), DK::Key(Key::Utf8('y'))]);
    let keys: Vec<Key> = dks.iter().map(|d| match d { DK::Key(k) => *k, _ => Key::NoKey }).collect();
    assert_eq!(keys, vec![Key::Utf8('x'), Key::Utf8('y'), Key::Utf8('a')]);
}

#[test]
fn editor_layout_and_cursor_corner() {
    let mut ed = Editor::new(Plugin::new(), ViewKey(1), None, ViewKey(0));
    let children = ed.layout(Size { width: 10, height: 5 });
    assert_eq!(children, vec![(ViewKey(0), Rect { x: 0, y: 3, width: 10, height: 2 })]);
    assert_eq!(ed.cursor_position(None), Pos { x: 9, y: 4 });
    assert_eq!(ed.cursor_position(Some(Pos { x: 2, y: 1 })), Pos { x: 2, y: 1 });
    assert!(!ed.get_should_quit());
}

#[test]
fn layout_scrolls_the_document_to_the_cursor() {
    let (mut vm, ek) = installed();
    let lines: Vec<String> = (0..10).map(|i| format!("line {}", i)).collect();
    vm.open_doc(ViewKey(2), "ten.txt".to_string(), &lines).unwrap();
    let mut dks: VecDeque<DK> = VecDeque::new();
    for _ in 0..8 {
        dks.push_back(DK::Key(Key::Utf8('j')));
        assert!(matches!(deliver(&mut vm, &mut dks), Ok(Status::Success)));
    }
    let screen = render(&mut vm, ek, 20, 6, false);
    assert_eq!(&screen[0..4], &["line 5", "line 6", "line 7", "line 8"]);
    assert_eq!(vm.focused_cursor(), Some(Pos { x: 0, y: 3 }));
}

#[test]
fn properties_through_any_view() {
    let (vm, ek) = installed();
    assert!(!vm.get_view(ek).get_property_bool("editor-should-quit", true));
    let doc = vm.get_view(ViewKey(2));
    assert!(!doc.get_property_bool("doc-is-modified", true));
    assert!(doc.get_property_bool("no-such-flag", true));
    assert_eq!(doc.get_property_pos("docview-cursor-pos"), Some(Pos { x: 0, y: 0 }));
    assert_eq!(doc.get_property_string("doc-filename"), None);
    assert_eq!(
        doc.get_property_string("docview-status"),
        Some("\u{2590} Normal \u{2590} 1:1 ".to_string())
    );
    assert_eq!(vm.get_view(ViewKey(0)).get_property_string("docview-status"), None);
}

#[test]
fn keys_sent_to_the_map_itself_are_refused() {
    let (mut vm, _) = installed();
    let m = Message::SendKey(Key::Utf8('q'));
    assert!(vm.dispatch_is_safe(&Target::ViewMap, &m));
    match vm.dispatch(Target::ViewMap, m) {
        Err(Error::NotImplemented { message }) => {
            assert_eq!(message, "wim::view_map::ViewMap::send_key does not yet exist. Needs to handle 'q'")
        },
        _ => panic!("expected an error"),
    }
    assert_eq!(vm.focused_view_key(), ViewKey(2));
}

#[test]
fn pump_steps_through_pending_inputs() {
    let (mut vm, _) = installed();
    let mut dks: VecDeque<DK> = VecDeque::new();
    assert!(matches!(pump_step(&mut vm, &mut dks), PumpStep::Idle));
    dks.push_back(DK::Key(Key::Utf8('o')));
    // `o` spreads out a newline below and a switch to insert mode.
    assert!(matches!(pump_step(&mut vm, &mut dks), PumpStep::Continue));
    assert_eq!(dks.len(), 2);
    assert!(matches!(pump_step(&mut vm, &mut dks), PumpStep::Delivered(Status::Success)));
    assert!(matches!(pump_step(&mut vm, &mut dks), PumpStep::Delivered(Status::Success)));
    assert!(matches!(pump_step(&mut vm, &mut dks), PumpStep::Idle));
    assert_eq!(vm.focused_cursor(), Some(Pos { x: 0, y: 1 }));
    dks.push_back(DK::Key(Key::Utf8('j')));
    match pump_step(&mut vm, &mut dks) {
        PumpStep::Choices(Status::Message { message, .. }) => assert_eq!(message, "Valid next bindings: [k]"),
        _ => panic!("expected choices"),
    }
    dks.clear();
    dks.push_back(DK::Dispatch(
        Target::Focused,
        Message::Command { name: "open".to_string(), args: vec![wim::variant::Variant::String("f.txt".to_string())] },
    ));
    // In insert mode the view cannot open files: the command is delivered
    // and refused with an error.
    assert!(matches!(pump_step(&mut vm, &mut dks), PumpStep::Failed(Error::NotImplemented { .. })));
}

#[test]
fn pump_hands_file_opening_to_the_caller() {
    let (mut vm, _) = installed();
    let mut dks: VecDeque<DK> = VecDeque::new();
    dks.push_back(DK::Dispatch(
        Target::Focused,
        Message::Command { name: "open".to_string(), args: vec![wim::variant::Variant::String("f.txt".to_string())] },
    ));
    match pump_step(&mut vm, &mut dks) {
        PumpStep::Open(vk, name) => {
            assert_eq!(vk, ViewKey(2));
            assert_eq!(name, "f.txt");
        },
        _ => panic!("expected a file to open"),
    }
    assert!(dks.is_empty());
    vm.goto_previous_view();
    dks.push_back(DK::Key(Key::Utf8('x')));
    assert!(matches!(pump_step(&mut vm, &mut dks), PumpStep::Refused));
    assert_eq!(dks.len(), 1);
}

#[test]
fn input_and_key_timer() {
    let mut dks: VecDeque<DK> = VecDeque::new();
    assert!(wants_input(&dks));
    assert_eq!(after_input(&mut dks, None, KeyTimer::Off), (false, TimerChange::Keep));
    assert_eq!(after_input(&mut dks, Some(Key::Utf8('j')), KeyTimer::Off), (true, TimerChange::Start));
    assert_eq!(dks.len(), 1);
    assert!(wants_input(&dks));
    assert_eq!(after_input(&mut dks, None, KeyTimer::Running), (false, TimerChange::Keep));
    assert_eq!(after_input(&mut dks, None, KeyTimer::Expired), (true, TimerChange::Stop));
    assert_eq!(dks.len(), 2);
    assert!(matches!(dks.back(), Some(DK::Key(Key::NoKey))));
    dks.clear();
    assert_eq!(after_input(&mut dks, None, KeyTimer::Running), (false, TimerChange::Stop));
    dks.push_back(DK::Dispatch(Target::Root, Message::SendKey(Key::Esc)));
    assert!(!wants_input(&dks));
}

#[test]
fn rendering_a_frame() {
    let (mut vm, ek) = installed();
    let size = Size { width: 12, height: 4 };
    let frame = Rect { x: 0, y: 0, width: 12, height: 4 };
    let mut bmp = Bitmap::new(size, Glyph::from_char(' '));
    let mut last = Bitmap::new(size, Glyph::from_char(' '));
    let buf = wim::screen::render_frame(&mut vm, ek, frame, &mut bmp, &last, false).unwrap();
    let text = String::from_utf8(buf.as_bytes().to_vec()).unwrap();
    assert!(text.starts_with("\x1b[?25l\x1b[0m\x1b[1;1H"));
    assert!(text.ends_with("\x1b[1;1H\x1b[?25h"));
    assert!(text.contains("\x1b[2;1H~"));
    assert_eq!(bmp.get_glyph(Pos { x: 0, y: 1 }).ch, '~');

    last = bmp.clone();
    last.dirty = false;
    let again = wim::screen::render_frame(&mut vm, ek, frame, &mut bmp, &last, false).unwrap();
    assert_eq!(again.as_bytes(), b"\x1b[?25l\x1b[0m\x1b[1;1H\x1b[?25h");

    let tiny = Rect { x: 0, y: 0, width: 12, height: 1 };
    assert!(wim::screen::render_frame(&mut vm, ek, tiny, &mut bmp, &last, false).is_none());
}
