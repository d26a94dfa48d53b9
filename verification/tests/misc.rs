use wim::bindings::{str_keys, vec_keys_eq, Bindings, BindingsBuilder};
use wim::bitmap::{Bitmap, BitmapView};
use wim::buf::Buf;
use wim::classify::{classify, is_ascii_punct, is_whitespace, CharType};
use wim::color::Color;
use wim::command::command;
use wim::commandline::CommandLine;
use wim::dk::DK;
use wim::error::{error_msg, not_impl_msg, not_valid, Error};
use wim::format::Format;
use wim::glyph::Glyph;
use wim::key::Key;
use wim::message::Message;
use wim::mode::{Mode, Op, VisualMode};
use wim::noun::Noun;
use wim::plugin::Plugin;
use wim::rel::Rel;
use wim::status::Status;
use wim::target::Target;
use wim::trie::TrieNode;
use wim::types::{Pos, PosOrder, Rect, Size};
use wim::variant::Variant;
use wim::view::ViewKey;
use wim::vstack::VStack;

#[test]
fn color_escapes() {
    assert_eq!(Color::Red.fg_escape(), "\x1b[31m");
    assert_eq!(Color::Blue.bg_escape(), "\x1b[44m");
    assert_eq!(Color::NoColor.fg_escape(), "\x1b[39m");
    assert_eq!(Color::Rgb { r: 10, g: 15, b: 40 }.bg_escape(), "\x1b[48;2;10;15;40m");
}

#[test]
fn buf_appends_utf8() {
    let mut b = Buf::default();
    b.append("ab");
    b.push_char('é');
    b.extend(&[1, 2]);
    assert_eq!(b.as_bytes(), &[b'a', b'b', 0xc3, 0xa9, 1, 2]);
    assert_eq!(b.len(), 6);
    b.truncate(1);
    assert_eq!(b.as_bytes(), b"a");
}

#[test]
fn glyph_encoding_writes_changed_colors_only() {
    let mut b = Buf::default();
    let g = Glyph::new('x', Format::from_fg(Color::Red));
    let f = g.encode_utf8_to_buf(&mut b, Format::none()).unwrap();
    assert_eq!(b.as_bytes(), b"\x1b[31mx");
    let mut b2 = Buf::default();
    g.encode_utf8_to_buf(&mut b2, f).unwrap();
    assert_eq!(b2.as_bytes(), b"x");
}

#[test]
fn bitmap_diff_redraws_changed_rows() {
    let size = Size { width: 3, height: 2 };
    let mut last = Bitmap::new(size, Glyph::from_char(' '));
    last.dirty = false;
    let mut cur = Bitmap::new(size, Glyph::from_char(' '));
    {
        let mut v = BitmapView::new(&mut cur, Rect { x: 0, y: 0, width: 3, height: 2 });
        v.set_glyph(Pos { x: 1, y: 1 }, Glyph::from_char('z'));
    }
    let mut b = Buf::default();
    Bitmap::diff(&last, &cur, &mut b).unwrap();
    assert_eq!(b.as_bytes(), b"\x1b[0m\x1b[2;1H z ");
    let mut all = Buf::default();
    last.dirty = true;
    Bitmap::diff(&last, &cur, &mut all).unwrap();
    assert_eq!(all.as_bytes(), b"\x1b[0m\x1b[1;1H   \x1b[2;1H z ");
}

#[test]
fn bitmap_view_draws_inside_its_frame() {
    let mut bmp = Bitmap::new(Size { width: 6, height: 3 }, Glyph::from_char('.'));
    {
        let mut v = BitmapView::new(&mut bmp, Rect { x: 2, y: 1, width: 3, height: 2 });
        let n = v.append_chars_at(Pos { x: 1, y: 0 }, &['a', 'b', 'c', 'd'], Format::none());
        assert_eq!(n, 2);
        v.set_cursor(Pos { x: 0, y: 1 });
        v.set_cursor(Pos { x: 2, y: 1 });
        v.end_line_with_str(Pos { x: 0, y: 1 }, "qr");
    }
    let rows: Vec<String> = (0..3)
        .map(|y| (0..6).map(|x| bmp.get_glyph(Pos { x, y }).ch).collect())
        .collect();
    assert_eq!(rows, vec!["......", "...ab.", "...qr."]);
    assert_eq!(bmp.get_cursor(), Some(Pos { x: 4, y: 2 }));
    bmp.clear();
    assert_eq!(bmp.get_glyph(Pos { x: 3, y: 1 }).ch, '.');
    assert_eq!(bmp.get_cursor(), None);
}

#[test]
fn positions_order_by_row_then_column() {
    let a = Pos { x: 5, y: 0 };
    let b = Pos { x: 0, y: 1 };
    assert!(a.lt(&b));
    assert!(a.le(&a));
    assert_eq!(a.compare(&b), PosOrder::Less);
    assert_eq!(b.compare(&a), PosOrder::Greater);
    assert_eq!(a.compare(&a), PosOrder::Equal);
    let r = Rect { x: 1, y: 2, width: 4, height: 3 };
    assert_eq!(Pos { x: 9, y: 0 }.clamp(&r), Pos { x: 5, y: 2 });
    assert_eq!(r.max_x(), 5);
    assert_eq!(r.max_y(), 5);
    assert_eq!(r.area(), 12);
    assert_eq!(r.add(Pos { x: 1, y: 1 }), Rect { x: 2, y: 3, width: 4, height: 3 });
    assert!(r.contains(Pos { x: 4, y: 4 }));
    assert!(!r.contains(Pos { x: 5, y: 4 }));
}

#[test]
fn character_classes() {
    assert_eq!(classify('a'), CharType::Text);
    assert_eq!(classify('.'), CharType::Punct);
    assert_eq!(classify(' '), CharType::Space);
    assert_eq!(classify('\n'), CharType::Space);
    assert!(is_ascii_punct('~'));
    assert!(!is_ascii_punct('é'));
    assert!(is_whitespace('\t'));
}

#[test]
fn names_parse_and_fail() {
    assert!(matches!(Noun::from_str("word"), Ok(Noun::Word)));
    assert!(matches!(Rel::from_str("prior"), Ok(Rel::Prior)));
    assert!(matches!(Mode::from_str("insert"), Ok(Mode::Insert)));
    assert!(matches!(Mode::from_str("visual"), Ok(Mode::Visual(VisualMode::Char))));
    assert!(matches!(Op::from_str("delete"), Ok(Op::Delete)));
    assert!(matches!(Noun::from_str("paragraph"), Err(Error::General { .. })));
    assert!(matches!(Rel::from_str("sideways"), Err(_)));
    assert!(matches!(Target::from_str("anything"), Err(Error::General { ref message }) if message == "not impl yet"));
    assert_eq!(Op::Yank.as_str(), "y");
    assert_eq!(Noun::Line.name(), "Line");
}

#[test]
fn error_texts() {
    assert_eq!(Error::new_io_error("disk".to_string()).to_string(), "I/O Error: \"disk\"");
    assert_eq!(not_impl_msg("later").to_string(), "Not implemented: \"later\"");
    assert_eq!(error_msg("plain").to_string(), "\"plain\"");
    assert_eq!(not_valid("'x'", " is not valid").to_string(), "\"'x' is not valid\"");
    assert_eq!(error_msg("a\"b\nc").to_string(), "\"a\\\"b\\nc\"");
    assert!(matches!(Status::from_unit(), Status::Success));
}

fn layered() -> TrieNode {
    let mut near = Bindings::new();
    near.insert(str_keys("dd"), DK::Key(Key::Utf8('x')));
    let mut far = Bindings::new();
    far.insert(str_keys("dd"), DK::Key(Key::Utf8('y')));
    far.insert(str_keys("q"), DK::Key(Key::Utf8('z')));
    TrieNode::from_ancestor_path(vec![near, far])
}

#[test]
fn later_bindings_override_earlier_ones() {
    assert!(matches!(layered().into_match(&str_keys("dd")), Some(DK::Key(Key::Utf8('y')))));
    assert!(matches!(layered().into_match(&str_keys("q")), Some(DK::Key(Key::Utf8('z')))));
    assert!(layered().into_match(&str_keys("d")).is_none());
    assert!(layered().into_match(&str_keys("zz")).is_none());
}

#[test]
fn bindings_builder_and_keys() {
    let mut b = BindingsBuilder::new(ViewKey(3));
    b.insert("ab", command("go"));
    let bs = b.get_bindings();
    assert!(bs.contains_key(&vec![Key::Utf8('a'), Key::Utf8('b')]));
    assert!(!bs.contains_key(&vec![Key::Utf8('a')]));
    assert!(vec_keys_eq(&str_keys("ab"), &vec![Key::Utf8('a'), Key::Utf8('b')]));
    let m = bs.get_map();
    match &m[0].1 {
        DK::Dispatch(Target::View(vk), Message::Command { name, args }) => {
            assert_eq!(*vk, ViewKey(3));
            assert_eq!(name, "go");
            assert!(args.is_empty());
        },
        other => panic!("unexpected {:?}", other),
    }
}

#[test]
fn command_builder() {
    match command("move").arg(Variant::from_str("left")).at_focused() {
        DK::Dispatch(Target::Focused, Message::Command { name, args }) => {
            assert_eq!(name, "move");
            assert_eq!(args, vec![Variant::String("left".to_string())]);
        },
        other => panic!("unexpected {:?}", other),
    }
    assert!(matches!(command("x").at_root(), DK::Dispatch(Target::Root, _)));
    assert!(matches!(command("x").at_view_map(), DK::Dispatch(Target::ViewMap, _)));
}

#[test]
fn stacked_views_share_the_rows() {
    let mut s = VStack::new(Plugin::new(), ViewKey(5), vec![ViewKey(1), ViewKey(2), ViewKey(3)]);
    let rects = s.layout(Size { width: 8, height: 10 });
    assert_eq!(
        rects,
        vec![
            (ViewKey(1), Rect { x: 0, y: 0, width: 8, height: 3 }),
            (ViewKey(2), Rect { x: 0, y: 3, width: 8, height: 3 }),
            (ViewKey(3), Rect { x: 0, y: 6, width: 8, height: 4 }),
        ]
    );
    match s.execute_command("split".to_string(), vec![Variant::Int(-2)]) {
        Err(Error::General { message }) => assert_eq!(message, "Command \"split\" [Int(-2)] not implemented for VStack"),
        _ => panic!("expected an error"),
    }
}

#[test]
fn command_line_editing() {
    let mut c = CommandLine::new(Plugin::new(), ViewKey(0));
    assert!(matches!(c.send_key(Key::Utf8('w')), Ok(Status::Success)));
    assert!(matches!(c.send_key(Key::Utf8('q')), Ok(Status::Success)));
    assert_eq!(c.get_cursor_pos(), Some(Pos { x: 3, y: 1 }));
    assert!(matches!(c.send_key(Key::Backspace), Ok(Status::Success)));
    assert_eq!(c.get_cursor_pos(), Some(Pos { x: 2, y: 1 }));
    assert!(matches!(c.execute_command("clear-text".to_string(), vec![]), Ok(Status::Success)));
    match c.execute_command("other".to_string(), vec![Variant::from_str("x"), Variant::Bool(true)]) {
        Err(Error::NotImplemented { message }) => {
            assert_eq!(message, "CommandLine::execute_command does not impl \"other\" [String(\"x\"), Bool(true)]")
        },
        _ => panic!("expected an error"),
    }
    assert!(c.get_property("anything").is_none());
    assert!(c.key_is_safe(Key::Utf8('a')));
    assert!(!c.key_is_safe(Key::Up));
}

fn pos_of(t: (usize, usize)) -> Pos {
    Pos { x: t.0 % 10000, y: t.1 % 10000 }
}

#[test]
fn pos_compare() {
    fn prop(p: (usize, usize), q: (usize, usize)) -> bool {
        let (p, q) = (pos_of(p), pos_of(q));
        if q.lt(&p) {
            !p.le(&q) && p.compare(&q) == PosOrder::Greater
        } else {
            p.le(&q)
        }
    }
    quickcheck::QuickCheck::new().quickcheck(prop as fn((usize, usize), (usize, usize)) -> bool);
}

#[test]
fn rect_pos_addition() {
    fn prop(r: (usize, usize, usize, usize), p: (usize, usize)) -> bool {
        let r = Rect { x: r.0 % 10000, y: r.1 % 10000, width: r.2 % 10000, height: r.3 % 10000 };
        let p = pos_of(p);
        let q = r.top_left().add(p);
        r.add(p) == Rect { x: q.x, y: q.y, width: r.width, height: r.height }
    }
    quickcheck::QuickCheck::new().quickcheck(prop as fn((usize, usize, usize, usize), (usize, usize)) -> bool);
}

#[test]
fn default_settings() {
    let s = wim::settings::Settings::default();
    assert_eq!(s.display.fg, Color::White);
    assert_eq!(s.display.bg, Color::Black);
    assert!(!s.debug.write_writes);
}

#[test]
fn raster_breaks() {
    let mut r = wim::raster::Raster::new();
    r.append("ab");
    r.add_break();
    r.append("é");
    r.add_break();
    assert_eq!(r.buf.as_bytes(), &[b'a', b'b', 0xc3, 0xa9]);
    assert_eq!(r.breaks, vec![2, 4]);
    r.truncate();
    assert_eq!(r.buf.len(), 0);
    assert!(r.breaks.is_empty());
}

#[test]
fn line_writer() {
    let mut bmp = Bitmap::new(Size { width: 8, height: 2 }, Glyph::from_char('.'));
    {
        let view = BitmapView::new(&mut bmp, Rect { x: 1, y: 1, width: 6, height: 1 });
        let mut line = wim::line::Line::new(view, Pos { x: 1, y: 0 });
        line.append_str("abc");
        assert_eq!(line.pos, Pos { x: 4, y: 0 });
        assert_eq!(line.remaining_space(), 2);
        line.end_with_str("xyz");
        assert_eq!(line.pos, Pos { x: 4, y: 0 });
        line.end_with_str("yz");
        assert_eq!(line.pos, Pos { x: 6, y: 0 });
        line.append_str("more");
        assert_eq!(line.pos, Pos { x: 6, y: 0 });
    }
    let row: String = (0..8).map(|x| bmp.get_glyph(Pos { x, y: 1 }).ch).collect();
    assert_eq!(row, "..abcyz.");
}

#[test]
fn triggers_carry_what_they_set_off() {
    let t = wim::trigger::Trigger::Key(Key::Esc);
    assert!(matches!(t, wim::trigger::Trigger::Key(Key::Esc)));
    let c = wim::trigger::Trigger::Command(command("quit"));
    assert!(matches!(c, wim::trigger::Trigger::Command(ref b) if b.name == "quit"));
}

#[test]
fn long_command_line_runs_are_cut_to_the_format_buffer() {
    let mut c = CommandLine::new(Plugin::new(), ViewKey(0));
    let msg: String = std::iter::repeat('\u{e9}').take(3000).collect();
    c.set_status(Status::Message { message: msg, duration_ms: 1000 });
    let typed: String = std::iter::repeat('a').take(5000).collect();
    for ch in typed.chars() {
        assert!(matches!(c.send_key(Key::Utf8(ch)), Ok(Status::Success)));
    }
    let w = 6000;
    let mut bmp = Bitmap::new(Size { width: w, height: 2 }, Glyph::from_char(' '));
    {
        let mut view = BitmapView::new(&mut bmp, Rect { x: 0, y: 0, width: w, height: 2 });
        c.display(&mut view, true, false, None, None, true);
    }
    // " " and 2047 two-byte characters fill 4095 of the 4096 bytes.
    assert_eq!(bmp.get_glyph(Pos { x: 1, y: 0 }).ch, ' ');
    assert_eq!(bmp.get_glyph(Pos { x: 2, y: 0 }).ch, '\u{e9}');
    assert_eq!(bmp.get_glyph(Pos { x: 2048, y: 0 }).ch, '\u{e9}');
    assert_eq!(bmp.get_glyph(Pos { x: 2049, y: 0 }).ch, ' ');
    // ":" and 4095 one-byte characters fill the buffer.
    assert_eq!(bmp.get_glyph(Pos { x: 0, y: 1 }).ch, ':');
    assert_eq!(bmp.get_glyph(Pos { x: 4095, y: 1 }).ch, 'a');
    assert_eq!(bmp.get_glyph(Pos { x: 4096, y: 1 }).ch, ' ');
}
