use wim::key::{push_decimal, push_decimal_usize, Key};
use wim::read::{cursor_report_fault, cursor_report_pos, decode_ctrl_key, is_ctrl_key, key_bytes_fault, read_key};
use wim::types::Pos;

#[test]
fn ascii_letter_is_one_byte_key() {
    assert_eq!(read_key(b"a"), (Some(Key::Utf8('a')), 1));
    assert_eq!(read_key(b"xyz"), (Some(Key::Utf8('x')), 1));
}

#[test]
fn empty_input_reads_nothing() {
    assert_eq!(read_key(b""), (None, 0));
}

#[test]
fn control_bytes_decode_to_ctrl_keys() {
    assert_eq!(read_key(&[13]), (Some(Key::Enter), 1));
    assert_eq!(read_key(&[1]), (Some(Key::Ctrl('a')), 1));
    assert_eq!(read_key(&[26]), (Some(Key::Ctrl('z')), 1));
    assert_eq!(read_key(&[127]), (Some(Key::Backspace), 1));
}

#[test]
fn arrow_and_navigation_sequences() {
    assert_eq!(read_key(b"\x1b[A"), (Some(Key::Up), 3));
    assert_eq!(read_key(b"\x1b[B"), (Some(Key::Down), 3));
    assert_eq!(read_key(b"\x1b[C"), (Some(Key::Right), 3));
    assert_eq!(read_key(b"\x1b[D"), (Some(Key::Left), 3));
    assert_eq!(read_key(b"\x1b[H"), (Some(Key::Home), 3));
    assert_eq!(read_key(b"\x1bOF"), (Some(Key::End), 3));
    assert_eq!(read_key(b"\x1b[3~"), (Some(Key::Del), 4));
    assert_eq!(read_key(b"\x1b[5~"), (Some(Key::PageUp), 4));
    assert_eq!(read_key(b"\x1b[6~"), (Some(Key::PageDown), 4));
}

#[test]
fn function_keys() {
    assert_eq!(read_key(b"\x1bOP"), (Some(Key::Function(1)), 3));
    assert_eq!(read_key(b"\x1bOS"), (Some(Key::Function(4)), 3));
    assert_eq!(read_key(b"\x1b[15~"), (Some(Key::Function(5)), 5));
    assert_eq!(read_key(b"\x1b[24~"), (Some(Key::Function(12)), 5));
    assert_eq!(read_key(b"\x1b[1;2P"), (Some(Key::PrintScreen), 6));
}

#[test]
fn lone_escape_and_short_sequences() {
    assert_eq!(read_key(b"\x1b"), (Some(Key::Esc), 1));
    assert_eq!(read_key(b"\x1bx"), (Some(Key::EscSeq1(b'x')), 2));
    assert_eq!(read_key(b"\x1bxy"), (Some(Key::EscSeq2(b'x', b'y')), 3));
}

#[test]
fn multibyte_utf8_characters() {
    assert_eq!(read_key("é".as_bytes()), (Some(Key::Utf8('é')), 2));
    assert_eq!(read_key("€".as_bytes()), (Some(Key::Utf8('€')), 3));
    assert_eq!(read_key("😀".as_bytes()), (Some(Key::Utf8('😀')), 4));
}

#[test]
fn encoded_surrogate_is_no_character() {
    // 0xED 0xA0 0x80 would encode U+D800, which is not a scalar value.
    assert_eq!(read_key(&[0xed, 0xa0, 0x80]), (None, 3));
}

#[test]
fn truncated_utf8_reads_nothing() {
    assert_eq!(read_key(&[0xe2, 0x82]), (None, 2));
    assert_eq!(read_key(&[0xc3]), (None, 1));
}

#[test]
fn faults_in_key_bytes() {
    assert!(!key_bytes_fault(b"a"));
    assert!(!key_bytes_fault(b""));
    assert!(key_bytes_fault(&[3]));
    assert!(key_bytes_fault(&[0xc3, 0x41]));
    assert!(key_bytes_fault(&[0xff]));
}

#[test]
fn control_byte_classification() {
    assert!(is_ctrl_key(0));
    assert!(is_ctrl_key(31));
    assert!(!is_ctrl_key(32));
    assert!(!is_ctrl_key(b'a'));
    assert_eq!(decode_ctrl_key(1), 'a');
    assert_eq!(decode_ctrl_key(26), 'z');
}

#[test]
fn cursor_report_is_read() {
    assert_eq!(cursor_report_pos(b"\x1b[12;40"), Some(Pos { x: 40, y: 12 }));
    assert_eq!(cursor_report_pos(b"\x1b[+3;7"), Some(Pos { x: 7, y: 3 }));
    assert_eq!(cursor_report_pos(b"12;40"), None);
    assert!(!cursor_report_fault(b"\x1b[12;40"));
    assert_eq!(cursor_report_pos(b"\x1b[0007;0"), Some(Pos { x: 0, y: 7 }));
    assert_eq!(cursor_report_pos(b"\x1b[12"), None);
}

#[test]
fn unreadable_cursor_reports_are_faults() {
    assert!(cursor_report_fault(b"\x1b[12"));
    assert!(cursor_report_fault(b"\x1b[;4"));
    assert!(cursor_report_fault(b"\x1b[1;x"));
    assert!(cursor_report_fault(b"\x1b[99999999999999999999999;1"));
    assert!(!cursor_report_fault(b"no escape"));
}

#[test]
fn key_names() {
    assert_eq!(Key::Utf8('q').to_string(), "q");
    assert_eq!(Key::Ctrl('w').to_string(), "<C-w>");
    assert_eq!(Key::Function(12).to_string(), "<F12>");
    assert_eq!(Key::EscSeq2(b'a', b'b').to_string(), "<Esc-a-b>");
    assert_eq!(Key::NoKey.to_string(), "<>");
    assert_eq!(Key::from_char('x'), Key::Utf8('x'));
}

#[test]
fn decimal_digits() {
    let mut s = String::from("n=");
    push_decimal(&mut s, 205);
    assert_eq!(s, "n=205");
    let mut t = String::new();
    push_decimal_usize(&mut t, 0);
    push_decimal_usize(&mut t, 1234567);
    assert_eq!(t, "01234567");
}
