use vstd::prelude::*;
use crate::key::Key;
use crate::types::Pos;

verus! {

/// A control byte: one whose value fits in the low five bits.
pub open spec fn is_ctrl_spec(k: u8) -> bool {
    k & 0x1f == k
}

pub fn is_ctrl_key(k: u8) -> (b: bool)
    ensures
        b == is_ctrl_spec(k),
        b == (k < 32),
{
    assert(k & 0x1f == k <==> k < 32) by (bit_vector);
    k & 0x1f == k
}

/// The letter that a control byte stands for: 1 is `a`, 26 is `z`.
pub fn decode_ctrl_key(k: u8) -> (c: char)
    requires
        is_ctrl_spec(k),
    ensures
        c as u32 == k + 96,
{
    assert(k & 0x1f == k ==> k < 32) by (bit_vector);
    (k + 0x61u8 - 1) as char
}

/// The character whose code point is `u`, when `u` is a Unicode scalar value.
///
/// Trusted: calls `char::from_u32`, which std documents as returning
/// `Some` exactly for the scalar values (at most 0x10FFFF, and not a
/// surrogate from 0xD800 to 0xDFFF), and the character with that code.
#[verifier::external_body]
pub(crate) fn char_from_u32(u: u32) -> (c: Option<char>)
    ensures
        c == scalar(u),
{
    char::from_u32(u)
}

/// The character with code `u`, when `u` is a scalar value.
pub open spec fn scalar(u: u32) -> Option<char> {
    if u <= 0x10ffff && !(0xd800 <= u <= 0xdfff) {
        Some(u as char)
    } else {
        None
    }
}

/// A UTF-8 continuation byte.
pub open spec fn is_cont(b: u8) -> bool {
    b & 0xc0 == 0x80
}

/// The byte at `i`, if there is one.
pub open spec fn byte_at(s: Seq<u8>, i: int) -> Option<u8> {
    if 0 <= i < s.len() {
        Some(s[i])
    } else {
        None
    }
}

/// The key that an escape sequence `ESC a b ...` decodes to, and how many
/// bytes it takes.
pub open spec fn esc_key(s: Seq<u8>) -> (Option<Key>, int) {
    let n2 = if s.len() >= 3 { 3int } else { s.len() as int };
    match (byte_at(s, 1), byte_at(s, 2)) {
        (Some(0x5bu8), Some(0x41u8)) => (Some(Key::Up), 3),
        (Some(0x5bu8), Some(0x42u8)) => (Some(Key::Down), 3),
        (Some(0x5bu8), Some(0x43u8)) => (Some(Key::Right), 3),
        (Some(0x5bu8), Some(0x44u8)) => (Some(Key::Left), 3),
        (Some(0x5bu8), Some(0x48u8)) => (Some(Key::Home), 3),
        (Some(0x5bu8), Some(0x46u8)) => (Some(Key::End), 3),
        (Some(0x5bu8), Some(a)) if 0x30 <= a <= 0x39 => esc_digit_key(s, a),
        (Some(0x4fu8), Some(0x48u8)) => (Some(Key::Home), 3),
        (Some(0x4fu8), Some(0x46u8)) => (Some(Key::End), 3),
        (Some(0x4fu8), Some(0x50u8)) => (Some(Key::Function(1)), 3),
        (Some(0x4fu8), Some(0x51u8)) => (Some(Key::Function(2)), 3),
        (Some(0x4fu8), Some(0x52u8)) => (Some(Key::Function(3)), 3),
        (Some(0x4fu8), Some(0x53u8)) => (Some(Key::Function(4)), 3),
        (Some(a), Some(b)) => (Some(Key::EscSeq2(a, b)), 3),
        (Some(a), None) => (Some(Key::EscSeq1(a)), 2),
        (None, _) => (Some(Key::Esc), n2),
    }
}

/// The key of `ESC [ a ...` for a digit `a`, and how many bytes it takes.
pub open spec fn esc_digit_key(s: Seq<u8>, a: u8) -> (Option<Key>, int) {
    match byte_at(s, 3) {
        Some(b) if 0x30 <= b <= 0x39 => {
            let n = if s.len() >= 5 { 5int } else { 4int };
            let k = match (a, b, byte_at(s, 4)) {
                (0x31u8, 0x35u8, Some(0x7eu8)) => Key::Function(5),
                (0x31u8, 0x37u8, Some(0x7eu8)) => Key::Function(6),
                (0x31u8, 0x38u8, Some(0x7eu8)) => Key::Function(7),
                (0x31u8, 0x39u8, Some(0x7eu8)) => Key::Function(8),
                (0x32u8, 0x30u8, Some(0x7eu8)) => Key::Function(9),
                (0x32u8, 0x31u8, Some(0x7eu8)) => Key::Function(10),
                (0x32u8, 0x33u8, Some(0x7eu8)) => Key::Function(11),
                (0x32u8, 0x34u8, Some(0x7eu8)) => Key::Function(12),
                _ => Key::Esc,
            };
            (Some(k), n)
        },
        Some(0x3bu8) => {
            let n = if s.len() >= 6 { 6int } else { s.len() as int };
            let k = match (a, byte_at(s, 4), byte_at(s, 5)) {
                (0x31u8, Some(0x32u8), Some(0x50u8)) => Key::PrintScreen,
                _ => Key::Esc,
            };
            (Some(k), n)
        },
        Some(0x7eu8) => {
            let k = if a == 0x31 {
                Key::Home
            } else if a == 0x33 {
                Key::Del
            } else if a == 0x34 {
                Key::End
            } else if a == 0x35 {
                Key::PageUp
            } else if a == 0x36 {
                Key::PageDown
            } else if a == 0x37 {
                Key::Home
            } else if a == 0x38 {
                Key::End
            } else {
                Key::Esc
            };
            (Some(k), 4)
        },
        Some(_) => (Some(Key::Esc), 4),
        None => (Some(Key::Esc), 3),
    }
}

/// The code point of a two-byte UTF-8 sequence.
pub open spec fn utf8_2(c: u8, b: u8) -> u32 {
    (((c as u32) & 0x1f) << 6u32) | ((b as u32) & 0x3f)
}

/// The code point of a three-byte UTF-8 sequence.
pub open spec fn utf8_3(c: u8, b: u8, d: u8) -> u32 {
    (((c as u32) & 0x0f) << 12u32) | (((b as u32) & 0x3f) << 6u32) | ((d as u32) & 0x3f)
}

/// The code point of a four-byte sequence, as the decoder computes it (with
/// four bits of the leading byte).
pub open spec fn utf8_4(c: u8, b: u8, d: u8, e: u8) -> u32 {
    (((c as u32) & 0x0f) << 18u32) | (((b as u32) & 0x3f) << 12u32) | (((d as u32) & 0x3f) << 6u32)
        | ((e as u32) & 0x3f)
}

/// The bytes can be decoded without a fault: they do not start with C-c,
/// with a continuation byte or with a byte from 0xF8 on, and every
/// continuation byte that a multi-byte sequence reads is one.
pub open spec fn key_bytes_ok(s: Seq<u8>) -> bool {
    if s.len() == 0 {
        true
    } else {
        let c = s[0];
        if c == 0x1b || c >= 0x20 && c <= 0x7f {
            true
        } else if c < 0x20 {
            c != 3
        } else if c & 0xe0 == 0xc0 {
            byte_at(s, 1) matches Some(b) ==> is_cont(b)
        } else if c & 0xf0 == 0xe0 {
            &&& byte_at(s, 1) matches Some(b) ==> is_cont(b)
            &&& byte_at(s, 2) matches Some(d) ==> is_cont(d)
        } else if c & 0xf8 == 0xf0 {
            &&& byte_at(s, 1) matches Some(b) ==> is_cont(b)
            &&& byte_at(s, 2) matches Some(d) ==> is_cont(d)
            &&& byte_at(s, 3) matches Some(e) ==> is_cont(e)
        } else {
            false
        }
    }
}

/// The key at the start of `s`, and how many bytes it takes.
pub open spec fn key_from_bytes(s: Seq<u8>) -> (Option<Key>, int) {
    if s.len() == 0 {
        (None, 0)
    } else {
        let c = s[0];
        if c == 0x1b {
            esc_key(s)
        } else if c < 0x20 {
            if c == 13 {
                (Some(Key::Enter), 1)
            } else {
                (Some(Key::Ctrl((c + 96) as char)), 1)
            }
        } else if c < 127 {
            (Some(Key::Utf8(c as char)), 1)
        } else if c == 127 {
            (Some(Key::Backspace), 1)
        } else if c & 0xe0 == 0xc0 {
            match byte_at(s, 1) {
                Some(b) => (
                    match scalar(utf8_2(c, b)) {
                        Some(ch) => Some(Key::Utf8(ch)),
                        None => None,
                    },
                    2,
                ),
                None => (None, 1),
            }
        } else if c & 0xf0 == 0xe0 {
            match (byte_at(s, 1), byte_at(s, 2)) {
                (Some(b), Some(d)) => (
                    match scalar(utf8_3(c, b, d)) {
                        Some(ch) => Some(Key::Utf8(ch)),
                        None => None,
                    },
                    3,
                ),
                (Some(_), None) => (None, 2),
                _ => (None, 1),
            }
        } else {
            match (byte_at(s, 1), byte_at(s, 2), byte_at(s, 3)) {
                (Some(b), Some(d), Some(e)) => (
                    match scalar(utf8_4(c, b, d, e)) {
                        Some(ch) => Some(Key::Utf8(ch)),
                        None => None,
                    },
                    4,
                ),
                (Some(_), Some(_), None) => (None, 3),
                (Some(_), None, _) => (None, 2),
                _ => (None, 1),
            }
        }
    }
}

/// The byte at `i`, if there is one.
fn get_byte(input: &[u8], i: usize) -> (b: Option<u8>)
    ensures
        b == byte_at(input@, i as int),
{
    if i < input.len() {
        Some(input[i])
    } else {
        None
    }
}

/// Whether decoding `input` would hit a fault (see `key_bytes_ok`).
pub fn key_bytes_fault(input: &[u8]) -> (b: bool)
    ensures
        b == !key_bytes_ok(input@),
{
    if input.len() == 0 {
        return false;
    }
    let c = input[0];
    let b = get_byte(input, 1);
    let d = get_byte(input, 2);
    let e = get_byte(input, 3);
    let cont_b = match b { Some(x) => x & 0xc0 == 0x80, None => true };
    let cont_d = match d { Some(x) => x & 0xc0 == 0x80, None => true };
    let cont_e = match e { Some(x) => x & 0xc0 == 0x80, None => true };
    if c == 0x1b || c >= 0x20 && c <= 0x7f {
        false
    } else if c < 0x20 {
        c == 3
    } else if c & 0xe0 == 0xc0 {
        !cont_b
    } else if c & 0xf0 == 0xe0 {
        !(cont_b && cont_d)
    } else if c & 0xf8 == 0xf0 {
        !(cont_b && cont_d && cont_e)
    } else {
        true
    }
}

/// Decodes the key at the start of `input`: escape sequences, control
/// keys, ASCII and UTF-8 characters. Returns the key (None when `input` is
/// empty, a sequence is cut short or does not name a character) and how
/// many bytes it took.
pub fn read_key(input: &[u8]) -> (r: (Option<Key>, usize))
    requires
        key_bytes_ok(input@),
    ensures
        (r.0, r.1 as int) == key_from_bytes(input@),
{
    if input.len() == 0 {
        return (None, 0);
    }
    let ch = input[0];
    if ch == 0x1b {
        let n2: usize = if input.len() >= 3 { 3 } else { input.len() };
        match (get_byte(input, 1), get_byte(input, 2)) {
            (Some(0x5bu8), Some(0x41u8)) => (Some(Key::Up), 3),
            (Some(0x5bu8), Some(0x42u8)) => (Some(Key::Down), 3),
            (Some(0x5bu8), Some(0x43u8)) => (Some(Key::Right), 3),
            (Some(0x5bu8), Some(0x44u8)) => (Some(Key::Left), 3),
            (Some(0x5bu8), Some(0x48u8)) => (Some(Key::Home), 3),
            (Some(0x5bu8), Some(0x46u8)) => (Some(Key::End), 3),
            (Some(0x5bu8), Some(a)) if 0x30 <= a && a <= 0x39 => read_esc_digit(input, a),
            (Some(0x4fu8), Some(0x48u8)) => (Some(Key::Home), 3),
            (Some(0x4fu8), Some(0x46u8)) => (Some(Key::End), 3),
            (Some(0x4fu8), Some(0x50u8)) => (Some(Key::Function(1)), 3),
            (Some(0x4fu8), Some(0x51u8)) => (Some(Key::Function(2)), 3),
            (Some(0x4fu8), Some(0x52u8)) => (Some(Key::Function(3)), 3),
            (Some(0x4fu8), Some(0x53u8)) => (Some(Key::Function(4)), 3),
            (Some(a), Some(b)) => (Some(Key::EscSeq2(a, b)), 3),
            (Some(a), None) => (Some(Key::EscSeq1(a)), 2),
            (None, _) => (Some(Key::Esc), n2),
        }
    } else if is_ctrl_key(ch) {
        if ch == 13 {
            (Some(Key::Enter), 1)
        } else {
            let d = decode_ctrl_key(ch);
            (Some(Key::Ctrl(d)), 1)
        }
    } else if ch < 127 {
        (Some(Key::Utf8(ch as char)), 1)
    } else if ch == 127 {
        (Some(Key::Backspace), 1)
    } else if ch & 0b11100000 == 0b11000000 {
        let b = match get_byte(input, 1) {
            Some(b) => b,
            None => { return (None, 1); },
        };
        let val = (((ch as u32) & 0x1f) << 6u32) | ((b as u32) & 0x3f);
        match char_from_u32(val) {
            Some(c) => (Some(Key::Utf8(c)), 2),
            None => (None, 2),
        }
    } else if ch & 0b11110000 == 0b11100000 {
        let b = match get_byte(input, 1) {
            Some(b) => b,
            None => { return (None, 1); },
        };
        let c = match get_byte(input, 2) {
            Some(c) => c,
            None => { return (None, 2); },
        };
        let val = (((ch as u32) & 0x0f) << 12u32) | (((b as u32) & 0x3f) << 6u32) | ((c as u32) & 0x3f);
        match char_from_u32(val) {
            Some(x) => (Some(Key::Utf8(x)), 3),
            None => (None, 3),
        }
    } else {
        let b = match get_byte(input, 1) {
            Some(b) => b,
            None => { return (None, 1); },
        };
        let c = match get_byte(input, 2) {
            Some(c) => c,
            None => { return (None, 2); },
        };
        let d = match get_byte(input, 3) {
            Some(d) => d,
            None => { return (None, 3); },
        };
        let val = (((ch as u32) & 0x0f) << 18u32) | (((b as u32) & 0x3f) << 12u32) | (((c as u32)
            & 0x3f) << 6u32) | ((d as u32) & 0x3f);
        match char_from_u32(val) {
            Some(x) => (Some(Key::Utf8(x)), 4),
            None => (None, 4),
        }
    }
}

/// The key of `ESC [ a ...` for a digit `a`.
fn read_esc_digit(input: &[u8], a: u8) -> (r: (Option<Key>, usize))
    requires
        input@.len() >= 3,
    ensures
        (r.0, r.1 as int) == esc_digit_key(input@, a),
{
    match get_byte(input, 3) {
        Some(b) if 0x30 <= b && b <= 0x39 => {
            let n: usize = if input.len() >= 5 { 5 } else { 4 };
            let k = match (a, b, get_byte(input, 4)) {
                (0x31u8, 0x35u8, Some(0x7eu8)) => Key::Function(5),
                (0x31u8, 0x37u8, Some(0x7eu8)) => Key::Function(6),
                (0x31u8, 0x38u8, Some(0x7eu8)) => Key::Function(7),
                (0x31u8, 0x39u8, Some(0x7eu8)) => Key::Function(8),
                (0x32u8, 0x30u8, Some(0x7eu8)) => Key::Function(9),
                (0x32u8, 0x31u8, Some(0x7eu8)) => Key::Function(10),
                (0x32u8, 0x33u8, Some(0x7eu8)) => Key::Function(11),
                (0x32u8, 0x34u8, Some(0x7eu8)) => Key::Function(12),
                _ => Key::Esc,
            };
            (Some(k), n)
        },
        Some(0x3bu8) => {
            let n: usize = if input.len() >= 6 { 6 } else { input.len() };
            let k = match (a, get_byte(input, 4), get_byte(input, 5)) {
                (0x31u8, Some(0x32u8), Some(0x50u8)) => Key::PrintScreen,
                _ => Key::Esc,
            };
            (Some(k), n)
        },
        Some(0x7eu8) => {
            let k = if a == 0x31u8 {
                Key::Home
            } else if a == 0x33u8 {
                Key::Del
            } else if a == 0x34u8 {
                Key::End
            } else if a == 0x35u8 {
                Key::PageUp
            } else if a == 0x36u8 {
                Key::PageDown
            } else if a == 0x37u8 {
                Key::Home
            } else if a == 0x38u8 {
                Key::End
            } else {
                Key::Esc
            };
            (Some(k), 4)
        },
        Some(_) => (Some(Key::Esc), 4),
        None => (Some(Key::Esc), 3),
    }
}


/// An ASCII decimal digit.
pub open spec fn is_digit_byte(b: u8) -> bool {
    48 <= b <= 57
}

/// The number that the ASCII digits `s` spell in base ten.
pub open spec fn digits_value(s: Seq<u8>) -> nat
    decreases s.len(),
{
    if s.len() == 0 {
        0
    } else {
        digits_value(s.drop_last()) * 10 + (s.last() - 48) as nat
    }
}

/// `s` without one leading `+`.
pub open spec fn unsigned_digits(s: Seq<u8>) -> Seq<u8> {
    if s.len() > 0 && s[0] == 43 {
        s.skip(1)
    } else {
        s
    }
}

/// `s` spells an unsigned integer: an optional `+`, then at least one digit
/// and nothing else.
pub open spec fn spells_digits(s: Seq<u8>) -> bool {
    let d = unsigned_digits(s);
    &&& d.len() > 0
    &&& forall|i: int| 0 <= i < d.len() ==> is_digit_byte(#[trigger] d[i])
}

/// `s` spells an unsigned integer that fits in a `usize`.
pub open spec fn parses_usize(s: Seq<u8>) -> bool {
    &&& spells_digits(s)
    &&& digits_value(unsigned_digits(s)) <= usize::MAX
}

/// The number `s` spells, where `parses_usize(s)`.
pub open spec fn usize_value(s: Seq<u8>) -> Option<usize> {
    if parses_usize(s) {
        Some(digits_value(unsigned_digits(s)) as usize)
    } else {
        None
    }
}

/// Reads the decimal number that `bytes` spell.
///
/// Trusted: calls `lexical::parse::<usize, _>` with the default number
/// format. Its source rejects every input that is not an optional `+`
/// followed by one or more ASCII digits, and returns the exact value of
/// every number that fits in a `usize`; the error is mapped to `None`.
/// Left unsaid: what comes back for a number above `usize::MAX`. The
/// source accumulates the digits with wrapping arithmetic and reports an
/// overflow only for too many significant digits, or for the largest
/// count when the wrapped value falls below the smallest number of that
/// length, so some such numbers come back as a wrapped value.
#[verifier::external_body]
fn parse_usize(bytes: &[u8]) -> (r: Option<usize>)
    ensures
        parses_usize(bytes@) ==> r == usize_value(bytes@),
        !spells_digits(bytes@) ==> r is None,
{
    match lexical::parse::<usize, _>(bytes) {
        Ok(v) => Some(v),
        Err(_) => None,
    }
}

/// The index of the first `b` in `s`, or -1 where there is none.
pub open spec fn find_byte(s: Seq<u8>, b: u8) -> int
    decreases s.len(),
{
    if s.len() == 0 {
        -1
    } else if s[0] == b {
        0
    } else {
        let r = find_byte(s.skip(1), b);
        if r < 0 {
            -1
        } else {
            r + 1
        }
    }
}

proof fn lemma_find_byte(s: Seq<u8>, b: u8, k: int)
    requires
        0 <= k <= s.len(),
        forall|j: int| 0 <= j < k ==> s[j] != b,
    ensures
        k < s.len() && s[k] == b ==> find_byte(s, b) == k,
        k == s.len() ==> find_byte(s, b) == -1,
    decreases k,
{
    if k > 0 {
        assert forall|j: int| 0 <= j < k - 1 implies s.skip(1)[j] != b by {
            assert(s.skip(1)[j] == s[j + 1]);
        }
        lemma_find_byte(s.skip(1), b, k - 1);
        if k < s.len() {
            assert(s.skip(1)[k - 1] == s[k]);
        }
    }
}

/// The index of the first `b` in `s`, if any.
fn position_of(s: &[u8], b: u8) -> (r: Option<usize>)
    ensures
        r == (if find_byte(s@, b) < 0 { None } else { Some(find_byte(s@, b) as usize) }),
        find_byte(s@, b) < s@.len(),
{
    let mut i: usize = 0;
    while i < s.len()
        invariant
            i <= s@.len(),
            forall|j: int| 0 <= j < i ==> s@[j] != b,
        decreases s@.len() - i,
    {
        if s[i] == b {
            proof {
                lemma_find_byte(s@, b, i as int);
            }
            return Some(i);
        }
        i = i + 1;
    }
    proof {
        lemma_find_byte(s@, b, i as int);
    }
    None
}

/// The terminal's reply to a cursor position query, up to the closing `R`,
/// starts with the escape `ESC [`.
pub open spec fn report_framed(reply: Seq<u8>) -> bool {
    reply.len() >= 2 && reply[0] == 0x1b && reply[1] == 91
}

/// The part of a framed reply between `ESC [` and the `R`: `row;column`.
pub open spec fn report_body(reply: Seq<u8>) -> Seq<u8> {
    reply.skip(2)
}

/// A framed reply whose body holds a `;` with digits on each side.
pub open spec fn report_spelled(reply: Seq<u8>) -> bool {
    let body = report_body(reply);
    let k = find_byte(body, 59);
    &&& k >= 0
    &&& spells_digits(body.take(k))
    &&& spells_digits(body.skip(k + 1))
}

/// A framed reply whose body holds a `;` with a number on each side that
/// fits in a `usize`.
pub open spec fn report_readable(reply: Seq<u8>) -> bool {
    let body = report_body(reply);
    let k = find_byte(body, 59);
    &&& k >= 0
    &&& parses_usize(body.take(k))
    &&& parses_usize(body.skip(k + 1))
}

/// The position that a readable reply reports: the row before the `;`, the
/// column after it.
pub open spec fn report_pos(reply: Seq<u8>) -> Pos {
    let body = report_body(reply);
    let k = find_byte(body, 59);
    Pos {
        x: usize_value(body.skip(k + 1)).unwrap(),
        y: usize_value(body.take(k)).unwrap(),
    }
}

/// Whether `cursor_report_pos` cannot read `reply`: it is framed, but its
/// body does not hold a `;` with a number on each side. A number above
/// `usize::MAX` is a fault where the parser reports its overflow.
pub fn cursor_report_fault(reply: &[u8]) -> (b: bool)
    ensures
        !report_framed(reply@) ==> !b,
        report_framed(reply@) && !report_spelled(reply@) ==> b,
        report_framed(reply@) && report_readable(reply@) ==> !b,
{
    if reply.len() < 2 || reply[0] != 0x1b || reply[1] != 91 {
        return false;
    }
    let body = slice_from(reply, 2);
    match position_of(body, 59) {
        None => true,
        Some(k) => {
            let before = slice_range(body, 0, k);
            let after = slice_from(body, k + 1);
            proof {
                assert(before@ == body@.take(k as int));
            }
            parse_usize(before).is_none() || parse_usize(after).is_none()
        },
    }
}

/// The elements of `s` from index `start` on.
fn slice_from(s: &[u8], start: usize) -> (r: &[u8])
    requires
        start <= s@.len(),
    ensures
        r@ == s@.skip(start as int),
{
    let r = &s[start..s.len()];
    assert(r@ =~= s@.skip(start as int));
    r
}

/// The elements of `s` from index `start` up to `end`.
fn slice_range(s: &[u8], start: usize, end: usize) -> (r: &[u8])
    requires
        start <= end <= s@.len(),
    ensures
        r@ == s@.subrange(start as int, end as int),
{
    &s[start..end]
}

/// Reads the cursor position from the terminal's reply to a position
/// query (the bytes before its closing `R`): `None` where the reply does
/// not start with `ESC [` or holds no `;` with digits on each side, else
/// the row and column it reports. For a number above `usize::MAX` the
/// parser decides.
pub fn cursor_report_pos(reply: &[u8]) -> (r: Option<Pos>)
    ensures
        !report_framed(reply@) ==> r is None,
        report_framed(reply@) && !report_spelled(reply@) ==> r is None,
        report_framed(reply@) && report_readable(reply@) ==> r == Some(report_pos(reply@)),
{
    if reply.len() < 2 || reply[0] != 0x1b || reply[1] != 91 {
        return None;
    }
    let body = slice_from(reply, 2);
    let k = match position_of(body, 59) {
        Some(k) => k,
        None => {
            return None;
        },
    };
    let before = slice_range(body, 0, k);
    let after = slice_from(body, k + 1);
    proof {
        assert(before@ == body@.take(k as int));
    }
    let y = match parse_usize(before) {
        Some(v) => v,
        None => {
            return None;
        },
    };
    let x = match parse_usize(after) {
        Some(v) => v,
        None => {
            return None;
        },
    };
    Some(Pos { x, y })
}


/// Each key decodes from the bytes that a terminal sends for it, whatever
/// bytes follow: `ESC [ A` to `ESC [ D` the arrows up, down, right and
/// left; `ESC [ H` and `ESC O H` Home; `ESC [ F` and `ESC O F` End;
/// `ESC O P` to `ESC O S` F1 to F4; `ESC [ n ~` Home for 1 and 7, Delete
/// for 3, End for 4 and 8, Page Up for 5 and Page Down for 6; `ESC [ n n ~`
/// F5 to F12 for 15, 17, 18, 19, 20, 21, 23 and 24; carriage return Enter,
/// DEL Backspace, a printable ASCII byte its character, and the bytes 1 to
/// 26 Ctrl with the letters `a` to `z`.
pub proof fn law_key_bytes(s: Seq<u8>)
    ensures
        s.len() >= 3 && s[0] == 0x1b && s[1] == 0x5b && s[2] == 0x41 ==> key_from_bytes(s) == (Some(Key::Up), 3int),
        s.len() >= 3 && s[0] == 0x1b && s[1] == 0x5b && s[2] == 0x42 ==> key_from_bytes(s) == (Some(Key::Down), 3int),
        s.len() >= 3 && s[0] == 0x1b && s[1] == 0x5b && s[2] == 0x43 ==> key_from_bytes(s) == (Some(Key::Right), 3int),
        s.len() >= 3 && s[0] == 0x1b && s[1] == 0x5b && s[2] == 0x44 ==> key_from_bytes(s) == (Some(Key::Left), 3int),
        s.len() >= 3 && s[0] == 0x1b && (s[1] == 0x5b || s[1] == 0x4f) && s[2] == 0x48 ==> key_from_bytes(s) == (Some(Key::Home), 3int),
        s.len() >= 3 && s[0] == 0x1b && (s[1] == 0x5b || s[1] == 0x4f) && s[2] == 0x46 ==> key_from_bytes(s) == (Some(Key::End), 3int),
        s.len() >= 3 && s[0] == 0x1b && s[1] == 0x4f && s[2] == 0x50 ==> key_from_bytes(s) == (Some(Key::Function(1)), 3int),
        s.len() >= 3 && s[0] == 0x1b && s[1] == 0x4f && s[2] == 0x51 ==> key_from_bytes(s) == (Some(Key::Function(2)), 3int),
        s.len() >= 3 && s[0] == 0x1b && s[1] == 0x4f && s[2] == 0x52 ==> key_from_bytes(s) == (Some(Key::Function(3)), 3int),
        s.len() >= 3 && s[0] == 0x1b && s[1] == 0x4f && s[2] == 0x53 ==> key_from_bytes(s) == (Some(Key::Function(4)), 3int),
        s.len() >= 4 && s[0] == 0x1b && s[1] == 0x5b && s[2] == 0x31 && s[3] == 0x7e ==> key_from_bytes(s) == (Some(Key::Home), 4int),
        s.len() >= 4 && s[0] == 0x1b && s[1] == 0x5b && s[2] == 0x37 && s[3] == 0x7e ==> key_from_bytes(s) == (Some(Key::Home), 4int),
        s.len() >= 4 && s[0] == 0x1b && s[1] == 0x5b && s[2] == 0x34 && s[3] == 0x7e ==> key_from_bytes(s) == (Some(Key::End), 4int),
        s.len() >= 4 && s[0] == 0x1b && s[1] == 0x5b && s[2] == 0x38 && s[3] == 0x7e ==> key_from_bytes(s) == (Some(Key::End), 4int),
        s.len() >= 4 && s[0] == 0x1b && s[1] == 0x5b && s[2] == 0x33 && s[3] == 0x7e ==> key_from_bytes(s) == (Some(Key::Del), 4int),
        s.len() >= 4 && s[0] == 0x1b && s[1] == 0x5b && s[2] == 0x35 && s[3] == 0x7e ==> key_from_bytes(s) == (Some(Key::PageUp), 4int),
        s.len() >= 4 && s[0] == 0x1b && s[1] == 0x5b && s[2] == 0x36 && s[3] == 0x7e ==> key_from_bytes(s) == (Some(Key::PageDown), 4int),
        s.len() >= 5 && s[0] == 0x1b && s[1] == 0x5b && s[2] == 0x31 && s[3] == 0x35 && s[4] == 0x7e ==> key_from_bytes(s) == (Some(Key::Function(5)), 5int),
        s.len() >= 5 && s[0] == 0x1b && s[1] == 0x5b && s[2] == 0x31 && s[3] == 0x37 && s[4] == 0x7e ==> key_from_bytes(s) == (Some(Key::Function(6)), 5int),
        s.len() >= 5 && s[0] == 0x1b && s[1] == 0x5b && s[2] == 0x31 && s[3] == 0x38 && s[4] == 0x7e ==> key_from_bytes(s) == (Some(Key::Function(7)), 5int),
        s.len() >= 5 && s[0] == 0x1b && s[1] == 0x5b && s[2] == 0x31 && s[3] == 0x39 && s[4] == 0x7e ==> key_from_bytes(s) == (Some(Key::Function(8)), 5int),
        s.len() >= 5 && s[0] == 0x1b && s[1] == 0x5b && s[2] == 0x32 && s[3] == 0x30 && s[4] == 0x7e ==> key_from_bytes(s) == (Some(Key::Function(9)), 5int),
        s.len() >= 5 && s[0] == 0x1b && s[1] == 0x5b && s[2] == 0x32 && s[3] == 0x31 && s[4] == 0x7e ==> key_from_bytes(s) == (Some(Key::Function(10)), 5int),
        s.len() >= 5 && s[0] == 0x1b && s[1] == 0x5b && s[2] == 0x32 && s[3] == 0x33 && s[4] == 0x7e ==> key_from_bytes(s) == (Some(Key::Function(11)), 5int),
        s.len() >= 5 && s[0] == 0x1b && s[1] == 0x5b && s[2] == 0x32 && s[3] == 0x34 && s[4] == 0x7e ==> key_from_bytes(s) == (Some(Key::Function(12)), 5int),
        s.len() >= 1 && s[0] == 13 ==> key_from_bytes(s) == (Some(Key::Enter), 1int),
        s.len() >= 1 && s[0] == 127 ==> key_from_bytes(s) == (Some(Key::Backspace), 1int),
        s.len() >= 1 && 0x20 <= s[0] < 0x7f ==> key_from_bytes(s) == (Some(Key::Utf8(s[0] as char)), 1int),
        s.len() >= 1 && 1 <= s[0] <= 26 && s[0] != 13 ==> key_from_bytes(s) == (Some(Key::Ctrl(((s[0] - 1) + ('a' as u8)) as char)), 1int),
{
}

} // verus!
