use vstd::prelude::*;
use crate::docview::{scroll_axis, status_text, DocView};
use crate::key::{decimal, digit_char};
use crate::mode::{mode_debug, Mode};
use crate::types::Pos;
use crate::types::Size;

verus! {

/// The offset that `scroll_axis` gives stays between zero and the
/// coordinate, or is the old offset.
proof fn lemma_scroll_axis(c: int, off: int, len: int)
    requires
        0 <= c <= usize::MAX,
        0 <= off <= usize::MAX,
        0 <= len,
    ensures
        len > 0 ==> 0 <= scroll_axis(c, off, len) <= usize::MAX,
        len > 0 ==> scroll_axis(c, off, len) as usize as int == scroll_axis(c, off, len),
        off <= c < off + len ==> scroll_axis(c, off, len) == off,
{
}

/// Scrolling for a window of `size` keeps the cursor in view: along each
/// axis with room for at least one cell, the cursor's row (and its
/// rendered column) lies inside the window after the scroll; an offset
/// that already shows it is kept; otherwise the window moves just far
/// enough, so that the cursor lands on its first row (column) when it was
/// before the window and on its last when it was past it.
pub proof fn law_scroll_keeps_cursor_in_view(v: DocView, size: Size)
    ensures
        ({
            let t = v.scroll_target(size);
            let c = v.cursor_spec().y as int;
            let off = v.scroll_spec().y as int;
            let len = size.height as int;
            &&& len > 0 ==> t.y <= c < t.y + len
            &&& off <= c < off + len ==> t.y == off
            &&& len > 0 && c < off ==> t.y == c
            &&& len > 0 && c >= off + len ==> t.y + len - 1 == c
        }),
        ({
            let t = v.scroll_target(size);
            let c = v.render_x_spec() as int;
            let off = v.scroll_spec().x as int;
            let len = size.width as int;
            &&& len > 0 ==> t.x <= c < t.x + len
            &&& off <= c < off + len ==> t.x == off
            &&& len > 0 && c < off ==> t.x == c
            &&& len > 0 && c >= off + len ==> t.x + len - 1 == c
        }),
{
    lemma_scroll_axis(v.cursor_spec().y as int, v.scroll_spec().y as int, size.height as int);
    lemma_scroll_axis(v.render_x_spec() as int, v.scroll_spec().x as int, size.width as int);
}


/// `s` is a non-empty run of the decimal digits `0` to `9`.
pub open spec fn all_digits(s: Seq<char>) -> bool {
    &&& s.len() > 0
    &&& forall|i: int| 0 <= i < s.len() ==> '0' <= #[trigger] s[i] <= '9'
}

/// The number that the decimal digits `s` spell.
pub open spec fn number_value(s: Seq<char>) -> nat
    decreases s.len(),
{
    if s.len() == 0 {
        0
    } else {
        number_value(s.drop_last()) * 10 + ((s.last() as u32) - 48) as nat
    }
}

/// `decimal(n)` is a run of digits that spells `n`.
proof fn lemma_decimal_spells(n: nat)
    ensures
        all_digits(decimal(n)),
        number_value(decimal(n)) == n,
    decreases n,
{
    if n < 10 {
        let d = decimal(n);
        assert(d == seq![digit_char(n)]);
        assert(d.drop_last() =~= Seq::<char>::empty());
        assert(((digit_char(n) as u32) - 48) as nat == n);
        assert(number_value(d) == number_value(d.drop_last()) * 10 + ((d.last() as u32) - 48) as nat);
    } else {
        lemma_decimal_spells(n / 10);
        let a = decimal(n / 10);
        let k = (n % 10) as nat;
        let d = a + seq![digit_char(k)];
        assert(decimal(n) == d);
        assert(d.drop_last() =~= a);
        assert(d.last() == digit_char(k));
        assert(((digit_char(k) as u32) - 48) as nat == k);
        assert forall|i: int| 0 <= i < d.len() implies '0' <= #[trigger] d[i] <= '9' by {
            if i < a.len() {
                assert(d[i] == a[i]);
            }
        }
        assert((n / 10) * 10 + n % 10 == n) by (nonlinear_arith);
        assert(number_value(d) == number_value(a) * 10 + k);
    }
}

/// The status text of a view names its mode between two bars, then the
/// cursor's row and then its column, each counted from one and written in
/// decimal, separated by a colon and followed by a space.
pub proof fn law_status_row_then_column(mode: Mode, c: Pos)
    ensures
        exists|row: Seq<char>, col: Seq<char>|
            #![trigger number_value(row), number_value(col)]
            {
                &&& status_text(mode, c) == "\u{2590} "@ + mode_debug(mode) + " \u{2590} "@ + row + ":"@ + col + " "@
                &&& all_digits(row)
                &&& all_digits(col)
                &&& number_value(row) == c.y + 1
                &&& number_value(col) == c.x + 1
            },
{
    let row = decimal((c.y + 1) as nat);
    let col = decimal((c.x + 1) as nat);
    lemma_decimal_spells((c.y + 1) as nat);
    lemma_decimal_spells((c.x + 1) as nat);
    assert(number_value(row) == c.y + 1);
    assert(number_value(col) == c.x + 1);
}

} // verus!
