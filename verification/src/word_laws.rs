use vstd::prelude::*;
use crate::classify::{classify_spec, CharType};
use crate::doc::{back_stream, line_cp, line_stream, scan_next_word, scan_prior_word, stream_back_from, stream_from, CharPos};
use crate::row::Row;
use crate::types::Pos;

verus! {

/// Reading forwards, a word starts at index `j`: its character's class
/// differs from the class of the character before it, and is not white
/// space.
pub open spec fn word_starts(s: Seq<CharPos>, j: int) -> bool {
    classify_spec(s[j].ch) != classify_spec(s[j - 1].ch) && classify_spec(s[j].ch) != CharType::Space
}

/// Reading backwards, white space begins at index `j` after something that
/// is not white space.
pub open spec fn space_begins(t: Seq<CharPos>, j: int) -> bool {
    classify_spec(t[j].ch) != classify_spec(t[j - 1].ch) && classify_spec(t[j].ch) == CharType::Space
}

/// Scanning forwards from index `k`, `m` is the first index from `k` on
/// where a word starts (or the end), and the scan gives its position.
proof fn lemma_scan_next_first(s: Seq<CharPos>, k: int) -> (m: int)
    requires
        1 <= k <= s.len(),
    ensures
        k <= m <= s.len(),
        forall|j: int|
            k <= j < m ==> !#[trigger] word_starts(s, j),
        m < s.len() ==> word_starts(s, m),
        scan_next_word(s, k) == if m < s.len() {
            s[m].pos
        } else {
            s.last().pos
        },
    decreases s.len() - k,
{
    if k >= s.len() {
        k
    } else if word_starts(s, k) {
        k
    } else {
        lemma_scan_next_first(s, k + 1)
    }
}

/// The `w` motion: from `from`, the next word starts at the first character
/// after it whose class differs from that of the character before it and
/// is not white space, so that punctuation after text, or text after
/// punctuation, starts a word; where no character does, the motion goes to
/// the last character of the document.
pub proof fn law_next_word_start(rows: Seq<Row>, from: Pos)
    requires
        stream_from(rows, from).len() > 0,
    ensures
        ({
            let s = stream_from(rows, from);
            let r = scan_next_word(s, 1);
            &&& forall|j: int|
                #![trigger word_starts(s, j)]
                word_starts(s, j) <==> (classify_spec(s[j].ch) != classify_spec(s[j - 1].ch) && classify_spec(s[j].ch)
                    != CharType::Space)
            &&& exists|m: int|
                #![trigger s[m - 1]]
                1 <= m <= s.len() && (forall|j: int|
                    1 <= j < m ==> !#[trigger] word_starts(s, j)) && (m < s.len() ==> word_starts(s, m) && r == s[m].pos)
                    && (m == s.len() ==> r == s.last().pos)
        }),
{
    let s = stream_from(rows, from);
    let m = lemma_scan_next_first(s, 1);
    assert(s[m - 1] == s[m - 1]);
}

/// Scanning from index `k` of the characters read backwards, `m` is the
/// first index from `k` on where white space begins after something else
/// (or the end), and the scan gives the position just before it.
proof fn lemma_scan_prior_first(t: Seq<CharPos>, k: int) -> (m: int)
    requires
        1 <= k <= t.len(),
    ensures
        k <= m <= t.len(),
        forall|j: int|
            k <= j < m ==> !#[trigger] space_begins(t, j),
        m < t.len() ==> space_begins(t, m),
        scan_prior_word(t, k) == if m < t.len() {
            t[m - 1].pos
        } else {
            t.last().pos
        },
    decreases t.len() - k,
{
    if k >= t.len() {
        k
    } else if space_begins(t, k) {
        k
    } else {
        lemma_scan_prior_first(t, k + 1)
    }
}

/// The `b` motion: reading backwards from the character before `from`,
/// the cursor goes to the last character read before the first place where
/// white space follows something that is not white space; the characters
/// passed over form one run up to that white space. Where no such place
/// comes, it goes to the last character read, the start of the document.
pub proof fn law_prior_word_start(rows: Seq<Row>, from: Pos)
    requires
        stream_back_from(rows, from).len() >= 2,
    ensures
        ({
            let t = stream_back_from(rows, from).skip(1);
            let r = scan_prior_word(t, 1);
            &&& forall|j: int|
                #![trigger space_begins(t, j)]
                space_begins(t, j) <==> (classify_spec(t[j].ch) != classify_spec(t[j - 1].ch) && classify_spec(t[j].ch)
                    == CharType::Space)
            &&& exists|m: int|
                #![trigger t[m - 1]]
                1 <= m <= t.len() && (forall|j: int|
                    1 <= j < m ==> !#[trigger] space_begins(t, j)) && (m < t.len() ==> space_begins(t, m) && r == t[m - 1].pos)
                    && (m == t.len() ==> r == t.last().pos)
        }),
{
    let t = stream_back_from(rows, from).skip(1);
    let m = lemma_scan_prior_first(t, 1);
    assert(t[m - 1] == t[m - 1]);
}



/// Reading the rows before `y` backwards ends at the document's first
/// position.
proof fn lemma_back_stream_last(rows: Seq<Row>, y: int)
    requires
        1 <= y <= rows.len(),
    ensures
        back_stream(rows, y).len() > 0,
        back_stream(rows, y).last().pos == (Pos { x: 0, y: 0 }),
    decreases y,
{
    let a = line_stream(rows[y - 1]@, y - 1).reverse();
    if y == 1 {
        assert(back_stream(rows, 0) =~= Seq::<CharPos>::empty());
        assert(back_stream(rows, 1) =~= a);
        assert(a.last() == line_stream(rows[0]@, 0)[0]);
        assert(line_stream(rows[0]@, 0)[0] == line_cp(rows[0]@, 0, 0));
    } else {
        lemma_back_stream_last(rows, y - 1);
        let b = back_stream(rows, y - 1);
        assert(back_stream(rows, y) == a + b);
        assert((a + b).last() == b.last());
    }
}

/// The `b` motion from a position in the document with no white space
/// after something else anywhere before it goes to the document's first
/// position.
pub proof fn law_prior_word_reaches_start(rows: Seq<Row>, from: Pos)
    requires
        from.y < rows.len() ==> from.x <= rows[from.y as int]@.len(),
        from.y <= rows.len(),
        stream_back_from(rows, from).len() >= 2,
        forall|j: int|
            1 <= j < stream_back_from(rows, from).len() - 1 ==> !#[trigger] space_begins(
                stream_back_from(rows, from).skip(1),
                j,
            ),
    ensures
        scan_prior_word(stream_back_from(rows, from).skip(1), 1) == (Pos { x: 0, y: 0 }),
{
    let s = stream_back_from(rows, from);
    let t = s.skip(1);
    let m = lemma_scan_prior_first(t, 1);
    if m < t.len() {
        assert(!space_begins(t, m));
    }
    assert(t.last() == s.last());
    if from.y < rows.len() {
        let l = line_stream(rows[from.y as int]@, from.y as int);
        let a = l.take(from.x + 1).reverse();
        if from.y == 0 {
            assert(back_stream(rows, 0) =~= Seq::<CharPos>::empty());
            assert(s =~= a);
            assert(a.last() == l[0]);
            assert(l[0] == line_cp(rows[0]@, 0, 0));
        } else {
            lemma_back_stream_last(rows, from.y as int);
            assert(s == a + back_stream(rows, from.y as int));
        }
    } else {
        lemma_back_stream_last(rows, from.y as int);
        let b = back_stream(rows, from.y as int);
        assert(s.last() == b.last());
    }
}

} // verus!
