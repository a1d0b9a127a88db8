//! The rows the preview draws: the shown text broken at each line feed, a
//! line longer than the row width continuing on the following rows. Each
//! row keeps the byte offset where it starts, so a screen cell maps back to
//! a byte of the text without regard to lines.
use vstd::prelude::*;
use crate::edit::{byte_len, byte_of, lemma_byte_mono, lemma_byte_step, lemma_utf8_len_concat};
use crate::text::{str_chars, string_from_chars, utf8_len, utf8_width};
use crate::tui::{row_views, shown_text, App, VisualRow};

verus! {

/// Where the row that starts at character `b` ends, scanning from `e`: at
/// the end of the text, at a line feed, or once the row holds `w`
/// characters (`w` zero: rows are never broken).
pub open spec fn row_end_from(s: Seq<char>, b: int, e: int, w: nat) -> int
    decreases s.len() - e,
{
    if e >= s.len() || s[e] == '\n' || (w > 0 && e - b >= w) {
        e
    } else {
        row_end_from(s, b, e + 1, w)
    }
}

/// A row ends within the text, after its start, holds no line feed, and
/// stops short of a line feed only once it holds `w` characters.
pub proof fn lemma_row_end(s: Seq<char>, b: int, e: int, w: nat)
    requires
        0 <= b <= e <= s.len(),
        w > 0 ==> e - b <= w,
    ensures
        e <= row_end_from(s, b, e, w) <= s.len(),
        w > 0 ==> row_end_from(s, b, e, w) - b <= w,
        forall|k: int| e <= k < row_end_from(s, b, e, w) ==> s[k] != '\n',
        row_end_from(s, b, e, w) < s.len() && s[row_end_from(s, b, e, w)] != '\n' ==> w > 0
            && row_end_from(s, b, e, w) == b + w,
    decreases s.len() - e,
{
    if !(e >= s.len() || s[e] == '\n' || (w > 0 && e - b >= w)) {
        lemma_row_end(s, b, e + 1, w);
    }
}

/// The rows from character `b` on, each as its first and end character
/// index. A row ends at a line feed (which belongs to no row; the next row
/// starts after it) or after `w` characters (the next row starts there);
/// the last row ends with the text, so a text ending in a line feed has an
/// empty last row.
pub open spec fn row_bounds(s: Seq<char>, b: int, w: nat) -> Seq<(int, int)>
    decreases s.len() - b,
{
    if b < 0 || b > s.len() {
        Seq::empty()
    } else {
        let e = row_end_from(s, b, b, w);
        proof {
            lemma_row_end(s, b, b, w);
        }
        if e >= s.len() {
            seq![(b, e)]
        } else if s[e] == '\n' {
            seq![(b, e)] + row_bounds(s, e + 1, w)
        } else {
            seq![(b, e)] + row_bounds(s, e, w)
        }
    }
}

/// A row as drawn: its characters and the byte offset of its first one.
pub open spec fn row_of(s: Seq<char>, p: (int, int)) -> (Seq<char>, usize) {
    (s.subrange(p.0, p.1), byte_of(s, p.0) as usize)
}

/// The rows from character `b` on, as drawn.
pub open spec fn rows_from(s: Seq<char>, b: int, w: nat) -> Seq<(Seq<char>, usize)> {
    row_bounds(s, b, w).map_values(|p: (int, int)| row_of(s, p))
}

/// The rows of a text at row width `w`.
pub open spec fn rows_spec(s: Seq<char>, w: nat) -> Seq<(Seq<char>, usize)> {
    rows_from(s, 0, w)
}

proof fn lemma_bounds_from(s: Seq<char>, b: int, w: nat)
    requires
        0 <= b <= s.len(),
    ensures
        ({
            let e = row_end_from(s, b, b, w);
            &&& e >= s.len() ==> row_bounds(s, b, w) == seq![(b, e)]
            &&& e < s.len() && s[e] == '\n' ==> row_bounds(s, b, w) == seq![(b, e)] + row_bounds(s, e + 1, w)
            &&& e < s.len() && s[e] != '\n' ==> row_bounds(s, b, w) == seq![(b, e)] + row_bounds(s, e, w)
        }),
{
    lemma_row_end(s, b, b, w);
}

/// Breaks a text into the rows the preview draws at row width `width`.
pub fn visual_rows(text: &str, width: usize) -> (r: Vec<VisualRow>)
    ensures
        row_views(r@) == rows_spec(text@, width as nat),
{
    let total = byte_len(text);
    let s = str_chars(text);
    let ghost w = width as nat;
    let mut rows: Vec<VisualRow> = Vec::new();
    let mut b: usize = 0;
    let mut byte: usize = 0;
    proof {
        assert(s@.take(0) =~= Seq::<char>::empty());
        assert(s@.take(s@.len() as int) =~= s@);
    }
    loop
        invariant
            s@ == text@,
            b <= s@.len(),
            byte == byte_of(s@, b as int),
            utf8_len(s@) == total,
            byte_of(s@, s@.len() as int) == total,
            w == width as nat,
            row_views(rows@) + rows_from(s@, b as int, w) == rows_spec(s@, w),
        decreases s@.len() - b,
    {
        let mut e: usize = b;
        let mut eb: usize = byte;
        let mut row: Vec<char> = Vec::new();
        proof {
            lemma_row_end(s@, b as int, b as int, w);
        }
        while e < s.len() && s[e] != '\n' && (width == 0 || e - b < width)
            invariant
                b <= e <= s@.len(),
                eb == byte_of(s@, e as int),
                byte_of(s@, s@.len() as int) == total,
                row@ == s@.subrange(b as int, e as int),
                w == width as nat,
                w > 0 ==> e - b <= w,
                row_end_from(s@, b as int, e as int, w) == row_end_from(s@, b as int, b as int, w),
            decreases s@.len() - e,
        {
            proof {
                lemma_byte_step(s@, e as int);
                lemma_byte_mono(s@, e + 1, s@.len() as int);
            }
            let u = s[e] as u32;
            let cw: usize = if u < 0x80 { 1 } else if u < 0x800 { 2 } else if u < 0x10000 { 3 } else { 4 };
            row.push(s[e]);
            assert(row@ =~= s@.subrange(b as int, e + 1));
            eb = eb + cw;
            e = e + 1;
        }
        let ghost bi = b as int;
        let ghost ei = e as int;
        assert(ei == row_end_from(s@, bi, bi, w));
        proof {
            lemma_bounds_from(s@, bi, w);
        }
        let vr = VisualRow { text: string_from_chars(&row), abs_byte_start: byte };
        assert((vr.text@, vr.abs_byte_start) == row_of(s@, (bi, ei)));
        let ghost before = rows@;
        rows.push(vr);
        assert(row_views(rows@) =~= row_views(before) + seq![row_of(s@, (bi, ei))]);
        if e >= s.len() {
            assert(rows_from(s@, bi, w) =~= seq![row_of(s@, (bi, ei))]);
            return rows;
        }
        if s[e] == '\n' {
            proof {
                lemma_byte_step(s@, ei);
                lemma_byte_mono(s@, ei + 1, s@.len() as int);
            }
            assert(rows_from(s@, bi, w) =~= seq![row_of(s@, (bi, ei))] + rows_from(s@, ei + 1, w));
            b = e + 1;
            byte = eb + 1;
        } else {
            assert(rows_from(s@, bi, w) =~= seq![row_of(s@, (bi, ei))] + rows_from(s@, ei, w));
            b = e;
            byte = eb;
        }
    }
}

impl App {
    /// Lays out the shown text in rows of `width` cells, for drawing and
    /// for mapping screen cells back to bytes; nothing else changes.
    pub fn build_screen_map(&mut self, width: u16)
        ensures
            row_views(final(self).screen_map@) == rows_spec(shown_text(old(self)), width as nat),
            *final(self) == (App { screen_map: final(self).screen_map, ..*old(self) }),
    {
        let rows = visual_rows(self.current_text(), width as usize);
        self.screen_map = rows;
    }
}

// ---------------------------------------------------------------- laws

proof fn lemma_rows_fit(s: Seq<char>, b: int, w: nat)
    requires
        0 <= b <= s.len(),
    ensures
        forall|i: int| 0 <= i < row_bounds(s, b, w).len() ==> {
            let p = #[trigger] row_bounds(s, b, w)[i];
            &&& b <= p.0 <= p.1 <= s.len()
            &&& (w > 0 ==> p.1 - p.0 <= w)
            &&& forall|k: int| p.0 <= k < p.1 ==> s[k] != '\n'
        },
    decreases s.len() - b,
{
    lemma_row_end(s, b, b, w);
    lemma_bounds_from(s, b, w);
    let e = row_end_from(s, b, b, w);
    if e < s.len() {
        let next = if s[e] == '\n' { e + 1 } else { e };
        lemma_rows_fit(s, next, w);
        let rest = row_bounds(s, next, w);
        assert forall|i: int| 0 <= i < row_bounds(s, b, w).len() implies {
            let p = #[trigger] row_bounds(s, b, w)[i];
            &&& b <= p.0 <= p.1 <= s.len()
            &&& (w > 0 ==> p.1 - p.0 <= w)
            &&& forall|k: int| p.0 <= k < p.1 ==> s[k] != '\n'
        } by {
            if i > 0 {
                assert(row_bounds(s, b, w)[i] == rest[i - 1]);
            }
        }
    }
}

/// No drawn row holds a line feed, and with a row width each row holds at
/// most that many characters.
pub proof fn law_rows_fit_width(s: Seq<char>, w: nat)
    ensures
        forall|i: int| 0 <= i < rows_spec(s, w).len() ==> {
            let r = #[trigger] rows_spec(s, w)[i];
            &&& (w > 0 ==> r.0.len() <= w)
            &&& !r.0.contains('\n')
        },
{
    lemma_rows_fit(s, 0, w);
    assert forall|i: int| 0 <= i < rows_spec(s, w).len() implies {
        let r = #[trigger] rows_spec(s, w)[i];
        &&& (w > 0 ==> r.0.len() <= w)
        &&& !r.0.contains('\n')
    } by {
        let p = row_bounds(s, 0, w)[i];
        let r = rows_spec(s, w)[i];
        assert(r == row_of(s, p));
        if r.0.contains('\n') {
            let j = choose|j: int| 0 <= j < r.0.len() && r.0[j] == '\n';
            assert(s[p.0 + j] == '\n');
        }
    }
}

/// The cell in column `c` of a drawn row shows the character of the text
/// at the byte the row's start and the column give: the byte offset of a
/// cell is the byte offset of its character in the whole text.
pub proof fn law_cell_is_text_byte(s: Seq<char>, w: nat, i: int, c: int)
    requires
        0 <= i < rows_spec(s, w).len(),
        0 <= c < rows_spec(s, w)[i].0.len(),
        utf8_len(s) <= usize::MAX,
    ensures
        ({
            let p = row_bounds(s, 0, w)[i];
            let r = rows_spec(s, w)[i];
            &&& r.0[c] == s[p.0 + c]
            &&& r.1 + byte_of(r.0, c) == byte_of(s, p.0 + c)
        }),
{
    lemma_rows_fit(s, 0, w);
    let p = row_bounds(s, 0, w)[i];
    let r = rows_spec(s, w)[i];
    assert(r == row_of(s, p));
    lemma_byte_mono(s, p.0, s.len() as int);
    assert(s.take(s.len() as int) =~= s);
    assert(r.1 == byte_of(s, p.0));
    assert(r.0.take(c) =~= s.subrange(p.0, p.0 + c));
    assert(s.take(p.0 + c) =~= s.take(p.0) + s.subrange(p.0, p.0 + c));
    lemma_utf8_len_concat(s.take(p.0), s.subrange(p.0, p.0 + c));
}

} // verus!
