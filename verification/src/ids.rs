//! arXiv identifiers (`YYMM.NNNNN` with an optional `vN` version) and file
//! names derived from paper titles.
use vstd::prelude::*;
use crate::text;
use crate::text::{str_chars, string_from_chars};

verus! {

/// Whether regex's `\d` matches `c`: a decimal digit of any script
/// (Unicode general category Nd).
pub uninterp spec fn is_unicode_decimal(c: char) -> bool;

/// `regex::Regex::is_match` with the pattern `\A\d\z` on `c` alone: whether
/// `c` is a Unicode decimal digit (category Nd), as regex's `\d` reads it.
/// Claimed: the result is what `is_unicode_decimal` names.
#[verifier::external_body]
fn unicode_decimal(c: char) -> (r: bool)
    ensures
        r == is_unicode_decimal(c),
{
    let mut buf = [0u8; 4];
    regex::Regex::new(r"\A\d\z").map(|re| re.is_match(c.encode_utf8(&mut buf))).unwrap_or(false)
}

/// A digit of an identifier, as `\d` reads it: `0` to `9` among ASCII
/// characters, any Unicode decimal digit beyond them.
pub open spec fn id_digit(c: char) -> bool {
    if (c as u32) < 0x80 {
        text::is_digit(c)
    } else {
        is_unicode_decimal(c)
    }
}

/// `n` digits start at `i`.
pub open spec fn digits_at(s: Seq<char>, i: int, n: int) -> bool {
    0 <= i && i + n <= s.len() && forall|k: int| i <= k < i + n ==> id_digit(#[trigger] s[k])
}

/// End of the run of digits starting at `i`.
pub open spec fn digit_run_end(s: Seq<char>, i: int) -> int
    decreases s.len() - i,
{
    if 0 <= i < s.len() && id_digit(s[i]) {
        digit_run_end(s, i + 1)
    } else {
        i
    }
}

/// Length of the identifier matched at `p`: four digits, a separator accepted
/// by `underscore_ok` ('.' always, '_' when allowed), four or five digits
/// (five when present), then `v` and all following digits when a digit
/// follows the `v`.
pub open spec fn id_len_at(s: Seq<char>, p: int, underscore_ok: bool) -> Option<int> {
    if !(digits_at(s, p, 4) && p + 4 < s.len() && (s[p + 4] == '.' || (underscore_ok && s[p + 4] == '_'))) {
        None
    } else {
        let q = p + 5;
        let r = if digits_at(s, q, 5) { q + 5 } else { q + 4 };
        if !digits_at(s, q, 4) {
            None
        } else if r + 1 < s.len() && s[r] == 'v' && id_digit(s[r + 1]) {
            Some(digit_run_end(s, r + 1) - p)
        } else {
            Some(r - p)
        }
    }
}

/// Leftmost position at or after `from` where an identifier matches.
pub open spec fn first_id(s: Seq<char>, from: int, underscore_ok: bool) -> Option<int>
    decreases s.len() + 1 - from,
{
    if from < 0 || from > s.len() {
        None
    } else if id_len_at(s, from, underscore_ok) is Some {
        Some(from)
    } else {
        first_id(s, from + 1, underscore_ok)
    }
}

/// The identifier text matched at `p`.
pub open spec fn id_text(s: Seq<char>, p: int, underscore_ok: bool) -> Seq<char> {
    s.subrange(p, p + id_len_at(s, p, underscore_ok)->0)
}

/// `s` with every `_` replaced by `.`.
pub open spec fn underscores_to_dots(s: Seq<char>) -> Seq<char> {
    s.map_values(|c: char| if c == '_' { '.' } else { c })
}

/// The first new-style arXiv identifier in `input` (`_` accepted as the
/// separator and normalised to `.`).
pub open spec fn extract_arxiv_id_spec(input: Seq<char>) -> Option<Seq<char>> {
    match first_id(input, 0, true) {
        Some(p) => Some(underscores_to_dots(id_text(input, p, true))),
        None => None,
    }
}

proof fn lemma_digit_run_end(s: Seq<char>, i: int)
    requires
        0 <= i <= s.len(),
    ensures
        i <= digit_run_end(s, i) <= s.len(),
        forall|k: int| i <= k < digit_run_end(s, i) ==> id_digit(#[trigger] s[k]),
    decreases s.len() - i,
{
    if i < s.len() && id_digit(s[i]) {
        lemma_digit_run_end(s, i + 1);
    }
}

/// An identifier found at `p` has at least nine characters and ends
/// within the text.
pub proof fn lemma_id_len(s: Seq<char>, p: int, underscore_ok: bool)
    requires
        0 <= p,
        id_len_at(s, p, underscore_ok) is Some,
    ensures
        9 <= id_len_at(s, p, underscore_ok)->0,
        p + id_len_at(s, p, underscore_ok)->0 <= s.len(),
{
    let q = p + 5;
    let r = if digits_at(s, q, 5) { q + 5 } else { q + 4 };
    if r + 1 < s.len() && s[r] == 'v' && id_digit(s[r + 1]) {
        lemma_digit_run_end(s, r + 1);
    }
}

/// What `first_id` finds: the first place at or after `from` where an
/// identifier starts, if any.
pub proof fn lemma_first_id(s: Seq<char>, from: int, underscore_ok: bool)
    requires
        0 <= from,
    ensures
        match first_id(s, from, underscore_ok) {
            Some(m) => from <= m <= s.len() && id_len_at(s, m, underscore_ok) is Some && forall|j: int|
                from <= j < m ==> #[trigger] id_len_at(s, j, underscore_ok) is None,
            None => forall|j: int| from <= j <= s.len() ==> #[trigger] id_len_at(s, j, underscore_ok) is None,
        },
    decreases s.len() + 1 - from,
{
    if from <= s.len() && id_len_at(s, from, underscore_ok) is None {
        lemma_first_id(s, from + 1, underscore_ok);
    }
}

fn is_id_digit(c: char) -> (b: bool)
    ensures
        b == id_digit(c),
{
    if (c as u32) < 0x80 {
        '0' <= c && c <= '9'
    } else {
        unicode_decimal(c)
    }
}

fn digits_at_exec(s: &[char], i: usize, n: usize) -> (b: bool)
    ensures
        b == digits_at(s@, i as int, n as int),
        s@.len() <= usize::MAX,
{
    if i > s.len() || n > s.len() - i {
        return false;
    }
    let end = i + n;
    let mut k = i;
    while k < end
        invariant
            i <= k <= end == i + n <= s@.len(),
            forall|m: int| i <= m < k ==> id_digit(#[trigger] s@[m]),
        decreases end - k,
    {
        if !is_id_digit(s[k]) {
            return false;
        }
        k += 1;
    }
    true
}

fn digit_run_end_exec(s: &[char], i: usize) -> (r: usize)
    requires
        i <= s@.len(),
    ensures
        r as int == digit_run_end(s@, i as int),
        i <= r <= s@.len(),
{
    let mut j = i;
    while j < s.len() && is_id_digit(s[j])
        invariant
            i <= j <= s@.len(),
            digit_run_end(s@, i as int) == digit_run_end(s@, j as int),
        decreases s@.len() - j,
    {
        j += 1;
    }
    j
}

/// Length of the identifier matched at `p`, if any.
pub fn id_len_at_exec(s: &[char], p: usize, underscore_ok: bool) -> (r: Option<usize>)
    ensures
        text::opt_int(r) == id_len_at(s@, p as int, underscore_ok),
{
    if !(digits_at_exec(s, p, 4) && p + 4 < s.len() && (s[p + 4] == '.' || (underscore_ok && s[p + 4] == '_'))) {
        return None;
    }
    let q = p + 5;
    if !digits_at_exec(s, q, 4) {
        return None;
    }
    let r = if digits_at_exec(s, q, 5) { q + 5 } else { q + 4 };
    if r < s.len() - 1 && s[r] == 'v' && is_id_digit(s[r + 1]) {
        Some(digit_run_end_exec(s, r + 1) - p)
    } else {
        Some(r - p)
    }
}

/// Leftmost identifier position in `s` at or after `from`.
pub fn first_id_exec(s: &[char], from: usize, underscore_ok: bool) -> (r: Option<usize>)
    ensures
        text::opt_int(r) == first_id(s@, from as int, underscore_ok),
{
    if from > s.len() {
        return None;
    }
    let mut i = from;
    while i < s.len()
        invariant
            from <= i <= s@.len(),
            first_id(s@, from as int, underscore_ok) == first_id(s@, i as int, underscore_ok),
        decreases s@.len() - i,
    {
        if id_len_at_exec(s, i, underscore_ok).is_some() {
            return Some(i);
        }
        i += 1;
    }
    if id_len_at_exec(s, i, underscore_ok).is_some() {
        return Some(i);
    }
    assert(first_id(s@, i + 1, underscore_ok) is None);
    None
}

/// Extracts the first new-style arXiv identifier (`YYMM.NNNN` or
/// `YYMM.NNNNN`, optionally `vN`) from a raw ID, URL or free text. `_` is
/// accepted as the separator and normalised to `.`.
pub fn extract_arxiv_id(input: &str) -> (res: Option<String>)
    ensures
        match extract_arxiv_id_spec(input@) {
            Some(id) => res matches Some(r) && r@ == id,
            None => res is None,
        },
{
    let s = str_chars(input);
    match first_id_exec(&s, 0, true) {
        None => None,
        Some(p) => {
            proof {
                lemma_first_id(s@, 0, true);
                lemma_id_len(s@, p as int, true);
            }
            let len = match id_len_at_exec(&s, p, true) {
                Some(l) => l,
                None => { assert(false); 0 },
            };
            let n = s.len();
            let stop = p + len;
            let mut out: Vec<char> = Vec::new();
            let mut i = p;
            while i < stop
                invariant
                    p <= i <= stop == p + len <= s@.len(),
                    out@ == underscores_to_dots(s@.subrange(p as int, i as int)),
                decreases stop - i,
            {
                let c = s[i];
                out.push(if c == '_' { '.' } else { c });
                assert(underscores_to_dots(s@.subrange(p as int, i + 1)) =~= underscores_to_dots(s@.subrange(p as int, i as int)).push(if c == '_' { '.' } else { c }));
                i += 1;
            }
            Some(string_from_chars(&out))
        },
    }
}

/// Characters that may not appear in a file name: `<>:"/\|?*` and ASCII
/// control characters.
pub open spec fn illegal_in_file_name(c: char) -> bool {
    c == '<' || c == '>' || c == ':' || c == '"' || c == '/' || c == '\\' || c == '|' || c == '?'
        || c == '*' || (c as u32) < 0x20 || (c as u32) == 0x7f
}

pub open spec fn replace_illegal(s: Seq<char>) -> Seq<char> {
    s.map_values(|c: char| if illegal_in_file_name(c) { '_' } else { c })
}

/// Characters that form separator runs: white space and `_`.
pub open spec fn separator_char(c: char) -> bool {
    text::is_ws(c) || c == '_'
}

/// `s.take(n)` with each maximal run of separator characters replaced by one `_`.
pub open spec fn collapse_separators(s: Seq<char>, n: int) -> Seq<char>
    decreases n,
{
    if n <= 0 {
        Seq::empty()
    } else if separator_char(s[n - 1]) {
        if n >= 2 && separator_char(s[n - 2]) {
            collapse_separators(s, n - 1)
        } else {
            collapse_separators(s, n - 1).push('_')
        }
    } else {
        collapse_separators(s, n - 1).push(s[n - 1])
    }
}

/// A file name derived from a title: illegal characters become `_`, runs of
/// white space and `_` become one `_`, `_ . -` and spaces are trimmed from
/// both ends, an empty result becomes `untitled`, and at most 80 characters
/// are kept.
pub open spec fn sanitize_spec(name: Seq<char>) -> Seq<char> {
    let m = replace_illegal(name);
    let t = text::trim_by(collapse_separators(m, m.len() as int), text::trim_pred(text::TrimClass::FileNameEdge));
    if t.len() == 0 {
        "untitled"@
    } else if t.len() > 80 {
        t.take(80)
    } else {
        t
    }
}

/// Turns a paper title into a safe file-name fragment.
pub fn sanitize_filename(name: &str) -> (res: String)
    ensures
        res@ == sanitize_spec(name@),
{
    let s = str_chars(name);
    let mut m: Vec<char> = Vec::new();
    let mut i: usize = 0;
    while i < s.len()
        invariant
            i <= s@.len(),
            m@ == replace_illegal(s@.take(i as int)),
        decreases s@.len() - i,
    {
        let c = s[i];
        let u = c as u32;
        let bad = c == '<' || c == '>' || c == ':' || c == '"' || c == '/' || c == '\\' || c == '|'
            || c == '?' || c == '*' || u < 0x20 || u == 0x7f;
        m.push(if bad { '_' } else { c });
        assert(replace_illegal(s@.take(i + 1)) =~= replace_illegal(s@.take(i as int)).push(if bad { '_' } else { c }));
        i += 1;
    }
    assert(s@.take(s@.len() as int) =~= s@);
    let mut col: Vec<char> = Vec::new();
    let mut j: usize = 0;
    while j < m.len()
        invariant
            j <= m@.len(),
            col@ == collapse_separators(m@, j as int),
        decreases m@.len() - j,
    {
        let c = m[j];
        let sep = text::is_whitespace(c) || c == '_';
        if sep {
            if j >= 1 && (text::is_whitespace(m[j - 1]) || m[j - 1] == '_') {
            } else {
                col.push('_');
            }
        } else {
            col.push(c);
        }
        j += 1;
    }
    let t = text::trim_chars_by(&col, text::TrimClass::FileNameEdge);
    if t.len() == 0 {
        return string_from_chars(&str_chars("untitled"));
    }
    if t.len() > 80 {
        let head = &t[0..80];
        assert(head@ =~= t@.take(80));
        return string_from_chars(head);
    }
    string_from_chars(&t)
}

} // verus!
