//! Editing text addressed by byte offsets, as `String`'s own methods do:
//! the character boundaries of a text, inserting and removing a character at
//! a byte cursor, and moving the cursor by characters and by lines.
use vstd::prelude::*;
use vstd::utf8::encode_utf8;
use crate::text;
use crate::text::{str_chars, string_from_chars, utf8_len, utf8_width};

verus! {

/// Byte offset of the character at index `k`.
pub open spec fn byte_of(s: Seq<char>, k: int) -> nat {
    utf8_len(s.take(k))
}

/// The next character starts its width in bytes further on.
pub proof fn lemma_byte_step(s: Seq<char>, k: int)
    requires
        0 <= k < s.len(),
    ensures
        byte_of(s, k + 1) == byte_of(s, k) + utf8_width(s[k]),
{
    assert(s.take(k + 1).drop_last() =~= s.take(k));
}

/// Byte offsets grow with the character index.
pub proof fn lemma_byte_mono(s: Seq<char>, j: int, k: int)
    requires
        0 <= j <= k <= s.len(),
    ensures
        byte_of(s, j) <= byte_of(s, k),
        j < k ==> byte_of(s, j) < byte_of(s, k),
    decreases k - j,
{
    if j < k {
        lemma_byte_step(s, k - 1);
        lemma_byte_mono(s, j, k - 1);
    }
}

proof fn lemma_utf8_len_cons(s: Seq<char>)
    requires
        s.len() > 0,
    ensures
        utf8_len(s) == utf8_width(s[0]) + utf8_len(s.drop_first()),
    decreases s.len(),
{
    if s.len() > 1 {
        lemma_utf8_len_cons(s.drop_last());
        assert(s.drop_last().drop_first() =~= s.drop_first().drop_last());
        assert(s.drop_last()[0] == s[0]);
        assert(s.drop_first().last() == s.last());
        assert(utf8_len(s) == utf8_len(s.drop_last()) + utf8_width(s.last()));
        assert(utf8_len(s.drop_first()) == utf8_len(s.drop_first().drop_last()) + utf8_width(s.drop_first().last()));
    } else {
        assert(s.drop_first().len() == 0);
        assert(s.drop_last().len() == 0);
        assert(s.last() == s[0]);
        assert(utf8_len(s.drop_first()) == 0);
        assert(utf8_len(s.drop_last()) == 0);
        assert(utf8_len(s) == utf8_len(s.drop_last()) + utf8_width(s.last()));
    }
}

proof fn lemma_encode_len(s: Seq<char>)
    ensures
        encode_utf8(s).len() == utf8_len(s),
    decreases s.len(),
{
    if s.len() > 0 {
        lemma_encode_len(s.drop_first());
        lemma_utf8_len_cons(s);
        vstd::utf8::char_is_scalar(s[0]);
        assert(encode_utf8(s) == vstd::utf8::encode_scalar(s[0] as u32) + encode_utf8(s.drop_first()));
        assert(vstd::utf8::encode_scalar(s[0] as u32).len() == utf8_width(s[0]));
    }
}

/// The byte length of a text (`str::len`).
pub fn byte_len(s: &str) -> (n: usize)
    ensures
        n == utf8_len(s@),
{
    let b = s.as_bytes();
    let n = b.len();
    proof {
        lemma_encode_len(s@);
    }
    n
}

/// The index of the character holding byte `b` (the number of whole
/// characters before it), scanning from character `k`.
pub open spec fn char_floor_from(s: Seq<char>, b: int, k: int) -> int
    decreases s.len() - k,
{
    if k < 0 || k >= s.len() {
        k
    } else if byte_of(s, k + 1) <= b {
        char_floor_from(s, b, k + 1)
    } else {
        k
    }
}

/// The number of whole characters within the first `b` bytes.
pub open spec fn char_floor(s: Seq<char>, b: int) -> int {
    char_floor_from(s, b, 0)
}

proof fn lemma_char_floor_from(s: Seq<char>, b: int, k: int)
    requires
        0 <= k <= s.len(),
        byte_of(s, k) <= b,
    ensures
        k <= char_floor_from(s, b, k) <= s.len(),
        byte_of(s, char_floor_from(s, b, k)) <= b,
        char_floor_from(s, b, k) < s.len() ==> byte_of(s, char_floor_from(s, b, k) + 1) > b,
    decreases s.len() - k,
{
    if k < s.len() && byte_of(s, k + 1) <= b {
        lemma_char_floor_from(s, b, k + 1);
    }
}

/// What `char_floor` is: the last character start at or before `b`.
pub proof fn lemma_char_floor(s: Seq<char>, b: int)
    requires
        0 <= b,
    ensures
        0 <= char_floor(s, b) <= s.len(),
        byte_of(s, char_floor(s, b)) <= b,
        char_floor(s, b) < s.len() ==> byte_of(s, char_floor(s, b) + 1) > b,
{
    assert(s.take(0) =~= Seq::<char>::empty());
    lemma_char_floor_from(s, b, 0);
}

/// More bytes hold at least as many whole characters.
pub proof fn lemma_char_floor_mono(s: Seq<char>, a: int, b: int)
    requires
        0 <= a <= b,
    ensures
        char_floor(s, a) <= char_floor(s, b),
{
    lemma_char_floor(s, a);
    lemma_char_floor(s, b);
    if char_floor(s, a) > char_floor(s, b) {
        lemma_byte_mono(s, char_floor(s, b) + 1, char_floor(s, a));
    }
}

/// The encoding of a concatenation is the two encodings end to end.
pub proof fn lemma_utf8_len_concat(a: Seq<char>, b: Seq<char>)
    ensures
        utf8_len(a + b) == utf8_len(a) + utf8_len(b),
    decreases b.len(),
{
    if b.len() == 0 {
        assert(a + b =~= a);
    } else {
        lemma_utf8_len_concat(a, b.drop_last());
        assert((a + b).drop_last() =~= a + b.drop_last());
        assert((a + b).last() == b.last());
    }
}

/// Cutting characters out never lengthens a text.
pub proof fn lemma_cut_len(t: Seq<char>, a: int, b: int)
    requires
        0 <= a <= b <= t.len(),
    ensures
        utf8_len(t.take(a) + t.skip(b)) <= utf8_len(t),
{
    lemma_utf8_len_concat(t.take(a), t.skip(b));
    lemma_utf8_len_concat(t.take(a) + t.subrange(a, b), t.skip(b));
    lemma_utf8_len_concat(t.take(a), t.subrange(a, b));
    assert(t.take(a) + t.subrange(a, b) + t.skip(b) =~= t);
}

/// `b` is the offset of a character start, or the end of the text.
pub open spec fn is_boundary(s: Seq<char>, b: int) -> bool {
    0 <= b && byte_of(s, char_floor(s, b)) == b
}

/// A character start is at exactly one index.
pub proof fn lemma_boundary_index(s: Seq<char>, k: int)
    requires
        0 <= k <= s.len(),
    ensures
        char_floor(s, byte_of(s, k) as int) == k,
        is_boundary(s, byte_of(s, k) as int),
{
    let b = byte_of(s, k) as int;
    lemma_char_floor(s, b);
    let f = char_floor(s, b);
    if f < k {
        lemma_byte_mono(s, f + 1, k);
    } else if f > k {
        lemma_byte_mono(s, k, f);
    }
}

/// The index of the character starting at byte `b` (or the end), with the
/// text given as characters.
pub fn char_index(s: &[char], b: usize) -> (k: usize)
    requires
        utf8_len(s@) <= usize::MAX,
    ensures
        k as int == char_floor(s@, b as int),
{
    let mut k: usize = 0;
    let mut acc: usize = 0;
    assert(s@.take(0) =~= Seq::<char>::empty());
    while k < s.len()
        invariant
            k <= s@.len(),
            acc == byte_of(s@, k as int),
            acc <= b,
            utf8_len(s@) <= usize::MAX,
            char_floor(s@, b as int) == char_floor_from(s@, b as int, k as int),
        decreases s@.len() - k,
    {
        let c = s[k];
        let u = c as u32;
        let w: usize = if u < 0x80 { 1 } else if u < 0x800 { 2 } else if u < 0x10000 { 3 } else { 4 };
        proof {
            lemma_byte_step(s@, k as int);
            lemma_byte_mono(s@, k + 1, s@.len() as int);
            assert(s@.take(s@.len() as int) =~= s@);
        }
        if acc + w > b {
            return k;
        }
        acc = acc + w;
        k += 1;
    }
    k
}

/// The largest character boundary at or before `idx` (capped at the end):
/// what the interface's `cb` helper computes.
pub open spec fn floor_boundary_spec(s: Seq<char>, idx: int) -> nat {
    let i = if idx < utf8_len(s) { idx } else { utf8_len(s) as int };
    byte_of(s, char_floor(s, i))
}

/// The largest character boundary at or before `idx`, capped at the end.
pub fn floor_boundary(t: &str, idx: usize) -> (r: usize)
    ensures
        r == floor_boundary_spec(t@, idx as int),
        is_boundary(t@, r as int),
        r <= utf8_len(t@),
        r <= idx,
{
    let n = byte_len(t);
    let s = str_chars(t);
    let i = if idx < n { idx } else { n };
    let k = char_index(&s, i);
    proof {
        lemma_char_floor(s@, i as int);
        lemma_byte_mono(s@, k as int, s@.len() as int);
        assert(s@.take(s@.len() as int) =~= s@);
        lemma_boundary_index(s@, k as int);
    }
    let mut acc: usize = 0;
    let mut j: usize = 0;
    assert(s@.take(0) =~= Seq::<char>::empty());
    while j < k
        invariant
            j <= k <= s@.len(),
            acc == byte_of(s@, j as int),
            byte_of(s@, k as int) <= utf8_len(s@),
            utf8_len(s@) <= usize::MAX,
        decreases k - j,
    {
        proof {
            lemma_byte_step(s@, j as int);
            lemma_byte_mono(s@, j + 1, k as int);
        }
        let u = s[j] as u32;
        let w: usize = if u < 0x80 { 1 } else if u < 0x800 { 2 } else if u < 0x10000 { 3 } else { 4 };
        acc = acc + w;
        j += 1;
    }
    acc
}

/// The boundary just past the character holding byte `idx`; the end when
/// `idx` is at or past it.
pub open spec fn next_boundary_spec(s: Seq<char>, idx: int) -> nat {
    if idx < utf8_len(s) {
        byte_of(s, char_floor(s, idx) + 1)
    } else {
        utf8_len(s)
    }
}

/// The boundary just past the character holding byte `idx` (the end when
/// there is none).
pub fn next_boundary(t: &str, idx: usize) -> (r: usize)
    ensures
        r == next_boundary_spec(t@, idx as int),
        is_boundary(t@, r as int),
        r <= utf8_len(t@),
{
    let n = byte_len(t);
    let s = str_chars(t);
    proof {
        assert(s@.take(s@.len() as int) =~= s@);
    }
    if idx >= n {
        proof {
            lemma_boundary_index(s@, s@.len() as int);
        }
        return n;
    }
    let k = char_index(&s, idx);
    let start = floor_boundary(t, idx);
    proof {
        lemma_char_floor(s@, idx as int);
        lemma_byte_step(s@, k as int);
        lemma_byte_mono(s@, k + 1, s@.len() as int);
        lemma_boundary_index(s@, k + 1);
    }
    let u = s[k] as u32;
    let w: usize = if u < 0x80 { 1 } else if u < 0x800 { 2 } else if u < 0x10000 { 3 } else { 4 };
    start + w
}

/// The text with `c` inserted before the character at index `k`.
pub open spec fn insert_spec(s: Seq<char>, k: int, c: char) -> Seq<char> {
    s.take(k) + seq![c] + s.skip(k)
}

/// `String::insert`: puts `c` at byte offset `at`, which must be a
/// character boundary (else `String::insert` panics).
pub fn insert_char_at(t: &String, at: usize, c: char) -> (r: String)
    requires
        is_boundary(t@, at as int),
        at <= utf8_len(t@),
    ensures
        r@ == insert_spec(t@, char_floor(t@, at as int), c),
{
    let n = byte_len(t.as_str());
    let s = str_chars(t.as_str());
    let k = char_index(&s, at);
    proof {
        lemma_char_floor(s@, at as int);
    }
    let mut v: Vec<char> = Vec::new();
    let mut i: usize = 0;
    while i < k
        invariant
            i <= k <= s@.len(),
            v@ == s@.take(i as int),
        decreases k - i,
    {
        v.push(s[i]);
        assert(s@.take(i + 1) =~= s@.take(i as int).push(s@[i as int]));
        i += 1;
    }
    v.push(c);
    let mut j = k;
    let ghost v0 = v@;
    while j < s.len()
        invariant
            k <= j <= s@.len(),
            v@ == v0 + s@.subrange(k as int, j as int),
        decreases s@.len() - j,
    {
        v.push(s[j]);
        assert(v0 + s@.subrange(k as int, j + 1) =~= (v0 + s@.subrange(k as int, j as int)).push(s@[j as int]));
        j += 1;
    }
    assert(v@ =~= insert_spec(s@, k as int, c));
    string_from_chars(&v)
}

/// The text without the character at index `k`.
pub open spec fn remove_spec(s: Seq<char>, k: int) -> Seq<char> {
    s.take(k) + s.skip(k + 1)
}

/// `String::remove`: drops the character starting at byte offset `at`,
/// which must be a character boundary before the end (else `String::remove`
/// panics).
pub fn remove_char_at(t: &String, at: usize) -> (r: String)
    requires
        is_boundary(t@, at as int),
        at < utf8_len(t@),
    ensures
        char_floor(t@, at as int) < t@.len(),
        r@ == remove_spec(t@, char_floor(t@, at as int)),
{
    let n = byte_len(t.as_str());
    let s = str_chars(t.as_str());
    let k = char_index(&s, at);
    proof {
        lemma_char_floor(s@, at as int);
        if k as int == s@.len() {
            assert(s@.take(s@.len() as int) =~= s@);
        }
    }
    let mut v: Vec<char> = Vec::new();
    let mut i: usize = 0;
    while i < s.len()
        invariant
            i <= s@.len(),
            k < s@.len(),
            v@ == (if i <= k { s@.take(i as int) } else { s@.take(k as int) + s@.subrange(k + 1, i as int) }),
        decreases s@.len() - i,
    {
        if i != k {
            v.push(s[i]);
        }
        proof {
            if i < k {
                assert(s@.take(i + 1) =~= s@.take(i as int).push(s@[i as int]));
            } else if i == k {
                assert(s@.subrange(k + 1, i + 1) =~= Seq::<char>::empty());
                assert(s@.take(k as int) + s@.subrange(k + 1, i + 1) =~= s@.take(k as int));
            } else {
                assert(s@.take(k as int) + s@.subrange(k + 1, i + 1) =~= (s@.take(k as int) + s@.subrange(k + 1, i as int)).push(s@[i as int]));
            }
        }
        i += 1;
    }
    assert(v@ =~= remove_spec(s@, k as int));
    string_from_chars(&v)
}

/// The text with the bytes from `lo` to `hi` cut out (`String::replace_range`
/// with an empty replacement); both ends are character boundaries.
pub fn cut_range(t: &String, lo: usize, hi: usize) -> (r: String)
    requires
        is_boundary(t@, lo as int),
        is_boundary(t@, hi as int),
        lo <= hi,
        hi <= utf8_len(t@),
    ensures
        r@ == t@.take(char_floor(t@, lo as int)) + t@.skip(char_floor(t@, hi as int)),
{
    let n = byte_len(t.as_str());
    let s = str_chars(t.as_str());
    let a = char_index(&s, lo);
    let b = char_index(&s, hi);
    proof {
        lemma_char_floor(s@, lo as int);
        lemma_char_floor(s@, hi as int);
    }
    let mut v: Vec<char> = Vec::new();
    let mut i: usize = 0;
    while i < a
        invariant
            i <= a <= s@.len(),
            v@ == s@.take(i as int),
        decreases a - i,
    {
        v.push(s[i]);
        assert(s@.take(i + 1) =~= s@.take(i as int).push(s@[i as int]));
        i += 1;
    }
    let mut j = b;
    let ghost v0 = v@;
    while j < s.len()
        invariant
            b <= j <= s@.len(),
            v@ == v0 + s@.subrange(b as int, j as int),
        decreases s@.len() - j,
    {
        v.push(s[j]);
        assert(v0 + s@.subrange(b as int, j + 1) =~= (v0 + s@.subrange(b as int, j as int)).push(s@[j as int]));
        j += 1;
    }
    assert(v@ =~= s@.take(a as int) + s@.skip(b as int));
    string_from_chars(&v)
}

/// `String::insert_str`: puts `w` at byte offset `at`, a character boundary.
pub fn insert_str_at(t: &String, at: usize, w: &str) -> (r: String)
    requires
        is_boundary(t@, at as int),
        at <= utf8_len(t@),
    ensures
        r@ == t@.take(char_floor(t@, at as int)) + w@ + t@.skip(char_floor(t@, at as int)),
{
    let n = byte_len(t.as_str());
    let s = str_chars(t.as_str());
    let x = str_chars(w);
    let k = char_index(&s, at);
    proof {
        lemma_char_floor(s@, at as int);
    }
    let mut v: Vec<char> = Vec::new();
    let mut i: usize = 0;
    while i < k
        invariant
            i <= k <= s@.len(),
            v@ == s@.take(i as int),
        decreases k - i,
    {
        v.push(s[i]);
        assert(s@.take(i + 1) =~= s@.take(i as int).push(s@[i as int]));
        i += 1;
    }
    let mut m: usize = 0;
    let ghost v1 = v@;
    while m < x.len()
        invariant
            m <= x@.len(),
            v@ == v1 + x@.take(m as int),
        decreases x@.len() - m,
    {
        v.push(x[m]);
        assert(v1 + x@.take(m + 1) =~= (v1 + x@.take(m as int)).push(x@[m as int]));
        m += 1;
    }
    assert(x@.take(x@.len() as int) =~= x@);
    let mut j = k;
    let ghost v0 = v@;
    while j < s.len()
        invariant
            k <= j <= s@.len(),
            v@ == v0 + s@.subrange(k as int, j as int),
        decreases s@.len() - j,
    {
        v.push(s[j]);
        assert(v0 + s@.subrange(k as int, j + 1) =~= (v0 + s@.subrange(k as int, j as int)).push(s@[j as int]));
        j += 1;
    }
    assert(v@ =~= s@.take(k as int) + x@ + s@.skip(k as int));
    string_from_chars(&v)
}

/// The byte offset of character `k` of `t`.
pub fn char_offset(t: &str, k: usize) -> (r: usize)
    requires
        k <= t@.len(),
    ensures
        r == byte_of(t@, k as int),
{
    let n = byte_len(t);
    let s = str_chars(t);
    byte_of_exec(&s, k)
}

/// The last line feed before character index `k`.
pub open spec fn last_nl_before(s: Seq<char>, k: int) -> Option<int>
    decreases k,
{
    if k <= 0 {
        None
    } else if s[k - 1] == '\n' {
        Some(k - 1)
    } else {
        last_nl_before(s, k - 1)
    }
}

/// The first line feed at or after character index `k`.
pub open spec fn first_nl_from(s: Seq<char>, k: int) -> Option<int>
    decreases s.len() - k,
{
    if k < 0 || k >= s.len() {
        None
    } else if s[k] == '\n' {
        Some(k)
    } else {
        first_nl_from(s, k + 1)
    }
}

proof fn lemma_last_nl_before(s: Seq<char>, k: int)
    requires
        0 <= k <= s.len(),
    ensures
        match last_nl_before(s, k) {
            Some(j) => 0 <= j < k && s[j] == '\n',
            None => true,
        },
    decreases k,
{
    if k > 0 && s[k - 1] != '\n' {
        lemma_last_nl_before(s, k - 1);
    }
}

proof fn lemma_first_nl_from(s: Seq<char>, k: int)
    requires
        0 <= k,
    ensures
        match first_nl_from(s, k) {
            Some(j) => k <= j < s.len() && s[j] == '\n',
            None => true,
        },
    decreases s.len() - k,
{
    if k < s.len() && s[k] != '\n' {
        lemma_first_nl_from(s, k + 1);
    }
}

fn last_nl_before_exec(s: &[char], k: usize) -> (r: Option<usize>)
    requires
        k <= s@.len(),
    ensures
        match r {
            Some(j) => last_nl_before(s@, k as int) == Some(j as int),
            None => last_nl_before(s@, k as int) is None,
        },
{
    let mut i = k;
    while i > 0
        invariant
            i <= k <= s@.len(),
            last_nl_before(s@, k as int) == last_nl_before(s@, i as int),
        decreases i,
    {
        if s[i - 1] == '\n' {
            return Some(i - 1);
        }
        i -= 1;
    }
    None
}

fn first_nl_from_exec(s: &[char], k: usize) -> (r: Option<usize>)
    ensures
        match r {
            Some(j) => first_nl_from(s@, k as int) == Some(j as int),
            None => first_nl_from(s@, k as int) is None,
        },
{
    let mut i = k;
    while i < s.len()
        invariant
            k <= i,
            first_nl_from(s@, k as int) == first_nl_from(s@, i as int),
        decreases s@.len() - i,
    {
        if s[i] == '\n' {
            return Some(i);
        }
        i += 1;
    }
    None
}

/// Byte offset of the character at index `k`, computed.
fn byte_of_exec(s: &[char], k: usize) -> (r: usize)
    requires
        k <= s@.len(),
        utf8_len(s@) <= usize::MAX,
    ensures
        r == byte_of(s@, k as int),
{
    let mut acc: usize = 0;
    let mut j: usize = 0;
    assert(s@.take(0) =~= Seq::<char>::empty());
    proof {
        lemma_byte_mono(s@, k as int, s@.len() as int);
        assert(s@.take(s@.len() as int) =~= s@);
    }
    while j < k
        invariant
            j <= k <= s@.len(),
            acc == byte_of(s@, j as int),
            byte_of(s@, k as int) <= usize::MAX,
        decreases k - j,
    {
        proof {
            lemma_byte_step(s@, j as int);
            lemma_byte_mono(s@, j + 1, k as int);
        }
        let u = s[j] as u32;
        let w: usize = if u < 0x80 { 1 } else if u < 0x800 { 2 } else if u < 0x10000 { 3 } else { 4 };
        acc = acc + w;
        j += 1;
    }
    acc
}

/// The start of the line holding character `k`, in bytes.
pub open spec fn line_start_spec(s: Seq<char>, k: int) -> nat {
    match last_nl_before(s, k) {
        Some(j) => byte_of(s, j + 1),
        None => 0,
    }
}

/// The end of the line holding character `k` (its line feed, or the end of
/// the text), in bytes.
pub open spec fn line_end_spec(s: Seq<char>, k: int) -> nat {
    match first_nl_from(s, k) {
        Some(j) => byte_of(s, j),
        None => utf8_len(s),
    }
}

/// What the arrow and Home/End keys do to a cursor at a character boundary.
pub enum CursorMove {
    Left,
    Right,
    Up,
    Down,
    Home,
    End,
}

/// The cursor after Up: the same byte column on the previous line, kept
/// before that line's end; unchanged on the first line.
pub open spec fn up_spec(s: Seq<char>, c: int, k: int) -> int {
    let ls = line_start_spec(s, k) as int;
    if ls > 0 {
        let lk = char_floor(s, ls);
        let ps = line_start_spec(s, lk - 1) as int;
        let col = c - ls;
        if ps + col < ls - 1 { ps + col } else { ls - 1 }
    } else {
        c
    }
}

/// The cursor after Down: the same byte column on the next line, kept
/// before that line's end; unchanged on the last line.
pub open spec fn down_spec(s: Seq<char>, c: int, k: int) -> int {
    let len = utf8_len(s) as int;
    let le: int = match first_nl_from(s, k) {
        Some(j) => byte_of(s, j) as int + 1,
        None => len,
    };
    if le < len {
        let j = first_nl_from(s, k)->0;
        let ne: int = match first_nl_from(s, j + 1) {
            Some(j2) => byte_of(s, j2) as int + 1,
            None => len,
        };
        let col = c - line_start_spec(s, k) as int;
        if le + col < ne - 1 { le + col } else { ne - 1 }
    } else {
        c
    }
}

/// The cursor after a move, from byte offset `c` at character `k`
/// (`c == byte_of(s, k)`).
pub open spec fn move_spec(s: Seq<char>, c: int, k: int, m: CursorMove) -> int {
    let len = utf8_len(s) as int;
    match m {
        CursorMove::Left => if c > 0 { floor_boundary_spec(s, c - 1) as int } else { c },
        CursorMove::Right => if k < s.len() { c + utf8_width(s[k]) } else { len },
        CursorMove::Home => line_start_spec(s, k) as int,
        CursorMove::End => line_end_spec(s, k) as int,
        CursorMove::Up => up_spec(s, c, k),
        CursorMove::Down => down_spec(s, c, k),
    }
}

fn cursor_up(s: &Vec<char>, c: usize, k: usize, n: usize) -> (r: usize)
    requires
        k <= s@.len(),
        c == byte_of(s@, k as int),
        n == utf8_len(s@),
        n <= isize::MAX,
    ensures
        r == up_spec(s@, c as int, k as int),
{
    proof {
        lemma_last_nl_before(s@, k as int);
        lemma_byte_mono(s@, k as int, s@.len() as int);
        assert(s@.take(s@.len() as int) =~= s@);
    }
    let ls = match last_nl_before_exec(s, k) {
        Some(j) => byte_of_exec(s, j + 1),
        None => 0,
    };
    if ls > 0 {
        let j = match last_nl_before_exec(s, k) {
            Some(j) => j,
            None => 0,
        };
        proof {
            lemma_boundary_index(s@, j + 1);
            lemma_byte_mono(s@, j + 1, k as int);
            lemma_last_nl_before(s@, j as int);
        }
        let lk = j + 1;
        let ps = match last_nl_before_exec(s, lk - 1) {
            Some(j2) => {
                proof {
                    lemma_byte_mono(s@, j2 + 1, lk as int);
                }
                byte_of_exec(s, j2 + 1)
            },
            None => 0,
        };
        let col = c - ls;
        if ps + col < ls - 1 {
            ps + col
        } else {
            ls - 1
        }
    } else {
        c
    }
}

fn cursor_down(s: &Vec<char>, c: usize, k: usize, n: usize) -> (r: usize)
    requires
        k <= s@.len(),
        c == byte_of(s@, k as int),
        n == utf8_len(s@),
        n <= isize::MAX,
    ensures
        r == down_spec(s@, c as int, k as int),
{
    proof {
        lemma_first_nl_from(s@, k as int);
        lemma_last_nl_before(s@, k as int);
        lemma_byte_mono(s@, k as int, s@.len() as int);
        assert(s@.take(s@.len() as int) =~= s@);
    }
    match first_nl_from_exec(s, k) {
        None => c,
        Some(j) => {
            let len = s.len();
            proof {
                lemma_byte_step(s@, j as int);
                lemma_byte_mono(s@, j + 1, s@.len() as int);
                lemma_first_nl_from(s@, j + 1);
            }
            let le = byte_of_exec(s, j) + 1;
            if le < n {
                let ne = match first_nl_from_exec(s, j + 1) {
                    Some(j2) => {
                        proof {
                            lemma_byte_step(s@, j2 as int);
                            lemma_byte_mono(s@, j2 + 1, s@.len() as int);
                        }
                        byte_of_exec(s, j2) + 1
                    },
                    None => n,
                };
                let ls = match last_nl_before_exec(s, k) {
                    Some(j3) => {
                        proof {
                            lemma_byte_mono(s@, j3 + 1, k as int);
                        }
                        byte_of_exec(s, j3 + 1)
                    },
                    None => 0,
                };
                let col = c - ls;
                if le + col < ne - 1 {
                    le + col
                } else {
                    ne - 1
                }
            } else {
                c
            }
        },
    }
}

/// Moves a cursor standing on a character boundary of `t`, as the preview
/// does with the arrow, Home and End keys.
pub fn move_cursor(t: &str, c: usize, m: CursorMove) -> (r: usize)
    requires
        is_boundary(t@, c as int),
        c <= utf8_len(t@),
        utf8_len(t@) <= isize::MAX,
    ensures
        r == move_spec(t@, c as int, char_floor(t@, c as int), m),
{
    let n = byte_len(t);
    let s = str_chars(t);
    let k = char_index(&s, c);
    proof {
        lemma_char_floor(s@, c as int);
        lemma_byte_mono(s@, k as int, s@.len() as int);
        assert(s@.take(s@.len() as int) =~= s@);
    }
    match m {
        CursorMove::Left => {
            if c > 0 {
                floor_boundary(t, c - 1)
            } else {
                c
            }
        },
        CursorMove::Right => {
            if k < s.len() {
                proof {
                    lemma_byte_step(s@, k as int);
                    lemma_byte_mono(s@, k + 1, s@.len() as int);
                }
                let u = s[k] as u32;
                let w: usize = if u < 0x80 { 1 } else if u < 0x800 { 2 } else if u < 0x10000 { 3 } else { 4 };
                c + w
            } else {
                n
            }
        },
        CursorMove::Home => {
            proof {
                lemma_last_nl_before(s@, k as int);
            }
            match last_nl_before_exec(&s, k) {
                Some(j) => byte_of_exec(&s, j + 1),
                None => 0,
            }
        },
        CursorMove::End => {
            proof {
                lemma_first_nl_from(s@, k as int);
            }
            match first_nl_from_exec(&s, k) {
                Some(j) => byte_of_exec(&s, j),
                None => n,
            }
        },
        CursorMove::Up => cursor_up(&s, c, k, n),
        CursorMove::Down => cursor_down(&s, c, k, n),
    }
}

} // verus!
