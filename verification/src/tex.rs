//! LaTeX source processing: comment stripping, table extraction, and the
//! split of a paper into body and appendix.
use vstd::prelude::*;
use crate::text;
use crate::text::{str_chars, string_from_chars};

verus! {

// ---------------------------------------------------------------- comments

/// A `%` at `j` that starts a comment: not escaped by a backslash right before it.
pub open spec fn comment_start(s: Seq<char>, j: int) -> bool {
    0 <= j < s.len() && s[j] == '%' && (j == 0 || s[j - 1] != '\\')
}

/// Position `i` lies inside a comment opened earlier on the same line.
pub open spec fn in_comment(s: Seq<char>, i: int) -> bool {
    exists|j: int|
        0 <= j < i && #[trigger] comment_start(s, j) && forall|k: int| j < k < i ==> s[k] != '\n'
}

/// Whether the character at `i` survives comment stripping: newlines always
/// do; any other character only outside a comment.
pub open spec fn kept(s: Seq<char>, i: int) -> bool {
    s[i] == '\n' || (!in_comment(s, i) && !comment_start(s, i))
}

/// The kept characters of `s.take(n)`, in order.
pub open spec fn kept_prefix(s: Seq<char>, n: int) -> Seq<char>
    decreases n,
{
    if n <= 0 {
        Seq::empty()
    } else if kept(s, n - 1) {
        kept_prefix(s, n - 1).push(s[n - 1])
    } else {
        kept_prefix(s, n - 1)
    }
}

/// `s` with every comment (from an unescaped `%` up to, not including, the end
/// of its line) removed.
pub open spec fn strip_comments_spec(s: Seq<char>) -> Seq<char> {
    kept_prefix(s, s.len() as int)
}

proof fn lemma_in_comment_step(s: Seq<char>, i: int)
    requires
        0 <= i < s.len(),
    ensures
        in_comment(s, i + 1) == (s[i] != '\n' && (in_comment(s, i) || comment_start(s, i))),
{
    if in_comment(s, i + 1) {
        let j = choose|j: int|
            0 <= j < i + 1 && #[trigger] comment_start(s, j) && forall|k: int| j < k < i + 1 ==> s[k] != '\n';
        if j < i {
            assert(s[i] != '\n');
            assert(in_comment(s, i));
        } else {
            assert(comment_start(s, i));
        }
        assert(s[i] != '\n') by {
            if j < i {
            } else {
                assert(s[i] == '%');
            }
        }
    }
    if s[i] != '\n' && in_comment(s, i) {
        let j = choose|j: int|
            0 <= j < i && #[trigger] comment_start(s, j) && forall|k: int| j < k < i ==> s[k] != '\n';
        assert(forall|k: int| j < k < i + 1 ==> s[k] != '\n');
    }
    if s[i] != '\n' && comment_start(s, i) {
        assert(forall|k: int| i < k < i + 1 ==> s[k] != '\n');
    }
}

/// Removes LaTeX comments: from an unescaped `%` to the end of its line (the
/// newline itself is kept; `\%` is kept as text).
pub fn strip_latex_comments(tex_content: &str) -> (res: String)
    ensures
        res@ == strip_comments_spec(tex_content@),
{
    let s = str_chars(tex_content);
    let mut out: Vec<char> = Vec::new();
    let mut skip_to_eol = false;
    let mut i: usize = 0;
    while i < s.len()
        invariant
            i <= s.len(),
            skip_to_eol == in_comment(s@, i as int),
            out@ == kept_prefix(s@, i as int),
        decreases s.len() - i,
    {
        let ch = s[i];
        proof {
            lemma_in_comment_step(s@, i as int);
        }
        if skip_to_eol {
            if ch == '\n' {
                skip_to_eol = false;
                out.push('\n');
            }
        } else if ch == '%' {
            if i > 0 && s[i - 1] == '\\' {
                out.push('%');
            } else {
                skip_to_eol = true;
            }
        } else {
            out.push(ch);
        }
        i += 1;
    }
    string_from_chars(&out)
}

/// Without any comment start, every character is kept.
proof fn lemma_no_comment_kept_prefix(t: Seq<char>, n: int)
    requires
        0 <= n <= t.len(),
        forall|j: int| !comment_start(t, j),
    ensures
        !in_comment(t, n),
        kept_prefix(t, n) == t.take(n),
    decreases n,
{
    if n > 0 {
        lemma_no_comment_kept_prefix(t, n - 1);
        lemma_in_comment_step(t, n - 1);
        assert(t.take(n) =~= t.take(n - 1).push(t[n - 1]));
    }
}

/// What comment stripping keeps holds no comment start: every `%` kept was
/// escaped, and its backslash was kept right before it.
proof fn lemma_kept_prefix_no_comment(s: Seq<char>, n: int)
    requires
        0 <= n <= s.len(),
    ensures
        forall|j: int| !comment_start(kept_prefix(s, n), j),
    decreases n,
{
    if n > 0 {
        lemma_kept_prefix_no_comment(s, n - 1);
        let o = kept_prefix(s, n - 1);
        if kept(s, n - 1) {
            let c = s[n - 1];
            let w = o.push(c);
            assert forall|j: int| !comment_start(w, j) by {
                if 0 <= j < o.len() {
                    assert(w[j] == o[j]);
                    if j > 0 {
                        assert(w[j - 1] == o[j - 1]);
                    }
                    assert(!comment_start(o, j));
                } else if j == o.len() && c == '%' {
                    assert(!comment_start(s, n - 1));
                    assert(n - 1 > 0 && s[n - 2] == '\\');
                    lemma_in_comment_step(s, n - 2);
                    assert(kept(s, n - 2));
                    assert(o == kept_prefix(s, n - 2).push(s[n - 2]));
                    assert(w[j - 1] == '\\');
                }
            }
        }
    }
}

/// Stripping comments twice is stripping them once: what is left holds no
/// comment.
pub proof fn law_strip_comments_idempotent(s: Seq<char>)
    ensures
        strip_comments_spec(strip_comments_spec(s)) == strip_comments_spec(s),
{
    let t = strip_comments_spec(s);
    lemma_kept_prefix_no_comment(s, s.len() as int);
    lemma_no_comment_kept_prefix(t, t.len() as int);
    assert(t.take(t.len() as int) =~= t);
}

/// A text without `%` is left as it is.
pub proof fn law_strip_comments_no_percent(s: Seq<char>)
    requires
        !s.contains('%'),
    ensures
        strip_comments_spec(s) == s,
{
    assert forall|j: int| !comment_start(s, j) by {
        if 0 <= j < s.len() && s[j] == '%' {
            assert(s.contains('%'));
        }
    }
    lemma_no_comment_kept_prefix(s, s.len() as int);
    assert(s.take(s.len() as int) =~= s);
}

/// Up to the end of the first line, a text and that line strip alike.
proof fn lemma_strip_first_line(a: Seq<char>, b: Seq<char>, n: int)
    requires
        0 <= n <= a.len(),
    ensures
        in_comment(a + seq!['\n'] + b, n) == in_comment(a, n),
        kept_prefix(a + seq!['\n'] + b, n) == kept_prefix(a, n),
    decreases n,
{
    let t = a + seq!['\n'] + b;
    if n > 0 {
        lemma_strip_first_line(a, b, n - 1);
        lemma_in_comment_step(t, n - 1);
        lemma_in_comment_step(a, n - 1);
        assert(t[n - 1] == a[n - 1]);
        if n - 1 > 0 {
            assert(t[n - 2] == a[n - 2]);
        }
        assert(comment_start(t, n - 1) == comment_start(a, n - 1));
        assert(kept(t, n - 1) == kept(a, n - 1));
    }
}

/// After the first line feed, a text strips as the rest of it does.
proof fn lemma_strip_rest(a: Seq<char>, b: Seq<char>, k: int)
    requires
        0 <= k <= b.len(),
    ensures
        in_comment(a + seq!['\n'] + b, a.len() + 1 + k) == in_comment(b, k),
        kept_prefix(a + seq!['\n'] + b, a.len() + 1 + k)
            == kept_prefix(a, a.len() as int).push('\n') + kept_prefix(b, k),
    decreases k,
{
    let t = a + seq!['\n'] + b;
    let l = a.len() as int;
    if k == 0 {
        lemma_strip_first_line(a, b, l);
        lemma_in_comment_step(t, l);
        assert(t[l] == '\n');
        assert(kept(t, l));
        assert(kept_prefix(b, 0) =~= Seq::<char>::empty());
        assert(kept_prefix(a, l).push('\n') + kept_prefix(b, 0) =~= kept_prefix(a, l).push('\n'));
    } else {
        lemma_strip_rest(a, b, k - 1);
        let i = l + k;
        lemma_in_comment_step(t, i);
        lemma_in_comment_step(b, k - 1);
        assert(t[i] == b[k - 1]);
        if k - 1 > 0 {
            assert(t[i - 1] == b[k - 2]);
        } else {
            assert(t[i - 1] == '\n');
        }
        assert(comment_start(t, i) == comment_start(b, k - 1));
        assert(kept(t, i) == kept(b, k - 1));
        let p = kept_prefix(a, l).push('\n');
        if kept(b, k - 1) {
            assert((p + kept_prefix(b, k - 1)).push(b[k - 1]) =~= p + kept_prefix(b, k - 1).push(b[k - 1]));
        }
    }
}

/// Comments are stripped line by line: the text before a line feed and the
/// text after it strip on their own, and the line feed stays.
pub proof fn law_strip_comments_by_line(a: Seq<char>, b: Seq<char>)
    ensures
        strip_comments_spec(a + seq!['\n'] + b)
            == strip_comments_spec(a) + seq!['\n'] + strip_comments_spec(b),
{
    lemma_strip_rest(a, b, b.len() as int);
    let t = a + seq!['\n'] + b;
    assert(t.len() == a.len() + 1 + b.len());
    assert(strip_comments_spec(a).push('\n') =~= strip_comments_spec(a) + seq!['\n']);
}

/// The first comment start at or after `i`, or the length of `s` when there
/// is none.
pub open spec fn first_comment_from(s: Seq<char>, i: int) -> int
    decreases s.len() - i,
{
    if i < 0 || i >= s.len() {
        s.len() as int
    } else if comment_start(s, i) {
        i
    } else {
        first_comment_from(s, i + 1)
    }
}

proof fn lemma_first_comment_from(s: Seq<char>, i: int)
    requires
        0 <= i <= s.len(),
    ensures
        i <= first_comment_from(s, i) <= s.len(),
        forall|j: int| i <= j < first_comment_from(s, i) ==> !comment_start(s, j),
        first_comment_from(s, i) < s.len() ==> comment_start(s, first_comment_from(s, i)),
    decreases s.len() - i,
{
    if i < s.len() && !comment_start(s, i) {
        lemma_first_comment_from(s, i + 1);
    }
}

proof fn lemma_strip_line_prefix(s: Seq<char>, n: int)
    requires
        0 <= n <= s.len(),
        !s.contains('\n'),
    ensures
        in_comment(s, n) == (first_comment_from(s, 0) < n),
        kept_prefix(s, n) == s.take(if n <= first_comment_from(s, 0) { n } else { first_comment_from(s, 0) }),
    decreases n,
{
    lemma_first_comment_from(s, 0);
    if n > 0 {
        lemma_strip_line_prefix(s, n - 1);
        lemma_in_comment_step(s, n - 1);
        if s[n - 1] == '\n' {
            assert(s.contains('\n'));
        }
        let c = first_comment_from(s, 0);
        if n - 1 < c {
            assert(!comment_start(s, n - 1));
            assert(s.take(n) =~= s.take(n - 1).push(s[n - 1]));
        } else if n - 1 == c {
            assert(comment_start(s, n - 1));
        }
    }
}

/// A line (no line feed) loses its comment: it is cut just before its first
/// `%` that no backslash escapes, and kept whole when there is none.
pub proof fn law_strip_comments_line(s: Seq<char>)
    requires
        !s.contains('\n'),
    ensures
        strip_comments_spec(s) == s.take(first_comment_from(s, 0)),
{
    lemma_strip_line_prefix(s, s.len() as int);
    lemma_first_comment_from(s, 0);
}

/// The first line feed at or after `i`, or the length of `s` when there is
/// none.
pub open spec fn line_end(s: Seq<char>, i: int) -> int
    decreases s.len() - i,
{
    if i < 0 || i >= s.len() {
        s.len() as int
    } else if s[i] == '\n' {
        i
    } else {
        line_end(s, i + 1)
    }
}

proof fn lemma_line_end(s: Seq<char>, i: int)
    requires
        0 <= i <= s.len(),
    ensures
        i <= line_end(s, i) <= s.len(),
        forall|k: int| i <= k < line_end(s, i) ==> s[k] != '\n',
        line_end(s, i) < s.len() ==> s[line_end(s, i)] == '\n',
    decreases s.len() - i,
{
    if i < s.len() && s[i] != '\n' {
        lemma_line_end(s, i + 1);
    }
}

/// The lines of `s`: the pieces between its line feeds, as
/// `str::split('\n')` gives them (one more than there are line feeds).
pub open spec fn split_lines(s: Seq<char>) -> Seq<Seq<char>>
    decreases s.len(),
{
    let e = line_end(s, 0);
    if e < 0 || e >= s.len() {
        seq![s]
    } else {
        seq![s.take(e)] + split_lines(s.skip(e + 1))
    }
}

/// The first line of `a + "\n" + b`, with `a` free of line feeds, is `a`.
proof fn lemma_split_first_line(a: Seq<char>, b: Seq<char>)
    requires
        !a.contains('\n'),
    ensures
        split_lines(a + seq!['\n'] + b) == seq![a] + split_lines(b),
{
    let t = a + seq!['\n'] + b;
    lemma_line_end(t, 0);
    let e = line_end(t, 0);
    assert(t[a.len() as int] == '\n');
    if e < a.len() {
        assert(t[e] == a[e]);
        assert(a.contains('\n'));
    }
    assert(e == a.len());
    assert(t.take(e) =~= a);
    assert(t.skip(e + 1) =~= b);
}

/// A text without line feeds is one line.
proof fn lemma_split_one_line(a: Seq<char>)
    requires
        !a.contains('\n'),
    ensures
        split_lines(a) == seq![a],
{
    lemma_line_end(a, 0);
    let e = line_end(a, 0);
    if e < a.len() {
        assert(a.contains('\n'));
    }
}

/// The line of `s` with its comment cut off.
pub open spec fn cut_comment(line: Seq<char>) -> Seq<char> {
    line.take(first_comment_from(line, 0))
}

/// Comments are stripped line by line: the result has as many lines as the
/// text, and each of its lines is the text's line cut just before its first
/// `%` that no backslash escapes (the whole line when there is none).
pub proof fn law_strip_comments_lines(s: Seq<char>)
    ensures
        split_lines(strip_comments_spec(s)).len() == split_lines(s).len(),
        split_lines(strip_comments_spec(s)) == split_lines(s).map_values(|l: Seq<char>| cut_comment(l)),
    decreases s.len(),
{
    lemma_line_end(s, 0);
    let e = line_end(s, 0);
    if e >= s.len() {
        assert(!s.contains('\n')) by {
            if s.contains('\n') {
                let k = choose|k: int| 0 <= k < s.len() && s[k] == '\n';
                assert(s[k] != '\n');
            }
        }
        law_strip_comments_line(s);
        lemma_first_comment_from(s, 0);
        let t = strip_comments_spec(s);
        assert(!t.contains('\n')) by {
            if t.contains('\n') {
                let k = choose|k: int| 0 <= k < t.len() && t[k] == '\n';
                assert(t[k] == s[k]);
            }
        }
        lemma_split_one_line(s);
        lemma_split_one_line(t);
        assert(seq![s].map_values(|l: Seq<char>| cut_comment(l)) =~= seq![cut_comment(s)]);
    } else {
        let a = s.take(e);
        let b = s.skip(e + 1);
        assert(s =~= a + seq!['\n'] + b);
        assert(!a.contains('\n')) by {
            if a.contains('\n') {
                let k = choose|k: int| 0 <= k < a.len() && a[k] == '\n';
                assert(s[k] == a[k]);
            }
        }
        law_strip_comments_by_line(a, b);
        law_strip_comments_line(a);
        lemma_first_comment_from(a, 0);
        let sa = strip_comments_spec(a);
        assert(!sa.contains('\n')) by {
            if sa.contains('\n') {
                let k = choose|k: int| 0 <= k < sa.len() && sa[k] == '\n';
                assert(sa[k] == a[k]);
            }
        }
        lemma_split_first_line(a, b);
        lemma_split_first_line(sa, strip_comments_spec(b));
        law_strip_comments_lines(b);
        assert((seq![a] + split_lines(b)).map_values(|l: Seq<char>| cut_comment(l))
            =~= seq![cut_comment(a)] + split_lines(b).map_values(|l: Seq<char>| cut_comment(l)));
    }
}

// ------------------------------------------------------------------ tables

pub open spec fn tabular_begin() -> Seq<char> {
    "\\begin{tabular}"@
}

pub open spec fn tabular_end() -> Seq<char> {
    "\\end{tabular}"@
}

/// The complete `tabular` environments of `s` found by scanning from `from`:
/// each runs from a `\begin{tabular}` to the first `\end{tabular}` after it;
/// scanning resumes after that end, and stops at a `\begin{tabular}` that is
/// never closed.
pub open spec fn tabulars(s: Seq<char>, from: int) -> Seq<Seq<char>>
    decreases s.len() + 1 - from,
{
    if from < 0 {
        Seq::empty()
    } else {
        match text::find_from(s, tabular_begin(), from) {
            None => Seq::empty(),
            Some(bs) => match text::find_from(s, tabular_end(), bs + tabular_begin().len()) {
                None => Seq::empty(),
                Some(es) => {
                    let stop = es + tabular_end().len();
                    proof {
                        reveal_strlit("\\end{tabular}");
                        text::lemma_find_from(s, tabular_begin(), from);
                        text::lemma_find_from(s, tabular_end(), bs + tabular_begin().len());
                    }
                    seq![s.subrange(bs, stop)] + tabulars(s, stop)
                },
            },
        }
    }
}

/// Appends to `out`, verbatim and in order, every complete `tabular`
/// environment of `text`.
pub fn collect_tabular(text: &str, out: &mut Vec<String>)
    ensures
        final(out)@.len() == old(out)@.len() + tabulars(text@, 0).len(),
        forall|i: int| 0 <= i < old(out)@.len() ==> #[trigger] final(out)@[i] == old(out)@[i],
        forall|i: int|
            0 <= i < tabulars(text@, 0).len() ==> #[trigger] final(out)@[old(out)@.len() + i]@
                == tabulars(text@, 0)[i],
{
    let s = str_chars(text);
    let begin = str_chars("\\begin{tabular}");
    let end = str_chars("\\end{tabular}");
    proof {
        reveal_strlit("\\begin{tabular}");
        reveal_strlit("\\end{tabular}");
    }
    let ghost total = tabulars(s@, 0);
    let ghost n0 = out@.len();
    let n = s.len();
    let mut search_from: usize = 0;
    let ghost mut done: Seq<Seq<char>> = Seq::empty();
    loop
        invariant_except_break
            search_from <= s@.len(),
            n == s@.len(),
            begin@ == tabular_begin(),
            end@ == tabular_end(),
            total == done + tabulars(s@, search_from as int),
            out@.len() == n0 + done.len(),
            forall|i: int| 0 <= i < n0 ==> #[trigger] out@[i] == old(out)@[i],
            forall|i: int| 0 <= i < done.len() ==> #[trigger] out@[n0 + i]@ == done[i],
        ensures
            out@.len() == n0 + total.len(),
            forall|i: int| 0 <= i < n0 ==> #[trigger] out@[i] == old(out)@[i],
            forall|i: int| 0 <= i < total.len() ==> #[trigger] out@[n0 + i]@ == total[i],
        decreases s@.len() - search_from,
    {
        proof {
            text::lemma_find_from(s@, tabular_begin(), search_from as int);
        }
        match text::find_chars(&s, &begin, search_from) {
            None => {
                assert(tabulars(s@, search_from as int) =~= Seq::empty());
                assert(total =~= done);
                break;
            },
            Some(start) => {
                assert(text::occurs_at(s@, begin@, start as int));
                let after = start + begin.len();
                proof {
                    text::lemma_find_from(s@, tabular_end(), after as int);
                }
                match text::find_chars(&s, &end, after) {
                    None => {
                        assert(tabulars(s@, search_from as int) =~= Seq::empty());
                        assert(total =~= done);
                        break;
                    },
                    Some(es) => {
                        assert(text::occurs_at(s@, end@, es as int));
                        let stop = es + end.len();
                        let piece = string_from_chars(&s[start..stop]);
                        proof {
                            assert(piece@ == s@.subrange(start as int, stop as int));
                            done = done.push(s@.subrange(start as int, stop as int));
                            assert(tabulars(s@, search_from as int) == seq![s@.subrange(start as int, stop as int)] + tabulars(s@, stop as int));
                            assert(total =~= done + tabulars(s@, stop as int));
                        }
                        out.push(piece);
                        search_from = stop;
                    },
                }
            },
        }
    }
}

} // verus!
