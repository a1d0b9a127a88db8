//! `\input{..}` and `\include{..}` directives: finding them in a LaTeX
//! source, the files each may name, and splicing the included text in.
use vstd::prelude::*;
use crate::body;
use crate::error::ArxivError;
use crate::text;
use crate::text::{append_chars, append_str, find_chars, matches_at, str_chars, string_from_chars, trim_chars};
use crate::workspace;

verus! {

/// The index just after `\input` or `\include` at `p`.
pub open spec fn keyword_end(s: Seq<char>, p: int) -> Option<int> {
    if text::occurs_at(s, "\\input"@, p) {
        Some(p + "\\input"@.len())
    } else if text::occurs_at(s, "\\include"@, p) {
        Some(p + "\\include"@.len())
    } else {
        None
    }
}

/// A directive `\input{name}` or `\include{name}` (white space allowed
/// before the brace, a non-empty name without `}`) starting at `p`: where
/// its name starts, and the index just after its closing brace.
pub open spec fn directive_at(s: Seq<char>, p: int) -> Option<(int, int)> {
    match keyword_end(s, p) {
        None => None,
        Some(q) => {
            let w = body::ws_end(s, q);
            if w < s.len() && s[w] == '{' {
                match text::find_from(s, "}"@, w + 1) {
                    Some(c) => if c > w + 1 { Some((w + 1, c + 1)) } else { None },
                    None => None,
                }
            } else {
                None
            }
        },
    }
}

/// White space skipped from `i` ends at or after `i`, within the text.
pub proof fn lemma_ws_end(s: Seq<char>, i: int)
    requires
        0 <= i,
    ensures
        i <= body::ws_end(s, i),
        i <= s.len() ==> body::ws_end(s, i) <= s.len(),
    decreases s.len() - i,
{
    if 0 <= i < s.len() && text::is_ws(s[i]) {
        lemma_ws_end(s, i + 1);
    }
}

/// Where a directive found at `p` starts its name and ends.
pub proof fn lemma_directive_at(s: Seq<char>, p: int)
    requires
        0 <= p,
        directive_at(s, p) is Some,
    ensures
        ({
            let x = directive_at(s, p)->0;
            p < x.0 < x.1 <= s.len()
        }),
{
    reveal_strlit("\\input");
    reveal_strlit("\\include");
    reveal_strlit("}");
    let q = keyword_end(s, p)->0;
    assert(q > p && q <= s.len());
    lemma_ws_end(s, q);
    let w = body::ws_end(s, q);
    text::lemma_find_from(s, "}"@, w + 1);
    let c = text::find_from(s, "}"@, w + 1)->0;
    assert(text::occurs_at(s, "}"@, c));
}

/// The first directive at or after `from`.
pub open spec fn next_directive(s: Seq<char>, from: int) -> Option<int>
    decreases s.len() - from,
{
    if from < 0 || from >= s.len() {
        None
    } else if directive_at(s, from) is Some {
        Some(from)
    } else {
        next_directive(s, from + 1)
    }
}

/// What `next_directive` finds: the first directive at or after `from`,
/// if any.
pub proof fn lemma_next_directive(s: Seq<char>, from: int)
    requires
        0 <= from,
    ensures
        match next_directive(s, from) {
            Some(p) => from <= p < s.len() && directive_at(s, p) is Some && forall|j: int|
                from <= j < p ==> #[trigger] directive_at(s, j) is None,
            None => forall|j: int| from <= j < s.len() ==> #[trigger] directive_at(s, j) is None,
        },
    decreases s.len() - from,
{
    if from < s.len() && directive_at(s, from) is None {
        lemma_next_directive(s, from + 1);
    }
}

/// The directives of a text from `from` on, each as (start, name start,
/// end), scanning left to right without overlaps.
pub open spec fn directives(s: Seq<char>, from: int) -> Seq<(int, int, int)>
    decreases s.len() - from,
{
    if from < 0 || from >= s.len() {
        Seq::empty()
    } else {
        match next_directive(s, from) {
            None => Seq::empty(),
            Some(p) => {
                proof {
                    lemma_next_directive(s, from);
                    lemma_directive_at(s, p);
                }
                let (a, e) = directive_at(s, p)->0;
                seq![(p, a, e)] + directives(s, e)
            },
        }
    }
}

/// One directive found in a text.
pub struct InputDirective {
    /// Index of its backslash.
    pub start: usize,
    /// Index just after its closing brace.
    pub end: usize,
    /// The file it names, trimmed.
    pub name: String,
}

/// A found directive as (start, end, trimmed name).
pub open spec fn directive_view(s: Seq<char>, d: (int, int, int)) -> (int, int, Seq<char>) {
    (d.0, d.2, text::trim(s.subrange(d.1, d.2 - 1)))
}

fn keyword_end_exec(s: &[char], p: usize, input_kw: &Vec<char>, include_kw: &Vec<char>) -> (r: Option<usize>)
    requires
        input_kw@ == "\\input"@,
        include_kw@ == "\\include"@,
    ensures
        match r {
            Some(q) => keyword_end(s@, p as int) == Some(q as int),
            None => keyword_end(s@, p as int) is None,
        },
{
    if matches_at(s, input_kw.as_slice(), p) {
        Some(p + input_kw.len())
    } else if matches_at(s, include_kw.as_slice(), p) {
        Some(p + include_kw.len())
    } else {
        None
    }
}

fn ws_end_exec(s: &[char], i: usize) -> (r: usize)
    requires
        i <= s@.len(),
    ensures
        r == body::ws_end(s@, i as int),
{
    let mut j = i;
    while j < s.len() && text::is_whitespace(s[j])
        invariant
            i <= j <= s@.len(),
            body::ws_end(s@, i as int) == body::ws_end(s@, j as int),
        decreases s@.len() - j,
    {
        j += 1;
    }
    j
}

fn directive_at_exec(s: &[char], p: usize, input_kw: &Vec<char>, include_kw: &Vec<char>, close: &Vec<char>) -> (r: Option<(usize, usize)>)
    requires
        input_kw@ == "\\input"@,
        include_kw@ == "\\include"@,
        close@ == "}"@,
    ensures
        match r {
            Some(x) => directive_at(s@, p as int) == Some((x.0 as int, x.1 as int)),
            None => directive_at(s@, p as int) is None,
        },
{
    proof {
        reveal_strlit("}");
    }
    let n = s.len();
    match keyword_end_exec(s, p, input_kw, include_kw) {
        None => None,
        Some(q) => {
            let w = ws_end_exec(s, q);
            if w < n && s[w] == '{' {
                match find_chars(s, close.as_slice(), w + 1) {
                    Some(c) => {
                        proof {
                            text::lemma_find_from(s@, "}"@, w + 1);
                        }
                        if c > w + 1 {
                            Some((w + 1, c + 1))
                        } else {
                            None
                        }
                    },
                    None => None,
                }
            } else {
                None
            }
        },
    }
}

/// The next directive at or after `from`, with where its name starts and
/// where it ends.
fn next_directive_exec(s: &[char], from: usize, input_kw: &Vec<char>, include_kw: &Vec<char>, close: &Vec<char>) -> (r: Option<(usize, usize, usize)>)
    requires
        input_kw@ == "\\input"@,
        include_kw@ == "\\include"@,
        close@ == "}"@,
    ensures
        match next_directive(s@, from as int) {
            Some(p) => r matches Some(x) && x.0 == p && Some((x.1 as int, x.2 as int)) == directive_at(
                s@,
                p,
            ),
            None => r is None,
        },
{
    let n = s.len();
    let mut p = from;
    while p < n
        invariant
            from <= p,
            n == s@.len(),
            input_kw@ == "\\input"@,
            include_kw@ == "\\include"@,
            close@ == "}"@,
            next_directive(s@, from as int) == next_directive(s@, p as int),
        decreases n - p,
    {
        match directive_at_exec(s, p, input_kw, include_kw, close) {
            Some((a, e)) => {
                return Some((p, a, e));
            },
            None => {},
        }
        p += 1;
    }
    None
}

/// The `\input`/`\include` directives of a text, in order, as a regular
/// expression `\\(?:input|include)\s*\{([^}]+)\}` finds them, each with its
/// trimmed file name.
pub fn input_directives(tex: &str) -> (r: Vec<InputDirective>)
    ensures
        r@.map_values(|d: InputDirective| (d.start as int, d.end as int, d.name@)) == directives(
            tex@,
            0,
        ).map_values(|d: (int, int, int)| directive_view(tex@, d)),
{
    let s = str_chars(tex);
    let input_kw = str_chars("\\input");
    let include_kw = str_chars("\\include");
    let close = str_chars("}");
    let ghost all = directives(s@, 0).map_values(|d: (int, int, int)| directive_view(s@, d));
    let mut out: Vec<InputDirective> = Vec::new();
    let mut from: usize = 0;
    let ghost mut k: int = 0;
    while from < s.len()
        invariant
            s@ == tex@,
            input_kw@ == "\\input"@,
            include_kw@ == "\\include"@,
            close@ == "}"@,
            from <= s@.len(),
            all == directives(s@, 0).map_values(|d: (int, int, int)| directive_view(s@, d)),
            0 <= k <= directives(s@, 0).len(),
            directives(s@, 0).skip(k) == directives(s@, from as int),
            out@.map_values(|d: InputDirective| (d.start as int, d.end as int, d.name@)) == all.take(k),
        ensures
            directives(s@, from as int).len() == 0,
            0 <= k <= directives(s@, 0).len(),
            directives(s@, 0).skip(k) == directives(s@, from as int),
            out@.map_values(|d: InputDirective| (d.start as int, d.end as int, d.name@)) == all.take(k),
        decreases s@.len() - from,
    {
        match next_directive_exec(&s, from, &input_kw, &include_kw, &close) {
            None => {
                assert(directives(s@, from as int) =~= Seq::<(int, int, int)>::empty());
                break;
            },
            Some((p, a, e)) => {
                proof {
                    lemma_next_directive(s@, from as int);
                    lemma_directive_at(s@, p as int);
                    assert(directives(s@, from as int) == seq![(p as int, a as int, e as int)] + directives(s@, e as int));
                    assert(directives(s@, 0)[k] == (p as int, a as int, e as int)) by {
                        assert(directives(s@, 0).skip(k)[0] == directives(s@, 0)[k]);
                    }
                    assert(directives(s@, 0).skip(k + 1) =~= directives(s@, 0).skip(k).skip(1));
                    assert(directives(s@, from as int).skip(1) =~= directives(s@, e as int));
                }
                let mut name: Vec<char> = Vec::new();
                let mut i = a;
                while i < e - 1
                    invariant
                        a <= i <= e - 1,
                        e <= s@.len(),
                        name@ == s@.subrange(a as int, i as int),
                    decreases e - 1 - i,
                {
                    name.push(s[i]);
                    assert(s@.subrange(a as int, i + 1) =~= s@.subrange(a as int, i as int).push(s@[i as int]));
                    i += 1;
                }
                let t = trim_chars(&name);
                let ghost o0 = out@;
                out.push(InputDirective { start: p, end: e, name: string_from_chars(&t) });
                proof {
                    assert(all[k] == directive_view(s@, (p as int, a as int, e as int)));
                    assert(all.take(k + 1) =~= all.take(k).push(all[k]));
                    assert(out@.map_values(|d: InputDirective| (d.start as int, d.end as int, d.name@)) =~= o0.map_values(
                        |d: InputDirective| (d.start as int, d.end as int, d.name@),
                    ).push((p as int, e as int, t@)));
                    k = k + 1;
                }
                from = e;
            },
        }
    }
    proof {
        assert(directives(s@, 0).skip(k).len() == 0);
        assert(all.take(k) =~= all);
    }
    out
}

/// The text with each directive in `ds` replaced by its expansion, or
/// kept as it is where there is none; `from` is where the text resumes.
pub open spec fn spliced(s: Seq<char>, ds: Seq<(int, int, int)>, reps: Seq<Option<String>>, from: int) -> Seq<char>
    decreases ds.len(),
{
    if ds.len() == 0 {
        s.subrange(from, s.len() as int)
    } else {
        let d = ds[0];
        s.subrange(from, d.0) + (match reps[0] {
            Some(r) => r@,
            None => s.subrange(d.0, d.2),
        }) + spliced(s, ds.drop_first(), reps.drop_first(), d.2)
    }
}

/// The text with its directives replaced, in order, by `reps`.
pub open spec fn expanded_spec(s: Seq<char>, reps: Seq<Option<String>>) -> Seq<char> {
    spliced(s, directives(s, 0), reps, 0)
}

/// Replaces the directives of a text, in order, by the given expansions;
/// a directive without one stays as it was.
pub fn splice_inputs(tex: &str, reps: &Vec<Option<String>>) -> (r: String)
    requires
        reps@.len() == directives(tex@, 0).len(),
    ensures
        r@ == expanded_spec(tex@, reps@),
{
    let s = str_chars(tex);
    let input_kw = str_chars("\\input");
    let include_kw = str_chars("\\include");
    let close = str_chars("}");
    let mut out: Vec<char> = Vec::new();
    let mut from: usize = 0;
    let mut k: usize = 0;
    let nreps = reps.len();
    assert(reps@.skip(0) =~= reps@);
    assert(directives(s@, 0).skip(0) =~= directives(s@, 0));
    while from < s.len()
        invariant
            s@ == tex@,
            input_kw@ == "\\input"@,
            include_kw@ == "\\include"@,
            close@ == "}"@,
            from <= s@.len(),
            reps@.len() == directives(s@, 0).len(),
            nreps == reps@.len(),
            k <= directives(s@, 0).len(),
            directives(s@, 0).skip(k as int) == directives(s@, from as int),
            expanded_spec(s@, reps@) == out@ + spliced(s@, directives(s@, from as int), reps@.skip(k as int), from as int),
        ensures
            directives(s@, from as int).len() == 0,
            from <= s@.len(),
            expanded_spec(s@, reps@) == out@ + spliced(s@, directives(s@, from as int), reps@.skip(k as int), from as int),
        decreases s@.len() - from,
    {
        match next_directive_exec(&s, from, &input_kw, &include_kw, &close) {
            None => {
                assert(directives(s@, from as int) =~= Seq::<(int, int, int)>::empty());
                break;
            },
            Some((p, a, e)) => {
                proof {
                    lemma_next_directive(s@, from as int);
                    lemma_directive_at(s@, p as int);
                    assert(directives(s@, from as int) == seq![(p as int, a as int, e as int)] + directives(s@, e as int));
                    assert(directives(s@, from as int).drop_first() =~= directives(s@, e as int));
                    assert(directives(s@, 0).skip(k + 1) =~= directives(s@, 0).skip(k as int).drop_first());
                    assert(reps@.skip(k + 1) =~= reps@.skip(k as int).drop_first());
                    assert(reps@.skip(k as int)[0] == reps@[k as int]);
                    assert(directives(s@, 0).skip(k as int).len() > 0);
                    assert(k < directives(s@, 0).len());
                }
                let ghost o0 = out@;
                let mut i = from;
                while i < p
                    invariant
                        from <= i <= p,
                        p <= s@.len(),
                        out@ == o0 + s@.subrange(from as int, i as int),
                    decreases p - i,
                {
                    out.push(s[i]);
                    assert(o0 + s@.subrange(from as int, i + 1) =~= (o0 + s@.subrange(from as int, i as int)).push(s@[i as int]));
                    i += 1;
                }
                let ghost o1 = out@;
                match &reps[k] {
                    Some(r) => {
                        append_str(&mut out, r.as_str());
                    },
                    None => {
                        let mut j = p;
                        while j < e
                            invariant
                                p <= j <= e,
                                e <= s@.len(),
                                out@ == o1 + s@.subrange(p as int, j as int),
                            decreases e - j,
                        {
                            out.push(s[j]);
                            assert(o1 + s@.subrange(p as int, j + 1) =~= (o1 + s@.subrange(p as int, j as int)).push(s@[j as int]));
                            j += 1;
                        }
                    },
                }
                proof {
                    let rep_text = match reps@[k as int] {
                        Some(r) => r@,
                        None => s@.subrange(p as int, e as int),
                    };
                    assert(out@ == o0 + s@.subrange(from as int, p as int) + rep_text);
                    assert(spliced(s@, directives(s@, from as int), reps@.skip(k as int), from as int)
                        == s@.subrange(from as int, p as int) + rep_text + spliced(s@, directives(s@, e as int), reps@.skip(k + 1), e as int));
                }
                k += 1;
                from = e;
            },
        }
    }
    proof {
        assert(spliced(s@, directives(s@, from as int), reps@.skip(k as int), from as int) == s@.subrange(from as int, s@.len() as int));
    }
    let mut i = from;
    let ghost o0 = out@;
    while i < s.len()
        invariant
            from <= i <= s@.len(),
            out@ == o0 + s@.subrange(from as int, i as int),
        decreases s@.len() - i,
    {
        out.push(s[i]);
        assert(o0 + s@.subrange(from as int, i + 1) =~= (o0 + s@.subrange(from as int, i as int)).push(s@[i as int]));
        i += 1;
    }
    assert(out@ =~= expanded_spec(s@, reps@));
    string_from_chars(&out)
}

/// Deepest chain of nested inclusions that is followed.
pub const MAX_INPUT_DEPTH: usize = 64;

/// Expansion refuses to go deeper than [`MAX_INPUT_DEPTH`] files.
pub fn check_input_depth(depth: usize) -> (r: Result<(), ArxivError>)
    ensures
        depth <= MAX_INPUT_DEPTH ==> r is Ok,
        depth > MAX_INPUT_DEPTH ==> (r matches Err(ArxivError::Extraction(m)) && m@
            == "input expansion exceeds max depth 64"@),
{
    if depth > MAX_INPUT_DEPTH {
        Err(ArxivError::Extraction(String::from_str("input expansion exceeds max depth 64")))
    } else {
        Ok(())
    }
}

/// `PathBuf::join` on Unix: an absolute name replaces the base.
pub open spec fn path_join(base: Seq<char>, name: Seq<char>) -> Seq<char> {
    if name.len() > 0 && name[0] == '/' {
        name
    } else {
        workspace::join_path(base, name)
    }
}

/// Joins a name to a directory as `PathBuf::join` does on Unix.
pub fn path_join_exec(base: &str, name: &str) -> (r: String)
    ensures
        r@ == path_join(base@, name@),
{
    let n = str_chars(name);
    if n.len() > 0 && n[0] == '/' {
        string_from_chars(&n)
    } else {
        workspace::join_path_exec(base, name)
    }
}

/// The files a directive may name, in the order they are tried: the name
/// in the including file's directory, then in the paper's root, then both
/// again with `.tex` appended when the name lacks it.
pub open spec fn candidate_paths_spec(base: Seq<char>, root: Seq<char>, name: Seq<char>) -> Seq<Seq<char>> {
    let plain = seq![path_join(base, name), path_join(root, name)];
    let ext = ".tex"@;
    if name.len() >= ext.len() && name.skip(name.len() - ext.len()) == ext {
        plain
    } else {
        plain + seq![path_join(base, name + ext), path_join(root, name + ext)]
    }
}

/// The files a directive naming `name` may refer to.
pub fn candidate_paths(base: &str, root: &str, name: &str) -> (r: Vec<String>)
    ensures
        text::string_views(r@) == candidate_paths_spec(base@, root@, name@),
{
    let mut r: Vec<String> = Vec::new();
    r.push(path_join_exec(base, name));
    r.push(path_join_exec(root, name));
    let n = str_chars(name);
    let ext = str_chars(".tex");
    let has_ext = n.len() >= ext.len() && matches_at(&n, &ext, n.len() - ext.len());
    proof {
        if n.len() >= ext.len() {
            assert(n@.subrange(n@.len() - ext@.len(), n@.len() - ext@.len() + ext@.len()) =~= n@.skip(n@.len() - ext@.len()));
        }
    }
    if !has_ext {
        let mut with_ext = str_chars(name);
        append_chars(&mut with_ext, &ext);
        let w = string_from_chars(&with_ext);
        r.push(path_join_exec(base, w.as_str()));
        r.push(path_join_exec(root, w.as_str()));
    }
    assert(text::string_views(r@) =~= candidate_paths_spec(base@, root@, name@));
    r
}

/// The first candidate at or after `from` whose file exists (the first
/// flag of each pair).
pub open spec fn first_existing(c: Seq<(bool, bool)>, from: int) -> Option<int>
    decreases c.len() - from,
{
    if from < 0 || from >= c.len() {
        None
    } else if c[from].0 {
        Some(from)
    } else {
        first_existing(c, from + 1)
    }
}

/// The candidate an `\input` naming `name` is expanded from, given for each
/// candidate whether its file exists and whether that file was expanded
/// before: the first that exists, unless the name is empty or that file was
/// expanded before (which would repeat it, or loop).
pub open spec fn resolve_input_spec(name: Seq<char>, c: Seq<(bool, bool)>) -> Option<int> {
    if name.len() == 0 {
        None
    } else {
        match first_existing(c, 0) {
            Some(i) => if c[i].1 { None } else { Some(i) },
            None => None,
        }
    }
}

/// Which candidate file (see `candidate_paths`) an `\input` naming `name` is
/// expanded from; `candidates` tells, for each, whether the file exists and
/// whether it was expanded before.
pub fn resolve_input(name: &str, candidates: &Vec<(bool, bool)>) -> (r: Option<usize>)
    ensures
        match r {
            Some(i) => resolve_input_spec(name@, candidates@) == Some(i as int) && i < candidates@.len(),
            None => resolve_input_spec(name@, candidates@) is None,
        },
{
    let n = str_chars(name);
    if n.len() == 0 {
        return None;
    }
    assert(name@.len() > 0);
    let mut i: usize = 0;
    while i < candidates.len()
        invariant
            i <= candidates@.len(),
            name@.len() > 0,
            first_existing(candidates@, 0) == first_existing(candidates@, i as int),
        decreases candidates@.len() - i,
    {
        if candidates[i].0 {
            assert(first_existing(candidates@, i as int) == Some(i as int));
            let (_, seen) = candidates[i];
            if seen {
                return None;
            }
            return Some(i);
        }
        i += 1;
    }
    None
}

} // verus!
