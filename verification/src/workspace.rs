//! Papers and workspaces: recognising paper folders, listing them, finding
//! papers by ID or query, and the tag (classification) naming rules.
use vstd::prelude::*;
use crate::text;
use crate::text::{str_chars, string_from_chars, concat_str};
use crate::error::ArxivError;
use crate::manifest;
use crate::manifest::{PaperManifest, strip_version};

verus! {

/// Directory holding paper folders (canonical layout); tag directories live
/// at the workspace root.
pub const RAW_DIR: &'static str = "raw";

/// Workspace-internal directory that is never a paper.
pub const GLOBAL_CHATS_DIR: &'static str = "arxivcat_global_chats";

pub open spec fn reserved_spec(name: Seq<char>) -> bool {
    (name.len() > 0 && name[0] == '.') || name == "arxivcat_global_chats"@ || name == "raw"@
}

/// True if `folder_name` is reserved: dot-directories, internal directories
/// and the raw directory.
pub fn is_reserved_dir(folder_name: &str) -> (b: bool)
    ensures
        b == reserved_spec(folder_name@),
{
    let s = str_chars(folder_name);
    (s.len() > 0 && s[0] == '.') || text::str_eq(folder_name, GLOBAL_CHATS_DIR)
        || text::str_eq(folder_name, RAW_DIR)
}

pub open spec fn all_digits(s: Seq<char>) -> bool {
    forall|k: int| 0 <= k < s.len() ==> text::is_digit(#[trigger] s[k])
}

pub open spec fn underscore() -> Seq<char> {
    seq!['_']
}

/// The text before the first `_` is all ASCII digits (possibly none): the
/// shape of a paper folder name (`2501_12948...`).
pub open spec fn digits_then_underscore(s: Seq<char>) -> bool {
    match text::find_from(s, underscore(), 0) {
        Some(i) => all_digits(s.take(i)),
        None => false,
    }
}

pub open spec fn has_path_separator(s: Seq<char>) -> bool {
    s.contains('/') || s.contains('\\')
}

fn contains_char(s: &[char], c: char) -> (b: bool)
    ensures
        b == s@.contains(c),
{
    let mut i: usize = 0;
    while i < s.len()
        invariant
            i <= s@.len(),
            forall|k: int| 0 <= k < i ==> s@[k] != c,
        decreases s@.len() - i,
    {
        if s[i] == c {
            return true;
        }
        i += 1;
    }
    false
}

fn all_digits_exec(s: &[char]) -> (b: bool)
    ensures
        b == all_digits(s@),
{
    let mut i: usize = 0;
    while i < s.len()
        invariant
            i <= s@.len(),
            forall|k: int| 0 <= k < i ==> text::is_digit(#[trigger] s@[k]),
        decreases s@.len() - i,
    {
        if !('0' <= s[i] && s[i] <= '9') {
            return false;
        }
        i += 1;
    }
    true
}

fn digits_then_underscore_exec(s: &[char]) -> (b: bool)
    ensures
        b == digits_then_underscore(s@),
{
    let us = vec!['_'];
    assert(us@ =~= underscore());
    match text::find_chars(s, &us, 0) {
        Some(i) => {
            proof { text::lemma_find_from(s@, underscore(), 0); }
            let head = &s[0..i];
            assert(head@ =~= s@.take(i as int));
            all_digits_exec(head)
        },
        None => false,
    }
}

/// Validates a tag name: not empty, no path separators, not reserved, and not
/// shaped like a paper folder (digits then `_`).
pub fn validate_tag_name(tag: &str) -> (res: Result<(), ArxivError>)
    ensures
        tag@.len() == 0 ==> (res matches Err(ArxivError::Other(m)) && m@ == "tag name must not be empty"@),
        tag@.len() > 0 && has_path_separator(tag@) ==> (res matches Err(ArxivError::Other(m))
            && m@ == "tag name must not contain path separators: "@ + text::debug_quoted_spec(tag@)),
        tag@.len() > 0 && !has_path_separator(tag@) && reserved_spec(tag@)
            ==> (res matches Err(ArxivError::Other(m)) && m@ == "tag name is reserved: "@ + text::debug_quoted_spec(tag@)),
        tag@.len() > 0 && !has_path_separator(tag@) && !reserved_spec(tag@)
            && digits_then_underscore(tag@) ==> (res matches Err(ArxivError::Other(m))
            && m@ == "tag name looks like a paper id (digits+underscore), pick another: "@ + text::debug_quoted_spec(tag@)),
        tag@.len() > 0 && !has_path_separator(tag@) && !reserved_spec(tag@)
            && !digits_then_underscore(tag@) ==> res is Ok,
{
    let s = str_chars(tag);
    if s.len() == 0 {
        return Err(ArxivError::Other(string_from_chars(&str_chars("tag name must not be empty"))));
    }
    if contains_char(&s, '/') || contains_char(&s, '\\') {
        let q = text::debug_quoted(tag);
        return Err(ArxivError::Other(concat_str("tag name must not contain path separators: ", q.as_str())));
    }
    if is_reserved_dir(tag) {
        let q = text::debug_quoted(tag);
        return Err(ArxivError::Other(concat_str("tag name is reserved: ", q.as_str())));
    }
    if digits_then_underscore_exec(&s) {
        let q = text::debug_quoted(tag);
        return Err(ArxivError::Other(concat_str(
            "tag name looks like a paper id (digits+underscore), pick another: ",
            q.as_str(),
        )));
    }
    Ok(())
}

pub open spec fn underscores_to_spaces(s: Seq<char>) -> Seq<char> {
    s.map_values(|c: char| if c == '_' { ' ' } else { c })
}

/// Identity read from a legacy folder name `{id1}_{id2}[_{title words}]`:
/// the ID is `{id1}.{id2}`, the title the remaining words joined by spaces.
/// `None` unless the name has a `_` and digits before it.
pub open spec fn legacy_identity(name: Seq<char>) -> Option<(Seq<char>, Seq<char>)> {
    match text::find_from(name, underscore(), 0) {
        None => None,
        Some(i) => {
            let p0 = name.take(i);
            let rest = name.skip(i + 1);
            if !all_digits(p0) {
                None
            } else {
                match text::find_from(rest, underscore(), 0) {
                    None => Some((p0 + seq!['.'] + rest, Seq::empty())),
                    Some(j) => Some((p0 + seq!['.'] + rest.take(j), underscores_to_spaces(rest.skip(j + 1)))),
                }
            }
        },
    }
}

fn push_all(v: &mut Vec<char>, w: &[char])
    ensures
        final(v)@ == old(v)@ + w@,
{
    let ghost v0 = v@;
    let mut i: usize = 0;
    while i < w.len()
        invariant
            i <= w@.len(),
            v@ == v0 + w@.take(i as int),
        decreases w@.len() - i,
    {
        v.push(w[i]);
        assert(v0 + w@.take(i + 1) =~= (v0 + w@.take(i as int)).push(w@[i as int]));
        i += 1;
    }
    assert(w@.take(w@.len() as int) =~= w@);
}

/// Parses a legacy folder name into `(arxiv_id, title)`.
pub fn parse_legacy_folder(folder_name: &str) -> (res: Option<(String, String)>)
    ensures
        match legacy_identity(folder_name@) {
            Some((id, title)) => res matches Some((a, t)) && a@ == id && t@ == title,
            None => res is None,
        },
{
    let s = str_chars(folder_name);
    let n = s.len();
    let us = vec!['_'];
    assert(us@ =~= underscore());
    let i = match text::find_chars(&s, &us, 0) {
        Some(i) => i,
        None => return None,
    };
    proof { text::lemma_find_from(s@, underscore(), 0); }
    let p0 = &s[0..i];
    assert(p0@ =~= s@.take(i as int));
    if !all_digits_exec(p0) {
        return None;
    }
    let rest = &s[i + 1..s.len()];
    assert(rest@ =~= s@.skip(i + 1));
    let mut id: Vec<char> = Vec::new();
    push_all(&mut id, p0);
    id.push('.');
    match text::find_chars(rest, &us, 0) {
        None => {
            push_all(&mut id, rest);
            assert(id@ =~= p0@ + seq!['.'] + rest@);
            Some((string_from_chars(&id), String::new()))
        },
        Some(j) => {
            proof { text::lemma_find_from(rest@, underscore(), 0); }
            let mid = &rest[0..j];
            assert(mid@ =~= rest@.take(j as int));
            push_all(&mut id, mid);
            assert(id@ =~= p0@ + seq!['.'] + rest@.take(j as int));
            let tail = &rest[j + 1..rest.len()];
            assert(tail@ =~= rest@.skip(j + 1));
            let mut title: Vec<char> = Vec::new();
            let mut k: usize = 0;
            while k < tail.len()
                invariant
                    k <= tail@.len(),
                    title@ == underscores_to_spaces(tail@.take(k as int)),
                decreases tail@.len() - k,
            {
                let c = tail[k];
                title.push(if c == '_' { ' ' } else { c });
                assert(underscores_to_spaces(tail@.take(k + 1)) =~= underscores_to_spaces(tail@.take(k as int)).push(if c == '_' { ' ' } else { c }));
                k += 1;
            }
            assert(tail@.take(tail@.len() as int) =~= tail@);
            Some((string_from_chars(&id), string_from_chars(&title)))
        },
    }
}

/// A paper as seen in the workspace.
#[derive(Debug)]
pub struct Paper {
    pub arxiv_id: String,
    pub title: String,
    pub folder_name: String,
    /// Path of the paper folder.
    pub folder: String,
    pub has_body: bool,
    pub description_ready: bool,
    pub deep_ready: bool,
    /// A paper is complete once it has its body (AI summaries are optional).
    pub is_complete: bool,
}

impl Paper {
    /// A copy of the paper.
    pub fn duplicate(&self) -> (p: Paper)
        ensures
            p == *self,
    {
        Paper {
            arxiv_id: self.arxiv_id.clone(),
            title: self.title.clone(),
            folder_name: self.folder_name.clone(),
            folder: self.folder.clone(),
            has_body: self.has_body,
            description_ready: self.description_ready,
            deep_ready: self.deep_ready,
            is_complete: self.is_complete,
        }
    }
}

/// What the caller found in a candidate paper folder.
pub struct FolderFacts {
    /// The folder's manifest, when one exists and parses.
    pub manifest: Option<PaperManifest>,
    /// The body file the manifest records is a file.
    pub manifest_body_is_file: bool,
    /// `body.tex` exists (legacy folders).
    pub legacy_body_exists: bool,
    /// `has_complete_description` holds for the folder.
    pub description_complete: bool,
    /// `has_complete_deep` holds for the folder.
    pub deep_complete: bool,
}

/// The brief is complete: `brief_summary.md` or `description.md` is non-empty
/// and the `.description_ready` flag exists. Lengths are `None` for absent files.
pub fn has_complete_description(brief_len: Option<u64>, description_len: Option<u64>, flag_exists: bool) -> (b: bool)
    ensures
        b == (flag_exists && ((brief_len matches Some(l) && l > 0) || (description_len matches Some(l) && l > 0))),
{
    let brief = match brief_len { Some(l) => l > 0, None => false };
    let desc = match description_len { Some(l) => l > 0, None => false };
    (brief && flag_exists) || (desc && flag_exists)
}

/// The deep recap is complete: `deep_summary.md` is non-empty and `.deep_ready` exists.
pub fn has_complete_deep(deep_len: Option<u64>, flag_exists: bool) -> (b: bool)
    ensures
        b == (deep_len matches Some(l) && l > 0 && flag_exists),
{
    match deep_len {
        Some(l) => l > 0 && flag_exists,
        None => false,
    }
}

/// Folder names that are never papers: dot-directories and internal
/// directories.
pub open spec fn never_paper(name: Seq<char>) -> bool {
    (name.len() > 0 && name[0] == '.') || name == "arxivcat_global_chats"@
}

fn is_never_paper(folder_name: &str) -> (b: bool)
    ensures
        b == never_paper(folder_name@),
{
    let s = str_chars(folder_name);
    (s.len() > 0 && s[0] == '.') || text::str_eq(folder_name, GLOBAL_CHATS_DIR)
}

/// What every recognised paper keeps: it is complete exactly when it has
/// its body, it names the folder it was read from, and a summary counts as
/// ready only when the folder holds it complete (non-empty text and ready
/// marker).
pub open spec fn paper_from_folder_inv(p: Paper, folder: Seq<char>, folder_name: Seq<char>, facts: FolderFacts) -> bool {
    &&& p.is_complete == p.has_body
    &&& p.folder@ == folder
    &&& p.folder_name@ == folder_name
    &&& p.description_ready ==> facts.description_complete
    &&& p.deep_ready ==> facts.deep_complete
}

impl Paper {
    /// Recognises a paper folder. Dot-directories and internal directories
    /// are never papers (the raw directory is not excluded here). A folder
    /// with a manifest takes its identity from it; otherwise a legacy folder
    /// name `{id1}_{id2}[_{title}]` is parsed.
    pub fn from_folder(folder: &str, folder_name: &str, facts: FolderFacts) -> (res: Option<Paper>)
        ensures
            never_paper(folder_name@) ==> res is None,
            res matches Some(p) ==> paper_from_folder_inv(p, folder@, folder_name@, facts),
            !never_paper(folder_name@) ==> match facts.manifest {
                Some(m) => res matches Some(p) && p.arxiv_id == m.arxiv_id && p.title == m.title
                    && p.folder_name@ == folder_name@ && p.folder@ == folder@
                    && p.has_body == (m.files.body is Some && facts.manifest_body_is_file)
                    && p.description_ready == (m.description_ready && facts.description_complete)
                    && p.deep_ready == (m.deep_ready && facts.deep_complete)
                    && p.is_complete == p.has_body,
                None => match legacy_identity(folder_name@) {
                    None => res is None,
                    Some((id, title)) => res matches Some(p) && p.arxiv_id@ == id && p.title@ == title
                        && p.folder_name@ == folder_name@ && p.folder@ == folder@
                        && p.has_body == facts.legacy_body_exists
                        && p.description_ready == facts.description_complete
                        && p.deep_ready == facts.deep_complete
                        && p.is_complete == facts.legacy_body_exists,
                },
            },
    {
        if is_never_paper(folder_name) {
            return None;
        }
        let name = string_from_chars(&str_chars(folder_name));
        let path = string_from_chars(&str_chars(folder));
        match facts.manifest {
            Some(m) => {
                let has_body = m.files.body.is_some() && facts.manifest_body_is_file;
                Some(Paper {
                    arxiv_id: m.arxiv_id,
                    title: m.title,
                    folder_name: name,
                    folder: path,
                    has_body,
                    description_ready: m.description_ready && facts.description_complete,
                    deep_ready: m.deep_ready && facts.deep_complete,
                    is_complete: has_body,
                })
            },
            None => match parse_legacy_folder(folder_name) {
                None => None,
                Some((arxiv_id, title)) => Some(Paper {
                    arxiv_id,
                    title,
                    folder_name: name,
                    folder: path,
                    has_body: facts.legacy_body_exists,
                    description_ready: facts.description_complete,
                    deep_ready: facts.deep_complete,
                    is_complete: facts.legacy_body_exists,
                }),
            },
        }
    }
}

// ------------------------------------------------------------------ listing

/// Strict lexicographic order on texts (the order of `String`'s `Ord`).
pub open spec fn text_less(a: Seq<char>, b: Seq<char>) -> bool
    decreases a.len(),
{
    if a.len() == 0 {
        b.len() > 0
    } else if b.len() == 0 {
        false
    } else if a[0] != b[0] {
        (a[0] as u32) < (b[0] as u32)
    } else {
        text_less(a.drop_first(), b.drop_first())
    }
}

/// `a < b` in lexicographic order.
pub fn text_less_exec(a: &[char], b: &[char]) -> (r: bool)
    ensures
        r == text_less(a@, b@),
{
    let mut i: usize = 0;
    assert(a@.skip(0) =~= a@ && b@.skip(0) =~= b@);
    while i < a.len() && i < b.len() && a[i] == b[i]
        invariant
            i <= a@.len(),
            i <= b@.len(),
            text_less(a@, b@) == text_less(a@.skip(i as int), b@.skip(i as int)),
        decreases a@.len() - i,
    {
        proof {
            let x = a@.skip(i as int);
            let y = b@.skip(i as int);
            assert(x.drop_first() =~= a@.skip(i + 1));
            assert(y.drop_first() =~= b@.skip(i + 1));
        }
        i += 1;
    }
    proof {
        let x = a@.skip(i as int);
        let y = b@.skip(i as int);
        if i < a.len() && i < b.len() {
            assert(x[0] == a@[i as int] && y[0] == b@[i as int]);
        }
    }
    if i == a.len() {
        i < b.len()
    } else if i == b.len() {
        false
    } else {
        (a[i] as u32) < (b[i] as u32)
    }
}

/// Inserts `p` into a list sorted by descending ID, after every paper whose
/// ID is not smaller (so equal IDs keep their order of arrival).
pub open spec fn insert_desc(sorted: Seq<Paper>, p: Paper) -> Seq<Paper>
    decreases sorted.len(),
{
    if sorted.len() == 0 {
        seq![p]
    } else if text_less(sorted[0].arxiv_id@, p.arxiv_id@) {
        seq![p] + sorted
    } else {
        seq![sorted[0]] + insert_desc(sorted.drop_first(), p)
    }
}

/// Stable sort by descending arXiv ID.
pub open spec fn sort_desc(s: Seq<Paper>) -> Seq<Paper>
    decreases s.len(),
{
    if s.len() == 0 {
        Seq::empty()
    } else {
        insert_desc(sort_desc(s.drop_last()), s.last())
    }
}

pub open spec fn folder_names(s: Seq<Paper>) -> Seq<Seq<char>> {
    s.map_values(|p: Paper| p.folder_name@)
}

/// The first `n` papers of `s` with later duplicates (same folder name) dropped.
pub open spec fn dedup_folders(s: Seq<Paper>, n: int) -> Seq<Paper>
    decreases n,
{
    if n <= 0 {
        Seq::empty()
    } else {
        let d = dedup_folders(s, n - 1);
        if folder_names(d).contains(s[n - 1].folder_name@) { d } else { d.push(s[n - 1]) }
    }
}

/// The workspace listing: papers under `raw/` first, then papers at the
/// workspace root, each folder name kept once (first seen wins), stably
/// sorted by descending arXiv ID.
pub open spec fn listing(raw: Seq<Paper>, root: Seq<Paper>) -> Seq<Paper> {
    let all = raw + root;
    sort_desc(dedup_folders(all, all.len() as int))
}

/// Index at which `p` goes in a list sorted by descending ID.
fn insert_position(sorted: &Vec<Paper>, p: &Paper) -> (i: usize)
    ensures
        i <= sorted@.len(),
        insert_desc(sorted@, *p) == sorted@.take(i as int) + seq![*p] + sorted@.skip(i as int),
{
    let key = str_chars(p.arxiv_id.as_str());
    let mut i: usize = 0;
    assert(sorted@.skip(0) =~= sorted@ && sorted@.take(0) =~= Seq::<Paper>::empty());
    while i < sorted.len()
        invariant
            i <= sorted@.len(),
            key@ == p.arxiv_id@,
            insert_desc(sorted@, *p) == sorted@.take(i as int) + insert_desc(sorted@.skip(i as int), *p),
        decreases sorted@.len() - i,
    {
        let k = str_chars(sorted[i].arxiv_id.as_str());
        let ghost rest = sorted@.skip(i as int);
        assert(rest[0] == sorted@[i as int]);
        if text_less_exec(&k, &key) {
            return i;
        }
        proof {
            assert(rest.drop_first() =~= sorted@.skip(i + 1));
            assert(sorted@.take(i as int) + seq![rest[0]] =~= sorted@.take(i + 1));
            assert(sorted@.take(i as int) + (seq![rest[0]] + insert_desc(sorted@.skip(i + 1), *p))
                =~= sorted@.take(i + 1) + insert_desc(sorted@.skip(i + 1), *p));
        }
        i += 1;
    }
    proof {
        assert(sorted@.skip(i as int) =~= Seq::<Paper>::empty());
    }
    i
}

fn names_contain(d: &Vec<Paper>, name: &str) -> (b: bool)
    ensures
        b == folder_names(d@).contains(name@),
{
    let mut i: usize = 0;
    while i < d.len()
        invariant
            i <= d@.len(),
            forall|k: int| 0 <= k < i ==> d@[k].folder_name@ != name@,
        decreases d@.len() - i,
    {
        if text::str_eq(d[i].folder_name.as_str(), name) {
            assert(folder_names(d@)[i as int] == name@);
            return true;
        }
        i += 1;
    }
    proof {
        if folder_names(d@).contains(name@) {
            let k = choose|k: int| 0 <= k < folder_names(d@).len() && folder_names(d@)[k] == name@;
            assert(d@[k].folder_name@ == name@);
        }
    }
    false
}

impl Workspace {
    /// Merges the papers found under `raw/` and at the workspace root into the
    /// workspace listing (see [`listing`]).
    pub fn list_papers(raw: Vec<Paper>, root: Vec<Paper>) -> (res: Vec<Paper>)
        ensures
            res@ == listing(raw@, root@),
    {
        let ghost all = raw@ + root@;
        let mut deduped: Vec<Paper> = Vec::new();
        let mut i: usize = 0;
        while i < raw.len()
            invariant
                i <= raw@.len(),
                all == raw@ + root@,
                deduped@ == dedup_folders(all, i as int),
            decreases raw@.len() - i,
        {
            let p = raw[i].duplicate();
            assert(p == all[i as int]);
            if !names_contain(&deduped, p.folder_name.as_str()) {
                deduped.push(p);
            }
            i += 1;
        }
        let mut j: usize = 0;
        while j < root.len()
            invariant
                j <= root@.len(),
                all == raw@ + root@,
                deduped@ == dedup_folders(all, raw@.len() + j),
            decreases root@.len() - j,
        {
            let p = root[j].duplicate();
            assert(p == all[raw@.len() + j]);
            if !names_contain(&deduped, p.folder_name.as_str()) {
                deduped.push(p);
            }
            j += 1;
        }
        let mut sorted: Vec<Paper> = Vec::new();
        let mut j: usize = 0;
        let n = deduped.len();
        assert(deduped@.take(0) =~= Seq::<Paper>::empty());
        while j < n
            invariant
                j <= n == deduped@.len(),
                sorted@ == sort_desc(deduped@.take(j as int)),
            decreases n - j,
        {
            let p = deduped[j].duplicate();
            let pos = insert_position(&sorted, &p);
            proof {
                assert(deduped@.take(j + 1).drop_last() =~= deduped@.take(j as int));
                assert(deduped@.take(j + 1).last() == deduped@[j as int]);
            }
            sorted.insert(pos, p);
            assert(sorted@ =~= sort_desc(deduped@.take(j + 1)));
            j += 1;
        }
        assert(deduped@.take(n as int) =~= deduped@);
        sorted
    }
}

/// The papers behind a sequence of references.
pub open spec fn derefs(s: Seq<&Paper>) -> Seq<Paper> {
    s.map_values(|p: &Paper| *p)
}

/// An open workspace: its folder and the papers listed in it.
#[derive(Debug)]
pub struct Workspace {
    pub path: String,
    pub papers: Vec<Paper>,
}

pub open spec fn not_found_message(path: Seq<char>) -> Seq<char> {
    "workspace not found: "@ + path
}

impl Workspace {
    /// Opens a workspace (read-only): an error when the folder does not exist,
    /// else the listing of its papers.
    pub fn open(path: &str, exists: bool, raw: Vec<Paper>, root: Vec<Paper>) -> (res: Result<Workspace, ArxivError>)
        ensures
            !exists ==> (res matches Err(ArxivError::NotFound(m)) && m@ == not_found_message(path@)),
            exists ==> (res matches Ok(w) && w.path@ == path@ && w.papers@ == listing(raw@, root@)),
    {
        if !exists {
            return Err(ArxivError::NotFound(concat_str("workspace not found: ", path)));
        }
        let papers = Self::list_papers(raw, root);
        Ok(Workspace { path: string_from_chars(&str_chars(path)), papers })
    }

    /// Replaces the listing with a fresh one.
    pub fn refresh(&mut self, raw: Vec<Paper>, root: Vec<Paper>)
        ensures
            final(self).papers@ == listing(raw@, root@),
            final(self).path == old(self).path,
    {
        self.papers = Self::list_papers(raw, root);
    }

    /// The paper stored in folder `folder_name`, if any (the first in listing order).
    pub fn load_paper(&self, folder_name: &str) -> (res: Option<&Paper>)
        ensures
            match res {
                Some(p) => exists|i: int| 0 <= i < self.papers@.len() && self.papers@[i] == *p
                    && p.folder_name@ == folder_name@
                    && forall|j: int| 0 <= j < i ==> #[trigger] self.papers@[j].folder_name@ != folder_name@,
                None => forall|j: int| 0 <= j < self.papers@.len() ==> #[trigger] self.papers@[j].folder_name@ != folder_name@,
            },
    {
        let mut i: usize = 0;
        while i < self.papers.len()
            invariant
                i <= self.papers@.len(),
                forall|j: int| 0 <= j < i ==> #[trigger] self.papers@[j].folder_name@ != folder_name@,
            decreases self.papers@.len() - i,
        {
            if text::str_eq(self.papers[i].folder_name.as_str(), folder_name) {
                return Some(&self.papers[i]);
            }
            i += 1;
        }
        None
    }

    /// Papers whose body has not been extracted yet, in listing order.
    pub fn pending_papers(&self) -> (res: Vec<&Paper>)
        ensures
            derefs(res@) == self.papers@.filter(|p: Paper| !p.is_complete),
    {
        let mut out: Vec<&Paper> = Vec::new();
        let mut i: usize = 0;
        while i < self.papers.len()
            invariant
                i <= self.papers@.len(),
                derefs(out@) == self.papers@.take(i as int).filter(|p: Paper| !p.is_complete),
            decreases self.papers@.len() - i,
        {
            proof {
                reveal_with_fuel(Seq::filter, 1);
                assert(self.papers@.take(i + 1).drop_last() =~= self.papers@.take(i as int));
            }
            if !self.papers[i].is_complete {
                out.push(&self.papers[i]);
                assert(derefs(out@) =~= derefs(out@.drop_last()).push(self.papers@[i as int]));
            }
            i += 1;
        }
        assert(self.papers@.take(i as int) =~= self.papers@);
        out
    }
}

// ---------------------------------------------------------------- lookups

/// The comparison key of an ID: version stripped, lower-cased.
pub open spec fn id_key(id: Seq<char>) -> Seq<char> {
    text::lowercase_spec(manifest::strip_version_spec(id))
}

/// A query with `.` and `-` turned into `_`, lower-cased (folder-name form).
pub open spec fn normalized_query(q: Seq<char>) -> Seq<char> {
    text::lowercase_spec(q.map_values(|c: char| if c == '.' || c == '-' { '_' } else { c }))
}

/// The first two `_`-separated segments of a folder name, rejoined by `_`.
pub open spec fn first_two_segments(name: Seq<char>) -> Seq<char> {
    match text::find_from(name, underscore(), 0) {
        None => name,
        Some(i) => match text::find_from(name, underscore(), i + 1) {
            None => name,
            Some(j) => name.take(j),
        },
    }
}

pub open spec fn folder_key(name: Seq<char>) -> Seq<char> {
    text::lowercase_spec(first_two_segments(name))
}

/// `b` begins with `a`.
pub open spec fn is_prefix(a: Seq<char>, b: Seq<char>) -> bool {
    a.len() <= b.len() && b.take(a.len() as int) == a
}

pub open spec fn exact_match(q: Seq<char>) -> spec_fn(Paper) -> bool {
    |p: Paper| id_key(p.arxiv_id@) == id_key(q)
}

pub open spec fn prefix_match(q: Seq<char>) -> spec_fn(Paper) -> bool {
    |p: Paper| is_prefix(normalized_query(q), folder_key(p.folder_name@))
        || is_prefix(folder_key(p.folder_name@), normalized_query(q))
}

/// Papers matching a query: those whose version-less ID equals the query's
/// (case-insensitively); failing any, those whose folder-name ID and the
/// normalised query are prefixes one of the other.
pub open spec fn matches_by_id(papers: Seq<Paper>, q: Seq<char>) -> Seq<Paper> {
    let exact = papers.filter(exact_match(q));
    if exact.len() > 0 {
        exact
    } else {
        papers.filter(prefix_match(q))
    }
}

fn id_key_exec(id: &str) -> (r: String)
    ensures
        r@ == id_key(id@),
{
    let stripped = strip_version(id);
    text::to_lowercase(stripped.as_str())
}

fn normalized_query_exec(q: &str) -> (r: String)
    ensures
        r@ == normalized_query(q@),
{
    let s = str_chars(q);
    let mut out: Vec<char> = Vec::new();
    let mut i: usize = 0;
    while i < s.len()
        invariant
            i <= s@.len(),
            out@ == s@.take(i as int).map_values(|c: char| if c == '.' || c == '-' { '_' } else { c }),
        decreases s@.len() - i,
    {
        let c = s[i];
        out.push(if c == '.' || c == '-' { '_' } else { c });
        assert(s@.take(i + 1).map_values(|c: char| if c == '.' || c == '-' { '_' } else { c })
            =~= s@.take(i as int).map_values(|c: char| if c == '.' || c == '-' { '_' } else { c }).push(if c == '.' || c == '-' { '_' } else { c }));
        i += 1;
    }
    assert(s@.take(s@.len() as int) =~= s@);
    let joined = string_from_chars(&out);
    text::to_lowercase(joined.as_str())
}

fn folder_key_exec(name: &str) -> (r: String)
    ensures
        r@ == folder_key(name@),
{
    let s = str_chars(name);
    let n = s.len();
    let us = vec!['_'];
    assert(us@ =~= underscore());
    proof { text::lemma_find_from(s@, underscore(), 0); }
    let head = match text::find_chars(&s, &us, 0) {
        None => string_from_chars(&s),
        Some(i) => {
            proof { text::lemma_find_from(s@, underscore(), i + 1); }
            match text::find_chars(&s, &us, i + 1) {
                None => string_from_chars(&s),
                Some(j) => {
                    let t = &s[0..j];
                    assert(t@ =~= s@.take(j as int));
                    string_from_chars(t)
                },
            }
        },
    };
    text::to_lowercase(head.as_str())
}

fn is_prefix_exec(a: &str, b: &str) -> (r: bool)
    ensures
        r == is_prefix(a@, b@),
{
    let x = str_chars(a);
    let y = str_chars(b);
    text::starts_with_chars(&y, &x)
}

impl Workspace {
    /// The papers whose version-less ID equals the query's, ignoring case,
    /// in workspace order.
    pub fn exact_papers(&self, arxiv_id: &str) -> (res: Vec<&Paper>)
        ensures
            derefs(res@) == self.papers@.filter(exact_match(arxiv_id@)),
    {
        let base = id_key_exec(arxiv_id);
        let ghost q = arxiv_id@;
        let mut exact: Vec<&Paper> = Vec::new();
        let mut i: usize = 0;
        while i < self.papers.len()
            invariant
                i <= self.papers@.len(),
                base@ == id_key(q),
                q == arxiv_id@,
                derefs(exact@) == self.papers@.take(i as int).filter(exact_match(q)),
            decreases self.papers@.len() - i,
        {
            proof {
                reveal_with_fuel(Seq::filter, 1);
                assert(self.papers@.take(i + 1).drop_last() =~= self.papers@.take(i as int));
            }
            let k = id_key_exec(self.papers[i].arxiv_id.as_str());
            if text::str_eq(k.as_str(), base.as_str()) {
                exact.push(&self.papers[i]);
                assert(derefs(exact@) =~= derefs(exact@.drop_last()).push(self.papers@[i as int]));
            }
            i += 1;
        }
        assert(self.papers@.take(i as int) =~= self.papers@);
        exact
    }

    /// All papers matching an ID or query (see [`matches_by_id`]); callers
    /// treat more than one result as an ambiguity.
    pub fn find_papers_by_id(&self, arxiv_id: &str) -> (res: Vec<&Paper>)
        ensures
            derefs(res@) == matches_by_id(self.papers@, arxiv_id@),
    {
        let ghost q = arxiv_id@;
        let exact = self.exact_papers(arxiv_id);
        if exact.len() > 0 {
            return exact;
        }
        let normalized = normalized_query_exec(arxiv_id);
        let mut out: Vec<&Paper> = Vec::new();
        let mut j: usize = 0;
        while j < self.papers.len()
            invariant
                j <= self.papers@.len(),
                normalized@ == normalized_query(q),
                q == arxiv_id@,
                derefs(out@) == self.papers@.take(j as int).filter(prefix_match(q)),
            decreases self.papers@.len() - j,
        {
            proof {
                reveal_with_fuel(Seq::filter, 1);
                assert(self.papers@.take(j + 1).drop_last() =~= self.papers@.take(j as int));
            }
            let fid = folder_key_exec(self.papers[j].folder_name.as_str());
            if is_prefix_exec(normalized.as_str(), fid.as_str()) || is_prefix_exec(fid.as_str(), normalized.as_str()) {
                out.push(&self.papers[j]);
                assert(derefs(out@) =~= derefs(out@.drop_last()).push(self.papers@[j as int]));
            }
            j += 1;
        }
        assert(self.papers@.take(j as int) =~= self.papers@);
        out
    }

    /// The first paper matching `arxiv_id` (see [`matches_by_id`]); silently
    /// picks one when several match.
    pub fn find_paper_by_id(&self, arxiv_id: &str) -> (res: Option<&Paper>)
        ensures
            match res {
                Some(p) => matches_by_id(self.papers@, arxiv_id@).len() > 0 && *p == matches_by_id(self.papers@, arxiv_id@)[0],
                None => matches_by_id(self.papers@, arxiv_id@).len() == 0,
            },
    {
        let all = self.find_papers_by_id(arxiv_id);
        if all.len() > 0 {
            assert(derefs(all@)[0] == *all@[0]);
            Some(all[0])
        } else {
            None
        }
    }
}

// ------------------------------------------------------------- re-download

/// What a re-download keeps of a paper's folder: the note, both summaries,
/// the saved chats and the summaries' ready flags.
pub open spec fn kept_on_redownload_spec() -> Seq<Seq<char>> {
    seq!["note.txt"@, "brief_summary.md"@, "deep_summary.md"@, "arxiv_chats"@, ".description_ready"@, ".deep_ready"@]
}

/// The names of the entries a re-download keeps.
pub fn kept_on_redownload() -> (r: Vec<String>)
    ensures
        text::string_views(r@) == kept_on_redownload_spec(),
{
    let mut r: Vec<String> = Vec::new();
    r.push(String::from_str("note.txt"));
    r.push(String::from_str("brief_summary.md"));
    r.push(String::from_str("deep_summary.md"));
    r.push(String::from_str("arxiv_chats"));
    r.push(String::from_str(".description_ready"));
    r.push(String::from_str(".deep_ready"));
    assert(text::string_views(r@) =~= kept_on_redownload_spec());
    r
}

// ------------------------------------------------------------------- tags

pub open spec fn join_path(base: Seq<char>, name: Seq<char>) -> Seq<char> {
    if base.len() == 0 {
        name
    } else if base.last() == '/' {
        base + name
    } else {
        base + seq!['/'] + name
    }
}

/// Joins a path and a relative name with `/` (no separator added after an
/// empty or `/`-terminated base).
pub fn join_path_exec(base: &str, name: &str) -> (r: String)
    ensures
        r@ == join_path(base@, name@),
{
    let b = str_chars(base);
    if b.len() == 0 {
        return string_from_chars(&str_chars(name));
    }
    if b[b.len() - 1] == '/' {
        return concat_str(base, name);
    }
    let with_sep = concat_str(base, "/");
    proof { reveal_strlit("/"); }
    let r = concat_str(with_sep.as_str(), name);
    assert(r@ =~= base@ + seq!['/'] + name@);
    r
}

/// The relative symlink target from a tag directory at the workspace root to
/// a paper folder: `../raw/{folder}` for papers under `raw/`, else `../{folder}`.
pub open spec fn tag_link_target_spec(ws: Seq<char>, folder: Seq<char>, folder_name: Seq<char>) -> Seq<char> {
    let raw = join_path(ws, "raw"@);
    if folder == raw || is_prefix(raw + seq!['/'], folder) {
        "../raw/"@ + folder_name
    } else {
        "../"@ + folder_name
    }
}

/// Where a tag's link to a paper points, relative to the tag directory.
pub fn tag_link_target(ws: &str, paper: &Paper) -> (r: String)
    ensures
        r@ == tag_link_target_spec(ws@, paper.folder@, paper.folder_name@),
{
    let raw = join_path_exec(ws, RAW_DIR);
    let raw_slash = concat_str(raw.as_str(), "/");
    proof { reveal_strlit("/"); }
    assert(raw_slash@ =~= raw@ + seq!['/']);
    if text::str_eq(paper.folder.as_str(), raw.as_str()) || is_prefix_exec(raw_slash.as_str(), paper.folder.as_str()) {
        concat_str("../raw/", paper.folder_name.as_str())
    } else {
        concat_str("../", paper.folder_name.as_str())
    }
}


/// Whether `s` is one of the strings of `v`.
pub fn contains_str(v: &Vec<String>, s: &str) -> (r: bool)
    ensures
        r == text::string_views(v@).contains(s@),
{
    let ghost vv = text::string_views(v@);
    let mut i: usize = 0;
    while i < v.len()
        invariant
            i <= v@.len(),
            vv == text::string_views(v@),
            forall|j: int| 0 <= j < i ==> vv[j] != s@,
        decreases v@.len() - i,
    {
        if text::str_eq(v[i].as_str(), s) {
            assert(vv[i as int] == s@);
            return true;
        }
        i += 1;
    }
    proof {
        if vv.contains(s@) {
            let j = choose|j: int| 0 <= j < vv.len() && vv[j] == s@;
            assert(vv[j] != s@);
        }
    }
    false
}

/// The base IDs of the papers of a workspace.
pub open spec fn base_ids(papers: Seq<Paper>) -> Seq<Seq<char>> {
    papers.map_values(|p: Paper| manifest::strip_version_spec(p.arxiv_id@))
}

/// The base IDs that a scan of the workspace's PDFs adds, in the order the
/// PDFs were read: each found ID without its version, unless a paper or an
/// earlier PDF already has it.
pub open spec fn new_ids_spec(existing: Seq<Seq<char>>, found: Seq<Seq<char>>) -> Seq<Seq<char>>
    decreases found.len(),
{
    if found.len() == 0 {
        Seq::empty()
    } else {
        let prev = new_ids_spec(existing, found.drop_last());
        let b = manifest::strip_version_spec(found.last());
        if existing.contains(b) || prev.contains(b) {
            prev
        } else {
            prev.push(b)
        }
    }
}

/// The base IDs that the PDFs of a scan add to the workspace (the IDs read
/// from the PDFs are given in `found`).
pub fn new_paper_ids(papers: &Vec<Paper>, found: &Vec<String>) -> (r: Vec<String>)
    ensures
        text::string_views(r@) == new_ids_spec(base_ids(papers@), text::string_views(found@)),
{
    let mut existing: Vec<String> = Vec::new();
    let mut k: usize = 0;
    while k < papers.len()
        invariant
            k <= papers@.len(),
            text::string_views(existing@) == base_ids(papers@.take(k as int)),
        decreases papers@.len() - k,
    {
        let b = strip_version(papers[k].arxiv_id.as_str());
        let ghost e0 = existing@;
        existing.push(b);
        assert(text::string_views(existing@) =~= text::string_views(e0).push(b@));
        assert(base_ids(papers@.take(k + 1)) =~= base_ids(papers@.take(k as int)).push(
            manifest::strip_version_spec(papers@[k as int].arxiv_id@),
        ));
        k += 1;
    }
    assert(papers@.take(papers@.len() as int) =~= papers@);
    let ghost fv = text::string_views(found@);
    let mut out: Vec<String> = Vec::new();
    let mut i: usize = 0;
    while i < found.len()
        invariant
            i <= found@.len(),
            fv == text::string_views(found@),
            text::string_views(existing@) == base_ids(papers@),
            text::string_views(out@) == new_ids_spec(base_ids(papers@), fv.take(i as int)),
        decreases found@.len() - i,
    {
        let b = strip_version(found[i].as_str());
        assert(fv.take(i + 1).drop_last() =~= fv.take(i as int));
        assert(fv.take(i + 1).last() == fv[i as int]);
        if !contains_str(&existing, b.as_str()) && !contains_str(&out, b.as_str()) {
            let ghost o0 = out@;
            out.push(b);
            assert(text::string_views(out@) =~= text::string_views(o0).push(b@));
        }
        i += 1;
    }
    assert(fv.take(found@.len() as int) =~= fv);
    out
}

/// A scan never adds an ID the workspace already has, nor one twice.
pub proof fn law_scan_adds_each_new_id_once(existing: Seq<Seq<char>>, found: Seq<Seq<char>>)
    ensures
        forall|i: int| 0 <= i < new_ids_spec(existing, found).len() ==> !existing.contains(
            #[trigger] new_ids_spec(existing, found)[i],
        ),
        forall|i: int, j: int|
            0 <= i < j < new_ids_spec(existing, found).len() ==> new_ids_spec(existing, found)[i]
                != new_ids_spec(existing, found)[j],
    decreases found.len(),
{
    if found.len() > 0 {
        law_scan_adds_each_new_id_once(existing, found.drop_last());
        let prev = new_ids_spec(existing, found.drop_last());
        let b = manifest::strip_version_spec(found.last());
        if !(existing.contains(b) || prev.contains(b)) {
            let r = prev.push(b);
            assert forall|i: int, j: int| 0 <= i < j < r.len() implies r[i] != r[j] by {
                if j == r.len() - 1 {
                    if r[i] == r[j] {
                        assert(prev[i] == b);
                        assert(prev.contains(b));
                    }
                }
            }
        }
    }
}
/// A query picks the papers whose version-less ID is the query's (case
/// aside); only when there is none does it fall back to the papers whose
/// folder-name ID (first two `_`-separated parts, lower-cased) begins with
/// the normalised query or is itself a beginning of it. Nothing else is
/// picked.
pub proof fn law_query_matches(papers: Seq<Paper>, q: Seq<char>, p: Paper)
    requires
        papers.contains(p),
    ensures
        forall|k: int| 0 <= k < matches_by_id(papers, q).len() ==> papers.contains(#[trigger] matches_by_id(papers, q)[k]),
        id_key(p.arxiv_id@) == id_key(q) ==> matches_by_id(papers, q).contains(p),
        ({
            let nq = normalized_query(q);
            let fk = folder_key(p.folder_name@);
            let exact_none = forall|i: int| 0 <= i < papers.len() ==> id_key(#[trigger] papers[i].arxiv_id@) != id_key(q);
            exact_none ==> (matches_by_id(papers, q).contains(p) <==> (
                (nq.len() <= fk.len() && fk.take(nq.len() as int) == nq)
                || (fk.len() <= nq.len() && nq.take(fk.len() as int) == fk)))
        }),
        !(forall|i: int| 0 <= i < papers.len() ==> id_key(#[trigger] papers[i].arxiv_id@) != id_key(q))
            ==> (matches_by_id(papers, q).contains(p) <==> id_key(p.arxiv_id@) == id_key(q)),
{
    broadcast use vstd::seq_lib::group_filter_ensures;
    let i = choose|i: int| 0 <= i < papers.len() && papers[i] == p;
    let exact = papers.filter(exact_match(q));
    let pre = papers.filter(prefix_match(q));
    if !(forall|j: int| 0 <= j < papers.len() ==> id_key(#[trigger] papers[j].arxiv_id@) != id_key(q)) {
        let j = choose|j: int| 0 <= j < papers.len() && id_key(#[trigger] papers[j].arxiv_id@) == id_key(q);
        assert(exact.contains(papers[j]));
        assert(exact.len() > 0);
    } else {
        if exact.len() > 0 {
            let x = exact[0];
            assert(exact.contains(x));
            papers.lemma_filter_contains_rev(exact_match(q), x);
            assert(papers.contains(x));
            let k = choose|k: int| 0 <= k < papers.len() && papers[k] == x;
            assert(id_key(papers[k].arxiv_id@) != id_key(q));
        }
        assert(exact.len() == 0);
    }
    if matches_by_id(papers, q).contains(p) {
        if exact.len() > 0 {
            assert(exact.contains(p));
        } else {
            assert(pre.contains(p));
        }
    }
    assert(papers[i] == p);
    let m = matches_by_id(papers, q);
    assert forall|k: int| 0 <= k < m.len() implies papers.contains(#[trigger] m[k]) by {
        assert(m.contains(m[k]));
        if exact.len() > 0 {
            papers.lemma_filter_contains_rev(exact_match(q), m[k]);
        } else {
            papers.lemma_filter_contains_rev(prefix_match(q), m[k]);
        }
    }
}

} // verus!
