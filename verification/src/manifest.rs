//! `paper.json`: the manifest that is the single source of truth for a paper
//! folder (identity, inventory of files, readiness flags, retry cooldown and
//! tags).
use vstd::prelude::*;
use crate::text;
use crate::text::{str_chars, string_from_chars, clone_opt_string, clone_strings};

verus! {

/// The manifest's file name in a paper folder.
pub const MANIFEST_FILENAME: &'static str = "paper.json";

/// Length of the retry cooldown armed by a failure: 24 hours, in milliseconds.
pub const COOLDOWN_MS: u64 = 86_400_000;

/// Relative paths (from the paper folder) of the files present.
#[derive(Debug)]
pub struct ManifestFiles {
    pub body: Option<String>,
    pub appendix: Option<String>,
    pub note: Option<String>,
    pub pdf: Option<String>,
    pub description: Option<String>,
}

/// What a paper folder records about its paper.
#[derive(Debug)]
pub struct PaperManifest {
    pub schema: u32,
    /// Canonical arXiv ID, with its version suffix when known (`2501.12948v2`).
    pub arxiv_id: String,
    /// The ID without version (`2501.12948`).
    pub base_id: String,
    pub title: String,
    /// ISO-8601 download timestamp; empty for legacy folders.
    pub downloaded_at: String,
    pub files: ManifestFiles,
    pub description_ready: bool,
    pub deep_ready: bool,
    /// Last failure reason.
    pub last_error: Option<String>,
    /// Unix milliseconds before which a retry is refused (0 = no cooldown).
    pub cooldown_until_ms: u64,
    /// Tags the paper is classified under, in the order they were added.
    pub categories: Vec<String>,
}

/// The trimmed identifier ends in `v` followed by one or more digits.
pub open spec fn has_version_suffix(t: Seq<char>) -> bool {
    exists|i: int| 0 <= i < t.len() - 1 && #[trigger] t[i] == 'v' && forall|j: int| i < j < t.len() ==> text::is_digit(#[trigger] t[j])
}

/// The identifier without surrounding white space and without a trailing
/// `v<digits>` version suffix.
pub open spec fn strip_version_spec(id: Seq<char>) -> Seq<char> {
    let t = text::trim(id);
    if has_version_suffix(t) {
        let i = choose|i: int| 0 <= i < t.len() - 1 && #[trigger] t[i] == 'v' && forall|j: int| i < j < t.len() ==> text::is_digit(#[trigger] t[j]);
        t.take(i)
    } else {
        t
    }
}

/// Strips the version suffix from an arXiv ID: `2501.12948v2` -> `2501.12948`.
/// No-op (apart from trimming white space) when there is no `v<N>` suffix.
pub fn strip_version(id: &str) -> (res: String)
    ensures
        res@ == strip_version_spec(id@),
{
    let s = str_chars(id);
    let t = text::trim_chars(&s);
    // last 'v'
    let mut i = t.len();
    while i > 0 && t[i - 1] != 'v'
        invariant
            i <= t@.len(),
            forall|j: int| i <= j < t@.len() ==> t@[j] != 'v',
        decreases i,
    {
        i -= 1;
    }
    if i > 0 && i < t.len() {
        let v = i - 1;
        // suffix t[v+1..] must be all digits
        let mut k = i;
        while k < t.len() && '0' <= t[k] && t[k] <= '9'
            invariant
                i <= k <= t@.len(),
                forall|j: int| i <= j < k ==> text::is_digit(#[trigger] t@[j]),
            decreases t@.len() - k,
        {
            k += 1;
        }
        if k == t.len() {
            proof {
                assert(t@[v as int] == 'v');
                assert(has_version_suffix(t@));
                let c = choose|c: int| 0 <= c < t@.len() - 1 && #[trigger] t@[c] == 'v' && forall|j: int| c < j < t@.len() ==> text::is_digit(#[trigger] t@[j]);
                if c < v {
                    assert(text::is_digit(t@[v as int]));
                } else if c > v {
                    assert(t@[c] != 'v');
                }
            }
            let head = &t[0..v];
            assert(head@ =~= t@.take(v as int));
            return string_from_chars(head);
        } else {
            proof {
                if has_version_suffix(t@) {
                    let c = choose|c: int| 0 <= c < t@.len() - 1 && #[trigger] t@[c] == 'v' && forall|j: int| c < j < t@.len() ==> text::is_digit(#[trigger] t@[j]);
                    if c < v {
                        assert(text::is_digit(t@[v as int]));
                    } else if c > v {
                        assert(t@[c] != 'v');
                    } else {
                        assert(text::is_digit(t@[k as int]));
                    }
                }
            }
        }
    } else {
        proof {
            if has_version_suffix(t@) {
                let c = choose|c: int| 0 <= c < t@.len() - 1 && #[trigger] t@[c] == 'v' && forall|j: int| c < j < t@.len() ==> text::is_digit(#[trigger] t@[j]);
                if i == 0 {
                    assert(t@[c] != 'v');
                } else {
                    assert(t@[c] != 'v' || c == i - 1);
                }
            }
        }
    }
    string_from_chars(&t)
}

/// Which files and flag files a paper folder holds (gathered by the caller).
pub struct FolderInventory {
    /// `body.tex` is a file.
    pub body: bool,
    /// `appendix.tex` is a file.
    pub appendix: bool,
    /// `note.txt` is a file.
    pub note: bool,
    /// `{base_id}.pdf` is a file.
    pub pdf: bool,
    /// `brief_summary.md` is a file.
    pub brief: bool,
    /// `description.md` (the older name of the brief) is a file.
    pub legacy_description: bool,
    /// `.description_ready` is a file.
    pub description_flag: bool,
    /// `deep_summary.md` is a file.
    pub deep_summary: bool,
    /// `.deep_ready` is a file.
    pub deep_flag: bool,
}

pub open spec fn opt_view(o: Option<String>) -> Option<Seq<char>> {
    match o {
        Some(s) => Some(s@),
        None => None,
    }
}

pub open spec fn file_if(present: bool, name: Seq<char>) -> Option<Seq<char>> {
    if present { Some(name) } else { None }
}

/// The brief's file name when one is present: `brief_summary.md`, else the
/// older `description.md`.
pub open spec fn description_file(inv: &FolderInventory) -> Option<Seq<char>> {
    if inv.brief {
        Some("brief_summary.md"@)
    } else if inv.legacy_description {
        Some("description.md"@)
    } else {
        None
    }
}

pub open spec fn cats_view(v: Seq<String>) -> Seq<Seq<char>> {
    v.map_values(|s: String| s@)
}

fn file_name_if(present: bool, name: &str) -> (r: Option<String>)
    ensures
        opt_view(r) == file_if(present, name@),
{
    if present { Some(string_from_chars(&str_chars(name))) } else { None }
}

/// Builds the manifest of a paper folder from its current inventory.
/// Download time, error/cooldown state and tags carry over from `prev`, the
/// previous manifest of the folder, when there is one.
pub fn scan_manifest(prev: Option<&PaperManifest>, inv: &FolderInventory, arxiv_id: &str, title: &str) -> (m: PaperManifest)
    ensures
        m.schema == 1,
        m.arxiv_id@ == arxiv_id@,
        m.base_id@ == strip_version_spec(arxiv_id@),
        m.title@ == title@,
        opt_view(m.files.body) == file_if(inv.body, "body.tex"@),
        opt_view(m.files.appendix) == file_if(inv.appendix, "appendix.tex"@),
        opt_view(m.files.note) == file_if(inv.note, "note.txt"@),
        opt_view(m.files.pdf) == file_if(inv.pdf, strip_version_spec(arxiv_id@) + ".pdf"@),
        opt_view(m.files.description) == description_file(inv),
        m.description_ready == (description_file(inv) is Some && inv.description_flag),
        m.deep_ready == (inv.deep_summary && inv.deep_flag),
        match prev {
            Some(p) => m.downloaded_at == p.downloaded_at && m.last_error == p.last_error
                && m.cooldown_until_ms == p.cooldown_until_ms && m.categories@ == p.categories@,
            None => m.downloaded_at@ == Seq::<char>::empty() && m.last_error is None
                && m.cooldown_until_ms == 0 && m.categories@.len() == 0,
        },
{
    let base_id = strip_version(arxiv_id);
    let mut pdf_name = str_chars(base_id.as_str());
    let ext = str_chars(".pdf");
    let ghost b0 = pdf_name@;
    let mut k: usize = 0;
    while k < ext.len()
        invariant
            k <= ext@.len(),
            pdf_name@ == b0 + ext@.take(k as int),
        decreases ext@.len() - k,
    {
        pdf_name.push(ext[k]);
        assert(b0 + ext@.take(k + 1) =~= (b0 + ext@.take(k as int)).push(ext@[k as int]));
        k += 1;
    }
    assert(ext@.take(ext@.len() as int) =~= ext@);
    let pdf = if inv.pdf { Some(string_from_chars(&pdf_name)) } else { None };
    let description = if inv.brief {
        Some(string_from_chars(&str_chars("brief_summary.md")))
    } else if inv.legacy_description {
        Some(string_from_chars(&str_chars("description.md")))
    } else {
        None
    };
    let description_ready = description.is_some() && inv.description_flag;
    let files = ManifestFiles {
        body: file_name_if(inv.body, "body.tex"),
        appendix: file_name_if(inv.appendix, "appendix.tex"),
        note: file_name_if(inv.note, "note.txt"),
        pdf,
        description,
    };
    let (downloaded_at, last_error, cooldown_until_ms, categories) = match prev {
        Some(p) => (p.downloaded_at.clone(), clone_opt_string(&p.last_error), p.cooldown_until_ms, clone_strings(&p.categories)),
        None => (String::new(), None, 0, Vec::new()),
    };
    PaperManifest {
        schema: 1,
        arxiv_id: string_from_chars(&str_chars(arxiv_id)),
        base_id,
        title: string_from_chars(&str_chars(title)),
        downloaded_at,
        files,
        description_ready,
        deep_ready: inv.deep_summary && inv.deep_flag,
        last_error,
        cooldown_until_ms,
        categories,
    }
}

pub open spec fn in_cooldown_spec(m: &PaperManifest, now_ms: u64) -> bool {
    m.cooldown_until_ms > now_ms
}

/// `true` while the paper is inside its retry cooldown window.
pub fn in_cooldown(manifest: &PaperManifest, now_ms: u64) -> (b: bool)
    ensures
        b == in_cooldown_spec(manifest, now_ms),
{
    manifest.cooldown_until_ms > now_ms
}

/// A manifest with no identity, no files and no state (for a folder that had none).
pub fn empty_manifest() -> (m: PaperManifest)
    ensures
        m.schema == 1,
        m.arxiv_id@.len() == 0,
        m.base_id@.len() == 0,
        m.title@.len() == 0,
        m.downloaded_at@.len() == 0,
        m.files.body is None && m.files.appendix is None && m.files.note is None
            && m.files.pdf is None && m.files.description is None,
        !m.description_ready && !m.deep_ready,
        m.last_error is None,
        m.cooldown_until_ms == 0,
        m.categories@.len() == 0,
{
    PaperManifest {
        schema: 1,
        arxiv_id: String::new(),
        base_id: String::new(),
        title: String::new(),
        downloaded_at: String::new(),
        files: ManifestFiles { body: None, appendix: None, note: None, pdf: None, description: None },
        description_ready: false,
        deep_ready: false,
        last_error: None,
        cooldown_until_ms: 0,
        categories: Vec::new(),
    }
}

/// The fields of a record other than its failure and cooldown are equal.
pub open spec fn same_record(a: PaperManifest, b: PaperManifest) -> bool {
    &&& a.schema == b.schema
    &&& a.arxiv_id == b.arxiv_id
    &&& a.base_id == b.base_id
    &&& a.title == b.title
    &&& a.downloaded_at == b.downloaded_at
    &&& a.files == b.files
    &&& a.description_ready == b.description_ready
    &&& a.deep_ready == b.deep_ready
    &&& a.categories == b.categories
}

/// `m` is `prev` with the failure `error` recorded at `now` and the cooldown
/// armed from then.
pub open spec fn failure_recorded(prev: PaperManifest, error: Seq<char>, now: int, m: PaperManifest) -> bool {
    &&& same_record(m, prev)
    &&& m.last_error matches Some(e) && e@ == error
    &&& m.cooldown_until_ms == now + COOLDOWN_MS
}

/// `after` is `before` with its failure and cooldown cleared.
pub open spec fn cooldown_cleared(before: PaperManifest, after: PaperManifest) -> bool {
    &&& same_record(after, before)
    &&& after.last_error is None
    &&& after.cooldown_until_ms == 0
}

/// Records a failure and arms the 24 h cooldown from `now_ms`. A folder
/// without a manifest (`prev` is `None`) gets a minimal one, so the cooldown
/// survives across runs.
pub fn mark_failure(prev: Option<PaperManifest>, error: &str, now_ms: u64) -> (m: PaperManifest)
    requires
        now_ms <= u64::MAX - COOLDOWN_MS,
    ensures
        m.last_error matches Some(e) && e@ == error@,
        m.cooldown_until_ms == now_ms + COOLDOWN_MS,
        match prev {
            Some(p) => failure_recorded(p, error@, now_ms as int, m),
            None => m.schema == 1 && m.arxiv_id@.len() == 0 && m.base_id@.len() == 0
                && m.title@.len() == 0 && m.downloaded_at@.len() == 0 && m.files.body is None
                && m.files.appendix is None && m.files.note is None && m.files.pdf is None
                && m.files.description is None && !m.description_ready && !m.deep_ready
                && m.categories@.len() == 0,
        },
{
    let mut m = match prev {
        Some(p) => p,
        None => empty_manifest(),
    };
    m.last_error = Some(string_from_chars(&str_chars(error)));
    m.cooldown_until_ms = now_ms + COOLDOWN_MS;
    m
}

/// Clears the error and the cooldown after a successful operation.
pub fn clear_cooldown(m: &mut PaperManifest)
    ensures
        cooldown_cleared(*old(m), *final(m)),
{
    m.last_error = None;
    m.cooldown_until_ms = 0;
}

/// Recording a failure on a record that has none and then clearing the
/// cooldown gives back the record as it was, field by field.
pub proof fn law_clear_undoes_failure(
    p: PaperManifest,
    error: Seq<char>,
    now: int,
    failed: PaperManifest,
    cleared: PaperManifest,
)
    requires
        p.last_error is None,
        p.cooldown_until_ms == 0,
        failure_recorded(p, error, now, failed),
        cooldown_cleared(failed, cleared),
    ensures
        cleared == p,
{
}

/// Tags after adding `tag`: unchanged when already present, else appended.
pub open spec fn add_tag_spec(cats: Seq<Seq<char>>, tag: Seq<char>) -> Seq<Seq<char>> {
    if cats.contains(tag) { cats } else { cats.push(tag) }
}

/// Tags after removing every occurrence of `tag`.
pub open spec fn remove_tag_spec(cats: Seq<Seq<char>>, tag: Seq<char>) -> Seq<Seq<char>> {
    cats.filter(not_tag(tag))
}

pub open spec fn not_tag(tag: Seq<char>) -> spec_fn(Seq<char>) -> bool {
    |c: Seq<char>| c != tag
}

fn position_of(v: &Vec<String>, tag: &str) -> (r: Option<usize>)
    ensures
        match r {
            Some(i) => i < v@.len() && v@[i as int]@ == tag@,
            None => !cats_view(v@).contains(tag@),
        },
{
    let mut i: usize = 0;
    while i < v.len()
        invariant
            i <= v@.len(),
            forall|k: int| 0 <= k < i ==> v@[k]@ != tag@,
        decreases v@.len() - i,
    {
        if text::str_eq(v[i].as_str(), tag) {
            return Some(i);
        }
        i += 1;
    }
    proof {
        if cats_view(v@).contains(tag@) {
            let k = choose|k: int| 0 <= k < cats_view(v@).len() && cats_view(v@)[k] == tag@;
            assert(v@[k]@ == tag@);
        }
    }
    None
}

/// Records `tag` among the paper's categories (idempotent). Returns whether
/// the manifest changed.
pub fn add_category(m: &mut PaperManifest, tag: &str) -> (changed: bool)
    ensures
        cats_view(final(m).categories@) == add_tag_spec(cats_view(old(m).categories@), tag@),
        changed == !cats_view(old(m).categories@).contains(tag@),
{
    match position_of(&m.categories, tag) {
        Some(i) => {
            assert(cats_view(m.categories@)[i as int] == tag@);
            false
        },
        None => {
            m.categories.push(string_from_chars(&str_chars(tag)));
            assert(cats_view(m.categories@) =~= cats_view(old(m).categories@).push(tag@));
            true
        },
    }
}

/// Drops every occurrence of `tag` from the paper's categories. Returns
/// whether the manifest changed.
pub fn remove_category(m: &mut PaperManifest, tag: &str) -> (changed: bool)
    ensures
        cats_view(final(m).categories@) == remove_tag_spec(cats_view(old(m).categories@), tag@),
        changed == cats_view(old(m).categories@).contains(tag@),
{
    let ghost old_cats = cats_view(m.categories@);
    let mut kept: Vec<String> = Vec::new();
    let mut removed = false;
    let mut i: usize = 0;
    let n = m.categories.len();
    while i < n
        invariant
            i <= n == m.categories@.len(),
            old_cats == cats_view(m.categories@),
            cats_view(kept@) == remove_tag_spec(old_cats.take(i as int), tag@),
            removed == old_cats.take(i as int).contains(tag@),
        decreases n - i,
    {
        let is_tag = text::str_eq(m.categories[i].as_str(), tag);
        proof {
            let pre = old_cats.take(i as int);
            assert(old_cats.take(i + 1) =~= pre.push(old_cats[i as int]));
            assert(pre.push(old_cats[i as int]).filter(not_tag(tag@)) == {
                let f = pre.filter(not_tag(tag@));
                if old_cats[i as int] != tag@ { f.push(old_cats[i as int]) } else { f }
            }) by {
                pre.filter_lemma(not_tag(tag@));
                reveal_with_fuel(Seq::filter, 1);
                assert(pre.push(old_cats[i as int]).drop_last() =~= pre);
            }
            if old_cats.take(i + 1).contains(tag@) && !pre.contains(tag@) {
                let t1 = old_cats.take(i + 1);
                let k = choose|k: int| 0 <= k < t1.len() && t1[k] == tag@;
                assert(k == i);
            }
            if pre.contains(tag@) {
                let k = choose|k: int| 0 <= k < pre.len() && pre[k] == tag@;
                assert(old_cats.take(i + 1)[k] == tag@);
            }
            if is_tag {
                assert(old_cats.take(i + 1)[i as int] == tag@);
            }
        }
        if is_tag {
            removed = true;
        } else {
            kept.push(m.categories[i].clone());
            assert(cats_view(kept@) =~= cats_view(kept@.drop_last()).push(old_cats[i as int]));
        }
        i += 1;
    }
    assert(old_cats.take(n as int) =~= old_cats);
    m.categories = kept;
    removed
}

/// Replaces the paper's categories with `tags`, in order.
pub fn set_categories(m: &mut PaperManifest, tags: &Vec<String>)
    ensures
        final(m).categories@ == tags@,
        final(m).arxiv_id == old(m).arxiv_id,
        final(m).cooldown_until_ms == old(m).cooldown_until_ms,
{
    m.categories = clone_strings(tags);
}

// ------------------------------------------------------------------- laws

/// A failure recorded at `now` keeps the paper in cooldown for the next 24 hours.
pub proof fn law_failure_holds_cooldown_for_a_day(m: &PaperManifest, now: u64, t: u64)
    requires
        m.cooldown_until_ms == now + COOLDOWN_MS,
        now <= t < now + COOLDOWN_MS,
    ensures
        in_cooldown_spec(m, t),
{
}

/// After the cooldown is cleared, the paper is never in cooldown.
pub proof fn law_cleared_cooldown_never_holds(m: &PaperManifest, t: u64)
    requires
        m.cooldown_until_ms == 0,
    ensures
        !in_cooldown_spec(m, t),
{
}

/// Adding a tag twice is the same as adding it once, and the tag is then present.
pub proof fn law_add_tag_idempotent(cats: Seq<Seq<char>>, tag: Seq<char>)
    ensures
        add_tag_spec(add_tag_spec(cats, tag), tag) == add_tag_spec(cats, tag),
        add_tag_spec(cats, tag).contains(tag),
{
    if !cats.contains(tag) {
        assert(cats.push(tag)[cats.len() as int] == tag);
    }
}

/// Removing a tag leaves no occurrence of it, and removes nothing else.
pub proof fn law_remove_tag(cats: Seq<Seq<char>>, tag: Seq<char>)
    ensures
        !remove_tag_spec(cats, tag).contains(tag),
        forall|c: Seq<char>| c != tag ==> (remove_tag_spec(cats, tag).contains(c) == cats.contains(c)),
{
    let f = not_tag(tag);
    cats.filter_lemma(f);
    assert(remove_tag_spec(cats, tag) == cats.filter(f));
    assert forall|c: Seq<char>| c != tag implies (remove_tag_spec(cats, tag).contains(c) == cats.contains(c)) by {
        if cats.contains(c) {
            let k = choose|k: int| 0 <= k < cats.len() && cats[k] == c;
            assert(f(cats[k]));
        }
        if cats.filter(f).contains(c) {
            cats.lemma_filter_contains_rev(f, c);
        }
    }
    if cats.filter(f).contains(tag) {
        let k = choose|k: int| 0 <= k < cats.filter(f).len() && cats.filter(f)[k] == tag;
        assert(f(cats.filter(f)[k]));
    }
}

/// Adding then removing a tag that was absent restores the original tags.
pub proof fn law_add_then_remove_restores(cats: Seq<Seq<char>>, tag: Seq<char>)
    requires
        !cats.contains(tag),
    ensures
        remove_tag_spec(add_tag_spec(cats, tag), tag) == cats,
{
    lemma_filter_absent(cats, tag);
    reveal_with_fuel(Seq::filter, 1);
    assert(cats.push(tag).drop_last() =~= cats);
}

proof fn lemma_filter_absent(cats: Seq<Seq<char>>, tag: Seq<char>)
    requires
        !cats.contains(tag),
    ensures
        remove_tag_spec(cats, tag) == cats,
    decreases cats.len(),
{
    reveal_with_fuel(Seq::filter, 1);
    if cats.len() > 0 {
        assert(!cats.drop_last().contains(tag)) by {
            if cats.drop_last().contains(tag) {
                let k = choose|k: int| 0 <= k < cats.drop_last().len() && cats.drop_last()[k] == tag;
                assert(cats[k] == tag);
            }
        }
        lemma_filter_absent(cats.drop_last(), tag);
        assert(cats[cats.len() - 1] != tag);
        assert(cats.drop_last().push(cats.last()) =~= cats);
    }
}

} // verus!
