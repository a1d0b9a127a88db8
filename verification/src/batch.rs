//! Downloading every pending paper: which papers go, which wait out their
//! cooldown, what each worker process reported, and the tally.
use vstd::prelude::*;
use crate::cli::{EXIT_IO, EXIT_OTHER};
use crate::manifest;
use crate::manifest::PaperManifest;
use crate::text;
use crate::text::{append_str, str_chars, str_eq, string_from_chars};
use crate::workspace::Paper;

verus! {

/// A paper left out of a batch because it failed less than a day ago.
pub struct SkippedPaper {
    pub id: String,
    /// The failure that armed the cooldown.
    pub last_error: Option<String>,
}

/// The papers a batch downloads, and those it skips.
pub struct BatchPlan {
    pub pending: Vec<Paper>,
    pub skipped: Vec<SkippedPaper>,
}

/// A paper waits out its cooldown unless the batch is forced.
pub open spec fn cooled_down(m: Option<PaperManifest>, now_ms: u64, force: bool) -> bool {
    match m {
        Some(x) => manifest::in_cooldown_spec(&x, now_ms) && !force,
        None => false,
    }
}

/// The papers without a body that are not cooling down, in workspace order.
pub open spec fn plan_pending(papers: Seq<Paper>, manifests: Seq<Option<PaperManifest>>, now_ms: u64, force: bool) -> Seq<Paper>
    decreases papers.len(),
{
    if papers.len() == 0 {
        Seq::empty()
    } else {
        let n = papers.len() - 1;
        let rest = plan_pending(papers.drop_last(), manifests.take(n), now_ms, force);
        if !papers[n].has_body && !cooled_down(manifests[n], now_ms, force) {
            rest.push(papers[n])
        } else {
            rest
        }
    }
}

/// The identifiers of the papers without a body that are cooling down, in
/// workspace order, with the failure each last had.
pub open spec fn plan_skipped(papers: Seq<Paper>, manifests: Seq<Option<PaperManifest>>, now_ms: u64, force: bool) -> Seq<(Seq<char>, Option<Seq<char>>)>
    decreases papers.len(),
{
    if papers.len() == 0 {
        Seq::empty()
    } else {
        let n = papers.len() - 1;
        let rest = plan_skipped(papers.drop_last(), manifests.take(n), now_ms, force);
        if !papers[n].has_body && cooled_down(manifests[n], now_ms, force) {
            rest.push((papers[n].arxiv_id@, manifest::opt_view(manifests[n]->0.last_error)))
        } else {
            rest
        }
    }
}

/// A skipped paper as (identifier, last error).
pub open spec fn skipped_view(s: SkippedPaper) -> (Seq<char>, Option<Seq<char>>) {
    (s.id@, manifest::opt_view(s.last_error))
}

/// Splits the workspace's papers for a batch download. `manifests[i]` is
/// the manifest of `papers[i]`, when it has one.
pub fn plan_batch(papers: &Vec<Paper>, manifests: &Vec<Option<PaperManifest>>, now_ms: u64, force: bool) -> (r: BatchPlan)
    requires
        papers@.len() == manifests@.len(),
    ensures
        r.pending@ == plan_pending(papers@, manifests@, now_ms, force),
        r.skipped@.map_values(|s: SkippedPaper| skipped_view(s)) == plan_skipped(papers@, manifests@, now_ms, force),
{
    let mut pending: Vec<Paper> = Vec::new();
    let mut skipped: Vec<SkippedPaper> = Vec::new();
    let mut i: usize = 0;
    while i < papers.len()
        invariant
            i <= papers@.len(),
            papers@.len() == manifests@.len(),
            pending@ == plan_pending(papers@.take(i as int), manifests@.take(i as int), now_ms, force),
            skipped@.map_values(|s: SkippedPaper| skipped_view(s)) == plan_skipped(
                papers@.take(i as int),
                manifests@.take(i as int),
                now_ms,
                force,
            ),
        decreases papers@.len() - i,
    {
        let ghost ps = papers@.take(i + 1);
        let ghost ms = manifests@.take(i + 1);
        assert(ps.drop_last() =~= papers@.take(i as int));
        assert(ms.take(i as int) =~= manifests@.take(i as int));
        assert(ps[i as int] == papers@[i as int]);
        assert(ms[i as int] == manifests@[i as int]);
        let p = &papers[i];
        if !p.has_body {
            let cooling = match &manifests[i] {
                Some(m) => manifest::in_cooldown(m, now_ms) && !force,
                None => false,
            };
            if cooling {
                let last = match &manifests[i] {
                    Some(m) => text::clone_opt_string(&m.last_error),
                    None => None,
                };
                let ghost s0 = skipped@;
                skipped.push(SkippedPaper { id: p.arxiv_id.clone(), last_error: last });
                assert(skipped@.map_values(|s: SkippedPaper| skipped_view(s)) =~= s0.map_values(
                    |s: SkippedPaper| skipped_view(s),
                ).push((p.arxiv_id@, manifest::opt_view(manifests@[i as int]->0.last_error))));
            } else {
                pending.push(p.duplicate());
            }
        }
        i += 1;
    }
    assert(papers@.take(papers@.len() as int) =~= papers@);
    assert(manifests@.take(manifests@.len() as int) =~= manifests@);
    BatchPlan { pending, skipped }
}

/// The command line of the worker process for one paper.
pub open spec fn worker_args_spec(folder: Seq<char>, no_describe: bool, no_deep: bool) -> Seq<Seq<char>> {
    seq!["internal"@, "download-worker"@, folder] + (if no_describe {
        seq!["--no-describe"@]
    } else {
        Seq::empty()
    }) + (if no_deep { seq!["--no-deep"@] } else { Seq::empty() })
}

/// The arguments the batch passes to the worker process of one paper.
pub fn worker_args(folder: &str, no_describe: bool, no_deep: bool) -> (r: Vec<String>)
    ensures
        text::string_views(r@) == worker_args_spec(folder@, no_describe, no_deep),
{
    let mut r: Vec<String> = Vec::new();
    r.push(String::from_str("internal"));
    r.push(String::from_str("download-worker"));
    r.push(String::from_str(folder));
    if no_describe {
        r.push(String::from_str("--no-describe"));
    }
    if no_deep {
        r.push(String::from_str("--no-deep"));
    }
    assert(text::string_views(r@) =~= worker_args_spec(folder@, no_describe, no_deep));
    r
}

/// What one worker has reported so far.
pub struct WorkerWatch {
    /// A `done` event arrived.
    pub done: bool,
    /// The last `failed` event, as the line that carried it.
    pub failed: Option<String>,
}

/// The string value of a top-level member of a JSON object.
pub uninterp spec fn json_str_member_spec(text: Seq<char>, key: Seq<char>) -> Option<Seq<char>>;

/// `serde_json::from_str` into a `serde_json::Value`, then the string at
/// `value[key]`. The contract names the result as a function of the text and
/// the key; JSON's grammar is left to serde_json.
#[verifier::external_body]
pub(crate) fn json_str_member(text: &str, key: &str) -> (r: Option<String>)
    ensures
        match json_str_member_spec(text@, key@) {
            Some(c) => r is Some && r.unwrap()@ == c,
            None => r is None,
        },
{
    let v: serde_json::Value = match serde_json::from_str(text) {
        Ok(v) => v,
        Err(_) => return None,
    };
    v[key].as_str().map(|s| s.to_string())
}

/// What an event does to a worker's report: `done` marks it done, `failed`
/// keeps the line that carried it, anything else (or a line that is no
/// event) changes nothing.
pub open spec fn record_spec(w: (bool, Option<Seq<char>>), event: Option<Seq<char>>, line: Seq<char>) -> (bool, Option<Seq<char>>) {
    match event {
        Some(e) => if e == "done"@ {
            (true, w.1)
        } else if e == "failed"@ {
            (w.0, Some(line))
        } else {
            w
        },
        None => w,
    }
}

/// What an event line does to a worker's report.
pub open spec fn observe_spec(w: (bool, Option<Seq<char>>), line: Seq<char>) -> (bool, Option<Seq<char>>) {
    record_spec(w, json_str_member_spec(line, "event"@), line)
}

impl WorkerWatch {
    /// Nothing reported yet.
    pub fn new() -> (r: WorkerWatch)
        ensures
            !r.done,
            r.failed is None,
    {
        WorkerWatch { done: false, failed: None }
    }

    /// Takes in the event named in a line the worker wrote (`None` when the
    /// line is not a JSON event).
    pub fn record_event(&mut self, event: &Option<String>, line: &str)
        ensures
            (final(self).done, manifest::opt_view(final(self).failed)) == record_spec(
                (old(self).done, manifest::opt_view(old(self).failed)),
                manifest::opt_view(*event),
                line@,
            ),
    {
        match event {
            Some(e) => {
                if str_eq(e.as_str(), "done") {
                    self.done = true;
                } else if str_eq(e.as_str(), "failed") {
                    self.failed = Some(String::from_str(line));
                }
            },
            None => {},
        }
    }

    /// Takes in one line the worker wrote; returns the event's name when
    /// the line is a JSON event.
    pub fn observe(&mut self, line: &str) -> (r: Option<String>)
        ensures
            (final(self).done, manifest::opt_view(final(self).failed)) == observe_spec(
                (old(self).done, manifest::opt_view(old(self).failed)),
                line@,
            ),
            manifest::opt_view(r) == json_str_member_spec(line@, "event"@),
    {
        let ev = json_str_member(line, "event");
        self.record_event(&ev, line);
        ev
    }
}

/// A failure synthesised by the batch itself (the worker could not be
/// started, or ended without a result).
pub struct FailureRecord {
    pub id: String,
    pub code: i32,
    pub kind: String,
    pub message: String,
    pub retryable: bool,
}

/// How one worker ended.
pub enum WorkerResult {
    Succeeded,
    /// The worker's `failed` event line.
    Reported(String),
    /// No terminal event: the worker crashed or was killed.
    Vanished(FailureRecord),
}

/// The failure recorded for a worker that ended without a result event.
pub open spec fn vanished_record(r: FailureRecord, id: Seq<char>) -> bool {
    &&& r.id@ == id
    &&& r.code == EXIT_OTHER
    &&& r.kind@ == "other"@
    &&& r.message@ == "download-worker exited without a result event"@
    &&& !r.retryable
}

/// How a worker ended, from what it reported: a `failed` event wins over
/// `done`; with neither, the worker vanished.
pub fn worker_result(w: WorkerWatch, id: &str) -> (r: WorkerResult)
    ensures
        match w.failed {
            Some(f) => r matches WorkerResult::Reported(x) && x == f,
            None => if w.done {
                r is Succeeded
            } else {
                r matches WorkerResult::Vanished(rec) && vanished_record(rec, id@)
            },
        },
{
    match w.failed {
        Some(f) => WorkerResult::Reported(f),
        None => if w.done {
            WorkerResult::Succeeded
        } else {
            WorkerResult::Vanished(
                FailureRecord {
                    id: String::from_str(id),
                    code: EXIT_OTHER,
                    kind: String::from_str("other"),
                    message: String::from_str("download-worker exited without a result event"),
                    retryable: false,
                },
            )
        },
    }
}

/// The failure recorded when a worker process cannot be started.
pub fn spawn_failure(id: &str, reason: &str) -> (r: FailureRecord)
    ensures
        r.id@ == id@,
        r.code == EXIT_IO,
        r.kind@ == "io"@,
        r.message@ == "cannot spawn download-worker: "@ + reason@,
        !r.retryable,
{
    let mut m = str_chars("cannot spawn download-worker: ");
    append_str(&mut m, reason);
    FailureRecord {
        id: String::from_str(id),
        code: EXIT_IO,
        kind: String::from_str("io"),
        message: string_from_chars(&m),
        retryable: false,
    }
}

/// The number of workers that succeeded.
pub open spec fn successes(rs: Seq<WorkerResult>) -> nat
    decreases rs.len(),
{
    if rs.len() == 0 {
        0
    } else {
        successes(rs.drop_last()) + (if rs.last() is Succeeded { 1nat } else { 0nat })
    }
}

proof fn lemma_successes_bound(rs: Seq<WorkerResult>)
    ensures
        successes(rs) <= rs.len(),
    decreases rs.len(),
{
    if rs.len() > 0 {
        lemma_successes_bound(rs.drop_last());
    }
}

/// How many workers succeeded and how many failed.
pub fn tally(results: &Vec<WorkerResult>) -> (r: (usize, usize))
    ensures
        r.0 == successes(results@),
        r.0 + r.1 == results@.len(),
{
    let mut ok: usize = 0;
    let mut i: usize = 0;
    while i < results.len()
        invariant
            i <= results@.len(),
            ok == successes(results@.take(i as int)),
            ok <= i,
        decreases results@.len() - i,
    {
        assert(results@.take(i + 1).drop_last() =~= results@.take(i as int));
        if let WorkerResult::Succeeded = &results[i] {
            ok += 1;
        }
        i += 1;
    }
    assert(results@.take(results@.len() as int) =~= results@);
    (ok, results.len() - ok)
}

/// No more workers succeed than were started.
pub proof fn law_successes_at_most_workers(rs: Seq<WorkerResult>)
    ensures
        successes(rs) <= rs.len(),
{
    lemma_successes_bound(rs);
}

/// A paper with a body never enters a batch, and one cooling down enters
/// only when the batch is forced.
pub proof fn law_batch_takes_only_eligible(papers: Seq<Paper>, manifests: Seq<Option<PaperManifest>>, now_ms: u64, force: bool, p: Paper)
    requires
        papers.len() == manifests.len(),
        plan_pending(papers, manifests, now_ms, force).contains(p),
    ensures
        !p.has_body,
        exists|i: int| 0 <= i < papers.len() && papers[i] == p && !cooled_down(manifests[i], now_ms, force),
    decreases papers.len(),
{
    let n = papers.len() - 1;
    let rest = plan_pending(papers.drop_last(), manifests.take(n), now_ms, force);
    if rest.contains(p) {
        law_batch_takes_only_eligible(papers.drop_last(), manifests.take(n), now_ms, force, p);
        let i = choose|i: int| 0 <= i < n && papers.drop_last()[i] == p && !cooled_down(manifests.take(n)[i], now_ms, force);
        assert(papers[i] == p && manifests[i] == manifests.take(n)[i]);
    } else {
        assert(papers[n] == p);
    }
}

} // verus!
