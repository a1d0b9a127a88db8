use arxivcat::batch::{plan_batch, spawn_failure, tally, worker_args, worker_result, WorkerResult, WorkerWatch};
use arxivcat::cli::{
    batch_outcome, clamp_jobs, exit_code_for, find_paper, json_refusal, kind_for, lookup_paper,
    mask_token, note_text, parse_tag_list, resolve_view_file, resolve_workspace, retryable_for,
    token_check_result, ChatCmd, Commands, PaperCmd, PaperLookup, TokenCmd,
};
use arxivcat::error::ArxivError;
use arxivcat::manifest::{empty_manifest, mark_failure};
use arxivcat::workspace::{Paper, Workspace};

fn paper(id: &str, folder_name: &str, has_body: bool) -> Paper {
    Paper {
        arxiv_id: id.to_string(),
        title: String::new(),
        folder_name: folder_name.to_string(),
        folder: format!("/ws/{folder_name}"),
        has_body,
        description_ready: false,
        deep_ready: false,
        is_complete: has_body,
    }
}

fn ws_with_paper() -> Workspace {
    Workspace::open("/ws", true, vec![], vec![paper("2501.12948", "2501_12948_Test_Paper", true)]).unwrap()
}

#[test]
fn test_resolve_workspace_w_flag_valid() {
    let dir = "/tmp/some-workspace";
    assert_eq!(resolve_workspace(Some(dir), true, None, false), Some(dir.to_string()));
}

#[test]
fn test_resolve_workspace_w_flag_invalid() {
    assert_eq!(resolve_workspace(Some("/__nonexistent_xyz__"), false, Some("/cfg"), true), None);
}

#[test]
fn configured_workspace_used_without_flag() {
    assert_eq!(resolve_workspace(None, false, Some("/cfg"), true), Some("/cfg".to_string()));
    assert_eq!(resolve_workspace(None, false, Some("/cfg"), false), None);
    assert_eq!(resolve_workspace(None, false, None, false), None);
}

#[test]
fn test_resolve_view_file_valid() {
    assert_eq!(resolve_view_file("body").unwrap(), "body.tex");
    assert_eq!(resolve_view_file("appendix").unwrap(), "appendix.tex");
    assert_eq!(resolve_view_file("note").unwrap(), "note.txt");
    assert_eq!(resolve_view_file("description").unwrap(), "brief_summary.md");
    assert_eq!(resolve_view_file("brief").unwrap(), "brief_summary.md");
    assert_eq!(resolve_view_file("deep").unwrap(), "deep_summary.md");
}

#[test]
fn test_resolve_view_file_invalid() {
    assert!(resolve_view_file("invalid").is_err());
    assert!(resolve_view_file("").is_err());
    assert!(resolve_view_file("BODY").is_err());
}

#[test]
fn unknown_view_message_lists_options() {
    assert_eq!(
        resolve_view_file("x"),
        Err("unknown view 'x'. options: body, appendix, note, description|brief, deep".to_string())
    );
}

#[test]
fn test_find_paper_direct_id() {
    assert!(find_paper(&ws_with_paper(), "2501.12948").is_some());
}

#[test]
fn test_find_paper_url_abs() {
    assert!(find_paper(&ws_with_paper(), "https://arxiv.org/abs/2501.12948").is_some());
}

#[test]
fn test_find_paper_url_pdf() {
    assert!(find_paper(&ws_with_paper(), "https://arxiv.org/pdf/2501.12948.pdf").is_some());
}

#[test]
fn test_find_paper_url_with_www() {
    assert!(find_paper(&ws_with_paper(), "www.arxiv.org/abs/2501.12948").is_some());
}

#[test]
fn test_find_paper_url_versioned() {
    assert!(find_paper(&ws_with_paper(), "https://arxiv.org/abs/2501.12948v2").is_some());
}

#[test]
fn test_find_paper_nonexistent() {
    assert!(find_paper(&ws_with_paper(), "nonexistent").is_none());
}

#[test]
fn test_find_paper_url_with_whitespace() {
    assert!(find_paper(&ws_with_paper(), "  https://arxiv.org/abs/2501.12948  ").is_some());
}

#[test]
fn ambiguous_lookup_lists_ids() {
    let ws = Workspace::open(
        "/ws",
        true,
        vec![],
        vec![paper("2501.12948", "2501_12948_A", true), paper("2501.12948v2", "2501_12948_B", true)],
    )
    .unwrap();
    match lookup_paper(&ws, "2501.12948") {
        PaperLookup::Ambiguous(ids) => assert_eq!(ids.len(), 2),
        _ => panic!("expected an ambiguity"),
    }
    assert!(matches!(lookup_paper(&ws, "9999.99999"), PaperLookup::NotFound));
}

#[test]
fn error_contract() {
    assert_eq!(exit_code_for(&ArxivError::Io("x".into())), 6);
    assert_eq!(exit_code_for(&ArxivError::HttpStatus(503)), 3);
    assert_eq!(exit_code_for(&ArxivError::Config("x".into())), 4);
    assert_eq!(exit_code_for(&ArxivError::NotFound("x".into())), 5);
    assert_eq!(exit_code_for(&ArxivError::Chat("x".into())), 7);
    assert_eq!(kind_for(&ArxivError::HttpStatus(429)), "http");
    assert_eq!(kind_for(&ArxivError::Io("x".into())), "io");
    assert!(retryable_for("http", "HTTP status 503"));
    assert!(!retryable_for("usage", "bad"));
}

#[test]
fn error_messages() {
    assert_eq!(ArxivError::HttpStatus(404).message(), "HTTP status 404");
    assert_eq!(ArxivError::Parse("bad".into()).message(), "Parse error: bad");
    assert_eq!(ArxivError::Other("plain".into()).message(), "plain");
    assert_eq!(ArxivError::Io("disk".into()).message(), "IO error: disk");
}

#[test]
fn json_is_refused_for_interactive_commands() {
    assert_eq!(
        json_refusal(&Commands::Chat(ChatCmd::Global)),
        Some("--json is not supported for chat commands")
    );
    assert_eq!(
        json_refusal(&Commands::Paper(PaperCmd::Strip { id_or_query: "x".into() })),
        Some("--json is not supported for paper strip")
    );
    assert_eq!(
        json_refusal(&Commands::Token(TokenCmd::SetToken)),
        Some("--json is not supported for token set")
    );
    assert_eq!(json_refusal(&Commands::Paper(PaperCmd::List)), None);
}

#[test]
fn note_words_and_tag_lists() {
    assert_eq!(note_text(&vec!["hello".into(), "world".into()]), "hello world");
    assert_eq!(note_text(&vec![]), "");
    assert_eq!(parse_tag_list(" llm, 3d-vision ,,x"), vec!["llm".to_string(), "3d-vision".to_string(), "x".to_string()]);
    assert!(parse_tag_list(" , ").is_empty());
}

#[test]
fn token_masking() {
    assert_eq!(mask_token("sk-1234567890"), "sk-1...7890");
    assert_eq!(mask_token("short"), "***");
}

#[test]
fn token_check() {
    assert_eq!(token_check_result(true, 200), Ok(()));
    assert!(token_check_result(false, 401).is_err());
}

#[test]
fn jobs_are_clamped() {
    assert_eq!(clamp_jobs(0), 1);
    assert_eq!(clamp_jobs(4), 4);
    assert_eq!(clamp_jobs(32), 8);
}

#[test]
fn batch_outcomes() {
    assert_eq!(batch_outcome(false, 3, 0), ("done", 0));
    assert_eq!(batch_outcome(false, 2, 1), ("partial", 8));
    assert_eq!(batch_outcome(false, 0, 2), ("failed", 1));
    assert_eq!(batch_outcome(true, 2, 1), ("cancelled", 130));
}

#[test]
fn batch_plan_skips_cooled_down_papers() {
    let papers = vec![
        paper("2501.00001", "a", false),
        paper("2501.00002", "b", true),
        paper("2501.00003", "c", false),
    ];
    let cooled = mark_failure(Some(empty_manifest()), "boom", 1_000);
    let manifests = vec![Some(cooled), None, None];
    let plan = plan_batch(&papers, &manifests, 2_000, false);
    assert_eq!(plan.pending.len(), 1);
    assert_eq!(plan.pending[0].arxiv_id, "2501.00003");
    assert_eq!(plan.skipped.len(), 1);
    assert_eq!(plan.skipped[0].id, "2501.00001");
    assert_eq!(plan.skipped[0].last_error.as_deref(), Some("boom"));
    let cooled2 = mark_failure(Some(empty_manifest()), "boom", 1_000);
    let forced = plan_batch(&papers, &vec![Some(cooled2), None, None], 2_000, true);
    assert_eq!(forced.pending.len(), 2);
    assert!(forced.skipped.is_empty());
}

#[test]
fn worker_command_line() {
    assert_eq!(
        worker_args("/ws/raw/x", true, false),
        vec!["internal".to_string(), "download-worker".to_string(), "/ws/raw/x".to_string(), "--no-describe".to_string()]
    );
}

#[test]
fn worker_reports() {
    let mut w = WorkerWatch::new();
    assert_eq!(w.observe("{\"event\":\"downloaded\",\"arxiv_id\":\"x\"}"), Some("downloaded".to_string()));
    assert_eq!(w.observe("not json"), None);
    w.observe("{\"event\":\"done\"}");
    assert!(w.done);
    assert!(matches!(worker_result(w, "x"), WorkerResult::Succeeded));

    let mut f = WorkerWatch::new();
    f.observe("{\"event\":\"failed\",\"code\":3}");
    match worker_result(f, "x") {
        WorkerResult::Reported(line) => assert!(line.contains("\"failed\"")),
        _ => panic!("expected the reported failure"),
    }
    match worker_result(WorkerWatch::new(), "y") {
        WorkerResult::Vanished(r) => {
            assert_eq!(r.id, "y");
            assert_eq!(r.code, 1);
            assert_eq!(r.kind, "other");
            assert_eq!(r.message, "download-worker exited without a result event");
        }
        _ => panic!("expected a vanished worker"),
    }
    let s = spawn_failure("z", "no such file");
    assert_eq!(s.code, 6);
    assert_eq!(s.message, "cannot spawn download-worker: no such file");
    let results = vec![WorkerResult::Succeeded, WorkerResult::Reported("x".into()), WorkerResult::Succeeded];
    assert_eq!(tally(&results), (2, 1));
}

#[test]
fn bare_messages_become_other_errors() {
    let e: ArxivError = String::from("disk quota").into();
    assert_eq!(e, ArxivError::Other("disk quota".to_string()));
    assert_eq!(e.message(), "disk quota");
}

#[test]
fn worker_report_follows_event_names() {
    let mut w = WorkerWatch::new();
    w.record_event(&Some("downloading".to_string()), "l1");
    assert!(!w.done && w.failed.is_none());
    w.record_event(&Some("failed".to_string()), "l2");
    assert_eq!(w.failed.as_deref(), Some("l2"));
    w.record_event(&None, "l3");
    w.record_event(&Some("done".to_string()), "l4");
    assert!(w.done);
    assert_eq!(w.failed.as_deref(), Some("l2"));
}

#[test]
fn lookups_ignore_letter_case() {
    let ws = Workspace::open("/ws", true, vec![], vec![paper("math.GT/0309136", "math_GT_0309136", true)]).unwrap();
    assert_eq!(ws.find_papers_by_id("MATH.gt/0309136").len(), 1);
    assert_eq!(ws.find_papers_by_id("math.gt/0309136v2").len(), 1);
}

#[test]
fn exact_id_prefers_the_canonical_folder() {
    let ws = Workspace::open(
        "/ws",
        true,
        vec![paper("2501.12948", "2501_12948", true)],
        vec![paper("2501.12948", "2501_12948_Old_Title", true)],
    )
    .unwrap();
    match lookup_paper(&ws, "2501.12948") {
        PaperLookup::Found(p) => assert_eq!(p.folder_name, "2501_12948"),
        _ => panic!("the canonical folder must be found"),
    }
    match lookup_paper(&ws, "https://arxiv.org/abs/2501.12948v3") {
        PaperLookup::Found(p) => assert_eq!(p.folder_name, "2501_12948"),
        _ => panic!("the canonical folder must be found through a URL"),
    }
    let legacy_only = Workspace::open(
        "/ws",
        true,
        vec![],
        vec![paper("2501.12948", "2501_12948_A", true), paper("2501.12948", "2501_12948_B", true)],
    )
    .unwrap();
    assert!(matches!(lookup_paper(&legacy_only, "2501.12948"), PaperLookup::Ambiguous(_)));
}
