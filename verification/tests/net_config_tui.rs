use arxivcat::config::{
    cache_dir_from, get_cache_dir, get_config_path, get_downloads_dir, load_cached_token,
    load_model_preference, load_workspace_path, save_model_preference, save_token,
    save_workspace_path, Config,
};
use arxivcat::net::{is_retryable_status, parse_u64, AttemptOutcome, HttpConfig, RetryAction};
use arxivcat::tui::{App, InputMode, PaperTexts, ViewMode};
use arxivcat::workspace::Paper;

#[test]
fn urls_follow_the_bases() {
    let c = HttpConfig::new(None, Some("http://127.0.0.1:9"));
    assert_eq!(c.arxiv_abs_url("2501.12948"), "https://arxiv.org/abs/2501.12948");
    assert_eq!(c.arxiv_src_url("2501.12948"), "https://arxiv.org/src/2501.12948");
    assert_eq!(c.arxiv_pdf_url("2501.12948"), "https://arxiv.org/pdf/2501.12948");
    assert_eq!(c.arxiv_query_url("a,b"), "https://arxiv.org/api/query?id_list=a,b");
    assert_eq!(c.deepseek_chat_url(), "http://127.0.0.1:9/chat/completions");
    assert_eq!(c.deepseek_models_url(), "http://127.0.0.1:9/models");
}

#[test]
fn retry_policy() {
    let c = HttpConfig::new(None, None);
    assert!(is_retryable_status(429) && is_retryable_status(503) && !is_retryable_status(404));
    assert_eq!(c.backoff_ms(0, None), 500);
    assert_eq!(c.backoff_ms(3, None), 4000);
    assert_eq!(c.backoff_ms(20, None), 500 * 1024);
    assert_eq!(c.backoff_ms(0, Some(2)), 2000);
    assert_eq!(c.backoff_ms(0, Some(100)), 30_000);
    let r429 = AttemptOutcome::Response { status: 429, retry_after_secs: None };
    assert_eq!(c.next_step(0, r429), RetryAction::Wait(500));
    let r429 = AttemptOutcome::Response { status: 429, retry_after_secs: None };
    assert_eq!(c.next_step(3, r429), RetryAction::Deliver);
    let ok = AttemptOutcome::Response { status: 200, retry_after_secs: None };
    assert_eq!(c.next_step(0, ok), RetryAction::Deliver);
    let timeout = AttemptOutcome::TransportError { retryable: true };
    assert_eq!(c.next_step(1, timeout), RetryAction::Wait(1000));
    let fatal = AttemptOutcome::TransportError { retryable: false };
    assert_eq!(c.next_step(0, fatal), RetryAction::Fail);
}

#[test]
fn at_most_four_requests_on_persistent_429() {
    let c = HttpConfig::new(None, None);
    let mut attempt = 0u32;
    let mut requests = 0;
    loop {
        requests += 1;
        match c.next_step(attempt, AttemptOutcome::Response { status: 429, retry_after_secs: None }) {
            RetryAction::Wait(_) => attempt += 1,
            _ => break,
        }
    }
    assert_eq!(requests, 4);
}

#[test]
fn retry_after_values() {
    assert_eq!(parse_u64("2"), Some(2));
    assert_eq!(parse_u64("+7"), Some(7));
    assert_eq!(parse_u64(" 2"), None);
    assert_eq!(parse_u64(""), None);
    assert_eq!(parse_u64("18446744073709551615"), Some(u64::MAX));
    assert_eq!(parse_u64("18446744073709551616"), None);
}

#[test]
fn data_directories() {
    assert_eq!(cache_dir_from(Some("C:/AppData"), Some("/d"), Some("/h")), "C:/AppData/ArxivCat");
    assert_eq!(cache_dir_from(None, Some("/home/u/.local/share"), None), "/home/u/.local/share/ArxivCat");
    assert_eq!(cache_dir_from(None, None, Some("/home/u")), "/home/u/ArxivCat");
    assert_eq!(cache_dir_from(None, None, None), "./ArxivCat");
    assert_eq!(get_cache_dir(Some("/x")), "/x/ArxivCat");
    assert!(get_cache_dir(None).ends_with("ArxivCat"));
    assert_eq!(get_downloads_dir("/c"), "/c/downloads");
    assert_eq!(get_config_path("/c"), "/c/config.json");
}

#[test]
fn config_roundtrip() {
    let mut cfg = Config::default();
    assert_eq!(load_model_preference(&cfg), "Flash");
    save_token(&mut cfg, "test-token-123");
    assert_eq!(load_cached_token(&cfg, None), Some("test-token-123".to_string()));
    assert_eq!(load_cached_token(&cfg, Some("")), Some("test-token-123".to_string()));
    assert_eq!(load_cached_token(&cfg, Some("env-key")), Some("env-key".to_string()));
    save_model_preference(&mut cfg, "Pro");
    assert_eq!(load_model_preference(&cfg), "Pro");
    save_workspace_path(&mut cfg, "/test/ws");
    assert_eq!(load_workspace_path(&cfg), Some("/test/ws".into()));
    let none = Config { deepseek_api_key: None, chat_model: None, workspace_path: None };
    assert_eq!(load_model_preference(&none), "Flash");
}

fn paper(id: &str) -> Paper {
    Paper {
        arxiv_id: id.to_string(),
        title: "T".to_string(),
        folder_name: id.replace('.', "_"),
        folder: format!("/ws/raw/{}", id.replace('.', "_")),
        has_body: true,
        description_ready: false,
        deep_ready: false,
        is_complete: true,
    }
}

#[test]
fn app_log_keeps_the_last_two_hundred_lines() {
    let mut app = App::new("Flash".to_string());
    assert_eq!(app.status, "Press ? for help, q to quit");
    for i in 0..205 {
        app.add_log(&format!("line {i}"));
    }
    assert_eq!(app.log_lines.len(), 200);
    assert_eq!(app.log_lines[0], "line 5");
    assert_eq!(app.log_lines[199], "line 204");
}

#[test]
fn app_views_and_papers() {
    let mut app = App::new("Pro".to_string());
    assert_eq!(app.input_mode, InputMode::Normal);
    app.papers = vec![paper("2501.12948")];
    let texts = PaperTexts {
        body: "B".into(),
        appendix: "A".into(),
        description: "D".into(),
        note: "N".into(),
    };
    app.load_paper(0, texts);
    assert_eq!(app.current_paper.as_ref().map(|p| p.arxiv_id.as_str()), Some("2501.12948"));
    assert_eq!(app.current_text(), "B");
    app.view_mode = ViewMode::Note;
    assert_eq!(app.current_text(), "N");
    app.current_text_mut().push_str(" more");
    assert_eq!(app.note_content, "N more");
    let before = app.preview_content.clone();
    app.load_paper(5, PaperTexts { body: "X".into(), appendix: String::new(), description: String::new(), note: String::new() });
    assert_eq!(app.preview_content, before);
}

#[test]
fn source_download_status_errors() {
    assert!(arxivcat::net::source_status_error(200).is_none());
    assert!(arxivcat::net::source_status_error(206).is_none());
    match arxivcat::net::source_status_error(404) {
        Some(arxivcat::error::ArxivError::NotFound(m)) => assert_eq!(m, "paper source not found on arXiv: HTTP 404 Not Found"),
        other => panic!("unexpected {:?}", other),
    }
    assert!(matches!(arxivcat::net::source_status_error(503), Some(arxivcat::error::ArxivError::HttpStatus(503))));
    assert!(matches!(arxivcat::net::source_status_error(301), Some(arxivcat::error::ArxivError::HttpStatus(301))));
}
