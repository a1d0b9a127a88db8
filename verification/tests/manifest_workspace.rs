use arxivcat::manifest::{
    add_category, clear_cooldown, empty_manifest, in_cooldown, mark_failure, remove_category,
    scan_manifest, set_categories, strip_version, FolderInventory, COOLDOWN_MS,
};
use arxivcat::workspace::{
    kept_on_redownload, new_paper_ids,
    is_reserved_dir, join_path_exec, parse_legacy_folder, tag_link_target, validate_tag_name,
    FolderFacts, Paper, Workspace,
};

fn now_ms() -> u64 {
    std::time::SystemTime::now()
        .duration_since(std::time::UNIX_EPOCH)
        .unwrap()
        .as_millis() as u64
}

fn paper(id: &str, folder_name: &str, has_body: bool) -> Paper {
    Paper {
        arxiv_id: id.to_string(),
        title: String::new(),
        folder_name: folder_name.to_string(),
        folder: format!("/ws/raw/{folder_name}"),
        has_body,
        description_ready: false,
        deep_ready: false,
        is_complete: has_body,
    }
}

#[test]
fn test_strip_version() {
    assert_eq!(strip_version("2501.12948"), "2501.12948");
    assert_eq!(strip_version("2501.12948v2"), "2501.12948");
    assert_eq!(strip_version("2501.12948v10"), "2501.12948");
    assert_eq!(strip_version("abc"), "abc");
}

#[test]
fn strip_version_trims_and_needs_digits() {
    assert_eq!(strip_version("  2501.12948v3 "), "2501.12948");
    assert_eq!(strip_version("2501.12948v"), "2501.12948v");
    assert_eq!(strip_version("v2"), "");
}

#[test]
fn test_mark_failure_sets_24h_cooldown() {
    let now = now_ms();
    let m = mark_failure(None, "boom", now);
    assert_eq!(m.last_error.as_deref(), Some("boom"));
    assert!(m.cooldown_until_ms > 0);
    assert!(in_cooldown(&m, now), "freshly armed cooldown must hold");
    let mut m2 = m;
    clear_cooldown(&mut m2);
    assert!(!in_cooldown(&m2, now));
}

#[test]
fn cooldown_lasts_exactly_one_day() {
    let m = mark_failure(None, "x", 1_000);
    assert_eq!(m.cooldown_until_ms, 1_000 + COOLDOWN_MS);
    assert!(in_cooldown(&m, 1_000 + COOLDOWN_MS - 1));
    assert!(!in_cooldown(&m, 1_000 + COOLDOWN_MS));
}

#[test]
fn manifest_scan_records_files() {
    let inv = FolderInventory {
        body: true,
        appendix: false,
        note: true,
        pdf: true,
        brief: false,
        legacy_description: true,
        description_flag: true,
        deep_summary: false,
        deep_flag: false,
    };
    let m = scan_manifest(None, &inv, "2501.12948v2", "Test");
    assert_eq!(m.base_id, "2501.12948");
    assert_eq!(m.arxiv_id, "2501.12948v2");
    assert_eq!(m.title, "Test");
    assert_eq!(m.files.body.as_deref(), Some("body.tex"));
    assert_eq!(m.files.appendix, None);
    assert_eq!(m.files.pdf.as_deref(), Some("2501.12948.pdf"));
    assert_eq!(m.files.description.as_deref(), Some("description.md"));
}

#[test]
fn categories_add_remove_set() {
    let mut m = empty_manifest();
    assert!(add_category(&mut m, "llm"));
    assert!(!add_category(&mut m, "llm"));
    assert!(add_category(&mut m, "3d-vision"));
    assert_eq!(m.categories, vec!["llm".to_string(), "3d-vision".to_string()]);
    assert!(remove_category(&mut m, "llm"));
    assert!(!remove_category(&mut m, "llm"));
    assert_eq!(m.categories, vec!["3d-vision".to_string()]);
    set_categories(&mut m, &vec!["a".to_string(), "b".to_string()]);
    assert_eq!(m.categories, vec!["a".to_string(), "b".to_string()]);
}

#[test]
fn validate_tag_rejects_bad_names() {
    assert!(validate_tag_name("3d-vision").is_ok());
    assert!(validate_tag_name("llm").is_ok());
    assert!(validate_tag_name("2501_99999").is_err(), "digits+underscore looks like paper");
    assert!(validate_tag_name("raw").is_err());
    assert!(validate_tag_name("a/b").is_err());
    assert!(validate_tag_name("arxivcat_global_chats").is_err());
    assert!(validate_tag_name(".hidden").is_err());
    assert!(validate_tag_name("").is_err());
}

#[test]
fn tag_errors_name_the_tag() {
    match validate_tag_name("a/b") {
        Err(arxivcat::error::ArxivError::Other(m)) => {
            assert_eq!(m, "tag name must not contain path separators: \"a/b\"")
        }
        other => panic!("unexpected {:?}", other),
    }
}

#[test]
fn reserved_directories() {
    assert!(is_reserved_dir(".hidden"));
    assert!(is_reserved_dir("arxivcat_global_chats"));
    assert!(is_reserved_dir("raw"));
    assert!(!is_reserved_dir("raws"));
    assert!(!is_reserved_dir("2501_12948"));
}

#[test]
fn legacy_folder_names() {
    assert_eq!(
        parse_legacy_folder("2501_12948_Test_Paper"),
        Some(("2501.12948".to_string(), "Test Paper".to_string()))
    );
    assert_eq!(parse_legacy_folder("notes"), None);
}

#[test]
fn workspace_empty_dir() {
    let ws = Workspace::open("/tmp/empty-ws", true, vec![], vec![]).unwrap();
    assert!(ws.papers.is_empty());
}

#[test]
fn missing_workspace_is_not_found() {
    match Workspace::open("/nope", false, vec![], vec![]) {
        Err(arxivcat::error::ArxivError::NotFound(m)) => assert_eq!(m, "workspace not found: /nope"),
        other => panic!("unexpected {:?}", other.is_ok()),
    }
}

#[test]
fn listing_is_sorted_and_deduplicated() {
    let raw = vec![paper("2412.04445", "2412_04445", true), paper("2501.12948", "2501_12948", false)];
    let root = vec![paper("2501.12948", "2501_12948", true), paper("2301.00001", "2301_00001", true)];
    let ws = Workspace::open("/ws", true, raw, root).unwrap();
    let ids: Vec<&str> = ws.papers.iter().map(|p| p.arxiv_id.as_str()).collect();
    assert_eq!(ids, vec!["2501.12948", "2412.04445", "2301.00001"]);
    assert!(!ws.papers[0].has_body, "the raw/ copy wins over the root copy");
    let pending = ws.pending_papers();
    assert_eq!(pending.len(), 1);
    assert_eq!(pending[0].arxiv_id, "2501.12948");
}

#[test]
fn find_paper_by_id_partial_match() {
    let ws = Workspace::open("/ws", true, vec![paper("2501.12948", "2501_12948_Test_Paper", true)], vec![]).unwrap();
    assert!(ws.find_paper_by_id("2501.12948").is_some());
    assert!(ws.find_paper_by_id("2501_12948").is_some());
    assert!(ws.find_paper_by_id("nonexistent").is_none());
    assert!(ws.load_paper("2501_12948_Test_Paper").is_some());
}

#[test]
fn paper_from_folder_uses_manifest() {
    let mut m = empty_manifest();
    m.arxiv_id = "2501.12948v2".to_string();
    m.title = "T".to_string();
    m.files.body = Some("body.tex".to_string());
    let facts = FolderFacts {
        manifest: Some(m),
        manifest_body_is_file: true,
        legacy_body_exists: false,
        description_complete: false,
        deep_complete: false,
    };
    let p = Paper::from_folder("/ws/raw/2501_12948", "2501_12948", facts).unwrap();
    assert_eq!(p.arxiv_id, "2501.12948v2");
    assert!(p.has_body && p.is_complete);
    let none = FolderFacts {
        manifest: None,
        manifest_body_is_file: false,
        legacy_body_exists: false,
        description_complete: false,
        deep_complete: false,
    };
    assert!(Paper::from_folder("/ws/.hidden", ".hidden", none).is_none());
}

#[test]
fn tag_links_are_relative() {
    let p = paper("2501.11111", "2501_11111", true);
    assert_eq!(tag_link_target("/ws", &p), "../raw/2501_11111");
    let mut q = p;
    q.folder = "/ws/2501_11111".to_string();
    assert_eq!(tag_link_target("/ws", &q), "../2501_11111");
    assert_eq!(join_path_exec("/ws/", "x"), "/ws/x");
}

#[test]
fn scan_adds_only_new_base_ids() {
    let papers = vec![paper("2501.12948", "2501_12948", true)];
    let found = vec![
        "2501.12948v2".to_string(),
        "2401.00001v1".to_string(),
        "2401.00001".to_string(),
        "2312.99999".to_string(),
    ];
    assert_eq!(new_paper_ids(&papers, &found), vec!["2401.00001".to_string(), "2312.99999".to_string()]);
    assert!(new_paper_ids(&papers, &vec![]).is_empty());
}

#[test]
fn redownload_keeps_user_files() {
    assert_eq!(
        kept_on_redownload(),
        vec!["note.txt", "brief_summary.md", "deep_summary.md", "arxiv_chats", ".description_ready", ".deep_ready"]
    );
}

fn sample_manifest() -> arxivcat::manifest::PaperManifest {
    let mut p = empty_manifest();
    p.arxiv_id = "2501.12948v2".to_string();
    p.base_id = "2501.12948".to_string();
    p.title = "T".to_string();
    p.categories = vec!["ml".to_string()];
    p
}

#[test]
fn clearing_the_cooldown_undoes_a_failure() {
    let p = sample_manifest();
    let mut m = mark_failure(Some(sample_manifest()), "boom", 5_000);
    assert_eq!(m.last_error.as_deref(), Some("boom"));
    assert_eq!(m.cooldown_until_ms, 5_000 + COOLDOWN_MS);
    clear_cooldown(&mut m);
    assert_eq!(m.last_error, p.last_error);
    assert_eq!(m.cooldown_until_ms, p.cooldown_until_ms);
    assert_eq!(m.arxiv_id, p.arxiv_id);
    assert_eq!(m.base_id, p.base_id);
    assert_eq!(m.title, p.title);
    assert_eq!(m.downloaded_at, p.downloaded_at);
    assert_eq!(m.categories, p.categories);
    assert_eq!(m.schema, p.schema);
    assert_eq!(m.description_ready, p.description_ready);
    assert_eq!(m.deep_ready, p.deep_ready);
}

#[test]
fn a_folder_named_raw_with_a_manifest_is_a_paper() {
    let mut m = empty_manifest();
    m.arxiv_id = "2501.12948".to_string();
    m.description_ready = true;
    let facts = FolderFacts {
        manifest: Some(m),
        manifest_body_is_file: false,
        legacy_body_exists: false,
        description_complete: false,
        deep_complete: false,
    };
    let p = Paper::from_folder("/ws/raw", "raw", facts).unwrap();
    assert_eq!(p.folder_name, "raw");
    assert!(!p.has_body && !p.is_complete);
    // the manifest's flag alone does not make the brief ready
    assert!(!p.description_ready);
    let none = FolderFacts {
        manifest: None,
        manifest_body_is_file: false,
        legacy_body_exists: false,
        description_complete: false,
        deep_complete: false,
    };
    assert!(Paper::from_folder("/ws/arxivcat_global_chats", "arxivcat_global_chats", none).is_none());
}
