use arxivcat::arxiv::{
    add_feed_titles, arxiv_id_from_pdf_texts, og_title, bare_id, extract_arxiv_id_from_pdf, page_id,
    parse_atom_entries, prefixed_id, title_batches, TitleMap,
};
use arxivcat::ids::{extract_arxiv_id, sanitize_filename};

#[test]
fn test_extract_arxiv_id_url() {
    assert_eq!(
        extract_arxiv_id("https://arxiv.org/abs/2501.12948"),
        Some("2501.12948".to_string())
    );
}

#[test]
fn test_extract_arxiv_id_with_version() {
    assert_eq!(extract_arxiv_id("2501.12948v2"), Some("2501.12948v2".to_string()));
}

#[test]
fn test_extract_arxiv_id_with_underscore() {
    assert_eq!(extract_arxiv_id("2501_12948v2"), Some("2501.12948v2".to_string()));
}

#[test]
fn test_extract_arxiv_id_raw() {
    assert_eq!(extract_arxiv_id("2501.12948"), Some("2501.12948".to_string()));
}

#[test]
fn test_extract_arxiv_id_in_text() {
    assert_eq!(
        extract_arxiv_id("see paper 2501.12948 for details"),
        Some("2501.12948".to_string())
    );
}

#[test]
fn test_extract_arxiv_id_invalid_returns_none() {
    assert_eq!(extract_arxiv_id("hello world"), None);
}

#[test]
fn test_extract_arxiv_id_rejects_doi_prefix() {
    assert_eq!(
        extract_arxiv_id("https://doi.org/10.48550/arXiv.2501.12948"),
        Some("2501.12948".to_string())
    );
    assert_eq!(extract_arxiv_id("10.48550/arXiv"), None);
}

#[test]
fn test_extract_arxiv_id_rejects_old_style() {
    assert_eq!(extract_arxiv_id("hep-th/9901001"), None);
}

#[test]
fn arxiv_id_mixed_inputs() {
    assert_eq!(extract_arxiv_id("arxiv.org/abs/2501.12948"), Some("2501.12948".into()));
    assert_eq!(extract_arxiv_id("arXiv:2501.12948"), Some("2501.12948".into()));
    assert_eq!(extract_arxiv_id("2501_12948"), Some("2501.12948".into()));
    assert_eq!(extract_arxiv_id("2501.12948v3"), Some("2501.12948v3".into()));
    assert_eq!(extract_arxiv_id(" 2501.12948 "), Some("2501.12948".into()));
    assert_eq!(extract_arxiv_id("http://arxiv.org/abs/2501.12948"), Some("2501.12948".into()));
    assert_eq!(extract_arxiv_id(""), None);
    assert_eq!(extract_arxiv_id("arxiv"), None);
}

#[test]
fn arxiv_id_url_pdf_format() {
    assert_eq!(extract_arxiv_id("arxiv.org/pdf/2501.12948"), Some("2501.12948".into()));
    assert_eq!(extract_arxiv_id("https://arxiv.org/pdf/2501.12948"), Some("2501.12948".into()));
    assert_eq!(extract_arxiv_id("https://arxiv.org/pdf/2501.12948.pdf"), Some("2501.12948".into()));
}

#[test]
fn arxiv_id_url_versioned() {
    assert_eq!(extract_arxiv_id("https://arxiv.org/abs/2501.12948v2"), Some("2501.12948v2".into()));
    assert_eq!(extract_arxiv_id("arxiv.org/pdf/2501.12948v3"), Some("2501.12948v3".into()));
}

#[test]
fn arxiv_id_url_www_prefix() {
    assert_eq!(extract_arxiv_id("www.arxiv.org/abs/2501.12948"), Some("2501.12948".into()));
    assert_eq!(extract_arxiv_id("http://www.arxiv.org/pdf/2501.12948"), Some("2501.12948".into()));
}

#[test]
fn arxiv_id_url_trailing_slash() {
    assert_eq!(extract_arxiv_id("https://arxiv.org/abs/2501.12948/"), Some("2501.12948".into()));
}

#[test]
fn arxiv_id_url_whitespace_around() {
    assert_eq!(extract_arxiv_id("  https://arxiv.org/abs/2501.12948  "), Some("2501.12948".into()));
    assert_eq!(extract_arxiv_id("\thttps://arxiv.org/abs/2501.12948\n"), Some("2501.12948".into()));
}

#[test]
fn five_digit_ids_and_long_versions() {
    assert_eq!(extract_arxiv_id("2501.123456"), Some("2501.12345".into()));
    assert_eq!(extract_arxiv_id("2501.1234v"), Some("2501.1234".into()));
    assert_eq!(extract_arxiv_id("2501.1234v12x"), Some("2501.1234v12".into()));
}

#[test]
fn test_parse_atom_entries_multiple() {
    let xml = r#"<?xml version="1.0"?>
        <feed>
          <entry>
            <id>http://arxiv.org/abs/2501.12948v2</id>
            <title>First   Paper</title>
          </entry>
          <entry>
            <id>http://arxiv.org/abs/2412.04445</id>
            <title>Second Paper</title>
          </entry>
        </feed>"#;
    let entries = parse_atom_entries(xml);
    assert_eq!(entries.len(), 2);
    assert_eq!(entries[0], ("2501.12948v2".to_string(), "First Paper".to_string()));
    assert_eq!(entries[1], ("2412.04445".to_string(), "Second Paper".to_string()));
}

#[test]
fn test_parse_atom_entries_empty() {
    assert!(parse_atom_entries("<feed></feed>").is_empty());
}

#[test]
fn atom_entries_without_title_or_id_are_skipped() {
    let xml = "<entry><id>x/abs/2501.12948</id></entry><entry><title>T</title></entry>\
               <entry><id>x/abs/2412.04445</id><title>\n  Multi\n  line \n</title></entry>";
    let e = parse_atom_entries(xml);
    assert_eq!(e, vec![("2412.04445".to_string(), "Multi line".to_string())]);
}

#[test]
fn test_sanitize_filename_simple() {
    assert_eq!(sanitize_filename("Hello World"), "Hello_World");
}

#[test]
fn test_sanitize_filename_illegal_chars() {
    assert_eq!(sanitize_filename("test:file<name>.txt"), "test_file_name_.txt");
}

#[test]
fn test_sanitize_filename_long() {
    let long = "a".repeat(100);
    let result = sanitize_filename(&long);
    assert!(result.len() <= 80);
}

#[test]
fn test_sanitize_filename_multibyte_no_panic() {
    let long = "论".repeat(100);
    let result = sanitize_filename(&long);
    assert_eq!(result.chars().count(), 80);
    assert!(result.chars().all(|c| c == '论'));
}

#[test]
fn test_sanitize_filename_boundary_cjk() {
    let mixed = format!("{}论", "a".repeat(79));
    let result = sanitize_filename(&mixed);
    assert_eq!(result.chars().count(), 80);
    assert!(result.ends_with('论'));
}

#[test]
fn sanitize_edge_cases() {
    assert_eq!(sanitize_filename(""), "untitled");
    assert_eq!(sanitize_filename("a"), "a");
    assert_eq!(sanitize_filename("hello  world"), "hello_world");
    assert_eq!(sanitize_filename("___test___"), "test");
    assert_eq!(sanitize_filename("test:file<name>.txt"), "test_file_name_.txt");
}

#[test]
fn ids_in_pdf_text() {
    assert_eq!(bare_id("x 2501.12948v2 y"), Some("2501.12948v2".to_string()));
    assert_eq!(bare_id("2501_12948"), None);
    assert_eq!(prefixed_id("see arXiv: \t2412.04445 and 2501.12948"), Some("2412.04445".to_string()));
    assert_eq!(prefixed_id("arXiv 2412"), None);
    assert_eq!(page_id("2501.12948 then arXiv:2412.04445"), Some("2412.04445".to_string()));
    assert_eq!(page_id("only 2501.12948"), Some("2501.12948".to_string()));
}

#[test]
fn pdf_id_prefers_metadata_then_first_three_pages() {
    let info = vec![None, Some("kw 2501.12948".to_string()), None, None];
    let pages = vec![Some("arXiv:2412.04445".to_string())];
    assert_eq!(arxiv_id_from_pdf_texts(&info, &pages), Some("2501.12948".to_string()));
    let none_info = vec![None, None, None, None];
    let pages = vec![
        None,
        Some("nothing".to_string()),
        Some("p3 2301.00001".to_string()),
        Some("p4 2201.00002".to_string()),
    ];
    assert_eq!(arxiv_id_from_pdf_texts(&none_info, &pages), Some("2301.00001".to_string()));
    let late = vec![None, None, None, Some("p4 2201.00002".to_string())];
    assert_eq!(arxiv_id_from_pdf_texts(&none_info, &late), None);
}

#[test]
fn garbage_is_not_a_pdf() {
    match extract_arxiv_id_from_pdf(b"not a pdf") {
        Err(arxivcat::error::ArxivError::Parse(m)) => assert!(m.starts_with("failed to parse PDF: ")),
        other => panic!("unexpected {:?}", other),
    }
}

#[test]
fn title_requests_come_in_batches_of_fifty() {
    let ids: Vec<String> = (0..120).map(|i| format!("2501.{:05}", i)).collect();
    let b = title_batches(&ids);
    assert_eq!(b.len(), 3);
    assert_eq!(b[0].split(',').count(), 50);
    assert_eq!(b[2].split(',').count(), 20);
    assert!(b[0].starts_with("2501.00000,2501.00001"));
    assert!(title_batches(&vec![]).is_empty());
}

#[test]
fn batch_titles_are_keyed_by_base_id() {
    let mut m = TitleMap::new();
    let xml = "<entry><id>http://arxiv.org/abs/2501.12948v2</id>\
               <title>DeepSeek-R1 Incentivizing Reasoning Capabilities in LLMs</title></entry>";
    add_feed_titles(&mut m, xml);
    assert_eq!(
        m.get("2501.12948"),
        Some("DeepSeek-R1 Incentivizing Reasoning Capabilities in LLMs".to_string())
    );
    assert_eq!(m.get("2501.12948v2"), None);
    m.insert("2501.12948".to_string(), "Other".to_string());
    assert_eq!(m.get("2501.12948"), Some("Other".to_string()));
    assert_eq!(m.entries.len(), 1);
}

#[test]
fn abstract_page_title_from_open_graph_tag() {
    assert_eq!(
        og_title("<meta property=\"og:title\" content=\"Mock Title\" />").as_deref(),
        Some("Mock Title")
    );
    assert_eq!(og_title("<meta property=\"og:title\" content=\"Mock Title\"/>"), None);
    assert_eq!(og_title("<meta property=\"og:title\" content=\"\" />"), None);
    assert_eq!(
        og_title("<meta property=\"og:title\" content=\"A\"/><meta property=\"og:title\" content=\"B \u{e9}\" >")
            .as_deref(),
        Some("B \u{e9}")
    );
    assert_eq!(og_title("<title>x</title>"), None);
}

fn pdf_with_subject(subject: &str) -> Vec<u8> {
    let mut doc = lopdf::Document::with_version("1.5");
    let mut info = lopdf::Dictionary::new();
    info.set("subject", lopdf::Object::String(subject.as_bytes().to_vec(), lopdf::StringFormat::Literal));
    doc.trailer.set("Info", lopdf::Object::Dictionary(info));
    let mut bytes = Vec::new();
    doc.save_to(&mut bytes).unwrap();
    bytes
}

#[test]
fn pdf_metadata_gives_the_id() {
    let bytes = pdf_with_subject("see 2501.12948v2 for details");
    assert_eq!(extract_arxiv_id_from_pdf(&bytes).unwrap(), Some("2501.12948v2".to_string()));
}

#[test]
fn pdf_without_an_id_gives_none() {
    let bytes = pdf_with_subject("no identifier here");
    assert_eq!(extract_arxiv_id_from_pdf(&bytes).unwrap(), None);
}

#[test]
fn identifier_digits_of_any_script() {
    assert_eq!(
        extract_arxiv_id("see \u{ff12}\u{ff15}\u{ff10}\u{ff11}.\u{ff11}\u{ff12}\u{ff19}\u{ff14}\u{ff18}"),
        Some("\u{ff12}\u{ff15}\u{ff10}\u{ff11}.\u{ff11}\u{ff12}\u{ff19}\u{ff14}\u{ff18}".to_string())
    );
    assert_eq!(bare_id("x \u{0662}\u{0665}\u{0660}\u{0661}.\u{0661}\u{0662}\u{0663}\u{0664}"), Some("\u{0662}\u{0665}\u{0660}\u{0661}.\u{0661}\u{0662}\u{0663}\u{0664}".to_string()));
    assert_eq!(extract_arxiv_id("2501.1294\u{00bd}"), Some("2501.1294".to_string()));
}
