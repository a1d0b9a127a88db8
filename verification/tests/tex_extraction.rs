use arxivcat::expand::{ExpandAction, InputExpansion};
use arxivcat::body::extract_body_and_appendix;
use arxivcat::extract::{
    cache_dir_name, contains_documentclass, extract_body_from_text, extract_tabular,
    find_leftover, find_silent, is_safe_tar_member, mark_unexpanded, pdf_file_name,
    pick_main_tex, read_to_string_lossy, strip_for_display, TarMember, TexCandidate,
};
use arxivcat::inputs::{candidate_paths, check_input_depth, input_directives, resolve_input, splice_inputs};
use arxivcat::tex::{collect_tabular, strip_latex_comments};

#[test]
fn test_strip_latex_comments() {
    let input = "hello % this is a comment\nworld % another\nfoo";
    let result = strip_latex_comments(input);
    assert_eq!(result.trim(), "hello \nworld \nfoo");
}

#[test]
fn test_strip_latex_comments_escaped_percent() {
    let input = r"100\% complete % comment";
    let result = strip_latex_comments(input);
    assert!(result.contains("100\\% complete"));
}

#[test]
fn strip_comments_with_escaped_percent() {
    let input = r"Value is 100\% of total % this is a comment";
    let result = strip_latex_comments(input);
    assert!(result.contains("100\\% of total"));
    assert!(!result.contains("this is a comment"));
}

#[test]
fn strip_comments_multiline() {
    let input = "line1 % comment1\nline2\n% full line comment\nline3 % comment3";
    let result = strip_latex_comments(input);
    assert!(result.contains("line1"));
    assert!(result.contains("line2"));
    assert!(result.contains("line3"));
    assert!(!result.contains("comment1"));
    assert!(!result.contains("full line comment"));
}

#[test]
fn strip_keeps_line_breaks_of_comment_lines() {
    assert_eq!(strip_latex_comments("a%x\nb"), "a\nb");
    assert_eq!(strip_latex_comments("%only"), "");
    assert_eq!(strip_latex_comments("no comment"), "no comment");
}

#[test]
fn extracts_tabular_verbatim() {
    let text = "before\\begin{tabular}{lc}a & b\\\\\\end{tabular}after\\begin{tabular}{ccc}x\\\\\\end{tabular}";
    let mut out = Vec::new();
    collect_tabular(text, &mut out);
    assert_eq!(out.len(), 2);
    assert!(out[0].contains("a & b"));
    assert!(out[1].contains("{ccc}"));
    assert!(out[0].starts_with("\\begin{tabular}"));
    assert!(out[0].ends_with("\\end{tabular}"));
}

#[test]
fn no_tabular_returns_empty() {
    let mut out = Vec::new();
    collect_tabular("just text", &mut out);
    assert!(out.is_empty());
}

#[test]
fn unclosed_tabular_is_not_collected() {
    let mut out = Vec::new();
    collect_tabular("\\begin{tabular}{c}x", &mut out);
    assert!(out.is_empty());
}

#[test]
fn tables_of_body_then_appendix() {
    let body = Some("\\begin{tabular}{c}1\\end{tabular}".to_string());
    let appendix = Some("x\\begin{tabular}{c}2\\end{tabular}".to_string());
    let t = extract_tabular(body, appendix);
    assert_eq!(t, vec![
        "\\begin{tabular}{c}1\\end{tabular}".to_string(),
        "\\begin{tabular}{c}2\\end{tabular}".to_string(),
    ]);
    assert!(extract_tabular(None, None).is_empty());
}

#[test]
fn test_extract_body_and_appendix() {
    let content = r"\documentclass{article}
\begin{document}
\begin{abstract}
This is the abstract.
\end{abstract}
\section{Introduction}
Some introduction text here with enough length.
\section{Conclusion}
We conclude this paper with some remarks.
\appendix
\section{Appendix A}
Extra details and supplementary material that goes beyond the main text of the paper.
\end{document}";

    let (body, appendix) = extract_body_and_appendix(content).unwrap();
    assert!(body.contains("This is the abstract."));
    assert!(body.contains("Introduction"));
    assert!(appendix.is_some());
    if let Some(app) = appendix {
        assert!(app.contains("Extra details"));
    }
}

#[test]
fn test_extract_body_no_appendix() {
    let content = r"\documentclass{article}
\begin{document}
\begin{abstract}
Abstract text.
\end{abstract}
\section{Body}
Body text.
\end{document}";

    let (body, appendix) = extract_body_and_appendix(content).unwrap();
    assert!(body.contains("Abstract text."));
    assert!(appendix.is_none());
}

#[test]
fn body_appendix_with_bibliography() {
    let content = r"\section{Introduction}
Main text.
\section{Results}
Results here.
\bibliographystyle{plain}
\bibliography{refs}
\appendix
\section{Proofs}
Detailed proofs that are definitely long enough to exceed the fifty character threshold for appendix detection.";
    let (body, appendix) = extract_body_and_appendix(content).unwrap();
    assert!(body.contains("Main text"));
    assert!(body.contains("Results here"));
    assert!(appendix.is_some());
    if let Some(app) = appendix {
        assert!(app.contains("Proofs"));
        assert!(!app.contains("\\bibliography"));
    }
}

#[test]
fn body_without_appendix_or_bibliography() {
    let content = r"\section{Introduction}
Text here.
\section{Conclusion}
We conclude.";
    let (body, appendix) = extract_body_and_appendix(content).unwrap();
    assert!(!body.is_empty());
    assert!(appendix.is_none());
}

#[test]
fn body_needs_a_start() {
    let err = extract_body_and_appendix("plain text without any structure").unwrap_err();
    assert_eq!(
        err,
        arxivcat::error::ArxivError::Extraction(
            "Could not find abstract, first section, or document start".to_string()
        )
    );
}

#[test]
fn body_ending_after_the_document_has_no_appendix() {
    // The appendix marker comes after \end{document}, with text after it.
    let s = "\\section{A}\nx\n\\end{document}\n\\appendix more text that is long enough to count";
    let (body, appendix) = extract_body_and_appendix(s).unwrap();
    assert_eq!(body, "\\section{A}\nx\n\\end{document}");
    assert_eq!(appendix, None);
}

#[test]
fn extraction_marks_unexpanded_input() {
    let src = "\\documentclass{article}\n\\begin{document}\n\\input{missing}\n\\end{document}";
    let out = extract_body_from_text(src, "/out").unwrap();
    assert!(out.warnings.iter().any(|w| w.contains("unresolved")));
    assert!(out.body.starts_with("% [arxivcat] unexpanded"));
    assert_eq!(out.body_path, "/out/body.tex");
    assert!(out.appendix.is_none() && out.appendix_path.is_none());
}

#[test]
fn extraction_flags_subfile() {
    let src = "\\documentclass{article}\n\\begin{document}\n\\subfile{chapters/intro}\n\\end{document}";
    let out = extract_body_from_text(src, "/out").unwrap();
    assert!(out.warnings.iter().any(|w| w.contains("subfile")));
    assert!(out.body.starts_with("% [arxivcat] unexpanded \\subfile/\\import present\n"));
}

#[test]
fn unexpanded_markers_exact() {
    let (b, w) = mark_unexpanded("plain");
    assert_eq!(b, "plain");
    assert!(w.is_empty());
    let (b, w) = mark_unexpanded("\\include {x}");
    assert_eq!(b, "% [arxivcat] unexpanded \\input/\\include present\n\\include {x}");
    assert_eq!(w, vec!["unresolved \\input/\\include references remain after expansion".to_string()]);
}

#[test]
fn leftover_and_silent_detection() {
    assert!(find_leftover("\\input  {a}"));
    assert!(!find_leftover("\\input a"));
    assert!(find_silent("\\input a"));
    assert!(!find_silent("\\input{a}"));
    assert!(find_silent("\\input  {a}"));
    assert!(find_silent("\\import{x}"));
    assert!(!find_silent("\\importance"));
    assert!(find_silent("\\subfile"));
}

#[test]
fn directives_are_found_in_order() {
    let d = input_directives("a \\input{ x } b \\include{y.tex} \\input{} c");
    assert_eq!(d.len(), 2);
    assert_eq!(d[0].name, "x");
    assert_eq!(d[0].start, 2);
    assert_eq!(d[0].end, 13);
    assert_eq!(d[1].name, "y.tex");
}

#[test]
fn splicing_replaces_or_keeps() {
    let t = "A \\input{b} B \\input{c}";
    let out = splice_inputs(t, &vec![Some("BBB".to_string()), None]);
    assert_eq!(out, "A BBB B \\input{c}");
}

#[test]
fn candidate_files_for_a_directive() {
    let c = candidate_paths("/p/sec", "/p", "intro");
    assert_eq!(c, vec![
        "/p/sec/intro".to_string(),
        "/p/intro".to_string(),
        "/p/sec/intro.tex".to_string(),
        "/p/intro.tex".to_string(),
    ]);
    let c = candidate_paths("/p", "/p", "a.tex");
    assert_eq!(c.len(), 2);
    let c = candidate_paths("/p", "/p", "/abs/x.tex");
    assert_eq!(c[0], "/abs/x.tex");
}

#[test]
fn input_depth_limit() {
    assert!(check_input_depth(64).is_ok());
    assert_eq!(
        check_input_depth(65),
        Err(arxivcat::error::ArxivError::Extraction("input expansion exceeds max depth 64".to_string()))
    );
}

#[test]
fn main_tex_choice() {
    assert!(contains_documentclass("\\documentclass{article}"));
    assert!(!contains_documentclass("section content"));
    assert_eq!(pick_main_tex(true, "/p/main.tex", &vec![]), Some("/p/main.tex".to_string()));
    let c = vec![
        TexCandidate { depth: 4, path: "/p/b/z.tex".to_string() },
        TexCandidate { depth: 1, path: "/p/paper.tex".to_string() },
        TexCandidate { depth: 1, path: "/p/a.tex".to_string() },
    ];
    assert_eq!(pick_main_tex(false, "/p/main.tex", &c), Some("/p/a.tex".to_string()));
    assert_eq!(pick_main_tex(false, "/p/main.tex", &vec![]), None);
}

#[test]
fn test_is_safe_tar_member_accepts_regular_file() {
    let m = TarMember { is_link: false, path: Some("main.tex".to_string()), target_resolves: true };
    assert!(is_safe_tar_member(&m));
}

#[test]
fn test_is_safe_tar_member_accepts_subdir_file() {
    let m = TarMember { is_link: false, path: Some("sec/intro.tex".to_string()), target_resolves: true };
    assert!(is_safe_tar_member(&m));
}

#[test]
fn unsafe_tar_members_are_rejected() {
    let link = TarMember { is_link: true, path: Some("evil_link".to_string()), target_resolves: true };
    assert!(!is_safe_tar_member(&link));
    let up = TarMember { is_link: false, path: Some("../x".to_string()), target_resolves: true };
    assert!(!is_safe_tar_member(&up));
    let mid = TarMember { is_link: false, path: Some("a/../../x".to_string()), target_resolves: true };
    assert!(!is_safe_tar_member(&mid));
    let abs = TarMember { is_link: false, path: Some("/etc/passwd".to_string()), target_resolves: true };
    assert!(!is_safe_tar_member(&abs));
    let dots = TarMember { is_link: false, path: Some("a/..b/c".to_string()), target_resolves: true };
    assert!(is_safe_tar_member(&dots));
    let none = TarMember { is_link: false, path: None, target_resolves: true };
    assert!(!is_safe_tar_member(&none));
}

#[test]
fn source_cache_and_pdf_names() {
    assert_eq!(cache_dir_name("2501.12948v2"), "2501_12948");
    assert_eq!(pdf_file_name("2501.12948v2"), "2501.12948.pdf");
}

#[test]
fn lossy_read_replaces_bad_bytes() {
    assert_eq!(read_to_string_lossy(Some(b"Caf\xe9")), "Caf\u{FFFD}");
    assert_eq!(read_to_string_lossy(None), "");
}

#[test]
fn display_strip_squeezes_blank_lines() {
    assert_eq!(strip_for_display("a\n\n\n\nb % c\nd"), "a\n\nb \nd");
}

#[test]
fn comment_stripping_is_idempotent_and_by_line() {
    let s = "a % c\n\\% kept % gone\n%all\nplain";
    let once = strip_latex_comments(s);
    assert_eq!(once, "a \n\\% kept \n\nplain");
    assert_eq!(strip_latex_comments(&once), once);
    let joined = format!("{}\n{}", strip_latex_comments("x % y"), strip_latex_comments("%z\nw"));
    assert_eq!(strip_latex_comments("x % y\n%z\nw"), joined);
    assert_eq!(strip_latex_comments("no comment \\here"), "no comment \\here");
    assert_eq!(strip_latex_comments("ab\\%c%d%e"), "ab\\%c");
}

#[test]
fn an_input_resolves_to_the_first_existing_file_not_seen() {
    assert_eq!(resolve_input("sec", &vec![(false, false), (true, false), (true, false)]), Some(1));
    assert_eq!(resolve_input("sec", &vec![(false, false), (true, true), (true, false)]), None);
    assert_eq!(resolve_input("sec", &vec![(false, false), (false, false)]), None);
    assert_eq!(resolve_input("", &vec![(true, false)]), None);
}

/// Runs an expansion against files held in memory, as the caller on disk does.
fn expand_in_memory(tex: &str, files: &[(&str, &str)]) -> String {
    let mut exp = InputExpansion::start(tex, "/p", "/p");
    let mut seen: Vec<String> = Vec::new();
    loop {
        let (next, action) = exp.step();
        exp = match action {
            ExpandAction::Done(t) => return t,
            ExpandAction::Returned => next,
            ExpandAction::Lookup(name, paths) => {
                let facts: Vec<(bool, bool)> = paths
                    .iter()
                    .map(|p| (files.iter().any(|(f, _)| f == p), seen.contains(p)))
                    .collect();
                match resolve_input(&name, &facts) {
                    Some(i) => {
                        let content = files.iter().find(|(f, _)| *f == paths[i]).unwrap().1;
                        seen.push(paths[i].clone());
                        next.enter(content, "/p")
                    }
                    None => next.skip(),
                }
            }
        };
    }
}

#[test]
fn inputs_expand_recursively_once_each() {
    let files = [("/p/a.tex", "A \\input{b} % gone"), ("/p/b.tex", "B"), ("/p/loop.tex", "L \\input{loop}")];
    assert_eq!(expand_in_memory("x \\input{a} y \\input{b} \\input{missing}", &files), "x A B  y \\input{b} \\input{missing}");
    assert_eq!(expand_in_memory("\\input{loop}", &files), "L \\input{loop}");
}

#[test]
fn input_expansion_stops_past_the_depth_limit() {
    let names: Vec<String> = (0..70).map(|i| format!("/p/f{i}.tex")).collect();
    let texts: Vec<String> = (0..70).map(|i| format!("{i} \\input{{f{}}}", i + 1)).collect();
    let files: Vec<(&str, &str)> = names.iter().zip(texts.iter()).map(|(n, t)| (n.as_str(), t.as_str())).collect();
    let out = expand_in_memory("\\input{f0}", &files);
    // Files f0..f63 are expanded; the 65th file read (f64) is past the limit.
    assert!(out.contains("63 \\input{f64}"));
    assert!(!out.contains("64 \\input{f65}"));
}
