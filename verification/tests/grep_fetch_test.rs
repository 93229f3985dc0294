use quickhorse_core::tools::grep::{GrepCollector, GrepInput, GrepTool, MatchResult};
use quickhorse_core::tools::web_fetch::{html_to_text, replace_str, WebFetch, WebFetchInput};

fn input(pattern: &str) -> GrepInput {
    GrepInput {
        pattern: pattern.to_string(),
        path: None,
        glob: None,
        ignore_case: false,
        show_lines: true,
        context: None,
        head_limit: None,
    }
}

fn lines(ls: &[&str]) -> Vec<String> {
    ls.iter().map(|s| s.to_string()).collect()
}

#[test]
fn grep_empty_pattern_is_refused() {
    let r = GrepTool::validate(&input("")).unwrap();
    assert!(r.is_error);
    assert_eq!(r.content, "Pattern cannot be empty");
    assert!(GrepTool::validate(&input("x")).is_none());
}

#[test]
fn grep_invalid_regex_is_reported() {
    let e = GrepTool::compile(&input("(")).err().unwrap();
    assert!(e.starts_with("Invalid regex pattern: "));
}

#[test]
fn grep_search_lines_with_context() {
    let mut inp = input("fn ");
    inp.context = Some(1);
    let re = GrepTool::compile(&inp).ok().unwrap();
    let ls = lines(&["use x;", "fn a() {}", "", "fn b() {}"]);
    let ms = GrepTool::search_lines("src/lib.rs", &ls, &re, inp.context);
    assert_eq!(ms.len(), 2);
    assert_eq!(ms[0].line_number, 2);
    assert_eq!(ms[0].context_before, vec![(1, "use x;".to_string())]);
    assert_eq!(ms[0].context_after, vec![(3, "".to_string())]);
    assert_eq!(ms[1].line_number, 4);
    assert!(ms[1].context_after.is_empty());
}

#[test]
fn grep_ignore_case() {
    let mut inp = input("hello");
    inp.ignore_case = true;
    let re = GrepTool::compile(&inp).ok().unwrap();
    let ms = GrepTool::search_lines("f", &lines(&["HeLLo", "bye"]), &re, None);
    assert_eq!(ms.len(), 1);
    assert!(ms[0].context_before.is_empty());
}

#[test]
fn grep_format_results() {
    assert_eq!(GrepTool::format_results(&[], true, false), "No matches found");
    let m = MatchResult {
        file_path: "a.rs".to_string(),
        line_number: 12,
        line_content: "let x = 1;".to_string(),
        context_before: vec![(11, "// c".to_string())],
        context_after: vec![],
    };
    assert_eq!(
        GrepTool::format_results(&[m.clone()], true, false),
        "Found 1 matches:\na.rs:12\n      11-\t// c\n      12\tlet x = 1;"
    );
    assert_eq!(GrepTool::format_results(&[m.clone()], false, true), "a.rs:12... (results truncated)");
}

#[test]
fn grep_collector_limits_matches() {
    let m = |n: u32| MatchResult {
        file_path: "f".to_string(),
        line_number: n,
        line_content: "x".to_string(),
        context_before: vec![],
        context_after: vec![],
    };
    let mut c = GrepCollector::new(3);
    assert!(c.wants_more());
    c.add(vec![m(1), m(2)]);
    assert!(c.wants_more());
    c.add(vec![m(3), m(4)]);
    assert!(!c.wants_more());
    assert_eq!(c.matches().len(), 3);
    assert!(c.finish(false).ends_with("... (results truncated)"));
}

#[test]
fn grep_paths_and_limits() {
    assert_eq!(GrepTool::resolve_base_path(Some("src"), "/p"), "/p/src");
    assert_eq!(GrepTool::resolve_base_path(None, "/p"), "/p");
    assert_eq!(GrepTool::file_glob("/p", None), "/p/**/*");
    assert_eq!(GrepTool::file_glob("/p", Some("*.rs")), "/p/*.rs");
    assert!(!GrepTool::is_searched_path("/p/.git/config"));
    assert!(!GrepTool::is_searched_path("/p/target/debug/x"));
    assert!(GrepTool::is_searched_path("/p/src/main.rs"));
    let mut inp = input("x");
    assert_eq!(GrepTool::max_matches(&inp), 100);
    inp.head_limit = Some(7);
    assert_eq!(GrepTool::max_matches(&inp), 7);
    assert_eq!(GrepTool::summarize(&inp), "Searching for: x");
    assert_eq!(GrepTool::new().name(), "Grep");
}

#[test]
fn replace_str_matches_std() {
    assert_eq!(replace_str("a&amp;b&amp;", "&amp;", "&"), "a&b&");
    assert_eq!(replace_str("aaa", "aa", "b"), "ba");
    assert_eq!(replace_str("abc", "", "x"), "abc");
}

#[test]
fn html_to_text_converts_markup() {
    let html = "<html><head><style>p{}</style><script>x()</script></head><body><h1>Title</h1><p>Hello <b>bold</b> &amp; <a href=\"https://e.x\">link</a></p><ul><li>one</li></ul></body></html>";
    let text = html_to_text(html).unwrap();
    assert_eq!(text, "## Title\n\nHello **bold** & [link](https://e.x)\n- one");
}

#[test]
fn html_to_text_collapses_blank_runs_and_cuts() {
    assert_eq!(html_to_text("a\n\n\n\nb").unwrap(), "a\n\nb");
    let long = "x".repeat(50010);
    let cut = html_to_text(&long).unwrap();
    assert!(cut.ends_with("... (truncated, 10 chars omitted)"));
    // The limit falling inside a character cannot be cut there.
    let wide = format!("{}é", "x".repeat(49999));
    assert!(html_to_text(&format!("{}{}", wide, "y".repeat(10))).is_none());
}

#[test]
fn web_fetch_url_checks() {
    assert_eq!(WebFetch::check_url("  https://a.b  ").ok().unwrap(), "https://a.b");
    let e = WebFetch::check_url("   ").err().unwrap();
    assert_eq!(e.content, "URL cannot be empty");
    let e = WebFetch::check_url("ftp://a").err().unwrap();
    assert_eq!(e.content, "URL must start with http:// or https://");
}

#[test]
fn web_fetch_reports() {
    let inp = WebFetchInput { url: "http://x".to_string(), prompt: "p".to_string(), timeout: 90 };
    assert_eq!(WebFetch::request_timeout_secs(&inp), 60);
    assert_eq!(WebFetch::http_error(404, Some("Not Found")).content, "HTTP error: 404 Not Found");
    assert_eq!(WebFetch::http_error(599, None).content, "HTTP error: 599 Unknown");
    assert_eq!(WebFetch::report("u", "c", "p").content, "URL: u\n\nc\n\nExtracted for prompt: p");
    assert_eq!(WebFetch::process_body("application/json", "{}".to_string()).unwrap(), "{}");
    assert_eq!(WebFetch::process_body("text/html; charset=utf-8", "<p>x</p>".to_string()).unwrap(), "x");
    assert_eq!(WebFetch::summarize(&inp), "Fetching: http://x");
}
