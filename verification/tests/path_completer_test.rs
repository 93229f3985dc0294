use quickhorse_core::tui::completion::path::{PathCompleter, PathEntry, PathEntryType, PathQuery};
use quickhorse_core::tui::completion::CompletionType;

fn new_completer() -> PathCompleter {
    PathCompleter::with_cwd("/home/user/project".to_string())
}

fn entry(name: &str, t: PathEntryType) -> PathEntry {
    PathEntry { name: name.to_string(), path: format!("/tmp/x/{}", name), entry_type: t }
}

#[test]
fn test_path_completer_creation() {
    let completer = PathCompleter::with_cwd(".".to_string());
    assert!(std::path::Path::new(completer.cwd()).exists() || completer.cwd() == ".");
}

#[test]
fn test_is_path_like() {
    assert!(PathCompleter::is_path_like("~"));
    assert!(PathCompleter::is_path_like("~/"));
    assert!(PathCompleter::is_path_like("~/path"));
    assert!(PathCompleter::is_path_like("/"));
    assert!(PathCompleter::is_path_like("/path"));
    assert!(PathCompleter::is_path_like("./"));
    assert!(PathCompleter::is_path_like("./file"));
    assert!(PathCompleter::is_path_like("../"));
    assert!(PathCompleter::is_path_like("../dir"));
    assert!(PathCompleter::is_path_like("."));
    assert!(PathCompleter::is_path_like(".."));

    // Not path-like
    assert!(!PathCompleter::is_path_like("hello"));
    assert!(!PathCompleter::is_path_like("path"));
    assert!(!PathCompleter::is_path_like(""));
}

#[test]
fn test_parse_partial_path() {
    let completer = new_completer();

    // Path ending with /
    let (dir, prefix) = completer.parse_partial_path("~/src/", "/home/user");
    assert!(prefix.is_empty());
    assert!(dir.contains("src"));

    // Path with partial name
    let (dir, prefix) = completer.parse_partial_path("~/src/te", "/home/user");
    assert_eq!(prefix, "te");
    assert!(dir.contains("src"));
}

#[test]
fn test_get_dir_portion() {
    assert_eq!(PathCompleter::get_dir_portion("~/src/test"), "~/src/");
    assert_eq!(PathCompleter::get_dir_portion("/path/to/file"), "/path/to/");
    assert_eq!(PathCompleter::get_dir_portion("./dir/file"), "./dir/");
    assert_eq!(PathCompleter::get_dir_portion("../parent/file"), "../parent/");
    assert_eq!(PathCompleter::get_dir_portion("~/"), "~/");
    assert_eq!(PathCompleter::get_dir_portion("~/test"), "~/");
}

#[test]
fn test_entry_to_suggestion() {
    let completer = new_completer();

    let dir_entry = PathEntry {
        name: "src".to_string(),
        path: "/home/user/src".to_string(),
        entry_type: PathEntryType::Directory,
    };

    let suggestion = completer.entry_to_suggestion(&dir_entry, "~/");
    assert_eq!(suggestion.display_text, "~/src/");
    assert_eq!(suggestion.description, Some("directory".to_string()));
    assert_eq!(suggestion.completion_type, CompletionType::Path);

    let file_entry = PathEntry {
        name: "file.txt".to_string(),
        path: "/home/user/file.txt".to_string(),
        entry_type: PathEntryType::File,
    };

    let suggestion = completer.entry_to_suggestion(&file_entry, "~/");
    assert_eq!(suggestion.display_text, "~/file.txt");
    assert_eq!(suggestion.description, Some("file".to_string()));
}

#[test]
fn test_find_path_start() {
    let completer = new_completer();

    // Path at beginning
    assert_eq!(completer.find_path_start("~/test", 6), Some(0));
    assert_eq!(completer.find_path_start("/path", 5), Some(0));

    // Path after space
    assert_eq!(completer.find_path_start("read ~/src", 10), Some(5));
    assert_eq!(completer.find_path_start("cd ./dir", 8), Some(3));

    // Not a path
    assert_eq!(completer.find_path_start("hello world", 5), None);
    assert_eq!(completer.find_path_start("just text", 9), None);
}

#[test]
fn test_can_complete() {
    let completer = new_completer();

    assert!(completer.can_complete("~/src", 5));
    assert!(completer.can_complete("/path/to", 8));
    assert!(completer.can_complete("./file", 6));
    assert!(completer.can_complete("../dir", 6));

    // Not path-like
    assert!(!completer.can_complete("hello", 5));
    assert!(!completer.can_complete("", 0));
}

#[test]
fn test_find_path_start_with_chinese() {
    let completer = new_completer();

    let input = "您好 ~/test";
    assert_eq!(completer.find_path_start(input, 9), Some(7));

    let input2 = "你好 /path";
    assert_eq!(completer.find_path_start(input2, 8), Some(7));

    let input3 = "您好您好";
    let result = completer.find_path_start(input3, 3);
    assert_eq!(result, None);

    let input4 = "您好世界";
    for pos in [0, 3, 6, 9, 12] {
        let _ = completer.find_path_start(input4, pos);
    }
    for pos in 1..=input4.len() {
        let _ = completer.find_path_start(input4, pos);
    }
}

#[test]
fn find_path_start_inside_character_moves_back() {
    let completer = new_completer();
    // Cursor in the middle of the path's first character is moved back.
    assert_eq!(completer.find_path_start("ab /x", 4), Some(3));
    // Cursor inside a multi-byte character before a space finds no word.
    assert_eq!(completer.find_path_start("您 /x", 2), None);
}

#[test]
fn expand_path_forms() {
    let completer = new_completer();
    assert_eq!(completer.expand_path("~", "/home/me"), "/home/me/");
    assert_eq!(completer.expand_path("~/src", "/home/me"), "/home/me/src");
    assert_eq!(completer.expand_path("./src", "/h"), "/home/user/project/src");
    assert_eq!(completer.expand_path(".", "/h"), "/home/user/project");
    assert_eq!(completer.expand_path("../other", "/h"), "/home/user/other");
    assert_eq!(completer.expand_path("../../x", "/h"), "/home/x");
    assert_eq!(completer.expand_path("..", "/h"), "/home/user");
    assert_eq!(completer.expand_path("/etc", "/h"), "/etc");
    assert_eq!(completer.expand_path("notes", "/h"), "/home/user/project/notes");
}

#[test]
fn select_entries_orders_and_filters() {
    let completer = new_completer();
    let listing = vec![
        entry("zeta.txt", PathEntryType::File),
        entry("beta", PathEntryType::Directory),
        entry(".hidden", PathEntryType::File),
        entry("alpha.rs", PathEntryType::File),
        entry("Alpha", PathEntryType::Directory),
    ];
    let names: Vec<String> = completer.select_entries(listing.clone(), "").into_iter().map(|e| e.name).collect();
    assert_eq!(names, vec!["Alpha", "beta", "alpha.rs", "zeta.txt"]);

    // Prefix matching ignores case.
    let names: Vec<String> = completer.select_entries(listing.clone(), "AL").into_iter().map(|e| e.name).collect();
    assert_eq!(names, vec!["Alpha", "alpha.rs"]);

    let mut dirs_only = new_completer();
    dirs_only.set_include_files(false);
    let names: Vec<String> = dirs_only.select_entries(listing.clone(), "").into_iter().map(|e| e.name).collect();
    assert_eq!(names, vec!["Alpha", "beta"]);

    let mut with_hidden = new_completer();
    with_hidden.set_include_hidden(true);
    let names: Vec<String> = with_hidden.select_entries(listing, "").into_iter().map(|e| e.name).collect();
    assert_eq!(names, vec!["Alpha", "beta", ".hidden", "alpha.rs", "zeta.txt"]);
}

#[test]
fn select_entries_caps_results() {
    let completer = new_completer();
    let listing: Vec<PathEntry> = (0..30).map(|i| entry(&format!("f{:02}", 29 - i), PathEntryType::File)).collect();
    let picked = completer.select_entries(listing, "");
    assert_eq!(picked.len(), 20);
    assert_eq!(picked[0].name, "f00");
    assert_eq!(picked[19].name, "f19");
}

#[test]
fn path_query_and_suggestions() {
    let completer = new_completer();
    assert!(completer.path_query("hello", 5, "/home/me").is_none());
    let q: PathQuery = completer.path_query("read ~/src/ma", 13, "/home/me").unwrap();
    assert_eq!(q.directory, "/home/me/src");
    assert_eq!(q.prefix, "ma");
    assert_eq!(q.dir_portion, "~/src/");
    let listing = vec![entry("main.rs", PathEntryType::File), entry("macros", PathEntryType::Directory), entry("lib.rs", PathEntryType::File)];
    let s = completer.suggestions_from_listing(&q, listing);
    assert_eq!(s.len(), 2);
    assert_eq!(s[0].display_text, "~/src/macros/");
    assert_eq!(s[0].replace_suffix, "~/src/macros/");
    assert_eq!(s[1].display_text, "~/src/main.rs");
    assert_eq!(s[1].description, Some("file".to_string()));
}
