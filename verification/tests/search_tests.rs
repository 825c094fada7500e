use rsearch::pattern::{Matcher, PatternError};
use rsearch::progress::ProgressCounter;
use rsearch::search::{count, join_path, search_folder, FsEntry, FsNode, MatchSet};

fn file(name: &str, content: &str) -> FsEntry {
    FsEntry {
        name: name.to_string(),
        node: FsNode::File {
            content: Some(content.to_string()),
        },
    }
}

fn unreadable_file(name: &str) -> FsEntry {
    FsEntry {
        name: name.to_string(),
        node: FsNode::File { content: None },
    }
}

fn dir(name: &str, entries: Vec<FsEntry>) -> FsEntry {
    FsEntry {
        name: name.to_string(),
        node: FsNode::Dir {
            entries: Some(entries),
        },
    }
}

fn unreadable_dir(name: &str) -> FsEntry {
    FsEntry {
        name: name.to_string(),
        node: FsNode::Dir { entries: None },
    }
}

fn run_search(m: &Matcher, root: &str, listing: &Option<Vec<FsEntry>>) -> (Vec<String>, u64, u64) {
    let mut files = MatchSet::new();
    let mut progress = ProgressCounter::new();
    count(listing, &mut progress);
    search_folder(m, root, listing, &mut files, &mut progress);
    (files.drain(), progress.visited, progress.total)
}

fn sample_tree() -> Option<Vec<FsEntry>> {
    Some(vec![
        dir("a", vec![file("x.txt", "hello"), file("y.txt", "world")]),
        dir("b", vec![file("x.log", "hello log")]),
    ])
}

#[test]
fn name_pattern_selects_matching_files() {
    let m = Matcher::new("\\.txt$", None).unwrap();
    let (found, _, _) = run_search(&m, "root", &sample_tree());
    assert_eq!(found, vec!["root/a/x.txt", "root/a/y.txt"]);
}

#[test]
fn content_pattern_narrows_the_matches() {
    let m = Matcher::new("\\.txt$", Some("hello")).unwrap();
    let (found, _, _) = run_search(&m, "root", &sample_tree());
    assert_eq!(found, vec!["root/a/x.txt"]);
}

#[test]
fn empty_root_yields_no_matches() {
    let m = Matcher::new("\\.txt$", None).unwrap();
    let (found, visited, total) = run_search(&m, "root", &Some(vec![]));
    assert!(found.is_empty());
    assert_eq!(visited, 0);
    assert_eq!(total, 0);
}

#[test]
fn unreadable_root_yields_no_matches() {
    let m = Matcher::new(".*", None).unwrap();
    let (found, visited, total) = run_search(&m, "root", &None);
    assert!(found.is_empty());
    assert_eq!(visited, 0);
    assert_eq!(total, 0);
}

#[test]
fn search_is_repeatable() {
    let m = Matcher::new("\\.txt$", None).unwrap();
    let tree = sample_tree();
    let (first, _, _) = run_search(&m, "root", &tree);
    let (second, _, _) = run_search(&m, "root", &tree);
    assert_eq!(first.len(), second.len());
    assert_eq!(first, second);
}

#[test]
fn unreadable_subtree_leaves_siblings_untouched() {
    let m = Matcher::new("\\.txt$", None).unwrap();
    let readable = Some(vec![
        dir("a", vec![file("x.txt", "hello")]),
        dir("locked", vec![file("z.txt", "secret")]),
        dir("c", vec![file("w.txt", "bye")]),
    ]);
    let blocked = Some(vec![
        dir("a", vec![file("x.txt", "hello")]),
        unreadable_dir("locked"),
        dir("c", vec![file("w.txt", "bye")]),
    ]);
    let (with_all, _, _) = run_search(&m, "root", &readable);
    let (with_block, _, _) = run_search(&m, "root", &blocked);
    assert_eq!(with_all, vec!["root/a/x.txt", "root/locked/z.txt", "root/c/w.txt"]);
    assert_eq!(with_block, vec!["root/a/x.txt", "root/c/w.txt"]);
}

#[test]
fn binary_file_is_excluded_under_content_filter() {
    let m = Matcher::new("\\.txt$", Some(".*")).unwrap();
    let tree = Some(vec![file("plain.txt", "anything"), unreadable_file("binary.txt")]);
    let (found, _, _) = run_search(&m, "root", &tree);
    assert_eq!(found, vec!["root/plain.txt"]);
}

#[test]
fn binary_file_matches_without_content_filter() {
    let m = Matcher::new("\\.txt$", None).unwrap();
    let tree = Some(vec![unreadable_file("binary.txt")]);
    let (found, _, _) = run_search(&m, "root", &tree);
    assert_eq!(found, vec!["root/binary.txt"]);
}

#[test]
fn count_totals_every_entry_and_search_visits_files() {
    let m = Matcher::new("\\.txt$", None).unwrap();
    let (_, visited, total) = run_search(&m, "root", &sample_tree());
    // two directories and three files are counted; only files are visited
    assert_eq!(total, 5);
    assert_eq!(visited, 3);
    assert!(visited <= total);
}

#[test]
fn unreadable_directories_are_counted_but_not_entered() {
    let m = Matcher::new(".*", None).unwrap();
    let tree = Some(vec![unreadable_dir("locked"), file("a", "x")]);
    let (found, visited, total) = run_search(&m, "root", &tree);
    assert_eq!(found, vec!["root/a"]);
    assert_eq!(total, 2);
    assert_eq!(visited, 1);
}

#[test]
fn finalize_drives_visited_to_total() {
    let mut progress = ProgressCounter::new();
    count(&sample_tree(), &mut progress);
    progress.finalize();
    assert_eq!(progress.visited, progress.total);
}

#[test]
fn invalid_name_pattern_is_reported() {
    match Matcher::new("(", None) {
        Err(PatternError::InvalidNamePattern) => {}
        _ => panic!("an unclosed group must be rejected as a name pattern"),
    }
}

#[test]
fn invalid_content_pattern_is_reported() {
    match Matcher::new("x", Some("(")) {
        Err(PatternError::InvalidContentPattern) => {}
        _ => panic!("an unclosed group must be rejected as a content pattern"),
    }
}

#[test]
fn matcher_applies_the_real_patterns() {
    let m = Matcher::new("^a+$", None).unwrap();
    assert!(m.matches_name("aaa"));
    assert!(!m.matches_name("b"));
    assert!(!m.matches_name(""));
    let with_content = Matcher::new("^log$", Some("err(or)?:")).unwrap();
    assert!(with_content.needs_content());
    assert!(!m.needs_content());
    assert!(with_content.matches("log", Some("warn: a\nerror: b")));
    assert!(!with_content.matches("log", Some("all fine")));
    assert!(!with_content.matches("log", None));
    assert!(!with_content.matches("log.old", Some("error: b")));
}

#[test]
fn join_path_inserts_one_separator() {
    assert_eq!(join_path("root", "a"), "root/a");
    assert_eq!(join_path("root/a", "x.txt"), "root/a/x.txt");
}

#[test]
fn match_set_keeps_push_order() {
    let mut files = MatchSet::new();
    assert!(files.is_empty());
    files.push("one".to_string());
    files.push("two".to_string());
    assert_eq!(files.len(), 2);
    assert!(!files.is_empty());
    assert_eq!(files.drain(), vec!["one", "two"]);
}

#[test]
fn deep_nesting_is_searched_to_the_bottom() {
    let m = Matcher::new("^leaf$", None).unwrap();
    let tree = Some(vec![dir(
        "l1",
        vec![dir("l2", vec![dir("l3", vec![file("leaf", "deep")])])],
    )]);
    let (found, visited, total) = run_search(&m, "root", &tree);
    assert_eq!(found, vec!["root/l1/l2/l3/leaf"]);
    assert_eq!(visited, 1);
    assert_eq!(total, 4);
}
