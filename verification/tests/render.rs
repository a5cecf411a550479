use mareto::entry::{EntryType, FileSystemEntry};
use mareto::options::DisplayType;
use mareto::render::{format_entry, render_text, sort_lines, RenderedLine};
use mareto::text::{sort_key, str_contains};

fn entry(path: &str, depth: usize, entry_type: EntryType) -> FileSystemEntry {
    FileSystemEntry { og_path: path.to_string(), path: path.to_string(), depth, entry_type }
}

fn line(text: &str, fold: bool, orig: usize) -> RenderedLine {
    RenderedLine { key: sort_key(text, fold), text: text.to_string(), orig }
}

#[test]
fn formats_relative_path_unchanged() {
    let e = entry("/docs/a.txt", 2, EntryType::File);
    assert_eq!(format_entry(&e, DisplayType::RelativePath, "/root"), "/docs/a.txt");
}

#[test]
fn formats_absolute_path_with_prefix() {
    let e = entry("/docs/a.txt", 2, EntryType::File);
    assert_eq!(format_entry(&e, DisplayType::AbsolutePath, "/root"), "/root/docs/a.txt");
}

#[test]
fn formats_just_name_after_last_separator() {
    let e = entry("/docs/deep/b.md", 3, EntryType::File);
    assert_eq!(format_entry(&e, DisplayType::JustName, "/root"), "b.md");
}

#[test]
fn just_name_equals_relative_suffix_after_last_separator() {
    let e = entry("a/b/c/name.txt", 3, EntryType::File);
    let relative = format_entry(&e, DisplayType::RelativePath, "");
    let just_name = format_entry(&e, DisplayType::JustName, "");
    let suffix = &relative[relative.rfind('/').expect("a separator is present") + 1..];
    assert_eq!(just_name, suffix);
}

#[test]
fn sort_ascending_case_sensitive_orders_by_code_points() {
    let mut lines = vec![line("b", false, 0), line("B", false, 1), line("a", false, 2)];
    sort_lines(&mut lines, false, true);
    let texts: Vec<&str> = lines.iter().map(|l| l.text.as_str()).collect();
    assert_eq!(texts, vec!["B", "a", "b"]);
}

#[test]
fn sort_descending_reverses_key_order() {
    let mut lines = vec![line("a", false, 0), line("c", false, 1), line("b", false, 2)];
    sort_lines(&mut lines, true, true);
    let texts: Vec<&str> = lines.iter().map(|l| l.text.as_str()).collect();
    assert_eq!(texts, vec!["c", "b", "a"]);
}

#[test]
fn sort_case_insensitive_folds_keys() {
    let mut lines = vec![line("b", true, 0), line("A", true, 1)];
    sort_lines(&mut lines, false, true);
    let texts: Vec<&str> = lines.iter().map(|l| l.text.as_str()).collect();
    assert_eq!(texts, vec!["A", "b"]);
}

#[test]
fn sort_is_stable_for_equal_keys() {
    // Case folding makes "DUP" and "dup" compare equal; their scan order
    // must survive, wherever they start out.
    let mut lines = vec![
        line("zz", true, 0),
        line("DUP", true, 1),
        line("aa", true, 2),
        line("dup", true, 3),
    ];
    sort_lines(&mut lines, false, true);
    let order: Vec<(usize, &str)> = lines.iter().map(|l| (l.orig, l.text.as_str())).collect();
    assert_eq!(order, vec![(2, "aa"), (1, "DUP"), (3, "dup"), (0, "zz")]);
}

#[test]
fn sort_without_key_keeps_scan_order() {
    let mut lines = vec![line("c", false, 0), line("a", false, 1), line("b", false, 2)];
    sort_lines(&mut lines, false, false);
    let origs: Vec<usize> = lines.iter().map(|l| l.orig).collect();
    assert_eq!(origs, vec![0, 1, 2]);
}

#[test]
fn join_separates_lines_with_single_newlines() {
    let lines = vec![line("one", false, 4), line("two", false, 2), line("three", false, 9)];
    let (content, indices) = render_text(&lines);
    assert_eq!(content, "one\ntwo\nthree");
    assert_eq!(indices, vec![4, 2, 9]);
}

#[test]
fn join_of_nothing_is_empty() {
    let lines: Vec<RenderedLine> = Vec::new();
    let (content, indices) = render_text(&lines);
    assert_eq!(content, "");
    assert!(indices.is_empty());
}

#[test]
fn str_contains_finds_inner_runs() {
    assert!(str_contains("abcdef", "cde"));
    assert!(str_contains("abcdef", ""));
    assert!(!str_contains("abcdef", "ce"));
    assert!(!str_contains("ab", "abc"));
}

#[test]
fn sort_key_folds_only_ascii_uppercase() {
    assert_eq!(sort_key("aB9", true), vec![97, 98, 57]);
    assert_eq!(sort_key("aB9", false), vec![97, 66, 57]);
}
