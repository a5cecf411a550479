use mareto::engine::{Error, Mareto, Message};
use mareto::entry::{EntryType, FileSystemEntry};
use mareto::options::{DisplayType, SortingOption};

fn entry(path: &str, depth: usize, entry_type: EntryType) -> FileSystemEntry {
    FileSystemEntry { og_path: path.to_string(), path: path.to_string(), depth, entry_type }
}

fn two_files() -> Vec<FileSystemEntry> {
    vec![entry("a/b.txt", 2, EntryType::File), entry("a/c.txt", 2, EntryType::File)]
}

fn open(engine: &mut Mareto, folder: &str, entries: Vec<FileSystemEntry>) {
    engine.update(Message::FolderSelected(Ok((folder.to_string(), entries))));
}

#[test]
fn default_settings_render_all_entries_in_scan_order() {
    let mut engine = Mareto::new();
    open(&mut engine, "/root", two_files());
    engine.update(Message::SortOrderSelected(SortingOption::SortAscendingCaseInsensitive));
    assert_eq!(engine.editor_state.contents, "a/b.txt\na/c.txt");
    assert_eq!(engine.editor_state.filtered_indices, vec![0, 1]);
}

#[test]
fn min_depth_above_all_entries_renders_nothing() {
    let mut engine = Mareto::new();
    open(&mut engine, "/root", two_files());
    engine.update(Message::MinDepthToggled(true));
    engine.update(Message::MinDepthLimitChanged("3".to_string()));
    assert_eq!(engine.editor_state.contents, "");
    assert_eq!(engine.editor_state.filtered_indices, Vec::<usize>::new());
}

#[test]
fn depth_limits_stay_consistent_across_edits() {
    let mut engine = Mareto::new();
    open(&mut engine, "/root", two_files());
    engine.update(Message::MinDepthLimitChanged("5".to_string()));
    engine.update(Message::MaxDepthLimitChanged("3".to_string()));
    // Editing the maximum below the minimum pulls the minimum down.
    assert_eq!(engine.filters.min_depth.state.limit, Some(3));
    assert_eq!(engine.filters.max_depth.state.limit, Some(3));

    engine.update(Message::MinDepthLimitChanged("7".to_string()));
    // Editing the minimum above the maximum pulls the maximum up.
    assert_eq!(engine.filters.min_depth.state.limit, Some(7));
    assert_eq!(engine.filters.max_depth.state.limit, Some(7));
}

#[test]
fn filter_text_narrows_and_clears() {
    let mut engine = Mareto::new();
    open(
        &mut engine,
        "/root",
        vec![
            entry("a/b.txt", 2, EntryType::File),
            entry("a/c.md", 2, EntryType::File),
            entry("a/d.txt", 2, EntryType::File),
        ],
    );
    engine.update(Message::FilterUpdated(".txt".to_string()));
    assert_eq!(engine.editor_state.contents, "a/b.txt\na/d.txt");
    assert_eq!(engine.editor_state.filtered_indices, vec![0, 2]);

    engine.update(Message::FilterUpdated(String::new()));
    assert_eq!(engine.editor_state.contents, "a/b.txt\na/c.md\na/d.txt");
}

#[test]
fn case_insensitive_filter_reaches_uppercase_paths() {
    let mut engine = Mareto::new();
    open(
        &mut engine,
        "/root",
        vec![entry("A/B.TXT", 2, EntryType::File), entry("a/c.md", 2, EntryType::File)],
    );
    engine.update(Message::FilterUpdated("b.txt".to_string()));
    assert_eq!(engine.editor_state.filtered_indices, vec![0]);

    // Case sensitive, the same pattern no longer matches.
    engine.update(Message::FilterCaseSensitivityToggled);
    assert_eq!(engine.editor_state.contents, "");
}

#[test]
fn regex_filter_through_messages() {
    let mut engine = Mareto::new();
    open(
        &mut engine,
        "/root",
        vec![
            entry("src/lib.rs", 2, EntryType::File),
            entry("src/main.rs", 2, EntryType::File),
            entry("doc/lib.md", 2, EntryType::File),
        ],
    );
    engine.update(Message::FilterUpdated(r"^src/.*\.rs$".to_string()));
    // As a literal substring this matches nothing.
    assert_eq!(engine.editor_state.contents, "");
    engine.update(Message::FilterRegexToggled);
    assert_eq!(engine.editor_state.contents, "src/lib.rs\nsrc/main.rs");
}

#[test]
fn hiding_files_leaves_folders() {
    let mut engine = Mareto::new();
    open(
        &mut engine,
        "/root",
        vec![
            entry("a/sub", 1, EntryType::Folder),
            entry("a/sub/x.txt", 2, EntryType::File),
        ],
    );
    engine.update(Message::ShowFilesToggled(false));
    assert_eq!(engine.editor_state.contents, "a/sub");
    engine.update(Message::ShowFilesToggled(true));
    engine.update(Message::ShowFoldersToggled(false));
    assert_eq!(engine.editor_state.contents, "a/sub/x.txt");
}

#[test]
fn display_type_affects_text_and_ordering() {
    let mut engine = Mareto::new();
    open(
        &mut engine,
        "/root",
        vec![
            entry("/z/alpha.txt", 2, EntryType::File),
            entry("/a/beta.txt", 2, EntryType::File),
        ],
    );
    engine.update(Message::SortOrderSelected(SortingOption::SortAscendingCaseSensitive));
    assert_eq!(engine.editor_state.contents, "/a/beta.txt\n/z/alpha.txt");

    // Sorting by the displayed name reverses the two entries here.
    engine.update(Message::DisplayTypeSelected(DisplayType::JustName));
    assert_eq!(engine.editor_state.contents, "alpha.txt\nbeta.txt");
    assert_eq!(engine.editor_state.filtered_indices, vec![0, 1]);

    engine.update(Message::DisplayTypeSelected(DisplayType::AbsolutePath));
    assert_eq!(engine.editor_state.contents, "/root/a/beta.txt\n/root/z/alpha.txt");
}

#[test]
fn descending_sort_reverses_output() {
    let mut engine = Mareto::new();
    open(&mut engine, "/root", two_files());
    engine.update(Message::SortOrderSelected(SortingOption::SortDescendingCaseSensitive));
    assert_eq!(engine.editor_state.contents, "a/c.txt\na/b.txt");
    assert_eq!(engine.editor_state.filtered_indices, vec![1, 0]);
}

#[test]
fn case_insensitive_sort_is_stable() {
    let mut engine = Mareto::new();
    open(
        &mut engine,
        "/root",
        vec![
            entry("x/DUP.txt", 2, EntryType::File),
            entry("x/aaa.txt", 2, EntryType::File),
            entry("x/dup.txt", 2, EntryType::File),
        ],
    );
    engine.update(Message::SortOrderSelected(SortingOption::SortAscendingCaseInsensitive));
    // The two names that fold to the same key keep their scan order.
    assert_eq!(engine.editor_state.contents, "x/aaa.txt\nx/DUP.txt\nx/dup.txt");
    assert_eq!(engine.editor_state.filtered_indices, vec![1, 0, 2]);
}

#[test]
fn failed_scan_leaves_state_untouched() {
    let mut engine = Mareto::new();
    open(&mut engine, "/root", two_files());
    let before = engine.editor_state.contents.clone();
    engine.update(Message::FolderSelected(Err(Error::DialogClosed)));
    assert_eq!(engine.editor_state.contents, before);
    engine.update(Message::FolderSelected(Err(Error::IOError(
        "permission denied".to_string(),
    ))));
    assert_eq!(engine.editor_state.contents, before);
    assert_eq!(engine.editor_state.open_folder.as_deref(), Some("/root"));
}

#[test]
fn reopening_the_same_folder_changes_nothing() {
    let mut engine = Mareto::new();
    open(&mut engine, "/root", two_files());
    let before = engine.editor_state.contents.clone();
    // The same folder selected again is ignored, whatever entries came back.
    open(&mut engine, "/root", vec![entry("other/x.txt", 2, EntryType::File)]);
    assert_eq!(engine.editor_state.contents, before);
    assert_eq!(engine.editor_state.entries.len(), 2);
}

#[test]
fn replacing_the_folder_replaces_all_entries() {
    let mut engine = Mareto::new();
    open(&mut engine, "/root", two_files());
    open(&mut engine, "/elsewhere", vec![entry("other/x.txt", 2, EntryType::File)]);
    assert_eq!(engine.editor_state.contents, "other/x.txt");
    assert_eq!(engine.editor_state.filtered_indices, vec![0]);
}

#[test]
fn presentation_toggles_do_not_rerender() {
    let mut engine = Mareto::new();
    open(&mut engine, "/root", two_files());
    let before = engine.editor_state.contents.clone();
    engine.update(Message::RemoveFoldersToggled(true));
    engine.update(Message::PreviewChangesToggled(false));
    engine.update(Message::OpenFolder);
    engine.update(Message::ApplyChanges);
    assert!(engine.options.remove_empty);
    assert!(!engine.options.preview_changes);
    assert_eq!(engine.editor_state.contents, before);
}

#[test]
fn option_labels_read_naturally() {
    assert_eq!(SortingOption::NoSorting.label(), "No sorting");
    assert_eq!(
        SortingOption::SortAscendingCaseInsensitive.label(),
        "Sort ascending case insensitive"
    );
    assert_eq!(DisplayType::JustName.label(), "Just name");
    assert_eq!(SortingOption::variants().len(), 5);
    assert_eq!(DisplayType::variants().len(), 3);
}
