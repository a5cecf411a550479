use mareto::editor::EditorState;
use mareto::entry::{EntryType, FileSystemEntry};
use mareto::filters::{CompileState, DepthLimit, FilterInput, FilterOptions, FilterState};

fn entry(path: &str, depth: usize, entry_type: EntryType) -> FileSystemEntry {
    FileSystemEntry { og_path: path.to_string(), path: path.to_string(), depth, entry_type }
}

fn editor_with(entries: Vec<FileSystemEntry>) -> EditorState {
    let mut state = EditorState::default();
    state.entries = entries;
    state
}

fn sample_entries() -> Vec<FileSystemEntry> {
    vec![
        entry("/docs", 1, EntryType::Folder),
        entry("/docs/a.txt", 2, EntryType::File),
        entry("/docs/deep", 2, EntryType::Folder),
        entry("/docs/deep/b.md", 3, EntryType::File),
    ]
}

#[test]
fn set_from_str_discards_non_digits() {
    let mut limit = DepthLimit { is_active: true, limit: None };
    limit.set_from_str("1a2b3".to_string());
    assert_eq!(limit.limit, Some(123));
    assert!(limit.is_active);
}

#[test]
fn set_from_str_empty_means_unbounded() {
    let mut limit = DepthLimit { is_active: false, limit: Some(4) };
    limit.set_from_str("abc".to_string());
    assert_eq!(limit.limit, None);
    limit.set_from_str(String::new());
    assert_eq!(limit.limit, None);
}

#[test]
fn set_from_str_saturates_huge_values() {
    let mut limit = DepthLimit { is_active: false, limit: None };
    limit.set_from_str("999999999999999999999999999999".to_string());
    assert_eq!(limit.limit, Some(usize::MAX));
}

#[test]
fn set_from_str_zero() {
    let mut limit = DepthLimit { is_active: false, limit: None };
    limit.set_from_str("00".to_string());
    assert_eq!(limit.limit, Some(0));
}

#[test]
fn normalize_pulls_min_down_to_max() {
    let mut filters = FilterOptions::default();
    filters.min_depth.state.limit = Some(5);
    filters.max_depth.state.limit = Some(3);
    filters.normalize_min_depth();
    assert_eq!(filters.min_depth.state.limit, Some(3));
    assert_eq!(filters.max_depth.state.limit, Some(3));
}

#[test]
fn normalize_pulls_max_up_to_min() {
    let mut filters = FilterOptions::default();
    filters.min_depth.state.limit = Some(5);
    filters.max_depth.state.limit = Some(3);
    filters.normalize_max_depth();
    assert_eq!(filters.min_depth.state.limit, Some(5));
    assert_eq!(filters.max_depth.state.limit, Some(5));
}

#[test]
fn normalize_keeps_consistent_limits() {
    let mut filters = FilterOptions::default();
    filters.min_depth.state.limit = Some(2);
    filters.max_depth.state.limit = Some(4);
    filters.normalize_min_depth();
    filters.normalize_max_depth();
    assert_eq!(filters.min_depth.state.limit, Some(2));
    assert_eq!(filters.max_depth.state.limit, Some(4));
}

#[test]
fn min_depth_mask_inactive_shows_all() {
    let state = editor_with(sample_entries());
    let mut filters = FilterOptions::default();
    filters.min_depth.state = DepthLimit { is_active: false, limit: Some(3) };
    filters.update_min_depth(&state);
    for i in 0..4 {
        assert!(filters.min_depth.is_visible.is_bit_set(i));
    }
}

#[test]
fn min_depth_mask_filters_shallow_entries() {
    let state = editor_with(sample_entries());
    let mut filters = FilterOptions::default();
    filters.min_depth.state = DepthLimit { is_active: true, limit: Some(2) };
    filters.update_min_depth(&state);
    assert!(!filters.min_depth.is_visible.is_bit_set(0));
    assert!(filters.min_depth.is_visible.is_bit_set(1));
    assert!(filters.min_depth.is_visible.is_bit_set(2));
    assert!(filters.min_depth.is_visible.is_bit_set(3));
}

#[test]
fn max_depth_mask_filters_deep_entries() {
    let state = editor_with(sample_entries());
    let mut filters = FilterOptions::default();
    filters.max_depth.state = DepthLimit { is_active: true, limit: Some(2) };
    filters.update_max_depth(&state);
    assert!(filters.max_depth.is_visible.is_bit_set(0));
    assert!(filters.max_depth.is_visible.is_bit_set(1));
    assert!(filters.max_depth.is_visible.is_bit_set(2));
    assert!(!filters.max_depth.is_visible.is_bit_set(3));
}

#[test]
fn show_files_mask_excludes_files_when_off() {
    let state = editor_with(sample_entries());
    let mut filters = FilterOptions::default();
    filters.show_files.state = false;
    filters.update_show_files(&state);
    assert!(filters.show_files.is_visible.is_bit_set(0));
    assert!(!filters.show_files.is_visible.is_bit_set(1));
    assert!(filters.show_files.is_visible.is_bit_set(2));
    assert!(!filters.show_files.is_visible.is_bit_set(3));
}

#[test]
fn show_folders_mask_excludes_folders_when_off() {
    let state = editor_with(sample_entries());
    let mut filters = FilterOptions::default();
    filters.show_folders.state = false;
    filters.update_show_folders(&state);
    assert!(!filters.show_folders.is_visible.is_bit_set(0));
    assert!(filters.show_folders.is_visible.is_bit_set(1));
    assert!(!filters.show_folders.is_visible.is_bit_set(2));
    assert!(filters.show_folders.is_visible.is_bit_set(3));
}

#[test]
fn text_filter_substring_case_sensitive() {
    let state = editor_with(sample_entries());
    let mut filters = FilterOptions::default();
    filters.filter_input.state.input = "deep".to_string();
    filters.filter_input.state.case_sensitive = true;
    filters.update_text_filter(&state);
    assert!(!filters.filter_input.is_visible.is_bit_set(0));
    assert!(!filters.filter_input.is_visible.is_bit_set(1));
    assert!(filters.filter_input.is_visible.is_bit_set(2));
    assert!(filters.filter_input.is_visible.is_bit_set(3));
}

#[test]
fn text_filter_substring_folds_case() {
    let state = editor_with(vec![
        entry("/A/B.TXT", 2, EntryType::File),
        entry("/a/c.md", 2, EntryType::File),
    ]);
    let mut filters = FilterOptions::default();
    filters.filter_input.state.input = "b.txt".to_string();
    filters.filter_input.state.case_sensitive = false;
    filters.update_text_filter(&state);
    assert!(filters.filter_input.is_visible.is_bit_set(0));
    assert!(!filters.filter_input.is_visible.is_bit_set(1));
}

#[test]
fn text_filter_empty_input_matches_everything() {
    let state = editor_with(sample_entries());
    let mut filters = FilterOptions::default();
    filters.update_text_filter(&state);
    for i in 0..4 {
        assert!(filters.filter_input.is_visible.is_bit_set(i));
    }
}

#[test]
fn regex_filter_matches_pattern() {
    let state = editor_with(sample_entries());
    let mut filters = FilterOptions::default();
    filters.filter_input.state.input = r"deep/.+\.md$".to_string();
    filters.filter_input.state.use_regex = true;
    filters.filter_input.state.case_sensitive = true;
    filters.update_text_filter(&state);
    assert!(matches!(filters.filter_input.state.compiled, CompileState::Compiled(_)));
    assert!(!filters.filter_input.is_visible.is_bit_set(0));
    assert!(!filters.filter_input.is_visible.is_bit_set(1));
    assert!(!filters.filter_input.is_visible.is_bit_set(2));
    assert!(filters.filter_input.is_visible.is_bit_set(3));
}

#[test]
fn regex_filter_is_case_insensitive_by_default() {
    let state = editor_with(vec![entry("/A/B.TXT", 2, EntryType::File)]);
    let mut filters = FilterOptions::default();
    filters.filter_input.state.input = r"b\.txt".to_string();
    filters.filter_input.state.use_regex = true;
    filters.update_text_filter(&state);
    assert!(filters.filter_input.is_visible.is_bit_set(0));
}

#[test]
fn bad_regex_reports_error_and_keeps_no_prior_pattern() {
    let state = editor_with(sample_entries());
    let mut filters = FilterOptions::default();
    filters.filter_input.state.input = "(".to_string();
    filters.filter_input.state.use_regex = true;
    filters.update_text_filter(&state);
    match &filters.filter_input.state.compiled {
        CompileState::Errored { last_good, message } => {
            assert!(last_good.is_none());
            assert!(!message.is_empty());
        }
        other => panic!("expected an errored compile state, got {other:?}"),
    }
    // With no effective pattern the raw input falls back to a substring
    // test, which matches nothing here.
    for i in 0..4 {
        assert!(!filters.filter_input.is_visible.is_bit_set(i));
    }
}

#[test]
fn bad_regex_retains_last_good_pattern() {
    let state = editor_with(sample_entries());
    let mut filters = FilterOptions::default();
    filters.filter_input.state.use_regex = true;
    filters.filter_input.state.case_sensitive = true;
    filters.filter_input.state.input = "deep".to_string();
    filters.update_text_filter(&state);
    assert!(matches!(filters.filter_input.state.compiled, CompileState::Compiled(_)));

    filters.filter_input.state.input = "deep(".to_string();
    filters.update_text_filter(&state);
    match &filters.filter_input.state.compiled {
        CompileState::Errored { last_good, .. } => {
            let last_good = last_good.as_ref().expect("the good pattern should be retained");
            assert_eq!(last_good.pattern, "deep");
        }
        other => panic!("expected an errored compile state, got {other:?}"),
    }
    // Filtering continues with the last good pattern.
    assert!(!filters.filter_input.is_visible.is_bit_set(0));
    assert!(filters.filter_input.is_visible.is_bit_set(2));
    assert!(filters.filter_input.is_visible.is_bit_set(3));
}

#[test]
fn clearing_input_clears_compile_state() {
    let state = editor_with(sample_entries());
    let mut filters = FilterOptions::default();
    filters.filter_input.state.use_regex = true;
    filters.filter_input.state.input = "deep".to_string();
    filters.update_text_filter(&state);
    filters.filter_input.state.input = String::new();
    filters.update_text_filter(&state);
    assert!(matches!(filters.filter_input.state.compiled, CompileState::Uncompiled));
}

#[test]
fn recombine_is_index_wise_and_of_all_masks() {
    let state = editor_with(sample_entries());
    let mut filters = FilterOptions::default();
    filters.min_depth.state = DepthLimit { is_active: true, limit: Some(2) };
    filters.show_folders.state = false;
    filters.update_text_filter(&state);
    filters.update_min_depth(&state);
    filters.update_max_depth(&state);
    filters.update_show_files(&state);
    filters.update_show_folders(&state);
    let combined = filters.recombine();
    for i in 0..4 {
        let expected = filters.filter_input.is_visible.is_bit_set(i)
            && filters.min_depth.is_visible.is_bit_set(i)
            && filters.max_depth.is_visible.is_bit_set(i)
            && filters.show_files.is_visible.is_bit_set(i)
            && filters.show_folders.is_visible.is_bit_set(i);
        assert_eq!(combined.is_bit_set(i), expected);
    }
    // Folder at depth 1 fails both changed criteria; files at depth >= 2 pass.
    assert!(!combined.is_bit_set(0));
    assert!(combined.is_bit_set(1));
    assert!(!combined.is_bit_set(2));
    assert!(combined.is_bit_set(3));
}

#[test]
fn visibility_vectors_come_in_fixed_order() {
    let state = editor_with(sample_entries());
    let mut filters = FilterOptions::default();
    filters.min_depth.state = DepthLimit { is_active: true, limit: Some(2) };
    filters.update_min_depth(&state);
    let vectors = filters.get_visibility_vectors();
    assert_eq!(vectors.len(), 5);
    assert_eq!(vectors[1].size, 4);
    assert!(!vectors[1].is_bit_set(0));
    assert!(vectors[1].is_bit_set(1));
}

#[test]
fn filter_state_new_starts_empty() {
    let state: FilterState<FilterInput> = FilterState::new(FilterInput::default());
    assert_eq!(state.is_visible.size, 0);
    assert!(state.is_visible.chunks.is_empty());
}
