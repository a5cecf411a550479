//! The engine itself: one state value holding the criteria, the
//! presentation options and the editor state, and one `update` entry point
//! that applies an event and re-renders.
//!
//! The surrounding interface owns the event loop and everything that blocks
//! (the directory scan, the folder dialog); it hands each outcome to
//! `update` as a `Message` and reads the rendered text back.

use crate::editor::EditorState;
use crate::entry::{entries_wf, EntryType, FileSystemEntry};
use crate::filters::{compiled_after, limit_of, FilterOptions};
use crate::options::{DisplayType, Options, SortingOption};
use vstd::prelude::*;

verus! {

/// Why opening a folder failed.
#[derive(Debug, Clone)]
pub enum Error {
    DialogClosed,
    IOError(String),
}

/// One engine event: a scan outcome, a filter edit, or a presentation
/// change.
#[derive(Debug)]
pub enum Message {
    OpenFolder,
    FolderSelected(Result<(String, Vec<FileSystemEntry>), Error>),
    ApplyChanges,
    FilterUpdated(String),
    FilterCaseSensitivityToggled,
    FilterRegexToggled,
    MinDepthToggled(bool),
    MinDepthLimitChanged(String),
    MaxDepthToggled(bool),
    MaxDepthLimitChanged(String),
    ShowFilesToggled(bool),
    ShowFoldersToggled(bool),
    SortOrderSelected(SortingOption),
    DisplayTypeSelected(DisplayType),
    RemoveFoldersToggled(bool),
    PreviewChangesToggled(bool),
}

/// A bound pulled up to a floor: the bound when it is absent or already at
/// or above the floor, the floor otherwise.
pub open spec fn pulled_up(bound: Option<usize>, floor: Option<usize>) -> Option<usize> {
    if bound is Some && floor is Some && bound->0 < floor->0 {
        floor
    } else {
        bound
    }
}

/// A bound pulled down to a ceiling: the bound when it is absent or already
/// at or below the ceiling, the ceiling otherwise.
pub open spec fn pulled_down(bound: Option<usize>, ceiling: Option<usize>) -> Option<usize> {
    if bound is Some && ceiling is Some && bound->0 > ceiling->0 {
        ceiling
    } else {
        bound
    }
}

/// The engine's whole state: the five criteria, the presentation options,
/// and the editable view.
#[derive(Debug)]
pub struct Mareto {
    pub filters: FilterOptions,
    pub options: Options,
    pub editor_state: EditorState,
}

impl Mareto {
    /// The engine's invariant: the entries meet the scanner's contract,
    /// every mask is sized to the entry list and reflects its own
    /// criterion, the depth limits are mutually consistent, and the
    /// rendered text agrees with the masks and options.
    pub open spec fn wf(self) -> bool {
        &&& self.editor_state.entries_ok()
        &&& self.filters.masks_wf()
        &&& self.filters.synced(self.editor_state.entries@)
        &&& self.filters.limits_consistent()
        &&& self.editor_state.shows(self.options, self.filters)
    }

    /// The already-open folder was selected again.
    pub open spec fn same_folder(self, path: Seq<char>) -> bool {
        match self.editor_state.open_folder {
            Some(f) => f@ == path,
            None => false,
        }
    }

    /// How one message changes the engine's configuration. The masks and
    /// the rendered text are pinned by `wf` over the configuration, so
    /// together the two describe the whole transition.
    pub open spec fn updated(pre: Mareto, post: Mareto, message: Message) -> bool {
        match message {
            Message::OpenFolder => post == pre,
            Message::ApplyChanges => post == pre,
            Message::FolderSelected(r) => match r {
                Ok((path, entries)) => if pre.same_folder(path@) {
                    post == pre
                } else {
                    &&& post.options == pre.options
                    &&& post.editor_state.open_folder == Some(path)
                    &&& post.editor_state.entries == entries
                    &&& post.filters.filter_input.state.input
                        == pre.filters.filter_input.state.input
                    &&& post.filters.filter_input.state.use_regex
                        == pre.filters.filter_input.state.use_regex
                    &&& post.filters.filter_input.state.case_sensitive
                        == pre.filters.filter_input.state.case_sensitive
                    &&& compiled_after(
                        pre.filters.filter_input.state.input@,
                        pre.filters.filter_input.state.use_regex,
                        pre.filters.filter_input.state.case_sensitive,
                        pre.filters.filter_input.state.effective(),
                        post.filters.filter_input.state,
                    )
                    &&& post.filters.min_depth.state == pre.filters.min_depth.state
                    &&& post.filters.max_depth.state == pre.filters.max_depth.state
                    &&& post.filters.show_files.state == pre.filters.show_files.state
                    &&& post.filters.show_folders.state == pre.filters.show_folders.state
                },
                Err(_) => post == pre,
            },
            Message::FilterUpdated(s) => {
                &&& post.options == pre.options
                &&& post.editor_state.open_folder == pre.editor_state.open_folder
                &&& post.editor_state.entries == pre.editor_state.entries
                &&& post.filters.filter_input.state.input == s
                &&& post.filters.filter_input.state.use_regex
                    == pre.filters.filter_input.state.use_regex
                &&& post.filters.filter_input.state.case_sensitive
                    == pre.filters.filter_input.state.case_sensitive
                &&& compiled_after(
                    s@,
                    pre.filters.filter_input.state.use_regex,
                    pre.filters.filter_input.state.case_sensitive,
                    pre.filters.filter_input.state.effective(),
                    post.filters.filter_input.state,
                )
                &&& post.filters.min_depth.state == pre.filters.min_depth.state
                &&& post.filters.max_depth.state == pre.filters.max_depth.state
                &&& post.filters.show_files.state == pre.filters.show_files.state
                &&& post.filters.show_folders.state == pre.filters.show_folders.state
            },
            Message::FilterRegexToggled => {
                &&& post.options == pre.options
                &&& post.editor_state.open_folder == pre.editor_state.open_folder
                &&& post.editor_state.entries == pre.editor_state.entries
                &&& post.filters.filter_input.state.input == pre.filters.filter_input.state.input
                &&& post.filters.filter_input.state.use_regex
                    == !pre.filters.filter_input.state.use_regex
                &&& post.filters.filter_input.state.case_sensitive
                    == pre.filters.filter_input.state.case_sensitive
                &&& compiled_after(
                    pre.filters.filter_input.state.input@,
                    !pre.filters.filter_input.state.use_regex,
                    pre.filters.filter_input.state.case_sensitive,
                    pre.filters.filter_input.state.effective(),
                    post.filters.filter_input.state,
                )
                &&& post.filters.min_depth.state == pre.filters.min_depth.state
                &&& post.filters.max_depth.state == pre.filters.max_depth.state
                &&& post.filters.show_files.state == pre.filters.show_files.state
                &&& post.filters.show_folders.state == pre.filters.show_folders.state
            },
            Message::FilterCaseSensitivityToggled => {
                &&& post.options == pre.options
                &&& post.editor_state.open_folder == pre.editor_state.open_folder
                &&& post.editor_state.entries == pre.editor_state.entries
                &&& post.filters.filter_input.state.input == pre.filters.filter_input.state.input
                &&& post.filters.filter_input.state.use_regex
                    == pre.filters.filter_input.state.use_regex
                &&& post.filters.filter_input.state.case_sensitive
                    == !pre.filters.filter_input.state.case_sensitive
                &&& compiled_after(
                    pre.filters.filter_input.state.input@,
                    pre.filters.filter_input.state.use_regex,
                    !pre.filters.filter_input.state.case_sensitive,
                    pre.filters.filter_input.state.effective(),
                    post.filters.filter_input.state,
                )
                &&& post.filters.min_depth.state == pre.filters.min_depth.state
                &&& post.filters.max_depth.state == pre.filters.max_depth.state
                &&& post.filters.show_files.state == pre.filters.show_files.state
                &&& post.filters.show_folders.state == pre.filters.show_folders.state
            },
            Message::MinDepthToggled(is_active) => {
                &&& post.options == pre.options
                &&& post.editor_state.open_folder == pre.editor_state.open_folder
                &&& post.editor_state.entries == pre.editor_state.entries
                &&& post.filters.filter_input.state == pre.filters.filter_input.state
                &&& post.filters.min_depth.state.is_active == is_active
                &&& post.filters.min_depth.state.limit == pre.filters.min_depth.state.limit
                &&& post.filters.max_depth.state == pre.filters.max_depth.state
                &&& post.filters.show_files.state == pre.filters.show_files.state
                &&& post.filters.show_folders.state == pre.filters.show_folders.state
            },
            Message::MinDepthLimitChanged(s) => {
                &&& post.options == pre.options
                &&& post.editor_state.open_folder == pre.editor_state.open_folder
                &&& post.editor_state.entries == pre.editor_state.entries
                &&& post.filters.filter_input.state == pre.filters.filter_input.state
                &&& post.filters.min_depth.state.is_active
                    == pre.filters.min_depth.state.is_active
                &&& post.filters.min_depth.state.limit == limit_of(s@)
                &&& post.filters.max_depth.state.is_active
                    == pre.filters.max_depth.state.is_active
                &&& post.filters.max_depth.state.limit == pulled_up(
                    pre.filters.max_depth.state.limit,
                    limit_of(s@),
                )
                &&& post.filters.show_files.state == pre.filters.show_files.state
                &&& post.filters.show_folders.state == pre.filters.show_folders.state
            },
            Message::MaxDepthToggled(is_active) => {
                &&& post.options == pre.options
                &&& post.editor_state.open_folder == pre.editor_state.open_folder
                &&& post.editor_state.entries == pre.editor_state.entries
                &&& post.filters.filter_input.state == pre.filters.filter_input.state
                &&& post.filters.max_depth.state.is_active == is_active
                &&& post.filters.max_depth.state.limit == pre.filters.max_depth.state.limit
                &&& post.filters.min_depth.state == pre.filters.min_depth.state
                &&& post.filters.show_files.state == pre.filters.show_files.state
                &&& post.filters.show_folders.state == pre.filters.show_folders.state
            },
            Message::MaxDepthLimitChanged(s) => {
                &&& post.options == pre.options
                &&& post.editor_state.open_folder == pre.editor_state.open_folder
                &&& post.editor_state.entries == pre.editor_state.entries
                &&& post.filters.filter_input.state == pre.filters.filter_input.state
                &&& post.filters.max_depth.state.is_active
                    == pre.filters.max_depth.state.is_active
                &&& post.filters.max_depth.state.limit == limit_of(s@)
                &&& post.filters.min_depth.state.is_active
                    == pre.filters.min_depth.state.is_active
                &&& post.filters.min_depth.state.limit == pulled_down(
                    pre.filters.min_depth.state.limit,
                    limit_of(s@),
                )
                &&& post.filters.show_files.state == pre.filters.show_files.state
                &&& post.filters.show_folders.state == pre.filters.show_folders.state
            },
            Message::ShowFilesToggled(is_active) => {
                &&& post.options == pre.options
                &&& post.editor_state.open_folder == pre.editor_state.open_folder
                &&& post.editor_state.entries == pre.editor_state.entries
                &&& post.filters.filter_input.state == pre.filters.filter_input.state
                &&& post.filters.min_depth.state == pre.filters.min_depth.state
                &&& post.filters.max_depth.state == pre.filters.max_depth.state
                &&& post.filters.show_files.state == is_active
                &&& post.filters.show_folders.state == pre.filters.show_folders.state
            },
            Message::ShowFoldersToggled(is_active) => {
                &&& post.options == pre.options
                &&& post.editor_state.open_folder == pre.editor_state.open_folder
                &&& post.editor_state.entries == pre.editor_state.entries
                &&& post.filters.filter_input.state == pre.filters.filter_input.state
                &&& post.filters.min_depth.state == pre.filters.min_depth.state
                &&& post.filters.max_depth.state == pre.filters.max_depth.state
                &&& post.filters.show_files.state == pre.filters.show_files.state
                &&& post.filters.show_folders.state == is_active
            },
            Message::SortOrderSelected(order) => {
                &&& post.filters == pre.filters
                &&& post.editor_state.open_folder == pre.editor_state.open_folder
                &&& post.editor_state.entries == pre.editor_state.entries
                &&& post.options.sorting.selected == Some(order)
                &&& post.options.sorting.options == pre.options.sorting.options
                &&& post.options.display_type == pre.options.display_type
                &&& post.options.remove_empty == pre.options.remove_empty
                &&& post.options.preview_changes == pre.options.preview_changes
            },
            Message::DisplayTypeSelected(display) => {
                &&& post.filters == pre.filters
                &&& post.editor_state.open_folder == pre.editor_state.open_folder
                &&& post.editor_state.entries == pre.editor_state.entries
                &&& post.options.display_type.selected == Some(display)
                &&& post.options.display_type.options == pre.options.display_type.options
                &&& post.options.sorting == pre.options.sorting
                &&& post.options.remove_empty == pre.options.remove_empty
                &&& post.options.preview_changes == pre.options.preview_changes
            },
            Message::RemoveFoldersToggled(is_active) => {
                &&& post.filters == pre.filters
                &&& post.editor_state == pre.editor_state
                &&& post.options.remove_empty == is_active
                &&& post.options.sorting == pre.options.sorting
                &&& post.options.display_type == pre.options.display_type
                &&& post.options.preview_changes == pre.options.preview_changes
            },
            Message::PreviewChangesToggled(is_active) => {
                &&& post.filters == pre.filters
                &&& post.editor_state == pre.editor_state
                &&& post.options.preview_changes == is_active
                &&& post.options.sorting == pre.options.sorting
                &&& post.options.display_type == pre.options.display_type
                &&& post.options.remove_empty == pre.options.remove_empty
            },
        }
    }

    /// Under the engine's invariant, an entry stands in the rendered
    /// line-to-entry map exactly when it passes every one of the five
    /// criteria in their current configuration: the combined visibility is
    /// the index-wise AND of the criteria, however the engine got here.
    pub proof fn lemma_visible_iff_passes_all(m: Mareto, i: int)
        requires
            m.wf(),
            0 <= i < m.editor_state.entries@.len(),
        ensures
            (exists|k: int|
                0 <= k < m.editor_state.filtered_indices@.len()
                    && (#[trigger] m.editor_state.filtered_indices@[k]) as int == i) <==> ({
                let e = m.editor_state.entries@[i];
                &&& m.filters.filter_input.state.passes(e.path@)
                &&& m.filters.min_depth.state.min_passes(e.depth)
                &&& m.filters.max_depth.state.max_passes(e.depth)
                &&& (m.filters.show_files.state || e.entry_type != EntryType::File)
                &&& (m.filters.show_folders.state || e.entry_type != EntryType::Folder)
            }),
    {
        let idx = m.editor_state.filtered_indices@;
        let e = m.editor_state.entries@[i];
        if exists|k: int| 0 <= k < idx.len() && (#[trigger] idx[k]) as int == i {
            let k = choose|k: int| 0 <= k < idx.len() && (#[trigger] idx[k]) as int == i;
            assert(m.filters.combined_bit(idx[k] as int));
        }
        if m.filters.filter_input.state.passes(e.path@) && m.filters.min_depth.state.min_passes(
            e.depth,
        ) && m.filters.max_depth.state.max_passes(e.depth) && (m.filters.show_files.state
            || e.entry_type != EntryType::File) && (m.filters.show_folders.state || e.entry_type
            != EntryType::Folder) {
            assert(m.filters.combined_bit(i));
        }
    }

    /// A fresh engine: no folder open, no entries, default criteria, files
    /// and folders shown, no sorting, relative paths.
    pub fn new() -> (m: Mareto)
        ensures
            m.wf(),
            m.editor_state.open_folder is None,
            m.editor_state.entries@.len() == 0,
            m.editor_state.contents@.len() == 0,
            m.options.sort_choice() == SortingOption::NoSorting,
            m.options.display_choice() == DisplayType::RelativePath,
            m.filters.show_files.state,
            m.filters.show_folders.state,
            !m.filters.min_depth.state.is_active,
            !m.filters.max_depth.state.is_active,
    {
        let m = Mareto {
            filters: FilterOptions::default(),
            options: Options::default(),
            editor_state: EditorState::default(),
        };
        proof {
            assert(m.editor_state.contents@ =~= Seq::<char>::empty());
            assert(m.editor_state.filtered_indices@.map(
                |k: int, u: usize|
                    crate::render::spec_format(
                        m.options.display_choice(),
                        m.editor_state.prefix(),
                        m.editor_state.entries@[u as int].path@,
                    ),
            ) =~= Seq::<Seq<char>>::empty());
        }
        m
    }

    /// Applies one event: updates the configuration it names, recomputes
    /// only the touched criteria's masks, and re-renders. The engine's
    /// invariant holds again when the call returns.
    pub fn update(&mut self, message: Message)
        requires
            old(self).wf(),
            (match message {
                Message::FolderSelected(Ok((path, entries))) => entries_wf(entries@),
                _ => true,
            }),
        ensures
            final(self).wf(),
            Self::updated(*old(self), *final(self), message),
    {
        match message {
            Message::OpenFolder => {},
            Message::ApplyChanges => {},
            Message::FolderSelected(Ok((path, entries))) => {
                let same = match &self.editor_state.open_folder {
                    Some(f) => *f == path,
                    None => false,
                };
                if !same {
                    self.filters.resize_filters(entries.len());
                    self.editor_state.open_folder = Some(path);
                    self.editor_state.entries = entries;
                    self.filters.update_text_filter(&self.editor_state);
                    self.filters.update_min_depth(&self.editor_state);
                    self.filters.update_max_depth(&self.editor_state);
                    self.filters.update_show_files(&self.editor_state);
                    self.filters.update_show_folders(&self.editor_state);
                    self.editor_state.show_filtered_entries(&self.options, &self.filters);
                }
            },
            Message::FolderSelected(Err(_)) => {},
            Message::FilterUpdated(filter) => {
                self.filters.filter_input.state.input = filter;
                self.filters.update_text_filter(&self.editor_state);
                self.editor_state.show_filtered_entries(&self.options, &self.filters);
            },
            Message::FilterRegexToggled => {
                self.filters.filter_input.state.use_regex =
                !self.filters.filter_input.state.use_regex;
                self.filters.update_text_filter(&self.editor_state);
                self.editor_state.show_filtered_entries(&self.options, &self.filters);
            },
            Message::FilterCaseSensitivityToggled => {
                self.filters.filter_input.state.case_sensitive =
                !self.filters.filter_input.state.case_sensitive;
                self.filters.update_text_filter(&self.editor_state);
                self.editor_state.show_filtered_entries(&self.options, &self.filters);
            },
            Message::MinDepthToggled(is_active) => {
                self.filters.min_depth.state.is_active = is_active;
                self.filters.update_min_depth(&self.editor_state);
                self.editor_state.show_filtered_entries(&self.options, &self.filters);
            },
            Message::MinDepthLimitChanged(limit) => {
                self.filters.min_depth.state.set_from_str(limit);
                self.filters.normalize_max_depth();
                self.filters.update_min_depth(&self.editor_state);
                self.filters.update_max_depth(&self.editor_state);
                self.editor_state.show_filtered_entries(&self.options, &self.filters);
            },
            Message::MaxDepthToggled(is_active) => {
                self.filters.max_depth.state.is_active = is_active;
                self.filters.update_max_depth(&self.editor_state);
                self.editor_state.show_filtered_entries(&self.options, &self.filters);
            },
            Message::MaxDepthLimitChanged(limit) => {
                self.filters.max_depth.state.set_from_str(limit);
                self.filters.normalize_min_depth();
                self.filters.update_max_depth(&self.editor_state);
                self.filters.update_min_depth(&self.editor_state);
                self.editor_state.show_filtered_entries(&self.options, &self.filters);
            },
            Message::ShowFilesToggled(is_active) => {
                self.filters.show_files.state = is_active;
                self.filters.update_show_files(&self.editor_state);
                self.editor_state.show_filtered_entries(&self.options, &self.filters);
            },
            Message::ShowFoldersToggled(is_active) => {
                self.filters.show_folders.state = is_active;
                self.filters.update_show_folders(&self.editor_state);
                self.editor_state.show_filtered_entries(&self.options, &self.filters);
            },
            Message::SortOrderSelected(order) => {
                self.options.sorting.selected = Some(order);
                self.editor_state.show_filtered_entries(&self.options, &self.filters);
            },
            Message::DisplayTypeSelected(display) => {
                self.options.display_type.selected = Some(display);
                self.editor_state.show_filtered_entries(&self.options, &self.filters);
            },
            Message::RemoveFoldersToggled(is_active) => {
                self.options.remove_empty = is_active;
            },
            Message::PreviewChangesToggled(is_active) => {
                self.options.preview_changes = is_active;
            },
        }
    }
}

} // verus!
