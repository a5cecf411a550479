//! The editable view over the scanned entries: the currently open folder,
//! the entry list, and the rendered text with its line-to-entry map.

use crate::entry::{entries_wf, FileSystemEntry};
use crate::filters::FilterOptions;
use crate::options::{DisplayType, Options, SortingOption};
use crate::render::{
    join_lines, line_ok, ordered_pair, render_text, select_visible, sort_lines, spec_format,
    texts_of,
};
use crate::text::key_of;
use vstd::prelude::*;

verus! {

/// Find-and-replace state for the rendered text.
#[derive(Debug, Clone)]
pub struct FindAndReplace {
    pub find: String,
    pub replace: String,
    pub current_occurence: usize,
    pub occurences: Vec<FoundOccurence>,
}

/// One occurrence found in the rendered text.
#[derive(Debug, Clone)]
pub struct FoundOccurence {
    pub line: usize,
    pub start: usize,
    pub len: usize,
}

impl Default for FindAndReplace {
    fn default() -> (d: Self)
        ensures
            d.find@.len() == 0,
            d.replace@.len() == 0,
            d.current_occurence == 0,
            d.occurences@.len() == 0,
    {
        FindAndReplace {
            find: String::new(),
            replace: String::new(),
            current_occurence: 0,
            occurences: Vec::new(),
        }
    }
}

/// The engine's editable state: the open folder, the scanned entries, the
/// rendered text, and the map from rendered line to original entry index.
#[derive(Debug)]
pub struct EditorState {
    pub open_folder: Option<String>,
    pub entries: Vec<FileSystemEntry>,
    pub filtered_indices: Vec<usize>,
    pub contents: String,
    pub find_and_replace: FindAndReplace,
}

impl EditorState {
    /// Every held entry satisfies the scanner's contract.
    pub open spec fn entries_ok(self) -> bool {
        entries_wf(self.entries@)
    }

    /// The rendering prefix for absolute paths: the open folder, or empty
    /// while no folder is open.
    pub open spec fn prefix(self) -> Seq<char> {
        match self.open_folder {
            Some(f) => f@,
            None => Seq::empty(),
        }
    }

    /// The rendered state agrees with the entries, the criteria's masks and
    /// the presentation options: the index map lists exactly the entries
    /// whose combined visibility bit is set, in the chosen output order, and
    /// the text is the newline-join of their rendered paths.
    pub open spec fn shows(self, options: Options, filters: FilterOptions) -> bool {
        let display = options.display_choice();
        let sorting = options.sort_choice();
        let idx = self.filtered_indices@;
        let n = self.entries@.len();
        &&& forall|k: int|
            0 <= k < idx.len() ==> (#[trigger] idx[k]) < n && filters.combined_bit(idx[k] as int)
        &&& forall|i: int|
            0 <= i < n && filters.combined_bit(i) ==> exists|k: int|
                0 <= k < idx.len() && (#[trigger] idx[k]) as int == i
        &&& forall|a: int, b: int|
            0 <= a < b < idx.len() ==> ordered_pair(
                key_of(
                    spec_format(display, self.prefix(), self.entries@[idx[a] as int].path@),
                    sorting.folds_case(),
                ),
                idx[a] as int,
                key_of(
                    spec_format(display, self.prefix(), self.entries@[idx[b] as int].path@),
                    sorting.folds_case(),
                ),
                idx[b] as int,
                sorting.is_descending(),
                sorting.uses_key(),
            )
        &&& self.contents@ == join_lines(
            idx.map(
                |k: int, u: usize| spec_format(display, self.prefix(), self.entries@[u as int].path@),
            ),
        )
    }

    /// Recomputes the rendered text and the line-to-entry map from the
    /// current masks and presentation options.
    pub fn show_filtered_entries(&mut self, options: &Options, filter_options: &FilterOptions)
        requires
            filter_options.masks_wf(),
            filter_options.sized_to(old(self).entries@.len() as int),
        ensures
            final(self).open_folder == old(self).open_folder,
            final(self).entries == old(self).entries,
            final(self).find_and_replace == old(self).find_and_replace,
            final(self).shows(*options, *filter_options),
    {
        let combined = filter_options.recombine();
        let sorting = match options.sorting.selected {
            Some(s) => s,
            None => SortingOption::NoSorting,
        };
        let display = match options.display_type.selected {
            Some(d) => d,
            None => DisplayType::RelativePath,
        };
        let by_key = !(sorting == SortingOption::NoSorting);
        let descending = sorting == SortingOption::SortDescendingCaseInsensitive || sorting
            == SortingOption::SortDescendingCaseSensitive;
        let fold = sorting == SortingOption::SortAscendingCaseInsensitive || sorting
            == SortingOption::SortDescendingCaseInsensitive;
        let prefix = match &self.open_folder {
            Some(f) => f.clone(),
            None => String::new(),
        };
        let mut lines = select_visible(&self.entries, &combined, display, prefix.as_str(), fold);
        let ghost l0 = lines@;
        proof {
            assert forall|a: int, b: int| 0 <= a < b < l0.len() implies l0[a].orig != l0[b].orig by {
                assert(l0[a].orig < l0[b].orig);
            }
        }
        sort_lines(&mut lines, descending, by_key);
        let ghost l1 = lines@;
        let (content, indices) = render_text(&lines);
        self.filtered_indices = indices;
        self.contents = content;
        proof {
            broadcast use vstd::seq_lib::group_to_multiset_ensures;

            let fo = *filter_options;
            let e = self.entries@;
            let idx = self.filtered_indices@;
            let pf = self.prefix();
            assert(prefix@ == pf);
            assert(display == options.display_choice());
            assert(sorting == options.sort_choice());
            assert(by_key == sorting.uses_key());
            assert(descending == sorting.is_descending());
            assert(fold == sorting.folds_case());
            l0.to_multiset_ensures();
            l1.to_multiset_ensures();
            // Every output line is one of the selected lines.
            assert forall|k: int| 0 <= k < l1.len() implies line_ok(
                #[trigger] l1[k],
                e,
                combined,
                display,
                pf,
                fold,
            ) by {
                assert(l1.contains(l1[k]));
                assert(l1.to_multiset().count(l1[k]) > 0);
                assert(l0.to_multiset().count(l1[k]) > 0);
                assert(l0.contains(l1[k]));
                let j = choose|j: int| 0 <= j < l0.len() && l0[j] == l1[k];
                assert(line_ok(l0[j], e, combined, display, pf, fold));
            }
            assert(idx.len() == l1.len());
            assert forall|k: int|
                0 <= k < idx.len() implies (#[trigger] idx[k]) < e.len() && fo.combined_bit(
                idx[k] as int,
            ) by {
                assert(idx[k] == l1[k].orig);
                assert(line_ok(l1[k], e, combined, display, pf, fold));
                assert(combined.bit(l1[k].orig as int));
            }
            // Every visible entry appears among the output lines.
            assert forall|i: int| 0 <= i < e.len() && fo.combined_bit(i) implies exists|k: int|
                0 <= k < idx.len() && (#[trigger] idx[k]) as int == i by {
                assert(combined.bit(i));
                let k0 = choose|k: int| 0 <= k < l0.len() && #[trigger] l0[k].orig == i;
                let x = l0[k0];
                assert(l0.contains(x));
                assert(l0.to_multiset().count(x) > 0);
                assert(l1.to_multiset().count(x) > 0);
                assert(l1.contains(x));
                let m = choose|m: int| 0 <= m < l1.len() && l1[m] == x;
                assert(idx[m] == l1[m].orig);
                assert((idx[m]) as int == i);
            }
            // The output lines stand in the chosen order.
            assert forall|a: int, b: int| 0 <= a < b < idx.len() implies ordered_pair(
                key_of(spec_format(display, pf, e[idx[a] as int].path@), fold),
                idx[a] as int,
                key_of(spec_format(display, pf, e[idx[b] as int].path@), fold),
                idx[b] as int,
                descending,
                by_key,
            ) by {
                assert(crate::render::line_before(l1[a], l1[b], descending, by_key));
                assert(line_ok(l1[a], e, combined, display, pf, fold));
                assert(line_ok(l1[b], e, combined, display, pf, fold));
                assert(idx[a] == l1[a].orig && idx[b] == l1[b].orig);
            }
            // The text is the join of the rendered paths, in output order.
            let mapped = idx.map(|k: int, u: usize| spec_format(display, pf, e[u as int].path@));
            assert forall|k: int| 0 <= k < idx.len() implies texts_of(l1)[k] == mapped[k] by {
                assert(texts_of(l1)[k] == l1[k].text@);
                assert(line_ok(l1[k], e, combined, display, pf, fold));
                assert(idx[k] == l1[k].orig);
            }
            assert(texts_of(l1) =~= mapped);
            assert(self.contents@ == join_lines(mapped));
        }
    }
}

impl Default for EditorState {
    fn default() -> (d: Self)
        ensures
            d.open_folder is None,
            d.entries@.len() == 0,
            d.filtered_indices@.len() == 0,
            d.contents@.len() == 0,
            d.entries_ok(),
    {
        EditorState {
            open_folder: None,
            entries: Vec::new(),
            filtered_indices: Vec::new(),
            contents: String::new(),
            find_and_replace: FindAndReplace::default(),
        }
    }
}

} // verus!
