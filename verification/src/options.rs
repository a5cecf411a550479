//! Presentation options: the sort order, the display form of a path, and
//! the option state the surrounding interface reads.

use vstd::prelude::*;

verus! {

/// The ordering applied to the rendered, visible entries.
#[derive(Debug, Copy, Clone, PartialEq, Eq, Structural)]
pub enum SortingOption {
    NoSorting,
    SortAscendingCaseInsensitive,
    SortAscendingCaseSensitive,
    SortDescendingCaseInsensitive,
    SortDescendingCaseSensitive,
}

impl SortingOption {
    /// Whether this option orders by the rendered key at all.
    pub open spec fn uses_key(self) -> bool {
        self != SortingOption::NoSorting
    }

    /// Whether the key order is reversed.
    pub open spec fn is_descending(self) -> bool {
        self == SortingOption::SortDescendingCaseInsensitive || self
            == SortingOption::SortDescendingCaseSensitive
    }

    /// Whether keys are compared after folding to lower case.
    pub open spec fn folds_case(self) -> bool {
        self == SortingOption::SortAscendingCaseInsensitive || self
            == SortingOption::SortDescendingCaseInsensitive
    }

    pub open spec fn spec_label(self) -> Seq<char> {
        match self {
            SortingOption::NoSorting => "No sorting"@,
            SortingOption::SortAscendingCaseInsensitive => "Sort ascending case insensitive"@,
            SortingOption::SortAscendingCaseSensitive => "Sort ascending case sensitive"@,
            SortingOption::SortDescendingCaseInsensitive => "Sort descending case insensitive"@,
            SortingOption::SortDescendingCaseSensitive => "Sort descending case sensitive"@,
        }
    }

    /// The label shown for this option.
    pub fn label(&self) -> (s: String)
        ensures
            s@ == self.spec_label(),
    {
        match self {
            SortingOption::NoSorting => String::from_str("No sorting"),
            SortingOption::SortAscendingCaseInsensitive => String::from_str(
                "Sort ascending case insensitive",
            ),
            SortingOption::SortAscendingCaseSensitive => String::from_str(
                "Sort ascending case sensitive",
            ),
            SortingOption::SortDescendingCaseInsensitive => String::from_str(
                "Sort descending case insensitive",
            ),
            SortingOption::SortDescendingCaseSensitive => String::from_str(
                "Sort descending case sensitive",
            ),
        }
    }

    /// The closed set of sort options, in presentation order.
    pub fn variants() -> (v: Vec<SortingOption>)
        ensures
            v@ == seq![
                SortingOption::NoSorting,
                SortingOption::SortAscendingCaseInsensitive,
                SortingOption::SortAscendingCaseSensitive,
                SortingOption::SortDescendingCaseInsensitive,
                SortingOption::SortDescendingCaseSensitive,
            ],
    {
        let mut v: Vec<SortingOption> = Vec::new();
        v.push(SortingOption::NoSorting);
        v.push(SortingOption::SortAscendingCaseInsensitive);
        v.push(SortingOption::SortAscendingCaseSensitive);
        v.push(SortingOption::SortDescendingCaseInsensitive);
        v.push(SortingOption::SortDescendingCaseSensitive);
        proof {
            assert(v@ =~= seq![
                SortingOption::NoSorting,
                SortingOption::SortAscendingCaseInsensitive,
                SortingOption::SortAscendingCaseSensitive,
                SortingOption::SortDescendingCaseInsensitive,
                SortingOption::SortDescendingCaseSensitive,
            ]);
        }
        v
    }
}

/// The textual rendering form of a path.
#[derive(Debug, Copy, Clone, PartialEq, Eq, Structural)]
pub enum DisplayType {
    AbsolutePath,
    RelativePath,
    JustName,
}

impl DisplayType {
    pub open spec fn spec_label(self) -> Seq<char> {
        match self {
            DisplayType::AbsolutePath => "Absolute path"@,
            DisplayType::RelativePath => "Relative path"@,
            DisplayType::JustName => "Just name"@,
        }
    }

    /// The label shown for this display form.
    pub fn label(&self) -> (s: String)
        ensures
            s@ == self.spec_label(),
    {
        match self {
            DisplayType::AbsolutePath => String::from_str("Absolute path"),
            DisplayType::RelativePath => String::from_str("Relative path"),
            DisplayType::JustName => String::from_str("Just name"),
        }
    }

    /// The closed set of display forms, in presentation order.
    pub fn variants() -> (v: Vec<DisplayType>)
        ensures
            v@ == seq![DisplayType::AbsolutePath, DisplayType::RelativePath, DisplayType::JustName],
    {
        let mut v: Vec<DisplayType> = Vec::new();
        v.push(DisplayType::AbsolutePath);
        v.push(DisplayType::RelativePath);
        v.push(DisplayType::JustName);
        proof {
            assert(v@ =~= seq![
                DisplayType::AbsolutePath,
                DisplayType::RelativePath,
                DisplayType::JustName,
            ]);
        }
        v
    }
}

/// A selectable option list with its current selection.
#[derive(Debug, Clone)]
pub struct DropDownState<T> {
    pub selected: Option<T>,
    pub options: Vec<T>,
}

/// Presentation options of the engine.
#[derive(Debug, Clone)]
pub struct Options {
    pub sorting: DropDownState<SortingOption>,
    pub display_type: DropDownState<DisplayType>,
    pub remove_empty: bool,
    pub preview_changes: bool,
}

impl Options {
    /// The effective sort order: no sorting while nothing is selected.
    pub open spec fn sort_choice(self) -> SortingOption {
        match self.sorting.selected {
            Some(s) => s,
            None => SortingOption::NoSorting,
        }
    }

    /// The effective display form: the relative path while nothing is
    /// selected.
    pub open spec fn display_choice(self) -> DisplayType {
        match self.display_type.selected {
            Some(d) => d,
            None => DisplayType::RelativePath,
        }
    }
}

impl Default for Options {
    fn default() -> (d: Self)
        ensures
            d.sorting.selected == Some(SortingOption::NoSorting),
            d.display_type.selected == Some(DisplayType::RelativePath),
            !d.remove_empty,
            d.preview_changes,
            d.sort_choice() == SortingOption::NoSorting,
            d.display_choice() == DisplayType::RelativePath,
    {
        Options {
            sorting: DropDownState {
                selected: Some(SortingOption::NoSorting),
                options: SortingOption::variants(),
            },
            display_type: DropDownState {
                selected: Some(DisplayType::RelativePath),
                options: DisplayType::variants(),
            },
            remove_empty: false,
            preview_changes: true,
        }
    }
}

} // verus!
