//! The entries the engine filters: one record per scanned filesystem object.

use crate::text::has_sep;
use vstd::prelude::*;

verus! {

/// Whether a scanned object is a file or a folder.
#[derive(Debug, Copy, Clone, PartialEq, Eq, Structural)]
pub enum EntryType {
    File,
    Folder,
}

/// One scanned filesystem object. `path` is the path below the scanned root;
/// `og_path` keeps the form the scanner originally produced; `depth` counts
/// path segments from the root, whose direct children sit at depth 1.
#[derive(Debug, Clone)]
pub struct FileSystemEntry {
    pub og_path: String,
    pub path: String,
    pub depth: usize,
    pub entry_type: EntryType,
}

impl FileSystemEntry {
    /// The scanner's contract: depth starts at 1 for the root's direct
    /// children, and every stored path contains at least one separator.
    pub open spec fn wf(self) -> bool {
        &&& self.depth >= 1
        &&& has_sep(self.path@)
    }
}

/// Every entry of a scan result satisfies the scanner's contract.
pub open spec fn entries_wf(entries: Seq<FileSystemEntry>) -> bool {
    forall|i: int| 0 <= i < entries.len() ==> #[trigger] entries[i].wf()
}

} // verus!
