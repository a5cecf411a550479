//! Incremental multi-criterion filtering and sorting engine for lists of
//! scanned filesystem paths.
//!
//! Entries come from an external directory walk; five independent criteria
//! (text match, minimum depth, maximum depth, show files, show folders) each
//! keep a packed visibility mask, the engine combines the masks with bitwise
//! AND, and a sort-and-format pipeline renders the visible entries as text.

pub mod bit_set;
pub mod editor;
pub mod engine;
pub mod entry;
pub mod filters;
pub mod options;
pub mod pattern;
pub mod render;
pub mod text;

pub use bit_set::BitSet;
pub use engine::{Error, Mareto, Message};
pub use entry::{EntryType, FileSystemEntry};
