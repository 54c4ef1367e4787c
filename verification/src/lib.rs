//! Batch find/replace and insert-after on the bytes of text files.

pub mod batch;
pub mod config;
pub mod diff;
pub mod edit;
pub mod form;
pub mod laws;
pub mod paths;
pub mod report;
pub mod request;
pub mod search;
pub mod shown_laws;
pub mod text;

pub use crate::batch::{is_binary, FileEdit, Summary};
pub use crate::diff::{build_diffs, LineDiff};
pub use crate::edit::{apply_edits, insert_after_all_bytes, replace_all_bytes, Edit, Operation};
pub use crate::paths::canonical_clean;
pub use crate::request::operation_from;

use vstd::prelude::*;

verus! {

/// The context, in bytes, shown on each side of an edit in a preview.
pub const DEFAULT_CTX: usize = 24;

} // verus!
