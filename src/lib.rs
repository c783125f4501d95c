//! Live line-level change markers between a document and its diff base.
//!
//! The library classifies the lines of a document as added, deleted or
//! modified with respect to a reference text, coalesces bursts of updates
//! before recomputing, and looks up the reference text of a file.
pub mod diff;
pub mod git;
pub mod provider;
pub mod worker;

pub use diff::{LineDiff, LineDiffs};
pub use git::{file_object, EntryKind};
pub use provider::{DiffProvider, DiffProviderRegistry};
pub use worker::{Action, DiffWorker, Event, EventAccumulator, Wakeup};
