//! What the output directory already holds, and what is left to download.

pub mod order;
pub mod output;
pub mod plan;

pub use output::{classify_entry, EntryKind, EntryReport, OutputState};
pub use plan::{create_sync_plan, SyncPlan};
