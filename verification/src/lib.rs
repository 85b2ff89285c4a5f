//! Synchronises a podcast feed to a local directory.
//!
//! The library holds the decisions of a synchronisation run: which episodes
//! are new, in which order and in which slot they are fetched, how one
//! transfer proceeds from request to atomic commit, and what is recorded
//! beside each payload. Reading the network and the file system is left to
//! the caller, who performs the steps that the state machines here hand out
//! and reports back what happened.
//!
//! - [`feed`] makes a podcast of a feed document.
//! - [`state`] holds what a scan of the output directory has found, and
//!   plans what is left to download.
//! - [`sync`] schedules the downloads under the concurrency bound.
//! - [`episode`] names an episode's files and runs its transfer.
//! - [`metadata`] makes the sidecar records.
//! - [`progress`] holds the events that a run reports.

pub mod episode;
pub mod error;
pub mod feed;
pub mod metadata;
pub mod progress;
pub mod state;
pub mod sync;
pub mod text;

pub use episode::{
    collapse_separators, generate_filename, generate_filename_stem, get_audio_extension,
    is_valid_audio_extension, metadata_filename, mime_to_extension, sanitize_title,
    truncate_at_boundary, DownloadContext, DownloadResult, SeparatorType, Transfer, TransferPhase,
    TransferStep, TransferView,
};
pub use error::{DownloadError, FeedError, MetadataError, StateError, SyncError};
pub use feed::{
    is_url, parse_episode, parse_feed, parse_pub_date, parse_relaxed_date, parse_url,
    podcast_from_channel, Enclosure, Episode, Podcast, PubDate, RawChannel, RawEnclosure, RawItem,
    RawItunes,
};
pub use metadata::{EpisodeMetadata, PodcastMetadata};
pub use progress::{
    can_truncate_title, truncate_title, NoopReporter, ProgressEvent, ProgressEventView,
    ProgressReporter, SharedProgressReporter,
};
pub use state::{
    classify_entry, create_sync_plan, EntryKind, EntryReport, OutputState, SyncPlan,
};
pub use sync::{Scheduler, SchedulerStep, SchedulerView, SyncOptions, SyncResult, UnitOutcome};
