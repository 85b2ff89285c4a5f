//! The sidecar records: what is written down beside a payload and beside a
//! podcast.

mod clock;
pub mod episode;
pub mod podcast;

pub use episode::EpisodeMetadata;
pub use podcast::{PodcastMetadata, PODCAST_METADATA_FILENAME};
