//! The sidecar of a podcast.

use crate::feed::Podcast;
use super::clock::current_time;
use crate::text::clone_text;
use vstd::prelude::*;

verus! {

/// The name of the podcast's sidecar in the output directory. A scan does
/// not read it for an identity.
pub const PODCAST_METADATA_FILENAME: &'static str = "podcast.json";

/// Metadata of a podcast feed, as it is written to the podcast's sidecar.
#[derive(Debug, Clone)]
pub struct PodcastMetadata {
    pub title: String,
    pub description: Option<String>,
    pub link: Option<String>,
    pub author: Option<String>,
    pub image_url: Option<String>,
    pub feed_url: String,
    /// The time of the run as RFC 3339 has it.
    pub updated_at: String,
}

impl PodcastMetadata {
    /// Whether the record is that of `podcast`: every field but the time
    /// of the run is taken from it.
    pub open spec fn describes(self, podcast: Podcast) -> bool {
        &&& self.title == podcast.title
        &&& self.description == podcast.description
        &&& self.link == podcast.link
        &&& self.author == podcast.author
        &&& self.image_url == podcast.image_url
        &&& self.feed_url == podcast.feed_url
    }

    /// Creates the metadata of a podcast that was synchronised at the time
    /// `updated_at`.
    pub fn from_podcast_at(podcast: &Podcast, updated_at: String) -> (metadata: PodcastMetadata)
        ensures
            metadata.describes(*podcast),
            metadata.updated_at == updated_at,
    {
        PodcastMetadata {
            title: podcast.title.clone(),
            description: clone_text(&podcast.description),
            link: clone_text(&podcast.link),
            author: clone_text(&podcast.author),
            image_url: clone_text(&podcast.image_url),
            feed_url: podcast.feed_url.clone(),
            updated_at,
        }
    }

    /// Creates the metadata of a podcast that is synchronised just now.
    pub fn from_podcast(podcast: &Podcast) -> (metadata: PodcastMetadata)
        ensures
            metadata.describes(*podcast),
    {
        Self::from_podcast_at(podcast, current_time())
    }
}

} // verus!
