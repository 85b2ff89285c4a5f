//! The sidecar of an episode.

use crate::feed::{text_view, Episode, PubDate};
use super::clock::current_time;
use crate::text::clone_text;
use vstd::prelude::*;
use vstd::string::StringExecFns;

verus! {

/// Metadata of a downloaded episode, as it is written to the episode's
/// sidecar.
///
/// One sidecar belongs to one committed payload: it names the payload's
/// file, its source, and the content hash of what was written. A scan
/// takes an episode as downloaded only where its sidecar can be read.
#[derive(Debug, Clone)]
pub struct EpisodeMetadata {
    pub title: String,
    pub description: Option<String>,
    /// The publication date as RFC 3339 has it.
    pub pub_date: Option<String>,
    pub guid: Option<String>,
    pub original_url: String,
    /// The time of the download as RFC 3339 has it.
    pub downloaded_at: String,
    pub duration: Option<String>,
    pub episode_number: Option<u32>,
    pub season_number: Option<u32>,
    pub audio_filename: String,
    pub content_hash: Option<String>,
}

/// The text of an optional date as RFC 3339 has it.
pub open spec fn rfc3339_of(date: Option<PubDate>) -> Option<Seq<char>> {
    match date {
        Some(d) => d.rfc3339(),
        None => None,
    }
}

impl EpisodeMetadata {
    /// Whether the record is that of `episode`, kept under `audio_filename`
    /// with the hash `content_hash`: every field but the time of the
    /// download is taken from these.
    pub open spec fn describes(
        self,
        episode: Episode,
        audio_filename: Seq<char>,
        content_hash: Option<String>,
    ) -> bool {
        &&& self.title == episode.title
        &&& self.description == episode.description
        &&& text_view(self.pub_date) == rfc3339_of(episode.pub_date)
        &&& self.guid == episode.guid
        &&& self.original_url == episode.enclosure.url
        &&& self.duration == episode.duration
        &&& self.episode_number == episode.episode_number
        &&& self.season_number == episode.season_number
        &&& self.audio_filename@ == audio_filename
        &&& self.content_hash == content_hash
    }

    /// Creates the metadata of an episode that was downloaded at the time
    /// `downloaded_at`.
    pub fn from_episode_at(
        episode: &Episode,
        audio_filename: &str,
        content_hash: Option<String>,
        downloaded_at: String,
    ) -> (metadata: EpisodeMetadata)
        ensures
            metadata.describes(*episode, audio_filename@, content_hash),
            metadata.downloaded_at == downloaded_at,
    {
        let pub_date = match &episode.pub_date {
            Some(date) => date.to_rfc3339(),
            None => None,
        };
        EpisodeMetadata {
            title: episode.title.clone(),
            description: clone_text(&episode.description),
            pub_date,
            guid: clone_text(&episode.guid),
            original_url: episode.enclosure.url.clone(),
            downloaded_at,
            duration: clone_text(&episode.duration),
            episode_number: episode.episode_number,
            season_number: episode.season_number,
            audio_filename: String::from_str(audio_filename),
            content_hash,
        }
    }

    /// Creates the metadata of an episode that was downloaded just now.
    pub fn from_episode(episode: &Episode, audio_filename: &str, content_hash: Option<String>) -> (
        metadata: EpisodeMetadata
    )
        ensures
            metadata.describes(*episode, audio_filename@, content_hash),
    {
        Self::from_episode_at(episode, audio_filename, content_hash, current_time())
    }
}

} // verus!
