//! The parsed feed: a podcast, its episodes and their enclosures.

use vstd::prelude::*;

verus! {

/// A publication time: an instant and the offset of the zone it was written
/// in.
///
/// `timestamp` counts the seconds since 1970-01-01T00:00:00Z and `nanos` the
/// nanoseconds within that second. `offset_seconds` is the zone's distance
/// east of UTC. Two dates are ordered by their instants alone.
#[derive(Debug, Clone, Copy, PartialEq, Eq, Structural)]
pub struct PubDate {
    pub timestamp: i64,
    pub nanos: u32,
    pub offset_seconds: i32,
}

impl PubDate {
    /// Whether this date's instant lies strictly after `other`'s.
    pub open spec fn is_later_than(self, other: PubDate) -> bool {
        self.timestamp > other.timestamp || (self.timestamp == other.timestamp && self.nanos
            > other.nanos)
    }

    /// Whether the two dates name the same instant.
    pub open spec fn same_instant(self, other: PubDate) -> bool {
        self.timestamp == other.timestamp && self.nanos == other.nanos
    }

    /// Decides [`PubDate::is_later_than`].
    pub fn later_than(&self, other: &PubDate) -> (r: bool)
        ensures
            r == self.is_later_than(*other),
    {
        self.timestamp > other.timestamp || (self.timestamp == other.timestamp && self.nanos
            > other.nanos)
    }
}

/// The audio file attached to an episode.
///
/// `url` is the address in its serialised form.
#[derive(Debug, Clone)]
pub struct Enclosure {
    pub url: String,
    pub length: Option<u64>,
    pub mime_type: Option<String>,
}

/// A single podcast episode.
///
/// `guid` is the episode's identity, stable across fetches of the same feed.
/// An episode without one cannot be recognised again.
#[derive(Debug, Clone)]
pub struct Episode {
    pub title: String,
    pub description: Option<String>,
    pub pub_date: Option<PubDate>,
    pub guid: Option<String>,
    pub enclosure: Enclosure,
    pub duration: Option<String>,
    pub episode_number: Option<u32>,
    pub season_number: Option<u32>,
}

impl Episode {
    /// The episode's identity as a sequence of characters, if it has one.
    pub open spec fn identity(self) -> Option<Seq<char>> {
        match self.guid {
            Some(g) => Some(g@),
            None => None,
        }
    }
}

/// A parsed podcast feed.
#[derive(Debug, Clone)]
pub struct Podcast {
    pub title: String,
    pub description: Option<String>,
    pub link: Option<String>,
    pub author: Option<String>,
    pub image_url: Option<String>,
    pub feed_url: String,
    pub episodes: Vec<Episode>,
}

} // verus!
