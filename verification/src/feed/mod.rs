//! Feed sources and the parsed feed.

pub mod date;
pub mod model;
pub mod parse;
pub mod source;

pub use date::{parse_pub_date, parse_relaxed_date, text_view};
pub use model::{Enclosure, Episode, Podcast, PubDate};
pub use parse::{
    parse_episode, parse_feed, parse_url, podcast_from_channel, RawChannel, RawEnclosure, RawItem,
    RawItunes,
};
pub use source::is_url;
