//! From a feed document to a podcast.
//!
//! The document is read by `rss`. What it holds is first laid out as plain
//! texts, the raw channel, and the podcast is made of those: an item
//! becomes an episode if it has an enclosure whose address is a URL; its
//! date is read leniently, and an item without an identity is identified
//! by the address of its enclosure.

use super::date::{parse_pub_date, publication_date, text_view};
use super::model::{Enclosure, Episode, Podcast, PubDate};
use crate::error::FeedError;
use crate::text::{clone_text, number_text, parse_number};
use vstd::prelude::*;
use vstd::string::StringExecFns;

verus! {

/// A feed document as `rss` has read it.
#[verifier::external_type_specification]
#[verifier::external_body]
pub struct ExChannel(rss::Channel);

/// The enclosure of an item, as the document has it.
#[derive(Debug, Clone)]
pub struct RawEnclosure {
    pub url: String,
    pub length: String,
    pub mime_type: String,
}

/// What the iTunes extension says of an item.
#[derive(Debug, Clone)]
pub struct RawItunes {
    pub duration: Option<String>,
    pub episode: Option<String>,
    pub season: Option<String>,
}

/// An item of a feed, as the document has it.
#[derive(Debug, Clone)]
pub struct RawItem {
    pub title: Option<String>,
    pub description: Option<String>,
    pub pub_date: Option<String>,
    pub guid: Option<String>,
    pub enclosure: Option<RawEnclosure>,
    pub itunes: Option<RawItunes>,
}

/// A feed, as the document has it.
#[derive(Debug, Clone)]
pub struct RawChannel {
    pub title: String,
    pub description: String,
    pub link: String,
    pub image_url: Option<String>,
    pub itunes_image: Option<String>,
    pub itunes_author: Option<String>,
    pub managing_editor: Option<String>,
    pub items: Vec<RawItem>,
}

/// The URL that `url` reads from `text`, in its serialised form; `None`
/// where `text` is no absolute URL.
pub uninterp spec fn normalized_url(text: Seq<char>) -> Option<Seq<char>>;

/// `Url::parse` of `url`, the URL turned back into its text. The text is
/// [`normalized_url`] of the input; an error stands for `None`.
#[verifier::external_body]
fn read_url(text: &str) -> (r: Result<String, url::ParseError>)
    ensures
        match r {
            Ok(address) => normalized_url(text@) == Some(address@),
            Err(_) => normalized_url(text@) is None,
        },
{
    url::Url::parse(text).map(String::from)
}

/// Reads a URL and writes it in its serialised form.
pub fn parse_url(text: &str) -> (r: Result<String, FeedError>)
    ensures
        match r {
            Ok(address) => normalized_url(text@) == Some(address@),
            Err(e) => normalized_url(text@) is None && e is InvalidUrl,
        },
{
    match read_url(text) {
        Ok(address) => Ok(address),
        Err(e) => Err(FeedError::InvalidUrl(e)),
    }
}

/// The title of an item: its own, or `Untitled Episode`.
pub open spec fn title_of(item: RawItem) -> Seq<char> {
    match item.title {
        Some(t) => t@,
        None => "Untitled Episode"@,
    }
}

/// What is found in an optional part of the iTunes extension.
pub open spec fn itunes_text(
    itunes: Option<RawItunes>,
    part: spec_fn(RawItunes) -> Option<String>,
) -> Option<String> {
    match itunes {
        Some(x) => part(x),
        None => None,
    }
}

/// The number that an optional text writes, if it writes one that is at
/// most `max`.
pub open spec fn number_of(text: Option<String>, max: nat) -> Option<nat> {
    match text {
        Some(t) => number_text(t@, max),
        None => None,
    }
}

/// A number of 32 bits as a natural number.
pub open spec fn nat_of(n: Option<u32>) -> Option<nat> {
    match n {
        Some(v) => Some(v as nat),
        None => None,
    }
}

/// Whether an item becomes an episode: it has an enclosure, and the
/// address of the enclosure is a URL.
pub open spec fn is_usable(item: RawItem) -> bool {
    item.enclosure matches Some(e) && normalized_url(e.url@) is Some
}

/// Whether `episode` is the episode that a usable item gives.
pub open spec fn is_episode_of(episode: Episode, item: RawItem) -> bool {
    let enclosure = item.enclosure->0;
    &&& episode.title@ == title_of(item)
    &&& episode.description == item.description
    &&& episode.pub_date == match item.pub_date {
        Some(text) => publication_date(text@),
        None => None,
    }
    &&& episode.identity() == match item.guid {
        Some(id) => Some(id@),
        None => Some(enclosure.url@),
    }
    &&& Some(episode.enclosure.url@) == normalized_url(enclosure.url@)
    &&& (match episode.enclosure.length {
        Some(n) => Some(n as nat),
        None => None,
    }) == number_text(enclosure.length@, u64::MAX as nat)
    &&& episode.enclosure.mime_type == if enclosure.mime_type@.len() == 0 {
        None
    } else {
        Some(enclosure.mime_type)
    }
    &&& episode.duration == itunes_text(item.itunes, |x: RawItunes| x.duration)
    &&& nat_of(episode.episode_number) == number_of(
        itunes_text(item.itunes, |x: RawItunes| x.episode),
        u32::MAX as nat,
    )
    &&& nat_of(episode.season_number) == number_of(
        itunes_text(item.itunes, |x: RawItunes| x.season),
        u32::MAX as nat,
    )
}

/// Reads a number of 32 bits from an optional text.
fn parse_u32(text: &Option<String>) -> (r: Option<u32>)
    ensures
        nat_of(r) == number_of(*text, u32::MAX as nat),
{
    match text {
        Some(t) => match parse_number(t.as_str(), 0xffff_ffff) {
            Some(n) => Some(n as u32),
            None => None,
        },
        None => None,
    }
}

/// Makes an episode of an item.
///
/// An item without an enclosure gives `MissingEnclosure`, one whose
/// enclosure has an address that is no URL gives `InvalidUrl`; every other
/// item gives its episode.
pub fn parse_episode(item: &RawItem) -> (r: Result<Episode, FeedError>)
    ensures
        match r {
            Ok(episode) => is_usable(*item) && is_episode_of(episode, *item),
            Err(FeedError::MissingEnclosure { title }) => item.enclosure is None && title@
                == title_of(*item),
            Err(FeedError::InvalidUrl(_)) => item.enclosure matches Some(e) && normalized_url(
                e.url@,
            ) is None,
            Err(_) => false,
        },
{
    let title = match &item.title {
        Some(t) => t.clone(),
        None => String::from_str("Untitled Episode"),
    };
    let enclosure = match &item.enclosure {
        Some(e) => e,
        None => {
            return Err(FeedError::MissingEnclosure { title });
        },
    };
    let url = match parse_url(enclosure.url.as_str()) {
        Ok(address) => address,
        Err(e) => {
            return Err(e);
        },
    };
    let pub_date: Option<PubDate> = match &item.pub_date {
        Some(text) => parse_pub_date(text.as_str()),
        None => None,
    };
    let guid = match &item.guid {
        Some(id) => Some(id.clone()),
        None => Some(enclosure.url.clone()),
    };
    let mime_type = if enclosure.mime_type.as_str().is_empty() {
        None
    } else {
        Some(enclosure.mime_type.clone())
    };
    let (duration, episode_number, season_number) = match &item.itunes {
        Some(x) => (clone_text(&x.duration), parse_u32(&x.episode), parse_u32(&x.season)),
        None => (None, None, None),
    };
    Ok(
        Episode {
            title,
            description: clone_text(&item.description),
            pub_date,
            guid,
            enclosure: Enclosure {
                url,
                length: parse_number(enclosure.length.as_str(), u64::MAX),
                mime_type,
            },
            duration,
            episode_number,
            season_number,
        },
    )
}

/// The items of a feed that become episodes, in the order of the feed.
pub open spec fn usable_items(items: Seq<RawItem>) -> Seq<RawItem> {
    items.filter(|item: RawItem| is_usable(item))
}

/// The URL that an optional text gives.
pub open spec fn url_of(text: Option<String>) -> Option<Seq<char>> {
    match text {
        Some(t) => normalized_url(t@),
        None => None,
    }
}

/// Whether `podcast` is the podcast that the raw channel gives when it was
/// fetched from `feed_url`.
///
/// Its episodes are those of the usable items, in the order of the feed.
/// An empty description counts as none, and a link that is no URL as none.
/// The author is that of the iTunes extension, else the managing editor;
/// the image is that of the channel if its address is a URL, else that of
/// the iTunes extension.
pub open spec fn is_podcast_of(podcast: Podcast, raw: RawChannel, feed_url: Seq<char>) -> bool {
    &&& podcast.title == raw.title
    &&& podcast.description == if raw.description@.len() == 0 {
        None
    } else {
        Some(raw.description)
    }
    &&& text_view(podcast.link) == normalized_url(raw.link@)
    &&& podcast.author == match raw.itunes_author {
        Some(author) => Some(author),
        None => raw.managing_editor,
    }
    &&& text_view(podcast.image_url) == match url_of(raw.image_url) {
        Some(address) => Some(address),
        None => url_of(raw.itunes_image),
    }
    &&& podcast.feed_url@ == feed_url
    &&& podcast.episodes@.len() == usable_items(raw.items@).len()
    &&& forall|k: int|
        0 <= k < podcast.episodes@.len() ==> is_episode_of(
            #[trigger] podcast.episodes@[k],
            usable_items(raw.items@)[k],
        )
}

/// Reads an optional text as a URL.
fn parse_optional_url(text: &Option<String>) -> (r: Option<String>)
    ensures
        text_view(r) == url_of(*text),
{
    match text {
        Some(t) => match parse_url(t.as_str()) {
            Ok(address) => Some(address),
            Err(_) => None,
        },
        None => None,
    }
}

/// Makes a podcast of a raw channel that was fetched from `feed_url`.
pub fn podcast_from_channel(raw: RawChannel, feed_url: String) -> (podcast: Podcast)
    ensures
        is_podcast_of(podcast, raw, feed_url@),
{
    let mut episodes: Vec<Episode> = Vec::new();
    let ghost usable = |item: RawItem| is_usable(item);
    let mut i: usize = 0;
    proof {
        reveal(Seq::filter);
        assert(raw.items@.take(0).filter(usable) =~= Seq::<RawItem>::empty());
    }
    while i < raw.items.len()
        invariant
            i <= raw.items.len(),
            usable == (|item: RawItem| is_usable(item)),
            episodes@.len() == raw.items@.take(i as int).filter(usable).len(),
            forall|k: int|
                0 <= k < episodes@.len() ==> is_episode_of(
                    #[trigger] episodes@[k],
                    raw.items@.take(i as int).filter(usable)[k],
                ),
        decreases raw.items.len() - i,
    {
        proof {
            reveal(Seq::filter);
            assert(raw.items@.take(i + 1).drop_last() =~= raw.items@.take(i as int));
        }
        match parse_episode(&raw.items[i]) {
            Ok(episode) => {
                episodes.push(episode);
            },
            Err(_) => {},
        }
        i += 1;
    }
    assert(raw.items@.take(raw.items@.len() as int) =~= raw.items@);
    let image_url = match parse_optional_url(&raw.image_url) {
        Some(address) => Some(address),
        None => parse_optional_url(&raw.itunes_image),
    };
    let author = match raw.itunes_author {
        Some(author) => Some(author),
        None => raw.managing_editor,
    };
    let link = match parse_url(raw.link.as_str()) {
        Ok(address) => Some(address),
        Err(_) => None,
    };
    let description = if raw.description.as_str().is_empty() {
        None
    } else {
        Some(raw.description)
    };
    Podcast { title: raw.title, description, link, author, image_url, feed_url, episodes }
}

/// The items of the feed that `rss` reads from the bytes `xml`, in the
/// order of the document, each laid out as plain texts; `None` where `rss`
/// refuses the bytes.
pub uninterp spec fn feed_items(xml: Seq<u8>) -> Option<Seq<RawItem>>;

/// The texts beside its items of the feed that `rss` reads from the bytes
/// `xml`, laid out as a raw channel. Of the list of items of the result
/// nothing is said, nor of the result where `rss` refuses the bytes.
pub uninterp spec fn feed_texts(xml: Seq<u8>) -> RawChannel;

/// Whether `raw` lays out the feed that the bytes `xml` hold.
pub open spec fn is_feed_of(raw: RawChannel, xml: Seq<u8>) -> bool {
    &&& feed_items(xml) == Some(raw.items@)
    &&& same_channel_texts(raw, feed_texts(xml))
}

/// The items that a channel holds, in the order of the document, each laid
/// out as plain texts.
pub uninterp spec fn items_held(channel: rss::Channel) -> Seq<RawItem>;

/// The texts that a channel holds beside its items, laid out as a raw
/// channel. Of the list of items of the result nothing is said.
pub uninterp spec fn texts_held(channel: rss::Channel) -> RawChannel;

/// Whether two raw channels hold the same texts beside their items.
pub open spec fn same_channel_texts(a: RawChannel, b: RawChannel) -> bool {
    &&& a.title == b.title
    &&& a.description == b.description
    &&& a.link == b.link
    &&& a.image_url == b.image_url
    &&& a.itunes_image == b.itunes_image
    &&& a.itunes_author == b.itunes_author
    &&& a.managing_editor == b.managing_editor
}

/// Whether two raw items hold the same texts beside their enclosure and
/// their iTunes extension.
pub open spec fn same_item_texts(a: RawItem, b: RawItem) -> bool {
    &&& a.title == b.title
    &&& a.description == b.description
    &&& a.pub_date == b.pub_date
    &&& a.guid == b.guid
}

/// Whether `raw` lays out what `channel` holds: its texts, and its items
/// one for one in the order of the document.
pub open spec fn is_layout_of(raw: RawChannel, channel: rss::Channel) -> bool {
    &&& same_channel_texts(raw, texts_held(channel))
    &&& raw.items@ == items_held(channel)
}

/// `Channel::read_from` of `rss`: the document that the bytes hold, or the
/// error with which they were refused. What the document holds is what
/// [`feed_items`] and [`feed_texts`] say of the bytes, and the bytes are
/// refused where [`feed_items`] has nothing.
#[verifier::external_body]
fn read_channel(xml: &[u8]) -> (r: Result<rss::Channel, rss::Error>)
    ensures
        match r {
            Ok(channel) => feed_items(xml@) == Some(items_held(channel)) && same_channel_texts(
                texts_held(channel),
                feed_texts(xml@),
            ),
            Err(_) => feed_items(xml@) is None,
        },
{
    rss::Channel::read_from(xml)
}

/// The texts of a channel, by the getters of `rss::Channel`, of its image
/// and of its iTunes extension: the texts of [`texts_held`]. The list of
/// items is left empty.
#[verifier::external_body]
fn channel_texts(channel: &rss::Channel) -> (head: RawChannel)
    ensures
        same_channel_texts(head, texts_held(*channel)),
{
    let itunes = channel.itunes_ext();
    RawChannel {
        title: channel.title().to_string(),
        description: channel.description().to_string(),
        link: channel.link().to_string(),
        image_url: channel.image().map(|image| image.url().to_string()),
        itunes_image: itunes.and_then(|x| x.image()).map(String::from),
        itunes_author: itunes.and_then(|x| x.author()).map(String::from),
        managing_editor: channel.managing_editor().map(String::from),
        items: Vec::new(),
    }
}

/// The length of `Channel::items` of `rss`: the number of items that the
/// channel holds.
#[verifier::external_body]
fn item_count(channel: &rss::Channel) -> (count: usize)
    ensures
        count == items_held(*channel).len(),
{
    channel.items().len()
}

/// The texts of the item at `index` of `Channel::items`, by the getters of
/// `rss::Item` and `rss::Guid`: those of the item at `index` of
/// [`items_held`]; `None` if and only if the channel has no such item. The
/// enclosure and the iTunes extension are left out.
#[verifier::external_body]
fn item_texts(channel: &rss::Channel, index: usize) -> (texts: Option<RawItem>)
    ensures
        match texts {
            Some(t) => index < items_held(*channel).len() && same_item_texts(
                t,
                items_held(*channel)[index as int],
            ),
            None => index >= items_held(*channel).len(),
        },
{
    let item = channel.items().get(index)?;
    Some(
        RawItem {
            title: item.title().map(String::from),
            description: item.description().map(String::from),
            pub_date: item.pub_date().map(String::from),
            guid: item.guid().map(|guid| guid.value().to_string()),
            enclosure: None,
            itunes: None,
        },
    )
}

/// The enclosure of the item at `index` of `Channel::items`, by
/// `Item::enclosure` and the getters of `rss::Enclosure`: that of the item
/// at `index` of [`items_held`].
#[verifier::external_body]
fn item_enclosure(channel: &rss::Channel, index: usize) -> (enclosure: Option<RawEnclosure>)
    ensures
        index < items_held(*channel).len() ==> enclosure == items_held(
            *channel,
        )[index as int].enclosure,
{
    let enclosure = channel.items().get(index)?.enclosure()?;
    Some(
        RawEnclosure {
            url: enclosure.url().to_string(),
            length: enclosure.length().to_string(),
            mime_type: enclosure.mime_type().to_string(),
        },
    )
}

/// The iTunes extension of the item at `index` of `Channel::items`, by
/// `Item::itunes_ext` and the getters of
/// `rss::extension::itunes::ITunesItemExtension`: that of the item at
/// `index` of [`items_held`].
#[verifier::external_body]
fn item_itunes(channel: &rss::Channel, index: usize) -> (itunes: Option<RawItunes>)
    ensures
        index < items_held(*channel).len() ==> itunes == items_held(
            *channel,
        )[index as int].itunes,
{
    let itunes = channel.items().get(index)?.itunes_ext()?;
    Some(
        RawItunes {
            duration: itunes.duration().map(String::from),
            episode: itunes.episode().map(String::from),
            season: itunes.season().map(String::from),
        },
    )
}

/// Lays out what a document holds as a raw channel: the texts of the
/// channel, and every item that it holds, one for one and in the order of
/// the document, each with its own enclosure and its own iTunes extension.
fn raw_channel(channel: &rss::Channel) -> (raw: RawChannel)
    ensures
        is_layout_of(raw, *channel),
{
    let head = channel_texts(channel);
    let count = item_count(channel);
    let mut items: Vec<RawItem> = Vec::new();
    let mut index: usize = 0;
    while index < count
        invariant
            index <= count,
            count == items_held(*channel).len(),
            items@ == items_held(*channel).take(index as int),
        decreases count - index,
    {
        if let Some(texts) = item_texts(channel, index) {
            let item = RawItem {
                enclosure: item_enclosure(channel, index),
                itunes: item_itunes(channel, index),
                ..texts
            };
            assert(item == items_held(*channel)[index as int]);
            items.push(item);
        }
        assert(items@ =~= items_held(*channel).take(index + 1));
        index += 1;
    }
    assert(items_held(*channel).take(count as int) =~= items_held(*channel));
    RawChannel { items, ..head }
}

/// Parses the bytes of an RSS feed that was fetched from `feed_url` into a
/// podcast.
///
/// Bytes that hold no feed give `ParseFailed`, and only they fail. Every
/// other input gives the podcast of the feed that the bytes hold; an item
/// that cannot become an episode is left out and fails nothing.
pub fn parse_feed(xml_bytes: &[u8], feed_url: String) -> (r: Result<Podcast, FeedError>)
    ensures
        match r {
            Ok(podcast) => feed_items(xml_bytes@) is Some && exists|raw: RawChannel|
                is_feed_of(raw, xml_bytes@) && is_podcast_of(podcast, raw, feed_url@),
            Err(e) => e is ParseFailed && feed_items(xml_bytes@) is None,
        },
{
    match read_channel(xml_bytes) {
        Ok(channel) => {
            let raw = raw_channel(&channel);
            let podcast = podcast_from_channel(raw, feed_url);
            assert(is_feed_of(raw, xml_bytes@) && is_podcast_of(podcast, raw, feed_url@));
            Ok(podcast)
        },
        Err(e) => Err(FeedError::ParseFailed(e)),
    }
}

} // verus!
