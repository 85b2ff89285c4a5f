use podpull::{
    is_url, parse_episode, parse_feed, parse_pub_date, parse_relaxed_date, parse_url,
    podcast_from_channel, FeedError, PubDate, RawChannel, RawEnclosure, RawItem, RawItunes,
};

const SAMPLE_FEED: &str = r#"<?xml version="1.0" encoding="UTF-8"?>
<rss version="2.0" xmlns:itunes="http://www.itunes.com/dtds/podcast-1.0.dtd">
  <channel>
    <title>Test Podcast</title>
    <description>A test podcast for unit testing</description>
    <link>https://example.com</link>
    <itunes:author>Test Author</itunes:author>
    <itunes:image href="https://example.com/image.jpg"/>
    <item>
      <title>Episode 1</title>
      <description>First episode</description>
      <pubDate>Mon, 01 Jan 2024 12:00:00 +0000</pubDate>
      <guid>ep1-guid</guid>
      <enclosure url="https://example.com/ep1.mp3" length="1234567" type="audio/mpeg"/>
      <itunes:duration>30:00</itunes:duration>
      <itunes:episode>1</itunes:episode>
      <itunes:season>1</itunes:season>
    </item>
    <item>
      <title>Episode 2</title>
      <enclosure url="https://example.com/ep2.mp3" type="audio/mpeg"/>
    </item>
  </channel>
</rss>"#;

fn feed_url() -> String {
    "https://example.com/feed.xml".to_string()
}

#[test]
fn is_url_detects_http() {
    assert!(is_url("http://example.com/feed.xml"));
    assert!(is_url("https://example.com/feed.xml"));
}

#[test]
fn is_url_rejects_file_paths() {
    assert!(!is_url("/path/to/feed.xml"));
    assert!(!is_url("./feed.xml"));
    assert!(!is_url("feed.xml"));
}

#[test]
fn is_url_needs_the_whole_prefix() {
    assert!(is_url("http://"));
    assert!(is_url("https://"));
    assert!(!is_url("http:/"));
    assert!(!is_url("https:/example.com"));
    assert!(!is_url("HTTP://example.com"));
    assert!(!is_url(" http://example.com"));
    assert!(!is_url("ftp://example.com"));
    assert!(!is_url(""));
}

#[test]
fn parse_feed_extracts_podcast_metadata() {
    let podcast = parse_feed(SAMPLE_FEED.as_bytes(), feed_url()).unwrap();

    assert_eq!(podcast.title, "Test Podcast");
    assert_eq!(
        podcast.description,
        Some("A test podcast for unit testing".to_string())
    );
    assert_eq!(podcast.author, Some("Test Author".to_string()));
    assert_eq!(podcast.feed_url, feed_url());
}

#[test]
fn parse_feed_extracts_episodes() {
    let podcast = parse_feed(SAMPLE_FEED.as_bytes(), feed_url()).unwrap();

    assert_eq!(podcast.episodes.len(), 2);

    let ep1 = &podcast.episodes[0];
    assert_eq!(ep1.title, "Episode 1");
    assert_eq!(ep1.guid, Some("ep1-guid".to_string()));
    assert_eq!(ep1.duration, Some("30:00".to_string()));
    assert_eq!(ep1.episode_number, Some(1));
    assert_eq!(ep1.season_number, Some(1));
    assert_eq!(ep1.enclosure.length, Some(1234567));
}

#[test]
fn parse_feed_handles_missing_optional_fields() {
    let podcast = parse_feed(SAMPLE_FEED.as_bytes(), feed_url()).unwrap();

    let ep2 = &podcast.episodes[1];
    assert_eq!(ep2.title, "Episode 2");
    assert!(ep2.pub_date.is_none());
    assert!(ep2.duration.is_none());
    assert!(ep2.episode_number.is_none());
}

#[test]
fn parse_feed_skips_items_without_enclosure() {
    let feed_no_enclosure = r#"<?xml version="1.0"?>
<rss version="2.0">
  <channel>
    <title>Test</title>
    <description>Test</description>
    <item>
      <title>No Audio</title>
    </item>
  </channel>
</rss>"#;

    let podcast = parse_feed(feed_no_enclosure.as_bytes(), feed_url()).unwrap();
    assert!(podcast.episodes.is_empty());
}

#[test]
fn parse_feed_reads_every_part_of_the_document() {
    let podcast = parse_feed(SAMPLE_FEED.as_bytes(), feed_url()).unwrap();
    assert_eq!(podcast.link, Some("https://example.com/".to_string()));
    assert_eq!(
        podcast.image_url,
        Some("https://example.com/image.jpg".to_string())
    );

    let ep1 = &podcast.episodes[0];
    assert_eq!(ep1.description, Some("First episode".to_string()));
    assert_eq!(
        ep1.pub_date,
        Some(PubDate {
            timestamp: 1_704_110_400,
            nanos: 0,
            offset_seconds: 0,
        })
    );
    assert_eq!(ep1.enclosure.url, "https://example.com/ep1.mp3");
    assert_eq!(ep1.enclosure.mime_type, Some("audio/mpeg".to_string()));

    let ep2 = &podcast.episodes[1];
    // An item without an identity is known by the address of its enclosure.
    assert_eq!(ep2.guid, Some("https://example.com/ep2.mp3".to_string()));
    assert_eq!(ep2.description, None);
    assert_eq!(ep2.enclosure.length, None);
    assert_eq!(ep2.season_number, None);
}

#[test]
fn parse_feed_refuses_what_is_no_feed() {
    assert!(matches!(
        parse_feed(b"<html><body>not a feed</body></html>", feed_url()),
        Err(FeedError::ParseFailed(_))
    ));
    assert!(matches!(
        parse_feed(b"", feed_url()),
        Err(FeedError::ParseFailed(_))
    ));
}

fn raw_item(url: &str) -> RawItem {
    RawItem {
        title: Some("Episode".to_string()),
        description: None,
        pub_date: None,
        guid: Some("guid".to_string()),
        enclosure: Some(RawEnclosure {
            url: url.to_string(),
            length: String::new(),
            mime_type: String::new(),
        }),
        itunes: None,
    }
}

#[test]
fn parse_episode_needs_an_enclosure() {
    let mut item = raw_item("https://example.com/ep.mp3");
    item.enclosure = None;
    match parse_episode(&item) {
        Err(FeedError::MissingEnclosure { title }) => assert_eq!(title, "Episode"),
        other => panic!("unexpected result {:?}", other),
    }
    item.title = None;
    match parse_episode(&item) {
        Err(FeedError::MissingEnclosure { title }) => assert_eq!(title, "Untitled Episode"),
        other => panic!("unexpected result {:?}", other),
    }
}

#[test]
fn parse_episode_needs_a_url() {
    assert!(matches!(
        parse_episode(&raw_item("not a url")),
        Err(FeedError::InvalidUrl(_))
    ));
    assert!(matches!(
        parse_episode(&raw_item("/relative/ep.mp3")),
        Err(FeedError::InvalidUrl(_))
    ));
    assert!(matches!(
        parse_episode(&raw_item("")),
        Err(FeedError::InvalidUrl(_))
    ));
}

#[test]
fn parse_episode_reads_the_texts_leniently() {
    let mut item = raw_item("HTTPS://Example.COM/a b.mp3");
    item.title = None;
    item.guid = None;
    item.pub_date = Some("yesterday".to_string());
    item.enclosure.as_mut().unwrap().length = "12x".to_string();
    item.itunes = Some(RawItunes {
        duration: Some("1:02:03".to_string()),
        episode: Some("4294967296".to_string()),
        season: Some("+7".to_string()),
    });
    let episode = parse_episode(&item).unwrap();
    assert_eq!(episode.title, "Untitled Episode");
    assert_eq!(episode.pub_date, None);
    // The identity is the address as the feed has it, the URL is serialised.
    assert_eq!(episode.guid, Some("HTTPS://Example.COM/a b.mp3".to_string()));
    assert_eq!(episode.enclosure.url, "https://example.com/a%20b.mp3");
    assert_eq!(episode.enclosure.length, None);
    assert_eq!(episode.enclosure.mime_type, None);
    assert_eq!(episode.duration, Some("1:02:03".to_string()));
    assert_eq!(episode.episode_number, None);
    assert_eq!(episode.season_number, Some(7));
}

#[test]
fn podcast_from_channel_keeps_the_usable_items_in_order() {
    let mut first = raw_item("https://example.com/1.mp3");
    first.title = Some("First".to_string());
    let mut broken = raw_item("nowhere");
    broken.title = Some("Broken".to_string());
    let mut silent = raw_item("https://example.com/2.mp3");
    silent.title = Some("Silent".to_string());
    silent.enclosure = None;
    let mut last = raw_item("https://example.com/3.mp3");
    last.title = Some("Last".to_string());
    let raw = RawChannel {
        title: "Podcast".to_string(),
        description: String::new(),
        link: "no link".to_string(),
        image_url: Some("no image".to_string()),
        itunes_image: Some("https://example.com/itunes.jpg".to_string()),
        itunes_author: None,
        managing_editor: Some("Editor".to_string()),
        items: vec![first, broken, silent, last],
    };
    let podcast = podcast_from_channel(raw, feed_url());
    assert_eq!(podcast.title, "Podcast");
    assert_eq!(podcast.description, None);
    assert_eq!(podcast.link, None);
    assert_eq!(podcast.author, Some("Editor".to_string()));
    assert_eq!(
        podcast.image_url,
        Some("https://example.com/itunes.jpg".to_string())
    );
    assert_eq!(podcast.feed_url, feed_url());
    let titles: Vec<&str> = podcast.episodes.iter().map(|e| e.title.as_str()).collect();
    assert_eq!(titles, vec!["First", "Last"]);
}

#[test]
fn podcast_from_channel_prefers_the_channel_s_image_and_the_itunes_author() {
    let raw = RawChannel {
        title: "Podcast".to_string(),
        description: "About".to_string(),
        link: "https://example.com".to_string(),
        image_url: Some("https://example.com/channel.jpg".to_string()),
        itunes_image: Some("https://example.com/itunes.jpg".to_string()),
        itunes_author: Some("Author".to_string()),
        managing_editor: Some("Editor".to_string()),
        items: vec![],
    };
    let podcast = podcast_from_channel(raw, feed_url());
    assert_eq!(podcast.description, Some("About".to_string()));
    assert_eq!(podcast.link, Some("https://example.com/".to_string()));
    assert_eq!(podcast.author, Some("Author".to_string()));
    assert_eq!(
        podcast.image_url,
        Some("https://example.com/channel.jpg".to_string())
    );
}

#[test]
fn parse_url_serialises_the_url() {
    assert_eq!(
        parse_url("https://example.com").unwrap(),
        "https://example.com/"
    );
    assert_eq!(
        parse_url("HTTP://EXAMPLE.com:80/a/../b").unwrap(),
        "http://example.com/b"
    );
    assert!(matches!(
        parse_url("example.com/feed.xml"),
        Err(FeedError::InvalidUrl(_))
    ));
}

#[test]
fn parse_pub_date_reads_rfc_2822() {
    assert_eq!(
        parse_pub_date("Mon, 15 Jan 2024 23:00:00 -0800"),
        Some(PubDate {
            timestamp: 1_705_388_400,
            nanos: 0,
            offset_seconds: -8 * 3600,
        })
    );
    assert_eq!(
        parse_pub_date("15 Jan 2024 12:00:00 GMT"),
        Some(PubDate {
            timestamp: 1_705_320_000,
            nanos: 0,
            offset_seconds: 0,
        })
    );
}

#[test]
fn parse_pub_date_falls_back_to_the_relaxed_patterns() {
    let expected = Some(PubDate {
        timestamp: 1_705_320_000,
        nanos: 0,
        offset_seconds: 3600,
    });
    assert_eq!(parse_pub_date("2024-01-15T13:00:00+01:00"), expected);
    assert_eq!(parse_relaxed_date("2024-01-15T13:00:00+01:00"), expected);
    assert_eq!(parse_relaxed_date("2024-01-15 13:00:00 +0100"), expected);
    assert_eq!(parse_relaxed_date("Mon, 15 Jan 2024 13:00:00 +0100"), expected);
}

#[test]
fn parse_pub_date_gives_up_on_what_is_no_date() {
    assert_eq!(parse_pub_date(""), None);
    assert_eq!(parse_pub_date("invalid"), None);
    assert_eq!(parse_pub_date("2024-01-15"), None);
    assert_eq!(parse_relaxed_date("15 Jan 2024 12:00:00 GMT"), None);
}

#[test]
fn parse_feed_keeps_each_item_s_parts_with_the_item() {
    let feed = r#"<?xml version="1.0" encoding="UTF-8"?>
<rss version="2.0" xmlns:itunes="http://www.itunes.com/dtds/podcast-1.0.dtd">
  <channel>
    <title>Three</title>
    <description></description>
    <link>https://example.com</link>
    <managingEditor>editor@example.com</managingEditor>
    <image><url>https://example.com/channel.jpg</url><title>t</title><link>l</link></image>
    <item>
      <title>First</title>
      <guid>guid-a</guid>
      <enclosure url="https://example.com/a.mp3" length="10" type="audio/mpeg"/>
      <itunes:season>3</itunes:season>
    </item>
    <item>
      <title>Second</title>
      <description>Without an extension</description>
      <enclosure url="https://example.com/b.ogg" length="20" type=""/>
    </item>
    <item>
      <title>No audio</title>
      <guid>guid-c</guid>
      <itunes:episode>9</itunes:episode>
    </item>
    <item>
      <guid>guid-d</guid>
      <pubDate>2024-02-10T08:00:00+01:00</pubDate>
      <enclosure url="https://example.com/d.flac" length="40" type="audio/flac"/>
      <itunes:duration>12:34</itunes:duration>
      <itunes:episode>4</itunes:episode>
    </item>
  </channel>
</rss>"#;
    let podcast = parse_feed(feed.as_bytes(), feed_url()).unwrap();
    assert_eq!(podcast.title, "Three");
    assert_eq!(podcast.description, None);
    assert_eq!(podcast.author, Some("editor@example.com".to_string()));
    assert_eq!(
        podcast.image_url,
        Some("https://example.com/channel.jpg".to_string())
    );

    assert_eq!(podcast.episodes.len(), 3);
    let first = &podcast.episodes[0];
    assert_eq!(first.title, "First");
    assert_eq!(first.guid, Some("guid-a".to_string()));
    assert_eq!(first.enclosure.url, "https://example.com/a.mp3");
    assert_eq!(first.enclosure.length, Some(10));
    assert_eq!(first.enclosure.mime_type, Some("audio/mpeg".to_string()));
    assert_eq!(first.season_number, Some(3));
    assert_eq!(first.episode_number, None);
    assert_eq!(first.duration, None);

    let second = &podcast.episodes[1];
    assert_eq!(second.title, "Second");
    assert_eq!(second.description, Some("Without an extension".to_string()));
    assert_eq!(second.guid, Some("https://example.com/b.ogg".to_string()));
    assert_eq!(second.enclosure.length, Some(20));
    assert_eq!(second.enclosure.mime_type, None);
    assert_eq!(second.season_number, None);
    assert_eq!(second.episode_number, None);

    let last = &podcast.episodes[2];
    assert_eq!(last.title, "Untitled Episode");
    assert_eq!(last.guid, Some("guid-d".to_string()));
    assert_eq!(last.enclosure.url, "https://example.com/d.flac");
    assert_eq!(last.enclosure.length, Some(40));
    assert_eq!(last.duration, Some("12:34".to_string()));
    assert_eq!(last.episode_number, Some(4));
    assert_eq!(
        last.pub_date,
        Some(PubDate {
            timestamp: 1_707_548_400,
            nanos: 0,
            offset_seconds: 3600,
        })
    );
}
