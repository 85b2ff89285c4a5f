use chrono::DateTime;
use podpull::{Enclosure, Episode, EpisodeMetadata, Podcast, PodcastMetadata, PubDate};
use url::Url;

fn make_episode() -> Episode {
    Episode {
        title: "Test Episode".to_string(),
        description: Some("A test episode".to_string()),
        pub_date: DateTime::parse_from_rfc2822("Mon, 15 Jan 2024 12:00:00 +0000")
            .ok()
            .map(|dt| PubDate {
                timestamp: dt.timestamp(),
                nanos: dt.timestamp_subsec_nanos(),
                offset_seconds: dt.offset().local_minus_utc(),
            }),
        guid: Some("test-guid-123".to_string()),
        enclosure: Enclosure {
            url: Url::parse("https://example.com/episode.mp3")
                .unwrap()
                .to_string(),
            length: Some(1234567),
            mime_type: Some("audio/mpeg".to_string()),
        },
        duration: Some("30:00".to_string()),
        episode_number: Some(42),
        season_number: Some(2),
    }
}

fn make_podcast() -> Podcast {
    Podcast {
        title: "Test Podcast".to_string(),
        description: Some("A test podcast".to_string()),
        link: Some(Url::parse("https://example.com").unwrap().to_string()),
        author: Some("Test Author".to_string()),
        image_url: Some(
            Url::parse("https://example.com/image.jpg")
                .unwrap()
                .to_string(),
        ),
        feed_url: Url::parse("https://example.com/feed.xml")
            .unwrap()
            .to_string(),
        episodes: vec![],
    }
}

#[test]
fn from_episode_converts_all_fields() {
    let episode = make_episode();
    let metadata = EpisodeMetadata::from_episode(
        &episode,
        "2024-01-15-test-episode.mp3",
        Some("sha256:abc123".to_string()),
    );

    assert_eq!(metadata.title, "Test Episode");
    assert_eq!(metadata.description, Some("A test episode".to_string()));
    assert!(metadata.pub_date.is_some());
    assert_eq!(metadata.guid, Some("test-guid-123".to_string()));
    assert_eq!(metadata.original_url, "https://example.com/episode.mp3");
    assert_eq!(metadata.duration, Some("30:00".to_string()));
    assert_eq!(metadata.episode_number, Some(42));
    assert_eq!(metadata.season_number, Some(2));
    assert_eq!(metadata.audio_filename, "2024-01-15-test-episode.mp3");
    assert_eq!(metadata.content_hash, Some("sha256:abc123".to_string()));
}

#[test]
fn handles_missing_optional_fields() {
    let episode = Episode {
        title: "Minimal Episode".to_string(),
        description: None,
        pub_date: None,
        guid: None,
        enclosure: Enclosure {
            url: Url::parse("https://example.com/ep.mp3").unwrap().to_string(),
            length: None,
            mime_type: None,
        },
        duration: None,
        episode_number: None,
        season_number: None,
    };

    let metadata = EpisodeMetadata::from_episode(&episode, "minimal.mp3", None);

    assert_eq!(metadata.title, "Minimal Episode");
    assert!(metadata.description.is_none());
    assert!(metadata.pub_date.is_none());
    assert!(metadata.guid.is_none());
    assert!(metadata.duration.is_none());
    assert!(metadata.episode_number.is_none());
    assert!(metadata.season_number.is_none());
    assert!(metadata.content_hash.is_none());
}

#[test]
fn from_episode_writes_the_date_in_its_own_zone() {
    let mut episode = make_episode();
    let metadata = EpisodeMetadata::from_episode_at(
        &episode,
        "a.mp3",
        None,
        "2024-02-01T00:00:00+00:00".to_string(),
    );
    assert_eq!(
        metadata.pub_date,
        Some("2024-01-15T12:00:00+00:00".to_string())
    );
    assert_eq!(metadata.downloaded_at, "2024-02-01T00:00:00+00:00");

    episode.pub_date = Some(PubDate {
        timestamp: 1_705_320_000,
        nanos: 500_000_000,
        offset_seconds: -8 * 3600,
    });
    let metadata = EpisodeMetadata::from_episode_at(&episode, "a.mp3", None, String::new());
    assert_eq!(
        metadata.pub_date,
        Some("2024-01-15T04:00:00.500-08:00".to_string())
    );
}

#[test]
fn from_episode_leaves_out_a_date_that_cannot_be_written() {
    let mut episode = make_episode();
    episode.pub_date = Some(PubDate {
        timestamp: i64::MIN,
        nanos: 0,
        offset_seconds: 0,
    });
    let metadata = EpisodeMetadata::from_episode_at(&episode, "a.mp3", None, String::new());
    assert_eq!(metadata.pub_date, None);
}

#[test]
fn from_episode_stamps_the_time_of_the_download() {
    let before = chrono::Utc::now();
    let metadata = EpisodeMetadata::from_episode(&make_episode(), "a.mp3", None);
    let after = chrono::Utc::now();
    let stamped = DateTime::parse_from_rfc3339(&metadata.downloaded_at).unwrap();
    assert!(before <= stamped && stamped <= after);
}

#[test]
fn from_podcast_converts_all_fields() {
    let podcast = make_podcast();
    let metadata = PodcastMetadata::from_podcast(&podcast);

    assert_eq!(metadata.title, "Test Podcast");
    assert_eq!(metadata.description, Some("A test podcast".to_string()));
    assert_eq!(metadata.link, Some("https://example.com/".to_string()));
    assert_eq!(metadata.author, Some("Test Author".to_string()));
    assert_eq!(
        metadata.image_url,
        Some("https://example.com/image.jpg".to_string())
    );
    assert_eq!(metadata.feed_url, "https://example.com/feed.xml");
}

#[test]
fn from_podcast_stamps_the_time_of_the_run() {
    let metadata = PodcastMetadata::from_podcast_at(&make_podcast(), "then".to_string());
    assert_eq!(metadata.updated_at, "then");
    let metadata = PodcastMetadata::from_podcast(&make_podcast());
    assert!(DateTime::parse_from_rfc3339(&metadata.updated_at).is_ok());
}

#[test]
fn dates_at_the_ends_of_the_calendar_are_written() {
    let first = DateTime::<chrono::Utc>::MIN_UTC;
    let last = DateTime::<chrono::Utc>::MAX_UTC;
    for instant in [first, last] {
        for offset_seconds in [-86_399, 0, 86_399] {
            let mut episode = make_episode();
            episode.pub_date = Some(PubDate {
                timestamp: instant.timestamp(),
                nanos: instant.timestamp_subsec_nanos(),
                offset_seconds,
            });
            let zone = chrono::FixedOffset::east_opt(offset_seconds).unwrap();
            let metadata = EpisodeMetadata::from_episode_at(&episode, "a.mp3", None, String::new());
            assert_eq!(
                metadata.pub_date,
                Some(instant.with_timezone(&zone).to_rfc3339())
            );
            let stem = podpull::generate_filename_stem(&episode);
            assert_eq!(
                stem,
                format!(
                    "{}-Test Episode",
                    instant.with_timezone(&zone).format("%Y-%m-%d")
                )
            );
        }
    }
    // One second beyond the ends there is no date to write.
    for timestamp in [first.timestamp() - 1, last.timestamp() + 1] {
        let mut episode = make_episode();
        episode.pub_date = Some(PubDate {
            timestamp,
            nanos: 0,
            offset_seconds: 0,
        });
        let metadata = EpisodeMetadata::from_episode_at(&episode, "a.mp3", None, String::new());
        assert_eq!(metadata.pub_date, None);
        assert_eq!(podpull::generate_filename_stem(&episode), "undated-Test Episode");
    }
}
