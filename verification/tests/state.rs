use chrono::{DateTime, FixedOffset, TimeZone, Utc};
use podpull::{
    classify_entry, create_sync_plan, generate_filename, metadata_filename, Enclosure, EntryKind,
    EntryReport, Episode, OutputState, PubDate,
};
use url::Url;

fn make_episode(title: &str, guid: Option<&str>) -> Episode {
    make_episode_with_date(title, guid, None)
}

fn make_episode_with_date(
    title: &str,
    guid: Option<&str>,
    pub_date: Option<DateTime<FixedOffset>>,
) -> Episode {
    Episode {
        title: title.to_string(),
        description: None,
        pub_date: pub_date.map(|dt| PubDate {
            timestamp: dt.timestamp(),
            nanos: dt.timestamp_subsec_nanos(),
            offset_seconds: dt.offset().local_minus_utc(),
        }),
        guid: guid.map(String::from),
        enclosure: Enclosure {
            url: Url::parse("https://example.com/ep.mp3").unwrap().to_string(),
            length: None,
            mime_type: None,
        },
        duration: None,
        episode_number: None,
        season_number: None,
    }
}

fn make_date(year: i32, month: u32, day: u32) -> DateTime<FixedOffset> {
    Utc.with_ymd_and_hms(year, month, day, 12, 0, 0)
        .unwrap()
        .with_timezone(&FixedOffset::east_opt(0).unwrap())
}

fn empty_state() -> OutputState {
    OutputState {
        downloaded_guids: Vec::new(),
        existing_files: Vec::new(),
        output_dir: "/tmp".to_string(),
        partial_files_cleaned: 0,
    }
}

fn state_with(guids: &[&str]) -> OutputState {
    OutputState {
        downloaded_guids: guids.iter().map(|g| g.to_string()).collect(),
        existing_files: Vec::new(),
        output_dir: "/tmp".to_string(),
        partial_files_cleaned: 0,
    }
}

fn titles(episodes: &[Episode]) -> Vec<&str> {
    episodes.iter().map(|e| e.title.as_str()).collect()
}

#[test]
fn sync_plan_identifies_new_episodes() {
    let state = empty_state();

    let episodes = vec![
        make_episode("Ep 1", Some("guid-1")),
        make_episode("Ep 2", Some("guid-2")),
    ];

    let plan = create_sync_plan(episodes, &state);

    assert_eq!(plan.to_download.len(), 2);
    assert_eq!(plan.already_present.len(), 0);
    assert_eq!(plan.total_episodes, 2);
}

#[test]
fn sync_plan_skips_downloaded_episodes() {
    let state = state_with(&["guid-1"]);

    let episodes = vec![
        make_episode("Ep 1", Some("guid-1")),
        make_episode("Ep 2", Some("guid-2")),
    ];

    let plan = create_sync_plan(episodes, &state);

    assert_eq!(plan.to_download.len(), 1);
    assert_eq!(plan.to_download[0].title, "Ep 2");
    assert_eq!(plan.already_present.len(), 1);
    assert_eq!(plan.already_present[0].title, "Ep 1");
}

#[test]
fn sync_plan_downloads_episodes_without_guid() {
    let state = state_with(&["guid-1"]);

    let episodes = vec![
        make_episode("Ep 1", Some("guid-1")),
        make_episode("Ep 2", None), // No GUID, should be downloaded
    ];

    let plan = create_sync_plan(episodes, &state);

    assert_eq!(plan.to_download.len(), 1);
    assert_eq!(plan.to_download[0].title, "Ep 2");
}

#[test]
fn sync_plan_sorts_episodes_by_pub_date_newest_first() {
    let state = empty_state();

    let episodes = vec![
        make_episode_with_date("Old Episode", Some("guid-1"), Some(make_date(2024, 1, 1))),
        make_episode_with_date(
            "Newest Episode",
            Some("guid-2"),
            Some(make_date(2024, 3, 15)),
        ),
        make_episode_with_date(
            "Middle Episode",
            Some("guid-3"),
            Some(make_date(2024, 2, 10)),
        ),
    ];

    let plan = create_sync_plan(episodes, &state);

    assert_eq!(plan.to_download.len(), 3);
    assert_eq!(plan.to_download[0].title, "Newest Episode");
    assert_eq!(plan.to_download[1].title, "Middle Episode");
    assert_eq!(plan.to_download[2].title, "Old Episode");
}

#[test]
fn sync_plan_places_episodes_without_date_at_end() {
    let state = empty_state();

    let episodes = vec![
        make_episode_with_date("No Date 1", Some("guid-1"), None),
        make_episode_with_date("With Date", Some("guid-2"), Some(make_date(2024, 1, 15))),
        make_episode_with_date("No Date 2", Some("guid-3"), None),
    ];

    let plan = create_sync_plan(episodes, &state);

    assert_eq!(plan.to_download.len(), 3);
    assert_eq!(plan.to_download[0].title, "With Date");
    assert_eq!(plan.to_download[1].title, "No Date 1");
    assert_eq!(plan.to_download[2].title, "No Date 2");
}

#[test]
fn sync_plan_of_an_empty_feed_is_empty() {
    let plan = create_sync_plan(Vec::new(), &state_with(&["guid-1"]));
    assert!(plan.to_download.is_empty());
    assert!(plan.already_present.is_empty());
    assert_eq!(plan.total_episodes, 0);
}

#[test]
fn sync_plan_keeps_the_order_of_the_feed_among_equals() {
    let noon = make_date(2024, 1, 15);
    // The same instant, written in another zone.
    let elsewhere = noon.with_timezone(&FixedOffset::east_opt(5 * 3600).unwrap());
    let episodes = vec![
        make_episode_with_date("U1", None, None),
        make_episode_with_date("B", None, Some(noon)),
        make_episode_with_date("U2", None, None),
        make_episode_with_date("A", None, Some(make_date(2024, 2, 1))),
        make_episode_with_date("C", None, Some(elsewhere)),
        make_episode_with_date("U3", None, None),
        make_episode_with_date("D", None, Some(noon)),
        make_episode_with_date("Z", None, Some(make_date(2023, 12, 31))),
    ];

    let plan = create_sync_plan(episodes, &empty_state());

    assert_eq!(
        titles(&plan.to_download),
        vec!["A", "B", "C", "D", "Z", "U1", "U2", "U3"]
    );
    assert_eq!(plan.total_episodes, 8);
}

#[test]
fn sync_plan_orders_by_the_nanosecond() {
    let base = make_date(2024, 1, 15);
    let stamp = |nanos: u32| PubDate {
        timestamp: base.timestamp(),
        nanos,
        offset_seconds: 0,
    };
    let mut early = make_episode("early", None);
    early.pub_date = Some(stamp(1));
    let mut late = make_episode("late", None);
    late.pub_date = Some(stamp(2));
    let mut before = make_episode("before", None);
    before.pub_date = Some(PubDate {
        timestamp: base.timestamp() - 1,
        nanos: 999_999_999,
        offset_seconds: 0,
    });

    let plan = create_sync_plan(vec![before, early, late], &empty_state());

    assert_eq!(titles(&plan.to_download), vec!["late", "early", "before"]);
}

#[test]
fn sync_plan_keeps_present_episodes_in_feed_order() {
    let state = state_with(&["b", "a", "c"]);
    let episodes = vec![
        make_episode_with_date("A", Some("a"), Some(make_date(2024, 1, 1))),
        make_episode_with_date("X", Some("x"), Some(make_date(2024, 1, 2))),
        make_episode_with_date("B", Some("b"), Some(make_date(2024, 1, 3))),
        make_episode_with_date("Y", Some("y"), Some(make_date(2024, 1, 4))),
        make_episode_with_date("C", Some("c"), None),
    ];

    let plan = create_sync_plan(episodes, &state);

    assert_eq!(titles(&plan.already_present), vec!["A", "B", "C"]);
    assert_eq!(titles(&plan.to_download), vec!["Y", "X"]);
    assert_eq!(plan.total_episodes, 5);
}

#[test]
fn episodes_without_identity_are_planned_on_every_run() {
    let episodes = || {
        vec![
            make_episode("Anonymous 1", None),
            make_episode("Known", Some("guid-1")),
            make_episode("Anonymous 2", None),
        ]
    };
    let first = create_sync_plan(episodes(), &empty_state());
    assert_eq!(
        titles(&first.to_download),
        vec!["Anonymous 1", "Known", "Anonymous 2"]
    );
    // Whatever the directory holds, the anonymous episodes stay planned.
    let second = create_sync_plan(episodes(), &state_with(&["guid-1", "", "Anonymous 1"]));
    assert_eq!(
        titles(&second.to_download),
        vec!["Anonymous 1", "Anonymous 2"]
    );
    assert_eq!(titles(&second.already_present), vec!["Known"]);
}

#[test]
fn second_plan_downloads_nothing() {
    let episodes = || {
        vec![
            make_episode_with_date("Ep 1", Some("guid-1"), Some(make_date(2024, 1, 1))),
            make_episode_with_date("Ep 2", Some("guid-2"), Some(make_date(2024, 3, 15))),
            make_episode_with_date("Ep 3", Some("guid-3"), None),
        ]
    };
    let mut state = OutputState::new("/tmp/podcast".to_string());
    state.record_entry(
        "2024-01-01-Ep 1.json".to_string(),
        EntryReport::Sidecar {
            identity: Some("guid-1".to_string()),
        },
    );
    let first = create_sync_plan(episodes(), &state);
    assert_eq!(titles(&first.to_download), vec!["Ep 2", "Ep 3"]);
    // The first run commits what it planned; the next scan finds the sidecars.
    for episode in &first.to_download {
        state.record_entry(
            format!("{}.json", episode.title),
            EntryReport::Sidecar {
                identity: episode.guid.clone(),
            },
        );
    }
    let second = create_sync_plan(episodes(), &state);
    assert!(second.to_download.is_empty());
    assert_eq!(titles(&second.already_present), vec!["Ep 1", "Ep 2", "Ep 3"]);
}

#[test]
fn entries_are_told_by_their_names() {
    assert_eq!(classify_entry("episode1.mp3.partial"), EntryKind::Partial);
    assert_eq!(classify_entry(".partial"), EntryKind::Partial);
    assert_eq!(classify_entry("podcast.json.partial"), EntryKind::Partial);
    assert_eq!(
        classify_entry("2024-01-15-test-episode.json"),
        EntryKind::EpisodeSidecar
    );
    assert_eq!(classify_entry(".json"), EntryKind::EpisodeSidecar);
    assert_eq!(classify_entry("my-podcast.json"), EntryKind::EpisodeSidecar);
    assert_eq!(classify_entry("podcast.json"), EntryKind::Other);
    assert_eq!(classify_entry("episode3.mp3"), EntryKind::Other);
    assert_eq!(classify_entry("episode.partial.mp3"), EntryKind::Other);
    assert_eq!(classify_entry("json"), EntryKind::Other);
    assert_eq!(classify_entry("partial"), EntryKind::Other);
    assert_eq!(classify_entry("episode.JSON"), EntryKind::Other);
    assert_eq!(classify_entry(""), EntryKind::Other);
}

#[test]
fn scan_of_nothing_gives_an_empty_state() {
    let state = OutputState::new("/tmp/new_podcast".to_string());
    assert!(state.downloaded_guids.is_empty());
    assert!(state.existing_files.is_empty());
    assert_eq!(state.partial_files_cleaned, 0);
    assert_eq!(state.output_dir, "/tmp/new_podcast");
}

#[test]
fn scan_records_downloaded_episodes() {
    let mut state = OutputState::new("/tmp/podcast".to_string());
    state.record_entry(
        "2024-01-15-test-episode.json".to_string(),
        EntryReport::Sidecar {
            identity: Some("test-guid-123".to_string()),
        },
    );
    state.record_entry(
        "2024-01-15-test-episode.mp3".to_string(),
        EntryReport::Untouched,
    );

    assert!(state
        .downloaded_guids
        .contains(&"test-guid-123".to_string()));
    assert_eq!(state.downloaded_guids.len(), 1);
    assert!(state
        .existing_files
        .contains(&"2024-01-15-test-episode.json".to_string()));
    assert!(state
        .existing_files
        .contains(&"2024-01-15-test-episode.mp3".to_string()));
}

#[test]
fn scan_does_not_read_the_podcast_sidecar() {
    let mut state = OutputState::new("/tmp/podcast".to_string());
    // Whatever is reported of it, podcast.json gives no identity.
    state.record_entry(
        "podcast.json".to_string(),
        EntryReport::Sidecar {
            identity: Some("not-an-episode".to_string()),
        },
    );

    assert!(state.existing_files.contains(&"podcast.json".to_string()));
    assert!(state.downloaded_guids.is_empty());
}

#[test]
fn scan_counts_removed_partial_files() {
    let mut state = OutputState::new("/tmp/podcast".to_string());
    state.record_entry(
        "episode1.mp3.partial".to_string(),
        EntryReport::Removal { removed: true },
    );
    state.record_entry(
        "episode2.mp3.partial".to_string(),
        EntryReport::Removal { removed: true },
    );
    state.record_entry("episode3.mp3".to_string(), EntryReport::Untouched);

    assert_eq!(state.partial_files_cleaned, 2);
    assert!(state.existing_files.contains(&"episode3.mp3".to_string()));
    assert!(!state
        .existing_files
        .contains(&"episode1.mp3.partial".to_string()));
    assert!(!state
        .existing_files
        .contains(&"episode2.mp3.partial".to_string()));
    assert_eq!(state.existing_files.len(), 1);
}

#[test]
fn scan_neither_counts_nor_lists_a_partial_file_that_stays() {
    let mut state = OutputState::new("/tmp/podcast".to_string());
    state.record_entry(
        "stuck.mp3.partial".to_string(),
        EntryReport::Removal { removed: false },
    );
    state.record_entry("other.mp3.partial".to_string(), EntryReport::Untouched);
    assert_eq!(state.partial_files_cleaned, 0);
    assert!(state.existing_files.is_empty());
}

#[test]
fn scan_takes_an_unreadable_sidecar_as_not_downloaded() {
    let mut state = OutputState::new("/tmp/podcast".to_string());
    state.record_entry("broken.json".to_string(), EntryReport::Untouched);
    state.record_entry(
        "anonymous.json".to_string(),
        EntryReport::Sidecar { identity: None },
    );
    // An identity counts only where it comes from an episode's sidecar.
    state.record_entry(
        "episode.mp3".to_string(),
        EntryReport::Sidecar {
            identity: Some("guid-1".to_string()),
        },
    );
    assert!(state.downloaded_guids.is_empty());
    assert_eq!(state.existing_files.len(), 3);
}

#[test]
fn scan_keeps_each_name_and_each_identity_once() {
    let mut state = OutputState::new("/tmp/podcast".to_string());
    for _ in 0..2 {
        state.record_entry(
            "a.json".to_string(),
            EntryReport::Sidecar {
                identity: Some("guid-1".to_string()),
            },
        );
    }
    state.record_entry(
        "b.json".to_string(),
        EntryReport::Sidecar {
            identity: Some("guid-1".to_string()),
        },
    );
    assert_eq!(state.downloaded_guids, vec!["guid-1".to_string()]);
    assert_eq!(
        state.existing_files,
        vec!["a.json".to_string(), "b.json".to_string()]
    );
}

#[test]
fn files_of_an_episode_are_told_apart_by_the_scan() {
    let dated = make_episode_with_date("podcast", Some("guid-1"), Some(make_date(2024, 1, 15)));
    let undated = make_episode("partial.json", None);
    for episode in [dated, undated] {
        let payload = generate_filename(&episode);
        let sidecar = metadata_filename(&payload);
        assert_eq!(classify_entry(&payload), EntryKind::Other);
        assert_eq!(classify_entry(&sidecar), EntryKind::EpisodeSidecar);
        assert_eq!(
            classify_entry(&format!("{}.partial", payload)),
            EntryKind::Partial
        );
    }
}

#[test]
fn scan_of_a_whole_listing() {
    let removal = || EntryReport::Removal { removed: true };
    let sidecar = |id: &str| EntryReport::Sidecar {
        identity: Some(id.to_string()),
    };
    let listing = vec![
        ("episode1.mp3.partial".to_string(), removal()),
        ("2024-01-15-one.json".to_string(), sidecar("guid-1")),
        ("2024-01-15-one.mp3".to_string(), EntryReport::Untouched),
        ("episode2.mp3.partial".to_string(), removal()),
        ("podcast.json".to_string(), sidecar("the-podcast")),
        ("broken.json".to_string(), EntryReport::Untouched),
        ("2024-01-16-two.json".to_string(), sidecar("guid-2")),
        (".partial".to_string(), removal()),
    ];
    let state = OutputState::from_listing("/tmp/podcast".to_string(), listing);

    assert_eq!(state.output_dir, "/tmp/podcast");
    assert_eq!(state.partial_files_cleaned, 3);
    assert_eq!(
        state.existing_files,
        vec![
            "2024-01-15-one.json".to_string(),
            "2024-01-15-one.mp3".to_string(),
            "podcast.json".to_string(),
            "broken.json".to_string(),
            "2024-01-16-two.json".to_string(),
        ]
    );
    assert_eq!(
        state.downloaded_guids,
        vec!["guid-1".to_string(), "guid-2".to_string()]
    );
    match state.cleanup_event() {
        Some(podpull::ProgressEvent::PartialFilesCleanedUp { count }) => assert_eq!(count, 3),
        other => panic!("unexpected event {:?}", other),
    }
}

#[test]
fn scan_of_an_empty_listing() {
    let state = OutputState::from_listing("/tmp/podcast".to_string(), Vec::new());
    assert!(state.downloaded_guids.is_empty());
    assert!(state.existing_files.is_empty());
    assert_eq!(state.partial_files_cleaned, 0);
    assert!(state.cleanup_event().is_none());
}

#[test]
fn scan_of_a_listing_agrees_with_the_scan_entry_by_entry() {
    let reports = || {
        vec![
            EntryReport::Removal { removed: true },
            EntryReport::Removal { removed: false },
            EntryReport::Sidecar {
                identity: Some("guid".to_string()),
            },
            EntryReport::Sidecar { identity: None },
            EntryReport::Untouched,
        ]
    };
    let names = ["a.partial", "a.json", "podcast.json", "a.mp3", "a.partial"];
    let mut listing = Vec::new();
    let mut one_by_one = OutputState::new("out".to_string());
    for name in names {
        for report in reports() {
            listing.push((name.to_string(), report.clone()));
            one_by_one.record_entry(name.to_string(), report);
        }
    }
    let at_once = OutputState::from_listing("out".to_string(), listing);
    assert_eq!(at_once.partial_files_cleaned, 2);
    assert_eq!(at_once.partial_files_cleaned, one_by_one.partial_files_cleaned);
    assert_eq!(at_once.existing_files, one_by_one.existing_files);
    assert_eq!(at_once.downloaded_guids, one_by_one.downloaded_guids);
}
