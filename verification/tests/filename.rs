use chrono::DateTime;
use podpull::{
    collapse_separators, generate_filename, generate_filename_stem, get_audio_extension,
    is_valid_audio_extension, metadata_filename, mime_to_extension, sanitize_title,
    truncate_at_boundary, Enclosure, Episode, PubDate, SeparatorType,
};
use url::Url;

const MAX_TITLE_LENGTH: usize = 100;

fn pub_date(text: &str) -> Option<PubDate> {
    DateTime::parse_from_rfc2822(text).ok().map(|dt| PubDate {
        timestamp: dt.timestamp(),
        nanos: dt.timestamp_subsec_nanos(),
        offset_seconds: dt.offset().local_minus_utc(),
    })
}

fn make_episode_with_mime(
    title: &str,
    date: Option<&str>,
    url: &str,
    mime: Option<&str>,
) -> Episode {
    Episode {
        title: title.to_string(),
        description: None,
        pub_date: date.and_then(pub_date),
        guid: Some("test-guid".to_string()),
        enclosure: Enclosure {
            url: Url::parse(url).unwrap().to_string(),
            length: None,
            mime_type: mime.map(String::from),
        },
        duration: None,
        episode_number: None,
        season_number: None,
    }
}

fn make_episode(title: &str, date: Option<&str>, url: &str) -> Episode {
    make_episode_with_mime(title, date, url, Some("audio/mpeg"))
}

// === Sanitization tests ===

#[test]
fn sanitize_preserves_alphanumeric() {
    assert_eq!(sanitize_title("Hello123World"), "Hello123World");
}

#[test]
fn sanitize_preserves_underscores_and_dots() {
    assert_eq!(sanitize_title("hello_world.test"), "hello_world.test");
}

#[test]
fn sanitize_removes_invalid_chars() {
    let result = sanitize_title("a:b/c\\d");
    assert!(!result.contains(':'));
    assert!(!result.contains('/'));
    assert!(!result.contains('\\'));
}

#[test]
fn sanitize_removes_quotes_and_angle_brackets() {
    let result = sanitize_title("\"quoted\" <angle> [square]");
    assert!(!result.contains('"'));
    assert!(!result.contains('<'));
    assert!(!result.contains('>'));
    assert!(result.contains('[') && result.contains(']'));
}

#[test]
fn sanitize_preserves_unicode_chars() {
    assert_eq!(sanitize_title("Café résumé"), "Café résumé");
}

#[test]
fn sanitize_preserves_emoji() {
    assert_eq!(sanitize_title("Hello 🎙️ World"), "Hello 🎙️ World");
}

#[test]
fn sanitize_collapses_consecutive_same_type_separators() {
    assert_eq!(sanitize_title("a    b"), "a b");
    assert_eq!(sanitize_title("a----b"), "a-b");
    assert_eq!(sanitize_title("a____b"), "a_b");
    assert_eq!(sanitize_title("a - - b"), "a - - b");
}

#[test]
fn sanitize_trims_leading_trailing_separators() {
    assert_eq!(sanitize_title("  --hello--  "), "hello");
}

#[test]
fn sanitize_handles_empty_string() {
    assert_eq!(sanitize_title(""), "");
}

#[test]
fn sanitize_preserves_numbers() {
    assert_eq!(sanitize_title("Episode 42"), "Episode 42");
}

#[test]
fn sanitize_removes_path_separators() {
    let result = sanitize_title("path/to\\file");
    assert!(!result.contains('/'));
    assert!(!result.contains('\\'));
}

#[test]
fn sanitize_handles_newlines_and_tabs() {
    assert_eq!(sanitize_title("line1\nline2\ttab"), "line1line2tab");
}

#[test]
fn sanitize_handles_international_titles() {
    assert_eq!(sanitize_title("日本語タイトル"), "日本語タイトル");
    assert_eq!(sanitize_title("Ελληνικά"), "Ελληνικά");
    assert_eq!(sanitize_title("مرحبا"), "مرحبا");
}

#[test]
fn sanitize_differs_from_its_input() {
    // The title goes through the sanitiser, not past it.
    assert_eq!(sanitize_title("what? why*"), "what why");
}

// === Truncation tests ===

#[test]
fn truncate_preserves_short_strings() {
    assert_eq!(truncate_at_boundary("short", 100), "short");
}

#[test]
fn truncate_cuts_at_word_boundary() {
    let long = "word1-word2-word3-word4-word5";
    let result = truncate_at_boundary(long, 20);
    assert!(result.len() <= 20);
    assert!(!result.ends_with('-'));
}

#[test]
fn truncate_handles_no_boundaries() {
    let long = "a".repeat(150);
    let result = truncate_at_boundary(&long, 100);
    assert_eq!(result.len(), 100);
}

#[test]
fn truncate_cuts_before_the_last_dash() {
    assert_eq!(
        truncate_at_boundary("word1-word2-word3-word4-word5", 20),
        "word1-word2-word3"
    );
}

#[test]
fn truncate_ignores_a_dash_in_the_first_half() {
    // The only dash lies behind 2 bytes, which is not more than 10 / 2.
    assert_eq!(truncate_at_boundary("ab-cdefghijklmnop", 10), "ab-cdefghi");
    // A dash behind exactly half of the bytes does not count either.
    assert_eq!(truncate_at_boundary("abcde-ghijklmnop", 10), "abcde-ghij");
    assert_eq!(truncate_at_boundary("abcdef-hijklmnop", 10), "abcdef");
}

#[test]
fn truncate_drops_dashes_at_the_end_of_the_cut() {
    // The last dash of the cut lies in its first half: the dashes at the
    // end go.
    assert_eq!(truncate_at_boundary("x-yyyy", 2), "x");
    assert_eq!(truncate_at_boundary("--zzzz", 2), "");
    assert_eq!(truncate_at_boundary("-zzzz", 2), "-z");
    // It lies in the second half: the text ends before it, and only it.
    assert_eq!(truncate_at_boundary("a---------zzzz", 4), "a--");
    assert_eq!(truncate_at_boundary("----------", 4), "---");
}

#[test]
fn truncate_counts_bytes_for_the_limit_and_characters_for_the_cut() {
    // Four characters of two bytes each: eight bytes are more than six, and
    // the cut keeps six characters, which is all there is.
    assert_eq!(truncate_at_boundary("éééé", 6), "éééé");
    assert_eq!(truncate_at_boundary("éééé", 8), "éééé");
    assert_eq!(truncate_at_boundary("éééé", 3), "ééé");
    // The dash lies behind four bytes of two characters.
    assert_eq!(truncate_at_boundary("éé-ééééé", 7), "éé");
    assert_eq!(truncate_at_boundary("éé-ééééé", 8), "éé-ééééé");
}

#[test]
fn truncate_to_nothing() {
    assert_eq!(truncate_at_boundary("abc", 0), "");
    assert_eq!(truncate_at_boundary("", 0), "");
}

// === Filename stem tests ===

#[test]
fn filename_stem_includes_date_prefix() {
    let episode = make_episode(
        "Test Episode",
        Some("Mon, 15 Jan 2024 12:00:00 +0000"),
        "https://example.com/ep.mp3",
    );

    assert_eq!(generate_filename_stem(&episode), "2024-01-15-Test Episode");
}

#[test]
fn filename_stem_uses_undated_when_no_date() {
    let episode = make_episode("Test Episode", None, "https://example.com/ep.mp3");

    assert_eq!(generate_filename_stem(&episode), "undated-Test Episode");
}

#[test]
fn filename_stem_handles_different_timezones() {
    let episode = make_episode(
        "Test",
        Some("Mon, 15 Jan 2024 23:00:00 -0800"),
        "https://example.com/ep.mp3",
    );
    let stem = generate_filename_stem(&episode);
    assert!(stem.starts_with("2024-01-15") || stem.starts_with("2024-01-16"));
}

#[test]
fn filename_stem_takes_the_day_in_the_date_s_own_zone() {
    let late = make_episode(
        "Test",
        Some("Mon, 15 Jan 2024 23:00:00 -0800"),
        "https://example.com/ep.mp3",
    );
    assert_eq!(generate_filename_stem(&late), "2024-01-15-Test");
    let early = make_episode(
        "Test",
        Some("Tue, 16 Jan 2024 01:00:00 +0900"),
        "https://example.com/ep.mp3",
    );
    assert_eq!(generate_filename_stem(&early), "2024-01-16-Test");
}

#[test]
fn filename_stem_of_a_date_out_of_range_is_undated() {
    let mut episode = make_episode("Test", None, "https://example.com/ep.mp3");
    episode.pub_date = Some(PubDate {
        timestamp: i64::MAX,
        nanos: 0,
        offset_seconds: 0,
    });
    assert_eq!(generate_filename_stem(&episode), "undated-Test");
    episode.pub_date = Some(PubDate {
        timestamp: 0,
        nanos: 0,
        offset_seconds: 86_400,
    });
    assert_eq!(generate_filename_stem(&episode), "undated-Test");
}

#[test]
fn sanitizes_invalid_characters() {
    let episode = make_episode(
        "Episode: A \"Test\" <Episode>",
        None,
        "https://example.com/ep.mp3",
    );

    let stem = generate_filename_stem(&episode);
    assert!(!stem.contains(':'));
    assert!(!stem.contains('"'));
    assert!(!stem.contains('<'));
    assert!(!stem.contains('>'));
}

#[test]
fn collapses_multiple_spaces() {
    let episode = make_episode(
        "Episode   with   spaces",
        None,
        "https://example.com/ep.mp3",
    );

    let stem = generate_filename_stem(&episode);
    assert!(!stem.contains("  "));
    assert!(stem.contains("Episode with spaces"));
}

#[test]
fn truncates_long_titles() {
    let long_title = "A".repeat(200);
    let episode = make_episode(&long_title, None, "https://example.com/ep.mp3");

    let stem = generate_filename_stem(&episode);
    assert!(stem.len() <= MAX_TITLE_LENGTH + 10);
}

#[test]
fn truncates_long_titles_to_the_limit() {
    let long_title = "A".repeat(200);
    let episode = make_episode(&long_title, None, "https://example.com/ep.mp3");
    assert_eq!(
        generate_filename_stem(&episode),
        format!("undated-{}", "A".repeat(100))
    );
}

// === Extension extraction tests ===

#[test]
fn extracts_extension_from_url() {
    let episode = make_episode("Test", None, "https://example.com/episode.m4a");
    assert_eq!(get_audio_extension(&episode), "m4a");
}

#[test]
fn extracts_mp3_extension() {
    let episode = make_episode("Test", None, "https://example.com/episode.mp3");
    assert_eq!(get_audio_extension(&episode), "mp3");
}

#[test]
fn extracts_ogg_extension() {
    let episode = make_episode("Test", None, "https://example.com/episode.ogg");
    assert_eq!(get_audio_extension(&episode), "ogg");
}

#[test]
fn extracts_opus_extension() {
    let episode = make_episode("Test", None, "https://example.com/episode.opus");
    assert_eq!(get_audio_extension(&episode), "opus");
}

#[test]
fn normalizes_extension_to_lowercase() {
    let episode = make_episode("Test", None, "https://example.com/episode.MP3");
    assert_eq!(get_audio_extension(&episode), "mp3");
}

#[test]
fn handles_url_with_query_params() {
    let episode = make_episode("Test", None, "https://example.com/episode.mp3?token=abc");
    assert_eq!(get_audio_extension(&episode), "mp3");
}

#[test]
fn falls_back_to_mime_type() {
    let episode = make_episode_with_mime(
        "Test",
        None,
        "https://example.com/episode",
        Some("audio/mpeg"),
    );
    assert_eq!(get_audio_extension(&episode), "mp3");
}

#[test]
fn mime_m4a_maps_correctly() {
    let episode = make_episode_with_mime(
        "Test",
        None,
        "https://example.com/episode",
        Some("audio/mp4"),
    );
    assert_eq!(get_audio_extension(&episode), "m4a");
}

#[test]
fn mime_ogg_maps_correctly() {
    let episode = make_episode_with_mime(
        "Test",
        None,
        "https://example.com/episode",
        Some("audio/ogg"),
    );
    assert_eq!(get_audio_extension(&episode), "ogg");
}

#[test]
fn defaults_to_mp3_for_unknown_extension() {
    let episode = make_episode("Test", None, "https://example.com/episode");
    assert_eq!(get_audio_extension(&episode), "mp3");
}

#[test]
fn defaults_to_mp3_for_unknown_mime() {
    let episode = make_episode_with_mime(
        "Test",
        None,
        "https://example.com/episode",
        Some("application/octet-stream"),
    );
    assert_eq!(get_audio_extension(&episode), "mp3");
}

#[test]
fn defaults_to_mp3_for_no_mime() {
    let episode = make_episode_with_mime("Test", None, "https://example.com/episode", None);
    assert_eq!(get_audio_extension(&episode), "mp3");
}

#[test]
fn ignores_non_audio_extensions() {
    let episode = make_episode("Test", None, "https://example.com/episode.html");
    assert_eq!(get_audio_extension(&episode), "mp3");
}

#[test]
fn extension_comes_from_the_last_segment_of_the_path() {
    // The path decides, not the MIME type and not an earlier segment.
    let episode = make_episode_with_mime(
        "Test",
        None,
        "https://example.com/a.flac/b.tar.OGG",
        Some("audio/mpeg"),
    );
    assert_eq!(get_audio_extension(&episode), "ogg");
    let dotless = make_episode_with_mime(
        "Test",
        None,
        "https://example.com/a.flac/wav",
        Some("audio/aac"),
    );
    assert_eq!(get_audio_extension(&dotless), "wav");
    let trailing = make_episode_with_mime(
        "Test",
        None,
        "https://example.com/a.flac/",
        Some("audio/x-m4a"),
    );
    assert_eq!(get_audio_extension(&trailing), "m4a");
}

#[test]
fn extension_of_a_text_that_is_no_url_comes_from_the_mime_type() {
    let mut episode = make_episode_with_mime(
        "Test",
        None,
        "https://example.com/episode.ogg",
        Some("audio/flac"),
    );
    episode.enclosure.url = "episode.ogg".to_string();
    assert_eq!(get_audio_extension(&episode), "flac");
    episode.enclosure.url = "data:text/plain,episode.ogg".to_string();
    assert_eq!(get_audio_extension(&episode), "flac");
}

#[test]
fn valid_audio_extensions_in_any_case() {
    for ext in ["mp3", "m4a", "mp4", "aac", "ogg", "opus", "wav", "flac"] {
        assert!(is_valid_audio_extension(ext));
        assert!(is_valid_audio_extension(&ext.to_uppercase()));
    }
    assert!(is_valid_audio_extension("Mp3"));
    assert!(!is_valid_audio_extension(""));
    assert!(!is_valid_audio_extension("mp"));
    assert!(!is_valid_audio_extension("mp33"));
    assert!(!is_valid_audio_extension("html"));
    assert!(!is_valid_audio_extension(".mp3"));
}

#[test]
fn mime_types_map_to_extensions() {
    assert_eq!(mime_to_extension("audio/mpeg"), Some("mp3"));
    assert_eq!(mime_to_extension("audio/mp3"), Some("mp3"));
    assert_eq!(mime_to_extension("audio/mp4"), Some("m4a"));
    assert_eq!(mime_to_extension("audio/m4a"), Some("m4a"));
    assert_eq!(mime_to_extension("audio/x-m4a"), Some("m4a"));
    assert_eq!(mime_to_extension("audio/aac"), Some("aac"));
    assert_eq!(mime_to_extension("audio/ogg"), Some("ogg"));
    assert_eq!(mime_to_extension("audio/opus"), Some("opus"));
    assert_eq!(mime_to_extension("audio/wav"), Some("wav"));
    assert_eq!(mime_to_extension("audio/x-wav"), Some("wav"));
    assert_eq!(mime_to_extension("audio/flac"), Some("flac"));
    assert_eq!(mime_to_extension("audio/x-flac"), Some("flac"));
    assert_eq!(mime_to_extension("AUDIO/MPEG"), Some("mp3"));
    assert_eq!(mime_to_extension("Audio/X-Flac"), Some("flac"));
    assert_eq!(mime_to_extension("audio/"), None);
    assert_eq!(mime_to_extension("video/mp4"), None);
    assert_eq!(mime_to_extension(""), None);
}

#[test]
fn case_is_folded_as_the_standard_library_folds_it() {
    // No character outside ASCII turns into a letter of the extensions or
    // of the MIME types when it is put in lower case.
    let letters = "mp34aceogusfwvl/dix-";
    for c in (0x80u32..=0x10FFFF).filter_map(char::from_u32) {
        let lower = c.to_string().to_lowercase();
        assert!(
            !(lower.chars().count() == 1 && lower.chars().all(|l| letters.contains(l))),
            "{:?}",
            c
        );
    }
    for c in (0u32..0x80).filter_map(char::from_u32) {
        let text = format!("mp{}", c);
        assert_eq!(
            is_valid_audio_extension(&text),
            text.to_lowercase() == "mp3" || text.to_lowercase() == "mp4"
        );
    }
}

// === Full filename tests ===

#[test]
fn generate_filename_combines_stem_and_extension() {
    let episode = make_episode(
        "My Episode",
        Some("Mon, 15 Jan 2024 12:00:00 +0000"),
        "https://example.com/audio.mp3",
    );

    assert_eq!(generate_filename(&episode), "2024-01-15-My Episode.mp3");
}

#[test]
fn generate_filename_with_m4a() {
    let episode = make_episode(
        "Audio Book",
        Some("Tue, 16 Jan 2024 12:00:00 +0000"),
        "https://example.com/book.m4a",
    );

    assert_eq!(generate_filename(&episode), "2024-01-16-Audio Book.m4a");
}

#[test]
fn metadata_filename_shares_the_stem() {
    let episode = make_episode(
        "My Episode",
        Some("Mon, 15 Jan 2024 12:00:00 +0000"),
        "https://example.com/audio.mp3",
    );
    assert_eq!(
        metadata_filename(&generate_filename(&episode)),
        "2024-01-15-My Episode.json"
    );
}

#[test]
fn metadata_filename_replaces_the_last_extension() {
    assert_eq!(metadata_filename("episode.mp3"), "episode.json");
    assert_eq!(metadata_filename("a.b.c.ogg"), "a.b.c.json");
    assert_eq!(metadata_filename("episode"), "episode.json");
    assert_eq!(metadata_filename("episode."), "episode.json");
    assert_eq!(metadata_filename(".hidden"), ".hidden.json");
    assert_eq!(metadata_filename(".hidden.mp3"), ".hidden.json");
    assert_eq!(metadata_filename(""), ".json");
    for name in ["episode.mp3", "a.b.c.ogg", "episode", "episode.", ".hidden", ".hidden.mp3"] {
        let stem = std::path::Path::new(name).file_stem().unwrap().to_str().unwrap();
        assert_eq!(metadata_filename(name), format!("{}.json", stem));
    }
}

// === Collapse separators tests ===

#[test]
fn collapse_single_space_unchanged() {
    assert_eq!(collapse_separators("hello world"), "hello world");
}

#[test]
fn collapse_multiple_spaces_to_single() {
    assert_eq!(collapse_separators("hello    world"), "hello world");
}

#[test]
fn collapse_multiple_dashes_to_single() {
    assert_eq!(collapse_separators("hello----world"), "hello-world");
}

#[test]
fn collapse_multiple_underscores_to_single() {
    assert_eq!(collapse_separators("hello____world"), "hello_world");
}

#[test]
fn collapse_mixed_separators_separately() {
    assert_eq!(collapse_separators("hello - - world"), "hello - - world");
    assert_eq!(collapse_separators("hello  --  world"), "hello - world");
}

#[test]
fn collapse_preserves_non_separators() {
    assert_eq!(collapse_separators("ab cd ef"), "ab cd ef");
}

#[test]
fn collapse_writes_any_white_space_as_a_space() {
    assert_eq!(collapse_separators("a\t\n b"), "a b");
    assert_eq!(collapse_separators("a\u{3000}b"), "a b");
    assert_eq!(collapse_separators(""), "");
    assert_eq!(collapse_separators("_-_"), "_-_");
}

#[test]
fn separators_are_told_as_the_standard_library_tells_white_space() {
    for c in (0u32..=0x10FFFF).filter_map(char::from_u32) {
        let expected = if c.is_whitespace() {
            Some(SeparatorType::Whitespace)
        } else if c == '-' {
            Some(SeparatorType::Dash)
        } else if c == '_' {
            Some(SeparatorType::Underscore)
        } else {
            None
        };
        assert_eq!(SeparatorType::from_char(c), expected, "{:?}", c);
    }
    assert_eq!(SeparatorType::Whitespace.canonical_char(), ' ');
    assert_eq!(SeparatorType::Dash.canonical_char(), '-');
    assert_eq!(SeparatorType::Underscore.canonical_char(), '_');
}
