use std::io::{Cursor, Write};

use moviebox_tui::json::{JsonNumber, JsonValue};
use moviebox_tui::opensubtitles::{
    download_link, download_request, first_file_id, open_subtitles_next, search_params,
    OpenSubtitlesAction, OpenSubtitlesCredentials, OpenSubtitlesEvent, OpenSubtitlesFailure,
};
use moviebox_tui::subdl::{
    absolute_download_url, choose_extension, extract_subtitle, wanted_entry_extension, file_extension, first_candidate, is_supported,
    looks_like_zip, matches_number, subdl_key_path, subdl_next, ArchiveError, SubDlAction,
    SubDlEvent, SubDlFailure, SubDlResponse, Subtitle, UnpackedFile, MAX_SUBTITLE_BYTES,
};
use moviebox_tui::subtitles::{
    cache_identity_text, cache_key, cache_key_for_identity, cache_subtitle, cached_subtitle_paths,
    cached_turkish, config_key_path, has_turkish, is_turkish_label, load_api_key,
    moviebox_subtitles, non_blank_value, normalize_cache_extension, options_with_none,
    subtitle_cache_dir, user_agent, SubtitleOption, SubtitleQuery,
};
use moviebox_tui::text::{decimal_string, parse_usize_decimal, trim_whitespace};

fn text(s: &str) -> JsonValue {
    JsonValue::String(s.to_string())
}

fn object(members: Vec<(&str, JsonValue)>) -> JsonValue {
    JsonValue::Object(members.into_iter().map(|(k, v)| (k.to_string(), v)).collect())
}

fn option(name: &str, url: &str) -> SubtitleOption {
    SubtitleOption {
        name: name.to_string(),
        url: url.to_string(),
    }
}

fn movie(title: &str) -> SubtitleQuery {
    SubtitleQuery {
        title: title.to_string(),
        year: None,
        season: None,
        episode: None,
    }
}

fn episode(title: &str, season: usize, episode: usize) -> SubtitleQuery {
    SubtitleQuery {
        title: title.to_string(),
        year: Some(2020),
        season: Some(season),
        episode: Some(episode),
    }
}

fn zip_of(files: Vec<(&str, Vec<u8>)>) -> Vec<u8> {
    let mut writer = zip::ZipWriter::new(Cursor::new(Vec::new()));
    let options = zip::write::SimpleFileOptions::default();
    for (name, data) in files {
        if name.ends_with('/') {
            writer.add_directory(name, options).unwrap();
        } else {
            writer.start_file(name, options).unwrap();
            writer.write_all(&data).unwrap();
        }
    }
    writer.finish().unwrap().into_inner()
}

// ---------------------------------------------------------------------------
// Labels and options
// ---------------------------------------------------------------------------

#[test]
fn labels_are_trimmed_and_lowercased_before_matching() {
    assert!(is_turkish_label("  TÜRKÇE altyazı "));
    assert!(is_turkish_label("\tTur\n"));
    assert!(is_turkish_label("Turkish (forced)"));
    assert!(!is_turkish_label("t r"));
    assert!(!is_turkish_label("turk"));
    assert!(!is_turkish_label(""));
}

#[test]
fn moviebox_captions_skip_duplicates_and_blank_urls() {
    let payload = object(vec![(
        "extCaptions",
        JsonValue::Array(vec![
            object(vec![("lanName", text("English")), ("url", text(" https://a/en.srt "))]),
            object(vec![("lanName", text("English 2")), ("url", text("https://a/en.srt"))]),
            object(vec![("lanName", text("Blank")), ("url", text("   "))]),
            object(vec![("lanName", text("No url"))]),
            object(vec![("url", text("https://a/x.srt"))]),
            object(vec![("lanName", text("Türkçe")), ("url", text("https://a/tr.srt"))]),
            object(vec![("lanName", text("tur")), ("url", JsonValue::Number(JsonNumber::PosInt(1)))]),
        ]),
    )]);
    let subtitles = moviebox_subtitles(&payload);
    assert_eq!(
        subtitles,
        vec![
            option("Türkçe", "https://a/tr.srt"),
            option("English", "https://a/en.srt"),
            option("Unknown", "https://a/x.srt"),
        ]
    );
}

#[test]
fn moviebox_payload_without_captions_gives_nothing() {
    assert!(moviebox_subtitles(&object(vec![])).is_empty());
    assert!(moviebox_subtitles(&object(vec![("extCaptions", text("x"))])).is_empty());
    assert!(moviebox_subtitles(&JsonValue::Null).is_empty());
}

#[test]
fn turkish_options_keep_their_order_at_the_top() {
    let payload = object(vec![(
        "extCaptions",
        JsonValue::Array(vec![
            object(vec![("lanName", text("English")), ("url", text("1"))]),
            object(vec![("lanName", text("TR")), ("url", text("2"))]),
            object(vec![("lanName", text("French")), ("url", text("3"))]),
            object(vec![("lanName", text("Turkish")), ("url", text("4"))]),
        ]),
    )]);
    let urls: Vec<String> = moviebox_subtitles(&payload).into_iter().map(|o| o.url).collect();
    assert_eq!(urls, vec!["2", "4", "1", "3"]);
}

#[test]
fn choices_put_none_after_turkish_or_first() {
    let with_turkish = vec![option("Türkçe", "t"), option("English", "e")];
    assert!(has_turkish(&with_turkish));
    let choices = options_with_none(with_turkish);
    assert_eq!(
        choices,
        vec![
            ("Türkçe".to_string(), "t".to_string()),
            ("English".to_string(), "e".to_string()),
            ("None".to_string(), String::new()),
        ]
    );

    let without = vec![option("English", "e")];
    assert!(!has_turkish(&without));
    assert_eq!(
        options_with_none(without),
        vec![
            ("None".to_string(), String::new()),
            ("English".to_string(), "e".to_string()),
        ]
    );
    assert_eq!(options_with_none(vec![]), vec![("None".to_string(), String::new())]);
}

// ---------------------------------------------------------------------------
// Cache
// ---------------------------------------------------------------------------

#[test]
fn cache_identity_lists_title_and_numbers() {
    assert_eq!(cache_identity_text("backrooms", Some(2026), None, None), "backrooms|2026||");
    assert_eq!(cache_identity_text("show", Some(7), Some(1), Some(12)), "show|7|1|12");
    assert_eq!(cache_identity_text("", None, None, None), "|||");
}

#[test]
fn cache_key_is_the_md5_of_the_identity_in_hex() {
    assert_eq!(cache_key_for_identity(""), "d41d8cd98f00b204e9800998ecf8427e");
    assert_eq!(cache_key_for_identity("abc"), "900150983cd24fb0d6963f7d28e17f72");
    let key = cache_key(&movie("Backrooms"));
    assert_eq!(key, cache_key_for_identity("backrooms|||"));
    assert_eq!(key.len(), 32);
    assert_eq!(cache_key(&episode("Show", 1, 2)).len(), 32);
    assert_eq!(key.len(), 32);
}

#[test]
fn cache_keys_differ_between_episodes() {
    let a = cache_key(&episode("Show", 1, 2));
    let b = cache_key(&episode("Show", 1, 3));
    let c = cache_key(&episode("Show", 2, 2));
    assert_ne!(a, b);
    assert_ne!(a, c);
    assert_eq!(a, cache_key(&episode(" SHOW ", 1, 2)));
}

#[test]
fn cache_extension_is_normalized() {
    assert_eq!(normalize_cache_extension("VTT"), "vtt");
    assert_eq!(normalize_cache_extension("ssa"), "ass");
    assert_eq!(normalize_cache_extension("Ass"), "ass");
    assert_eq!(normalize_cache_extension("srt"), "srt");
    assert_eq!(normalize_cache_extension("sub"), "srt");
    assert_eq!(normalize_cache_extension(""), "srt");
}

#[test]
fn cached_subtitle_is_found_where_it_was_written() {
    let query = episode("Show", 1, 2);
    let written = cache_subtitle(&query, "SSA", "Türkçe (SubDL)", "/cache/subtitles");
    let key = cache_key(&query);
    assert_eq!(written.name, "Türkçe (SubDL)");
    assert_eq!(written.url, format!("/cache/subtitles/{key}.ass"));
    let candidates = cached_subtitle_paths(&query, "/cache/subtitles");
    assert_eq!(
        candidates,
        vec![
            format!("/cache/subtitles/{key}.srt"),
            format!("/cache/subtitles/{key}.vtt"),
            format!("/cache/subtitles/{key}.ass"),
        ]
    );
    assert!(candidates.contains(&written.url));
}

#[test]
fn cached_turkish_takes_the_first_existing_file() {
    let query = movie("Film");
    let key = cache_key(&query);
    assert_eq!(cached_turkish(&query, Some("/c"), &[false, false, false]), None);
    assert_eq!(
        cached_turkish(&query, Some("/c"), &[false, true, true]),
        Some(option("Türkçe (önbellek)", &format!("/c/{key}.vtt")))
    );
    assert_eq!(
        cached_turkish(&query, Some("/c"), &[true, false, true]),
        Some(option("Türkçe (önbellek)", &format!("/c/{key}.srt")))
    );
    assert_eq!(cached_turkish(&query, Some("/c"), &[false]), None);
    assert_eq!(cached_turkish(&query, None, &[true, true, true]), None);
    let written = cache_subtitle(&query, "ssa", "Türkçe (SubDL)", "/c");
    assert_eq!(
        cached_turkish(&query, Some("/c"), &[false, false, true]).map(|o| o.url),
        Some(written.url)
    );
}

#[test]
fn cache_directory_is_under_the_user_cache() {
    assert_eq!(
        subtitle_cache_dir(Some("/home/u/.cache".to_string())),
        Some("/home/u/.cache/moviebox-tui/subtitles".to_string())
    );
    assert_eq!(subtitle_cache_dir(None), None);
}

// ---------------------------------------------------------------------------
// Settings
// ---------------------------------------------------------------------------

#[test]
fn api_key_prefers_the_environment_and_is_trimmed() {
    assert_eq!(
        load_api_key(Some("  env-key \n".to_string()), Some("file-key".to_string())),
        Some("env-key".to_string())
    );
    assert_eq!(
        load_api_key(Some(" \t".to_string()), Some(" file-key\n".to_string())),
        Some("file-key".to_string())
    );
    assert_eq!(load_api_key(None, Some("   ".to_string())), None);
    assert_eq!(load_api_key(None, None), None);
    assert_eq!(non_blank_value(Some(" x ".to_string())), Some("x".to_string()));
}

#[test]
fn config_paths_follow_xdg_then_home() {
    assert_eq!(
        config_key_path(Some("/xdg".to_string()), Some("/home/u".to_string())),
        Some("/xdg/moviebox-tui/opensubtitles_api_key".to_string())
    );
    assert_eq!(
        config_key_path(Some(String::new()), Some("/home/u".to_string())),
        Some("/home/u/.config/moviebox-tui/opensubtitles_api_key".to_string())
    );
    assert_eq!(config_key_path(None, None), None);
    assert_eq!(
        subdl_key_path(None, Some("/home/u".to_string())),
        Some("/home/u/.config/moviebox-tui/subdl_api_key".to_string())
    );
}

#[test]
fn user_agent_defaults_to_the_version() {
    assert_eq!(user_agent(None, "1.2.3"), "MovieBox-Tui v1.2.3");
    assert_eq!(user_agent(Some("  ".to_string()), "1.2.3"), "MovieBox-Tui v1.2.3");
    assert_eq!(user_agent(Some(" agent ".to_string()), "1.2.3"), " agent ");
}

#[test]
fn whitespace_is_trimmed_at_both_ends() {
    assert_eq!(trim_whitespace("\u{a0} a b \u{3000}"), "a b");
    assert_eq!(trim_whitespace("   "), "");
    assert_eq!(trim_whitespace(&trim_whitespace("  x  ")), "x");
}

#[test]
fn decimal_numbers_round_trip() {
    assert_eq!(decimal_string(0), "0");
    assert_eq!(decimal_string(2026), "2026");
    assert_eq!(decimal_string(u64::MAX), "18446744073709551615");
    assert_eq!(parse_usize_decimal("2026"), Some(2026));
    assert_eq!(parse_usize_decimal("+7"), Some(7));
    assert_eq!(parse_usize_decimal("007"), Some(7));
    assert_eq!(parse_usize_decimal(""), None);
    assert_eq!(parse_usize_decimal("+"), None);
    assert_eq!(parse_usize_decimal("-1"), None);
    assert_eq!(parse_usize_decimal("1 "), None);
    assert_eq!(parse_usize_decimal("18446744073709551616"), None);
    assert_eq!(
        parse_usize_decimal(&decimal_string(usize::MAX as u64)),
        Some(usize::MAX)
    );
    for n in [0usize, 9, 10, 123456] {
        assert_eq!(parse_usize_decimal(&decimal_string(n as u64)), Some(n));
        assert_eq!("+1".parse::<usize>().ok(), parse_usize_decimal("+1"));
    }
}

// ---------------------------------------------------------------------------
// OpenSubtitles
// ---------------------------------------------------------------------------

fn search_result(language: JsonValue, file_id: JsonValue) -> JsonValue {
    object(vec![(
        "attributes",
        object(vec![
            ("language", language),
            ("files", JsonValue::Array(vec![object(vec![("file_id", file_id)])])),
        ]),
    )])
}

#[test]
fn file_id_comes_from_the_first_turkish_result_with_one() {
    let search = object(vec![(
        "data",
        JsonValue::Array(vec![
            search_result(text("en"), JsonValue::Number(JsonNumber::PosInt(1))),
            search_result(text("TR"), text("2")),
            search_result(text("Tr"), JsonValue::Number(JsonNumber::NegInt(-3))),
            search_result(text("tr"), JsonValue::Number(JsonNumber::PosInt(4))),
        ]),
    )]);
    assert_eq!(first_file_id(&search), Some(-3));
    let none = object(vec![(
        "data",
        JsonValue::Array(vec![search_result(
            text("tr"),
            JsonValue::Number(JsonNumber::PosInt(u64::MAX)),
        )]),
    )]);
    assert_eq!(first_file_id(&none), None);
    assert_eq!(first_file_id(&object(vec![])), None);
    assert_eq!(download_link(&object(vec![("link", JsonValue::Null)])), None);
}

#[test]
fn search_parameters_include_the_known_numbers() {
    let params = search_params(&episode("Show", 1, 2));
    let expected: Vec<(String, String)> = [
        ("languages", "tr"),
        ("query", "Show"),
        ("order_by", "download_count"),
        ("order_direction", "desc"),
        ("year", "2020"),
        ("season_number", "1"),
        ("episode_number", "2"),
    ]
    .iter()
    .map(|(k, v)| (k.to_string(), v.to_string()))
    .collect();
    assert_eq!(params, expected);
    assert_eq!(search_params(&movie("M")).len(), 4);
}

#[test]
fn download_request_asks_for_srt() {
    assert_eq!(
        download_request(42),
        object(vec![
            ("file_id", JsonValue::Number(JsonNumber::PosInt(42))),
            ("sub_format", text("srt")),
        ])
    );
    assert_eq!(
        download_request(-1),
        object(vec![
            ("file_id", JsonValue::Number(JsonNumber::NegInt(-1))),
            ("sub_format", text("srt")),
        ])
    );
}

#[test]
fn headers_reject_values_that_cannot_be_sent() {
    let good = OpenSubtitlesCredentials {
        api_key: "key".to_string(),
        user_agent: "MovieBox-Tui v1".to_string(),
    };
    let headers = good.headers(true).unwrap();
    assert_eq!(headers.len(), 4);
    assert_eq!(headers[1], ("api-key".to_string(), "key".to_string()));
    assert_eq!(good.headers(false).unwrap().len(), 3);
    let bad = OpenSubtitlesCredentials {
        api_key: "key\n".to_string(),
        user_agent: "agent".to_string(),
    };
    assert_eq!(bad.headers(false).unwrap_err(), OpenSubtitlesFailure::InvalidHeader);
    let tab = OpenSubtitlesCredentials {
        api_key: "a\tb".to_string(),
        user_agent: "ä".to_string(),
    };
    assert!(tab.headers(false).is_ok());
}

#[test]
fn open_subtitles_steps_follow_the_replies() {
    let query = movie("Film");
    match open_subtitles_next(&query, &OpenSubtitlesEvent::Start) {
        OpenSubtitlesAction::Search { url, params } => {
            assert_eq!(url, "https://api.opensubtitles.com/api/v1/subtitles");
            assert_eq!(params.len(), 4);
        }
        other => panic!("unexpected {other:?}"),
    }
    let reply = object(vec![(
        "data",
        JsonValue::Array(vec![search_result(text("tr"), JsonValue::Number(JsonNumber::PosInt(9)))]),
    )]);
    match open_subtitles_next(&query, &OpenSubtitlesEvent::SearchReply(reply)) {
        OpenSubtitlesAction::RequestDownload { url, body } => {
            assert_eq!(url, "https://api.opensubtitles.com/api/v1/download");
            assert_eq!(body, download_request(9));
        }
        other => panic!("unexpected {other:?}"),
    }
    assert!(matches!(
        open_subtitles_next(&query, &OpenSubtitlesEvent::SearchReply(object(vec![]))),
        OpenSubtitlesAction::NotFound
    ));
    match open_subtitles_next(
        &query,
        &OpenSubtitlesEvent::DownloadReply(object(vec![("link", text("https://x/s.srt"))])),
    ) {
        OpenSubtitlesAction::Fetch { url } => assert_eq!(url, "https://x/s.srt"),
        other => panic!("unexpected {other:?}"),
    }
    assert!(matches!(
        open_subtitles_next(&query, &OpenSubtitlesEvent::DownloadReply(object(vec![]))),
        OpenSubtitlesAction::Fail(OpenSubtitlesFailure::MissingDownloadLink)
    ));
    match open_subtitles_next(&query, &OpenSubtitlesEvent::SubtitleFetched) {
        OpenSubtitlesAction::Store { extension, name } => {
            assert_eq!(extension, "srt");
            assert_eq!(name, "Türkçe (OpenSubtitles)");
        }
        other => panic!("unexpected {other:?}"),
    }
}

// ---------------------------------------------------------------------------
// SubDL
// ---------------------------------------------------------------------------

fn unpacked(name: &str, format: &str, url: &str) -> UnpackedFile {
    UnpackedFile {
        url: url.to_string(),
        name: name.to_string(),
        format: format.to_string(),
        season: None,
        episode: None,
    }
}

#[test]
fn file_extensions_fall_back_to_the_format() {
    assert_eq!(file_extension("Movie.2026.tr.SRT", "vtt"), "srt");
    assert_eq!(file_extension("noext", "VTT"), "vtt");
    assert_eq!(file_extension(".srt", "ass"), "ass");
    assert_eq!(file_extension("name.", "ssa"), "ssa");
    assert_eq!(file_extension("dir.d/file", ""), "");
    assert!(is_supported("srt") && is_supported("ssa") && !is_supported("SRT") && !is_supported("sub"));
}

#[test]
fn numbers_match_as_integers_or_decimal_strings() {
    let two = JsonValue::Number(JsonNumber::PosInt(2));
    assert!(matches_number(Some(&two), Some(2)));
    assert!(!matches_number(Some(&two), Some(3)));
    assert!(matches_number(Some(&text("+2")), Some(2)));
    assert!(matches_number(Some(&text("02")), Some(2)));
    assert!(!matches_number(Some(&text("two")), Some(2)));
    assert!(!matches_number(Some(&JsonValue::Number(JsonNumber::Float)), Some(2)));
    assert!(!matches_number(Some(&JsonValue::Number(JsonNumber::NegInt(-2))), Some(2)));
    assert!(matches_number(None, Some(2)));
    assert!(matches_number(Some(&text("x")), None));
}

#[test]
fn candidates_skip_unusable_files_and_archives() {
    let mut wrong_episode = unpacked("S01E01.srt", "", "/e1");
    wrong_episode.episode = Some(JsonValue::Number(JsonNumber::PosInt(1)));
    let response = SubDlResponse {
        status: true,
        error: None,
        subtitles: vec![
            Subtitle { url: String::new(), unpack_files: vec![unpacked("a.txt", "", "/txt")] },
            Subtitle {
                url: "/pack.zip".to_string(),
                unpack_files: vec![unpacked("b.srt", "", ""), wrong_episode],
            },
        ],
    };
    let candidate = first_candidate(&response, &episode("Show", 1, 2)).unwrap();
    assert_eq!(candidate.url, "/pack.zip");
    assert_eq!(candidate.extension, "srt");
    let empty = SubDlResponse { status: true, error: None, subtitles: vec![] };
    assert_eq!(first_candidate(&empty, &movie("x")), None);
}

#[test]
fn download_addresses_are_absolute() {
    assert_eq!(absolute_download_url("https://x/a.zip"), "https://x/a.zip");
    assert_eq!(absolute_download_url("http://x/a.zip"), "http://x/a.zip");
    assert_eq!(absolute_download_url("///a.zip"), "https://dl.subdl.com/a.zip");
    assert_eq!(absolute_download_url("a.zip"), "https://dl.subdl.com/a.zip");
    let once = absolute_download_url("/subtitle/1.zip");
    assert_eq!(absolute_download_url(&once), once);
}

#[test]
fn archives_yield_their_first_subtitle_file() {
    let archive = zip_of(vec![
        ("subs/", vec![]),
        ("readme.txt", b"hello".to_vec()),
        ("Movie.TR.SRT", b"1\n00:00:01,000 --> 00:00:02,000\nMerhaba\n".to_vec()),
        ("other.vtt", b"WEBVTT".to_vec()),
    ]);
    assert!(looks_like_zip(&archive));
    let (extension, data) = extract_subtitle(&archive).unwrap();
    assert_eq!(extension, "srt");
    assert_eq!(data, b"1\n00:00:01,000 --> 00:00:02,000\nMerhaba\n".to_vec());
}

#[test]
fn archives_without_subtitles_are_reported() {
    let archive = zip_of(vec![("readme.txt", b"hello".to_vec())]);
    assert!(matches!(extract_subtitle(&archive), Err(ArchiveError::MissingSubtitle)));
    assert!(matches!(extract_subtitle(b"PK\x03\x04 not really"), Err(ArchiveError::Archive(_))));
    assert!(!looks_like_zip(b"1\n00:00"));
}

#[test]
fn oversized_subtitles_are_skipped() {
    let big = vec![b'a'; (MAX_SUBTITLE_BYTES + 1) as usize];
    let archive = zip_of(vec![("big.srt", big), ("small.ass", b"[Script Info]".to_vec())]);
    let (extension, data) = extract_subtitle(&archive).unwrap();
    assert_eq!(extension, "ass");
    assert_eq!(data, b"[Script Info]".to_vec());
}

#[test]
fn subdl_steps_follow_the_replies() {
    let query = episode("Show", 1, 2);
    match subdl_next("KEY", &query, SubDlEvent::Start) {
        SubDlAction::Search { url, params } => {
            assert_eq!(url, "https://api.subdl.com/api/v1/subtitles");
            assert_eq!(params[0], ("api_key".to_string(), "KEY".to_string()));
            assert_eq!(params[2], ("type".to_string(), "tv".to_string()));
            assert_eq!(params.len(), 10);
        }
        other => panic!("unexpected {other:?}"),
    }
    let refused = SubDlResponse { status: false, error: None, subtitles: vec![] };
    match subdl_next("KEY", &query, SubDlEvent::SearchReply(refused)) {
        SubDlAction::Fail(SubDlFailure::Api(message)) => assert_eq!(message, "unknown API error"),
        other => panic!("unexpected {other:?}"),
    }
    let refused = SubDlResponse {
        status: false,
        error: Some("bad key".to_string()),
        subtitles: vec![],
    };
    match subdl_next("KEY", &query, SubDlEvent::SearchReply(refused)) {
        SubDlAction::Fail(SubDlFailure::Api(message)) => assert_eq!(message, "bad key"),
        other => panic!("unexpected {other:?}"),
    }
    let found = SubDlResponse {
        status: true,
        error: None,
        subtitles: vec![Subtitle { url: "/s/1.zip".to_string(), unpack_files: vec![] }],
    };
    match subdl_next("KEY", &query, SubDlEvent::SearchReply(found)) {
        SubDlAction::Fetch { url, extension } => {
            assert_eq!(url, "https://dl.subdl.com/s/1.zip");
            assert_eq!(extension, "srt");
        }
        other => panic!("unexpected {other:?}"),
    }
    let plain = SubDlEvent::Fetched { extension: "vtt".to_string(), contents: b"WEBVTT".to_vec() };
    match subdl_next("KEY", &query, plain) {
        SubDlAction::Store { extension, contents, name } => {
            assert_eq!(extension, "vtt");
            assert_eq!(contents, b"WEBVTT".to_vec());
            assert_eq!(name, "Türkçe (SubDL)");
        }
        other => panic!("unexpected {other:?}"),
    }
    let zipped = SubDlEvent::Fetched {
        extension: "srt".to_string(),
        contents: zip_of(vec![("a.ssa", b"x".to_vec())]),
    };
    match subdl_next("KEY", &query, zipped) {
        SubDlAction::Store { extension, contents, .. } => {
            assert_eq!(extension, "ssa");
            assert_eq!(contents, b"x".to_vec());
        }
        other => panic!("unexpected {other:?}"),
    }
    let empty_zip = SubDlEvent::Fetched {
        extension: "srt".to_string(),
        contents: zip_of(vec![("a.txt", b"x".to_vec())]),
    };
    assert!(matches!(
        subdl_next("KEY", &query, empty_zip),
        SubDlAction::Fail(SubDlFailure::MissingSubtitle)
    ));
    let none = SubDlResponse { status: true, error: None, subtitles: vec![] };
    assert!(matches!(subdl_next("KEY", &movie("m"), SubDlEvent::SearchReply(none)), SubDlAction::NotFound));
}

#[test]
fn archive_files_are_wanted_by_extension_kind_and_size() {
    assert_eq!(wanted_entry_extension("a/B.SRT", false, 10), Some("srt".to_string()));
    assert_eq!(wanted_entry_extension("subs/", true, 0), None);
    assert_eq!(wanted_entry_extension("a.txt", false, 10), None);
    assert_eq!(wanted_entry_extension("a.vtt", false, MAX_SUBTITLE_BYTES), Some("vtt".to_string()));
    assert_eq!(wanted_entry_extension("a.vtt", false, MAX_SUBTITLE_BYTES + 1), None);
    assert_eq!(choose_extension(Some("SRT"), "vtt"), "srt");
    assert_eq!(choose_extension(Some(""), "VTT"), "vtt");
    assert_eq!(choose_extension(None, "Ass"), "ass");
}

#[test]
fn json_values_are_read_by_kind() {
    let value = object(vec![
        ("a", JsonValue::Number(JsonNumber::PosInt(u64::MAX))),
        ("b", JsonValue::Number(JsonNumber::NegInt(-5))),
        ("a", text("second")),
        ("c", JsonValue::Array(vec![JsonValue::Bool(true)])),
    ]);
    let a = value.get("a").unwrap();
    assert_eq!(a.as_u64(), Some(u64::MAX));
    assert_eq!(a.as_i64(), None);
    assert_eq!(a.as_str(), None);
    assert_eq!(value.get("b").unwrap().as_i64(), Some(-5));
    assert_eq!(value.get("b").unwrap().as_u64(), None);
    assert_eq!(value.get("c").unwrap().as_array().map(|items| items.len()), Some(1));
    assert!(value.get("d").is_none());
    assert!(text("x").get("a").is_none());
    assert_eq!(JsonValue::integer(7), JsonValue::Number(JsonNumber::PosInt(7)));
}
