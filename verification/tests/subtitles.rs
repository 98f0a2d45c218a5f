use moviebox_tui::json::{JsonNumber, JsonValue};
use moviebox_tui::opensubtitles::{download_link, first_file_id};
use moviebox_tui::subtitles::{
    cache_key, config_key_path_from, is_turkish_label, moviebox_subtitles, options_with_none,
    SubtitleQuery,
};

fn text(s: &str) -> JsonValue {
    JsonValue::String(s.to_string())
}

fn object(members: Vec<(&str, JsonValue)>) -> JsonValue {
    JsonValue::Object(members.into_iter().map(|(k, v)| (k.to_string(), v)).collect())
}

fn caption(name: &str, url: &str) -> JsonValue {
    object(vec![("lanName", text(name)), ("url", text(url))])
}

#[test]
fn recognizes_turkish_labels() {
    for label in ["Turkish", "Türkçe", "TR", "tur"] {
        assert!(is_turkish_label(label), "{label}");
    }
    assert!(!is_turkish_label("Turkmen"));
    assert!(!is_turkish_label("English"));
}

#[test]
fn prioritizes_turkish_and_selects_it_by_default() {
    let payload = object(vec![(
        "extCaptions",
        JsonValue::Array(vec![
            caption("English", "https://example.com/en.srt"),
            caption("Türkçe", "https://example.com/tr.srt"),
        ]),
    )]);

    let options = options_with_none(moviebox_subtitles(&payload));
    assert_eq!(options[0].0, "Türkçe");
    assert_eq!(options.last().unwrap().0, "None");
}

#[test]
fn keeps_none_selected_when_turkish_is_unavailable() {
    let payload = object(vec![(
        "extCaptions",
        JsonValue::Array(vec![caption("English", "https://example.com/en.srt")]),
    )]);

    let options = options_with_none(moviebox_subtitles(&payload));
    assert_eq!(options[0].0, "None");
}

#[test]
fn extracts_file_id_and_download_link() {
    let search = object(vec![(
        "data",
        JsonValue::Array(vec![object(vec![(
            "attributes",
            object(vec![
                ("language", text("tr")),
                (
                    "files",
                    JsonValue::Array(vec![object(vec![(
                        "file_id",
                        JsonValue::Number(JsonNumber::PosInt(12345)),
                    )])]),
                ),
            ]),
        )])]),
    )]);
    let download = object(vec![("link", text("https://example.com/subtitle.srt"))]);

    assert_eq!(first_file_id(&search), Some(12345));
    assert_eq!(
        download_link(&download),
        Some("https://example.com/subtitle.srt")
    );
}

#[test]
fn uses_the_same_config_path_as_the_installer() {
    let path = config_key_path_from(None, Some("/Users/example".to_string()));
    assert_eq!(
        path,
        Some("/Users/example/.config/moviebox-tui/opensubtitles_api_key".to_string())
    );
}

#[test]
fn cache_key_is_stable_and_episode_specific() {
    let movie = SubtitleQuery {
        title: "  Backrooms ".to_string(),
        year: Some(2026),
        season: None,
        episode: None,
    };
    let same_movie = SubtitleQuery {
        title: "backrooms".to_string(),
        year: Some(2026),
        season: None,
        episode: None,
    };
    let episode = SubtitleQuery {
        season: Some(1),
        episode: Some(1),
        ..same_movie.clone()
    };

    assert_eq!(cache_key(&movie), cache_key(&same_movie));
    assert_ne!(cache_key(&movie), cache_key(&episode));
}
