use moviebox_tui::json::{JsonNumber, JsonValue};
use moviebox_tui::subdl::{
    absolute_download_url, first_candidate, SubDlResponse, Subtitle, UnpackedFile,
};
use moviebox_tui::subtitles::SubtitleQuery;

fn file(name: &str, format: &str, url: &str) -> UnpackedFile {
    UnpackedFile {
        url: url.to_string(),
        name: name.to_string(),
        format: format.to_string(),
        season: None,
        episode: None,
    }
}

#[test]
fn prefers_an_unpacked_subtitle_file() {
    let response = SubDlResponse {
        status: true,
        error: None,
        subtitles: vec![Subtitle {
            url: "/subtitle/123.zip".to_string(),
            unpack_files: vec![file("Movie.2026.tr.srt", "srt", "/subtitle/123/456")],
        }],
    };

    let candidate = first_candidate(
        &response,
        &SubtitleQuery {
            title: "Movie".to_string(),
            year: Some(2026),
            season: None,
            episode: None,
        },
    )
    .unwrap();
    assert_eq!(candidate.url, "/subtitle/123/456");
    assert_eq!(candidate.extension, "srt");
}

#[test]
fn falls_back_to_archive_url() {
    let response = SubDlResponse {
        status: true,
        error: None,
        subtitles: vec![Subtitle {
            url: "/subtitle/123.zip".to_string(),
            unpack_files: vec![],
        }],
    };

    let candidate = first_candidate(
        &response,
        &SubtitleQuery {
            title: "Movie".to_string(),
            year: None,
            season: None,
            episode: None,
        },
    )
    .unwrap();
    assert_eq!(
        absolute_download_url(&candidate.url),
        "https://dl.subdl.com/subtitle/123.zip"
    );
}

#[test]
fn selects_the_requested_episode_from_a_season_pack() {
    let mut one = file("S01E01.srt", "", "/one");
    one.season = Some(JsonValue::Number(JsonNumber::PosInt(1)));
    one.episode = Some(JsonValue::Number(JsonNumber::PosInt(1)));
    let mut two = file("S01E02.srt", "", "/two");
    two.season = Some(JsonValue::String("1".to_string()));
    two.episode = Some(JsonValue::String("2".to_string()));
    let response = SubDlResponse {
        status: true,
        error: None,
        subtitles: vec![Subtitle {
            url: String::new(),
            unpack_files: vec![one, two],
        }],
    };
    let query = SubtitleQuery {
        title: "Show".to_string(),
        year: None,
        season: Some(1),
        episode: Some(2),
    };

    assert_eq!(first_candidate(&response, &query).unwrap().url, "/two");
}
