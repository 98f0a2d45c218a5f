//! The OpenSubtitles REST API: the requests a search for Turkish subtitles
//! makes, and what is read from the replies.

use vstd::prelude::*;
use vstd::utf8::encode_utf8;
use crate::json::{json_array, json_get, json_i64, json_str, JsonValue};
use crate::subtitles::{pair_views, year_number, count_number, SubtitleQuery};
use crate::text::{
    copy_string, decimal, decimal_string, eq_ignore_ascii_case, eq_ignoring_ascii_case,
    string_from,
};

verus! {

// ---------------------------------------------------------------------------
// Reading replies
// ---------------------------------------------------------------------------

/// The value under `key` of the value under `outer`, when both are there.
pub open spec fn nested_get(v: JsonValue, outer: Seq<char>, key: Seq<char>) -> Option<JsonValue> {
    match json_get(v, outer) {
        Some(o) => json_get(o, key),
        None => None,
    }
}

/// A search result is in Turkish: its `attributes.language` is a string equal
/// to `tr` up to ASCII case.
pub open spec fn result_is_turkish(item: JsonValue) -> bool {
    match nested_get(item, "attributes"@, "language"@) {
        Some(l) => match json_str(l) {
            Some(lang) => eq_ignoring_ascii_case(lang, "tr"@),
            None => false,
        },
        None => false,
    }
}

/// The `file_id` of the first entry of a search result's `attributes.files`,
/// when it is an integer that fits in `i64`.
pub open spec fn result_file_id(item: JsonValue) -> Option<int> {
    match nested_get(item, "attributes"@, "files"@) {
        Some(f) => match json_array(f) {
            Some(files) => if files.len() > 0 {
                match json_get(files[0], "file_id"@) {
                    Some(id) => json_i64(id),
                    None => None,
                }
            } else {
                None
            },
            None => None,
        },
        None => None,
    }
}

/// The file id of the first Turkish result that has one.
pub open spec fn first_turkish_file_id(items: Seq<JsonValue>) -> Option<int>
    decreases items.len(),
{
    if items.len() == 0 {
        None
    } else if result_is_turkish(items[0]) && result_file_id(items[0]) is Some {
        result_file_id(items[0])
    } else {
        first_turkish_file_id(items.drop_first())
    }
}

/// The file id to download from a search reply: that of the first Turkish
/// result in its `data` array that has one.
pub open spec fn search_file_id(payload: JsonValue) -> Option<int> {
    match json_get(payload, "data"@) {
        Some(d) => match json_array(d) {
            Some(items) => first_turkish_file_id(items),
            None => None,
        },
        None => None,
    }
}

/// The download link of a download reply: its `link`, when it is a string.
pub open spec fn reply_link(payload: JsonValue) -> Option<Seq<char>> {
    match json_get(payload, "link"@) {
        Some(l) => json_str(l),
        None => None,
    }
}

/// An optional `i64` as an optional integer.
pub open spec fn opt_int(v: Option<i64>) -> Option<int> {
    match v {
        Some(n) => Some(n as int),
        None => None,
    }
}

/// Whether a search result is in Turkish.
fn is_turkish_result(item: &JsonValue) -> (r: bool)
    ensures
        r == result_is_turkish(*item),
{
    let language = match item.get("attributes") {
        Some(a) => a.get("language"),
        None => None,
    };
    match language {
        Some(l) => match l.as_str() {
            Some(lang) => eq_ignore_ascii_case(lang, "tr"),
            None => false,
        },
        None => false,
    }
}

/// The file id of a search result.
fn file_id_of_result(item: &JsonValue) -> (r: Option<i64>)
    ensures
        opt_int(r) == result_file_id(*item),
{
    let files = match item.get("attributes") {
        Some(a) => a.get("files"),
        None => None,
    };
    match files {
        Some(f) => match f.as_array() {
            Some(files) => if files.len() > 0 {
                match files[0].get("file_id") {
                    Some(id) => id.as_i64(),
                    None => None,
                }
            } else {
                None
            },
            None => None,
        },
        None => None,
    }
}

/// The file id of the first Turkish result of a search reply that has one.
pub fn first_file_id(payload: &JsonValue) -> (r: Option<i64>)
    ensures
        opt_int(r) == search_file_id(*payload),
{
    let items = match payload.get("data") {
        Some(d) => d.as_array(),
        None => None,
    };
    match items {
        Some(items) => {
            let mut i: usize = 0;
            assert(items@.skip(0) =~= items@);
            while i < items.len()
                invariant
                    i <= items@.len(),
                    search_file_id(*payload) == first_turkish_file_id(items@.skip(i as int)),
                decreases items@.len() - i,
            {
                assert(items@.skip(i as int).drop_first() =~= items@.skip(i + 1));
                assert(items@.skip(i as int)[0] == items@[i as int]);
                if is_turkish_result(&items[i]) {
                    let id = file_id_of_result(&items[i]);
                    if id.is_some() {
                        return id;
                    }
                }
                i = i + 1;
            }
            None
        },
        None => None,
    }
}

/// The download link of a download reply.
pub fn download_link(payload: &JsonValue) -> (r: Option<&str>)
    ensures
        r matches Some(s) ==> reply_link(*payload) == Some(s@),
        r is None ==> reply_link(*payload) is None,
{
    match payload.get("link") {
        Some(l) => l.as_str(),
        None => None,
    }
}

// ---------------------------------------------------------------------------
// Requests
// ---------------------------------------------------------------------------

/// A query parameter for an optional number: present only when the number is.
pub open spec fn optional_param(name: Seq<char>, v: Option<nat>) -> Seq<(Seq<char>, Seq<char>)> {
    match v {
        Some(n) => seq![(name, decimal(n))],
        None => seq![],
    }
}

/// The query parameters of a search: Turkish subtitles for the title, most
/// downloaded first, narrowed to the year, season and episode when given.
pub open spec fn search_params_spec(query: SubtitleQuery) -> Seq<(Seq<char>, Seq<char>)> {
    seq![
        ("languages"@, "tr"@),
        ("query"@, query.title@),
        ("order_by"@, "download_count"@),
        ("order_direction"@, "desc"@),
    ] + optional_param("year"@, year_number(query.year)) + optional_param(
        "season_number"@,
        count_number(query.season),
    ) + optional_param("episode_number"@, count_number(query.episode))
}

/// A (name, value) pair of strings.
fn string_pair(name: &str, value: &str) -> (r: (String, String))
    ensures
        r.0@ == name@,
        r.1@ == value@,
{
    (string_from(name), string_from(value))
}

/// Appends the parameter `name` with the decimal value `v`, when there is one.
pub fn push_optional_param(params: &mut Vec<(String, String)>, name: &str, v: Option<u64>)
    ensures
        pair_views(final(params)@) == pair_views(old(params)@) + optional_param(
            name@,
            match v {
                Some(n) => Some(n as nat),
                None => None,
            },
        ),
{
    if let Some(n) = v {
        let value = decimal_string(n);
        params.push((string_from(name), value));
        assert(pair_views(params@) =~= pair_views(old(params)@) + seq![(name@, decimal(n as nat))]);
    } else {
        assert(pair_views(params@) =~= pair_views(old(params)@) + Seq::<(Seq<char>, Seq<char>)>::empty());
    }
}

/// The query parameters of a search for Turkish subtitles.
pub fn search_params(query: &SubtitleQuery) -> (r: Vec<(String, String)>)
    ensures
        pair_views(r@) == search_params_spec(*query),
{
    let mut params: Vec<(String, String)> = Vec::new();
    params.push(string_pair("languages", "tr"));
    params.push((string_from("query"), copy_string(&query.title)));
    params.push(string_pair("order_by", "download_count"));
    params.push(string_pair("order_direction", "desc"));
    let ghost fixed = pair_views(params@);
    push_optional_param(
        &mut params,
        "year",
        match query.year {
            Some(y) => Some(y as u64),
            None => None,
        },
    );
    push_optional_param(
        &mut params,
        "season_number",
        match query.season {
            Some(n) => Some(n as u64),
            None => None,
        },
    );
    push_optional_param(
        &mut params,
        "episode_number",
        match query.episode {
            Some(n) => Some(n as u64),
            None => None,
        },
    );
    assert(fixed =~= seq![
        ("languages"@, "tr"@),
        ("query"@, query.title@),
        ("order_by"@, "download_count"@),
        ("order_direction"@, "desc"@),
    ]);
    assert(pair_views(params@) =~= search_params_spec(*query));
    params
}

/// The body of a download request: `{"file_id": file_id, "sub_format": "srt"}`.
pub open spec fn is_download_request(body: JsonValue, file_id: i64) -> bool {
    &&& body matches JsonValue::Object(members)
    &&& members@.len() == 2
    &&& members@[0].0@ == "file_id"@
    &&& members@[0].1 == JsonValue::integer_value(file_id)
    &&& members@[1].0@ == "sub_format"@
    &&& json_str(members@[1].1) == Some("srt"@)
}

/// The JSON body that asks for a download link for `file_id` in SubRip format.
pub fn download_request(file_id: i64) -> (r: JsonValue)
    ensures
        is_download_request(r, file_id),
{
    let mut members: Vec<(String, JsonValue)> = Vec::new();
    members.push((string_from("file_id"), JsonValue::integer(file_id)));
    members.push((string_from("sub_format"), JsonValue::string("srt")));
    JsonValue::Object(members)
}

// ---------------------------------------------------------------------------
// Headers
// ---------------------------------------------------------------------------

/// A byte that may appear in an HTTP header value: visible ASCII, a space,
/// a tab, or any byte above 127.
pub open spec fn header_byte_ok(b: u8) -> bool {
    (b >= 32 && b != 127) || b == 9
}

/// Every byte of the UTF-8 encoding of `value` may appear in a header value.
pub open spec fn header_value_valid(value: Seq<char>) -> bool {
    forall|i: int| 0 <= i < encode_utf8(value).len() ==> header_byte_ok(#[trigger] encode_utf8(value)[i])
}

/// `HeaderValue::from_str` from the `http` crate (re-exported by `reqwest`):
/// whether it accepts `value`. Its source accepts exactly the strings whose
/// bytes are all tabs or at least 32 and not 127.
#[verifier::external_body]
fn header_value_accepted(value: &str) -> (ok: bool)
    ensures
        ok == header_value_valid(value@),
{
    reqwest::header::HeaderValue::from_str(value).is_ok()
}

/// Why talking to OpenSubtitles failed, where the library decides it.
#[derive(Debug, PartialEq, Eq)]
pub enum OpenSubtitlesFailure {
    /// The API key or the user agent cannot be sent in a header.
    InvalidHeader,
    /// The download reply holds no download link.
    MissingDownloadLink,
}

/// The credentials sent with every OpenSubtitles request.
#[derive(Debug)]
pub struct OpenSubtitlesCredentials {
    pub api_key: String,
    pub user_agent: String,
}

/// The headers of a request: JSON is accepted, the API key and user agent
/// are sent, and a JSON body is announced when there is one.
pub open spec fn header_list(api_key: Seq<char>, user_agent: Seq<char>, json_body: bool) -> Seq<
    (Seq<char>, Seq<char>),
> {
    let common = seq![
        ("accept"@, "application/json"@),
        ("api-key"@, api_key),
        ("user-agent"@, user_agent),
    ];
    if json_body {
        common.push(("content-type"@, "application/json"@))
    } else {
        common
    }
}

impl OpenSubtitlesCredentials {
    /// The headers of a request, or `InvalidHeader` when the API key or the
    /// user agent holds a byte that a header value cannot hold.
    pub fn headers(&self, json_body: bool) -> (r: Result<Vec<(String, String)>, OpenSubtitlesFailure>)
        ensures
            r is Err <==> !header_value_valid(self.api_key@) || !header_value_valid(self.user_agent@),
            r matches Err(e) ==> e == OpenSubtitlesFailure::InvalidHeader,
            r matches Ok(h) ==> pair_views(h@) == header_list(self.api_key@, self.user_agent@, json_body),
    {
        if !header_value_accepted(self.api_key.as_str()) || !header_value_accepted(
            self.user_agent.as_str(),
        ) {
            return Err(OpenSubtitlesFailure::InvalidHeader);
        }
        let mut headers: Vec<(String, String)> = Vec::new();
        headers.push(string_pair("accept", "application/json"));
        headers.push((string_from("api-key"), copy_string(&self.api_key)));
        headers.push((string_from("user-agent"), copy_string(&self.user_agent)));
        if json_body {
            headers.push(string_pair("content-type", "application/json"));
        }
        assert(pair_views(headers@) =~= header_list(self.api_key@, self.user_agent@, json_body));
        Ok(headers)
    }
}

// ---------------------------------------------------------------------------
// The search, step by step
// ---------------------------------------------------------------------------

/// What happened last while looking for a Turkish subtitle.
#[derive(Debug)]
pub enum OpenSubtitlesEvent {
    /// Nothing yet.
    Start,
    /// The search request answered with this JSON document.
    SearchReply(JsonValue),
    /// The download request answered with this JSON document.
    DownloadReply(JsonValue),
    /// The subtitle file was fetched from the download link.
    SubtitleFetched,
}

/// What to do next while looking for a Turkish subtitle.
#[derive(Debug)]
pub enum OpenSubtitlesAction {
    /// GET `url` with these query parameters and the headers without a body,
    /// then report the JSON reply as `SearchReply`.
    Search { url: String, params: Vec<(String, String)> },
    /// POST this JSON `body` to `url` with the headers for a JSON body, then
    /// report the JSON reply as `DownloadReply`.
    RequestDownload { url: String, body: JsonValue },
    /// GET `url`, keep the bytes, then report `SubtitleFetched`.
    Fetch { url: String },
    /// Cache the fetched bytes with this extension and offer them under this name.
    Store { extension: String, name: String },
    /// There is no Turkish subtitle.
    NotFound,
    /// Give up with this failure.
    Fail(OpenSubtitlesFailure),
}

/// The address of the search endpoint.
pub open spec fn search_url() -> Seq<char> {
    "https://api.opensubtitles.com/api/v1/subtitles"@
}

/// The address of the download endpoint.
pub open spec fn download_url() -> Seq<char> {
    "https://api.opensubtitles.com/api/v1/download"@
}

/// The next step of the search for a Turkish subtitle after `event`.
pub fn open_subtitles_next(query: &SubtitleQuery, event: &OpenSubtitlesEvent) -> (r:
    OpenSubtitlesAction)
    ensures
        match *event {
            OpenSubtitlesEvent::Start => r matches OpenSubtitlesAction::Search { url, params } && url@
                == search_url() && pair_views(params@) == search_params_spec(*query),
            OpenSubtitlesEvent::SearchReply(p) => match search_file_id(p) {
                Some(id) => r matches OpenSubtitlesAction::RequestDownload { url, body } && url@
                    == download_url() && is_download_request(body, id as i64),
                None => r is NotFound,
            },
            OpenSubtitlesEvent::DownloadReply(p) => match reply_link(p) {
                Some(link) => r matches OpenSubtitlesAction::Fetch { url } && url@ == link,
                None => r matches OpenSubtitlesAction::Fail(f) && f
                    == OpenSubtitlesFailure::MissingDownloadLink,
            },
            OpenSubtitlesEvent::SubtitleFetched => r matches OpenSubtitlesAction::Store {
                extension,
                name,
            } && extension@ == "srt"@ && name@ == "Türkçe (OpenSubtitles)"@,
        },
{
    match event {
        OpenSubtitlesEvent::Start => OpenSubtitlesAction::Search {
            url: string_from("https://api.opensubtitles.com/api/v1/subtitles"),
            params: search_params(query),
        },
        OpenSubtitlesEvent::SearchReply(payload) => match first_file_id(payload) {
            Some(id) => OpenSubtitlesAction::RequestDownload {
                url: string_from("https://api.opensubtitles.com/api/v1/download"),
                body: download_request(id),
            },
            None => OpenSubtitlesAction::NotFound,
        },
        OpenSubtitlesEvent::DownloadReply(payload) => match download_link(payload) {
            Some(link) => OpenSubtitlesAction::Fetch { url: string_from(link) },
            None => OpenSubtitlesAction::Fail(OpenSubtitlesFailure::MissingDownloadLink),
        },
        OpenSubtitlesEvent::SubtitleFetched => OpenSubtitlesAction::Store {
            extension: string_from("srt"),
            name: string_from("Türkçe (OpenSubtitles)"),
        },
    }
}

} // verus!
