//! The SubDL API: choosing a subtitle file from a search reply and taking a
//! subtitle out of a downloaded archive.

use vstd::prelude::*;
use crate::archive::{
    open_zip, zip_source, zip_entry, zip_entry_data, zip_entry_header, zip_entry_read, zip_file_count, zip_len,
    zip_opens, ZipReadError,
};
use crate::json::{json_str, json_u64, JsonValue};
use crate::paths::{extension_of, path_extension};
use crate::opensubtitles::{optional_param, push_optional_param};
use crate::subtitles::{
    config_file_path, config_file_path_from, config_root_from, count_number, opt_view, pair_views,
    xdg_root, year_number, SubtitleQuery,
};
use crate::text::{
    ascii_lower, chars_of, chars_start_with, copy_string, parse_usize, parse_usize_decimal,
    push_chars, str_equal, string_from, to_ascii_lowercase,
};
use zip::result::ZipError;

verus! {

// ---------------------------------------------------------------------------
// Replies
// ---------------------------------------------------------------------------

/// A subtitle archive listed in a search reply.
#[derive(Debug, PartialEq, Eq)]
pub struct Subtitle {
    /// Where the whole archive is downloaded from (may be empty).
    pub url: String,
    /// The files of the archive, each downloadable on its own.
    pub unpack_files: Vec<UnpackedFile>,
}

/// One file of a subtitle archive.
#[derive(Debug, PartialEq, Eq)]
pub struct UnpackedFile {
    pub url: String,
    pub name: String,
    pub format: String,
    /// The season the file is for, as the API sends it (a number or a string).
    pub season: Option<JsonValue>,
    /// The episode the file is for, as the API sends it (a number or a string).
    pub episode: Option<JsonValue>,
}

/// A search reply.
#[derive(Debug, PartialEq, Eq)]
pub struct SubDlResponse {
    pub status: bool,
    /// The reason given when `status` is false.
    pub error: Option<String>,
    pub subtitles: Vec<Subtitle>,
}

/// The subtitle file chosen for download.
#[derive(Debug, PartialEq, Eq)]
pub struct Candidate {
    pub url: String,
    pub extension: String,
}

impl View for Candidate {
    type V = (Seq<char>, Seq<char>);

    open spec fn view(&self) -> (Seq<char>, Seq<char>) {
        (self.url@, self.extension@)
    }
}

// ---------------------------------------------------------------------------
// File names
// ---------------------------------------------------------------------------

/// The extension of a subtitle file in lower case: `extension` (what the
/// file's name gives) when that is there and not empty, else `format`.
pub open spec fn extension_or_format(extension: Option<Seq<char>>, format: Seq<char>) -> Seq<char> {
    match extension {
        Some(e) => if e.len() > 0 {
            ascii_lower(e)
        } else {
            ascii_lower(format)
        },
        None => ascii_lower(format),
    }
}

/// The extension of a subtitle file named `name`, falling back to `format`.
pub open spec fn file_extension_spec(name: Seq<char>, format: Seq<char>) -> Seq<char> {
    extension_or_format(path_extension(name), format)
}

/// The extension of a subtitle file in lower case, from the extension its
/// name gives, falling back to `format`.
pub fn choose_extension(extension: Option<&str>, format: &str) -> (r: String)
    ensures
        r@ == extension_or_format(
            match extension {
                Some(e) => Some(e@),
                None => None,
            },
            format@,
        ),
{
    match extension {
        Some(e) => if e.unicode_len() > 0 {
            to_ascii_lowercase(e)
        } else {
            to_ascii_lowercase(format)
        },
        None => to_ascii_lowercase(format),
    }
}

/// The extension of a subtitle file named `name`, falling back to `format`.
pub fn file_extension(name: &str, format: &str) -> (r: String)
    ensures
        r@ == file_extension_spec(name@, format@),
{
    match extension_of(name) {
        Some(e) => choose_extension(Some(e.as_str()), format),
        None => choose_extension(None, format),
    }
}

/// The subtitle formats the player reads.
pub open spec fn supported(extension: Seq<char>) -> bool {
    extension == "srt"@ || extension == "vtt"@ || extension == "ass"@ || extension == "ssa"@
}

/// Whether the player reads subtitles with this extension.
pub fn is_supported(extension: &str) -> (r: bool)
    ensures
        r == supported(extension@),
{
    str_equal(extension, "srt") || str_equal(extension, "vtt") || str_equal(extension, "ass")
        || str_equal(extension, "ssa")
}

// ---------------------------------------------------------------------------
// Choosing a file
// ---------------------------------------------------------------------------

/// A file's season or episode fits the one asked for: nothing was asked for,
/// the file gives none, or it gives the same number as an integer or as a
/// decimal string.
pub open spec fn number_matches(value: Option<JsonValue>, expected: Option<usize>) -> bool {
    match expected {
        None => true,
        Some(e) => match value {
            None => true,
            Some(v) => json_u64(v) == Some(e as int) || (match json_str(v) {
                Some(s) => parse_usize(s) == Some(e as nat),
                None => false,
            }),
        },
    }
}

/// Whether a file's season or episode fits the one asked for.
pub fn matches_number(value: Option<&JsonValue>, expected: Option<usize>) -> (r: bool)
    ensures
        r == number_matches(
            match value {
                Some(v) => Some(*v),
                None => None,
            },
            expected,
        ),
{
    let expected = match expected {
        Some(e) => e,
        None => {
            return true;
        },
    };
    let value = match value {
        Some(v) => v,
        None => {
            return true;
        },
    };
    let as_number = match value.as_u64() {
        Some(n) => n as u128 == expected as u128,
        None => false,
    };
    if as_number {
        return true;
    }
    match value.as_str() {
        Some(s) => match parse_usize_decimal(s) {
            Some(n) => n == expected,
            None => false,
        },
        None => false,
    }
}

/// A file of an archive can be downloaded for the query: it has a URL, a
/// supported extension, and the season and episode asked for.
pub open spec fn file_fits(file: UnpackedFile, query: SubtitleQuery) -> bool {
    &&& file.url@.len() > 0
    &&& supported(file_extension_spec(file.name@, file.format@))
    &&& number_matches(file.season, query.season)
    &&& number_matches(file.episode, query.episode)
}

/// The first file that fits the query.
pub open spec fn first_fitting_file(files: Seq<UnpackedFile>, query: SubtitleQuery) -> Option<
    UnpackedFile,
>
    decreases files.len(),
{
    if files.len() == 0 {
        None
    } else if file_fits(files[0], query) {
        Some(files[0])
    } else {
        first_fitting_file(files.drop_first(), query)
    }
}

/// The (URL, extension) to download, looking at the archives in order: the
/// first fitting file of an archive, else the archive itself as SubRip when
/// it has a URL, else the next archive.
pub open spec fn choose_download(subtitles: Seq<Subtitle>, query: SubtitleQuery) -> Option<
    (Seq<char>, Seq<char>),
>
    decreases subtitles.len(),
{
    if subtitles.len() == 0 {
        None
    } else {
        match first_fitting_file(subtitles[0].unpack_files@, query) {
            Some(f) => Some((f.url@, file_extension_spec(f.name@, f.format@))),
            None => if subtitles[0].url@.len() > 0 {
                Some((subtitles[0].url@, "srt"@))
            } else {
                choose_download(subtitles.drop_first(), query)
            },
        }
    }
}

/// The view of an optional candidate.
pub open spec fn candidate_view(c: Option<Candidate>) -> Option<(Seq<char>, Seq<char>)> {
    match c {
        Some(c) => Some(c@),
        None => None,
    }
}

/// Whether a file fits the query.
fn fits(file: &UnpackedFile, query: &SubtitleQuery) -> (r: bool)
    ensures
        r == file_fits(*file, *query),
{
    file.url.as_str().unicode_len() > 0 && is_supported(
        file_extension(file.name.as_str(), file.format.as_str()).as_str(),
    ) && matches_number(
        match &file.season {
            Some(v) => Some(v),
            None => None,
        },
        query.season,
    ) && matches_number(
        match &file.episode {
            Some(v) => Some(v),
            None => None,
        },
        query.episode,
    )
}

/// The file of a search reply to download for the query.
pub fn first_candidate(response: &SubDlResponse, query: &SubtitleQuery) -> (r: Option<Candidate>)
    ensures
        candidate_view(r) == choose_download(response.subtitles@, *query),
{
    let subtitles = &response.subtitles;
    let mut i: usize = 0;
    assert(subtitles@.skip(0) =~= subtitles@);
    while i < subtitles.len()
        invariant
            *subtitles == response.subtitles,
            i <= subtitles@.len(),
            choose_download(subtitles@, *query) == choose_download(subtitles@.skip(i as int), *query),
        decreases subtitles@.len() - i,
    {
        let subtitle = &subtitles[i];
        assert(subtitles@.skip(i as int).drop_first() =~= subtitles@.skip(i + 1));
        assert(subtitles@.skip(i as int)[0] == *subtitle);
        let files = &subtitle.unpack_files;
        let mut j: usize = 0;
        assert(files@.skip(0) =~= files@);
        while j < files.len()
            invariant
                *subtitles == response.subtitles,
                i < subtitles@.len(),
                subtitles@.skip(i as int)[0] == *subtitle,
                choose_download(subtitles@, *query) == choose_download(
                    subtitles@.skip(i as int),
                    *query,
                ),
                *files == subtitle.unpack_files,
                j <= files@.len(),
                first_fitting_file(files@, *query) == first_fitting_file(files@.skip(j as int), *query),
            decreases files@.len() - j,
        {
            assert(files@.skip(j as int).drop_first() =~= files@.skip(j + 1));
            assert(files@.skip(j as int)[0] == files@[j as int]);
            let file = &files[j];
            if fits(file, query) {
                return Some(
                    Candidate {
                        url: copy_string(&file.url),
                        extension: file_extension(file.name.as_str(), file.format.as_str()),
                    },
                );
            }
            j = j + 1;
        }
        if subtitle.url.as_str().unicode_len() > 0 {
            return Some(Candidate { url: copy_string(&subtitle.url), extension: string_from("srt") });
        }
        i = i + 1;
    }
    None
}

// ---------------------------------------------------------------------------
// Download addresses
// ---------------------------------------------------------------------------

/// `s` without its leading `/` characters.
pub open spec fn strip_leading_slashes(s: Seq<char>) -> Seq<char>
    decreases s.len(),
{
    if s.len() > 0 && s[0] == '/' {
        strip_leading_slashes(s.drop_first())
    } else {
        s
    }
}

/// The address to download from: an `http://` or `https://` URL as it is,
/// anything else as a path on the SubDL download host.
pub open spec fn download_address(url: Seq<char>) -> Seq<char> {
    if "https://"@.is_prefix_of(url) || "http://"@.is_prefix_of(url) {
        url
    } else {
        "https://dl.subdl.com/"@ + strip_leading_slashes(url)
    }
}

/// The address to download a file from.
pub fn absolute_download_url(url: &str) -> (r: String)
    ensures
        r@ == download_address(url@),
{
    let cs = chars_of(url);
    let https = chars_of("https://");
    let http = chars_of("http://");
    if chars_start_with(cs.as_slice(), https.as_slice()) || chars_start_with(
        cs.as_slice(),
        http.as_slice(),
    ) {
        return string_from(url);
    }
    let n = cs.len();
    let mut start: usize = 0;
    assert(cs@.subrange(0, n as int) =~= cs@);
    while start < n && cs[start] == '/'
        invariant
            cs@ == url@,
            n == cs@.len(),
            start <= n,
            strip_leading_slashes(url@) == strip_leading_slashes(cs@.subrange(start as int, n as int)),
        decreases n - start,
    {
        assert(cs@.subrange(start as int, n as int).drop_first() =~= cs@.subrange(
            start + 1,
            n as int,
        ));
        start = start + 1;
    }
    let mut rest: Vec<char> = Vec::new();
    let mut i: usize = start;
    while i < n
        invariant
            start <= i <= n,
            n == cs@.len(),
            rest@ == cs@.subrange(start as int, i as int),
        decreases n - i,
    {
        rest.push(cs[i]);
        i = i + 1;
        assert(rest@ =~= cs@.subrange(start as int, i as int));
    }
    let mut out = string_from("https://dl.subdl.com/");
    push_chars(&mut out, rest.as_slice());
    out
}

// ---------------------------------------------------------------------------
// Archives
// ---------------------------------------------------------------------------

/// The largest subtitle file taken out of an archive: 10 MiB.
pub const MAX_SUBTITLE_BYTES: u64 = 10485760;

/// What taking a subtitle out of an archive comes to.
pub enum Extraction {
    /// A subtitle with this extension and these bytes.
    Found(Seq<char>, Seq<u8>),
    /// The archive or one of its files could not be opened.
    ArchiveFailed,
    /// A file could not be read.
    ReadFailed,
    /// No file of the archive is a subtitle.
    Missing,
}

/// A file of an archive is worth reading: not a directory, with a supported
/// extension, and not larger than the limit.
pub open spec fn entry_wanted(entry: (Seq<char>, bool, u64)) -> bool {
    &&& !entry.1
    &&& supported(file_extension_spec(entry.0, ""@))
    &&& entry.2 <= MAX_SUBTITLE_BYTES
}

/// The extension of an archive file worth reading, or nothing: given its
/// name, whether it is a directory and its size.
pub fn wanted_entry_extension(name: &str, is_dir: bool, size: u64) -> (r: Option<String>)
    ensures
        r is Some <==> entry_wanted((name@, is_dir, size)),
        r matches Some(e) ==> e@ == file_extension_spec(name@, ""@),
{
    let extension = file_extension(name, "");
    if is_dir || !is_supported(extension.as_str()) || size > MAX_SUBTITLE_BYTES {
        None
    } else {
        Some(extension)
    }
}

/// Taking a subtitle out of the archive in `bytes`, looking at the files from
/// `index` on: the first wanted file whose contents fit the limit, stopping at
/// the first file that cannot be opened or read.
pub open spec fn extraction_from(bytes: Seq<u8>, index: nat) -> Extraction
    decreases zip_file_count(bytes) - index,
{
    if index >= zip_file_count(bytes) {
        Extraction::Missing
    } else {
        match zip_entry(bytes, index as int) {
            None => Extraction::ArchiveFailed,
            Some(entry) => if !entry_wanted(entry) {
                extraction_from(bytes, index + 1)
            } else {
                match zip_entry_data(bytes, index as int, (MAX_SUBTITLE_BYTES + 1) as u64) {
                    None => Extraction::ReadFailed,
                    Some(data) => if data.len() <= MAX_SUBTITLE_BYTES {
                        Extraction::Found(file_extension_spec(entry.0, ""@), data)
                    } else {
                        extraction_from(bytes, index + 1)
                    },
                }
            },
        }
    }
}

/// Taking a subtitle out of the archive in `bytes`.
pub open spec fn extraction(bytes: Seq<u8>) -> Extraction {
    if !zip_opens(bytes) {
        Extraction::ArchiveFailed
    } else {
        extraction_from(bytes, 0)
    }
}

/// Why no subtitle came out of an archive.
#[derive(Debug)]
pub enum ArchiveError {
    /// The archive or one of its files could not be opened.
    Archive(ZipError),
    /// A file could not be read.
    Read(std::io::Error),
    /// No file of the archive is a subtitle.
    MissingSubtitle,
}

/// Whether an extraction result agrees with the outcome described by `e`.
pub open spec fn extraction_agrees(r: Result<(String, Vec<u8>), ArchiveError>, e: Extraction) -> bool {
    match r {
        Ok((extension, data)) => e == Extraction::Found(extension@, data@),
        Err(ArchiveError::Archive(_)) => e is ArchiveFailed,
        Err(ArchiveError::Read(_)) => e is ReadFailed,
        Err(ArchiveError::MissingSubtitle) => e is Missing,
    }
}

/// The first subtitle file of a ZIP archive, with its extension: a file that
/// is not a directory, has a supported extension and holds at most 10 MiB.
pub fn extract_subtitle(archive: &[u8]) -> (r: Result<(String, Vec<u8>), ArchiveError>)
    ensures
        extraction_agrees(r, extraction(archive@)),
{
    let mut zip = match open_zip(archive) {
        Ok(z) => z,
        Err(e) => {
            return Err(ArchiveError::Archive(e));
        },
    };
    let ghost bytes = archive@;
    let count = zip_len(&zip);
    let mut index: usize = 0;
    while index < count
        invariant
            bytes == archive@,
            zip_opens(bytes),
            zip_source(zip) == bytes,
            count == zip_file_count(bytes),
            index <= count,
            extraction(bytes) == extraction_from(bytes, index as nat),
        decreases count - index,
    {
        let header = match zip_entry_header(&mut zip, index) {
            Ok(h) => h,
            Err(e) => {
                return Err(ArchiveError::Archive(e));
            },
        };
        let extension = match wanted_entry_extension(header.name.as_str(), header.is_dir, header.size) {
            Some(e) => e,
            None => {
                index = index + 1;
                continue;
            },
        };
        let data = match zip_entry_read(&mut zip, index, MAX_SUBTITLE_BYTES + 1) {
            Ok(d) => d,
            Err(ZipReadError::Archive(e)) => {
                return Err(ArchiveError::Archive(e));
            },
            Err(ZipReadError::Io(e)) => {
                return Err(ArchiveError::Read(e));
            },
        };
        if data.len() as u64 <= MAX_SUBTITLE_BYTES {
            return Ok((extension, data));
        }
        index = index + 1;
    }
    Err(ArchiveError::MissingSubtitle)
}

/// The bytes start like a ZIP archive: `PK` followed by 3 and 4.
pub open spec fn is_zip_archive(bytes: Seq<u8>) -> bool {
    bytes.len() >= 4 && bytes[0] == 0x50 && bytes[1] == 0x4b && bytes[2] == 3 && bytes[3] == 4
}

/// Whether the bytes start like a ZIP archive.
pub fn looks_like_zip(bytes: &[u8]) -> (r: bool)
    ensures
        r == is_zip_archive(bytes@),
{
    bytes.len() >= 4 && bytes[0] == 0x50 && bytes[1] == 0x4b && bytes[2] == 3 && bytes[3] == 4
}

// ---------------------------------------------------------------------------
// The search, step by step
// ---------------------------------------------------------------------------

/// The kind of title SubDL is asked about: `tv` when a season is given.
pub open spec fn media_type(query: SubtitleQuery) -> Seq<char> {
    if query.season is Some {
        "tv"@
    } else {
        "movie"@
    }
}

/// The query parameters of a search for Turkish subtitles.
pub open spec fn subdl_params_spec(api_key: Seq<char>, query: SubtitleQuery) -> Seq<
    (Seq<char>, Seq<char>),
> {
    seq![
        ("api_key"@, api_key),
        ("film_name"@, query.title@),
        ("type"@, media_type(query)),
        ("languages"@, "TR"@),
        ("subs_per_page"@, "10"@),
        ("unpack"@, "1"@),
        ("client"@, "moviebox-tui"@),
    ] + optional_param("year"@, year_number(query.year)) + optional_param(
        "season_number"@,
        count_number(query.season),
    ) + optional_param("episode_number"@, count_number(query.episode))
}

/// A (name, value) pair of strings.
fn string_pair(name: &str, value: &str) -> (r: (String, String))
    ensures
        r.0@ == name@,
        r.1@ == value@,
{
    (string_from(name), string_from(value))
}

/// The query parameters of a SubDL search for Turkish subtitles.
pub fn subdl_params(api_key: &str, query: &SubtitleQuery) -> (r: Vec<(String, String)>)
    ensures
        pair_views(r@) == subdl_params_spec(api_key@, *query),
{
    let mut params: Vec<(String, String)> = Vec::new();
    params.push(string_pair("api_key", api_key));
    params.push((string_from("film_name"), copy_string(&query.title)));
    let media = if query.season.is_some() {
        "tv"
    } else {
        "movie"
    };
    params.push(string_pair("type", media));
    params.push(string_pair("languages", "TR"));
    params.push(string_pair("subs_per_page", "10"));
    params.push(string_pair("unpack", "1"));
    params.push(string_pair("client", "moviebox-tui"));
    let ghost fixed = pair_views(params@);
    push_optional_param(
        &mut params,
        "year",
        match query.year {
            Some(y) => Some(y as u64),
            None => None,
        },
    );
    push_optional_param(
        &mut params,
        "season_number",
        match query.season {
            Some(n) => Some(n as u64),
            None => None,
        },
    );
    push_optional_param(
        &mut params,
        "episode_number",
        match query.episode {
            Some(n) => Some(n as u64),
            None => None,
        },
    );
    assert(fixed =~= seq![
        ("api_key"@, api_key@),
        ("film_name"@, query.title@),
        ("type"@, media_type(*query)),
        ("languages"@, "TR"@),
        ("subs_per_page"@, "10"@),
        ("unpack"@, "1"@),
        ("client"@, "moviebox-tui"@),
    ]);
    assert(pair_views(params@) =~= subdl_params_spec(api_key@, *query));
    params
}

/// What happened last while looking for a Turkish subtitle on SubDL.
#[derive(Debug)]
pub enum SubDlEvent {
    /// Nothing yet.
    Start,
    /// The search request answered with this reply.
    SearchReply(SubDlResponse),
    /// The chosen file was fetched: the extension the `Fetch` step gave, and
    /// the bytes.
    Fetched { extension: String, contents: Vec<u8> },
}

/// Why looking for a subtitle on SubDL failed, where the library decides it.
#[derive(Debug)]
pub enum SubDlFailure {
    /// The API refused the request, for this reason.
    Api(String),
    /// The downloaded archive or one of its files could not be opened.
    Archive(ZipError),
    /// A file of the downloaded archive could not be read.
    Read(std::io::Error),
    /// The downloaded archive holds no subtitle.
    MissingSubtitle,
}

/// What to do next while looking for a Turkish subtitle on SubDL.
#[derive(Debug)]
pub enum SubDlAction {
    /// GET `url` with these query parameters, then report the reply as `SearchReply`.
    Search { url: String, params: Vec<(String, String)> },
    /// GET `url`, then report the bytes as `Fetched` with this extension.
    Fetch { url: String, extension: String },
    /// Cache these bytes with this extension and offer them under this name.
    Store { extension: String, contents: Vec<u8>, name: String },
    /// There is no Turkish subtitle.
    NotFound,
    /// Give up with this failure.
    Fail(SubDlFailure),
}

/// The reason given with a refused request, or a generic one.
pub open spec fn api_error_message(error: Option<Seq<char>>) -> Seq<char> {
    match error {
        Some(e) => e,
        None => "unknown API error"@,
    }
}

/// The name under which a SubDL subtitle is offered.
pub open spec fn subdl_name() -> Seq<char> {
    "Türkçe (SubDL)"@
}

/// The step after the chosen file was fetched.
pub open spec fn after_fetch(action: SubDlAction, extension: Seq<char>, contents: Seq<u8>) -> bool {
    if is_zip_archive(contents) {
        match extraction(contents) {
            Extraction::Found(e, d) => action matches SubDlAction::Store { extension, contents, name }
                && extension@ == e && contents@ == d && name@ == subdl_name(),
            Extraction::ArchiveFailed => action matches SubDlAction::Fail(SubDlFailure::Archive(_)),
            Extraction::ReadFailed => action matches SubDlAction::Fail(SubDlFailure::Read(_)),
            Extraction::Missing => action matches SubDlAction::Fail(SubDlFailure::MissingSubtitle),
        }
    } else {
        action matches SubDlAction::Store { extension: x, contents: c, name }
            && x@ == extension && c@ == contents && name@ == subdl_name()
    }
}

/// The step after a search reply.
pub open spec fn after_search(action: SubDlAction, reply: SubDlResponse, query: SubtitleQuery) -> bool {
    if !reply.status {
        action matches SubDlAction::Fail(SubDlFailure::Api(message)) && message@ == api_error_message(
            opt_view(reply.error),
        )
    } else {
        match choose_download(reply.subtitles@, query) {
            Some((url, extension)) => action matches SubDlAction::Fetch { url: u, extension: x }
                && u@ == download_address(url) && x@ == extension,
            None => action is NotFound,
        }
    }
}

/// The address of the SubDL search endpoint.
pub open spec fn subdl_search_url() -> Seq<char> {
    "https://api.subdl.com/api/v1/subtitles"@
}

/// The next step of the search for a Turkish subtitle on SubDL after `event`.
pub fn subdl_next(api_key: &str, query: &SubtitleQuery, event: SubDlEvent) -> (r: SubDlAction)
    ensures
        match event {
            SubDlEvent::Start => r matches SubDlAction::Search { url, params } && url@
                == subdl_search_url() && pair_views(params@) == subdl_params_spec(api_key@, *query),
            SubDlEvent::SearchReply(reply) => after_search(r, reply, *query),
            SubDlEvent::Fetched { extension, contents } => after_fetch(r, extension@, contents@),
        },
{
    match event {
        SubDlEvent::Start => SubDlAction::Search {
            url: string_from("https://api.subdl.com/api/v1/subtitles"),
            params: subdl_params(api_key, query),
        },
        SubDlEvent::SearchReply(reply) => {
            if !reply.status {
                let message = match reply.error {
                    Some(e) => e,
                    None => string_from("unknown API error"),
                };
                return SubDlAction::Fail(SubDlFailure::Api(message));
            }
            match first_candidate(&reply, query) {
                Some(candidate) => SubDlAction::Fetch {
                    url: absolute_download_url(candidate.url.as_str()),
                    extension: candidate.extension,
                },
                None => SubDlAction::NotFound,
            }
        },
        SubDlEvent::Fetched { extension, contents } => {
            if looks_like_zip(contents.as_slice()) {
                match extract_subtitle(contents.as_slice()) {
                    Ok((e, d)) => SubDlAction::Store {
                        extension: e,
                        contents: d,
                        name: string_from("Türkçe (SubDL)"),
                    },
                    Err(ArchiveError::Archive(e)) => SubDlAction::Fail(SubDlFailure::Archive(e)),
                    Err(ArchiveError::Read(e)) => SubDlAction::Fail(SubDlFailure::Read(e)),
                    Err(ArchiveError::MissingSubtitle) => SubDlAction::Fail(
                        SubDlFailure::MissingSubtitle,
                    ),
                }
            } else {
                SubDlAction::Store { extension, contents, name: string_from("Türkçe (SubDL)") }
            }
        },
    }
}

// ---------------------------------------------------------------------------
// Configuration
// ---------------------------------------------------------------------------

/// Where the SubDL API key is stored, relative to the configuration directory.
pub open spec fn subdl_key_file() -> Seq<char> {
    "moviebox-tui/subdl_api_key"@
}

/// The path of the SubDL key file, from the value of `XDG_CONFIG_HOME` and
/// the home directory.
pub fn subdl_key_path(xdg_config_home: Option<String>, home: Option<String>) -> (r: Option<String>)
    ensures
        opt_view(r) == config_file_path(xdg_root(opt_view(xdg_config_home)), opt_view(home), subdl_key_file()),
{
    config_file_path_from(config_root_from(xdg_config_home), home, "moviebox-tui/subdl_api_key")
}

} // verus!
