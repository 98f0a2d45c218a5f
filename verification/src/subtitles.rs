//! Subtitle options: recognising Turkish captions, reading the MovieBox
//! caption list, and building the choices offered to the player.

use vstd::prelude::*;
use vstd::utf8::encode_utf8;
use crate::digest::{hex_lower, hex_string, md5, md5_digest};
use crate::json::{json_array, json_get, json_str, JsonValue};
use crate::paths::{join_path, path_join};
use crate::text::{
    ascii_lower, chars_contain, chars_equal, chars_of, copy_string, decimal, push_decimal, push_str,
    seq_contains, str_equal, string_from, string_of, to_ascii_lowercase, to_lowercase, trim,
    trim_whitespace, unicode_lowercase,
};

verus! {

/// A subtitle the player can load: a display name and a URL or local path.
#[derive(Debug, Clone, PartialEq, Eq)]
pub struct SubtitleOption {
    pub name: String,
    pub url: String,
}

impl View for SubtitleOption {
    type V = (Seq<char>, Seq<char>);

    open spec fn view(&self) -> (Seq<char>, Seq<char>) {
        (self.name@, self.url@)
    }
}

/// What is being watched: a movie, or an episode of a series.
#[derive(Debug, Clone, PartialEq, Eq)]
pub struct SubtitleQuery {
    pub title: String,
    pub year: Option<u16>,
    pub season: Option<usize>,
    pub episode: Option<usize>,
}

/// The views of a sequence of subtitle options.
pub open spec fn option_views(options: Seq<SubtitleOption>) -> Seq<(Seq<char>, Seq<char>)> {
    options.map_values(|o: SubtitleOption| o@)
}

/// A caption label that is already trimmed and lower-cased names Turkish.
pub open spec fn is_turkish_normalized(n: Seq<char>) -> bool {
    ||| n == "tr"@
    ||| n == "tur"@
    ||| seq_contains(n, "turkish"@)
    ||| seq_contains(n, "türkçe"@)
}

/// A caption label names Turkish: after trimming and lower-casing it is
/// `tr` or `tur`, or it contains `turkish` or `türkçe`.
pub open spec fn is_turkish(label: Seq<char>) -> bool {
    is_turkish_normalized(unicode_lowercase(trim(label)))
}

/// Whether a trimmed, lower-cased label names Turkish.
pub fn is_turkish_normalized_label(normalized: &str) -> (r: bool)
    ensures
        r == is_turkish_normalized(normalized@),
{
    let n = chars_of(normalized);
    let tr = chars_of("tr");
    let tur = chars_of("tur");
    let turkish = chars_of("turkish");
    let turkce = chars_of("türkçe");
    chars_equal(n.as_slice(), tr.as_slice()) || chars_equal(n.as_slice(), tur.as_slice())
        || chars_contain(n.as_slice(), turkish.as_slice()) || chars_contain(
        n.as_slice(),
        turkce.as_slice(),
    )
}

/// Whether a caption label names Turkish (`Türkçe`, `Turkish`, `tr`, `tur`, ...).
pub fn is_turkish_label(label: &str) -> (r: bool)
    ensures
        r == is_turkish(label@),
{
    let trimmed = trim_whitespace(label);
    let normalized = to_lowercase(trimmed.as_str());
    is_turkish_normalized_label(normalized.as_str())
}

/// Some option in `options` has a Turkish name.
pub open spec fn any_turkish(options: Seq<(Seq<char>, Seq<char>)>) -> bool {
    exists|i: int| 0 <= i < options.len() && is_turkish(#[trigger] options[i].0)
}

/// Whether any of the subtitles is Turkish.
pub fn has_turkish(subtitles: &[SubtitleOption]) -> (r: bool)
    ensures
        r == any_turkish(option_views(subtitles@)),
{
    let mut i: usize = 0;
    while i < subtitles.len()
        invariant
            i <= subtitles@.len(),
            forall|k: int| 0 <= k < i ==> !is_turkish(#[trigger] subtitles@[k].name@),
        decreases subtitles@.len() - i,
    {
        if is_turkish_label(subtitles[i].name.as_str()) {
            assert(option_views(subtitles@)[i as int].0 == subtitles@[i as int].name@);
            return true;
        }
        i = i + 1;
    }
    assert forall|k: int| 0 <= k < option_views(subtitles@).len() implies !is_turkish(
        #[trigger] option_views(subtitles@)[k].0,
    ) by {
        assert(option_views(subtitles@)[k].0 == subtitles@[k].name@);
    }
    false
}

/// The choice that disables subtitles.
pub open spec fn none_choice() -> (Seq<char>, Seq<char>) {
    ("None"@, Seq::<char>::empty())
}

/// The choices offered for `options`: each option as (name, url), with the
/// "None" choice last when a Turkish option exists (so a Turkish option comes
/// first and is selected by default) and first otherwise.
pub open spec fn choices(options: Seq<(Seq<char>, Seq<char>)>) -> Seq<(Seq<char>, Seq<char>)> {
    if any_turkish(options) {
        options.push(none_choice())
    } else {
        seq![none_choice()] + options
    }
}

/// The views of a sequence of (name, url) pairs.
pub open spec fn pair_views(pairs: Seq<(String, String)>) -> Seq<(Seq<char>, Seq<char>)> {
    pairs.map_values(|p: (String, String)| (p.0@, p.1@))
}

/// The subtitle choices for the player, with the "None" choice placed after
/// Turkish subtitles or, when there are none, first.
pub fn options_with_none(subtitles: Vec<SubtitleOption>) -> (r: Vec<(String, String)>)
    ensures
        pair_views(r@) == choices(option_views(subtitles@)),
{
    let has_preferred = has_turkish(subtitles.as_slice());
    let ghost views = option_views(subtitles@);
    let mut options: Vec<(String, String)> = Vec::new();
    for subtitle in it: subtitles.into_iter()
        invariant
            it.seq() == subtitles@,
            views == option_views(subtitles@),
            pair_views(options@) == views.take(it.index() as int),
    {
        let ghost i = it.index() as int;
        let ghost prev = options@;
        assert(subtitle == subtitles@[i]);
        assert(views[i] == subtitle@);
        options.push((subtitle.name, subtitle.url));
        assert(pair_views(options@) =~= pair_views(prev).push(views[i]));
        assert(views.take(i + 1) =~= views.take(i).push(views[i]));
    }
    assert(views.take(views.len() as int) =~= views);
    let none = (string_from("None"), String::new());
    if has_preferred {
        options.push(none);
        assert(pair_views(options@) =~= views.push(none_choice()));
    } else {
        options.insert(0, none);
        assert(pair_views(options@) =~= seq![none_choice()] + views);
    }
    options
}

/// The caption entries of a MovieBox payload: its `extCaptions` array, or
/// nothing when that is missing or not an array.
pub open spec fn ext_captions(payload: JsonValue) -> Seq<JsonValue> {
    match json_get(payload, "extCaptions"@) {
        Some(v) => match json_array(v) {
            Some(items) => items,
            None => seq![],
        },
        None => seq![],
    }
}

/// The trimmed `url` of a caption entry, when it has a string `url`.
pub open spec fn caption_url(caption: JsonValue) -> Option<Seq<char>> {
    match json_get(caption, "url"@) {
        Some(v) => match json_str(v) {
            Some(u) => Some(trim(u)),
            None => None,
        },
        None => None,
    }
}

/// The `lanName` of a caption entry, or `Unknown`.
pub open spec fn caption_name(caption: JsonValue) -> Seq<char> {
    match json_get(caption, "lanName"@) {
        Some(v) => match json_str(v) {
            Some(n) => n,
            None => "Unknown"@,
        },
        None => "Unknown"@,
    }
}

/// Some option in `options` has the URL `url`.
pub open spec fn has_url(options: Seq<(Seq<char>, Seq<char>)>, url: Seq<char>) -> bool {
    exists|i: int| 0 <= i < options.len() && #[trigger] options[i].1 == url
}

/// The options read from caption entries, in order: an entry counts when its
/// trimmed URL is non-empty and no earlier counted entry has the same URL.
pub open spec fn collect_captions(captions: Seq<JsonValue>) -> Seq<(Seq<char>, Seq<char>)>
    decreases captions.len(),
{
    if captions.len() == 0 {
        seq![]
    } else {
        let earlier = collect_captions(captions.drop_last());
        let caption = captions.last();
        match caption_url(caption) {
            Some(u) => if u.len() > 0 && !has_url(earlier, u) {
                earlier.push((caption_name(caption), u))
            } else {
                earlier
            },
            None => earlier,
        }
    }
}

/// The options with Turkish names (`want == true`) or with other names
/// (`want == false`), in their original order.
pub open spec fn options_where_turkish(options: Seq<(Seq<char>, Seq<char>)>, want: bool) -> Seq<
    (Seq<char>, Seq<char>),
>
    decreases options.len(),
{
    if options.len() == 0 {
        seq![]
    } else {
        let earlier = options_where_turkish(options.drop_last(), want);
        if is_turkish(options.last().0) == want {
            earlier.push(options.last())
        } else {
            earlier
        }
    }
}

/// The options with Turkish names first, each group in its original order
/// (a stable sort that puts Turkish first).
pub open spec fn turkish_first(options: Seq<(Seq<char>, Seq<char>)>) -> Seq<(Seq<char>, Seq<char>)> {
    options_where_turkish(options, true) + options_where_turkish(options, false)
}

/// The subtitle options of a MovieBox payload.
pub open spec fn moviebox_options(payload: JsonValue) -> Seq<(Seq<char>, Seq<char>)> {
    turkish_first(collect_captions(ext_captions(payload)))
}

/// Whether some option already has the URL `url`.
fn has_url_exec(options: &Vec<SubtitleOption>, url: &String) -> (r: bool)
    ensures
        r == has_url(option_views(options@), url@),
{
    let mut i: usize = 0;
    while i < options.len()
        invariant
            i <= options@.len(),
            forall|k: int| 0 <= k < i ==> options@[k].url@ != url@,
        decreases options@.len() - i,
    {
        if str_equal(options[i].url.as_str(), url.as_str()) {
            assert(option_views(options@)[i as int].1 == url@);
            return true;
        }
        i = i + 1;
    }
    assert forall|k: int| 0 <= k < option_views(options@).len() implies #[trigger] option_views(
        options@,
    )[k].1 != url@ by {
        assert(option_views(options@)[k].1 == options@[k].url@);
    }
    false
}

/// A copy of a subtitle option.
fn copy_option(o: &SubtitleOption) -> (r: SubtitleOption)
    ensures
        r@ == o@,
{
    SubtitleOption { name: copy_string(&o.name), url: copy_string(&o.url) }
}

/// The options with Turkish names first, keeping the order within each group.
fn put_turkish_first(options: &Vec<SubtitleOption>) -> (r: Vec<SubtitleOption>)
    ensures
        option_views(r@) == turkish_first(option_views(options@)),
{
    let ghost views = option_views(options@);
    let mut turkish: Vec<SubtitleOption> = Vec::new();
    let mut others: Vec<SubtitleOption> = Vec::new();
    let mut i: usize = 0;
    while i < options.len()
        invariant
            views == option_views(options@),
            i <= options@.len(),
            option_views(turkish@) == options_where_turkish(views.take(i as int), true),
            option_views(others@) == options_where_turkish(views.take(i as int), false),
        decreases options@.len() - i,
    {
        let ghost prev_t = turkish@;
        let ghost prev_o = others@;
        assert(views.take(i + 1).drop_last() =~= views.take(i as int));
        assert(views.take(i + 1).last() == options@[i as int]@);
        let o = copy_option(&options[i]);
        if is_turkish_label(options[i].name.as_str()) {
            turkish.push(o);
            assert(option_views(turkish@) =~= option_views(prev_t).push(o@));
        } else {
            others.push(o);
            assert(option_views(others@) =~= option_views(prev_o).push(o@));
        }
        i = i + 1;
    }
    assert(views.take(i as int) =~= views);
    let ghost t = turkish@;
    let ghost n = others@;
    turkish.append(&mut others);
    assert(option_views(turkish@) =~= option_views(t) + option_views(n));
    turkish
}

/// The subtitle options of a MovieBox payload: the entries of its
/// `extCaptions` array that have a non-empty URL, the first entry for each
/// URL, with Turkish entries moved to the top.
pub fn moviebox_subtitles(payload: &JsonValue) -> (r: Vec<SubtitleOption>)
    ensures
        option_views(r@) == moviebox_options(*payload),
{
    let mut collected: Vec<SubtitleOption> = Vec::new();
    let items: Option<&Vec<JsonValue>> = match payload.get("extCaptions") {
        Some(v) => v.as_array(),
        None => None,
    };
    let ghost captions = ext_captions(*payload);
    if let Some(items) = items {
        assert(items@ == captions);
        let mut i: usize = 0;
        while i < items.len()
            invariant
                items@ == captions,
                i <= items@.len(),
                option_views(collected@) == collect_captions(captions.take(i as int)),
            decreases items@.len() - i,
        {
            let caption = &items[i];
            let ghost prev = collected@;
            assert(captions.take(i + 1).drop_last() =~= captions.take(i as int));
            assert(captions.take(i + 1).last() == *caption);
            let raw_url: Option<&str> = match caption.get("url") {
                Some(v) => v.as_str(),
                None => None,
            };
            if let Some(raw_url) = raw_url {
                let url = trim_whitespace(raw_url);
                if url.as_str().unicode_len() > 0 && !has_url_exec(&collected, &url) {
                    let name = match caption.get("lanName") {
                        Some(v) => match v.as_str() {
                            Some(n) => string_from(n),
                            None => string_from("Unknown"),
                        },
                        None => string_from("Unknown"),
                    };
                    let o = SubtitleOption { name, url };
                    collected.push(o);
                    assert(option_views(collected@) =~= option_views(prev).push(o@));
                }
            }
            i = i + 1;
        }
        assert(captions.take(i as int) =~= captions);
    } else {
        assert(captions =~= seq![]);
        assert(option_views(collected@) =~= collect_captions(captions));
    }
    put_turkish_first(&collected)
}

// ---------------------------------------------------------------------------
// Cache keys and cache files
// ---------------------------------------------------------------------------

/// The decimal form of an optional number, or nothing.
pub open spec fn optional_decimal(v: Option<nat>) -> Seq<char> {
    match v {
        Some(n) => decimal(n),
        None => seq![],
    }
}

/// The year of a query as an optional number.
pub open spec fn year_number(y: Option<u16>) -> Option<nat> {
    match y {
        Some(n) => Some(n as nat),
        None => None,
    }
}

/// A season or episode number of a query as an optional number.
pub open spec fn count_number(c: Option<usize>) -> Option<nat> {
    match c {
        Some(n) => Some(n as nat),
        None => None,
    }
}

/// The text that identifies a movie or episode in the cache:
/// `title|year|season|episode`, each number in decimal or empty when absent.
pub open spec fn cache_identity(
    title: Seq<char>,
    year: Option<u16>,
    season: Option<usize>,
    episode: Option<usize>,
) -> Seq<char> {
    title + "|"@ + optional_decimal(year_number(year)) + "|"@ + optional_decimal(
        count_number(season),
    ) + "|"@ + optional_decimal(count_number(episode))
}

/// The cache key for an identity text: the MD5 digest of its UTF-8 bytes in
/// lower-case hexadecimal.
pub open spec fn cache_key_of_identity(identity: Seq<char>) -> Seq<char> {
    hex_lower(md5_digest(encode_utf8(identity)))
}

/// The title of a query as the cache sees it: trimmed and lower-cased.
pub open spec fn normalized_title(query: SubtitleQuery) -> Seq<char> {
    unicode_lowercase(trim(query.title@))
}

/// The cache key of a query.
pub open spec fn cache_key_spec(query: SubtitleQuery) -> Seq<char> {
    cache_key_of_identity(
        cache_identity(normalized_title(query), query.year, query.season, query.episode),
    )
}

/// Appends `|` and then the optional number.
fn push_field(s: &mut String, v: Option<u64>)
    ensures
        final(s)@ == old(s)@ + "|"@ + optional_decimal(
            match v {
                Some(n) => Some(n as nat),
                None => None,
            },
        ),
{
    push_str(s, "|");
    if let Some(n) = v {
        push_decimal(s, n);
    } else {
        assert(s@ =~= old(s)@ + "|"@ + Seq::<char>::empty());
    }
}

/// The identity text of a movie or episode whose title is already trimmed
/// and lower-cased.
pub fn cache_identity_text(
    title: &str,
    year: Option<u16>,
    season: Option<usize>,
    episode: Option<usize>,
) -> (r: String)
    ensures
        r@ == cache_identity(title@, year, season, episode),
{
    let mut s = string_from(title);
    push_field(
        &mut s,
        match year {
            Some(y) => Some(y as u64),
            None => None,
        },
    );
    push_field(
        &mut s,
        match season {
            Some(n) => Some(n as u64),
            None => None,
        },
    );
    push_field(
        &mut s,
        match episode {
            Some(n) => Some(n as u64),
            None => None,
        },
    );
    assert(s@ =~= cache_identity(title@, year, season, episode));
    s
}

/// The cache key for an identity text: its MD5 digest in lower-case
/// hexadecimal, 32 characters long.
pub fn cache_key_for_identity(identity: &str) -> (r: String)
    ensures
        r@ == cache_key_of_identity(identity@),
        r@.len() == 32,
{
    let digest = md5(identity.as_bytes());
    let hex = hex_string(digest.as_slice());
    string_of(hex.as_slice())
}

/// The cache key of a query, 32 lower-case hexadecimal characters: the
/// digest of its identity text, which is the same for titles that agree
/// once trimmed and lower-cased and differs for each year, season and episode.
pub fn cache_key(query: &SubtitleQuery) -> (r: String)
    ensures
        r@ == cache_key_spec(*query),
        r@.len() == 32,
{
    let trimmed = trim_whitespace(query.title.as_str());
    let title = to_lowercase(trimmed.as_str());
    let identity = cache_identity_text(title.as_str(), query.year, query.season, query.episode);
    cache_key_for_identity(identity.as_str())
}

/// The view of an optional string.
pub open spec fn opt_view(v: Option<String>) -> Option<Seq<char>> {
    match v {
        Some(s) => Some(s@),
        None => None,
    }
}

/// The directory, under the user's cache directory, that holds cached subtitles.
pub open spec fn cache_dir_spec(cache_root: Option<Seq<char>>) -> Option<Seq<char>> {
    match cache_root {
        Some(root) => Some(path_join(root, "moviebox-tui/subtitles"@)),
        None => None,
    }
}

/// The subtitle cache directory for the user's cache directory, if there is one.
pub fn subtitle_cache_dir(cache_root: Option<String>) -> (r: Option<String>)
    ensures
        opt_view(r) == cache_dir_spec(opt_view(cache_root)),
{
    match cache_root {
        Some(root) => Some(join_path(root.as_str(), "moviebox-tui/subtitles")),
        None => None,
    }
}

/// The name of the cache file for a key and an extension: `key.extension`.
pub open spec fn cache_file_name(key: Seq<char>, extension: Seq<char>) -> Seq<char> {
    key + "."@ + extension
}

/// The path of the cache file for a query and an extension in `directory`.
pub open spec fn cache_path(directory: Seq<char>, query: SubtitleQuery, extension: Seq<char>) -> Seq<char> {
    path_join(directory, cache_file_name(cache_key_spec(query), extension))
}

/// The extensions a cached subtitle may have, in the order they are looked for.
pub open spec fn cached_extensions() -> Seq<Seq<char>> {
    seq!["srt"@, "vtt"@, "ass"@]
}

/// The path of the cache file for `key` and `extension` in `directory`.
fn cache_file_path(directory: &str, key: &String, extension: &str) -> (r: String)
    ensures
        r@ == path_join(directory@, cache_file_name(key@, extension@)),
{
    let mut file = copy_string(key);
    push_str(&mut file, ".");
    push_str(&mut file, extension);
    join_path(directory, file.as_str())
}

/// The paths where a cached subtitle for `query` may be, in the order they
/// are looked for: the `.srt`, `.vtt` and `.ass` files in `directory`.
pub fn cached_subtitle_paths(query: &SubtitleQuery, directory: &str) -> (r: Vec<String>)
    ensures
        r@.len() == 3,
        forall|i: int|
            0 <= i < 3 ==> (#[trigger] r@[i])@ == cache_path(
                directory@,
                *query,
                cached_extensions()[i],
            ),
{
    let key = cache_key(query);
    let mut paths: Vec<String> = Vec::new();
    paths.push(cache_file_path(directory, &key, "srt"));
    paths.push(cache_file_path(directory, &key, "vtt"));
    paths.push(cache_file_path(directory, &key, "ass"));
    paths
}

/// The name shown for a subtitle found in the cache.
pub open spec fn cached_name() -> Seq<char> {
    "Türkçe (önbellek)"@
}

/// The first of the cache files for `query` in `directory` that exists,
/// looking at `.srt`, `.vtt` and `.ass` in turn; `is_file[i]` tells whether
/// the `i`-th exists (a missing answer counts as no).
pub open spec fn first_cached_file(
    directory: Seq<char>,
    query: SubtitleQuery,
    is_file: Seq<bool>,
    from: nat,
) -> Option<Seq<char>>
    decreases 3 - from,
{
    if from >= 3 {
        None
    } else if from < is_file.len() && is_file[from as int] {
        Some(cache_path(directory, query, cached_extensions()[from as int]))
    } else {
        first_cached_file(directory, query, is_file, from + 1)
    }
}

/// The cached Turkish subtitle for `query`: the first cache file that exists
/// in the cache directory, when there is a cache directory.
pub open spec fn cached_lookup(directory: Option<Seq<char>>, query: SubtitleQuery, is_file: Seq<
    bool,
>) -> Option<(Seq<char>, Seq<char>)> {
    match directory {
        Some(d) => match first_cached_file(d, query, is_file, 0) {
            Some(path) => Some((cached_name(), path)),
            None => None,
        },
        None => None,
    }
}

/// The Turkish subtitle cached earlier for `query`, if any. `directory` is
/// the subtitle cache directory, when there is one, and `is_file[i]` tells
/// whether the `i`-th path of `cached_subtitle_paths` exists as a file.
pub fn cached_turkish(query: &SubtitleQuery, directory: Option<&str>, is_file: &[bool]) -> (r:
    Option<SubtitleOption>)
    ensures
        match r {
            Some(o) => cached_lookup(
                match directory {
                    Some(d) => Some(d@),
                    None => None,
                },
                *query,
                is_file@,
            ) == Some(o@),
            None => cached_lookup(
                match directory {
                    Some(d) => Some(d@),
                    None => None,
                },
                *query,
                is_file@,
            ) is None,
        },
{
    let dir = match directory {
        Some(d) => d,
        None => {
            return None;
        },
    };
    let paths = cached_subtitle_paths(query, dir);
    let mut i: usize = 0;
    while i < 3
        invariant
            directory == Some(dir),
            paths@.len() == 3,
            forall|k: int|
                0 <= k < 3 ==> (#[trigger] paths@[k])@ == cache_path(
                    dir@,
                    *query,
                    cached_extensions()[k],
                ),
            i <= 3,
            first_cached_file(dir@, *query, is_file@, 0) == first_cached_file(
                dir@,
                *query,
                is_file@,
                i as nat,
            ),
        decreases 3 - i,
    {
        if i < is_file.len() && is_file[i] {
            assert(first_cached_file(dir@, *query, is_file@, i as nat) == Some(
                paths@[i as int]@,
            ));
            let o = SubtitleOption {
                name: string_from("Türkçe (önbellek)"),
                url: copy_string(&paths[i]),
            };
            return Some(o);
        }
        i = i + 1;
    }
    None
}

/// The extension a subtitle is cached under: `vtt` for WebVTT, `ass` for
/// ASS and SSA, and `srt` for everything else (compared ignoring ASCII case).
pub open spec fn cache_extension(extension: Seq<char>) -> Seq<char> {
    let e = ascii_lower(extension);
    if e == "vtt"@ {
        "vtt"@
    } else if e == "ass"@ || e == "ssa"@ {
        "ass"@
    } else {
        "srt"@
    }
}

/// The extension a subtitle with `extension` is cached under.
pub fn normalize_cache_extension(extension: &str) -> (r: &'static str)
    ensures
        r@ == cache_extension(extension@),
{
    let lower = to_ascii_lowercase(extension);
    if str_equal(lower.as_str(), "vtt") {
        "vtt"
    } else if str_equal(lower.as_str(), "ass") || str_equal(lower.as_str(), "ssa") {
        "ass"
    } else {
        "srt"
    }
}

/// Where a downloaded subtitle for `query` is cached in `directory`, as the
/// option that plays it: named `name`, with the cache file's path as URL.
/// The caller writes the subtitle to that path.
pub fn cache_subtitle(query: &SubtitleQuery, extension: &str, name: &str, directory: &str) -> (r:
    SubtitleOption)
    ensures
        r@ == (name@, cache_path(directory@, *query, cache_extension(extension@))),
{
    let key = cache_key(query);
    let extension = normalize_cache_extension(extension);
    SubtitleOption { name: string_from(name), url: cache_file_path(directory, &key, extension) }
}

// ---------------------------------------------------------------------------
// Configuration
// ---------------------------------------------------------------------------

/// A configuration file's path: `rel` under the configuration directory,
/// which is `config_root` or else `.config` in the home directory.
pub open spec fn config_file_path(
    config_root: Option<Seq<char>>,
    home: Option<Seq<char>>,
    rel: Seq<char>,
) -> Option<Seq<char>> {
    match config_root {
        Some(root) => Some(path_join(root, rel)),
        None => match home {
            Some(h) => Some(path_join(path_join(h, ".config"@), rel)),
            None => None,
        },
    }
}

/// A configuration file's path, from the configuration root and the home directory.
pub fn config_file_path_from(config_root: Option<String>, home: Option<String>, rel: &str) -> (r:
    Option<String>)
    ensures
        opt_view(r) == config_file_path(opt_view(config_root), opt_view(home), rel@),
{
    let root = match config_root {
        Some(root) => Some(root),
        None => match home {
            Some(h) => Some(join_path(h.as_str(), ".config")),
            None => None,
        },
    };
    match root {
        Some(root) => Some(join_path(root.as_str(), rel)),
        None => None,
    }
}

/// Where the OpenSubtitles API key is stored, relative to the configuration directory.
pub open spec fn opensubtitles_key_file() -> Seq<char> {
    "moviebox-tui/opensubtitles_api_key"@
}

/// The path of the OpenSubtitles key file (the one the installer writes).
pub fn config_key_path_from(config_root: Option<String>, home: Option<String>) -> (r: Option<
    String,
>)
    ensures
        opt_view(r) == config_file_path(
            opt_view(config_root),
            opt_view(home),
            opensubtitles_key_file(),
        ),
{
    config_file_path_from(config_root, home, "moviebox-tui/opensubtitles_api_key")
}

/// The configuration root given by `XDG_CONFIG_HOME`, unless it is empty.
pub open spec fn xdg_root(xdg_config_home: Option<Seq<char>>) -> Option<Seq<char>> {
    match xdg_config_home {
        Some(v) => if v.len() > 0 {
            Some(v)
        } else {
            None
        },
        None => None,
    }
}

/// `XDG_CONFIG_HOME` as a configuration root, unless it is empty.
pub fn config_root_from(xdg_config_home: Option<String>) -> (r: Option<String>)
    ensures
        opt_view(r) == xdg_root(opt_view(xdg_config_home)),
{
    match xdg_config_home {
        Some(v) => if v.as_str().unicode_len() > 0 {
            Some(v)
        } else {
            None
        },
        None => None,
    }
}

/// The path of the OpenSubtitles key file, from the value of
/// `XDG_CONFIG_HOME` and the home directory.
pub fn config_key_path(xdg_config_home: Option<String>, home: Option<String>) -> (r: Option<String>)
    ensures
        opt_view(r) == config_file_path(
            xdg_root(opt_view(xdg_config_home)),
            opt_view(home),
            opensubtitles_key_file(),
        ),
{
    config_key_path_from(config_root_from(xdg_config_home), home)
}

/// A setting's value trimmed, unless it is blank.
pub open spec fn non_blank(value: Option<Seq<char>>) -> Option<Seq<char>> {
    match value {
        Some(v) => if trim(v).len() > 0 {
            Some(trim(v))
        } else {
            None
        },
        None => None,
    }
}

/// A setting's value trimmed, unless it is blank.
pub fn non_blank_value(value: Option<String>) -> (r: Option<String>)
    ensures
        opt_view(r) == non_blank(opt_view(value)),
{
    match value {
        Some(v) => {
            let t = trim_whitespace(v.as_str());
            if t.as_str().unicode_len() > 0 {
                Some(t)
            } else {
                None
            }
        },
        None => None,
    }
}

/// The API key from the environment variable's value or, when that is
/// missing or blank, from the key file's contents; trimmed, never blank.
pub open spec fn api_key_choice(env_value: Option<Seq<char>>, file_contents: Option<Seq<char>>) -> Option<
    Seq<char>,
> {
    match non_blank(env_value) {
        Some(k) => Some(k),
        None => non_blank(file_contents),
    }
}

/// The API key: the environment variable's value if it is not blank, else
/// the key file's contents if they are not blank; trimmed.
pub fn load_api_key(env_value: Option<String>, file_contents: Option<String>) -> (r: Option<String>)
    ensures
        opt_view(r) == api_key_choice(opt_view(env_value), opt_view(file_contents)),
{
    match non_blank_value(env_value) {
        Some(k) => Some(k),
        None => non_blank_value(file_contents),
    }
}

/// The user agent: the configured value if it is not blank (used as it is),
/// else `MovieBox-Tui v` and the version.
pub open spec fn user_agent_choice(configured: Option<Seq<char>>, version: Seq<char>) -> Seq<char> {
    match configured {
        Some(v) => if trim(v).len() > 0 {
            v
        } else {
            "MovieBox-Tui v"@ + version
        },
        None => "MovieBox-Tui v"@ + version,
    }
}

/// The user agent sent to OpenSubtitles.
pub fn user_agent(configured: Option<String>, version: &str) -> (r: String)
    ensures
        r@ == user_agent_choice(opt_view(configured), version@),
{
    if let Some(v) = configured {
        let t = trim_whitespace(v.as_str());
        if t.as_str().unicode_len() > 0 {
            return v;
        }
    }
    let mut s = string_from("MovieBox-Tui v");
    push_str(&mut s, version);
    s
}

} // verus!
