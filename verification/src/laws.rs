//! Properties that hold across the library's functions.

use vstd::prelude::*;
use crate::digest::{hex_lower, md5_digest};
use crate::json::{json_array, json_get, json_str, json_u64, JsonValue};
use crate::opensubtitles::{
    first_turkish_file_id, optional_param, result_file_id, result_is_turkish, search_file_id,
};
use crate::subdl::{
    choose_download, download_address, extraction, extraction_from, file_fits, first_fitting_file,
    media_type, number_matches, subdl_params_spec, supported, Extraction, Subtitle, UnpackedFile,
    MAX_SUBTITLE_BYTES,
};
use crate::archive::zip_file_count;
use crate::subtitles::{
    any_turkish, api_key_choice, cache_extension, cache_identity, cache_key_spec, cache_path,
    cached_extensions, cached_lookup, cached_name, choices, collect_captions, count_number, is_turkish, moviebox_options,
    is_turkish_normalized, non_blank, none_choice, normalized_title, optional_decimal,
    options_where_turkish, year_number, SubtitleQuery,
};
use crate::text::{
    decimal, digit_char, digits_value, is_digit, is_white_space, occurs_at, parse_usize,
    seq_contains, trim, trim_end, trim_start, unsigned_digits,
};
use vstd::utf8::encode_utf8;

verus! {

/// Every option kept by `options_where_turkish(s, want)` is an option of `s`
/// and has a Turkish name exactly when `want` holds.
proof fn lemma_partition_members(s: Seq<(Seq<char>, Seq<char>)>, want: bool)
    ensures
        forall|i: int|
            0 <= i < options_where_turkish(s, want).len() ==> s.contains(
                #[trigger] options_where_turkish(s, want)[i],
            ) && is_turkish(options_where_turkish(s, want)[i].0) == want,
    decreases s.len(),
{
    if s.len() > 0 {
        lemma_partition_members(s.drop_last(), want);
        let earlier = options_where_turkish(s.drop_last(), want);
        assert forall|i: int|
            0 <= i < options_where_turkish(s, want).len() implies s.contains(
            #[trigger] options_where_turkish(s, want)[i],
        ) && is_turkish(options_where_turkish(s, want)[i].0) == want by {
            if i < earlier.len() {
                let k = choose|k: int| 0 <= k < s.drop_last().len() && s.drop_last()[k] == earlier[i];
                assert(s[k] == earlier[i]);
            } else {
                assert(s[s.len() - 1] == s.last());
            }
        }
    }
}

/// URLs are pairwise distinct.
pub open spec fn urls_distinct(s: Seq<(Seq<char>, Seq<char>)>) -> bool {
    forall|i: int, j: int| 0 <= i < s.len() && 0 <= j < s.len() && i != j ==> s[i].1 != s[j].1
}

/// The options read from caption entries have non-empty, pairwise distinct URLs.
proof fn lemma_collected_urls(captions: Seq<JsonValue>)
    ensures
        urls_distinct(collect_captions(captions)),
        forall|i: int|
            0 <= i < collect_captions(captions).len() ==> (#[trigger] collect_captions(captions)[i]).1.len()
                > 0,
    decreases captions.len(),
{
    if captions.len() > 0 {
        lemma_collected_urls(captions.drop_last());
    }
}

/// A subsequence kept by `options_where_turkish` keeps URLs distinct.
proof fn lemma_partition_distinct(s: Seq<(Seq<char>, Seq<char>)>, want: bool)
    requires
        urls_distinct(s),
    ensures
        urls_distinct(options_where_turkish(s, want)),
    decreases s.len(),
{
    if s.len() > 0 {
        let rest = s.drop_last();
        assert(urls_distinct(rest)) by {
            assert forall|i: int, j: int|
                0 <= i < rest.len() && 0 <= j < rest.len() && i != j implies rest[i].1 != rest[j].1 by {
                assert(rest[i] == s[i] && rest[j] == s[j]);
            }
        }
        lemma_partition_distinct(rest, want);
        lemma_partition_members(rest, want);
        let earlier = options_where_turkish(rest, want);
        if is_turkish(s.last().0) == want {
            assert forall|i: int| 0 <= i < earlier.len() implies earlier[i].1 != s.last().1 by {
                assert(rest.contains(earlier[i]));
                let k = choose|k: int| 0 <= k < rest.len() && rest[k] == earlier[i];
                assert(s[k] == rest[k]);
                assert(s[s.len() - 1] == s.last());
            }
        }
    }
}

/// The subtitle options of any MovieBox payload put every Turkish option
/// before every other option, and have non-empty, pairwise distinct URLs.
pub proof fn lemma_moviebox_options_ordered_and_distinct(payload: JsonValue)
    ensures
        forall|i: int, j: int|
            0 <= i < j < moviebox_options(payload).len() && is_turkish(
                #[trigger] moviebox_options(payload)[j].0,
            ) ==> is_turkish(#[trigger] moviebox_options(payload)[i].0),
        urls_distinct(moviebox_options(payload)),
        forall|i: int|
            0 <= i < moviebox_options(payload).len() ==> (#[trigger] moviebox_options(payload)[i]).1.len()
                > 0,
{
    let c = collect_captions(crate::subtitles::ext_captions(payload));
    let t = options_where_turkish(c, true);
    let o = options_where_turkish(c, false);
    let all = moviebox_options(payload);
    assert(all == t + o);
    lemma_partition_members(c, true);
    lemma_partition_members(c, false);
    lemma_collected_urls(crate::subtitles::ext_captions(payload));
    lemma_partition_distinct(c, true);
    lemma_partition_distinct(c, false);
    assert forall|i: int, j: int|
        0 <= i < j < all.len() && is_turkish(#[trigger] all[j].0) implies is_turkish(
        #[trigger] all[i].0,
    ) by {
        if j >= t.len() {
            assert(all[j] == o[j - t.len()]);
        }
        if i < t.len() {
            assert(all[i] == t[i]);
        }
    }
    assert forall|i: int| 0 <= i < all.len() implies (#[trigger] all[i]).1.len() > 0 by {
        if i < t.len() {
            assert(all[i] == t[i]);
            assert(c.contains(t[i]));
        } else {
            assert(all[i] == o[i - t.len()]);
            assert(c.contains(o[i - t.len()]));
        }
    }
    assert forall|i: int, j: int|
        0 <= i < all.len() && 0 <= j < all.len() && i != j implies all[i].1 != all[j].1 by {
        if i < t.len() && j < t.len() {
            assert(all[i] == t[i] && all[j] == t[j]);
        } else if i >= t.len() && j >= t.len() {
            assert(all[i] == o[i - t.len()] && all[j] == o[j - t.len()]);
        } else {
            let (a, b) = if i < t.len() {
                (i, j)
            } else {
                (j, i)
            };
            assert(all[a] == t[a] && all[b] == o[b - t.len()]);
            let ka = choose|k: int| 0 <= k < c.len() && c[k] == t[a];
            let kb = choose|k: int| 0 <= k < c.len() && c[k] == o[b - t.len()];
            assert(is_turkish(c[ka].0) && !is_turkish(c[kb].0));
        }
    }
}

/// Turkish is selected by default: among the choices built from a MovieBox
/// payload, the first is a Turkish subtitle and "None" is the last when any
/// caption is Turkish; otherwise "None" is the first choice.
pub proof fn lemma_turkish_selected_by_default(payload: JsonValue)
    ensures
        any_turkish(moviebox_options(payload)) ==> is_turkish(choices(moviebox_options(payload))[0].0)
            && choices(moviebox_options(payload)).last() == none_choice(),
        !any_turkish(moviebox_options(payload)) ==> choices(moviebox_options(payload))[0]
            == none_choice(),
{
    let c = collect_captions(crate::subtitles::ext_captions(payload));
    let t = options_where_turkish(c, true);
    let o = options_where_turkish(c, false);
    let all = moviebox_options(payload);
    assert(all == t + o);
    lemma_partition_members(c, true);
    lemma_partition_members(c, false);
    if any_turkish(all) {
        let i = choose|i: int| 0 <= i < all.len() && is_turkish(#[trigger] all[i].0);
        if i >= t.len() {
            assert(all[i] == o[i - t.len()]);
        }
        assert(t.len() > 0);
        assert(all[0] == t[0]);
        assert(choices(all)[0] == all[0]);
    }
}


/// How a caption label (already trimmed and lower-cased) names Turkish: one
/// of more than three characters does so only by containing `turkish` or
/// `türkçe`, and one of at most three characters does so exactly when it is
/// `tr` or `tur`. So a label such as `chinese (traditional)`, which only
/// happens to hold the letters `tr`, is not Turkish.
pub proof fn lemma_turkish_label_words(n: Seq<char>)
    ensures
        n.len() > 3 && is_turkish_normalized(n) ==> seq_contains(n, "turkish"@) || seq_contains(
            n,
            "türkçe"@,
        ),
        n.len() <= 3 ==> (is_turkish_normalized(n) <==> (n == "tr"@ || n == "tur"@)),
        seq_contains(n, "turkish"@) || seq_contains(n, "türkçe"@) ==> is_turkish_normalized(n),
{
    reveal_strlit("tr");
    reveal_strlit("tur");
    reveal_strlit("turkish");
    reveal_strlit("türkçe");
    if seq_contains(n, "turkish"@) {
        let at = choose|at: int| #[trigger] occurs_at(n, "turkish"@, at);
        assert(n.len() >= 7);
    }
    if seq_contains(n, "türkçe"@) {
        let at = choose|at: int| #[trigger] occurs_at(n, "türkçe"@, at);
        assert(n.len() >= 6);
    }
}

/// A Turkish option anywhere in the list, not only at its head, makes the
/// list count as having Turkish subtitles: the choices are then the options
/// in their order with the "None" choice after them.
pub proof fn lemma_turkish_anywhere_puts_none_last(options: Seq<(Seq<char>, Seq<char>)>, i: int)
    requires
        0 <= i < options.len(),
        is_turkish(options[i].0),
    ensures
        any_turkish(options),
        choices(options) == options.push(none_choice()),
{
}

/// With no Turkish option anywhere, the list does not count as having
/// Turkish subtitles: the "None" choice comes first, then the options in
/// their order.
pub proof fn lemma_no_turkish_puts_none_first(options: Seq<(Seq<char>, Seq<char>)>)
    requires
        forall|i: int| 0 <= i < options.len() ==> !is_turkish(#[trigger] options[i].0),
    ensures
        !any_turkish(options),
        choices(options) == seq![none_choice()] + options,
{
}

// ---------------------------------------------------------------------------
// Decimal numbers
// ---------------------------------------------------------------------------

/// The decimal form of a number is a non-empty run of digits whose value is
/// the number.
proof fn lemma_decimal_digits(n: nat)
    ensures
        decimal(n).len() > 0,
        forall|i: int| 0 <= i < decimal(n).len() ==> is_digit(#[trigger] decimal(n)[i]),
        digits_value(decimal(n)) == n,
    decreases n,
{
    if n >= 10 {
        lemma_decimal_digits(n / 10);
        let d = decimal(n);
        assert(d.drop_last() =~= decimal(n / 10));
        assert(d.last() == digit_char(n % 10));
        assert(digit_char(n % 10) as int == 48 + n % 10);
        assert(n == (n / 10) * 10 + n % 10);
        assert(digits_value(d) == digits_value(d.drop_last()) * 10 + ((d.last() as int) - 48) as nat);
        assert(digits_value(d.drop_last()) == n / 10);
    } else {
        let d = decimal(n);
        assert(d.drop_last() =~= Seq::<char>::empty());
        assert(d.last() == digit_char(n));
        assert(digit_char(n) as int == 48 + n);
        assert(digits_value(d) == digits_value(d.drop_last()) * 10 + ((d.last() as int) - 48) as nat);
        assert(digits_value(d.drop_last()) == 0);
    }
}

/// Reading back the decimal form of a number gives the number: a season or
/// episode sent as a decimal string is parsed to itself.
pub proof fn lemma_parse_decimal_round_trip(n: usize)
    ensures
        parse_usize(decimal(n as nat)) == Some(n as nat),
{
    lemma_decimal_digits(n as nat);
    assert(unsigned_digits(decimal(n as nat)) == decimal(n as nat));
}

/// A file's season or episode given as the decimal string of the number
/// asked for matches it.
pub proof fn lemma_decimal_string_matches(v: JsonValue, expected: usize)
    requires
        json_str(v) == Some(decimal(expected as nat)),
    ensures
        number_matches(Some(v), Some(expected)),
{
    lemma_parse_decimal_round_trip(expected);
}

/// Different numbers have different decimal forms.
proof fn lemma_decimal_injective(a: nat, b: nat)
    requires
        decimal(a) == decimal(b),
    ensures
        a == b,
{
    lemma_decimal_digits(a);
    lemma_decimal_digits(b);
}

// ---------------------------------------------------------------------------
// Cache keys
// ---------------------------------------------------------------------------

/// The cache key is stable: queries whose titles agree once trimmed and
/// lower-cased, and that agree on year, season and episode, have the same key.
pub proof fn lemma_cache_key_stable(a: SubtitleQuery, b: SubtitleQuery)
    requires
        normalized_title(a) == normalized_title(b),
        a.year == b.year,
        a.season == b.season,
        a.episode == b.episode,
    ensures
        cache_key_spec(a) == cache_key_spec(b),
{
}

/// The optional decimal part of an identity holds no `|` and tells apart
/// every two different optional numbers.
proof fn lemma_optional_decimal(v: Option<nat>)
    ensures
        forall|i: int| 0 <= i < optional_decimal(v).len() ==> #[trigger] optional_decimal(v)[i] != '|',
        v is Some ==> optional_decimal(v).len() > 0,
        v is None ==> optional_decimal(v).len() == 0,
{
    if let Some(n) = v {
        lemma_decimal_digits(n);
    }
}

/// Splitting `x + "|" + y` at its only `|`: when `x` and `x2` hold no `|`,
/// `x + "|" + y == x2 + "|" + y2` gives `x == x2` and `y == y2`.
proof fn lemma_split_at_bar(x: Seq<char>, y: Seq<char>, x2: Seq<char>, y2: Seq<char>)
    requires
        forall|i: int| 0 <= i < x.len() ==> #[trigger] x[i] != '|',
        forall|i: int| 0 <= i < x2.len() ==> #[trigger] x2[i] != '|',
        x + seq!['|'] + y == x2 + seq!['|'] + y2,
    ensures
        x == x2,
        y == y2,
{
    let whole = x + seq!['|'] + y;
    let whole2 = x2 + seq!['|'] + y2;
    if x.len() < x2.len() {
        assert(whole[x.len() as int] == '|');
        assert(whole2[x.len() as int] == x2[x.len() as int]);
    } else if x2.len() < x.len() {
        assert(whole2[x2.len() as int] == '|');
        assert(whole[x2.len() as int] == x[x2.len() as int]);
    } else {
        assert(x =~= whole.subrange(0, x.len() as int));
        assert(x2 =~= whole2.subrange(0, x.len() as int));
        assert(y =~= whole.subrange(x.len() as int + 1, whole.len() as int));
        assert(y2 =~= whole2.subrange(x.len() as int + 1, whole.len() as int));
    }
}

/// The cache key is the MD5 digest, in lower-case hexadecimal, of the UTF-8
/// text `title|year|season|episode` of the query: its title trimmed and
/// lower-cased, then its year, season and episode, each in decimal or empty
/// when the query has none.
pub proof fn lemma_cache_key_format(q: SubtitleQuery)
    ensures
        cache_key_spec(q) == hex_lower(
            md5_digest(
                encode_utf8(
                    normalized_title(q) + "|"@ + optional_decimal(year_number(q.year)) + "|"@
                        + optional_decimal(count_number(q.season)) + "|"@ + optional_decimal(
                        count_number(q.episode),
                    ),
                ),
            ),
        ),
{
}

/// The cache identity is year-specific: two releases of the same title (same
/// season and episode, if any) from different years, or one with a year and
/// one without, have different identities, so their subtitles are cached
/// apart (up to collisions of MD5 itself).
pub proof fn lemma_cache_identity_year_specific(
    title: Seq<char>,
    year_a: Option<u16>,
    year_b: Option<u16>,
    season: Option<usize>,
    episode: Option<usize>,
)
    requires
        year_a != year_b,
    ensures
        cache_identity(title, year_a, season, episode) != cache_identity(
            title,
            year_b,
            season,
            episode,
        ),
{
    reveal_strlit("|");
    let ya = optional_decimal(year_number(year_a));
    let yb = optional_decimal(year_number(year_b));
    let rest = optional_decimal(count_number(season)) + seq!['|'] + optional_decimal(
        count_number(episode),
    );
    let ia = cache_identity(title, year_a, season, episode);
    let ib = cache_identity(title, year_b, season, episode);
    let head = title + seq!['|'];
    assert(ia =~= head + (ya + seq!['|'] + rest));
    assert(ib =~= head + (yb + seq!['|'] + rest));
    if ia == ib {
        assert(ya + seq!['|'] + rest =~= ia.subrange(head.len() as int, ia.len() as int));
        assert(yb + seq!['|'] + rest =~= ib.subrange(head.len() as int, ib.len() as int));
        lemma_optional_decimal(year_number(year_a));
        lemma_optional_decimal(year_number(year_b));
        lemma_split_at_bar(ya, rest, yb, rest);
        match (year_a, year_b) {
            (Some(x), Some(y)) => lemma_decimal_injective(x as nat, y as nat),
            _ => {},
        }
    }
}

/// The cache identity is episode-specific: two episodes of the same title
/// and year that differ in season or episode have different identities, so
/// their subtitles are cached apart (up to collisions of MD5 itself).
pub proof fn lemma_cache_identity_episode_specific(
    title: Seq<char>,
    year: Option<u16>,
    season_a: Option<usize>,
    episode_a: Option<usize>,
    season_b: Option<usize>,
    episode_b: Option<usize>,
)
    requires
        season_a != season_b || episode_a != episode_b,
    ensures
        cache_identity(title, year, season_a, episode_a) != cache_identity(
            title,
            year,
            season_b,
            episode_b,
        ),
{
    reveal_strlit("|");
    let sa = optional_decimal(count_number(season_a));
    let ea = optional_decimal(count_number(episode_a));
    let sb = optional_decimal(count_number(season_b));
    let eb = optional_decimal(count_number(episode_b));
    let head = title + "|"@ + optional_decimal(crate::subtitles::year_number(year)) + "|"@;
    let ia = cache_identity(title, year, season_a, episode_a);
    let ib = cache_identity(title, year, season_b, episode_b);
    assert(ia =~= head + (sa + seq!['|'] + ea));
    assert(ib =~= head + (sb + seq!['|'] + eb));
    if ia == ib {
        assert(sa + seq!['|'] + ea =~= ia.subrange(head.len() as int, ia.len() as int));
        assert(sb + seq!['|'] + eb =~= ib.subrange(head.len() as int, ib.len() as int));
        lemma_optional_decimal(count_number(season_a));
        lemma_optional_decimal(count_number(season_b));
        lemma_optional_decimal(count_number(episode_a));
        lemma_optional_decimal(count_number(episode_b));
        lemma_split_at_bar(sa, ea, sb, eb);
        match (season_a, season_b) {
            (Some(x), Some(y)) => lemma_decimal_injective(x as nat, y as nat),
            _ => {},
        }
        match (episode_a, episode_b) {
            (Some(x), Some(y)) => lemma_decimal_injective(x as nat, y as nat),
            _ => {},
        }
    }
}

/// A subtitle written to the cache is found again: the path `cache_subtitle`
/// gives for any extension is one of the paths `cached_subtitle_paths` gives
/// for the same query and directory.
pub proof fn lemma_cached_subtitle_is_looked_up(
    directory: Seq<char>,
    query: SubtitleQuery,
    extension: Seq<char>,
)
    ensures
        exists|i: int|
            0 <= i < 3 && cache_path(directory, query, cache_extension(extension)) == cache_path(
                directory,
                query,
                #[trigger] cached_extensions()[i],
            ),
{
    let e = cache_extension(extension);
    if e == "srt"@ {
        assert(cached_extensions()[0] == "srt"@);
    } else if e == "vtt"@ {
        assert(cached_extensions()[1] == "vtt"@);
    } else {
        assert(cached_extensions()[2] == "ass"@);
    }
}

/// The place of the cache file for a subtitle with `extension` in the order
/// in which cache files are looked for: 0 for `.srt`, 1 for `.vtt`, 2 for
/// `.ass`.
pub open spec fn cache_slot(extension: Seq<char>) -> int {
    let e = cache_extension(extension);
    if e == "srt"@ {
        0
    } else if e == "vtt"@ {
        1
    } else {
        2
    }
}

/// Replaying a title uses the cache: once the file written by
/// `cache_subtitle` (with any extension) exists, the lookup of
/// `cached_turkish` in that directory finds a cached Turkish subtitle; and
/// when no cache file that is looked for earlier exists (always so for
/// `.srt`), what it finds is exactly the written file.
pub proof fn lemma_written_subtitle_is_found(
    directory: Seq<char>,
    query: SubtitleQuery,
    extension: Seq<char>,
    is_file: Seq<bool>,
)
    requires
        cache_slot(extension) < is_file.len(),
        is_file[cache_slot(extension)],
    ensures
        cached_lookup(Some(directory), query, is_file) is Some,
        cached_lookup(Some(directory), query, is_file).unwrap().0 == cached_name(),
        (forall|j: int| 0 <= j < cache_slot(extension) ==> !#[trigger] is_file[j]) ==> cached_lookup(
            Some(directory),
            query,
            is_file,
        ) == Some((cached_name(), cache_path(directory, query, cache_extension(extension)))),
{
    reveal_strlit("srt");
    reveal_strlit("vtt");
    reveal_strlit("ass");
    let e = cache_extension(extension);
    let x = cached_extensions();
    assert(x[0] == "srt"@ && x[1] == "vtt"@ && x[2] == "ass"@);
    assert("srt"@ != "vtt"@ && "srt"@ != "ass"@ && "vtt"@ != "ass"@) by {
        assert("srt"@[0] != "vtt"@[0]);
        assert("srt"@[0] != "ass"@[0]);
        assert("vtt"@[0] != "ass"@[0]);
    }
    assert(e == "srt"@ || e == "vtt"@ || e == "ass"@);
    assert(x[cache_slot(extension)] == e);
    reveal_with_fuel(crate::subtitles::first_cached_file, 4);
}

// ---------------------------------------------------------------------------
// Settings
// ---------------------------------------------------------------------------

/// `trim_start(s)` is a suffix of `s` that does not start with white space.
proof fn lemma_trim_start(s: Seq<char>)
    ensures
        trim_start(s).is_suffix_of(s),
        trim_start(s).len() > 0 ==> !is_white_space(trim_start(s)[0]),
    decreases s.len(),
{
    if s.len() > 0 && is_white_space(s[0]) {
        lemma_trim_start(s.drop_first());
        let t = trim_start(s.drop_first());
        assert(t =~= s.subrange(s.len() - t.len(), s.len() as int));
    } else {
        assert(s =~= s.subrange(0, s.len() as int));
    }
}

/// `trim_end(s)` is a prefix of `s` that does not end with white space.
proof fn lemma_trim_end(s: Seq<char>)
    ensures
        trim_end(s).is_prefix_of(s),
        trim_end(s).len() > 0 ==> !is_white_space(trim_end(s).last()),
    decreases s.len(),
{
    if s.len() > 0 && is_white_space(s.last()) {
        lemma_trim_end(s.drop_last());
        let t = trim_end(s.drop_last());
        assert(t =~= s.subrange(0, t.len() as int));
    } else {
        assert(s =~= s.subrange(0, s.len() as int));
    }
}

/// Trimming a trimmed text changes nothing.
pub proof fn lemma_trim_idempotent(s: Seq<char>)
    ensures
        trim(trim(s)) == trim(s),
{
    let u = trim_start(s);
    let v = trim(s);
    lemma_trim_start(s);
    lemma_trim_end(u);
    if v.len() > 0 {
        assert(v[0] == u[0]);
        assert(trim_start(v) == v);
        assert(trim_end(v) == v);
    } else {
        assert(trim_start(v) == v);
    }
}

/// An API key taken from the settings is never blank and has no white space
/// at either end; the environment variable wins over the key file.
pub proof fn lemma_api_key_trimmed(env_value: Option<Seq<char>>, file_contents: Option<Seq<char>>)
    ensures
        api_key_choice(env_value, file_contents) matches Some(k) ==> k.len() > 0 && trim(k) == k,
        non_blank(env_value) is Some ==> api_key_choice(env_value, file_contents) == non_blank(
            env_value,
        ),
{
    if let Some(v) = env_value {
        lemma_trim_idempotent(v);
    }
    if let Some(v) = file_contents {
        lemma_trim_idempotent(v);
    }
}

// ---------------------------------------------------------------------------
// SubDL
// ---------------------------------------------------------------------------

/// The first fitting file fits.
proof fn lemma_first_fitting_file(files: Seq<UnpackedFile>, query: SubtitleQuery)
    ensures
        first_fitting_file(files, query) matches Some(f) ==> file_fits(f, query),
    decreases files.len(),
{
    if files.len() > 0 && !file_fits(files[0], query) {
        lemma_first_fitting_file(files.drop_first(), query);
    }
}

/// The file chosen from a SubDL reply has a URL and a supported extension.
pub proof fn lemma_chosen_download_supported(subtitles: Seq<Subtitle>, query: SubtitleQuery)
    ensures
        choose_download(subtitles, query) matches Some((url, extension)) ==> url.len() > 0
            && supported(extension),
    decreases subtitles.len(),
{
    reveal_strlit("srt");
    if subtitles.len() > 0 {
        lemma_first_fitting_file(subtitles[0].unpack_files@, query);
        lemma_chosen_download_supported(subtitles.drop_first(), query);
    }
}

/// Looking from `index` on, a subtitle taken out of an archive has a
/// supported extension and at most 10 MiB.
proof fn lemma_extraction_from(bytes: Seq<u8>, index: nat)
    ensures
        extraction_from(bytes, index) matches Extraction::Found(e, d) ==> supported(e) && d.len()
            <= MAX_SUBTITLE_BYTES,
    decreases zip_file_count(bytes) - index,
{
    if index < zip_file_count(bytes) {
        lemma_extraction_from(bytes, index + 1);
    }
}

/// A subtitle taken out of an archive has a supported extension and at most 10 MiB.
pub proof fn lemma_extracted_subtitle_supported(bytes: Seq<u8>)
    ensures
        extraction(bytes) matches Extraction::Found(e, d) ==> supported(e) && d.len()
            <= MAX_SUBTITLE_BYTES,
{
    lemma_extraction_from(bytes, 0);
}

/// An address built for a download is left as it is when built again.
pub proof fn lemma_download_address_idempotent(url: Seq<char>)
    ensures
        download_address(download_address(url)) == download_address(url),
{
    reveal_strlit("https://");
    reveal_strlit("http://");
    reveal_strlit("https://dl.subdl.com/");
    let a = download_address(url);
    if !("https://"@.is_prefix_of(url) || "http://"@.is_prefix_of(url)) {
        assert("https://"@ =~= a.subrange(0, 8));
    }
}

/// A file's season or episode given as a JSON value that is not an integer
/// matches a requested number only when it is a string that reads as that
/// very number.
pub proof fn lemma_number_text_must_read_as_requested(v: JsonValue, expected: usize)
    requires
        json_u64(v) is None,
        number_matches(Some(v), Some(expected)),
    ensures
        json_str(v) is Some,
        parse_usize(json_str(v).unwrap()) == Some(expected as nat),
{
}

/// A file's season or episode given as a JSON integer matches a requested
/// number exactly when it is that number; and a file that gives no season or
/// episode, or a query that asks for none, always fits.
pub proof fn lemma_number_value_matches_only_itself(v: JsonValue, m: int, expected: usize)
    requires
        json_u64(v) == Some(m),
    ensures
        number_matches(Some(v), Some(expected)) <==> m == expected,
        number_matches(None, Some(expected)),
        number_matches(Some(v), None),
{
}

/// A file's season or episode given as the decimal string of a number
/// matches a requested number exactly when the two numbers are equal: the
/// first episode of a season pack does not match a request for the second.
pub proof fn lemma_decimal_string_matches_only_its_number(v: JsonValue, m: usize, expected: usize)
    requires
        json_str(v) == Some(decimal(m as nat)),
    ensures
        number_matches(Some(v), Some(expected)) <==> m == expected,
{
    lemma_parse_decimal_round_trip(m);
}

/// `params` holds a parameter called `name` exactly when `v` is a number,
/// and then every parameter of that name carries the number in decimal.
pub open spec fn carries_number(
    params: Seq<(Seq<char>, Seq<char>)>,
    name: Seq<char>,
    v: Option<nat>,
) -> bool {
    &&& forall|i: int|
        0 <= i < params.len() && (#[trigger] params[i]).0 == name ==> (v matches Some(n) && params[i].1
            == decimal(n))
    &&& v matches Some(n) ==> exists|i: int|
        0 <= i < params.len() && #[trigger] params[i] == (name, decimal(n))
}

/// The SubDL search asks for the query's own numbers, each under its name:
/// its year under `year`, its season under `season_number` and its episode
/// under `episode_number`, and none of them when the query has none. It
/// starts with the API key and the title, and asks for Turkish subtitles of
/// a series when a season is given and of a movie otherwise.
pub proof fn lemma_subdl_params_carry_numbers(api_key: Seq<char>, query: SubtitleQuery)
    ensures
        subdl_params_spec(api_key, query)[0] == ("api_key"@, api_key),
        subdl_params_spec(api_key, query)[1] == ("film_name"@, query.title@),
        subdl_params_spec(api_key, query)[2] == ("type"@, if query.season is Some {
            "tv"@
        } else {
            "movie"@
        }),
        subdl_params_spec(api_key, query)[3] == ("languages"@, "TR"@),
        carries_number(subdl_params_spec(api_key, query), "year"@, year_number(query.year)),
        carries_number(
            subdl_params_spec(api_key, query),
            "season_number"@,
            count_number(query.season),
        ),
        carries_number(
            subdl_params_spec(api_key, query),
            "episode_number"@,
            count_number(query.episode),
        ),
{
    reveal_strlit("api_key");
    reveal_strlit("film_name");
    reveal_strlit("type");
    reveal_strlit("languages");
    reveal_strlit("subs_per_page");
    reveal_strlit("unpack");
    reveal_strlit("client");
    reveal_strlit("year");
    reveal_strlit("season_number");
    reveal_strlit("episode_number");
    let p = subdl_params_spec(api_key, query);
    let fixed = seq![
        ("api_key"@, api_key),
        ("film_name"@, query.title@),
        ("type"@, media_type(query)),
        ("languages"@, "TR"@),
        ("subs_per_page"@, "10"@),
        ("unpack"@, "1"@),
        ("client"@, "moviebox-tui"@),
    ];
    let y = optional_param("year"@, year_number(query.year));
    let sn = optional_param("season_number"@, count_number(query.season));
    let en = optional_param("episode_number"@, count_number(query.episode));
    assert(p =~= fixed + y + sn + en);
    assert("type"@ != "year"@) by {
        assert("type"@[1] != "year"@[1]);
    }
    assert("subs_per_page"@ != "season_number"@) by {
        assert("subs_per_page"@[1] != "season_number"@[1]);
    }
    let year = "year"@;
    let season = "season_number"@;
    let episode = "episode_number"@;
    assert(year.len() == 4 && season.len() == 13 && episode.len() == 14);
    assert(season != episode && year != season && year != episode);
    assert forall|k: int| 0 <= k < fixed.len() implies (#[trigger] fixed[k]).0 != year
        && fixed[k].0 != season && fixed[k].0 != episode by {
        if k == 0 {
            assert(fixed[k].0.len() == 7);
        } else if k == 1 {
            assert(fixed[k].0.len() == 9);
        } else if k == 2 {
            assert(fixed[k].0 == "type"@);
        } else if k == 3 {
            assert(fixed[k].0.len() == 9);
        } else if k == 4 {
            assert(fixed[k].0 == "subs_per_page"@);
        } else {
            assert(fixed[k].0.len() == 6);
        }
    }
    let fy = fixed + y;
    let fys = fixed + y + sn;
    let se = sn + en;
    assert forall|k: int| 0 <= k < y.len() implies (#[trigger] y[k]).0 == year by {}
    assert forall|k: int| 0 <= k < sn.len() implies (#[trigger] sn[k]).0 == season by {}
    assert forall|k: int| 0 <= k < en.len() implies (#[trigger] en[k]).0 == episode by {}
    assert forall|k: int| 0 <= k < fy.len() implies (#[trigger] fy[k]).0 != season
        && fy[k].0 != episode by {
        if k < fixed.len() {
            assert(fy[k] == fixed[k]);
        } else {
            assert(fy[k] == y[k - fixed.len()]);
        }
    }
    assert forall|k: int| 0 <= k < fys.len() implies (#[trigger] fys[k]).0 != episode by {
        if k < fy.len() {
            assert(fys[k] == fy[k]);
        } else {
            assert(fys[k] == sn[k - fy.len()]);
        }
    }
    assert forall|k: int| 0 <= k < se.len() implies (#[trigger] se[k]).0 != year by {
        if k < sn.len() {
            assert(se[k] == sn[k]);
        } else {
            assert(se[k] == en[k - sn.len()]);
        }
    }
    assert(p =~= fixed + y + se);
    assert(p =~= fy + sn + en);
    assert(p =~= fys + en + Seq::empty());
    lemma_only_named_param(p, fixed, year, year_number(query.year), se);
    lemma_only_named_param(p, fy, season, count_number(query.season), en);
    lemma_only_named_param(p, fys, episode, count_number(query.episode), Seq::empty());
}

/// A list made of parameters of other names around one optional parameter
/// called `name` carries that parameter's number under `name`.
proof fn lemma_only_named_param(
    p: Seq<(Seq<char>, Seq<char>)>,
    before: Seq<(Seq<char>, Seq<char>)>,
    name: Seq<char>,
    v: Option<nat>,
    after: Seq<(Seq<char>, Seq<char>)>,
)
    requires
        p == before + optional_param(name, v) + after,
        forall|k: int| 0 <= k < before.len() ==> (#[trigger] before[k]).0 != name,
        forall|k: int| 0 <= k < after.len() ==> (#[trigger] after[k]).0 != name,
    ensures
        carries_number(p, name, v),
{
    let mid = optional_param(name, v);
    let b = before.len() as int;
    assert forall|i: int| 0 <= i < p.len() && (#[trigger] p[i]).0 == name implies (v matches Some(
        n,
    ) && p[i].1 == decimal(n)) by {
        if i < b {
            assert(p[i] == before[i]);
        } else if i < b + mid.len() {
            assert(p[i] == mid[i - b]);
        } else {
            assert(p[i] == after[i - b - mid.len()]);
        }
    }
    if let Some(n) = v {
        assert(p[b] == mid[0]);
    }
}

// ---------------------------------------------------------------------------
// OpenSubtitles
// ---------------------------------------------------------------------------

/// The file id picked from a list of search results belongs to a Turkish result.
proof fn lemma_first_turkish_file_id(items: Seq<JsonValue>)
    ensures
        first_turkish_file_id(items) matches Some(id) ==> exists|i: int|
            0 <= i < items.len() && result_is_turkish(#[trigger] items[i]) && result_file_id(items[i])
                == Some(id),
    decreases items.len(),
{
    if items.len() > 0 {
        lemma_first_turkish_file_id(items.drop_first());
        if !(result_is_turkish(items[0]) && result_file_id(items[0]) is Some) {
            if let Some(id) = first_turkish_file_id(items) {
                let i = choose|i: int|
                    0 <= i < items.drop_first().len() && result_is_turkish(
                        #[trigger] items.drop_first()[i],
                    ) && result_file_id(items.drop_first()[i]) == Some(id);
                assert(items[i + 1] == items.drop_first()[i]);
            }
        }
    }
}

/// The file downloaded from OpenSubtitles is that of a Turkish search result.
pub proof fn lemma_download_is_turkish(payload: JsonValue)
    ensures
        search_file_id(payload) matches Some(id) ==> exists|items: Seq<JsonValue>, i: int|
            json_get(payload, "data"@) matches Some(d) && json_array(d) == Some(items) && 0 <= i
                < items.len() && result_is_turkish(#[trigger] items[i]) && result_file_id(items[i])
                == Some(id),
{
    if let Some(d) = json_get(payload, "data"@) {
        if let Some(items) = json_array(d) {
            lemma_first_turkish_file_id(items);
        }
    }
}

} // verus!
