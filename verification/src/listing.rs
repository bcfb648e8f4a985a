//! The rows of a listing and the header of an album.
use crate::auth::Identity;
use crate::detail;
use crate::text;
use crate::types;
use crate::types::{BaseItemDto, MediaStream};
use vstd::prelude::*;

verus! {

// ------------------------------------------------------------ durations

/// The duration of a track in whole seconds as minutes and seconds, `2:03` or
/// `62:03`.
pub open spec fn track_time(total: int) -> Seq<char> {
    text::signed_decimal(text::quot(total, 60)) + ":"@ + text::two_digits(text::rem(total, 60))
}

/// The duration of a track in whole seconds, always as minutes and seconds.
pub fn format_duration(total: i64) -> (r: String)
    ensures
        r@ == track_time(total as int),
{
    let mut out = text::signed_decimal_of(text::divide(total, 60));
    out.append(":");
    out.append(text::two_digits_of(text::remainder(total, 60)).as_str());
    out
}

/// A longer duration of whole seconds as `1:02:03`, or as `2:03` below an hour.
pub open spec fn duration_text(total: int) -> Seq<char> {
    let h = text::quot(total, 3600);
    let m = text::quot(text::rem(total, 3600), 60);
    let s = text::rem(total, 60);
    if h > 0 {
        text::signed_decimal(h) + ":"@ + text::two_digits(m) + ":"@ + text::two_digits(s)
    } else {
        text::signed_decimal(m) + ":"@ + text::two_digits(s)
    }
}

/// A longer duration of whole seconds as `1:02:03`, or as `2:03` below an hour.
fn format_total(total: i64) -> (r: String)
    ensures
        r@ == duration_text(total as int),
{
    let h: i64 = text::divide(total, 3600);
    let m: i64 = text::divide(text::remainder(total, 3600), 60);
    let s: i64 = text::remainder(total, 60);
    let mut out = String::new();
    if h > 0 {
        out.append(text::signed_decimal_of(h).as_str());
        out.append(":");
        out.append(text::two_digits_of(m).as_str());
    } else {
        out.append(text::signed_decimal_of(m).as_str());
    }
    out.append(":");
    out.append(text::two_digits_of(s).as_str());
    assert(out@ =~= duration_text(total as int));
    out
}

/// The duration of an album in ticks of 100 nanoseconds, its fraction of a
/// second dropped; nothing below zero.
pub fn format_ticks_long(ticks: i64) -> (r: String)
    ensures
        r@ == duration_text(
            if ticks < 0 {
                0
            } else {
                ticks as int / 10_000_000
            },
        ),
{
    let whole: i64 = text::divide(ticks, 10_000_000);
    if ticks < 0 {
        assert(whole <= 0) by (nonlinear_arith)
            requires
                whole == -((-ticks) as int / 10_000_000),
                ticks < 0,
        ;
        format_total(0)
    } else {
        format_total(whole)
    }
}

// ------------------------------------------------------------ technical badge

/// A DSD rate as the multiple of 44.1 kHz that it is known by, rounded to the
/// nearest.
pub open spec fn dsd_multiple(sample_rate: int) -> int {
    (2 * sample_rate + 44_100) / 88_200
}

/// A sample rate in kilohertz: whole if it is, otherwise with one decimal place.
/// Where the rate lies half-way between two tenths, `half_way` is what it rounds
/// to.
pub open spec fn khz_text(rate: nat, half_way: Seq<char>) -> Seq<char> {
    if rate % 1000 == 0 {
        text::decimal(rate / 1000)
    } else if rate % 100 == 50 {
        half_way
    } else {
        let tenths = (rate + 50) / 100;
        text::decimal(tenths / 10) + "."@ + text::decimal(tenths % 10)
    }
}

/// A sample rate in kilohertz.
pub fn format_khz(rate: u32, half_way: &str) -> (r: String)
    ensures
        r@ == khz_text(rate as nat, half_way@),
{
    if rate % 1000 == 0 {
        text::decimal_of((rate / 1000) as u64)
    } else if rate % 100 == 50 {
        half_way.to_owned()
    } else {
        let tenths: u64 = (rate as u64 + 50) / 100;
        let mut out = text::decimal_of(tenths / 10);
        out.append(".");
        text::push_decimal(&mut out, tenths % 10);
        out
    }
}

/// The badge of an audio stream: `DSD64` and the like for DSD, otherwise the
/// codec with bit depth and rate, such as `FLAC 24/96`.
pub open spec fn stream_badge(audio: MediaStream) -> Seq<char> {
    let codec = text::or_empty(audio.codec);
    let upper = text::uppered(codec);
    let rate = match audio.sample_rate {
        Some(r) => r as int,
        None => 0,
    };
    if text::holds(upper, "DSD"@) || text::holds(upper, "DST"@) {
        if rate > 0 {
            "DSD"@ + text::decimal(dsd_multiple(rate) as nat)
        } else {
            "DSD"@
        }
    } else {
        let name = if codec.len() > 0 {
            seq![upper]
        } else {
            Seq::empty()
        };
        let khz = khz_text(rate as nat, audio.khz@);
        let figures = if rate > 0 {
            match audio.bit_depth {
                Some(depth) => seq![text::signed_decimal(depth as int) + "/"@ + khz],
                None => seq![khz + " kHz"@],
            }
        } else {
            Seq::empty()
        };
        text::join(name + figures, " "@)
    }
}

/// The badge of an item: that of its first audio stream, if it has one.
pub open spec fn tech_text(item: BaseItemDto) -> Seq<char> {
    match detail::first_stream(detail::streams_of(item), "Audio"@) {
        Some(audio) => stream_badge(audio),
        None => Seq::empty(),
    }
}

/// The badge of an audio stream.
fn badge(audio: &MediaStream) -> (r: String)
    ensures
        r@ == stream_badge(*audio),
{
    let codec = text::text_or_empty(&audio.codec);
    let upper = text::upper_ascii(codec.as_str());
    let rate: i32 = match audio.sample_rate {
        Some(r) => r,
        None => 0,
    };
    if text::contains(upper.as_str(), "DSD") || text::contains(upper.as_str(), "DST") {
        if rate > 0 {
            let multiple: u64 = (2 * (rate as u64) + 44_100) / 88_200;
            let mut out = "DSD".to_owned();
            text::push_decimal(&mut out, multiple);
            return out;
        }
        return "DSD".to_owned();
    }
    let mut parts: Vec<String> = Vec::new();
    if !codec.as_str().is_empty() {
        parts.push(upper);
    }
    let ghost name = text::texts(parts@);
    if rate > 0 {
        let khz = format_khz(rate as u32, audio.khz.as_str());
        match audio.bit_depth {
            Some(depth) => {
                let mut out = text::signed_decimal_of(depth as i64);
                out.append("/");
                out.append(khz.as_str());
                let ghost shown = out@;
                parts.push(out);
                assert(text::texts(parts@) =~= name + seq![shown]);
            },
            None => {
                let out = text::joined(khz.as_str(), " kHz");
                let ghost shown = out@;
                parts.push(out);
                assert(text::texts(parts@) =~= name + seq![shown]);
            },
        }
    } else {
        assert(text::texts(parts@) =~= name + Seq::empty());
    }
    assert(name =~= if codec@.len() > 0 {
        seq![text::uppered(codec@)]
    } else {
        Seq::empty()
    });
    text::join_texts(&parts, " ")
}

/// The badge of an audio track; empty if its streams say nothing.
pub fn track_tech(item: &BaseItemDto) -> (r: String)
    ensures
        r@ == tech_text(*item),
{
    match detail::stream_list(item) {
        None => String::new(),
        Some(streams) => {
            let at: usize = detail::find_stream(streams, "Audio");
            if at < streams.len() {
                badge(&streams[at])
            } else {
                String::new()
            }
        },
    }
}

// ------------------------------------------------------------ rows

/// A row of a listing.
#[derive(Debug)]
pub struct ItemData {
    pub id: String,
    pub title: String,
    pub subtitle: String,
    pub item_type: String,
    pub track_index: i32,
    /// The technical badge of an audio track; empty for everything else.
    pub tech: String,
}

/// A year in decimal; nothing if there is none.
pub open spec fn year_of(item: BaseItemDto) -> Seq<char> {
    match item.production_year {
        Some(y) => text::signed_decimal(y as int),
        None => Seq::empty(),
    }
}

/// The number of an episode, with its season if known: `S01E02` or `E02`.
pub open spec fn episode_text(season: Option<i32>, episode: Option<i32>) -> Seq<char> {
    match (season, episode) {
        (Some(s), Some(e)) => "S"@ + text::two_digits(s as int) + "E"@ + text::two_digits(e as int),
        (None, Some(e)) => "E"@ + text::two_digits(e as int),
        _ => Seq::empty(),
    }
}

/// The subtitle of a row, by the type of its item.
pub open spec fn subtitle_text(item: BaseItemDto) -> Seq<char> {
    let t = types::shown_type(item.item_type);
    if t == "MusicAlbum"@ {
        match item.album_artist {
            Some(a) => a@,
            None => match detail::first_of(item.artists) {
                Some(a) => a@,
                None => year_of(item),
            },
        }
    } else if t == "Audio"@ {
        match item.run_time {
            Some(r) => track_time(r.seconds as int),
            None => Seq::empty(),
        }
    } else if t == "Movie"@ || t == "Series"@ {
        year_of(item)
    } else if t == "Season"@ {
        match item.child_count {
            Some(c) => text::signed_decimal(c as int) + " episodes"@,
            None => Seq::empty(),
        }
    } else if t == "Episode"@ {
        episode_text(item.parent_index_number, item.index_number)
    } else if t == "Playlist"@ {
        match item.child_count {
            Some(c) => text::signed_decimal(c as int) + " items"@,
            None => Seq::empty(),
        }
    } else {
        Seq::empty()
    }
}

/// The number of an episode, with its season if known.
fn episode_label(season: Option<i32>, episode: Option<i32>) -> (r: String)
    ensures
        r@ == episode_text(season, episode),
{
    match (season, episode) {
        (Some(s), Some(e)) => {
            let mut out = "S".to_owned();
            out.append(text::two_digits_of(s as i64).as_str());
            out.append("E");
            out.append(text::two_digits_of(e as i64).as_str());
            out
        },
        (None, Some(e)) => {
            let mut out = "E".to_owned();
            out.append(text::two_digits_of(e as i64).as_str());
            out
        },
        _ => String::new(),
    }
}

/// The subtitle of a row, by the type of its item.
fn subtitle(item: &BaseItemDto, item_type: &str) -> (r: String)
    requires
        item_type@ == types::shown_type(item.item_type),
    ensures
        r@ == subtitle_text(*item),
{
    if text::same_text(item_type, "MusicAlbum") {
        match &item.album_artist {
            Some(a) => a.clone(),
            None => match detail::first_text(&item.artists) {
                Some(a) => a,
                None => detail::year_text(item.production_year),
            },
        }
    } else if text::same_text(item_type, "Audio") {
        match item.run_time {
            Some(t) => format_duration(t.seconds),
            None => String::new(),
        }
    } else if text::same_text(item_type, "Movie") || text::same_text(item_type, "Series") {
        detail::year_text(item.production_year)
    } else if text::same_text(item_type, "Season") {
        detail::count_text(item.child_count, " episodes")
    } else if text::same_text(item_type, "Episode") {
        episode_label(item.parent_index_number, item.index_number)
    } else if text::same_text(item_type, "Playlist") {
        detail::count_text(item.child_count, " items")
    } else {
        String::new()
    }
}

/// Whether `d` is the row of an item.
pub open spec fn is_row(d: ItemData, item: BaseItemDto) -> bool {
    &&& d.id == item.id
    &&& d.title@ == text::or_empty(item.name)
    &&& d.subtitle@ == subtitle_text(item)
    &&& d.item_type@ == types::shown_type(item.item_type)
    &&& d.track_index == (match item.index_number {
        Some(n) => n,
        None => 0,
    })
    &&& d.tech@ == (if types::shown_type(item.item_type) == "Audio"@ {
        tech_text(item)
    } else {
        Seq::empty()
    })
}

/// The row of an item.
pub fn build_initial_item_data(item: &BaseItemDto) -> (r: ItemData)
    ensures
        is_row(r, *item),
{
    let item_type = types::item_type_str(&item.item_type);
    let tech = if text::same_text(item_type.as_str(), "Audio") {
        track_tech(item)
    } else {
        String::new()
    };
    let track_index: i32 = match item.index_number {
        Some(n) => n,
        None => 0,
    };
    ItemData {
        id: item.id.clone(),
        title: text::text_or_empty(&item.name),
        subtitle: subtitle(item, item_type.as_str()),
        item_type,
        track_index,
        tech,
    }
}

/// The title of a library by its collection type.
pub open spec fn view_title_text(collection_type: Seq<char>) -> Seq<char> {
    if collection_type == "music"@ {
        "Music"@
    } else if collection_type == "movies"@ {
        "Movies"@
    } else if collection_type == "tvshows"@ {
        "TV Shows"@
    } else if collection_type == "playlists"@ {
        "Playlists"@
    } else {
        "Library"@
    }
}

/// The title of a library by its collection type.
pub fn view_title(collection_type: &str) -> (r: String)
    ensures
        r@ == view_title_text(collection_type@),
{
    if text::same_text(collection_type, "music") {
        "Music".to_owned()
    } else if text::same_text(collection_type, "movies") {
        "Movies".to_owned()
    } else if text::same_text(collection_type, "tvshows") {
        "TV Shows".to_owned()
    } else if text::same_text(collection_type, "playlists") {
        "Playlists".to_owned()
    } else {
        "Library".to_owned()
    }
}

// ------------------------------------------------------------ album header

/// The run time of all tracks together, in ticks; tracks without one count
/// nothing.
pub open spec fn total_ticks(tracks: Seq<BaseItemDto>) -> int
    decreases tracks.len(),
{
    if tracks.len() == 0 {
        0
    } else {
        total_ticks(tracks.drop_last()) + (match tracks.last().run_time {
            Some(t) => if t.ticks > 0 {
                t.ticks as int
            } else {
                0
            },
            None => 0,
        })
    }
}

/// The run time of more tracks is never less.
proof fn lemma_total_ticks_grows(tracks: Seq<BaseItemDto>, n: int)
    requires
        0 <= n <= tracks.len(),
    ensures
        0 <= total_ticks(tracks.take(n)) <= total_ticks(tracks),
    decreases tracks.len() - n, n,
{
    if n == tracks.len() {
        assert(tracks.take(n) =~= tracks);
        if n > 0 {
            lemma_total_ticks_grows(tracks.drop_last(), n - 1);
            assert(tracks.drop_last().take(n - 1) =~= tracks.drop_last());
        }
    } else {
        lemma_total_ticks_grows(tracks, n + 1);
        assert(tracks.take(n + 1).drop_last() =~= tracks.take(n));
        lemma_total_ticks_grows(tracks.take(n), n);
        assert(tracks.take(n).take(n) =~= tracks.take(n));
    }
}

/// The parts of the line under an album's title: year, number of tracks and
/// total run time, as far as there is anything to say.
pub open spec fn album_parts(year: Option<i32>, tracks: Seq<BaseItemDto>) -> Seq<Seq<char>> {
    (match year {
        Some(y) => seq![text::signed_decimal(y as int)],
        None => Seq::empty(),
    }) + (if tracks.len() > 0 {
        seq![
            text::decimal(tracks.len()) + " pista"@ + (if tracks.len() == 1 {
                Seq::empty()
            } else {
                "s"@
            }),
        ]
    } else {
        Seq::empty()
    }) + (if total_ticks(tracks) > 0 {
        seq![duration_text(total_ticks(tracks) / 10_000_000)]
    } else {
        Seq::empty()
    })
}

/// The line under an album's title.
pub fn album_meta_line(year: Option<i32>, tracks: &Vec<BaseItemDto>) -> (r: String)
    requires
        total_ticks(tracks@) <= i64::MAX,
    ensures
        r@ == text::join(album_parts(year, tracks@), " · "@),
{
    let mut parts: Vec<String> = Vec::new();
    if let Some(y) = year {
        parts.push(text::signed_decimal_of(y as i64));
    }
    let n: usize = tracks.len();
    if n > 0 {
        let mut out = text::decimal_of(n as u64);
        out.append(" pista");
        if n != 1 {
            out.append("s");
        }
        parts.push(out);
    }
    let total: i64 = sum_ticks(tracks);
    if total > 0 {
        parts.push(format_ticks_long(total));
    }
    assert(text::texts(parts@) =~= album_parts(year, tracks@));
    text::join_texts(&parts, " · ")
}

/// The line under an album's title, and its genres.
pub fn album_header_strings(album: &BaseItemDto, tracks: &Vec<BaseItemDto>) -> (r: (String, Vec<String>))
    requires
        total_ticks(tracks@) <= i64::MAX,
    ensures
        r.0@ == text::join(album_parts(album.production_year, tracks@), " · "@),
        r.1@ == text::list_or_empty(album.genres),
{
    (album_meta_line(album.production_year, tracks), text::copy_list_or_empty(&album.genres))
}

/// The run time of all tracks together, in ticks.
fn sum_ticks(tracks: &Vec<BaseItemDto>) -> (r: i64)
    requires
        total_ticks(tracks@) <= i64::MAX,
    ensures
        r == total_ticks(tracks@),
{
    let mut total: i64 = 0;
    let mut i: usize = 0;
    while i < tracks.len()
        invariant
            i <= tracks@.len(),
            total == total_ticks(tracks@.take(i as int)),
            total_ticks(tracks@) <= i64::MAX,
        decreases tracks@.len() - i,
    {
        proof {
            lemma_total_ticks_grows(tracks@, i + 1);
            lemma_total_ticks_grows(tracks@, i as int);
            assert(tracks@.take(i + 1).drop_last() =~= tracks@.take(i as int));
        }
        if let Some(t) = tracks[i].run_time {
            if t.ticks > 0 {
                total = total + t.ticks;
            }
        }
        i = i + 1;
    }
    assert(tracks@.take(tracks@.len() as int) =~= tracks@);
    total
}

// ------------------------------------------------------------ links in a text

/// Whether a character ends an address inside running text.
pub open spec fn ends_link(c: char) -> bool {
    text::is_space(c) || c == '<' || c == '>' || c == '"' || c == ')' || c == ']'
}

/// How long the address at the start of a text is.
pub open spec fn link_len(s: Seq<char>) -> nat
    decreases s.len(),
{
    if s.len() == 0 || ends_link(s[0]) {
        0
    } else {
        1 + link_len(s.skip(1))
    }
}

/// An address without the punctuation behind it.
pub open spec fn without_punctuation(s: Seq<char>) -> Seq<char>
    decreases s.len(),
{
    if s.len() > 0 && (s.last() == '.' || s.last() == ',' || s.last() == ';' || s.last() == ':') {
        without_punctuation(s.drop_last())
    } else {
        s
    }
}

/// Whether a text starts with an address.
pub open spec fn starts_link(s: Seq<char>) -> bool {
    text::starts(s, "https://"@) || text::starts(s, "http://"@)
}

/// The first address in a text that leads to a Wikipedia article, without the
/// punctuation behind it.
pub open spec fn wikipedia_link(s: Seq<char>) -> Option<Seq<char>>
    decreases s.len(),
{
    let url = s.take(link_len(s) as int);
    if s.len() == 0 {
        None
    } else if starts_link(s) && text::holds(url, "wikipedia.org/wiki/"@) {
        Some(without_punctuation(url))
    } else {
        wikipedia_link(s.skip(1))
    }
}

/// How long the address is that starts at `from`.
fn measure_link(x: &Vec<char>, from: usize) -> (r: usize)
    requires
        from <= x@.len(),
    ensures
        r == link_len(x@.skip(from as int)),
        from + r <= x@.len(),
{
    let mut i: usize = from;
    let ghost rest = x@.skip(from as int);
    assert(rest.skip(0) =~= rest);
    while i < x.len()
        invariant
            from <= i <= x@.len(),
            rest == x@.skip(from as int),
            link_len(rest) == link_len(rest.skip(i - from)) + (i - from),
        decreases x@.len() - i,
    {
        let c = x[i];
        assert(rest.skip(i - from)[0] == c);
        if text::is_whitespace(c) || c == '<' || c == '>' || c == '"' || c == ')' || c == ']' {
            return i - from;
        }
        assert(rest.skip(i - from).skip(1) =~= rest.skip(i + 1 - from));
        i = i + 1;
    }
    assert(rest.skip(i - from).len() == 0);
    i - from
}

/// The address `x[from..to]` without the punctuation behind it.
fn trim_link(x: &Vec<char>, from: usize, to: usize) -> (r: String)
    requires
        from <= to <= x@.len(),
    ensures
        r@ == without_punctuation(x@.subrange(from as int, to as int)),
{
    let mut end: usize = to;
    while end > from && (x[end - 1] == '.' || x[end - 1] == ',' || x[end - 1] == ';' || x[end - 1] == ':')
        invariant
            from <= end <= to <= x@.len(),
            without_punctuation(x@.subrange(from as int, to as int)) == without_punctuation(
                x@.subrange(from as int, end as int),
            ),
        decreases end,
    {
        assert(x@.subrange(from as int, end as int).drop_last() =~= x@.subrange(from as int, end - 1));
        end = end - 1;
    }
    text::text_of(x, from, end)
}

/// The first Wikipedia address in a text: metadata providers leave them in the
/// description.
pub fn extract_wikipedia_url(overview: &str) -> (r: Option<String>)
    ensures
        text::opt_view(r) == wikipedia_link(overview@),
{
    let x = text::chars_of(overview);
    let secure = text::chars_of("https://");
    let plain = text::chars_of("http://");
    let mut i: usize = 0;
    assert(x@.skip(0) =~= x@);
    while i < x.len()
        invariant
            i <= x@.len(),
            secure@ == "https://"@,
            plain@ == "http://"@,
            x@ == overview@,
            wikipedia_link(overview@) == wikipedia_link(x@.skip(i as int)),
        decreases x@.len() - i,
    {
        if text::matches_at(&x, i, &secure) || text::matches_at(&x, i, &plain) {
            let len: usize = measure_link(&x, i);
            let url = text::text_of(&x, i, i + len);
            assert(url@ =~= x@.skip(i as int).take(len as int));
            if text::contains(url.as_str(), "wikipedia.org/wiki/") {
                return Some(trim_link(&x, i, i + len));
            }
        }
        assert(x@.skip(i as int).skip(1) =~= x@.skip(i + 1));
        i = i + 1;
    }
    None
}

// ------------------------------------------------------------ identity and language

/// The identity of this program on a device.
pub fn make_identity(device_id: &str, version: &str) -> (r: Identity)
    ensures
        r.client@ == "Jelly"@,
        r.device@ == "jelly-desktop"@,
        r.device_id@ == device_id@,
        r.version@ == version@,
{
    Identity::new("Jelly", "jelly-desktop", device_id, version)
}

/// The text with every underscore turned into a hyphen.
pub open spec fn hyphenated(s: Seq<char>) -> Seq<char> {
    s.map_values(
        |c: char|
            if c == '_' {
                '-'
            } else {
                c
            },
    )
}

/// The language that a locale such as `es_ES.UTF-8` stands for; English if none
/// is set.
pub fn preferred_language(locale: Option<&str>) -> (r: String)
    ensures
        r@ == (match locale {
            Some(l) => hyphenated(text::pieces(l@, '.')[0]),
            None => "en"@,
        }),
{
    let l = match locale {
        None => {
            return "en".to_owned();
        },
        Some(l) => l,
    };
    let parts = text::split_on(l, '.');
    assert(text::texts(parts@)[0] == parts@[0]@);
    let x = text::chars_of(parts[0].as_str());
    let mut out = String::new();
    let mut i: usize = 0;
    while i < x.len()
        invariant
            i <= x@.len(),
            out@ == hyphenated(x@).take(i as int),
        decreases x@.len() - i,
    {
        out.push(
            if x[i] == '_' {
                '-'
            } else {
                x[i]
            },
        );
        assert(hyphenated(x@).take(i + 1) =~= hyphenated(x@).take(i as int).push(hyphenated(x@)[i as int]));
        i = i + 1;
    }
    assert(hyphenated(x@).take(x@.len() as int) =~= hyphenated(x@));
    out
}

// ------------------------------------------------------------ laws

/// A track of `m` minutes and `s` seconds shows just these, the seconds in two
/// digits, however long it is.
pub proof fn law_track_time(m: nat, s: nat)
    requires
        s < 60,
    ensures
        track_time((60 * m + s) as int) == text::decimal(m) + ":"@ + seq![
            (48 + s / 10) as char,
            (48 + s % 10) as char,
        ],
{
    text::lemma_division_is((60 * m + s) as int, 60, m as int, s as int);
    text::law_two_digits(s);
}

/// An album of `h` hours, `m` minutes and `s` seconds shows just these: minutes
/// and seconds in two digits behind the hours, and no hours where there are
/// none.
pub proof fn law_album_time(h: nat, m: nat, s: nat)
    requires
        m < 60,
        s < 60,
    ensures
        h > 0 ==> duration_text((3600 * h + 60 * m + s) as int) == text::decimal(h) + ":"@ + seq![
            (48 + m / 10) as char,
            (48 + m % 10) as char,
        ] + ":"@ + seq![(48 + s / 10) as char, (48 + s % 10) as char],
        h == 0 ==> duration_text((60 * m + s) as int) == text::decimal(m) + ":"@ + seq![
            (48 + s / 10) as char,
            (48 + s % 10) as char,
        ],
{
    let total = (3600 * h + 60 * m + s) as int;
    let rest = (60 * m + s) as int;
    text::lemma_division_is(total, 3600, h as int, rest);
    text::lemma_division_is(rest, 60, m as int, s as int);
    text::lemma_division_is(total, 60, (60 * h + m) as int, s as int);
    text::law_two_digits(m);
    text::law_two_digits(s);
}

/// A rate of whole kilohertz shows as that number; any other to the nearest
/// tenth, which is never more than fifty hertz away.
pub proof fn law_kilohertz(rate: nat, k: nat, tenths: nat, half_way: Seq<char>)
    ensures
        rate == 1000 * k ==> khz_text(rate, half_way) == text::decimal(k),
        rate % 1000 != 0 && rate < 100 * tenths + 50 && 100 * tenths < rate + 50 ==> khz_text(rate, half_way)
            == text::decimal(tenths / 10) + "."@ + seq![(48 + tenths % 10) as char],
        rate % 100 == 50 ==> khz_text(rate, half_way) == half_way,
{
}

/// Whether a stream is DSD by its codec.
pub open spec fn is_dsd_codec(codec: Seq<char>) -> bool {
    text::holds(text::uppered(codec), "DSD"@) || text::holds(text::uppered(codec), "DST"@)
}

/// DSD shows as the multiple of 44.1 kHz that is nearest to its rate, whatever
/// else the stream says.
pub proof fn law_dsd_badge(audio: MediaStream, multiple: nat)
    requires
        is_dsd_codec(text::or_empty(audio.codec)),
        audio.sample_rate is Some,
        audio.sample_rate->0 > 0,
        44_100 * multiple - 22_050 <= audio.sample_rate->0 < 44_100 * multiple + 22_050,
    ensures
        stream_badge(audio) == "DSD"@ + text::decimal(multiple),
{
    assert(dsd_multiple(audio.sample_rate->0 as int) == multiple);
}

/// The badge of any other stream is its codec in capitals, then its own bit
/// depth and, behind a slash, its own rate; without a depth the rate alone with
/// its unit, and without a rate nothing but the codec.
#[verifier::rlimit(50)]
pub proof fn law_badge_reads_back(audio: MediaStream)
    requires
        !is_dsd_codec(text::or_empty(audio.codec)),
    ensures
        ({
            let codec = text::or_empty(audio.codec);
            let front = if codec.len() > 0 {
                text::uppered(codec) + " "@
            } else {
                Seq::empty()
            };
            let rated = audio.sample_rate is Some && audio.sample_rate->0 > 0;
            &&& rated && audio.bit_depth is Some ==> stream_badge(audio) == front + text::signed_decimal(
                audio.bit_depth->0 as int,
            ) + "/"@ + khz_text(audio.sample_rate->0 as nat, audio.khz@)
            &&& rated && audio.bit_depth is None ==> stream_badge(audio) == front + khz_text(
                audio.sample_rate->0 as nat,
                audio.khz@,
            ) + " kHz"@
            &&& !rated ==> stream_badge(audio) == text::uppered(codec)
        }),
{
    let codec = text::or_empty(audio.codec);
    let upper = text::uppered(codec);
    let rate = match audio.sample_rate {
        Some(r) => r as int,
        None => 0,
    };
    let khz = khz_text(rate as nat, audio.khz@);
    let figures = match audio.bit_depth {
        Some(depth) => text::signed_decimal(depth as int) + "/"@ + khz,
        None => khz + " kHz"@,
    };
    if codec.len() > 0 {
        assert(seq![upper] + seq![figures] =~= seq![upper, figures]);
        assert(seq![upper] + Seq::empty() =~= seq![upper]);
        text::law_join(seq![upper], seq![figures], upper, " "@);
        text::law_join(seq![figures], seq![figures], figures, " "@);
        text::law_join(seq![upper], seq![upper], upper, " "@);
    } else {
        assert(upper =~= Seq::empty());
        assert(Seq::<Seq<char>>::empty() + seq![figures] =~= seq![figures]);
        assert(Seq::<Seq<char>>::empty() + Seq::empty() =~= Seq::<Seq<char>>::empty());
        text::law_join(seq![figures], seq![figures], figures, " "@);
    }
    let front = if codec.len() > 0 {
        upper + " "@
    } else {
        Seq::empty()
    };
    if rate > 0 {
        match audio.bit_depth {
            Some(depth) => {
                assert(stream_badge(audio) =~= front + text::signed_decimal(depth as int) + "/"@ + khz);
            },
            None => {
                assert(stream_badge(audio) =~= front + khz + " kHz"@);
            },
        }
    }
}

/// Two streams that differ in their bit depth alone have different badges, and so
/// have two that differ in a rate of whole kilohertz alone.
#[verifier::rlimit(50)]
pub proof fn law_badges_tell_streams_apart(a: MediaStream, b: MediaStream)
    requires
        !is_dsd_codec(text::or_empty(a.codec)),
        a.codec == b.codec,
        a.sample_rate is Some && a.sample_rate->0 > 0,
        b.sample_rate is Some && b.sample_rate->0 > 0,
        a.bit_depth is Some && b.bit_depth is Some,
        stream_badge(a) == stream_badge(b),
    ensures
        a.sample_rate == b.sample_rate && a.khz@ == b.khz@ ==> a.bit_depth == b.bit_depth,
        a.bit_depth == b.bit_depth && a.sample_rate->0 % 1000 == 0 && b.sample_rate->0 % 1000 == 0
            ==> a.sample_rate == b.sample_rate,
{
    law_badge_reads_back(a);
    law_badge_reads_back(b);
    let codec = text::or_empty(a.codec);
    let front = if codec.len() > 0 {
        text::uppered(codec) + " "@
    } else {
        Seq::empty()
    };
    let x = text::signed_decimal(a.bit_depth->0 as int);
    let y = text::signed_decimal(b.bit_depth->0 as int);
    let p = khz_text(a.sample_rate->0 as nat, a.khz@);
    let q = khz_text(b.sample_rate->0 as nat, b.khz@);
    let f = stream_badge(a);
    reveal_strlit("/");
    assert("/"@ =~= seq!['/']);
    assert(f.skip(front.len() as int) =~= x + seq!['/'] + p);
    assert(stream_badge(b).skip(front.len() as int) =~= y + seq!['/'] + q);
    lemma_no_slash(a.bit_depth->0 as int);
    lemma_no_slash(b.bit_depth->0 as int);
    text::lemma_same_parts(x, p, y, q, '/');
    text::law_decimals_differ(a.bit_depth->0 as int, b.bit_depth->0 as int);
    if a.sample_rate->0 % 1000 == 0 && b.sample_rate->0 % 1000 == 0 {
        text::law_decimals_differ(a.sample_rate->0 as int / 1000, b.sample_rate->0 as int / 1000);
    }
}

proof fn lemma_no_slash(n: int)
    ensures
        !text::signed_decimal(n).contains('/'),
{
    let s = text::signed_decimal(n);
    let m = if n < 0 {
        (-n) as nat
    } else {
        n as nat
    };
    text::law_decimal_reads_back(m);
    if s.contains('/') {
        let j = choose|j: int| 0 <= j < s.len() && s[j] == '/';
        if n < 0 {
            if j > 0 {
                assert(s[j] == text::decimal(m)[j - 1]);
            }
        } else {
            assert(s[j] == text::decimal(m)[j]);
        }
    }
}

/// The badge of a track is that of its first audio stream; a track without one
/// has none.
pub proof fn law_badge_is_of_the_first_audio_stream(item: BaseItemDto, i: int)
    requires
        0 <= i < detail::streams_of(item).len(),
        text::opt_view(detail::streams_of(item)[i].stream_type) == Some("Audio"@),
        forall|j: int|
            0 <= j < i ==> text::opt_view((#[trigger] detail::streams_of(item)[j]).stream_type) != Some(
                "Audio"@,
            ),
    ensures
        tech_text(item) == stream_badge(detail::streams_of(item)[i]),
{
    detail::lemma_first_stream_is(detail::streams_of(item), "Audio"@, i);
}

/// An episode shows its season and its own number, each in at least two digits;
/// the season only where it is known.
pub proof fn law_episode_numbers(season: i32, episode: i32)
    requires
        0 <= season < 100,
        0 <= episode < 100,
    ensures
        episode_text(Some(season), Some(episode)) == seq![
            'S',
            (48 + season / 10) as char,
            (48 + season % 10) as char,
            'E',
            (48 + episode / 10) as char,
            (48 + episode % 10) as char,
        ],
        episode_text(None, Some(episode)) == seq![
            'E',
            (48 + episode / 10) as char,
            (48 + episode % 10) as char,
        ],
        episode_text(Some(season), None) == Seq::<char>::empty(),
        episode_text(None, None) == Seq::<char>::empty(),
{
    reveal_strlit("S");
    reveal_strlit("E");
    text::law_two_digits(season as nat);
    text::law_two_digits(episode as nat);
    assert(episode_text(Some(season), Some(episode)) =~= seq![
        'S',
        (48 + season / 10) as char,
        (48 + season % 10) as char,
        'E',
        (48 + episode / 10) as char,
        (48 + episode % 10) as char,
    ]);
    assert(episode_text(None, Some(episode)) =~= seq![
        'E',
        (48 + episode / 10) as char,
        (48 + episode % 10) as char,
    ]);
}

proof fn lemma_row_types_differ()
    ensures
        "MusicAlbum"@ != "Audio"@ && "MusicAlbum"@ != "Movie"@ && "MusicAlbum"@ != "Series"@ && "MusicAlbum"@
            != "Season"@ && "MusicAlbum"@ != "Episode"@ && "MusicAlbum"@ != "Playlist"@,
        "Audio"@ != "Movie"@ && "Audio"@ != "Series"@ && "Audio"@ != "Season"@ && "Audio"@ != "Episode"@
            && "Audio"@ != "Playlist"@,
        "Movie"@ != "Season"@ && "Movie"@ != "Episode"@ && "Movie"@ != "Playlist"@,
        "Series"@ != "Season"@ && "Series"@ != "Episode"@ && "Series"@ != "Playlist"@,
        "Season"@ != "Episode"@ && "Season"@ != "Playlist"@,
        "Episode"@ != "Playlist"@,
{
    reveal_strlit("MusicAlbum");
    reveal_strlit("Audio");
    reveal_strlit("Movie");
    reveal_strlit("Series");
    reveal_strlit("Season");
    reveal_strlit("Episode");
    reveal_strlit("Playlist");
    assert("MusicAlbum"@.len() == 10 && "Audio"@.len() == 5 && "Movie"@.len() == 5 && "Series"@.len() == 6
        && "Season"@.len() == 6 && "Episode"@.len() == 7 && "Playlist"@.len() == 8);
    assert("Audio"@[0] == 'A' && "Movie"@[0] == 'M' && "Series"@[2] == 'r' && "Season"@[2] == 'a');
}

/// A row shows its own item: its id, name and number, and below the name what
/// its type calls for: the artist of an album (or else its first artist or its
/// year), the time of a track, the year of a film or a series, the number of
/// episodes of a season, the number of an episode. Only tracks have a badge.
#[verifier::rlimit(50)]
pub proof fn law_rows(d: ItemData, item: BaseItemDto)
    requires
        is_row(d, item),
    ensures
        d.id == item.id,
        item.name is Some ==> d.title@ == item.name->0@,
        item.name is None ==> d.title@.len() == 0,
        item.index_number is None ==> d.track_index == 0,
        item.index_number is Some ==> d.track_index == item.index_number->0,
        item.item_type == Some(types::ItemType::MusicAlbum) ==> {
            &&& item.album_artist is Some ==> d.subtitle@ == item.album_artist->0@
            &&& item.album_artist is None && item.artists is Some && item.artists->0@.len() > 0 ==> d.subtitle@
                == item.artists->0@[0]@
            &&& item.album_artist is None && item.artists is None && item.production_year is Some
                ==> d.subtitle@ == text::signed_decimal(item.production_year->0 as int)
            &&& item.album_artist is None && item.artists is Some && item.artists->0@.len() == 0
                && item.production_year is Some ==> d.subtitle@ == text::signed_decimal(
                item.production_year->0 as int,
            )
        },
        item.item_type == Some(types::ItemType::Audio) && item.run_time is None ==> d.subtitle@.len() == 0,
        item.item_type is None ==> d.subtitle@.len() == 0 && d.tech@.len() == 0 && d.item_type@.len() == 0,
        item.item_type == Some(types::ItemType::Audio) ==> {
            &&& item.run_time is Some ==> d.subtitle@ == track_time(item.run_time->0.seconds as int)
            &&& d.tech@ == tech_text(item)
        },
        item.item_type == Some(types::ItemType::Movie) || item.item_type == Some(types::ItemType::Series) ==> (
        item.production_year is Some ==> d.subtitle@ == text::signed_decimal(item.production_year->0 as int)),
        item.item_type == Some(types::ItemType::Season) && item.child_count is Some ==> d.subtitle@
            == text::signed_decimal(item.child_count->0 as int) + " episodes"@,
        item.item_type == Some(types::ItemType::Playlist) && item.child_count is Some ==> d.subtitle@
            == text::signed_decimal(item.child_count->0 as int) + " items"@,
        item.item_type == Some(types::ItemType::Episode) ==> d.subtitle@ == episode_text(
            item.parent_index_number,
            item.index_number,
        ),
        item.item_type matches Some(t) ==> d.item_type@ == t.name() && (t.name() != "Audio"@ ==> d.tech@.len()
            == 0),
{
    lemma_row_types_differ();
    reveal_strlit("MusicAlbum");
    reveal_strlit("Audio");
    reveal_strlit("Movie");
    reveal_strlit("Series");
    reveal_strlit("Season");
    reveal_strlit("Episode");
    reveal_strlit("Playlist");
}

/// The run time of an album is that of its tracks together: each counts what it
/// runs, and one without a run time nothing.
pub proof fn law_album_run_time(a: Seq<BaseItemDto>, b: Seq<BaseItemDto>, t: BaseItemDto)
    ensures
        total_ticks(Seq::empty()) == 0,
        total_ticks(seq![t]) == (if t.run_time is Some && t.run_time->0.ticks > 0 {
            t.run_time->0.ticks as int
        } else {
            0
        }),
        total_ticks(a + b) == total_ticks(a) + total_ticks(b),
    decreases b.len(),
{
    assert(seq![t].drop_last() =~= Seq::empty());
    assert(total_ticks(Seq::<BaseItemDto>::empty()) == 0);
    if b.len() == 0 {
        assert(a + b =~= a);
    } else {
        law_album_run_time(a, b.drop_last(), t);
        assert((a + b).drop_last() =~= a + b.drop_last());
        assert((a + b).last() == b.last());
    }
}

/// The line under an album's title holds its year, how many tracks it has and
/// how long they run, in this order; what is not known is left out.
pub proof fn law_album_line(year: i32, tracks: Seq<BaseItemDto>)
    requires
        tracks.len() > 0,
        total_ticks(tracks) > 0,
    ensures
        ({
            let count = text::decimal(tracks.len()) + (if tracks.len() == 1 {
                " pista"@
            } else {
                " pistas"@
            });
            let time = duration_text(total_ticks(tracks) / 10_000_000);
            &&& album_parts(Some(year), tracks) == seq![text::signed_decimal(year as int), count, time]
            &&& album_parts(None, tracks) == seq![count, time]
        }),
        album_parts(Some(year), Seq::empty()) == seq![text::signed_decimal(year as int)],
        album_parts(None, Seq::empty()) == Seq::<Seq<char>>::empty(),
{
    reveal_strlit(" pista");
    reveal_strlit(" pistas");
    reveal_strlit("s");
    assert(" pista"@ + "s"@ =~= " pistas"@);
    assert(" pista"@ + Seq::empty() =~= " pista"@);
    let count = text::decimal(tracks.len()) + (if tracks.len() == 1 {
        " pista"@
    } else {
        " pistas"@
    });
    let time = duration_text(total_ticks(tracks) / 10_000_000);
    assert(text::decimal(tracks.len()) + " pista"@ + (if tracks.len() == 1 {
        Seq::empty()
    } else {
        "s"@
    }) =~= count);
    assert(album_parts(Some(year), tracks) =~= seq![text::signed_decimal(year as int), count, time]);
    assert(album_parts(None, tracks) =~= seq![count, time]);
    assert(total_ticks(Seq::<BaseItemDto>::empty()) == 0);
    assert(album_parts(Some(year), Seq::empty()) =~= seq![text::signed_decimal(year as int)]);
    assert(album_parts(None, Seq::empty()) =~= Seq::<Seq<char>>::empty());
}

/// An address inside running text goes as far as the first character that cannot
/// belong to it.
pub proof fn law_link_length(s: Seq<char>)
    ensures
        link_len(s) <= s.len(),
        forall|i: int|
            0 <= i < link_len(s) ==> {
                let c = #[trigger] s[i];
                !text::is_space(c) && c != '<' && c != '>' && c != '"' && c != ')' && c != ']'
            },
        link_len(s) < s.len() ==> {
            let c = s[link_len(s) as int];
            text::is_space(c) || c == '<' || c == '>' || c == '"' || c == ')' || c == ']'
        },
    decreases s.len(),
{
    if s.len() > 0 && !ends_link(s[0]) {
        let t = s.skip(1);
        law_link_length(t);
        assert forall|i: int| 0 <= i < link_len(s) implies !ends_link(#[trigger] s[i]) by {
            if i > 0 {
                assert(s[i] == t[i - 1]);
            }
        }
        if link_len(s) < s.len() {
            assert(s[link_len(s) as int] == t[link_len(t) as int]);
        }
    }
}

/// What is cut off behind an address is punctuation, and all of it.
pub proof fn law_punctuation_goes(s: Seq<char>)
    ensures
        ({
            let t = without_punctuation(s);
            &&& t.len() <= s.len()
            &&& t == s.take(t.len() as int)
            &&& forall|j: int|
                t.len() <= j < s.len() ==> {
                    let c = #[trigger] s[j];
                    c == '.' || c == ',' || c == ';' || c == ':'
                }
            &&& t.len() > 0 ==> t.last() != '.' && t.last() != ',' && t.last() != ';' && t.last() != ':'
        }),
    decreases s.len(),
{
    if s.len() > 0 && (s.last() == '.' || s.last() == ',' || s.last() == ';' || s.last() == ':') {
        let rest = s.drop_last();
        law_punctuation_goes(rest);
        let t = without_punctuation(s);
        assert(rest.take(t.len() as int) =~= s.take(t.len() as int));
        assert forall|j: int| t.len() <= j < s.len() implies ({
            let c = #[trigger] s[j];
            c == '.' || c == ',' || c == ';' || c == ':'
        }) by {
            if j < rest.len() {
                assert(s[j] == rest[j]);
            }
        }
    } else {
        assert(s.take(s.len() as int) =~= s);
    }
}

/// Whether the address at a place of a text leads to a Wikipedia article.
pub open spec fn wikipedia_at(s: Seq<char>, i: int) -> bool {
    let rest = s.skip(i);
    (text::starts(rest, "https://"@) || text::starts(rest, "http://"@)) && text::holds(
        rest.take(link_len(rest) as int),
        "wikipedia.org/wiki/"@,
    )
}

/// The address that is found in a text is the first that leads to a Wikipedia
/// article, whole but for the punctuation behind it; if none is found, there is
/// none.
pub proof fn law_first_wikipedia_link(s: Seq<char>)
    ensures
        match wikipedia_link(s) {
            Some(u) => exists|i: int|
                {
                    &&& 0 <= i < s.len()
                    &&& #[trigger] wikipedia_at(s, i)
                    &&& u == without_punctuation(s.skip(i).take(link_len(s.skip(i)) as int))
                    &&& forall|j: int| 0 <= j < i ==> !#[trigger] wikipedia_at(s, j)
                },
            None => forall|j: int| 0 <= j < s.len() ==> !#[trigger] wikipedia_at(s, j),
        },
    decreases s.len(),
{
    assert(s.skip(0) =~= s);
    if s.len() > 0 {
        let t = s.skip(1);
        assert forall|j: int| 0 <= j < t.len() implies t.skip(j) == #[trigger] s.skip(j + 1) by {
            assert(t.skip(j) =~= s.skip(j + 1));
        }
        if wikipedia_at(s, 0) {
        } else {
            law_first_wikipedia_link(t);
            assert forall|j: int| 1 <= j < s.len() implies #[trigger] wikipedia_at(s, j) == wikipedia_at(
                t,
                j - 1,
            ) by {
                assert(t.skip(j - 1) =~= s.skip(j));
            }
            match wikipedia_link(t) {
                Some(u) => {
                    let k = choose|i: int|
                        {
                            &&& 0 <= i < t.len()
                            &&& #[trigger] wikipedia_at(t, i)
                            &&& u == without_punctuation(t.skip(i).take(link_len(t.skip(i)) as int))
                            &&& forall|j: int| 0 <= j < i ==> !#[trigger] wikipedia_at(t, j)
                        };
                    assert(wikipedia_at(s, k + 1));
                    assert(t.skip(k) =~= s.skip(k + 1));
                },
                None => {},
            }
        }
    }
}

/// The libraries have titles of their own, and one of no known type is just a
/// library.
pub proof fn law_library_titles(collection_type: Seq<char>)
    ensures
        collection_type == "music"@ ==> view_title_text(collection_type) == "Music"@,
        collection_type == "movies"@ ==> view_title_text(collection_type) == "Movies"@,
        collection_type == "tvshows"@ ==> view_title_text(collection_type) == "TV Shows"@,
        collection_type == "playlists"@ ==> view_title_text(collection_type) == "Playlists"@,
        collection_type != "music"@ && collection_type != "movies"@ && collection_type != "tvshows"@
            && collection_type != "playlists"@ ==> view_title_text(collection_type) == "Library"@,
{
    reveal_strlit("music");
    reveal_strlit("movies");
    reveal_strlit("tvshows");
    reveal_strlit("playlists");
    assert("music"@.len() == 5 && "movies"@.len() == 6 && "tvshows"@.len() == 7 && "playlists"@.len() == 9);
}

/// A locale becomes a language tag by its underscores alone: they turn into
/// hyphens, and every other character stays where it is.
pub proof fn law_language_tag(locale: Seq<char>, i: int)
    requires
        0 <= i < locale.len(),
    ensures
        hyphenated(locale).len() == locale.len(),
        locale[i] == '_' ==> hyphenated(locale)[i] == '-',
        locale[i] != '_' ==> hyphenated(locale)[i] == locale[i],
{
}

/// Each part of the line under an album's title is there by itself: the year
/// where it is known, the count where there are tracks, the time where they run.
pub proof fn law_album_line_parts(year: Option<i32>, tracks: Seq<BaseItemDto>)
    ensures
        album_parts(year, tracks) == detail::part_if(year is Some, text::signed_decimal(year->0 as int))
            + detail::part_if(
            tracks.len() > 0,
            text::decimal(tracks.len()) + (if tracks.len() == 1 {
                " pista"@
            } else {
                " pistas"@
            }),
        ) + detail::part_if(total_ticks(tracks) > 0, duration_text(total_ticks(tracks) / 10_000_000)),
{
    reveal_strlit(" pista");
    reveal_strlit(" pistas");
    reveal_strlit("s");
    assert(" pista"@ + "s"@ =~= " pistas"@);
    let n = text::decimal(tracks.len());
    assert(n + " pista"@ + "s"@ =~= n + " pistas"@);
    assert(n + " pista"@ + Seq::empty() =~= n + " pista"@);
}

} // verus!
