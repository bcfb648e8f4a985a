//! The detail page of a film or a series: the lines and labels it shows, and
//! the images it needs.
use crate::text;
use crate::types::{BaseItemDto, MediaSourceInfo, MediaStream, NameGuidPair, PersonInfo};
use crate::urls;
use vstd::prelude::*;

verus! {

// ------------------------------------------------------------ run time and dates

/// A run time of whole seconds as `1h 42m` or `42m`.
pub open spec fn runtime_text(total: int) -> Seq<char> {
    let h = text::quot(total, 3600);
    let m = text::quot(text::rem(total, 3600), 60);
    if h > 0 {
        text::signed_decimal(h) + "h "@ + text::two_digits(m) + "m"@
    } else {
        text::signed_decimal(m) + "m"@
    }
}

/// A run time of whole seconds as `1h 42m` or `42m`.
pub fn format_runtime(total: i64) -> (r: String)
    ensures
        r@ == runtime_text(total as int),
{
    let h: i64 = text::divide(total, 3600);
    let m: i64 = text::divide(text::remainder(total, 3600), 60);
    if h > 0 {
        let mut out = text::signed_decimal_of(h);
        out.append("h ");
        out.append(text::two_digits_of(m).as_str());
        out.append("m");
        out
    } else {
        let mut out = text::signed_decimal_of(m);
        out.append("m");
        out
    }
}

/// The Spanish name of a month, counted from 1.
pub open spec fn month_name(month: int) -> Option<Seq<char>> {
    if month == 1 {
        Some("enero"@)
    } else if month == 2 {
        Some("febrero"@)
    } else if month == 3 {
        Some("marzo"@)
    } else if month == 4 {
        Some("abril"@)
    } else if month == 5 {
        Some("mayo"@)
    } else if month == 6 {
        Some("junio"@)
    } else if month == 7 {
        Some("julio"@)
    } else if month == 8 {
        Some("agosto"@)
    } else if month == 9 {
        Some("septiembre"@)
    } else if month == 10 {
        Some("octubre"@)
    } else if month == 11 {
        Some("noviembre"@)
    } else if month == 12 {
        Some("diciembre"@)
    } else {
        None
    }
}

/// The Spanish name of a month, counted from 1.
fn month(n: u32) -> (r: Option<&'static str>)
    ensures
        match r {
            Some(name) => month_name(n as int) == Some(name@),
            None => month_name(n as int) is None,
        },
{
    match n {
        1 => Some("enero"),
        2 => Some("febrero"),
        3 => Some("marzo"),
        4 => Some("abril"),
        5 => Some("mayo"),
        6 => Some("junio"),
        7 => Some("julio"),
        8 => Some("agosto"),
        9 => Some("septiembre"),
        10 => Some("octubre"),
        11 => Some("noviembre"),
        12 => Some("diciembre"),
        _ => None,
    }
}

/// A date such as `2008-03-04T…` in words, `4 de marzo de 2008`; nothing if it
/// is no such date.
pub open spec fn premiere_text(iso: Seq<char>) -> Option<Seq<char>> {
    let parts = text::pieces(text::pieces(iso, 'T')[0], '-');
    if parts.len() < 3 {
        None
    } else {
        let year = text::read_number(parts[0], i32::MAX as nat);
        let month = text::read_number(parts[1], u32::MAX as nat);
        let day = text::read_number(parts[2], u32::MAX as nat);
        if year is None || month is None || day is None || month_name(month->0 as int) is None {
            None
        } else {
            Some(
                text::decimal(day->0) + " de "@ + month_name(month->0 as int)->0 + " de "@
                    + text::decimal(year->0),
            )
        }
    }
}

/// A date such as `2008-03-04T…` in words; nothing if it is no such date.
pub fn format_premiere_date(iso: &str) -> (r: Option<String>)
    ensures
        text::opt_view(r) == premiere_text(iso@),
{
    let halves = text::split_on(iso, 'T');
    assert(text::texts(halves@)[0] == halves@[0]@);
    let parts = text::split_on(halves[0].as_str(), '-');
    let ghost shown = text::texts(parts@);
    if parts.len() < 3 {
        return None;
    }
    assert(shown[0] == parts@[0]@ && shown[1] == parts@[1]@ && shown[2] == parts@[2]@);
    let y: u32 = match text::parse_number(parts[0].as_str(), 0x7fff_ffff) {
        Some(y) => y,
        None => {
            return None;
        },
    };
    let mo: u32 = match text::parse_number(parts[1].as_str(), 0xffff_ffff) {
        Some(mo) => mo,
        None => {
            return None;
        },
    };
    let d: u32 = match text::parse_number(parts[2].as_str(), 0xffff_ffff) {
        Some(d) => d,
        None => {
            return None;
        },
    };
    match month(mo) {
        None => None,
        Some(name) => {
            let mut out = text::decimal_of(d as u64);
            out.append(" de ");
            out.append(name);
            out.append(" de ");
            out.append(text::decimal_of(y as u64).as_str());
            Some(out)
        },
    }
}

// ------------------------------------------------------------ people

/// The people of a type, in order.
pub open spec fn of_type(people: Seq<PersonInfo>, person_type: Seq<char>) -> Seq<PersonInfo>
    decreases people.len(),
{
    if people.len() == 0 {
        Seq::empty()
    } else {
        let rest = of_type(people.drop_last(), person_type);
        if text::opt_view(people.last().person_type) == Some(person_type) {
            rest.push(people.last())
        } else {
            rest
        }
    }
}

/// The names of people that have one.
pub open spec fn names_of(people: Seq<PersonInfo>) -> Seq<Seq<char>>
    decreases people.len(),
{
    if people.len() == 0 {
        Seq::empty()
    } else {
        let rest = names_of(people.drop_last());
        match people.last().name {
            Some(n) => rest.push(n@),
            None => rest,
        }
    }
}

/// The people of an item.
pub open spec fn people_of(item: BaseItemDto) -> Seq<PersonInfo> {
    match item.people {
        Some(p) => p@,
        None => Seq::empty(),
    }
}

/// Whether an optional text is there and reads `want`.
pub(crate) fn is_text(have: &Option<String>, want: &str) -> (r: bool)
    ensures
        r == (text::opt_view(*have) == Some(want@)),
{
    match have {
        Some(t) => text::same_text(t.as_str(), want),
        None => false,
    }
}

/// A copy of a person.
fn copy_person(p: &PersonInfo) -> (r: PersonInfo)
    ensures
        r == *p,
{
    PersonInfo {
        id: text::copy_opt(&p.id),
        name: text::copy_opt(&p.name),
        role: text::copy_opt(&p.role),
        person_type: text::copy_opt(&p.person_type),
        primary_image_tag: text::copy_opt(&p.primary_image_tag),
    }
}

/// The people of an item that are of a type, in order.
fn select(item: &BaseItemDto, person_type: &str) -> (r: Vec<PersonInfo>)
    ensures
        r@ == of_type(people_of(*item), person_type@),
{
    let mut out: Vec<PersonInfo> = Vec::new();
    if let Some(people) = &item.people {
        let mut i: usize = 0;
        while i < people.len()
            invariant
                i <= people@.len(),
                out@ == of_type(people@.take(i as int), person_type@),
            decreases people@.len() - i,
        {
            assert(people@.take(i + 1).drop_last() =~= people@.take(i as int));
            if is_text(&people[i].person_type, person_type) {
                out.push(copy_person(&people[i]));
            }
            i = i + 1;
        }
        assert(people@.take(people@.len() as int) =~= people@);
    }
    out
}

/// A label with names behind it; nothing without names.
pub open spec fn labelled(label: Seq<char>, names: Seq<Seq<char>>) -> Seq<char> {
    if names.len() == 0 {
        Seq::empty()
    } else {
        label + ": "@ + text::join(names, ", "@)
    }
}

/// A label with names behind it; nothing without names.
fn label_names(label: &str, names: &Vec<String>) -> (r: String)
    ensures
        r@ == labelled(label@, text::texts(names@)),
{
    if names.len() == 0 {
        String::new()
    } else {
        let mut out = label.to_owned();
        out.append(": ");
        out.append(text::join_texts(names, ", ").as_str());
        out
    }
}

/// A line such as `Director: A, B` with the people of a type.
pub fn people_line(item: &BaseItemDto, person_type: &str, label: &str) -> (r: String)
    ensures
        r@ == labelled(label@, names_of(of_type(people_of(*item), person_type@))),
{
    let people = select(item, person_type);
    let mut names: Vec<String> = Vec::new();
    let mut i: usize = 0;
    while i < people.len()
        invariant
            i <= people@.len(),
            text::texts(names@) == names_of(people@.take(i as int)),
        decreases people@.len() - i,
    {
        assert(people@.take(i + 1).drop_last() =~= people@.take(i as int));
        let ghost before = text::texts(names@);
        if let Some(n) = &people[i].name {
            names.push(n.clone());
            assert(text::texts(names@) =~= before.push(n@));
        }
        i = i + 1;
    }
    assert(people@.take(people@.len() as int) =~= people@);
    label_names(label, &names)
}

// ------------------------------------------------------------ links

/// The value of the first entry whose key matches but for case, unless it is
/// empty.
pub open spec fn provider_id(ids: Seq<(String, String)>, key: Seq<char>) -> Option<Seq<char>>
    decreases ids.len(),
{
    if ids.len() == 0 {
        None
    } else if text::lowered(ids[0].0@) == text::lowered(key) {
        if ids[0].1@.len() > 0 {
            Some(ids[0].1@)
        } else {
            None
        }
    } else {
        provider_id(ids.skip(1), key)
    }
}

/// The value of the first entry whose key matches but for case, unless it is
/// empty.
fn find_provider(ids: &Vec<(String, String)>, key: &str) -> (r: Option<String>)
    ensures
        text::opt_view(r) == provider_id(ids@, key@),
{
    let mut i: usize = 0;
    assert(ids@.skip(0) =~= ids@);
    while i < ids.len()
        invariant
            i <= ids@.len(),
            provider_id(ids@, key@) == provider_id(ids@.skip(i as int), key@),
        decreases ids@.len() - i,
    {
        assert(ids@.skip(i as int)[0] == ids@[i as int]);
        assert(ids@.skip(i as int).skip(1) =~= ids@.skip(i + 1));
        if text::same_ignoring_case(ids[i].0.as_str(), key) {
            if ids[i].1.as_str().is_empty() {
                return None;
            }
            return Some(ids[i].1.clone());
        }
        i = i + 1;
    }
    assert(ids@.skip(i as int).len() == 0);
    None
}

/// The entries of the provider ids of an item.
pub open spec fn ids_of(item: BaseItemDto) -> Seq<(String, String)> {
    match item.provider_ids {
        Some(ids) => ids@,
        None => Seq::empty(),
    }
}

/// The address of a title on IMDb.
pub open spec fn imdb_link(id: Option<Seq<char>>) -> Seq<char> {
    match id {
        Some(id) => "https://www.imdb.com/title/"@ + id + "/"@,
        None => Seq::empty(),
    }
}

/// The address of a title on TMDB.
pub open spec fn tmdb_link(id: Option<Seq<char>>, is_series: bool) -> Seq<char> {
    match id {
        Some(id) => "https://www.themoviedb.org/"@ + (if is_series {
            "tv"@
        } else {
            "movie"@
        }) + "/"@ + id,
        None => Seq::empty(),
    }
}

/// The addresses of an item on IMDb and TMDB; empty where it has no id there.
pub fn provider_urls(item: &BaseItemDto, is_series: bool) -> (r: (String, String))
    ensures
        r.0@ == imdb_link(provider_id(ids_of(*item), "Imdb"@)),
        r.1@ == tmdb_link(provider_id(ids_of(*item), "Tmdb"@), is_series),
{
    let ids = match &item.provider_ids {
        Some(ids) => ids.entries(),
        None => {
            return (String::new(), String::new());
        },
    };
    let imdb = match find_provider(ids, "Imdb") {
        Some(id) => {
            let mut out = "https://www.imdb.com/title/".to_owned();
            out.append(id.as_str());
            out.append("/");
            out
        },
        None => String::new(),
    };
    let tmdb = match find_provider(ids, "Tmdb") {
        Some(id) => {
            let mut out = "https://www.themoviedb.org/".to_owned();
            if is_series {
                out.append("tv");
            } else {
                out.append("movie");
            }
            out.append("/");
            out.append(id.as_str());
            out
        },
        None => String::new(),
    };
    (imdb, tmdb)
}

// ------------------------------------------------------------ media

/// The name of a video height.
pub open spec fn resolution_text(h: int) -> Seq<char> {
    if h >= 2000 {
        "4K"@
    } else if h >= 1400 {
        "1440p"@
    } else if h >= 1000 {
        "1080p"@
    } else if h >= 700 {
        "720p"@
    } else if h >= 540 {
        "576p"@
    } else if h > 0 {
        text::decimal(h as nat) + "p"@
    } else {
        Seq::empty()
    }
}

/// The name of a video height.
pub fn resolution_label(h: i32) -> (r: String)
    ensures
        r@ == resolution_text(h as int),
{
    if h >= 2000 {
        "4K".to_owned()
    } else if h >= 1400 {
        "1440p".to_owned()
    } else if h >= 1000 {
        "1080p".to_owned()
    } else if h >= 700 {
        "720p".to_owned()
    } else if h >= 540 {
        "576p".to_owned()
    } else if h > 0 {
        let mut out = text::decimal_of(h as u64);
        out.append("p");
        out
    } else {
        String::new()
    }
}

/// The name of a video codec.
pub open spec fn video_codec_text(c: Seq<char>) -> Seq<char> {
    let low = text::lowered(c);
    if low == "hevc"@ || low == "h265"@ {
        "HEVC"@
    } else if low == "h264"@ || low == "avc"@ {
        "H.264"@
    } else if low == "av1"@ {
        "AV1"@
    } else if low == "vp9"@ {
        "VP9"@
    } else if low == "mpeg2video"@ {
        "MPEG-2"@
    } else {
        text::upper_text(low)
    }
}

/// The name of a video codec.
pub fn video_codec_label(c: &str) -> (r: String)
    ensures
        r@ == video_codec_text(c@),
        text::is_ascii_text(c@) && !known_codec(text::lowered(c@)) ==> r@ == text::uppered(c@),
{
    let low = text::lower_ascii(c);
    let l = low.as_str();
    if text::same_text(l, "hevc") || text::same_text(l, "h265") {
        "HEVC".to_owned()
    } else if text::same_text(l, "h264") || text::same_text(l, "avc") {
        "H.264".to_owned()
    } else if text::same_text(l, "av1") {
        "AV1".to_owned()
    } else if text::same_text(l, "vp9") {
        "VP9".to_owned()
    } else if text::same_text(l, "mpeg2video") {
        "MPEG-2".to_owned()
    } else {
        let r = text::to_upper(l);
        proof {
            if text::is_ascii_text(c@) {
                text::lemma_upper_of_lower(c@);
            }
        }
        r
    }
}

/// Whether a codec, in lower case, has a name of its own.
pub open spec fn known_codec(low: Seq<char>) -> bool {
    ||| low == "hevc"@
    ||| low == "h265"@
    ||| low == "h264"@
    ||| low == "avc"@
    ||| low == "av1"@
    ||| low == "vp9"@
    ||| low == "mpeg2video"@
}

/// The name of a number of channels.
pub open spec fn channel_text(ch: int) -> Seq<char> {
    if ch == 1 {
        "Mono"@
    } else if ch == 2 {
        "2.0"@
    } else if ch == 6 {
        "5.1"@
    } else if ch == 8 {
        "7.1"@
    } else {
        text::signed_decimal(ch) + "ch"@
    }
}

/// The name of a number of channels.
pub fn channel_label(ch: i32) -> (r: String)
    ensures
        r@ == channel_text(ch as int),
{
    match ch {
        1 => "Mono".to_owned(),
        2 => "2.0".to_owned(),
        6 => "5.1".to_owned(),
        8 => "7.1".to_owned(),
        n => {
            let mut out = text::signed_decimal_of(n as i64);
            out.append("ch");
            out
        },
    }
}

/// The texts that are not empty, in order.
pub open spec fn non_empty(parts: Seq<Seq<char>>) -> Seq<Seq<char>>
    decreases parts.len(),
{
    if parts.len() == 0 {
        Seq::empty()
    } else {
        let rest = non_empty(parts.drop_last());
        if parts.last().len() > 0 {
            rest.push(parts.last())
        } else {
            rest
        }
    }
}

/// The texts that are not empty, in order.
pub(crate) fn drop_empty(parts: &Vec<String>) -> (r: Vec<String>)
    ensures
        text::texts(r@) == non_empty(text::texts(parts@)),
{
    let ghost all = text::texts(parts@);
    let mut out: Vec<String> = Vec::new();
    let mut i: usize = 0;
    while i < parts.len()
        invariant
            i <= parts@.len(),
            all == text::texts(parts@),
            text::texts(out@) == non_empty(all.take(i as int)),
        decreases parts@.len() - i,
    {
        assert(all.take(i + 1).drop_last() =~= all.take(i as int));
        let ghost before = text::texts(out@);
        if !parts[i].as_str().is_empty() {
            out.push(parts[i].clone());
            assert(text::texts(out@) =~= before.push(parts@[i as int]@));
        }
        i = i + 1;
    }
    assert(all.take(parts@.len() as int) =~= all);
    out
}

/// The codec, the channels and the language of an audio track; empty where not
/// known.
pub open spec fn audio_parts(a: MediaStream) -> Seq<Seq<char>> {
    let codec = text::upper_text(text::or_empty(a.codec));
    let channels = match a.channels {
        Some(n) => channel_text(n as int),
        None => Seq::empty(),
    };
    let language = match a.language {
        Some(l) => if l@.len() > 0 {
            text::upper_text(l@)
        } else {
            Seq::empty()
        },
        None => Seq::empty(),
    };
    seq![codec, channels, language]
}

/// An audio track in words: codec, channels and language, as far as known.
pub open spec fn audio_text(a: MediaStream) -> Seq<char> {
    text::join(non_empty(audio_parts(a)), " "@)
}

/// An audio track in words: codec, channels and language, as far as known.
pub fn audio_label(a: &MediaStream) -> (r: String)
    ensures
        r@ == audio_text(*a),
{
    let mut parts: Vec<String> = Vec::new();
    parts.push(text::to_upper(text::text_or_empty(&a.codec).as_str()));
    parts.push(
        match a.channels {
            Some(n) => channel_label(n),
            None => String::new(),
        },
    );
    let language = match &a.language {
        Some(l) => {
            if l.as_str().is_empty() {
                String::new()
            } else {
                text::to_upper(l.as_str())
            }
        },
        None => String::new(),
    };
    parts.push(language);
    assert(text::texts(parts@) =~= audio_parts(*a));
    text::join_texts(&drop_empty(&parts), " ")
}

/// The first media source of an item.
pub open spec fn first_source(item: BaseItemDto) -> Option<MediaSourceInfo> {
    match item.media_sources {
        Some(m) => if m@.len() > 0 {
            Some(m@[0])
        } else {
            None
        },
        None => None,
    }
}

/// The streams of an item: its own, or those of its first source.
pub open spec fn streams_of(item: BaseItemDto) -> Seq<MediaStream> {
    match item.media_streams {
        Some(s) => s@,
        None => match first_source(item) {
            Some(source) => match source.media_streams {
                Some(s) => s@,
                None => Seq::empty(),
            },
            None => Seq::empty(),
        },
    }
}

/// The first stream of a type.
pub open spec fn first_stream(streams: Seq<MediaStream>, stream_type: Seq<char>) -> Option<MediaStream>
    decreases streams.len(),
{
    if streams.len() == 0 {
        None
    } else if text::opt_view(streams[0].stream_type) == Some(stream_type) {
        Some(streams[0])
    } else {
        first_stream(streams.skip(1), stream_type)
    }
}

/// The streams of an item, if it has a list of them.
pub(crate) fn stream_list(item: &BaseItemDto) -> (r: Option<&Vec<MediaStream>>)
    ensures
        match r {
            Some(v) => v@ == streams_of(*item),
            None => streams_of(*item).len() == 0,
        },
{
    match &item.media_streams {
        Some(s) => Some(s),
        None => match &item.media_sources {
            Some(m) => {
                if m.len() > 0 {
                    match &m[0].media_streams {
                        Some(s) => Some(s),
                        None => None,
                    }
                } else {
                    None
                }
            },
            None => None,
        },
    }
}

/// Where the first stream of a type stands; the number of streams if there is
/// none.
pub(crate) fn find_stream(streams: &Vec<MediaStream>, stream_type: &str) -> (r: usize)
    ensures
        r <= streams@.len(),
        r < streams@.len() ==> first_stream(streams@, stream_type@) == Some(streams@[r as int]),
        r == streams@.len() ==> first_stream(streams@, stream_type@) is None,
{
    let mut i: usize = 0;
    assert(streams@.skip(0) =~= streams@);
    while i < streams.len()
        invariant
            i <= streams@.len(),
            first_stream(streams@, stream_type@) == first_stream(streams@.skip(i as int), stream_type@),
        decreases streams@.len() - i,
    {
        assert(streams@.skip(i as int)[0] == streams@[i as int]);
        assert(streams@.skip(i as int).skip(1) =~= streams@.skip(i + 1));
        if is_text(&streams[i].stream_type, stream_type) {
            return i;
        }
        i = i + 1;
    }
    assert(streams@.skip(i as int).len() == 0);
    i
}

/// The labels of a video stream: height, codec, and dynamic range unless it is
/// the standard one.
pub open spec fn video_labels(v: MediaStream) -> Seq<Seq<char>> {
    (match v.height {
        Some(h) => seq![resolution_text(h as int)],
        None => Seq::empty(),
    }) + (match v.codec {
        Some(c) => seq![video_codec_text(c@)],
        None => Seq::empty(),
    }) + (match v.video_range {
        Some(r) => if r@.len() > 0 && text::lowered(r@) != text::lowered("SDR"@) {
            seq![text::upper_text(r@)]
        } else {
            Seq::empty()
        },
        None => Seq::empty(),
    })
}

/// The labels of the audio streams, in order.
pub open spec fn audio_labels(streams: Seq<MediaStream>) -> Seq<Seq<char>>
    decreases streams.len(),
{
    if streams.len() == 0 {
        Seq::empty()
    } else {
        let rest = audio_labels(streams.drop_last());
        if text::opt_view(streams.last().stream_type) == Some("Audio"@) {
            rest.push(audio_text(streams.last()))
        } else {
            rest
        }
    }
}

/// The labels of a source: container and bit rate.
pub open spec fn source_labels(source: Option<MediaSourceInfo>) -> Seq<Seq<char>> {
    match source {
        None => Seq::empty(),
        Some(s) => (match s.container {
            Some(c) => if c@.len() > 0 {
                seq![text::upper_text(c@)]
            } else {
                Seq::empty()
            },
            None => Seq::empty(),
        }) + (match s.bitrate {
            Some(b) => if b > 0 {
                seq![s.mbps@ + " Mbps"@]
            } else {
                Seq::empty()
            },
            None => Seq::empty(),
        }),
    }
}

/// All that is shown about the medium of an item, without empty labels.
pub open spec fn media_labels(item: BaseItemDto) -> Seq<Seq<char>> {
    let video = match first_stream(streams_of(item), "Video"@) {
        Some(v) => video_labels(v),
        None => Seq::empty(),
    };
    non_empty(video + audio_labels(streams_of(item)) + source_labels(first_source(item)))
}

/// Adds a label.
fn add_label(out: &mut Vec<String>, label: String)
    ensures
        text::texts(final(out)@) == text::texts(old(out)@).push(label@),
{
    out.push(label);
    assert(text::texts(out@) =~= text::texts(old(out)@).push(label@));
}

/// Adds the labels of a video stream.
fn add_video_labels(out: &mut Vec<String>, v: &MediaStream)
    ensures
        text::texts(final(out)@) == text::texts(old(out)@) + video_labels(*v),
{
    if let Some(h) = v.height {
        add_label(out, resolution_label(h));
    }
    if let Some(c) = &v.codec {
        add_label(out, video_codec_label(c.as_str()));
    }
    if let Some(r) = &v.video_range {
        if !r.as_str().is_empty() && !text::same_ignoring_case(r.as_str(), "SDR") {
            add_label(out, text::to_upper(r.as_str()));
        }
    }
    assert(text::texts(out@) =~= text::texts(old(out)@) + video_labels(*v));
}

/// Adds the labels of the audio streams.
fn add_audio_labels(out: &mut Vec<String>, streams: &Vec<MediaStream>)
    ensures
        text::texts(final(out)@) == text::texts(old(out)@) + audio_labels(streams@),
{
    let ghost before = text::texts(out@);
    let mut i: usize = 0;
    assert(text::texts(out@) =~= before + audio_labels(streams@.take(0)));
    while i < streams.len()
        invariant
            i <= streams@.len(),
            text::texts(out@) == before + audio_labels(streams@.take(i as int)),
        decreases streams@.len() - i,
    {
        let ghost done = audio_labels(streams@.take(i as int));
        assert(streams@.take(i + 1).drop_last() =~= streams@.take(i as int));
        if is_text(&streams[i].stream_type, "Audio") {
            add_label(out, audio_label(&streams[i]));
            assert(text::texts(out@) =~= before + done.push(audio_text(streams@[i as int])));
        }
        i = i + 1;
    }
    assert(streams@.take(streams@.len() as int) =~= streams@);
}

/// Adds the labels of the first source.
fn add_source_labels(out: &mut Vec<String>, sources: &Option<Vec<MediaSourceInfo>>, item: &BaseItemDto)
    requires
        *sources == item.media_sources,
    ensures
        text::texts(final(out)@) == text::texts(old(out)@) + source_labels(first_source(*item)),
{
    if let Some(m) = sources {
        if m.len() > 0 {
            let source = &m[0];
            if let Some(c) = &source.container {
                if !c.as_str().is_empty() {
                    add_label(out, text::to_upper(c.as_str()));
                }
            }
            if let Some(b) = source.bitrate {
                if b > 0 {
                    add_label(out, text::joined(source.mbps.as_str(), " Mbps"));
                }
            }
        }
    }
    assert(text::texts(out@) =~= text::texts(old(out)@) + source_labels(first_source(*item)));
}

/// All that is shown about the medium of an item: height, codec and dynamic
/// range of the video, every audio track, container and bit rate.
pub fn build_media_info(item: &BaseItemDto) -> (r: Vec<String>)
    ensures
        text::texts(r@) == media_labels(*item),
{
    let mut out: Vec<String> = Vec::new();
    let ghost streams = streams_of(*item);
    let ghost video = match first_stream(streams, "Video"@) {
        Some(v) => video_labels(v),
        None => Seq::empty(),
    };
    match stream_list(item) {
        Some(list) => {
            let at: usize = find_stream(list, "Video");
            if at < list.len() {
                add_video_labels(&mut out, &list[at]);
            }
            assert(text::texts(out@) =~= video);
            add_audio_labels(&mut out, list);
        },
        None => {
            assert(text::texts(out@) =~= video + audio_labels(streams));
        },
    }
    add_source_labels(&mut out, &item.media_sources, item);
    drop_empty(&out)
}

// ------------------------------------------------------------ the page

/// The parts of the line under the title, in order, as far as they are known:
/// year, run time, age rating, community and critic rating.
pub open spec fn meta_parts(item: BaseItemDto) -> Seq<Seq<char>> {
    (match item.production_year {
        Some(y) => seq![text::signed_decimal(y as int)],
        None => Seq::empty(),
    }) + (match item.run_time {
        Some(t) => if t.ticks > 0 {
            seq![runtime_text(t.seconds as int)]
        } else {
            Seq::empty()
        },
        None => Seq::empty(),
    }) + (match item.official_rating {
        Some(r) => if r@.len() > 0 {
            seq![r@]
        } else {
            Seq::empty()
        },
        None => Seq::empty(),
    }) + (match item.community_rating {
        Some(c) => seq!["★ "@ + c@],
        None => Seq::empty(),
    }) + (match item.critic_rating {
        Some(c) => seq!["🍅 "@ + text::signed_decimal(c as int) + "%"@],
        None => Seq::empty(),
    })
}

/// The line under the title, such as `2008 · 1h 42m · PG-13`.
pub fn detail_meta_line(item: &BaseItemDto) -> (r: String)
    ensures
        r@ == text::join(meta_parts(*item), " · "@),
{
    let mut parts: Vec<String> = Vec::new();
    if let Some(y) = item.production_year {
        add_label(&mut parts, text::signed_decimal_of(y as i64));
    }
    if let Some(t) = item.run_time {
        if t.ticks > 0 {
            add_label(&mut parts, format_runtime(t.seconds));
        }
    }
    if let Some(r) = &item.official_rating {
        if !r.as_str().is_empty() {
            add_label(&mut parts, r.clone());
        }
    }
    if let Some(c) = &item.community_rating {
        add_label(&mut parts, text::joined("★ ", c.as_str()));
    }
    if let Some(c) = item.critic_rating {
        let mut out = "🍅 ".to_owned();
        out.append(text::signed_decimal_of(c).as_str());
        out.append("%");
        add_label(&mut parts, out);
    }
    assert(text::texts(parts@) =~= meta_parts(*item));
    text::join_texts(&parts, " · ")
}

/// What the page shows in words.
#[derive(Debug)]
pub struct DetailMeta {
    pub meta: String,
    pub tagline: String,
    pub overview: String,
    pub director: String,
    pub writers: String,
    pub genres: Vec<String>,
    /// Name and role of each actor.
    pub cast: Vec<(String, String)>,
    pub premiere: String,
    pub country: String,
    pub studios: String,
    pub tags: Vec<String>,
    pub media_info: Vec<String>,
    pub imdb_url: String,
    pub tmdb_url: String,
    pub can_play: bool,
    pub children_label: String,
}

/// A portrait to be fetched for an entry of the cast.
#[derive(Debug)]
pub struct Portrait {
    pub index: usize,
    pub person_id: String,
    pub tag: String,
}

/// The page, and the images that are to be fetched for it.
#[derive(Debug)]
pub struct DetailPage {
    pub meta: DetailMeta,
    /// The tag of the first backdrop, if there is one.
    pub backdrop: Option<String>,
    pub portraits: Vec<Portrait>,
}

/// The most actors that are shown.
pub const MAX_CAST: usize = 24;

/// The actors that are shown.
pub open spec fn shown_cast(item: BaseItemDto) -> Seq<PersonInfo> {
    let actors = of_type(people_of(item), "Actor"@);
    if actors.len() > MAX_CAST {
        actors.take(MAX_CAST as int)
    } else {
        actors
    }
}

/// Name and role of each actor; empty where not known.
pub open spec fn cast_texts(actors: Seq<PersonInfo>) -> Seq<(Seq<char>, Seq<char>)> {
    actors.map_values(|p: PersonInfo| (text::or_empty(p.name), text::or_empty(p.role)))
}

/// The portraits of the first `n` actors that have an id and an image.
pub open spec fn portraits_of(actors: Seq<PersonInfo>, n: nat) -> Seq<Portrait>
    decreases n,
{
    if n == 0 {
        Seq::empty()
    } else {
        let i = (n - 1) as nat;
        let rest = portraits_of(actors, i);
        let p = actors[i as int];
        if p.id is Some && p.primary_image_tag is Some {
            rest.push(Portrait { index: i as usize, person_id: p.id->0, tag: p.primary_image_tag->0 })
        } else {
            rest
        }
    }
}

/// The names of studios that have one.
pub open spec fn studio_names(studios: Seq<NameGuidPair>) -> Seq<Seq<char>>
    decreases studios.len(),
{
    if studios.len() == 0 {
        Seq::empty()
    } else {
        let rest = studio_names(studios.drop_last());
        match studios.last().name {
            Some(n) => rest.push(n@),
            None => rest,
        }
    }
}

/// The names of an item's studios.
pub open spec fn studios_of(item: BaseItemDto) -> Seq<Seq<char>> {
    match item.studios {
        Some(s) => studio_names(s@),
        None => Seq::empty(),
    }
}

/// The first text of an optional list.
pub open spec fn first_of(list: Option<Vec<String>>) -> Option<String> {
    match list {
        Some(v) => if v@.len() > 0 {
            Some(v@[0])
        } else {
            None
        },
        None => None,
    }
}

/// The first text of an optional list.
pub(crate) fn first_text(list: &Option<Vec<String>>) -> (r: Option<String>)
    ensures
        r == first_of(*list),
{
    match list {
        Some(v) => {
            if v.len() > 0 {
                Some(v[0].clone())
            } else {
                None
            }
        },
        None => None,
    }
}

/// The date of the premiere in words, with its label; nothing without a date.
pub open spec fn premiere_line(date: Option<String>) -> Seq<char> {
    match date {
        Some(iso) => match premiere_text(iso@) {
            Some(d) => "Estreno: "@ + d,
            None => Seq::empty(),
        },
        None => Seq::empty(),
    }
}

/// Whether `m` is what the page of an item shows in words.
pub open spec fn shows(m: DetailMeta, item: BaseItemDto, is_series: bool) -> bool {
    &&& m.meta@ == text::join(meta_parts(item), " · "@)
    &&& m.tagline@ == text::or_empty(first_of(item.taglines))
    &&& m.overview@ == text::or_empty(item.overview)
    &&& m.director@ == labelled("Director"@, names_of(of_type(people_of(item), "Director"@)))
    &&& m.writers@ == labelled("Guionistas"@, names_of(of_type(people_of(item), "Writer"@)))
    &&& m.genres@ == text::list_or_empty(item.genres)
    &&& urls::pair_texts(m.cast@) == cast_texts(shown_cast(item))
    &&& m.premiere@ == premiere_line(item.premiere_date)
    &&& m.country@ == labelled("País"@, text::texts(text::list_or_empty(item.production_locations)))
    &&& m.studios@ == labelled("Estudios"@, studios_of(item))
    &&& m.tags@ == text::list_or_empty(item.tags)
    &&& text::texts(m.media_info@) == media_labels(item)
    &&& m.imdb_url@ == imdb_link(provider_id(ids_of(item), "Imdb"@))
    &&& m.tmdb_url@ == tmdb_link(provider_id(ids_of(item), "Tmdb"@), is_series)
    &&& m.can_play == !is_series
    &&& m.children_label@ == (if is_series {
        "Temporadas"@
    } else {
        Seq::empty()
    })
}

/// The names of an item's studios.
fn list_studios(item: &BaseItemDto) -> (r: Vec<String>)
    ensures
        text::texts(r@) == studios_of(*item),
{
    let mut names: Vec<String> = Vec::new();
    if let Some(studios) = &item.studios {
        let mut i: usize = 0;
        assert(text::texts(names@) =~= studio_names(studios@.take(0)));
        while i < studios.len()
            invariant
                i <= studios@.len(),
                text::texts(names@) == studio_names(studios@.take(i as int)),
            decreases studios@.len() - i,
        {
            assert(studios@.take(i + 1).drop_last() =~= studios@.take(i as int));
            if let Some(n) = &studios[i].name {
                add_label(&mut names, n.clone());
            }
            i = i + 1;
        }
        assert(studios@.take(studios@.len() as int) =~= studios@);
    } else {
        assert(text::texts(names@) =~= Seq::empty());
    }
    names
}

/// The actors that are shown.
fn cast_of(item: &BaseItemDto) -> (r: Vec<PersonInfo>)
    ensures
        r@ == shown_cast(*item),
{
    let mut actors = select(item, "Actor");
    if actors.len() > MAX_CAST {
        actors.truncate(MAX_CAST);
    }
    assert(actors@ =~= shown_cast(*item));
    actors
}

/// Name and role of each actor.
fn list_cast(actors: &Vec<PersonInfo>) -> (r: Vec<(String, String)>)
    ensures
        urls::pair_texts(r@) == cast_texts(actors@),
{
    let mut out: Vec<(String, String)> = Vec::new();
    let mut i: usize = 0;
    while i < actors.len()
        invariant
            i <= actors@.len(),
            urls::pair_texts(out@) == cast_texts(actors@).take(i as int),
        decreases actors@.len() - i,
    {
        let ghost before = urls::pair_texts(out@);
        let p = &actors[i];
        out.push((text::text_or_empty(&p.name), text::text_or_empty(&p.role)));
        assert(urls::pair_texts(out@) =~= before.push((text::or_empty(p.name), text::or_empty(p.role))));
        assert(cast_texts(actors@).take(i + 1) =~= cast_texts(actors@).take(i as int).push(
            cast_texts(actors@)[i as int],
        ));
        i = i + 1;
    }
    assert(cast_texts(actors@).take(actors@.len() as int) =~= cast_texts(actors@));
    out
}

/// The portraits of the actors that have an id and an image.
fn list_portraits(actors: &Vec<PersonInfo>) -> (r: Vec<Portrait>)
    ensures
        r@ == portraits_of(actors@, actors@.len()),
{
    let mut out: Vec<Portrait> = Vec::new();
    let mut i: usize = 0;
    while i < actors.len()
        invariant
            i <= actors@.len(),
            out@ == portraits_of(actors@, i as nat),
        decreases actors@.len() - i,
    {
        if let (Some(id), Some(tag)) = (&actors[i].id, &actors[i].primary_image_tag) {
            out.push(Portrait { index: i, person_id: id.clone(), tag: tag.clone() });
        }
        i = i + 1;
    }
    out
}

/// The detail page of a film, or of a series if `is_series`.
pub fn apply_detail(item: &BaseItemDto, is_series: bool) -> (r: DetailPage)
    ensures
        shows(r.meta, *item, is_series),
        r.backdrop == first_of(item.backdrop_image_tags),
        r.portraits@ == portraits_of(shown_cast(*item), shown_cast(*item).len()),
{
    let actors = cast_of(item);
    let (imdb_url, tmdb_url) = provider_urls(item, is_series);
    let premiere = match &item.premiere_date {
        Some(iso) => match format_premiere_date(iso.as_str()) {
            Some(d) => text::joined("Estreno: ", d.as_str()),
            None => String::new(),
        },
        None => String::new(),
    };
    let locations = text::copy_list_or_empty(&item.production_locations);
    let country = label_names("País", &locations);
    let studios = label_names("Estudios", &list_studios(item));
    let children_label = if is_series {
        "Temporadas".to_owned()
    } else {
        String::new()
    };
    let meta = DetailMeta {
        meta: detail_meta_line(item),
        tagline: text::text_or_empty(&first_text(&item.taglines)),
        overview: text::text_or_empty(&item.overview),
        director: people_line(item, "Director", "Director"),
        writers: people_line(item, "Writer", "Guionistas"),
        genres: text::copy_list_or_empty(&item.genres),
        cast: list_cast(&actors),
        premiere,
        country,
        studios,
        tags: text::copy_list_or_empty(&item.tags),
        media_info: build_media_info(item),
        imdb_url,
        tmdb_url,
        can_play: !is_series,
        children_label,
    };
    DetailPage {
        meta,
        backdrop: first_text(&item.backdrop_image_tags),
        portraits: list_portraits(&actors),
    }
}

/// The subtitle of an item's page, by its type.
pub open spec fn detail_subtitle_text(item: BaseItemDto, item_type: Seq<char>) -> Seq<char> {
    let year = match item.production_year {
        Some(y) => text::signed_decimal(y as int),
        None => Seq::empty(),
    };
    if item_type == "MusicAlbum"@ {
        match item.album_artist {
            Some(a) => a@,
            None => year,
        }
    } else if item_type == "Series"@ {
        year
    } else if item_type == "Season"@ {
        match item.child_count {
            Some(c) => text::signed_decimal(c as int) + " episodes"@,
            None => Seq::empty(),
        }
    } else {
        Seq::empty()
    }
}

/// A number in decimal; nothing if there is none.
pub(crate) fn year_text(year: Option<i32>) -> (r: String)
    ensures
        r@ == (match year {
            Some(y) => text::signed_decimal(y as int),
            None => Seq::empty(),
        }),
{
    match year {
        Some(y) => text::signed_decimal_of(y as i64),
        None => String::new(),
    }
}

/// A number with a unit behind it; nothing if there is none.
pub(crate) fn count_text(count: Option<i32>, unit: &str) -> (r: String)
    ensures
        r@ == (match count {
            Some(c) => text::signed_decimal(c as int) + unit@,
            None => Seq::empty(),
        }),
{
    match count {
        Some(c) => text::joined(text::signed_decimal_of(c as i64).as_str(), unit),
        None => String::new(),
    }
}

/// The subtitle of an item's page, by its type.
pub fn detail_subtitle(item: &BaseItemDto, item_type: &str) -> (r: String)
    ensures
        r@ == detail_subtitle_text(*item, item_type@),
{
    proof {
        reveal_strlit("MusicAlbum");
        reveal_strlit("Series");
        reveal_strlit("Season");
    }
    if text::same_text(item_type, "MusicAlbum") {
        match &item.album_artist {
            Some(a) => a.clone(),
            None => year_text(item.production_year),
        }
    } else if text::same_text(item_type, "Series") {
        year_text(item.production_year)
    } else if text::same_text(item_type, "Season") {
        count_text(item.child_count, " episodes")
    } else {
        String::new()
    }
}

/// At most so many actors are shown, none without being one, and a portrait
/// belongs to the entry of the cast that it names.
pub proof fn law_portraits_belong_to_cast(item: BaseItemDto, k: int)
    requires
        0 <= k < portraits_of(shown_cast(item), shown_cast(item).len()).len(),
    ensures
        shown_cast(item).len() <= MAX_CAST,
        ({
            let cast = shown_cast(item);
            let p = portraits_of(cast, cast.len())[k];
            &&& p.index < cast.len()
            &&& cast[p.index as int].id == Some(p.person_id)
            &&& cast[p.index as int].primary_image_tag == Some(p.tag)
        }),
{
    let cast = shown_cast(item);
    lemma_portraits(cast, cast.len(), k);
}

proof fn lemma_portraits(cast: Seq<PersonInfo>, n: nat, k: int)
    requires
        n <= cast.len() <= MAX_CAST,
        0 <= k < portraits_of(cast, n).len(),
    ensures
        ({
            let p = portraits_of(cast, n)[k];
            &&& p.index < n
            &&& cast[p.index as int].id == Some(p.person_id)
            &&& cast[p.index as int].primary_image_tag == Some(p.tag)
        }),
    decreases n,
{
    if n > 0 {
        let rest = portraits_of(cast, (n - 1) as nat);
        if k < rest.len() {
            lemma_portraits(cast, (n - 1) as nat, k);
        }
    }
}

/// The first stream of a type stands where none before it is of that type.
pub proof fn lemma_first_stream_is(streams: Seq<MediaStream>, stream_type: Seq<char>, i: int)
    requires
        0 <= i < streams.len(),
        text::opt_view(streams[i].stream_type) == Some(stream_type),
        forall|j: int| 0 <= j < i ==> text::opt_view((#[trigger] streams[j]).stream_type) != Some(stream_type),
    ensures
        first_stream(streams, stream_type) == Some(streams[i]),
    decreases i,
{
    if i > 0 {
        assert(text::opt_view(streams[0].stream_type) != Some(stream_type));
        let rest = streams.skip(1);
        assert forall|j: int| 0 <= j < i - 1 implies text::opt_view((#[trigger] rest[j]).stream_type) != Some(
            stream_type,
        ) by {
            assert(rest[j] == streams[j + 1]);
        }
        lemma_first_stream_is(rest, stream_type, i - 1);
    }
}

// ------------------------------------------------------------ laws

/// A run time of `h` hours and `m` minutes shows just these, whatever the
/// seconds: the minutes in two digits behind the hours, and no hours where there
/// are none.
pub proof fn law_run_time(h: nat, m: nat, s: nat)
    requires
        m < 60,
        s < 60,
    ensures
        h > 0 ==> runtime_text((3600 * h + 60 * m + s) as int) == text::decimal(h) + "h "@ + seq![
            (48 + m / 10) as char,
            (48 + m % 10) as char,
        ] + "m"@,
        h == 0 ==> runtime_text((60 * m + s) as int) == text::decimal(m) + "m"@,
{
    let total = (3600 * h + 60 * m + s) as int;
    let rest = (60 * m + s) as int;
    text::lemma_division_is(total, 3600, h as int, rest);
    text::lemma_division_is(rest, 60, m as int, s as int);
    text::law_two_digits(m);
}

/// Two films whose run times differ by a minute or more show differently.
#[verifier::rlimit(50)]
pub proof fn law_run_times_tell_apart(a: nat, b: nat)
    requires
        a + 60 <= b,
    ensures
        runtime_text(a as int) != runtime_text(b as int),
{
    let (h, m, s) = (a / 3600, (a % 3600) / 60, a % 60);
    let (i, n, t) = (b / 3600, (b % 3600) / 60, b % 60);
    law_run_time(h, m, s);
    law_run_time(i, n, t);
    assert(a == 3600 * h + 60 * m + s && b == 3600 * i + 60 * n + t);
    text::law_decimal_reads_back(h);
    text::law_decimal_reads_back(i);
    text::law_decimal_reads_back(m);
    text::law_decimal_reads_back(n);
    text::law_two_digits(m);
    text::law_two_digits(n);
    reveal_strlit("h ");
    reveal_strlit("m");
    let x = runtime_text(a as int);
    let y = runtime_text(b as int);
    let two_m = seq![(48 + m / 10) as char, (48 + m % 10) as char];
    let two_n = seq![(48 + n / 10) as char, (48 + n % 10) as char];
    if x == y {
        assert(h <= i);
        if h > 0 {
            assert(x =~= text::decimal(h) + seq!['h'] + (seq![' '] + two_m + "m"@));
            assert(y =~= text::decimal(i) + seq!['h'] + (seq![' '] + two_n + "m"@));
            lemma_no_letter(h);
            lemma_no_letter(i);
            text::lemma_same_parts(
                text::decimal(h),
                seq![' '] + two_m + "m"@,
                text::decimal(i),
                seq![' '] + two_n + "m"@,
                'h',
            );
            assert((seq![' '] + two_m + "m"@)[1] == two_m[0] && (seq![' '] + two_m + "m"@)[2] == two_m[1]);
            assert((seq![' '] + two_n + "m"@)[1] == two_n[0] && (seq![' '] + two_n + "m"@)[2] == two_n[1]);
            assert((48 + m / 10) as char as u32 == 48 + m / 10 && (48 + n / 10) as char as u32 == 48 + n / 10);
            assert((48 + m % 10) as char as u32 == 48 + m % 10 && (48 + n % 10) as char as u32 == 48 + n % 10);
        } else if i > 0 {
            lemma_no_letter(m);
            lemma_no_letter(i);
            let k = text::decimal(i).len() as int;
            assert(y[k] == 'h');
            assert(x.len() == text::decimal(m).len() + 1 && y.len() == k + 5);
            assert(x[k] == text::decimal(m)[k]);
            assert(text::decimal(m).contains(text::decimal(m)[k]));
        } else {
            assert(x.take(x.len() - 1) =~= text::decimal(m));
            assert(y.take(y.len() - 1) =~= text::decimal(n));
            text::law_decimals_differ(m as int, n as int);
        }
    }
}

proof fn lemma_no_letter(n: nat)
    ensures
        !text::decimal(n).contains('h'),
        !text::decimal(n).contains('-'),
        !text::decimal(n).contains('T'),
{
    text::law_decimal_reads_back(n);
    let s = text::decimal(n);
    assert forall|c: char| c == 'h' || c == '-' || c == 'T' implies !#[trigger] s.contains(c) by {
        if s.contains(c) {
            let j = choose|j: int| 0 <= j < s.len() && s[j] == c;
            assert('0' <= s[j] && s[j] <= '9');
        }
    }
}

/// The months have their Spanish names, from January to December, and there are
/// no others.
pub proof fn law_months(month: int)
    ensures
        month_name(month) is Some <==> 1 <= month <= 12,
        1 <= month <= 12 ==> month_name(month) == Some(
            seq![
                "enero"@,
                "febrero"@,
                "marzo"@,
                "abril"@,
                "mayo"@,
                "junio"@,
                "julio"@,
                "agosto"@,
                "septiembre"@,
                "octubre"@,
                "noviembre"@,
                "diciembre"@,
            ][month - 1],
        ),
{
}

/// A date of a year, a month and a day, each a number between hyphens, shows the
/// day, the month by its name and the year, whatever the time of day behind it.
#[verifier::rlimit(50)]
pub proof fn law_premiere(year: Seq<char>, month: Seq<char>, day: Seq<char>, time: Seq<char>)
    requires
        !year.contains('-') && !month.contains('-') && !day.contains('-'),
        !year.contains('T') && !month.contains('T') && !day.contains('T'),
    ensures
        ({
            let y = text::read_number(year, i32::MAX as nat);
            let m = text::read_number(month, u32::MAX as nat);
            let d = text::read_number(day, u32::MAX as nat);
            let date = year + seq!['-'] + month + seq!['-'] + day;
            &&& y is Some && m is Some && d is Some && 1 <= m->0 <= 12 ==> premiere_text(date) == Some(
                text::decimal(d->0) + " de "@ + month_name(m->0 as int)->0 + " de "@ + text::decimal(y->0),
            )
            &&& y is None || m is None || d is None || !(1 <= m->0 <= 12) ==> premiere_text(date) is None
            &&& premiere_text(date + seq!['T'] + time) == premiere_text(date)
        }),
{
    let date = year + seq!['-'] + month + seq!['-'] + day;
    let tail = month + seq!['-'] + day;
    assert(date =~= year + seq!['-'] + tail);
    assert(!date.contains('T')) by {
        if date.contains('T') {
            let j = choose|j: int| 0 <= j < date.len() && date[j] == 'T';
            if j < year.len() {
                assert(year.contains(year[j]));
            } else if j > year.len() && j < year.len() + 1 + month.len() {
                assert(month.contains(month[j - year.len() - 1]));
            } else if j > year.len() + 1 + month.len() {
                assert(day.contains(day[j - year.len() - month.len() - 2]));
            }
        }
    }
    lemma_whole(date, 'T');
    text::lemma_cut_is(date, time, 'T');
    assert(text::pieces(date + seq!['T'] + time, 'T') =~= seq![date] + text::pieces(time, 'T'));
    text::lemma_cut_is(year, tail, '-');
    text::lemma_cut_is(month, day, '-');
    lemma_whole(day, '-');
    assert(text::pieces(tail, '-') =~= seq![month] + seq![day]);
    assert(text::pieces(date, '-') =~= seq![year] + (seq![month] + seq![day]));
    let parts = text::pieces(date, '-');
    assert(parts[0] == year && parts[1] == month && parts[2] == day && parts.len() == 3);
    if text::read_number(month, u32::MAX as nat) is Some {
        law_months(text::read_number(month, u32::MAX as nat)->0 as int);
    }
}

/// A text without a character is one piece.
proof fn lemma_whole(s: Seq<char>, c: char)
    requires
        !s.contains(c),
    ensures
        text::pieces(s, c) == seq![s],
{
    text::law_cut(s, c);
    match text::cut(s, c) {
        Some((a, b)) => {
            assert(s[a.len() as int] == c);
        },
        None => {},
    }
}

/// The people of a type are all those of the list that have it, in its order,
/// and no others.
pub proof fn law_people_of_a_type(a: Seq<PersonInfo>, b: Seq<PersonInfo>, p: PersonInfo, t: Seq<char>)
    ensures
        of_type(Seq::empty(), t) == Seq::<PersonInfo>::empty(),
        of_type(seq![p], t) == (if p.person_type is Some && p.person_type->0@ == t {
            seq![p]
        } else {
            Seq::empty()
        }),
        of_type(a + b, t) == of_type(a, t) + of_type(b, t),
    decreases b.len(),
{
    assert(seq![p].drop_last() =~= Seq::empty());
    assert(of_type(Seq::<PersonInfo>::empty(), t) =~= Seq::empty());
    assert(of_type(seq![p], t) =~= (if p.person_type is Some && p.person_type->0@ == t {
        seq![p]
    } else {
        Seq::empty()
    }));
    if b.len() == 0 {
        assert(a + b =~= a);
        assert(of_type(a + b, t) =~= of_type(a, t) + of_type(b, t));
    } else {
        law_people_of_a_type(a, b.drop_last(), p, t);
        assert((a + b).drop_last() =~= a + b.drop_last());
        assert(of_type(a + b, t) =~= of_type(a, t) + of_type(b, t));
    }
}

/// The names of people are those of all who have one, in order.
pub proof fn law_names_of_people(a: Seq<PersonInfo>, b: Seq<PersonInfo>, p: PersonInfo)
    ensures
        names_of(Seq::empty()) == Seq::<Seq<char>>::empty(),
        names_of(seq![p]) == (if p.name is Some {
            seq![p.name->0@]
        } else {
            Seq::empty()
        }),
        names_of(a + b) == names_of(a) + names_of(b),
    decreases b.len(),
{
    assert(seq![p].drop_last() =~= Seq::empty());
    assert(names_of(Seq::<PersonInfo>::empty()) =~= Seq::empty());
    assert(names_of(seq![p]) =~= (if p.name is Some {
        seq![p.name->0@]
    } else {
        Seq::empty()
    }));
    if b.len() == 0 {
        assert(a + b =~= a);
        assert(names_of(a + b) =~= names_of(a) + names_of(b));
    } else {
        law_names_of_people(a, b.drop_last(), p);
        assert((a + b).drop_last() =~= a + b.drop_last());
        assert(names_of(a + b) =~= names_of(a) + names_of(b));
    }
}

/// The names of studios are those of all that have one, in order.
pub proof fn law_names_of_studios(a: Seq<NameGuidPair>, b: Seq<NameGuidPair>, p: NameGuidPair)
    ensures
        studio_names(Seq::empty()) == Seq::<Seq<char>>::empty(),
        studio_names(seq![p]) == (if p.name is Some {
            seq![p.name->0@]
        } else {
            Seq::empty()
        }),
        studio_names(a + b) == studio_names(a) + studio_names(b),
    decreases b.len(),
{
    assert(seq![p].drop_last() =~= Seq::empty());
    assert(studio_names(Seq::<NameGuidPair>::empty()) =~= Seq::empty());
    assert(studio_names(seq![p]) =~= (if p.name is Some {
        seq![p.name->0@]
    } else {
        Seq::empty()
    }));
    if b.len() == 0 {
        assert(a + b =~= a);
        assert(studio_names(a + b) =~= studio_names(a) + studio_names(b));
    } else {
        law_names_of_studios(a, b.drop_last(), p);
        assert((a + b).drop_last() =~= a + b.drop_last());
        assert(studio_names(a + b) =~= studio_names(a) + studio_names(b));
    }
}

/// A line of names is its label, a colon and the names between commas; there is
/// no line without names.
pub proof fn law_labelled_names(label: Seq<char>, names: Seq<Seq<char>>, name: Seq<char>)
    ensures
        labelled(label, Seq::empty()) == Seq::<char>::empty(),
        labelled(label, seq![name]) == label + ": "@ + name,
        names.len() > 0 ==> labelled(label, names + seq![name]) == labelled(label, names) + ", "@ + name,
{
    text::law_join(names, seq![name], name, ", "@);
    if names.len() > 0 {
        assert(labelled(label, names + seq![name]) =~= labelled(label, names) + ", "@ + name);
    }
}

/// The id with a provider is the value of the first entry whose key matches but
/// for case; without one, or where it is empty, there is none.
pub proof fn law_provider_id(ids: Seq<(String, String)>, key: Seq<char>, i: int)
    ensures
        0 <= i < ids.len() && text::lowered(ids[i].0@) == text::lowered(key) && (forall|j: int|
            0 <= j < i ==> text::lowered((#[trigger] ids[j]).0@) != text::lowered(key)) ==> provider_id(ids, key)
            == (if ids[i].1@.len() > 0 {
            Some(ids[i].1@)
        } else {
            None
        }),
        (forall|j: int| 0 <= j < ids.len() ==> text::lowered((#[trigger] ids[j]).0@) != text::lowered(key))
            ==> provider_id(ids, key) is None,
    decreases ids.len(),
{
    if ids.len() > 0 {
        let rest = ids.skip(1);
        law_provider_id(rest, key, i - 1);
        if 0 <= i < ids.len() && (forall|j: int|
            0 <= j < i ==> text::lowered((#[trigger] ids[j]).0@) != text::lowered(key)) && i > 0 {
            assert(text::lowered(ids[0].0@) != text::lowered(key));
            assert forall|j: int| 0 <= j < i - 1 implies text::lowered((#[trigger] rest[j]).0@)
                != text::lowered(key) by {
                assert(rest[j] == ids[j + 1]);
            }
            assert(rest[i - 1] == ids[i]);
        }
        if forall|j: int| 0 <= j < ids.len() ==> text::lowered((#[trigger] ids[j]).0@) != text::lowered(key) {
            assert(text::lowered(ids[0].0@) != text::lowered(key));
            assert forall|j: int| 0 <= j < rest.len() implies text::lowered((#[trigger] rest[j]).0@)
                != text::lowered(key) by {
                assert(rest[j] == ids[j + 1]);
            }
        }
    }
}

/// The links to IMDb and TMDB lead to the item's own id there, and those of
/// films and series apart; without an id there is no link.
#[verifier::rlimit(50)]
pub proof fn law_links(id: Seq<char>, other: Seq<char>, is_series: bool)
    ensures
        imdb_link(Some(id)) == "https://www.imdb.com/title/"@ + id + "/"@,
        tmdb_link(Some(id), true) == "https://www.themoviedb.org/tv/"@ + id,
        tmdb_link(Some(id), false) == "https://www.themoviedb.org/movie/"@ + id,
        imdb_link(None) == Seq::<char>::empty(),
        tmdb_link(None, is_series) == Seq::<char>::empty(),
        imdb_link(Some(id)) == imdb_link(Some(other)) ==> id == other,
        tmdb_link(Some(id), is_series) == tmdb_link(Some(other), is_series) ==> id == other,
{
    reveal_strlit("https://www.themoviedb.org/");
    reveal_strlit("https://www.themoviedb.org/tv/");
    reveal_strlit("https://www.themoviedb.org/movie/");
    reveal_strlit("tv");
    reveal_strlit("movie");
    reveal_strlit("/");
    assert("https://www.themoviedb.org/"@ + "tv"@ + "/"@ =~= "https://www.themoviedb.org/tv/"@);
    assert("https://www.themoviedb.org/"@ + "movie"@ + "/"@ =~= "https://www.themoviedb.org/movie/"@);
    assert(tmdb_link(Some(id), true) =~= "https://www.themoviedb.org/tv/"@ + id);
    assert(tmdb_link(Some(id), false) =~= "https://www.themoviedb.org/movie/"@ + id);
    assert(tmdb_link(Some(other), true) =~= "https://www.themoviedb.org/tv/"@ + other);
    assert(tmdb_link(Some(other), false) =~= "https://www.themoviedb.org/movie/"@ + other);
    let p = "https://www.imdb.com/title/"@;
    if imdb_link(Some(id)) == imdb_link(Some(other)) {
        let x = imdb_link(Some(id));
        let n = p.len() as int;
        assert(x.len() == n + id.len() + 1 && x.len() == n + other.len() + 1);
        assert(x.subrange(n, n + id.len()) =~= id);
        assert(x.subrange(n, n + id.len()) =~= other);
    }
    let front = if is_series {
        "https://www.themoviedb.org/tv/"@
    } else {
        "https://www.themoviedb.org/movie/"@
    };
    if tmdb_link(Some(id), is_series) == tmdb_link(Some(other), is_series) {
        assert((front + id).skip(front.len() as int) =~= id);
        assert((front + other).skip(front.len() as int) =~= other);
    }
}

/// A height is named by the resolution whose range it falls into; one below all
/// of them shows as it is, and none at all as nothing.
pub proof fn law_resolutions(h: int)
    ensures
        h >= 2000 ==> resolution_text(h) == "4K"@,
        1400 <= h < 2000 ==> resolution_text(h) == "1440p"@,
        1000 <= h < 1400 ==> resolution_text(h) == "1080p"@,
        700 <= h < 1000 ==> resolution_text(h) == "720p"@,
        540 <= h < 700 ==> resolution_text(h) == "576p"@,
        0 < h < 540 ==> resolution_text(h) == text::decimal(h as nat) + "p"@,
        h <= 0 ==> resolution_text(h) == Seq::<char>::empty(),
{
}

/// Codecs go by their usual names, in capitals or not; one that has none shows in
/// capitals.
#[verifier::rlimit(50)]
pub proof fn law_codec_names(c: Seq<char>)
    ensures
        ({
            let low = text::lowered(c);
            &&& low == "hevc"@ || low == "h265"@ ==> video_codec_text(c) == "HEVC"@
            &&& low == "h264"@ || low == "avc"@ ==> video_codec_text(c) == "H.264"@
            &&& low == "av1"@ ==> video_codec_text(c) == "AV1"@
            &&& low == "vp9"@ ==> video_codec_text(c) == "VP9"@
            &&& low == "mpeg2video"@ ==> video_codec_text(c) == "MPEG-2"@
            &&& !known_codec(low) && text::is_ascii_text(c) ==> video_codec_text(c) == text::uppered(c)
            &&& known_codec(low) <==> low == "hevc"@ || low == "h265"@ || low == "h264"@ || low == "avc"@ || low
                == "av1"@ || low == "vp9"@ || low == "mpeg2video"@
        }),
{
    reveal_strlit("hevc");
    reveal_strlit("h265");
    reveal_strlit("h264");
    reveal_strlit("avc");
    reveal_strlit("av1");
    reveal_strlit("vp9");
    reveal_strlit("mpeg2video");
    assert("hevc"@.len() == 4 && "h265"@.len() == 4 && "h264"@.len() == 4 && "avc"@.len() == 3 && "av1"@.len()
        == 3 && "vp9"@.len() == 3 && "mpeg2video"@.len() == 10);
    assert("hevc"@[1] == 'e' && "h265"@[3] == '5' && "h264"@[3] == '4' && "h264"@[1] == '2' && "h265"@[1]
        == '2');
    assert("avc"@[2] == 'c' && "av1"@[2] == '1' && "vp9"@[0] == 'v' && "avc"@[0] == 'a' && "av1"@[0] == 'a');
    if text::is_ascii_text(c) {
        text::lemma_upper_of_lower(c);
        text::law_case_of_ascii_text(text::lowered(c));
    }
}

/// The usual numbers of channels go by their names, and any other by itself.
pub proof fn law_channel_names(ch: int)
    ensures
        ch == 1 ==> channel_text(ch) == "Mono"@,
        ch == 2 ==> channel_text(ch) == "2.0"@,
        ch == 6 ==> channel_text(ch) == "5.1"@,
        ch == 8 ==> channel_text(ch) == "7.1"@,
        ch != 1 && ch != 2 && ch != 6 && ch != 8 ==> channel_text(ch) == text::signed_decimal(ch) + "ch"@,
{
}

/// Dropping empty labels drops those and no others, and keeps the order.
pub proof fn law_empty_labels_go(a: Seq<Seq<char>>, b: Seq<Seq<char>>, x: Seq<char>)
    ensures
        non_empty(Seq::empty()) == Seq::<Seq<char>>::empty(),
        non_empty(seq![x]) == (if x.len() > 0 {
            seq![x]
        } else {
            Seq::empty()
        }),
        non_empty(a + b) == non_empty(a) + non_empty(b),
    decreases b.len(),
{
    assert(seq![x].drop_last() =~= Seq::empty());
    assert(non_empty(Seq::<Seq<char>>::empty()) =~= Seq::empty());
    assert(non_empty(seq![x]) =~= (if x.len() > 0 {
        seq![x]
    } else {
        Seq::empty()
    }));
    if b.len() == 0 {
        assert(a + b =~= a);
        assert(non_empty(a + b) =~= non_empty(a) + non_empty(b));
    } else {
        law_empty_labels_go(a, b.drop_last(), x);
        assert((a + b).drop_last() =~= a + b.drop_last());
        assert(non_empty(a + b) =~= non_empty(a) + non_empty(b));
    }
}

/// An audio track shows its codec in capitals, its channels and its language in
/// capitals, in this order; what is not known is left out.
#[verifier::rlimit(50)]
pub proof fn law_audio_label(a: MediaStream)
    requires
        a.codec is Some && a.codec->0@.len() > 0 && text::is_ascii_text(a.codec->0@),
        a.channels is Some,
        a.language is Some && a.language->0@.len() > 0 && text::is_ascii_text(a.language->0@),
    ensures
        audio_text(a) == text::uppered(a.codec->0@) + " "@ + channel_text(a.channels->0 as int) + " "@
            + text::uppered(a.language->0@),
        forall|b: MediaStream|
            #![trigger audio_text(b)]
            b.codec == a.codec && b.channels == a.channels && b.language is None ==> audio_text(b)
                == text::uppered(a.codec->0@) + " "@ + channel_text(a.channels->0 as int),
{
    let x = text::uppered(a.codec->0@);
    let y = channel_text(a.channels->0 as int);
    let z = text::uppered(a.language->0@);
    let none = Seq::<char>::empty();
    lemma_channel_text_is_there(a.channels->0 as int);
    assert(audio_parts(a) =~= seq![x] + (seq![y] + seq![z]));
    law_empty_labels_go(seq![x], seq![y] + seq![z], x);
    law_empty_labels_go(seq![y], seq![z], y);
    law_empty_labels_go(seq![z], seq![z], z);
    text::law_join(seq![x], seq![y] + seq![z], x, " "@);
    text::law_join(seq![y], seq![z], y, " "@);
    text::law_join(seq![z], seq![z], z, " "@);
    assert(audio_text(a) =~= x + " "@ + y + " "@ + z);
    assert forall|b: MediaStream|
        #![trigger audio_text(b)]
        b.codec == a.codec && b.channels == a.channels && b.language is None implies audio_text(b) == x + " "@
        + y by {
        assert(audio_parts(b) =~= seq![x] + (seq![y] + seq![none]));
        law_empty_labels_go(seq![x], seq![y] + seq![none], x);
        law_empty_labels_go(seq![y], seq![none], none);
        assert(non_empty(audio_parts(b)) =~= seq![x] + seq![y]);
        text::law_join(seq![x], seq![y], x, " "@);
        text::law_join(seq![y], seq![y], y, " "@);
    }
}

proof fn lemma_channel_text_is_there(ch: int)
    ensures
        channel_text(ch).len() > 0,
{
    reveal_strlit("Mono");
    reveal_strlit("2.0");
    reveal_strlit("5.1");
    reveal_strlit("7.1");
    reveal_strlit("ch");
}

/// The labels of a video stream are its height, its codec and its dynamic range
/// in capitals, in this order; the standard range is not shown.
pub proof fn law_video_labels(v: MediaStream)
    requires
        v.height is Some,
        v.codec is Some,
    ensures
        v.video_range is None ==> video_labels(v) == seq![
            resolution_text(v.height->0 as int),
            video_codec_text(v.codec->0@),
        ],
        v.video_range is Some && text::lowered(v.video_range->0@) == "sdr"@ ==> video_labels(v) == seq![
            resolution_text(v.height->0 as int),
            video_codec_text(v.codec->0@),
        ],
        v.video_range is Some && v.video_range->0@.len() > 0 && text::is_ascii_text(v.video_range->0@)
            && text::lowered(v.video_range->0@) != "sdr"@ ==> video_labels(v) == seq![
            resolution_text(v.height->0 as int),
            video_codec_text(v.codec->0@),
            text::uppered(v.video_range->0@),
        ],
{
    reveal_strlit("SDR");
    reveal_strlit("sdr");
    assert(text::lowered("SDR"@) =~= "sdr"@) by {
        text::law_ascii_case("SDR"@, 0);
        text::law_ascii_case("SDR"@, 1);
        text::law_ascii_case("SDR"@, 2);
        let l = text::lowered("SDR"@);
        assert(l[0] as u32 == 115 && l[1] as u32 == 100 && l[2] as u32 == 114);
        assert(l[0] == 's' && l[1] == 'd' && l[2] == 'r');
    }
    let two = seq![resolution_text(v.height->0 as int), video_codec_text(v.codec->0@)];
    match v.video_range {
        None => {
            assert(video_labels(v) =~= two);
        },
        Some(r) => {
            if r@.len() > 0 && text::lowered(r@) != "sdr"@ {
                assert(video_labels(v) =~= two + seq![text::upper_text(r@)]);
                if text::is_ascii_text(r@) {
                    assert(video_labels(v) =~= seq![two[0], two[1], text::uppered(r@)]);
                }
            } else {
                assert(video_labels(v) =~= two);
            }
        },
    }
}

/// Every audio stream is shown, in order, and no other stream is.
pub proof fn law_audio_streams_are_shown(a: Seq<MediaStream>, b: Seq<MediaStream>, s: MediaStream)
    ensures
        audio_labels(Seq::empty()) == Seq::<Seq<char>>::empty(),
        audio_labels(seq![s]) == (if s.stream_type is Some && s.stream_type->0@ == "Audio"@ {
            seq![audio_text(s)]
        } else {
            Seq::empty()
        }),
        audio_labels(a + b) == audio_labels(a) + audio_labels(b),
    decreases b.len(),
{
    assert(seq![s].drop_last() =~= Seq::empty());
    assert(audio_labels(Seq::<MediaStream>::empty()) =~= Seq::empty());
    assert(audio_labels(seq![s]) =~= (if s.stream_type is Some && s.stream_type->0@ == "Audio"@ {
        seq![audio_text(s)]
    } else {
        Seq::empty()
    }));
    if b.len() == 0 {
        assert(a + b =~= a);
        assert(audio_labels(a + b) =~= audio_labels(a) + audio_labels(b));
    } else {
        law_audio_streams_are_shown(a, b.drop_last(), s);
        assert((a + b).drop_last() =~= a + b.drop_last());
        assert(audio_labels(a + b) =~= audio_labels(a) + audio_labels(b));
    }
}

/// What is shown about a medium is the first video stream, then every audio
/// stream, then container and bit rate of the first source, without empty
/// labels. A container shows in capitals, a bit rate only above zero.
pub proof fn law_media_labels(item: BaseItemDto, i: int, source: MediaSourceInfo)
    ensures
        0 <= i < streams_of(item).len() && text::opt_view(streams_of(item)[i].stream_type) == Some("Video"@) && (
        forall|j: int|
            0 <= j < i ==> text::opt_view((#[trigger] streams_of(item)[j]).stream_type) != Some("Video"@))
            ==> media_labels(item) == non_empty(video_labels(streams_of(item)[i])) + non_empty(
            audio_labels(streams_of(item)),
        ) + non_empty(source_labels(first_source(item))),
        source_labels(None) == Seq::<Seq<char>>::empty(),
        source.container is Some && text::is_ascii_text(source.container->0@) && source.container->0@.len() > 0
            && source.bitrate is Some && source.bitrate->0 > 0 ==> source_labels(Some(source)) == seq![
            text::uppered(source.container->0@),
            source.mbps@ + " Mbps"@,
        ],
        source.container is None && source.bitrate is Some && source.bitrate->0 <= 0 ==> source_labels(
            Some(source),
        ) == Seq::<Seq<char>>::empty(),
        item.media_streams is Some ==> streams_of(item) == item.media_streams->0@,
        item.media_sources is Some && item.media_sources->0@.len() > 0 ==> first_source(item) == Some(
            item.media_sources->0@[0],
        ),
{
    if 0 <= i < streams_of(item).len() && text::opt_view(streams_of(item)[i].stream_type) == Some("Video"@) && (
    forall|j: int|
        0 <= j < i ==> text::opt_view((#[trigger] streams_of(item)[j]).stream_type) != Some("Video"@)) {
        lemma_first_stream_is(streams_of(item), "Video"@, i);
        let v = video_labels(streams_of(item)[i]);
        let a = audio_labels(streams_of(item));
        let s = source_labels(first_source(item));
        law_empty_labels_go(v, a, Seq::empty());
        law_empty_labels_go(v + a, s, Seq::empty());
    }
    if source.container is Some && source.container->0@.len() > 0 && source.bitrate is Some && source.bitrate->0
        > 0 {
        assert(source_labels(Some(source)) =~= seq![
            text::upper_text(source.container->0@),
            source.mbps@ + " Mbps"@,
        ]);
    }
    if source.container is None && source.bitrate is Some && source.bitrate->0 <= 0 {
        assert(source_labels(Some(source)) =~= Seq::<Seq<char>>::empty());
    }
}

/// The line under the title holds year, run time, age rating, community rating
/// behind a star and critics' rating behind a tomato, in this order.
pub proof fn law_meta_line(item: BaseItemDto)
    requires
        item.production_year is Some,
        item.run_time is Some && item.run_time->0.ticks > 0,
        item.official_rating is Some && item.official_rating->0@.len() > 0,
        item.community_rating is Some,
        item.critic_rating is Some,
    ensures
        meta_parts(item) == seq![
            text::signed_decimal(item.production_year->0 as int),
            runtime_text(item.run_time->0.seconds as int),
            item.official_rating->0@,
            "★ "@ + item.community_rating->0@,
            "🍅 "@ + text::signed_decimal(item.critic_rating->0 as int) + "%"@,
        ],
{
    assert(meta_parts(item) =~= seq![
        text::signed_decimal(item.production_year->0 as int),
        runtime_text(item.run_time->0.seconds as int),
        item.official_rating->0@,
        "★ "@ + item.community_rating->0@,
        "🍅 "@ + text::signed_decimal(item.critic_rating->0 as int) + "%"@,
    ]);
}

/// What is not known about an item is left out of the line under its title, and
/// nothing else is.
pub proof fn law_meta_line_leaves_out_what_is_missing(item: BaseItemDto)
    requires
        item.run_time is None || item.run_time->0.ticks <= 0,
        item.official_rating is None || item.official_rating->0@.len() == 0,
        item.critic_rating is None,
    ensures
        item.production_year is None && item.community_rating is None ==> meta_parts(item) == Seq::<
            Seq<char>,
        >::empty(),
        item.production_year is Some && item.community_rating is None ==> meta_parts(item) == seq![
            text::signed_decimal(item.production_year->0 as int),
        ],
        item.production_year is None && item.community_rating is Some ==> meta_parts(item) == seq![
            "★ "@ + item.community_rating->0@,
        ],
        item.production_year is Some && item.community_rating is Some ==> meta_parts(item) == seq![
            text::signed_decimal(item.production_year->0 as int),
            "★ "@ + item.community_rating->0@,
        ],
{
    let year = match item.production_year {
        Some(y) => seq![text::signed_decimal(y as int)],
        None => Seq::empty(),
    };
    let rating = match item.community_rating {
        Some(c) => seq!["★ "@ + c@],
        None => Seq::empty(),
    };
    assert(meta_parts(item) =~= year + rating);
    assert(year + Seq::empty() =~= year);
    assert(Seq::empty() + rating =~= rating);
}

/// The cast are the first actors, as many as are shown, each with their own name
/// and role.
pub proof fn law_cast(item: BaseItemDto, i: int)
    requires
        0 <= i < shown_cast(item).len(),
    ensures
        ({
            let actors = of_type(people_of(item), "Actor"@);
            &&& shown_cast(item).len() == (if actors.len() < 24 {
                actors.len()
            } else {
                24
            })
            &&& shown_cast(item)[i] == actors[i]
            &&& cast_texts(shown_cast(item)).len() == shown_cast(item).len()
            &&& actors[i].name is Some ==> cast_texts(shown_cast(item))[i].0 == actors[i].name->0@
            &&& actors[i].role is Some ==> cast_texts(shown_cast(item))[i].1 == actors[i].role->0@
        }),
{
}

/// Everybody in the cast who has an id and an image gets a portrait.
pub proof fn law_portraits_are_complete(cast: Seq<PersonInfo>, n: nat, i: int)
    requires
        n <= cast.len(),
        cast.len() <= usize::MAX,
        0 <= i < n,
        cast[i].id is Some,
        cast[i].primary_image_tag is Some,
    ensures
        exists|k: int|
            {
                &&& 0 <= k < portraits_of(cast, n).len()
                &&& (#[trigger] portraits_of(cast, n)[k]).index == i
                &&& portraits_of(cast, n)[k].person_id == cast[i].id->0
                &&& portraits_of(cast, n)[k].tag == cast[i].primary_image_tag->0
            },
    decreases n,
{
    let m = (n - 1) as nat;
    let rest = portraits_of(cast, m);
    if i == m {
        assert(portraits_of(cast, n)[rest.len() as int].index == i);
    } else {
        law_portraits_are_complete(cast, m, i);
        let k = choose|k: int|
            {
                &&& 0 <= k < rest.len()
                &&& (#[trigger] rest[k]).index == i
                &&& rest[k].person_id == cast[i].id->0
                &&& rest[k].tag == cast[i].primary_image_tag->0
            };
        assert(portraits_of(cast, n)[k] == rest[k]);
    }
}

/// A page shows its own item: overview, first tagline, genres, tags, directors
/// and writers, countries and studios, and links; a film can be played, and a
/// series has its seasons below.
pub proof fn law_page_shows_its_item(m: DetailMeta, item: BaseItemDto, is_series: bool)
    requires
        shows(m, item, is_series),
    ensures
        m.meta@ == text::join(meta_parts(item), " · "@),
        item.overview is Some ==> m.overview@ == item.overview->0@,
        item.overview is None ==> m.overview@.len() == 0,
        item.taglines is None ==> m.tagline@.len() == 0,
        item.genres is None ==> m.genres@.len() == 0,
        item.tags is None ==> m.tags@.len() == 0,
        item.people is None ==> m.director@.len() == 0 && m.writers@.len() == 0,
        item.production_locations is None ==> m.country@.len() == 0,
        item.studios is None ==> m.studios@.len() == 0,
        item.premiere_date is Some && premiere_text(item.premiere_date->0@) is None ==> m.premiere@.len() == 0,
        item.taglines is Some && item.taglines->0@.len() > 0 ==> m.tagline@ == item.taglines->0@[0]@,
        item.genres is Some ==> m.genres@ == item.genres->0@,
        item.tags is Some ==> m.tags@ == item.tags->0@,
        item.people is Some ==> m.director@ == labelled(
            "Director"@,
            names_of(of_type(item.people->0@, "Director"@)),
        ) && m.writers@ == labelled("Guionistas"@, names_of(of_type(item.people->0@, "Writer"@))),
        item.production_locations is Some ==> m.country@ == labelled(
            "País"@,
            text::texts(item.production_locations->0@),
        ),
        item.studios is Some ==> m.studios@ == labelled("Estudios"@, studio_names(item.studios->0@)),
        item.premiere_date is Some && premiere_text(item.premiere_date->0@) is Some ==> m.premiere@
            == "Estreno: "@ + premiere_text(item.premiere_date->0@)->0,
        item.premiere_date is None ==> m.premiere@.len() == 0,
        item.provider_ids is Some ==> m.imdb_url@ == imdb_link(provider_id(item.provider_ids->0@, "Imdb"@))
            && m.tmdb_url@ == tmdb_link(provider_id(item.provider_ids->0@, "Tmdb"@), is_series),
        item.provider_ids is None ==> m.imdb_url@.len() == 0 && m.tmdb_url@.len() == 0,
        text::texts(m.media_info@) == media_labels(item),
        urls::pair_texts(m.cast@) == cast_texts(shown_cast(item)),
        m.can_play == !is_series,
        is_series ==> m.children_label@ == "Temporadas"@,
        !is_series ==> m.children_label@.len() == 0,
{
}

/// The page of an album shows its artist, or its year where it has none; that of
/// a series its year, and that of a season how many episodes it has.
pub proof fn law_page_subtitles(item: BaseItemDto)
    ensures
        item.album_artist is Some ==> detail_subtitle_text(item, "MusicAlbum"@) == item.album_artist->0@,
        item.album_artist is None && item.production_year is Some ==> detail_subtitle_text(item, "MusicAlbum"@)
            == text::signed_decimal(item.production_year->0 as int),
        item.production_year is Some ==> detail_subtitle_text(item, "Series"@) == text::signed_decimal(
            item.production_year->0 as int,
        ),
        item.child_count is Some ==> detail_subtitle_text(item, "Season"@) == text::signed_decimal(
            item.child_count->0 as int,
        ) + " episodes"@,
        detail_subtitle_text(item, "Playlist"@) == Seq::<char>::empty(),
{
    reveal_strlit("MusicAlbum");
    reveal_strlit("Series");
    reveal_strlit("Season");
    reveal_strlit("Playlist");
    assert("MusicAlbum"@.len() == 10 && "Series"@.len() == 6 && "Season"@.len() == 6 && "Playlist"@.len() == 8);
    assert("Series"@[2] == 'r' && "Season"@[2] == 'a');
}

/// A part that is there, or nothing.
pub open spec fn part_if(there: bool, part: Seq<char>) -> Seq<Seq<char>> {
    if there {
        seq![part]
    } else {
        Seq::empty()
    }
}

/// Each part of the line under a title is there by itself: whether one is shown
/// does not depend on the others.
pub proof fn law_meta_line_parts(item: BaseItemDto)
    ensures
        meta_parts(item) == part_if(
            item.production_year is Some,
            text::signed_decimal(item.production_year->0 as int),
        ) + part_if(
            item.run_time is Some && item.run_time->0.ticks > 0,
            runtime_text(item.run_time->0.seconds as int),
        ) + part_if(
            item.official_rating is Some && item.official_rating->0@.len() > 0,
            item.official_rating->0@,
        ) + part_if(item.community_rating is Some, "★ "@ + item.community_rating->0@) + part_if(
            item.critic_rating is Some,
            "🍅 "@ + text::signed_decimal(item.critic_rating->0 as int) + "%"@,
        ),
{
}

/// Each label of a video stream, of a source and of an audio track is there by
/// itself.
#[verifier::rlimit(50)]
pub proof fn law_label_parts(v: MediaStream, s: MediaSourceInfo)
    ensures
        video_labels(v) == part_if(v.height is Some, resolution_text(v.height->0 as int)) + part_if(
            v.codec is Some,
            video_codec_text(v.codec->0@),
        ) + part_if(
            v.video_range is Some && v.video_range->0@.len() > 0 && text::lowered(v.video_range->0@)
                != text::lowered("SDR"@),
            text::upper_text(v.video_range->0@),
        ),
        source_labels(Some(s)) == part_if(
            s.container is Some && s.container->0@.len() > 0,
            text::upper_text(s.container->0@),
        ) + part_if(s.bitrate is Some && s.bitrate->0 > 0, s.mbps@ + " Mbps"@),
        audio_text(v) == text::join(
            part_if(
                text::upper_text(text::or_empty(v.codec)).len() > 0,
                text::upper_text(text::or_empty(v.codec)),
            ) + part_if(v.channels is Some, channel_text(v.channels->0 as int)) + part_if(
                v.language is Some && v.language->0@.len() > 0 && text::upper_text(v.language->0@).len() > 0,
                text::upper_text(v.language->0@),
            ),
            " "@,
        ),
{
    let x = text::upper_text(text::or_empty(v.codec));
    let y = match v.channels {
        Some(n) => channel_text(n as int),
        None => Seq::empty(),
    };
    let z = match v.language {
        Some(l) => if l@.len() > 0 {
            text::upper_text(l@)
        } else {
            Seq::empty()
        },
        None => Seq::empty(),
    };
    if v.channels is Some {
        lemma_channel_text_is_there(v.channels->0 as int);
    }
    assert(audio_parts(v) =~= (seq![x] + seq![y]) + seq![z]);
    law_empty_labels_go(seq![x] + seq![y], seq![z], z);
    law_empty_labels_go(seq![x], seq![y], y);
    law_empty_labels_go(seq![x], seq![x], x);
}

/// An item without a list of streams of its own has those of its first source.
pub proof fn law_streams_of_an_item(item: BaseItemDto)
    requires
        item.media_streams is None,
    ensures
        item.media_sources is Some && item.media_sources->0@.len() > 0 && item.media_sources->0@[0].media_streams
            is Some ==> streams_of(item) == item.media_sources->0@[0].media_streams->0@,
        item.media_sources is None ==> streams_of(item).len() == 0 && first_source(item) is None,
{
}

/// Without a stream of a type none is found.
pub proof fn law_no_such_stream(streams: Seq<MediaStream>, stream_type: Seq<char>)
    requires
        forall|j: int|
            0 <= j < streams.len() ==> text::opt_view((#[trigger] streams[j]).stream_type) != Some(stream_type),
    ensures
        first_stream(streams, stream_type) is None,
    decreases streams.len(),
{
    if streams.len() > 0 {
        assert(text::opt_view(streams[0].stream_type) != Some(stream_type));
        let rest = streams.skip(1);
        assert forall|j: int| 0 <= j < rest.len() implies text::opt_view((#[trigger] rest[j]).stream_type)
            != Some(stream_type) by {
            assert(rest[j] == streams[j + 1]);
        }
        law_no_such_stream(rest, stream_type);
    }
}

} // verus!
