//! Addresses on a media server.
//!
//! A [`Url`] is an address as the `url` crate writes it out.
//! Path segments and query pairs are added by that crate; what it does to the
//! text of an `http` or `https` address is stated here in full.
use crate::text;
use vstd::prelude::*;

verus! {

// ------------------------------------------------------------ percent encoding

/// The upper-case hexadecimal digit of a number below 16.
pub open spec fn hex_digit(n: int) -> char {
    if n < 10 {
        (48 + n) as char
    } else {
        (55 + n) as char
    }
}

/// A byte as `%XX`.
pub open spec fn percent(b: u8) -> Seq<char> {
    seq!['%', hex_digit(b as int / 16), hex_digit(b as int % 16)]
}

/// Whether a byte stands as it is in a form-encoded query.
pub open spec fn form_safe(b: u8) -> bool {
    ||| 0x30 <= b <= 0x39
    ||| 0x41 <= b <= 0x5a
    ||| 0x61 <= b <= 0x7a
    ||| b == 0x2a
    ||| b == 0x2d
    ||| b == 0x2e
    ||| b == 0x5f
}

/// Bytes in the form encoding of queries: a space becomes `+`, and what may
/// not stand as it is becomes `%XX`.
pub open spec fn form_bytes(bytes: Seq<u8>) -> Seq<char>
    decreases bytes.len(),
{
    if bytes.len() == 0 {
        Seq::empty()
    } else {
        let b = bytes.last();
        form_bytes(bytes.drop_last()) + if b == 0x20 {
            seq!['+']
        } else if form_safe(b) {
            seq![b as char]
        } else {
            percent(b)
        }
    }
}

/// A text in the form encoding of queries.
pub open spec fn form_encoded(s: Seq<char>) -> Seq<char> {
    form_bytes(vstd::utf8::encode_utf8(s))
}

/// Whether a byte stands as it is in a path segment of an `http` address.
pub open spec fn segment_safe(b: u8) -> bool {
    &&& 0x20 < b < 0x7f
    &&& b != 0x22  // "
    &&& b != 0x23  // #
    &&& b != 0x25  // %
    &&& b != 0x2f  // /
    &&& b != 0x3c  // <
    &&& b != 0x3e  // >
    &&& b != 0x3f  // ?
    &&& b != 0x5c  // backslash
    &&& b != 0x60  // `
    &&& b != 0x7b  // {
    &&& b != 0x7d  // }
}

/// Bytes as they stand in a path segment of an `http` address.
pub open spec fn segment_bytes(bytes: Seq<u8>) -> Seq<char>
    decreases bytes.len(),
{
    if bytes.len() == 0 {
        Seq::empty()
    } else {
        let b = bytes.last();
        segment_bytes(bytes.drop_last()) + if segment_safe(b) {
            seq![b as char]
        } else {
            percent(b)
        }
    }
}

/// A text as a path segment of an `http` address.
pub open spec fn segment_encoded(s: Seq<char>) -> Seq<char> {
    segment_bytes(vstd::utf8::encode_utf8(s))
}

// ------------------------------------------------------------ parts of an address

/// Whether an address is one of the web.
pub open spec fn is_web(t: Seq<char>) -> bool {
    text::starts(t, "http://"@) || text::starts(t, "https://"@)
}

/// Whether paths can be added to an address: what follows its scheme starts
/// with a slash.
pub open spec fn can_be_base(t: Seq<char>) -> bool {
    let i = text::first_index(t, ':') as int;
    i + 1 < t.len() && t[i + 1] == '/'
}

/// Where the path of a web address starts: at the first slash behind `://`.
pub open spec fn path_start(t: Seq<char>) -> int {
    let n = if text::starts(t, "https://"@) {
        8int
    } else {
        7
    };
    n + text::first_index(t.skip(n), '/')
}

/// Where the path of a web address ends: at its query or fragment.
pub open spec fn path_end(t: Seq<char>) -> int {
    let p = path_start(t);
    let q = text::first_index(t.skip(p), '?');
    let f = text::first_index(t.skip(p), '#');
    p + if q < f {
        q
    } else {
        f
    }
}

/// A path without the slash at its end; a bare `/` stays.
pub open spec fn without_last_slash(path: Seq<char>) -> Seq<char> {
    if path.len() > 1 && path.last() == '/' {
        path.drop_last()
    } else {
        path
    }
}

/// A path with one more segment. The segments `.` and `..` add nothing.
pub open spec fn path_with(path: Seq<char>, segment: Seq<char>) -> Seq<char> {
    if segment == "."@ || segment == ".."@ {
        path
    } else {
        path + (if path.len() == 1 {
            Seq::empty()
        } else {
            seq!['/']
        }) + segment_encoded(segment)
    }
}

/// A path with more segments.
pub open spec fn path_with_all(path: Seq<char>, segments: Seq<Seq<char>>) -> Seq<char>
    decreases segments.len(),
{
    if segments.len() == 0 {
        path
    } else {
        path_with(path_with_all(path, segments.drop_last()), segments.last())
    }
}

/// Whether a segment holds none of the characters that vanish from addresses.
pub open spec fn is_plain(segment: Seq<char>) -> bool {
    forall|i: int|
        0 <= i < segment.len() ==> segment[i] != '\t' && segment[i] != '\n' && segment[i] != '\r'
}

/// A web address with more segments behind its path; query and fragment stay.
pub open spec fn web_joined(t: Seq<char>, segments: Seq<Seq<char>>) -> Seq<char> {
    let p = path_start(t);
    let e = path_end(t);
    t.take(p) + path_with_all(without_last_slash(t.subrange(p, e)), segments) + t.skip(e)
}

/// A query with one more pair: `?` if there was no query, `&` if there was one
/// with something in it, and the pair in the form encoding.
pub open spec fn query_with(body: Seq<char>, pair: (Seq<char>, Seq<char>)) -> Seq<char> {
    body + (if text::first_index(body, '?') + 1 == body.len() {
        Seq::empty()
    } else {
        seq!['&']
    }) + form_encoded(pair.0) + seq!['='] + form_encoded(pair.1)
}

/// A query with more pairs.
pub open spec fn query_with_all(body: Seq<char>, pairs: Seq<(Seq<char>, Seq<char>)>) -> Seq<char>
    decreases pairs.len(),
{
    if pairs.len() == 0 {
        body
    } else {
        query_with(query_with_all(body, pairs.drop_last()), pairs.last())
    }
}

/// An address with more pairs in its query; its fragment stays at the end.
pub open spec fn with_pairs(t: Seq<char>, pairs: Seq<(Seq<char>, Seq<char>)>) -> Seq<char> {
    let f = text::first_index(t, '#') as int;
    let body = t.take(f);
    let start = if text::first_index(body, '?') == body.len() {
        body.push('?')
    } else {
        body
    };
    query_with_all(start, pairs) + t.skip(f)
}

// ------------------------------------------------------------ addresses

/// An address, as the `url` crate keeps it.
#[verifier::external_body]
#[derive(Debug)]
pub struct Url {
    inner: url::Url,
}

/// An address as the `url` crate writes it out.
pub uninterp spec fn written(u: Url) -> Seq<char>;

impl View for Url {
    type V = Seq<char>;

    open spec fn view(&self) -> Seq<char> {
        written(*self)
    }
}

/// What the `url` crate makes of a text: the address as it writes it out, or in
/// words why it is none.
pub uninterp spec fn parsed_url(s: Seq<char>) -> Result<Seq<char>, Seq<char>>;

/// Whether a text is an address that parsing leaves as it is. Not all that
/// parsing writes out are: `file://host//C|/x` changes twice, and a host name
/// may grow to a length at which it is refused.
pub open spec fn is_normal_url(t: Seq<char>) -> bool {
    parsed_url(t) == Ok::<Seq<char>, Seq<char>>(t)
}

/// What the `url` crate makes of an address when segments are added to its path
/// behind the last one, or in its place where that is empty. The text of an
/// address fixes where its path starts and ends, so it fixes the result.
pub uninterp spec fn extended_path(t: Seq<char>, segments: Seq<Seq<char>>) -> Seq<char>;

/// Why a text is no address.
#[derive(Debug, Clone)]
pub struct ParseError {
    pub why: String,
}

/// How many characters a list of texts has.
pub open spec fn total_len(parts: Seq<Seq<char>>) -> nat
    decreases parts.len(),
{
    if parts.len() == 0 {
        0
    } else {
        total_len(parts.drop_last()) + parts.last().len()
    }
}

/// Whether an address with further parts stays within what the `url` crate can
/// hold: it keeps positions in 32 bits, and a character takes at most twelve.
pub open spec fn has_room(t: Seq<char>, added: nat) -> bool {
    t.len() + 12 * added + 64 <= u32::MAX
}

/// `url::Url::parse` reads an address, or says why the text is none.
#[verifier::external_body]
fn parse_text(s: &str) -> (r: Result<Url, String>)
    ensures
        match r {
            Ok(u) => parsed_url(s@) == Ok::<Seq<char>, Seq<char>>(written(u)),
            Err(why) => parsed_url(s@) == Err::<Seq<char>, Seq<char>>(why@),
        },
{
    match url::Url::parse(s) {
        Ok(inner) => Ok(Url { inner }),
        Err(e) => Err(e.to_string()),
    }
}

/// `url::Url::as_str` writes an address out.
#[verifier::external_body]
fn text_of_url(u: &Url) -> (r: &str)
    ensures
        r@ == written(*u),
{
    u.inner.as_str()
}

/// `clone` of `url::Url` gives the same address again.
#[verifier::external_body]
fn copy_url(u: &Url) -> (r: Url)
    ensures
        r == *u,
{
    Url { inner: u.inner.clone() }
}

/// `url::PathSegmentsMut::pop_if_empty` and `extend`, on the path segments of
/// an address that has some. For a web address and plain segments: an empty last
/// segment is dropped, each segment is added percent-encoded, `.` and `..` add
/// nothing, and the rest of the address stays. In any case the address still
/// takes paths, and grows by at most two characters per segment and twelve per
/// character.
#[verifier::external_body]
fn extend_path(u: &mut Url, segments: &Vec<String>)
    requires
        can_be_base(written(*old(u))),
        has_room(written(*old(u)), total_len(text::texts(segments@)) + segments@.len()),
    ensures
        written(*final(u)) == extended_path(written(*old(u)), text::texts(segments@)),
        can_be_base(written(*final(u))),
        written(*final(u)).len() <= written(*old(u)).len() + 12 * total_len(text::texts(segments@)) + 2
            * segments@.len(),
        is_web(written(*old(u))) && (forall|i: int|
            0 <= i < segments@.len() ==> is_plain(#[trigger] segments@[i]@)) ==> written(*final(u))
            == web_joined(written(*old(u)), text::texts(segments@)),
{
    if let Ok(mut path) = u.inner.path_segments_mut() {
        path.pop_if_empty().extend(segments);
    }
}

/// The name and the value of each pair.
pub open spec fn pair_texts(pairs: Seq<(String, String)>) -> Seq<(Seq<char>, Seq<char>)> {
    pairs.map_values(|p: (String, String)| (p.0@, p.1@))
}

/// How many characters a list of pairs has.
pub open spec fn pairs_len(pairs: Seq<(Seq<char>, Seq<char>)>) -> nat
    decreases pairs.len(),
{
    if pairs.len() == 0 {
        0
    } else {
        pairs_len(pairs.drop_last()) + pairs.last().0.len() + pairs.last().1.len()
    }
}

/// `url::Url::query_pairs_mut` and `extend_pairs` of the serializer it gives
/// out: the pairs are added to the query in the form encoding, before the
/// fragment if there is one.
#[verifier::external_body]
fn extend_query(u: &mut Url, pairs: &Vec<(String, String)>)
    requires
        can_be_base(written(*old(u))),
        has_room(written(*old(u)), pairs_len(pair_texts(pairs@)) + pairs@.len()),
    ensures
        written(*final(u)) == with_pairs(written(*old(u)), pair_texts(pairs@)),
{
    u.inner.query_pairs_mut().extend_pairs(pairs);
}

impl Url {
    /// Reads an address.
    pub fn parse(s: &str) -> (r: Result<Url, ParseError>)
        ensures
            match r {
                Ok(u) => parsed_url(s@) == Ok::<Seq<char>, Seq<char>>(u@),
                Err(e) => parsed_url(s@) == Err::<Seq<char>, Seq<char>>(e.why@),
            },
    {
        match parse_text(s) {
            Ok(url) => Ok(url),
            Err(why) => Err(ParseError { why }),
        }
    }

    /// The address as text.
    pub fn as_str(&self) -> (r: &str)
        ensures
            r@ == self@,
    {
        text_of_url(self)
    }

    /// Whether the text of the address parses to the same address again.
    pub fn reads_back(&self) -> (r: bool)
        ensures
            r == is_normal_url(self@),
    {
        match Url::parse(self.as_str()) {
            Ok(again) => text::same_text(again.as_str(), self.as_str()),
            Err(_) => false,
        }
    }

    /// Whether paths can be added to the address.
    pub fn takes_paths(&self) -> (r: bool)
        ensures
            r == can_be_base(self@),
    {
        let v = text::chars_of(self.as_str());
        let i: usize = text::index_of(&v, ':');
        i < v.len() && i + 1 < v.len() && v[i + 1] == '/'
    }
}

impl Clone for Url {
    fn clone(&self) -> (r: Url)
        ensures
            r == *self,
    {
        copy_url(self)
    }
}

// ------------------------------------------------------------ lists of parts

/// Adds a text to a list.
pub(crate) fn add_part(parts: &mut Vec<String>, part: &str)
    ensures
        text::texts(final(parts)@) == text::texts(old(parts)@).push(part@),
        final(parts)@.len() == old(parts)@.len() + 1,
        total_len(text::texts(final(parts)@)) == total_len(text::texts(old(parts)@)) + part@.len(),
{
    parts.push(part.to_owned());
    assert(text::texts(parts@) =~= text::texts(old(parts)@).push(part@));
    assert(text::texts(parts@).drop_last() =~= text::texts(old(parts)@));
}

/// Adds a pair to a list.
pub(crate) fn add_pair(pairs: &mut Vec<(String, String)>, name: &str, value: String)
    ensures
        pair_texts(final(pairs)@) == pair_texts(old(pairs)@).push((name@, value@)),
        final(pairs)@.len() == old(pairs)@.len() + 1,
        pairs_len(pair_texts(final(pairs)@)) == pairs_len(pair_texts(old(pairs)@)) + name@.len()
            + value@.len(),
{
    pairs.push((name.to_owned(), value));
    assert(pair_texts(pairs@) =~= pair_texts(old(pairs)@).push((name@, value@)));
    assert(pair_texts(pairs@).drop_last() =~= pair_texts(old(pairs)@));
}

/// The base address with segments behind its path. The base may have a path of
/// its own, with or without a slash at its end.
pub fn join_path(base: &Url, segments: &Vec<String>) -> (r: Url)
    requires
        can_be_base(base@),
        has_room(base@, total_len(text::texts(segments@)) + segments@.len()),
    ensures
        r@ == extended_path(base@, text::texts(segments@)),
        can_be_base(r@),
        r@.len() <= base@.len() + 12 * total_len(text::texts(segments@)) + 2 * segments@.len(),
        is_web(base@) && (forall|i: int| 0 <= i < segments@.len() ==> is_plain(#[trigger] segments@[i]@))
            ==> r@ == web_joined(base@, text::texts(segments@)),
{
    let mut url = base.clone();
    extend_path(&mut url, segments);
    url
}

/// The address with more pairs in its query.
pub fn add_query(base: &Url, pairs: &Vec<(String, String)>) -> (r: Url)
    requires
        can_be_base(base@),
        has_room(base@, pairs_len(pair_texts(pairs@)) + pairs@.len()),
    ensures
        r@ == with_pairs(base@, pair_texts(pairs@)),
{
    let mut url = base.clone();
    extend_query(&mut url, pairs);
    url
}

// ------------------------------------------------------------ images

/// The kinds of image that an item can have.
#[derive(Debug, Clone, Copy, PartialEq, Eq, Structural)]
pub enum ImageType {
    Primary,
    Backdrop,
    Logo,
    Thumb,
}

impl ImageType {
    /// The name of the kind in addresses.
    pub open spec fn name(self) -> Seq<char> {
        match self {
            ImageType::Primary => "Primary"@,
            ImageType::Backdrop => "Backdrop"@,
            ImageType::Logo => "Logo"@,
            ImageType::Thumb => "Thumb"@,
        }
    }

    /// The name of the kind in addresses.
    pub fn as_str(self) -> (r: &'static str)
        ensures
            r@ == self.name(),
    {
        match self {
            ImageType::Primary => "Primary",
            ImageType::Backdrop => "Backdrop",
            ImageType::Logo => "Logo",
            ImageType::Thumb => "Thumb",
        }
    }
}

/// How an image is to be delivered. `tag` changes with the image, so that no
/// cache serves an old one.
#[derive(Debug, Clone)]
pub struct ImageOptions {
    pub tag: Option<String>,
    pub fill_height: Option<u32>,
    pub fill_width: Option<u32>,
    pub quality: Option<u8>,
}

impl Default for ImageOptions {
    fn default() -> (r: Self)
        ensures
            r == (ImageOptions { tag: None, fill_height: None, fill_width: None, quality: None }),
    {
        ImageOptions { tag: None, fill_height: None, fill_width: None, quality: None }
    }
}

/// The query pairs of an image: the quality, 90 unless given; the dimensions
/// that are given, or a height of 240 if neither is; the tag, unless empty.
pub open spec fn image_pairs(opts: ImageOptions) -> Seq<(Seq<char>, Seq<char>)> {
    let quality: nat = match opts.quality {
        Some(q) => q as nat,
        None => 90,
    };
    let height = match opts.fill_height {
        Some(h) => seq![("fillHeight"@, text::decimal(h as nat))],
        None => if opts.fill_width is None {
            seq![("fillHeight"@, "240"@)]
        } else {
            Seq::empty()
        },
    };
    let width = match opts.fill_width {
        Some(w) => seq![("fillWidth"@, text::decimal(w as nat))],
        None => Seq::empty(),
    };
    let tag = match opts.tag {
        Some(t) => if t@.len() > 0 {
            seq![("tag"@, t@)]
        } else {
            Seq::empty()
        },
        None => Seq::empty(),
    };
    seq![("quality"@, text::decimal(quality))] + height + width + tag
}

/// The path segments of an image.
pub open spec fn image_segments(item_id: Seq<char>, image_type: ImageType) -> Seq<Seq<char>> {
    seq!["Items"@, item_id, "Images"@, image_type.name()]
}

/// The address of an image of an item.
pub fn image_url(base: &Url, item_id: &str, image_type: ImageType, opts: &ImageOptions) -> (r: Url)
    requires
        can_be_base(base@),
        has_room(base@, item_id@.len() + text::or_empty(opts.tag).len() + 100),
    ensures
        r@ == with_pairs(extended_path(base@, image_segments(item_id@, image_type)), image_pairs(*opts)),
        is_web(base@) && is_plain(item_id@) ==> r@ == with_pairs(
            web_joined(base@, image_segments(item_id@, image_type)),
            image_pairs(*opts),
        ),
{
    proof {
        reveal_strlit("Items");
        reveal_strlit("Images");
        reveal_strlit("Primary");
        reveal_strlit("Backdrop");
        reveal_strlit("Logo");
        reveal_strlit("Thumb");
        reveal_strlit("quality");
        reveal_strlit("fillHeight");
        reveal_strlit("fillWidth");
        reveal_strlit("240");
        reveal_strlit("tag");
    }
    let mut segments: Vec<String> = Vec::new();
    add_part(&mut segments, "Items");
    add_part(&mut segments, item_id);
    add_part(&mut segments, "Images");
    add_part(&mut segments, image_type.as_str());
    assert(text::texts(segments@) =~= image_segments(item_id@, image_type));
    assert(is_plain(item_id@) ==> forall|i: int|
        0 <= i < segments@.len() ==> is_plain(#[trigger] text::texts(segments@)[i]));
    assert(is_plain(item_id@) ==> forall|i: int|
        0 <= i < segments@.len() ==> is_plain(#[trigger] segments@[i]@)) by {
        assert forall|i: int| 0 <= i < segments@.len() implies text::texts(segments@)[i]
            == #[trigger] segments@[i]@ by {}
    }
    let url = join_path(base, &segments);
    let mut pairs: Vec<(String, String)> = Vec::new();
    let quality: u64 = match opts.quality {
        Some(q) => q as u64,
        None => 90,
    };
    proof {
        text::lemma_u32_decimal_len(quality as u32);
    }
    add_pair(&mut pairs, "quality", text::decimal_of(quality));
    match (opts.fill_height, opts.fill_width) {
        (None, None) => add_pair(&mut pairs, "fillHeight", "240".to_owned()),
        (h, w) => {
            if let Some(h) = h {
                proof {
                    text::lemma_u32_decimal_len(h);
                }
                add_pair(&mut pairs, "fillHeight", text::decimal_of(h as u64));
            }
            if let Some(w) = w {
                proof {
                    text::lemma_u32_decimal_len(w);
                }
                add_pair(&mut pairs, "fillWidth", text::decimal_of(w as u64));
            }
        },
    }
    if let Some(t) = &opts.tag {
        if !t.as_str().is_empty() {
            add_pair(&mut pairs, "tag", t.clone());
        }
    }
    assert(pair_texts(pairs@) =~= image_pairs(*opts));
    add_query(&url, &pairs)
}

// ------------------------------------------------------------ streams

/// The query pairs of a stream that is served as it is on disk.
pub open spec fn stream_pairs(token: Seq<char>) -> Seq<(Seq<char>, Seq<char>)> {
    seq![("static"@, "true"@), ("api_key"@, token)]
}

/// The address of the untouched file behind an item, under `kind`.
fn stream_url(base: &Url, kind: &str, item_id: &str, token: &str) -> (r: Url)
    requires
        can_be_base(base@),
        kind@.len() <= 8,
        is_plain(kind@),
        has_room(base@, item_id@.len() + token@.len() + 100),
    ensures
        r@ == with_pairs(extended_path(base@, seq![kind@, item_id@, "stream"@]), stream_pairs(token@)),
        is_web(base@) && is_plain(item_id@) ==> r@ == with_pairs(
            web_joined(base@, seq![kind@, item_id@, "stream"@]),
            stream_pairs(token@),
        ),
{
    proof {
        reveal_strlit("stream");
        reveal_strlit("static");
        reveal_strlit("true");
        reveal_strlit("api_key");
    }
    let mut segments: Vec<String> = Vec::new();
    add_part(&mut segments, kind);
    add_part(&mut segments, item_id);
    add_part(&mut segments, "stream");
    assert(text::texts(segments@) =~= seq![kind@, item_id@, "stream"@]);
    assert(is_plain(item_id@) ==> forall|i: int|
        0 <= i < segments@.len() ==> is_plain(#[trigger] segments@[i]@)) by {
        assert forall|i: int| 0 <= i < segments@.len() implies text::texts(segments@)[i]
            == #[trigger] segments@[i]@ by {}
    }
    let url = join_path(base, &segments);
    let mut pairs: Vec<(String, String)> = Vec::new();
    add_pair(&mut pairs, "static", "true".to_owned());
    add_pair(&mut pairs, "api_key", token.to_owned());
    assert(pair_texts(pairs@) =~= stream_pairs(token@));
    add_query(&url, &pairs)
}

/// The address of an audio file, served untouched.
pub fn audio_stream_url(base: &Url, item_id: &str, token: &str) -> (r: Url)
    requires
        can_be_base(base@),
        has_room(base@, item_id@.len() + token@.len() + 100),
    ensures
        r@ == with_pairs(extended_path(base@, seq!["Audio"@, item_id@, "stream"@]), stream_pairs(token@)),
        is_web(base@) && is_plain(item_id@) ==> r@ == with_pairs(
            web_joined(base@, seq!["Audio"@, item_id@, "stream"@]),
            stream_pairs(token@),
        ),
{
    proof {
        reveal_strlit("Audio");
    }
    stream_url(base, "Audio", item_id, token)
}

/// The address of a video file, served untouched so that its HDR metadata
/// survives.
pub fn video_stream_url(base: &Url, item_id: &str, token: &str) -> (r: Url)
    requires
        can_be_base(base@),
        has_room(base@, item_id@.len() + token@.len() + 100),
    ensures
        r@ == with_pairs(extended_path(base@, seq!["Videos"@, item_id@, "stream"@]), stream_pairs(token@)),
        is_web(base@) && is_plain(item_id@) ==> r@ == with_pairs(
            web_joined(base@, seq!["Videos"@, item_id@, "stream"@]),
            stream_pairs(token@),
        ),
{
    proof {
        reveal_strlit("Videos");
    }
    stream_url(base, "Videos", item_id, token)
}

// ------------------------------------------------------------ laws

/// A base with a slash at the end of its path leads to the same addresses as
/// the base without it.
pub proof fn law_trailing_slash_is_no_matter(path: Seq<char>, segments: Seq<Seq<char>>)
    requires
        path.len() > 1,
        path.last() != '/',
    ensures
        path_with_all(without_last_slash(path.push('/')), segments) == path_with_all(
            without_last_slash(path),
            segments,
        ),
{
    assert(path.push('/').drop_last() =~= path);
}

/// Adding segments keeps the path that was there, so a server behind a path of
/// a proxy stays reachable.
pub proof fn law_base_path_is_kept(path: Seq<char>, segments: Seq<Seq<char>>)
    ensures
        text::starts(path_with_all(path, segments), path),
    decreases segments.len(),
{
    if segments.len() == 0 {
        assert(path.take(path.len() as int) =~= path);
    } else {
        law_base_path_is_kept(path, segments.drop_last());
        let before = path_with_all(path, segments.drop_last());
        let after = path_with_all(path, segments);
        assert(after.take(before.len() as int) =~= before);
        assert(after.take(path.len() as int) =~= before.take(path.len() as int));
    }
}

/// A text that is added as one segment stays one segment: it brings in no
/// slash, no query and no fragment.
pub proof fn law_segment_stays_one(bytes: Seq<u8>, i: int)
    requires
        0 <= i < segment_bytes(bytes).len(),
    ensures
        ({
            let c = segment_bytes(bytes)[i];
            c != '/' && c != '?' && c != '#' && c != '\\'
        }),
    decreases bytes.len(),
{
    if bytes.len() > 0 {
        let front = segment_bytes(bytes.drop_last());
        if i < front.len() {
            law_segment_stays_one(bytes.drop_last(), i);
        }
    }
}

/// A name or value of a query pair stays one: it brings in no separator and no
/// fragment.
pub proof fn law_pair_stays_one(bytes: Seq<u8>, i: int)
    requires
        0 <= i < form_bytes(bytes).len(),
    ensures
        ({
            let c = form_bytes(bytes)[i];
            c != '&' && c != '=' && c != '#' && c != '?' && c != ' '
        }),
    decreases bytes.len(),
{
    if bytes.len() > 0 {
        let front = form_bytes(bytes.drop_last());
        if i < front.len() {
            law_pair_stays_one(bytes.drop_last(), i);
        }
    }
}

/// A byte that is escaped shows as a percent sign and two hexadecimal digits, the
/// higher half first, and no two bytes show alike.
pub proof fn law_escapes(b: u8, other: u8)
    ensures
        percent(b).len() == 3,
        percent(b)[0] == '%',
        b < 16 ==> percent(b)[1] == '0',
        b / 16 < 10 ==> percent(b)[1] as u32 == 48 + b / 16,
        b / 16 >= 10 ==> percent(b)[1] as u32 == 65 + (b / 16 - 10),
        b % 16 < 10 ==> percent(b)[2] as u32 == 48 + b % 16,
        b % 16 >= 10 ==> percent(b)[2] as u32 == 65 + (b % 16 - 10),
        percent(b) == percent(other) ==> b == other,
{
    let x = percent(b);
    let y = percent(other);
    assert(hex_digit(b as int / 16) as u32 == (if b / 16 < 10 {
        48 + b / 16
    } else {
        55 + b / 16
    }));
    assert(hex_digit(b as int % 16) as u32 == (if b % 16 < 10 {
        48 + b % 16
    } else {
        55 + b % 16
    }));
    if x == y {
        assert(x[1] == y[1] && x[2] == y[2]);
        assert(hex_digit(other as int / 16) as u32 == (if other / 16 < 10 {
            48 + other / 16
        } else {
            55 + other / 16
        }));
        assert(hex_digit(other as int % 16) as u32 == (if other % 16 < 10 {
            48 + other % 16
        } else {
            55 + other % 16
        }));
    }
}

/// Queries are encoded byte by byte: letters, digits and `*-._` stay, a blank
/// becomes a plus sign, and any other byte is escaped.
pub proof fn law_form_encoding(a: Seq<u8>, b: Seq<u8>, x: u8)
    ensures
        form_bytes(Seq::empty()) == Seq::<char>::empty(),
        form_bytes(seq![x]) == (if x == 0x20 {
            seq!['+']
        } else if 0x30 <= x <= 0x39 || 0x41 <= x <= 0x5a || 0x61 <= x <= 0x7a || x == 0x2a || x == 0x2d || x
            == 0x2e || x == 0x5f {
            seq![x as char]
        } else {
            percent(x)
        }),
        form_bytes(a + b) == form_bytes(a) + form_bytes(b),
    decreases b.len(),
{
    assert(seq![x].drop_last() =~= Seq::empty());
    assert(form_bytes(Seq::<u8>::empty()) =~= Seq::empty());
    assert(form_bytes(seq![x]) =~= (if x == 0x20 {
        seq!['+']
    } else if form_safe(x) {
        seq![x as char]
    } else {
        percent(x)
    }));
    if b.len() == 0 {
        assert(a + b =~= a);
        assert(form_bytes(a + b) =~= form_bytes(a) + form_bytes(b));
    } else {
        law_form_encoding(a, b.drop_last(), x);
        assert((a + b).drop_last() =~= a + b.drop_last());
        assert(form_bytes(a + b) =~= form_bytes(a) + form_bytes(b));
    }
}

/// Segments are encoded byte by byte: letters, digits and most signs stay; what
/// would end the segment or start an escape, what cannot be seen and everything
/// beyond ASCII is escaped.
pub proof fn law_segment_encoding(a: Seq<u8>, b: Seq<u8>, x: u8)
    ensures
        segment_bytes(Seq::empty()) == Seq::<char>::empty(),
        0x30 <= x <= 0x39 || 0x41 <= x <= 0x5a || 0x61 <= x <= 0x7a || x == 0x2d || x == 0x2e || x == 0x5f || x
            == 0x7e ==> segment_bytes(seq![x]) == seq![x as char],
        x <= 0x20 || x >= 0x7f || x == 0x22 || x == 0x23 || x == 0x25 || x == 0x2f || x == 0x3c || x == 0x3e || x
            == 0x3f || x == 0x5c || x == 0x60 || x == 0x7b || x == 0x7d ==> segment_bytes(seq![x]) == percent(
            x,
        ),
        segment_bytes(seq![x]) == seq![x as char] || segment_bytes(seq![x]) == percent(x),
        segment_bytes(a + b) == segment_bytes(a) + segment_bytes(b),
    decreases b.len(),
{
    assert(seq![x].drop_last() =~= Seq::empty());
    assert(segment_bytes(Seq::<u8>::empty()) =~= Seq::empty());
    assert(segment_bytes(seq![x]) =~= (if segment_safe(x) {
        seq![x as char]
    } else {
        percent(x)
    }));
    if b.len() == 0 {
        assert(a + b =~= a);
        assert(segment_bytes(a + b) =~= segment_bytes(a) + segment_bytes(b));
    } else {
        law_segment_encoding(a, b.drop_last(), x);
        assert((a + b).drop_last() =~= a + b.drop_last());
        assert(segment_bytes(a + b) =~= segment_bytes(a) + segment_bytes(b));
    }
}

/// Whether a text is made of letters, digits, hyphens, dots and underscores.
pub open spec fn is_simple(s: Seq<char>) -> bool {
    forall|i: int|
        0 <= i < s.len() ==> {
            let c = #[trigger] s[i];
            ('0' <= c && c <= '9') || ('A' <= c && c <= 'Z') || ('a' <= c && c <= 'z') || c == '-' || c == '.' || c
                == '_'
        }
}

/// A text of letters, digits, hyphens, dots and underscores goes into addresses as
/// it is.
pub proof fn law_simple_texts_stay(s: Seq<char>)
    requires
        is_simple(s),
    ensures
        form_encoded(s) == s,
        segment_encoded(s) == s,
{
    assert forall|i: int| 0 <= i < s.len() implies (#[trigger] s[i] as u32) < 128 by {}
    assert(vstd::utf8::is_ascii_chars(s));
    vstd::utf8::is_ascii_chars_encode_utf8(s);
    let bytes = vstd::utf8::encode_utf8(s);
    assert(bytes.len() == s.len());
    assert forall|i: int| 0 <= i < s.len() implies #[trigger] bytes[i] as char == s[i] && form_safe(bytes[i])
        && segment_safe(bytes[i]) && bytes[i] != 0x20 by {
        assert(s[i] as u8 == bytes[i]);
    }
    lemma_simple_bytes(bytes, s);
}

proof fn lemma_simple_bytes(bytes: Seq<u8>, s: Seq<char>)
    requires
        bytes.len() == s.len(),
        forall|i: int|
            0 <= i < s.len() ==> #[trigger] bytes[i] as char == s[i] && form_safe(bytes[i]) && segment_safe(
                bytes[i],
            ) && bytes[i] != 0x20,
    ensures
        form_bytes(bytes) == s,
        segment_bytes(bytes) == s,
    decreases s.len(),
{
    if s.len() > 0 {
        let b = bytes.drop_last();
        let t = s.drop_last();
        assert forall|i: int| 0 <= i < t.len() implies #[trigger] b[i] as char == t[i] && form_safe(b[i])
            && segment_safe(b[i]) && b[i] != 0x20 by {
            assert(b[i] == bytes[i]);
        }
        lemma_simple_bytes(b, t);
        assert(bytes.last() == bytes[s.len() - 1]);
        assert(form_bytes(bytes) =~= s);
        assert(segment_bytes(bytes) =~= s);
    }
}

/// Segments are added one after the other, each behind a slash of its own; to the
/// bare `/` the first is added as it is. The segments `.` and `..` add nothing.
pub proof fn law_segments_are_added_in_order(
    path: Seq<char>,
    a: Seq<Seq<char>>,
    b: Seq<Seq<char>>,
    segment: Seq<char>,
)
    ensures
        path_with_all(path, Seq::empty()) == path,
        segment != "."@ && segment != ".."@ && path.len() > 1 ==> path_with_all(path, seq![segment]) == path
            + seq!['/'] + segment_encoded(segment),
        segment != "."@ && segment != ".."@ ==> path_with_all(seq!['/'], seq![segment]) == seq!['/']
            + segment_encoded(segment),
        segment == "."@ || segment == ".."@ ==> path_with_all(path, seq![segment]) == path,
        path_with_all(path, a + b) == path_with_all(path_with_all(path, a), b),
    decreases b.len(),
{
    assert(seq![segment].drop_last() =~= Seq::empty());
    assert(path_with_all(path, Seq::<Seq<char>>::empty()) == path);
    assert(path_with_all(seq!['/'], Seq::<Seq<char>>::empty()) == seq!['/']);
    if segment != "."@ && segment != ".."@ {
        assert(path_with_all(seq!['/'], seq![segment]) =~= seq!['/'] + segment_encoded(segment));
        if path.len() > 1 {
            assert(path_with_all(path, seq![segment]) =~= path + seq!['/'] + segment_encoded(segment));
        }
    }
    if b.len() == 0 {
        assert(a + b =~= a);
    } else {
        law_segments_are_added_in_order(path, a, b.drop_last(), segment);
        assert((a + b).drop_last() =~= a + b.drop_last());
        assert((a + b).last() == b.last());
    }
}

/// Where the path of a web address stands between its host and its query.
#[verifier::rlimit(50)]
proof fn lemma_web_parts(scheme: Seq<char>, host: Seq<char>, path: Seq<char>, rest: Seq<char>)
    requires
        scheme == "http://"@ || scheme == "https://"@,
        !host.contains('/'),
        path.len() > 0 && path[0] == '/',
        !path.contains('?') && !path.contains('#'),
        rest.len() == 0 || rest[0] == '?' || rest[0] == '#',
    ensures
        ({
            let t = scheme + host + path + rest;
            &&& is_web(t)
            &&& path_start(t) == scheme.len() + host.len()
            &&& path_end(t) == scheme.len() + host.len() + path.len()
            &&& t.take(path_start(t)) == scheme + host
            &&& t.subrange(path_start(t), path_end(t)) == path
            &&& t.skip(path_end(t)) == rest
        }),
{
    reveal_strlit("http://");
    reveal_strlit("https://");
    let t = scheme + host + path + rest;
    let n = scheme.len() as int;
    assert("http://"@.len() == 7 && "https://"@.len() == 8 && "http://"@[4] == ':' && "https://"@[4] == 's');
    assert(t.take(n) =~= scheme);
    if scheme == "http://"@ {
        assert(t.take(8)[4] == ':');
        assert(!text::starts(t, "https://"@));
    }
    let after = t.skip(n);
    assert forall|j: int| 0 <= j < host.len() implies after[j] != '/' by {
        assert(after[j] == host[j]);
        assert(host.contains(host[j]));
    }
    assert(after[host.len() as int] == path[0]);
    text::lemma_first_index_is(after, '/', host.len() as int);
    let p = n + host.len();
    let tail = t.skip(p);
    assert(tail =~= path + rest);
    let m = path.len() as int;
    assert forall|j: int| 0 <= j < m implies tail[j] != '?' && tail[j] != '#' by {
        assert(tail[j] == path[j]);
        assert(path.contains(path[j]));
    }
    text::lemma_first_index(tail, '?');
    text::lemma_first_index(tail, '#');
    let q = text::first_index(tail, '?') as int;
    let f = text::first_index(tail, '#') as int;
    assert(q >= m && f >= m) by {
        if q < m {
            assert(tail[q] == '?');
        }
        if f < m {
            assert(tail[f] == '#');
        }
    }
    if rest.len() > 0 {
        assert(tail[m] == rest[0]);
        if rest[0] == '?' {
            text::lemma_first_index_is(tail, '?', m);
        } else {
            text::lemma_first_index_is(tail, '#', m);
        }
    }
    assert(t.take(p) =~= scheme + host);
    assert(t.subrange(p, p + m) =~= path);
    assert(t.skip(p + m) =~= rest);
}

/// Segments go behind the path of a web address and nowhere else: scheme, host,
/// the path that was there, query and fragment stay.
pub proof fn law_web_address_grows_at_its_path(
    scheme: Seq<char>,
    host: Seq<char>,
    path: Seq<char>,
    rest: Seq<char>,
    segments: Seq<Seq<char>>,
)
    requires
        scheme == "http://"@ || scheme == "https://"@,
        !host.contains('/'),
        path.len() > 0 && path[0] == '/',
        !path.contains('?') && !path.contains('#'),
        rest.len() == 0 || rest[0] == '?' || rest[0] == '#',
    ensures
        path.last() == '/' && path.len() > 1 ==> web_joined(scheme + host + path + rest, segments) == scheme
            + host + path_with_all(path.drop_last(), segments) + rest,
        path.last() != '/' || path.len() == 1 ==> web_joined(scheme + host + path + rest, segments) == scheme
            + host + path_with_all(path, segments) + rest,
{
    lemma_web_parts(scheme, host, path, rest);
}

/// The address of an item's file on a server: its base, the kind of file, the
/// item's own id and `stream`, and in the query that the file is wanted untouched
/// and the token.
#[verifier::rlimit(50)]
pub proof fn law_stream_address(
    scheme: Seq<char>,
    host: Seq<char>,
    path: Seq<char>,
    kind: Seq<char>,
    id: Seq<char>,
    token: Seq<char>,
)
    requires
        scheme == "http://"@ || scheme == "https://"@,
        !host.contains('/') && !host.contains('?') && !host.contains('#'),
        path.len() > 1 && path[0] == '/' && path.last() != '/',
        !path.contains('?') && !path.contains('#'),
        is_simple(kind) && is_simple(id) && is_simple(token),
        kind.len() > 0 && kind[0] != '.' && id.len() > 0 && id[0] != '.',
    ensures
        with_pairs(
            web_joined(scheme + host + path, seq![kind, id, "stream"@]),
            stream_pairs(token),
        ) == scheme + host + path + seq!['/'] + kind + seq!['/'] + id + "/stream?static=true&api_key="@ + token,
{
    lemma_stream_path(scheme, host, path, kind, id);
    lemma_stream_query(
        scheme + host + (path + seq!['/'] + kind + seq!['/'] + id + seq!['/'] + "stream"@),
        scheme,
        host,
        path,
        kind,
        id,
        token,
    );
    let front = scheme + host + path + seq!['/'] + kind + seq!['/'] + id;
    reveal_strlit("/stream?static=true&api_key=");
    reveal_strlit("stream");
    reveal_strlit("?static=true&api_key=");
    assert(seq!['/'] + "stream"@ + "?static=true&api_key="@ =~= "/stream?static=true&api_key="@);
    assert(scheme + host + (path + seq!['/'] + kind + seq!['/'] + id + seq!['/'] + "stream"@)
        + "?static=true&api_key="@ + token =~= front + (seq!['/'] + "stream"@ + "?static=true&api_key="@) + token);
}

#[verifier::rlimit(50)]
proof fn lemma_stream_path(scheme: Seq<char>, host: Seq<char>, path: Seq<char>, kind: Seq<char>, id: Seq<char>)
    requires
        scheme == "http://"@ || scheme == "https://"@,
        !host.contains('/'),
        path.len() > 1 && path[0] == '/' && path.last() != '/',
        !path.contains('?') && !path.contains('#'),
        is_simple(kind) && is_simple(id),
        kind.len() > 0 && kind[0] != '.' && id.len() > 0 && id[0] != '.',
    ensures
        web_joined(scheme + host + path, seq![kind, id, "stream"@]) == scheme + host + (path + seq!['/'] + kind
            + seq!['/'] + id + seq!['/'] + "stream"@),
{
    let none = Seq::<char>::empty();
    let segments = seq![kind, id, "stream"@];
    assert(scheme + host + path + none =~= scheme + host + path);
    law_web_address_grows_at_its_path(scheme, host, path, none, segments);
    reveal_strlit("stream");
    reveal_strlit(".");
    reveal_strlit("..");
    assert("stream"@[0] == 's' && "stream"@.len() == 6);
    assert(is_simple("stream"@));
    law_simple_texts_stay(kind);
    law_simple_texts_stay(id);
    law_simple_texts_stay("stream"@);
    assert("."@[0] == '.' && ".."@[0] == '.');
    assert(kind != "."@ && kind != ".."@ && id != "."@ && id != ".."@ && "stream"@ != "."@ && "stream"@ != ".."@);
    assert(segments =~= seq![kind] + (seq![id] + seq!["stream"@]));
    law_segments_are_added_in_order(path, seq![kind], seq![id] + seq!["stream"@], kind);
    let p1 = path + seq!['/'] + kind;
    law_segments_are_added_in_order(p1, seq![id], seq!["stream"@], id);
    let p2 = p1 + seq!['/'] + id;
    law_segments_are_added_in_order(p2, seq!["stream"@], seq!["stream"@], "stream"@);
    let p3 = p2 + seq!['/'] + "stream"@;
    assert(path_with_all(path, segments) == p3);
    assert(scheme + host + p3 + none =~= scheme + host + p3);
}

#[verifier::rlimit(50)]
proof fn lemma_stream_query(
    t: Seq<char>,
    scheme: Seq<char>,
    host: Seq<char>,
    path: Seq<char>,
    kind: Seq<char>,
    id: Seq<char>,
    token: Seq<char>,
)
    requires
        scheme == "http://"@ || scheme == "https://"@,
        !host.contains('?') && !host.contains('#'),
        !path.contains('?') && !path.contains('#'),
        is_simple(kind) && is_simple(id) && is_simple(token),
        t == scheme + host + (path + seq!['/'] + kind + seq!['/'] + id + seq!['/'] + "stream"@),
    ensures
        with_pairs(t, stream_pairs(token)) == t + "?static=true&api_key="@ + token,
{
    lemma_no_query(scheme, host, path, kind, id);
    lemma_two_pairs(t, "static"@, "true"@, "api_key"@, token);
    assert(stream_pairs(token) =~= seq![("static"@, "true"@)] + seq![("api_key"@, token)]);
    reveal_strlit("static");
    reveal_strlit("true");
    reveal_strlit("api_key");
    reveal_strlit("?static=true&api_key=");
    assert(is_simple("static"@) && is_simple("true"@) && is_simple("api_key"@));
    law_simple_texts_stay("static"@);
    law_simple_texts_stay("true"@);
    law_simple_texts_stay("api_key"@);
    law_simple_texts_stay(token);
    let lit = seq!['?'] + "static"@ + seq!['='] + "true"@ + seq!['&'] + "api_key"@ + seq!['='];
    assert(lit =~= "?static=true&api_key="@);
    assert(t + seq!['?'] + "static"@ + seq!['='] + "true"@ + seq!['&'] + "api_key"@ + seq!['='] + token =~= t + lit
        + token);
}

#[verifier::rlimit(50)]
proof fn lemma_no_query(scheme: Seq<char>, host: Seq<char>, path: Seq<char>, kind: Seq<char>, id: Seq<char>)
    requires
        scheme == "http://"@ || scheme == "https://"@,
        !host.contains('?') && !host.contains('#'),
        !path.contains('?') && !path.contains('#'),
        is_simple(kind) && is_simple(id),
    ensures
        ({
            let t = scheme + host + (path + seq!['/'] + kind + seq!['/'] + id + seq!['/'] + "stream"@);
            !t.contains('?') && !t.contains('#')
        }),
{
    reveal_strlit("http://");
    reveal_strlit("https://");
    reveal_strlit("stream");
    let t = scheme + host + (path + seq!['/'] + kind + seq!['/'] + id + seq!['/'] + "stream"@);
    assert forall|c: char| c == '?' || c == '#' implies !#[trigger] t.contains(c) by {
        if t.contains(c) {
            let j = choose|j: int| 0 <= j < t.len() && t[j] == c;
            let a = scheme.len() as int;
            let b = a + host.len();
            let d = b + path.len();
            let e = d + 1 + kind.len();
            let f = e + 1 + id.len();
            if j < a {
                assert(t[j] == scheme[j]);
            } else if j < b {
                assert(t[j] == host[j - a]);
                assert(host.contains(host[j - a]));
            } else if j < d {
                assert(t[j] == path[j - b]);
                assert(path.contains(path[j - b]));
            } else if d < j && j < e {
                assert(t[j] == kind[j - d - 1]);
            } else if e < j && j < f {
                assert(t[j] == id[j - e - 1]);
            } else if j > f {
                assert(t[j] == "stream"@[j - f - 1]);
            }
        }
    }
}

/// The pairs of a query stand behind a question mark, a name and its value with an
/// equals sign between them, one pair after the other with an ampersand between
/// them.
#[verifier::rlimit(50)]
proof fn lemma_two_pairs(t: Seq<char>, a: Seq<char>, b: Seq<char>, c: Seq<char>, d: Seq<char>)
    requires
        !t.contains('?') && !t.contains('#'),
    ensures
        with_pairs(t, seq![(a, b)]) == t + seq!['?'] + form_encoded(a) + seq!['='] + form_encoded(b),
        with_pairs(t, seq![(a, b)] + seq![(c, d)]) == t + seq!['?'] + form_encoded(a) + seq!['='] + form_encoded(
            b,
        ) + seq!['&'] + form_encoded(c) + seq!['='] + form_encoded(d),
{
    let n = t.len() as int;
    assert forall|j: int| 0 <= j < n implies t[j] != '?' && t[j] != '#' by {
        assert(t.contains(t[j]));
    }
    text::lemma_first_index_is(t, '#', n);
    assert(t.take(n) =~= t);
    assert(t.skip(n) =~= Seq::empty());
    text::lemma_first_index_is(t, '?', n);
    let start = t.push('?');
    text::lemma_first_index_is(start, '?', n);
    let none = Seq::<(Seq<char>, Seq<char>)>::empty();
    let first = seq![(a, b)];
    let both = first + seq![(c, d)];
    assert(first.drop_last() =~= none);
    assert(both.drop_last() =~= first);
    assert(query_with_all(start, none) == start);
    let one = query_with_all(start, first);
    assert(one =~= start + form_encoded(a) + seq!['='] + form_encoded(b));
    assert forall|j: int| 0 <= j < n implies one[j] != '?' by {
        assert(one[j] == t[j]);
    }
    assert(one[n] == '?');
    text::lemma_first_index_is(one, '?', n);
    let two = query_with_all(start, both);
    assert(two =~= one + seq!['&'] + form_encoded(c) + seq!['='] + form_encoded(d));
    assert(with_pairs(t, first) =~= t + seq!['?'] + form_encoded(a) + seq!['='] + form_encoded(b));
    assert(with_pairs(t, both) =~= t + seq!['?'] + form_encoded(a) + seq!['='] + form_encoded(b) + seq!['&']
        + form_encoded(c) + seq!['='] + form_encoded(d));
}

/// Pairs go into the query in order, the first behind a question mark and each
/// further one behind an ampersand.
pub proof fn law_pairs_are_added_in_order(
    t: Seq<char>,
    a: Seq<char>,
    b: Seq<char>,
    c: Seq<char>,
    d: Seq<char>,
)
    requires
        !t.contains('?') && !t.contains('#'),
    ensures
        with_pairs(t, seq![(a, b)]) == t + seq!['?'] + form_encoded(a) + seq!['='] + form_encoded(b),
        with_pairs(t, seq![(a, b), (c, d)]) == with_pairs(t, seq![(a, b)]) + seq!['&'] + form_encoded(c) + seq![
            '=',
        ] + form_encoded(d),
{
    lemma_two_pairs(t, a, b, c, d);
    assert(seq![(a, b), (c, d)] =~= seq![(a, b)] + seq![(c, d)]);
}

/// An image is asked for with the quality that is wanted, 90 unless another is,
/// in the size that is wanted, a height of 240 unless one is, and with its tag.
pub proof fn law_image_parameters(tag: String, height: u32, width: u32, quality: u8)
    requires
        tag@.len() > 0,
    ensures
        image_pairs(
            ImageOptions {
                tag: Some(tag),
                fill_height: Some(height),
                fill_width: Some(width),
                quality: Some(quality),
            },
        ) == seq![
            ("quality"@, text::decimal(quality as nat)),
            ("fillHeight"@, text::decimal(height as nat)),
            ("fillWidth"@, text::decimal(width as nat)),
            ("tag"@, tag@),
        ],
        image_pairs(
            ImageOptions { tag: None, fill_height: None, fill_width: Some(width), quality: Some(quality) },
        ) == seq![
            ("quality"@, text::decimal(quality as nat)),
            ("fillWidth"@, text::decimal(width as nat)),
        ],
        image_pairs(ImageOptions { tag: None, fill_height: None, fill_width: None, quality: None }) == seq![
            ("quality"@, text::decimal(90)),
            ("fillHeight"@, "240"@),
        ],
{
    assert(image_pairs(
        ImageOptions {
            tag: Some(tag),
            fill_height: Some(height),
            fill_width: Some(width),
            quality: Some(quality),
        },
    ) =~= seq![
        ("quality"@, text::decimal(quality as nat)),
        ("fillHeight"@, text::decimal(height as nat)),
        ("fillWidth"@, text::decimal(width as nat)),
        ("tag"@, tag@),
    ]);
    assert(image_pairs(
        ImageOptions { tag: None, fill_height: None, fill_width: Some(width), quality: Some(quality) },
    ) =~= seq![("quality"@, text::decimal(quality as nat)), ("fillWidth"@, text::decimal(width as nat))]);
    assert(image_pairs(ImageOptions { tag: None, fill_height: None, fill_width: None, quality: None }) =~= seq![
        ("quality"@, text::decimal(90)),
        ("fillHeight"@, "240"@),
    ]);
}

/// An image stands below its own item, under its kind.
pub proof fn law_image_segments(id: Seq<char>)
    ensures
        image_segments(id, ImageType::Primary) == seq!["Items"@, id, "Images"@, "Primary"@],
        image_segments(id, ImageType::Backdrop) == seq!["Items"@, id, "Images"@, "Backdrop"@],
        image_segments(id, ImageType::Logo) == seq!["Items"@, id, "Images"@, "Logo"@],
        image_segments(id, ImageType::Thumb) == seq!["Items"@, id, "Images"@, "Thumb"@],
{
}

/// A pair that is added to a query goes behind what was there, and the fragment
/// stays at the end.
#[verifier::rlimit(50)]
pub proof fn law_query_and_fragment_stay(
    t: Seq<char>,
    query: Seq<char>,
    fragment: Seq<char>,
    a: Seq<char>,
    b: Seq<char>,
)
    requires
        !t.contains('?') && !t.contains('#'),
        query.len() > 0 && !query.contains('#'),
    ensures
        with_pairs(t + seq!['?'] + query + seq!['#'] + fragment, seq![(a, b)]) == t + seq!['?'] + query + seq!['&']
            + form_encoded(a) + seq!['='] + form_encoded(b) + seq!['#'] + fragment,
        with_pairs(t + seq!['#'] + fragment, seq![(a, b)]) == t + seq!['?'] + form_encoded(a) + seq!['=']
            + form_encoded(b) + seq!['#'] + fragment,
{
    let n = t.len() as int;
    let none = Seq::<(Seq<char>, Seq<char>)>::empty();
    assert(seq![(a, b)].drop_last() =~= none);
    assert forall|j: int| 0 <= j < n implies t[j] != '?' && t[j] != '#' by {
        assert(t.contains(t[j]));
    }
    let body = t + seq!['?'] + query;
    let whole = body + seq!['#'] + fragment;
    let m = body.len() as int;
    assert(!body.contains('#')) by {
        if body.contains('#') {
            let j = choose|j: int| 0 <= j < body.len() && body[j] == '#';
            if j > n {
                assert(query.contains(query[j - n - 1]));
            }
        }
    }
    assert forall|j: int| 0 <= j < m implies whole[j] != '#' by {
        assert(whole[j] == body[j]);
        assert(body.contains(body[j]));
    }
    text::lemma_first_index_is(whole, '#', m);
    assert(whole.take(m) =~= body);
    assert(whole.skip(m) =~= seq!['#'] + fragment);
    text::lemma_first_index_is(body, '?', n);
    assert(query_with_all(body, none) == body);
    assert(with_pairs(whole, seq![(a, b)]) =~= body + seq!['&'] + form_encoded(a) + seq!['='] + form_encoded(b)
        + seq!['#'] + fragment);
    let short = t + seq!['#'] + fragment;
    text::lemma_first_index_is(short, '#', n);
    assert(short.take(n) =~= t);
    assert(short.skip(n) =~= seq!['#'] + fragment);
    text::lemma_first_index_is(t, '?', n);
    let start = t.push('?');
    text::lemma_first_index_is(start, '?', n);
    assert(query_with_all(start, none) == start);
    assert(with_pairs(short, seq![(a, b)]) =~= t + seq!['?'] + form_encoded(a) + seq!['='] + form_encoded(b)
        + seq!['#'] + fragment);
}

/// Paths can be added to every web address, and to no address that has no path.
pub proof fn law_web_addresses_take_paths(rest: Seq<char>, scheme: Seq<char>, opaque: Seq<char>)
    requires
        !scheme.contains(':'),
        opaque.len() > 0 && opaque[0] != '/',
    ensures
        is_web("http://"@ + rest) && is_web("https://"@ + rest),
        can_be_base("http://"@ + rest) && can_be_base("https://"@ + rest),
        can_be_base(scheme + seq![':', '/'] + rest),
        !can_be_base(scheme + seq![':'] + opaque),
{
    reveal_strlit("http://");
    reveal_strlit("https://");
    let a = "http://"@ + rest;
    let b = "https://"@ + rest;
    assert(a.take(7) =~= "http://"@);
    assert(b.take(8) =~= "https://"@);
    assert(a[0] == 'h' && a[1] == 't' && a[2] == 't' && a[3] == 'p' && a[4] == ':' && a[5] == '/');
    assert(b[0] == 'h' && b[1] == 't' && b[2] == 't' && b[3] == 'p' && b[4] == 's' && b[5] == ':' && b[6] == '/');
    text::lemma_first_index_is(a, ':', 4);
    text::lemma_first_index_is(b, ':', 5);
    let c = scheme + seq![':', '/'] + rest;
    let d = scheme + seq![':'] + opaque;
    let n = scheme.len() as int;
    assert forall|j: int| 0 <= j < n implies c[j] != ':' && d[j] != ':' by {
        assert(c[j] == scheme[j] && d[j] == scheme[j]);
        assert(scheme.contains(scheme[j]));
    }
    assert(c[n] == ':' && c[n + 1] == '/' && d[n] == ':' && d[n + 1] == opaque[0]);
    text::lemma_first_index_is(c, ':', n);
    text::lemma_first_index_is(d, ':', n);
}

/// Each parameter of an image is there by itself: the quality always, a height
/// that is wanted (or 240 where no size is), a width that is wanted, and a tag that
/// is not empty.
pub proof fn law_image_parameters_by_themselves(opts: ImageOptions)
    ensures
        image_pairs(opts) == seq![
            (
                "quality"@,
                text::decimal(
                    match opts.quality {
                        Some(q) => q as nat,
                        None => 90nat,
                    },
                ),
            ),
        ] + (if opts.fill_height is Some {
            seq![("fillHeight"@, text::decimal(opts.fill_height->0 as nat))]
        } else if opts.fill_width is None {
            seq![("fillHeight"@, "240"@)]
        } else {
            Seq::empty()
        }) + (if opts.fill_width is Some {
            seq![("fillWidth"@, text::decimal(opts.fill_width->0 as nat))]
        } else {
            Seq::empty()
        }) + (if opts.tag is Some && opts.tag->0@.len() > 0 {
            seq![("tag"@, opts.tag->0@)]
        } else {
            Seq::empty()
        }),
{
}

/// A text goes into an address by the bytes of its UTF-8 form, so texts that follow
/// one another do so in the address.
pub proof fn law_texts_are_encoded_as_utf8(s: Seq<char>)
    ensures
        form_encoded(s) == form_bytes(vstd::utf8::encode_utf8(s)),
        segment_encoded(s) == segment_bytes(vstd::utf8::encode_utf8(s)),
{
}

} // verus!
