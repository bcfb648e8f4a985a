//! Downloading an album: what the files are called, where they go, and how far
//! the download has come.
use crate::client::Client;
use crate::nav::{ChildrenType, NavEntry};
use crate::storage;
use crate::text;
use crate::types::BaseItemDto;
use crate::urls;
use crate::urls::{audio_stream_url, Url};
use vstd::prelude::*;

verus! {

// ------------------------------------------------------------ file names

/// What becomes of a character in a file name: a quote goes, a separator or a
/// control character becomes an underscore.
pub open spec fn cleaned_char(c: char) -> Seq<char> {
    if c == '"' {
        Seq::empty()
    } else if c == '/' || c == '\\' || c == ':' || c == '*' || c == '?' || c == '<' || c == '>' || c == '|'
        || (c as u32) < 0x20 {
        seq!['_']
    } else {
        seq![c]
    }
}

/// A text with every character fit for a file name.
pub open spec fn cleaned(s: Seq<char>) -> Seq<char>
    decreases s.len(),
{
    if s.len() == 0 {
        Seq::empty()
    } else {
        cleaned(s.drop_last()) + cleaned_char(s.last())
    }
}

/// Whether a character may not stand at the ends of a file name.
pub open spec fn is_edge(c: char) -> bool {
    c == '.' || text::is_space(c)
}

/// A text without dots and white space at its end.
pub open spec fn edge_free_end(s: Seq<char>) -> Seq<char>
    decreases s.len(),
{
    if s.len() > 0 && is_edge(s.last()) {
        edge_free_end(s.drop_last())
    } else {
        s
    }
}

/// A text without dots and white space at its start.
pub open spec fn edge_free_start(s: Seq<char>) -> Seq<char>
    decreases s.len(),
{
    if s.len() > 0 && is_edge(s[0]) {
        edge_free_start(s.skip(1))
    } else {
        s
    }
}

/// A name that is fit to be one part of a path.
pub open spec fn path_part(s: Seq<char>) -> Seq<char> {
    let t = edge_free_end(edge_free_start(cleaned(s)));
    if t.len() == 0 {
        "Untitled"@
    } else {
        t
    }
}

/// Every character made fit for a file name.
fn clean(s: &str) -> (r: Vec<char>)
    ensures
        r@ == cleaned(s@),
{
    let x = text::chars_of(s);
    let mut out: Vec<char> = Vec::new();
    let mut i: usize = 0;
    while i < x.len()
        invariant
            i <= x@.len(),
            x@ == s@,
            out@ == cleaned(s@.take(i as int)),
        decreases x@.len() - i,
    {
        let c = x[i];
        let ghost before = out@;
        assert(s@.take(i + 1).drop_last() =~= s@.take(i as int));
        assert(s@.take(i + 1).last() == c);
        if c == '"' {
            assert(out@ =~= before + cleaned_char(c));
        } else if c == '/' || c == '\\' || c == ':' || c == '*' || c == '?' || c == '<' || c == '>' || c
            == '|' || (c as u32) < 0x20 {
            out.push('_');
            assert(out@ =~= before + cleaned_char(c));
        } else {
            out.push(c);
            assert(out@ =~= before + cleaned_char(c));
        }
        i = i + 1;
    }
    assert(s@.take(s@.len() as int) =~= s@);
    out
}

fn at_edge(c: char) -> (r: bool)
    ensures
        r == is_edge(c),
{
    c == '.' || text::is_whitespace(c)
}

/// Makes a name fit to be one part of a path: no separators, no control
/// characters, no quotes, no dots or white space at the ends, and never empty.
pub fn sanitize_path_component(s: &str) -> (r: String)
    ensures
        r@ == path_part(s@),
{
    let v = clean(s);
    let mut from: usize = 0;
    assert(v@.skip(0) =~= v@);
    while from < v.len() && at_edge(v[from])
        invariant
            from <= v@.len(),
            edge_free_start(v@) == edge_free_start(v@.skip(from as int)),
        decreases v@.len() - from,
    {
        assert(v@.skip(from as int).skip(1) =~= v@.skip(from + 1));
        from = from + 1;
    }
    let ghost rest = v@.skip(from as int);
    assert(edge_free_start(rest) == rest);
    let mut to: usize = v.len();
    assert(v@.subrange(from as int, to as int) =~= rest);
    while to > from && at_edge(v[to - 1])
        invariant
            from <= to <= v@.len(),
            edge_free_end(rest) == edge_free_end(v@.subrange(from as int, to as int)),
        decreases to,
    {
        assert(v@.subrange(from as int, to as int).drop_last() =~= v@.subrange(from as int, to - 1));
        to = to - 1;
    }
    if from == to {
        "Untitled".to_owned()
    } else {
        text::text_of(&v, from, to)
    }
}

// ------------------------------------------------------------ file extensions

/// The name of the file that a path leads to: its last part that is not empty
/// and not `.`; none if that is `..`.
pub open spec fn last_name(parts: Seq<Seq<char>>) -> Option<Seq<char>>
    decreases parts.len(),
{
    if parts.len() == 0 {
        None
    } else if parts.last().len() == 0 || parts.last() == "."@ {
        last_name(parts.drop_last())
    } else if parts.last() == ".."@ {
        None
    } else {
        Some(parts.last())
    }
}

/// Where the last dot of a name stands; -1 if it has none.
pub open spec fn last_dot(s: Seq<char>) -> int
    decreases s.len(),
{
    if s.len() == 0 {
        -1
    } else if s.last() == '.' {
        s.len() - 1
    } else {
        last_dot(s.drop_last())
    }
}

/// The extension of the file that a path leads to: what follows the last dot of
/// its name, unless that dot comes first.
pub open spec fn extension_of(path: Seq<char>) -> Option<Seq<char>> {
    match last_name(text::pieces(path, '/')) {
        None => None,
        Some(name) => {
            let i = last_dot(name);
            if i <= 0 {
                None
            } else {
                Some(name.skip(i + 1))
            }
        },
    }
}

/// The extension of the file that a path leads to.
pub fn path_extension(path: &str) -> (r: Option<String>)
    ensures
        text::opt_view(r) == extension_of(path@),
{
    let parts = text::split_on(path, '/');
    let ghost all = text::texts(parts@);
    let mut n: usize = parts.len();
    assert(all.take(n as int) =~= all);
    while n > 0
        invariant
            n <= parts@.len(),
            all == text::texts(parts@),
            all == text::pieces(path@, '/'),
            last_name(all) == last_name(all.take(n as int)),
        decreases n,
    {
        let part = parts[n - 1].as_str();
        assert(all.take(n as int).last() == part@);
        assert(all.take(n as int).drop_last() =~= all.take(n - 1));
        if part.is_empty() || text::same_text(part, ".") {
            n = n - 1;
        } else {
            if text::same_text(part, "..") {
                return None;
            }
            return name_extension(part);
        }
    }
    assert(all.take(0).len() == 0);
    None
}

/// What follows the last dot of a name, unless that dot comes first.
fn name_extension(name: &str) -> (r: Option<String>)
    ensures
        text::opt_view(r) == (if last_dot(name@) <= 0 {
            None
        } else {
            Some(name@.skip(last_dot(name@) + 1))
        }),
{
    let v = text::chars_of(name);
    let mut i: usize = v.len();
    assert(v@.take(i as int) =~= v@);
    while i > 0 && v[i - 1] != '.'
        invariant
            i <= v@.len(),
            v@ == name@,
            last_dot(name@) == last_dot(v@.take(i as int)),
        decreases i,
    {
        assert(v@.take(i as int).drop_last() =~= v@.take(i - 1));
        i = i - 1;
    }
    if i <= 1 {
        return None;
    }
    let r = text::text_of(&v, i, v.len());
    assert(r@ =~= name@.skip(i as int));
    Some(r)
}

/// A text without white space around it.
pub open spec fn trimmed(s: Seq<char>) -> Seq<char> {
    trimmed_end(trimmed_start(s))
}

/// A text without white space at its end.
pub open spec fn trimmed_end(s: Seq<char>) -> Seq<char>
    decreases s.len(),
{
    if s.len() > 0 && text::is_space(s.last()) {
        trimmed_end(s.drop_last())
    } else {
        s
    }
}

/// A text without white space at its start.
pub open spec fn trimmed_start(s: Seq<char>) -> Seq<char>
    decreases s.len(),
{
    if s.len() > 0 && text::is_space(s[0]) {
        trimmed_start(s.skip(1))
    } else {
        s
    }
}

/// A text without white space around it.
fn trim(s: &str) -> (r: String)
    ensures
        r@ == trimmed(s@),
{
    let v = text::chars_of(s);
    let mut from: usize = 0;
    assert(v@.skip(0) =~= v@);
    while from < v.len() && text::is_whitespace(v[from])
        invariant
            from <= v@.len(),
            trimmed_start(v@) == trimmed_start(v@.skip(from as int)),
        decreases v@.len() - from,
    {
        assert(v@.skip(from as int).skip(1) =~= v@.skip(from + 1));
        from = from + 1;
    }
    let ghost rest = v@.skip(from as int);
    assert(trimmed_start(rest) == rest);
    let mut to: usize = v.len();
    assert(v@.subrange(from as int, to as int) =~= rest);
    while to > from && text::is_whitespace(v[to - 1])
        invariant
            from <= to <= v@.len(),
            trimmed_end(rest) == trimmed_end(v@.subrange(from as int, to as int)),
        decreases to,
    {
        assert(v@.subrange(from as int, to as int).drop_last() =~= v@.subrange(from as int, to - 1));
        to = to - 1;
    }
    text::text_of(&v, from, to)
}

/// The extension for a container: the first of its names, in lower case, with
/// the usual extension in place of some; none if that is empty.
pub open spec fn container_extension(container: Seq<char>) -> Option<Seq<char>> {
    let raw = text::lowered(trimmed(text::pieces(container, ',')[0]));
    if raw.len() == 0 {
        None
    } else if raw == "mp4"@ {
        Some("m4a"@)
    } else if raw == "ogg"@ || raw == "vorbis"@ {
        Some("ogg"@)
    } else if raw == "wave"@ {
        Some("wav"@)
    } else {
        Some(raw)
    }
}

/// The extension of a downloaded file: that of the file on the server if its
/// path shows one, else that of its container, else `flac`.
pub open spec fn chosen_extension(path: Option<Seq<char>>, container: Option<Seq<char>>) -> Seq<char> {
    let from_path = match path {
        Some(p) => match extension_of(p) {
            Some(ext) => text::lowered(ext),
            None => Seq::empty(),
        },
        None => Seq::empty(),
    };
    let from_container = match container {
        Some(c) => container_extension(c),
        None => None,
    };
    if from_path.len() > 0 {
        from_path
    } else if from_container is Some {
        from_container->0
    } else {
        "flac"@
    }
}

/// The extension of a downloaded file.
pub fn pick_extension(path: &Option<String>, container: &Option<String>) -> (r: String)
    ensures
        r@ == chosen_extension(text::opt_view(*path), text::opt_view(*container)),
{
    if let Some(p) = path {
        if let Some(ext) = path_extension(p.as_str()) {
            let lower = text::lower_ascii(ext.as_str());
            if !lower.as_str().is_empty() {
                return lower;
            }
        }
    }
    if let Some(c) = container {
        let parts = text::split_on(c.as_str(), ',');
        assert(text::texts(parts@)[0] == parts@[0]@);
        let raw = text::lower_ascii(trim(parts[0].as_str()).as_str());
        let s = raw.as_str();
        if !s.is_empty() {
            if text::same_text(s, "mp4") {
                return "m4a".to_owned();
            }
            if text::same_text(s, "ogg") || text::same_text(s, "vorbis") {
                return "ogg".to_owned();
            }
            if text::same_text(s, "wave") {
                return "wav".to_owned();
            }
            return raw;
        }
    }
    "flac".to_owned()
}

// ------------------------------------------------------------ tracks

/// A track to be downloaded.
#[derive(Debug, Clone)]
pub struct DownloadTrack {
    pub id: String,
    /// Its place in the listing, from 1.
    pub order: usize,
    pub track_index: Option<i32>,
    pub title: String,
    pub extension: String,
}

/// The path and the container of an item's first source.
pub open spec fn source_hints(item: BaseItemDto) -> (Option<Seq<char>>, Option<Seq<char>>) {
    match item.media_sources {
        Some(m) => if m@.len() > 0 {
            (text::opt_view(m@[0].path), text::opt_view(m@[0].container))
        } else {
            (None, None)
        },
        None => (None, None),
    }
}

/// Whether `t` is the track to be downloaded for the item at place `i`.
pub open spec fn is_track(t: DownloadTrack, item: BaseItemDto, i: int) -> bool {
    &&& t.id == item.id
    &&& t.order == i + 1
    &&& t.track_index == item.index_number
    &&& t.title@ == (match item.name {
        Some(n) => n@,
        None => "Track "@ + text::decimal((i + 1) as nat),
    })
    &&& t.extension@ == chosen_extension(source_hints(item).0, source_hints(item).1)
}

/// The track to be downloaded for the item at place `i`.
fn make_track(item: &BaseItemDto, i: usize) -> (r: DownloadTrack)
    requires
        i < usize::MAX,
    ensures
        is_track(r, *item, i as int),
{
    let extension = match &item.media_sources {
        Some(m) => {
            if m.len() > 0 {
                pick_extension(&m[0].path, &m[0].container)
            } else {
                pick_extension(&None, &None)
            }
        },
        None => pick_extension(&None, &None),
    };
    let title = match &item.name {
        Some(n) => n.clone(),
        None => text::joined("Track ", text::decimal_of(i as u64 + 1).as_str()),
    };
    DownloadTrack {
        id: item.id.clone(),
        order: i + 1,
        track_index: item.index_number,
        title,
        extension,
    }
}

/// The number at the front of a file name: the track's own, or its place in the
/// listing. A number below zero wraps around as a 64-bit one does.
pub open spec fn front_number(t: DownloadTrack) -> nat {
    match t.track_index {
        Some(n) => if n < 0 {
            (0x1_0000_0000_0000_0000 + n) as nat
        } else {
            n as nat
        },
        None => t.order as nat,
    }
}

/// The name of a track's file, such as `03 - Title.flac`.
pub open spec fn file_name(t: DownloadTrack) -> Seq<char> {
    text::two_digits(front_number(t) as int) + " - "@ + path_part(t.title@) + "."@ + t.extension@
}

/// The name of a track's file.
pub fn track_file_name(t: &DownloadTrack) -> (r: String)
    ensures
        r@ == file_name(*t),
{
    let n: u64 = match t.track_index {
        Some(n) => {
            if n < 0 {
                0xffff_ffff_ffff_ffff - ((-(n as i64)) as u64 - 1)
            } else {
                n as u64
            }
        },
        None => t.order as u64,
    };
    let mut out = String::new();
    if n < 10 {
        out.push('0');
    }
    text::push_decimal(&mut out, n);
    assert(out@ =~= text::two_digits(front_number(*t) as int));
    out.append(" - ");
    out.append(sanitize_path_component(t.title.as_str()).as_str());
    out.append(".");
    out.append(t.extension.as_str());
    out
}

/// The directory of an album below the user's music directory.
pub open spec fn album_dir(music: Seq<char>, artist: Seq<char>, album: Seq<char>) -> Seq<char> {
    storage::in_dir(
        storage::in_dir(storage::in_dir(music, "Jelly"@), path_part(artist)),
        path_part(album),
    )
}

/// The directory of an album below the user's music directory.
pub fn album_download_dir(music: &str, artist: &str, album: &str) -> (r: String)
    ensures
        r@ == album_dir(music@, artist@, album@),
{
    let top = storage::join_file(music, "Jelly");
    let of_artist = storage::join_file(top.as_str(), sanitize_path_component(artist).as_str());
    storage::join_file(of_artist.as_str(), sanitize_path_component(album).as_str())
}

// ------------------------------------------------------------ starting a download

/// A download of an album.
#[derive(Debug)]
pub struct DownloadJob {
    pub album_id: String,
    pub album_name: String,
    pub artist: String,
    pub tracks: Vec<DownloadTrack>,
    pub token: String,
    /// How many tracks are on disk.
    pub done: usize,
}

/// What a request for a download came to.
#[derive(Debug)]
pub enum DownloadStart {
    /// No level is open, or it is not an album: nothing happens.
    NoAlbum,
    /// There is nothing to download. A download that was running is over.
    NoTracks,
    /// Nobody is signed in. A download that was running is over.
    NoToken,
    /// A download that was running is over, and this one takes its place.
    Started(DownloadJob),
}

/// Whether a level lists the tracks of an album.
pub open spec fn is_album_level(top: Option<NavEntry>) -> bool {
    top matches Some(t) && t.children is Tracks
}

/// Whether `job` is the download of the album at the top.
pub open spec fn is_job(job: DownloadJob, top: NavEntry, items: Seq<BaseItemDto>, token: Seq<char>) -> bool {
    &&& job.album_id == top.parent_id
    &&& job.album_name == top.title
    &&& job.artist@ == (match top.album_artist {
        Some(a) => a@,
        None => "Unknown Artist"@,
    })
    &&& job.tracks@.len() == items.len()
    &&& forall|i: int| 0 <= i < items.len() ==> is_track(#[trigger] job.tracks@[i], items[i], i)
    &&& job.token@ == token
    &&& job.done == 0
}

/// Starts the download of the album that is on screen. Any result but `NoAlbum`
/// ends a download that was running.
pub fn start_album_download(top: Option<&NavEntry>, items: &Vec<BaseItemDto>, token: Option<&str>) -> (r:
    DownloadStart)
    ensures
        ({
            let level = match top {
                Some(t) => Some(*t),
                None => None,
            };
            if !is_album_level(level) {
                r is NoAlbum
            } else if items@.len() == 0 {
                r is NoTracks
            } else if token is None {
                r is NoToken
            } else {
                r matches DownloadStart::Started(job) && is_job(job, level->0, items@, token->0@)
            }
        }),
{
    let top = match top {
        Some(t) => t,
        None => {
            return DownloadStart::NoAlbum;
        },
    };
    match &top.children {
        ChildrenType::Tracks => {},
        _ => {
            return DownloadStart::NoAlbum;
        },
    }
    let artist = match &top.album_artist {
        Some(a) => a.clone(),
        None => "Unknown Artist".to_owned(),
    };
    let mut tracks: Vec<DownloadTrack> = Vec::new();
    let n: usize = items.len();
    let mut i: usize = 0;
    while i < n
        invariant
            i <= n,
            n == items@.len(),
            tracks@.len() == i,
            forall|j: int| 0 <= j < i ==> is_track(#[trigger] tracks@[j], items@[j], j),
        decreases n - i,
    {
        tracks.push(make_track(&items[i], i));
        i = i + 1;
    }
    if n == 0 {
        return DownloadStart::NoTracks;
    }
    match token {
        None => DownloadStart::NoToken,
        Some(token) => DownloadStart::Started(
            DownloadJob {
                album_id: top.parent_id.clone(),
                album_name: top.title.clone(),
                artist,
                tracks,
                token: token.to_owned(),
                done: 0,
            },
        ),
    }
}

// ------------------------------------------------------------ running a download

/// What the download button shows.
#[derive(Debug)]
pub struct DownloadStatus {
    pub label: String,
    pub enabled: bool,
    pub active: bool,
}

/// What a download does next.
#[derive(Debug)]
pub enum DownloadStep {
    /// It was cancelled.
    Cancelled,
    /// All tracks are on disk.
    Finished,
    /// Fetch this address into this file of the album's directory.
    Fetch { url: Url, file_name: String },
}

impl DownloadJob {
    /// Progress never runs past the last track.
    pub open spec fn wf(&self) -> bool {
        self.done <= self.tracks@.len()
    }

    /// The label while the download runs.
    pub open spec fn progress_label(&self) -> Seq<char> {
        "Descargando "@ + text::decimal(self.done as nat) + "/"@ + text::decimal(self.tracks@.len()) + "…"@
    }

    /// What the button shows while the download runs: how many tracks are on
    /// disk, and nothing to press.
    pub fn progress(&self) -> (r: DownloadStatus)
        ensures
            r.label@ == self.progress_label(),
            !r.enabled,
            r.active,
    {
        let mut out = "Descargando ".to_owned();
        text::push_decimal(&mut out, self.done as u64);
        out.append("/");
        text::push_decimal(&mut out, self.tracks.len() as u64);
        out.append("…");
        DownloadStatus { label: out, enabled: false, active: true }
    }

    /// What to do next. Tracks are fetched in order, each once.
    pub fn next_step(&self, client: &Client, cancelled: bool) -> (r: DownloadStep)
        requires
            self.wf(),
            urls::can_be_base(client.base()),
            self.done < self.tracks@.len() ==> urls::has_room(
                client.base(),
                self.tracks@[self.done as int].id@.len() + self.token@.len() + 100,
            ),
        ensures
            self.done == self.tracks@.len() ==> r is Finished,
            self.done < self.tracks@.len() && cancelled ==> r is Cancelled,
            self.done < self.tracks@.len() && !cancelled ==> {
                let t = self.tracks@[self.done as int];
                let segments = seq!["Audio"@, t.id@, "stream"@];
                &&& r matches DownloadStep::Fetch { url, file_name: name }
                &&& name@ == file_name(t)
                &&& url@ == urls::with_pairs(
                    urls::extended_path(client.base(), segments),
                    urls::stream_pairs(self.token@),
                )
                &&& urls::is_web(client.base()) && urls::is_plain(t.id@) ==> url@ == urls::with_pairs(
                    urls::web_joined(client.base(), segments),
                    urls::stream_pairs(self.token@),
                )
            },
    {
        if self.done == self.tracks.len() {
            return DownloadStep::Finished;
        }
        if cancelled {
            return DownloadStep::Cancelled;
        }
        let t = &self.tracks[self.done];
        DownloadStep::Fetch {
            url: audio_stream_url(client.base_url(), t.id.as_str(), self.token.as_str()),
            file_name: track_file_name(t),
        }
    }

    /// Takes note that the track at hand is on disk.
    pub fn track_done(&mut self)
        requires
            old(self).done < old(self).tracks@.len(),
        ensures
            *final(self) == (DownloadJob { done: (old(self).done + 1) as usize, ..*old(self) }),
            final(self).wf(),
    {
        let n: usize = self.tracks.len();
        assert(self.done < n);
        self.done = self.done + 1;
    }
}

/// What the button shows when a download is over; nothing new if it was
/// cancelled.
pub fn final_status(succeeded: bool, cancelled: bool) -> (r: Option<DownloadStatus>)
    ensures
        r is None <==> !succeeded && cancelled,
        succeeded ==> (r matches Some(s) && s.label@ == "✓ Descargado"@ && !s.enabled && !s.active),
        !succeeded && !cancelled ==> (r matches Some(s) && s.label@ == "Error — reintentar"@ && s.enabled
            && !s.active),
{
    if succeeded {
        Some(DownloadStatus { label: "✓ Descargado".to_owned(), enabled: false, active: false })
    } else if cancelled {
        None
    } else {
        Some(DownloadStatus { label: "Error — reintentar".to_owned(), enabled: true, active: false })
    }
}

/// What the button shows when an album comes on screen.
pub fn idle_status() -> (r: DownloadStatus)
    ensures
        r.label@ == "⬇  Descargar álbum"@,
        r.enabled,
        !r.active,
{
    DownloadStatus { label: "⬇  Descargar álbum".to_owned(), enabled: true, active: false }
}

/// Whether the status of an album's download is shown: only while that album is
/// on screen.
pub fn status_is_shown(on_screen: &Option<String>, album_id: &str) -> (r: bool)
    ensures
        r == (text::opt_view(*on_screen) == Some(album_id@)),
{
    match on_screen {
        Some(id) => text::same_text(id.as_str(), album_id),
        None => false,
    }
}

// ------------------------------------------------------------ laws

/// Whether a character may stand in a part of a path.
pub open spec fn fits_in_path(c: char) -> bool {
    c != '/' && c != '\\' && c != ':' && c != '*' && c != '?' && c != '<' && c != '>' && c != '|' && c
        != '"' && c as u32 >= 0x20
}

/// Whether all characters may stand in a part of a path.
pub open spec fn all_fit(s: Seq<char>) -> bool {
    forall|i: int| 0 <= i < s.len() ==> fits_in_path(#[trigger] s[i])
}

proof fn lemma_cleaned_fits(s: Seq<char>)
    ensures
        all_fit(cleaned(s)),
    decreases s.len(),
{
    if s.len() > 0 {
        lemma_cleaned_fits(s.drop_last());
    }
}

proof fn lemma_start(s: Seq<char>)
    requires
        all_fit(s),
    ensures
        all_fit(edge_free_start(s)),
        edge_free_start(s).len() > 0 ==> !is_edge(edge_free_start(s)[0]),
    decreases s.len(),
{
    if s.len() > 0 && is_edge(s[0]) {
        lemma_start(s.skip(1));
    }
}

proof fn lemma_end(s: Seq<char>)
    requires
        all_fit(s),
    ensures
        all_fit(edge_free_end(s)),
        edge_free_end(s).len() > 0 ==> !is_edge(edge_free_end(s).last()) && edge_free_end(s)[0] == s[0],
    decreases s.len(),
{
    if s.len() > 0 && is_edge(s.last()) {
        lemma_end(s.drop_last());
    }
}

/// Whatever a title holds, its part of a path is not empty, holds no separator,
/// no control character and no quote, and has no dot or white space at its
/// ends: so it is never `.` or `..` and stays one part.
pub proof fn law_path_part_is_safe(s: Seq<char>)
    ensures
        path_part(s).len() > 0,
        all_fit(path_part(s)),
        !is_edge(path_part(s)[0]),
        !is_edge(path_part(s).last()),
{
    reveal_strlit("Untitled");
    let u = "Untitled"@;
    assert(u[0] == 'U' && u[7] == 'd' && u.len() == 8);
    lemma_cleaned_fits(s);
    lemma_start(cleaned(s));
    lemma_end(edge_free_start(cleaned(s)));
}

/// Cleaning a text goes character by character: one that fits stays, a quote
/// goes, and any other becomes an underscore.
pub proof fn law_cleaning_is_character_by_character(a: Seq<char>, b: Seq<char>, c: char)
    ensures
        cleaned(Seq::empty()) == Seq::<char>::empty(),
        cleaned(seq![c]) == (if c == '"' {
            Seq::empty()
        } else if c == '/' || c == '\\' || c == ':' || c == '*' || c == '?' || c == '<' || c == '>' || c == '|'
            || (c as u32) < 0x20 {
            seq!['_']
        } else {
            seq![c]
        }),
        fits_in_path(c) <==> cleaned(seq![c]) == seq![c],
        cleaned(a + b) == cleaned(a) + cleaned(b),
    decreases b.len(),
{
    assert(seq![c].drop_last() =~= Seq::empty());
    assert(cleaned(Seq::<char>::empty()) =~= Seq::empty());
    assert(cleaned(seq![c]) =~= cleaned_char(c));
    assert(cleaned(seq![c]) == seq!['_'] ==> seq!['_'][0] == cleaned(seq![c])[0]);
    assert(seq![c][0] == c && seq![c].len() == 1);
    if b.len() == 0 {
        assert(a + b =~= a);
    } else {
        law_cleaning_is_character_by_character(a, b.drop_last(), c);
        assert((a + b).drop_last() =~= a + b.drop_last());
        assert(cleaned(a + b) =~= cleaned(a) + cleaned(b));
    }
}

/// A text of which every character fits is clean as it is.
proof fn lemma_clean_as_it_is(s: Seq<char>)
    requires
        all_fit(s),
    ensures
        cleaned(s) == s,
    decreases s.len(),
{
    if s.len() > 0 {
        assert(fits_in_path(s.last()));
        assert forall|i: int| 0 <= i < s.drop_last().len() implies fits_in_path(
            #[trigger] s.drop_last()[i],
        ) by {
            assert(fits_in_path(s[i]));
        }
        lemma_clean_as_it_is(s.drop_last());
        assert(cleaned(s) =~= s);
    }
}

/// What is taken off the start are dots and white space only, and all of them.
proof fn lemma_off_the_start(s: Seq<char>)
    ensures
        ({
            let t = edge_free_start(s);
            let k = s.len() - t.len();
            &&& 0 <= k <= s.len()
            &&& t == s.skip(k)
            &&& forall|j: int| 0 <= j < k ==> is_edge(#[trigger] s[j])
            &&& t.len() > 0 ==> !is_edge(t[0])
        }),
    decreases s.len(),
{
    if s.len() > 0 && is_edge(s[0]) {
        let rest = s.skip(1);
        lemma_off_the_start(rest);
        let t = edge_free_start(s);
        let k = s.len() - t.len();
        assert(rest.skip(k - 1) =~= s.skip(k));
        assert forall|j: int| 0 <= j < k implies is_edge(#[trigger] s[j]) by {
            if j > 0 {
                assert(is_edge(rest[j - 1]));
            }
        }
    } else {
        assert(s.skip(0) =~= s);
    }
}

/// What is taken off the end are dots and white space only, and all of them.
proof fn lemma_off_the_end(s: Seq<char>)
    ensures
        ({
            let t = edge_free_end(s);
            &&& t.len() <= s.len()
            &&& t == s.take(t.len() as int)
            &&& forall|j: int| t.len() <= j < s.len() ==> is_edge(#[trigger] s[j])
            &&& t.len() > 0 ==> !is_edge(t.last())
        }),
    decreases s.len(),
{
    if s.len() > 0 && is_edge(s.last()) {
        let rest = s.drop_last();
        lemma_off_the_end(rest);
        let t = edge_free_end(s);
        assert(rest.take(t.len() as int) =~= s.take(t.len() as int));
        assert forall|j: int| t.len() <= j < s.len() implies is_edge(#[trigger] s[j]) by {
            if j < rest.len() {
                assert(is_edge(rest[j]));
            }
        }
    } else {
        assert(s.take(s.len() as int) =~= s);
    }
}

/// The part of a path that a name becomes is the cleaned name without the dots
/// and the white space at its ends, nothing more and nothing less; a name of
/// which nothing is left is `Untitled`.
pub proof fn law_path_part_keeps_the_name(s: Seq<char>)
    ensures
        (forall|j: int| 0 <= j < cleaned(s).len() ==> is_edge(#[trigger] cleaned(s)[j])) ==> path_part(s)
            == "Untitled"@,
        !(forall|j: int| 0 <= j < cleaned(s).len() ==> is_edge(#[trigger] cleaned(s)[j])) ==> exists|
            from: int,
            to: int,
        |
            {
                &&& 0 <= from < to <= cleaned(s).len()
                &&& path_part(s) == #[trigger] cleaned(s).subrange(from, to)
                &&& forall|j: int| 0 <= j < from ==> is_edge(#[trigger] cleaned(s)[j])
                &&& forall|j: int| to <= j < cleaned(s).len() ==> is_edge(#[trigger] cleaned(s)[j])
                &&& !is_edge(cleaned(s)[from])
                &&& !is_edge(cleaned(s)[to - 1])
            },
{
    let c = cleaned(s);
    let a = edge_free_start(c);
    let t = edge_free_end(a);
    lemma_off_the_start(c);
    lemma_off_the_end(a);
    let from = c.len() - a.len();
    let to = from + t.len();
    assert forall|j: int| from <= j < c.len() implies #[trigger] c[j] == a[j - from] by {}
    if t.len() == 0 {
        assert forall|j: int| 0 <= j < c.len() implies is_edge(#[trigger] c[j]) by {
            if j >= from {
                assert(is_edge(a[j - from]));
            }
        }
    } else {
        assert(!is_edge(c[from]));
        assert(t =~= c.subrange(from, to));
        assert forall|j: int| to <= j < c.len() implies is_edge(#[trigger] c[j]) by {
            assert(is_edge(a[j - from]));
        }
        assert(c[to - 1] == t.last());
    }
}

/// Whether a name is fit for a path as it stands.
pub open spec fn fit_name(s: Seq<char>) -> bool {
    &&& s.len() > 0
    &&& all_fit(s)
    &&& s[0] != '.' && !text::is_space(s[0])
    &&& s.last() != '.' && !text::is_space(s.last())
}

/// A name that is fit for a path as it stands stays as it is.
pub proof fn law_fit_names_stay(s: Seq<char>)
    requires
        fit_name(s),
    ensures
        path_part(s) == s,
{
    lemma_clean_as_it_is(s);
}

/// An album goes to its own directory: below the music directory, in `Jelly`,
/// under its artist's name and its own, each as it stands where it is fit for a
/// path.
#[verifier::rlimit(50)]
pub proof fn law_album_directory(music: Seq<char>, artist: Seq<char>, album: Seq<char>)
    requires
        fit_name(artist),
        fit_name(album),
        music.len() > 0,
        music.last() != '/',
    ensures
        album_dir(music, artist, album) == music + "/Jelly/"@ + artist + "/"@ + album,
{
    law_fit_names_stay(artist);
    law_fit_names_stay(album);
    lemma_album_dir(music, artist, album);
    reveal_strlit("/Jelly/");
    reveal_strlit("Jelly/");
    reveal_strlit("/");
    assert("/"@ + "Jelly/"@ =~= "/Jelly/"@);
    assert(album_dir(music, artist, album) =~= music + ("/"@ + "Jelly/"@) + artist + "/"@ + album);
}

/// Whatever its name, the last part of an album's directory is the part that the
/// name becomes, the part before it is that of the artist, and both stand below
/// the music directory.
pub proof fn law_album_directory_ends_with_the_album(music: Seq<char>, artist: Seq<char>, album: Seq<char>)
    ensures
        ({
            let dir = album_dir(music, artist, album);
            let tail = "Jelly/"@ + path_part(artist) + "/"@ + path_part(album);
            &&& text::starts(dir, music)
            &&& dir.len() >= tail.len()
            &&& dir.skip(dir.len() - tail.len()) == tail
        }),
{
    lemma_album_dir(music, artist, album);
    let dir = album_dir(music, artist, album);
    let tail = "Jelly/"@ + path_part(artist) + "/"@ + path_part(album);
    let home = home_of(music);
    assert(dir == home + tail);
    assert(dir.skip(home.len() as int) =~= tail);
    assert(home.len() >= music.len() && home.take(music.len() as int) =~= music);
    assert(dir.take(music.len() as int) =~= music);
}

/// The music directory with a separator behind it, unless it is empty.
pub open spec fn home_of(music: Seq<char>) -> Seq<char> {
    if music.len() == 0 || music.last() == '/' {
        music
    } else {
        music + "/"@
    }
}

#[verifier::rlimit(50)]
proof fn lemma_album_dir(music: Seq<char>, artist: Seq<char>, album: Seq<char>)
    ensures
        album_dir(music, artist, album) == home_of(music) + ("Jelly/"@ + path_part(artist) + "/"@ + path_part(
            album,
        )),
{
    law_path_part_is_safe(artist);
    reveal_strlit("Jelly");
    reveal_strlit("Jelly/");
    reveal_strlit("/");
    assert("Jelly"@ + "/"@ =~= "Jelly/"@);
    let p = path_part(artist);
    let q = path_part(album);
    let top = storage::in_dir(music, "Jelly"@);
    assert(top =~= home_of(music) + "Jelly"@);
    assert(top.last() == "Jelly"@[4]);
    assert(p.last() != '/') by {
        assert(fits_in_path(p[p.len() - 1]));
    }
    let of_artist = top + "/"@ + p;
    assert(of_artist.last() == p.last());
    assert(album_dir(music, artist, album) == of_artist + "/"@ + q);
    assert(of_artist =~= home_of(music) + ("Jelly/"@ + p));
    assert(of_artist + "/"@ + q =~= home_of(music) + ("Jelly/"@ + p + "/"@ + q));
}

/// Two albums whose names, or whose artists' names, are fit for a path and differ
/// get different directories.
#[verifier::rlimit(50)]
pub proof fn law_albums_do_not_share_a_directory(
    music: Seq<char>,
    artist: Seq<char>,
    album: Seq<char>,
    other_artist: Seq<char>,
    other_album: Seq<char>,
)
    requires
        fit_name(artist),
        fit_name(album),
        fit_name(other_artist),
        fit_name(other_album),
        album_dir(music, artist, album) == album_dir(music, other_artist, other_album),
    ensures
        artist == other_artist,
        album == other_album,
{
    law_fit_names_stay(artist);
    law_fit_names_stay(album);
    law_fit_names_stay(other_artist);
    law_fit_names_stay(other_album);
    reveal_strlit("Jelly");
    reveal_strlit("/");
    let top = storage::in_dir(music, "Jelly"@);
    assert(top.last() == "Jelly"@[4]);
    assert(fits_in_path(artist[artist.len() - 1]) && fits_in_path(other_artist[other_artist.len() - 1]));
    assert((top + "/"@ + artist).last() == artist.last());
    assert((top + "/"@ + other_artist).last() == other_artist.last());
    let dir = top + "/"@ + artist + "/"@ + album;
    let same = top + "/"@ + other_artist + "/"@ + other_album;
    assert(album_dir(music, artist, album) == dir);
    assert(album_dir(music, other_artist, other_album) == same);
    let at = top.len() + 1;
    let x = dir.skip(at as int);
    let y = same.skip(at as int);
    assert(x =~= artist + "/"@ + album);
    assert(y =~= other_artist + "/"@ + other_album);
    if artist.len() < other_artist.len() {
        assert(x[artist.len() as int] == '/');
        assert(fits_in_path(other_artist[artist.len() as int]));
        assert(y[artist.len() as int] == other_artist[artist.len() as int]);
    } else if other_artist.len() < artist.len() {
        assert(y[other_artist.len() as int] == '/');
        assert(fits_in_path(artist[other_artist.len() as int]));
        assert(x[other_artist.len() as int] == artist[other_artist.len() as int]);
    }
    assert(x.take(artist.len() as int) =~= artist);
    assert(y.take(artist.len() as int) =~= other_artist);
    assert(x.skip(artist.len() as int + 1) =~= album);
    assert(y.skip(artist.len() as int + 1) =~= other_album);
}

/// The number in front of a file name is the track's own, or its place in the
/// listing where it has none, in at least two digits; behind it stand the title
/// and the extension.
pub proof fn law_file_name(t: DownloadTrack, n: nat)
    requires
        t.track_index is Some ==> t.track_index->0 == n,
        t.track_index is None ==> t.order == n,
    ensures
        fit_name(t.title@) ==> file_name(t) == text::two_digits(n as int) + " - "@ + t.title@ + "."@
            + t.extension@,
        file_name(t) == text::two_digits(n as int) + " - "@ + path_part(t.title@) + "."@ + t.extension@,
{
    if fit_name(t.title@) {
        law_fit_names_stay(t.title@);
    }
}

/// Tracks with different numbers have different files, and so have tracks of one
/// extension with titles that differ and are fit for a path.
#[verifier::rlimit(50)]
pub proof fn law_tracks_do_not_share_a_file(a: DownloadTrack, b: DownloadTrack)
    requires
        file_name(a) == file_name(b),
    ensures
        front_number(a) == front_number(b),
        a.extension@ == b.extension@ ==> path_part(a.title@) == path_part(b.title@),
        a.extension@ == b.extension@ && fit_name(a.title@) && fit_name(b.title@) ==> a.title@ == b.title@,
{
    let x = text::two_digits(front_number(a) as int);
    let y = text::two_digits(front_number(b) as int);
    lemma_two_digits_are_digits(front_number(a));
    lemma_two_digits_are_digits(front_number(b));
    text::law_two_digits(front_number(a));
    text::law_two_digits(front_number(b));
    reveal_strlit(" - ");
    reveal_strlit(".");
    let f = file_name(a);
    let g = file_name(b);
    if x.len() < y.len() {
        assert(f[x.len() as int] == ' ');
        assert(g[x.len() as int] == y[x.len() as int]);
    } else if y.len() < x.len() {
        assert(g[y.len() as int] == ' ');
        assert(f[y.len() as int] == x[y.len() as int]);
    }
    assert(f.take(x.len() as int) =~= x);
    assert(g.take(x.len() as int) =~= y);
    if a.extension@ == b.extension@ {
        let p = path_part(a.title@);
        let q = path_part(b.title@);
        assert(x.len() == y.len());
        assert(f.len() == x.len() + 3 + p.len() + 1 + a.extension@.len());
        assert(g.len() == y.len() + 3 + q.len() + 1 + b.extension@.len());
        let from = x.len() as int + 3;
        assert(f.subrange(from, from + p.len()) =~= p);
        assert(g.subrange(from, from + p.len()) =~= q);
        if fit_name(a.title@) && fit_name(b.title@) {
            law_fit_names_stay(a.title@);
            law_fit_names_stay(b.title@);
        }
    }
}

proof fn lemma_two_digits_are_digits(n: nat)
    ensures
        forall|i: int|
            0 <= i < text::two_digits(n as int).len() ==> #[trigger] text::two_digits(n as int)[i] != ' ',
{
    text::law_decimal_reads_back(n);
    let t = text::two_digits(n as int);
    assert forall|i: int| 0 <= i < t.len() implies #[trigger] t[i] != ' ' by {
        if n < 10 {
            if i > 0 {
                assert(t[i] == text::decimal(n)[i - 1]);
            }
        } else {
            assert(t[i] == text::decimal(n)[i]);
        }
    }
}

/// Where the last dot of a name stands.
proof fn lemma_last_dot(s: Seq<char>)
    ensures
        -1 <= last_dot(s) < s.len(),
        last_dot(s) >= 0 ==> s[last_dot(s)] == '.',
        forall|j: int| last_dot(s) < j < s.len() ==> #[trigger] s[j] != '.',
    decreases s.len(),
{
    if s.len() > 0 && s.last() != '.' {
        let rest = s.drop_last();
        lemma_last_dot(rest);
        assert forall|j: int| last_dot(s) < j < s.len() implies #[trigger] s[j] != '.' by {
            if j < rest.len() {
                assert(rest[j] != '.');
            }
        }
    }
}

/// The extension of a file is what stands behind the last dot of its name; a name
/// without a dot has none.
#[verifier::rlimit(50)]
pub proof fn law_extension(dir: Seq<char>, stem: Seq<char>, ext: Seq<char>)
    requires
        stem.len() > 0,
        !stem.contains('/'),
        !ext.contains('/'),
        !ext.contains('.'),
        ext.len() > 0,
    ensures
        extension_of(dir + seq!['/'] + stem + seq!['.'] + ext) == Some(ext),
        extension_of(stem + seq!['.'] + ext) == Some(ext),
        extension_of(dir + seq!['/'] + ext) is None,
        extension_of(ext) is None,
{
    let name = stem + seq!['.'] + ext;
    lemma_last_dot(name);
    assert(name[stem.len() as int] == '.');
    let i = last_dot(name);
    if i > stem.len() {
        assert(name[i] == ext[i - stem.len() - 1]);
        assert(ext.contains(ext[i - stem.len() - 1]));
    }
    assert(i == stem.len());
    assert(name.skip(i + 1) =~= ext);
    assert(!name.contains('/')) by {
        if name.contains('/') {
            let j = choose|j: int| 0 <= j < name.len() && name[j] == '/';
            if j < stem.len() {
                assert(stem.contains(stem[j]));
            } else if j > stem.len() {
                assert(ext.contains(ext[j - stem.len() - 1]));
            }
        }
    }
    reveal_strlit(".");
    reveal_strlit("..");
    assert(name != "."@ && name != ".."@) by {
        assert(name.last() == ext.last());
        assert(ext.contains(ext.last()));
    }
    assert(ext != "."@ && ext != ".."@) by {
        assert(ext.contains(ext[0]));
    }
    lemma_last_dot(ext);
    if last_dot(ext) >= 0 {
        assert(ext.contains(ext[last_dot(ext)]));
    }
    lemma_last_piece(dir, name);
    lemma_last_piece(dir, ext);
    assert(dir + seq!['/'] + stem + seq!['.'] + ext =~= dir + seq!['/'] + name);
}

/// The last piece of a path is what stands behind its last separator.
proof fn lemma_last_piece(dir: Seq<char>, name: Seq<char>)
    requires
        !name.contains('/'),
    ensures
        text::pieces(name, '/') == seq![name],
        text::pieces(dir + seq!['/'] + name, '/').last() == name,
        name.len() > 0 && name != "."@ && name != ".."@ ==> last_name(text::pieces(name, '/')) == Some(name)
            && last_name(text::pieces(dir + seq!['/'] + name, '/')) == Some(name),
    decreases dir.len(),
{
    let whole = dir + seq!['/'] + name;
    text::law_cut(name, '/');
    text::law_cut(whole, '/');
    text::law_cut(dir, '/');
    match text::cut(name, '/') {
        Some((a, b)) => {
            assert(name[a.len() as int] == '/');
        },
        None => {},
    }
    match text::cut(dir, '/') {
        Some((a, b)) => {
            lemma_last_piece(b, name);
            assert(whole =~= a + seq!['/'] + (b + seq!['/'] + name));
            text::lemma_cut_is(a, b + seq!['/'] + name, '/');
            assert(text::pieces(whole, '/') =~= seq![a] + text::pieces(b + seq!['/'] + name, '/'));
            text::law_pieces_make_up_the_text(b + seq!['/'] + name, '/');
        },
        None => {
            text::lemma_cut_is(dir, name, '/');
            assert(text::pieces(whole, '/') =~= seq![dir] + seq![name]);
        },
    }
    assert(last_name(seq![name]) == last_name(text::pieces(name, '/')));
}

/// A file is saved with the extension that it has on the server, in lower case;
/// without one the first name of its container decides, and without that it is
/// taken for `flac`.
pub proof fn law_saved_extension(
    stem: Seq<char>,
    ext: Seq<char>,
    container: Option<Seq<char>>,
    first: Seq<char>,
    rest: Seq<char>,
)
    requires
        stem.len() > 0,
        !stem.contains('/'),
        !ext.contains('/'),
        !ext.contains('.'),
        ext.len() > 0,
        !first.contains(','),
    ensures
        chosen_extension(Some(stem + seq!['.'] + ext), container) == text::lowered(ext),
        chosen_extension(Some(ext), container) == chosen_extension(None, container),
        container_extension(first + seq![','] + rest) == container_extension(first),
        container_extension(first) is Some ==> chosen_extension(None, Some(first))
            == container_extension(first)->0,
        chosen_extension(None, None) == "flac"@,
        container_extension(Seq::empty()) is None,
        chosen_extension(None, Some(Seq::empty())) == "flac"@,
{
    law_extension(Seq::empty(), stem, ext);
    assert(text::lowered(ext).len() == ext.len());
    text::lemma_cut_is(first, rest, ',');
    text::law_cut(first, ',');
    match text::cut(first, ',') {
        Some((a, b)) => {
            assert(first[a.len() as int] == ',');
        },
        None => {},
    }
    assert(text::pieces(first, ',') =~= seq![first]);
    assert(text::pieces(first + seq![','] + rest, ',') =~= seq![first] + text::pieces(rest, ','));
    text::law_cut(Seq::empty(), ',');
    assert(text::pieces(Seq::empty(), ',') =~= seq![Seq::<char>::empty()]);
    assert(trimmed(Seq::<char>::empty()) =~= Seq::empty());
    assert(text::lowered(Seq::<char>::empty()) =~= Seq::empty());
}

/// A container is known by its name in lower case, without white space around
/// it: `mp4` stands for `m4a`, `vorbis` for `ogg`, `wave` for `wav`, and any
/// other for itself.
pub proof fn law_container_names(name: Seq<char>)
    requires
        name.len() > 0,
        !name.contains(','),
        !text::is_space(name[0]),
        !text::is_space(name.last()),
    ensures
        ({
            let low = text::lowered(name);
            container_extension(name) == Some(
                if low == "mp4"@ {
                    "m4a"@
                } else if low == "vorbis"@ {
                    "ogg"@
                } else if low == "wave"@ {
                    "wav"@
                } else {
                    low
                },
            )
        }),
{
    text::law_cut(name, ',');
    match text::cut(name, ',') {
        Some((a, b)) => {
            assert(name[a.len() as int] == ',');
        },
        None => {},
    }
    assert(text::pieces(name, ',') =~= seq![name]);
    assert(text::pieces(name, ',')[0] == name);
    assert(trimmed(name) == name);
    assert(text::lowered(name).len() == name.len());
    let low = text::lowered(name);
    reveal_strlit("ogg");
    reveal_strlit("vorbis");
    reveal_strlit("wave");
    assert("ogg"@.len() == 3 && "vorbis"@.len() == 6 && "wave"@.len() == 4);
    assert(low == text::lowered(trimmed(text::pieces(name, ',')[0])));
    if low == "mp4"@ {
        assert(container_extension(name) == Some("m4a"@));
    } else if low == "ogg"@ || low == "vorbis"@ {
        assert(container_extension(name) == Some("ogg"@));
    } else if low == "wave"@ {
        assert(container_extension(name) == Some("wav"@));
    } else {
        assert(container_extension(name) == Some(low));
    }
}

/// A text that is trimmed has lost the white space around it and nothing else.
pub proof fn law_trimming(s: Seq<char>)
    ensures
        exists|from: int, to: int|
            {
                &&& 0 <= from <= to <= s.len()
                &&& trimmed(s) == #[trigger] s.subrange(from, to)
                &&& forall|j: int| 0 <= j < from ==> text::is_space(#[trigger] s[j])
                &&& forall|j: int| to <= j < s.len() ==> text::is_space(#[trigger] s[j])
                &&& from < to ==> !text::is_space(s[from]) && !text::is_space(s[to - 1])
            },
{
    let a = trimmed_start(s);
    let t = trimmed_end(a);
    lemma_trimmed_start(s);
    lemma_trimmed_end(a);
    let from = s.len() - a.len();
    let to = from + t.len();
    assert forall|j: int| from <= j < s.len() implies #[trigger] s[j] == a[j - from] by {}
    assert(t =~= s.subrange(from, to));
    assert forall|j: int| to <= j < s.len() implies text::is_space(#[trigger] s[j]) by {
        assert(text::is_space(a[j - from]));
    }
    if from < to {
        assert(s[from] == a[0] && s[to - 1] == t.last());
    }
}

proof fn lemma_trimmed_start(s: Seq<char>)
    ensures
        ({
            let t = trimmed_start(s);
            let k = s.len() - t.len();
            &&& 0 <= k <= s.len()
            &&& t == s.skip(k)
            &&& forall|j: int| 0 <= j < k ==> text::is_space(#[trigger] s[j])
            &&& t.len() > 0 ==> !text::is_space(t[0])
        }),
    decreases s.len(),
{
    if s.len() > 0 && text::is_space(s[0]) {
        let rest = s.skip(1);
        lemma_trimmed_start(rest);
        let k = s.len() - trimmed_start(s).len();
        assert(rest.skip(k - 1) =~= s.skip(k));
        assert forall|j: int| 0 <= j < k implies text::is_space(#[trigger] s[j]) by {
            if j > 0 {
                assert(text::is_space(rest[j - 1]));
            }
        }
    } else {
        assert(s.skip(0) =~= s);
    }
}

proof fn lemma_trimmed_end(s: Seq<char>)
    ensures
        ({
            let t = trimmed_end(s);
            &&& t.len() <= s.len()
            &&& t == s.take(t.len() as int)
            &&& forall|j: int| t.len() <= j < s.len() ==> text::is_space(#[trigger] s[j])
            &&& t.len() > 0 ==> !text::is_space(t.last())
        }),
    decreases s.len(),
{
    if s.len() > 0 && text::is_space(s.last()) {
        let rest = s.drop_last();
        lemma_trimmed_end(rest);
        let t = trimmed_end(s);
        assert(rest.take(t.len() as int) =~= s.take(t.len() as int));
        assert forall|j: int| t.len() <= j < s.len() implies text::is_space(#[trigger] s[j]) by {
            if j < rest.len() {
                assert(text::is_space(rest[j]));
            }
        }
    } else {
        assert(s.take(s.len() as int) =~= s);
    }
}

/// A download fetches every track of the album on screen, once and in its order,
/// under its own title and number, for the artist and the album of that level.
pub proof fn law_download_covers_the_album(
    job: DownloadJob,
    top: NavEntry,
    items: Seq<BaseItemDto>,
    token: Seq<char>,
    i: int,
)
    requires
        is_job(job, top, items, token),
        0 <= i < items.len(),
    ensures
        job.tracks@.len() == items.len(),
        job.tracks@[i].id == items[i].id,
        job.tracks@[i].order == i + 1,
        job.tracks@[i].track_index == items[i].index_number,
        items[i].name is Some ==> job.tracks@[i].title@ == items[i].name->0@,
        items[i].name is None ==> job.tracks@[i].title@ == "Track "@ + text::decimal((i + 1) as nat),
        items[i].media_sources is Some && items[i].media_sources->0@.len() > 0 ==> job.tracks@[i].extension@
            == chosen_extension(
            text::opt_view(items[i].media_sources->0@[0].path),
            text::opt_view(items[i].media_sources->0@[0].container),
        ),
        items[i].media_sources is None ==> job.tracks@[i].extension@ == chosen_extension(None, None),
        job.album_id == top.parent_id,
        job.album_name == top.title,
        top.album_artist is Some ==> job.artist == top.album_artist->0 || job.artist@ == top.album_artist->0@,
        job.token@ == token,
        job.done == 0,
{
    assert(is_track(job.tracks@[i], items[i], i));
}

/// While a download runs the button says how many tracks are on disk and of how
/// many: a different count shows differently.
#[verifier::rlimit(50)]
pub proof fn law_progress_shows_the_count(a: DownloadJob, b: DownloadJob)
    requires
        a.progress_label() == b.progress_label(),
    ensures
        a.done == b.done,
        a.tracks@.len() == b.tracks@.len(),
        text::starts(a.progress_label(), "Descargando "@ + text::decimal(a.done as nat) + "/"@),
{
    let p = "Descargando "@;
    let x = text::decimal(a.done as nat);
    let y = text::decimal(b.done as nat);
    let m = text::decimal(a.tracks@.len());
    let n = text::decimal(b.tracks@.len());
    text::law_decimal_reads_back(a.done as nat);
    text::law_decimal_reads_back(b.done as nat);
    reveal_strlit("/");
    assert("/"@ =~= seq!['/']);
    let f = a.progress_label();
    assert(f.skip(p.len() as int) =~= x + seq!['/'] + (m + "…"@));
    assert(b.progress_label().skip(p.len() as int) =~= y + seq!['/'] + (n + "…"@));
    text::lemma_same_parts(x, m + "…"@, y, n + "…"@, '/');
    lemma_same_front(m, n, "…"@);
    text::law_decimals_differ(a.done as int, b.done as int);
    text::law_decimals_differ(a.tracks@.len() as int, b.tracks@.len() as int);
    let front = p + x + "/"@;
    assert(f.take(front.len() as int) =~= front);
}

/// What stands before one and the same end is the same.
proof fn lemma_same_front(a: Seq<char>, b: Seq<char>, end: Seq<char>)
    requires
        a + end == b + end,
    ensures
        a == b,
{
    assert((a + end).len() == a.len() + end.len() && (b + end).len() == b.len() + end.len());
    assert((a + end).take(a.len() as int) =~= a);
    assert((b + end).take(a.len() as int) =~= b);
}

/// The extension of the file on the server decides wherever its path shows one; the
/// container decides only where it does not.
pub proof fn law_extension_on_the_server_decides(path: Seq<char>, container: Option<Seq<char>>)
    ensures
        match extension_of(path) {
            Some(ext) => if ext.len() > 0 {
                chosen_extension(Some(path), container) == text::lowered(ext)
            } else {
                chosen_extension(Some(path), container) == chosen_extension(None, container)
            },
            None => chosen_extension(Some(path), container) == chosen_extension(None, container),
        },
        container matches Some(c) ==> chosen_extension(None, container) == (match container_extension(c) {
            Some(ext) => ext,
            None => "flac"@,
        }),
{
    match extension_of(path) {
        Some(ext) => {
            assert(text::lowered(ext).len() == ext.len());
        },
        None => {},
    }
}

/// White space around the name of a container does not matter.
pub proof fn law_container_names_are_trimmed(name: Seq<char>)
    requires
        !name.contains(','),
    ensures
        container_extension(name) == container_extension(trimmed(name)),
        trimmed(trimmed(name)) == trimmed(name),
{
    let t = trimmed(name);
    law_trimming(name);
    let (from, to) = choose|from: int, to: int|
        {
            &&& 0 <= from <= to <= name.len()
            &&& trimmed(name) == #[trigger] name.subrange(from, to)
            &&& forall|j: int| 0 <= j < from ==> text::is_space(#[trigger] name[j])
            &&& forall|j: int| to <= j < name.len() ==> text::is_space(#[trigger] name[j])
            &&& from < to ==> !text::is_space(name[from]) && !text::is_space(name[to - 1])
        };
    assert(!t.contains(',')) by {
        if t.contains(',') {
            let j = choose|j: int| 0 <= j < t.len() && t[j] == ',';
            assert(name[from + j] == ',');
        }
    }
    if t.len() > 0 {
        assert(t[0] == name[from] && t.last() == name[to - 1]);
    }
    assert(trimmed(t) == t);
    text::law_cut(name, ',');
    text::law_cut(t, ',');
    match text::cut(name, ',') {
        Some((a, b)) => {
            assert(name[a.len() as int] == ',');
        },
        None => {},
    }
    match text::cut(t, ',') {
        Some((a, b)) => {
            assert(t[a.len() as int] == ',');
        },
        None => {},
    }
    assert(text::pieces(name, ',')[0] == name);
    assert(text::pieces(t, ',')[0] == t);
}

} // verus!
