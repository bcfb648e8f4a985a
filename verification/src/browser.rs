//! Going through a library: which level is open, what it shows, and what a
//! click on an item leads to.
//!
//! Opening a level takes two steps: [`Browser::begin_level`] says what to show
//! while loading and what to ask the server for, and [`Browser::finish_level`]
//! takes the answer. Every level has a number, and what comes in for a level
//! that is no longer open is dropped.
use crate::client::{Client, ItemsQuery};
use crate::detail;
use crate::detail::{apply_detail, detail_subtitle, DetailPage};
use crate::engine::PlayRequest;
use crate::listing;
use crate::listing::{build_initial_item_data, ItemData};
use crate::nav;
use crate::nav::{ChildrenType, NavEntry};
use crate::storage;
use crate::storage::Storage;
use crate::text;
use crate::types;
use crate::types::{BaseItemDto, ItemsResponse};
use crate::urls;
use crate::urls::{audio_stream_url, video_stream_url, Url};
use vstd::prelude::*;

verus! {

/// The header of a level.
#[derive(Debug)]
pub struct ViewMeta {
    pub title: String,
    pub subtitle: String,
    pub collection_type: String,
    pub mode: String,
}

/// Whether `m` is a header with these texts.
pub open spec fn is_meta(
    m: ViewMeta,
    title: Seq<char>,
    subtitle: Seq<char>,
    collection_type: Seq<char>,
    mode: Seq<char>,
) -> bool {
    m.title@ == title && m.subtitle@ == subtitle && m.collection_type@ == collection_type && m.mode@ == mode
}

/// What is shown while a level loads, and what to ask for.
#[derive(Debug)]
pub struct LevelStart {
    /// The number of the level.
    pub epoch: u64,
    pub loading: ViewMeta,
    pub can_go_back: bool,
    /// Whether an album cover that is shown has to go.
    pub clear_cover: bool,
    /// What to ask the server for; nothing for a page without a list.
    pub query: Option<ItemsQuery>,
    /// The header, if there is nothing to wait for.
    pub settled: Option<ViewMeta>,
}

/// An image to be fetched for a row.
#[derive(Debug)]
pub struct ImageLoad {
    pub index: usize,
    pub item_id: String,
    pub tag: String,
}

/// What became of a level.
#[derive(Debug)]
pub enum LevelEnd {
    /// Another level has been opened meanwhile.
    Stale,
    /// The server refused; the header says why.
    Failed(ViewMeta),
    /// The level is there.
    Shown { meta: ViewMeta, rows: Vec<ItemData>, images: Vec<ImageLoad> },
}

/// The tag of an item's main image, if it has one.
pub open spec fn primary_tag(item: BaseItemDto) -> Option<Seq<char>> {
    match item.image_tags {
        Some(tags) => types::value_of(tags@, "Primary"@),
        None => None,
    }
}

/// The tag of an item's main image, if it has one.
fn find_primary(item: &BaseItemDto) -> (r: Option<String>)
    ensures
        text::opt_view(r) == primary_tag(*item),
{
    match &item.image_tags {
        Some(tags) => match tags.get("Primary") {
            Some(tag) => Some(tag.clone()),
            None => None,
        },
        None => None,
    }
}

/// The images to be fetched for the first `n` rows: those of items that have
/// one.
pub open spec fn image_texts(items: Seq<BaseItemDto>, n: nat) -> Seq<(int, Seq<char>, Seq<char>)>
    decreases n,
{
    if n == 0 {
        Seq::empty()
    } else {
        let i = (n - 1) as nat;
        let rest = image_texts(items, i);
        match primary_tag(items[i as int]) {
            Some(tag) => rest.push((i as int, items[i as int].id@, tag)),
            None => rest,
        }
    }
}

/// Row, item and tag of each image.
pub open spec fn load_texts(loads: Seq<ImageLoad>) -> Seq<(int, Seq<char>, Seq<char>)> {
    loads.map_values(|l: ImageLoad| (l.index as int, l.item_id@, l.tag@))
}

/// The images to be fetched for the rows.
fn list_images(items: &Vec<BaseItemDto>) -> (r: Vec<ImageLoad>)
    ensures
        load_texts(r@) == image_texts(items@, items@.len()),
{
    let mut out: Vec<ImageLoad> = Vec::new();
    let mut i: usize = 0;
    assert(load_texts(out@) =~= Seq::empty());
    while i < items.len()
        invariant
            i <= items@.len(),
            load_texts(out@) == image_texts(items@, i as nat),
        decreases items@.len() - i,
    {
        let ghost before = load_texts(out@);
        if let Some(tag) = find_primary(&items[i]) {
            let ghost t = tag@;
            out.push(ImageLoad { index: i, item_id: items[i].id.clone(), tag });
            assert(load_texts(out@) =~= before.push((i as int, items@[i as int].id@, t)));
        }
        i = i + 1;
    }
    out
}

/// The rows of items.
fn list_rows(items: &Vec<BaseItemDto>) -> (r: Vec<ItemData>)
    ensures
        r@.len() == items@.len(),
        forall|i: int| 0 <= i < items@.len() ==> listing::is_row(#[trigger] r@[i], items@[i]),
{
    let mut out: Vec<ItemData> = Vec::new();
    let mut i: usize = 0;
    while i < items.len()
        invariant
            i <= items@.len(),
            out@.len() == i,
            forall|j: int| 0 <= j < i ==> listing::is_row(#[trigger] out@[j], items@[j]),
        decreases items@.len() - i,
    {
        out.push(build_initial_item_data(&items[i]));
        i = i + 1;
    }
    out
}

/// How many items there are: `2 items`, or `200 of 512 items` if the level does
/// not show them all.
pub open spec fn count_text(shown: nat, total: int) -> Seq<char> {
    if total < 0 || total > shown {
        text::decimal(shown) + " of "@ + text::signed_decimal(total) + " items"@
    } else {
        text::decimal(shown) + " items"@
    }
}

/// How many items there are.
fn count_label(shown: usize, total: i64) -> (r: String)
    ensures
        r@ == count_text(shown as nat, total as int),
{
    let mut out = text::decimal_of(shown as u64);
    if total < 0 || total as u64 > shown as u64 {
        out.append(" of ");
        out.append(text::signed_decimal_of(total).as_str());
    }
    out.append(" items");
    assert(out@ =~= count_text(shown as nat, total as int));
    out
}

/// The subtitle of a level that is there: its own, the count, or both; the page
/// of a series shows no count.
pub open spec fn header_subtitle(top: NavEntry, count: Seq<char>) -> Seq<char> {
    if top.children is SeriesDetail {
        top.subtitle@
    } else if top.subtitle@.len() == 0 {
        count
    } else {
        top.subtitle@ + " · "@ + count
    }
}

/// The number of the level after the one with a number. After the last number
/// they start again at 0.
pub open spec fn next_number(n: u64) -> u64 {
    if n == u64::MAX {
        0
    } else {
        (n + 1) as u64
    }
}

/// The number of the level that is opened `k` levels after the one with a
/// number.
pub open spec fn number_after(n: u64, k: nat) -> u64
    decreases k,
{
    if k == 0 {
        n
    } else {
        next_number(number_after(n, (k - 1) as nat))
    }
}

/// Numbers count up, around the end of their range.
proof fn lemma_number_after(n: u64, k: nat)
    requires
        k < 0x1_0000_0000_0000_0000,
    ensures
        number_after(n, k) == (if n + k <= u64::MAX {
            n + k
        } else {
            n + k - 0x1_0000_0000_0000_0000
        }),
    decreases k,
{
    if k > 0 {
        lemma_number_after(n, (k - 1) as nat);
    }
}

/// Opening a level puts all earlier ones out of date: the number of a level does
/// not come back however many levels are opened after it, short of all numbers.
pub proof fn law_earlier_levels_are_out_of_date(n: u64, k: nat)
    requires
        0 < k < 0x1_0000_0000_0000_0000,
    ensures
        number_after(n, k) != n,
{
    lemma_number_after(n, k);
}

/// The state of a walk through a library.
pub struct Browser {
    nav: Vec<NavEntry>,
    items: Vec<BaseItemDto>,
    epoch: u64,
    current_album: Option<String>,
}

impl Browser {
    /// The open levels, outermost first.
    pub closed spec fn levels(&self) -> Seq<NavEntry> {
        self.nav@
    }

    /// The items of the level on top.
    pub closed spec fn listed(&self) -> Seq<BaseItemDto> {
        self.items@
    }

    /// The number of the level that was opened last.
    pub closed spec fn number(&self) -> u64 {
        self.epoch
    }

    /// The album whose tracks are on screen.
    pub closed spec fn album(&self) -> Option<String> {
        self.current_album
    }

    /// Nothing open yet.
    pub fn new() -> (r: Self)
        ensures
            r.levels() == Seq::<NavEntry>::empty(),
            r.listed() == Seq::<BaseItemDto>::empty(),
            r.number() == 0,
            r.album() is None,
    {
        Browser { nav: Vec::new(), items: Vec::new(), epoch: 0, current_album: None }
    }

    /// The level on top.
    pub fn top(&self) -> (r: Option<&NavEntry>)
        ensures
            r is Some <==> self.levels().len() > 0,
            r matches Some(t) ==> *t == self.levels().last(),
    {
        if self.nav.len() == 0 {
            None
        } else {
            Some(&self.nav[self.nav.len() - 1])
        }
    }

    /// The items of the level on top.
    pub fn items(&self) -> (r: &Vec<BaseItemDto>)
        ensures
            r@ == self.listed(),
    {
        &self.items
    }

    /// The album whose tracks are on screen.
    pub fn current_album(&self) -> (r: &Option<String>)
        ensures
            *r == self.album(),
    {
        &self.current_album
    }

    /// Whether a level is still the one that was opened last: if not, images
    /// for it are no longer wanted.
    pub fn is_current(&self, epoch: u64) -> (r: bool)
        ensures
            r == (epoch == self.number()),
    {
        self.epoch == epoch
    }

    /// Closes all levels and opens the top of a library.
    pub fn open_library(&mut self, root: NavEntry)
        ensures
            final(self).levels() == seq![root],
            final(self).listed() == old(self).listed(),
            final(self).number() == old(self).number(),
            final(self).album() == old(self).album(),
    {
        self.nav = Vec::new();
        self.nav.push(root);
        assert(self.nav@ =~= seq![root]);
    }

    /// Closes the level on top unless it is the only one. Says whether it did.
    pub fn go_back(&mut self) -> (r: bool)
        ensures
            r == (old(self).levels().len() > 1),
            final(self).levels() == (if r {
                old(self).levels().drop_last()
            } else {
                old(self).levels()
            }),
            final(self).listed() == old(self).listed(),
            final(self).number() == old(self).number(),
            final(self).album() == old(self).album(),
    {
        if self.nav.len() > 1 {
            let _gone = self.nav.pop();
            assert(self.nav@ =~= old(self).nav@.drop_last());
            true
        } else {
            false
        }
    }

    /// Starts to show the level on top. Whatever was still loading for an
    /// earlier one is out of date from here on.
    pub fn begin_level(&mut self) -> (r: LevelStart)
        requires
            old(self).levels().len() > 0,
        ensures
            ({
                let top = old(self).levels().last();
                &&& final(self).levels() == old(self).levels()
                &&& final(self).number() == next_number(old(self).number())
                &&& r.epoch == final(self).number()
                &&& final(self).album() == (if top.children is Tracks {
                    old(self).album()
                } else {
                    None
                })
                &&& is_meta(
                    r.loading,
                    top.title@,
                    if top.subtitle@.len() == 0 {
                        "Loading…"@
                    } else {
                        top.subtitle@
                    },
                    top.children.collection(),
                    top.children.mode(),
                )
                &&& r.can_go_back == (old(self).levels().len() > 1)
                &&& r.clear_cover == !(top.children is Tracks)
                &&& if top.children is MovieDetail {
                    &&& r.query is None
                    &&& r.settled matches Some(m) && is_meta(
                        m,
                        top.title@,
                        Seq::empty(),
                        top.children.collection(),
                        "detail"@,
                    )
                    &&& final(self).listed() == Seq::<BaseItemDto>::empty()
                } else {
                    &&& r.query matches Some(q) && top.children.is_query(q, top.parent_id@)
                    &&& r.settled is None
                    &&& final(self).listed() == old(self).listed()
                }
            }),
    {
        self.epoch = if self.epoch == u64::MAX {
            0
        } else {
            self.epoch + 1
        };
        let n: usize = self.nav.len();
        let top = &self.nav[n - 1];
        let subtitle = if top.subtitle.as_str().is_empty() {
            "Loading…".to_owned()
        } else {
            top.subtitle.clone()
        };
        let loading = ViewMeta {
            title: top.title.clone(),
            subtitle,
            collection_type: top.children.collection_label().to_owned(),
            mode: top.children.display_mode().to_owned(),
        };
        let is_tracks: bool = match &top.children {
            ChildrenType::Tracks => true,
            _ => false,
        };
        let is_movie: bool = match &top.children {
            ChildrenType::MovieDetail => true,
            _ => false,
        };
        let (query, settled) = if is_movie {
            (
                None,
                Some(
                    ViewMeta {
                        title: top.title.clone(),
                        subtitle: String::new(),
                        collection_type: top.children.collection_label().to_owned(),
                        mode: "detail".to_owned(),
                    },
                ),
            )
        } else {
            (Some(top.children.query(top.parent_id.as_str())), None)
        };
        if !is_tracks {
            self.current_album = None;
        }
        if is_movie {
            self.items = Vec::new();
        }
        LevelStart {
            epoch: self.epoch,
            loading,
            can_go_back: n > 1,
            clear_cover: !is_tracks,
            query,
            settled,
        }
    }

    /// Takes the server's answer for the level with a number. If another level
    /// has been opened since, the answer is dropped; if the server refused, the
    /// items stay as they were.
    pub fn finish_level(&mut self, epoch: u64, answer: Result<ItemsResponse, String>) -> (r: LevelEnd)
        requires
            old(self).levels().len() > 0,
        ensures
            final(self).levels() == old(self).levels(),
            final(self).number() == old(self).number(),
            final(self).album() == old(self).album(),
            epoch != old(self).number() ==> r is Stale && final(self).listed() == old(self).listed(),
            epoch == old(self).number() ==> match answer {
                Err(why) => {
                    &&& r matches LevelEnd::Failed(m)
                    &&& is_meta(m, "Error"@, why@, Seq::empty(), "grid"@)
                    &&& final(self).listed() == old(self).listed()
                },
                Ok(resp) => {
                    let top = old(self).levels().last();
                    let total = match resp.total_record_count {
                        Some(t) => t as int,
                        None => resp.items@.len() as int,
                    };
                    &&& r matches LevelEnd::Shown { meta, rows, images }
                    &&& is_meta(
                        meta,
                        top.title@,
                        header_subtitle(top, count_text(resp.items@.len(), total)),
                        top.children.collection(),
                        top.children.mode(),
                    )
                    &&& rows@.len() == resp.items@.len()
                    &&& forall|i: int|
                        0 <= i < rows@.len() ==> listing::is_row(#[trigger] rows@[i], resp.items@[i])
                    &&& load_texts(images@) == image_texts(resp.items@, resp.items@.len())
                    &&& final(self).listed() == resp.items@
                },
            },
    {
        if self.epoch != epoch {
            return LevelEnd::Stale;
        }
        let resp = match answer {
            Ok(resp) => resp,
            Err(why) => {
                return LevelEnd::Failed(
                    ViewMeta {
                        title: "Error".to_owned(),
                        subtitle: why,
                        collection_type: String::new(),
                        mode: "grid".to_owned(),
                    },
                );
            },
        };
        let n: usize = self.nav.len();
        let top = &self.nav[n - 1];
        let shown: usize = resp.items.len();
        let count = match resp.total_record_count {
            Some(t) => count_label(shown, t),
            None => {
                let mut out = text::decimal_of(shown as u64);
                out.append(" items");
                out
            },
        };
        let is_series: bool = match &top.children {
            ChildrenType::SeriesDetail => true,
            _ => false,
        };
        let subtitle = if is_series {
            top.subtitle.clone()
        } else if top.subtitle.as_str().is_empty() {
            count
        } else {
            let mut out = top.subtitle.clone();
            out.append(" · ");
            out.append(count.as_str());
            out
        };
        let meta = ViewMeta {
            title: top.title.clone(),
            subtitle,
            collection_type: top.children.collection_label().to_owned(),
            mode: top.children.display_mode().to_owned(),
        };
        let rows = list_rows(&resp.items);
        let images = list_images(&resp.items);
        self.items = resp.items;
        LevelEnd::Shown { meta, rows, images }
    }
}

// ------------------------------------------------------------ clicks

/// What the header of an album is made from.
#[derive(Debug)]
pub struct AlbumFacts {
    pub artist: String,
    pub year: Option<i32>,
    pub genres: Vec<String>,
    pub overview: String,
}

/// Whether `f` are the facts about an album.
pub open spec fn are_facts(f: AlbumFacts, album: BaseItemDto) -> bool {
    &&& f.artist@ == text::or_empty(album.album_artist)
    &&& f.year == album.production_year
    &&& f.genres@ == text::list_or_empty(album.genres)
    &&& f.overview@ == text::or_empty(album.overview)
}

/// The facts about an album.
pub fn album_facts(album: &BaseItemDto) -> (r: AlbumFacts)
    ensures
        are_facts(r, *album),
{
    AlbumFacts {
        artist: text::text_or_empty(&album.album_artist),
        year: album.production_year,
        genres: text::copy_list_or_empty(&album.genres),
        overview: text::text_or_empty(&album.overview),
    }
}

/// The header of an album.
#[derive(Debug)]
pub struct AlbumHeader {
    pub artist: String,
    pub meta: String,
    pub genres: Vec<String>,
    pub overview: String,
    pub wikipedia: Option<String>,
}

/// Makes the header of an album out of its facts and its tracks.
pub fn album_header(facts: AlbumFacts, tracks: &Vec<BaseItemDto>) -> (r: AlbumHeader)
    requires
        listing::total_ticks(tracks@) <= i64::MAX,
    ensures
        r.artist == facts.artist,
        r.meta@ == text::join(listing::album_parts(facts.year, tracks@), " · "@),
        r.genres == facts.genres,
        r.overview == facts.overview,
        text::opt_view(r.wikipedia) == listing::wikipedia_link(facts.overview@),
{
    let wikipedia = listing::extract_wikipedia_url(facts.overview.as_str());
    AlbumHeader {
        artist: facts.artist,
        meta: listing::album_meta_line(facts.year, tracks),
        genres: facts.genres,
        overview: facts.overview,
        wikipedia,
    }
}

/// What a click leads to.
#[derive(Debug)]
pub enum Activation {
    /// Nobody is signed in, so nothing can be played.
    NoToken,
    /// The item is not on screen any more.
    Missing,
    /// A click on this type of item does nothing yet.
    Unsupported,
    /// Play this video.
    PlayVideo { url: Url, audio_device: Option<String> },
    /// Play this track.
    PlayAudio(PlayRequest),
    /// A page has been opened: show the level, ask for the whole item, and if
    /// that fails show the page made from what the listing knew.
    OpenDetail { id: String, is_series: bool, fallback: DetailPage },
    /// An album has been opened: show the level, fetch the cover, ask for the
    /// whole item, and if that fails use what the listing knew.
    OpenAlbum { id: String, cover: Option<String>, fallback: AlbumFacts },
    /// A season or a playlist has been opened: show the level.
    OpenLevel,
}

/// The first item with an id.
pub open spec fn find_item(items: Seq<BaseItemDto>, id: Seq<char>) -> Option<BaseItemDto>
    decreases items.len(),
{
    if items.len() == 0 {
        None
    } else if items[0].id@ == id {
        Some(items[0])
    } else {
        find_item(items.skip(1), id)
    }
}

/// Where the first item with an id stands; the number of items if there is none.
fn index_of_item(items: &Vec<BaseItemDto>, id: &str) -> (r: usize)
    ensures
        r <= items@.len(),
        r < items@.len() ==> find_item(items@, id@) == Some(items@[r as int]) && items@[r as int].id@
            == id@,
        r == items@.len() ==> find_item(items@, id@) is None,
{
    let mut i: usize = 0;
    assert(items@.skip(0) =~= items@);
    while i < items.len()
        invariant
            i <= items@.len(),
            find_item(items@, id@) == find_item(items@.skip(i as int), id@),
        decreases items@.len() - i,
    {
        assert(items@.skip(i as int)[0] == items@[i as int]);
        assert(items@.skip(i as int).skip(1) =~= items@.skip(i + 1));
        if text::same_text(items[i].id.as_str(), id) {
            return i;
        }
        i = i + 1;
    }
    assert(items@.skip(i as int).len() == 0);
    i
}

/// The container of an item's first source, if known.
pub open spec fn container_of(item: Option<BaseItemDto>) -> Option<String> {
    match item {
        Some(i) => match detail::first_source(i) {
            Some(s) => s.container,
            None => None,
        },
        None => None,
    }
}

/// Whether `url` is the address of an item's untouched file.
pub open spec fn is_stream(
    url: Seq<char>,
    client: Client,
    kind: Seq<char>,
    item_id: Seq<char>,
) -> bool {
    let segments = seq![kind, item_id, "stream"@];
    let pairs = urls::stream_pairs(client.key()->0@);
    &&& url == urls::with_pairs(urls::extended_path(client.base(), segments), pairs)
    &&& urls::is_web(client.base()) && urls::is_plain(item_id) ==> url == urls::with_pairs(
        urls::web_joined(client.base(), segments),
        pairs,
    )
}

/// Whether a click on an item of this type plays it.
pub open spec fn is_leaf(item_type: Seq<char>) -> bool {
    item_type == "Episode"@ || item_type == "Video"@ || item_type == "Audio"@
}

/// Whether a click on an item of this type plays it.
pub fn plays(item_type: &str) -> (r: bool)
    ensures
        r == is_leaf(item_type@),
{
    text::same_text(item_type, "Episode") || text::same_text(item_type, "Video") || text::same_text(
        item_type,
        "Audio",
    )
}

/// Whether a client's base has room for the address of an item's file.
pub open spec fn can_stream(client: Client, item_id: Seq<char>) -> bool {
    &&& urls::can_be_base(client.base())
    &&& urls::has_room(client.base(), item_id.len() + text::or_empty(client.key()).len() + 100)
}

/// Whether an entry is the level that an item opens into.
pub open spec fn is_level_of(e: NavEntry, item: BaseItemDto, subtitle: Seq<char>, children: ChildrenType) -> bool {
    &&& e.parent_id == item.id
    &&& e.title@ == text::or_empty(item.name)
    &&& e.subtitle@ == subtitle
    &&& e.children == children
    &&& e.album_artist is Some <==> children is Tracks
    &&& e.album_artist matches Some(a) ==> a@ == text::or_empty(item.album_artist)
}

/// Plays a video, if somebody is signed in.
pub fn play_video(client: &Client, stored: &Storage, item_id: &str) -> (r: Activation)
    requires
        can_stream(*client, item_id@),
    ensures
        client.key() is None ==> r is NoToken,
        client.key() is Some ==> {
            &&& r matches Activation::PlayVideo { url, audio_device }
            &&& is_stream(url@, *client, "Videos"@, item_id@)
            &&& audio_device == storage::chosen_device(stored.cfg())
        },
{
    match client.token() {
        None => Activation::NoToken,
        Some(token) => Activation::PlayVideo {
            url: video_stream_url(client.base_url(), item_id, token),
            audio_device: stored.audio_device(),
        },
    }
}

impl Browser {
    /// Whether everything but the levels and the album is as it was.
    pub open spec fn keeps_items(&self, before: &Browser) -> bool {
        self.listed() == before.listed() && self.number() == before.number()
    }

    /// Plays a track, if somebody is signed in.
    fn play_audio(&self, client: &Client, stored: &Storage, item_id: &str) -> (r: Activation)
        requires
            can_stream(*client, item_id@),
        ensures
            client.key() is None ==> r is NoToken,
            client.key() is Some ==> {
                &&& r matches Activation::PlayAudio(req)
                &&& is_stream(req.url@, *client, "Audio"@, item_id@)
                &&& req.container == container_of(find_item(self.listed(), item_id@))
                &&& req.audio_device == storage::chosen_device(stored.cfg())
                &&& req.exclusive == storage::is_exclusive(stored.cfg())
            },
    {
        let token = match client.token() {
            None => {
                return Activation::NoToken;
            },
            Some(token) => token,
        };
        let at: usize = index_of_item(&self.items, item_id);
        let container = if at < self.items.len() {
            match &self.items[at].media_sources {
                Some(m) => {
                    if m.len() > 0 {
                        text::copy_opt(&m[0].container)
                    } else {
                        None
                    }
                },
                None => None,
            }
        } else {
            None
        };
        Activation::PlayAudio(
            PlayRequest {
                url: audio_stream_url(client.base_url(), item_id, token).as_str().to_owned(),
                container,
                audio_device: stored.audio_device(),
                exclusive: stored.exclusive_mode(),
            },
        )
    }

    /// Opens the page of a film or a series that is on screen.
    fn open_detail(&mut self, item_id: &str, is_series: bool) -> (r: Activation)
        ensures
            final(self).keeps_items(old(self)),
            match find_item(old(self).listed(), item_id@) {
                None => r is Missing && final(self).levels() == old(self).levels() && final(self).album()
                    == old(self).album(),
                Some(item) => {
                    let children = if is_series {
                        ChildrenType::SeriesDetail
                    } else {
                        ChildrenType::MovieDetail
                    };
                    &&& r matches Activation::OpenDetail { id, is_series: s, fallback }
                    &&& id == item.id
                    &&& s == is_series
                    &&& detail::shows(fallback.meta, item, is_series)
                    &&& fallback.backdrop == detail::first_of(item.backdrop_image_tags)
                    &&& fallback.portraits@ == detail::portraits_of(
                        detail::shown_cast(item),
                        detail::shown_cast(item).len(),
                    )
                    &&& final(self).levels().len() == old(self).levels().len() + 1
                    &&& final(self).levels().drop_last() == old(self).levels()
                    &&& is_level_of(final(self).levels().last(), item, Seq::empty(), children)
                    &&& final(self).album() is None
                },
            },
    {
        let at: usize = index_of_item(&self.items, item_id);
        if at == self.items.len() {
            return Activation::Missing;
        }
        let item = &self.items[at];
        let fallback = apply_detail(item, is_series);
        let id = item.id.clone();
        let entry = NavEntry {
            parent_id: item.id.clone(),
            title: text::text_or_empty(&item.name),
            subtitle: String::new(),
            children: if is_series {
                ChildrenType::SeriesDetail
            } else {
                ChildrenType::MovieDetail
            },
            album_artist: None,
        };
        self.nav.push(entry);
        assert(self.nav@.drop_last() =~= old(self).nav@);
        self.current_album = None;
        Activation::OpenDetail { id, is_series, fallback }
    }

    /// Opens an album, a season or a playlist that is on screen.
    fn open_container(&mut self, item_id: &str, item_type: &str, children: ChildrenType) -> (r: Activation)
        requires
            children is Tracks <==> item_type@ == "MusicAlbum"@,
        ensures
            final(self).keeps_items(old(self)),
            match find_item(old(self).listed(), item_id@) {
                None => r is Missing && final(self).levels() == old(self).levels() && final(self).album()
                    == old(self).album(),
                Some(item) => {
                    &&& opens_container(r, item, item_type@ == "MusicAlbum"@)
                    &&& final(self).levels().len() == old(self).levels().len() + 1
                    &&& final(self).levels().drop_last() == old(self).levels()
                    &&& is_level_of(
                        final(self).levels().last(),
                        item,
                        detail::detail_subtitle_text(item, item_type@),
                        children,
                    )
                    &&& final(self).album() == (if item_type@ == "MusicAlbum"@ {
                        Some(item.id)
                    } else {
                        None
                    })
                },
            },
    {
        let at: usize = index_of_item(&self.items, item_id);
        if at == self.items.len() {
            return Activation::Missing;
        }
        let item = &self.items[at];
        let is_album: bool = match &children {
            ChildrenType::Tracks => true,
            _ => false,
        };
        let entry = NavEntry {
            parent_id: item.id.clone(),
            title: text::text_or_empty(&item.name),
            subtitle: detail_subtitle(item, item_type),
            children,
            album_artist: if is_album {
                Some(text::text_or_empty(&item.album_artist))
            } else {
                None
            },
        };
        if is_album {
            let r = Activation::OpenAlbum {
                id: item.id.clone(),
                cover: find_primary(item),
                fallback: album_facts(item),
            };
            self.current_album = Some(item.id.clone());
            self.nav.push(entry);
            assert(self.nav@.drop_last() =~= old(self).nav@);
            r
        } else {
            self.current_album = None;
            self.nav.push(entry);
            assert(self.nav@.drop_last() =~= old(self).nav@);
            Activation::OpenLevel
        }
    }

    /// What a click on an item does: leaves are played, films and series open a
    /// page, and what holds other items opens a level. Clicks on anything else,
    /// or on an item that is not on screen any more, change nothing.
    pub fn activate(&mut self, client: &Client, stored: &Storage, item_id: &str, item_type: &str) -> (r:
        Activation)
        requires
            is_leaf(item_type@) ==> can_stream(*client, item_id@),
        ensures
            final(self).keeps_items(old(self)),
            clicked(*old(self), *final(self), r, *client, stored.cfg(), item_id@, item_type@),
    {
        proof {
            lemma_click_types_differ();
        }
        if text::same_text(item_type, "Episode") || text::same_text(item_type, "Video") {
            play_video(client, stored, item_id)
        } else if text::same_text(item_type, "Movie") {
            self.open_detail(item_id, false)
        } else if text::same_text(item_type, "Series") {
            self.open_detail(item_id, true)
        } else if text::same_text(item_type, "Audio") {
            self.play_audio(client, stored, item_id)
        } else if text::same_text(item_type, "MusicAlbum") {
            self.open_container(item_id, item_type, ChildrenType::Tracks)
        } else if text::same_text(item_type, "Season") {
            self.open_container(item_id, item_type, ChildrenType::Episodes)
        } else if text::same_text(item_type, "Playlist") {
            self.open_container(item_id, item_type, ChildrenType::PlaylistItems)
        } else {
            Activation::Unsupported
        }
    }
}

/// Whether `r` says that a container has been opened.
pub open spec fn opens_container(r: Activation, item: BaseItemDto, is_album: bool) -> bool {
    if is_album {
        &&& r matches Activation::OpenAlbum { id, cover, fallback }
        &&& id == item.id
        &&& text::opt_view(cover) == primary_tag(item)
        &&& are_facts(fallback, item)
    } else {
        r is OpenLevel
    }
}

/// The level that a click on an item opens, by the item's type; none if the
/// click opens no level.
pub open spec fn opened_level(item_type: Seq<char>) -> Option<ChildrenType> {
    if item_type == "Movie"@ {
        Some(ChildrenType::MovieDetail)
    } else if item_type == "Series"@ {
        Some(ChildrenType::SeriesDetail)
    } else if item_type == "MusicAlbum"@ {
        Some(ChildrenType::Tracks)
    } else if item_type == "Season"@ {
        Some(ChildrenType::Episodes)
    } else if item_type == "Playlist"@ {
        Some(ChildrenType::PlaylistItems)
    } else {
        None
    }
}

/// What a click on an item does.
pub open spec fn clicked(
    before: Browser,
    after: Browser,
    r: Activation,
    client: Client,
    cfg: storage::ConfigFile,
    item_id: Seq<char>,
    item_type: Seq<char>,
) -> bool {
    match opened_level(item_type) {
        Some(children) => match find_item(before.listed(), item_id) {
            None => r is Missing && after.levels() == before.levels() && after.album() == before.album(),
            Some(item) => {
                let is_page = children is MovieDetail || children is SeriesDetail;
                &&& after.levels().len() == before.levels().len() + 1
                &&& after.levels().drop_last() == before.levels()
                &&& is_level_of(
                    after.levels().last(),
                    item,
                    if is_page {
                        Seq::empty()
                    } else {
                        detail::detail_subtitle_text(item, item_type)
                    },
                    children,
                )
                &&& after.album() == (if children is Tracks {
                    Some(item.id)
                } else {
                    None
                })
                &&& if is_page {
                    &&& r matches Activation::OpenDetail { id, is_series, fallback }
                    &&& id == item.id
                    &&& is_series == (children is SeriesDetail)
                    &&& detail::shows(fallback.meta, item, is_series)
                    &&& fallback.backdrop == detail::first_of(item.backdrop_image_tags)
                    &&& fallback.portraits@ == detail::portraits_of(
                        detail::shown_cast(item),
                        detail::shown_cast(item).len(),
                    )
                } else {
                    opens_container(r, item, children is Tracks)
                }
            },
        },
        None => {
            &&& after.levels() == before.levels()
            &&& after.album() == before.album()
            &&& if item_type == "Episode"@ || item_type == "Video"@ {
                if client.key() is None {
                    r is NoToken
                } else {
                    &&& r matches Activation::PlayVideo { url, audio_device }
                    &&& is_stream(url@, client, "Videos"@, item_id)
                    &&& audio_device == storage::chosen_device(cfg)
                }
            } else if item_type == "Audio"@ {
                if client.key() is None {
                    r is NoToken
                } else {
                    &&& r matches Activation::PlayAudio(req)
                    &&& is_stream(req.url@, client, "Audio"@, item_id)
                    &&& req.container == container_of(find_item(before.listed(), item_id))
                    &&& req.audio_device == storage::chosen_device(cfg)
                    &&& req.exclusive == storage::is_exclusive(cfg)
                }
            } else {
                r is Unsupported
            }
        },
    }
}

/// The types that a click tells apart have different names.
proof fn lemma_click_types_differ()
    ensures
        "Episode"@ != "Movie"@ && "Episode"@ != "Series"@ && "Episode"@ != "MusicAlbum"@ && "Episode"@
            != "Season"@ && "Episode"@ != "Playlist"@,
        "Video"@ != "Movie"@ && "Video"@ != "Series"@ && "Video"@ != "MusicAlbum"@ && "Video"@ != "Season"@
            && "Video"@ != "Playlist"@ && "Video"@ != "Audio"@,
        "Audio"@ != "Movie"@ && "Audio"@ != "Series"@ && "Audio"@ != "MusicAlbum"@ && "Audio"@ != "Season"@
            && "Audio"@ != "Playlist"@ && "Audio"@ != "Episode"@,
        "Movie"@ != "Series"@ && "Movie"@ != "MusicAlbum"@ && "Movie"@ != "Season"@ && "Movie"@
            != "Playlist"@,
        "Series"@ != "MusicAlbum"@ && "Series"@ != "Season"@ && "Series"@ != "Playlist"@,
        "Season"@ != "MusicAlbum"@ && "Season"@ != "Playlist"@,
        "Playlist"@ != "MusicAlbum"@,
{
    reveal_strlit("Movie");
    reveal_strlit("Series");
    reveal_strlit("Season");
    reveal_strlit("Episode");
    reveal_strlit("MusicAlbum");
    reveal_strlit("Audio");
    reveal_strlit("Playlist");
    reveal_strlit("Video");
    assert("Episode"@.len() == 7 && "Playlist"@.len() == 8 && "MusicAlbum"@.len() == 10);
    assert("Movie"@.len() == 5 && "Audio"@.len() == 5 && "Video"@.len() == 5);
    assert("Series"@.len() == 6 && "Season"@.len() == 6);
    assert("Movie"@[0] == 'M' && "Audio"@[0] == 'A' && "Video"@[0] == 'V');
    assert("Series"@[2] == 'r' && "Season"@[2] == 'a');
}

/// Going back undoes the opening of a level: after a click that opened one, the
/// levels are what they were.
pub proof fn law_back_undoes_a_click(
    before: Browser,
    after: Browser,
    r: Activation,
    client: Client,
    cfg: storage::ConfigFile,
    item_id: Seq<char>,
    item_type: Seq<char>,
)
    requires
        clicked(before, after, r, client, cfg, item_id, item_type),
        before.levels().len() > 0,
    ensures
        after.levels() != before.levels() ==> after.levels().len() > 1 && after.levels().drop_last()
            == before.levels(),
        after.levels().len() >= before.levels().len(),
{
}

/// The item that is found has the id, and none before it has; if none is found,
/// none has.
pub proof fn law_found_item(items: Seq<BaseItemDto>, id: Seq<char>)
    ensures
        match find_item(items, id) {
            Some(item) => exists|i: int|
                {
                    &&& 0 <= i < items.len()
                    &&& #[trigger] items[i] == item
                    &&& item.id@ == id
                    &&& forall|j: int| 0 <= j < i ==> (#[trigger] items[j]).id@ != id
                },
            None => forall|j: int| 0 <= j < items.len() ==> (#[trigger] items[j]).id@ != id,
        },
    decreases items.len(),
{
    if items.len() > 0 {
        if items[0].id@ == id {
        } else {
            let rest = items.skip(1);
            law_found_item(rest, id);
            assert forall|j: int| 1 <= j < items.len() implies #[trigger] items[j] == rest[j - 1] by {}
            match find_item(rest, id) {
                Some(item) => {
                    let k = choose|i: int|
                        {
                            &&& 0 <= i < rest.len()
                            &&& #[trigger] rest[i] == item
                            &&& item.id@ == id
                            &&& forall|j: int| 0 <= j < i ==> (#[trigger] rest[j]).id@ != id
                        };
                    assert(items[k + 1] == rest[k]);
                },
                None => {},
            }
        }
    }
}

/// An image is fetched for every row whose item has one, for that row and with
/// that item's own id and tag.
pub proof fn law_rows_get_their_images(items: Seq<BaseItemDto>, n: nat, i: int)
    requires
        n <= items.len(),
        0 <= i < n,
    ensures
        items[i].image_tags is Some && types::value_of(items[i].image_tags->0@, "Primary"@) is Some
            ==> image_texts(items, n).contains(
            (i, items[i].id@, types::value_of(items[i].image_tags->0@, "Primary"@)->0),
        ),
        forall|k: int|
            0 <= k < image_texts(items, n).len() ==> {
                let load = #[trigger] image_texts(items, n)[k];
                &&& 0 <= load.0 < n
                &&& load.1 == items[load.0].id@
                &&& items[load.0].image_tags is Some
                &&& types::value_of(items[load.0].image_tags->0@, "Primary"@) == Some(load.2)
            },
    decreases n,
{
    let m = (n - 1) as nat;
    let rest = image_texts(items, m);
    let all = image_texts(items, n);
    if m > 0 {
        law_rows_get_their_images(
            items,
            m,
            if i < m {
                i
            } else {
                0
            },
        );
    }
    if items[i].image_tags is Some && types::value_of(items[i].image_tags->0@, "Primary"@) is Some {
        let want = (i, items[i].id@, types::value_of(items[i].image_tags->0@, "Primary"@)->0);
        if i == m {
            assert(all[rest.len() as int] == want);
        } else {
            let k = choose|k: int| 0 <= k < rest.len() && rest[k] == want;
            assert(all[k] == want);
        }
    }
    assert forall|k: int| 0 <= k < all.len() implies ({
        let load = #[trigger] all[k];
        &&& 0 <= load.0 < n
        &&& load.1 == items[load.0].id@
        &&& items[load.0].image_tags is Some
        &&& types::value_of(items[load.0].image_tags->0@, "Primary"@) == Some(load.2)
    }) by {
        if k < rest.len() {
            assert(all[k] == rest[k]);
        }
    }
}

/// The count of a level says how many items it shows, and of how many if it does
/// not show them all.
pub proof fn law_counts(shown: nat, total: nat)
    ensures
        total <= shown ==> count_text(shown, total as int) == text::decimal(shown) + " items"@,
        total > shown ==> count_text(shown, total as int) == text::decimal(shown) + " of "@ + text::decimal(total)
            + " items"@,
{
}

/// The header of a level shows its own subtitle and how many items there are; the
/// page of a series shows its subtitle alone.
pub proof fn law_header_subtitles(top: NavEntry, count: Seq<char>)
    ensures
        top.children is SeriesDetail ==> header_subtitle(top, count) == top.subtitle@,
        !(top.children is SeriesDetail) && top.subtitle@.len() == 0 ==> header_subtitle(top, count) == count,
        !(top.children is SeriesDetail) && top.subtitle@.len() > 0 ==> header_subtitle(top, count)
            == top.subtitle@ + " · "@ + count,
{
}

/// A click plays the very item that was clicked: its own file from the server that
/// is signed in to, with the token at hand, on the device and in the mode that
/// are stored. Without a token nothing is played.
pub proof fn law_click_plays_the_item(
    before: Browser,
    after: Browser,
    r: Activation,
    client: Client,
    cfg: storage::ConfigFile,
    item_id: Seq<char>,
    item_type: Seq<char>,
)
    requires
        clicked(before, after, r, client, cfg, item_id, item_type),
        item_type == "Audio"@ || item_type == "Episode"@ || item_type == "Video"@,
    ensures
        after.levels() == before.levels(),
        client.key() is None ==> r is NoToken,
        client.key() is Some && item_type == "Audio"@ ==> {
            &&& r matches Activation::PlayAudio(req)
            &&& req.url@ == urls::with_pairs(
                urls::extended_path(client.base(), seq!["Audio"@, item_id, "stream"@]),
                seq![("static"@, "true"@), ("api_key"@, client.key()->0@)],
            )
            &&& req.audio_device == storage::chosen_device(cfg)
            &&& req.exclusive == storage::is_exclusive(cfg)
            &&& find_item(before.listed(), item_id) matches Some(item) ==> (item.media_sources is Some
                && item.media_sources->0@.len() > 0 ==> req.container == item.media_sources->0@[0].container)
        },
        client.key() is Some && item_type != "Audio"@ ==> {
            &&& r matches Activation::PlayVideo { url, audio_device }
            &&& url@ == urls::with_pairs(
                urls::extended_path(client.base(), seq!["Videos"@, item_id, "stream"@]),
                seq![("static"@, "true"@), ("api_key"@, client.key()->0@)],
            )
            &&& audio_device == storage::chosen_device(cfg)
        },
{
    lemma_click_types_differ();
}

/// A click on what holds other items opens a level of that item on top of the
/// others: an album its tracks, a season its episodes, a playlist its entries, a
/// film or a series its page. If it is no longer listed nothing happens.
pub proof fn law_click_opens_the_item(
    before: Browser,
    after: Browser,
    r: Activation,
    client: Client,
    cfg: storage::ConfigFile,
    item_id: Seq<char>,
    item_type: Seq<char>,
)
    requires
        clicked(before, after, r, client, cfg, item_id, item_type),
        item_type == "MusicAlbum"@ || item_type == "Season"@ || item_type == "Playlist"@ || item_type == "Movie"@
            || item_type == "Series"@,
    ensures
        find_item(before.listed(), item_id) is None ==> r is Missing && after.levels() == before.levels()
            && after.album() == before.album(),
        find_item(before.listed(), item_id) matches Some(item) ==> {
            let top = after.levels().last();
            &&& after.levels().len() == before.levels().len() + 1
            &&& after.levels().drop_last() == before.levels()
            &&& top.parent_id == item.id
            &&& item.name is Some ==> top.title@ == item.name->0@
            &&& item_type == "MusicAlbum"@ ==> top.children is Tracks && after.album() == Some(item.id) && (
            r matches Activation::OpenAlbum { id, cover, fallback } && id == item.id)
            &&& item_type == "MusicAlbum"@ && item.album_artist is Some ==> top.album_artist is Some
                && top.album_artist->0@ == item.album_artist->0@
            &&& item_type == "Season"@ ==> top.children is Episodes && r is OpenLevel
            &&& item_type == "Playlist"@ ==> top.children is PlaylistItems && r is OpenLevel
            &&& item_type == "Movie"@ ==> top.children is MovieDetail && (r matches Activation::OpenDetail {
                id,
                is_series,
                fallback,
            } && id == item.id && !is_series)
            &&& item_type == "Series"@ ==> top.children is SeriesDetail && (r matches Activation::OpenDetail {
                id,
                is_series,
                fallback,
            } && id == item.id && is_series)
            &&& item_type != "MusicAlbum"@ ==> after.album() is None
        },
{
    lemma_click_types_differ();
}

/// The facts about an album are its own.
pub proof fn law_album_facts(f: AlbumFacts, album: BaseItemDto)
    requires
        are_facts(f, album),
    ensures
        album.album_artist is Some ==> f.artist@ == album.album_artist->0@,
        f.year == album.production_year,
        album.genres is Some ==> f.genres@ == album.genres->0@,
        album.overview is Some ==> f.overview@ == album.overview->0@,
{
}

/// A header has its title, its subtitle, its collection and its mode each in its
/// own place.
pub proof fn law_headers(
    m: ViewMeta,
    title: Seq<char>,
    subtitle: Seq<char>,
    collection_type: Seq<char>,
    mode: Seq<char>,
)
    requires
        is_meta(m, title, subtitle, collection_type, mode),
    ensures
        m.title@ == title,
        m.subtitle@ == subtitle,
        m.collection_type@ == collection_type,
        m.mode@ == mode,
{
}

/// Levels are numbered one after the other.
pub proof fn law_level_numbers(n: u64)
    ensures
        n < u64::MAX ==> next_number(n) == n + 1,
        next_number(n) != n,
        number_after(n, 1) == next_number(n),
{
    reveal_with_fuel(number_after, 2);
}

} // verus!
