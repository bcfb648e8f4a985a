//! What the server sends, as far as the client uses it.
//!
//! Numbers that are only ever shown (ratings, rates) are held the way they are
//! shown; maps are held as lists of entries with distinct keys.
use crate::text;
use vstd::prelude::*;

verus! {

/// The answer to a sign-in.
#[derive(Debug)]
pub struct AuthenticationResult {
    pub user: Option<UserDto>,
    pub access_token: Option<String>,
    pub server_id: Option<String>,
}

#[derive(Debug, Clone)]
pub struct UserDto {
    pub id: String,
    pub name: String,
    pub server_id: Option<String>,
    pub has_password: Option<bool>,
    pub primary_image_tag: Option<String>,
}

/// What a server says of itself before sign-in.
#[derive(Debug)]
pub struct PublicSystemInfo {
    pub local_address: Option<String>,
    pub server_name: Option<String>,
    pub version: Option<String>,
    pub id: Option<String>,
    pub startup_wizard_completed: Option<bool>,
}

/// A page of items.
#[derive(Debug)]
pub struct ItemsResponse {
    pub items: Vec<BaseItemDto>,
    pub total_record_count: Option<i64>,
    pub start_index: Option<i64>,
}

/// How long an item runs.
#[derive(Debug, Clone, Copy, PartialEq, Eq, Structural)]
pub struct RunTime {
    /// In units of 100 nanoseconds.
    pub ticks: i64,
    /// In seconds, rounded to the nearest.
    pub seconds: i64,
}

/// An item of a library. Fields that were not asked for are absent.
#[derive(Debug, Clone)]
pub struct BaseItemDto {
    pub id: String,
    pub name: Option<String>,
    pub item_type: Option<ItemType>,
    pub collection_type: Option<String>,
    pub server_id: Option<String>,
    pub parent_id: Option<String>,
    pub series_id: Option<String>,
    pub season_id: Option<String>,
    pub album_id: Option<String>,
    pub album_artist: Option<String>,
    pub album_artists: Option<Vec<NameGuidPair>>,
    pub artists: Option<Vec<String>>,
    pub artist_items: Option<Vec<NameGuidPair>>,
    pub album: Option<String>,
    pub production_year: Option<i32>,
    pub index_number: Option<i32>,
    pub parent_index_number: Option<i32>,
    pub run_time: Option<RunTime>,
    pub overview: Option<String>,
    pub taglines: Option<Vec<String>>,
    /// With one decimal place.
    pub community_rating: Option<String>,
    /// In percent, rounded to the nearest.
    pub critic_rating: Option<i64>,
    pub official_rating: Option<String>,
    pub genres: Option<Vec<String>>,
    pub tags: Option<Vec<String>>,
    pub studios: Option<Vec<NameGuidPair>>,
    pub people: Option<Vec<PersonInfo>>,
    pub premiere_date: Option<String>,
    pub production_locations: Option<Vec<String>>,
    pub provider_ids: Option<TextMap>,
    pub image_tags: Option<TextMap>,
    pub backdrop_image_tags: Option<Vec<String>>,
    pub image_blur_hashes: Option<ImageBlurHashes>,
    pub user_data: Option<UserItemDataDto>,
    pub media_sources: Option<Vec<MediaSourceInfo>>,
    pub media_streams: Option<Vec<MediaStream>>,
    pub child_count: Option<i32>,
}

/// Whether no key occurs twice.
pub open spec fn distinct_keys(entries: Seq<(String, String)>) -> bool {
    forall|i: int, j: int|
        #![trigger entries[i], entries[j]]
        0 <= i < j < entries.len() ==> entries[i].0@ != entries[j].0@
}

/// Where the entry with a key stands; the number of entries if there is none.
pub open spec fn key_index(entries: Seq<(String, String)>, key: Seq<char>) -> nat
    decreases entries.len(),
{
    if entries.len() == 0 || entries[0].0@ == key {
        0
    } else {
        1 + key_index(entries.skip(1), key)
    }
}

/// The value of the entry with a key.
pub open spec fn value_of(entries: Seq<(String, String)>, key: Seq<char>) -> Option<Seq<char>> {
    let i = key_index(entries, key) as int;
    if i < entries.len() {
        Some(entries[i].1@)
    } else {
        None
    }
}

/// The entries with one more; an entry with the same key makes way for it.
pub open spec fn with_entry(entries: Seq<(String, String)>, e: (String, String)) -> Seq<(String, String)> {
    let i = key_index(entries, e.0@) as int;
    if i < entries.len() {
        entries.update(i, e)
    } else {
        entries.push(e)
    }
}

/// What a list of entries leaves when they are entered one by one.
pub open spec fn entered(list: Seq<(String, String)>) -> Seq<(String, String)>
    decreases list.len(),
{
    if list.len() == 0 {
        Seq::empty()
    } else {
        with_entry(entered(list.drop_last()), list.last())
    }
}

/// The place of a key is in range, holds it, and nothing before it does.
pub proof fn lemma_key_index(entries: Seq<(String, String)>, key: Seq<char>)
    ensures
        key_index(entries, key) <= entries.len(),
        key_index(entries, key) < entries.len() ==> entries[key_index(entries, key) as int].0@ == key,
        forall|j: int| 0 <= j < key_index(entries, key) ==> (#[trigger] entries[j]).0@ != key,
    decreases entries.len(),
{
    if entries.len() > 0 && entries[0].0@ != key {
        let rest = entries.skip(1);
        lemma_key_index(rest, key);
        assert forall|j: int| 0 <= j < key_index(entries, key) implies (#[trigger] entries[j]).0@ != key by {
            if j > 0 {
                assert(rest[j - 1] == entries[j]);
            }
        }
    }
}

/// A map from texts to texts: a list of entries in which no key occurs twice.
#[derive(Debug)]
pub struct TextMap {
    entries: Vec<(String, String)>,
}

impl View for TextMap {
    type V = Seq<(String, String)>;

    closed spec fn view(&self) -> Seq<(String, String)> {
        self.entries@
    }
}

impl TextMap {
    #[verifier::type_invariant]
    spec fn is_map(self) -> bool {
        distinct_keys(self.entries@)
    }

    /// The map that a list of entries makes; of those with one key the last
    /// counts.
    pub fn from_entries(list: Vec<(String, String)>) -> (r: TextMap)
        ensures
            r@ == entered(list@),
            distinct_keys(r@),
            distinct_keys(list@) ==> r@ == list@,
    {
        let mut entries: Vec<(String, String)> = Vec::new();
        let mut i: usize = 0;
        while i < list.len()
            invariant
                i <= list@.len(),
                entries@ == entered(list@.take(i as int)),
                distinct_keys(entries@),
                distinct_keys(list@) ==> entries@ == list@.take(i as int),
            decreases list@.len() - i,
        {
            let ghost before = entries@;
            let key = list[i].0.clone();
            let value = list[i].1.clone();
            let at: usize = find_key(&entries, key.as_str());
            proof {
                lemma_key_index(before, key@);
                assert(list@.take(i + 1).drop_last() =~= list@.take(i as int));
                assert((key, value) == list@[i as int]);
                if distinct_keys(list@) && at < before.len() {
                    assert(list@.take(i as int)[at as int] == list@[at as int]);
                    assert(list@[at as int].0@ != list@[i as int].0@);
                }
            }
            if at < entries.len() {
                entries.set(at, (key, value));
            } else {
                entries.push((key, value));
            }
            assert(distinct_keys(list@) ==> entries@ =~= list@.take(i + 1));
            i = i + 1;
        }
        assert(list@.take(list@.len() as int) =~= list@);
        TextMap { entries }
    }

    /// The entries, no two with the same key.
    pub fn entries(&self) -> (r: &Vec<(String, String)>)
        ensures
            r@ == self@,
            distinct_keys(self@),
    {
        proof {
            use_type_invariant(self);
        }
        &self.entries
    }

    /// The value of a key, which is the only one it has.
    pub fn get(&self, key: &str) -> (r: Option<&String>)
        ensures
            match r {
                Some(v) => value_of(self@, key@) == Some(v@),
                None => value_of(self@, key@) is None,
            },
            forall|i: int|
                0 <= i < self@.len() && (#[trigger] self@[i]).0@ == key@ ==> r == Some(&self@[i].1),
    {
        proof {
            use_type_invariant(self);
            lemma_key_index(self.entries@, key@);
        }
        let at: usize = find_key(&self.entries, key);
        assert forall|i: int| 0 <= i < self@.len() && (#[trigger] self@[i]).0@ == key@ implies i == at by {
            if at < i {
                assert(self@[at as int].0@ != self@[i].0@);
            }
        }
        if at < self.entries.len() {
            Some(&self.entries[at].1)
        } else {
            None
        }
    }
}

impl Clone for TextMap {
    fn clone(&self) -> (r: TextMap)
        ensures
            r@ == self@,
    {
        proof {
            use_type_invariant(self);
        }
        let mut entries: Vec<(String, String)> = Vec::new();
        let mut i: usize = 0;
        while i < self.entries.len()
            invariant
                i <= self.entries@.len(),
                entries@ == self.entries@.take(i as int),
            decreases self.entries@.len() - i,
        {
            entries.push((self.entries[i].0.clone(), self.entries[i].1.clone()));
            assert(entries@ =~= self.entries@.take(i + 1));
            i = i + 1;
        }
        assert(entries@ =~= self.entries@);
        TextMap { entries }
    }
}

/// Where the entry with a key stands.
fn find_key(entries: &Vec<(String, String)>, key: &str) -> (r: usize)
    ensures
        r == key_index(entries@, key@),
        r <= entries@.len(),
{
    let mut i: usize = 0;
    assert(entries@.skip(0) =~= entries@);
    while i < entries.len()
        invariant
            i <= entries@.len(),
            key_index(entries@, key@) == i + key_index(entries@.skip(i as int), key@),
        decreases entries@.len() - i,
    {
        assert(entries@.skip(i as int)[0] == entries@[i as int]);
        assert(entries@.skip(i as int).skip(1) =~= entries@.skip(i + 1));
        if text::same_text(entries[i].0.as_str(), key) {
            return i;
        }
        i = i + 1;
    }
    i
}

/// One of the cast or crew. The image tag belongs to the portrait.
#[derive(Debug, Clone)]
pub struct PersonInfo {
    pub id: Option<String>,
    pub name: Option<String>,
    /// The character, for actors.
    pub role: Option<String>,
    /// `Actor`, `Director`, `Writer`, and so on.
    pub person_type: Option<String>,
    pub primary_image_tag: Option<String>,
}

/// The types of item that the client knows; any other by its name.
#[derive(Debug, Clone, PartialEq, Eq, Hash)]
pub enum ItemType {
    Movie,
    Series,
    Season,
    Episode,
    MusicAlbum,
    MusicArtist,
    Audio,
    Folder,
    CollectionFolder,
    BoxSet,
    Playlist,
    Video,
    Other(String),
}

#[derive(Debug, Clone)]
pub struct NameGuidPair {
    pub name: Option<String>,
    pub id: Option<String>,
}

#[derive(Debug, Clone)]
pub struct ImageBlurHashes {
    pub primary: TextMap,
    pub backdrop: TextMap,
    pub logo: TextMap,
    pub thumb: TextMap,
}

#[derive(Debug, Clone)]
pub struct UserItemDataDto {
    pub playback_position_ticks: Option<i64>,
    pub play_count: Option<i32>,
    pub played: Option<bool>,
    pub is_favorite: Option<bool>,
}

#[derive(Debug, Clone)]
pub struct MediaSourceInfo {
    pub id: Option<String>,
    pub path: Option<String>,
    pub container: Option<String>,
    pub size: Option<i64>,
    pub run_time_ticks: Option<i64>,
    /// In bits per second.
    pub bitrate: Option<i64>,
    /// The bit rate in megabits per second, with one decimal place.
    pub mbps: String,
    pub media_streams: Option<Vec<MediaStream>>,
}

#[derive(Debug, Clone)]
pub struct MediaStream {
    pub codec: Option<String>,
    pub stream_type: Option<String>,
    pub language: Option<String>,
    pub title: Option<String>,
    pub channels: Option<i32>,
    /// In hertz.
    pub sample_rate: Option<i32>,
    /// The sample rate in kilohertz, with one decimal place.
    pub khz: String,
    pub bit_depth: Option<i32>,
    pub bit_rate: Option<i64>,
    pub height: Option<i32>,
    pub width: Option<i32>,
    pub is_default: Option<bool>,
    pub is_forced: Option<bool>,
    pub video_range: Option<String>,
    pub video_range_type: Option<String>,
}

// ------------------------------------------------------------ item types by name

impl ItemType {
    /// The name of the type.
    pub open spec fn name(self) -> Seq<char> {
        match self {
            ItemType::Movie => "Movie"@,
            ItemType::Series => "Series"@,
            ItemType::Season => "Season"@,
            ItemType::Episode => "Episode"@,
            ItemType::MusicAlbum => "MusicAlbum"@,
            ItemType::MusicArtist => "MusicArtist"@,
            ItemType::Audio => "Audio"@,
            ItemType::Folder => "Folder"@,
            ItemType::CollectionFolder => "CollectionFolder"@,
            ItemType::BoxSet => "BoxSet"@,
            ItemType::Playlist => "Playlist"@,
            ItemType::Video => "Video"@,
            ItemType::Other(s) => s@,
        }
    }

    /// Whether a name is that of a type the client knows.
    pub open spec fn is_known(name: Seq<char>) -> bool {
        ||| name == "Movie"@
        ||| name == "Series"@
        ||| name == "Season"@
        ||| name == "Episode"@
        ||| name == "MusicAlbum"@
        ||| name == "MusicArtist"@
        ||| name == "Audio"@
        ||| name == "Folder"@
        ||| name == "CollectionFolder"@
        ||| name == "BoxSet"@
        ||| name == "Playlist"@
        ||| name == "Video"@
    }

    /// The type with a name; a name that is not known stands for itself.
    pub fn from_name(name: &str) -> (r: ItemType)
        ensures
            r.name() == name@,
            r is Other <==> !ItemType::is_known(name@),
    {
        if text::same_text(name, "Movie") {
            ItemType::Movie
        } else if text::same_text(name, "Series") {
            ItemType::Series
        } else if text::same_text(name, "Season") {
            ItemType::Season
        } else if text::same_text(name, "Episode") {
            ItemType::Episode
        } else if text::same_text(name, "MusicAlbum") {
            ItemType::MusicAlbum
        } else if text::same_text(name, "MusicArtist") {
            ItemType::MusicArtist
        } else if text::same_text(name, "Audio") {
            ItemType::Audio
        } else if text::same_text(name, "Folder") {
            ItemType::Folder
        } else if text::same_text(name, "CollectionFolder") {
            ItemType::CollectionFolder
        } else if text::same_text(name, "BoxSet") {
            ItemType::BoxSet
        } else if text::same_text(name, "Playlist") {
            ItemType::Playlist
        } else if text::same_text(name, "Video") {
            ItemType::Video
        } else {
            ItemType::Other(name.to_owned())
        }
    }
}

/// The name of a type.
pub fn item_type_as_str(t: &ItemType) -> (r: String)
    ensures
        r@ == t.name(),
{
    match t {
        ItemType::Movie => "Movie".to_owned(),
        ItemType::Series => "Series".to_owned(),
        ItemType::Season => "Season".to_owned(),
        ItemType::Episode => "Episode".to_owned(),
        ItemType::MusicAlbum => "MusicAlbum".to_owned(),
        ItemType::MusicArtist => "MusicArtist".to_owned(),
        ItemType::Audio => "Audio".to_owned(),
        ItemType::Folder => "Folder".to_owned(),
        ItemType::CollectionFolder => "CollectionFolder".to_owned(),
        ItemType::BoxSet => "BoxSet".to_owned(),
        ItemType::Playlist => "Playlist".to_owned(),
        ItemType::Video => "Video".to_owned(),
        ItemType::Other(s) => s.clone(),
    }
}

/// The name of a type, or nothing if there is none.
pub open spec fn shown_type(t: Option<ItemType>) -> Seq<char> {
    match t {
        Some(t) => t.name(),
        None => Seq::empty(),
    }
}

/// The name of a type, or nothing if there is none.
pub fn item_type_str(t: &Option<ItemType>) -> (r: String)
    ensures
        r@ == shown_type(*t),
{
    match t {
        Some(t) => item_type_as_str(t),
        None => String::new(),
    }
}

/// No two known types share a name: a type is known by its name alone.
pub proof fn law_type_names_tell_apart(a: ItemType, b: ItemType)
    requires
        !(a is Other),
        !(b is Other),
        a.name() == b.name(),
    ensures
        a == b,
{
    reveal_strlit("Movie");
    reveal_strlit("Series");
    reveal_strlit("Season");
    reveal_strlit("Episode");
    reveal_strlit("MusicAlbum");
    reveal_strlit("MusicArtist");
    reveal_strlit("Audio");
    reveal_strlit("Folder");
    reveal_strlit("CollectionFolder");
    reveal_strlit("BoxSet");
    reveal_strlit("Playlist");
    reveal_strlit("Video");
    assert("Episode"@.len() == 7 && "Playlist"@.len() == 8 && "MusicAlbum"@.len() == 10
        && "MusicArtist"@.len() == 11 && "CollectionFolder"@.len() == 16);
    assert("Movie"@.len() == 5 && "Audio"@.len() == 5 && "Video"@.len() == 5);
    assert("Series"@.len() == 6 && "Season"@.len() == 6 && "Folder"@.len() == 6 && "BoxSet"@.len() == 6);
    assert("Movie"@[0] == 'M' && "Audio"@[0] == 'A' && "Video"@[0] == 'V');
    assert("Series"@[2] == 'r' && "Season"@[2] == 'a' && "Folder"@[2] == 'l' && "BoxSet"@[2] == 'x');
}

/// A map that is made from entries holds, for every key, the value that was
/// entered for it last, and nothing that was not entered.
pub proof fn law_map_holds_what_was_entered(list: Seq<(String, String)>, e: (String, String), key: Seq<char>)
    ensures
        value_of(entered(list.push(e)), e.0@) == Some(e.1@),
        key != e.0@ ==> value_of(entered(list.push(e)), key) == value_of(entered(list), key),
        value_of(entered(Seq::empty()), key) is None,
{
    assert(list.push(e).drop_last() =~= list);
    let m = entered(list);
    lemma_entry_is_found(m, e, key);
    assert(entered(Seq::<(String, String)>::empty()) =~= Seq::empty());
}

proof fn lemma_entry_is_found(m: Seq<(String, String)>, e: (String, String), key: Seq<char>)
    ensures
        value_of(with_entry(m, e), e.0@) == Some(e.1@),
        key != e.0@ ==> value_of(with_entry(m, e), key) == value_of(m, key),
{
    let after = with_entry(m, e);
    lemma_key_index(m, e.0@);
    lemma_key_index(m, key);
    lemma_key_index(after, e.0@);
    lemma_key_index(after, key);
    let i = key_index(m, e.0@) as int;
    let k = key_index(after, e.0@) as int;
    assert(after[i] == e);
    if k < i {
        assert(after[k] == m[k]);
    } else if i < k {
        assert(after[i].0@ != e.0@);
    }
    if key != e.0@ {
        let a = key_index(m, key) as int;
        let b = key_index(after, key) as int;
        if a < m.len() {
            assert(after[a] == m[a]);
            if a < b {
                assert(after[a].0@ != key);
            } else if b < a {
                assert(after[b].0@ == key);
                assert(m[b].0@ != key);
                assert(b != i);
                assert(after[b] == m[b]);
            }
        } else if b < after.len() {
            assert(after[b].0@ == key);
            assert(b != i);
            assert(after[b] == m[b]);
        }
    }
}

/// A type goes by the name that the server has for it, and one that is not known by
/// the name that came.
pub proof fn law_type_names(other: String)
    ensures
        ItemType::Movie.name() == "Movie"@ && ItemType::Series.name() == "Series"@ && ItemType::Season.name()
            == "Season"@ && ItemType::Episode.name() == "Episode"@,
        ItemType::MusicAlbum.name() == "MusicAlbum"@ && ItemType::MusicArtist.name() == "MusicArtist"@
            && ItemType::Audio.name() == "Audio"@,
        ItemType::Folder.name() == "Folder"@ && ItemType::CollectionFolder.name() == "CollectionFolder"@
            && ItemType::BoxSet.name() == "BoxSet"@,
        ItemType::Playlist.name() == "Playlist"@ && ItemType::Video.name() == "Video"@,
        ItemType::Other(other).name() == other@,
        shown_type(Some(ItemType::Other(other))) == other@,
        shown_type(None) == Seq::<char>::empty(),
{
}

} // verus!
