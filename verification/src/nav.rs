//! The levels of a library that one can go down into, and what each of them
//! lists.
use crate::client::{ItemsQuery, SortOrder};
use crate::listing;
use crate::text;
use crate::types::{BaseItemDto, ItemType};
use vstd::prelude::*;

verus! {

/// The most items that a level lists.
pub const ITEM_LIMIT: u32 = 200;

/// What a level lists.
#[derive(Debug, Clone)]
pub enum ChildrenType {
    /// The top of a library of a collection type.
    LibraryRoot { collection_type: String },
    /// The tracks of an album.
    Tracks,
    /// The episodes of a season.
    Episodes,
    PlaylistItems,
    /// The page of a film, which has no list.
    MovieDetail,
    /// The page of a series, with its seasons below.
    SeriesDetail,
}

/// A level.
#[derive(Debug, Clone)]
pub struct NavEntry {
    /// The item whose children are listed.
    pub parent_id: String,
    pub title: String,
    pub subtitle: String,
    pub children: ChildrenType,
    /// The artist, on an album's level.
    pub album_artist: Option<String>,
}

/// The fields that a listing asks for beyond the usual ones.
pub open spec fn listed_fields() -> Seq<Seq<char>> {
    seq!["PrimaryImageAspectRatio"@, "Genres"@, "ChildCount"@, "Overview"@, "MediaSources"@, "Path"@]
}

impl ChildrenType {
    /// The one type of item that is listed, if only one is.
    pub open spec fn item_type(&self) -> Option<ItemType> {
        match *self {
            ChildrenType::LibraryRoot { collection_type } => if collection_type@ == "music"@ {
                Some(ItemType::MusicAlbum)
            } else if collection_type@ == "movies"@ {
                Some(ItemType::Movie)
            } else if collection_type@ == "tvshows"@ {
                Some(ItemType::Series)
            } else if collection_type@ == "playlists"@ {
                Some(ItemType::Playlist)
            } else {
                None
            },
            ChildrenType::Tracks => Some(ItemType::Audio),
            ChildrenType::SeriesDetail => Some(ItemType::Season),
            ChildrenType::Episodes => Some(ItemType::Episode),
            ChildrenType::MovieDetail => None,
            ChildrenType::PlaylistItems => None,
        }
    }

    /// What the list is sorted by.
    pub open spec fn sorted_by(&self) -> Seq<Seq<char>> {
        match *self {
            ChildrenType::LibraryRoot { collection_type } => if collection_type@ == "movies"@ {
                seq!["SortName"@, "ProductionYear"@]
            } else {
                seq!["SortName"@]
            },
            ChildrenType::Tracks => seq!["ParentIndexNumber"@, "IndexNumber"@],
            ChildrenType::SeriesDetail => seq!["IndexNumber"@],
            ChildrenType::Episodes => seq!["IndexNumber"@],
            ChildrenType::MovieDetail => Seq::empty(),
            ChildrenType::PlaylistItems => seq!["SortName"@],
        }
    }

    /// Whether everything below is listed, and not just the direct children.
    pub open spec fn goes_deep(&self) -> bool {
        self is LibraryRoot || self is MovieDetail
    }

    /// Whether `q` asks for what the level lists.
    pub open spec fn is_query(&self, q: ItemsQuery, parent_id: Seq<char>) -> bool {
        &&& text::opt_view(q.parent_id) == Some(parent_id)
        &&& q.include_item_types@ == (match self.item_type() {
            Some(t) => seq![t],
            None => Seq::empty(),
        })
        &&& text::texts(q.sort_by@) == self.sorted_by()
        &&& q.sort_order == Some(SortOrder::Ascending)
        &&& q.limit == Some(ITEM_LIMIT)
        &&& q.start_index is None
        &&& q.recursive == Some(self.goes_deep())
        &&& text::texts(q.fields@) == listed_fields()
        &&& q.search_term is None
        &&& q.artist_ids@.len() == 0
        &&& q.album_artist_ids@.len() == 0
    }

    /// The query for what the level lists.
    pub fn query(&self, parent_id: &str) -> (r: ItemsQuery)
        ensures
            self.is_query(r, parent_id@),
    {
        let mut q = ItemsQuery::default();
        q.parent_id = Some(parent_id.to_owned());
        q.limit = Some(ITEM_LIMIT);
        q.recursive = Some(true);
        q.sort_order = Some(SortOrder::Ascending);
        q.fields = fields();
        match self {
            ChildrenType::LibraryRoot { collection_type } => {
                let ct = collection_type.as_str();
                if text::same_text(ct, "music") {
                    q.include_item_types = one_type(ItemType::MusicAlbum);
                    q.sort_by = one("SortName");
                } else if text::same_text(ct, "movies") {
                    q.include_item_types = one_type(ItemType::Movie);
                    q.sort_by = two("SortName", "ProductionYear");
                } else if text::same_text(ct, "tvshows") {
                    q.include_item_types = one_type(ItemType::Series);
                    q.sort_by = one("SortName");
                } else if text::same_text(ct, "playlists") {
                    q.include_item_types = one_type(ItemType::Playlist);
                    q.sort_by = one("SortName");
                } else {
                    q.sort_by = one("SortName");
                }
                proof {
                    reveal_strlit("music");
                    reveal_strlit("movies");
                    reveal_strlit("tvshows");
                    reveal_strlit("playlists");
                    assert("music"@.len() == 5 && "movies"@.len() == 6 && "tvshows"@.len() == 7
                        && "playlists"@.len() == 9);
                }
            },
            ChildrenType::Tracks => {
                q.include_item_types = one_type(ItemType::Audio);
                q.sort_by = two("ParentIndexNumber", "IndexNumber");
                q.recursive = Some(false);
            },
            ChildrenType::SeriesDetail => {
                q.include_item_types = one_type(ItemType::Season);
                q.sort_by = one("IndexNumber");
                q.recursive = Some(false);
            },
            ChildrenType::MovieDetail => {
                assert(text::texts(q.sort_by@) =~= Seq::empty());
            },
            ChildrenType::Episodes => {
                q.include_item_types = one_type(ItemType::Episode);
                q.sort_by = one("IndexNumber");
                q.recursive = Some(false);
            },
            ChildrenType::PlaylistItems => {
                q.sort_by = one("SortName");
                q.recursive = Some(false);
            },
        }
        assert(self.item_type() is None ==> q.include_item_types@ =~= Seq::empty());
        q
    }

    /// The collection type that the level belongs to.
    pub open spec fn collection(&self) -> Seq<char> {
        match *self {
            ChildrenType::LibraryRoot { collection_type } => if collection_type@ == "music"@
                || collection_type@ == "movies"@ || collection_type@ == "tvshows"@ || collection_type@
                == "playlists"@ {
                collection_type@
            } else {
                ""@
            },
            ChildrenType::Tracks => "music"@,
            ChildrenType::Episodes => "tvshows"@,
            ChildrenType::SeriesDetail => "tvshows"@,
            ChildrenType::MovieDetail => "movies"@,
            ChildrenType::PlaylistItems => "playlists"@,
        }
    }

    /// The collection type that the level belongs to; empty for one that is not
    /// known.
    pub fn collection_label(&self) -> (r: &'static str)
        ensures
            r@ == self.collection(),
    {
        match self {
            ChildrenType::LibraryRoot { collection_type } => {
                let ct = collection_type.as_str();
                if text::same_text(ct, "music") {
                    "music"
                } else if text::same_text(ct, "movies") {
                    "movies"
                } else if text::same_text(ct, "tvshows") {
                    "tvshows"
                } else if text::same_text(ct, "playlists") {
                    "playlists"
                } else {
                    ""
                }
            },
            ChildrenType::Tracks => "music",
            ChildrenType::Episodes => "tvshows",
            ChildrenType::SeriesDetail => "tvshows",
            ChildrenType::MovieDetail => "movies",
            ChildrenType::PlaylistItems => "playlists",
        }
    }

    /// How the level is laid out.
    pub open spec fn mode(&self) -> Seq<char> {
        match *self {
            ChildrenType::Tracks => "tracklist"@,
            ChildrenType::MovieDetail => "detail"@,
            ChildrenType::SeriesDetail => "detail"@,
            _ => "grid"@,
        }
    }

    /// How the level is laid out: cards in a grid, rows for tracks, or the page
    /// of a film or series.
    pub fn display_mode(&self) -> (r: &'static str)
        ensures
            r@ == self.mode(),
    {
        match self {
            ChildrenType::Tracks => "tracklist",
            ChildrenType::MovieDetail => "detail",
            ChildrenType::SeriesDetail => "detail",
            _ => "grid",
        }
    }
}

fn one(a: &str) -> (r: Vec<String>)
    ensures
        text::texts(r@) == seq![a@],
{
    let mut v: Vec<String> = Vec::new();
    v.push(a.to_owned());
    assert(text::texts(v@) =~= seq![a@]);
    v
}

fn two(a: &str, b: &str) -> (r: Vec<String>)
    ensures
        text::texts(r@) == seq![a@, b@],
{
    let mut v: Vec<String> = Vec::new();
    v.push(a.to_owned());
    v.push(b.to_owned());
    assert(text::texts(v@) =~= seq![a@, b@]);
    v
}

fn one_type(t: ItemType) -> (r: Vec<ItemType>)
    ensures
        r@ == seq![t],
{
    let mut v: Vec<ItemType> = Vec::new();
    v.push(t);
    assert(v@ =~= seq![t]);
    v
}

fn fields() -> (r: Vec<String>)
    ensures
        text::texts(r@) == listed_fields(),
{
    let mut v: Vec<String> = Vec::new();
    v.push("PrimaryImageAspectRatio".to_owned());
    v.push("Genres".to_owned());
    v.push("ChildCount".to_owned());
    v.push("Overview".to_owned());
    v.push("MediaSources".to_owned());
    v.push("Path".to_owned());
    assert(text::texts(v@) =~= listed_fields());
    v
}

/// Whether an entry is the top of a library.
pub open spec fn is_root(e: NavEntry, id: Seq<char>, collection_type: Seq<char>) -> bool {
    &&& e.parent_id@ == id
    &&& e.title@ == listing::view_title_text(collection_type)
    &&& e.subtitle@.len() == 0
    &&& e.children matches ChildrenType::LibraryRoot { collection_type: ct } && ct@ == collection_type
    &&& e.album_artist is None
}

/// The top of a library.
pub fn root_entry(view_id: String, collection_type: String) -> (r: NavEntry)
    ensures
        is_root(r, view_id@, collection_type@),
{
    NavEntry {
        parent_id: view_id,
        title: listing::view_title(collection_type.as_str()),
        subtitle: String::new(),
        children: ChildrenType::LibraryRoot { collection_type },
        album_artist: None,
    }
}

/// The top of the library that an item stands for.
pub fn library_root_entry(view: &BaseItemDto) -> (r: NavEntry)
    ensures
        is_root(r, view.id@, text::or_empty(view.collection_type)),
{
    root_entry(view.id.clone(), text::text_or_empty(&view.collection_type))
}

// ------------------------------------------------------------ laws

proof fn lemma_collections_differ()
    ensures
        "music"@ != "movies"@ && "music"@ != "tvshows"@ && "music"@ != "playlists"@,
        "movies"@ != "tvshows"@ && "movies"@ != "playlists"@ && "tvshows"@ != "playlists"@,
{
    reveal_strlit("music");
    reveal_strlit("movies");
    reveal_strlit("tvshows");
    reveal_strlit("playlists");
    assert("music"@.len() == 5 && "movies"@.len() == 6 && "tvshows"@.len() == 7 && "playlists"@.len() == 9);
}

/// The top of a library lists what the library is for, however deep it stands:
/// albums of music, films, series or playlists; a library of another type lists
/// everything.
pub proof fn law_libraries_list_their_kind(ct: String)
    ensures
        ({
            let level = ChildrenType::LibraryRoot { collection_type: ct };
            &&& level.goes_deep()
            &&& ct@ == "music"@ ==> level.item_type() == Some(ItemType::MusicAlbum)
            &&& ct@ == "movies"@ ==> level.item_type() == Some(ItemType::Movie)
            &&& ct@ == "tvshows"@ ==> level.item_type() == Some(ItemType::Series)
            &&& ct@ == "playlists"@ ==> level.item_type() == Some(ItemType::Playlist)
            &&& ct@ != "music"@ && ct@ != "movies"@ && ct@ != "tvshows"@ && ct@ != "playlists"@
                ==> level.item_type() is None
            &&& ct@ == "movies"@ ==> level.sorted_by() == seq!["SortName"@, "ProductionYear"@]
            &&& ct@ != "movies"@ ==> level.sorted_by() == seq!["SortName"@]
        }),
{
    lemma_collections_differ();
}

/// Below the top only direct children are listed: the tracks of an album by disc
/// and number, the seasons of a series and the episodes of a season by number,
/// the entries of a playlist by name.
pub proof fn law_levels_list_their_children()
    ensures
        ChildrenType::Tracks.item_type() == Some(ItemType::Audio),
        ChildrenType::Tracks.sorted_by() == seq!["ParentIndexNumber"@, "IndexNumber"@],
        ChildrenType::SeriesDetail.item_type() == Some(ItemType::Season),
        ChildrenType::SeriesDetail.sorted_by() == seq!["IndexNumber"@],
        ChildrenType::Episodes.item_type() == Some(ItemType::Episode),
        ChildrenType::Episodes.sorted_by() == seq!["IndexNumber"@],
        ChildrenType::PlaylistItems.item_type() is None,
        ChildrenType::PlaylistItems.sorted_by() == seq!["SortName"@],
        !ChildrenType::Tracks.goes_deep() && !ChildrenType::SeriesDetail.goes_deep()
            && !ChildrenType::Episodes.goes_deep() && !ChildrenType::PlaylistItems.goes_deep(),
{
}

/// The query of a level asks for the children of its own item, in ascending
/// order, from the start and no more than a level lists, with the fields that
/// rows are made from.
pub proof fn law_level_queries(level: ChildrenType, q: ItemsQuery, parent_id: Seq<char>)
    requires
        level.is_query(q, parent_id),
    ensures
        q.parent_id is Some && q.parent_id->0@ == parent_id,
        level.item_type() matches Some(t) ==> q.include_item_types@ == seq![t],
        level.item_type() is None ==> q.include_item_types@.len() == 0,
        text::texts(q.sort_by@) == level.sorted_by(),
        q.sort_order == Some(SortOrder::Ascending),
        q.limit == Some(200u32),
        q.start_index is None,
        q.recursive == Some(level.goes_deep()),
        text::texts(q.fields@).contains("MediaSources"@),
        text::texts(q.fields@).contains("ChildCount"@),
        text::texts(q.fields@).contains("Overview"@),
        text::texts(q.fields@).contains("Genres"@),
        text::texts(q.fields@).contains("Path"@),
        text::texts(q.fields@).contains("PrimaryImageAspectRatio"@),
        q.fields@.len() == 6,
        q.search_term is None && q.artist_ids@.len() == 0 && q.album_artist_ids@.len() == 0,
{
    let f = text::texts(q.fields@);
    assert(f[0] == "PrimaryImageAspectRatio"@ && f[5] == "Path"@);
    assert(f[4] == "MediaSources"@ && f[2] == "ChildCount"@ && f[3] == "Overview"@ && f[1] == "Genres"@);
}

/// Tracks are shown as a list, films and series as a page, everything else as a
/// grid; a level belongs to the library that it was opened from.
pub proof fn law_level_looks(ct: String)
    ensures
        ChildrenType::Tracks.mode() == "tracklist"@,
        ChildrenType::MovieDetail.mode() == "detail"@ && ChildrenType::SeriesDetail.mode() == "detail"@,
        ChildrenType::Episodes.mode() == "grid"@ && ChildrenType::PlaylistItems.mode() == "grid"@,
        (ChildrenType::LibraryRoot { collection_type: ct }).mode() == "grid"@,
        ChildrenType::Tracks.collection() == "music"@,
        ChildrenType::MovieDetail.collection() == "movies"@,
        ChildrenType::SeriesDetail.collection() == "tvshows"@ && ChildrenType::Episodes.collection()
            == "tvshows"@,
        ChildrenType::PlaylistItems.collection() == "playlists"@,
        ct@ == "music"@ || ct@ == "movies"@ || ct@ == "tvshows"@ || ct@ == "playlists"@ ==> (
        ChildrenType::LibraryRoot { collection_type: ct }).collection() == ct@,
        ct@ != "music"@ && ct@ != "movies"@ && ct@ != "tvshows"@ && ct@ != "playlists"@ ==> (
        ChildrenType::LibraryRoot { collection_type: ct }).collection().len() == 0,
{
    reveal_strlit("");
}

/// The top of a library is that of the view that was chosen.
pub proof fn law_library_top(e: NavEntry, id: Seq<char>, collection_type: Seq<char>)
    requires
        is_root(e, id, collection_type),
    ensures
        e.parent_id@ == id,
        e.title@ == listing::view_title_text(collection_type),
        e.children matches ChildrenType::LibraryRoot { collection_type: ct } && ct@ == collection_type,
        e.subtitle@.len() == 0,
{
}

} // verus!
