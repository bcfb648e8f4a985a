use jlfine::auth::Identity;
use jlfine::browser::{album_facts, album_header, plays, Activation, Browser, LevelEnd};
use jlfine::client::{Client, SortOrder};
use jlfine::detail::{
    apply_detail, audio_label, build_media_info, channel_label, detail_meta_line, detail_subtitle,
    format_premiere_date, format_runtime, people_line, provider_urls, resolution_label,
    video_codec_label,
};
use jlfine::download::DownloadStart;
use jlfine::listing::{
    album_header_strings, build_initial_item_data, extract_wikipedia_url, format_duration,
    format_khz, format_ticks_long, make_identity, preferred_language, track_tech, view_title,
};
use jlfine::nav::{library_root_entry, root_entry, ChildrenType};
use jlfine::session::{
    accept_persist, accept_sign_in, accept_views, auto_pick, begin_sign_in, initial_audio_state,
    item_to_play, list_views, open_first_view, refreshed_selection, reject_session, restore_client,
    signed_in_command, signed_out_command, BackendCmd, Step,
};
use jlfine::storage::{self, KeyringReply, Storage};
use jlfine::types::{
    AuthenticationResult, BaseItemDto, ItemType, ItemsResponse, MediaSourceInfo, MediaStream,
    NameGuidPair, PersonInfo, RunTime, TextMap, UserDto,
};
use jlfine::urls::Url;
use jlfine::video::AudioDevice;

fn s(t: &str) -> String {
    t.to_string()
}

fn some(t: &str) -> Option<String> {
    Some(t.to_string())
}

fn texts(v: &[&str]) -> Option<Vec<String>> {
    Some(v.iter().map(|t| t.to_string()).collect())
}

fn item(id: &str) -> BaseItemDto {
    BaseItemDto {
        id: s(id),
        name: None,
        item_type: None,
        collection_type: None,
        server_id: None,
        parent_id: None,
        series_id: None,
        season_id: None,
        album_id: None,
        album_artist: None,
        album_artists: None,
        artists: None,
        artist_items: None,
        album: None,
        production_year: None,
        index_number: None,
        parent_index_number: None,
        run_time: None,
        overview: None,
        taglines: None,
        community_rating: None,
        critic_rating: None,
        official_rating: None,
        genres: None,
        tags: None,
        studios: None,
        people: None,
        premiere_date: None,
        production_locations: None,
        provider_ids: None,
        image_tags: None,
        backdrop_image_tags: None,
        image_blur_hashes: None,
        user_data: None,
        media_sources: None,
        media_streams: None,
        child_count: None,
    }
}

fn stream(kind: &str, codec: &str) -> MediaStream {
    MediaStream {
        codec: some(codec),
        stream_type: some(kind),
        language: None,
        title: None,
        channels: None,
        sample_rate: None,
        khz: String::new(),
        bit_depth: None,
        bit_rate: None,
        height: None,
        width: None,
        is_default: None,
        is_forced: None,
        video_range: None,
        video_range_type: None,
    }
}

fn source(container: Option<&str>) -> MediaSourceInfo {
    MediaSourceInfo {
        id: None,
        path: None,
        container: container.map(s),
        size: None,
        run_time_ticks: None,
        bitrate: None,
        mbps: String::new(),
        media_streams: None,
    }
}

fn person(kind: &str, name: Option<&str>) -> PersonInfo {
    PersonInfo {
        id: None,
        name: name.map(s),
        role: None,
        person_type: some(kind),
        primary_image_tag: None,
    }
}

fn run_time(seconds: i64) -> Option<RunTime> {
    Some(RunTime { ticks: seconds * 10_000_000, seconds })
}

// ------------------------------------------------------------ details

#[test]
fn run_times() {
    assert_eq!(format_runtime(6120), "1h 42m");
    assert_eq!(format_runtime(3660), "1h 01m");
    assert_eq!(format_runtime(59 * 60 + 59), "59m");
    assert_eq!(format_runtime(0), "0m");
    assert_eq!(format_runtime(-90), "-1m");
    assert_eq!(format_duration(3661), "61:01");
    assert_eq!(format_duration(3723), "62:03");
    assert_eq!(format_duration(123), "2:03");
    assert_eq!(format_duration(5), "0:05");
    assert_eq!(format_duration(-5), "0:-5");
    assert_eq!(format_ticks_long(37_239_999_999), "1:02:03");
    assert_eq!(format_ticks_long(19_999_999), "0:01");
    assert_eq!(format_ticks_long(-1), "0:00");
    assert_eq!(format_ticks_long(i64::MIN), "0:00");
}

#[test]
fn premiere_dates() {
    let f = |d: &str| format_premiere_date(d);
    assert_eq!(f("2008-03-04T00:00:00.0000000Z").as_deref(), Some("4 de marzo de 2008"));
    assert_eq!(f("2008-12-31").as_deref(), Some("31 de diciembre de 2008"));
    assert_eq!(f("+2008-+01-007-x").as_deref(), Some("7 de enero de 2008"));
    for bad in ["", "2008", "2008-03", "2008-00-04", "2008-13-04", "x-03-04", "-5-01-01", "2147483648-1-1"] {
        assert_eq!(f(bad), None, "{}", bad);
    }
    let months = [
        "enero", "febrero", "marzo", "abril", "mayo", "junio", "julio", "agosto", "septiembre",
        "octubre", "noviembre", "diciembre",
    ];
    for (i, m) in months.iter().enumerate() {
        assert_eq!(f(&format!("1999-{}-2", i + 1)), Some(format!("2 de {} de 1999", m)));
    }
}

#[test]
fn labels_of_media() {
    let heights = [(2160, "4K"), (2000, "4K"), (1999, "1440p"), (1400, "1440p"), (1080, "1080p"),
        (1000, "1080p"), (720, "720p"), (700, "720p"), (576, "576p"), (540, "576p"), (480, "480p"),
        (1, "1p"), (0, ""), (-4, "")];
    for (h, label) in heights {
        assert_eq!(resolution_label(h), label);
    }
    let codecs = [("HEVC", "HEVC"), ("h265", "HEVC"), ("h264", "H.264"), ("avc", "H.264"),
        ("av1", "AV1"), ("vp9", "VP9"), ("mpeg2video", "MPEG-2"), ("vc1", "VC1"), ("ß", "SS")];
    for (c, label) in codecs {
        assert_eq!(video_codec_label(c), label);
    }
    let channels = [(1, "Mono"), (2, "2.0"), (6, "5.1"), (8, "7.1"), (4, "4ch"), (-1, "-1ch")];
    for (n, label) in channels {
        assert_eq!(channel_label(n), label);
    }
    let mut a = stream("Audio", "eac3");
    a.channels = Some(6);
    a.language = some("spa");
    assert_eq!(audio_label(&a), "EAC3 5.1 SPA");
    a.codec = None;
    a.language = some("");
    assert_eq!(audio_label(&a), "5.1");
}

#[test]
fn media_info_lists_what_is_known() {
    let mut i = item("i");
    assert!(build_media_info(&i).is_empty());
    let mut v = stream("Video", "hevc");
    v.height = Some(2160);
    v.video_range = some("hdr");
    let mut a = stream("Audio", "dts");
    a.channels = Some(8);
    let mut sub = stream("Subtitle", "srt");
    sub.language = some("es");
    let mut src = source(Some("mkv"));
    src.bitrate = Some(25_000_000);
    src.mbps = s("25.0");
    src.media_streams = Some(vec![a.clone(), v.clone(), sub, stream("Audio", "aac")]);
    i.media_sources = Some(vec![src]);
    assert_eq!(
        build_media_info(&i),
        vec!["4K", "HEVC", "HDR", "DTS 7.1", "AAC", "MKV", "25.0 Mbps"]
    );
    v.video_range = some("sdr");
    v.height = Some(0);
    i.media_streams = Some(vec![v]);
    i.media_sources.as_mut().unwrap()[0].bitrate = Some(0);
    assert_eq!(build_media_info(&i), vec!["HEVC", "MKV"]);
}

#[test]
fn the_meta_line_holds_what_is_known() {
    let mut i = item("i");
    assert_eq!(detail_meta_line(&i), "");
    i.production_year = Some(2008);
    i.run_time = run_time(6120);
    i.official_rating = some("PG-13");
    i.community_rating = some("5.1");
    i.critic_rating = Some(9);
    assert_eq!(detail_meta_line(&i), "2008 · 1h 42m · PG-13 · ★ 5.1 · 🍅 9%");
    i.run_time = run_time(0);
    i.official_rating = some("");
    assert_eq!(detail_meta_line(&i), "2008 · ★ 5.1 · 🍅 9%");
}

#[test]
fn people_and_links() {
    let mut i = item("i");
    assert_eq!(people_line(&i, "Director", "Director"), "");
    i.people = Some(vec![
        person("Director", Some("A")),
        person("Actor", Some("B")),
        person("Director", None),
        person("Director", Some("C")),
    ]);
    assert_eq!(people_line(&i, "Director", "Director"), "Director: A, C");
    assert_eq!(people_line(&i, "Writer", "Guionistas"), "");
    assert_eq!(provider_urls(&i, false), (s(""), s("")));
    i.provider_ids = Some(TextMap::from_entries(vec![
        (s("IMDB"), s("tt1")),
        (s("imdb"), s("tt2")),
        (s("tmdb"), s("7")),
    ]));
    assert_eq!(
        provider_urls(&i, false),
        (s("https://www.imdb.com/title/tt1/"), s("https://www.themoviedb.org/movie/7"))
    );
    assert_eq!(provider_urls(&i, true).1, "https://www.themoviedb.org/tv/7");
    i.provider_ids = Some(TextMap::from_entries(vec![(s("Imdb"), s(""))]));
    assert_eq!(provider_urls(&i, true), (s(""), s("")));
}

#[test]
fn a_map_keeps_the_last_value_of_a_key() {
    let m = TextMap::from_entries(vec![
        (s("a"), s("1")),
        (s("b"), s("2")),
        (s("a"), s("3")),
        (s("A"), s("4")),
    ]);
    assert_eq!(*m.entries(), vec![(s("a"), s("3")), (s("b"), s("2")), (s("A"), s("4"))]);
    assert_eq!(m.get("a"), Some(&s("3")));
    assert_eq!(m.get("c"), None);
    assert_eq!(m.clone().entries(), m.entries());
}

#[test]
fn a_page_shows_all_of_an_item() {
    let mut i = item("i");
    i.taglines = texts(&["t1", "t2"]);
    i.overview = some("o");
    i.genres = texts(&["g"]);
    i.tags = texts(&["x", "y"]);
    i.premiere_date = some("2008-03-04T");
    i.production_locations = texts(&["ES", "FR"]);
    i.studios = Some(vec![
        NameGuidPair { name: some("S1"), id: None },
        NameGuidPair { name: None, id: some("2") },
        NameGuidPair { name: some("S3"), id: None },
    ]);
    i.backdrop_image_tags = texts(&["b1", "b2"]);
    let mut people = Vec::new();
    for n in 0..30 {
        let mut p = person("Actor", Some(&format!("P{}", n)));
        p.role = some("r");
        if n % 2 == 1 {
            p.id = some(&format!("id{}", n));
            p.primary_image_tag = some("tag");
        }
        people.push(p);
    }
    people.push(person("Director", Some("D")));
    people.push(person("Writer", Some("W")));
    i.people = Some(people);
    let page = apply_detail(&i, true);
    let m = page.meta;
    assert_eq!((m.tagline.as_str(), m.overview.as_str()), ("t1", "o"));
    assert_eq!((m.director.as_str(), m.writers.as_str()), ("Director: D", "Guionistas: W"));
    assert_eq!((m.genres, m.tags), (texts(&["g"]).unwrap(), texts(&["x", "y"]).unwrap()));
    assert_eq!(m.premiere, "Estreno: 4 de marzo de 2008");
    assert_eq!((m.country.as_str(), m.studios.as_str()), ("País: ES, FR", "Estudios: S1, S3"));
    assert_eq!((m.can_play, m.children_label.as_str()), (false, "Temporadas"));
    assert_eq!(m.cast.len(), 24);
    assert_eq!(m.cast[23], (s("P23"), s("r")));
    assert_eq!(page.backdrop.as_deref(), Some("b1"));
    assert_eq!(page.portraits.len(), 12);
    let p = &page.portraits[11];
    assert_eq!((p.index, p.person_id.as_str(), p.tag.as_str()), (23, "id23", "tag"));
    let empty = apply_detail(&item("i"), false);
    assert!(empty.meta.can_play && empty.meta.children_label.is_empty());
    assert!(empty.meta.country.is_empty() && empty.meta.premiere.is_empty());
    assert!(empty.backdrop.is_none() && empty.portraits.is_empty());
}

#[test]
fn subtitles_of_pages() {
    let mut i = item("i");
    i.production_year = Some(1999);
    i.child_count = Some(8);
    assert_eq!(detail_subtitle(&i, "MusicAlbum"), "1999");
    assert_eq!(detail_subtitle(&i, "Series"), "1999");
    assert_eq!(detail_subtitle(&i, "Season"), "8 episodes");
    assert_eq!(detail_subtitle(&i, "Playlist"), "");
    i.album_artist = some("A");
    assert_eq!(detail_subtitle(&i, "MusicAlbum"), "A");
}

// ------------------------------------------------------------ rows

#[test]
fn badges_of_tracks() {
    let mut i = item("i");
    assert_eq!(track_tech(&i), "");
    let mut a = stream("Audio", "flac");
    a.sample_rate = Some(96_000);
    a.khz = s("96.0");
    a.bit_depth = Some(24);
    i.media_streams = Some(vec![stream("Video", "mjpeg"), a.clone()]);
    assert_eq!(track_tech(&i), "FLAC 24/96");
    a.bit_depth = None;
    a.sample_rate = Some(44_100);
    a.khz = s("44.1");
    i.media_streams = Some(vec![a.clone()]);
    assert_eq!(track_tech(&i), "FLAC 44.1 kHz");
    a.sample_rate = None;
    i.media_streams = Some(vec![a.clone()]);
    assert_eq!(track_tech(&i), "FLAC");
    for (rate, badge) in [(2_822_400, "DSD64"), (5_644_800, "DSD128"), (22_050, "DSD1"), (22_049, "DSD0"), (0, "DSD")] {
        a.codec = some("dsd_lsbf");
        a.sample_rate = Some(rate);
        i.media_streams = Some(vec![a.clone()]);
        assert_eq!(track_tech(&i), badge);
    }
    a.codec = some("dst");
    a.sample_rate = Some(2_822_400);
    i.media_streams = None;
    let mut src = source(None);
    src.media_streams = Some(vec![a]);
    i.media_sources = Some(vec![src]);
    assert_eq!(track_tech(&i), "DSD64");
}

#[test]
fn sample_rates_in_kilohertz() {
    for rate in (1..=400_000u32).step_by(7).chain([22_050, 11_025, 44_100, 48_000, 2_147_483_647]) {
        let khz = rate as f64 / 1000.0;
        let expected =
            if khz.fract() == 0.0 { format!("{khz:.0}") } else { format!("{khz:.1}") };
        assert_eq!(format_khz(rate, &format!("{khz:.1}")), expected);
    }
    assert_eq!(format_khz(44_100, "x"), "44.1");
    assert_eq!(format_khz(11_025, "x"), "11.0");
    assert_eq!(format_khz(22_050, "22.1"), "22.1");
}

#[test]
fn rows_by_type() {
    let mut i = item("i");
    i.name = some("N");
    i.production_year = Some(2001);
    i.child_count = Some(3);
    i.index_number = Some(2);
    i.parent_index_number = Some(1);
    i.run_time = run_time(61);
    i.artists = texts(&["First"]);
    let mut a = stream("Audio", "alac");
    a.sample_rate = Some(48_000);
    a.khz = s("48.0");
    i.media_streams = Some(vec![a]);
    let mut row = |t: &str| {
        i.item_type = Some(ItemType::from_name(t));
        let d = build_initial_item_data(&i);
        assert_eq!((d.id.as_str(), d.title.as_str(), d.track_index), ("i", "N", 2));
        assert_eq!(d.item_type, t);
        (d.subtitle, d.tech)
    };
    assert_eq!(row("MusicAlbum"), (s("First"), s("")));
    assert_eq!(row("Audio"), (s("1:01"), s("ALAC 48 kHz")));
    assert_eq!(row("Movie"), (s("2001"), s("")));
    assert_eq!(row("Series").0, "2001");
    assert_eq!(row("Season").0, "3 episodes");
    assert_eq!(row("Episode").0, "S01E02");
    assert_eq!(row("Playlist").0, "3 items");
    assert_eq!(row("BoxSet").0, "");
    assert_eq!(row("Strange").0, "");
    i.parent_index_number = None;
    i.item_type = Some(ItemType::Episode);
    assert_eq!(build_initial_item_data(&i).subtitle, "E02");
    let blank = build_initial_item_data(&item("x"));
    assert_eq!((blank.title.as_str(), blank.item_type.as_str(), blank.track_index), ("", "", 0));
}

#[test]
fn album_headers() {
    let mut album = item("a");
    album.production_year = Some(1973);
    album.genres = texts(&["Rock"]);
    album.album_artist = some("PF");
    album.overview = some("See https://en.wikipedia.org/wiki/X.");
    let mut t1 = item("1");
    t1.run_time = run_time(3600);
    let mut t2 = item("2");
    t2.run_time = Some(RunTime { ticks: -5, seconds: 0 });
    let t3 = item("3");
    let tracks = vec![t1.clone(), t2, t3];
    let (meta, genres) = album_header_strings(&album, &tracks);
    assert_eq!(meta, "1973 · 3 pistas · 1:00:00");
    assert_eq!(genres, vec!["Rock"]);
    assert_eq!(album_header_strings(&item("b"), &vec![t1]).0, "1 pista · 1:00:00");
    assert_eq!(album_header_strings(&item("b"), &vec![]).0, "");
    let h = album_header(album_facts(&album), &tracks);
    assert_eq!((h.artist.as_str(), h.meta.as_str()), ("PF", "1973 · 3 pistas · 1:00:00"));
    assert_eq!(h.wikipedia.as_deref(), Some("https://en.wikipedia.org/wiki/X"));
}

#[test]
fn wikipedia_links_in_text() {
    let f = |t: &str| extract_wikipedia_url(t);
    assert_eq!(f("no link"), None);
    assert_eq!(f("https://example.org and https://es.wikipedia.org/wiki/A_(b) x").as_deref(),
        Some("https://es.wikipedia.org/wiki/A_(b"));
    assert_eq!(f("(http://en.wikipedia.org/wiki/Z)").as_deref(), Some("http://en.wikipedia.org/wiki/Z"));
    assert_eq!(
        f("http://en.wikipedia.org/wiki/First;:., https://en.wikipedia.org/wiki/Second").as_deref(),
        Some("http://en.wikipedia.org/wiki/First")
    );
    assert_eq!(
        f("http://en.wikipedia.org/wiki/A https://en.wikipedia.org/wiki/B").as_deref(),
        Some("http://en.wikipedia.org/wiki/A")
    );
    assert_eq!(
        f("http://x.org https://en.wikipedia.org/wiki/B http://en.wikipedia.org/wiki/A").as_deref(),
        Some("https://en.wikipedia.org/wiki/B")
    );
    assert_eq!(f("https://https://en.wikipedia.org/wiki/Q\u{a0}r").as_deref(),
        Some("https://https://en.wikipedia.org/wiki/Q"));
    assert_eq!(f("https://x.org\"https://en.wikipedia.org/wiki/R<b>").as_deref(),
        Some("https://en.wikipedia.org/wiki/R"));
}

#[test]
fn titles_identity_and_language() {
    assert_eq!(view_title("music"), "Music");
    assert_eq!(view_title("movies"), "Movies");
    assert_eq!(view_title("tvshows"), "TV Shows");
    assert_eq!(view_title("playlists"), "Playlists");
    assert_eq!(view_title("books"), "Library");
    let id = make_identity("dev", "0.1.0");
    assert_eq!((id.client.as_str(), id.device.as_str()), ("Jelly", "jelly-desktop"));
    assert_eq!((id.device_id.as_str(), id.version.as_str()), ("dev", "0.1.0"));
    assert_eq!(preferred_language(Some("es_ES.UTF-8")), "es-ES");
    assert_eq!(preferred_language(Some("")), "");
    assert_eq!(preferred_language(Some("pt_BR_x")), "pt-BR-x");
    assert_eq!(preferred_language(None), "en");
}

// ------------------------------------------------------------ levels

#[test]
fn levels_ask_for_their_children() {
    let root = |ct: &str| ChildrenType::LibraryRoot { collection_type: s(ct) };
    let q = root("movies").query("p");
    assert_eq!(q.parent_id.as_deref(), Some("p"));
    assert_eq!(q.include_item_types, vec![ItemType::Movie]);
    assert_eq!(q.sort_by, vec!["SortName", "ProductionYear"]);
    assert_eq!((q.limit, q.recursive), (Some(200), Some(true)));
    assert_eq!(q.sort_order, Some(SortOrder::Ascending));
    assert_eq!(
        q.fields,
        vec!["PrimaryImageAspectRatio", "Genres", "ChildCount", "Overview", "MediaSources", "Path"]
    );
    assert_eq!(root("music").query("p").include_item_types, vec![ItemType::MusicAlbum]);
    assert_eq!(root("tvshows").query("p").include_item_types, vec![ItemType::Series]);
    assert_eq!(root("playlists").query("p").include_item_types, vec![ItemType::Playlist]);
    let q = root("books").query("p");
    assert!(q.include_item_types.is_empty());
    assert_eq!(q.sort_by, vec!["SortName"]);
    let q = ChildrenType::Tracks.query("p");
    assert_eq!(q.include_item_types, vec![ItemType::Audio]);
    assert_eq!(q.sort_by, vec!["ParentIndexNumber", "IndexNumber"]);
    assert_eq!(q.recursive, Some(false));
    assert_eq!(ChildrenType::SeriesDetail.query("p").include_item_types, vec![ItemType::Season]);
    assert_eq!(ChildrenType::Episodes.query("p").sort_by, vec!["IndexNumber"]);
    assert_eq!(ChildrenType::PlaylistItems.query("p").recursive, Some(false));
    assert!(ChildrenType::MovieDetail.query("p").sort_by.is_empty());
    let shown = |c: ChildrenType| (c.collection_label(), c.display_mode());
    assert_eq!(shown(root("music")), ("music", "grid"));
    assert_eq!(shown(root("books")), ("", "grid"));
    assert_eq!(shown(ChildrenType::Tracks), ("music", "tracklist"));
    assert_eq!(shown(ChildrenType::Episodes), ("tvshows", "grid"));
    assert_eq!(shown(ChildrenType::SeriesDetail), ("tvshows", "detail"));
    assert_eq!(shown(ChildrenType::MovieDetail), ("movies", "detail"));
    assert_eq!(shown(ChildrenType::PlaylistItems), ("playlists", "grid"));
}

fn page(items: Vec<BaseItemDto>, total: Option<i64>) -> Result<ItemsResponse, String> {
    Ok(ItemsResponse { items, total_record_count: total, start_index: None })
}

fn tagged(id: &str, tag: Option<&str>) -> BaseItemDto {
    let mut i = item(id);
    i.image_tags = tag.map(|t| TextMap::from_entries(vec![(s("Logo"), s("no")), (s("Primary"), s(t))]));
    i
}

#[test]
fn a_level_is_shown_in_two_steps() {
    let mut b = Browser::new();
    assert!(b.top().is_none());
    b.open_library(root_entry(s("v"), s("music")));
    let start = b.begin_level();
    assert_eq!(start.epoch, 1);
    assert_eq!((start.loading.title.as_str(), start.loading.subtitle.as_str()), ("Music", "Loading…"));
    assert_eq!((start.loading.collection_type.as_str(), start.loading.mode.as_str()), ("music", "grid"));
    assert!(!start.can_go_back && start.clear_cover && start.settled.is_none());
    assert_eq!(start.query.unwrap().parent_id.as_deref(), Some("v"));
    let items = vec![tagged("a", Some("x")), tagged("b", None), tagged("c", Some("y"))];
    match b.finish_level(1, page(items.clone(), Some(512))) {
        LevelEnd::Shown { meta, rows, images } => {
            assert_eq!((meta.title.as_str(), meta.subtitle.as_str()), ("Music", "3 of 512 items"));
            assert_eq!(rows.len(), 3);
            assert_eq!(rows[2].id, "c");
            let loads: Vec<(usize, &str, &str)> =
                images.iter().map(|l| (l.index, l.item_id.as_str(), l.tag.as_str())).collect();
            assert_eq!(loads, vec![(0, "a", "x"), (2, "c", "y")]);
        }
        other => panic!("{:?}", other),
    }
    assert_eq!(b.items().len(), 3);
    // What comes in for an earlier level is dropped.
    b.begin_level();
    assert!(!b.is_current(1) && b.is_current(2));
    assert!(matches!(b.finish_level(1, page(vec![], None)), LevelEnd::Stale));
    assert!(matches!(b.finish_level(1, Err(s("late"))), LevelEnd::Stale));
    assert_eq!(b.items().len(), 3);
    match b.finish_level(2, Err(s("server returned 500: x"))) {
        LevelEnd::Failed(m) => {
            assert_eq!((m.title.as_str(), m.subtitle.as_str()), ("Error", "server returned 500: x"));
            assert_eq!((m.collection_type.as_str(), m.mode.as_str()), ("", "grid"));
        }
        other => panic!("{:?}", other),
    }
    assert_eq!(b.items().len(), 3);
    match b.finish_level(2, page(vec![item("z")], None)) {
        LevelEnd::Shown { meta, .. } => assert_eq!(meta.subtitle, "1 items"),
        other => panic!("{:?}", other),
    }
    match b.finish_level(2, page(vec![item("z")], Some(-1))) {
        LevelEnd::Shown { meta, .. } => assert_eq!(meta.subtitle, "1 of -1 items"),
        other => panic!("{:?}", other),
    }
}

fn client(token: Option<&str>) -> Client {
    let c = Client::new(Url::parse("http://h").unwrap(), Identity::new("J", "d", "i", "v"));
    match token {
        Some(t) => c.with_token(s(t)),
        None => c,
    }
}

fn stored() -> Storage {
    let mut st = Storage::with_dirs(s("/c"), s("k"));
    st.set_audio_device(Some("alsa/hw:1"));
    st
}

fn walk(items: Vec<BaseItemDto>) -> Browser {
    let mut b = Browser::new();
    b.open_library(root_entry(s("v"), s("movies")));
    let e = b.begin_level().epoch;
    b.finish_level(e, page(items, None));
    b
}

#[test]
fn clicks_on_leaves_play() {
    let mut track = item("t");
    track.media_sources = Some(vec![source(Some("flac"))]);
    let mut b = walk(vec![track]);
    let (c, st) = (client(Some("tok")), stored());
    match b.activate(&c, &st, "t", "Audio") {
        Activation::PlayAudio(r) => {
            assert_eq!(r.url, "http://h/Audio/t/stream?static=true&api_key=tok");
            assert_eq!(r.container.as_deref(), Some("flac"));
            assert_eq!(r.audio_device.as_deref(), Some("alsa/hw:1"));
            assert!(r.exclusive);
        }
        other => panic!("{:?}", other),
    }
    match b.activate(&c, &st, "gone", "Audio") {
        Activation::PlayAudio(r) => assert_eq!(r.container, None),
        other => panic!("{:?}", other),
    }
    for kind in ["Episode", "Video"] {
        match b.activate(&c, &st, "e", kind) {
            Activation::PlayVideo { url, audio_device } => {
                assert_eq!(url.as_str(), "http://h/Videos/e/stream?static=true&api_key=tok");
                assert_eq!(audio_device.as_deref(), Some("alsa/hw:1"));
            }
            other => panic!("{:?}", other),
        }
    }
    assert!(matches!(b.activate(&client(None), &st, "e", "Video"), Activation::NoToken));
    assert!(matches!(b.activate(&client(None), &st, "t", "Audio"), Activation::NoToken));
    assert!(matches!(b.activate(&c, &st, "t", "BoxSet"), Activation::Unsupported));
    assert!(!b.go_back());
}

#[test]
fn clicks_on_containers_open_levels() {
    let mut film = item("m");
    film.name = some("Film");
    let mut album = tagged("al", Some("cov"));
    album.name = some("Album");
    album.album_artist = some("Artist");
    album.production_year = Some(1970);
    let mut season = item("se");
    season.child_count = Some(10);
    let mut b = walk(vec![film, album, season]);
    let (c, st) = (client(Some("tok")), stored());
    match b.activate(&c, &st, "m", "Movie") {
        Activation::OpenDetail { id, is_series, fallback } => {
            assert_eq!((id.as_str(), is_series), ("m", false));
            assert!(fallback.meta.can_play);
        }
        other => panic!("{:?}", other),
    }
    assert_eq!(b.top().unwrap().title, "Film");
    let start = b.begin_level();
    assert!(start.query.is_none() && start.can_go_back);
    let settled = start.settled.unwrap();
    assert_eq!((settled.title.as_str(), settled.subtitle.as_str()), ("Film", ""));
    assert_eq!((settled.collection_type.as_str(), settled.mode.as_str()), ("movies", "detail"));
    assert!(b.items().is_empty());
    assert!(b.go_back());

    let mut film = item("m");
    film.name = some("Film");
    let mut album = tagged("al", Some("cov"));
    album.name = some("Album");
    album.album_artist = some("Artist");
    let mut season = item("se");
    season.child_count = Some(10);
    let e = b.begin_level().epoch;
    b.finish_level(e, page(vec![film, album, season], None));
    assert!(matches!(b.activate(&c, &st, "x", "MusicAlbum"), Activation::Missing));
    match b.activate(&c, &st, "al", "MusicAlbum") {
        Activation::OpenAlbum { id, cover, fallback } => {
            assert_eq!((id.as_str(), cover.as_deref()), ("al", Some("cov")));
            assert_eq!(fallback.artist, "Artist");
        }
        other => panic!("{:?}", other),
    }
    assert_eq!(b.current_album().as_deref(), Some("al"));
    let top = b.top().unwrap();
    assert_eq!((top.title.as_str(), top.subtitle.as_str()), ("Album", "Artist"));
    assert_eq!(top.album_artist.as_deref(), Some("Artist"));
    let start = b.begin_level();
    assert_eq!(start.loading.subtitle, "Artist");
    assert!(!start.clear_cover);
    assert_eq!(b.current_album().as_deref(), Some("al"));
    match b.finish_level(start.epoch, page(vec![item("t1"), item("t2")], Some(2))) {
        LevelEnd::Shown { meta, .. } => {
            assert_eq!(meta.subtitle, "Artist · 2 items");
            assert_eq!(meta.mode, "tracklist");
        }
        other => panic!("{:?}", other),
    }
    assert!(b.go_back() && !b.go_back());
    b.begin_level();
    assert_eq!(*b.current_album(), None);
}

#[test]
fn a_series_page_shows_no_count() {
    let mut show = item("s");
    show.name = some("Show");
    let mut b = walk(vec![show]);
    let (c, st) = (client(Some("tok")), stored());
    assert!(matches!(
        b.activate(&c, &st, "s", "Series"),
        Activation::OpenDetail { is_series: true, .. }
    ));
    let e = b.begin_level().epoch;
    match b.finish_level(e, page(vec![item("s1")], Some(9))) {
        LevelEnd::Shown { meta, .. } => assert_eq!(meta.subtitle, ""),
        other => panic!("{:?}", other),
    }
    assert!(matches!(b.activate(&c, &st, "s1", "Season"), Activation::OpenLevel));
    assert!(matches!(b.top().unwrap().children, ChildrenType::Episodes));
    assert!(matches!(b.activate(&c, &st, "s1", "Playlist"), Activation::OpenLevel));
    assert!(matches!(b.top().unwrap().children, ChildrenType::PlaylistItems));
}

// ------------------------------------------------------------ sessions

#[test]
fn signing_in_step_by_step() {
    match begin_sign_in("nonsense", "d", "v", s("es")) {
        Err(e) => assert_eq!(e, "invalid URL: nonsense: relative URL without a base"),
        Ok(_) => panic!("expected an error"),
    }
    let mut c = begin_sign_in("http://h", "d", "v", s("es")).ok().unwrap();
    assert_eq!((c.base_url().as_str(), c.token()), ("http://h/", None));
    assert_eq!(c.identity().device_id, "d");
    let why = |r: Result<jlfine::session::SignedIn, String>| r.err().unwrap();
    assert_eq!(why(accept_sign_in(&mut c, Err(s("HTTP")))), "sign_in: HTTP");
    let answer = |user: Option<UserDto>, token: Option<&str>| AuthenticationResult {
        user,
        access_token: token.map(s),
        server_id: None,
    };
    assert_eq!(
        why(accept_sign_in(&mut c, Ok(answer(None, None)))),
        "sign_in: authentication response missing required field: AccessToken"
    );
    assert_eq!(why(accept_sign_in(&mut c, Ok(answer(None, Some("t"))))), "auth response had no user");
    let user = UserDto {
        id: s("u"),
        name: s("Me"),
        server_id: None,
        has_password: None,
        primary_image_tag: None,
    };
    let got = accept_sign_in(&mut c, Ok(answer(Some(user), Some("t2")))).ok().unwrap();
    assert_eq!((got.user.name.as_str(), got.token.as_str(), c.token()), ("Me", "t2", Some("t2")));
    assert!(accept_persist(Ok(())).is_ok());
    assert_eq!(
        accept_persist(Err(storage::Error::NoConfigDir)).unwrap_err(),
        "persist session: could not locate user config dir"
    );
    assert_eq!(accept_views(Err(s("x"))).unwrap_err(), "user_views: x");
    assert_eq!(accept_views(page(vec![item("v")], None)).unwrap().len(), 1);
}

#[test]
fn a_refused_session_is_forgotten() {
    let mut st = stored();
    let url = Url::parse("http://h").unwrap();
    st.save_session(&url, "u", Ok(())).unwrap();
    let saved = st.load_session(KeyringReply::Token(s("t"))).unwrap().unwrap();
    let c = restore_client(saved, "d", "v", s("en"));
    assert_eq!(c.token(), Some("t"));
    let (gone, server) = reject_session(&mut st, &url);
    assert_eq!((gone.unwrap().account.as_str(), server.as_str()), ("u", "http://h/"));
    assert!(st.config().session.is_none());
    assert_eq!(st.audio_device().as_deref(), Some("alsa/hw:1"));
}

#[test]
fn libraries_are_listed_and_the_first_is_opened() {
    let mut v = item("v1");
    v.name = some("Films");
    v.collection_type = some("movies");
    let views = vec![v, item("v2")];
    let (rows, selected) = list_views(&views);
    assert_eq!((rows[0].id.as_str(), rows[0].name.as_str()), ("v1", "Films"));
    assert_eq!((rows[0].collection_type.as_str(), rows[1].name.as_str(), selected), ("movies", "", 0));
    assert_eq!(list_views(&vec![]).1, -1);
    let mut b = Browser::new();
    assert!(!open_first_view(&mut b, &vec![]));
    assert!(open_first_view(&mut b, &views));
    assert_eq!(b.top().unwrap().title, "Movies");
    assert_eq!(library_root_entry(&views[1]).title, "Library");
}

fn device(id: &str, bitperfect: bool) -> AudioDevice {
    AudioDevice { id: s(id), description: format!("the {}", id), bitperfect }
}

#[test]
fn audio_devices_are_picked_once() {
    let devices = vec![device("alsa/hw:0", true), device("pulse", false)];
    let mut st = Storage::with_dirs(s("/c"), s("k"));
    let a = initial_audio_state(&st);
    assert_eq!((a.device_id.as_str(), a.label.as_str(), a.exclusive), ("", "System default", true));
    assert!(auto_pick(&st, &devices, false).is_none());
    let picked = auto_pick(&st, &devices, true);
    assert_eq!(picked.as_ref().unwrap().id, "alsa/hw:0");
    let (id, label) = refreshed_selection(&st, picked, false, &devices);
    assert_eq!((id.as_str(), label.as_str()), ("", "System default"));
    let picked = auto_pick(&st, &devices, true);
    let (id, label) = refreshed_selection(&st, picked, true, &devices);
    assert_eq!((id.as_str(), label.as_str()), ("alsa/hw:0", "the alsa/hw:0"));
    st.set_audio_device(Some("pulse"));
    assert!(auto_pick(&st, &devices, true).is_none());
    let (id, label) = refreshed_selection(&st, None, false, &devices);
    assert_eq!((id.as_str(), label.as_str()), ("pulse", "the pulse"));
    assert_eq!(initial_audio_state(&st).label, "pulse");
}

#[test]
fn commands_before_and_after_signing_in() {
    let attempt = signed_out_command(BackendCmd::SignIn { server: s("s"), user: s("u"), pw: s("p") });
    assert_eq!(attempt.unwrap().pw, "p");
    assert!(signed_out_command(BackendCmd::GoBack).is_none());

    let mut b = walk(vec![item("m")]);
    let (c, mut st, devices) = (client(Some("tok")), stored(), vec![device("pulse", false)]);
    let mut run = |b: &mut Browser, cmd| signed_in_command(b, &c, &mut st, &devices, cmd);
    assert!(matches!(run(&mut b, BackendCmd::PlayDetail), Step::Ignored));
    let click = BackendCmd::ActivateItem { item_id: s("m"), item_type: s("Movie") };
    assert_eq!(item_to_play(&b, &click), None);
    assert_eq!(item_to_play(&b, &BackendCmd::PlayDetail), None);
    assert_eq!(item_to_play(&b, &BackendCmd::SignOut), None);
    let leaf = BackendCmd::ActivateItem { item_id: s("t"), item_type: s("Audio") };
    assert_eq!(item_to_play(&b, &leaf), some("t"));
    assert!(plays("Episode") && plays("Video") && plays("Audio") && !plays("Series"));
    assert!(matches!(run(&mut b, click), Step::Clicked(Activation::OpenDetail { .. })));
    assert_eq!(item_to_play(&b, &BackendCmd::PlayDetail), some("m"));
    match run(&mut b, BackendCmd::PlayDetail) {
        Step::Clicked(Activation::PlayVideo { url, .. }) => {
            assert_eq!(url.as_str(), "http://h/Videos/m/stream?static=true&api_key=tok")
        }
        other => panic!("{:?}", other),
    }
    assert!(matches!(run(&mut b, BackendCmd::DownloadDetail), Step::Ignored));
    assert!(matches!(run(&mut b, BackendCmd::DownloadAlbum), Step::Download(DownloadStart::NoAlbum)));
    assert!(matches!(run(&mut b, BackendCmd::GoBack), Step::ShowLevel));
    assert!(matches!(run(&mut b, BackendCmd::GoBack), Step::Ignored));
    let view = BackendCmd::SelectView { view_id: s("w"), collection_type: s("music") };
    assert!(matches!(run(&mut b, view), Step::ShowLevel));
    assert_eq!((b.top().unwrap().parent_id.as_str(), b.top().unwrap().title.as_str()), ("w", "Music"));
    assert!(matches!(run(&mut b, BackendCmd::RefreshDevices), Step::RefreshDevices));
    match run(&mut b, BackendCmd::SelectAudioDevice { id: s("pulse") }) {
        Step::DeviceSelected { id, label } => assert_eq!((id.as_str(), label.as_str()), ("pulse", "the pulse")),
        other => panic!("{:?}", other),
    }
    match run(&mut b, BackendCmd::SelectAudioDevice { id: s("") }) {
        Step::DeviceSelected { label, .. } => assert_eq!(label, "System default"),
        other => panic!("{:?}", other),
    }
    assert!(matches!(run(&mut b, BackendCmd::SetExclusiveMode { value: false }), Step::ExclusiveSet(false)));
    let again = BackendCmd::SignIn { server: s("s"), user: s("u"), pw: s("p") };
    assert!(matches!(run(&mut b, again), Step::Ignored));
    assert!(matches!(run(&mut b, BackendCmd::SignOut), Step::SignedOut(None)));
    assert_eq!(st.audio_device(), None);
    assert!(!st.exclusive_mode());
    st.save_session(&Url::parse("http://h").unwrap(), "u", Ok(())).unwrap();
    match signed_in_command(&mut b, &c, &mut st, &devices, BackendCmd::SignOut) {
        Step::SignedOut(Some(gone)) => {
            assert_eq!((gone.account.as_str(), gone.service), ("u", st.credential("u").service))
        }
        other => panic!("{:?}", other),
    }
    assert!(st.config().session.is_none());
}
