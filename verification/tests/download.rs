use jlfine::auth::Identity;
use jlfine::client::Client;
use jlfine::download::{
    album_download_dir, final_status, idle_status, path_extension, pick_extension,
    sanitize_path_component, start_album_download, status_is_shown, track_file_name, DownloadJob,
    DownloadStart, DownloadStep, DownloadTrack,
};
use jlfine::nav::{ChildrenType, NavEntry};
use jlfine::types::{BaseItemDto, MediaSourceInfo};
use jlfine::urls::Url;

fn some(s: &str) -> Option<String> {
    Some(s.to_string())
}

#[test]
fn names_are_made_fit_for_paths() {
    let f = sanitize_path_component;
    assert_eq!(f("\"Heroes\""), "Heroes");
    assert_eq!(f("AC/DC: Live\\?"), "AC_DC_ Live__");
    assert_eq!(f("a*b<c>d|e\u{1}f\tg"), "a_b_c_d_e_f_g");
    assert_eq!(f("  ..x. y ..\u{3000}"), "x. y");
    assert_eq!(f("..."), "Untitled");
    assert_eq!(f(""), "Untitled");
    assert_eq!(f("\"\""), "Untitled");
    assert_eq!(f(".."), "Untitled");
    assert_eq!(f("Ñandú"), "Ñandú");
}

#[test]
fn extensions_of_paths_agree_with_the_standard_library() {
    for p in [
        "", "/", ".", "..", "a", "a.b", "a.b.c", "/x/y.FLAC", "/x/y.flac/", "/x/y.flac/.", "/x/y.flac/..",
        ".hidden", "/x/.hidden", ".hidden.txt", "a.", "a..", "..a", "...", "x/./y.z", "é.ü", "a./", "a.b//./",
        "./", "/.", "a/..b.c",
    ] {
        let expected =
            std::path::Path::new(p).extension().and_then(|e| e.to_str()).map(|e| e.to_string());
        assert_eq!(path_extension(p), expected, "{:?}", p);
    }
}

#[test]
fn extensions_are_picked_from_path_container_or_default() {
    let f = |p: Option<&str>, c: Option<&str>| {
        pick_extension(&p.map(|s| s.to_string()), &c.map(|s| s.to_string()))
    };
    assert_eq!(f(Some("/m/a.FLAC"), Some("mp3")), "flac");
    assert_eq!(f(Some("/m/a"), Some("mp3")), "mp3");
    assert_eq!(f(Some("/m/a."), Some("mp3")), "mp3");
    assert_eq!(f(None, Some(" MP4 ,m4v")), "m4a");
    assert_eq!(f(None, Some("Vorbis")), "ogg");
    assert_eq!(f(None, Some("ogg")), "ogg");
    assert_eq!(f(None, Some("wave")), "wav");
    assert_eq!(f(None, Some("\u{a0}DSF\t")), "dsf");
    assert_eq!(f(None, Some(" ,mp3")), "flac");
    assert_eq!(f(None, None), "flac");
}

fn track(index: Option<i32>, order: usize) -> DownloadTrack {
    DownloadTrack {
        id: "t".into(),
        order,
        track_index: index,
        title: "A/B".into(),
        extension: "flac".into(),
    }
}

#[test]
fn files_are_numbered() {
    assert_eq!(track_file_name(&track(Some(3), 9)), "03 - A_B.flac");
    assert_eq!(track_file_name(&track(None, 9)), "09 - A_B.flac");
    assert_eq!(track_file_name(&track(Some(12), 9)), "12 - A_B.flac");
    assert_eq!(track_file_name(&track(Some(0), 9)), "00 - A_B.flac");
    assert_eq!(
        track_file_name(&track(Some(-1), 9)),
        format!("{:02} - A_B.flac", (-1i32) as usize as u64)
    );
    assert_eq!(album_download_dir("/home/x/Music", "AC/DC", "..."), "/home/x/Music/Jelly/AC_DC/Untitled");
}

fn item(id: &str, name: Option<&str>) -> BaseItemDto {
    BaseItemDto {
        id: id.into(),
        name: name.map(|s| s.to_string()),
        item_type: None,
        collection_type: None,
        server_id: None,
        parent_id: None,
        series_id: None,
        season_id: None,
        album_id: None,
        album_artist: None,
        album_artists: None,
        artists: None,
        artist_items: None,
        album: None,
        production_year: None,
        index_number: None,
        parent_index_number: None,
        run_time: None,
        overview: None,
        taglines: None,
        community_rating: None,
        critic_rating: None,
        official_rating: None,
        genres: None,
        tags: None,
        studios: None,
        people: None,
        premiere_date: None,
        production_locations: None,
        provider_ids: None,
        image_tags: None,
        backdrop_image_tags: None,
        image_blur_hashes: None,
        user_data: None,
        media_sources: None,
        media_streams: None,
        child_count: None,
    }
}

fn level(children: ChildrenType, artist: Option<&str>) -> NavEntry {
    NavEntry {
        parent_id: "al".into(),
        title: "Album".into(),
        subtitle: String::new(),
        children,
        album_artist: artist.map(|s| s.to_string()),
    }
}

fn job() -> DownloadJob {
    let mut second = item("i2", None);
    second.index_number = Some(7);
    second.media_sources = Some(vec![MediaSourceInfo {
        id: None,
        path: some("/x/y.DSF"),
        container: some("mp3"),
        size: None,
        run_time_ticks: None,
        bitrate: None,
        mbps: String::new(),
        media_streams: None,
    }]);
    let top = level(ChildrenType::Tracks, None);
    match start_album_download(Some(&top), &vec![item("i1", Some("One")), second], Some("tok")) {
        DownloadStart::Started(job) => job,
        other => panic!("{:?}", other),
    }
}

#[test]
fn downloads_start_on_albums_only() {
    let items = vec![item("i", None)];
    assert!(matches!(start_album_download(None, &items, Some("t")), DownloadStart::NoAlbum));
    let page = level(ChildrenType::MovieDetail, None);
    assert!(matches!(start_album_download(Some(&page), &items, Some("t")), DownloadStart::NoAlbum));
    let album = level(ChildrenType::Tracks, Some("Artist"));
    assert!(matches!(start_album_download(Some(&album), &vec![], Some("t")), DownloadStart::NoTracks));
    assert!(matches!(start_album_download(Some(&album), &items, None), DownloadStart::NoToken));
    match start_album_download(Some(&album), &items, Some("t")) {
        DownloadStart::Started(j) => assert_eq!(j.artist, "Artist"),
        other => panic!("{:?}", other),
    }
    let j = job();
    assert_eq!((j.album_id.as_str(), j.album_name.as_str()), ("al", "Album"));
    assert_eq!((j.artist.as_str(), j.token.as_str(), j.done), ("Unknown Artist", "tok", 0));
    assert_eq!((j.tracks[0].title.as_str(), j.tracks[0].extension.as_str()), ("One", "flac"));
    assert_eq!((j.tracks[1].title.as_str(), j.tracks[1].extension.as_str()), ("Track 2", "dsf"));
    assert_eq!((j.tracks[1].order, j.tracks[1].track_index), (2, Some(7)));
}

#[test]
fn tracks_are_fetched_in_order() {
    let client = Client::new(
        Url::parse("http://h/jf/").unwrap(),
        Identity::new("J", "d", "i", "v"),
    );
    let mut j = job();
    assert_eq!(j.progress().label, "Descargando 0/2…");
    let mut seen = Vec::new();
    loop {
        match j.next_step(&client, false) {
            DownloadStep::Fetch { url, file_name } => {
                assert!(matches!(j.next_step(&client, true), DownloadStep::Cancelled));
                seen.push((url.as_str().to_string(), file_name));
                j.track_done();
            }
            DownloadStep::Finished => break,
            DownloadStep::Cancelled => panic!("nobody cancelled"),
        }
    }
    assert_eq!(
        seen,
        vec![
            ("http://h/jf/Audio/i1/stream?static=true&api_key=tok".to_string(), "01 - One.flac".to_string()),
            ("http://h/jf/Audio/i2/stream?static=true&api_key=tok".to_string(), "07 - Track 2.dsf".to_string()),
        ]
    );
    let p = j.progress();
    assert_eq!((p.label.as_str(), p.enabled, p.active), ("Descargando 2/2…", false, true));
}

#[test]
fn the_button_shows_how_it_went() {
    let done = final_status(true, true).unwrap();
    assert_eq!((done.label.as_str(), done.enabled, done.active), ("✓ Descargado", false, false));
    assert!(final_status(false, true).is_none());
    let failed = final_status(false, false).unwrap();
    assert_eq!((failed.label.as_str(), failed.enabled, failed.active), ("Error — reintentar", true, false));
    let idle = idle_status();
    assert_eq!((idle.label.as_str(), idle.enabled, idle.active), ("⬇  Descargar álbum", true, false));
    assert!(status_is_shown(&some("al"), "al"));
    assert!(!status_is_shown(&some("x"), "al") && !status_is_shown(&None, "al"));
}
