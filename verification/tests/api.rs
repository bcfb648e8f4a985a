use jlfine::auth::{authorization_header, Identity};
use jlfine::client::{
    check_answer, is_refusal, is_success, Body, Client, Error, ItemsQuery, Method, SortOrder,
};
use jlfine::images::{decode_failure, decode_picture, picture_url, PictureUse};
use jlfine::playback::{
    PlayMethod, PlaybackProgressInfo, PlaybackStartInfo, PlaybackStopInfo, ProgressEvent,
};
use jlfine::types::{item_type_as_str, item_type_str, AuthenticationResult, ItemType};
use jlfine::urls::{
    add_query, audio_stream_url, image_url, join_path, video_stream_url, ImageOptions, ImageType, Url,
};

// ------------------------------------------------------------ identity

#[test]
fn header_without_token() {
    let id = Identity::new("Jelly", "Mac", "uuid-123", "0.1");
    let h = authorization_header(&id, None);
    assert_eq!(
        h,
        r#"MediaBrowser Client="Jelly", Device="Mac", DeviceId="uuid-123", Version="0.1""#
    );
}

#[test]
fn header_with_token() {
    let id = Identity::new("Jelly", "Mac", "uuid-123", "0.1");
    let h = authorization_header(&id, Some("abc"));
    assert!(h.ends_with(r#"Token="abc""#));
}

#[test]
fn escapes_embedded_quotes() {
    let id = Identity::new("Jelly", r#"Mac "Pro""#, "uuid", "0.1");
    let h = authorization_header(&id, None);
    assert!(h.contains(r#"Device="Mac \"Pro\"""#));
}

#[test]
fn a_quote_never_stands_without_its_backslash() {
    let id = Identity::new("\"\"", "\\\"", "", "a\"b");
    assert_eq!(
        authorization_header(&id, Some("\"")),
        r#"MediaBrowser Client="\"\"", Device="\\"", DeviceId="", Version="a\"b", Token="\"""#
    );
}

// ------------------------------------------------------------ addresses

fn base() -> Url {
    Url::parse("https://jelly.example.com").unwrap()
}

fn base_with_subpath() -> Url {
    Url::parse("https://example.com/jellyfin").unwrap()
}

fn outside(u: &Url) -> url::Url {
    url::Url::parse(u.as_str()).unwrap()
}

#[test]
fn audio_stream_url_static_true() {
    let u = outside(&audio_stream_url(&base(), "abc123", "tok"));
    assert_eq!(u.path(), "/Audio/abc123/stream");
    let q: Vec<_> = u.query_pairs().collect();
    assert!(q.iter().any(|(k, v)| k == "static" && v == "true"));
    assert!(q.iter().any(|(k, v)| k == "api_key" && v == "tok"));
}

#[test]
fn video_stream_url_preserves_subpath() {
    let u = outside(&video_stream_url(&base_with_subpath(), "id", "t"));
    assert_eq!(u.path(), "/jellyfin/Videos/id/stream");
}

#[test]
fn image_url_defaults_to_fill_height_240() {
    let u = outside(&image_url(&base(), "id", ImageType::Primary, &ImageOptions::default()));
    assert_eq!(u.path(), "/Items/id/Images/Primary");
    let q: Vec<_> = u.query_pairs().collect();
    assert!(q.iter().any(|(k, v)| k == "fillHeight" && v == "240"));
    assert!(q.iter().any(|(k, v)| k == "quality" && v == "90"));
}

#[test]
fn image_url_uses_explicit_dimensions() {
    let opts = ImageOptions {
        fill_width: Some(800),
        quality: Some(80),
        tag: Some("hash".into()),
        ..Default::default()
    };
    let u = outside(&image_url(&base(), "id", ImageType::Backdrop, &opts));
    let q: Vec<_> = u.query_pairs().collect();
    assert!(q.iter().any(|(k, v)| k == "fillWidth" && v == "800"));
    assert!(q.iter().any(|(k, v)| k == "tag" && v == "hash"));
    assert!(q.iter().any(|(k, v)| k == "quality" && v == "80"));
    assert!(!q.iter().any(|(k, _)| k == "fillHeight"));
}

#[test]
fn addresses_are_exact() {
    assert_eq!(base().as_str(), "https://jelly.example.com/");
    assert_eq!(
        audio_stream_url(&base(), "a b", "t&=").as_str(),
        "https://jelly.example.com/Audio/a%20b/stream?static=true&api_key=t%26%3D"
    );
    let opts = ImageOptions {
        tag: Some("é ~".into()),
        fill_height: Some(4294967295),
        fill_width: Some(0),
        quality: Some(255),
    };
    assert_eq!(
        image_url(&base_with_subpath(), "x", ImageType::Logo, &opts).as_str(),
        "https://example.com/jellyfin/Items/x/Images/Logo?quality=255&fillHeight=4294967295\
         &fillWidth=0&tag=%C3%A9+%7E"
    );
    let empty = ImageOptions { tag: Some(String::new()), ..Default::default() };
    assert_eq!(
        image_url(&base(), "x", ImageType::Thumb, &empty).as_str(),
        "https://jelly.example.com/Items/x/Images/Thumb?quality=90&fillHeight=240"
    );
}

fn parts(list: &[&str]) -> Vec<String> {
    list.iter().map(|s| s.to_string()).collect()
}

fn joined(base: &str, list: &[&str]) -> String {
    join_path(&Url::parse(base).unwrap(), &parts(list)).as_str().to_string()
}

#[test]
fn paths_grow_segment_by_segment() {
    assert_eq!(joined("http://h", &["a", "b"]), "http://h/a/b");
    assert_eq!(joined("http://h/p", &["a"]), "http://h/p/a");
    assert_eq!(joined("http://h/p/", &["a"]), "http://h/p/a");
    assert_eq!(joined("http://h/p//", &["a"]), "http://h/p//a");
    assert_eq!(joined("http://u:p@h:8096/p/?q=1#f", &["a"]), "http://u:p@h:8096/p/a?q=1#f");
    assert_eq!(joined("http://h/p", &["."]), "http://h/p");
    assert_eq!(joined("http://h/p", &["..", "x"]), "http://h/p/x");
    assert_eq!(joined("http://h", &["", "x"]), "http://h/x");
    assert_eq!(joined("http://h/p", &["", "x"]), "http://h/p//x");
    assert_eq!(
        joined("https://h", &["a/b?c#d\\e%f<g>h\"i`j{k}l^m|n'o é"]),
        "https://h/a%2Fb%3Fc%23d%5Ce%25f%3Cg%3Eh%22i%60j%7Bk%7Dl^m|n'o%20%C3%A9"
    );
    assert_eq!(joined("ftp://h/p", &["a b"]), "ftp://h/p/a%20b");
    assert_eq!(joined("foo:/p", &["a"]), "foo:/p/a");
}

#[test]
fn path_segments_escape_what_must_not_stand() {
    for b in 0x20..0x7fu8 {
        let c = (b as char).to_string();
        let got = joined("http://h", &[&format!("x{}x", c)]);
        let plain = format!("http://h/x{}x", c);
        let escaped = format!("http://h/x%{:02X}x", b);
        let must = " \"#%/<>?\\`{}".contains(&c);
        assert_eq!(got, if must { escaped } else { plain });
    }
    assert_eq!(joined("http://h", &["\u{1}\u{7f}"]), "http://h/%01%7F");
}

fn queried(base: &str, list: &[(&str, &str)]) -> String {
    let pairs: Vec<(String, String)> =
        list.iter().map(|(a, b)| (a.to_string(), b.to_string())).collect();
    add_query(&Url::parse(base).unwrap(), &pairs).as_str().to_string()
}

#[test]
fn queries_grow_pair_by_pair() {
    assert_eq!(queried("http://h", &[("a", "1"), ("b", "2")]), "http://h/?a=1&b=2");
    assert_eq!(queried("http://h?x=0", &[("a", "1")]), "http://h/?x=0&a=1");
    assert_eq!(queried("http://h?", &[("a", "1")]), "http://h/?a=1");
    assert_eq!(queried("http://h#f?g", &[("a", "1")]), "http://h/?a=1#f?g");
    assert_eq!(queried("http://h", &[]), "http://h/?");
    assert_eq!(queried("http://h", &[("", "")]), "http://h/?=");
    for b in 0..0x80u8 {
        let c = b as char;
        let got = queried("http://h", &[("k", &c.to_string())]);
        let shown = if c == ' ' {
            "+".to_string()
        } else if c.is_ascii_alphanumeric() || "*-._".contains(c) {
            c.to_string()
        } else {
            format!("%{:02X}", b)
        };
        assert_eq!(got, format!("http://h/?k={}", shown));
    }
}

#[test]
fn parsing_brings_addresses_into_normal_form() {
    let u = Url::parse("HTTP://Example.COM:80/a/../b c").unwrap();
    assert_eq!(u.as_str(), "http://example.com/b%20c");
    assert_eq!(Url::parse(u.as_str()).unwrap().as_str(), u.as_str());
    assert_eq!(u.clone().as_str(), u.as_str());
    assert_eq!(Url::parse("example.com").unwrap_err().why, "relative URL without a base");
    assert!(u.takes_paths());
    assert!(!Url::parse("mailto:x@y").unwrap().takes_paths());
    assert!(Url::parse("foo:/p").unwrap().takes_paths());
}

// ------------------------------------------------------------ queries and requests

#[test]
fn some_file_addresses_change_when_they_are_read_again() {
    for text in ["file://host//C|/x", "file://host//C:/x"] {
        let once = Url::parse(text).unwrap();
        let twice = Url::parse(once.as_str()).unwrap();
        assert!(once.as_str().starts_with("file://host/C"));
        assert_eq!(twice.as_str(), "file:///C:/x");
        assert!(!once.reads_back() && twice.reads_back());
        let longer = join_path(&once, &parts(&["y"]));
        assert_eq!(longer.as_str(), format!("{}/y", once.as_str()));
    }
    for text in ["http://h//C|/x", "https://u:p@H:443/a/../b?q=' #f g", "http://0x7f.1\\x"] {
        let once = Url::parse(text).unwrap();
        assert_eq!(Url::parse(once.as_str()).unwrap().as_str(), once.as_str());
        assert!(once.reads_back());
    }
}

#[test]
fn a_host_name_may_grow_too_long_to_be_read_again() {
    let label: String = (0..1000).map(|i| char::from_u32(0x4e00 + 20 * i).unwrap()).collect();
    let u = Url::parse(&format!("http://{label}/")).unwrap();
    assert!(u.as_str().starts_with("http://xn--") && u.as_str().len() > 2000);
    assert!(Url::parse(u.as_str()).is_err());
    assert!(!u.reads_back());
    let stream = audio_stream_url(&u, "id", "t");
    assert_eq!(stream.as_str(), format!("{}Audio/id/stream?static=true&api_key=t", u.as_str()));
}

#[test]
fn an_empty_query_has_no_parameters() {
    assert!(ItemsQuery::default().to_pairs().is_empty());
}

#[test]
fn query_parameters_are_exact() {
    let q = ItemsQuery {
        parent_id: Some("p".into()),
        include_item_types: vec![ItemType::Movie, ItemType::Other("X".into())],
        sort_by: parts(&["A", "B"]),
        sort_order: Some(SortOrder::Descending),
        limit: Some(200),
        start_index: Some(0),
        recursive: Some(false),
        fields: parts(&["F"]),
        search_term: Some("s,t".into()),
        artist_ids: parts(&["1", "2"]),
        album_artist_ids: parts(&["3"]),
    };
    let pairs = q.to_pairs();
    let shown: Vec<String> = pairs.iter().map(|(a, b)| format!("{}={}", a, b)).collect();
    assert_eq!(
        shown,
        vec![
            "ParentId=p",
            "IncludeItemTypes=Movie,X",
            "SortBy=A,B",
            "SortOrder=Descending",
            "Limit=200",
            "StartIndex=0",
            "Recursive=false",
            "Fields=F",
            "SearchTerm=s,t",
            "ArtistIds=1,2",
            "AlbumArtistIds=3",
        ]
    );
    let q = ItemsQuery {
        recursive: Some(true),
        sort_order: Some(SortOrder::Ascending),
        ..Default::default()
    };
    assert_eq!(q.to_pairs()[0].1, "Ascending");
    assert_eq!(q.to_pairs()[1].1, "true");
}

fn client() -> Client {
    Client::new(base_with_subpath(), Identity::new("Jelly", "Mac", "id", "0.1"))
}

#[test]
fn requests_carry_identity_and_language() {
    let c = client();
    let r = c.public_system_info();
    assert_eq!(r.method, Method::Get);
    assert_eq!(r.url.as_str(), "https://example.com/jellyfin/System/Info/Public");
    let value = r#"MediaBrowser Client="Jelly", Device="Mac", DeviceId="id", Version="0.1""#;
    assert_eq!(
        r.headers,
        vec![
            ("X-Emby-Authorization".to_string(), value.to_string()),
            ("authorization".to_string(), value.to_string()),
        ]
    );
    assert!(r.query.is_empty() && matches!(r.body, Body::Empty));
    let c = client().with_accept_language("es".into()).with_token("tok".into());
    let r = c.current_user();
    assert_eq!(r.url.as_str(), "https://example.com/jellyfin/Users/Me");
    assert!(r.headers[0].1.ends_with(r#", Token="tok""#));
    assert_eq!(r.headers[0].1, r.headers[1].1);
    assert_eq!(r.headers[2], ("accept-language".to_string(), "es".to_string()));
    assert_eq!(c.base_url().as_str(), "https://example.com/jellyfin");
    assert_eq!(c.token(), Some("tok"));
    assert_eq!(c.identity().device_id, "id");
}

#[test]
fn requests_go_to_their_endpoints() {
    let c = client();
    let at = |r: &jlfine::client::Request| {
        r.url.as_str().strip_prefix("https://example.com/jellyfin").unwrap().to_string()
    };
    let r = c.sign_in("me", "secret");
    assert_eq!((r.method, at(&r).as_str()), (Method::Post, "/Users/AuthenticateByName"));
    match r.body {
        Body::SignIn { username, pw } => assert_eq!((username.as_str(), pw.as_str()), ("me", "secret")),
        other => panic!("{:?}", other),
    }
    assert_eq!(at(&c.user_views("u 1")), "/Users/u%201/Views");
    assert_eq!(at(&c.item("u", "i/2")), "/Users/u/Items/i%2F2");
    let q = ItemsQuery { limit: Some(5), ..Default::default() };
    let r = c.items("u", &q);
    assert_eq!(at(&r), "/Users/u/Items");
    assert_eq!(r.query, vec![("Limit".to_string(), "5".to_string())]);
    let start = PlaybackStartInfo {
        item_id: "i".into(),
        media_source_id: None,
        play_method: PlayMethod::DirectPlay,
        position_ticks: None,
        is_paused: false,
        is_muted: false,
        audio_stream_index: None,
        subtitle_stream_index: None,
    };
    let r = c.report_playback_start(start);
    assert_eq!((r.method, at(&r).as_str()), (Method::Post, "/Sessions/Playing"));
    assert!(matches!(r.body, Body::PlaybackStart(i) if i.item_id == "i"));
    let progress = PlaybackProgressInfo {
        item_id: "i".into(),
        media_source_id: None,
        play_method: PlayMethod::Transcode,
        position_ticks: 7,
        is_paused: true,
        is_muted: false,
        event_name: Some(ProgressEvent::Pause),
    };
    let r = c.report_playback_progress(progress);
    assert_eq!(at(&r), "/Sessions/Playing/Progress");
    assert!(matches!(r.body, Body::PlaybackProgress(i) if i.position_ticks == 7));
    let stop = PlaybackStopInfo {
        item_id: "i".into(),
        media_source_id: None,
        position_ticks: Some(9),
        failed: true,
    };
    let r = c.report_playback_stopped(stop);
    assert_eq!(at(&r), "/Sessions/Playing/Stopped");
    assert!(matches!(r.body, Body::PlaybackStop(i) if i.failed));
}

#[test]
fn a_sign_in_needs_a_token() {
    let mut c = client().with_token("old".into());
    let without = AuthenticationResult { user: None, access_token: None, server_id: None };
    match c.finish_sign_in(without) {
        Err(e) => assert_eq!(
            e.message(),
            "authentication response missing required field: AccessToken"
        ),
        Ok(_) => panic!("expected an error"),
    }
    assert_eq!(c.token(), Some("old"));
    let with = AuthenticationResult { user: None, access_token: Some("new".into()), server_id: None };
    assert!(c.finish_sign_in(with).is_ok());
    assert_eq!(c.token(), Some("new"));
}

#[test]
fn statuses_are_judged() {
    assert!(is_success(200) && is_success(299) && !is_success(199) && !is_success(300));
    assert!(is_refusal(400) && is_refusal(599) && !is_refusal(399) && !is_refusal(600));
    assert!(check_answer(204, "x".into()).is_ok());
    assert_eq!(
        check_answer(401, "no".into()).unwrap_err().message(),
        "server returned 401: no"
    );
    assert!(matches!(check_answer(302, String::new()), Err(Error::Server { status: 302, .. })));
    assert_eq!(Error::Http("x".into()).message(), "HTTP request failed: x");
    assert_eq!(Error::Json("x".into()).message(), "JSON decode failed: x");
    assert_eq!(Error::Url("x".into()).message(), "URL parse failed: x");
    assert_eq!(Error::InvalidHeader("x".into()).message(), "invalid header value: x");
    assert_eq!(Error::NotAuthenticated.message(), "not authenticated — call sign_in() first");
}

// ------------------------------------------------------------ types

#[test]
fn item_type_round_trips() {
    let name: String = serde_json::from_str(r#""MusicAlbum""#).unwrap();
    assert_eq!(ItemType::from_name(&name), ItemType::MusicAlbum);
    let name: String = serde_json::from_str(r#""SomethingNew""#).unwrap();
    assert_eq!(ItemType::from_name(&name), ItemType::Other("SomethingNew".into()));
}

#[test]
fn every_type_is_read_back_from_its_name() {
    let known = vec![
        (ItemType::Movie, "Movie"),
        (ItemType::Series, "Series"),
        (ItemType::Season, "Season"),
        (ItemType::Episode, "Episode"),
        (ItemType::MusicAlbum, "MusicAlbum"),
        (ItemType::MusicArtist, "MusicArtist"),
        (ItemType::Audio, "Audio"),
        (ItemType::Folder, "Folder"),
        (ItemType::CollectionFolder, "CollectionFolder"),
        (ItemType::BoxSet, "BoxSet"),
        (ItemType::Playlist, "Playlist"),
        (ItemType::Video, "Video"),
    ];
    for (t, name) in known {
        assert_eq!(item_type_as_str(&t), name);
        assert_eq!(item_type_str(&Some(t.clone())), name);
        assert_eq!(ItemType::from_name(name), t);
    }
    assert_eq!(item_type_str(&None), "");
    assert_eq!(item_type_as_str(&ItemType::Other("Q".into())), "Q");
}

// ------------------------------------------------------------ pictures

#[test]
fn pictures_are_asked_for_in_the_size_they_are_used_in() {
    let at = |p| {
        picture_url(&base(), p, "i", "t".into())
            .as_str()
            .strip_prefix("https://jelly.example.com/Items/i/Images/")
            .unwrap()
            .to_string()
    };
    assert_eq!(at(PictureUse::Thumbnail), "Primary?quality=90&fillHeight=360&tag=t");
    assert_eq!(at(PictureUse::Cover), "Primary?quality=92&fillHeight=600&tag=t");
    assert_eq!(at(PictureUse::Backdrop), "Backdrop?quality=90&fillWidth=1280&tag=t");
    assert_eq!(at(PictureUse::Portrait), "Primary?quality=90&fillHeight=200&tag=t");
}

#[test]
fn pictures_decode_to_four_bytes_per_pixel() {
    // A bitmap of two by one pixels: red, then blue.
    let mut bmp = Vec::new();
    bmp.extend_from_slice(b"BM");
    bmp.extend_from_slice(&62u32.to_le_bytes());
    bmp.extend_from_slice(&0u32.to_le_bytes());
    bmp.extend_from_slice(&54u32.to_le_bytes());
    bmp.extend_from_slice(&40u32.to_le_bytes());
    bmp.extend_from_slice(&2i32.to_le_bytes());
    bmp.extend_from_slice(&1i32.to_le_bytes());
    bmp.extend_from_slice(&1u16.to_le_bytes());
    bmp.extend_from_slice(&24u16.to_le_bytes());
    bmp.extend_from_slice(&[0; 24]);
    bmp.extend_from_slice(&[0, 0, 255, 255, 0, 0, 0, 0]);
    let p = decode_picture(&bmp).unwrap();
    assert_eq!((p.width, p.height), (2, 1));
    assert_eq!(p.rgba, vec![255, 0, 0, 255, 0, 0, 255, 255]);
    assert_eq!(
        decode_picture(b"not a picture").unwrap_err(),
        "decode: The image format could not be determined"
    );
    assert!(decode_picture(&bmp[..20]).is_err());
    assert_eq!(decode_failure("too short"), "decode: too short");
}
