use jlfine::storage::{ConfigFile, Error, KeyringReply, SessionFields, Storage};
use jlfine::urls::Url;

fn fresh_storage() -> Storage {
    Storage::with_dirs("/tmp/jelly".to_string(), "us.priet.jelly.test".to_string())
}

fn copy(cfg: &ConfigFile) -> ConfigFile {
    cfg.clone()
}

#[test]
fn device_id_persists_across_reloads() {
    let mut s = fresh_storage();
    let id1 = s.device_id();
    let mut again = fresh_storage();
    again.set_config(copy(s.config()));
    let id2 = again.device_id();
    assert_eq!(id1, id2);
    assert!(!id1.is_empty());
}

#[test]
fn a_made_up_device_id_is_a_random_uuid() {
    let mut s = fresh_storage();
    let id: Vec<char> = s.device_id().chars().collect();
    assert_eq!(id.len(), 36);
    for (i, c) in id.iter().enumerate() {
        match i {
            8 | 13 | 18 | 23 => assert_eq!(*c, '-'),
            14 => assert_eq!(*c, '4'),
            19 => assert!("89ab".contains(*c)),
            _ => assert!("0123456789abcdef".contains(*c)),
        }
    }
    let mut cfg = copy(s.config());
    cfg.device_id = "short".to_string();
    s.set_config(cfg);
    assert_eq!(s.device_id(), "short");
}

#[test]
fn a_session_whose_address_does_not_read_back_loads_as_it_parses() {
    let mut s = fresh_storage();
    s.save_session(&Url::parse("file://host//C|/x").unwrap(), "u", Ok(())).unwrap();
    let loaded = s.load_session(KeyringReply::Token("t".into())).unwrap().unwrap();
    assert_eq!(loaded.server_url.as_str(), "file:///C:/x");
    let label: String = (0..1000).map(|i| char::from_u32(0x4e00 + 20 * i).unwrap()).collect();
    s.save_session(&Url::parse(&format!("http://{label}/")).unwrap(), "u", Ok(())).unwrap();
    assert!(matches!(s.load_session(KeyringReply::Token("t".into())), Err(Error::Url(_))));
}

#[test]
fn device_id_survives_clear_session() {
    let mut s = fresh_storage();
    let id_before = s.device_id();
    assert!(s.clear_session().is_none());
    let id_after = s.device_id();
    assert_eq!(id_before, id_after);
}

#[test]
fn load_session_none_when_empty() {
    let s = fresh_storage();
    assert!(s.load_session(KeyringReply::NoEntry).unwrap().is_none());
    assert!(s.load_session(KeyringReply::Token("t".into())).unwrap().is_none());
    assert!(s.session_credential().is_none());
}

#[test]
fn save_load_clear_session_round_trip() {
    let mut s = fresh_storage();
    let url = Url::parse("https://jelly.example.com").unwrap();
    let place = s.credential("user-42");
    assert_eq!(place.service, "us.priet.jelly.test");
    assert_eq!(place.account, "user-42");
    s.save_session(&url, "user-42", Ok(())).unwrap();

    assert_eq!(s.session_credential().unwrap().account, "user-42");
    let loaded = s
        .load_session(KeyringReply::Token("tok-xyz".into()))
        .unwrap()
        .expect("session should exist");
    assert_eq!(loaded.server_url.as_str(), url.as_str());
    assert_eq!(loaded.user_id, "user-42");
    assert_eq!(loaded.token, "tok-xyz");

    let gone = s.clear_session().unwrap();
    assert_eq!((gone.service.as_str(), gone.account.as_str()), ("us.priet.jelly.test", "user-42"));
    assert!(s.load_session(KeyringReply::Token("tok-xyz".into())).unwrap().is_none());
}

#[test]
fn device_ids_are_made_up_once() {
    let mut a = fresh_storage();
    let mut b = fresh_storage();
    let (x, y) = (a.device_id(), b.device_id());
    assert_ne!(x, y);
    assert_eq!(x.len(), 36);
    assert!(uuid::Uuid::parse_str(&x).is_ok());
    assert_eq!(a.device_id(), x);
    assert_eq!(a.config().device_id, x);
    let mut c = fresh_storage();
    assert_eq!(c.device_id_from("mine".into()), "mine");
    assert_eq!(c.device_id_from("other".into()), "mine");
    assert_eq!(c.device_id(), "mine");
}

#[test]
fn a_session_is_only_stored_with_its_token() {
    let mut s = fresh_storage();
    let url = Url::parse("http://h").unwrap();
    let e = s.save_session(&url, "u", Err("locked".into())).unwrap_err();
    assert_eq!(e.message(), "keyring error: locked");
    assert!(s.config().session.is_none());
}

#[test]
fn sessions_that_cannot_be_loaded() {
    let mut s = fresh_storage();
    s.save_session(&Url::parse("http://h").unwrap(), "u", Ok(())).unwrap();
    assert!(s.load_session(KeyringReply::NoEntry).unwrap().is_none());
    assert!(matches!(
        s.load_session(KeyringReply::Failed("denied".into())),
        Err(Error::Keyring(w)) if w == "denied"
    ));
    let mut cfg = ConfigFile::default();
    cfg.session = Some(SessionFields { server_url: "nonsense".into(), user_id: "u".into() });
    s.set_config(cfg);
    match s.load_session(KeyringReply::Token("t".into())) {
        Err(e) => assert_eq!(e.message(), "URL parse error: relative URL without a base"),
        Ok(_) => panic!("expected an error"),
    }
}

#[test]
fn audio_settings() {
    let mut s = fresh_storage();
    assert_eq!(s.audio_device(), None);
    assert!(s.exclusive_mode());
    s.set_audio_device(Some("alsa/hw:1,0"));
    s.set_exclusive_mode(false);
    assert_eq!(s.audio_device().as_deref(), Some("alsa/hw:1,0"));
    assert!(!s.exclusive_mode());
    s.clear_session();
    assert_eq!(s.audio_device().as_deref(), Some("alsa/hw:1,0"));
    s.set_audio_device(Some(""));
    assert_eq!(s.audio_device(), None);
    assert_eq!(s.config().audio_device.as_deref(), Some(""));
    s.set_audio_device(None);
    assert_eq!(s.config().audio_device, None);
    s.set_exclusive_mode(true);
    assert!(s.exclusive_mode());
}

#[test]
fn paths_of_the_configuration() {
    for dir in ["/a/b", "/a/b/", "", "rel", "/"] {
        let s = Storage::with_dirs(dir.to_string(), "k".to_string());
        assert_eq!(s.config_dir(), dir);
        let expected = std::path::PathBuf::from(dir).join("config.json");
        assert_eq!(std::path::PathBuf::from(s.config_path()).as_os_str(), expected.as_os_str());
        assert_eq!(
            std::path::PathBuf::from(s.temp_path()).as_os_str(),
            expected.with_extension("json.tmp").as_os_str()
        );
    }
}

#[test]
fn storage_errors_in_words() {
    assert_eq!(Error::NoConfigDir.message(), "could not locate user config dir");
    assert_eq!(Error::Io("x".into()).message(), "config IO error: x");
    assert_eq!(Error::Json("x".into()).message(), "config JSON error: x");
}
