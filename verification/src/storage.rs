//! What outlives a run: where the server is, who is signed in, a device id that
//! survives signing out, and the audio settings.
//!
//! A [`Storage`] holds what stands in the configuration file. The access token
//! never does: it is kept in the system's keyring, under the user's id, and
//! comes in here as the keyring's answer.
use crate::text;
use crate::urls;
use crate::urls::Url;
use vstd::prelude::*;

verus! {

/// What can go wrong with stored data.
#[derive(Debug, Clone)]
pub enum Error {
    NoConfigDir,
    Io(String),
    Json(String),
    Keyring(String),
    Url(String),
}

impl Error {
    /// The error in words.
    pub open spec fn words(&self) -> Seq<char> {
        match *self {
            Error::NoConfigDir => "could not locate user config dir"@,
            Error::Io(why) => "config IO error: "@ + why@,
            Error::Json(why) => "config JSON error: "@ + why@,
            Error::Keyring(why) => "keyring error: "@ + why@,
            Error::Url(why) => "URL parse error: "@ + why@,
        }
    }

    /// The error in words.
    pub fn message(&self) -> (r: String)
        ensures
            r@ == self.words(),
    {
        match self {
            Error::NoConfigDir => "could not locate user config dir".to_owned(),
            Error::Io(why) => text::joined("config IO error: ", why.as_str()),
            Error::Json(why) => text::joined("config JSON error: ", why.as_str()),
            Error::Keyring(why) => text::joined("keyring error: ", why.as_str()),
            Error::Url(why) => text::joined("URL parse error: ", why.as_str()),
        }
    }
}

/// The part of a session that stands in the file.
#[derive(Debug, Clone)]
pub struct SessionFields {
    pub server_url: String,
    pub user_id: String,
}

/// What stands in the configuration file.
#[derive(Debug, Clone)]
pub struct ConfigFile {
    /// Empty until it is first asked for.
    pub device_id: String,
    pub session: Option<SessionFields>,
    pub audio_device: Option<String>,
    pub exclusive_mode: Option<bool>,
}

impl ConfigFile {
    /// Whether this is what a missing file stands for.
    pub open spec fn is_blank(&self) -> bool {
        &&& self.device_id@.len() == 0
        &&& self.session is None
        &&& self.audio_device is None
        &&& self.exclusive_mode is None
    }
}

impl Default for ConfigFile {
    fn default() -> (r: Self)
        ensures
            r.is_blank(),
    {
        ConfigFile { device_id: String::new(), session: None, audio_device: None, exclusive_mode: None }
    }
}

/// A session with its token.
#[derive(Debug)]
pub struct SavedSession {
    pub server_url: Url,
    pub user_id: String,
    pub token: String,
}

/// Where a token stands in the keyring.
#[derive(Debug, Clone)]
pub struct Credential {
    pub service: String,
    pub account: String,
}

/// The keyring's answer to a request for a token.
#[derive(Debug, Clone)]
pub enum KeyringReply {
    Token(String),
    NoEntry,
    Failed(String),
}

/// Whether a character is a hexadecimal digit in lower case.
pub open spec fn is_hex_char(c: char) -> bool {
    ('0' <= c && c <= '9') || ('a' <= c && c <= 'f')
}

/// Whether a text is a random UUID (version 4) in its hyphenated form: groups of
/// 8, 4, 4, 4 and 12 hexadecimal digits, the third of which starts with the
/// version and the fourth with the variant.
pub open spec fn is_random_uuid(s: Seq<char>) -> bool {
    &&& s.len() == 36
    &&& s[8] == '-' && s[13] == '-' && s[18] == '-' && s[23] == '-'
    &&& forall|i: int|
        0 <= i < 36 && i != 8 && i != 13 && i != 18 && i != 23 ==> is_hex_char(#[trigger] s[i])
    &&& s[14] == '4'
    &&& s[19] == '8' || s[19] == '9' || s[19] == 'a' || s[19] == 'b'
}

/// `uuid::Uuid::new_v4` makes a random id of version 4, and its `to_string`
/// writes it in the hyphenated form, in lower case. Which id it is is left to
/// chance.
#[verifier::external_body]
fn fresh_uuid() -> (r: String)
    ensures
        is_random_uuid(r@),
{
    uuid::Uuid::new_v4().to_string()
}

/// The same configuration with another device id.
pub open spec fn with_device_id(cfg: ConfigFile, id: String) -> ConfigFile {
    ConfigFile { device_id: id, ..cfg }
}

/// The preferred audio device, if one is chosen.
pub open spec fn chosen_device(cfg: ConfigFile) -> Option<String> {
    match cfg.audio_device {
        Some(d) => if d@.len() > 0 {
            Some(d)
        } else {
            None
        },
        None => None,
    }
}

/// Whether music takes the output device over; it does unless told not to.
pub open spec fn is_exclusive(cfg: ConfigFile) -> bool {
    match cfg.exclusive_mode {
        Some(b) => b,
        None => true,
    }
}

/// Whether `after` is `before` with another choice of audio device.
pub open spec fn device_chosen(before: ConfigFile, after: ConfigFile, device: Option<Seq<char>>) -> bool {
    &&& text::opt_view(after.audio_device) == device
    &&& after == (ConfigFile { audio_device: after.audio_device, ..before })
}

/// Whether asking for the device id turns `before` into `after` and gives `id`:
/// an id that is there stays, and one that is not is made up and kept.
pub open spec fn gives_device_id(before: ConfigFile, after: ConfigFile, id: Seq<char>) -> bool {
    &&& id.len() > 0
    &&& after.device_id@ == id
    &&& after == with_device_id(before, after.device_id)
    &&& before.device_id@.len() > 0 ==> after == before
}

/// Whether `after` is `before` with a session for this user on this server.
pub open spec fn session_saved(
    before: ConfigFile,
    after: ConfigFile,
    server_url: Seq<char>,
    user_id: Seq<char>,
) -> bool {
    &&& after.session matches Some(s) && s.server_url@ == server_url && s.user_id@ == user_id
    &&& after.device_id == before.device_id
    &&& after.audio_device == before.audio_device
    &&& after.exclusive_mode == before.exclusive_mode
}

/// The same configuration without a session.
pub open spec fn signed_out(cfg: ConfigFile) -> ConfigFile {
    ConfigFile { session: None, ..cfg }
}

/// What a stored session comes to, given the keyring's answer: nothing without
/// a session, an error if its address does not parse, and signed out if the
/// keyring has no token for it.
pub open spec fn loads_as(cfg: ConfigFile, reply: KeyringReply, r: Result<Option<SavedSession>, Error>) -> bool {
    match cfg.session {
        None => r matches Ok(s) && s is None,
        Some(fields) => match urls::parsed_url(fields.server_url@) {
            Err(why) => r matches Err(Error::Url(w)) && w@ == why,
            Ok(url) => match reply {
                KeyringReply::Token(token) => r matches Ok(Some(s)) && s.server_url@ == url && s.user_id
                    == fields.user_id && s.token == token,
                KeyringReply::NoEntry => r matches Ok(s) && s is None,
                KeyringReply::Failed(why) => r matches Err(Error::Keyring(w)) && w == why,
            },
        },
    }
}

/// The stored data of one configuration directory.
#[derive(Debug)]
pub struct Storage {
    config_dir: String,
    keyring_service: String,
    config: ConfigFile,
}

impl Storage {
    pub closed spec fn dir(&self) -> Seq<char> {
        self.config_dir@
    }

    pub closed spec fn service(&self) -> Seq<char> {
        self.keyring_service@
    }

    pub closed spec fn cfg(&self) -> ConfigFile {
        self.config
    }

    /// Whether only the configuration differs.
    pub open spec fn same_place(&self, other: &Storage) -> bool {
        self.dir() == other.dir() && self.service() == other.service()
    }

    /// Storage in a directory, with tokens under a keyring service, and nothing
    /// stored yet.
    pub fn with_dirs(config_dir: String, keyring_service: String) -> (r: Self)
        ensures
            r.dir() == config_dir@,
            r.service() == keyring_service@,
            r.cfg().is_blank(),
    {
        Storage { config_dir, keyring_service, config: ConfigFile::default() }
    }

    /// Takes over what was read from the configuration file.
    pub fn set_config(&mut self, config: ConfigFile)
        ensures
            final(self).cfg() == config,
            final(self).same_place(old(self)),
    {
        self.config = config;
    }

    /// What the configuration file should hold.
    pub fn config(&self) -> (r: &ConfigFile)
        ensures
            *r == self.cfg(),
    {
        &self.config
    }

    pub fn config_dir(&self) -> (r: &str)
        ensures
            r@ == self.dir(),
    {
        self.config_dir.as_str()
    }

    /// The path of the configuration file.
    pub fn config_path(&self) -> (r: String)
        ensures
            r@ == in_dir(self.dir(), "config.json"@),
    {
        join_file(self.config_dir.as_str(), "config.json")
    }

    /// The path that the file is written to before it takes the place of the
    /// old one.
    pub fn temp_path(&self) -> (r: String)
        ensures
            r@ == in_dir(self.dir(), "config.json.tmp"@),
    {
        join_file(self.config_dir.as_str(), "config.json.tmp")
    }

    /// The device id, made up when it is first asked for and the same from then
    /// on. One that is made up is a random UUID.
    pub fn device_id(&mut self) -> (r: String)
        ensures
            final(self).same_place(old(self)),
            gives_device_id(old(self).cfg(), final(self).cfg(), r@),
            old(self).cfg().device_id@.len() == 0 ==> is_random_uuid(r@),
    {
        if self.config.device_id.as_str().is_empty() {
            self.device_id_from(fresh_uuid())
        } else {
            self.device_id_from(String::new())
        }
    }

    /// The device id, which is `fresh` if there was none.
    pub fn device_id_from(&mut self, fresh: String) -> (r: String)
        ensures
            final(self).same_place(old(self)),
            old(self).cfg().device_id@.len() > 0 ==> r == old(self).cfg().device_id && final(self).cfg()
                == old(self).cfg(),
            old(self).cfg().device_id@.len() == 0 ==> r == fresh && final(self).cfg() == with_device_id(
                old(self).cfg(),
                fresh,
            ),
    {
        if self.config.device_id.as_str().is_empty() {
            self.config.device_id = fresh;
        }
        self.config.device_id.clone()
    }

    /// Where a user's token stands in the keyring.
    pub fn credential(&self, user_id: &str) -> (r: Credential)
        ensures
            r.service@ == self.service(),
            r.account@ == user_id@,
    {
        Credential { service: self.keyring_service.clone(), account: user_id.to_owned() }
    }

    /// Where the token of the stored session stands in the keyring, if there is
    /// a session.
    pub fn session_credential(&self) -> (r: Option<Credential>)
        ensures
            r is Some <==> self.cfg().session is Some,
            r matches Some(c) ==> c.service@ == self.service() && c.account == self.cfg().session->0.user_id,
    {
        match &self.config.session {
            Some(s) => Some(
                Credential { service: self.keyring_service.clone(), account: s.user_id.clone() },
            ),
            None => None,
        }
    }

    /// The stored session, given the keyring's answer for its token.
    pub fn load_session(&self, reply: KeyringReply) -> (r: Result<Option<SavedSession>, Error>)
        ensures
            loads_as(self.cfg(), reply, r),
    {
        let fields = match &self.config.session {
            None => {
                return Ok(None);
            },
            Some(fields) => fields,
        };
        let server_url = match Url::parse(fields.server_url.as_str()) {
            Ok(url) => url,
            Err(e) => {
                return Err(Error::Url(e.why));
            },
        };
        match reply {
            KeyringReply::Token(token) => Ok(
                Some(SavedSession { server_url, user_id: fields.user_id.clone(), token }),
            ),
            KeyringReply::NoEntry => Ok(None),
            KeyringReply::Failed(why) => Err(Error::Keyring(why)),
        }
    }

    /// Stores a session once the keyring has taken its token; `kept` is the
    /// keyring's answer. If it did not, nothing changes.
    pub fn save_session(&mut self, server_url: &Url, user_id: &str, kept: Result<(), String>) -> (r: Result<
        (),
        Error,
    >)
        ensures
            final(self).same_place(old(self)),
            kept is Ok ==> r == Ok::<(), Error>(()) && session_saved(
                old(self).cfg(),
                final(self).cfg(),
                server_url@,
                user_id@,
            ),
            kept matches Err(why) ==> r == Err::<(), Error>(Error::Keyring(why)) && final(self).cfg()
                == old(self).cfg(),
    {
        match kept {
            Err(why) => Err(Error::Keyring(why)),
            Ok(()) => {
                self.config.session = Some(
                    SessionFields {
                        server_url: server_url.as_str().to_owned(),
                        user_id: user_id.to_owned(),
                    },
                );
                Ok(())
            },
        }
    }

    /// Forgets the session. The result says which token is to be deleted from
    /// the keyring. The device id stays.
    pub fn clear_session(&mut self) -> (r: Option<Credential>)
        ensures
            final(self).same_place(old(self)),
            final(self).cfg() == signed_out(old(self).cfg()),
            r is Some <==> old(self).cfg().session is Some,
            r matches Some(c) ==> c.service@ == old(self).service() && c.account
                == old(self).cfg().session->0.user_id,
    {
        let gone = self.session_credential();
        self.config.session = None;
        gone
    }

    /// The preferred audio device, if one is chosen.
    pub fn audio_device(&self) -> (r: Option<String>)
        ensures
            r == chosen_device(self.cfg()),
    {
        match &self.config.audio_device {
            Some(d) => {
                if d.as_str().is_empty() {
                    None
                } else {
                    Some(d.clone())
                }
            },
            None => None,
        }
    }

    /// Chooses the preferred audio device, or none.
    pub fn set_audio_device(&mut self, device: Option<&str>)
        ensures
            final(self).same_place(old(self)),
            device_chosen(
                old(self).cfg(),
                final(self).cfg(),
                match device {
                    Some(d) => Some(d@),
                    None => None,
                },
            ),
    {
        self.config.audio_device = match device {
            Some(d) => Some(d.to_owned()),
            None => None,
        };
    }

    /// Whether music takes the output device over; it does unless told not to.
    pub fn exclusive_mode(&self) -> (r: bool)
        ensures
            r == is_exclusive(self.cfg()),
    {
        match self.config.exclusive_mode {
            Some(b) => b,
            None => true,
        }
    }

    /// Sets whether music takes the output device over.
    pub fn set_exclusive_mode(&mut self, exclusive: bool)
        ensures
            final(self).same_place(old(self)),
            final(self).cfg() == (ConfigFile { exclusive_mode: Some(exclusive), ..old(self).cfg() }),
    {
        self.config.exclusive_mode = Some(exclusive);
    }
}

/// The path of a file in a directory.
pub open spec fn in_dir(dir: Seq<char>, file: Seq<char>) -> Seq<char> {
    if dir.len() == 0 {
        file
    } else if dir.last() == '/' {
        dir + file
    } else {
        dir + "/"@ + file
    }
}

/// The path of a file in a directory.
pub fn join_file(dir: &str, file: &str) -> (r: String)
    ensures
        r@ == in_dir(dir@, file@),
{
    let v = text::chars_of(dir);
    if v.len() == 0 {
        file.to_owned()
    } else if v[v.len() - 1] == '/' {
        text::joined(dir, file)
    } else {
        let mut out = dir.to_owned();
        out.append("/");
        out.append(file);
        out
    }
}

// ------------------------------------------------------------ laws

/// A session that was saved is the session that loads, as long as the keyring
/// gives its token back: the user and the token are the same, and the address is
/// what parsing makes of its text, which is the same where parsing leaves it as
/// it is. Where the text does not parse, the error says why.
pub proof fn law_saved_session_loads(
    before: ConfigFile,
    after: ConfigFile,
    server_url: Seq<char>,
    user_id: Seq<char>,
    token: String,
    r: Result<Option<SavedSession>, Error>,
)
    requires
        session_saved(before, after, server_url, user_id),
        loads_as(after, KeyringReply::Token(token), r),
    ensures
        match urls::parsed_url(server_url) {
            Ok(url) => r matches Ok(Some(s)) && s.server_url@ == url && s.user_id@ == user_id && s.token
                == token,
            Err(why) => r matches Err(Error::Url(w)) && w@ == why,
        },
        urls::is_normal_url(server_url) ==> (r matches Ok(Some(s)) && s.server_url@ == server_url
            && s.user_id@ == user_id && s.token == token),
{
}

/// After signing out there is no session, whatever the keyring holds, and the
/// device id and the audio settings are as they were.
pub proof fn law_signing_out_keeps_the_rest(
    cfg: ConfigFile,
    reply: KeyringReply,
    r: Result<Option<SavedSession>, Error>,
)
    requires
        loads_as(signed_out(cfg), reply, r),
    ensures
        r matches Ok(s) && s is None,
        signed_out(cfg).device_id == cfg.device_id,
        signed_out(cfg).audio_device == cfg.audio_device,
        signed_out(cfg).exclusive_mode == cfg.exclusive_mode,
{
}

/// The device id is the same every time it is asked for, also after signing out
/// and in again.
pub proof fn law_device_id_is_stable(
    first: ConfigFile,
    second: ConfigFile,
    id: Seq<char>,
    server_url: Seq<char>,
    user_id: Seq<char>,
    third: ConfigFile,
    fourth: ConfigFile,
    again: Seq<char>,
)
    requires
        gives_device_id(first, second, id),
        session_saved(signed_out(second), third, server_url, user_id),
        gives_device_id(third, fourth, again),
    ensures
        again == id,
        fourth == third,
{
}

/// An audio device that was chosen is the one that is read back, an empty one
/// counts as none, and choosing it changes nothing else.
pub proof fn law_chosen_device_reads_back(before: ConfigFile, after: ConfigFile, device: Option<Seq<char>>)
    requires
        device_chosen(before, after, device),
    ensures
        text::opt_view(chosen_device(after)) == (if device is Some && device->0.len() > 0 {
            device
        } else {
            None
        }),
        is_exclusive(after) == is_exclusive(before),
        after.device_id == before.device_id,
        after.session == before.session,
{
}

/// Saving a session keeps the device id and the audio settings.
pub proof fn law_saving_keeps_the_rest(
    before: ConfigFile,
    after: ConfigFile,
    server_url: Seq<char>,
    user_id: Seq<char>,
)
    requires
        session_saved(before, after, server_url, user_id),
    ensures
        after.device_id == before.device_id,
        after.audio_device == before.audio_device,
        after.exclusive_mode == before.exclusive_mode,
{
}

/// A file in a directory has the directory before it and its own name behind the
/// last separator, with exactly one separator between them.
pub proof fn law_file_in_directory(dir: Seq<char>, file: Seq<char>)
    ensures
        dir.len() > 0 && dir.last() != '/' ==> in_dir(dir, file) == dir + seq!['/'] + file,
        dir.len() > 0 && dir.last() == '/' ==> in_dir(dir, file) == dir + file,
        dir.len() == 0 ==> in_dir(dir, file) == file,
{
    reveal_strlit("/");
    assert("/"@ =~= seq!['/']);
}

/// Exclusive use of the device is on unless it was turned off, and the setting is
/// what was last set.
pub proof fn law_exclusive_mode(cfg: ConfigFile, on: bool)
    ensures
        is_exclusive(ConfigFile { exclusive_mode: Some(on), ..cfg }) == on,
        is_exclusive(ConfigFile { exclusive_mode: None, ..cfg }),
{
}

/// A stored session gives back its own user and its own token; a keyring without
/// the token means signed out, and one that fails is an error that says why.
pub proof fn law_keyring_answers(
    cfg: ConfigFile,
    token: String,
    why: String,
    r: Result<Option<SavedSession>, Error>,
)
    requires
        cfg.session is Some,
        urls::parsed_url(cfg.session->0.server_url@) is Ok,
    ensures
        loads_as(cfg, KeyringReply::Token(token), r) ==> (r matches Ok(Some(s)) && s.token == token && s.user_id
            == cfg.session->0.user_id && s.server_url@ == urls::parsed_url(cfg.session->0.server_url@)->Ok_0),
        loads_as(cfg, KeyringReply::NoEntry, r) ==> (r matches Ok(s) && s is None),
        loads_as(cfg, KeyringReply::Failed(why), r) ==> (r matches Err(Error::Keyring(w)) && w == why),
{
}

/// A device id that is there is the one that is given; asking for it changes
/// nothing else.
pub proof fn law_device_id_is_kept(before: ConfigFile, after: ConfigFile, id: Seq<char>)
    requires
        gives_device_id(before, after, id),
    ensures
        id.len() > 0,
        after.device_id@ == id,
        before.device_id@.len() > 0 ==> id == before.device_id@,
        after.session == before.session,
        after.audio_device == before.audio_device,
        after.exclusive_mode == before.exclusive_mode,
{
}

/// An error says what went wrong in its own words.
pub proof fn law_errors_carry_their_reason(why: String)
    ensures
        Error::Io(why).words() == "config IO error: "@ + why@,
        Error::Json(why).words() == "config JSON error: "@ + why@,
        Error::Keyring(why).words() == "keyring error: "@ + why@,
        Error::Url(why).words() == "URL parse error: "@ + why@,
{
}

/// A random id has the form of one: lower-case hexadecimal digits in groups of 8,
/// 4, 4, 4 and 12.
pub proof fn law_random_ids(s: Seq<char>, i: int)
    requires
        is_random_uuid(s),
        0 <= i < 36,
    ensures
        s.len() == 36,
        i == 8 || i == 13 || i == 18 || i == 23 ==> s[i] == '-',
        i != 8 && i != 13 && i != 18 && i != 23 ==> ('0' <= s[i] && s[i] <= '9') || ('a' <= s[i] && s[i] <= 'f'),
        s[14] == '4',
{
    if i != 8 && i != 13 && i != 18 && i != 23 {
        assert(is_hex_char(s[i]));
    }
}

} // verus!
