//! Signing in and out, the audio settings, and what each command of the user
//! does.
use crate::browser;
use crate::browser::{play_video, Activation, Browser};
use crate::client::{Client, Error};
use crate::download;
use crate::download::{start_album_download, DownloadStart};
use crate::listing::make_identity;
use crate::nav;
use crate::nav::{root_entry, ChildrenType};
use crate::storage;
use crate::storage::{Credential, SavedSession, Storage};
use crate::text;
use crate::types::{AuthenticationResult, BaseItemDto, ItemsResponse, UserDto};
use crate::urls;
use crate::urls::Url;
use crate::video;
use crate::video::{pick_bitperfect, resolve_device_label, AudioDevice};
use vstd::prelude::*;

verus! {

// ------------------------------------------------------------ signing in

/// Whether a client is set up for a server with an identity and a language.
pub open spec fn is_set_up(
    c: Client,
    base: Seq<char>,
    device_id: Seq<char>,
    version: Seq<char>,
    language: String,
) -> bool {
    &&& c.base() == base
    &&& c.who().client@ == "Jelly"@
    &&& c.who().device@ == "jelly-desktop"@
    &&& c.who().device_id@ == device_id
    &&& c.who().version@ == version
    &&& c.language() == Some(language)
}

/// A client for a session that was stored.
pub fn restore_client(saved: SavedSession, device_id: &str, version: &str, language: String) -> (r: Client)
    ensures
        is_set_up(r, saved.server_url@, device_id@, version@, language),
        r.key() == Some(saved.token),
{
    let identity = make_identity(device_id, version);
    Client::new(saved.server_url, identity).with_accept_language(language).with_token(saved.token)
}

/// An error with what was being done before it.
pub open spec fn in_context(what: Seq<char>, why: Seq<char>) -> Seq<char> {
    what + ": "@ + why
}

fn with_context(what: &str, why: &str) -> (r: String)
    ensures
        r@ == in_context(what@, why@),
{
    let mut out = what.to_owned();
    out.append(": ");
    out.append(why);
    out
}

/// A client for a server that is to be signed in to, or why the address of the
/// server is none.
pub fn begin_sign_in(server: &str, device_id: &str, version: &str, language: String) -> (r: Result<
    Client,
    String,
>)
    ensures
        match urls::parsed_url(server@) {
            Ok(base) => r matches Ok(c) && is_set_up(c, base, device_id@, version@, language)
                && c.key() is None,
            Err(why) => r matches Err(w) && w@ == in_context("invalid URL: "@ + server@, why),
        },
{
    match Url::parse(server) {
        Ok(base) => {
            let identity = make_identity(device_id, version);
            Ok(Client::new(base, identity).with_accept_language(language))
        },
        Err(e) => {
            let what = text::joined("invalid URL: ", server);
            Err(with_context(what.as_str(), e.why.as_str()))
        },
    }
}

/// Somebody who has signed in.
#[derive(Debug)]
pub struct SignedIn {
    pub user: UserDto,
    pub token: String,
}

/// Takes the answer to a sign-in. The client keeps the token even if the answer
/// names no user.
pub fn accept_sign_in(client: &mut Client, answer: Result<AuthenticationResult, String>) -> (r: Result<
    SignedIn,
    String,
>)
    ensures
        final(client).base() == old(client).base(),
        final(client).who() == old(client).who(),
        final(client).language() == old(client).language(),
        match answer {
            Err(why) => {
                &&& r matches Err(w) && w@ == in_context("sign_in"@, why@)
                &&& final(client).key() == old(client).key()
            },
            Ok(a) => match a.access_token {
                None => {
                    &&& r matches Err(w) && w@ == in_context(
                        "sign_in"@,
                        Error::BadAuthResponse("AccessToken").words(),
                    )
                    &&& final(client).key() == old(client).key()
                },
                Some(token) => {
                    &&& final(client).key() == Some(token)
                    &&& match a.user {
                        None => r matches Err(w) && w@ == "auth response had no user"@,
                        Some(user) => r matches Ok(s) && s.user == user && s.token == token,
                    }
                },
            },
        },
{
    let answer = match answer {
        Ok(answer) => answer,
        Err(why) => {
            return Err(with_context("sign_in", why.as_str()));
        },
    };
    let answer = match client.finish_sign_in(answer) {
        Ok(answer) => answer,
        Err(e) => {
            return Err(with_context("sign_in", e.message().as_str()));
        },
    };
    let user = match answer.user {
        Some(user) => user,
        None => {
            return Err("auth response had no user".to_owned());
        },
    };
    match answer.access_token {
        Some(token) => Ok(SignedIn { user, token }),
        None => Err("auth response had no token".to_owned()),
    }
}

/// Takes note of whether the session was stored.
pub fn accept_persist(stored: Result<(), storage::Error>) -> (r: Result<(), String>)
    ensures
        match stored {
            Ok(()) => r is Ok,
            Err(e) => r matches Err(w) && w@ == in_context("persist session"@, e.words()),
        },
{
    match stored {
        Ok(()) => Ok(()),
        Err(e) => Err(with_context("persist session", e.message().as_str())),
    }
}

/// Takes the libraries that the user has access to.
pub fn accept_views(answer: Result<ItemsResponse, String>) -> (r: Result<Vec<BaseItemDto>, String>)
    ensures
        match answer {
            Ok(resp) => r == Ok::<Vec<BaseItemDto>, String>(resp.items),
            Err(why) => r matches Err(w) && w@ == in_context("user_views"@, why@),
        },
{
    match answer {
        Ok(resp) => Ok(resp.items),
        Err(why) => Err(with_context("user_views", why.as_str())),
    }
}

/// Forgets a stored session whose token the server has refused. The result says
/// which token is to be deleted, and which server to offer for signing in.
pub fn reject_session(stored: &mut Storage, server_url: &Url) -> (r: (Option<Credential>, String))
    ensures
        final(stored).same_place(old(stored)),
        final(stored).cfg() == storage::signed_out(old(stored).cfg()),
        r.0 is Some <==> old(stored).cfg().session is Some,
        r.0 matches Some(c) ==> c.account == old(stored).cfg().session->0.user_id && c.service@
            == old(stored).service(),
        r.1@ == server_url@,
{
    let gone = stored.clear_session();
    (gone, server_url.as_str().to_owned())
}

/// A library in the list of libraries.
#[derive(Debug)]
pub struct ViewItem {
    pub id: String,
    pub name: String,
    pub collection_type: String,
}

/// Whether `v` is the entry of a library.
pub open spec fn is_view_item(v: ViewItem, view: BaseItemDto) -> bool {
    &&& v.id == view.id
    &&& v.name@ == text::or_empty(view.name)
    &&& v.collection_type@ == text::or_empty(view.collection_type)
}

/// The list of libraries, and which of them is selected: the first, or -1 if
/// there is none.
pub fn list_views(views: &Vec<BaseItemDto>) -> (r: (Vec<ViewItem>, i32))
    ensures
        r.0@.len() == views@.len(),
        forall|i: int| 0 <= i < views@.len() ==> is_view_item(#[trigger] r.0@[i], views@[i]),
        r.1 == (if views@.len() > 0 {
            0int
        } else {
            -1
        }),
{
    let mut out: Vec<ViewItem> = Vec::new();
    let mut i: usize = 0;
    while i < views.len()
        invariant
            i <= views@.len(),
            out@.len() == i,
            forall|j: int| 0 <= j < i ==> is_view_item(#[trigger] out@[j], views@[j]),
        decreases views@.len() - i,
    {
        let v = &views[i];
        out.push(
            ViewItem {
                id: v.id.clone(),
                name: text::text_or_empty(&v.name),
                collection_type: text::text_or_empty(&v.collection_type),
            },
        );
        i = i + 1;
    }
    let selected: i32 = if views.len() > 0 {
        0
    } else {
        -1
    };
    (out, selected)
}

/// Opens the first library, if there is one. Says whether it did.
pub fn open_first_view(walk: &mut Browser, views: &Vec<BaseItemDto>) -> (r: bool)
    ensures
        r == (views@.len() > 0),
        r ==> final(walk).levels().len() == 1 && nav::is_root(
            final(walk).levels()[0],
            views@[0].id@,
            text::or_empty(views@[0].collection_type),
        ),
        !r ==> final(walk).levels() == old(walk).levels(),
        final(walk).keeps_items(old(walk)),
        final(walk).album() == old(walk).album(),
{
    if views.len() == 0 {
        return false;
    }
    walk.open_library(nav::library_root_entry(&views[0]));
    true
}

// ------------------------------------------------------------ audio settings

/// The audio settings as they are shown.
#[derive(Debug)]
pub struct AudioSettings {
    pub device_id: String,
    pub label: String,
    pub exclusive: bool,
}

/// The id of the stored audio device; empty if none is chosen.
pub open spec fn stored_id(cfg: storage::ConfigFile) -> Seq<char> {
    text::or_empty(storage::chosen_device(cfg))
}

/// The audio settings before the devices are known: a device shows as its id.
pub fn initial_audio_state(stored: &Storage) -> (r: AudioSettings)
    ensures
        r.device_id@ == stored_id(stored.cfg()),
        r.label@ == video::label_of(Seq::empty(), stored_id(stored.cfg())),
        r.exclusive == storage::is_exclusive(stored.cfg()),
{
    let device_id = text::text_or_empty(&stored.audio_device());
    let none: Vec<AudioDevice> = Vec::new();
    let label = resolve_device_label(&none, device_id.as_str());
    assert(none@ =~= Seq::empty());
    AudioSettings { device_id, label, exclusive: stored.exclusive_mode() }
}

/// The device that is chosen without asking, if any: on a fresh install, the
/// first one that no mixer stands before.
pub fn auto_pick(stored: &Storage, devices: &Vec<AudioDevice>, allowed: bool) -> (r: Option<AudioDevice>)
    ensures
        r == (if allowed && stored_id(stored.cfg()).len() == 0 {
            video::first_bitperfect(devices@)
        } else {
            None
        }),
{
    if !allowed {
        return None;
    }
    match stored.audio_device() {
        Some(_) => None,
        None => pick_bitperfect(devices),
    }
}

/// The selection to be shown once the devices are known: what is stored, or
/// what was picked and could be stored.
pub fn refreshed_selection(stored: &Storage, picked: Option<AudioDevice>, kept: bool, devices: &Vec<
    AudioDevice,
>) -> (r: (String, String))
    ensures
        r.0@ == (if picked is Some && kept {
            picked->0.id@
        } else {
            stored_id(stored.cfg())
        }),
        r.1@ == video::label_of(devices@, r.0@),
{
    let id = match picked {
        Some(d) => {
            if kept {
                d.id
            } else {
                text::text_or_empty(&stored.audio_device())
            }
        },
        None => text::text_or_empty(&stored.audio_device()),
    };
    let label = resolve_device_label(devices, id.as_str());
    (id, label)
}

// ------------------------------------------------------------ commands

/// What the user can ask for.
#[derive(Debug)]
pub enum BackendCmd {
    SignIn { server: String, user: String, pw: String },
    SignOut,
    SelectView { view_id: String, collection_type: String },
    ActivateItem { item_id: String, item_type: String },
    GoBack,
    RefreshDevices,
    SelectAudioDevice { id: String },
    SetExclusiveMode { value: bool },
    DownloadAlbum,
    /// Play what the page on top is about.
    PlayDetail,
    /// Download what the page on top is about.
    DownloadDetail,
}

/// A sign-in that was asked for.
#[derive(Debug)]
pub struct SignInAttempt {
    pub server: String,
    pub user: String,
    pub pw: String,
}

/// What a command means while nobody is signed in: only a sign-in does anything.
pub fn signed_out_command(cmd: BackendCmd) -> (r: Option<SignInAttempt>)
    ensures
        r == (match cmd {
            BackendCmd::SignIn { server, user, pw } => Some(SignInAttempt { server, user, pw }),
            _ => None,
        }),
{
    match cmd {
        BackendCmd::SignIn { server, user, pw } => Some(SignInAttempt { server, user, pw }),
        _ => None,
    }
}

/// What is to be done about a command.
#[derive(Debug)]
pub enum Step {
    /// Show the level on top.
    ShowLevel,
    Clicked(Activation),
    /// Delete this token, if there is one, and show the sign-in.
    SignedOut(Option<Credential>),
    RefreshDevices,
    DeviceSelected { id: String, label: String },
    ExclusiveSet(bool),
    Download(DownloadStart),
    /// Nothing.
    Ignored,
}

/// The item that a command may play, if it may play one.
pub open spec fn playable_id(walk: Browser, cmd: BackendCmd) -> Option<Seq<char>> {
    match cmd {
        BackendCmd::ActivateItem { item_id, item_type } => if browser::is_leaf(item_type@) {
            Some(item_id@)
        } else {
            None
        },
        BackendCmd::PlayDetail => if walk.levels().len() > 0 && walk.levels().last().children is MovieDetail {
            Some(walk.levels().last().parent_id@)
        } else {
            None
        },
        _ => None,
    }
}

/// The item that a command may play, if it may play one: the client's base must
/// have room for its address before the command is carried out.
pub fn item_to_play(walk: &Browser, cmd: &BackendCmd) -> (r: Option<String>)
    ensures
        text::opt_view(r) == playable_id(*walk, *cmd),
{
    match cmd {
        BackendCmd::ActivateItem { item_id, item_type } => {
            if browser::plays(item_type.as_str()) {
                Some(item_id.clone())
            } else {
                None
            }
        },
        BackendCmd::PlayDetail => match walk.top() {
            Some(top) => match &top.children {
                ChildrenType::MovieDetail => Some(top.parent_id.clone()),
                _ => None,
            },
            None => None,
        },
        _ => None,
    }
}

/// Whether two states of a walk are alike.
pub open spec fn same_walk(a: Browser, b: Browser) -> bool {
    &&& a.levels() == b.levels()
    &&& a.listed() == b.listed()
    &&& a.number() == b.number()
    &&& a.album() == b.album()
}

/// What a command does while somebody is signed in.
pub open spec fn obeyed(
    before: Browser,
    after: Browser,
    client: Client,
    cfg: storage::ConfigFile,
    cfg_after: storage::ConfigFile,
    devices: Seq<AudioDevice>,
    cmd: BackendCmd,
    r: Step,
) -> bool {
    match cmd {
        BackendCmd::SelectView { view_id, collection_type } => {
            &&& r is ShowLevel
            &&& after.levels().len() == 1
            &&& nav::is_root(after.levels()[0], view_id@, collection_type@)
            &&& after.keeps_items(&before)
            &&& after.album() == before.album()
            &&& cfg_after == cfg
        },
        BackendCmd::ActivateItem { item_id, item_type } => {
            &&& r matches Step::Clicked(a)
            &&& browser::clicked(before, after, a, client, cfg, item_id@, item_type@)
            &&& after.keeps_items(&before)
            &&& cfg_after == cfg
        },
        BackendCmd::GoBack => {
            &&& if before.levels().len() > 1 {
                r is ShowLevel && after.levels() == before.levels().drop_last()
            } else {
                r is Ignored && after.levels() == before.levels()
            }
            &&& after.keeps_items(&before)
            &&& after.album() == before.album()
            &&& cfg_after == cfg
        },
        BackendCmd::SignOut => {
            &&& r matches Step::SignedOut(gone)
            &&& gone is Some <==> cfg.session is Some
            &&& gone matches Some(c) ==> c.account == cfg.session->0.user_id
            &&& cfg_after == storage::signed_out(cfg)
            &&& same_walk(after, before)
        },
        BackendCmd::RefreshDevices => {
            &&& r is RefreshDevices
            &&& cfg_after == cfg
            &&& same_walk(after, before)
        },
        BackendCmd::SelectAudioDevice { id } => {
            &&& r matches Step::DeviceSelected { id: shown, label }
            &&& shown == id
            &&& label@ == video::label_of(devices, id@)
            &&& storage::device_chosen(
                cfg,
                cfg_after,
                if id@.len() == 0 {
                    None
                } else {
                    Some(id@)
                },
            )
            &&& same_walk(after, before)
        },
        BackendCmd::SetExclusiveMode { value } => {
            &&& r matches Step::ExclusiveSet(v)
            &&& v == value
            &&& cfg_after == (storage::ConfigFile { exclusive_mode: Some(value), ..cfg })
            &&& same_walk(after, before)
        },
        BackendCmd::DownloadAlbum => {
            let top = if before.levels().len() > 0 {
                Some(before.levels().last())
            } else {
                None
            };
            &&& r matches Step::Download(d)
            &&& if !download::is_album_level(top) {
                d is NoAlbum
            } else if before.listed().len() == 0 {
                d is NoTracks
            } else if client.key() is None {
                d is NoToken
            } else {
                d matches DownloadStart::Started(job) && download::is_job(
                    job,
                    top->0,
                    before.listed(),
                    client.key()->0@,
                )
            }
            &&& cfg_after == cfg
            &&& same_walk(after, before)
        },
        BackendCmd::PlayDetail => {
            &&& match playable_id(before, cmd) {
                None => r is Ignored,
                Some(id) => {
                    &&& r matches Step::Clicked(a)
                    &&& if client.key() is None {
                        a is NoToken
                    } else {
                        &&& a matches Activation::PlayVideo { url, audio_device }
                        &&& browser::is_stream(url@, client, "Videos"@, id)
                        &&& audio_device == storage::chosen_device(cfg)
                    }
                },
            }
            &&& cfg_after == cfg
            &&& same_walk(after, before)
        },
        BackendCmd::DownloadDetail => {
            &&& r is Ignored
            &&& cfg_after == cfg
            &&& same_walk(after, before)
        },
        BackendCmd::SignIn { .. } => {
            &&& r is Ignored
            &&& cfg_after == cfg
            &&& same_walk(after, before)
        },
    }
}

/// Carries out a command while somebody is signed in, as far as that is
/// possible here, and says what is left to be done.
pub fn signed_in_command(
    walk: &mut Browser,
    client: &Client,
    stored: &mut Storage,
    devices: &Vec<AudioDevice>,
    cmd: BackendCmd,
) -> (r: Step)
    requires
        playable_id(*old(walk), cmd) matches Some(id) ==> browser::can_stream(*client, id),
    ensures
        obeyed(
            *old(walk),
            *final(walk),
            *client,
            old(stored).cfg(),
            final(stored).cfg(),
            devices@,
            cmd,
            r,
        ),
        final(stored).same_place(old(stored)),
        r matches Step::SignedOut(Some(c)) ==> c.service@ == old(stored).service(),
{
    match cmd {
        BackendCmd::SelectView { view_id, collection_type } => {
            walk.open_library(root_entry(view_id, collection_type));
            Step::ShowLevel
        },
        BackendCmd::ActivateItem { item_id, item_type } => Step::Clicked(
            walk.activate(client, stored, item_id.as_str(), item_type.as_str()),
        ),
        BackendCmd::GoBack => {
            if walk.go_back() {
                Step::ShowLevel
            } else {
                Step::Ignored
            }
        },
        BackendCmd::SignOut => Step::SignedOut(stored.clear_session()),
        BackendCmd::RefreshDevices => Step::RefreshDevices,
        BackendCmd::SelectAudioDevice { id } => {
            if id.as_str().is_empty() {
                stored.set_audio_device(None);
            } else {
                stored.set_audio_device(Some(id.as_str()));
            }
            let label = resolve_device_label(devices, id.as_str());
            Step::DeviceSelected { id, label }
        },
        BackendCmd::SetExclusiveMode { value } => {
            stored.set_exclusive_mode(value);
            Step::ExclusiveSet(value)
        },
        BackendCmd::DownloadAlbum => Step::Download(
            start_album_download(walk.top(), walk.items(), client.token()),
        ),
        BackendCmd::PlayDetail => play_top(walk, client, stored),
        BackendCmd::DownloadDetail => Step::Ignored,
        BackendCmd::SignIn { .. } => Step::Ignored,
    }
}

/// Plays the film that the page on top is about, if there is one.
fn play_top(walk: &Browser, client: &Client, stored: &Storage) -> (r: Step)
    requires
        playable_id(*walk, BackendCmd::PlayDetail) matches Some(id) ==> browser::can_stream(*client, id),
    ensures
        match playable_id(*walk, BackendCmd::PlayDetail) {
            None => r is Ignored,
            Some(id) => {
                &&& r matches Step::Clicked(a)
                &&& if client.key() is None {
                    a is NoToken
                } else {
                    &&& a matches Activation::PlayVideo { url, audio_device }
                    &&& browser::is_stream(url@, *client, "Videos"@, id)
                    &&& audio_device == storage::chosen_device(stored.cfg())
                }
            },
        },
{
    match walk.top() {
        None => Step::Ignored,
        Some(top) => match &top.children {
            ChildrenType::MovieDetail => Step::Clicked(
                play_video(client, stored, top.parent_id.as_str()),
            ),
            _ => Step::Ignored,
        },
    }
}

// ------------------------------------------------------------ laws

/// Signing out forgets the session and nothing else; no other command touches
/// it. No command changes the device id.
pub proof fn law_only_signing_out_ends_a_session(
    before: Browser,
    after: Browser,
    client: Client,
    cfg: storage::ConfigFile,
    cfg_after: storage::ConfigFile,
    devices: Seq<AudioDevice>,
    cmd: BackendCmd,
    r: Step,
)
    requires
        obeyed(before, after, client, cfg, cfg_after, devices, cmd, r),
    ensures
        cfg_after.device_id == cfg.device_id,
        cmd is SignOut ==> cfg_after.session is None,
        !(cmd is SignOut) ==> cfg_after.session == cfg.session,
{
}

/// Once a level is open, no command leaves the walk without one, and a level is
/// only ever to be shown when one is open.
pub proof fn law_a_level_stays_open(
    before: Browser,
    after: Browser,
    client: Client,
    cfg: storage::ConfigFile,
    cfg_after: storage::ConfigFile,
    devices: Seq<AudioDevice>,
    cmd: BackendCmd,
    r: Step,
)
    requires
        obeyed(before, after, client, cfg, cfg_after, devices, cmd, r),
    ensures
        before.levels().len() > 0 ==> after.levels().len() > 0,
        r is ShowLevel ==> after.levels().len() > 0,
{
}

/// A command that only asks or refuses changes nothing: neither the walk nor
/// what is stored.
pub proof fn law_ignored_commands_change_nothing(
    before: Browser,
    after: Browser,
    client: Client,
    cfg: storage::ConfigFile,
    cfg_after: storage::ConfigFile,
    devices: Seq<AudioDevice>,
    cmd: BackendCmd,
    r: Step,
)
    requires
        obeyed(before, after, client, cfg, cfg_after, devices, cmd, r),
        r is Ignored || r is RefreshDevices || r is Download,
    ensures
        same_walk(after, before),
        cfg_after == cfg,
{
}

/// A command does what it says: choosing a library opens it alone, going back
/// closes the level on top, a device or a mode that is chosen is stored and
/// shown, and signing out names the token of the session that was stored.
pub proof fn law_commands_do_what_they_say(
    before: Browser,
    after: Browser,
    client: Client,
    cfg: storage::ConfigFile,
    cfg_after: storage::ConfigFile,
    devices: Seq<AudioDevice>,
    cmd: BackendCmd,
    r: Step,
)
    requires
        obeyed(before, after, client, cfg, cfg_after, devices, cmd, r),
    ensures
        cmd matches BackendCmd::SelectView { view_id, collection_type } ==> {
            &&& r is ShowLevel
            &&& after.levels().len() == 1
            &&& after.levels()[0].parent_id@ == view_id@
            &&& after.levels()[0].children matches ChildrenType::LibraryRoot { collection_type: ct } && ct@
                == collection_type@
            &&& cfg_after == cfg
        },
        cmd is GoBack && before.levels().len() > 1 ==> r is ShowLevel && after.levels()
            == before.levels().drop_last(),
        cmd is GoBack && before.levels().len() <= 1 ==> r is Ignored && after.levels() == before.levels(),
        cmd matches BackendCmd::SelectAudioDevice { id } ==> {
            &&& text::opt_view(storage::chosen_device(cfg_after)) == (if id@.len() > 0 {
                Some(id@)
            } else {
                None
            })
            &&& storage::is_exclusive(cfg_after) == storage::is_exclusive(cfg)
            &&& cfg_after.session == cfg.session
            &&& r matches Step::DeviceSelected { id: shown, label } && shown == id && label@
                == video::label_of(devices, id@)
        },
        cmd matches BackendCmd::SetExclusiveMode { value } ==> {
            &&& storage::is_exclusive(cfg_after) == value
            &&& storage::chosen_device(cfg_after) == storage::chosen_device(cfg)
            &&& cfg_after.session == cfg.session
            &&& r == Step::ExclusiveSet(value)
        },
        cmd is SignOut ==> {
            &&& r matches Step::SignedOut(gone)
            &&& cfg.session is Some ==> gone is Some && gone->0.account == cfg.session->0.user_id
            &&& cfg.session is None ==> gone is None
            &&& cfg_after.session is None
            &&& cfg_after.audio_device == cfg.audio_device
        },
{
}

/// Playing from a page plays the film that the page is about, and nothing where
/// the level on top is no such page.
pub proof fn law_page_plays_its_film(
    before: Browser,
    after: Browser,
    client: Client,
    cfg: storage::ConfigFile,
    cfg_after: storage::ConfigFile,
    devices: Seq<AudioDevice>,
    r: Step,
)
    requires
        obeyed(before, after, client, cfg, cfg_after, devices, BackendCmd::PlayDetail, r),
    ensures
        before.levels().len() == 0 || !(before.levels().last().children is MovieDetail) ==> r is Ignored,
        before.levels().len() > 0 && before.levels().last().children is MovieDetail && client.key() is Some ==> {
            &&& r matches Step::Clicked(Activation::PlayVideo { url, audio_device })
            &&& url@ == urls::with_pairs(
                urls::extended_path(
                    client.base(),
                    seq!["Videos"@, before.levels().last().parent_id@, "stream"@],
                ),
                seq![("static"@, "true"@), ("api_key"@, client.key()->0@)],
            )
            &&& audio_device == storage::chosen_device(cfg)
        },
        before.levels().len() > 0 && before.levels().last().children is MovieDetail && client.key() is None ==> (
        r matches Step::Clicked(a) && a is NoToken),
{
}

/// A download takes the tracks of the album on screen, with the token at hand.
pub proof fn law_download_takes_what_is_on_screen(
    before: Browser,
    after: Browser,
    client: Client,
    cfg: storage::ConfigFile,
    cfg_after: storage::ConfigFile,
    devices: Seq<AudioDevice>,
    r: Step,
    i: int,
)
    requires
        obeyed(before, after, client, cfg, cfg_after, devices, BackendCmd::DownloadAlbum, r),
        before.levels().len() > 0,
        before.levels().last().children is Tracks,
        0 <= i < before.listed().len(),
        client.key() is Some,
    ensures
        r matches Step::Download(DownloadStart::Started(job)) && job.tracks@.len() == before.listed().len()
            && job.tracks@[i].id == before.listed()[i].id && job.token@ == client.key()->0@ && job.album_id
            == before.levels().last().parent_id && job.album_name == before.levels().last().title,
{
    match r {
        Step::Download(DownloadStart::Started(job)) => {
            download::law_download_covers_the_album(
                job,
                before.levels().last(),
                before.listed(),
                client.key()->0@,
                i,
            );
        },
        _ => {},
    }
}

/// A client that is set up goes to its own server and says who asks: this
/// program, with the id of this device.
pub proof fn law_client_is_set_up(
    c: Client,
    base: Seq<char>,
    device_id: Seq<char>,
    version: Seq<char>,
    language: String,
)
    requires
        is_set_up(c, base, device_id, version, language),
    ensures
        c.base() == base,
        c.who().device_id@ == device_id,
        c.who().version@ == version,
        c.who().client@ == "Jelly"@,
        c.language() == Some(language),
{
}

/// An error that comes up on the way says what was being done, then why it failed.
pub proof fn law_errors_say_what_was_being_done(what: Seq<char>, why: Seq<char>)
    ensures
        in_context(what, why) == what + seq![':', ' '] + why,
{
    reveal_strlit(": ");
    assert(": "@ =~= seq![':', ' ']);
}

/// A library in the list is shown with its own id, name and type.
pub proof fn law_listed_library(v: ViewItem, view: BaseItemDto)
    requires
        is_view_item(v, view),
    ensures
        v.id == view.id,
        view.name is Some ==> v.name@ == view.name->0@,
        view.collection_type is Some ==> v.collection_type@ == view.collection_type->0@,
{
}

/// The device that is shown as selected is the one that is stored, and none where
/// none is.
pub proof fn law_stored_device(cfg: storage::ConfigFile)
    ensures
        cfg.audio_device is Some ==> stored_id(cfg) == cfg.audio_device->0@,
        cfg.audio_device is None ==> stored_id(cfg).len() == 0,
{
}

/// The item that a command may play is the one that was clicked, if a click plays
/// its type, or the film whose page is on top.
pub proof fn law_playable_item(walk: Browser, cmd: BackendCmd)
    ensures
        cmd matches BackendCmd::ActivateItem { item_id, item_type } ==> playable_id(walk, cmd) == (if item_type@
            == "Episode"@ || item_type@ == "Video"@ || item_type@ == "Audio"@ {
            Some(item_id@)
        } else {
            None
        }),
        cmd is PlayDetail && walk.levels().len() > 0 && walk.levels().last().children is MovieDetail
            ==> playable_id(walk, cmd) == Some(walk.levels().last().parent_id@),
        !(cmd is ActivateItem) && !(cmd is PlayDetail) ==> playable_id(walk, cmd) is None,
{
}

} // verus!
