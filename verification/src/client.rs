//! Requests to a media server, and what its answers mean.
//!
//! A [`Client`] holds what every request needs and describes each request as a
//! [`Request`]; sending it and decoding the answer is up to the caller.
use crate::auth;
use crate::auth::{authorization_header, Identity};
use crate::playback::{PlaybackProgressInfo, PlaybackStartInfo, PlaybackStopInfo};
use crate::text;
use crate::types;
use crate::types::{AuthenticationResult, ItemType};
use crate::urls;
use crate::urls::Url;
use vstd::prelude::*;

verus! {

/// What can go wrong with a request.
#[derive(Debug, Clone)]
pub enum Error {
    Http(String),
    Json(String),
    Url(String),
    Server { status: u16, body: String },
    BadAuthResponse(&'static str),
    NotAuthenticated,
    InvalidHeader(String),
}

impl Error {
    /// The error in words.
    pub open spec fn words(&self) -> Seq<char> {
        match *self {
            Error::Http(why) => "HTTP request failed: "@ + why@,
            Error::Json(why) => "JSON decode failed: "@ + why@,
            Error::Url(why) => "URL parse failed: "@ + why@,
            Error::Server { status, body } => "server returned "@ + text::decimal(status as nat) + ": "@
                + body@,
            Error::BadAuthResponse(field) => "authentication response missing required field: "@
                + field@,
            Error::NotAuthenticated => "not authenticated — call sign_in() first"@,
            Error::InvalidHeader(why) => "invalid header value: "@ + why@,
        }
    }

    /// The error in words.
    pub fn message(&self) -> (r: String)
        ensures
            r@ == self.words(),
    {
        match self {
            Error::Http(why) => text::joined("HTTP request failed: ", why.as_str()),
            Error::Json(why) => text::joined("JSON decode failed: ", why.as_str()),
            Error::Url(why) => text::joined("URL parse failed: ", why.as_str()),
            Error::Server { status, body } => {
                let mut out = "server returned ".to_owned();
                text::push_decimal(&mut out, *status as u64);
                out.append(": ");
                out.append(body.as_str());
                out
            },
            Error::BadAuthResponse(field) => text::joined(
                "authentication response missing required field: ",
                field,
            ),
            Error::NotAuthenticated => "not authenticated — call sign_in() first".to_owned(),
            Error::InvalidHeader(why) => text::joined("invalid header value: ", why.as_str()),
        }
    }
}

// ------------------------------------------------------------ queries

/// The order of a listing.
#[derive(Debug, Clone, Copy, PartialEq, Eq, Structural)]
pub enum SortOrder {
    Ascending,
    Descending,
}

impl SortOrder {
    /// The name of the order in queries.
    pub open spec fn name(self) -> Seq<char> {
        match self {
            SortOrder::Ascending => "Ascending"@,
            SortOrder::Descending => "Descending"@,
        }
    }

    /// The name of the order in queries.
    pub fn as_str(self) -> (r: &'static str)
        ensures
            r@ == self.name(),
    {
        match self {
            SortOrder::Ascending => "Ascending",
            SortOrder::Descending => "Descending",
        }
    }
}

/// Which items to list, and how. Everything is optional.
#[derive(Debug, Clone)]
pub struct ItemsQuery {
    pub parent_id: Option<String>,
    pub include_item_types: Vec<ItemType>,
    pub sort_by: Vec<String>,
    pub sort_order: Option<SortOrder>,
    pub limit: Option<u32>,
    pub start_index: Option<u32>,
    pub recursive: Option<bool>,
    pub fields: Vec<String>,
    pub search_term: Option<String>,
    pub artist_ids: Vec<String>,
    pub album_artist_ids: Vec<String>,
}

impl Default for ItemsQuery {
    fn default() -> (r: Self)
        ensures
            r.is_empty(),
    {
        ItemsQuery {
            parent_id: None,
            include_item_types: Vec::new(),
            sort_by: Vec::new(),
            sort_order: None,
            limit: None,
            start_index: None,
            recursive: None,
            fields: Vec::new(),
            search_term: None,
            artist_ids: Vec::new(),
            album_artist_ids: Vec::new(),
        }
    }
}

/// A parameter that is there only if its value is.
pub open spec fn opt_pair(name: Seq<char>, value: Option<Seq<char>>) -> Seq<(Seq<char>, Seq<char>)> {
    match value {
        Some(v) => seq![(name, v)],
        None => Seq::empty(),
    }
}

/// A parameter that lists values between commas, if there are any.
pub open spec fn list_pair(name: Seq<char>, values: Seq<Seq<char>>) -> Seq<(Seq<char>, Seq<char>)> {
    if values.len() == 0 {
        Seq::empty()
    } else {
        seq![(name, text::join(values, ","@))]
    }
}

/// `true` or `false`.
pub open spec fn bool_text(b: bool) -> Seq<char> {
    if b {
        "true"@
    } else {
        "false"@
    }
}

/// The digits of an optional number.
pub open spec fn opt_decimal(n: Option<u32>) -> Option<Seq<char>> {
    match n {
        Some(n) => Some(text::decimal(n as nat)),
        None => None,
    }
}

/// The names of item types.
pub open spec fn type_names(types: Seq<ItemType>) -> Seq<Seq<char>> {
    types.map_values(|t: ItemType| t.name())
}

impl ItemsQuery {
    /// Whether nothing is asked for in particular.
    pub open spec fn is_empty(&self) -> bool {
        &&& self.parent_id is None
        &&& self.include_item_types@.len() == 0
        &&& self.sort_by@.len() == 0
        &&& self.sort_order is None
        &&& self.limit is None
        &&& self.start_index is None
        &&& self.recursive is None
        &&& self.fields@.len() == 0
        &&& self.search_term is None
        &&& self.artist_ids@.len() == 0
        &&& self.album_artist_ids@.len() == 0
    }

    /// The parameters of the query, in order: each is there only if it says
    /// something.
    pub open spec fn pairs(&self) -> Seq<(Seq<char>, Seq<char>)> {
        opt_pair("ParentId"@, text::opt_view(self.parent_id)) + list_pair(
            "IncludeItemTypes"@,
            type_names(self.include_item_types@),
        ) + list_pair("SortBy"@, text::texts(self.sort_by@)) + opt_pair(
            "SortOrder"@,
            match self.sort_order {
                Some(o) => Some(o.name()),
                None => None,
            },
        ) + opt_pair("Limit"@, opt_decimal(self.limit)) + opt_pair(
            "StartIndex"@,
            opt_decimal(self.start_index),
        ) + opt_pair(
            "Recursive"@,
            match self.recursive {
                Some(b) => Some(bool_text(b)),
                None => None,
            },
        ) + list_pair("Fields"@, text::texts(self.fields@)) + opt_pair(
            "SearchTerm"@,
            text::opt_view(self.search_term),
        ) + list_pair("ArtistIds"@, text::texts(self.artist_ids@)) + list_pair(
            "AlbumArtistIds"@,
            text::texts(self.album_artist_ids@),
        )
    }

    /// The parameters of the query, in order.
    pub fn to_pairs(&self) -> (r: Vec<(String, String)>)
        ensures
            urls::pair_texts(r@) == self.pairs(),
    {
        let mut v: Vec<(String, String)> = Vec::new();
        add_opt(&mut v, "ParentId", text::copy_opt(&self.parent_id));
        assert(urls::pair_texts(v@) =~= opt_pair("ParentId"@, text::opt_view(self.parent_id)));
        let types = names_of(&self.include_item_types);
        add_list(&mut v, "IncludeItemTypes", &types);
        add_list(&mut v, "SortBy", &self.sort_by);
        let order = match self.sort_order {
            Some(o) => Some(o.as_str().to_owned()),
            None => None,
        };
        add_opt(&mut v, "SortOrder", order);
        add_opt(&mut v, "Limit", decimal_opt(self.limit));
        add_opt(&mut v, "StartIndex", decimal_opt(self.start_index));
        let recursive = match self.recursive {
            Some(true) => Some("true".to_owned()),
            Some(false) => Some("false".to_owned()),
            None => None,
        };
        add_opt(&mut v, "Recursive", recursive);
        add_list(&mut v, "Fields", &self.fields);
        add_opt(&mut v, "SearchTerm", text::copy_opt(&self.search_term));
        add_list(&mut v, "ArtistIds", &self.artist_ids);
        add_list(&mut v, "AlbumArtistIds", &self.album_artist_ids);
        v
    }
}

/// The digits of an optional number.
fn decimal_opt(n: Option<u32>) -> (r: Option<String>)
    ensures
        text::opt_view(r) == opt_decimal(n),
{
    match n {
        Some(n) => Some(text::decimal_of(n as u64)),
        None => None,
    }
}

/// Adds a parameter if it has a value.
fn add_opt(pairs: &mut Vec<(String, String)>, name: &str, value: Option<String>)
    ensures
        urls::pair_texts(final(pairs)@) == urls::pair_texts(old(pairs)@) + opt_pair(
            name@,
            text::opt_view(value),
        ),
{
    let ghost given = text::opt_view(value);
    if let Some(v) = value {
        urls::add_pair(pairs, name, v);
    }
    assert(urls::pair_texts(pairs@) =~= urls::pair_texts(old(pairs)@) + opt_pair(name@, given));
}

/// Adds a parameter that lists values between commas, if there are any.
fn add_list(pairs: &mut Vec<(String, String)>, name: &str, values: &Vec<String>)
    ensures
        urls::pair_texts(final(pairs)@) == urls::pair_texts(old(pairs)@) + list_pair(
            name@,
            text::texts(values@),
        ),
{
    if values.len() > 0 {
        urls::add_pair(pairs, name, text::join_texts(values, ","));
    }
    assert(urls::pair_texts(pairs@) =~= urls::pair_texts(old(pairs)@) + list_pair(
        name@,
        text::texts(values@),
    ));
}

/// The names of item types.
fn names_of(types: &Vec<ItemType>) -> (r: Vec<String>)
    ensures
        text::texts(r@) == type_names(types@),
{
    let mut out: Vec<String> = Vec::new();
    let mut i: usize = 0;
    while i < types.len()
        invariant
            i <= types@.len(),
            text::texts(out@) == type_names(types@).take(i as int),
        decreases types@.len() - i,
    {
        let ghost before = text::texts(out@);
        out.push(types::item_type_as_str(&types[i]));
        assert(text::texts(out@) =~= before.push(types@[i as int].name()));
        assert(type_names(types@).take(i + 1) =~= type_names(types@).take(i as int).push(
            types@[i as int].name(),
        ));
        i = i + 1;
    }
    assert(type_names(types@).take(types@.len() as int) =~= type_names(types@));
    out
}

/// A query that asks for nothing in particular has no parameters.
pub proof fn law_empty_query_has_no_pairs(q: ItemsQuery)
    requires
        q.is_empty(),
    ensures
        q.pairs() == Seq::<(Seq<char>, Seq<char>)>::empty(),
{
}

// ------------------------------------------------------------ requests

/// The header that carries the identity on servers of every age.
pub open spec fn legacy_header() -> Seq<char> {
    "X-Emby-Authorization"@
}

#[derive(Debug, Clone, Copy, PartialEq, Eq, Structural)]
pub enum Method {
    Get,
    Post,
}

/// What a request sends along.
#[derive(Debug, Clone)]
pub enum Body {
    Empty,
    SignIn { username: String, pw: String },
    PlaybackStart(PlaybackStartInfo),
    PlaybackProgress(PlaybackProgressInfo),
    PlaybackStop(PlaybackStopInfo),
}

/// A request as it is to be sent.
#[derive(Debug)]
pub struct Request {
    pub method: Method,
    pub url: Url,
    /// Parameters to be added to the address.
    pub query: Vec<(String, String)>,
    pub headers: Vec<(String, String)>,
    pub body: Body,
}

/// Whether an address is the base with segments behind its path.
pub open spec fn is_at(base: Seq<char>, segments: Seq<Seq<char>>, url: Seq<char>) -> bool {
    &&& url == urls::extended_path(base, segments)
    &&& urls::is_web(base) && (forall|i: int|
        0 <= i < segments.len() ==> urls::is_plain(#[trigger] segments[i])) ==> url == urls::web_joined(
        base,
        segments,
    )
}

/// The headers that every request carries: the identity under both names that
/// servers look for, and the language if one is set.
pub open spec fn common_headers(
    identity: Identity,
    token: Option<Seq<char>>,
    language: Option<Seq<char>>,
) -> Seq<(Seq<char>, Seq<char>)> {
    let value = auth::header_value(identity, token);
    seq![(legacy_header(), value), ("authorization"@, value)] + opt_pair("accept-language"@, language)
}

/// What every request to a server needs.
pub struct Client {
    base_url: Url,
    identity: Identity,
    accept_language: Option<String>,
    token: Option<String>,
}

impl Client {
    pub closed spec fn base(&self) -> Seq<char> {
        self.base_url@
    }

    pub closed spec fn who(&self) -> Identity {
        self.identity
    }

    pub closed spec fn language(&self) -> Option<String> {
        self.accept_language
    }

    pub closed spec fn key(&self) -> Option<String> {
        self.token
    }

    /// Whether `r` is this client's request for what stands under `segments`.
    pub open spec fn asks(&self, r: Request, method: Method, segments: Seq<Seq<char>>, body: Body) -> bool {
        &&& r.method == method
        &&& is_at(self.base(), segments, r.url@)
        &&& urls::pair_texts(r.headers@) == common_headers(
            self.who(),
            text::opt_view(self.key()),
            text::opt_view(self.language()),
        )
        &&& r.body == body
    }

    /// A client for a server, not signed in.
    pub fn new(base_url: Url, identity: Identity) -> (r: Self)
        ensures
            r.base() == base_url@,
            r.who() == identity,
            r.language() is None,
            r.key() is None,
    {
        Client { base_url, identity, accept_language: None, token: None }
    }

    /// The same client, asking for metadata in a language.
    pub fn with_accept_language(self, lang: String) -> (r: Self)
        ensures
            r.base() == self.base(),
            r.who() == self.who(),
            r.language() == Some(lang),
            r.key() == self.key(),
    {
        Client { accept_language: Some(lang), ..self }
    }

    /// The same client, with a token that was obtained before.
    pub fn with_token(self, token: String) -> (r: Self)
        ensures
            r.base() == self.base(),
            r.who() == self.who(),
            r.language() == self.language(),
            r.key() == Some(token),
    {
        Client { token: Some(token), ..self }
    }

    pub fn base_url(&self) -> (r: &Url)
        ensures
            r@ == self.base(),
    {
        &self.base_url
    }

    pub fn token(&self) -> (r: Option<&str>)
        ensures
            r is Some <==> self.key() is Some,
            r matches Some(t) ==> t@ == self.key()->0@,
    {
        match &self.token {
            Some(t) => Some(t.as_str()),
            None => None,
        }
    }

    pub fn identity(&self) -> (r: &Identity)
        ensures
            *r == self.who(),
    {
        &self.identity
    }

    /// The headers that every request carries.
    fn headers(&self) -> (r: Vec<(String, String)>)
        ensures
            urls::pair_texts(r@) == common_headers(
                self.who(),
                text::opt_view(self.key()),
                text::opt_view(self.language()),
            ),
    {
        let value = authorization_header(&self.identity, self.token());
        let mut out: Vec<(String, String)> = Vec::new();
        urls::add_pair(&mut out, "X-Emby-Authorization", value.clone());
        urls::add_pair(&mut out, "authorization", value);
        let ghost v = auth::header_value(self.who(), text::opt_view(self.key()));
        assert(urls::pair_texts(out@) =~= seq![(legacy_header(), v), ("authorization"@, v)]);
        add_opt(&mut out, "accept-language", text::copy_opt(&self.accept_language));
        out
    }

    /// A request for what stands under the segments.
    fn request(&self, method: Method, segments: Vec<String>, body: Body) -> (r: Request)
        requires
            urls::can_be_base(self.base()),
            urls::has_room(
                self.base(),
                urls::total_len(text::texts(segments@)) + segments@.len(),
            ),
        ensures
            self.asks(r, method, text::texts(segments@), body),
            r.query@.len() == 0,
    {
        let url = urls::join_path(&self.base_url, &segments);
        proof {
            let segs = text::texts(segments@);
            if forall|i: int| 0 <= i < segs.len() ==> urls::is_plain(#[trigger] segs[i]) {
                assert forall|i: int| 0 <= i < segments@.len() implies urls::is_plain(
                    #[trigger] segments@[i]@,
                ) by {
                    assert(segs[i] == segments@[i]@);
                }
            }
        }
        Request { method, url, query: Vec::new(), headers: self.headers(), body }
    }

    /// The request that signs a user in.
    pub fn sign_in(&self, username: &str, password: &str) -> (r: Request)
        requires
            urls::can_be_base(self.base()),
            urls::has_room(self.base(), 100),
        ensures
            r.body matches Body::SignIn { username: u, pw } && u@ == username@ && pw@ == password@,
            self.asks(r, Method::Post, seq!["Users"@, "AuthenticateByName"@], r.body),
            r.query@.len() == 0,
    {
        proof {
            reveal_strlit("Users");
            reveal_strlit("AuthenticateByName");
        }
        let mut segments: Vec<String> = Vec::new();
        urls::add_part(&mut segments, "Users");
        urls::add_part(&mut segments, "AuthenticateByName");
        assert(text::texts(segments@) =~= seq!["Users"@, "AuthenticateByName"@]);
        self.request(
            Method::Post,
            segments,
            Body::SignIn { username: username.to_owned(), pw: password.to_owned() },
        )
    }

    /// Takes the token out of the answer to a sign-in. Without one the sign-in
    /// has failed and the client stays as it was.
    pub fn finish_sign_in(&mut self, answer: AuthenticationResult) -> (r: Result<
        AuthenticationResult,
        Error,
    >)
        ensures
            final(self).base() == old(self).base(),
            final(self).who() == old(self).who(),
            final(self).language() == old(self).language(),
            answer.access_token is Some ==> r == Ok::<AuthenticationResult, Error>(answer)
                && final(self).key() == answer.access_token,
            answer.access_token is None ==> r == Err::<AuthenticationResult, Error>(
                Error::BadAuthResponse("AccessToken"),
            ) && final(self).key() == old(self).key(),
    {
        match &answer.access_token {
            Some(t) => {
                self.token = Some(t.clone());
                Ok(answer)
            },
            None => Err(Error::BadAuthResponse("AccessToken")),
        }
    }

    /// The request for what the server says of itself.
    pub fn public_system_info(&self) -> (r: Request)
        requires
            urls::can_be_base(self.base()),
            urls::has_room(self.base(), 100),
        ensures
            self.asks(r, Method::Get, seq!["System"@, "Info"@, "Public"@], Body::Empty),
            r.query@.len() == 0,
    {
        proof {
            reveal_strlit("System");
            reveal_strlit("Info");
            reveal_strlit("Public");
        }
        let mut segments: Vec<String> = Vec::new();
        urls::add_part(&mut segments, "System");
        urls::add_part(&mut segments, "Info");
        urls::add_part(&mut segments, "Public");
        assert(text::texts(segments@) =~= seq!["System"@, "Info"@, "Public"@]);
        self.request(Method::Get, segments, Body::Empty)
    }

    /// The request for the user that the token belongs to.
    pub fn current_user(&self) -> (r: Request)
        requires
            urls::can_be_base(self.base()),
            urls::has_room(self.base(), 100),
        ensures
            self.asks(r, Method::Get, seq!["Users"@, "Me"@], Body::Empty),
            r.query@.len() == 0,
    {
        proof {
            reveal_strlit("Users");
            reveal_strlit("Me");
        }
        let mut segments: Vec<String> = Vec::new();
        urls::add_part(&mut segments, "Users");
        urls::add_part(&mut segments, "Me");
        assert(text::texts(segments@) =~= seq!["Users"@, "Me"@]);
        self.request(Method::Get, segments, Body::Empty)
    }

    /// The request for the libraries that a user has access to.
    pub fn user_views(&self, user_id: &str) -> (r: Request)
        requires
            urls::can_be_base(self.base()),
            urls::has_room(self.base(), user_id@.len() + 100),
        ensures
            self.asks(r, Method::Get, seq!["Users"@, user_id@, "Views"@], Body::Empty),
            r.query@.len() == 0,
    {
        proof {
            reveal_strlit("Users");
            reveal_strlit("Views");
        }
        let mut segments: Vec<String> = Vec::new();
        urls::add_part(&mut segments, "Users");
        urls::add_part(&mut segments, user_id);
        urls::add_part(&mut segments, "Views");
        assert(text::texts(segments@) =~= seq!["Users"@, user_id@, "Views"@]);
        self.request(Method::Get, segments, Body::Empty)
    }

    /// The request for a listing of items.
    pub fn items(&self, user_id: &str, query: &ItemsQuery) -> (r: Request)
        requires
            urls::can_be_base(self.base()),
            urls::has_room(self.base(), user_id@.len() + 100),
        ensures
            self.asks(r, Method::Get, seq!["Users"@, user_id@, "Items"@], Body::Empty),
            urls::pair_texts(r.query@) == query.pairs(),
    {
        proof {
            reveal_strlit("Users");
            reveal_strlit("Items");
        }
        let mut segments: Vec<String> = Vec::new();
        urls::add_part(&mut segments, "Users");
        urls::add_part(&mut segments, user_id);
        urls::add_part(&mut segments, "Items");
        assert(text::texts(segments@) =~= seq!["Users"@, user_id@, "Items"@]);
        let mut r = self.request(Method::Get, segments, Body::Empty);
        r.query = query.to_pairs();
        r
    }

    /// The request for all there is to know about one item.
    pub fn item(&self, user_id: &str, item_id: &str) -> (r: Request)
        requires
            urls::can_be_base(self.base()),
            urls::has_room(self.base(), user_id@.len() + item_id@.len() + 100),
        ensures
            self.asks(r, Method::Get, seq!["Users"@, user_id@, "Items"@, item_id@], Body::Empty),
            r.query@.len() == 0,
    {
        proof {
            reveal_strlit("Users");
            reveal_strlit("Items");
        }
        let mut segments: Vec<String> = Vec::new();
        urls::add_part(&mut segments, "Users");
        urls::add_part(&mut segments, user_id);
        urls::add_part(&mut segments, "Items");
        urls::add_part(&mut segments, item_id);
        assert(text::texts(segments@) =~= seq!["Users"@, user_id@, "Items"@, item_id@]);
        self.request(Method::Get, segments, Body::Empty)
    }

    /// The report that a playback has started.
    pub fn report_playback_start(&self, info: PlaybackStartInfo) -> (r: Request)
        requires
            urls::can_be_base(self.base()),
            urls::has_room(self.base(), 100),
        ensures
            self.asks(r, Method::Post, seq!["Sessions"@, "Playing"@], Body::PlaybackStart(info)),
            r.query@.len() == 0,
    {
        proof {
            reveal_strlit("Sessions");
            reveal_strlit("Playing");
        }
        let mut segments: Vec<String> = Vec::new();
        urls::add_part(&mut segments, "Sessions");
        urls::add_part(&mut segments, "Playing");
        assert(text::texts(segments@) =~= seq!["Sessions"@, "Playing"@]);
        self.request(Method::Post, segments, Body::PlaybackStart(info))
    }

    /// The report of how far a playback has come.
    pub fn report_playback_progress(&self, info: PlaybackProgressInfo) -> (r: Request)
        requires
            urls::can_be_base(self.base()),
            urls::has_room(self.base(), 100),
        ensures
            self.asks(
                r,
                Method::Post,
                seq!["Sessions"@, "Playing"@, "Progress"@],
                Body::PlaybackProgress(info),
            ),
            r.query@.len() == 0,
    {
        proof {
            reveal_strlit("Sessions");
            reveal_strlit("Playing");
            reveal_strlit("Progress");
        }
        let mut segments: Vec<String> = Vec::new();
        urls::add_part(&mut segments, "Sessions");
        urls::add_part(&mut segments, "Playing");
        urls::add_part(&mut segments, "Progress");
        assert(text::texts(segments@) =~= seq!["Sessions"@, "Playing"@, "Progress"@]);
        self.request(Method::Post, segments, Body::PlaybackProgress(info))
    }

    /// The report that a playback has ended.
    pub fn report_playback_stopped(&self, info: PlaybackStopInfo) -> (r: Request)
        requires
            urls::can_be_base(self.base()),
            urls::has_room(self.base(), 100),
        ensures
            self.asks(
                r,
                Method::Post,
                seq!["Sessions"@, "Playing"@, "Stopped"@],
                Body::PlaybackStop(info),
            ),
            r.query@.len() == 0,
    {
        proof {
            reveal_strlit("Sessions");
            reveal_strlit("Playing");
            reveal_strlit("Stopped");
        }
        let mut segments: Vec<String> = Vec::new();
        urls::add_part(&mut segments, "Sessions");
        urls::add_part(&mut segments, "Playing");
        urls::add_part(&mut segments, "Stopped");
        assert(text::texts(segments@) =~= seq!["Sessions"@, "Playing"@, "Stopped"@]);
        self.request(Method::Post, segments, Body::PlaybackStop(info))
    }
}

/// Whether a status means that the answer holds what was asked for.
pub fn is_success(status: u16) -> (r: bool)
    ensures
        r == (200 <= status < 300),
{
    200 <= status && status < 300
}

/// Judges the answer to a request for data: any status but success is an error
/// that carries the body.
pub fn check_answer(status: u16, body: String) -> (r: Result<(), Error>)
    ensures
        200 <= status < 300 ==> r == Ok::<(), Error>(()),
        !(200 <= status < 300) ==> r == Err::<(), Error>(Error::Server { status, body }),
{
    if is_success(status) {
        Ok(())
    } else {
        Err(Error::Server { status, body })
    }
}

/// Whether a status means that a report was refused.
pub fn is_refusal(status: u16) -> (r: bool)
    ensures
        r == (400 <= status < 600),
{
    400 <= status && status < 600
}

/// The identity goes out under both header names with the same value, and a
/// token, once there, is part of it.
pub proof fn law_both_headers_agree(identity: Identity, token: Seq<char>, language: Option<Seq<char>>)
    ensures
        ({
            let headers = common_headers(identity, Some(token), language);
            &&& headers[0].0 == legacy_header()
            &&& headers[1].0 == "authorization"@
            &&& headers[0].1 == headers[1].1
            &&& headers[0].1 == auth::header_value(identity, Some(token))
            &&& auth::header_fields(identity, Some(token)).last() == auth::field("Token"@, token)
        }),
{
}

/// A query asks for what is set in it, each under its own name and with its own
/// value: lists between commas, numbers in decimal, and whether to look below.
#[verifier::rlimit(50)]
pub proof fn law_query_asks_for_what_is_set(q: ItemsQuery)
    ensures
        q.parent_id is Some ==> q.pairs().contains(("ParentId"@, q.parent_id->0@)),
        q.include_item_types@.len() > 0 ==> q.pairs().contains(
            ("IncludeItemTypes"@, text::join(type_names(q.include_item_types@), ","@)),
        ),
        q.sort_by@.len() > 0 ==> q.pairs().contains(("SortBy"@, text::join(text::texts(q.sort_by@), ","@))),
        q.sort_order == Some(SortOrder::Ascending) ==> q.pairs().contains(("SortOrder"@, "Ascending"@)),
        q.sort_order == Some(SortOrder::Descending) ==> q.pairs().contains(("SortOrder"@, "Descending"@)),
        q.limit is Some ==> q.pairs().contains(("Limit"@, text::decimal(q.limit->0 as nat))),
        q.start_index is Some ==> q.pairs().contains(("StartIndex"@, text::decimal(q.start_index->0 as nat))),
        q.recursive == Some(true) ==> q.pairs().contains(("Recursive"@, "true"@)),
        q.recursive == Some(false) ==> q.pairs().contains(("Recursive"@, "false"@)),
        q.fields@.len() > 0 ==> q.pairs().contains(("Fields"@, text::join(text::texts(q.fields@), ","@))),
        q.search_term is Some ==> q.pairs().contains(("SearchTerm"@, q.search_term->0@)),
        q.artist_ids@.len() > 0 ==> q.pairs().contains(
            ("ArtistIds"@, text::join(text::texts(q.artist_ids@), ","@)),
        ),
        q.album_artist_ids@.len() > 0 ==> q.pairs().contains(
            ("AlbumArtistIds"@, text::join(text::texts(q.album_artist_ids@), ","@)),
        ),
{
    let p1 = opt_pair("ParentId"@, text::opt_view(q.parent_id));
    let p2 = list_pair("IncludeItemTypes"@, type_names(q.include_item_types@));
    let p3 = list_pair("SortBy"@, text::texts(q.sort_by@));
    let p4 = opt_pair(
        "SortOrder"@,
        match q.sort_order {
            Some(o) => Some(o.name()),
            None => None,
        },
    );
    let p5 = opt_pair("Limit"@, opt_decimal(q.limit));
    let p6 = opt_pair("StartIndex"@, opt_decimal(q.start_index));
    let p7 = opt_pair(
        "Recursive"@,
        match q.recursive {
            Some(b) => Some(bool_text(b)),
            None => None,
        },
    );
    let p8 = list_pair("Fields"@, text::texts(q.fields@));
    let p9 = opt_pair("SearchTerm"@, text::opt_view(q.search_term));
    let p10 = list_pair("ArtistIds"@, text::texts(q.artist_ids@));
    let p11 = list_pair("AlbumArtistIds"@, text::texts(q.album_artist_ids@));
    let s2 = p1 + p2;
    let s3 = s2 + p3;
    let s4 = s3 + p4;
    let s5 = s4 + p5;
    let s6 = s5 + p6;
    let s7 = s6 + p7;
    let s8 = s7 + p8;
    let s9 = s8 + p9;
    let s10 = s9 + p10;
    assert(q.pairs() == s10 + p11);
    lemma_in_either(p1, p2);
    lemma_in_either(s2, p3);
    lemma_in_either(s3, p4);
    lemma_in_either(s4, p5);
    lemma_in_either(s5, p6);
    lemma_in_either(s6, p7);
    lemma_in_either(s7, p8);
    lemma_in_either(s8, p9);
    lemma_in_either(s9, p10);
    lemma_in_either(s10, p11);
    lemma_first_is_in(p1);
    lemma_first_is_in(p2);
    lemma_first_is_in(p3);
    lemma_first_is_in(p4);
    lemma_first_is_in(p5);
    lemma_first_is_in(p6);
    lemma_first_is_in(p7);
    lemma_first_is_in(p8);
    lemma_first_is_in(p9);
    lemma_first_is_in(p10);
    lemma_first_is_in(p11);
}

proof fn lemma_first_is_in(s: Seq<(Seq<char>, Seq<char>)>)
    ensures
        s.len() > 0 ==> s.contains(s[0]),
{
}

proof fn lemma_in_either(a: Seq<(Seq<char>, Seq<char>)>, b: Seq<(Seq<char>, Seq<char>)>)
    ensures
        forall|x: (Seq<char>, Seq<char>)| a.contains(x) || b.contains(x) ==> #[trigger] (a + b).contains(x),
{
    assert forall|x: (Seq<char>, Seq<char>)| a.contains(x) || b.contains(x) implies #[trigger] (a + b).contains(
        x,
    ) by {
        if a.contains(x) {
            let i = choose|i: int| 0 <= i < a.len() && a[i] == x;
            assert((a + b)[i] == x);
        } else {
            let i = choose|i: int| 0 <= i < b.len() && b[i] == x;
            assert((a + b)[a.len() + i] == x);
        }
    }
}

/// A query has as many parameters as it sets anything, so it asks for nothing
/// else.
pub proof fn law_query_asks_for_nothing_else(q: ItemsQuery)
    ensures
        q.pairs().len() == count_if(q.parent_id is Some) + count_if(q.include_item_types@.len() > 0) + count_if(
            q.sort_by@.len() > 0,
        ) + count_if(q.sort_order is Some) + count_if(q.limit is Some) + count_if(q.start_index is Some)
            + count_if(q.recursive is Some) + count_if(q.fields@.len() > 0) + count_if(q.search_term is Some)
            + count_if(q.artist_ids@.len() > 0) + count_if(q.album_artist_ids@.len() > 0),
{
}

/// One if something holds, and nothing if not.
pub open spec fn count_if(b: bool) -> int {
    if b {
        1
    } else {
        0
    }
}

/// Every request carries the identity, with the token once there is one, and asks
/// for the language that is set.
pub proof fn law_request_headers(identity: Identity, token: Option<Seq<char>>, language: Seq<char>)
    ensures
        ({
            let value = auth::header_value(identity, token);
            &&& common_headers(identity, token, None) == seq![
                ("X-Emby-Authorization"@, value),
                ("authorization"@, value),
            ]
            &&& common_headers(identity, token, Some(language)) == seq![
                ("X-Emby-Authorization"@, value),
                ("authorization"@, value),
                ("accept-language"@, language),
            ]
        }),
{
    let value = auth::header_value(identity, token);
    assert(common_headers(identity, token, None) =~= seq![
        ("X-Emby-Authorization"@, value),
        ("authorization"@, value),
    ]);
    assert(common_headers(identity, token, Some(language)) =~= seq![
        ("X-Emby-Authorization"@, value),
        ("authorization"@, value),
        ("accept-language"@, language),
    ]);
}

/// An error says what the server, the network or the decoder said, and a refusal
/// by the server with its status in decimal before it.
pub proof fn law_errors_carry_their_reason(why: String, status: u16)
    ensures
        Error::Http(why).words() == "HTTP request failed: "@ + why@,
        Error::Json(why).words() == "JSON decode failed: "@ + why@,
        Error::Url(why).words() == "URL parse failed: "@ + why@,
        (Error::Server { status, body: why }).words() == "server returned "@ + text::decimal(status as nat)
            + ": "@ + why@,
{
}

/// A request goes to the client's own server, under the path that it is for, with
/// the method and the body that it is for, and with the client's identity.
pub proof fn law_request_goes_where_it_should(
    c: Client,
    r: Request,
    method: Method,
    segments: Seq<Seq<char>>,
    body: Body,
)
    requires
        c.asks(r, method, segments, body),
    ensures
        r.method == method,
        r.body == body,
        r.url@ == urls::extended_path(c.base(), segments),
        urls::is_web(c.base()) && (forall|i: int|
            0 <= i < segments.len() ==> urls::is_plain(#[trigger] segments[i])) ==> r.url@ == urls::web_joined(
            c.base(),
            segments,
        ),
        urls::pair_texts(r.headers@)[1].0 == "authorization"@,
        urls::pair_texts(r.headers@)[1].1 == auth::header_value(c.who(), text::opt_view(c.key())),
{
}

} // verus!
