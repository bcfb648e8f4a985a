//! Who is asking: the identity that every request carries.
use crate::text;
use vstd::prelude::*;

verus! {

/// The program and the device that send requests. The device id should stay
/// the same from run to run: the server keeps a session per id.
#[derive(Debug, Clone)]
pub struct Identity {
    pub client: String,
    pub device: String,
    pub device_id: String,
    pub version: String,
}

impl Identity {
    /// An identity with the given parts.
    pub fn new(client: &str, device: &str, device_id: &str, version: &str) -> (r: Self)
        ensures
            r.client@ == client@,
            r.device@ == device@,
            r.device_id@ == device_id@,
            r.version@ == version@,
    {
        Identity {
            client: client.to_owned(),
            device: device.to_owned(),
            device_id: device_id.to_owned(),
            version: version.to_owned(),
        }
    }
}

/// The text with a backslash before every double quote.
pub open spec fn escaped(s: Seq<char>) -> Seq<char>
    decreases s.len(),
{
    if s.len() == 0 {
        Seq::empty()
    } else {
        escaped(s.drop_last()) + if s.last() == '"' {
            seq!['\\', '"']
        } else {
            seq![s.last()]
        }
    }
}

/// Puts a backslash before every double quote.
fn escape_quotes(s: &str) -> (r: String)
    ensures
        r@ == escaped(s@),
{
    let x = text::chars_of(s);
    let mut out = String::new();
    let mut i: usize = 0;
    while i < x.len()
        invariant
            i <= x@.len(),
            x@ == s@,
            out@ == escaped(s@.take(i as int)),
        decreases x@.len() - i,
    {
        let c = x[i];
        let ghost before = s@.take(i as int);
        let ghost after = s@.take(i + 1);
        assert(after.drop_last() =~= before && after.last() == c);
        let ghost prior = out@;
        if c == '"' {
            out.push('\\');
            out.push('"');
            assert(out@ =~= prior + seq!['\\', '"']);
        } else {
            out.push(c);
            assert(out@ =~= prior + seq![c]);
        }
        i = i + 1;
    }
    assert(s@.take(s@.len() as int) =~= s@);
    out
}

/// A field of the header: its name, and its value in quotes.
pub open spec fn field(name: Seq<char>, value: Seq<char>) -> Seq<char> {
    name + "=\""@ + escaped(value) + "\""@
}

/// The fields of the header, in order. The token is there once signed in.
pub open spec fn header_fields(identity: Identity, token: Option<Seq<char>>) -> Seq<Seq<char>> {
    let common = seq![
        field("Client"@, identity.client@),
        field("Device"@, identity.device@),
        field("DeviceId"@, identity.device_id@),
        field("Version"@, identity.version@),
    ];
    match token {
        Some(t) => common.push(field("Token"@, t)),
        None => common,
    }
}

/// The value of the authorization header.
pub open spec fn header_value(identity: Identity, token: Option<Seq<char>>) -> Seq<char> {
    "MediaBrowser "@ + text::join(header_fields(identity, token), ", "@)
}

fn make_field(name: &str, value: &str) -> (r: String)
    ensures
        r@ == field(name@, value@),
{
    let mut out = name.to_owned();
    out.append("=\"");
    out.append(escape_quotes(value).as_str());
    out.append("\"");
    out
}

/// The value of the authorization header, with the token if there is one.
pub fn authorization_header(identity: &Identity, token: Option<&str>) -> (r: String)
    ensures
        r@ == header_value(
            *identity,
            match token {
                Some(t) => Some(t@),
                None => None,
            },
        ),
{
    let mut parts: Vec<String> = Vec::new();
    parts.push(make_field("Client", identity.client.as_str()));
    parts.push(make_field("Device", identity.device.as_str()));
    parts.push(make_field("DeviceId", identity.device_id.as_str()));
    parts.push(make_field("Version", identity.version.as_str()));
    if let Some(t) = token {
        parts.push(make_field("Token", t));
    }
    assert(text::texts(parts@) =~= header_fields(
        *identity,
        match token {
            Some(t) => Some(t@),
            None => None,
        },
    ));
    text::joined("MediaBrowser ", text::join_texts(&parts, ", ").as_str())
}

/// In an escaped text every double quote follows a backslash, so a value
/// cannot end its field early.
pub proof fn law_quotes_are_escaped(s: Seq<char>, i: int)
    requires
        0 <= i < escaped(s).len(),
        escaped(s)[i] == '"',
    ensures
        i > 0 && escaped(s)[i - 1] == '\\',
    decreases s.len(),
{
    let front = escaped(s.drop_last());
    if i < front.len() {
        law_quotes_are_escaped(s.drop_last(), i);
    }
}

/// Escaping goes character by character: a double quote gets a backslash before
/// it, and every other character stays.
pub proof fn law_escaping(a: Seq<char>, b: Seq<char>, c: char)
    ensures
        escaped(Seq::empty()) == Seq::<char>::empty(),
        escaped(seq![c]) == (if c == '"' {
            seq!['\\', '"']
        } else {
            seq![c]
        }),
        escaped(a + b) == escaped(a) + escaped(b),
    decreases b.len(),
{
    assert(seq![c].drop_last() =~= Seq::empty());
    assert(escaped(Seq::<char>::empty()) =~= Seq::empty());
    assert(escaped(seq![c]) =~= (if c == '"' {
        seq!['\\', '"']
    } else {
        seq![c]
    }));
    if b.len() == 0 {
        assert(a + b =~= a);
        assert(escaped(a + b) =~= escaped(a) + escaped(b));
    } else {
        law_escaping(a, b.drop_last(), c);
        assert((a + b).drop_last() =~= a + b.drop_last());
        assert(escaped(a + b) =~= escaped(a) + escaped(b));
    }
}

/// A text without double quotes stays as it is.
pub proof fn law_plain_values_stay(s: Seq<char>)
    requires
        !s.contains('"'),
    ensures
        escaped(s) == s,
    decreases s.len(),
{
    if s.len() > 0 {
        assert(s.contains(s.last()));
        assert(!s.drop_last().contains('"')) by {
            if s.drop_last().contains('"') {
                let j = choose|j: int| 0 <= j < s.drop_last().len() && s.drop_last()[j] == '"';
                assert(s[j] == '"');
            }
        }
        law_plain_values_stay(s.drop_last());
        assert(escaped(s) =~= s);
    }
}

/// The header names the client, the device, its id and the version, each in
/// quotes and in this order, and once signed in the token behind them.
#[verifier::rlimit(50)]
pub proof fn law_header(identity: Identity, token: Seq<char>)
    requires
        !identity.client@.contains('"') && !identity.device@.contains('"') && !identity.device_id@.contains('"')
            && !identity.version@.contains('"') && !token.contains('"'),
    ensures
        header_value(identity, None) == "MediaBrowser Client=\""@ + identity.client@ + "\", Device=\""@
            + identity.device@ + "\", DeviceId=\""@ + identity.device_id@ + "\", Version=\""@ + identity.version@
            + "\""@,
        header_value(identity, Some(token)) == header_value(identity, None) + ", Token=\""@ + token + "\""@,
{
    law_plain_values_stay(identity.client@);
    law_plain_values_stay(identity.device@);
    law_plain_values_stay(identity.device_id@);
    law_plain_values_stay(identity.version@);
    law_plain_values_stay(token);
    reveal_strlit("MediaBrowser ");
    reveal_strlit("MediaBrowser Client=\"");
    reveal_strlit("\", Device=\"");
    reveal_strlit("\", DeviceId=\"");
    reveal_strlit("\", Version=\"");
    reveal_strlit(", Token=\"");
    reveal_strlit("Client");
    reveal_strlit("Device");
    reveal_strlit("DeviceId");
    reveal_strlit("Version");
    reveal_strlit("Token");
    reveal_strlit("=\"");
    reveal_strlit("\"");
    reveal_strlit(", ");
    let a = field("Client"@, identity.client@);
    let b = field("Device"@, identity.device@);
    let c = field("DeviceId"@, identity.device_id@);
    let d = field("Version"@, identity.version@);
    let e = field("Token"@, token);
    let sep = ", "@;
    let common = header_fields(identity, None);
    assert(common =~= (seq![a] + seq![b]) + (seq![c] + seq![d]));
    text::law_join(seq![a], seq![b], a, sep);
    text::law_join(seq![b], seq![b], b, sep);
    text::law_join(seq![c], seq![d], c, sep);
    text::law_join(seq![d], seq![d], d, sep);
    text::law_join(seq![a] + seq![b], seq![c] + seq![d], a, sep);
    text::law_join(common, seq![e], e, sep);
    assert(header_fields(identity, Some(token)) =~= common + seq![e]);
    assert("MediaBrowser "@ + "Client"@ + "=\""@ =~= "MediaBrowser Client=\""@);
    assert("\""@ + sep + "Device"@ + "=\""@ =~= "\", Device=\""@);
    assert("\""@ + sep + "DeviceId"@ + "=\""@ =~= "\", DeviceId=\""@);
    assert("\""@ + sep + "Version"@ + "=\""@ =~= "\", Version=\""@);
    assert(sep + "Token"@ + "=\""@ =~= ", Token=\""@);
    assert(header_value(identity, None) =~= ("MediaBrowser "@ + "Client"@ + "=\""@) + identity.client@ + ("\""@ + sep
        + "Device"@ + "=\""@) + identity.device@ + ("\""@ + sep + "DeviceId"@ + "=\""@) + identity.device_id@ + (
    "\""@ + sep + "Version"@ + "=\""@) + identity.version@ + "\""@);
    assert(header_value(identity, Some(token)) =~= header_value(identity, None) + (sep + "Token"@ + "=\""@) + token
        + "\""@);
}

} // verus!
