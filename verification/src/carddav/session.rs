//! Address book sessions: where to connect, what signs in, and what a probe
//! finds.

use crate::text::{join2, same, split, split_of, texts, trim_end_char, trim_end_char_of};
use crate::weburl::{plain_origin, plain_origin_of, read_url, url_of};
use vstd::prelude::*;

verus! {

/// The size of a read, in bytes.
pub const READ_BUF: usize = 16384;

/// What signs in to a server.
#[derive(Debug)]
pub enum CardDavAuth {
    /// A password, or an app password.
    Password(String),
    /// An access token.
    Bearer(String),
}

/// What an address book is polled with.
#[derive(Debug)]
pub struct CardDavAccount {
    /// The address book's URL.
    pub url: String,
    pub login: String,
    pub auth: CardDavAuth,
}

/// Where to connect, and what to ask for there.
#[derive(Debug)]
pub struct CardDavParts {
    pub host: String,
    pub port: u16,
    /// The origin, as a URL.
    pub base_url: String,
    pub path: String,
}

/// Why an address book's URL cannot be polled.
#[derive(Debug)]
pub enum CardDavError {
    InvalidUrl(String),
    /// Its scheme is not `https`.
    NotHttps(String),
    NoHost,
    NoOrigin,
}

impl CardDavError {
    pub open spec fn text(self) -> Seq<char> {
        match self {
            CardDavError::InvalidUrl(url) => "invalid CardDAV URL: "@ + url@,
            CardDavError::NotHttps(scheme) => "CardDAV URL must be https:// (got "@ + scheme@
                + "://)"@,
            CardDavError::NoHost => "CardDAV URL has no host"@,
            CardDavError::NoOrigin => "cannot derive CardDAV origin"@,
        }
    }

    /// What to report.
    pub fn message(&self) -> (r: String)
        ensures
            r@ == self.text(),
    {
        match self {
            CardDavError::InvalidUrl(url) => join2("invalid CardDAV URL: ", url.as_str()),
            CardDavError::NotHttps(scheme) => {
                let mut out = join2("CardDAV URL must be https:// (got ", scheme.as_str());
                out.append("://)");
                out
            },
            CardDavError::NoHost => "CardDAV URL has no host".to_owned(),
            CardDavError::NoOrigin => "cannot derive CardDAV origin".to_owned(),
        }
    }
}

/// Whether this is where a URL leads.
pub open spec fn leads_to(r: Result<CardDavParts, CardDavError>, url: Seq<char>) -> bool {
    match url_of(url) {
        Err(_) => r matches Err(CardDavError::InvalidUrl(u)) && u@ == url,
        Ok(full) => if full.scheme != "https"@ {
            r matches Err(CardDavError::NotHttps(s)) && s@ == full.scheme
        } else {
            match full.host_text {
                None => r == Err::<CardDavParts, CardDavError>(CardDavError::NoHost),
                Some(host) => match url_of(plain_origin_of(full)) {
                    Err(_) => r == Err::<CardDavParts, CardDavError>(CardDavError::NoOrigin),
                    Ok(base) => r matches Ok(p) && p.host@ == host && p.port == (match full.port {
                        Some(port) => port,
                        None => 443,
                    }) && p.base_url@ == base.text && p.path@ == full.path,
                },
            }
        },
    }
}

impl CardDavAccount {
    /// Where to connect, and what to ask for there. Only `https` will do.
    pub fn parts(&self) -> (r: Result<CardDavParts, CardDavError>)
        ensures
            leads_to(r, self.url@),
    {
        let full = match read_url(self.url.as_str()) {
            Ok(full) => full,
            Err(_) => return Err(CardDavError::InvalidUrl(self.url.clone())),
        };
        if !same(full.scheme.as_str(), "https") {
            return Err(CardDavError::NotHttps(full.scheme));
        }
        let host = match full.host_text {
            Some(host) => host,
            None => return Err(CardDavError::NoHost),
        };
        let port: u16 = match full.port {
            Some(port) => port,
            None => 443,
        };
        proof {
            reveal_strlit("https");
            reveal_strlit("blob");
            assert("https"@.len() != "blob"@.len());
        }
        let base = match read_url(plain_origin(self.url.as_str()).as_str()) {
            Ok(base) => base,
            Err(_) => return Err(CardDavError::NoOrigin),
        };
        Ok(CardDavParts { host, port, base_url: base.text, path: full.path })
    }
}

/// The name of a member: the last piece of its path, and nothing of what it
/// holds.
pub open spec fn resource_of(href: Seq<char>) -> Seq<char> {
    split_of(trim_end_char_of(href, '/'), '/').last()
}

/// The name of a member.
pub fn resource_id(href: &str) -> (r: String)
    ensures
        r@ == resource_of(href@),
{
    let bare = trim_end_char(href, '/');
    let pieces = split(bare.as_str(), '/');
    proof {
        lemma_split_nonempty(bare@, '/');
        assert(texts(pieces@).len() == pieces@.len());
        assert(texts(pieces@).last() == pieces@[pieces@.len() - 1]@);
    }
    pieces[pieces.len() - 1].clone()
}

proof fn lemma_split_nonempty(s: Seq<char>, c: char)
    ensures
        split_of(s, c).len() > 0,
{
}

proof fn lemma_last_piece(s: Seq<char>, c: char)
    ensures
        split_of(s, c).len() > 0,
        !split_of(s, c).last().contains(c),
    decreases s.len(),
{
    crate::text::lemma_first_index(s, c);
    let i = crate::text::first_index(s, c);
    if i < s.len() {
        lemma_last_piece(s.skip(i + 1), c);
    }
}

/// A member's name tells nothing of where it lies.
pub proof fn resource_has_no_path(href: Seq<char>)
    ensures
        !resource_of(href).contains('/'),
{
    lemma_last_piece(trim_end_char_of(href, '/'), '/');
}

/// Why a poll failed.
#[derive(Debug)]
pub enum SyncPollError {
    /// The server does not know the checkpoint any more.
    InvalidToken,
    Other(String),
}

/// What a probe found, stage by stage.
#[derive(Debug)]
pub struct CardDavProbe {
    /// The server answered.
    pub reachable: bool,
    /// It accepted the credentials.
    pub authenticated: bool,
    /// The address book tells when it changes.
    pub sync: bool,
    /// What failed, if anything did.
    pub error: Option<String>,
}

impl Default for CardDavProbe {
    /// Nothing found yet.
    fn default() -> (r: Self)
        ensures
            r == (CardDavProbe { reachable: false, authenticated: false, sync: false, error: None }),
    {
        CardDavProbe { reachable: false, authenticated: false, sync: false, error: None }
    }
}

impl CardDavProbe {
    /// Whether the address book can be watched: it was reached, it signed in,
    /// and it tells when it changes.
    pub fn watchable(&self) -> (r: bool)
        ensures
            r == (self.reachable && self.authenticated && self.sync),
    {
        self.reachable && self.authenticated && self.sync
    }
}

/// Which tokens an entry of an answer tells.
#[derive(Clone, Copy, Debug, PartialEq, Eq, Structural)]
pub struct TokenEntry {
    pub sync_token: bool,
    pub ctag: bool,
}

/// How far a probe came.
#[derive(Debug)]
pub enum CardDavStage {
    /// The URL cannot be polled.
    BadUrl(String),
    /// The server could not be reached.
    Unreachable(String),
    /// It answered, with these entries.
    Answered(Vec<TokenEntry>),
    /// It answered with a status that is no success.
    Status { status: u16, text: String },
    /// It answered with something else.
    Unusable(String),
    /// The connection was lost.
    Lost(String),
}

/// Whether some entry tells a token.
pub open spec fn tells_token(entries: Seq<TokenEntry>) -> bool {
    exists|i: int| 0 <= i < entries.len() && (#[trigger] entries[i].sync_token || entries[i].ctag)
}

fn has_token(entries: &Vec<TokenEntry>) -> (r: bool)
    ensures
        r == tells_token(entries@),
{
    let mut i: usize = 0;
    while i < entries.len()
        invariant
            i <= entries@.len(),
            forall|k: int|
                0 <= k < i ==> !(#[trigger] entries@[k].sync_token || entries@[k].ctag),
        decreases entries@.len() - i,
    {
        if entries[i].sync_token || entries[i].ctag {
            assert(entries@[i as int].sync_token || entries@[i as int].ctag);
            return true;
        }
        i += 1;
    }
    false
}

/// Whether this is what a probe found.
pub open spec fn finds(r: CardDavProbe, stage: CardDavStage) -> bool {
    match stage {
        CardDavStage::BadUrl(e) => r == (CardDavProbe {
            reachable: false,
            authenticated: false,
            sync: false,
            error: Some(e),
        }),
        CardDavStage::Unreachable(e) => r == (CardDavProbe {
            reachable: false,
            authenticated: false,
            sync: false,
            error: Some(e),
        }),
        CardDavStage::Answered(entries) => if tells_token(entries@) {
            r == (CardDavProbe { reachable: true, authenticated: true, sync: true, error: None })
        } else {
            r.reachable && r.authenticated && !r.sync && (r.error matches Some(e) && e@
                == "collection reports no sync-token"@)
        },
        CardDavStage::Status { status, text } => if status == 401 || status == 403 {
            r.reachable && !r.authenticated && !r.sync && (r.error matches Some(e) && e@
                == "authentication failed"@)
        } else {
            r == (CardDavProbe {
                reachable: true,
                authenticated: true,
                sync: false,
                error: Some(text),
            })
        },
        CardDavStage::Unusable(e) => r == (CardDavProbe {
            reachable: true,
            authenticated: true,
            sync: false,
            error: Some(e),
        }),
        CardDavStage::Lost(e) => r == (CardDavProbe {
            reachable: true,
            authenticated: false,
            sync: false,
            error: Some(e),
        }),
    }
}

/// What a probe found, by how far it came. An answer that is neither a token
/// nor a refusal still means that the credentials were accepted.
pub fn probe(stage: CardDavStage) -> (r: CardDavProbe)
    ensures
        finds(r, stage),
{
    let mut out = CardDavProbe::default();
    match stage {
        CardDavStage::BadUrl(e) => {
            out.error = Some(e);
        },
        CardDavStage::Unreachable(e) => {
            out.error = Some(e);
        },
        CardDavStage::Answered(entries) => {
            out.reachable = true;
            out.authenticated = true;
            out.sync = has_token(&entries);
            if !out.sync {
                out.error = Some("collection reports no sync-token".to_owned());
            }
        },
        CardDavStage::Status { status, text } => {
            out.reachable = true;
            if status == 401 || status == 403 {
                out.error = Some("authentication failed".to_owned());
            } else {
                out.authenticated = true;
                out.error = Some(text);
            }
        },
        CardDavStage::Unusable(e) => {
            out.reachable = true;
            out.authenticated = true;
            out.error = Some(e);
        },
        CardDavStage::Lost(e) => {
            out.reachable = true;
            out.error = Some(e);
        },
    }
    out
}

/// An address book is polled over HTTPS on the host, port and path of its URL;
/// the port is 443 unless the URL says another. Anything that is no HTTPS URL is
/// refused for what it is.
pub proof fn address_books_are_polled_where_they_are(
    r: Result<CardDavParts, CardDavError>,
    url: Seq<char>,
)
    requires
        leads_to(r, url),
    ensures
        url_of(url) is Err ==> (r matches Err(CardDavError::InvalidUrl(u)) && u@ == url),
        url_of(url) matches Ok(full) ==> (full.scheme != "https"@ ==> (r matches Err(
            CardDavError::NotHttps(s),
        ) && s@ == full.scheme)),
        r matches Ok(parts) ==> (url_of(url) matches Ok(full) && full.scheme == "https"@
            && full.host_text == Some(parts.host@) && parts.path@ == full.path && (
        full.port matches Some(port) ==> parts.port == port) && (full.port is None ==> parts.port
            == 443)),
{
}

proof fn lemma_last_of(dir: Seq<char>, name: Seq<char>)
    requires
        !name.contains('/'),
        name.len() > 0,
    ensures
        resource_of(dir + seq!['/'] + name) == name,
{
    let path = dir + seq!['/'] + name;
    assert(path.last() == name.last());
    assert(name[name.len() - 1] != '/');
    assert(trim_end_char_of(path, '/') == path);
    crate::text::lemma_split_append(dir, '/', name);
}

/// A member is named by the last piece of its path, with or without a slash
/// behind it.
pub proof fn members_are_named_by_their_last_piece(dir: Seq<char>, name: Seq<char>)
    requires
        !name.contains('/'),
        name.len() > 0,
    ensures
        resource_of(dir + seq!['/'] + name) == name,
        resource_of(dir + seq!['/'] + name + seq!['/']) == name,
        resource_of(name) == name,
{
    lemma_last_of(dir, name);
    let path = dir + seq!['/'] + name;
    let slashed = path + seq!['/'];
    assert(slashed.drop_last() =~= path);
    assert(slashed.last() == '/');
    assert(trim_end_char_of(slashed, '/') == trim_end_char_of(path, '/'));
    assert(name[name.len() - 1] != '/');
    assert(trim_end_char_of(name, '/') == name);
    crate::text::lemma_split_plain(name, '/');
}

/// A probe says that an address book can be watched exactly where the server
/// answered with a token; that credentials were refused where the status is 401
/// or 403 or the connection was lost; and that a server was not reached where it
/// was not.
pub proof fn probes_say_how_far_they_came(r: CardDavProbe, stage: CardDavStage)
    requires
        finds(r, stage),
    ensures
        r.sync <==> (stage matches CardDavStage::Answered(entries) && exists|i: int|
            0 <= i < entries@.len() && (#[trigger] entries@[i].sync_token || entries@[i].ctag)),
        r.reachable <==> !(stage is BadUrl) && !(stage is Unreachable),
        r.authenticated <==> stage is Answered || stage is Unusable || (
        stage matches CardDavStage::Status { status, .. } && status != 401 && status != 403),
        r.error is None <==> r.sync,
{
    if let CardDavStage::Answered(entries) = stage {
        if tells_token(entries@) {
            let i = choose|i: int|
                0 <= i < entries@.len() && (#[trigger] entries@[i].sync_token || entries@[i].ctag);
            assert(entries@[i].sync_token || entries@[i].ctag);
        }
    }
}

/// Why an address book cannot be polled is told in words, with what is wrong in its URL.
pub proof fn unfit_address_books_have_their_words(url: String, scheme: String)
    ensures
        CardDavError::InvalidUrl(url).text() == "invalid CardDAV URL: "@ + url@,
        CardDavError::NotHttps(scheme).text() == "CardDAV URL must be https:// (got "@ + scheme@
                + "://)"@,
        CardDavError::NoHost.text() == "CardDAV URL has no host"@,
        CardDavError::NoOrigin.text() == "cannot derive CardDAV origin"@,
{
}

} // verus!
