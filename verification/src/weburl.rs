//! URLs, as far as the library looks into them.

use crate::table::opt_text;
use crate::text::{decimal_of, same};
use url::{Host, Url};
use vstd::prelude::*;

verus! {

/// The host of a URL.
#[derive(Debug)]
pub enum UrlHost {
    Domain(String),
    V4([u8; 4]),
    V6([u8; 16]),
}

/// What a host is.
pub ghost enum UrlHostView {
    Domain(Seq<char>),
    V4(Seq<u8>),
    V6(Seq<u8>),
}

impl View for UrlHost {
    type V = UrlHostView;

    open spec fn view(&self) -> UrlHostView {
        match self {
            UrlHost::Domain(name) => UrlHostView::Domain(name@),
            UrlHost::V4(o) => UrlHostView::V4(o@),
            UrlHost::V6(o) => UrlHostView::V6(o@),
        }
    }
}

/// A parsed URL.
#[derive(Debug)]
pub struct WebUrl {
    /// The URL as it is written out.
    pub text: String,
    pub scheme: String,
    pub host: Option<UrlHost>,
    /// The host as it is written out.
    pub host_text: Option<String>,
    /// The port, or the known port of the scheme.
    pub port: Option<u16>,
    pub path: String,
}

/// What a URL says.
pub ghost struct WebUrlView {
    pub text: Seq<char>,
    pub scheme: Seq<char>,
    pub host: Option<UrlHostView>,
    pub host_text: Option<Seq<char>>,
    pub port: Option<u16>,
    pub path: Seq<char>,
}

impl View for WebUrl {
    type V = WebUrlView;

    open spec fn view(&self) -> WebUrlView {
        WebUrlView {
            text: self.text@,
            scheme: self.scheme@,
            host: match self.host {
                Some(h) => Some(h@),
                None => None,
            },
            host_text: opt_text(self.host_text),
            port: self.port,
            path: self.path@,
        }
    }
}

/// What a text is as a URL, or why it is none.
pub uninterp spec fn url_of(text: Seq<char>) -> Result<WebUrlView, Seq<char>>;

/// `url::Url::parse`, and what its accessors say of the result: all of it, the
/// error's wording included, depends on the text alone.
#[verifier::external_body]
pub(crate) fn parse_url(text: &str) -> (r: Result<WebUrl, String>)
    ensures
        match r {
            Ok(url) => url_of(text@) == Ok::<WebUrlView, Seq<char>>(url@),
            Err(why) => url_of(text@) == Err::<WebUrlView, Seq<char>>(why@),
        },
{
    let url = Url::parse(text).map_err(|e| e.to_string())?;
    let host = url.host().map(|h| match h {
        Host::Domain(name) => UrlHost::Domain(name.to_owned()),
        Host::Ipv4(ip) => UrlHost::V4(ip.octets()),
        Host::Ipv6(ip) => UrlHost::V6(ip.octets()),
    });
    let (text, scheme, path) = (url.to_string(), url.scheme().to_owned(), url.path().to_owned());
    let host_text = url.host_str().map(|h| h.to_owned());
    let port = url.port_or_known_default();
    Ok(WebUrl { text, scheme, host, host_text, port, path })
}

/// `url::form_urlencoded::Serializer`, fed pairs in order: the text depends on
/// the pairs alone.
#[verifier::external_body]
pub(crate) fn form_encode(pairs: &Vec<(String, String)>) -> (r: String)
    ensures
        r@ == form_text(pairs_of(pairs@)),
{
    url::form_urlencoded::Serializer::new(String::new()).extend_pairs(pairs.iter()).finish()
}

/// The form encoding of pairs, in order.
pub uninterp spec fn form_text(pairs: Seq<(Seq<char>, Seq<char>)>) -> Seq<char>;

/// The texts of pairs.
pub open spec fn pairs_of(pairs: Seq<(String, String)>) -> Seq<(Seq<char>, Seq<char>)> {
    pairs.map_values(|p: (String, String)| (p.0@, p.1@))
}

/// A pair of texts.
pub fn pair(name: &str, value: &str) -> (r: (String, String))
    ensures
        r.0@ == name@,
        r.1@ == value@,
{
    (name.to_owned(), value.to_owned())
}

/// Reads a URL, or says why the text is none.
pub fn read_url(text: &str) -> (r: Result<WebUrl, String>)
    ensures
        match r {
            Ok(url) => url_of(text@) == Ok::<WebUrlView, Seq<char>>(url@),
            Err(why) => url_of(text@) == Err::<WebUrlView, Seq<char>>(why@),
        },
{
    parse_url(text)
}

/// The port of the schemes whose URLs have an origin of their own.
pub open spec fn default_port(scheme: Seq<char>) -> Option<u16> {
    if scheme == "http"@ || scheme == "ws"@ {
        Some(80)
    } else if scheme == "https"@ || scheme == "wss"@ {
        Some(443)
    } else if scheme == "ftp"@ {
        Some(21)
    } else {
        None
    }
}

/// The origin of a URL that does not hold another: its scheme, host and port,
/// where the scheme has origins.
pub open spec fn plain_origin_of(url: WebUrlView) -> Seq<char> {
    match (default_port(url.scheme), url.host_text, url.port) {
        (Some(default), Some(host), Some(port)) => if port == default {
            url.scheme + "://"@ + host
        } else {
            url.scheme + "://"@ + host + ":"@ + decimal_of(port as int)
        },
        _ => "null"@,
    }
}

/// `url::Url::origin` and `Origin::ascii_serialization`, of a URL that is no
/// `blob`: the scheme, the host and the port unless it is the scheme's own, for
/// the schemes that have one, and `null` for all others. Of a `blob` it would
/// go down into every URL held by another, however many there are.
#[verifier::external_body]
pub(crate) fn plain_origin(text: &str) -> (r: String)
    requires
        url_of(text@) matches Ok(url) && url.scheme != "blob"@,
    ensures
        r@ == plain_origin_of(url_of(text@)->Ok_0),
{
    Url::parse(text).unwrap().origin().ascii_serialization()
}

/// The origin of a URL, where at most so many URLs hold another: that of the
/// innermost.
pub open spec fn origin_within(text: Seq<char>, depth: nat) -> Seq<char>
    decreases depth,
{
    match url_of(text) {
        Ok(url) => if url.scheme != "blob"@ {
            plain_origin_of(url)
        } else if depth == 0 {
            "null"@
        } else {
            origin_within(url.path, (depth - 1) as nat)
        },
        Err(_) => "null"@,
    }
}

/// The origin of a URL. A `blob` has that of the URL in its path. No text holds
/// more URLs than it has characters.
pub open spec fn origin_text(text: Seq<char>) -> Seq<char> {
    origin_within(text, text.len())
}

/// The origin of a URL, `null` where it has none.
pub fn read_origin(text: &str) -> (r: String)
    ensures
        r@ == origin_text(text@),
{
    let mut left: usize = text.unicode_len();
    let mut inner = text.to_owned();
    loop
        invariant
            origin_within(inner@, left as nat) == origin_text(text@),
        decreases left,
    {
        let url = match parse_url(inner.as_str()) {
            Ok(url) => url,
            Err(_) => return "null".to_owned(),
        };
        if !same(url.scheme.as_str(), "blob") {
            return plain_origin(inner.as_str());
        }
        if left == 0 {
            return "null".to_owned();
        }
        inner = url.path;
        left = left - 1;
    }
}

// --- laws ---

/// The origin of a URL is its scheme and host, and its port where that is not
/// the one its scheme has anyway; a URL of any other scheme has none.
pub proof fn origins_leave_out_the_usual_port(url: WebUrlView, host: Seq<char>, port: u16)
    requires
        url.host_text == Some(host),
        url.port == Some(port),
    ensures
        url.scheme == "https"@ && port == 443 ==> plain_origin_of(url) == "https"@ + "://"@ + host,
        url.scheme == "http"@ && port == 80 ==> plain_origin_of(url) == "http"@ + "://"@ + host,
        url.scheme == "https"@ && port != 443 ==> plain_origin_of(url) == "https"@ + "://"@ + host
            + ":"@ + decimal_of(port as int),
        url.scheme == "http"@ && port != 80 ==> plain_origin_of(url) == "http"@ + "://"@ + host
            + ":"@ + decimal_of(port as int),
        url.scheme != "http"@ && url.scheme != "https"@ && url.scheme != "ws"@ && url.scheme
            != "wss"@ && url.scheme != "ftp"@ ==> plain_origin_of(url) == "null"@,
{
    reveal_strlit("http");
    reveal_strlit("https");
    reveal_strlit("ws");
    reveal_strlit("wss");
    reveal_strlit("ftp");
    assert("http"@.len() == 4 && "https"@.len() == 5 && "ws"@.len() == 2);
}

/// A URL that holds another has the origin of that, and one that holds none has
/// its own.
pub proof fn held_urls_lend_their_origin(text: Seq<char>)
    requires
        text.len() > 0,
    ensures
        url_of(text) matches Ok(url) ==> url.scheme != "blob"@ ==> origin_text(text)
            == plain_origin_of(url),
        url_of(text) matches Ok(url) ==> url.scheme == "blob"@ ==> (url_of(url.path) matches Ok(
            inner,
        ) ==> inner.scheme != "blob"@ ==> origin_text(text) == plain_origin_of(inner)),
        url_of(text) is Err ==> origin_text(text) == "null"@,
{
    reveal_with_fuel(origin_within, 2);
}

/// A URL says what it holds, each part under its own name.
pub proof fn urls_say_what_they_hold(url: WebUrl, name: String, v4: [u8; 4], v6: [u8; 16])
    ensures
        url@.text == url.text@,
        url@.scheme == url.scheme@,
        url@.host_text == opt_text(url.host_text),
        url@.port == url.port,
        url@.path == url.path@,
        url.host is None ==> url@.host is None,
        url.host is Some ==> url@.host == Some(url.host->0@),
        UrlHost::Domain(name)@ == UrlHostView::Domain(name@),
        UrlHost::V4(v4)@ == UrlHostView::V4(v4@),
        UrlHost::V6(v6)@ == UrlHostView::V6(v6@),
{
}

/// Pairs are told in order, the name before the value.
pub proof fn pairs_are_told_in_order(pairs: Seq<(String, String)>, i: int)
    requires
        0 <= i < pairs.len(),
    ensures
        pairs_of(pairs).len() == pairs.len(),
        pairs_of(pairs)[i] == (pairs[i].0@, pairs[i].1@),
{
}

} // verus!
