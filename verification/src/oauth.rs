//! OAuth for watch credentials: which server, client and scope an
//! authorization goes by, the request itself, and what the token endpoint is
//! asked.
//!
//! A client is registered on the fly where the server offers that; for the
//! providers that do not, a public application is known.

use crate::digest::utf8;
use crate::sort::{is_text_before, text_before};
use crate::table::{copy_text, first_where, opt_str, opt_text, own_text, position};
use crate::text::{contains, ends_with, holds, lower_of, same, stands_at, texts, to_lower, words, words_of};
use crate::weburl::{origin_text, pair, pairs_of, read_origin, read_url, url_of};
use io_oauth::rfc6749::auth_request::Oauth20AuthRequestParams;
use io_oauth::rfc6749::state::Oauth20State;
use io_oauth::rfc7636::pkce::{Oauth20PkceCodeChallenge, Oauth20PkceCodeVerifier};
use serde::de::value::{Error, StrDeserializer};
use serde::Deserialize;
use std::borrow::Cow;
use std::str::FromStr;
use vstd::prelude::*;

verus! {

/// The endpoints of an authorization server.
#[derive(Debug)]
pub struct OauthEndpoints {
    /// Where the user is sent.
    pub authorization: String,
    /// Where tokens are had.
    pub token: String,
    /// Where clients register, if the server offers that.
    pub registration: Option<String>,
    /// The scopes that the server advertises.
    pub scopes_supported: Vec<String>,
}

/// The client to authenticate as.
#[derive(Debug)]
pub enum ClientId {
    /// Registered on the fly.
    Dynamic { client_id: String, client_secret: Option<String> },
    /// Known beforehand.
    Static { client_id: String, client_secret: Option<String> },
}

impl ClientId {
    pub open spec fn id_text(self) -> Seq<char> {
        match self {
            ClientId::Dynamic { client_id, .. } => client_id@,
            ClientId::Static { client_id, .. } => client_id@,
        }
    }

    pub open spec fn secret_text(self) -> Option<Seq<char>> {
        match self {
            ClientId::Dynamic { client_secret, .. } => opt_text(client_secret),
            ClientId::Static { client_secret, .. } => opt_text(client_secret),
        }
    }

    /// Its identifier.
    pub fn id(&self) -> (r: &str)
        ensures
            r@ == self.id_text(),
    {
        match self {
            ClientId::Dynamic { client_id, .. } => client_id.as_str(),
            ClientId::Static { client_id, .. } => client_id.as_str(),
        }
    }

    /// Its secret, if it has one.
    pub fn secret(&self) -> (r: Option<&str>)
        ensures
            opt_str(r) == self.secret_text(),
    {
        let secret = match self {
            ClientId::Dynamic { client_secret, .. } => client_secret,
            ClientId::Static { client_secret, .. } => client_secret,
        };
        match secret {
            Some(s) => Some(s.as_str()),
            None => None,
        }
    }
}

/// A request for an authorization: where to send the user, and what to keep
/// for the callback.
#[derive(Debug)]
pub struct AuthRequest {
    pub url: String,
    /// What the callback has to echo.
    pub state: String,
    /// What the code has to be redeemed with.
    pub verifier: String,
}

/// What a token endpoint grants.
#[derive(Debug)]
pub struct Tokens {
    pub access_token: String,
    pub refresh_token: Option<String>,
    pub expires_in: Option<usize>,
    pub scope: Option<String>,
}

/// Why an authorization cannot go on.
#[derive(Debug)]
pub enum OauthError {
    InvalidIssuer,
    /// The issuer publishes no metadata.
    NoMetadata(String),
    NoAuthorizationEndpoint,
    NoTokenEndpoint,
    /// Neither an issuer nor an authorization endpoint was given.
    NeedAuthorizationEndpoint,
    NeedTokenEndpoint,
    InvalidAuthorizationEndpoint,
    InvalidTokenEndpoint,
    NotConfigured,
    /// A byte that no verifier holds.
    InvalidVerifier(u8),
}

impl OauthError {
    /// What to tell the caller.
    pub open spec fn text(self) -> Seq<char> {
        match self {
            OauthError::InvalidIssuer => "invalid issuer URL"@,
            OauthError::NoMetadata(issuer) => "no RFC 8414 metadata for issuer "@ + issuer@,
            OauthError::NoAuthorizationEndpoint =>
                "issuer metadata has no authorization_endpoint"@,
            OauthError::NoTokenEndpoint => "issuer metadata has no token_endpoint"@,
            OauthError::NeedAuthorizationEndpoint =>
                "need an issuer or an authorization_endpoint"@,
            OauthError::NeedTokenEndpoint => "need a token_endpoint"@,
            OauthError::InvalidAuthorizationEndpoint => "invalid authorization_endpoint"@,
            OauthError::InvalidTokenEndpoint => "invalid token_endpoint"@,
            OauthError::NotConfigured => "OAuth is not configured for this provider yet"@,
            OauthError::InvalidVerifier(byte) => "invalid PKCE verifier byte "@
                + crate::text::decimal_of(byte as int),
        }
    }

    /// What to tell the caller.
    pub fn message(&self) -> (r: String)
        ensures
            r@ == self.text(),
    {
        match self {
            OauthError::InvalidIssuer => "invalid issuer URL".to_owned(),
            OauthError::NoMetadata(issuer) => crate::text::join2(
                "no RFC 8414 metadata for issuer ",
                issuer.as_str(),
            ),
            OauthError::NoAuthorizationEndpoint =>
                "issuer metadata has no authorization_endpoint".to_owned(),
            OauthError::NoTokenEndpoint => "issuer metadata has no token_endpoint".to_owned(),
            OauthError::NeedAuthorizationEndpoint =>
                "need an issuer or an authorization_endpoint".to_owned(),
            OauthError::NeedTokenEndpoint => "need a token_endpoint".to_owned(),
            OauthError::InvalidAuthorizationEndpoint => "invalid authorization_endpoint".to_owned(),
            OauthError::InvalidTokenEndpoint => "invalid token_endpoint".to_owned(),
            OauthError::NotConfigured => "OAuth is not configured for this provider yet".to_owned(),
            OauthError::InvalidVerifier(byte) => {
                let number = crate::text::decimal_u64(*byte as u64);
                crate::text::join2("invalid PKCE verifier byte ", number.as_str())
            },
        }
    }
}

// --- the issuer ---

/// What an issuer's metadata says.
#[derive(Debug)]
pub struct IssuerMetadata {
    pub authorization_endpoint: Option<String>,
    pub token_endpoint: Option<String>,
    pub registration_endpoint: Option<String>,
    pub scopes_supported: Vec<String>,
}

/// Whether an issuer can be asked for its metadata at all.
pub fn check_issuer(issuer: &str) -> (r: Result<(), OauthError>)
    ensures
        r == (if url_of(issuer@) is Ok {
            Ok::<(), OauthError>(())
        } else {
            Err(OauthError::InvalidIssuer)
        }),
{
    match read_url(issuer) {
        Ok(_) => Ok(()),
        Err(_) => Err(OauthError::InvalidIssuer),
    }
}

/// An issuer's endpoints, out of its metadata. Both the authorization and the
/// token endpoint have to be there.
pub fn resolve_issuer(issuer: &str, metadata: Option<IssuerMetadata>) -> (r: Result<
    OauthEndpoints,
    OauthError,
>)
    ensures
        match metadata {
            None => r matches Err(OauthError::NoMetadata(i)) && i@ == issuer@,
            Some(m) => match (m.authorization_endpoint, m.token_endpoint) {
                (None, _) => r == Err::<OauthEndpoints, OauthError>(
                    OauthError::NoAuthorizationEndpoint,
                ),
                (Some(_), None) => r == Err::<OauthEndpoints, OauthError>(
                    OauthError::NoTokenEndpoint,
                ),
                (Some(authorization), Some(token)) => r == Ok::<OauthEndpoints, OauthError>(
                    OauthEndpoints {
                        authorization,
                        token,
                        registration: m.registration_endpoint,
                        scopes_supported: m.scopes_supported,
                    },
                ),
            },
        },
{
    let m = match metadata {
        Some(m) => m,
        None => return Err(OauthError::NoMetadata(issuer.to_owned())),
    };
    let authorization = match m.authorization_endpoint {
        Some(url) => url,
        None => return Err(OauthError::NoAuthorizationEndpoint),
    };
    let token = match m.token_endpoint {
        Some(url) => url,
        None => return Err(OauthError::NoTokenEndpoint),
    };
    Ok(
        OauthEndpoints {
            authorization,
            token,
            registration: m.registration_endpoint,
            scopes_supported: m.scopes_supported,
        },
    )
}

// --- registration ---

/// What a server is asked to register.
#[derive(Debug)]
pub struct ClientRegistration {
    pub redirect_uris: Vec<String>,
    pub token_endpoint_auth_method: String,
    pub grant_types: Vec<String>,
    pub response_types: Vec<String>,
    pub client_name: String,
    pub scope: Option<String>,
}

/// What a server is asked to register: a public client, for authorization
/// codes and refresh tokens.
pub fn register_client(redirect_uri: &str, scope: Option<&str>) -> (r: ClientRegistration)
    ensures
        texts(r.redirect_uris@) == seq![redirect_uri@],
        r.token_endpoint_auth_method@ == "none"@,
        texts(r.grant_types@) == seq!["authorization_code"@, "refresh_token"@],
        texts(r.response_types@) == seq!["code"@],
        r.client_name@ == "Carillon"@,
        opt_text(r.scope) == opt_str(scope),
{
    let mut redirect_uris: Vec<String> = Vec::new();
    redirect_uris.push(redirect_uri.to_owned());
    let mut grant_types: Vec<String> = Vec::new();
    grant_types.push("authorization_code".to_owned());
    grant_types.push("refresh_token".to_owned());
    let mut response_types: Vec<String> = Vec::new();
    response_types.push("code".to_owned());
    assert(texts(redirect_uris@) =~= seq![redirect_uri@]);
    assert(texts(grant_types@) =~= seq!["authorization_code"@, "refresh_token"@]);
    assert(texts(response_types@) =~= seq!["code"@]);
    ClientRegistration {
        redirect_uris,
        token_endpoint_auth_method: "none".to_owned(),
        grant_types,
        response_types,
        client_name: "Carillon".to_owned(),
        scope: own_text(scope),
    }
}

// --- the request ---

/// Whether a text is a state: printable characters of ASCII.
pub open spec fn is_state(s: Seq<char>) -> bool {
    forall|i: int| 0 <= i < s.len() ==> ' ' <= #[trigger] s[i] <= '~'
}

/// Whether a character needs no escape in a URL.
pub open spec fn is_unreserved(c: char) -> bool {
    'a' <= c <= 'z' || 'A' <= c <= 'Z' || '0' <= c <= '9' || c == '-' || c == '.' || c == '_' || c
        == '~'
}

/// Whether a text is a verifier: characters that need no escape.
pub open spec fn is_verifier(s: Seq<char>) -> bool {
    forall|i: int| 0 <= i < s.len() ==> is_unreserved(#[trigger] s[i])
}

/// `Oauth20State::default`, as text: 32 random printable characters.
#[verifier::external_body]
fn fresh_state() -> (r: String)
    ensures
        r@.len() == 32,
        is_state(r@),
{
    String::from_utf8_lossy(Oauth20State::default().expose()).into_owned()
}

/// `Oauth20PkceCodeVerifier::default`, as text: 43 random characters that need
/// no escape.
#[verifier::external_body]
fn fresh_verifier() -> (r: String)
    ensures
        r@.len() == 43,
        is_verifier(r@),
{
    String::from_utf8_lossy(Oauth20PkceCodeVerifier::default().expose()).into_owned()
}

/// The URL of a request: the endpoint, the client, where to return to, the
/// scopes, the state, the verifier and further parameters.
pub uninterp spec fn request_url(
    endpoint: Seq<char>,
    client_id: Seq<char>,
    redirect_uri: Seq<char>,
    scopes: Seq<Seq<char>>,
    state: Seq<char>,
    verifier: Seq<char>,
    extras: Seq<(Seq<char>, Seq<char>)>,
) -> Seq<char>;

/// `Oauth20AuthRequestParams::build_url`, with the SHA-256 challenge of the
/// verifier: the URL depends on these values alone. The scopes and the extras
/// come in order and without duplicates, as the sets that it takes keep them.
#[verifier::external_body]
fn authorization_url(
    endpoint: &str,
    client_id: &str,
    redirect_uri: &str,
    scopes: &Vec<String>,
    state: &str,
    verifier: &str,
    extras: &Vec<(String, String)>,
) -> (r: String)
    requires
        url_of(endpoint@) is Ok,
        is_state(state@),
        is_verifier(verifier@),
    ensures
        r@ == request_url(
            endpoint@,
            client_id@,
            redirect_uri@,
            texts(scopes@),
            state@,
            verifier@,
            pairs_of(extras@),
        ),
{
    let state = Oauth20State::deserialize(StrDeserializer::<Error>::new(state)).unwrap();
    let mut challenge = Oauth20PkceCodeChallenge::default();
    challenge.verifier = Oauth20PkceCodeVerifier::from_str(verifier).unwrap();
    let params = Oauth20AuthRequestParams {
        client_id: client_id.into(),
        redirect_uri: Some(redirect_uri.into()),
        scope: scopes.iter().map(|s| s.into()).collect(),
        state: Some(Cow::Owned(state)),
        pkce_code_challenge: Some(Cow::Owned(challenge)),
        extras: extras.iter().map(|e| (e.0.as_str().into(), e.1.as_str().into())).collect(),
    };
    params.build_url(&url::Url::parse(endpoint).unwrap()).to_string()
}

/// Words in order with one more in its place, unless it is there.
pub open spec fn with_word(all: Seq<Seq<char>>, x: Seq<char>) -> Seq<Seq<char>>
    decreases all.len(),
{
    if all.len() == 0 || text_before(x, all[0]) {
        seq![x] + all
    } else if all[0] == x {
        all
    } else {
        seq![all[0]] + with_word(all.drop_first(), x)
    }
}

/// Words in order, each once.
pub open spec fn word_set(all: Seq<Seq<char>>) -> Seq<Seq<char>>
    decreases all.len(),
{
    if all.len() == 0 {
        Seq::empty()
    } else {
        with_word(word_set(all.drop_last()), all.last())
    }
}

fn add_word(all: &mut Vec<String>, x: &String)
    ensures
        texts(final(all)@) == with_word(texts(old(all)@), x@),
{
    let ghost ws = texts(all@);
    let mut j: usize = 0;
    assert(ws.skip(0) =~= ws);
    assert(ws.take(0) + with_word(ws, x@) =~= with_word(ws, x@));
    while j < all.len() && !is_text_before(x.as_str(), all[j].as_str()) && !same(
        x.as_str(),
        all[j].as_str(),
    )
        invariant
            ws == texts(all@),
            j <= all@.len(),
            ws.take(j as int) + with_word(ws.skip(j as int), x@) == with_word(ws, x@),
        decreases all@.len() - j,
    {
        proof {
            let rest = ws.skip(j as int);
            assert(rest[0] == all@[j as int]@);
            assert(rest.drop_first() =~= ws.skip(j + 1));
            assert(ws.take(j as int) + (seq![rest[0]] + with_word(rest.drop_first(), x@))
                =~= ws.take(j + 1) + with_word(ws.skip(j + 1), x@));
        }
        j += 1;
    }
    proof {
        if j < all@.len() {
            assert(ws.skip(j as int)[0] == all@[j as int]@);
        }
    }
    if j < all.len() && !is_text_before(x.as_str(), all[j].as_str()) {
        assert(ws.take(j as int) + ws.skip(j as int) =~= ws);
        return;
    }
    all.insert(j, x.clone());
    assert(texts(all@) =~= ws.take(j as int) + (seq![x@] + ws.skip(j as int)));
}

/// The scopes of a request: the words of a scope, in order, each once.
pub open spec fn scopes_of(scope: Option<Seq<char>>) -> Seq<Seq<char>> {
    match scope {
        Some(s) => word_set(words_of(s)),
        None => Seq::empty(),
    }
}

fn scope_words(scope: Option<&str>) -> (r: Vec<String>)
    ensures
        texts(r@) == scopes_of(opt_str(scope)),
{
    let mut out: Vec<String> = Vec::new();
    assert(texts(out@) =~= Seq::empty());
    if let Some(s) = scope {
        let all = words(s);
        let mut i: usize = 0;
        assert(word_set(texts(all@).take(0)) =~= Seq::empty());
        while i < all.len()
            invariant
                i <= all@.len(),
                texts(out@) == word_set(texts(all@).take(i as int)),
            decreases all@.len() - i,
        {
            assert(texts(all@).take(i + 1).drop_last() =~= texts(all@).take(i as int));
            add_word(&mut out, &all[i]);
            i += 1;
        }
        assert(texts(all@).take(i as int) =~= texts(all@));
    }
    out
}

/// Parameters in the order of their names with one more in its place, or in
/// the place of one with its name.
pub open spec fn with_param(
    all: Seq<(Seq<char>, Seq<char>)>,
    x: (Seq<char>, Seq<char>),
) -> Seq<(Seq<char>, Seq<char>)>
    decreases all.len(),
{
    if all.len() == 0 || text_before(x.0, all[0].0) {
        seq![x] + all
    } else if all[0].0 == x.0 {
        seq![x] + all.drop_first()
    } else {
        seq![all[0]] + with_param(all.drop_first(), x)
    }
}

/// Parameters in the order of their names; of those with the same name, the
/// last.
pub open spec fn param_map(all: Seq<(Seq<char>, Seq<char>)>) -> Seq<(Seq<char>, Seq<char>)>
    decreases all.len(),
{
    if all.len() == 0 {
        Seq::empty()
    } else {
        with_param(param_map(all.drop_last()), all.last())
    }
}

fn add_param(all: &mut Vec<(String, String)>, x: &(String, String))
    ensures
        pairs_of(final(all)@) == with_param(pairs_of(old(all)@), (x.0@, x.1@)),
{
    let ghost ps = pairs_of(all@);
    let ghost y = (x.0@, x.1@);
    let mut j: usize = 0;
    assert(ps.skip(0) =~= ps);
    assert(ps.take(0) + with_param(ps, y) =~= with_param(ps, y));
    while j < all.len() && !is_text_before(x.0.as_str(), all[j].0.as_str()) && !same(
        x.0.as_str(),
        all[j].0.as_str(),
    )
        invariant
            ps == pairs_of(all@),
            y == (x.0@, x.1@),
            j <= all@.len(),
            ps.take(j as int) + with_param(ps.skip(j as int), y) == with_param(ps, y),
        decreases all@.len() - j,
    {
        proof {
            let rest = ps.skip(j as int);
            assert(rest[0] == (all@[j as int].0@, all@[j as int].1@));
            assert(rest.drop_first() =~= ps.skip(j + 1));
            assert(ps.take(j as int) + (seq![rest[0]] + with_param(rest.drop_first(), y))
                =~= ps.take(j + 1) + with_param(ps.skip(j + 1), y));
        }
        j += 1;
    }
    proof {
        if j < all@.len() {
            assert(ps.skip(j as int)[0] == (all@[j as int].0@, all@[j as int].1@));
        }
    }
    let entry = pair(x.0.as_str(), x.1.as_str());
    if j < all.len() && !is_text_before(x.0.as_str(), all[j].0.as_str()) {
        all.set(j, entry);
        assert(pairs_of(all@) =~= ps.take(j as int) + (seq![y] + ps.skip(j as int).drop_first()));
        return;
    }
    all.insert(j, entry);
    assert(pairs_of(all@) =~= ps.take(j as int) + (seq![y] + ps.skip(j as int)));
}

fn params_in_order(all: &Vec<(String, String)>) -> (r: Vec<(String, String)>)
    ensures
        pairs_of(r@) == param_map(pairs_of(all@)),
{
    let mut out: Vec<(String, String)> = Vec::new();
    let mut i: usize = 0;
    assert(pairs_of(out@) =~= param_map(pairs_of(all@).take(0)));
    while i < all.len()
        invariant
            i <= all@.len(),
            pairs_of(out@) == param_map(pairs_of(all@).take(i as int)),
        decreases all@.len() - i,
    {
        assert(pairs_of(all@).take(i + 1).drop_last() =~= pairs_of(all@).take(i as int));
        add_param(&mut out, &all[i]);
        i += 1;
    }
    assert(pairs_of(all@).take(i as int) =~= pairs_of(all@));
    out
}

/// Whether this is the request for these values.
pub open spec fn requests(
    r: Result<AuthRequest, OauthError>,
    endpoints: OauthEndpoints,
    client_id: Seq<char>,
    redirect_uri: Seq<char>,
    scope: Option<Seq<char>>,
    extras: Seq<(Seq<char>, Seq<char>)>,
    state: Seq<char>,
    verifier: Seq<char>,
) -> bool {
    if url_of(endpoints.authorization@) is Ok {
        r matches Ok(request) && request.state@ == state && request.verifier@ == verifier
            && request.url@ == request_url(
            endpoints.authorization@,
            client_id,
            redirect_uri,
            scopes_of(scope),
            state,
            verifier,
            param_map(extras),
        )
    } else {
        r == Err::<AuthRequest, OauthError>(OauthError::InvalidAuthorizationEndpoint)
    }
}

/// The request with a given state and verifier. Refused where the
/// authorization endpoint is no URL.
pub fn build_authorization_with(
    endpoints: &OauthEndpoints,
    client_id: &str,
    redirect_uri: &str,
    scope: Option<&str>,
    extra_params: &Vec<(String, String)>,
    state: String,
    verifier: String,
) -> (r: Result<AuthRequest, OauthError>)
    requires
        is_state(state@),
        is_verifier(verifier@),
    ensures
        requests(
            r,
            *endpoints,
            client_id@,
            redirect_uri@,
            opt_str(scope),
            pairs_of(extra_params@),
            state@,
            verifier@,
        ),
{
    match read_url(endpoints.authorization.as_str()) {
        Ok(_) => {},
        Err(_) => return Err(OauthError::InvalidAuthorizationEndpoint),
    }
    let scopes = scope_words(scope);
    let extras = params_in_order(extra_params);
    let url = authorization_url(
        endpoints.authorization.as_str(),
        client_id,
        redirect_uri,
        &scopes,
        state.as_str(),
        verifier.as_str(),
        &extras,
    );
    Ok(AuthRequest { url, state, verifier })
}

/// The request with a fresh state and a fresh verifier.
pub fn build_authorization(
    endpoints: &OauthEndpoints,
    client_id: &str,
    redirect_uri: &str,
    scope: Option<&str>,
    extra_params: &Vec<(String, String)>,
) -> (r: Result<AuthRequest, OauthError>)
    ensures
        exists|state: Seq<char>, verifier: Seq<char>|
            is_state(state) && state.len() == 32 && is_verifier(verifier) && verifier.len() == 43
                && #[trigger] requests(
                r,
                *endpoints,
                client_id@,
                redirect_uri@,
                opt_str(scope),
                pairs_of(extra_params@),
                state,
                verifier,
            ),
{
    let state = fresh_state();
    let verifier = fresh_verifier();
    build_authorization_with(
        endpoints,
        client_id,
        redirect_uri,
        scope,
        extra_params,
        state,
        verifier,
    )
}

// --- tokens ---

/// What redeems an authorization code.
#[derive(Debug)]
pub struct CodeExchange {
    pub code: String,
    pub redirect_uri: String,
    pub client_id: String,
    pub client_secret: Option<String>,
    pub verifier: String,
}

/// Whether a byte needs no escape in a URL.
pub open spec fn is_unreserved_byte(b: u8) -> bool {
    is_unreserved(b as char)
}

/// The first byte that no verifier holds.
pub open spec fn bad_byte(bytes: Seq<u8>) -> Option<u8> {
    first_where(bytes, |b: u8| !is_unreserved_byte(b))
}

/// `Oauth20PkceCodeVerifier::from_str`: the first byte that it refuses.
#[verifier::external_body]
fn verifier_fault(verifier: &str) -> (r: Option<u8>)
    ensures
        r == bad_byte(utf8(verifier@)),
{
    Oauth20PkceCodeVerifier::from_str(verifier).err()
}

/// What redeems an authorization code, with the verifier that was kept.
pub fn exchange_code(client: &ClientId, redirect_uri: &str, code: &str, verifier: &str) -> (r:
    Result<CodeExchange, OauthError>)
    ensures
        match bad_byte(utf8(verifier@)) {
            Some(byte) => r == Err::<CodeExchange, OauthError>(OauthError::InvalidVerifier(byte)),
            None => r matches Ok(x) && x.code@ == code@ && x.redirect_uri@ == redirect_uri@
                && x.client_id@ == client.id_text() && opt_text(x.client_secret)
                == client.secret_text() && x.verifier@ == verifier@,
        },
{
    match verifier_fault(verifier) {
        Some(byte) => Err(OauthError::InvalidVerifier(byte)),
        None => Ok(
            CodeExchange {
                code: code.to_owned(),
                redirect_uri: redirect_uri.to_owned(),
                client_id: client.id().to_owned(),
                client_secret: own_text(client.secret()),
                verifier: verifier.to_owned(),
            },
        ),
    }
}

/// What refreshes an access token.
#[derive(Debug)]
pub struct TokenRefresh {
    pub client_id: String,
    pub client_secret: Option<String>,
    pub refresh_token: String,
}

/// What refreshes an access token.
pub fn refresh(client: &ClientId, refresh_token: &str) -> (r: TokenRefresh)
    ensures
        r.client_id@ == client.id_text(),
        opt_text(r.client_secret) == client.secret_text(),
        r.refresh_token@ == refresh_token@,
{
    TokenRefresh {
        client_id: client.id().to_owned(),
        client_secret: own_text(client.secret()),
        refresh_token: refresh_token.to_owned(),
    }
}

/// A verifier that a request was made with redeems its code: no byte of it is
/// refused.
pub proof fn own_verifier_is_accepted(verifier: Seq<char>)
    requires
        is_verifier(verifier),
    ensures
        bad_byte(utf8(verifier)) is None,
{
    assert forall|i: int| 0 <= i < verifier.len() implies 0 <= (#[trigger] verifier[i]) as nat
        && (verifier[i] as nat) < 128 by {
        assert(is_unreserved(verifier[i]));
    }
    assert(vstd::utf8::is_ascii_chars(verifier));
    vstd::utf8::is_ascii_chars_encode_utf8(verifier);
    let bytes = utf8(verifier);
    let bad = |b: u8| !is_unreserved_byte(b);
    crate::table::lemma_first_where(bytes, bad);
    assert forall|i: int| 0 <= i < bytes.len() implies !bad(#[trigger] bytes[i]) by {
        assert(verifier[i] as u8 == bytes[i]);
        assert(is_unreserved(verifier[i]));
        assert((bytes[i] as char) == verifier[i]);
    }
}

// --- known providers ---

/// A provider with a public application.
#[derive(Clone, Copy, Debug, PartialEq, Eq, Structural)]
pub enum KnownProvider {
    Google,
    Microsoft,
}

impl KnownProvider {
    pub open spec fn host_text(self) -> Seq<char> {
        match self {
            KnownProvider::Google => "google"@,
            KnownProvider::Microsoft => "microsoftonline"@,
        }
    }

    /// What its hosts hold.
    pub fn host(self) -> (r: &'static str)
        ensures
            r@ == self.host_text(),
    {
        match self {
            KnownProvider::Google => "google",
            KnownProvider::Microsoft => "microsoftonline",
        }
    }

    pub open spec fn client_id_text(self) -> Seq<char> {
        match self {
            KnownProvider::Google =>
                "406964657835-aq8lmia8j95dhl1a2bvharmfk3t1hgqj.apps.googleusercontent.com"@,
            KnownProvider::Microsoft => "9e5f94bc-e8a4-4e73-b8be-63364c29d753"@,
        }
    }

    /// The public application's identifier.
    pub fn client_id(self) -> (r: &'static str)
        ensures
            r@ == self.client_id_text(),
    {
        match self {
            KnownProvider::Google =>
                "406964657835-aq8lmia8j95dhl1a2bvharmfk3t1hgqj.apps.googleusercontent.com",
            KnownProvider::Microsoft => "9e5f94bc-e8a4-4e73-b8be-63364c29d753",
        }
    }

    pub open spec fn client_secret_text(self) -> Option<Seq<char>> {
        match self {
            KnownProvider::Google => Some("kSmqreRr0qwBWJgbf5Y-PjSU"@),
            KnownProvider::Microsoft => None,
        }
    }

    /// The public application's secret, which is public too.
    pub fn client_secret(self) -> (r: Option<&'static str>)
        ensures
            opt_str(r) == self.client_secret_text(),
    {
        match self {
            KnownProvider::Google => Some("kSmqreRr0qwBWJgbf5Y-PjSU"),
            KnownProvider::Microsoft => None,
        }
    }

    pub open spec fn scope_text(self) -> Seq<char> {
        match self {
            KnownProvider::Google => "https://mail.google.com/"@,
            KnownProvider::Microsoft =>
                "https://outlook.office.com/IMAP.AccessAsUser.All offline_access"@,
        }
    }

    /// The scope that gives access to mail alone.
    pub fn scope(self) -> (r: &'static str)
        ensures
            r@ == self.scope_text(),
    {
        match self {
            KnownProvider::Google => "https://mail.google.com/",
            KnownProvider::Microsoft =>
                "https://outlook.office.com/IMAP.AccessAsUser.All offline_access",
        }
    }

    pub open spec fn params_text(self) -> Seq<(Seq<char>, Seq<char>)> {
        match self {
            KnownProvider::Google => seq![("access_type"@, "offline"@), ("prompt"@, "consent"@)],
            KnownProvider::Microsoft => Seq::empty(),
        }
    }

    /// The parameters without which it grants no refresh token.
    pub fn auth_params(self) -> (r: Vec<(String, String)>)
        ensures
            pairs_of(r@) == self.params_text(),
    {
        let mut out: Vec<(String, String)> = Vec::new();
        match self {
            KnownProvider::Google => {
                out.push(pair("access_type", "offline"));
                out.push(pair("prompt", "consent"));
            },
            KnownProvider::Microsoft => {},
        }
        assert(pairs_of(out@) =~= self.params_text());
        out
    }
}

/// The known provider that a host belongs to.
pub open spec fn known(host: Seq<char>) -> Option<KnownProvider> {
    if holds(host, KnownProvider::Google.host_text()) {
        Some(KnownProvider::Google)
    } else if holds(host, KnownProvider::Microsoft.host_text()) {
        Some(KnownProvider::Microsoft)
    } else {
        None
    }
}

/// The known provider that a host belongs to.
pub fn provider_for(host: &str) -> (r: Option<KnownProvider>)
    ensures
        r == known(host@),
{
    if contains(host, KnownProvider::Google.host()) {
        Some(KnownProvider::Google)
    } else if contains(host, KnownProvider::Microsoft.host()) {
        Some(KnownProvider::Microsoft)
    } else {
        None
    }
}

/// Whether a scope gives access to mail.
pub open spec fn opens_mail(scope: Seq<char>) -> bool {
    let s = lower_of(scope);
    holds(s, "imap"@) || holds(s, ":mail"@) || stands_at(s, "/mail"@, s.len() - "/mail"@.len())
}

/// The scope to ask a server for, out of those that it advertises: the first
/// that gives access to mail, and offline access where there is such a scope.
pub open spec fn mail_scope_of(supported: Seq<String>) -> Option<Seq<char>> {
    let mail = first_where(supported, |s: String| opens_mail(s@));
    let offline = texts(supported).contains("offline_access"@);
    match mail {
        Some(s) => Some(
            if offline {
                s@ + " "@ + "offline_access"@
            } else {
                s@
            },
        ),
        None => if offline {
            Some("offline_access"@)
        } else {
            None
        },
    }
}

fn is_mail_scope(scope: &str) -> (r: bool)
    ensures
        r == opens_mail(scope@),
{
    let s = to_lower(scope);
    contains(s.as_str(), "imap") || contains(s.as_str(), ":mail") || ends_with(s.as_str(), "/mail")
}

fn has_text(all: &Vec<String>, x: &str) -> (r: bool)
    ensures
        r == texts(all@).contains(x@),
{
    let mut i: usize = 0;
    while i < all.len()
        invariant
            i <= all@.len(),
            forall|k: int| 0 <= k < i ==> (#[trigger] texts(all@)[k]) != x@,
        decreases all@.len() - i,
    {
        if same(all[i].as_str(), x) {
            assert(texts(all@)[i as int] == x@);
            return true;
        }
        assert(texts(all@)[i as int] == all@[i as int]@);
        i += 1;
    }
    false
}

/// The scope to ask a server for, out of those that it advertises.
pub fn mail_scope(supported: &Vec<String>) -> (r: Option<String>)
    ensures
        opt_text(r) == mail_scope_of(supported@),
{
    let test = |s: &String| -> (b: bool)
        ensures
            b == opens_mail(s@),
        { is_mail_scope(s.as_str()) };
    let mail = position(supported, test, Ghost(|s: String| opens_mail(s@)));
    let offline = has_text(supported, "offline_access");
    match mail {
        Some(i) => {
            let mut out = supported[i].clone();
            if offline {
                out.append(" ");
                out.append("offline_access");
            }
            Some(out)
        },
        None => if offline {
            Some("offline_access".to_owned())
        } else {
            None
        },
    }
}

/// Clients of our own for the known providers, in place of the public ones.
#[derive(Debug, Default)]
pub struct StaticClients {
    pub google: Option<(String, Option<String>)>,
    pub microsoft: Option<(String, Option<String>)>,
}

impl StaticClients {
    pub open spec fn of(self, host: Seq<char>) -> Option<(String, Option<String>)> {
        if host == "google"@ {
            self.google
        } else if host == "microsoftonline"@ {
            self.microsoft
        } else {
            None
        }
    }

    /// The client for a provider, by what its hosts hold.
    pub fn for_host(&self, host: &str) -> (r: Option<&(String, Option<String>)>)
        ensures
            match r {
                Some(c) => self.of(host@) == Some(*c),
                None => self.of(host@) is None,
            },
    {
        let own = if same(host, "google") {
            &self.google
        } else if same(host, "microsoftonline") {
            &self.microsoft
        } else {
            return None;
        };
        match own {
            Some(c) => Some(c),
            None => None,
        }
    }
}

/// What an authorization is to go by: an issuer, or endpoints, and the scope
/// that discovery found.
#[derive(Debug, Default)]
pub struct AuthInput {
    pub issuer: Option<String>,
    pub authorization_endpoint: Option<String>,
    pub token_endpoint: Option<String>,
    pub scope: Option<String>,
}

/// A planned authorization: the request, and what the callback needs to redeem
/// the code and to refresh later.
#[derive(Debug)]
pub struct Planned {
    pub auth: AuthRequest,
    pub token_endpoint: String,
    pub client_id: String,
    pub client_secret: Option<String>,
    pub resource: Option<String>,
    pub scope: Option<String>,
}

/// How the endpoints are had.
#[derive(Debug)]
pub enum EndpointPlan {
    /// From this issuer's metadata; without it there is no authorization.
    Issuer { issuer: String, host: String },
    /// From this issuer's metadata if it offers registration, else as given.
    Probe { issuer: String, direct: OauthEndpoints, host: String },
    /// As given.
    Direct { direct: OauthEndpoints, host: String },
}

/// The host of a URL; of what is none, the empty text.
pub open spec fn host_of(url: Seq<char>) -> Seq<char> {
    match url_of(url) {
        Ok(u) => match u.host_text {
            Some(h) => h,
            None => ""@,
        },
        Err(_) => ""@,
    }
}

fn host_text(url: &str) -> (r: String)
    ensures
        r@ == host_of(url@),
{
    match read_url(url) {
        Ok(u) => match u.host_text {
            Some(h) => h,
            None => "".to_owned(),
        },
        Err(_) => "".to_owned(),
    }
}

/// Whether endpoints are these two, with nothing advertised.
pub open spec fn bare_endpoints(e: OauthEndpoints, authorization: Seq<char>, token: Seq<char>) -> bool {
    e.authorization@ == authorization && e.token@ == token && e.registration is None
        && e.scopes_supported@.len() == 0
}

/// Whether this is how the endpoints are had.
pub open spec fn plans_endpoints(r: Result<EndpointPlan, OauthError>, input: AuthInput) -> bool {
    match (input.issuer, input.authorization_endpoint, input.token_endpoint) {
        (Some(i), _, _) => r matches Ok(EndpointPlan::Issuer { issuer, host }) && issuer == i
            && host@ == host_of(i@),
        (None, None, _) => r == Err::<EndpointPlan, OauthError>(
            OauthError::NeedAuthorizationEndpoint,
        ),
        (None, Some(_), None) => r == Err::<EndpointPlan, OauthError>(
            OauthError::NeedTokenEndpoint,
        ),
        (None, Some(a), Some(t)) => match (url_of(a@), url_of(t@)) {
            (Err(_), _) => r == Err::<EndpointPlan, OauthError>(
                OauthError::InvalidAuthorizationEndpoint,
            ),
            (Ok(_), Err(_)) => r == Err::<EndpointPlan, OauthError>(
                OauthError::InvalidTokenEndpoint,
            ),
            (Ok(au), Ok(tu)) => if known(host_of(a@)) is Some {
                r matches Ok(EndpointPlan::Direct { direct, host }) && host@ == host_of(a@)
                    && bare_endpoints(direct, au.text, tu.text)
            } else {
                r matches Ok(EndpointPlan::Probe { issuer, direct, host }) && host@ == host_of(a@)
                    && issuer@ == origin_text(a@) && bare_endpoints(direct, au.text, tu.text)
            },
        },
    }
}

/// How the endpoints are had. Endpoints that were found directly may belong to
/// a server that offers registration all the same: unless its provider is
/// known, its origin is tried as an issuer.
pub fn plan_endpoints(input: &AuthInput) -> (r: Result<EndpointPlan, OauthError>)
    ensures
        plans_endpoints(r, *input),
{
    if let Some(issuer) = &input.issuer {
        return Ok(
            EndpointPlan::Issuer { issuer: issuer.clone(), host: host_text(issuer.as_str()) },
        );
    }
    let authorization = match &input.authorization_endpoint {
        Some(url) => url,
        None => return Err(OauthError::NeedAuthorizationEndpoint),
    };
    let token = match &input.token_endpoint {
        Some(url) => url,
        None => return Err(OauthError::NeedTokenEndpoint),
    };
    let host = host_text(authorization.as_str());
    let a = match read_url(authorization.as_str()) {
        Ok(url) => url,
        Err(_) => return Err(OauthError::InvalidAuthorizationEndpoint),
    };
    let t = match read_url(token.as_str()) {
        Ok(url) => url,
        Err(_) => return Err(OauthError::InvalidTokenEndpoint),
    };
    let direct = OauthEndpoints {
        authorization: a.text,
        token: t.text,
        registration: None,
        scopes_supported: Vec::new(),
    };
    if provider_for(host.as_str()).is_some() {
        Ok(EndpointPlan::Direct { direct, host })
    } else {
        Ok(EndpointPlan::Probe { issuer: read_origin(authorization.as_str()), direct, host })
    }
}

/// The endpoints after a probe: what the issuer's metadata says where it
/// offers registration, else the endpoints as given.
pub fn probed_endpoints(direct: OauthEndpoints, metadata: Option<OauthEndpoints>) -> (r:
    OauthEndpoints)
    ensures
        r == (match metadata {
            Some(m) => if m.registration is Some {
                m
            } else {
                direct
            },
            None => direct,
        }),
{
    match metadata {
        Some(m) => if m.registration.is_some() {
            m
        } else {
            direct
        },
        None => direct,
    }
}

/// How the client is had.
#[derive(Debug)]
pub enum ClientPlan {
    /// By registering it here, for a scope.
    Register { registration: String, scope: Option<String> },
    /// It is known.
    Known { client: ClientId, scope: Option<String> },
}

/// Whether this is how the client is had.
pub open spec fn plans_client(
    r: Result<ClientPlan, OauthError>,
    endpoints: OauthEndpoints,
    host: Seq<char>,
    found_scope: Option<Seq<char>>,
    clients: StaticClients,
) -> bool {
    match endpoints.registration {
        Some(url) => r matches Ok(ClientPlan::Register { registration, scope }) && registration
            == url && opt_text(scope) == (match mail_scope_of(endpoints.scopes_supported@) {
            Some(s) => Some(s),
            None => found_scope,
        }),
        None => match known(host) {
            Some(provider) => r matches Ok(ClientPlan::Known { client, scope }) && opt_text(scope)
                == Some(provider.scope_text()) && client is Static && (match clients.of(
                provider.host_text(),
            ) {
                Some(own) => client.id_text() == own.0@ && client.secret_text() == opt_text(own.1),
                None => client.id_text() == provider.client_id_text() && client.secret_text()
                    == provider.client_secret_text(),
            }),
            None => r == Err::<ClientPlan, OauthError>(OauthError::NotConfigured),
        },
    }
}

/// How the client is had: by registration where the server offers it, for the
/// scope that it advertises; else as our own or the public application of a
/// known provider, for the provider's scope.
pub fn plan_client(
    endpoints: &OauthEndpoints,
    host: &str,
    found_scope: &Option<String>,
    clients: &StaticClients,
) -> (r: Result<ClientPlan, OauthError>)
    ensures
        plans_client(r, *endpoints, host@, opt_text(*found_scope), *clients),
{
    if let Some(registration) = &endpoints.registration {
        let scope = match mail_scope(&endpoints.scopes_supported) {
            Some(scope) => Some(scope),
            None => copy_text(found_scope),
        };
        return Ok(ClientPlan::Register { registration: registration.clone(), scope });
    }
    let provider = match provider_for(host) {
        Some(provider) => provider,
        None => return Err(OauthError::NotConfigured),
    };
    let client = match clients.for_host(provider.host()) {
        Some(own) => ClientId::Static {
            client_id: own.0.clone(),
            client_secret: copy_text(&own.1),
        },
        None => ClientId::Static {
            client_id: provider.client_id().to_owned(),
            client_secret: own_text(provider.client_secret()),
        },
    };
    Ok(ClientPlan::Known { client, scope: Some(provider.scope().to_owned()) })
}

/// The further parameters for a host: those of its provider, if it is known.
pub open spec fn params_for(host: Seq<char>) -> Seq<(Seq<char>, Seq<char>)> {
    match known(host) {
        Some(provider) => provider.params_text(),
        None => Seq::empty(),
    }
}

/// Whether this is the plan for a client and a scope.
pub open spec fn plans(
    r: Result<Planned, OauthError>,
    endpoints: OauthEndpoints,
    host: Seq<char>,
    client: ClientId,
    scope: Option<Seq<char>>,
    redirect_uri: Seq<char>,
    state: Seq<char>,
    verifier: Seq<char>,
) -> bool {
    match r {
        Ok(p) => {
            &&& requests(
                Ok::<AuthRequest, OauthError>(p.auth),
                endpoints,
                client.id_text(),
                redirect_uri,
                scope,
                params_for(host),
                state,
                verifier,
            )
            &&& p.token_endpoint == endpoints.token
            &&& p.client_id@ == client.id_text()
            &&& opt_text(p.client_secret) == client.secret_text()
            &&& p.resource is None
            &&& opt_text(p.scope) == scope
        },
        Err(e) => requests(
            Err::<AuthRequest, OauthError>(e),
            endpoints,
            client.id_text(),
            redirect_uri,
            scope,
            params_for(host),
            state,
            verifier,
        ),
    }
}

/// Plans the authorization once the endpoints and the client are had, with a
/// given state and verifier.
pub fn plan_authorization_with(
    endpoints: &OauthEndpoints,
    host: &str,
    client: &ClientId,
    scope: Option<String>,
    redirect_uri: &str,
    state: String,
    verifier: String,
) -> (r: Result<Planned, OauthError>)
    requires
        is_state(state@),
        is_verifier(verifier@),
    ensures
        plans(
            r,
            *endpoints,
            host@,
            *client,
            opt_text(scope),
            redirect_uri@,
            state@,
            verifier@,
        ),
{
    let extras: Vec<(String, String)> = match provider_for(host) {
        Some(provider) => provider.auth_params(),
        None => Vec::new(),
    };
    assert(pairs_of(extras@) =~= params_for(host@));
    let wanted = match &scope {
        Some(s) => Some(s.as_str()),
        None => None,
    };
    let auth = match build_authorization_with(
        endpoints,
        client.id(),
        redirect_uri,
        wanted,
        &extras,
        state,
        verifier,
    ) {
        Ok(auth) => auth,
        Err(e) => return Err(e),
    };
    Ok(
        Planned {
            auth,
            token_endpoint: endpoints.token.clone(),
            client_id: client.id().to_owned(),
            client_secret: own_text(client.secret()),
            resource: None,
            scope,
        },
    )
}

/// Plans the authorization once the endpoints and the client are had, with a
/// fresh state and a fresh verifier.
pub fn plan_authorization(
    endpoints: &OauthEndpoints,
    host: &str,
    client: &ClientId,
    scope: Option<String>,
    redirect_uri: &str,
) -> (r: Result<Planned, OauthError>)
    ensures
        exists|state: Seq<char>, verifier: Seq<char>|
            is_state(state) && state.len() == 32 && is_verifier(verifier) && verifier.len() == 43
                && #[trigger] plans(
                r,
                *endpoints,
                host@,
                *client,
                opt_text(scope),
                redirect_uri@,
                state,
                verifier,
            ),
{
    let state = fresh_state();
    let verifier = fresh_verifier();
    plan_authorization_with(endpoints, host, client, scope, redirect_uri, state, verifier)
}

// --- laws ---

/// A client goes by its own identifier and secret, however it was had.
pub proof fn clients_are_who_they_say(id: String, secret: Option<String>)
    ensures
        (ClientId::Dynamic { client_id: id, client_secret: secret }).id_text() == id@,
        (ClientId::Static { client_id: id, client_secret: secret }).id_text() == id@,
        (ClientId::Dynamic { client_id: id, client_secret: secret }).secret_text() == opt_text(
            secret,
        ),
        (ClientId::Static { client_id: id, client_secret: secret }).secret_text() == opt_text(
            secret,
        ),
{
}

/// The known providers, their public applications and the scopes that give
/// access to mail and to nothing else.
pub proof fn known_providers_are_these(host: Seq<char>)
    ensures
        holds(host, "google"@) ==> known(host) == Some(KnownProvider::Google),
        !holds(host, "google"@) && holds(host, "microsoftonline"@) ==> known(host) == Some(
            KnownProvider::Microsoft,
        ),
        !holds(host, "google"@) && !holds(host, "microsoftonline"@) ==> known(host) is None,
        KnownProvider::Google.scope_text() == "https://mail.google.com/"@,
        KnownProvider::Microsoft.scope_text()
            == "https://outlook.office.com/IMAP.AccessAsUser.All offline_access"@,
        KnownProvider::Microsoft.client_secret_text() is None,
        KnownProvider::Google.client_secret_text() == Some("kSmqreRr0qwBWJgbf5Y-PjSU"@),
        KnownProvider::Google.client_id_text()
            == "406964657835-aq8lmia8j95dhl1a2bvharmfk3t1hgqj.apps.googleusercontent.com"@,
        KnownProvider::Microsoft.client_id_text() == "9e5f94bc-e8a4-4e73-b8be-63364c29d753"@,
        KnownProvider::Google.client_id_text() != KnownProvider::Microsoft.client_id_text(),
        KnownProvider::Google.host_text() == "google"@,
        KnownProvider::Microsoft.host_text() == "microsoftonline"@,
{
    reveal_strlit("406964657835-aq8lmia8j95dhl1a2bvharmfk3t1hgqj.apps.googleusercontent.com");
    reveal_strlit("9e5f94bc-e8a4-4e73-b8be-63364c29d753");
    assert(KnownProvider::Microsoft.client_id_text().len() == 36);
    assert(KnownProvider::Google.client_id_text()[0] == '4');
    assert(KnownProvider::Microsoft.client_id_text()[0] == '9');
}

/// Google is asked for offline access and for consent, so that it grants a
/// refresh token; nobody else is asked for anything further.
pub proof fn google_is_asked_for_offline_access(host: Seq<char>)
    ensures
        holds(host, "google"@) ==> params_for(host).contains(("access_type"@, "offline"@))
            && params_for(host).contains(("prompt"@, "consent"@)) && params_for(host).len() == 2,
        !holds(host, "google"@) ==> params_for(host).len() == 0,
{
    if holds(host, "google"@) {
        assert(params_for(host)[0] == ("access_type"@, "offline"@));
        assert(params_for(host)[1] == ("prompt"@, "consent"@));
    }
}

/// A scope is about mail where it names IMAP or mail as a part of its own.
pub proof fn mail_scopes_name_mail(a: Seq<char>, b: Seq<char>)
    ensures
        opens_mail(a + "imap"@ + b),
        opens_mail(a + ":mail"@ + b),
        opens_mail(a + "/mail"@),
        opens_mail(a + "IMAP"@ + b),
{
    reveal_strlit("imap");
    reveal_strlit("IMAP");
    reveal_strlit(":mail");
    reveal_strlit("/mail");
    crate::text::lemma_lower_join(a + "imap"@, b);
    crate::text::lemma_lower_join(a, "imap"@);
    crate::text::lemma_lower_join(a + "IMAP"@, b);
    crate::text::lemma_lower_join(a, "IMAP"@);
    crate::text::lemma_lower_join(a + ":mail"@, b);
    crate::text::lemma_lower_join(a, ":mail"@);
    crate::text::lemma_lower_join(a, "/mail"@);
    assert(lower_of("imap"@) =~= "imap"@);
    assert(lower_of("IMAP"@) =~= "imap"@);
    assert(lower_of(":mail"@) =~= ":mail"@);
    assert(lower_of("/mail"@) =~= "/mail"@);
    crate::text::texts_hold_their_parts(lower_of(a), "imap"@, lower_of(b));
    crate::text::texts_hold_their_parts(lower_of(a), ":mail"@, lower_of(b));
    let s = lower_of(a + "/mail"@);
    assert(s.subrange(s.len() - 5, s.len() as int) =~= "/mail"@);
}

/// A server is asked for the first scope it advertises that is about mail, and
/// for offline access where it advertises that; for nothing where it advertises
/// neither.
pub proof fn first_mail_scope_is_asked_for(supported: Seq<String>, i: int)
    requires
        0 <= i < supported.len(),
        opens_mail(supported[i]@),
        forall|j: int| 0 <= j < i ==> !opens_mail((#[trigger] supported[j])@),
    ensures
        (exists|k: int| 0 <= k < supported.len() && (#[trigger] supported[k])@ == "offline_access"@)
            ==> mail_scope_of(supported) == Some(supported[i]@ + " "@ + "offline_access"@),
        (forall|k: int| 0 <= k < supported.len() ==> (#[trigger] supported[k])@ != "offline_access"@)
            ==> mail_scope_of(supported) == Some(supported[i]@),
{
    let p = |s: String| opens_mail(s@);
    lemma_first_at(supported, p, i);
    let all = texts(supported);
    if exists|k: int| 0 <= k < supported.len() && (#[trigger] supported[k])@ == "offline_access"@ {
        let k = choose|k: int|
            0 <= k < supported.len() && (#[trigger] supported[k])@ == "offline_access"@;
        assert(all[k] == "offline_access"@);
        assert(all.contains("offline_access"@));
    }
    if all.contains("offline_access"@) {
        let k = choose|k: int| 0 <= k < all.len() && all[k] == "offline_access"@;
        assert(supported[k]@ == "offline_access"@);
    }
}

/// Where no scope that a server advertises is about mail, it is asked for
/// offline access alone, or for nothing.
pub proof fn no_mail_scope_is_made_up(supported: Seq<String>)
    requires
        forall|j: int| 0 <= j < supported.len() ==> !opens_mail((#[trigger] supported[j])@),
    ensures
        mail_scope_of(supported) is None || mail_scope_of(supported) == Some("offline_access"@),
        (forall|k: int| 0 <= k < supported.len() ==> (#[trigger] supported[k])@ != "offline_access"@)
            ==> mail_scope_of(supported) is None,
{
    let p = |s: String| opens_mail(s@);
    crate::table::lemma_first_where(supported, p);
    let all = texts(supported);
    if all.contains("offline_access"@) {
        let k = choose|k: int| 0 <= k < all.len() && all[k] == "offline_access"@;
        assert(supported[k]@ == "offline_access"@);
    }
}

proof fn lemma_first_at<T>(s: Seq<T>, p: spec_fn(T) -> bool, i: int)
    requires
        0 <= i < s.len(),
        p(s[i]),
        forall|j: int| 0 <= j < i ==> !p(#[trigger] s[j]),
    ensures
        first_where(s, p) == Some(s[i]),
    decreases i,
{
    if i > 0 {
        let rest = s.drop_first();
        assert(!p(s[0]));
        assert forall|j: int| 0 <= j < i - 1 implies !p(#[trigger] rest[j]) by {
            assert(rest[j] == s[j + 1]);
        }
        lemma_first_at(rest, p, i - 1);
    }
}

proof fn lemma_with_word(all: Seq<Seq<char>>, x: Seq<char>)
    ensures
        forall|y: Seq<char>| #[trigger] with_word(all, x).contains(y) <==> all.contains(y) || y == x,
        (forall|i: int, j: int| 0 <= i < j < all.len() ==> text_before(#[trigger] all[i], #[trigger] all[j]))
            ==> (forall|i: int, j: int|
            0 <= i < j < with_word(all, x).len() ==> text_before(
                #[trigger] with_word(all, x)[i],
                #[trigger] with_word(all, x)[j],
            )),
    decreases all.len(),
{
    let r = with_word(all, x);
    let up = forall|i: int, j: int|
        0 <= i < j < all.len() ==> text_before(#[trigger] all[i], #[trigger] all[j]);
    if all.len() == 0 || text_before(x, all[0]) {
        assert forall|y: Seq<char>| #[trigger] r.contains(y) <==> all.contains(y) || y == x by {
            if all.contains(y) {
                let k = choose|k: int| 0 <= k < all.len() && all[k] == y;
                assert(r[k + 1] == y);
            }
            if y == x {
                assert(r[0] == y);
            }
        }
        if up {
            assert forall|i: int, j: int| 0 <= i < j < r.len() implies text_before(
                #[trigger] r[i],
                #[trigger] r[j],
            ) by {
                if i == 0 && j > 1 {
                    assert(text_before(all[0], all[j - 1]));
                    lemma_text_trans(x, all[0], all[j - 1]);
                } else if i > 0 {
                    assert(text_before(all[i - 1], all[j - 1]));
                }
            }
        }
    } else if all[0] == x {
    } else {
        let rest = all.drop_first();
        let tail = with_word(rest, x);
        lemma_with_word(rest, x);
        assert forall|y: Seq<char>| #[trigger] r.contains(y) <==> all.contains(y) || y == x by {
            if r.contains(y) {
                let k = choose|k: int| 0 <= k < r.len() && r[k] == y;
                if k == 0 {
                    assert(all[0] == y);
                } else {
                    assert(tail[k - 1] == y);
                    assert(tail.contains(y));
                    if y != x {
                        let m = choose|m: int| 0 <= m < rest.len() && rest[m] == y;
                        assert(all[m + 1] == y);
                    }
                }
            }
            if all.contains(y) {
                let k = choose|k: int| 0 <= k < all.len() && all[k] == y;
                if k == 0 {
                    assert(r[0] == y);
                } else {
                    assert(rest[k - 1] == y);
                    assert(tail.contains(y));
                    let m = choose|m: int| 0 <= m < tail.len() && tail[m] == y;
                    assert(r[m + 1] == y);
                }
            }
            if y == x {
                assert(tail.contains(x));
                let m = choose|m: int| 0 <= m < tail.len() && tail[m] == x;
                assert(r[m + 1] == x);
            }
        }
        if up {
            assert forall|i: int, j: int| 0 <= i < j < rest.len() implies text_before(
                #[trigger] rest[i],
                #[trigger] rest[j],
            ) by {
                assert(text_before(all[i + 1], all[j + 1]));
            }
            crate::sort::lemma_text_total(x, all[0]);
            assert forall|i: int, j: int| 0 <= i < j < r.len() implies text_before(
                #[trigger] r[i],
                #[trigger] r[j],
            ) by {
                if i == 0 {
                    assert(tail.contains(tail[j - 1]));
                    if tail[j - 1] != x {
                        let k = choose|k: int| 0 <= k < rest.len() && rest[k] == tail[j - 1];
                        assert(text_before(all[0], all[k + 1]));
                    }
                } else {
                    assert(text_before(tail[i - 1], tail[j - 1]));
                }
            }
        }
    }
}

proof fn lemma_text_trans(a: Seq<char>, b: Seq<char>, c: Seq<char>)
    requires
        text_before(a, b),
        text_before(b, c),
    ensures
        text_before(a, c),
{
    crate::sort::lemma_text_total(a, c);
    crate::sort::lemma_text_asymmetric(a, b);
    crate::sort::lemma_text_asymmetric(b, c);
    if !text_before(a, c) {
        crate::sort::lemma_text_weak(a, c, b);
    }
}

/// A request asks for exactly the words of its scope, each once and in order;
/// one without a scope asks for none.
pub proof fn request_asks_for_the_words_of_its_scope(scope: Seq<char>, x: Seq<char>)
    ensures
        scopes_of(Some(scope)).contains(x) <==> words_of(scope).contains(x),
        forall|i: int, j: int|
            0 <= i < j < scopes_of(Some(scope)).len() ==> text_before(
                #[trigger] scopes_of(Some(scope))[i],
                #[trigger] scopes_of(Some(scope))[j],
            ),
        scopes_of(None).len() == 0,
{
    lemma_word_set(words_of(scope), x);
}

proof fn lemma_word_set(all: Seq<Seq<char>>, x: Seq<char>)
    ensures
        word_set(all).contains(x) <==> all.contains(x),
        forall|i: int, j: int|
            0 <= i < j < word_set(all).len() ==> text_before(
                #[trigger] word_set(all)[i],
                #[trigger] word_set(all)[j],
            ),
    decreases all.len(),
{
    if all.len() > 0 {
        let t = all.drop_last();
        lemma_word_set(t, x);
        lemma_with_word(word_set(t), all.last());
        assert(word_set(all).contains(x) <==> word_set(t).contains(x) || x == all.last());
        if t.contains(x) {
            let k = choose|k: int| 0 <= k < t.len() && t[k] == x;
            assert(all[k] == x);
        }
        if all.contains(x) {
            let k = choose|k: int| 0 <= k < all.len() && all[k] == x;
            if k < t.len() {
                assert(t[k] == x);
            }
        }
        if x == all.last() {
            assert(all[all.len() - 1] == x);
        }
    }
}

/// A request carries the state and the verifier that it was made with, and goes
/// to the authorization endpoint, for the client and back to where it says; one
/// to what is no URL is refused.
pub proof fn request_is_made_as_asked(
    r: Result<AuthRequest, OauthError>,
    endpoints: OauthEndpoints,
    client_id: Seq<char>,
    redirect_uri: Seq<char>,
    scope: Option<Seq<char>>,
    extras: Seq<(Seq<char>, Seq<char>)>,
    state: Seq<char>,
    verifier: Seq<char>,
)
    requires
        requests(r, endpoints, client_id, redirect_uri, scope, extras, state, verifier),
    ensures
        url_of(endpoints.authorization@) is Err ==> r == Err::<AuthRequest, OauthError>(
            OauthError::InvalidAuthorizationEndpoint,
        ),
        url_of(endpoints.authorization@) is Ok ==> {
            &&& r matches Ok(request)
            &&& request.state@ == state
            &&& request.verifier@ == verifier
            &&& exists|scopes: Seq<Seq<char>>, params: Seq<(Seq<char>, Seq<char>)>|
                request.url@ == #[trigger] request_url(
                    endpoints.authorization@,
                    client_id,
                    redirect_uri,
                    scopes,
                    state,
                    verifier,
                    params,
                )
        },
{
}

/// Where an issuer is named, its metadata is asked for, and nothing else counts;
/// where none is, both endpoints are needed, each has to be a URL, and each is
/// used as itself.
pub proof fn endpoints_are_had_from_what_is_named(r: Result<EndpointPlan, OauthError>, input: AuthInput)
    requires
        plans_endpoints(r, input),
    ensures
        input.issuer matches Some(i) ==> (r matches Ok(EndpointPlan::Issuer { issuer, host })
            && issuer@ == i@),
        input.issuer is None && input.authorization_endpoint is None ==> r == Err::<
            EndpointPlan,
            OauthError,
        >(OauthError::NeedAuthorizationEndpoint),
        input.issuer is None && input.authorization_endpoint is Some && input.token_endpoint is None
            ==> r == Err::<EndpointPlan, OauthError>(OauthError::NeedTokenEndpoint),
        r matches Ok(EndpointPlan::Direct { direct, host }) ==> {
            &&& input.authorization_endpoint matches Some(a)
            &&& input.token_endpoint matches Some(t)
            &&& url_of(a@) matches Ok(au) && direct.authorization@ == au.text
            &&& url_of(t@) matches Ok(tu) && direct.token@ == tu.text
            &&& direct.registration is None
            &&& holds(host@, "google"@) || holds(host@, "microsoftonline"@)
        },
        r matches Ok(EndpointPlan::Probe { issuer, direct, host }) ==> {
            &&& input.authorization_endpoint matches Some(a)
            &&& input.token_endpoint matches Some(t)
            &&& url_of(a@) matches Ok(au) && direct.authorization@ == au.text
            &&& url_of(t@) matches Ok(tu) && direct.token@ == tu.text
            &&& direct.registration is None
            &&& !holds(host@, "google"@) && !holds(host@, "microsoftonline"@)
            &&& issuer@ == origin_text(a@)
        },
        r matches Err(OauthError::InvalidAuthorizationEndpoint) ==> (
        input.authorization_endpoint matches Some(a) && url_of(a@) is Err),
        r matches Err(OauthError::InvalidTokenEndpoint) ==> (input.token_endpoint matches Some(t)
            && url_of(t@) is Err),
        input.issuer is None && (input.authorization_endpoint matches Some(a) && url_of(a@) is Ok)
            && (input.token_endpoint matches Some(t) && url_of(t@) is Ok) ==> r is Ok,
{
}

/// A server that offers registration is registered with; any other is used with
/// our own client for its provider, or the provider's public one, for mail; and
/// an unknown one cannot be.
pub proof fn clients_are_registered_or_known(
    r: Result<ClientPlan, OauthError>,
    endpoints: OauthEndpoints,
    host: Seq<char>,
    found: Option<Seq<char>>,
    clients: StaticClients,
)
    requires
        plans_client(r, endpoints, host, found, clients),
    ensures
        endpoints.registration matches Some(url) ==> (r matches Ok(
            ClientPlan::Register { registration, scope },
        ) && registration@ == url@ && (mail_scope_of(endpoints.scopes_supported@) is None
            ==> opt_text(scope) == found) && (mail_scope_of(endpoints.scopes_supported@) is Some
            ==> opt_text(scope) == mail_scope_of(endpoints.scopes_supported@))),
        endpoints.registration is None && !holds(host, "google"@) && !holds(
            host,
            "microsoftonline"@,
        ) ==> r == Err::<ClientPlan, OauthError>(OauthError::NotConfigured),
        endpoints.registration is None && holds(host, "google"@) ==> {
            &&& r matches Ok(ClientPlan::Known { client, scope })
            &&& opt_text(scope) == Some("https://mail.google.com/"@)
            &&& clients.google matches Some(own) ==> client.id_text() == own.0@
                && client.secret_text() == opt_text(own.1)
            &&& clients.google is None ==> client.id_text()
                == "406964657835-aq8lmia8j95dhl1a2bvharmfk3t1hgqj.apps.googleusercontent.com"@
        },
        endpoints.registration is None && !holds(host, "google"@) && holds(
            host,
            "microsoftonline"@,
        ) ==> {
            &&& r matches Ok(ClientPlan::Known { client, scope })
            &&& opt_text(scope) == Some(
                "https://outlook.office.com/IMAP.AccessAsUser.All offline_access"@,
            )
            &&& clients.microsoft matches Some(own) ==> client.id_text() == own.0@
                && client.secret_text() == opt_text(own.1)
            &&& clients.microsoft is None ==> client.id_text()
                == "9e5f94bc-e8a4-4e73-b8be-63364c29d753"@ && client.secret_text() is None
        },
{
    reveal_strlit("google");
    reveal_strlit("microsoftonline");
    assert("google"@.len() == 6 && "microsoftonline"@.len() == 15);
}

/// A plan keeps what the callback needs: the token endpoint, the client that
/// asked and the scope it asked for.
pub proof fn plan_keeps_what_the_callback_needs(
    r: Result<Planned, OauthError>,
    endpoints: OauthEndpoints,
    host: Seq<char>,
    client: ClientId,
    scope: Option<Seq<char>>,
    redirect_uri: Seq<char>,
    state: Seq<char>,
    verifier: Seq<char>,
)
    requires
        plans(r, endpoints, host, client, scope, redirect_uri, state, verifier),
    ensures
        r is Ok <==> url_of(endpoints.authorization@) is Ok,
        r matches Ok(p) ==> {
            &&& p.token_endpoint@ == endpoints.token@
            &&& p.client_id@ == client.id_text()
            &&& opt_text(p.client_secret) == client.secret_text()
            &&& opt_text(p.scope) == scope
            &&& p.auth.state@ == state
            &&& p.auth.verifier@ == verifier
            &&& p.resource is None
        },
{
}

/// The verifier's characters are the letters, the digits and four marks.
pub proof fn verifiers_need_no_escape(c: char)
    ensures
        is_unreserved(c) <==> {
            let n = c as int;
            ||| 65 <= n <= 90
            ||| 97 <= n <= 122
            ||| 48 <= n <= 57
            ||| n == 45
            ||| n == 46
            ||| n == 95
            ||| n == 126
        },
{
}

proof fn lemma_with_param(all: Seq<(Seq<char>, Seq<char>)>, x: (Seq<char>, Seq<char>))
    ensures
        with_param(all, x).contains(x),
        forall|y: (Seq<char>, Seq<char>)|
            all.contains(y) && y.0 != x.0 ==> #[trigger] with_param(all, x).contains(y),
        forall|y: (Seq<char>, Seq<char>)|
            #[trigger] with_param(all, x).contains(y) ==> y == x || all.contains(y),
    decreases all.len(),
{
    let r = with_param(all, x);
    if all.len() == 0 || text_before(x.0, all[0].0) {
        assert(r[0] == x);
        assert forall|y: (Seq<char>, Seq<char>)| all.contains(y) implies #[trigger] r.contains(y) by {
            let k = choose|k: int| 0 <= k < all.len() && all[k] == y;
            assert(r[k + 1] == y);
        }
    } else if all[0].0 == x.0 {
        assert(r[0] == x);
        assert forall|y: (Seq<char>, Seq<char>)| all.contains(y) && y.0
            != x.0 implies #[trigger] r.contains(y) by {
            let k = choose|k: int| 0 <= k < all.len() && all[k] == y;
            assert(k > 0);
            assert(r[k] == y);
        }
        assert forall|y: (Seq<char>, Seq<char>)| #[trigger] r.contains(y) implies y == x
            || all.contains(y) by {
            let k = choose|k: int| 0 <= k < r.len() && r[k] == y;
            if k > 0 {
                assert(all[k] == y);
            }
        }
    } else {
        let rest = all.drop_first();
        let tail = with_param(rest, x);
        lemma_with_param(rest, x);
        let m = choose|m: int| 0 <= m < tail.len() && tail[m] == x;
        assert(r[m + 1] == x);
        assert forall|y: (Seq<char>, Seq<char>)| all.contains(y) && y.0
            != x.0 implies #[trigger] r.contains(y) by {
            let k = choose|k: int| 0 <= k < all.len() && all[k] == y;
            if k == 0 {
                assert(r[0] == y);
            } else {
                assert(rest[k - 1] == y);
                assert(tail.contains(y));
                let n = choose|n: int| 0 <= n < tail.len() && tail[n] == y;
                assert(r[n + 1] == y);
            }
        }
        assert forall|y: (Seq<char>, Seq<char>)| #[trigger] r.contains(y) implies y == x
            || all.contains(y) by {
            let k = choose|k: int| 0 <= k < r.len() && r[k] == y;
            if k == 0 {
                assert(all[0] == y);
            } else {
                assert(tail[k - 1] == y);
                assert(tail.contains(y));
                if y != x {
                    let n = choose|n: int| 0 <= n < rest.len() && rest[n] == y;
                    assert(all[n + 1] == y);
                }
            }
        }
    }
}

/// Every further parameter of a request goes with it, the last one where a name
/// comes twice, and no other does.
pub proof fn further_parameters_go_with_the_request(
    all: Seq<(Seq<char>, Seq<char>)>,
    i: int,
    y: (Seq<char>, Seq<char>),
)
    requires
        0 <= i < all.len(),
        forall|j: int| i < j < all.len() ==> (#[trigger] all[j]).0 != all[i].0,
    ensures
        param_map(all).contains(all[i]),
        param_map(all).contains(y) ==> all.contains(y),
    decreases all.len(),
{
    let t = all.drop_last();
    let x = all.last();
    lemma_with_param(param_map(t), x);
    assert(all[all.len() - 1] == x);
    if i < t.len() {
        assert(all[all.len() - 1].0 != all[i].0);
        assert forall|j: int| i < j < t.len() implies (#[trigger] t[j]).0 != t[i].0 by {
            assert(all[j].0 != all[i].0);
        }
        further_parameters_go_with_the_request(t, i, y);
    }
    if param_map(all).contains(y) && y != x {
        lemma_params_are_given(t, y);
        let k = choose|k: int| 0 <= k < t.len() && t[k] == y;
        assert(all[k] == y);
    }
}

proof fn lemma_params_are_given(all: Seq<(Seq<char>, Seq<char>)>, y: (Seq<char>, Seq<char>))
    ensures
        param_map(all).contains(y) ==> all.contains(y),
    decreases all.len(),
{
    if all.len() > 0 {
        let t = all.drop_last();
        lemma_with_param(param_map(t), all.last());
        lemma_params_are_given(t, y);
        if param_map(all).contains(y) {
            if y == all.last() {
                assert(all[all.len() - 1] == y);
            } else {
                let k = choose|k: int| 0 <= k < t.len() && t[k] == y;
                assert(all[k] == y);
            }
        }
    }
}

/// Why an authorization cannot go on is told in words.
pub proof fn stuck_authorizations_have_their_words(issuer: String, byte: u8)
    ensures
        OauthError::InvalidIssuer.text() == "invalid issuer URL"@,
        OauthError::NoMetadata(issuer).text() == "no RFC 8414 metadata for issuer "@ + issuer@,
        OauthError::NoAuthorizationEndpoint.text() == "issuer metadata has no authorization_endpoint"@,
        OauthError::NoTokenEndpoint.text() == "issuer metadata has no token_endpoint"@,
        OauthError::NeedAuthorizationEndpoint.text() == "need an issuer or an authorization_endpoint"@,
        OauthError::NeedTokenEndpoint.text() == "need a token_endpoint"@,
        OauthError::InvalidAuthorizationEndpoint.text() == "invalid authorization_endpoint"@,
        OauthError::InvalidTokenEndpoint.text() == "invalid token_endpoint"@,
        OauthError::NotConfigured.text() == "OAuth is not configured for this provider yet"@,
        OauthError::InvalidVerifier(byte).text() == "invalid PKCE verifier byte "@
                + crate::text::decimal_of(byte as int),
{
}

} // verus!
