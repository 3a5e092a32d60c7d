//! Onboarding discovery: the choices a user picks from, out of what the
//! discovery mechanisms found.
//!
//! A choice is one server and one way to sign in to it. Which mechanism found
//! it does not matter to the user, so what was found is grouped by server, the
//! ways to sign in are put together, and each kind of them makes one choice.

use crate::sort::{is_text_before, lemma_text_asymmetric, lemma_text_total, lemma_text_weak, text_before};
use crate::table::{any, any_where, copy_text, first_where, lemma_first_where, position};
use crate::text::{contains, has_char, holds, join2, lower_of, same, to_lower, trim, trim_of};
use vstd::prelude::*;

verus! {

/// The service that something was found for.
#[derive(Clone, Copy, Debug, PartialEq, Eq, Structural)]
pub enum DiscoveredService {
    Imap,
    Carddav,
    Other,
}

/// How a connection is secured.
#[derive(Clone, Copy, Debug, PartialEq, Eq, Structural)]
pub enum Security {
    Plain,
    Starttls,
    Tls,
}

/// Where a service is reached.
#[derive(Debug)]
pub enum DiscoveredEndpoint {
    Tcp { host: String, port: u16, security: Security },
    Http(String),
}

/// A way to sign in that a mechanism found.
#[derive(Debug)]
pub enum AuthMethod {
    Password,
    Bearer,
    OauthAuthorizationCodeGrant {
        authorization_endpoint: String,
        token_endpoint: String,
        scope: Option<String>,
    },
    OauthDeviceAuthorizationGrant {
        device_authorization_endpoint: String,
        token_endpoint: String,
        scope: Option<String>,
    },
    OauthIssuer(String),
}

/// What a mechanism found: one way to reach one service.
#[derive(Debug)]
pub struct DiscoveredConfig {
    pub service: DiscoveredService,
    pub endpoint: DiscoveredEndpoint,
    pub auth: Vec<AuthMethod>,
}

/// A way to sign in, as the client is shown it. OAuth carries its endpoints
/// where they are known.
#[derive(Debug)]
pub enum AuthMethodView {
    /// A user name and a password (or an app password).
    Password,
    /// A token that the provider issued.
    Bearer,
    /// An authorization code.
    Oauth { authorization_endpoint: String, token_endpoint: String, scope: Option<String> },
    /// A device code.
    OauthDevice {
        device_authorization_endpoint: String,
        token_endpoint: String,
        scope: Option<String>,
    },
    /// OAuth of which only the issuer is known.
    OauthIssuer { issuer: String },
}

/// An IMAP server and one way to sign in to it.
#[derive(Debug)]
pub struct ImapChoice {
    pub host: String,
    pub port: u16,
    /// `tls`, `starttls` or `plain`.
    pub security: &'static str,
    pub auth: AuthMethodView,
}

/// An address book server and one way to sign in to it.
#[derive(Debug)]
pub struct CardDavChoice {
    /// Its context root.
    pub url: String,
    pub auth: AuthMethodView,
}

/// The forms that ways to sign in come down to.
#[derive(Clone, Copy, Debug, PartialEq, Eq, Structural)]
pub enum AuthCategory {
    Password,
    Oauth,
    Token,
}

// --- the input ---

/// The address to discover with: a bare domain gets a name in front of it.
pub open spec fn address_of(input: Seq<char>) -> Seq<char> {
    let input = trim_of(input);
    if input.contains('@') {
        input
    } else {
        "user@"@ + input
    }
}

/// The address to discover with.
pub fn discovery_email(input: &str) -> (r: String)
    ensures
        r@ == address_of(input@),
{
    let input = trim(input);
    if has_char(input.as_str(), '@') {
        input
    } else {
        join2("user@", input.as_str())
    }
}

// --- ways to sign in ---

pub open spec fn category_of(method: AuthMethod) -> AuthCategory {
    match method {
        AuthMethod::Password => AuthCategory::Password,
        AuthMethod::Bearer => AuthCategory::Token,
        _ => AuthCategory::Oauth,
    }
}

/// The form a way to sign in comes down to.
pub fn categorize(method: &AuthMethod) -> (r: AuthCategory)
    ensures
        r == category_of(*method),
{
    match method {
        AuthMethod::Password => AuthCategory::Password,
        AuthMethod::Bearer => AuthCategory::Token,
        AuthMethod::OauthAuthorizationCodeGrant { .. } => AuthCategory::Oauth,
        AuthMethod::OauthDeviceAuthorizationGrant { .. } => AuthCategory::Oauth,
        AuthMethod::OauthIssuer(_) => AuthCategory::Oauth,
    }
}

pub open spec fn is_code_grant(method: AuthMethod) -> bool {
    method is OauthAuthorizationCodeGrant
}

pub open spec fn is_device_grant(method: AuthMethod) -> bool {
    method is OauthDeviceAuthorizationGrant
}

pub open spec fn is_issuer(method: AuthMethod) -> bool {
    method is OauthIssuer
}

/// Whether a scope is about mail.
pub open spec fn about_mail(scope: Seq<char>) -> bool {
    holds(lower_of(scope), "mail"@) || holds(lower_of(scope), "imap"@)
}

/// Whether a way to sign in is an authorization code whose scope is about
/// mail.
pub open spec fn is_mail_grant(method: AuthMethod) -> bool {
    method matches AuthMethod::OauthAuthorizationCodeGrant { scope: Some(scope), .. } && about_mail(
        scope@,
    )
}

/// The best of the OAuth ways: an authorization code whose scope is about
/// mail, else any authorization code, else a device code, else an issuer.
pub open spec fn best_of(methods: Seq<AuthMethod>) -> Option<AuthMethod> {
    match first_where(methods, |m: AuthMethod| is_mail_grant(m)) {
        Some(m) => Some(m),
        None => match first_where(methods, |m: AuthMethod| is_code_grant(m)) {
            Some(m) => Some(m),
            None => match first_where(methods, |m: AuthMethod| is_device_grant(m)) {
                Some(m) => Some(m),
                None => first_where(methods, |m: AuthMethod| is_issuer(m)),
            },
        },
    }
}

/// The best of the OAuth ways, where there is one.
pub fn best_oauth(methods: &Vec<AuthMethod>) -> (r: Option<&AuthMethod>)
    ensures
        match r {
            Some(m) => best_of(methods@) == Some(*m),
            None => best_of(methods@) is None,
        },
{
    let mail = |m: &AuthMethod| -> (b: bool)
        ensures
            b == is_mail_grant(*m),
        {
            match m {
                AuthMethod::OauthAuthorizationCodeGrant { scope: Some(scope), .. } => {
                    let scope = to_lower(scope.as_str());
                    contains(scope.as_str(), "mail") || contains(scope.as_str(), "imap")
                },
                _ => false,
            }
        };
    let found = position(methods, mail, Ghost(|m: AuthMethod| is_mail_grant(m)));
    if let Some(i) = found {
        return Some(&methods[i]);
    }
    let code = |m: &AuthMethod| -> (b: bool)
        ensures
            b == is_code_grant(*m),
        { matches!(m, AuthMethod::OauthAuthorizationCodeGrant { .. }) };
    let found = position(methods, code, Ghost(|m: AuthMethod| is_code_grant(m)));
    if let Some(i) = found {
        return Some(&methods[i]);
    }
    let device = |m: &AuthMethod| -> (b: bool)
        ensures
            b == is_device_grant(*m),
        { matches!(m, AuthMethod::OauthDeviceAuthorizationGrant { .. }) };
    let found = position(methods, device, Ghost(|m: AuthMethod| is_device_grant(m)));
    if let Some(i) = found {
        return Some(&methods[i]);
    }
    let issuer = |m: &AuthMethod| -> (b: bool)
        ensures
            b == is_issuer(*m),
        { matches!(m, AuthMethod::OauthIssuer(_)) };
    let found = position(methods, issuer, Ghost(|m: AuthMethod| is_issuer(m)));
    if let Some(i) = found {
        return Some(&methods[i]);
    }
    None
}

pub open spec fn view_of(method: AuthMethod) -> AuthMethodView {
    match method {
        AuthMethod::Password => AuthMethodView::Password,
        AuthMethod::Bearer => AuthMethodView::Bearer,
        AuthMethod::OauthAuthorizationCodeGrant {
            authorization_endpoint,
            token_endpoint,
            scope,
        } => AuthMethodView::Oauth { authorization_endpoint, token_endpoint, scope },
        AuthMethod::OauthDeviceAuthorizationGrant {
            device_authorization_endpoint,
            token_endpoint,
            scope,
        } => AuthMethodView::OauthDevice { device_authorization_endpoint, token_endpoint, scope },
        AuthMethod::OauthIssuer(issuer) => AuthMethodView::OauthIssuer { issuer },
    }
}

/// A way to sign in, as the client is shown it.
pub fn auth_view(method: &AuthMethod) -> (r: AuthMethodView)
    ensures
        r == view_of(*method),
{
    match method {
        AuthMethod::Password => AuthMethodView::Password,
        AuthMethod::Bearer => AuthMethodView::Bearer,
        AuthMethod::OauthAuthorizationCodeGrant {
            authorization_endpoint,
            token_endpoint,
            scope,
        } => AuthMethodView::Oauth {
            authorization_endpoint: authorization_endpoint.clone(),
            token_endpoint: token_endpoint.clone(),
            scope: copy_text(scope),
        },
        AuthMethod::OauthDeviceAuthorizationGrant {
            device_authorization_endpoint,
            token_endpoint,
            scope,
        } => AuthMethodView::OauthDevice {
            device_authorization_endpoint: device_authorization_endpoint.clone(),
            token_endpoint: token_endpoint.clone(),
            scope: copy_text(scope),
        },
        AuthMethod::OauthIssuer(issuer) => AuthMethodView::OauthIssuer { issuer: issuer.clone() },
    }
}

// --- servers ---

pub open spec fn security_text(security: Security) -> Seq<char> {
    match security {
        Security::Plain => "plain"@,
        Security::Starttls => "starttls"@,
        Security::Tls => "tls"@,
    }
}

/// The name of a security.
pub fn security_str(security: Security) -> (r: &'static str)
    ensures
        r@ == security_text(security),
{
    match security {
        Security::Plain => "plain",
        Security::Starttls => "starttls",
        Security::Tls => "tls",
    }
}

/// A server: its host, its port and its security.
pub ghost struct Server {
    pub host: Seq<char>,
    pub port: u16,
    pub security: Seq<char>,
}

/// Whether one server comes before another: by host, then port, then security.
pub open spec fn server_before(a: Server, b: Server) -> bool {
    text_before(a.host, b.host) || (a.host == b.host && (a.port < b.port || (a.port == b.port
        && text_before(a.security, b.security))))
}

/// The IMAP server that something found is about.
pub open spec fn server_of(config: DiscoveredConfig) -> Option<Server> {
    match config.endpoint {
        DiscoveredEndpoint::Tcp { host, port, security } => if config.service
            == DiscoveredService::Imap {
            Some(Server { host: host@, port, security: security_text(security) })
        } else {
            None
        },
        DiscoveredEndpoint::Http(_) => None,
    }
}

/// Servers in order with one more in its place, unless it is there.
pub open spec fn with_server(servers: Seq<Server>, x: Server) -> Seq<Server>
    decreases servers.len(),
{
    if servers.len() == 0 || server_before(x, servers[0]) {
        seq![x] + servers
    } else if servers[0] == x {
        servers
    } else {
        seq![servers[0]] + with_server(servers.drop_first(), x)
    }
}

/// The IMAP servers that were found, each once, in order.
pub open spec fn servers_of(configs: Seq<DiscoveredConfig>) -> Seq<Server>
    decreases configs.len(),
{
    if configs.len() == 0 {
        Seq::empty()
    } else {
        let before = servers_of(configs.drop_last());
        match server_of(configs.last()) {
            Some(x) => with_server(before, x),
            None => before,
        }
    }
}

/// Every way to sign in that was found for a server, in the order found.
pub open spec fn methods_at(configs: Seq<DiscoveredConfig>, x: Server) -> Seq<AuthMethod>
    decreases configs.len(),
{
    if configs.len() == 0 {
        Seq::empty()
    } else {
        let before = methods_at(configs.drop_last(), x);
        if server_of(configs.last()) == Some(x) {
            before + configs.last().auth@
        } else {
            before
        }
    }
}

/// A choice: a server and one way to sign in.
pub ghost struct ChoiceView {
    pub server: Server,
    pub auth: AuthMethodView,
}

impl View for ImapChoice {
    type V = ChoiceView;

    open spec fn view(&self) -> ChoiceView {
        ChoiceView {
            server: Server { host: self.host@, port: self.port, security: self.security@ },
            auth: self.auth,
        }
    }
}

/// Choices as views.
pub open spec fn choice_views(choices: Seq<ImapChoice>) -> Seq<ChoiceView> {
    choices.map_values(|c: ImapChoice| c@)
}

/// Whether some way to sign in has a form.
pub open spec fn has_category(methods: Seq<AuthMethod>, category: AuthCategory) -> bool {
    any_where(methods, |m: AuthMethod| category_of(m) == category)
}

/// The ways to sign in that a server's choices offer: a password where one is
/// accepted or nothing was found, the best OAuth, and a token.
pub open spec fn offers(methods: Seq<AuthMethod>) -> Seq<AuthMethodView> {
    let password = if methods.len() == 0 || has_category(methods, AuthCategory::Password) {
        seq![AuthMethodView::Password]
    } else {
        Seq::empty()
    };
    let oauth = match best_of(methods) {
        Some(m) => seq![view_of(m)],
        None => Seq::empty(),
    };
    let token = if has_category(methods, AuthCategory::Token) {
        seq![AuthMethodView::Bearer]
    } else {
        Seq::empty()
    };
    password + oauth + token
}

/// A server's choices.
pub open spec fn choices_at(x: Server, methods: Seq<AuthMethod>) -> Seq<ChoiceView> {
    offers(methods).map_values(|auth: AuthMethodView| ChoiceView { server: x, auth })
}

/// The choices of several servers, one server after the other.
pub open spec fn choices_of(configs: Seq<DiscoveredConfig>, servers: Seq<Server>) -> Seq<ChoiceView>
    decreases servers.len(),
{
    if servers.len() == 0 {
        Seq::empty()
    } else {
        choices_of(configs, servers.drop_last()) + choices_at(
            servers.last(),
            methods_at(configs, servers.last()),
        )
    }
}

struct Spot {
    host: String,
    port: u16,
    security: Security,
}

impl Spot {
    spec fn server(self) -> Server {
        Server { host: self.host@, port: self.port, security: security_text(self.security) }
    }

    fn is_same(&self, other: &Spot) -> (r: bool)
        ensures
            r == (self.server() == other.server()),
    {
        same(self.host.as_str(), other.host.as_str()) && self.port == other.port && same(
            security_str(self.security),
            security_str(other.security),
        )
    }

    fn is_before(&self, other: &Spot) -> (r: bool)
        ensures
            r == server_before(self.server(), other.server()),
    {
        if is_text_before(self.host.as_str(), other.host.as_str()) {
            return true;
        }
        same(self.host.as_str(), other.host.as_str()) && (self.port < other.port || (self.port
            == other.port && is_text_before(
            security_str(self.security),
            security_str(other.security),
        )))
    }

    fn choice(&self, auth: AuthMethodView) -> (r: ImapChoice)
        ensures
            r@ == (ChoiceView { server: self.server(), auth }),
    {
        ImapChoice {
            host: self.host.clone(),
            port: self.port,
            security: security_str(self.security),
            auth,
        }
    }
}

spec fn spots_view(spots: Seq<Spot>) -> Seq<Server> {
    spots.map_values(|s: Spot| s.server())
}

fn spot_of(config: &DiscoveredConfig) -> (r: Option<Spot>)
    ensures
        match r {
            Some(s) => server_of(*config) == Some(s.server()),
            None => server_of(*config) is None,
        },
{
    if config.service != DiscoveredService::Imap {
        return None;
    }
    match &config.endpoint {
        DiscoveredEndpoint::Tcp { host, port, security } => Some(
            Spot { host: host.clone(), port: *port, security: *security },
        ),
        DiscoveredEndpoint::Http(_) => None,
    }
}

/// Puts a server in its place, unless it is there.
fn add_spot(spots: &mut Vec<Spot>, x: Spot)
    ensures
        spots_view(final(spots)@) == with_server(spots_view(old(spots)@), x.server()),
{
    let ghost servers = spots_view(spots@);
    let mut j: usize = 0;
    assert(servers.take(0) + with_server(servers.skip(0), x.server()) =~= with_server(
        servers,
        x.server(),
    )) by {
        assert(servers.skip(0) =~= servers);
    }
    while j < spots.len() && !x.is_before(&spots[j]) && !x.is_same(&spots[j])
        invariant
            servers == spots_view(spots@),
            j <= spots@.len(),
            servers.take(j as int) + with_server(servers.skip(j as int), x.server())
                == with_server(servers, x.server()),
        decreases spots@.len() - j,
    {
        proof {
            let rest = servers.skip(j as int);
            assert(rest[0] == spots@[j as int].server());
            assert(rest.drop_first() =~= servers.skip(j + 1));
            assert(servers.take(j as int) + (seq![rest[0]] + with_server(
                rest.drop_first(),
                x.server(),
            )) =~= servers.take(j + 1) + with_server(servers.skip(j + 1), x.server()));
        }
        j += 1;
    }
    proof {
        let rest = servers.skip(j as int);
        if j < spots@.len() {
            assert(rest[0] == spots@[j as int].server());
        }
    }
    if j < spots.len() && !x.is_before(&spots[j]) {
        assert(servers.take(j as int) + servers.skip(j as int) =~= servers);
        return;
    }
    let ghost all = spots@;
    spots.insert(j, x);
    assert(spots_view(spots@) =~= servers.take(j as int) + (seq![x.server()] + servers.skip(
        j as int,
    )));
}

fn add_methods(out: &mut Vec<AuthMethod>, auth: &Vec<AuthMethod>)
    ensures
        final(out)@ == old(out)@ + auth@,
{
    let mut k: usize = 0;
    while k < auth.len()
        invariant
            k <= auth@.len(),
            out@ == old(out)@ + auth@.take(k as int),
        decreases auth@.len() - k,
    {
        out.push(auth[k].clone());
        assert(out@ =~= old(out)@ + auth@.take(k + 1));
        k += 1;
    }
    assert(auth@.take(k as int) =~= auth@);
}

fn methods_for(configs: &Vec<DiscoveredConfig>, x: &Spot) -> (r: Vec<AuthMethod>)
    ensures
        r@ == methods_at(configs@, x.server()),
{
    let mut out: Vec<AuthMethod> = Vec::new();
    let mut i: usize = 0;
    while i < configs.len()
        invariant
            i <= configs@.len(),
            out@ == methods_at(configs@.take(i as int), x.server()),
        decreases configs@.len() - i,
    {
        assert(configs@.take(i + 1).drop_last() =~= configs@.take(i as int));
        let found = match spot_of(&configs[i]) {
            Some(s) => s.is_same(x),
            None => false,
        };
        if found {
            add_methods(&mut out, &configs[i].auth);
        }
        i += 1;
    }
    assert(configs@.take(i as int) =~= configs@);
    out
}

impl Clone for AuthMethod {
    fn clone(&self) -> (r: Self)
        ensures
            r == *self,
    {
        match self {
            AuthMethod::Password => AuthMethod::Password,
            AuthMethod::Bearer => AuthMethod::Bearer,
            AuthMethod::OauthAuthorizationCodeGrant {
                authorization_endpoint,
                token_endpoint,
                scope,
            } => AuthMethod::OauthAuthorizationCodeGrant {
                authorization_endpoint: authorization_endpoint.clone(),
                token_endpoint: token_endpoint.clone(),
                scope: copy_text(scope),
            },
            AuthMethod::OauthDeviceAuthorizationGrant {
                device_authorization_endpoint,
                token_endpoint,
                scope,
            } => AuthMethod::OauthDeviceAuthorizationGrant {
                device_authorization_endpoint: device_authorization_endpoint.clone(),
                token_endpoint: token_endpoint.clone(),
                scope: copy_text(scope),
            },
            AuthMethod::OauthIssuer(issuer) => AuthMethod::OauthIssuer(issuer.clone()),
        }
    }
}

fn offers_category(methods: &Vec<AuthMethod>, category: AuthCategory) -> (r: bool)
    ensures
        r == has_category(methods@, category),
{
    let test = |m: &AuthMethod| -> (b: bool)
        ensures
            b == (category_of(*m) == category),
        { categorize(m) == category };
    any(methods, test, Ghost(|m: AuthMethod| category_of(m) == category))
}

fn add_choices(choices: &mut Vec<ImapChoice>, x: &Spot, methods: &Vec<AuthMethod>)
    ensures
        choice_views(final(choices)@) == choice_views(old(choices)@) + choices_at(
            x.server(),
            methods@,
        ),
{
    let ghost before = choice_views(choices@);
    if methods.len() == 0 || offers_category(methods, AuthCategory::Password) {
        choices.push(x.choice(AuthMethodView::Password));
    }
    if let Some(method) = best_oauth(methods) {
        choices.push(x.choice(auth_view(method)));
    }
    if offers_category(methods, AuthCategory::Token) {
        choices.push(x.choice(AuthMethodView::Bearer));
    }
    assert(choice_views(choices@) =~= before + choices_at(x.server(), methods@));
}

/// The IMAP choices in what was found: one for each server and form, the
/// servers in order and their forms by password, OAuth and token.
pub fn discover_imap(configs: &Vec<DiscoveredConfig>) -> (r: Vec<ImapChoice>)
    ensures
        choice_views(r@) == choices_of(configs@, servers_of(configs@)),
{
    let mut spots: Vec<Spot> = Vec::new();
    let mut i: usize = 0;
    assert(spots_view(spots@) =~= servers_of(configs@.take(0)));
    while i < configs.len()
        invariant
            i <= configs@.len(),
            spots_view(spots@) == servers_of(configs@.take(i as int)),
        decreases configs@.len() - i,
    {
        assert(configs@.take(i + 1).drop_last() =~= configs@.take(i as int));
        if let Some(x) = spot_of(&configs[i]) {
            add_spot(&mut spots, x);
        }
        i += 1;
    }
    assert(configs@.take(i as int) =~= configs@);
    let ghost servers = spots_view(spots@);
    let mut choices: Vec<ImapChoice> = Vec::new();
    let mut j: usize = 0;
    assert(choice_views(choices@) =~= choices_of(configs@, servers.take(0)));
    while j < spots.len()
        invariant
            servers == spots_view(spots@),
            j <= spots@.len(),
            choice_views(choices@) == choices_of(configs@, servers.take(j as int)),
        decreases spots@.len() - j,
    {
        let methods = methods_for(configs, &spots[j]);
        add_choices(&mut choices, &spots[j], &methods);
        proof {
            let upto = servers.take(j + 1);
            assert(upto.drop_last() =~= servers.take(j as int));
            assert(upto.last() == spots@[j as int].server());
        }
        j += 1;
    }
    assert(servers.take(j as int) =~= servers);
    choices
}

// --- address books ---

/// The address book server that something found is about.
pub open spec fn book_of(config: DiscoveredConfig) -> Option<String> {
    match config.endpoint {
        DiscoveredEndpoint::Http(url) => if config.service == DiscoveredService::Carddav {
            Some(url)
        } else {
            None
        },
        DiscoveredEndpoint::Tcp { .. } => None,
    }
}

/// Whether an address book server was found.
pub open spec fn book_found(configs: Seq<DiscoveredConfig>, url: Seq<char>) -> bool {
    exists|i: int|
        0 <= i < configs.len() && (book_of(#[trigger] configs[i]) matches Some(u) && u@ == url)
}

/// An address book server's choices: a password always, and the best OAuth.
pub open spec fn book_choices(url: String, methods: Seq<AuthMethod>) -> Seq<CardDavChoice> {
    let password = seq![CardDavChoice { url, auth: AuthMethodView::Password }];
    match best_of(methods) {
        Some(m) => password.push(CardDavChoice { url, auth: view_of(m) }),
        None => password,
    }
}

/// The ways to sign in that were found for an address book server.
pub open spec fn book_methods(configs: Seq<DiscoveredConfig>, url: Seq<char>) -> Seq<AuthMethod>
    decreases configs.len(),
{
    if configs.len() == 0 {
        Seq::empty()
    } else {
        let before = book_methods(configs.drop_last(), url);
        match book_of(configs.last()) {
            Some(u) => if u@ == url {
                before + configs.last().auth@
            } else {
                before
            },
            None => before,
        }
    }
}

/// The choices of the address book servers in some of what was found, each where
/// it comes first and with all that was found for it.
pub open spec fn books_among(
    all: Seq<DiscoveredConfig>,
    configs: Seq<DiscoveredConfig>,
) -> Seq<CardDavChoice>
    decreases configs.len(),
{
    if configs.len() == 0 {
        Seq::empty()
    } else {
        let before = configs.drop_last();
        let c = configs.last();
        match book_of(c) {
            Some(url) => if book_found(before, url@) {
                books_among(all, before)
            } else {
                books_among(all, before) + book_choices(url, book_methods(all, url@))
            },
            None => books_among(all, before),
        }
    }
}

/// The address book choices in what was found.
pub open spec fn books_of(configs: Seq<DiscoveredConfig>) -> Seq<CardDavChoice> {
    books_among(configs, configs)
}

fn methods_of_book(configs: &Vec<DiscoveredConfig>, url: &str) -> (r: Vec<AuthMethod>)
    ensures
        r@ == book_methods(configs@, url@),
{
    let mut out: Vec<AuthMethod> = Vec::new();
    let mut i: usize = 0;
    while i < configs.len()
        invariant
            i <= configs@.len(),
            out@ == book_methods(configs@.take(i as int), url@),
        decreases configs@.len() - i,
    {
        assert(configs@.take(i + 1).drop_last() =~= configs@.take(i as int));
        let c = &configs[i];
        if c.service == DiscoveredService::Carddav {
            if let DiscoveredEndpoint::Http(u) = &c.endpoint {
                if same(u.as_str(), url) {
                    add_methods(&mut out, &c.auth);
                }
            }
        }
        i += 1;
    }
    assert(configs@.take(i as int) =~= configs@);
    out
}

fn is_book_found(configs: &Vec<DiscoveredConfig>, end: usize, url: &str) -> (r: bool)
    requires
        end <= configs@.len(),
    ensures
        r == book_found(configs@.take(end as int), url@),
{
    let mut i: usize = 0;
    while i < end
        invariant
            i <= end <= configs@.len(),
            forall|k: int|
                0 <= k < i ==> !(book_of(#[trigger] configs@[k]) matches Some(u) && u@ == url@),
        decreases end - i,
    {
        let c = &configs[i];
        if c.service == DiscoveredService::Carddav {
            if let DiscoveredEndpoint::Http(u) = &c.endpoint {
                if same(u.as_str(), url) {
                    assert(configs@.take(end as int)[i as int] == *c);
                    return true;
                }
            }
        }
        i += 1;
    }
    assert forall|k: int| 0 <= k < end implies !(book_of(
        #[trigger] configs@.take(end as int)[k],
    ) matches Some(u) && u@ == url@) by {
        assert(configs@.take(end as int)[k] == configs@[k]);
    }
    false
}

/// The address book choices in what was found. A password is always offered,
/// so that whoever has an app password can use it where OAuth is on offer too;
/// OAuth is offered wherever something found offers it.
pub fn discover_carddav(configs: &Vec<DiscoveredConfig>) -> (r: Vec<CardDavChoice>)
    ensures
        r@ == books_of(configs@),
{
    let mut choices: Vec<CardDavChoice> = Vec::new();
    let mut i: usize = 0;
    while i < configs.len()
        invariant
            i <= configs@.len(),
            choices@ == books_among(configs@, configs@.take(i as int)),
        decreases configs@.len() - i,
    {
        let ghost before = choices@;
        assert(configs@.take(i + 1).drop_last() =~= configs@.take(i as int));
        let c = &configs[i];
        if c.service == DiscoveredService::Carddav {
            if let DiscoveredEndpoint::Http(url) = &c.endpoint {
                if !is_book_found(configs, i, url.as_str()) {
                    choices.push(
                        CardDavChoice { url: url.clone(), auth: AuthMethodView::Password },
                    );
                    let methods = methods_of_book(configs, url.as_str());
                    if let Some(method) = best_oauth(&methods) {
                        choices.push(CardDavChoice { url: url.clone(), auth: auth_view(method) });
                    }
                    assert(choices@ =~= before + book_choices(*url, methods@));
                }
            }
        }
        i += 1;
    }
    assert(configs@.take(i as int) =~= configs@);
    choices
}

// --- what holds of the choices ---

/// Every server that was found, whatever ways to sign in were found for it,
/// makes at least one choice.
pub proof fn every_server_has_a_choice(x: Server, methods: Seq<AuthMethod>)
    ensures
        choices_at(x, methods).len() >= 1,
{
    if methods.len() > 0 {
        let m = methods[0];
        lemma_first_where(methods, |m: AuthMethod| is_mail_grant(m));
        lemma_first_where(methods, |m: AuthMethod| is_code_grant(m));
        lemma_first_where(methods, |m: AuthMethod| is_device_grant(m));
        lemma_first_where(methods, |m: AuthMethod| is_issuer(m));
        match m {
            AuthMethod::Password => {
                assert(has_category(methods, AuthCategory::Password));
            },
            AuthMethod::Bearer => {
                assert(has_category(methods, AuthCategory::Token));
            },
            AuthMethod::OauthAuthorizationCodeGrant { .. } => {
                assert(any_where(methods, |m: AuthMethod| is_code_grant(m)));
            },
            AuthMethod::OauthDeviceAuthorizationGrant { .. } => {
                assert(any_where(methods, |m: AuthMethod| is_device_grant(m)));
            },
            AuthMethod::OauthIssuer(_) => {
                assert(any_where(methods, |m: AuthMethod| is_issuer(m)));
            },
        }
    }
}

/// An address book server offers OAuth exactly where some way to sign in that
/// was found for it is OAuth.
pub proof fn book_offers_oauth_where_found(url: String, methods: Seq<AuthMethod>)
    ensures
        book_choices(url, methods)[0].auth is Password,
        book_choices(url, methods).len() == (if has_category(methods, AuthCategory::Oauth) {
            2int
        } else {
            1
        }),
{
    lemma_first_where(methods, |m: AuthMethod| is_mail_grant(m));
    lemma_first_where(methods, |m: AuthMethod| is_code_grant(m));
    lemma_first_where(methods, |m: AuthMethod| is_device_grant(m));
    lemma_first_where(methods, |m: AuthMethod| is_issuer(m));
    let is_oauth = |m: AuthMethod| category_of(m) == AuthCategory::Oauth;
    if has_category(methods, AuthCategory::Oauth) {
        let i = choose|i: int| 0 <= i < methods.len() && is_oauth(#[trigger] methods[i]);
        match methods[i] {
            AuthMethod::OauthAuthorizationCodeGrant { .. } => {
                assert(any_where(methods, |m: AuthMethod| is_code_grant(m)));
            },
            AuthMethod::OauthDeviceAuthorizationGrant { .. } => {
                assert(any_where(methods, |m: AuthMethod| is_device_grant(m)));
            },
            _ => {
                assert(any_where(methods, |m: AuthMethod| is_issuer(m)));
            },
        }
    }
    if let Some(m) = best_of(methods) {
        let k = choose|k: int| 0 <= k < methods.len() && methods[k] == m;
        assert(is_oauth(methods[k]));
    }
}

/// Whether servers stand in order, none of them twice.
pub open spec fn servers_ascend(servers: Seq<Server>) -> bool {
    forall|i: int, j: int|
        0 <= i < j < servers.len() ==> server_before(#[trigger] servers[i], #[trigger] servers[j])
}

proof fn lemma_before_trans(a: Server, b: Server, c: Server)
    requires
        server_before(a, b),
        server_before(b, c),
    ensures
        server_before(a, c),
{
    lemma_texts_trans(a.host, b.host, c.host);
    lemma_texts_trans(a.security, b.security, c.security);
}

proof fn lemma_texts_trans(a: Seq<char>, b: Seq<char>, c: Seq<char>)
    ensures
        text_before(a, b) && text_before(b, c) ==> text_before(a, c),
{
    lemma_text_total(a, c);
    if text_before(a, b) && text_before(b, c) {
        lemma_text_asymmetric(a, b);
        lemma_text_asymmetric(b, c);
        if !text_before(a, c) {
            lemma_text_weak(a, c, b);
        }
    }
}

proof fn lemma_before_total(a: Server, b: Server)
    ensures
        server_before(a, b) || server_before(b, a) || a == b,
{
    lemma_text_total(a.host, b.host);
    lemma_text_total(a.security, b.security);
}

proof fn lemma_with_server(servers: Seq<Server>, x: Server)
    requires
        servers_ascend(servers),
    ensures
        servers_ascend(with_server(servers, x)),
        forall|y: Server|
            #[trigger] with_server(servers, x).contains(y) <==> servers.contains(y) || y == x,
    decreases servers.len(),
{
    let r = with_server(servers, x);
    if servers.len() == 0 || server_before(x, servers[0]) {
        assert forall|i: int, j: int| 0 <= i < j < r.len() implies server_before(
            #[trigger] r[i],
            #[trigger] r[j],
        ) by {
            if i == 0 && j > 1 {
                assert(server_before(servers[0], servers[j - 1]));
                lemma_before_trans(x, servers[0], servers[j - 1]);
            }
        }
        assert forall|y: Server| #[trigger] r.contains(y) <==> servers.contains(y) || y == x by {
            if servers.contains(y) {
                let k = choose|k: int| 0 <= k < servers.len() && servers[k] == y;
                assert(r[k + 1] == y);
            }
            if y == x {
                assert(r[0] == y);
            }
        }
    } else if servers[0] == x {
    } else {
        lemma_before_total(x, servers[0]);
        let rest = servers.drop_first();
        let tail = with_server(rest, x);
        assert forall|i: int, j: int| 0 <= i < j < rest.len() implies server_before(
            #[trigger] rest[i],
            #[trigger] rest[j],
        ) by {
            assert(server_before(servers[i + 1], servers[j + 1]));
        }
        lemma_with_server(rest, x);
        assert forall|i: int, j: int| 0 <= i < j < r.len() implies server_before(
            #[trigger] r[i],
            #[trigger] r[j],
        ) by {
            if i == 0 {
                assert(tail.contains(tail[j - 1]));
                if tail[j - 1] != x {
                    let k = choose|k: int| 0 <= k < rest.len() && rest[k] == tail[j - 1];
                    assert(server_before(servers[0], servers[k + 1]));
                }
            } else {
                assert(server_before(tail[i - 1], tail[j - 1]));
            }
        }
        assert forall|y: Server| #[trigger] r.contains(y) <==> servers.contains(y) || y == x by {
            if r.contains(y) {
                let k = choose|k: int| 0 <= k < r.len() && r[k] == y;
                if k == 0 {
                    assert(servers[0] == y);
                } else {
                    assert(tail[k - 1] == y);
                    assert(tail.contains(y));
                    if y != x {
                        let m = choose|m: int| 0 <= m < rest.len() && rest[m] == y;
                        assert(servers[m + 1] == y);
                    }
                }
            }
            if servers.contains(y) {
                let k = choose|k: int| 0 <= k < servers.len() && servers[k] == y;
                if k == 0 {
                    assert(r[0] == y);
                } else {
                    assert(rest[k - 1] == y);
                    assert(tail.contains(y));
                    let m = choose|m: int| 0 <= m < tail.len() && tail[m] == y;
                    assert(r[m + 1] == y);
                }
            }
            if y == x {
                assert(tail.contains(x));
                let m = choose|m: int| 0 <= m < tail.len() && tail[m] == x;
                assert(r[m + 1] == x);
            }
        }
    }
}

/// The servers stand in order, each once, and they are exactly those that
/// something was found for.
pub proof fn servers_are_those_found(configs: Seq<DiscoveredConfig>)
    ensures
        servers_ascend(servers_of(configs)),
        forall|x: Server|
            #[trigger] servers_of(configs).contains(x) <==> exists|i: int|
                0 <= i < configs.len() && server_of(#[trigger] configs[i]) == Some(x),
    decreases configs.len(),
{
    if configs.len() > 0 {
        let before = configs.drop_last();
        servers_are_those_found(before);
        let r = servers_of(configs);
        if let Some(x) = server_of(configs.last()) {
            lemma_with_server(servers_of(before), x);
        }
        assert forall|x: Server| #[trigger] r.contains(x) <==> exists|i: int|
            0 <= i < configs.len() && server_of(#[trigger] configs[i]) == Some(x) by {
            if r.contains(x) {
                if servers_of(before).contains(x) {
                    let i = choose|i: int|
                        0 <= i < before.len() && server_of(#[trigger] before[i]) == Some(x);
                    assert(configs[i] == before[i]);
                } else {
                    assert(server_of(configs[configs.len() - 1]) == Some(x));
                }
            }
            if exists|i: int| 0 <= i < configs.len() && server_of(#[trigger] configs[i]) == Some(x) {
                let i = choose|i: int|
                    0 <= i < configs.len() && server_of(#[trigger] configs[i]) == Some(x);
                if i < before.len() {
                    assert(before[i] == configs[i]);
                    assert(servers_of(before).contains(x));
                }
            }
        }
    }
}

/// A way to sign in is shown as it was found: each of a grant's endpoints and
/// its scope under its own name, and nothing made of another kind.
pub proof fn ways_to_sign_in_are_shown_as_found(method: AuthMethod)
    ensures
        method is Password ==> view_of(method) is Password,
        method is Bearer ==> view_of(method) is Bearer,
        method matches AuthMethod::OauthAuthorizationCodeGrant {
            authorization_endpoint: a,
            token_endpoint: t,
            scope: s,
        } ==> (view_of(method) matches AuthMethodView::Oauth {
            authorization_endpoint,
            token_endpoint,
            scope,
        } && authorization_endpoint == a && token_endpoint == t && scope == s),
        method matches AuthMethod::OauthDeviceAuthorizationGrant {
            device_authorization_endpoint: d,
            token_endpoint: t,
            scope: s,
        } ==> (view_of(method) matches AuthMethodView::OauthDevice {
            device_authorization_endpoint,
            token_endpoint,
            scope,
        } && device_authorization_endpoint == d && token_endpoint == t && scope == s),
        method matches AuthMethod::OauthIssuer(i) ==> (
        view_of(method) matches AuthMethodView::OauthIssuer { issuer } && issuer == i),
{
}

/// A bare domain is looked up by an address in it, and an address as it is, in
/// either case without the white space around it.
pub proof fn domains_are_looked_up_by_an_address(input: Seq<char>)
    ensures
        trim_of(input).contains('@') ==> address_of(input) == trim_of(input),
        !trim_of(input).contains('@') ==> address_of(input) == "user@"@ + trim_of(input),
{
}

/// Every form of OAuth is OAuth, a bearer token is a token, and a password is a
/// password.
pub proof fn ways_to_sign_in_come_down_to_three(method: AuthMethod)
    ensures
        category_of(method) == AuthCategory::Password <==> method is Password,
        category_of(method) == AuthCategory::Token <==> method is Bearer,
        category_of(method) == AuthCategory::Oauth <==> method is OauthAuthorizationCodeGrant
            || method is OauthDeviceAuthorizationGrant || method is OauthIssuer,
{
}

/// A connection is called by how it is secured.
pub proof fn securities_go_by_their_names()
    ensures
        security_text(Security::Tls) == "tls"@,
        security_text(Security::Starttls) == "starttls"@,
        security_text(Security::Plain) == "plain"@,
{
}

/// A scope is about mail where it names mail or IMAP in any case.
pub proof fn scopes_about_mail_name_it(a: Seq<char>, b: Seq<char>, scope: Seq<char>)
    ensures
        about_mail(a + "mail"@ + b),
        about_mail(a + "imap"@ + b),
        about_mail(a + "IMAP"@ + b),
        scope.len() < 4 ==> !about_mail(scope),
{
    reveal_strlit("mail");
    reveal_strlit("imap");
    reveal_strlit("IMAP");
    crate::text::lemma_lower_join(a + "mail"@, b);
    crate::text::lemma_lower_join(a, "mail"@);
    crate::text::lemma_lower_join(a + "imap"@, b);
    crate::text::lemma_lower_join(a, "imap"@);
    crate::text::lemma_lower_join(a + "IMAP"@, b);
    crate::text::lemma_lower_join(a, "IMAP"@);
    assert(lower_of("mail"@) =~= "mail"@);
    assert(lower_of("imap"@) =~= "imap"@);
    assert(lower_of("IMAP"@) =~= "imap"@);
    crate::text::texts_hold_their_parts(lower_of(a), "mail"@, lower_of(b));
    crate::text::texts_hold_their_parts(lower_of(a), "imap"@, lower_of(b));
    crate::text::texts_hold_their_parts(lower_of(scope), "mail"@, Seq::empty());
    crate::text::texts_hold_their_parts(lower_of(scope), "imap"@, Seq::empty());
}

/// The best OAuth is one that was found, and of the best form that was: an
/// authorization code about mail, else any authorization code, else a device
/// code, else an issuer.
pub proof fn best_oauth_is_of_the_best_form(methods: Seq<AuthMethod>, i: int)
    requires
        0 <= i < methods.len(),
    ensures
        best_of(methods) matches Some(m) ==> methods.contains(m) && !(m is Password) && !(
        m is Bearer),
        methods[i] is OauthAuthorizationCodeGrant ==> (best_of(methods) matches Some(m)
            && m is OauthAuthorizationCodeGrant),
        (methods[i] matches AuthMethod::OauthAuthorizationCodeGrant { scope: Some(s), .. }
            && about_mail(s@)) ==> (best_of(methods) matches Some(
            AuthMethod::OauthAuthorizationCodeGrant { scope: Some(s), .. },
        ) && about_mail(s@)),
        methods[i] is OauthDeviceAuthorizationGrant ==> (best_of(methods) matches Some(m) && (
        m is OauthAuthorizationCodeGrant || m is OauthDeviceAuthorizationGrant)),
        methods[i] is OauthIssuer ==> best_of(methods) is Some,
{
    let mail = |m: AuthMethod| is_mail_grant(m);
    let code = |m: AuthMethod| is_code_grant(m);
    let device = |m: AuthMethod| is_device_grant(m);
    let issuer = |m: AuthMethod| is_issuer(m);
    lemma_first_where(methods, mail);
    lemma_first_where(methods, code);
    lemma_first_where(methods, device);
    lemma_first_where(methods, issuer);
    if code(methods[i]) {
        assert(any_where(methods, code));
    }
    if mail(methods[i]) {
        assert(any_where(methods, mail));
    }
    if device(methods[i]) {
        assert(any_where(methods, device));
    }
    if issuer(methods[i]) {
        assert(any_where(methods, issuer));
    }
}

/// What a server offers: a password exactly where one was found, or nothing was;
/// a token exactly where one was found; and OAuth, once, exactly where some form
/// of it was found, as the best of them is shown.
pub proof fn servers_offer_what_was_found(x: Server, methods: Seq<AuthMethod>, c: ChoiceView)
    ensures
        ({
            let all = choices_at(x, methods);
            let has_password = exists|i: int|
                0 <= i < methods.len() && (#[trigger] methods[i]) is Password;
            let has_token = exists|i: int| 0 <= i < methods.len() && (#[trigger] methods[i]) is Bearer;
            &&& all.contains(c) ==> c.server == x
            &&& all.contains(ChoiceView { server: x, auth: AuthMethodView::Password })
                <==> methods.len() == 0 || has_password
            &&& all.contains(ChoiceView { server: x, auth: AuthMethodView::Bearer }) <==> has_token
            &&& best_of(methods) matches Some(m) ==> all.contains(
                ChoiceView { server: x, auth: view_of(m) },
            )
            &&& all.len() == (if methods.len() == 0 || has_password {
                1int
            } else {
                0
            }) + (if best_of(methods) is Some {
                1int
            } else {
                0
            }) + (if has_token {
                1int
            } else {
                0
            })
        }),
{
    let all = choices_at(x, methods);
    let is_password = |m: AuthMethod| category_of(m) == AuthCategory::Password;
    let is_token = |m: AuthMethod| category_of(m) == AuthCategory::Token;
    if has_category(methods, AuthCategory::Password) {
        let i = choose|i: int| 0 <= i < methods.len() && is_password(#[trigger] methods[i]);
        assert(methods[i] is Password);
    }
    if exists|i: int| 0 <= i < methods.len() && (#[trigger] methods[i]) is Password {
        let i = choose|i: int| 0 <= i < methods.len() && (#[trigger] methods[i]) is Password;
        assert(is_password(methods[i]));
        assert(has_category(methods, AuthCategory::Password));
    }
    if has_category(methods, AuthCategory::Token) {
        let i = choose|i: int| 0 <= i < methods.len() && is_token(#[trigger] methods[i]);
        assert(methods[i] is Bearer);
    }
    if exists|i: int| 0 <= i < methods.len() && (#[trigger] methods[i]) is Bearer {
        let i = choose|i: int| 0 <= i < methods.len() && (#[trigger] methods[i]) is Bearer;
        assert(is_token(methods[i]));
        assert(has_category(methods, AuthCategory::Token));
    }
    let password = methods.len() == 0 || has_category(methods, AuthCategory::Password);
    let token = has_category(methods, AuthCategory::Token);
    if methods.len() > 0 {
        best_oauth_is_of_the_best_form(methods, 0);
    } else {
        lemma_first_where(methods, |m: AuthMethod| is_mail_grant(m));
        lemma_first_where(methods, |m: AuthMethod| is_code_grant(m));
        lemma_first_where(methods, |m: AuthMethod| is_device_grant(m));
        lemma_first_where(methods, |m: AuthMethod| is_issuer(m));
    }
    assert(all.len() == offers(methods).len());
    assert forall|k: int| 0 <= k < all.len() implies (#[trigger] all[k]) == (ChoiceView {
        server: x,
        auth: offers(methods)[k],
    }) by {}
    if password {
        assert(offers(methods)[0] is Password);
        assert(all[0] == ChoiceView { server: x, auth: AuthMethodView::Password });
    }
    if token {
        let n = all.len() - 1;
        assert(offers(methods)[n] is Bearer);
        assert(all[n] == ChoiceView { server: x, auth: AuthMethodView::Bearer });
    }
    if let Some(m) = best_of(methods) {
        let k: int = if password {
            1
        } else {
            0
        };
        assert(offers(methods)[k] == view_of(m));
        assert(all[k] == ChoiceView { server: x, auth: view_of(m) });
        ways_to_sign_in_are_shown_as_found(m);
    }
}

/// What was found for a server is all that was found for its host, port and
/// security, and nothing that was found for another.
pub proof fn servers_have_their_own_ways(
    configs: Seq<DiscoveredConfig>,
    x: Server,
    m: AuthMethod,
)
    ensures
        methods_at(configs, x).contains(m) <==> exists|i: int|
            0 <= i < configs.len() && server_of(#[trigger] configs[i]) == Some(x)
                && configs[i].auth@.contains(m),
    decreases configs.len(),
{
    if configs.len() > 0 {
        let t = configs.drop_last();
        let last = configs.len() - 1;
        servers_have_their_own_ways(t, x, m);
        let all = methods_at(configs, x);
        let before = methods_at(t, x);
        if all.contains(m) {
            let k = choose|k: int| 0 <= k < all.len() && all[k] == m;
            if k < before.len() {
                assert(before[k] == m);
                let j = choose|j: int|
                    0 <= j < t.len() && server_of(#[trigger] t[j]) == Some(x) && t[j].auth@.contains(m);
                assert(configs[j] == t[j]);
            } else {
                assert(configs[last].auth@[k - before.len()] == m);
                assert(server_of(configs[last]) == Some(x));
            }
        }
        if exists|i: int|
            0 <= i < configs.len() && server_of(#[trigger] configs[i]) == Some(x)
                && configs[i].auth@.contains(m) {
            let j = choose|j: int|
                0 <= j < configs.len() && server_of(#[trigger] configs[j]) == Some(x)
                    && configs[j].auth@.contains(m);
            if j < last {
                assert(t[j] == configs[j]);
                assert(before.contains(m));
                let k = choose|k: int| 0 <= k < before.len() && before[k] == m;
                assert(all[k] == m);
            } else {
                let k = choose|k: int|
                    0 <= k < configs[last].auth@.len() && configs[last].auth@[k] == m;
                assert(all[before.len() + k] == m);
            }
        }
    }
}

/// A server is what was found for IMAP over a plain connection: its host, its
/// port and how it is secured. Nothing else is one.
pub proof fn imap_servers_are_where_they_were_found(config: DiscoveredConfig)
    ensures
        server_of(config) matches Some(x) ==> config.service == DiscoveredService::Imap && (
        config.endpoint matches DiscoveredEndpoint::Tcp { host, port, security } && x.host == host@
            && x.port == port && x.security == security_text(security)),
        config.service == DiscoveredService::Imap && config.endpoint is Tcp ==> server_of(
            config,
        ) is Some,
        book_of(config) matches Some(u) ==> config.service == DiscoveredService::Carddav && (
        config.endpoint matches DiscoveredEndpoint::Http(url) && u == url),
        config.service == DiscoveredService::Carddav && config.endpoint is Http ==> book_of(
            config,
        ) is Some,
{
}

proof fn lemma_choices(configs: Seq<DiscoveredConfig>, servers: Seq<Server>, c: ChoiceView)
    ensures
        choices_of(configs, servers).contains(c) <==> exists|i: int|
            0 <= i < servers.len() && choices_at(
                #[trigger] servers[i],
                methods_at(configs, servers[i]),
            ).contains(c),
    decreases servers.len(),
{
    if servers.len() > 0 {
        let t = servers.drop_last();
        let last = servers.len() - 1;
        lemma_choices(configs, t, c);
        let all = choices_of(configs, servers);
        let before = choices_of(configs, t);
        let own = choices_at(servers.last(), methods_at(configs, servers.last()));
        if all.contains(c) {
            let k = choose|k: int| 0 <= k < all.len() && all[k] == c;
            if k < before.len() {
                assert(before[k] == c);
                let i = choose|i: int|
                    0 <= i < t.len() && choices_at(#[trigger] t[i], methods_at(configs, t[i])).contains(
                        c,
                    );
                assert(servers[i] == t[i]);
            } else {
                assert(own[k - before.len()] == c);
                assert(servers[last] == servers.last());
            }
        }
        if exists|i: int|
            0 <= i < servers.len() && choices_at(
                #[trigger] servers[i],
                methods_at(configs, servers[i]),
            ).contains(c) {
            let i = choose|i: int|
                0 <= i < servers.len() && choices_at(
                    #[trigger] servers[i],
                    methods_at(configs, servers[i]),
                ).contains(c);
            if i < last {
                assert(t[i] == servers[i]);
                let k = choose|k: int| 0 <= k < before.len() && before[k] == c;
                assert(all[k] == c);
            } else {
                let k = choose|k: int| 0 <= k < own.len() && own[k] == c;
                assert(all[before.len() + k] == c);
            }
        }
    }
}

/// What was found for an IMAP server, and nothing else, can be chosen: every
/// choice is of a server that was found, and every password and every bearer
/// token that was found for one can be chosen there.
pub proof fn what_was_found_can_be_chosen(configs: Seq<DiscoveredConfig>, i: int, k: int)
    requires
        0 <= i < configs.len(),
        configs[i].service == DiscoveredService::Imap,
        configs[i].endpoint is Tcp,
        0 <= k < configs[i].auth@.len(),
    ensures
        ({
            let all = choices_of(configs, servers_of(configs));
            let x = server_of(configs[i])->0;
            &&& configs[i].auth@[k] is Password ==> all.contains(
                ChoiceView { server: x, auth: AuthMethodView::Password },
            )
            &&& configs[i].auth@[k] is Bearer ==> all.contains(
                ChoiceView { server: x, auth: AuthMethodView::Bearer },
            )
            &&& !(configs[i].auth@[k] is Password) && !(configs[i].auth@[k] is Bearer) ==> exists|
                m: AuthMethod,
            |
                methods_at(configs, x).contains(m) && !(m is Password) && !(m is Bearer)
                    && all.contains(ChoiceView { server: x, auth: #[trigger] view_of(m) })
        }),
{
    let all = choices_of(configs, servers_of(configs));
    let x = server_of(configs[i])->0;
    let m = configs[i].auth@[k];
    let methods = methods_at(configs, x);
    servers_are_those_found(configs);
    assert(server_of(configs[i]) == Some(x));
    assert(servers_of(configs).contains(x));
    assert(configs[i].auth@.contains(m));
    servers_have_their_own_ways(configs, x, m);
    let j = choose|j: int| 0 <= j < methods.len() && methods[j] == m;
    best_oauth_is_of_the_best_form(methods, j);
    let c = if m is Password {
        ChoiceView { server: x, auth: AuthMethodView::Password }
    } else if m is Bearer {
        ChoiceView { server: x, auth: AuthMethodView::Bearer }
    } else {
        ChoiceView { server: x, auth: view_of(best_of(methods)->0) }
    };
    assert(methods[j] == m);
    servers_offer_what_was_found(x, methods, c);
    lemma_choices(configs, servers_of(configs), c);
    let n = choose|n: int| 0 <= n < servers_of(configs).len() && servers_of(configs)[n] == x;
    assert(choices_at(servers_of(configs)[n], methods_at(configs, servers_of(configs)[n])).contains(
        c,
    ));
}

proof fn lemma_books(all: Seq<DiscoveredConfig>, configs: Seq<DiscoveredConfig>, url: Seq<char>)
    ensures
        book_found(configs, url) ==> exists|k: int|
            0 <= k < books_among(all, configs).len() && (
            #[trigger] books_among(all, configs)[k]).url@ == url && books_among(
                all,
                configs,
            )[k].auth is Password,
        forall|k: int|
            0 <= k < books_among(all, configs).len() ==> book_found(
                configs,
                (#[trigger] books_among(all, configs)[k]).url@,
            ),
    decreases configs.len(),
{
    if configs.len() > 0 {
        let t = configs.drop_last();
        let c = configs.last();
        let last = configs.len() - 1;
        let before = books_among(all, t);
        let r = books_among(all, configs);
        lemma_books(all, t, url);
        assert forall|k: int| 0 <= k < before.len() implies book_found(
            configs,
            (#[trigger] before[k]).url@,
        ) by {
            assert(book_found(t, before[k].url@));
            let i = choose|i: int|
                0 <= i < t.len() && (book_of(#[trigger] t[i]) matches Some(u) && u@ == before[k].url@);
            assert(configs[i] == t[i]);
        }
        if let Some(u) = book_of(c) {
            assert(configs[last] == c);
            assert(book_found(configs, u@));
            if !book_found(t, u@) {
                let own = book_choices(u, book_methods(all, u@));
                assert(r == before + own);
                assert(own[0].url == u && own[0].auth is Password);
                assert(r[before.len() as int] == own[0]);
                assert forall|k: int| 0 <= k < r.len() implies book_found(
                    configs,
                    (#[trigger] r[k]).url@,
                ) by {
                    if k < before.len() {
                        assert(r[k] == before[k]);
                    } else {
                        assert(r[k] == own[k - before.len()]);
                        assert(own[k - before.len()].url == u);
                    }
                }
            }
        }
        if book_found(configs, url) {
            let i = choose|i: int|
                0 <= i < configs.len() && (book_of(#[trigger] configs[i]) matches Some(u) && u@
                    == url);
            if i < last {
                assert(t[i] == configs[i]);
                assert(book_found(t, url));
            }
            if book_found(t, url) {
                let k = choose|k: int|
                    0 <= k < before.len() && (#[trigger] before[k]).url@ == url
                        && before[k].auth is Password;
                assert(r[k] == before[k]);
            }
        }
    }
}

/// Every address book server that was found can be signed in to with a password,
/// and nothing is offered for a server that was not found.
pub proof fn address_books_take_a_password(configs: Seq<DiscoveredConfig>, i: int)
    requires
        0 <= i < configs.len(),
    ensures
        (configs[i].endpoint matches DiscoveredEndpoint::Http(url) && configs[i].service
            == DiscoveredService::Carddav) ==> exists|k: int|
            0 <= k < books_of(configs).len() && (#[trigger] books_of(configs)[k]).url@
                == configs[i].endpoint->Http_0@ && books_of(configs)[k].auth is Password,
        forall|k: int|
            0 <= k < books_of(configs).len() ==> exists|j: int|
                0 <= j < configs.len() && (#[trigger] configs[j]).service
                    == DiscoveredService::Carddav && (
                configs[j].endpoint matches DiscoveredEndpoint::Http(url) && url@ == (
                #[trigger] books_of(configs)[k]).url@),
{
    let url = match configs[i].endpoint {
        DiscoveredEndpoint::Http(url) => url@,
        _ => Seq::empty(),
    };
    lemma_books(configs, configs, url);
    if (configs[i].endpoint matches DiscoveredEndpoint::Http(u) && configs[i].service
        == DiscoveredService::Carddav) {
        assert(book_of(configs[i]) is Some);
        assert(book_found(configs, url));
    }
    assert forall|k: int| 0 <= k < books_of(configs).len() implies exists|j: int|
        0 <= j < configs.len() && (#[trigger] configs[j]).service == DiscoveredService::Carddav && (
        configs[j].endpoint matches DiscoveredEndpoint::Http(url) && url@ == (
        #[trigger] books_of(configs)[k]).url@) by {
        let b = books_of(configs)[k];
        assert(book_found(configs, b.url@));
        let j = choose|j: int|
            0 <= j < configs.len() && (book_of(#[trigger] configs[j]) matches Some(u) && u@
                == b.url@);
        assert(configs[j].service == DiscoveredService::Carddav);
    }
}

/// What was found for an address book server is all that was found for its URL,
/// and the best OAuth of it is offered beside the password.
pub proof fn address_books_have_their_own_ways(
    configs: Seq<DiscoveredConfig>,
    url: String,
    m: AuthMethod,
)
    ensures
        book_methods(configs, url@).contains(m) <==> exists|i: int|
            0 <= i < configs.len() && (book_of(#[trigger] configs[i]) matches Some(u) && u@ == url@)
                && configs[i].auth@.contains(m),
        best_of(book_methods(configs, url@)) matches Some(best) ==> book_choices(
            url,
            book_methods(configs, url@),
        ).contains(CardDavChoice { url, auth: view_of(best) }),
    decreases configs.len(),
{
    let methods = book_methods(configs, url@);
    if let Some(best) = best_of(methods) {
        assert(book_choices(url, methods)[1] == CardDavChoice { url, auth: view_of(best) });
    }
    if configs.len() > 0 {
        let t = configs.drop_last();
        let last = configs.len() - 1;
        address_books_have_their_own_ways(t, url, m);
        let before = book_methods(t, url@);
        if methods.contains(m) {
            let k = choose|k: int| 0 <= k < methods.len() && methods[k] == m;
            if k < before.len() {
                assert(before[k] == m);
                let j = choose|j: int|
                    0 <= j < t.len() && (book_of(#[trigger] t[j]) matches Some(u) && u@ == url@)
                        && t[j].auth@.contains(m);
                assert(configs[j] == t[j]);
            } else {
                assert(configs[last].auth@[k - before.len()] == m);
                assert(book_of(configs[last]) is Some);
            }
        }
        if exists|i: int|
            0 <= i < configs.len() && (book_of(#[trigger] configs[i]) matches Some(u) && u@ == url@)
                && configs[i].auth@.contains(m) {
            let j = choose|j: int|
                0 <= j < configs.len() && (book_of(#[trigger] configs[j]) matches Some(u) && u@
                    == url@) && configs[j].auth@.contains(m);
            if j < last {
                assert(t[j] == configs[j]);
                assert(before.contains(m));
                let k = choose|k: int| 0 <= k < before.len() && before[k] == m;
                assert(methods[k] == m);
            } else {
                let k = choose|k: int|
                    0 <= k < configs[last].auth@.len() && configs[last].auth@[k] == m;
                assert(methods[before.len() + k] == m);
            }
        }
    }
}

/// A choice says where its server is, how it is reached and how to sign in, and
/// choices are told in order.
pub proof fn choices_say_what_they_hold(c: ImapChoice, all: Seq<ImapChoice>, i: int)
    requires
        0 <= i < all.len(),
    ensures
        c@.server.host == c.host@,
        c@.server.port == c.port,
        c@.server.security == c.security@,
        c@.auth == c.auth,
        choice_views(all).len() == all.len(),
        choice_views(all)[i] == all[i]@,
{
}

/// Servers stand by their host, then by their port, then by their security, and
/// none before itself.
pub proof fn servers_stand_by_host_and_port(a: Server, b: Server)
    ensures
        !server_before(a, a),
        text_before(a.host, b.host) ==> server_before(a, b),
        a.host == b.host && a.port < b.port ==> server_before(a, b),
        a.host == b.host && a.port > b.port ==> !server_before(a, b),
        a.host == b.host && a.port == b.port ==> (server_before(a, b) <==> text_before(
            a.security,
            b.security,
        )),
        a.host != b.host ==> (server_before(a, b) <==> text_before(a.host, b.host)),
{
    if text_before(a.host, a.host) {
        crate::sort::lemma_text_asymmetric(a.host, a.host);
    }
    if text_before(a.security, a.security) {
        crate::sort::lemma_text_asymmetric(a.security, a.security);
    }
}

} // verus!
