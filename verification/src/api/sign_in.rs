//! Signing in: with a mailbox's password, with a link sent by mail, and with
//! OAuth. Each ends with a capability link to an account.

use crate::api::caller::{bearer, bearer_of, link_account, links_lead_to_their_account, Caller};
use crate::api::reply::ApiError;
use crate::api::service::{is_foreign, plans_watch, CreateWatch, WatchPlan};
use crate::digest::utf8;
use crate::imap::session::{ImapAccount, ImapAuth, Probe};
use crate::laws::{
    capability_opens_its_account, proven_connection_is_kept, stored_credential_is_read,
    stored_password_is_read,
};
use crate::metering::{mailbox_key, mailbox_key_of, FREE_CREDITS_ON_SIGNUP};
use crate::oauth::{exchange_code, bad_byte, ClientId, CodeExchange, OauthError, Planned, Tokens};
use crate::random::{is_secret, random_secret};
use crate::rows::{OauthCredential, OauthSession};
use crate::store::{
    account_uncredited, account_with_email, link_is, link_stale, member_is, with_free_credit,
    MembershipView, Store,
};
use crate::table::{
    any_where, copy_text, delete_where, first_where, lemma_filter_contains, lemma_first_pushed,
    lemma_first_where, opt_str, opt_text, update_where,
};
use crate::text::{has_char, join2, lower_of, same, to_lower, trim, trim_end_char, trim_end_char_of, trim_of};
use crate::util::{add_clamped, clamp, now_secs};
use crate::weburl::{read_url, url_of};
use vstd::prelude::*;

verus! {

/// How long a capability link lasts, in seconds: ninety days.
pub const CAPABILITY_TTL: i64 = 7_776_000;

/// How long a sign-in link lasts, in seconds.
pub const MAGIC_LINK_TTL: i64 = 900;

/// How long a pending authorization lasts, in seconds.
pub const OAUTH_SESSION_TTL: i64 = 900;

/// When a capability link that is made at a time expires.
pub open spec fn expires_at(now: int) -> Option<i64> {
    Some(clamp(now + CAPABILITY_TTL) as i64)
}

// --- accounts ---

/// How a sign-in came to its account.
#[derive(Clone, Copy, Debug, PartialEq, Eq, Structural)]
pub enum AuthAction {
    /// The caller's capability link opened it.
    Joined,
    /// It had the mailbox already.
    Recovered,
    /// It is new.
    Created,
}

impl AuthAction {
    pub open spec fn name(self) -> Seq<char> {
        match self {
            AuthAction::Joined => "joined"@,
            AuthAction::Recovered => "recovered"@,
            AuthAction::Created => "created"@,
        }
    }

    /// Its name.
    pub fn as_str(&self) -> (r: &'static str)
        ensures
            r@ == self.name(),
    {
        match self {
            AuthAction::Joined => "joined",
            AuthAction::Recovered => "recovered",
            AuthAction::Created => "created",
        }
    }
}

/// A sign-in: the account, how it was come to, and a link that opens it.
#[derive(Debug)]
pub struct SignedIn {
    pub account_id: String,
    pub action: AuthAction,
    pub link: String,
}

/// What opening the account of an identity does, at a time: the account that
/// declared the identity first gets a new link, or an account is made.
pub open spec fn opens_identity(
    before: Store,
    after: Store,
    key: Seq<char>,
    fresh_id: Seq<char>,
    fresh_link: Seq<char>,
    now: i64,
    r: SignedIn,
) -> bool {
    r.link@ == fresh_link && match before.owner_of(key) {
        Some(id) => r.account_id == id && r.action == AuthAction::Recovered && before.issues(
            after,
            id@,
            fresh_link,
            expires_at(now as int),
            now,
        ),
        None => r.account_id@ == fresh_id && r.action == AuthAction::Created
            && exists|mid: Store| #[trigger]
            before.ensures_account(mid, fresh_id, None) && mid.issues(
                after,
                fresh_id,
                fresh_link,
                expires_at(now as int),
                now,
            ),
    }
}

fn open_identity(store: &mut Store, key: &str, now: i64, fresh_id: String, fresh_link: String) -> (r:
    SignedIn)
    ensures
        opens_identity(*old(store), *final(store), key@, fresh_id@, fresh_link@, now, r),
{
    let expires: i64 = add_clamped(now, CAPABILITY_TTL);
    match store.account_of_mailbox(key) {
        Some(id) => {
            store.issue_capability_at(id.as_str(), fresh_link.as_str(), Some(expires), now);
            SignedIn { account_id: id, action: AuthAction::Recovered, link: fresh_link }
        },
        None => {
            store.ensure_account(fresh_id.as_str(), None);
            let ghost mid = *store;
            store.issue_capability_at(fresh_id.as_str(), fresh_link.as_str(), Some(expires), now);
            assert(old(store).ensures_account(mid, fresh_id@, None));
            SignedIn { account_id: fresh_id, action: AuthAction::Created, link: fresh_link }
        },
    }
}

/// What granting an account its free credit does, if it has not had it.
pub open spec fn grants_free(before: Store, after: Store, account: Seq<char>) -> bool {
    &&& after.accounts@ == update_where(
        before.accounts@,
        account_uncredited(account),
        with_free_credit(FREE_CREDITS_ON_SIGNUP as int),
    )
    &&& after == (Store { accounts: after.accounts, ..before })
    &&& before.wf() ==> after.wf()
}

/// A mailbox that was proven, as it is recorded.
pub open spec fn proven(login: Seq<char>, host: Seq<char>, port: u16) -> MembershipView {
    MembershipView {
        mailbox_key: mailbox_key_of(login, host),
        protocol: "imap"@,
        login,
        imap_host: host,
        imap_port: port,
        base_url: None,
    }
}

// --- with a password ---

/// What choosing the account of a password's sign-in does, at a time: a link
/// that the caller presents and that opens an account decides.
pub open spec fn chooses_account(
    before: Store,
    after: Store,
    token: Option<Seq<char>>,
    key: Seq<char>,
    fresh_id: Seq<char>,
    fresh_link: Seq<char>,
    now: i64,
    r: SignedIn,
) -> bool {
    match token {
        Some(t) => match before.opens(t, now as int) {
            Some(id) => r.account_id == id && r.action == AuthAction::Joined && r.link@ == t
                && after == before,
            None => opens_identity(before, after, key, fresh_id, fresh_link, now, r),
        },
        None => opens_identity(before, after, key, fresh_id, fresh_link, now, r),
    }
}

/// What a sign-in with a mailbox's password does, at a time: the account is
/// chosen, the mailbox is recorded as its own, the password is kept for the
/// mailbox, and the account has had its free credit.
pub open spec fn authorizes(
    before: Store,
    after: Store,
    token: Option<Seq<char>>,
    login: Seq<char>,
    host: Seq<char>,
    port: u16,
    enc_password: Seq<char>,
    fresh_id: Seq<char>,
    fresh_link: Seq<char>,
    now: i64,
    r: SignedIn,
) -> bool {
    let key = mailbox_key_of(login, host);
    exists|a: Store, b: Store, c: Store| #[trigger]
        chooses_account(before, a, token, key, fresh_id, fresh_link, now, r) && #[trigger] a.joins(
            b,
            r.account_id@,
            proven(login, host, port),
            now,
        ) && #[trigger] b.keeps_password(c, r.account_id@, key, enc_password, now) && grants_free(
            c,
            after,
            r.account_id@,
        )
}

/// Signs in with a mailbox's password, once the mailbox's server accepted it,
/// at a time and with a given account id and link should they be needed.
pub fn auth_at(
    store: &mut Store,
    header: Option<&str>,
    login: &str,
    imap_host: &str,
    imap_port: u16,
    enc_password: &str,
    now: i64,
    fresh_id: String,
    fresh_link: String,
) -> (r: SignedIn)
    ensures
        authorizes(
            *old(store),
            *final(store),
            bearer_of(opt_str(header)),
            login@,
            imap_host@,
            imap_port,
            enc_password@,
            fresh_id@,
            fresh_link@,
            now,
            r,
        ),
        old(store).wf() ==> final(store).wf(),
{
    let ghost before = *store;
    let key = mailbox_key(login, imap_host);
    let presented = bearer(header);
    let joined = match &presented {
        Some(token) => store.resolve_capability_at(token.as_str(), now),
        None => None,
    };
    let r = match (joined, presented) {
        (Some(id), Some(token)) => SignedIn {
            account_id: id,
            action: AuthAction::Joined,
            link: token,
        },
        _ => open_identity(store, key.as_str(), now, fresh_id, fresh_link),
    };
    let ghost a = *store;
    assert(chooses_account(
        before,
        a,
        bearer_of(opt_str(header)),
        key@,
        fresh_id@,
        fresh_link@,
        now,
        r,
    ));
    store.add_membership_at(
        r.account_id.as_str(),
        key.as_str(),
        "imap",
        login,
        imap_host,
        imap_port,
        None,
        now,
    );
    let ghost b = *store;
    assert(a.joins(b, r.account_id@, proven(login@, imap_host@, imap_port), now));
    store.upsert_password_credential_at(r.account_id.as_str(), key.as_str(), enc_password, now);
    let ghost c = *store;
    assert(b.keeps_password(c, r.account_id@, key@, enc_password@, now));
    store.grant_free_credit(r.account_id.as_str(), FREE_CREDITS_ON_SIGNUP);
    assert(grants_free(c, *store, r.account_id@));
    r
}

/// Signs in with a mailbox's password, now.
pub fn auth(
    store: &mut Store,
    header: Option<&str>,
    login: &str,
    imap_host: &str,
    imap_port: u16,
    enc_password: &str,
) -> (r: SignedIn)
    ensures
        exists|id: Seq<char>, link: Seq<char>, now: i64|
            is_secret(id) && is_secret(link) && #[trigger] authorizes(
                *old(store),
                *final(store),
                bearer_of(opt_str(header)),
                login@,
                imap_host@,
                imap_port,
                enc_password@,
                id,
                link,
                now,
                r,
            ),
        old(store).wf() ==> final(store).wf(),
{
    let now: i64 = now_secs();
    let id = random_secret();
    let link = random_secret();
    auth_at(store, header, login, imap_host, imap_port, enc_password, now, id, link)
}

/// Lets only a mailbox through that its server let in.
pub fn check_proven(probe: &Probe) -> (r: Result<(), ApiError>)
    ensures
        r == (if probe.authenticated {
            Ok::<(), ApiError>(())
        } else {
            Err(ApiError::AuthenticationFailed(probe.error))
        }),
{
    if probe.authenticated {
        Ok(())
    } else {
        Err(ApiError::AuthenticationFailed(copy_text(&probe.error)))
    }
}

// --- with a link sent by mail ---

/// The address that a text is, if it may be one: lower-case, at least three
/// bytes, and with an at sign.
pub open spec fn address_of(input: Seq<char>) -> Option<Seq<char>> {
    let email = lower_of(trim_of(input));
    if utf8(email).len() < 3 || !email.contains('@') {
        None
    } else {
        Some(email)
    }
}

/// The address to send a sign-in link to.
pub fn magic_email(input: &str) -> (r: Result<String, ApiError>)
    ensures
        match address_of(input@) {
            Some(email) => r matches Ok(e) && e@ == email,
            None => r matches Err(ApiError::BadRequest(m)) && m@ == "a valid email is required"@,
        },
{
    let plain = trim(input);
    let email = to_lower(plain.as_str());
    if email.as_str().as_bytes().len() < 3 || !has_char(email.as_str(), '@') {
        return Err(ApiError::BadRequest("a valid email is required".to_owned()));
    }
    Ok(email)
}

/// The link that a mail carries: the dashboard's, or this server's own where
/// there is no dashboard.
pub open spec fn link_of(dashboard: Seq<char>, public_url: Seq<char>, token: Seq<char>) -> Seq<char> {
    let base = trim_end_char_of(dashboard, '/');
    if base.len() == 0 || base == "*"@ {
        trim_end_char_of(public_url, '/') + "/auth/magic/verify?token="@ + token
    } else {
        base + "/verify?token="@ + token
    }
}

/// The link that a mail carries.
pub fn magic_link(dashboard_origin: &str, public_url: &str, token: &str) -> (r: String)
    ensures
        r@ == link_of(dashboard_origin@, public_url@, token@),
{
    let base = trim_end_char(dashboard_origin, '/');
    if base.as_str().unicode_len() == 0 || same(base.as_str(), "*") {
        let mut out = trim_end_char(public_url, '/');
        out.append("/auth/magic/verify?token=");
        out.append(token);
        out
    } else {
        let mut out = base;
        out.append("/verify?token=");
        out.append(token);
        out
    }
}

/// Keeps a sign-in link for an address, at a time and with a given token, and
/// says what the mail carries.
pub fn magic_request_at(
    store: &mut Store,
    email: &str,
    dashboard_origin: &str,
    public_url: &str,
    token: &str,
    now: i64,
) -> (r: String)
    ensures
        old(store).links(*final(store), token@, email@, now),
        r@ == link_of(dashboard_origin@, public_url@, token@),
{
    store.create_magic_link_at(token, email, now);
    magic_link(dashboard_origin, public_url, token)
}

/// Keeps a sign-in link for an address, now and with a random token.
pub fn magic_request(store: &mut Store, email: &str, dashboard_origin: &str, public_url: &str) -> (r:
    String)
    ensures
        exists|token: Seq<char>, now: i64|
            is_secret(token) && #[trigger] old(store).links(*final(store), token, email@, now)
                && r@ == link_of(dashboard_origin@, public_url@, token),
{
    let token = random_secret();
    let now: i64 = now_secs();
    magic_request_at(store, email, dashboard_origin, public_url, token.as_str(), now)
}

/// What signing in as the holder of an address does, at a time: the first
/// account with the address gets a new link, or an account with it is made.
pub open spec fn opens_address(
    before: Store,
    after: Store,
    email: Seq<char>,
    fresh_id: Seq<char>,
    fresh_link: Seq<char>,
    now: i64,
    r: (String, String),
) -> bool {
    r.1@ == fresh_link && match first_where(before.accounts@, account_with_email(email)) {
        Some(account) => r.0 == account.id && before.issues(
            after,
            account.id@,
            fresh_link,
            expires_at(now as int),
            now,
        ),
        None => r.0@ == fresh_id && exists|mid: Store| #[trigger]
            before.ensures_account(mid, fresh_id, Some(email)) && mid.issues(
                after,
                fresh_id,
                fresh_link,
                expires_at(now as int),
                now,
            ),
    }
}

/// What signing in with a link sent by mail does, at a time.
pub open spec fn verifies_magic(
    before: Store,
    after: Store,
    token: Seq<char>,
    fresh_id: Seq<char>,
    fresh_link: Seq<char>,
    now: i64,
    r: Option<(String, String)>,
) -> bool {
    exists|mid: Store, email: Option<String>| #[trigger]
        before.takes_link(mid, token, MAGIC_LINK_TTL, now, email) && match email {
            None => r is None && after == mid,
            Some(e) => r matches Some(done) && opens_address(
                mid,
                after,
                e@,
                fresh_id,
                fresh_link,
                now,
                done,
            ),
        }
}

/// Signs in with a link sent by mail, at a time and with a given account id and
/// link should they be needed: the account and its link, or nothing where the
/// token is unknown, used or too old. A new account gets no free credit yet.
pub fn verify_magic_at(
    store: &mut Store,
    token: &str,
    now: i64,
    fresh_id: String,
    fresh_link: String,
) -> (r: Option<(String, String)>)
    ensures
        verifies_magic(*old(store), *final(store), token@, fresh_id@, fresh_link@, now, r),
        old(store).wf() ==> final(store).wf(),
{
    let taken = store.take_magic_link_at(token, MAGIC_LINK_TTL, now);
    let ghost mid = *store;
    assert(old(store).takes_link(mid, token@, MAGIC_LINK_TTL, now, taken));
    let email = match taken {
        Some(email) => email,
        None => return None,
    };
    let expires: i64 = add_clamped(now, CAPABILITY_TTL);
    let ghost id_view = fresh_id@;
    let account_id = match store.account_by_email(email.as_str()) {
        Some(id) => id,
        None => {
            store.ensure_account(fresh_id.as_str(), Some(email.as_str()));
            fresh_id
        },
    };
    let ghost there = *store;
    store.issue_capability_at(account_id.as_str(), fresh_link.as_str(), Some(expires), now);
    proof {
        if first_where(mid.accounts@, account_with_email(email@)) is None {
            assert(mid.ensures_account(there, id_view, Some(email@)));
        }
    }
    let r = (account_id, fresh_link);
    assert(opens_address(mid, *store, email@, id_view, fresh_link@, now, r));
    Some(r)
}

/// Signs in with a link sent by mail, now.
pub fn verify_magic(store: &mut Store, token: &str) -> (r: Option<(String, String)>)
    ensures
        exists|id: Seq<char>, link: Seq<char>, now: i64|
            is_secret(id) && is_secret(link) && #[trigger] verifies_magic(
                *old(store),
                *final(store),
                token@,
                id,
                link,
                now,
                r,
            ),
        old(store).wf() ==> final(store).wf(),
{
    let now: i64 = now_secs();
    let id = random_secret();
    let link = random_secret();
    verify_magic_at(store, token, now, id, link)
}

// --- with OAuth ---

/// The mailbox that an authorization is for.
#[derive(Debug)]
pub struct MailTarget {
    pub login: String,
    pub imap_host: String,
    pub imap_port: u16,
    pub mailbox: String,
}

/// Where the provider returns the user to.
pub fn redirect_uri(public_url: &str) -> (r: String)
    ensures
        r@ == trim_end_char_of(public_url@, '/') + "/oauth/callback"@,
{
    let mut out = trim_end_char(public_url, '/');
    out.append("/oauth/callback");
    out
}

/// Whether this is the authorization to keep until the callback.
pub open spec fn pends(
    s: OauthSession,
    planned: Planned,
    enc_client_secret: Option<String>,
    redirect_uri: String,
    account: Option<String>,
    target: MailTarget,
) -> bool {
    &&& s.state == planned.auth.state
    &&& s.verifier == planned.auth.verifier
    &&& s.redirect_uri == redirect_uri
    &&& s.token_endpoint == planned.token_endpoint
    &&& s.client_id == planned.client_id
    &&& s.enc_client_secret == enc_client_secret
    &&& s.resource == planned.resource
    &&& s.scope == planned.scope
    &&& s.account_id == account
    &&& s.login == target.login
    &&& s.imap_host == target.imap_host
    &&& s.imap_port == target.imap_port
    &&& s.mailbox == target.mailbox
    &&& s.source_kind@ == "imap"@
    &&& s.carddav_url is None
}

/// What beginning an authorization does, at a time: it is kept by its state,
/// with the account of a presented link if there is one.
pub open spec fn begins_oauth(
    before: Store,
    after: Store,
    header: Option<Seq<char>>,
    planned: Planned,
    enc_client_secret: Option<String>,
    redirect_uri: String,
    target: MailTarget,
    now: i64,
    r: Result<String, ApiError>,
) -> bool {
    let account = link_account(before, header, now as int);
    exists|s: OauthSession, kept: Result<(), crate::store::StoreError>|
        pends(s, planned, enc_client_secret, redirect_uri, account, target) && #[trigger]
            before.opens_session(after, s, now, kept) && match kept {
            Ok(_) => r == Ok::<String, ApiError>(planned.auth.url),
            Err(_) => r matches Err(ApiError::Internal(m)) && m@
                == "cannot store the OAuth session"@,
        }
}

/// Begins an authorization, at a time: where to send the user.
pub fn oauth_start_at(
    store: &mut Store,
    header: Option<&str>,
    planned: Planned,
    enc_client_secret: Option<String>,
    redirect_uri: String,
    target: MailTarget,
    now: i64,
) -> (r: Result<String, ApiError>)
    ensures
        begins_oauth(
            *old(store),
            *final(store),
            opt_str(header),
            planned,
            enc_client_secret,
            redirect_uri,
            target,
            now,
            r,
        ),
{
    let account = match bearer(header) {
        Some(token) => store.resolve_capability_at(token.as_str(), now),
        None => None,
    };
    let url = planned.auth.url.clone();
    let session = OauthSession {
        state: planned.auth.state.clone(),
        verifier: planned.auth.verifier.clone(),
        redirect_uri: redirect_uri.clone(),
        token_endpoint: planned.token_endpoint.clone(),
        client_id: planned.client_id.clone(),
        enc_client_secret: copy_text(&enc_client_secret),
        resource: copy_text(&planned.resource),
        scope: copy_text(&planned.scope),
        account_id: account,
        login: target.login.clone(),
        imap_host: target.imap_host.clone(),
        imap_port: target.imap_port,
        mailbox: target.mailbox.clone(),
        source_kind: "imap".to_owned(),
        carddav_url: None,
    };
    let kept = store.create_oauth_session_at(&session, now);
    assert(old(store).opens_session(*store, session, now, kept));
    match kept {
        Ok(_) => Ok(url),
        Err(_) => Err(ApiError::Internal("cannot store the OAuth session".to_owned())),
    }
}

/// Begins an authorization, now.
pub fn oauth_start(
    store: &mut Store,
    header: Option<&str>,
    planned: Planned,
    enc_client_secret: Option<String>,
    redirect_uri: String,
    target: MailTarget,
) -> (r: Result<String, ApiError>)
    ensures
        exists|now: i64| #[trigger]
            begins_oauth(
                *old(store),
                *final(store),
                opt_str(header),
                planned,
                enc_client_secret,
                redirect_uri,
                target,
                now,
                r,
            ),
{
    let now: i64 = now_secs();
    oauth_start_at(store, header, planned, enc_client_secret, redirect_uri, target, now)
}

/// Why an authorization came to nothing.
#[derive(Debug)]
pub enum CallbackError {
    /// The provider says so.
    Provider(String),
    MissingCode,
    MissingState,
    /// No such authorization is pending.
    UnknownState,
    /// The client's secret cannot be decrypted.
    ClientSecret,
    TokenEndpoint,
    Exchange(String),
    NoRefreshToken,
    /// The mailbox's server does not take the token.
    NotAuthenticated(String),
    /// Something failed here.
    Server,
}

impl CallbackError {
    pub open spec fn text(self) -> Seq<char> {
        match self {
            CallbackError::Provider(detail) => detail@,
            CallbackError::MissingCode => "missing authorization code"@,
            CallbackError::MissingState => "missing state"@,
            CallbackError::UnknownState => "unknown or expired sign-in; start again"@,
            CallbackError::ClientSecret => "cannot read client secret"@,
            CallbackError::TokenEndpoint => "bad token endpoint"@,
            CallbackError::Exchange(why) => "token exchange failed: "@ + why@,
            CallbackError::NoRefreshToken =>
                "provider returned no refresh token (missing offline access)"@,
            CallbackError::NotAuthenticated(why) => "OAuth token did not authenticate to IMAP: "@
                + why@,
            CallbackError::Server => "server error"@,
        }
    }

    /// What to tell the user.
    pub fn message(&self) -> (r: String)
        ensures
            r@ == self.text(),
    {
        match self {
            CallbackError::Provider(detail) => detail.clone(),
            CallbackError::MissingCode => "missing authorization code".to_owned(),
            CallbackError::MissingState => "missing state".to_owned(),
            CallbackError::UnknownState => "unknown or expired sign-in; start again".to_owned(),
            CallbackError::ClientSecret => "cannot read client secret".to_owned(),
            CallbackError::TokenEndpoint => "bad token endpoint".to_owned(),
            CallbackError::Exchange(why) => join2("token exchange failed: ", why.as_str()),
            CallbackError::NoRefreshToken =>
                "provider returned no refresh token (missing offline access)".to_owned(),
            CallbackError::NotAuthenticated(why) => join2(
                "OAuth token did not authenticate to IMAP: ",
                why.as_str(),
            ),
            CallbackError::Server => "server error".to_owned(),
        }
    }
}

/// What the provider sends the user back with.
#[derive(Debug)]
pub struct OauthCallback {
    pub state: String,
    pub code: Option<String>,
    pub error: Option<String>,
    pub error_description: Option<String>,
}

/// The code that the provider sends the user back with. An error of the
/// provider's counts before anything else.
pub fn callback_code(params: &OauthCallback) -> (r: Result<String, CallbackError>)
    ensures
        r == (match (params.error, params.code) {
            (Some(error), _) => Err::<String, CallbackError>(
                CallbackError::Provider(
                    match params.error_description {
                        Some(detail) => detail,
                        None => error,
                    },
                ),
            ),
            (None, None) => Err(CallbackError::MissingCode),
            (None, Some(code)) => if params.state@.len() == 0 {
                Err(CallbackError::MissingState)
            } else {
                Ok(code)
            },
        }),
{
    if let Some(error) = &params.error {
        let detail = match &params.error_description {
            Some(detail) => detail.clone(),
            None => error.clone(),
        };
        return Err(CallbackError::Provider(detail));
    }
    match &params.code {
        None => Err(CallbackError::MissingCode),
        Some(code) => if params.state.as_str().unicode_len() == 0 {
            Err(CallbackError::MissingState)
        } else {
            Ok(code.clone())
        },
    }
}

/// Takes the pending authorization of a state, at a time. It can be taken once,
/// and not when it is too old.
pub fn take_authorization_at(store: &mut Store, state: &str, now: i64) -> (r: Result<
    OauthSession,
    CallbackError,
>)
    ensures
        exists|found: Option<OauthSession>| #[trigger]
            old(store).takes_session(*final(store), state@, OAUTH_SESSION_TTL, now, found) && r
                == (match found {
                Some(s) => Ok::<OauthSession, CallbackError>(s),
                None => Err(CallbackError::UnknownState),
            }),
        old(store).wf() ==> final(store).wf(),
{
    let found = store.take_oauth_session_at(state, OAUTH_SESSION_TTL, now);
    assert(old(store).takes_session(*store, state@, OAUTH_SESSION_TTL, now, found));
    match found {
        Some(s) => Ok(s),
        None => Err(CallbackError::UnknownState),
    }
}

/// Takes the pending authorization of a state, now.
pub fn take_authorization(store: &mut Store, state: &str) -> (r: Result<OauthSession, CallbackError>)
    ensures
        exists|now: i64, found: Option<OauthSession>| #[trigger]
            old(store).takes_session(*final(store), state@, OAUTH_SESSION_TTL, now, found) && r
                == (match found {
                Some(s) => Ok::<OauthSession, CallbackError>(s),
                None => Err(CallbackError::UnknownState),
            }),
        old(store).wf() ==> final(store).wf(),
{
    let now: i64 = now_secs();
    take_authorization_at(store, state, now)
}

/// A code to redeem, and the endpoint to redeem it at.
#[derive(Debug)]
pub struct ExchangePlan {
    pub token_endpoint: String,
    pub exchange: CodeExchange,
}

/// Whether this is what redeems the code of an authorization.
pub open spec fn plans_exchange(
    r: Result<ExchangePlan, CallbackError>,
    session: OauthSession,
    client_secret: Option<String>,
    code: Seq<char>,
) -> bool {
    match url_of(session.token_endpoint@) {
        Err(_) => r == Err::<ExchangePlan, CallbackError>(CallbackError::TokenEndpoint),
        Ok(url) => match bad_byte(utf8(session.verifier@)) {
            Some(byte) => r matches Err(CallbackError::Exchange(why)) && why@
                == OauthError::InvalidVerifier(byte).text(),
            None => r matches Ok(p) && p.token_endpoint@ == url.text && p.exchange.code@ == code
                && p.exchange.redirect_uri@ == session.redirect_uri@ && p.exchange.client_id@
                == session.client_id@ && opt_text(p.exchange.client_secret) == opt_text(
                client_secret,
            ) && p.exchange.verifier@ == session.verifier@,
        },
    }
}

/// What redeems the code of an authorization, once the client's secret is
/// decrypted.
pub fn plan_exchange(session: &OauthSession, client_secret: Option<String>, code: &str) -> (r: Result<
    ExchangePlan,
    CallbackError,
>)
    ensures
        plans_exchange(r, *session, client_secret, code@),
{
    let url = match read_url(session.token_endpoint.as_str()) {
        Ok(url) => url,
        Err(_) => return Err(CallbackError::TokenEndpoint),
    };
    let client = ClientId::Static { client_id: session.client_id.clone(), client_secret };
    match exchange_code(
        &client,
        session.redirect_uri.as_str(),
        code,
        session.verifier.as_str(),
    ) {
        Ok(exchange) => Ok(ExchangePlan { token_endpoint: url.text, exchange }),
        Err(e) => Err(CallbackError::Exchange(e.message())),
    }
}

/// The refresh token that has to come with an access token, and the account to
/// try the access token on.
pub fn check_tokens(session: &OauthSession, tokens: &Tokens) -> (r: Result<
    (String, ImapAccount),
    CallbackError,
>)
    ensures
        match tokens.refresh_token {
            None => r == Err::<(String, ImapAccount), CallbackError>(CallbackError::NoRefreshToken),
            Some(token) => r == Ok::<(String, ImapAccount), CallbackError>(
                (
                    token,
                    ImapAccount {
                        host: session.imap_host,
                        port: session.imap_port,
                        login: session.login,
                        auth: ImapAuth::OauthBearer(tokens.access_token),
                        mailbox: session.mailbox,
                    },
                ),
            ),
        },
{
    match &tokens.refresh_token {
        None => Err(CallbackError::NoRefreshToken),
        Some(token) => Ok(
            (
                token.clone(),
                ImapAccount {
                    host: session.imap_host.clone(),
                    port: session.imap_port,
                    login: session.login.clone(),
                    auth: ImapAuth::OauthBearer(tokens.access_token.clone()),
                    mailbox: session.mailbox.clone(),
                },
            ),
        ),
    }
}

/// Lets only an access token through that the mailbox's server took.
pub fn check_access(probe: &Probe) -> (r: Result<(), CallbackError>)
    ensures
        if probe.authenticated {
            r is Ok
        } else {
            r matches Err(CallbackError::NotAuthenticated(why)) && why@ == (match probe.error {
                Some(e) => e@,
                None => ""@,
            })
        },
{
    if probe.authenticated {
        return Ok(());
    }
    let why = match &probe.error {
        Some(e) => e.clone(),
        None => "".to_owned(),
    };
    Err(CallbackError::NotAuthenticated(why))
}

/// Whether this is the credential that an authorization leaves.
pub open spec fn leaves_credential(
    c: OauthCredential,
    session: OauthSession,
    account: Seq<char>,
    enc_refresh_token: String,
) -> bool {
    &&& c.account_id@ == account
    &&& c.mailbox_key@ == mailbox_key_of(session.login@, session.imap_host@)
    &&& c.enc_refresh_token == enc_refresh_token
    &&& c.token_endpoint == session.token_endpoint
    &&& c.client_id == session.client_id
    &&& c.enc_client_secret == session.enc_client_secret
    &&& c.resource == session.resource
    &&& c.scope == session.scope
}

/// What choosing the account of an authorization does, at a time: the one that
/// it was begun with gets a new link, else that of the mailbox, else a new one.
pub open spec fn chooses_oauth_account(
    before: Store,
    after: Store,
    session: OauthSession,
    fresh_id: Seq<char>,
    fresh_link: Seq<char>,
    now: i64,
    r: SignedIn,
) -> bool {
    match session.account_id {
        Some(id) => r.account_id == id && r.action == AuthAction::Joined && r.link@ == fresh_link
            && before.issues(after, id@, fresh_link, expires_at(now as int), now),
        None => opens_identity(
            before,
            after,
            mailbox_key_of(session.login@, session.imap_host@),
            fresh_id,
            fresh_link,
            now,
            r,
        ),
    }
}

/// What finishing an authorization does, at a time: the account is chosen, the
/// mailbox is recorded as its own, the account has had its free credit, and the
/// credential is kept for the mailbox.
pub open spec fn finishes_oauth(
    before: Store,
    after: Store,
    session: OauthSession,
    enc_refresh_token: String,
    fresh_id: Seq<char>,
    fresh_link: Seq<char>,
    now: i64,
    r: SignedIn,
) -> bool {
    exists|a: Store, b: Store, c: Store, cred: OauthCredential| #[trigger]
        chooses_oauth_account(before, a, session, fresh_id, fresh_link, now, r) && #[trigger]
            a.joins(
                b,
                r.account_id@,
                proven(session.login@, session.imap_host@, session.imap_port),
                now,
            ) && grants_free(b, c, r.account_id@) && leaves_credential(
            cred,
            session,
            r.account_id@,
            enc_refresh_token,
        ) && #[trigger] c.grants(after, cred, now)
}

/// Finishes an authorization, once the mailbox's server took the access token,
/// at a time and with a given account id and link should they be needed.
pub fn finish_oauth_at(
    store: &mut Store,
    session: &OauthSession,
    enc_refresh_token: String,
    now: i64,
    fresh_id: String,
    fresh_link: String,
) -> (r: SignedIn)
    ensures
        finishes_oauth(
            *old(store),
            *final(store),
            *session,
            enc_refresh_token,
            fresh_id@,
            fresh_link@,
            now,
            r,
        ),
        old(store).wf() ==> final(store).wf(),
{
    let ghost before = *store;
    let ghost id_view = fresh_id@;
    let ghost link_view = fresh_link@;
    let key = mailbox_key(session.login.as_str(), session.imap_host.as_str());
    let r = match &session.account_id {
        Some(id) => {
            let expires: i64 = add_clamped(now, CAPABILITY_TTL);
            store.issue_capability_at(id.as_str(), fresh_link.as_str(), Some(expires), now);
            SignedIn { account_id: id.clone(), action: AuthAction::Joined, link: fresh_link }
        },
        None => open_identity(store, key.as_str(), now, fresh_id, fresh_link),
    };
    let ghost a = *store;
    assert(chooses_oauth_account(before, a, *session, id_view, link_view, now, r));
    store.add_membership_at(
        r.account_id.as_str(),
        key.as_str(),
        "imap",
        session.login.as_str(),
        session.imap_host.as_str(),
        session.imap_port,
        None,
        now,
    );
    let ghost b = *store;
    assert(a.joins(
        b,
        r.account_id@,
        proven(session.login@, session.imap_host@, session.imap_port),
        now,
    ));
    store.grant_free_credit(r.account_id.as_str(), FREE_CREDITS_ON_SIGNUP);
    let ghost c = *store;
    assert(grants_free(b, c, r.account_id@));
    let cred = OauthCredential {
        account_id: r.account_id.clone(),
        mailbox_key: key,
        enc_refresh_token,
        token_endpoint: session.token_endpoint.clone(),
        client_id: session.client_id.clone(),
        enc_client_secret: copy_text(&session.enc_client_secret),
        resource: copy_text(&session.resource),
        scope: copy_text(&session.scope),
    };
    assert(leaves_credential(cred, *session, r.account_id@, enc_refresh_token));
    store.upsert_oauth_credential_at(&cred, now);
    assert(c.grants(*store, cred, now));
    r
}

/// Finishes an authorization, now.
pub fn finish_oauth(store: &mut Store, session: &OauthSession, enc_refresh_token: String) -> (r:
    SignedIn)
    ensures
        exists|id: Seq<char>, link: Seq<char>, now: i64|
            is_secret(id) && is_secret(link) && #[trigger] finishes_oauth(
                *old(store),
                *final(store),
                *session,
                enc_refresh_token,
                id,
                link,
                now,
                r,
            ),
        old(store).wf() ==> final(store).wf(),
{
    let now: i64 = now_secs();
    let id = random_secret();
    let link = random_secret();
    finish_oauth_at(store, session, enc_refresh_token, now, id, link)
}

// --- what holds ---

/// A link that a sign-in with a password made opens its account until it
/// expires, whether the account was there or not; a link that was presented
/// opens it still.
pub proof fn sign_in_link_opens_the_account(
    before: Store,
    after: Store,
    token: Option<Seq<char>>,
    login: Seq<char>,
    host: Seq<char>,
    port: u16,
    enc_password: Seq<char>,
    fresh_id: Seq<char>,
    fresh_link: Seq<char>,
    now: i64,
    r: SignedIn,
    later: int,
)
    requires
        authorizes(
            before,
            after,
            token,
            login,
            host,
            port,
            enc_password,
            fresh_id,
            fresh_link,
            now,
            r,
        ),
        if r.action == AuthAction::Joined {
            later == now
        } else {
            later < clamp(now + CAPABILITY_TTL)
        },
    ensures
        after.opens(r.link@, later) matches Some(id) && id@ == r.account_id@,
{
    let key = mailbox_key_of(login, host);
    let (a, b, c) = choose|a: Store, b: Store, c: Store| #[trigger]
        chooses_account(before, a, token, key, fresh_id, fresh_link, now, r) && #[trigger] a.joins(
            b,
            r.account_id@,
            proven(login, host, port),
            now,
        ) && #[trigger] b.keeps_password(c, r.account_id@, key, enc_password, now) && grants_free(
            c,
            after,
            r.account_id@,
        );
    assert(after.capabilities == a.capabilities);
    if r.action != AuthAction::Joined {
        lemma_identity_link_opens(before, a, key, fresh_id, fresh_link, now, r, later);
    }
    assert(after.opens(r.link@, later) == a.opens(r.link@, later));
}

proof fn lemma_identity_link_opens(
    before: Store,
    after: Store,
    key: Seq<char>,
    fresh_id: Seq<char>,
    fresh_link: Seq<char>,
    now: i64,
    r: SignedIn,
    later: int,
)
    requires
        opens_identity(before, after, key, fresh_id, fresh_link, now, r),
        later < clamp(now + CAPABILITY_TTL),
    ensures
        after.opens(r.link@, later) matches Some(id) && id@ == r.account_id@,
{
    let expires = expires_at(now as int);
    match before.owner_of(key) {
        Some(id) => {
            capability_opens_its_account(before, after, id@, fresh_link, expires, now, later);
        },
        None => {
            let mid = choose|mid: Store| #[trigger]
                before.ensures_account(mid, fresh_id, None) && mid.issues(
                    after,
                    fresh_id,
                    fresh_link,
                    expires,
                    now,
                );
            capability_opens_its_account(mid, after, fresh_id, fresh_link, expires, now, later);
        },
    }
}

/// The link that an authorization ends with opens its account until it expires.
pub proof fn authorization_link_opens_the_account(
    before: Store,
    after: Store,
    session: OauthSession,
    enc_refresh_token: String,
    fresh_id: Seq<char>,
    fresh_link: Seq<char>,
    now: i64,
    r: SignedIn,
    later: int,
)
    requires
        finishes_oauth(
            before,
            after,
            session,
            enc_refresh_token,
            fresh_id,
            fresh_link,
            now,
            r,
        ),
        later < clamp(now + CAPABILITY_TTL),
    ensures
        after.opens(r.link@, later) matches Some(id) && id@ == r.account_id@,
{
    let key = mailbox_key_of(session.login@, session.imap_host@);
    let (a, b, c, cred) = choose|a: Store, b: Store, c: Store, cred: OauthCredential| #[trigger]
        chooses_oauth_account(before, a, session, fresh_id, fresh_link, now, r) && #[trigger]
            a.joins(
                b,
                r.account_id@,
                proven(session.login@, session.imap_host@, session.imap_port),
                now,
            ) && grants_free(b, c, r.account_id@) && leaves_credential(
            cred,
            session,
            r.account_id@,
            enc_refresh_token,
        ) && #[trigger] c.grants(after, cred, now);
    assert(after.capabilities == a.capabilities);
    match session.account_id {
        Some(id) => {
            let expires = expires_at(now as int);
            capability_opens_its_account(before, a, id@, fresh_link, expires, now, later);
        },
        None => {
            lemma_identity_link_opens(before, a, key, fresh_id, fresh_link, now, r, later);
        },
    }
    assert(after.opens(r.link@, later) == a.opens(r.link@, later));
}

/// The link that a sign-in by mail ends with opens its account until it expires.
pub proof fn mail_link_opens_the_account(
    before: Store,
    after: Store,
    email: Seq<char>,
    fresh_id: Seq<char>,
    fresh_link: Seq<char>,
    now: i64,
    r: (String, String),
    later: int,
)
    requires
        opens_address(before, after, email, fresh_id, fresh_link, now, r),
        later < clamp(now + CAPABILITY_TTL),
    ensures
        after.opens(r.1@, later) matches Some(id) && id@ == r.0@,
{
    let expires = expires_at(now as int);
    match first_where(before.accounts@, account_with_email(email)) {
        Some(account) => {
            let id = account.id@;
            capability_opens_its_account(before, after, id, fresh_link, expires, now, later);
        },
        None => {
            let mid = choose|mid: Store| #[trigger]
                before.ensures_account(mid, fresh_id, Some(email)) && mid.issues(
                    after,
                    fresh_id,
                    fresh_link,
                    expires,
                    now,
                );
            capability_opens_its_account(mid, after, fresh_id, fresh_link, expires, now, later);
        },
    }
}

/// A mailbox that was joined to an account is among the account's own.
proof fn lemma_joined(
    before: Store,
    after: Store,
    account: Seq<char>,
    member: MembershipView,
    now: i64,
)
    requires
        before.joins(after, account, member, now),
    ensures
        any_where(after.mailboxes@, member_is(account, member.mailbox_key, member.protocol)),
{
    let known = member_is(account, member.mailbox_key, member.protocol);
    if any_where(before.mailboxes@, known) {
        let i = choose|i: int|
            0 <= i < before.mailboxes@.len() && known(#[trigger] before.mailboxes@[i]);
        assert(known(after.mailboxes@[i]));
    } else {
        assert(known(after.mailboxes@[after.mailboxes@.len() - 1]));
    }
}

/// Whoever signed in with a mailbox's password can watch the mailbox without
/// giving the password again: but for a service that exists, for an id that is
/// another account's and for fair use, nothing is refused.
pub proof fn proven_mailbox_can_be_watched(
    before: Store,
    after: Store,
    token: Option<Seq<char>>,
    login: Seq<char>,
    host: Seq<char>,
    port: u16,
    enc_password: Seq<char>,
    fresh_id: Seq<char>,
    fresh_link: Seq<char>,
    now: i64,
    r: SignedIn,
    request: CreateWatch,
    cap: usize,
    plan: Result<WatchPlan, ApiError>,
)
    requires
        authorizes(
            before,
            after,
            token,
            login,
            host,
            port,
            enc_password,
            fresh_id,
            fresh_link,
            now,
            r,
        ),
        request.key() == mailbox_key_of(login, host),
        plans_watch(plan, after, Caller::Account(r.account_id), request, cap),
    ensures
        match plan {
            Ok(p) => p.account_id@ == r.account_id@,
            Err(e) => e is Exists || e is FairUse || (e is NotFound && is_foreign(
                after,
                Caller::Account(r.account_id),
                request.id@,
            )),
        },
{
    let key = mailbox_key_of(login, host);
    let (a, b, c) = choose|a: Store, b: Store, c: Store| #[trigger]
        chooses_account(before, a, token, key, fresh_id, fresh_link, now, r) && #[trigger] a.joins(
            b,
            r.account_id@,
            proven(login, host, port),
            now,
        ) && #[trigger] b.keeps_password(c, r.account_id@, key, enc_password, now) && grants_free(
            c,
            after,
            r.account_id@,
        );
    lemma_joined(a, b, r.account_id@, proven(login, host, port), now);
    stored_password_is_read(b, c, r.account_id@, key, enc_password, now, r.account_id@, key);
    assert(after.mailboxes == b.mailboxes && after.passwords == c.passwords);
    assert(after.password(r.account_id@, key) == c.password(r.account_id@, key));
}

/// Whoever authorized the watching of a mailbox can watch it without a
/// password: but for a service that exists, for an id that is another account's
/// and for fair use, nothing is refused.
pub proof fn authorized_mailbox_can_be_watched(
    before: Store,
    after: Store,
    session: OauthSession,
    enc_refresh_token: String,
    fresh_id: Seq<char>,
    fresh_link: Seq<char>,
    now: i64,
    r: SignedIn,
    request: CreateWatch,
    cap: usize,
    plan: Result<WatchPlan, ApiError>,
)
    requires
        finishes_oauth(
            before,
            after,
            session,
            enc_refresh_token,
            fresh_id,
            fresh_link,
            now,
            r,
        ),
        request.key() == mailbox_key_of(session.login@, session.imap_host@),
        plans_watch(plan, after, Caller::Account(r.account_id), request, cap),
    ensures
        match plan {
            Ok(p) => p.account_id@ == r.account_id@,
            Err(e) => e is Exists || e is FairUse || (e is NotFound && is_foreign(
                after,
                Caller::Account(r.account_id),
                request.id@,
            )),
        },
{
    let key = mailbox_key_of(session.login@, session.imap_host@);
    let member = proven(session.login@, session.imap_host@, session.imap_port);
    let (a, b, c, cred) = choose|a: Store, b: Store, c: Store, cred: OauthCredential| #[trigger]
        chooses_oauth_account(before, a, session, fresh_id, fresh_link, now, r) && #[trigger]
            a.joins(
                b,
                r.account_id@,
                proven(session.login@, session.imap_host@, session.imap_port),
                now,
            ) && grants_free(b, c, r.account_id@) && leaves_credential(
            cred,
            session,
            r.account_id@,
            enc_refresh_token,
        ) && #[trigger] c.grants(after, cred, now);
    lemma_joined(a, b, r.account_id@, member, now);
    stored_credential_is_read(c, after, cred, now, r.account_id@, key);
    assert(after.mailboxes == b.mailboxes);
}

/// Whoever signs in by mail again comes to the same account: the account that a
/// first sign-in made is the one that the address leads to.
pub proof fn same_address_same_account(
    before: Store,
    after: Store,
    email: Seq<char>,
    fresh_id: Seq<char>,
    fresh_link: Seq<char>,
    now: i64,
    r: (String, String),
)
    requires
        opens_address(before, after, email, fresh_id, fresh_link, now, r),
        !crate::table::any_where(before.accounts@, crate::store::account_is(fresh_id)),
    ensures
        first_where(after.accounts@, account_with_email(email)) matches Some(account) && account.id@
            == r.0@,
{
    let p = account_with_email(email);
    match first_where(before.accounts@, p) {
        Some(account) => {
            assert(after.accounts@ == before.accounts@);
        },
        None => {
            let mid = choose|mid: Store| #[trigger]
                before.ensures_account(mid, fresh_id, Some(email)) && mid.issues(
                    after,
                    fresh_id,
                    fresh_link,
                    expires_at(now as int),
                    now,
                );
            let new = mid.accounts@.last();
            assert(mid.accounts@ =~= before.accounts@.push(new));
            lemma_first_where(before.accounts@, p);
            lemma_first_pushed(before.accounts@, p, new);
            assert(after.accounts@ == mid.accounts@);
        },
    }
}

// --- how long things last, and what they carry ---

/// A link to an account lasts ninety days, a sign-in link and a pending
/// authorization a quarter of an hour.
pub proof fn links_last_ninety_days(now: int)
    requires
        0 <= now <= i64::MAX - 90 * 24 * 60 * 60,
    ensures
        expires_at(now) == Some((now + 90 * 24 * 60 * 60) as i64),
        MAGIC_LINK_TTL == 15 * 60,
        OAUTH_SESSION_TTL == 15 * 60,
{
}

/// A sign-in link signs in for a quarter of an hour after it was asked for, and
/// not a second longer; one that is not known never does, and changes neither
/// an account nor a link to one. Whoever it signs in gets a new link to an account
/// with the address that it was sent to.
pub proof fn links_sign_in_for_a_quarter_of_an_hour(
    before: Store,
    after: Store,
    token: Seq<char>,
    fresh_id: Seq<char>,
    fresh_link: Seq<char>,
    now: i64,
    r: Option<(String, String)>,
)
    requires
        verifies_magic(before, after, token, fresh_id, fresh_link, now, r),
    ensures
        r is Some <==> exists|i: int|
            0 <= i < before.magic_links@.len() && (#[trigger] before.magic_links@[i]).token_hash@
                == crate::digest::token_hash_of(token) && before.magic_links@[i].created_at >= now
                - 900,
        r is None ==> after.capabilities == before.capabilities && after.accounts
            == before.accounts,
        r matches Some(done) ==> {
            &&& done.1@ == fresh_link
            &&& after.capabilities@.last().account_id@ == done.0@
            &&& after.capabilities@.last().token_hash@ == crate::digest::token_hash_of(fresh_link)
        },
{
    let (mid, email) = choose|mid: Store, email: Option<String>| #[trigger]
        before.takes_link(mid, token, MAGIC_LINK_TTL, now, email) && match email {
            None => r is None && after == mid,
            Some(e) => r matches Some(done) && opens_address(
                mid,
                after,
                e@,
                fresh_id,
                fresh_link,
                now,
                done,
            ),
        };
    let hash = crate::digest::token_hash_of(token);
    let fresh = |l: crate::rows::MagicLinkRecord| !link_stale(now - MAGIC_LINK_TTL)(l);
    let live = delete_where(before.magic_links@, link_stale(now - MAGIC_LINK_TTL));
    lemma_first_where(live, link_is(hash));
    if r is Some {
        let l = first_where(live, link_is(hash))->0;
        lemma_filter_contains(before.magic_links@, fresh, l);
        let i = choose|i: int| 0 <= i < before.magic_links@.len() && before.magic_links@[i] == l;
        assert(before.magic_links@[i].created_at >= now - 900);
    }
    if exists|i: int|
        0 <= i < before.magic_links@.len() && (#[trigger] before.magic_links@[i]).token_hash@ == hash
            && before.magic_links@[i].created_at >= now - 900 {
        let i = choose|i: int|
            0 <= i < before.magic_links@.len() && (#[trigger] before.magic_links@[i]).token_hash@
                == hash && before.magic_links@[i].created_at >= now - 900;
        let l = before.magic_links@[i];
        lemma_filter_contains(before.magic_links@, fresh, l);
        let j = choose|j: int| 0 <= j < live.len() && live[j] == l;
        assert(link_is(hash)(live[j]));
    }
}

/// How a sign-in came to its account is told by name.
pub proof fn ways_to_an_account_have_names()
    ensures
        AuthAction::Joined.name() == "joined"@,
        AuthAction::Recovered.name() == "recovered"@,
        AuthAction::Created.name() == "created"@,
{
}

/// Whoever proves an identity comes to the account that declared it first, and to
/// a new one only where none did; either way with a link that lasts ninety days
/// and no longer.
pub proof fn identities_lead_to_their_account(
    before: Store,
    after: Store,
    key: Seq<char>,
    fresh_id: Seq<char>,
    fresh_link: Seq<char>,
    now: i64,
    r: SignedIn,
)
    requires
        opens_identity(before, after, key, fresh_id, fresh_link, now, r),
        0 <= now <= i64::MAX - 7_776_000,
    ensures
        r.link@ == fresh_link,
        before.owner_of(key) matches Some(id) ==> r.account_id@ == id@ && r.action
            == AuthAction::Recovered && after.accounts == before.accounts,
        before.owner_of(key) is None ==> r.account_id@ == fresh_id && r.action
            == AuthAction::Created && any_where(
            after.accounts@,
            crate::store::account_is(fresh_id),
        ),
        after.capabilities@.last().account_id@ == r.account_id@,
        after.capabilities@.last().expires_at == Some((now + 7_776_000) as i64),
        after.capabilities@.last().created_at == now,
        forall|later: int| later >= now + 7_776_000 ==> #[trigger] after.opens(r.link@, later)
            is None,
{
    let expires = expires_at(now as int);
    match before.owner_of(key) {
        Some(id) => {
            lemma_link_expires(before, after, id@, fresh_link, expires, now);
        },
        None => {
            let mid = choose|mid: Store| #[trigger]
                before.ensures_account(mid, fresh_id, None) && mid.issues(
                    after,
                    fresh_id,
                    fresh_link,
                    expires,
                    now,
                );
            if !any_where(before.accounts@, crate::store::account_is(fresh_id)) {
                let n = mid.accounts@.len() - 1;
                assert(crate::store::account_is(fresh_id)(mid.accounts@[n]));
            }
            assert(any_where(mid.accounts@, crate::store::account_is(fresh_id)));
            lemma_link_expires(mid, after, fresh_id, fresh_link, expires, now);
        },
    }
}

/// A link opens nothing once it has expired.
proof fn lemma_link_expires(
    before: Store,
    after: Store,
    account: Seq<char>,
    token: Seq<char>,
    expires: Option<i64>,
    now: i64,
)
    requires
        before.issues(after, account, token, expires, now),
        expires is Some,
    ensures
        forall|later: int| later >= expires->0 ==> #[trigger] after.opens(token, later) is None,
{
    let hash = crate::digest::token_hash_of(token);
    let p = crate::store::capability_is(hash);
    let kept = delete_where(before.capabilities@, p);
    let new = after.capabilities@.last();
    crate::table::lemma_delete_leaves_none(before.capabilities@, p);
    lemma_first_where(kept, p);
    lemma_first_pushed(kept, p, new);
    assert(after.capabilities@ =~= kept.push(new));
}

/// A link that the caller presents, and that opens an account, keeps the caller
/// at that account, whoever had the mailbox before; the link is handed back and
/// no other is made.
pub proof fn presented_link_decides(
    before: Store,
    after: Store,
    token: Seq<char>,
    key: Seq<char>,
    fresh_id: Seq<char>,
    fresh_link: Seq<char>,
    now: i64,
    r: SignedIn,
)
    requires
        chooses_account(before, after, Some(token), key, fresh_id, fresh_link, now, r),
        before.opens(token, now as int) is Some,
    ensures
        r.account_id@ == before.opens(token, now as int)->0@,
        r.action == AuthAction::Joined,
        r.link@ == token,
        after == before,
{
}

/// A sign-in with a password records the mailbox as the account's, with its
/// server and its login, and keeps the password for it; whoever presents no link
/// that opens an account comes to the account of the mailbox, or to a new one.
pub proof fn password_sign_in_keeps_what_was_proven(
    before: Store,
    after: Store,
    token: Option<Seq<char>>,
    login: Seq<char>,
    host: Seq<char>,
    port: u16,
    enc_password: Seq<char>,
    fresh_id: Seq<char>,
    fresh_link: Seq<char>,
    now: i64,
    r: SignedIn,
)
    requires
        authorizes(
            before,
            after,
            token,
            login,
            host,
            port,
            enc_password,
            fresh_id,
            fresh_link,
            now,
            r,
        ),
    ensures
        exists|i: int|
            0 <= i < after.mailboxes@.len() && {
                let m = #[trigger] after.mailboxes@[i];
                &&& m.account_id@ == r.account_id@
                &&& m.member.mailbox_key@ == mailbox_key_of(login, host)
                &&& m.member.protocol@ == "imap"@
                &&& m.member.login@ == login
                &&& m.member.imap_host@ == host
                &&& m.member.imap_port == port
                &&& m.member.base_url is None
            },
        after.password(r.account_id@, mailbox_key_of(login, host)) matches Some(p) && p@
            == enc_password,
        (token matches Some(t) ==> before.opens(t, now as int) is None) ==> r.link@ == fresh_link
            && (match before.owner_of(mailbox_key_of(login, host)) {
            Some(id) => r.account_id@ == id@ && r.action == AuthAction::Recovered,
            None => r.account_id@ == fresh_id && r.action == AuthAction::Created,
        }),
        (token matches Some(t) && before.opens(t, now as int) is Some) ==> r.action
            == AuthAction::Joined && r.link@ == token->0 && r.account_id@ == before.opens(
            token->0,
            now as int,
        )->0@,
        after.watches == before.watches,
{
    let key = mailbox_key_of(login, host);
    let (a, b, c) = choose|a: Store, b: Store, c: Store| #[trigger]
        chooses_account(before, a, token, key, fresh_id, fresh_link, now, r) && #[trigger] a.joins(
            b,
            r.account_id@,
            proven(login, host, port),
            now,
        ) && #[trigger] b.keeps_password(c, r.account_id@, key, enc_password, now) && grants_free(
            c,
            after,
            r.account_id@,
        );
    proven_connection_is_kept(a, b, r.account_id@, proven(login, host, port), now);
    stored_password_is_read(b, c, r.account_id@, key, enc_password, now, r.account_id@, key);
    assert(after.mailboxes == b.mailboxes && after.passwords == c.passwords);
    assert(after.password(r.account_id@, key) == c.password(r.account_id@, key));
    let i = choose|i: int|
        0 <= i < b.mailboxes@.len() && {
            let m = #[trigger] b.mailboxes@[i];
            &&& m.account_id@ == r.account_id@
            &&& m.member.mailbox_key@ == key
            &&& m.member.protocol@ == "imap"@
            &&& m.member.login@ == login
            &&& m.member.imap_host@ == host
            &&& m.member.imap_port == port
            &&& opt_text(m.member.base_url) == None::<Seq<char>>
        };
    assert(after.mailboxes@[i].member.login@ == login);
    assert(a.watches == before.watches);
}

/// An account has its free credit, one, the first time that it is granted, and
/// nobody else gets one with it.
pub proof fn first_sign_in_grants_one_credit(
    before: Store,
    after: Store,
    account: Seq<char>,
    i: int,
)
    requires
        grants_free(before, after, account),
        0 <= i < before.accounts@.len(),
    ensures
        ({
            let (a, b) = (before.accounts@[i], after.accounts@[i]);
            if a.id@ == account && !a.free_credited {
                &&& a.credits < i64::MAX ==> b.credits == a.credits + 1
                &&& b.free_credited
                &&& b.id == a.id
                &&& b.email == a.email
            } else {
                b == a
            }
        }),
        after.accounts@.len() == before.accounts@.len(),
        after.mailboxes == before.mailboxes,
        after.capabilities == before.capabilities,
        after.passwords == before.passwords,
{
}

/// An address is taken in small letters and without white space around it, and
/// has an at sign and three bytes at least.
pub proof fn addresses_are_plain(input: Seq<char>)
    ensures
        address_of(input) is Some <==> lower_of(trim_of(input)).contains('@') && utf8(
            lower_of(trim_of(input)),
        ).len() >= 3,
        address_of(input) matches Some(email) ==> email == lower_of(trim_of(input)),
{
}

/// A sign-in link leads to the dashboard where there is one, else to this server,
/// and ends with its token.
pub proof fn links_lead_where_they_are_opened(
    dashboard: Seq<char>,
    public_url: Seq<char>,
    token: Seq<char>,
)
    requires
        public_url.len() > 0,
        public_url.last() != '/',
    ensures
        dashboard.len() > 0 && dashboard.last() != '/' && dashboard != seq!['*'] ==> link_of(
            dashboard,
            public_url,
            token,
        ) == dashboard + "/verify?token="@ + token,
        link_of(seq!['*'], public_url, token) == public_url + "/auth/magic/verify?token="@ + token,
        link_of(Seq::empty(), public_url, token) == public_url + "/auth/magic/verify?token="@
            + token,
        dashboard.len() > 0 && dashboard.last() == '/' ==> link_of(dashboard, public_url, token)
            == link_of(dashboard.drop_last(), public_url, token),
        link_of(dashboard, public_url + seq!['/'], token) == link_of(dashboard, public_url, token),
{
    reveal_strlit("*");
    assert("*"@ =~= seq!['*']);
    let p = public_url + seq!['/'];
    assert(p.drop_last() =~= public_url);
    assert(trim_end_char_of(p, '/') == trim_end_char_of(public_url, '/'));
    let star = seq!['*'];
    assert(star.last() == '*');
    assert(trim_end_char_of(star, '/') == star);
}

/// An authorization that was begun is kept under its state, with everything that
/// the callback needs: each thing in its own place, and the account of a presented
/// link if there is one.
pub proof fn begun_authorization_is_kept_whole(
    before: Store,
    after: Store,
    header: Option<Seq<char>>,
    planned: Planned,
    enc_client_secret: Option<String>,
    redirect_uri: String,
    target: MailTarget,
    now: i64,
    r: Result<String, ApiError>,
)
    requires
        begins_oauth(
            before,
            after,
            header,
            planned,
            enc_client_secret,
            redirect_uri,
            target,
            now,
            r,
        ),
    ensures
        r is Err ==> after == before && (r->Err_0 matches ApiError::Internal(m) && m@
            == "cannot store the OAuth session"@),
        r matches Ok(url) ==> {
            let kept = after.oauth_sessions@.last();
            let s = kept.session;
            &&& url@ == planned.auth.url@
            &&& after.oauth_sessions@.len() == before.oauth_sessions@.len() + 1
            &&& kept.created_at == now
            &&& s.state@ == planned.auth.state@
            &&& s.verifier@ == planned.auth.verifier@
            &&& s.redirect_uri@ == redirect_uri@
            &&& s.token_endpoint@ == planned.token_endpoint@
            &&& s.client_id@ == planned.client_id@
            &&& s.enc_client_secret == enc_client_secret
            &&& s.resource == planned.resource
            &&& s.scope == planned.scope
            &&& s.login@ == target.login@
            &&& s.imap_host@ == target.imap_host@
            &&& s.imap_port == target.imap_port
            &&& s.mailbox@ == target.mailbox@
            &&& header is None ==> s.account_id is None
            &&& forall|token: Seq<char>|
                header == Some(#[trigger] ("Bearer "@ + token)) ==> s.account_id == before.opens(
                    trim_of(token),
                    now as int,
                )
        },
        r is Ok <==> !any_where(
            before.oauth_sessions@,
            crate::store::session_is(planned.auth.state@),
        ),
{
    let account = link_account(before, header, now as int);
    let (s, kept) = choose|s: OauthSession, kept: Result<(), crate::store::StoreError>|
        pends(s, planned, enc_client_secret, redirect_uri, account, target) && #[trigger]
            before.opens_session(after, s, now, kept) && match kept {
            Ok(_) => r == Ok::<String, ApiError>(planned.auth.url),
            Err(_) => r matches Err(ApiError::Internal(m)) && m@
                == "cannot store the OAuth session"@,
        };
    if r is Ok {
        assert(after.oauth_sessions@.last().session == s);
    }
    assert forall|token: Seq<char>| header == Some(#[trigger] ("Bearer "@ + token)) implies account
        == before.opens(trim_of(token), now as int) by {
        links_lead_to_their_account(before, token, now as int);
    }
}

/// What came to nothing is told in its own words.
pub proof fn callback_errors_have_their_words(s: String)
    ensures
        CallbackError::Provider(s).text() == s@,
        CallbackError::MissingCode.text() == "missing authorization code"@,
        CallbackError::MissingState.text() == "missing state"@,
        CallbackError::UnknownState.text() == "unknown or expired sign-in; start again"@,
        CallbackError::ClientSecret.text() == "cannot read client secret"@,
        CallbackError::TokenEndpoint.text() == "bad token endpoint"@,
        CallbackError::Exchange(s).text() == "token exchange failed: "@ + s@,
        CallbackError::NoRefreshToken.text()
            == "provider returned no refresh token (missing offline access)"@,
        CallbackError::NotAuthenticated(s).text() == "OAuth token did not authenticate to IMAP: "@
            + s@,
        CallbackError::Server.text() == "server error"@,
{
}

/// A code is redeemed at the token endpoint of its authorization, by the client
/// that began it and with the verifier that it was begun with.
pub proof fn code_is_redeemed_as_it_was_asked_for(
    r: Result<ExchangePlan, CallbackError>,
    session: OauthSession,
    client_secret: Option<String>,
    code: Seq<char>,
)
    requires
        plans_exchange(r, session, client_secret, code),
    ensures
        r matches Ok(p) ==> {
            &&& url_of(session.token_endpoint@) matches Ok(url) && p.token_endpoint@ == url.text
            &&& p.exchange.code@ == code
            &&& p.exchange.redirect_uri@ == session.redirect_uri@
            &&& p.exchange.client_id@ == session.client_id@
            &&& opt_text(p.exchange.client_secret) == opt_text(client_secret)
            &&& p.exchange.verifier@ == session.verifier@
        },
        url_of(session.token_endpoint@) is Err ==> r == Err::<ExchangePlan, CallbackError>(
            CallbackError::TokenEndpoint,
        ),
        url_of(session.token_endpoint@) is Ok && bad_byte(utf8(session.verifier@)) is None ==> r
            is Ok,
        url_of(session.token_endpoint@) is Ok && bad_byte(utf8(session.verifier@)) is Some ==> (r
            matches Err(CallbackError::Exchange(_))),
{
}

/// An authorization that is finished leaves a refresh token for the mailbox, with
/// the client, the endpoint and the scope that it was granted to, and records the
/// mailbox as the account's: that of the link it was begun with, or that of the
/// mailbox, or a new one.
pub proof fn authorization_leaves_what_refreshes_it(
    before: Store,
    after: Store,
    session: OauthSession,
    enc_refresh_token: String,
    fresh_id: Seq<char>,
    fresh_link: Seq<char>,
    now: i64,
    r: SignedIn,
)
    requires
        finishes_oauth(
            before,
            after,
            session,
            enc_refresh_token,
            fresh_id,
            fresh_link,
            now,
            r,
        ),
    ensures
        after.oauth_credential(
            r.account_id@,
            mailbox_key_of(session.login@, session.imap_host@),
        ) matches Some(c) && {
            &&& c.enc_refresh_token@ == enc_refresh_token@
            &&& c.token_endpoint@ == session.token_endpoint@
            &&& c.client_id@ == session.client_id@
            &&& opt_text(c.enc_client_secret) == opt_text(session.enc_client_secret)
            &&& opt_text(c.resource) == opt_text(session.resource)
            &&& opt_text(c.scope) == opt_text(session.scope)
        },
        any_where(
            after.mailboxes@,
            member_is(
                r.account_id@,
                mailbox_key_of(session.login@, session.imap_host@),
                "imap"@,
            ),
        ),
        r.link@ == fresh_link,
        session.account_id matches Some(id) ==> r.account_id@ == id@ && r.action
            == AuthAction::Joined,
        session.account_id is None ==> (match before.owner_of(
            mailbox_key_of(session.login@, session.imap_host@),
        ) {
            Some(id) => r.account_id@ == id@ && r.action == AuthAction::Recovered,
            None => r.account_id@ == fresh_id && r.action == AuthAction::Created,
        }),
{
    let key = mailbox_key_of(session.login@, session.imap_host@);
    let member = proven(session.login@, session.imap_host@, session.imap_port);
    let (a, b, c, cred) = choose|a: Store, b: Store, c: Store, cred: OauthCredential| #[trigger]
        chooses_oauth_account(before, a, session, fresh_id, fresh_link, now, r) && #[trigger]
            a.joins(
                b,
                r.account_id@,
                proven(session.login@, session.imap_host@, session.imap_port),
                now,
            ) && grants_free(b, c, r.account_id@) && leaves_credential(
            cred,
            session,
            r.account_id@,
            enc_refresh_token,
        ) && #[trigger] c.grants(after, cred, now);
    lemma_joined(a, b, r.account_id@, member, now);
    stored_credential_is_read(c, after, cred, now, r.account_id@, key);
    assert(after.mailboxes == b.mailboxes);
}

} // verus!
