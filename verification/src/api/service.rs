//! Services: how one is tried, created, changed and activated.

use crate::api::caller::Caller;
use crate::api::reply::ApiError;
use crate::api::view::key_of;
use crate::delivery::{notify_url_allowed, validate_notify_url};
use crate::guard::{check_url_host, literal_blocked, literal_host, GuardError, HostCheck};
use crate::idset::IdSet;
use crate::imap::session::Probe;
use crate::metering::{
    entitled, mailbox_key, mailbox_key_of, provider_domain, provider_domain_of, FREE_CREDITS_ON_SIGNUP,
};
use crate::random::{is_secret, random_secret};
use crate::rows::Watch;
use crate::store::{
    account_holding, account_uncredited, identities, member_is, watch_is, watch_key, watch_of,
    with_active, with_auto_renew, with_credits_added, with_free_credit, with_until, Store,
};
use crate::table::{any_where, delete_where, first_where, lemma_first_where, opt_str, update_where};
use crate::text::{join2, same, trim, trim_of};
use crate::util::{add_clamped, clamp, now_secs};
use crate::weburl::{read_url, url_of};
use vstd::prelude::*;

verus! {

/// How long the previous secret is still signed with after a rotation, in
/// seconds, where the caller does not say.
pub const DEFAULT_ROTATE_OVERLAP: u64 = 86_400;

// --- trying one out ---

/// What a trial of an account found: it can be watched if the server was
/// reached, it signed in, and the server can push.
#[derive(Debug)]
pub struct TestVerdict {
    pub ok: bool,
    pub reachable: bool,
    pub authenticated: bool,
    pub idle: bool,
    pub qresync: bool,
    pub condstore: bool,
    pub missing: Vec<&'static str>,
    /// Whether a service watches this already. A hint; creating one decides.
    pub already_watched: bool,
    pub error: Option<String>,
}

/// What a trial found. What is missing is only known once it signed in.
pub fn test_verdict(probe: Probe, already_watched: bool) -> (r: TestVerdict)
    ensures
        r.ok == (probe.reachable && probe.authenticated && probe.idle),
        r.reachable == probe.reachable,
        r.authenticated == probe.authenticated,
        r.idle == probe.idle,
        r.qresync == probe.qresync,
        r.condstore == probe.condstore,
        if probe.authenticated && !probe.idle {
            r.missing@.len() == 1 && r.missing@[0]@ == "IDLE"@
        } else {
            r.missing@.len() == 0
        },
        r.already_watched == already_watched,
        r.error == probe.error,
{
    TestVerdict {
        ok: probe.watchable(),
        reachable: probe.reachable,
        authenticated: probe.authenticated,
        idle: probe.idle,
        qresync: probe.qresync,
        condstore: probe.condstore,
        missing: if probe.authenticated {
            probe.missing()
        } else {
            Vec::new()
        },
        already_watched,
        error: probe.error,
    }
}

/// What is looked up for an input, which has to be there.
pub fn discovery_input(input: &str) -> (r: Result<String, ApiError>)
    ensures
        match r {
            Ok(text) => trim_of(input@).len() > 0 && text@ == trim_of(input@),
            Err(e) => trim_of(input@).len() == 0 && (e matches ApiError::BadRequest(m) && m@
                == "input is required"@),
        },
{
    let text = trim(input);
    if text.as_str().unicode_len() == 0 {
        return Err(ApiError::BadRequest("input is required".to_owned()));
    }
    Ok(text)
}

/// What a listing of mailboxes signs in with.
#[derive(Debug)]
pub enum ListingCredential {
    /// The password of the request.
    Given(String),
    /// This stored password, once decrypted.
    Stored(String),
    /// An access token, for this account.
    Oauth(String),
}

/// Whether this is what a listing of mailboxes signs in with, at a time.
pub open spec fn lists_with(
    r: Result<ListingCredential, ApiError>,
    store: Store,
    header: Option<Seq<char>>,
    login: Seq<char>,
    host: Seq<char>,
    password: Seq<char>,
    now: int,
) -> bool {
    if password.len() > 0 {
        r matches Ok(ListingCredential::Given(p)) && p@ == password
    } else {
        match crate::api::caller::link_account(store, header, now) {
            None => r == Err::<ListingCredential, ApiError>(ApiError::Unauthorized),
            Some(account) => match store.password(account@, mailbox_key_of(login, host)) {
                Some(enc) => r == Ok::<ListingCredential, ApiError>(ListingCredential::Stored(enc)),
                None => r == Ok::<ListingCredential, ApiError>(ListingCredential::Oauth(account)),
            },
        }
    }
}

/// What a listing of mailboxes signs in with, at a time: the password of the
/// request or, without one, what is stored for the identity of the caller.
pub fn listing_credential_at(
    store: &Store,
    header: Option<&str>,
    login: &str,
    host: &str,
    password: &str,
    now: i64,
) -> (r: Result<ListingCredential, ApiError>)
    ensures
        lists_with(r, *store, opt_str(header), login@, host@, password@, now as int),
{
    if password.unicode_len() > 0 {
        return Ok(ListingCredential::Given(password.to_owned()));
    }
    let account = match crate::api::caller::capability_account_at(store, header, now) {
        Ok(account) => account,
        Err(e) => return Err(e),
    };
    let key = mailbox_key(login, host);
    match store.get_password_credential(account.as_str(), key.as_str()) {
        Some(enc) => Ok(ListingCredential::Stored(enc)),
        None => Ok(ListingCredential::Oauth(account)),
    }
}

/// What a listing of mailboxes signs in with, now.
pub fn listing_credential(
    store: &Store,
    header: Option<&str>,
    login: &str,
    host: &str,
    password: &str,
) -> (r: Result<ListingCredential, ApiError>)
    ensures
        exists|now: i64| #[trigger]
            lists_with(r, *store, opt_str(header), login@, host@, password@, now as int),
{
    let now: i64 = now_secs();
    let r = listing_credential_at(store, header, login, host, password, now);
    assert(lists_with(r, *store, opt_str(header), login@, host@, password@, now as int));
    r
}

// --- where events may be posted ---

/// What is wrong with an endpoint.
pub open spec fn endpoint_fault(url: Seq<char>) -> Option<Seq<char>> {
    match url_of(url) {
        Err(why) => Some("not a valid URL: "@ + why),
        Ok(u) => if notify_url_allowed(u) {
            None
        } else if u.scheme == "http"@ {
            Some("notify URL must be https:// (plain http is only allowed to loopback)"@)
        } else {
            Some("notify URL scheme must be https, got "@ + u.scheme + "://"@)
        },
    }
}

/// Whether this is what is left to check of an endpoint.
pub open spec fn checks_endpoint(r: Result<HostCheck, ApiError>, url: Seq<char>, allow: bool) -> bool {
    match endpoint_fault(url) {
        Some(why) => r matches Err(ApiError::BadRequest(m)) && m@ == why,
        None => {
            let u = url_of(url)->Ok_0;
            match u.host_text {
                None => r matches Err(ApiError::BadRequest(m)) && m@ == GuardError::NoHost.text(),
                Some(host) => if literal_host(u.host) {
                    if !allow && literal_blocked(u.host) {
                        r matches Err(ApiError::BadRequest(m)) && m@
                            == GuardError::PrivateTarget.text()
                    } else {
                        r == Ok::<HostCheck, ApiError>(HostCheck::Allowed)
                    }
                } else {
                    r matches Ok(HostCheck::Resolve { host: h, port }) && h@ == host && port == (
                    match u.port {
                        Some(p) => p,
                        None => 443,
                    })
                },
            }
        },
    }
}

/// Checks where events are to be posted: the endpoint has to be a good one, and
/// an address that may not be reached is refused. A name is left to be resolved
/// and checked.
pub fn check_endpoint(notify_url: &str, allow: bool) -> (r: Result<HostCheck, ApiError>)
    ensures
        checks_endpoint(r, notify_url@, allow),
{
    match validate_notify_url(notify_url) {
        Ok(_) => {},
        Err(e) => return Err(ApiError::BadRequest(e.message())),
    }
    let url = match read_url(notify_url) {
        Ok(url) => url,
        Err(why) => return Err(
            ApiError::BadRequest(join2("invalid notify URL: ", why.as_str())),
        ),
    };
    match check_url_host(&url, allow) {
        Ok(check) => Ok(check),
        Err(e) => Err(ApiError::BadRequest(e.message())),
    }
}

// --- creating one ---

/// A service that a caller asks for.
#[derive(Debug)]
pub struct CreateWatch {
    pub id: String,
    pub imap_host: String,
    pub imap_port: u16,
    pub login: String,
    /// Empty where the PIM account's credential is to be used.
    pub password: String,
    pub mailbox: String,
    pub notify_url: String,
    pub hmac_secret: String,
    /// The account to pay from, where the administrator asks.
    pub account_id: Option<String>,
    pub active: bool,
}

impl CreateWatch {
    /// The PIM account it is for.
    pub open spec fn key(self) -> Seq<char> {
        mailbox_key_of(self.login@, self.imap_host@)
    }
}

/// Whether a service is the same as one that is asked for: the same mailbox of
/// the same identity, under another id.
pub open spec fn is_same_service(
    key: Seq<char>,
    mailbox: Seq<char>,
    except: Option<Seq<char>>,
) -> spec_fn(Watch) -> bool {
    |w: Watch|
        Some(w.id@) != except && w.source_kind@ == "imap"@ && key_of(w) == key && w.mailbox@
            == mailbox
}

/// Whether some service, but for one, watches a mailbox of an identity.
pub fn service_already_watched(store: &Store, key: &str, mailbox: &str, except: Option<&str>) -> (r:
    bool)
    ensures
        r == any_where(store.watches@, is_same_service(key@, mailbox@, opt_str(except))),
{
    let test = |w: &Watch| -> (b: bool)
        ensures
            b == is_same_service(key@, mailbox@, opt_str(except))(*w),
        {
            let excepted = match except {
                Some(id) => same(w.id.as_str(), id),
                None => false,
            };
            let own = mailbox_key(w.login.as_str(), w.imap_host.as_str());
            !excepted && same(w.source_kind.as_str(), "imap") && same(own.as_str(), key) && same(
                w.mailbox.as_str(),
                mailbox,
            )
        };
    crate::table::any(
        &store.watches,
        test,
        Ghost(is_same_service(key@, mailbox@, opt_str(except))),
    )
}

/// The identities that an account watches.
pub open spec fn watched_keys(ids: Seq<(String, String)>) -> vstd::set::Set<Seq<char>>
    decreases ids.len(),
{
    if ids.len() == 0 {
        vstd::set::Set::empty()
    } else {
        watched_keys(ids.drop_last()).insert(mailbox_key_of(ids.last().0@, ids.last().1@))
    }
}

/// Whether one more identity would be more than an account may watch.
pub open spec fn over_cap(store: Store, account: Seq<char>, key: Seq<char>, cap: usize) -> bool {
    let keys = watched_keys(identities(store.watches@.filter(watch_of(account))));
    !keys.contains(key) && keys.len() >= cap
}

fn is_over_cap(store: &Store, account: &str, key: &str, cap: usize) -> (r: bool)
    ensures
        r == over_cap(*store, account@, key@, cap),
{
    let ids = store.account_watch_identities(account);
    let mut keys = IdSet::new();
    let mut i: usize = 0;
    while i < ids.len()
        invariant
            i <= ids@.len(),
            keys@ == watched_keys(ids@.take(i as int)),
        decreases ids@.len() - i,
    {
        assert(ids@.take(i + 1).drop_last() =~= ids@.take(i as int));
        let own = mailbox_key(ids[i].0.as_str(), ids[i].1.as_str());
        keys.insert(own.as_str());
        i += 1;
    }
    assert(ids@.take(i as int) =~= ids@);
    !keys.contains(key) && keys.len() >= cap
}

/// What a service signs in with.
#[derive(Clone, Copy, Debug, PartialEq, Eq, Structural)]
pub enum ServiceCredential {
    /// The password of the request, once encrypted.
    Given,
    /// The password that is stored for its PIM account.
    StoredPassword,
    /// The OAuth credential that is stored for its PIM account.
    StoredOauth,
}

impl ServiceCredential {
    pub open spec fn kind_text(self) -> Seq<char> {
        match self {
            ServiceCredential::Given => "password"@,
            ServiceCredential::StoredPassword => "password"@,
            ServiceCredential::StoredOauth => "oauth"@,
        }
    }

    /// How the service says that it signs in.
    pub fn kind(self) -> (r: &'static str)
        ensures
            r@ == self.kind_text(),
    {
        match self {
            ServiceCredential::Given => "password",
            ServiceCredential::StoredPassword => "password",
            ServiceCredential::StoredOauth => "oauth",
        }
    }
}

/// What is to be created: for which account, and what it signs in with.
#[derive(Debug)]
pub struct WatchPlan {
    pub account_id: String,
    pub credential: ServiceCredential,
}

/// The account that a service is created for.
pub open spec fn owner_for(caller: Caller, request: CreateWatch) -> Seq<char> {
    match caller.account() {
        Some(id) => id,
        None => match request.account_id {
            Some(id) => id@,
            None => request.id@,
        },
    }
}

/// What a service of an account signs in with, if with anything.
pub open spec fn credential_of(store: Store, owner: Seq<char>, request: CreateWatch) -> Option<
    ServiceCredential,
> {
    if request.password@.len() > 0 {
        Some(ServiceCredential::Given)
    } else if store.password(owner, request.key()) is Some {
        Some(ServiceCredential::StoredPassword)
    } else if store.oauth_credential(owner, request.key()) is Some {
        Some(ServiceCredential::StoredOauth)
    } else {
        None
    }
}

/// Whether a service is one that a caller may not touch.
pub open spec fn is_foreign(store: Store, caller: Caller, id: Seq<char>) -> bool {
    first_where(store.watches@, watch_is(id)) matches Some(w) && !caller.may(w.account_id@)
}

/// Whether this is what comes of a request for a service.
pub open spec fn plans_watch(
    r: Result<WatchPlan, ApiError>,
    store: Store,
    caller: Caller,
    request: CreateWatch,
    cap: usize,
) -> bool {
    let key = request.key();
    let owner = owner_for(caller, request);
    if any_where(store.watches@, is_same_service(key, request.mailbox@, Some(request.id@))) {
        r == Err::<WatchPlan, ApiError>(ApiError::Exists)
    } else if caller is Account && !any_where(store.mailboxes@, member_is(owner, key, "imap"@)) {
        r == Err::<WatchPlan, ApiError>(ApiError::NotProven)
    } else if caller is Account && over_cap(store, owner, key, cap) {
        r == Err::<WatchPlan, ApiError>(ApiError::FairUse(cap))
    } else {
        match credential_of(store, owner, request) {
            Some(credential) => if is_foreign(store, caller, request.id@) {
                is_missing(r, request.id@)
            } else {
                r matches Ok(p) && p.account_id@ == owner && p.credential == credential
            },
            None => r matches Err(ApiError::BadRequest(m)) && m@
                == "no credential for this PIM account — add the account (POST /auth or OAuth) first"@,
        }
    }
}

/// What comes of a request for a service. The same service under another id is
/// refused. An account may only watch what it has proven to be its own, and so
/// many identities, and only then learns that an id is taken by another: it may
/// only redefine a service of its own. The administrator may watch anything for
/// anyone.
pub fn plan_watch(store: &Store, caller: &Caller, request: &CreateWatch, cap: usize) -> (r: Result<
    WatchPlan,
    ApiError,
>)
    ensures
        plans_watch(r, *store, *caller, *request, cap),
{
    let key = mailbox_key(request.login.as_str(), request.imap_host.as_str());
    if service_already_watched(
        store,
        key.as_str(),
        request.mailbox.as_str(),
        Some(request.id.as_str()),
    ) {
        return Err(ApiError::Exists);
    }
    let account_id = match caller.scope() {
        Some(id) => {
            if !store.mailbox_belongs(id.as_str(), key.as_str(), "imap") {
                return Err(ApiError::NotProven);
            }
            if is_over_cap(store, id.as_str(), key.as_str(), cap) {
                return Err(ApiError::FairUse(cap));
            }
            id
        },
        None => match &request.account_id {
            Some(id) => id.clone(),
            None => request.id.clone(),
        },
    };
    let credential = if request.password.as_str().unicode_len() > 0 {
        ServiceCredential::Given
    } else if store.get_password_credential(account_id.as_str(), key.as_str()).is_some() {
        ServiceCredential::StoredPassword
    } else if store.get_oauth_credential(account_id.as_str(), key.as_str()).is_some() {
        ServiceCredential::StoredOauth
    } else {
        return Err(
            ApiError::BadRequest(
                "no credential for this PIM account — add the account (POST /auth or OAuth) first".to_owned(),
            ),
        );
    };
    if let Some(owner) = store.watch_account(request.id.as_str()) {
        if !caller.owns(owner.as_str()) {
            return Err(ApiError::NotFound(request.id.clone()));
        }
    }
    Ok(WatchPlan { account_id, credential })
}

/// Whether this is the service that was asked for: of an account, signing in
/// somehow, and not activated.
pub open spec fn describes(
    w: Watch,
    request: CreateWatch,
    account: Seq<char>,
    auth_kind: Seq<char>,
    enc_password: Seq<char>,
) -> bool {
    &&& w.id == request.id
    &&& w.imap_host == request.imap_host
    &&& w.imap_port == request.imap_port
    &&& w.login == request.login
    &&& w.enc_password@ == enc_password
    &&& w.mailbox == request.mailbox
    &&& w.notify_url == request.notify_url
    &&& w.hmac_secret == request.hmac_secret
    &&& w.hmac_secret_prev is None
    &&& w.hmac_secret_prev_expires is None
    &&& w.account_id@ == account
    &&& w.provider@ == provider_domain_of(request.imap_host@)
    &&& w.auth_kind@ == auth_kind
    &&& w.watching_until is None
    &&& !w.auto_renew
    &&& w.active == request.active
    &&& w.source_kind@ == "imap"@
    &&& w.carddav_url is None
    &&& w.carddav_sync_token is None
    &&& w.carddav_poll_secs is None
}

/// The service that was asked for.
pub fn service_of(request: &CreateWatch, account_id: &str, auth_kind: &str, enc_password: &str) -> (r:
    Watch)
    ensures
        describes(r, *request, account_id@, auth_kind@, enc_password@),
{
    Watch {
        id: request.id.clone(),
        imap_host: request.imap_host.clone(),
        imap_port: request.imap_port,
        login: request.login.clone(),
        enc_password: enc_password.to_owned(),
        mailbox: request.mailbox.clone(),
        notify_url: request.notify_url.clone(),
        hmac_secret: request.hmac_secret.clone(),
        hmac_secret_prev: None,
        hmac_secret_prev_expires: None,
        account_id: account_id.to_owned(),
        provider: provider_domain(request.imap_host.as_str()),
        auth_kind: auth_kind.to_owned(),
        watching_until: None,
        auto_renew: false,
        active: request.active,
        source_kind: "imap".to_owned(),
        carddav_url: None,
        carddav_sync_token: None,
        carddav_poll_secs: None,
    }
}

/// What storing a service does: it is declared or redefined, its account is
/// there, and the account has had its free credit.
pub open spec fn stores_service(before: Store, after: Store, w: Watch) -> bool {
    &&& after.watches@ == before.watches_with(w)
    &&& exists|mid: Store| #[trigger]
        before.ensures_account(mid, w.account_id@, None) && after.accounts@ == update_where(
            mid.accounts@,
            account_uncredited(w.account_id@),
            with_free_credit(FREE_CREDITS_ON_SIGNUP as int),
        )
    &&& after == (Store { watches: after.watches, accounts: after.accounts, ..before })
    &&& before.wf() ==> after.wf()
}

/// Stores a service.
pub fn store_service(store: &mut Store, w: &Watch)
    ensures
        stores_service(*old(store), *final(store), *w),
{
    let ghost before = *store;
    store.upsert_watch(w);
    let ghost s1 = *store;
    store.ensure_account(w.account_id.as_str(), None);
    let ghost s2 = *store;
    store.grant_free_credit(w.account_id.as_str(), FREE_CREDITS_ON_SIGNUP);
    proof {
        let mid = Store { accounts: s2.accounts, ..before };
        assert(before.ensures_account(mid, w.account_id@, None));
    }
}

/// Whether this is what creating a service does.
pub open spec fn creates(
    before: Store,
    after: Store,
    caller: Caller,
    request: CreateWatch,
    enc_password: Seq<char>,
    cap: usize,
    r: Result<Watch, ApiError>,
) -> bool {
    match r {
        Ok(w) => exists|p: WatchPlan| #[trigger]
            plans_watch(Ok::<WatchPlan, ApiError>(p), before, caller, request, cap) && describes(
                w,
                request,
                p.account_id@,
                p.credential.kind_text(),
                if p.credential == ServiceCredential::Given {
                    enc_password
                } else {
                    Seq::empty()
                },
            ) && stores_service(before, after, w),
        Err(e) => after == before && plans_watch(
            Err::<WatchPlan, ApiError>(e),
            before,
            caller,
            request,
            cap,
        ),
    }
}

/// Creates a service. `enc_password` is the password of the request, encrypted;
/// it is kept only where the request carries one.
pub fn create_watch(
    store: &mut Store,
    caller: &Caller,
    request: &CreateWatch,
    enc_password: &str,
    cap: usize,
) -> (r: Result<Watch, ApiError>)
    ensures
        creates(*old(store), *final(store), *caller, *request, enc_password@, cap, r),
{
    proof {
        reveal_strlit("");
    }
    let plan = match plan_watch(store, caller, request, cap) {
        Ok(plan) => plan,
        Err(e) => return Err(e),
    };
    let kept = if plan.credential == ServiceCredential::Given {
        enc_password
    } else {
        ""
    };
    assert(""@ =~= Seq::<char>::empty());
    let w = service_of(request, plan.account_id.as_str(), plan.credential.kind(), kept);
    store_service(store, &w);
    assert(plans_watch(Ok::<WatchPlan, ApiError>(plan), *old(store), *caller, *request, cap));
    Ok(w)
}

// --- touching one ---

/// Whether a caller may touch a service.
pub open spec fn may_touch(store: Store, caller: Caller, id: Seq<char>) -> bool {
    first_where(store.watches@, watch_is(id)) matches Some(w) && caller.may(w.account_id@)
}

/// Whether an answer says that there is no such service.
pub open spec fn is_missing<T>(r: Result<T, ApiError>, id: Seq<char>) -> bool {
    r matches Err(ApiError::NotFound(i)) && i@ == id
}

/// Lets a caller through to its own service. One of someone else is as unknown
/// as one that is not there.
pub fn authorize_watch(store: &Store, caller: &Caller, id: &str) -> (r: Result<(), ApiError>)
    ensures
        may_touch(*store, *caller, id@) ==> r is Ok,
        !may_touch(*store, *caller, id@) ==> is_missing(r, id@),
{
    match store.watch_account(id) {
        Some(account) => if caller.owns(account.as_str()) {
            Ok(())
        } else {
            Err(ApiError::NotFound(id.to_owned()))
        },
        None => Err(ApiError::NotFound(id.to_owned())),
    }
}

/// Deletes a service of the caller's.
pub fn delete_watch(store: &mut Store, caller: &Caller, id: &str) -> (r: Result<(), ApiError>)
    ensures
        old(store).wf() ==> final(store).wf(),
        if may_touch(*old(store), *caller, id@) {
            &&& r is Ok
            &&& final(store).watches@ == delete_where(old(store).watches@, watch_is(id@))
            &&& *final(store) == (Store { watches: final(store).watches, ..*old(store) })
        } else {
            is_missing(r, id@) && *final(store) == *old(store)
        },
{
    match authorize_watch(store, caller, id) {
        Ok(_) => {},
        Err(e) => return Err(e),
    }
    proof {
        lemma_first_where(store.watches@, watch_is(id@));
    }
    store.delete_watch(id);
    Ok(())
}

/// Pauses or resumes a service of the caller's.
pub fn set_active(store: &mut Store, caller: &Caller, id: &str, active: bool) -> (r: Result<
    (),
    ApiError,
>)
    ensures
        old(store).wf() ==> final(store).wf(),
        if may_touch(*old(store), *caller, id@) {
            &&& r is Ok
            &&& final(store).watches@ == update_where(
                old(store).watches@,
                watch_is(id@),
                with_active(active),
            )
            &&& *final(store) == (Store { watches: final(store).watches, ..*old(store) })
        } else {
            is_missing(r, id@) && *final(store) == *old(store)
        },
{
    match authorize_watch(store, caller, id) {
        Ok(_) => {},
        Err(e) => return Err(e),
    }
    store.set_active(id, active);
    Ok(())
}

/// Pauses a service of the caller's.
pub fn pause_watch(store: &mut Store, caller: &Caller, id: &str) -> (r: Result<(), ApiError>)
    ensures
        old(store).wf() ==> final(store).wf(),
        if may_touch(*old(store), *caller, id@) {
            &&& r is Ok
            &&& final(store).watches@ == update_where(
                old(store).watches@,
                watch_is(id@),
                with_active(false),
            )
            &&& *final(store) == (Store { watches: final(store).watches, ..*old(store) })
        } else {
            is_missing(r, id@) && *final(store) == *old(store)
        },
{
    set_active(store, caller, id, false)
}

/// Resumes a service of the caller's.
pub fn resume_watch(store: &mut Store, caller: &Caller, id: &str) -> (r: Result<(), ApiError>)
    ensures
        old(store).wf() ==> final(store).wf(),
        if may_touch(*old(store), *caller, id@) {
            &&& r is Ok
            &&& final(store).watches@ == update_where(
                old(store).watches@,
                watch_is(id@),
                with_active(true),
            )
            &&& *final(store) == (Store { watches: final(store).watches, ..*old(store) })
        } else {
            is_missing(r, id@) && *final(store) == *old(store)
        },
{
    set_active(store, caller, id, true)
}

/// Turns the renewal of a service of the caller's on or off.
pub fn set_watch_auto_renew(store: &mut Store, caller: &Caller, id: &str, enabled: bool) -> (r:
    Result<(), ApiError>)
    ensures
        old(store).wf() ==> final(store).wf(),
        if may_touch(*old(store), *caller, id@) {
            &&& r is Ok
            &&& final(store).watches@ == update_where(
                old(store).watches@,
                watch_is(id@),
                with_auto_renew(enabled),
            )
            &&& *final(store) == (Store { watches: final(store).watches, ..*old(store) })
        } else {
            is_missing(r, id@) && *final(store) == *old(store)
        },
{
    match authorize_watch(store, caller, id) {
        Ok(_) => {},
        Err(e) => return Err(e),
    }
    store.set_watch_auto_renew(id, enabled);
    Ok(())
}

/// A rotation that was made.
#[derive(Debug)]
pub struct Rotated {
    pub secret: String,
    /// When the previous secret stops being signed with.
    pub prev_expires_at: i64,
}

/// Whether this is what a rotation does, at a time, to a secret.
pub open spec fn rotates_to(
    before: Store,
    after: Store,
    caller: Caller,
    id: Seq<char>,
    secret: String,
    overlap: Option<u64>,
    now: i64,
    r: Result<Rotated, ApiError>,
) -> bool {
    let overlap_secs = match overlap {
        Some(secs) => secs,
        None => DEFAULT_ROTATE_OVERLAP,
    };
    if may_touch(before, caller, id) {
        r matches Ok(done) && done.secret == secret && before.rotates(
            after,
            id,
            secret,
            overlap_secs,
            now,
            Some(done.prev_expires_at),
        )
    } else {
        is_missing(r, id) && after == before
    }
}

/// Rotates the secret of a service of the caller's to this one, at a time. The
/// previous one is still signed with for the overlap.
pub fn rotate_secret_to(
    store: &mut Store,
    caller: &Caller,
    id: &str,
    secret: String,
    overlap_secs: Option<u64>,
    now: i64,
) -> (r: Result<Rotated, ApiError>)
    ensures
        rotates_to(*old(store), *final(store), *caller, id@, secret, overlap_secs, now, r),
{
    match authorize_watch(store, caller, id) {
        Ok(_) => {},
        Err(e) => return Err(e),
    }
    let overlap: u64 = match overlap_secs {
        Some(secs) => secs,
        None => DEFAULT_ROTATE_OVERLAP,
    };
    proof {
        lemma_first_where(store.watches@, watch_is(id@));
    }
    match store.rotate_secret_at(id, &secret, overlap, now) {
        Some(prev_expires_at) => Ok(Rotated { secret, prev_expires_at }),
        None => Err(ApiError::NotFound(id.to_owned())),
    }
}

/// Rotates the secret of a service of the caller's, now, to the one given or to
/// a random one.
pub fn rotate_secret(
    store: &mut Store,
    caller: &Caller,
    id: &str,
    new_secret: Option<String>,
    overlap_secs: Option<u64>,
) -> (r: Result<Rotated, ApiError>)
    ensures
        exists|secret: String, now: i64|
            (match new_secret {
                Some(s) => secret == s,
                None => is_secret(secret@),
            }) && #[trigger] rotates_to(
                *old(store),
                *final(store),
                *caller,
                id@,
                secret,
                overlap_secs,
                now,
                r,
            ),
{
    let secret = match new_secret {
        Some(s) => s,
        None => random_secret(),
    };
    let now: i64 = now_secs();
    rotate_secret_to(store, caller, id, secret, overlap_secs, now)
}

/// A service that was paid for.
#[derive(Clone, Copy, Debug, PartialEq, Eq, Structural)]
pub struct Activated {
    /// How long it is paid for now.
    pub until: i64,
    /// What is left in the pool.
    pub credits: i64,
}

/// How long a service is paid for after one more month: the month is added to
/// what is left, or to now.
pub open spec fn paid_until(until: Option<i64>, month: int, now: int) -> i64 {
    clamp(
        (match until {
            Some(t) => if t > now {
                t as int
            } else {
                now
            },
            None => now,
        }) + month,
    ) as i64
}

/// Whether this is what activating a service does, at a time.
pub open spec fn activates(
    before: Store,
    after: Store,
    caller: Caller,
    id: Seq<char>,
    month: int,
    now: int,
    r: Result<Activated, ApiError>,
) -> bool {
    if !may_touch(before, caller, id) {
        is_missing(r, id) && after == before
    } else {
        let w = first_where(before.watches@, watch_is(id))->0;
        let account = w.account_id@;
        if !any_where(before.accounts@, account_holding(account, 1)) {
            r == Err::<Activated, ApiError>(ApiError::NoCredits) && after.accounts@
                == before.accounts@ && after == (Store { accounts: after.accounts, ..before })
        } else {
            let until = paid_until(w.watching_until, month, now);
            &&& after.accounts@ == update_where(
                before.accounts@,
                account_holding(account, 1),
                with_credits_added(-1),
            )
            &&& after.watches@ == update_where(before.watches@, watch_is(id), with_until(until))
            &&& after == (Store { watches: after.watches, accounts: after.accounts, ..before })
            &&& r matches Ok(done) && done.until == until && done.credits == (match after.account(
                account,
            ) {
                Some(a) => a.credits,
                None => 0,
            })
        }
    }
}

/// Activates a service of the caller's, at a time: a credit of its account buys
/// a month, on top of what is still paid for.
pub fn activate_watch_at(store: &mut Store, caller: &Caller, id: &str, month: i64, now: i64) -> (r:
    Result<Activated, ApiError>)
    ensures
        activates(*old(store), *final(store), *caller, id@, month as int, now as int, r),
        old(store).wf() ==> final(store).wf(),
{
    match authorize_watch(store, caller, id) {
        Ok(_) => {},
        Err(e) => return Err(e),
    }
    let w = match store.get_watch(id) {
        Some(w) => w,
        None => return Err(ApiError::NotFound(id.to_owned())),
    };
    if !store.debit_credit(w.account_id.as_str()) {
        proof {
            crate::table::lemma_update_none(
                old(store).accounts@,
                account_holding(w.account_id@, 1),
                with_credits_added(-1),
            );
        }
        return Err(ApiError::NoCredits);
    }
    let base: i64 = match w.watching_until {
        Some(t) => if t > now {
            t
        } else {
            now
        },
        None => now,
    };
    let until: i64 = add_clamped(base, month);
    store.set_watch_watching_until(id, until);
    let credits: i64 = match store.get_account(w.account_id.as_str()) {
        Some(a) => a.credits,
        None => 0,
    };
    Ok(Activated { until, credits })
}

/// Activates a service of the caller's, now.
pub fn activate_watch(store: &mut Store, caller: &Caller, id: &str, month: i64) -> (r: Result<
    Activated,
    ApiError,
>)
    ensures
        exists|now: i64| #[trigger]
            activates(*old(store), *final(store), *caller, id@, month as int, now as int, r),
        old(store).wf() ==> final(store).wf(),
{
    let now: i64 = now_secs();
    let r = activate_watch_at(store, caller, id, month, now);
    assert(activates(*old(store), *final(store), *caller, id@, month as int, now as int, r));
    r
}

// --- what holds ---

/// A caller cannot tell a service of someone else from one that is not there,
/// and cannot change it.
pub proof fn foreign_service_looks_missing(store: Store, caller: Caller, id: Seq<char>, w: Watch)
    requires
        first_where(store.watches@, watch_is(id)) == Some(w),
        !caller.may(w.account_id@),
    ensures
        !may_touch(store, caller, id),
{
}

/// Months add up: a service that is paid for, and is activated again before
/// that ends, is paid for a month longer.
pub proof fn months_add_up(until: i64, month: int, now: int)
    requires
        until > now,
        month >= 0,
        until + month <= i64::MAX,
    ensures
        paid_until(Some(until), month, now) == until + month,
{
}

/// A service that is activated is paid for, from now on and for a month at
/// least.
pub proof fn activation_pays_for_a_month(until: Option<i64>, month: int, now: int, later: int)
    requires
        now <= later < now + month,
        now + month <= i64::MAX,
    ensures
        entitled(Some(paid_until(until, month, now)), later),
{
}

/// A service that was created is not created again under another id.
pub proof fn same_service_is_refused(
    before: Store,
    after: Store,
    caller: Caller,
    request: CreateWatch,
    enc_password: Seq<char>,
    cap: usize,
    w: Watch,
    again: CreateWatch,
    other: Caller,
    r: Result<WatchPlan, ApiError>,
)
    requires
        creates(before, after, caller, request, enc_password, cap, Ok::<Watch, ApiError>(w)),
        again.id@ != request.id@,
        again.key() == request.key(),
        again.mailbox@ == request.mailbox@,
        plans_watch(r, after, other, again, cap),
    ensures
        r == Err::<WatchPlan, ApiError>(ApiError::Exists),
{
    let p = is_same_service(again.key(), again.mailbox@, Some(again.id@));
    if any_where(before.watches@, watch_is(w.id@)) {
        let i = choose|i: int| 0 <= i < before.watches@.len() && watch_is(w.id@)(
            #[trigger] before.watches@[i],
        );
        assert(after.watches@[i] == crate::store::redefined(w)(before.watches@[i]));
        assert(p(after.watches@[i]));
    } else {
        let n = before.watches@.len() as int;
        assert(after.watches@[n] == crate::store::declared(w));
        assert(p(after.watches@[n]));
    }
}

/// Whoever is held to an account only ever creates services for it, of mailboxes
/// that it has proven to be its own, and whatever it asks for, no service of
/// another account changes.
pub proof fn accounts_watch_their_own(
    before: Store,
    after: Store,
    account: String,
    request: CreateWatch,
    enc_password: Seq<char>,
    cap: usize,
    r: Result<Watch, ApiError>,
)
    requires
        before.wf(),
        creates(before, after, Caller::Account(account), request, enc_password, cap, r),
    ensures
        r matches Ok(w) ==> w.account_id@ == account@ && any_where(
            before.mailboxes@,
            member_is(account@, key_of(w), "imap"@),
        ),
        forall|i: int|
            0 <= i < before.watches@.len() && (#[trigger] before.watches@[i]).account_id@ != account@
                ==> after.watches@[i] == before.watches@[i],
{
    if let Ok(w) = r {
        let own = watch_is(request.id@);
        lemma_first_where(before.watches@, own);
        assert forall|i: int|
            0 <= i < before.watches@.len() && (#[trigger] before.watches@[i]).account_id@
                != account@ implies after.watches@[i] == before.watches@[i] by {
            if any_where(before.watches@, own) && own(before.watches@[i]) {
                let first = first_where(before.watches@, own)->0;
                let j = choose|j: int| 0 <= j < before.watches@.len() && before.watches@[j] == first;
                assert(watch_key()(before.watches@[i]) == watch_key()(before.watches@[j]));
            }
        }
    }
}

/// A password that is given is used; without one, whoever presents a link to an
/// account uses what is stored there for the identity, a password before an
/// authorization, and whoever presents none is refused.
pub proof fn listing_signs_in_with_what_is_given(
    r: Result<ListingCredential, ApiError>,
    store: Store,
    header: Option<Seq<char>>,
    login: Seq<char>,
    host: Seq<char>,
    password: Seq<char>,
    now: int,
)
    requires
        lists_with(r, store, header, login, host, password, now),
    ensures
        password.len() > 0 ==> (r matches Ok(ListingCredential::Given(p)) && p@ == password),
        password.len() == 0 && header is None ==> r == Err::<ListingCredential, ApiError>(
            ApiError::Unauthorized,
        ),
        password.len() == 0 ==> forall|token: Seq<char>|
            header == Some(#[trigger] ("Bearer "@ + token)) ==> (match store.opens(
                trim_of(token),
                now,
            ) {
                None => r == Err::<ListingCredential, ApiError>(ApiError::Unauthorized),
                Some(account) => match store.password(account@, mailbox_key_of(login, host)) {
                    Some(enc) => r == Ok::<ListingCredential, ApiError>(
                        ListingCredential::Stored(enc),
                    ),
                    None => r == Ok::<ListingCredential, ApiError>(
                        ListingCredential::Oauth(account),
                    ),
                },
            }),
{
    assert forall|token: Seq<char>|
        header == Some(#[trigger] ("Bearer "@ + token)) implies crate::api::caller::link_account(
        store,
        header,
        now,
    ) == store.opens(trim_of(token), now) by {
        crate::api::caller::links_lead_to_their_account(store, token, now);
    }
}

/// An endpoint is refused where it is no URL, where it is neither HTTPS nor plain
/// HTTP to this machine, where it has no host, and where its address may not be
/// reached; each time it is said why. A name is left to be resolved, with the
/// port that the URL has, or that of HTTPS.
pub proof fn endpoints_are_checked(r: Result<HostCheck, ApiError>, url: Seq<char>, allow: bool)
    requires
        checks_endpoint(r, url, allow),
    ensures
        url_of(url) matches Err(why) ==> (r matches Err(ApiError::BadRequest(m)) && m@
            == "not a valid URL: "@ + why),
        url_of(url) matches Ok(u) ==> {
            let good = u.scheme == "https"@ || (u.scheme == "http"@ && notify_url_allowed(u));
            &&& (!good && u.scheme == "http"@) ==> (r matches Err(ApiError::BadRequest(m)) && m@
                == "notify URL must be https:// (plain http is only allowed to loopback)"@)
            &&& (!good && u.scheme != "http"@) ==> (r matches Err(ApiError::BadRequest(m)) && m@
                == "notify URL scheme must be https, got "@ + u.scheme + "://"@)
            &&& (good && u.host_text is None) ==> (r matches Err(ApiError::BadRequest(m)) && m@
                == "URL has no host"@)
            &&& (good && u.host_text is Some && literal_host(u.host)) ==> (if allow
                || !literal_blocked(u.host) {
                r == Ok::<HostCheck, ApiError>(HostCheck::Allowed)
            } else {
                r matches Err(ApiError::BadRequest(m)) && m@
                    == "refusing to send to a private/loopback address (set [server] allow_private_targets = true for local/self-host use)"@
            })
            &&& (good && u.host_text is Some && !literal_host(u.host)) ==> (r matches Ok(
                HostCheck::Resolve { host, port },
            ) && host@ == u.host_text->0 && (u.port is Some ==> port == u.port->0) && (u.port
                is None ==> port == 443))
        },
{
    if let Ok(u) = url_of(url) {
        crate::delivery::plain_http_stays_on_this_machine(u);
        reveal_strlit("https");
        reveal_strlit("http");
        assert("https"@.len() == 5 && "http"@.len() == 4);
    }
}

/// Services are the same where they watch the same mailbox of the same identity
/// over IMAP, under different ids, whichever accounts they are of.
pub proof fn services_are_told_apart_by_mailbox(
    w: Watch,
    key: Seq<char>,
    mailbox: Seq<char>,
    id: Seq<char>,
)
    ensures
        is_same_service(key, mailbox, Some(id))(w) <==> w.id@ != id && w.source_kind@ == "imap"@
            && mailbox_key_of(w.login@, w.imap_host@) == key && w.mailbox@ == mailbox,
        is_same_service(key, mailbox, None)(w) <==> w.source_kind@ == "imap"@ && mailbox_key_of(
            w.login@,
            w.imap_host@,
        ) == key && w.mailbox@ == mailbox,
{
}

proof fn lemma_watched_keys(ids: Seq<(String, String)>, key: Seq<char>)
    ensures
        watched_keys(ids).contains(key) <==> exists|i: int|
            0 <= i < ids.len() && mailbox_key_of((#[trigger] ids[i]).0@, ids[i].1@) == key,
    decreases ids.len(),
{
    if ids.len() > 0 {
        let before = ids.drop_last();
        lemma_watched_keys(before, key);
        if watched_keys(before).contains(key) {
            let i = choose|i: int|
                0 <= i < before.len() && mailbox_key_of((#[trigger] before[i]).0@, before[i].1@)
                    == key;
            assert(ids[i] == before[i]);
        }
        if exists|i: int|
            0 <= i < ids.len() && mailbox_key_of((#[trigger] ids[i]).0@, ids[i].1@) == key {
            let i = choose|i: int|
                0 <= i < ids.len() && mailbox_key_of((#[trigger] ids[i]).0@, ids[i].1@) == key;
            if i < before.len() {
                assert(before[i] == ids[i]);
            }
        }
        assert(mailbox_key_of(ids[ids.len() - 1].0@, ids[ids.len() - 1].1@) == mailbox_key_of(
            ids.last().0@,
            ids.last().1@,
        ));
    }
}

/// Fair use counts the identities that an account watches, each of them once: one
/// that it watches already may always be watched in one mailbox more, and another
/// only where fewer than the cap are watched.
pub proof fn fair_use_counts_identities(
    store: Store,
    account: Seq<char>,
    key: Seq<char>,
    cap: usize,
    watched: vstd::set::Set<Seq<char>>,
)
    requires
        forall|k: Seq<char>| #[trigger]
            watched.contains(k) <==> exists|i: int|
                0 <= i < store.watches@.len() && (#[trigger] store.watches@[i]).account_id@
                    == account && mailbox_key_of(
                    store.watches@[i].login@,
                    store.watches@[i].imap_host@,
                ) == k,
    ensures
        over_cap(store, account, key, cap) <==> !watched.contains(key) && watched.len() >= cap,
{
    let all = store.watches@;
    let p = watch_of(account);
    let mine = all.filter(p);
    let ids = identities(mine);
    let keys = watched_keys(ids);
    assert forall|k: Seq<char>| keys.contains(k) == watched.contains(k) by {
        lemma_watched_keys(ids, k);
        if keys.contains(k) {
            let i = choose|i: int|
                0 <= i < ids.len() && mailbox_key_of((#[trigger] ids[i]).0@, ids[i].1@) == k;
            assert(mine.contains(mine[i]));
            crate::table::lemma_filter_contains(all, p, mine[i]);
            let j = choose|j: int| 0 <= j < all.len() && all[j] == mine[i];
            assert(all[j].account_id@ == account);
        }
        if watched.contains(k) {
            let j = choose|j: int|
                0 <= j < all.len() && (#[trigger] all[j]).account_id@ == account && mailbox_key_of(
                    all[j].login@,
                    all[j].imap_host@,
                ) == k;
            assert(all.contains(all[j]));
            crate::table::lemma_filter_contains(all, p, all[j]);
            let i = choose|i: int| 0 <= i < mine.len() && mine[i] == all[j];
            assert(mailbox_key_of(ids[i].0@, ids[i].1@) == k);
        }
    }
    assert(keys =~= watched);
}

/// An account watches for itself; the administrator for the account they name,
/// else for one of the service's own.
pub proof fn services_are_watched_for_their_account(id: String, request: CreateWatch)
    ensures
        owner_for(Caller::Account(id), request) == id@,
        request.account_id is Some ==> owner_for(Caller::Admin, request)
            == request.account_id->0@,
        request.account_id is None ==> owner_for(Caller::Admin, request) == request.id@,
{
}

/// A service signs in with the password that is given with it, else with the one
/// that is stored for its identity, else with the authorization that is.
pub proof fn credentials_are_taken_in_order(store: Store, owner: Seq<char>, request: CreateWatch)
    ensures
        ({
            let key = mailbox_key_of(request.login@, request.imap_host@);
            let c = credential_of(store, owner, request);
            &&& request.password@.len() > 0 ==> c == Some(ServiceCredential::Given)
            &&& request.password@.len() == 0 && store.password(owner, key) is Some ==> c == Some(
                ServiceCredential::StoredPassword,
            )
            &&& request.password@.len() == 0 && store.password(owner, key) is None
                && store.oauth_credential(owner, key) is Some ==> c == Some(
                ServiceCredential::StoredOauth,
            )
            &&& request.password@.len() == 0 && store.password(owner, key) is None
                && store.oauth_credential(owner, key) is None ==> c is None
        }),
        ServiceCredential::Given.kind_text() == "password"@,
        ServiceCredential::StoredPassword.kind_text() == "password"@,
        ServiceCredential::StoredOauth.kind_text() == "oauth"@,
{
}

/// A request for a service is refused for the first of these that holds: the
/// service is there under another id; the account has not proven the mailbox; it
/// watches as many identities as it may; there is nothing to sign in with; the id
/// is another account's. Otherwise it is granted.
pub proof fn requests_are_refused_in_order(
    r: Result<WatchPlan, ApiError>,
    store: Store,
    id: String,
    request: CreateWatch,
    cap: usize,
)
    requires
        plans_watch(r, store, Caller::Account(id), request, cap),
    ensures
        ({
            let key = mailbox_key_of(request.login@, request.imap_host@);
            let there = exists|i: int|
                0 <= i < store.watches@.len() && {
                    let w = #[trigger] store.watches@[i];
                    &&& w.id@ != request.id@
                    &&& w.source_kind@ == "imap"@
                    &&& mailbox_key_of(w.login@, w.imap_host@) == key
                    &&& w.mailbox@ == request.mailbox@
                };
            let proven = exists|i: int|
                0 <= i < store.mailboxes@.len() && {
                    let m = #[trigger] store.mailboxes@[i];
                    &&& m.account_id@ == id@
                    &&& m.member.mailbox_key@ == key
                    &&& m.member.protocol@ == "imap"@
                };
            let full = over_cap(store, id@, key, cap);
            let known = request.password@.len() > 0 || store.password(id@, key) is Some
                || store.oauth_credential(id@, key) is Some;
            let taken = first_where(store.watches@, watch_is(request.id@)) matches Some(w)
                && w.account_id@ != id@;
            &&& there ==> r == Err::<WatchPlan, ApiError>(ApiError::Exists)
            &&& !there && !proven ==> r == Err::<WatchPlan, ApiError>(ApiError::NotProven)
            &&& !there && proven && full ==> r == Err::<WatchPlan, ApiError>(
                ApiError::FairUse(cap),
            )
            &&& !there && proven && !full && !known ==> (r matches Err(ApiError::BadRequest(_)))
            &&& !there && proven && !full && known && taken ==> (r matches Err(
                ApiError::NotFound(i),
            ) && i@ == request.id@)
            &&& !there && proven && !full && known && !taken ==> (r matches Ok(p) && p.account_id@
                == id@)
        }),
{
    let key = mailbox_key_of(request.login@, request.imap_host@);
    let same = is_same_service(key, request.mailbox@, Some(request.id@));
    let member = member_is(id@, key, "imap"@);
    if any_where(store.watches@, same) {
        let i = choose|i: int| 0 <= i < store.watches@.len() && same(#[trigger] store.watches@[i]);
        assert(store.watches@[i].id@ != request.id@);
    } else {
        assert forall|i: int| 0 <= i < store.watches@.len() implies !{
            let w = #[trigger] store.watches@[i];
            &&& w.id@ != request.id@
            &&& w.source_kind@ == "imap"@
            &&& mailbox_key_of(w.login@, w.imap_host@) == key
            &&& w.mailbox@ == request.mailbox@
        } by {
            assert(!same(store.watches@[i]));
        }
    }
    if any_where(store.mailboxes@, member) {
        let i = choose|i: int|
            0 <= i < store.mailboxes@.len() && member(#[trigger] store.mailboxes@[i]);
        assert(store.mailboxes@[i].account_id@ == id@);
    } else {
        assert forall|i: int| 0 <= i < store.mailboxes@.len() implies !{
            let m = #[trigger] store.mailboxes@[i];
            &&& m.account_id@ == id@
            &&& m.member.mailbox_key@ == key
            &&& m.member.protocol@ == "imap"@
        } by {
            assert(!member(store.mailboxes@[i]));
        }
    }
}

/// The administrator is held neither to proof nor to fair use: only a service that
/// is there under another id, and one with nothing to sign in with, is refused.
pub proof fn administrator_watches_anything(
    r: Result<WatchPlan, ApiError>,
    store: Store,
    request: CreateWatch,
    cap: usize,
)
    requires
        plans_watch(r, store, Caller::Admin, request, cap),
    ensures
        r matches Err(e) ==> e is Exists || e is BadRequest,
        (r is Ok && request.account_id is Some) ==> r->Ok_0.account_id@ == request.account_id->0@,
        (r is Ok && request.account_id is None) ==> r->Ok_0.account_id@ == request.id@,
        (request.password@.len() > 0 && r is Err) ==> r->Err_0 is Exists,
{
}

/// A service that is created is what was asked for, in every field; it keeps the
/// encrypted password only where one was given, says how it signs in, is not paid
/// for, does not renew itself, and has one secret.
pub proof fn created_service_is_what_was_asked_for(
    before: Store,
    after: Store,
    caller: Caller,
    request: CreateWatch,
    enc_password: Seq<char>,
    cap: usize,
    w: Watch,
)
    requires
        creates(before, after, caller, request, enc_password, cap, Ok::<Watch, ApiError>(w)),
    ensures
        w.id@ == request.id@,
        w.imap_host@ == request.imap_host@,
        w.imap_port == request.imap_port,
        w.login@ == request.login@,
        w.mailbox@ == request.mailbox@,
        w.notify_url@ == request.notify_url@,
        w.hmac_secret@ == request.hmac_secret@,
        w.active == request.active,
        w.source_kind@ == "imap"@,
        w.provider@ == provider_domain_of(request.imap_host@),
        w.hmac_secret_prev is None,
        w.hmac_secret_prev_expires is None,
        w.watching_until is None,
        !w.auto_renew,
        w.carddav_url is None,
        w.carddav_sync_token is None,
        w.carddav_poll_secs is None,
        request.password@.len() > 0 ==> w.enc_password@ == enc_password && w.auth_kind@
            == "password"@,
        request.password@.len() == 0 ==> w.enc_password@.len() == 0,
        (request.password@.len() == 0 && before.password(
            w.account_id@,
            mailbox_key_of(request.login@, request.imap_host@),
        ) is Some) ==> w.auth_kind@ == "password"@,
        (request.password@.len() == 0 && before.password(
            w.account_id@,
            mailbox_key_of(request.login@, request.imap_host@),
        ) is None) ==> w.auth_kind@ == "oauth"@,
        after.watches@ == before.watches_with(w),
        exists|i: int| 0 <= i < after.accounts@.len() && (#[trigger] after.accounts@[i]).id@
            == w.account_id@ && after.accounts@[i].free_credited,
{
    let account = w.account_id@;
    let mid = choose|mid: Store| #[trigger]
        before.ensures_account(mid, account, None) && after.accounts@ == update_where(
            mid.accounts@,
            account_uncredited(account),
            with_free_credit(FREE_CREDITS_ON_SIGNUP as int),
        );
    crate::laws::accounts_start_empty(before, mid, account, None);
    let i = choose|i: int| 0 <= i < mid.accounts@.len() && (#[trigger] mid.accounts@[i]).id@
        == account;
    assert(after.accounts@[i].id@ == account);
    assert(after.accounts@[i].free_credited);
}

/// A service that is refused leaves everything as it was.
pub proof fn refused_service_changes_nothing(
    before: Store,
    after: Store,
    caller: Caller,
    request: CreateWatch,
    enc_password: Seq<char>,
    cap: usize,
    r: Result<Watch, ApiError>,
)
    requires
        creates(before, after, caller, request, enc_password, cap, r),
    ensures
        r is Err ==> after == before,
        r is Ok ==> after.passwords == before.passwords && after.capabilities
            == before.capabilities && after.mailboxes == before.mailboxes,
{
}

/// Storing the first service of an account gives it its one free credit, and no
/// other account anything.
pub proof fn first_service_grants_one_credit(before: Store, after: Store, w: Watch, i: int)
    requires
        stores_service(before, after, w),
        0 <= i < before.accounts@.len(),
    ensures
        ({
            let (a, b) = (before.accounts@[i], after.accounts@[i]);
            if a.id@ == w.account_id@ && !a.free_credited {
                &&& a.credits < i64::MAX ==> b.credits == a.credits + 1
                &&& b.free_credited
                &&& b.id == a.id
            } else {
                b == a
            }
        }),
{
    let account = w.account_id@;
    let mid = choose|mid: Store| #[trigger]
        before.ensures_account(mid, account, None) && after.accounts@ == update_where(
            mid.accounts@,
            account_uncredited(account),
            with_free_credit(FREE_CREDITS_ON_SIGNUP as int),
        );
    if !any_where(before.accounts@, crate::store::account_is(account)) {
        assert(mid.accounts@.drop_last()[i] == before.accounts@[i]);
    }
    assert(mid.accounts@[i] == before.accounts@[i]);
}

/// A service can be touched by the account that it is of and by the administrator,
/// and by nobody else; one that is not there by nobody.
pub proof fn services_are_touched_by_their_account(store: Store, id: Seq<char>, account: String, i: int)
    requires
        store.wf(),
        0 <= i <= store.watches@.len(),
        i < store.watches@.len() ==> store.watches@[i].id@ == id,
        i == store.watches@.len() ==> forall|j: int|
            0 <= j < store.watches@.len() ==> (#[trigger] store.watches@[j]).id@ != id,
    ensures
        i < store.watches@.len() ==> (may_touch(store, Caller::Account(account), id)
            <==> store.watches@[i].account_id@ == account@),
        i < store.watches@.len() ==> may_touch(store, Caller::Admin, id),
        i == store.watches@.len() ==> !may_touch(store, Caller::Account(account), id)
            && !may_touch(store, Caller::Admin, id),
{
    let p = watch_is(id);
    lemma_first_where(store.watches@, p);
    if i < store.watches@.len() {
        assert(p(store.watches@[i]));
        let w = first_where(store.watches@, p)->0;
        let j = choose|j: int| 0 <= j < store.watches@.len() && store.watches@[j] == w;
        assert(watch_key()(store.watches@[i]) == watch_key()(store.watches@[j]));
    } else if any_where(store.watches@, p) {
        let j = choose|j: int| 0 <= j < store.watches@.len() && p(#[trigger] store.watches@[j]);
        assert(store.watches@[j].id@ != id);
    }
}

/// Where nothing is said, the previous secret is still signed with for a day after
/// a rotation; the new one is handed out and signed with at once.
pub proof fn rotation_overlaps_for_a_day(
    before: Store,
    after: Store,
    caller: Caller,
    id: Seq<char>,
    secret: String,
    overlap: Option<u64>,
    now: i64,
    r: Result<Rotated, ApiError>,
    i: int,
)
    requires
        rotates_to(before, after, caller, id, secret, overlap, now, r),
        may_touch(before, caller, id),
        0 <= now <= i64::MAX - 86_400,
        overlap matches Some(secs) ==> now + secs <= i64::MAX,
        0 <= i < before.watches@.len(),
        before.watches@[i].id@ == id,
    ensures
        r matches Ok(done) && done.secret@ == secret@ && (overlap is None ==> done.prev_expires_at
            == now + 24 * 60 * 60) && (overlap matches Some(secs) ==> done.prev_expires_at == now
            + secs) && after.watches@[i].hmac_secret_prev_expires == Some(done.prev_expires_at),
        after.watches@[i].hmac_secret@ == secret@,
        after.watches@[i].hmac_secret_prev matches Some(old_secret) && old_secret@
            == before.watches@[i].hmac_secret@,
{
    assert(watch_is(id)(before.watches@[i]));
}

/// A rotation of a service that the caller may not touch is refused, as if the
/// service were not there, and changes nothing.
pub proof fn foreign_secret_stays(
    before: Store,
    after: Store,
    caller: Caller,
    id: Seq<char>,
    secret: String,
    overlap: Option<u64>,
    now: i64,
    r: Result<Rotated, ApiError>,
)
    requires
        rotates_to(before, after, caller, id, secret, overlap, now, r),
        !may_touch(before, caller, id),
    ensures
        r matches Err(ApiError::NotFound(i)) && i@ == id,
        after == before,
{
}

/// A service that lapsed, or was never paid for, is paid for from now on.
pub proof fn lapsed_time_is_not_paid_for(until: Option<i64>, month: int, now: int)
    requires
        until matches Some(t) ==> t <= now,
        i64::MIN <= now + month <= i64::MAX,
    ensures
        paid_until(until, month, now) == now + month,
{
}

/// An activation takes one credit from the account of the service, and from no
/// other, and pays for a month on top of what is paid for already; with an empty
/// pool it is refused and nothing changes.
pub proof fn activation_costs_one_credit(
    before: Store,
    after: Store,
    caller: Caller,
    id: Seq<char>,
    month: int,
    now: int,
    r: Result<Activated, ApiError>,
    i: int,
    k: int,
)
    requires
        before.wf(),
        activates(before, after, caller, id, month, now, r),
        may_touch(before, caller, id),
        0 <= i < before.watches@.len(),
        before.watches@[i].id@ == id,
        0 <= k < before.accounts@.len(),
        before.accounts@[k].id@ == before.watches@[i].account_id@,
    ensures
        r is Ok <==> before.accounts@[k].credits >= 1,
        before.accounts@[k].credits < 1 ==> r == Err::<Activated, ApiError>(ApiError::NoCredits)
            && after.watches@ == before.watches@ && after.accounts@ == before.accounts@,
        r matches Ok(done) ==> {
            &&& after.accounts@[k].credits == before.accounts@[k].credits - 1
            &&& done.credits == before.accounts@[k].credits - 1
            &&& forall|j: int|
                0 <= j < before.accounts@.len() && j != k ==> #[trigger] after.accounts@[j]
                    == before.accounts@[j]
            &&& after.watches@[i].watching_until == Some(done.until)
            &&& (before.watches@[i].watching_until matches Some(t) && t > now && i64::MIN <= t
                + month <= i64::MAX) ==> done.until == before.watches@[i].watching_until->0 + month
            &&& !(before.watches@[i].watching_until matches Some(t) && t > now) && i64::MIN <= now
                + month <= i64::MAX ==> done.until == now + month
            &&& forall|j: int|
                0 <= j < before.watches@.len() && before.watches@[j].id@ != id
                    ==> #[trigger] after.watches@[j] == before.watches@[j]
        },
{
    let p = watch_is(id);
    lemma_first_where(before.watches@, p);
    let w = first_where(before.watches@, p)->0;
    let n = choose|n: int| 0 <= n < before.watches@.len() && before.watches@[n] == w;
    assert(watch_key()(before.watches@[i]) == watch_key()(before.watches@[n]));
    let account = w.account_id@;
    let holding = account_holding(account, 1);
    let own = crate::store::account_is(account);
    if any_where(before.accounts@, holding) {
        let j = choose|j: int|
            0 <= j < before.accounts@.len() && holding(#[trigger] before.accounts@[j]);
        assert(crate::store::account_key()(before.accounts@[j]) == crate::store::account_key()(
            before.accounts@[k],
        ));
        assert forall|j: int| 0 <= j < before.accounts@.len() && j != k implies #[trigger] after.accounts@[j]
            == before.accounts@[j] by {
            assert(crate::store::account_key()(before.accounts@[j])
                != crate::store::account_key()(before.accounts@[k]));
        }
        let changed = after.accounts@;
        assert(own(changed[k]));
        lemma_first_where(changed, own);
        let a = first_where(changed, own)->0;
        let m = choose|m: int| 0 <= m < changed.len() && changed[m] == a;
        assert(crate::store::account_key()(before.accounts@[m]) == crate::store::account_key()(
            before.accounts@[k],
        ));
        assert(m == k);
    } else {
        assert(!holding(before.accounts@[k]));
    }
}

/// Whoever may not touch a service cannot activate it, and spends nothing.
pub proof fn foreign_service_is_not_activated(
    before: Store,
    after: Store,
    caller: Caller,
    id: Seq<char>,
    month: int,
    now: int,
    r: Result<Activated, ApiError>,
)
    requires
        activates(before, after, caller, id, month, now, r),
        !may_touch(before, caller, id),
    ensures
        r matches Err(ApiError::NotFound(i)) && i@ == id,
        after == before,
{
}

} // verus!
