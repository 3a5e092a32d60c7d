use carillon_backend::api::caller::{
    authenticate, authenticate_at, bearer, capability_account_at, signout, Caller,
};
use carillon_backend::api::popup::{
    escape, magic_err, magic_payload, magic_verify_get, magic_verify_get_at, oauth_err,
    oauth_payload, oauth_popup,
};
use carillon_backend::api::purchase::{
    apply_webhook, billing_webhook_at, checkout_refused, pack_credits, record_purchase, Applied,
    MAX_PACKS,
};
use carillon_backend::api::reply::{default_limit, default_packs, limit_key, too_many, ApiError};
use carillon_backend::api::service::{
    activate_watch_at, authorize_watch, check_endpoint, create_watch, delete_watch, discovery_input,
    listing_credential_at, pause_watch, plan_watch, resume_watch, rotate_secret, rotate_secret_to,
    service_already_watched, set_watch_auto_renew, test_verdict, CreateWatch, ListingCredential,
};
use carillon_backend::api::sign_in::{
    auth, auth_at, callback_code, check_access, check_proven, check_tokens, finish_oauth,
    finish_oauth_at, magic_email, magic_link, magic_request, magic_request_at, oauth_start_at,
    plan_exchange, redirect_uri, take_authorization, take_authorization_at, verify_magic,
    verify_magic_at, AuthAction, CallbackError, MailTarget, OauthCallback,
};
use carillon_backend::api::view::{
    account_view, get_account_at, list_accounts_at, list_deliveries, list_watches, me_at,
};
use carillon_backend::billing::{Billing, BillingError, WebhookOutcome};
use carillon_backend::guard::HostCheck;
use carillon_backend::imap::session::{probe, ImapAuth, ProbeStage, SessionCapability};
use carillon_backend::oauth::{AuthRequest, Planned, Tokens};
use carillon_backend::store::{DeliveryOutcome, Store};

fn request(id: &str, login: &str, mailbox: &str) -> CreateWatch {
    CreateWatch {
        id: id.into(),
        imap_host: "imap.x".into(),
        imap_port: 993,
        login: login.into(),
        password: "pw".into(),
        mailbox: mailbox.into(),
        notify_url: "https://x/hook".into(),
        hmac_secret: "s".into(),
        account_id: None,
        active: true,
    }
}

fn account(id: &str) -> Caller {
    Caller::Account(id.into())
}

fn proven(store: &mut Store, owner: &str, login: &str) {
    store.add_membership(owner, login, "imap", login, "imap.x", 993, None);
}

// --- callers ---

#[test]
fn callers_are_known_by_their_token() {
    let mut store = Store::new();
    store.issue_capability_at("acc", "link", Some(100), 0);
    let admin = Some("master".to_string());
    let who = |header: Option<&str>, now: i64| authenticate_at(&store, header, &admin, now);
    assert!(matches!(who(Some("Bearer master"), 0).unwrap(), Caller::Admin));
    assert!(matches!(who(Some("Bearer  link "), 0).unwrap(), Caller::Account(id) if id == "acc"));
    for (header, now) in [
        (None, 0),
        (Some("link"), 0),
        (Some("bearer link"), 0),
        (Some("Bearer nope"), 0),
        (Some("Bearer link"), 100),
    ] {
        let e = who(header, now).unwrap_err();
        assert_eq!(e.status(), 401);
        assert_eq!(e.message(), "invalid or missing capability link");
    }
    assert!(authenticate(&store, Some("Bearer master"), &None).is_err());
    assert!(capability_account_at(&store, Some("Bearer master"), 0).is_err());
    assert_eq!(capability_account_at(&store, Some("Bearer link"), 0).unwrap(), "acc");
    assert_eq!(bearer(Some("Bearer x")).as_deref(), Some("x"));
    assert!(signout(&mut store, None).is_err());
    assert!(signout(&mut store, Some("Bearer link")).unwrap());
    assert!(!signout(&mut store, Some("Bearer link")).unwrap());
    assert_eq!(account("a").scope().as_deref(), Some("a"));
    assert!(Caller::Admin.owns("a") && account("a").owns("a") && !account("a").owns("b"));
}

#[test]
fn refusals_say_what_is_wrong() {
    let cases: Vec<(ApiError, u16, &str)> = vec![
        (ApiError::BadRequest("why".into()), 400, r#"{"error":"why"}"#),
        (
            ApiError::NotProven,
            403,
            r#"{"error":"authenticate this mailbox first (POST /auth) before watching it"}"#,
        ),
        (
            ApiError::Exists,
            409,
            r#"{"error":"this service already exists (same mailbox and folder)"}"#,
        ),
        (
            ApiError::NoCredits,
            402,
            "{\"error\":\"no credits \u{2014} buy a pack to activate this service\"}",
        ),
        (
            ApiError::FairUse(3),
            402,
            "{\"error\":\"fair-use limit reached (3 mailboxes) \u{2014} get in touch for a volume plan\",\"limit\":3}",
        ),
        (ApiError::NotFound("w".into()), 404, r#"{"error":"watch not found","id":"w"}"#),
        (ApiError::TooMany(9), 429, r#"{"error":"too many attempts","retry_after":9}"#),
        (
            ApiError::AuthenticationFailed(None),
            401,
            r#"{"detail":null,"error":"authentication failed"}"#,
        ),
        (ApiError::InvalidSignIn, 401, r#"{"error":"invalid or expired sign-in link"}"#),
        (
            ApiError::MailNotSent,
            502,
            r#"{"error":"could not send the sign-in email; try again"}"#,
        ),
        (ApiError::Internal("oops".into()), 500, r#"{"error":"oops"}"#),
        (
            ApiError::Unauthorized,
            401,
            r#"{"error":"invalid or missing capability link"}"#,
        ),
    ];
    for (e, status, body) in cases {
        assert_eq!(e.status(), status);
        assert_eq!(e.body(), body);
    }
    assert_eq!(limit_key("1.2.3.4", "me"), "1.2.3.4|me");
    assert!(matches!(too_many(1), ApiError::TooMany(1)));
    assert!(matches!(too_many(2_999_999_999), ApiError::TooMany(2)));
    assert_eq!((default_limit(), default_packs()), (50, 1));
}

// --- services ---

#[test]
fn endpoints_are_checked_before_anything_is_posted() {
    let why = |url: &str, allow: bool| check_endpoint(url, allow).unwrap_err().message();
    assert_eq!(why("nope", false), "not a valid URL: relative URL without a base");
    assert!(why("https://127.0.0.1/x", false).starts_with("refusing to send to a private"));
    assert!(matches!(check_endpoint("https://127.0.0.1/x", true).unwrap(), HostCheck::Allowed));
    assert!(matches!(check_endpoint("https://1.1.1.1/x", false).unwrap(), HostCheck::Allowed));
    assert!(matches!(
        check_endpoint("https://[2606:4700:4700::1111]/hook", false).unwrap(),
        HostCheck::Allowed
    ));
    assert!(why("https://[fe80::1]/x", false).starts_with("refusing to send to a private"));
    assert!(matches!(
        check_endpoint("https://example.org/x", false).unwrap(),
        HostCheck::Resolve { host, port: 443 } if host == "example.org"
    ));
}

#[test]
fn the_administrator_creates_services_for_anyone() {
    let mut store = Store::new();
    let w = create_watch(&mut store, &Caller::Admin, &request("w1", "u@x", "INBOX"), "enc", 1).unwrap();
    assert_eq!((w.account_id.as_str(), w.enc_password.as_str()), ("w1", "enc"));
    assert_eq!((w.auth_kind.as_str(), w.source_kind.as_str()), ("password", "imap"));
    assert_eq!(w.provider, "imap.x");
    assert_eq!(store.get_account("w1").unwrap().credits, 1);

    let mut other = request("w2", "v@x", "INBOX");
    other.account_id = Some("team".into());
    let w = create_watch(&mut store, &Caller::Admin, &other, "enc", 1).unwrap();
    assert_eq!(w.account_id, "team");

    // The same id is an edit, and earns nothing more.
    create_watch(&mut store, &Caller::Admin, &request("w1", "u@x", "INBOX"), "enc", 1).unwrap();
    assert_eq!(store.get_account("w1").unwrap().credits, 1);
    assert_eq!(store.watches.len(), 2);
}

#[test]
fn the_same_service_is_not_created_twice() {
    let mut store = Store::new();
    create_watch(&mut store, &Caller::Admin, &request("w1", "u@x", "INBOX"), "enc", 1).unwrap();
    let again = request("w2", "U+tag@X", "INBOX");
    assert!(matches!(
        create_watch(&mut store, &Caller::Admin, &again, "enc", 1),
        Err(ApiError::Exists)
    ));
    assert!(create_watch(&mut store, &Caller::Admin, &request("w2", "u@x", "Sent"), "enc", 1).is_ok());
    assert!(service_already_watched(&store, "u@x", "Sent", None));
    assert!(!service_already_watched(&store, "u@x", "Sent", Some("w2")));
}

#[test]
fn accounts_watch_what_they_have_proven() {
    let mut store = Store::new();
    let me = account("acc");
    let mut r = request("w1", "u@x", "INBOX");
    r.account_id = Some("someone".into());
    assert!(matches!(plan_watch(&store, &me, &r, 2), Err(ApiError::NotProven)));
    proven(&mut store, "acc", "u@x");
    let w = create_watch(&mut store, &me, &r, "enc", 2).unwrap();
    assert_eq!(w.account_id, "acc");

    proven(&mut store, "acc", "v@x");
    proven(&mut store, "acc", "z@x");
    create_watch(&mut store, &me, &request("w2", "v@x", "INBOX"), "enc", 2).unwrap();
    assert!(matches!(
        plan_watch(&store, &me, &request("w3", "z@x", "INBOX"), 2),
        Err(ApiError::FairUse(2))
    ));
    // Another folder of a mailbox that is watched is no other mailbox.
    assert!(plan_watch(&store, &me, &request("w3", "v@x", "Sent"), 2).is_ok());
}

#[test]
fn accounts_leave_the_services_of_others_alone() {
    let mut store = Store::new();
    proven(&mut store, "b", "u@x");
    create_watch(&mut store, &account("b"), &request("w1", "u@x", "INBOX"), "enc", 2).unwrap();
    proven(&mut store, "a", "v@x");
    let taken = request("w1", "v@x", "INBOX");
    let refused = create_watch(&mut store, &account("a"), &taken, "other", 2);
    assert!(matches!(refused, Err(ApiError::NotFound(id)) if id == "w1"));
    assert_eq!(store.watches.len(), 1);
    let left = &store.watches[0];
    assert_eq!((left.account_id.as_str(), left.login.as_str()), ("b", "u@x"));
    assert_eq!(left.enc_password, "enc");

    // Whoever has not proven the mailbox, watches enough already or has no
    // credential is told so, and nothing about the id.
    let unproven = create_watch(&mut store, &account("a"), &request("w1", "z@x", "INBOX"), "other", 2);
    assert!(matches!(unproven, Err(ApiError::NotProven)));
    let capped = create_watch(&mut store, &account("a"), &taken, "other", 0);
    assert!(matches!(capped, Err(ApiError::FairUse(0))));
    let mut bare = request("w1", "v@x", "INBOX");
    bare.password = String::new();
    let bare = create_watch(&mut store, &account("a"), &bare, "other", 2);
    assert!(matches!(bare, Err(ApiError::BadRequest(_))));
    assert_eq!((store.watches.len(), store.watches[0].account_id.as_str()), (1, "b"));

    // An account redefines its own, and the administrator anyone's.
    let mut mine = request("w1", "u@x", "INBOX");
    mine.notify_url = "https://example.org/new".into();
    create_watch(&mut store, &account("b"), &mine, "enc", 2).unwrap();
    assert_eq!(store.watches[0].notify_url, "https://example.org/new");
    let w = create_watch(&mut store, &Caller::Admin, &taken, "enc", 2).unwrap();
    assert_eq!((w.login.as_str(), store.watches.len()), ("v@x", 1));
}

#[test]
fn services_use_the_credential_of_their_account() {
    let mut store = Store::new();
    let mut r = request("w1", "u@x", "INBOX");
    r.password = String::new();
    r.account_id = Some("acc".into());
    let refused = create_watch(&mut store, &Caller::Admin, &r, "enc", 1).unwrap_err();
    assert!(refused.message().starts_with("no credential for this PIM account"));
    assert!(store.watches.is_empty());
    let done = finish_oauth_at(&mut store, &session(Some("acc")), "enc".into(), 0, "i".into(), "l".into());
    assert_eq!(done.account_id, "acc");
    let w = create_watch(&mut store, &Caller::Admin, &r, "enc", 1).unwrap();
    assert_eq!((w.auth_kind.as_str(), w.enc_password.as_str()), ("oauth", ""));
    store.upsert_password_credential("acc", "u@x", "stored");
    let w = create_watch(&mut store, &Caller::Admin, &r, "enc", 1).unwrap();
    assert_eq!((w.auth_kind.as_str(), w.enc_password.as_str()), ("password", ""));
}

#[test]
fn a_foreign_service_is_as_unknown_as_a_missing_one() {
    let mut store = Store::new();
    create_watch(&mut store, &Caller::Admin, &request("w1", "u@x", "INBOX"), "enc", 1).unwrap();
    let stranger = account("other");
    let foreign = authorize_watch(&store, &stranger, "w1").unwrap_err();
    let missing = authorize_watch(&store, &stranger, "nope").unwrap_err();
    assert_eq!((foreign.status(), missing.status()), (404, 404));
    assert_eq!(foreign.message(), missing.message());
    assert!(delete_watch(&mut store, &stranger, "w1").is_err());
    assert!(pause_watch(&mut store, &stranger, "w1").is_err());
    assert!(set_watch_auto_renew(&mut store, &stranger, "w1", true).is_err());
    assert!(rotate_secret(&mut store, &stranger, "w1", None, None).is_err());
    assert!(activate_watch_at(&mut store, &stranger, "w1", 10, 0).is_err());
    let w = store.get_watch("w1").unwrap();
    assert!(w.active && !w.auto_renew && w.hmac_secret == "s" && w.watching_until.is_none());
}

#[test]
fn owners_change_their_services() {
    let mut store = Store::new();
    create_watch(&mut store, &Caller::Admin, &request("w1", "u@x", "INBOX"), "enc", 1).unwrap();
    let me = account("w1");
    pause_watch(&mut store, &me, "w1").unwrap();
    assert!(!store.get_watch("w1").unwrap().active);
    resume_watch(&mut store, &me, "w1").unwrap();
    assert!(store.get_watch("w1").unwrap().active);
    set_watch_auto_renew(&mut store, &me, "w1", true).unwrap();
    assert!(store.get_watch("w1").unwrap().auto_renew);

    let done = rotate_secret_to(&mut store, &me, "w1", "new".into(), None, 1_000).unwrap();
    assert_eq!((done.secret.as_str(), done.prev_expires_at), ("new", 87_400));
    let done = rotate_secret(&mut store, &me, "w1", None, Some(5)).unwrap();
    assert_eq!(done.secret.len(), 64);
    assert_eq!(store.get_watch("w1").unwrap().hmac_secret_prev.as_deref(), Some("new"));

    delete_watch(&mut store, &me, "w1").unwrap();
    assert!(store.watches.is_empty());
}

#[test]
fn activations_stack_and_cost_a_credit_each() {
    let mut store = Store::new();
    create_watch(&mut store, &Caller::Admin, &request("w1", "u@x", "INBOX"), "enc", 1).unwrap();
    store.add_credits("w1", 1);
    let me = account("w1");
    let first = activate_watch_at(&mut store, &me, "w1", 100, 1_000).unwrap();
    assert_eq!((first.until, first.credits), (1_100, 1));
    let second = activate_watch_at(&mut store, &me, "w1", 100, 1_050).unwrap();
    assert_eq!((second.until, second.credits), (1_200, 0));
    let none = activate_watch_at(&mut store, &me, "w1", 100, 1_060).unwrap_err();
    assert_eq!(none.status(), 402);
    assert_eq!(store.get_watch("w1").unwrap().watching_until, Some(1_200));
    store.add_credits("w1", 1);
    let late = activate_watch_at(&mut store, &me, "w1", 100, 5_000).unwrap();
    assert_eq!(late.until, 5_100);
}

#[test]
fn verdicts_and_listings() {
    let poor = probe(ProbeStage::SignedIn(vec![SessionCapability::QResync]));
    let v = test_verdict(poor, true);
    assert!(!v.ok && v.qresync && v.already_watched);
    assert_eq!(v.missing, vec!["IDLE"]);
    let down = test_verdict(probe(ProbeStage::Unreachable("no".into())), false);
    assert!(down.missing.is_empty());
    assert_eq!(down.error.as_deref(), Some("no"));

    let mut store = Store::new();
    store.issue_capability_at("acc", "link", None, 0);
    let with = |store: &Store, header: Option<&str>, password: &str| {
        listing_credential_at(store, header, "u@x", "imap.x", password, 0)
    };
    assert!(matches!(
        with(&store, None, "pw").unwrap(),
        ListingCredential::Given(p) if p == "pw"
    ));
    assert!(matches!(with(&store, None, ""), Err(ApiError::Unauthorized)));
    assert!(matches!(
        with(&store, Some("Bearer link"), "").unwrap(),
        ListingCredential::Oauth(id) if id == "acc"
    ));
    store.upsert_password_credential("acc", "u@x", "stored");
    assert!(matches!(
        with(&store, Some("Bearer link"), "").unwrap(),
        ListingCredential::Stored(enc) if enc == "stored"
    ));
}

// --- what is shown ---

#[test]
fn callers_see_their_own() {
    let mut store = Store::new();
    create_watch(&mut store, &Caller::Admin, &request("w2", "u@x", "INBOX"), "enc", 1).unwrap();
    create_watch(&mut store, &Caller::Admin, &request("w1", "v@x", "INBOX"), "enc", 1).unwrap();
    let ids = |who: &Caller| -> Vec<String> {
        list_watches(&store, who).into_iter().map(|w| w.id).collect()
    };
    assert_eq!(ids(&Caller::Admin), vec!["w1", "w2"]);
    assert_eq!(ids(&account("w2")), vec!["w2"]);

    let mut store = store;
    for (account, uid) in [("w1", 1), ("w2", 2), ("gone", 3)] {
        let outcome = DeliveryOutcome {
            account,
            event: "new",
            uid,
            ok: false,
            status: None,
            error: Some("down"),
            attempts: 3,
        };
        store.log_delivery_at(&outcome, uid as i64);
    }
    let uids = |who: &Caller, filter: Option<&str>, limit: u32| -> Vec<u32> {
        list_deliveries(&store, who, filter, limit).into_iter().map(|d| d.uid).collect()
    };
    assert_eq!(uids(&Caller::Admin, None, 50), vec![3, 2, 1]);
    assert_eq!(uids(&Caller::Admin, None, 0), vec![3]);
    assert_eq!(uids(&Caller::Admin, Some("w1"), 50), vec![1]);
    assert_eq!(uids(&account("w2"), None, 50), vec![2]);
    assert_eq!(uids(&account("w2"), Some("w2"), 50), vec![2]);
    assert!(uids(&account("w2"), Some("w1"), 50).is_empty());
    assert!(uids(&account("w2"), Some("gone"), 50).is_empty());
}

#[test]
fn accounts_show_services_and_bare_mailboxes() {
    let mut store = Store::new();
    proven(&mut store, "acc", "u@x");
    proven(&mut store, "acc", "v@x");
    create_watch(&mut store, &account("acc"), &request("w1", "u@x", "INBOX"), "enc", 9).unwrap();
    store.set_watch_watching_until("w1", 500);
    let v = account_view(&store, "acc", 400);
    assert_eq!(v.credits, 1);
    let slots: Vec<(&str, Option<&str>, bool)> = v
        .mailboxes
        .iter()
        .map(|m| (m.mailbox_key.as_str(), m.watch_id.as_deref(), m.watching))
        .collect();
    assert_eq!(slots, vec![("u@x", Some("w1"), true), ("v@x", None, false)]);
    assert!(!account_view(&store, "acc", 500).mailboxes[0].watching);
    let unknown = account_view(&store, "nobody", 0);
    assert_eq!((unknown.id.as_str(), unknown.credits), ("nobody", 0));

    assert!(get_account_at(&store, &account("acc"), "acc", 0).is_ok());
    assert_eq!(get_account_at(&store, &account("x"), "acc", 0).unwrap_err().status(), 404);
    assert_eq!(get_account_at(&store, &Caller::Admin, "x", 0).unwrap_err().status(), 404);
    assert_eq!(list_accounts_at(&store, &Caller::Admin, 0).len(), 1);
    assert_eq!(list_accounts_at(&store, &account("x"), 0)[0].id, "x");
    let me = me_at(&store, "acc", true, 0);
    assert_eq!((me.mailboxes.len(), me.watches.len(), me.metered), (2, 1, true));
}

// --- signing in ---

#[test]
fn a_password_creates_recovers_or_joins_an_account() {
    let mut store = Store::new();
    let first = auth_at(&mut store, None, "u@x", "imap.x", 993, "enc", 10, "id1".into(), "l1".into());
    assert_eq!(first.action, AuthAction::Created);
    assert_eq!((first.account_id.as_str(), first.link.as_str()), ("id1", "l1"));
    assert_eq!(store.resolve_capability_at("l1", 10 + 7_775_999).as_deref(), Some("id1"));
    assert_eq!(store.resolve_capability_at("l1", 10 + 7_776_000), None);
    assert_eq!(store.get_account("id1").unwrap().credits, 1);
    assert_eq!(store.get_password_credential("id1", "u@x").as_deref(), Some("enc"));

    let again = auth_at(&mut store, None, "U@x", "imap.x", 993, "enc2", 20, "id2".into(), "l2".into());
    assert_eq!(again.action, AuthAction::Recovered);
    assert_eq!((again.account_id.as_str(), again.link.as_str()), ("id1", "l2"));
    assert_eq!(store.get_account("id1").unwrap().credits, 1);

    let joined =
        auth_at(&mut store, Some("Bearer l1"), "v@x", "imap.x", 993, "enc", 30, "id3".into(), "l3".into());
    assert_eq!(joined.action, AuthAction::Joined);
    assert_eq!((joined.account_id.as_str(), joined.link.as_str()), ("id1", "l1"));
    assert!(store.mailbox_belongs("id1", "v@x", "imap"));
    assert_eq!(joined.action.as_str(), "joined");

    let live = auth(&mut store, Some("Bearer nope"), "z@x", "imap.x", 993, "enc");
    assert_eq!(live.action.as_str(), "created");
    assert_eq!(live.link.len(), 64);
    assert!(live.link != live.account_id);
}

#[test]
fn only_proven_mailboxes_sign_in() {
    assert!(check_proven(&probe(ProbeStage::SignedIn(Vec::new()))).is_ok());
    assert!(matches!(
        check_proven(&probe(ProbeStage::Refused("no".into()))),
        Err(ApiError::AuthenticationFailed(Some(why))) if why == "no"
    ));
}

#[test]
fn sign_in_links_lead_to_the_dashboard() {
    assert_eq!(magic_email("  Me@X.test ").unwrap(), "me@x.test");
    for bad in ["", "a@", "nobody", "@"] {
        assert_eq!(magic_email(bad).unwrap_err().message(), "a valid email is required");
    }
    assert!(magic_email("\u{e9}@").is_ok());
    assert_eq!(magic_link("https://dash/", "https://api", "t"), "https://dash/verify?token=t");
    assert_eq!(magic_link("*", "https://api/", "t"), "https://api/auth/magic/verify?token=t");
    assert_eq!(magic_link("//", "https://api", "t"), "https://api/auth/magic/verify?token=t");
}

#[test]
fn a_mailed_link_signs_in_once() {
    let mut store = Store::new();
    let link = magic_request_at(&mut store, "me@x.test", "https://dash", "https://api", "tok", 0);
    assert_eq!(link, "https://dash/verify?token=tok");
    let (id, l) = verify_magic_at(&mut store, "tok", 900, "id1".into(), "l1".into()).unwrap();
    assert_eq!((id.as_str(), l.as_str()), ("id1", "l1"));
    let made = store.get_account("id1").unwrap();
    assert_eq!((made.email.as_deref(), made.credits), (Some("me@x.test"), 0));
    assert!(verify_magic_at(&mut store, "tok", 900, "id2".into(), "l2".into()).is_none());

    magic_request_at(&mut store, "me@x.test", "", "https://api", "tok2", 1_000);
    let (id, _) = verify_magic_at(&mut store, "tok2", 1_100, "id3".into(), "l3".into()).unwrap();
    assert_eq!(id, "id1");

    magic_request_at(&mut store, "me@x.test", "", "https://api", "tok3", 1_000);
    assert!(verify_magic_at(&mut store, "tok3", 1_901, "id4".into(), "l4".into()).is_none());

    let link = magic_request(&mut store, "you@x.test", "", "https://api");
    let token = link.strip_prefix("https://api/auth/magic/verify?token=").unwrap();
    assert_eq!(token.len(), 64);
    let (id, l) = verify_magic(&mut store, token).unwrap();
    assert_eq!(store.resolve_capability(&l), Some(id));
}

fn planned() -> Planned {
    Planned {
        auth: AuthRequest {
            url: "https://auth.x/authorize?x".into(),
            state: "st".into(),
            verifier: "ver".into(),
        },
        token_endpoint: "https://auth.x/token".into(),
        client_id: "cid".into(),
        client_secret: None,
        resource: None,
        scope: Some("mail".into()),
    }
}

fn target() -> MailTarget {
    MailTarget {
        login: "u@x".into(),
        imap_host: "imap.x".into(),
        imap_port: 993,
        mailbox: "INBOX".into(),
    }
}

fn session(account: Option<&str>) -> carillon_backend::rows::OauthSession {
    let mut store = Store::new();
    let header = match account {
        Some(id) => {
            store.issue_capability_at(id, "link", None, 0);
            Some("Bearer link")
        }
        None => None,
    };
    let url = oauth_start_at(
        &mut store,
        header,
        planned(),
        Some("encs".into()),
        redirect_uri("https://api/"),
        target(),
        0,
    )
    .unwrap();
    assert_eq!(url, "https://auth.x/authorize?x");
    take_authorization_at(&mut store, "st", 10).unwrap()
}

#[test]
fn an_authorization_is_kept_until_its_callback() {
    let s = session(Some("acc"));
    assert_eq!(s.account_id.as_deref(), Some("acc"));
    assert_eq!(s.redirect_uri, "https://api/oauth/callback");
    assert_eq!((s.verifier.as_str(), s.client_id.as_str()), ("ver", "cid"));
    assert_eq!(s.enc_client_secret.as_deref(), Some("encs"));

    let mut store = Store::new();
    for expected in [true, false] {
        let r = oauth_start_at(&mut store, None, planned(), None, "r".into(), target(), 0);
        assert_eq!(r.is_ok(), expected);
    }
    assert!(take_authorization_at(&mut store, "other", 10).is_err());
    assert!(take_authorization_at(&mut store, "st", 901).is_err());
    assert_eq!(
        take_authorization(&mut store, "st").err().unwrap().message(),
        "unknown or expired sign-in; start again"
    );
}

#[test]
fn callbacks_carry_a_code() {
    let params = |state: &str, code: Option<&str>, error: Option<&str>, detail: Option<&str>| OauthCallback {
        state: state.into(),
        code: code.map(|s| s.to_string()),
        error: error.map(|s| s.to_string()),
        error_description: detail.map(|s| s.to_string()),
    };
    assert_eq!(callback_code(&params("s", Some("c"), None, None)).unwrap(), "c");
    let why = |p: OauthCallback| callback_code(&p).unwrap_err().message();
    assert_eq!(why(params("s", Some("c"), Some("denied"), None)), "denied");
    assert_eq!(why(params("s", None, Some("denied"), Some("user said no"))), "user said no");
    assert_eq!(why(params("s", None, None, None)), "missing authorization code");
    assert_eq!(why(params("", Some("c"), None, None)), "missing state");
}

#[test]
fn codes_become_tokens_and_tokens_a_probe() {
    let mut s = session(None);
    let plan = plan_exchange(&s, Some("secret".into()), "code").unwrap();
    assert_eq!(plan.token_endpoint, "https://auth.x/token");
    assert_eq!(plan.exchange.client_secret.as_deref(), Some("secret"));
    assert_eq!((plan.exchange.code.as_str(), plan.exchange.verifier.as_str()), ("code", "ver"));
    let tokens = |refresh: Option<&str>| Tokens {
        access_token: "at".into(),
        refresh_token: refresh.map(|s| s.to_string()),
        expires_in: Some(60),
        scope: None,
    };
    let (refresh, account) = check_tokens(&s, &tokens(Some("rt"))).unwrap();
    assert_eq!((refresh.as_str(), account.login.as_str()), ("rt", "u@x"));
    assert!(matches!(account.auth, ImapAuth::OauthBearer(t) if t == "at"));
    assert_eq!(
        check_tokens(&s, &tokens(None)).unwrap_err().message(),
        "provider returned no refresh token (missing offline access)"
    );
    assert_eq!(
        check_access(&probe(ProbeStage::Refused("nope".into()))).unwrap_err().message(),
        "OAuth token did not authenticate to IMAP: nope"
    );
    assert!(check_access(&probe(ProbeStage::SignedIn(Vec::new()))).is_ok());
    s.verifier = "v v".into();
    assert_eq!(
        plan_exchange(&s, None, "code").unwrap_err().message(),
        "token exchange failed: invalid PKCE verifier byte 32"
    );
    s.token_endpoint = "x".into();
    assert_eq!(plan_exchange(&s, None, "code").unwrap_err().message(), "bad token endpoint");
}

#[test]
fn an_authorization_ends_with_a_credential() {
    let mut store = Store::new();
    let done = finish_oauth_at(&mut store, &session(None), "enc".into(), 5, "id1".into(), "l1".into());
    assert_eq!(done.action, AuthAction::Created);
    let cred = store.get_oauth_credential("id1", "u@x").unwrap();
    assert_eq!((cred.enc_refresh_token.as_str(), cred.client_id.as_str()), ("enc", "cid"));
    assert_eq!(store.get_account("id1").unwrap().credits, 1);
    assert!(store.mailbox_belongs("id1", "u@x", "imap"));

    let back = finish_oauth(&mut store, &session(None), "enc2".into());
    assert_eq!((back.account_id.as_str(), back.action), ("id1", AuthAction::Recovered));
    let other = finish_oauth_at(&mut store, &session(Some("acc")), "enc3".into(), 6, "i".into(), "l9".into());
    assert_eq!((other.account_id.as_str(), other.action), ("acc", AuthAction::Joined));
    assert_eq!(store.resolve_capability_at("l9", 7).as_deref(), Some("acc"));
    assert_eq!(store.get_oauth_credential("id1", "u@x").unwrap().enc_refresh_token, "enc2");
}

#[test]
fn pages_hand_over_their_result_and_nothing_else() {
    assert_eq!(escape("a<b<"), "a\\u003cb\\u003c");
    let page = oauth_popup(
        "https://dash",
        &oauth_err(&CallbackError::Provider("</script><b>".into())),
    );
    assert!(page.contains(
        "postMessage({\"error\":\"\\u003c/script>\\u003cb>\",\"ok\":false,\"type\":\"carillon-oauth\"},\"https://dash\");"
    ));
    assert_eq!(page.matches("</script>").count(), 1);
    let page = oauth_popup("*", &magic_payload("acc", "link"));
    assert!(page.contains(
        "{\"account_id\":\"acc\",\"link\":\"link\",\"ok\":true,\"type\":\"carillon-magic\"},\"*\""
    ));
    let page = oauth_popup("*", &magic_err("missing token"));
    assert!(page.contains("{\"error\":\"missing token\",\"ok\":false,\"type\":\"carillon-magic\"}"));

    let mut store = Store::new();
    let s = session(None);
    let done = finish_oauth_at(&mut store, &s, "enc".into(), 5, "id1".into(), "l1".into());
    let p = probe(ProbeStage::SignedIn(vec![SessionCapability::QResync]));
    let page = oauth_popup("*", &oauth_payload(&done, &p, true, &s));
    assert!(page.contains(
        "{\"account_id\":\"id1\",\"already_watched\":true,\"imap_host\":\"imap.x\",\"imap_port\":993,\"link\":\"l1\",\"login\":\"u@x\",\"mailbox\":\"INBOX\",\"missing\":[\"IDLE\"],\"ok\":true,\"qresync\":true,\"type\":\"carillon-oauth\",\"watchable\":false}"
    ));
}

#[test]
fn a_mailed_link_is_opened_in_a_window() {
    let mut store = Store::new();
    magic_request_at(&mut store, "me@x.test", "", "https://api", "tok", 0);
    let page = |payload: Vec<carillon_backend::json::Field>| oauth_popup("*", &payload);
    let missing = page(magic_verify_get(&mut store, ""));
    assert!(missing.contains("\"error\":\"missing token\""));
    let opened = page(magic_verify_get_at(&mut store, "tok", 1, "id1".into(), "l1".into()));
    assert!(opened.contains("\"account_id\":\"id1\",\"link\":\"l1\",\"ok\":true"));
    let again = page(magic_verify_get_at(&mut store, "tok", 1, "id2".into(), "l2".into()));
    assert!(again.contains("\"error\":\"invalid or expired sign-in link\""));
}

#[test]
fn lookups_have_an_input() {
    assert_eq!(discovery_input("  example.org\n").unwrap(), "example.org");
    assert_eq!(discovery_input(" \t ").unwrap_err().message(), "input is required");
}

#[test]
fn proven_and_authorized_mailboxes_can_be_watched() {
    let mut store = Store::new();
    let done = auth_at(&mut store, None, "u@x", "imap.x", 993, "enc", 10, "id1".into(), "l1".into());
    let mut r = request("w1", "u@x", "INBOX");
    r.password = String::new();
    let w = create_watch(&mut store, &account(&done.account_id), &r, "", 9).unwrap();
    assert_eq!((w.account_id.as_str(), w.auth_kind.as_str()), ("id1", "password"));

    let mut store = Store::new();
    let done = finish_oauth_at(&mut store, &session(None), "enc".into(), 5, "id2".into(), "l2".into());
    let w = create_watch(&mut store, &account(&done.account_id), &r, "", 9).unwrap();
    assert_eq!((w.account_id.as_str(), w.auth_kind.as_str()), ("id2", "oauth"));
}

// --- buying ---

#[test]
fn packs_hold_five_credits() {
    assert_eq!(pack_credits(3).unwrap(), 15);
    assert_eq!(pack_credits(0).unwrap_err().message(), "must buy at least one pack");
    assert_eq!(pack_credits(MAX_PACKS).unwrap(), 9_223_372_036_854_775_805);
    assert_eq!(pack_credits(MAX_PACKS + 1).unwrap_err().message(), "too many packs");
    assert_eq!(
        checkout_refused(&BillingError::NoPrice).message(),
        "could not start checkout: no Stripe price configured for 'pack'"
    );
}

#[test]
fn a_purchase_is_credited_once() {
    let mut store = Store::new();
    let bought =
        record_purchase(&mut store, &Billing::Stub, "sess".into(), "acc", 2, "https://pay".into()).unwrap();
    assert_eq!((bought.provider, bought.packs, bought.credits), ("stub", 2, 10));
    assert!(record_purchase(&mut store, &Billing::Stub, "sess".into(), "acc", 1, "u".into()).is_err());

    let body = br#"{"session_id":"sess"}"#;
    let hook = |store: &mut Store| billing_webhook_at(store, &Billing::Stub, None, body, 0).unwrap();
    assert!(matches!(
        hook(&mut store),
        Applied::Credited { account_id, quantity: 10 } if account_id == "acc"
    ));
    assert!(matches!(hook(&mut store), Applied::AlreadyDone));
    assert_eq!(store.get_account("acc").unwrap().credits, 10);
    assert!(matches!(apply_webhook(&mut store, WebhookOutcome::Ignore), Applied::Ignored));
    assert_eq!(
        billing_webhook_at(&mut store, &Billing::Stub, None, b"x", 0).unwrap_err().message(),
        "webhook rejected: invalid webhook body"
    );
}
