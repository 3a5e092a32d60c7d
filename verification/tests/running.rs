use carillon_backend::billing::Billing;
use carillon_backend::config::{
    ApiConfig, BillingConfig, Config, EmailConfig, ImportAccount, OauthClientConfig, OauthConfig,
    PasswordConfig, ResendConfig, ServerConfig, StripeConfig,
};
use carillon_backend::delivery::{
    delivery_event, notice_request, prepare_delivery, record_delivery, test_outcome, test_request, Next, Progress,
    Reply,
};
use carillon_backend::email::{sent, Mailer, Sending};
use carillon_backend::event::{ChangeEvent, ChangeKind, MailboxChange};
use carillon_backend::live::{LiveEvent, NoticeKind, Routed, WatchState};
use carillon_backend::migration::{migrate, Column};
use carillon_backend::rows::Watch;
use carillon_backend::serve::{import_account, parse_args, settings, Command};
use carillon_backend::signature::verify_at;
use carillon_backend::store::Store;
use carillon_backend::sweep::{sweep, SweepMarks, SweepRules};

fn watch(id: &str, account: &str) -> Watch {
    Watch {
        id: id.into(),
        imap_host: "imap.x".into(),
        imap_port: 993,
        login: "u@x".into(),
        enc_password: String::new(),
        mailbox: "INBOX".into(),
        notify_url: "https://x/hook".into(),
        hmac_secret: "s".into(),
        hmac_secret_prev: None,
        hmac_secret_prev_expires: None,
        account_id: account.into(),
        provider: "x".into(),
        auth_kind: "password".into(),
        watching_until: None,
        auto_renew: false,
        active: true,
        source_kind: "imap".into(),
        carddav_url: None,
        carddav_sync_token: None,
        carddav_poll_secs: None,
    }
}

// --- events and deliveries ---

#[test]
fn events_tell_that_something_changed_and_no_more() {
    let e = ChangeEvent::stamped("id".into(), 5, "w", ChangeKind::New, 7, None);
    assert_eq!(e.payload(), r#"{"id":"id","ts":5,"account":"w","event":"new","uid":7}"#);
    let e = ChangeEvent::stamped("id".into(), 5, "w", ChangeKind::Changed, 0, Some("c.vcf".into()));
    assert_eq!(
        e.payload(),
        r#"{"id":"id","ts":5,"account":"w","event":"changed","resource":"c.vcf"}"#
    );
    let e = ChangeEvent::from_watch("w", &MailboxChange::FlagsRemoved { uid: 3 });
    assert_eq!((e.event.as_str(), e.uid, e.id.len()), ("flags_removed", 3, 32));
    assert!(ChangeEvent::new_mail("w", 1).id != ChangeEvent::new_mail("w", 1).id);
}

#[test]
fn a_delivery_is_signed_and_verifies() {
    let mut store = Store::new();
    store.upsert_watch(&watch("w", "acc"));
    let e = ChangeEvent::stamped("id".into(), 500, "w", ChangeKind::New, 7, None);
    let (w, out) = prepare_delivery(&store, &e, 500).unwrap();
    assert_eq!((w.id.as_str(), out.url.as_str()), ("w", "https://x/hook"));
    let header = |name: &str| {
        out.headers.iter().find(|h| h.0 == name).map(|h| h.1.clone()).unwrap()
    };
    assert_eq!(header("x-carillon-event"), "new");
    assert_eq!(header("x-carillon-account"), "w");
    assert_eq!(header("x-carillon-id"), "id");
    assert!(verify_at("s", &header("x-carillon-signature"), out.body.as_bytes(), 500).valid);
    let gone = ChangeEvent::stamped("id".into(), 500, "gone", ChangeKind::New, 7, None);
    assert!(prepare_delivery(&store, &gone, 500).is_none());

    let notice = notice_request(&watch("w", "acc"), "low_pool", 9);
    assert_eq!(notice.body, r#"{"account":"w","notice":"low_pool","ts":9,"type":"notice"}"#);
    let test = test_request("https://y", "k", 9);
    assert_eq!(test.body, r#"{"event":"test","ts":9,"type":"test","uid":0}"#);
    assert!(verify_at("k", &test.headers[2].1, test.body.as_bytes(), 9).valid);
}

#[test]
fn deliveries_are_tried_three_times() {
    let failed = |why: &str| Reply::Failed(why.into());
    let status = |code: u16, text: &str| Reply::Status { code, text: text.into() };
    let mut p = Progress::new();
    assert_eq!(p.on_reply(failed("down")), Next::Retry { wait_ms: 500 });
    assert_eq!(p.on_reply(status(503, "503 Service Unavailable")), Next::Retry { wait_ms: 1000 });
    assert_eq!(p.on_reply(failed("down")), Next::Done);
    assert!(!p.ok && p.attempts == 3 && p.last_status == Some(503));

    let mut p = Progress::new();
    assert_eq!(p.on_reply(status(404, "404 Not Found")), Next::Done);
    assert_eq!(p.last_error.as_deref(), Some("HTTP 404 Not Found"));
    let mut p = Progress::new();
    assert_eq!(p.on_reply(status(204, "204 No Content")), Next::Done);
    assert!(p.ok);

    let mut store = Store::new();
    let e = ChangeEvent::stamped("id".into(), 5, "w", ChangeKind::New, 7, None);
    let told = delivery_event(&watch("w", "acc"), &e, &p, 50);
    record_delivery(&mut store, &e, &p, 50);
    assert_eq!(told.account_id, "acc");
    assert_eq!(
        told.event.payload(),
        r#"{"type":"delivery","account":"w","event":"new","uid":7,"ok":true,"status":204,"attempts":1,"at":50}"#
    );
    assert_eq!(store.recent_deliveries(Some("w"), 5)[0].attempts, 1);

    let mut p = Progress::new();
    assert_eq!(p.on_reply(failed("down")), Next::Retry { wait_ms: 500 });
    let mut store = Store::new();
    record_delivery(&mut store, &e, &p, 50);
    let row = &store.recent_deliveries(Some("w"), 1)[0];
    assert_eq!((row.ok, row.error.as_deref()), (false, Some("down")));

    let t = test_outcome(status(500, "500 Oops"));
    assert_eq!(t.error.as_deref(), Some("endpoint returned HTTP 500 Oops"));
    assert!(test_outcome(status(200, "200 OK")).ok);
    assert_eq!(test_outcome(failed("down")).status, None);
}

#[test]
fn an_acknowledged_delivery_has_no_error() {
    let mut store = Store::new();
    store.upsert_watch(&watch("w1", "acc"));
    let e = ChangeEvent::new_mail("w1", 7);
    let mut p = Progress::new();
    let busy = Reply::Status { code: 503, text: "503 Service Unavailable".into() };
    assert_eq!(p.on_reply(busy), Next::Retry { wait_ms: 500 });
    assert_eq!(p.on_reply(Reply::Status { code: 200, text: "200 OK".into() }), Next::Done);
    record_delivery(&mut store, &e, &p, 50);
    let row = &store.recent_deliveries(Some("w1"), 1)[0];
    assert_eq!((row.event.as_str(), row.uid, row.ok), ("new", 7, true));
    assert_eq!((row.status, row.attempts, row.error.as_deref()), (Some(200), 2, None));
}

#[test]
fn live_events_reach_their_account() {
    let e = LiveEvent::status_at("w", WatchState::Error, Some("why".into()), 3);
    assert_eq!(
        e.payload(),
        r#"{"type":"status","account":"w","state":"error","detail":"why","at":3}"#
    );
    let routed = Routed::new("acc", LiveEvent::notice_at("w", NoticeKind::LowPool, None, 3));
    assert!(routed.visible(&None));
    assert!(routed.visible(&Some("acc".into())));
    assert!(!routed.visible(&Some("other".into())));
    assert_eq!(routed.event.name(), "notice");
}

// --- the sweep ---

#[test]
fn lapsed_services_renew_while_the_pool_lasts() {
    let mut store = Store::new();
    store.ensure_account("acc", Some("me@x.test"));
    store.add_credits("acc", 1);
    for id in ["first", "second"] {
        store.upsert_watch(&watch(id, "acc"));
        store.set_watch_watching_until(id, 1_000);
        store.set_watch_auto_renew(id, true);
    }
    let rules = SweepRules { now: 1_000, month: 100, warn_before: 10, low_pool: 0 };
    let mut marks = SweepMarks::new();
    let report = sweep(&mut store, &mut marks, rules);
    assert_eq!(store.get_watch("first").unwrap().watching_until, Some(1_100));
    assert_eq!(store.get_watch("second").unwrap().watching_until, Some(1_000));
    assert_eq!(store.get_account("acc").unwrap().credits, 0);
    assert!(report.reconcile);
    let kinds: Vec<(&str, NoticeKind)> =
        report.notices.iter().map(|n| (n.about.as_str(), n.kind)).collect();
    assert_eq!(kinds, vec![("second", NoticeKind::WatchStopped)]);

    let report = sweep(&mut store, &mut marks, rules);
    assert!(report.notices.is_empty());

    store.add_credits("acc", 2);
    let rules = SweepRules { now: 1_001, month: 100, warn_before: 10, low_pool: 1 };
    let report = sweep(&mut store, &mut marks, rules);
    let kinds: Vec<(&str, NoticeKind)> =
        report.notices.iter().map(|n| (n.about.as_str(), n.kind)).collect();
    assert_eq!(kinds, vec![("acc", NoticeKind::LowPool)]);
    assert_eq!(store.get_watch("second").unwrap().watching_until, Some(1_101));
    assert!(sweep(&mut store, &mut marks, rules).notices.is_empty());
}

#[test]
fn services_are_warned_before_their_month_ends() {
    let mut store = Store::new();
    store.add_credits("acc", 9);
    store.upsert_watch(&watch("w", "acc"));
    store.set_watch_watching_until("w", 1_000);
    let mut marks = SweepMarks::new();
    let rules = |now: i64| SweepRules { now, month: 100, warn_before: 10, low_pool: 1 };
    assert!(sweep(&mut store, &mut marks, rules(980)).notices.is_empty());
    let report = sweep(&mut store, &mut marks, rules(995));
    assert_eq!(report.notices[0].kind, NoticeKind::WatchEnding);
    assert!(sweep(&mut store, &mut marks, rules(996)).notices.is_empty());
}

// --- mail ---

#[test]
fn mail_is_logged_or_posted() {
    let stub = Mailer::new(&EmailConfig { resend: None });
    match stub.send_magic_link("me@x", "https://l") {
        Sending::Log { to, subject, text } => {
            assert_eq!((to.as_str(), subject.as_str()), ("me@x", "Sign in to Carillon"));
            assert_eq!(
                text,
                "Sign in to Carillon by opening this link (valid briefly, single use):\n\nhttps://l\n\nIf you did not request this, ignore this email."
            );
        }
        _ => panic!("expected a log"),
    }
    let resend = Mailer::new(&EmailConfig {
        resend: Some(ResendConfig {
            api_key: "key".into(),
            api_key_file: None,
            from: "Carillon <c@x>".into(),
        }),
    });
    match resend.send_notice("me@x", "Low", "Buy \"more\"") {
        Sending::Post { url, api_key, body } => {
            assert_eq!((url.as_str(), api_key.as_str()), ("https://api.resend.com/emails", "key"));
            assert_eq!(
                body,
                r#"{"from":"Carillon <c@x>","subject":"Low","text":"Buy \"more\"","to":["me@x"]}"#
            );
        }
        _ => panic!("expected a post"),
    }
    match resend.send_magic_link("me@x", "https://l") {
        Sending::Post { body, .. } => {
            assert!(body.contains(r#""html":"<p>Sign in to Carillon:</p><p><a href=\"https://l\">"#));
        }
        _ => panic!("expected a post"),
    }
    assert!(sent(true, "200 OK", "").is_ok());
    assert_eq!(
        sent(false, "422 Unprocessable Entity", "bad"),
        Err("Resend error (422 Unprocessable Entity): bad".to_string())
    );
}

// --- starting up ---

#[test]
fn arguments_ask_for_a_command() {
    let parse = |args: &[&str]| parse_args(&args.iter().map(|s| s.to_string()).collect());
    assert!(matches!(parse(&["x"]).unwrap(), Command::Serve { config: None }));
    assert!(matches!(
        parse(&["x", "my.toml"]).unwrap(),
        Command::Serve { config: Some(c) } if c == "my.toml"
    ));
    assert!(matches!(
        parse(&["x", "serve", "c"]).unwrap(),
        Command::Serve { config: Some(c) } if c == "c"
    ));
    assert!(matches!(
        parse(&["x", "import", "a", "c"]).unwrap(),
        Command::Import { accounts, config: Some(_) } if accounts == "a"
    ));
    assert_eq!(
        parse(&["x", "import"]).unwrap_err().message(),
        "usage: carillon-backend import <accounts.toml> [config]"
    );
    assert_eq!(parse(&["x", "--help"]).unwrap_err().message(), "unknown flag: --help");
}

#[test]
fn configurations_come_down_to_settings() {
    let mut config = Config {
        server: ServerConfig::default(),
        api: ApiConfig::default(),
        oauth: OauthConfig {
            google: Some(OauthClientConfig {
                client_id: "g".into(),
                client_secret: Some("s".into()),
                client_secret_file: None,
            }),
            microsoft: None,
        },
        billing: BillingConfig { stripe: None },
        email: EmailConfig { resend: None },
    };
    config.server.reconcile_interval_secs = 1;
    config.server.max_watches_per_account = 0;
    let s = settings(&config);
    assert!(!s.metered && matches!(s.billing, Billing::Stub) && matches!(s.mailer, Mailer::Stub));
    assert_eq!((s.reconcile_interval_secs, s.max_watches), (5, 1));
    assert_eq!(s.public_url, "http://127.0.0.1:3000");
    assert_eq!(s.dashboard_url, s.public_url);
    assert_eq!(s.dashboard_origin, "http://127.0.0.1:3000");
    assert_eq!(s.oauth_clients.google, Some(("g".to_string(), Some("s".to_string()))));

    config.api.dashboard_url = Some("https://dash.x/app".into());
    config.billing.stripe = Some(StripeConfig {
        secret_key: "sk".into(),
        secret_key_file: None,
        webhook_secret: "wh".into(),
        webhook_secret_file: None,
        success_url: None,
        cancel_url: None,
        prices: Vec::new(),
    });
    let s = settings(&config);
    assert!(s.metered);
    assert_eq!(s.dashboard_origin, "https://dash.x");
    match s.billing {
        Billing::Stripe(b) => assert_eq!(b.success_url, "https://dash.x/app/?checkout=success"),
        Billing::Stub => panic!("expected a provider"),
    }
    config.api.dashboard_url = Some("nowhere".into());
    assert_eq!(settings(&config).dashboard_origin, "*");
    config.api.dashboard_url = Some("blob:https://dash.x/app".into());
    assert_eq!(settings(&config).dashboard_origin, "https://dash.x");
}

#[test]
fn imported_services_pay_for_themselves() {
    let entry = |notify_url: &str| ImportAccount {
        imap_host: "imap.fastmail.com".into(),
        imap_port: 993,
        login: "u@x".into(),
        password: PasswordConfig { raw: Some("pw".into()), command: None },
        mailbox: "INBOX".into(),
        notify_url: notify_url.into(),
        hmac_secret: "s".into(),
        active: false,
    };
    let mut store = Store::new();
    assert_eq!(
        import_account(&mut store, "w", &entry("http://x/"), "enc"),
        Err("Invalid notify_url for account w".to_string())
    );
    assert!(store.watches.is_empty());
    import_account(&mut store, "w", &entry("https://x/"), "enc").unwrap();
    let w = store.get_watch("w").unwrap();
    assert_eq!((w.account_id.as_str(), w.provider.as_str()), ("w", "fastmail.com"));
    assert!(!w.active && w.enc_password == "enc");
    assert_eq!(store.get_account("w").unwrap().credits, 1);
}

#[test]
fn old_tables_are_brought_up_to_date() {
    let all = migrate(&Vec::new());
    assert_eq!(all.len(), 20);
    assert!(all[0].starts_with("CREATE TABLE account_mailbox_new"));
    assert_eq!(all[1], "ALTER TABLE watch ADD COLUMN hmac_secret_prev TEXT");
    assert_eq!(
        all[18],
        "ALTER TABLE oauth_session ADD COLUMN carddav_url TEXT"
    );
    assert_eq!(all[19], "UPDATE watch SET account_id = id WHERE account_id = ''");
    let mut columns = vec![Column { table: "account_mailbox".into(), name: "protocol".into() }];
    for statement in &all[1..19] {
        let parts: Vec<&str> = statement.split(' ').collect();
        columns.push(Column { table: parts[2].into(), name: parts[5].into() });
    }
    assert_eq!(migrate(&columns), vec!["UPDATE watch SET account_id = id WHERE account_id = ''"]);
}
