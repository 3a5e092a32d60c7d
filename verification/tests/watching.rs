use carillon_backend::carddav::pump::{Poll, PollNext, SyncDelta};
use carillon_backend::carddav::session::{
    probe as book_probe, resource_id, CardDavAccount, CardDavAuth, CardDavStage, SyncPollError,
    TokenEntry,
};
use carillon_backend::event::ChangeKind;
use carillon_backend::imap::pump::{
    idle_step, on_read, IdleEvent, IdleOutcome, IdleStep, NewMail, PumpError, ReadEvent, ReadStep,
    UidRange,
};
use carillon_backend::imap::session::{is_mailbox, list_mailboxes, mailbox_role, ListedMailbox};
use carillon_backend::live::{LiveEvent, WatchState};
use carillon_backend::oauth::Tokens;
use carillon_backend::rows::{OauthCredential, Watch};
use carillon_backend::store::Store;
use carillon_backend::supervisor::{
    access_credential, credential_for, fingerprint, jitter, on_command, plan_refresh, rotated_token,
    sleep_step, source_for, stopped_event, CardDavLoop, CredentialSource, LoopEvent, LoopNext,
    SourcePlan, SpawnError, StatusNote, Supervisor, SupervisorCmd, SupervisorStep, WatchLoop,
};

fn watch(id: &str) -> Watch {
    Watch {
        id: id.into(),
        imap_host: "imap.x".into(),
        imap_port: 993,
        login: "u@x".into(),
        enc_password: "enc".into(),
        mailbox: "INBOX".into(),
        notify_url: "https://x/hook".into(),
        hmac_secret: "s".into(),
        hmac_secret_prev: None,
        hmac_secret_prev_expires: None,
        account_id: "acc".into(),
        provider: "x".into(),
        auth_kind: "password".into(),
        watching_until: None,
        auto_renew: false,
        active: true,
        source_kind: "imap".into(),
        carddav_url: None,
        carddav_sync_token: None,
        carddav_poll_secs: None,
    }
}

// --- the supervisor ---

fn ids(ws: &[Watch]) -> Vec<&str> {
    ws.iter().map(|w| w.id.as_str()).collect()
}

#[test]
fn active_services_are_watched() {
    let mut store = Store::new();
    store.upsert_watch(&watch("a"));
    store.upsert_watch(&watch("b"));
    store.set_active("b", false);
    let mut sup = Supervisor::new(0, false, 1);
    assert_eq!((sup.max_handshakes, sup.carddav_poll_secs), (1, 5));

    let seen = sup.reconcile_at(&store, 100);
    assert_eq!(ids(&seen.starting), vec!["a"]);
    assert!(seen.stopped.is_empty());
    sup.started(&seen.starting[0]);
    assert!(sup.reconcile_at(&store, 100).starting.is_empty());

    store.set_active("a", false);
    let seen = sup.reconcile_at(&store, 100);
    assert_eq!(seen.stopped[0].id, "a");
    assert!(sup.handles.is_empty());
    let told = stopped_event(&seen.stopped[0]);
    assert_eq!(told.account_id, "acc");
    assert!(matches!(told.event, LiveEvent::Status { state: WatchState::Stopped, .. }));
}

#[test]
fn a_changed_connection_is_restarted_and_a_changed_webhook_is_not() {
    let mut store = Store::new();
    store.upsert_watch(&watch("a"));
    let mut sup = Supervisor::new(4, false, 60);
    let seen = sup.reconcile(&store);
    sup.started(&seen.starting[0]);

    let mut other = watch("a");
    other.notify_url = "https://x/other".into();
    other.hmac_secret = "t".into();
    store.upsert_watch(&other);
    assert!(sup.reconcile(&store).stopped.is_empty());

    other.mailbox = "Sent".into();
    store.upsert_watch(&other);
    let seen = sup.reconcile(&store);
    assert_eq!(seen.stopped.len(), 1);
    assert_eq!(ids(&seen.starting), vec!["a"]);
    assert!(fingerprint(&other).fits(&other));
    assert!(!fingerprint(&other).fits(&watch("a")));
}

#[test]
fn a_lapsed_service_is_stopped_where_watching_is_paid_for() {
    let mut store = Store::new();
    store.upsert_watch(&watch("a"));
    store.set_watch_watching_until("a", 200);
    let mut sup = Supervisor::new(4, true, 60);
    let seen = sup.reconcile_at(&store, 199);
    sup.started(&seen.starting[0]);
    let seen = sup.reconcile_at(&store, 200);
    assert_eq!(seen.stopped.len(), 1);
    assert!(seen.starting.is_empty());
    sup.started(&watch("a"));
    assert_eq!(sup.stop_all().len(), 1);
    assert!(sup.handles.is_empty());
}

#[test]
fn commands_reconcile_or_stop() {
    assert_eq!(on_command(Some(SupervisorCmd::Reconcile)), SupervisorStep::Reconcile);
    assert_eq!(on_command(Some(SupervisorCmd::Shutdown)), SupervisorStep::StopAll);
    assert_eq!(on_command(None), SupervisorStep::StopAll);
}

#[test]
fn credentials_come_from_the_service_or_its_account() {
    let mut store = Store::new();
    let mut w = watch("a");
    assert!(matches!(
        credential_for(&store, &w).unwrap(),
        CredentialSource::Password(p) if p == "enc"
    ));
    w.enc_password = String::new();
    assert_eq!(credential_for(&store, &w).unwrap_err(), SpawnError::NoPassword);
    assert_eq!(SpawnError::NoPassword.message(), "no password credential for the PIM account");
    store.upsert_password_credential("acc", "u@x", "stored");
    assert!(matches!(
        credential_for(&store, &w).unwrap(),
        CredentialSource::Password(p) if p == "stored"
    ));
    w.auth_kind = "oauth".into();
    assert!(matches!(credential_for(&store, &w).unwrap(), CredentialSource::Oauth));
}

#[test]
fn sources_are_mailboxes_or_address_books() {
    let mut w = watch("a");
    assert!(matches!(
        source_for(&w, 60).unwrap(),
        SourcePlan::Imap(a) if a.host == "imap.x" && a.mailbox == "INBOX"
    ));
    w.source_kind = "carddav".into();
    assert_eq!(source_for(&w, 60).unwrap_err().message(), "carddav watch has no collection URL");
    w.carddav_url = Some("https://dav.x/b/".into());
    assert!(matches!(source_for(&w, 60).unwrap(), SourcePlan::Carddav { poll_secs: 60, .. }));
    w.carddav_poll_secs = Some(-3);
    assert!(matches!(source_for(&w, 60).unwrap(), SourcePlan::Carddav { poll_secs: 5, .. }));
    w.carddav_poll_secs = Some(30);
    assert!(matches!(source_for(&w, 60).unwrap(), SourcePlan::Carddav { poll_secs: 30, .. }));
}

fn states(notes: &[StatusNote]) -> Vec<(&'static str, Option<&str>)> {
    notes.iter().map(|n| (n.state.as_str(), n.detail.as_deref())).collect()
}

#[test]
fn failures_back_off_and_lasting_connections_start_over() {
    let mut w = WatchLoop::new();
    let mut bases = Vec::new();
    for _ in 0..10 {
        let base = w.backoff_ms;
        let step = w.on_event(LoopEvent::ConnectFailed("no route".into()), false, 10);
        assert_eq!(
            states(&step.notes),
            vec![("error", Some("no route")), ("reconnecting", None)]
        );
        match step.next {
            LoopNext::Wait(ms) => assert!(base <= ms && ms <= base + base / 2),
            LoopNext::Exit => panic!("expected a wait"),
        }
        bases.push(base);
    }
    assert_eq!(
        bases,
        vec![2000, 4000, 8000, 16000, 32000, 64000, 128000, 256000, 300000, 300000]
    );
    let step = w.on_event(LoopEvent::SessionOver, false, 60_000);
    assert_eq!(states(&step.notes), vec![("reconnecting", None)]);
    assert!(matches!(step.next, LoopNext::Wait(ms) if ms <= 3000));
    assert_eq!(w.backoff_ms, 4000);
    let step = w.on_event(LoopEvent::OauthFailed("denied".into()), false, 90_000);
    assert_eq!(states(&step.notes)[0], ("error", Some("oauth: denied")));
    assert_eq!(w.backoff_ms, 8000);
}

#[test]
fn watchers_end_when_told_or_when_they_cannot_watch() {
    let mut w = WatchLoop::new();
    assert_eq!(w.on_event(LoopEvent::ConnectTimedOut, true, 0).next, LoopNext::Exit);
    let step = w.on_event(LoopEvent::InvalidMailbox, false, 0);
    assert_eq!(states(&step.notes), vec![("error", Some("invalid mailbox name"))]);
    assert_eq!(step.next, LoopNext::Exit);
    let step = w.on_event(LoopEvent::CannotWatch("no".into()), false, 0);
    assert_eq!(step.next, LoopNext::Exit);
    assert_eq!(w.backoff_ms, 2000);
    assert_eq!(WatchLoop::connected().state, WatchState::Watching);
}

#[test]
fn pollers_announce_themselves_and_keep_checkpoints() {
    let mut p = CardDavLoop::new(None);
    let step = p.on_polled(Some("t1".into()));
    assert_eq!(states(&step.notes), vec![("watching", None)]);
    assert_eq!(step.checkpoint, Some(Some("t1".to_string())));
    let step = p.on_polled(Some("t1".into()));
    assert!(step.notes.is_empty());
    assert_eq!(step.checkpoint, None);
    let step = p.on_failed("gone".into(), false, false);
    assert_eq!(states(&step.notes), vec![("error", Some("gone")), ("reconnecting", None)]);
    assert_eq!(p.backoff_ms, 4000);
    let step = p.on_failed("denied".into(), true, true);
    assert_eq!(states(&step.notes), vec![("error", Some("oauth: denied"))]);
    assert_eq!(step.next, LoopNext::Exit);
    let step = p.on_polled(None);
    assert_eq!(states(&step.notes), vec![("watching", None)]);
    assert_eq!(step.checkpoint, Some(None));
    assert_eq!(p.backoff_ms, 2000);
}

#[test]
fn long_waits_are_taken_in_pieces() {
    assert_eq!(sleep_step(2_500, false), Some((1_000, 1_500)));
    assert_eq!(sleep_step(500, false), Some((500, 0)));
    assert_eq!(sleep_step(0, false), None);
    assert_eq!(sleep_step(500, true), None);
    for base in [0, 1, 3, 2000] {
        assert!(jitter(base) <= std::cmp::max(base / 2, 1));
    }
}

#[test]
fn access_tokens_come_from_the_identity() {
    let mut store = Store::new();
    assert_eq!(
        access_credential(&store, "acc", "u@x", "imap.x").unwrap_err().message(),
        "no OAuth credential for this mailbox"
    );
    let mut cred = OauthCredential {
        account_id: "acc".into(),
        mailbox_key: "u@x".into(),
        enc_refresh_token: "enc".into(),
        token_endpoint: "https://auth.x/token".into(),
        client_id: "client".into(),
        enc_client_secret: None,
        resource: None,
        scope: None,
    };
    store.upsert_oauth_credential(&cred);
    let found = access_credential(&store, "acc", "U+tag@X", "dav.x").unwrap();
    let plan = plan_refresh(&found, "refresh", Some("secret".into())).unwrap();
    assert_eq!(plan.token_endpoint, "https://auth.x/token");
    assert_eq!(plan.refresh.client_id, "client");
    assert_eq!(plan.refresh.client_secret.as_deref(), Some("secret"));
    assert_eq!(plan.refresh.refresh_token, "refresh");
    cred.token_endpoint = "nowhere".into();
    assert_eq!(
        plan_refresh(&cred, "refresh", None).unwrap_err().message(),
        "stored token endpoint is not a valid URL"
    );
    let tokens = |refresh: Option<&str>| Tokens {
        access_token: "a".into(),
        refresh_token: refresh.map(|s| s.to_string()),
        expires_in: None,
        scope: None,
    };
    assert_eq!(rotated_token(&tokens(Some("new")), "old").as_deref(), Some("new"));
    assert_eq!(rotated_token(&tokens(Some("old")), "old"), None);
    assert_eq!(rotated_token(&tokens(None), "old"), None);
}

// --- mailboxes ---

#[test]
fn reads_feed_refresh_or_fail() {
    assert_eq!(on_read(ReadEvent::Read(7)), ReadStep::Feed(7));
    assert_eq!(on_read(ReadEvent::Read(0)), ReadStep::Fail(PumpError::Closed));
    assert_eq!(on_read(ReadEvent::Failed), ReadStep::Fail(PumpError::ReadFailed));
    assert_eq!(on_read(ReadEvent::Elapsed), ReadStep::Refresh);
    assert_eq!(PumpError::Closed.message(), "connection closed by peer");
    assert_eq!(PumpError::ChannelClosed.message(), "delivery channel closed");
}

#[test]
fn waits_end_with_news_a_refresh_or_a_stop() {
    assert_eq!(idle_step(IdleEvent::Start, false), IdleStep::Continue);
    assert_eq!(idle_step(IdleEvent::Start, true), IdleStep::Done(IdleOutcome::Shutdown));
    assert_eq!(idle_step(IdleEvent::Data, false), IdleStep::Drain);
    assert_eq!(idle_step(IdleEvent::Data, true), IdleStep::Continue);
    assert_eq!(idle_step(IdleEvent::Drained, false), IdleStep::Done(IdleOutcome::Data));
    assert_eq!(idle_step(IdleEvent::Complete, false), IdleStep::Done(IdleOutcome::Refresh));
    assert_eq!(idle_step(IdleEvent::Complete, true), IdleStep::Done(IdleOutcome::Shutdown));
}

#[test]
fn new_mail_is_told_by_uid_and_once() {
    assert_eq!(NewMail::start(None).unwrap_err(), PumpError::NoUidNext);
    let mut mail = NewMail::start(Some(10)).unwrap();
    assert_eq!(mail.on_examine(None), None);
    assert_eq!(mail.on_examine(Some(10)), None);
    assert_eq!(mail.on_examine(Some(9)), None);
    let range = mail.on_examine(Some(13)).unwrap();
    assert_eq!(range, UidRange { first: 10, last: 12 });
    assert_eq!(range.to_text(), "10:12");
    let events = mail.on_fetch("w", 13, &vec![12, 9, 10]);
    let seen: Vec<u32> = events.iter().map(|e| e.uid).collect();
    assert_eq!(seen, vec![10, 12]);
    assert!(events.iter().all(|e| e.account == "w" && e.event == ChangeKind::New));
    assert_eq!(mail.next_uid, 13);
    assert!(mail.on_fetch("w", 14, &vec![10, 11, 12]).is_empty());
}

fn listed(name: &str, attributes: &[&str]) -> ListedMailbox {
    ListedMailbox {
        inbox: name == "INBOX",
        name: name.as_bytes().to_vec(),
        noselect: attributes.contains(&"\\Noselect"),
        attributes: attributes.iter().map(|s| s.to_string()).collect(),
    }
}

#[test]
fn mailboxes_are_listed_inbox_first() {
    let rows = vec![
        listed("work", &[]),
        listed("Archive", &["\\HasNoChildren", "\\Archive"]),
        listed("[Gmail]", &["\\Noselect"]),
        listed("INBOX", &["\\Sent"]),
        listed("work", &[]),
        listed("apple", &[]),
    ];
    let seen: Vec<(String, Option<&str>)> =
        list_mailboxes(&rows).into_iter().map(|e| (e.name, e.role)).collect();
    assert_eq!(
        seen,
        vec![
            ("INBOX".to_string(), Some("inbox")),
            ("apple".to_string(), None),
            ("Archive".to_string(), Some("archive")),
            ("work".to_string(), None),
        ]
    );

    let rows = vec![listed("A", &[]), listed("a", &[]), listed("A", &["\\Sent"])];
    let seen: Vec<(String, Option<&str>)> =
        list_mailboxes(&rows).into_iter().map(|e| (e.name, e.role)).collect();
    assert_eq!(seen, vec![("A".to_string(), None), ("a".to_string(), None)]);
}

#[test]
fn roles_and_names_of_mailboxes() {
    let role = |a: &[&str]| mailbox_role(false, &a.iter().map(|s| s.to_string()).collect());
    assert_eq!(role(&["\\Marked", "\\SENT", "\\Drafts"]), Some("sent"));
    for name in ["drafts", "junk", "trash", "all", "flagged"] {
        let attribute = format!("\\{name}");
        assert_eq!(role(&[attribute.as_str()]), Some(name));
    }
    assert_eq!(role(&["\\Important"]), None);
    assert!(is_mailbox("INBOX") && is_mailbox("Entw\u{fc}rfe") && is_mailbox(""));
    assert!(!is_mailbox("a\0b"));
    let mut odd = listed("x", &[]);
    odd.name = vec![b'a', 0xff, b'b'];
    assert_eq!(list_mailboxes(&vec![odd])[0].name, "a\u{fffd}b");
}

// --- address books ---

fn book(url: &str) -> CardDavAccount {
    CardDavAccount {
        url: url.into(),
        login: "u".into(),
        auth: CardDavAuth::Password("p".into()),
    }
}

#[test]
fn address_books_are_reached_over_https() {
    let parts = book("https://dav.x:8443/books/u/").parts().unwrap();
    assert_eq!((parts.host.as_str(), parts.port), ("dav.x", 8443));
    assert_eq!(parts.base_url, "https://dav.x:8443/");
    assert_eq!(parts.path, "/books/u/");
    assert_eq!(book("https://dav.x/").parts().unwrap().port, 443);
    assert_eq!(book("nowhere").parts().unwrap_err().message(), "invalid CardDAV URL: nowhere");
    assert_eq!(
        book("http://dav.x/").parts().unwrap_err().message(),
        "CardDAV URL must be https:// (got http://)"
    );
}

#[test]
fn members_go_by_their_last_piece() {
    assert_eq!(resource_id("/books/u/card.vcf"), "card.vcf");
    assert_eq!(resource_id("/books/u//"), "u");
    assert_eq!(resource_id("card.vcf"), "card.vcf");
    assert_eq!(resource_id("/"), "");
}

#[test]
fn address_book_probes_report_their_stage() {
    let found = |stage: CardDavStage| {
        let p = book_probe(stage);
        (p.reachable, p.authenticated, p.sync, p.watchable(), p.error)
    };
    let error = |text: &str| Some(text.to_string());
    assert_eq!(
        found(CardDavStage::BadUrl("bad".into())),
        (false, false, false, false, error("bad"))
    );
    assert_eq!(
        found(CardDavStage::Unreachable("down".into())),
        (false, false, false, false, error("down"))
    );
    let entry = |sync_token: bool, ctag: bool| TokenEntry { sync_token, ctag };
    assert_eq!(
        found(CardDavStage::Answered(vec![entry(false, false), entry(false, true)])),
        (true, true, true, true, None)
    );
    assert_eq!(
        found(CardDavStage::Answered(vec![entry(false, false)])),
        (true, true, false, false, error("collection reports no sync-token"))
    );
    assert_eq!(
        found(CardDavStage::Status { status: 403, text: "no".into() }),
        (true, false, false, false, error("authentication failed"))
    );
    assert_eq!(
        found(CardDavStage::Status { status: 404, text: "gone".into() }),
        (true, true, false, false, error("gone"))
    );
    assert_eq!(
        found(CardDavStage::Unusable("odd".into())),
        (true, true, false, false, error("odd"))
    );
    assert_eq!(
        found(CardDavStage::Lost("cut".into())),
        (true, false, false, false, error("cut"))
    );
}

fn delta(changed: &[&str], vanished: &[&str], token: Option<&str>, truncated: bool) -> SyncDelta {
    SyncDelta {
        changed: changed.iter().map(|s| s.to_string()).collect(),
        vanished: vanished.iter().map(|s| s.to_string()).collect(),
        sync_token: token.map(|s| s.to_string()),
        truncated,
    }
}

#[test]
fn a_first_poll_tells_nothing_and_goes_on_to_the_end() {
    let mut poll = Poll::start(None);
    let step = poll.on_delta("w", Ok(delta(&["/a", "/b"], &[], Some("t1"), true)));
    assert!(step.events.is_empty());
    assert!(matches!(step.next, PollNext::Again));
    assert_eq!(poll.cursor.as_deref(), Some("t1"));
    let step = poll.on_delta("w", Ok(delta(&["/c"], &[], Some("t1"), true)));
    assert!(step.events.is_empty());
    assert!(matches!(step.next, PollNext::Done(Some(t)) if t == "t1"));
}

#[test]
fn later_polls_tell_what_changed() {
    let mut poll = Poll::start(Some("t0".into()));
    let step = poll.on_delta("w", Ok(delta(&["/x/a.vcf"], &["/x/b.vcf"], None, false)));
    let seen: Vec<(&str, Option<&str>)> =
        step.events.iter().map(|e| (e.event.as_str(), e.resource.as_deref())).collect();
    assert_eq!(seen, vec![("changed", Some("a.vcf")), ("removed", Some("b.vcf"))]);
    assert!(matches!(step.next, PollNext::Done(Some(t)) if t == "t0"));
    let step = poll.on_delta("w", Err(SyncPollError::InvalidToken));
    assert!(matches!(step.next, PollNext::Done(None)));
    let step = poll.on_delta("w", Err(SyncPollError::Other("down".into())));
    assert!(matches!(step.next, PollNext::Failed(e) if e == "down"));
}
