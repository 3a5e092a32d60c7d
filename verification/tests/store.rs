use carillon_backend::rows::{OauthCredential, OauthSession, Watch};
use carillon_backend::store::{DeliveryOutcome, Store, StoreError};

fn watch(id: &str, account_id: &str) -> Watch {
    Watch {
        id: id.into(),
        imap_host: "imap.x".into(),
        imap_port: 993,
        login: "u@x".into(),
        enc_password: String::new(),
        mailbox: "INBOX".into(),
        notify_url: "https://x/hook".into(),
        hmac_secret: "s".into(),
        hmac_secret_prev: None,
        hmac_secret_prev_expires: None,
        account_id: account_id.into(),
        provider: "x".into(),
        auth_kind: "password".into(),
        watching_until: None,
        auto_renew: false,
        active: true,
        source_kind: "imap".into(),
        carddav_url: None,
        carddav_sync_token: None,
        carddav_poll_secs: None,
    }
}

#[test]
fn free_credit_is_granted_exactly_once() {
    let mut store = Store::new();
    store.ensure_account("acc", Some("a@b.test"));
    assert_eq!(store.get_account("acc").unwrap().credits, 0);

    assert!(store.grant_free_credit("acc", 1));
    assert!(!store.grant_free_credit("acc", 1));
    assert_eq!(store.get_account("acc").unwrap().credits, 1);
}

#[test]
fn free_trial_claimed_once_per_account_provider() {
    let mut store = Store::new();
    store.ensure_account("a", Some("a@x.test"));
    store.ensure_account("b", Some("b@x.test"));

    assert!(store.claim_free_trial("a", "fastmail.com"));
    assert!(!store.claim_free_trial("a", "fastmail.com"));
    assert!(store.claim_free_trial("a", "gmail.com"));
    assert!(store.claim_free_trial("b", "fastmail.com"));
}

#[test]
fn credits_add_and_debit() {
    let mut store = Store::new();
    store.ensure_account("acc", None);
    store.add_credits("acc", 3);
    assert_eq!(store.get_account("acc").unwrap().credits, 3);

    assert!(store.debit_credit("acc"));
    assert!(store.debit_credit("acc"));
    assert!(store.debit_credit("acc"));
    assert!(!store.debit_credit("acc"));
    assert_eq!(store.get_account("acc").unwrap().credits, 0);
}

#[test]
fn service_activation_state_round_trips() {
    let mut store = Store::new();
    store.ensure_account("acc", None);
    store.upsert_watch(&watch("w1", "acc"));

    let w = store.get_watch("w1").unwrap();
    assert_eq!(w.watching_until, None);
    assert!(!w.auto_renew);

    assert!(store.set_watch_watching_until("w1", 5_000));
    assert!(store.set_watch_auto_renew("w1", true));
    let w = store.get_watch("w1").unwrap();
    assert_eq!(w.watching_until, Some(5_000));
    assert!(w.auto_renew);

    assert!(!store.set_watch_watching_until("nope", 1));
}

#[test]
fn upsert_preserves_activation_across_edits() {
    let mut store = Store::new();
    store.ensure_account("acc", None);
    store.upsert_watch(&watch("w1", "acc"));
    store.set_watch_watching_until("w1", 9_000);

    let mut edited = watch("w1", "acc");
    edited.notify_url = "https://x/new".into();
    store.upsert_watch(&edited);

    let w = store.get_watch("w1").unwrap();
    assert_eq!(w.watching_until, Some(9_000));
    assert_eq!(w.notify_url, "https://x/new");
}

#[test]
fn upsert_drops_a_rotation_in_flight() {
    let mut store = Store::new();
    store.upsert_watch(&watch("w1", "acc"));
    assert!(store.rotate_secret_at("w1", &"new".to_string(), 100, 50).is_some());
    let rotating = store.get_watch("w1").unwrap();
    assert_eq!(rotating.signing_secrets(60), vec!["new", "s"]);
    store.upsert_watch(&rotating);
    let w = store.get_watch("w1").unwrap();
    assert_eq!((w.hmac_secret_prev, w.hmac_secret_prev_expires), (None, None));
    assert_eq!(w.hmac_secret, "new");
}

#[test]
fn carddav_service_round_trips_and_checkpoints() {
    let mut store = Store::new();
    store.ensure_account("acc", None);
    let mut w = watch("cd1", "acc");
    w.source_kind = "carddav".into();
    w.carddav_url = Some("https://dav.x/addressbooks/u/Default/".into());
    w.mailbox = "Personal".into();
    store.upsert_watch(&w);

    let got = store.get_watch("cd1").unwrap();
    assert_eq!(got.source_kind, "carddav");
    assert_eq!(got.carddav_url.as_deref(), Some("https://dav.x/addressbooks/u/Default/"));
    assert_eq!(got.carddav_sync_token, None);

    assert!(store.set_carddav_sync_token("cd1", Some("sync-42")));
    let mut edited = w.clone();
    edited.notify_url = "https://x/new".into();
    store.upsert_watch(&edited);
    assert_eq!(
        store.get_watch("cd1").unwrap().carddav_sync_token.as_deref(),
        Some("sync-42")
    );

    assert!(store.set_carddav_sync_token("cd1", None));
    assert_eq!(store.get_watch("cd1").unwrap().carddav_sync_token, None);
}

#[test]
fn pim_accounts_are_per_protocol_and_share_a_credential() {
    let mut store = Store::new();
    store.ensure_account("acc", None);
    store.add_membership("acc", "u@x", "imap", "u@x", "imap.x", 993, None);
    store.add_membership("acc", "u@x", "carddav", "u@x", "dav.x", 443, Some("https://dav.x/"));
    store.upsert_password_credential("acc", "u@x", "enc");

    assert_eq!(store.memberships("acc").len(), 2);
    assert!(store.mailbox_belongs("acc", "u@x", "imap"));
    assert!(store.mailbox_belongs("acc", "u@x", "carddav"));
    assert!(!store.mailbox_belongs("acc", "u@x", "jmap"));

    store.forget_account("acc", "u@x", "carddav");
    assert!(!store.mailbox_belongs("acc", "u@x", "carddav"));
    assert!(store.mailbox_belongs("acc", "u@x", "imap"));
    assert_eq!(store.get_password_credential("acc", "u@x").as_deref(), Some("enc"));

    store.forget_account("acc", "u@x", "imap");
    assert_eq!(store.get_password_credential("acc", "u@x"), None);
}

#[test]
fn active_watches_are_in_declaration_order() {
    let mut store = Store::new();
    store.ensure_account("acc", None);
    store.upsert_watch(&watch("first", "acc"));
    store.upsert_watch(&watch("second", "acc"));
    let ids: Vec<String> = store.active_watches().into_iter().map(|w| w.id).collect();
    assert_eq!(ids, vec!["first".to_string(), "second".to_string()]);
}

#[test]
fn magic_link_is_single_use_and_maps_email() {
    let mut store = Store::new();
    store.create_magic_link("tok", "user@x.test");
    assert_eq!(store.take_magic_link("tok", 900).as_deref(), Some("user@x.test"));
    assert_eq!(store.take_magic_link("tok", 900), None);
}

#[test]
fn account_looked_up_by_email() {
    let mut store = Store::new();
    store.ensure_account("acc", Some("me@x.test"));
    assert_eq!(store.account_by_email("me@x.test").as_deref(), Some("acc"));
    assert_eq!(store.account_by_email("nobody@x.test"), None);
}

#[test]
fn one_shot_session_fulfils_once() {
    let mut store = Store::new();
    store.ensure_account("acc", None);
    store.create_session("sess", "acc", 10).unwrap();
    assert_eq!(store.fulfill_session("sess"), Some(("acc".to_string(), 10)));
    assert_eq!(store.fulfill_session("sess"), None);
}

#[test]
fn password_credential_lives_on_the_pim_account() {
    let mut store = Store::new();
    store.ensure_account("acc", None);
    assert_eq!(store.get_password_credential("acc", "u@p"), None);

    store.upsert_password_credential("acc", "u@p", "enc-1");
    assert_eq!(store.get_password_credential("acc", "u@p").as_deref(), Some("enc-1"));

    store.upsert_password_credential("acc", "u@p", "enc-2");
    assert_eq!(store.get_password_credential("acc", "u@p").as_deref(), Some("enc-2"));
}

#[test]
fn rotation_keeps_the_previous_secret_for_the_overlap() {
    let mut store = Store::new();
    store.upsert_watch(&watch("w1", "acc"));
    let fresh = "new".to_string();
    assert_eq!(store.rotate_secret_at("w1", &fresh, 60, 1_000), Some(1_060));
    let w = store.get_watch("w1").unwrap();
    assert_eq!(w.signing_secrets(1_059), vec!["new", "s"]);
    assert_eq!(w.signing_secrets(1_060), vec!["new"]);
    assert_eq!(store.rotate_secret_at("nope", &fresh, 60, 1_000), None);
}

#[test]
fn a_redefinition_drops_a_rotation() {
    let mut store = Store::new();
    store.upsert_watch(&watch("w1", "acc"));
    store.rotate_secret_at("w1", &"new".to_string(), 60, 1_000);
    store.upsert_watch(&watch("w1", "acc"));
    let w = store.get_watch("w1").unwrap();
    assert_eq!(w.hmac_secret, "s");
    assert_eq!(w.hmac_secret_prev, None);
}

#[test]
fn newest_deliveries_come_first() {
    let mut store = Store::new();
    store.upsert_watch(&watch("w1", "acc"));
    store.upsert_watch(&watch("w2", "other"));
    for (account, uid, at) in [("w1", 1, 10), ("w2", 2, 30), ("w1", 3, 20), ("w1", 4, 20)] {
        let outcome = DeliveryOutcome {
            account,
            event: "new",
            uid,
            ok: true,
            status: Some(200),
            error: None,
            attempts: 1,
        };
        store.log_delivery_at(&outcome, at);
    }
    let uids = |rows: Vec<carillon_backend::rows::DeliveryRow>| -> Vec<u32> {
        rows.into_iter().map(|d| d.uid).collect()
    };
    assert_eq!(uids(store.recent_deliveries(None, 10)), vec![2, 4, 3, 1]);
    assert_eq!(uids(store.recent_deliveries(Some("w1"), 2)), vec![4, 3]);
    assert_eq!(uids(store.recent_deliveries_by_owner("other", 10)), vec![2]);
}

#[test]
fn capability_links_open_until_they_expire_or_are_revoked() {
    let mut store = Store::new();
    store.issue_capability_at("acc", "link", Some(100), 50);
    assert_eq!(store.resolve_capability_at("link", 99).as_deref(), Some("acc"));
    assert_eq!(store.resolve_capability_at("link", 100), None);
    assert_eq!(store.resolve_capability_at("other", 60), None);
    assert!(store.capabilities[0].token_hash != "link");
    assert!(store.revoke_capability("link"));
    assert!(!store.revoke_capability("link"));
    assert_eq!(store.resolve_capability_at("link", 60), None);
}

#[test]
fn magic_links_age() {
    let mut store = Store::new();
    store.create_magic_link_at("tok", "a@b.c", 1_000);
    assert_eq!(store.take_magic_link_at("tok", 900, 1_901), None);
    store.create_magic_link_at("tok", "a@b.c", 1_000);
    assert_eq!(store.take_magic_link_at("tok", 900, 1_900).as_deref(), Some("a@b.c"));
}

fn session(state: &str) -> OauthSession {
    OauthSession {
        state: state.into(),
        verifier: "v".into(),
        redirect_uri: "https://api/oauth/callback".into(),
        token_endpoint: "https://auth.x/token".into(),
        client_id: "client".into(),
        enc_client_secret: None,
        resource: None,
        scope: Some("mail".into()),
        account_id: None,
        login: "u@x".into(),
        imap_host: "imap.x".into(),
        imap_port: 993,
        mailbox: "INBOX".into(),
        source_kind: "imap".into(),
        carddav_url: None,
    }
}

#[test]
fn pending_authorizations_are_taken_once() {
    let mut store = Store::new();
    assert!(store.create_oauth_session_at(&session("st"), 10).is_ok());
    assert_eq!(store.create_oauth_session_at(&session("st"), 11), Err(StoreError::Duplicate));
    assert_eq!(store.take_oauth_session_at("other", 900, 20).map(|s| s.state), None);
    assert_eq!(
        store.take_oauth_session_at("st", 900, 20).map(|s| s.client_id).as_deref(),
        Some("client")
    );
    assert!(store.take_oauth_session_at("st", 900, 20).is_none());
}

#[test]
fn a_rotated_refresh_token_is_kept() {
    let mut store = Store::new();
    let cred = OauthCredential {
        account_id: "acc".into(),
        mailbox_key: "u@x".into(),
        enc_refresh_token: "one".into(),
        token_endpoint: "https://auth.x/token".into(),
        client_id: "client".into(),
        enc_client_secret: None,
        resource: None,
        scope: None,
    };
    store.upsert_oauth_credential_at(&cred, 10);
    store.update_oauth_refresh_token_at("acc", "u@x", &"two".to_string(), 20);
    assert_eq!(store.get_oauth_credential("acc", "u@x").unwrap().enc_refresh_token, "two");
    assert!(store.get_oauth_credential("acc", "other").is_none());
}

#[test]
fn purchases_have_one_reference() {
    let mut store = Store::new();
    assert!(store.create_session("sess", "acc", 5).is_ok());
    assert_eq!(store.create_session("sess", "acc", 5), Err(StoreError::Duplicate));
}

#[test]
fn debits_are_all_or_nothing() {
    let mut store = Store::new();
    store.add_credits("acc", 3);
    assert!(!store.debit_credits("acc", 4));
    assert!(!store.debit_credits("acc", 0));
    assert!(store.debit_credits("acc", 3));
    assert_eq!(store.get_account("acc").unwrap().credits, 0);
}

#[test]
fn the_first_account_of_an_identity_owns_it() {
    let mut store = Store::new();
    store.add_membership_at("late", "u@x", "imap", "u@x", "imap.x", 993, None, 20);
    store.add_membership_at("early", "u@x", "imap", "u@x", "imap.x", 993, None, 10);
    assert_eq!(store.account_of_mailbox("u@x").as_deref(), Some("early"));
    assert_eq!(store.account_of_mailbox("v@x"), None);
}

#[test]
fn stored_credentials_are_read_back() {
    let mut store = Store::new();
    let cred = |account: &str, token: &str| OauthCredential {
        account_id: account.into(),
        mailbox_key: "u@x".into(),
        enc_refresh_token: token.into(),
        token_endpoint: "https://t".into(),
        client_id: "c".into(),
        enc_client_secret: None,
        resource: None,
        scope: None,
    };
    store.upsert_oauth_credential(&cred("a", "one"));
    store.upsert_oauth_credential(&cred("b", "two"));
    store.upsert_oauth_credential(&cred("a", "three"));
    store.update_oauth_refresh_token("b", "u@x", &"four".to_string());
    assert_eq!(store.get_oauth_credential("a", "u@x").unwrap().enc_refresh_token, "three");
    assert_eq!(store.get_oauth_credential("b", "u@x").unwrap().enc_refresh_token, "four");
    assert!(store.get_oauth_credential("c", "u@x").is_none());
}

#[test]
fn the_last_logged_delivery_comes_first() {
    let mut store = Store::new();
    for uid in [1, 2] {
        let outcome = DeliveryOutcome {
            account: "w",
            event: "new",
            uid,
            ok: true,
            status: Some(200),
            error: None,
            attempts: 1,
        };
        store.log_delivery(&outcome);
    }
    assert_eq!(store.recent_deliveries(Some("w"), 1)[0].uid, 2);
}

#[test]
fn sessions_and_links_last_for_now() {
    let mut store = Store::new();
    store.issue_capability("acc", "link", None);
    assert_eq!(store.resolve_capability("link").as_deref(), Some("acc"));
    let session = OauthSession {
        state: "st".into(),
        verifier: "v".into(),
        redirect_uri: "r".into(),
        token_endpoint: "https://t".into(),
        client_id: "c".into(),
        enc_client_secret: None,
        resource: None,
        scope: None,
        account_id: None,
        login: "u@x".into(),
        imap_host: "imap.x".into(),
        imap_port: 993,
        mailbox: "INBOX".into(),
        source_kind: "imap".into(),
        carddav_url: None,
    };
    store.create_oauth_session(&session).unwrap();
    assert_eq!(store.create_oauth_session(&session), Err(StoreError::Duplicate));
    assert_eq!(store.take_oauth_session("st", 900).unwrap().verifier, "v");
    assert!(store.take_oauth_session("st", 900).is_none());
}

#[test]
fn only_the_digest_of_a_link_is_kept() {
    let mut store = Store::new();
    store.issue_capability("acc", "abc", None);
    assert_eq!(
        store.capabilities[0].token_hash,
        "ba7816bf8f01cfea414140de5dae2223b00361a396177a9cb410ff61f20015ad"
    );
}
