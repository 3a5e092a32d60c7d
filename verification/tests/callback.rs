use carillon_backend::api::callback::{
    finish_callback, finish_callback_at, on_callback, CallbackAction, CallbackEvent, CallbackState,
};
use carillon_backend::api::popup::oauth_popup;
use carillon_backend::api::sign_in::{AuthAction, CallbackError, OauthCallback, SignedIn};
use carillon_backend::imap::session::{
    probe, watch_mode, ImapAuth, ProbeStage, SessionCapability, WatchMode,
};
use carillon_backend::oauth::Tokens;
use carillon_backend::rows::OauthSession;
use carillon_backend::store::Store;

fn returned(state: &str, code: Option<&str>, error: Option<&str>) -> CallbackEvent {
    CallbackEvent::Returned(OauthCallback {
        state: state.into(),
        code: code.map(String::from),
        error: error.map(String::from),
        error_description: None,
    })
}

fn session(secret: Option<&str>) -> OauthSession {
    OauthSession {
        state: "st".into(),
        verifier: "ver".into(),
        redirect_uri: "https://api/oauth/callback".into(),
        token_endpoint: "https://auth.x/token".into(),
        client_id: "cid".into(),
        enc_client_secret: secret.map(String::from),
        resource: None,
        scope: Some("mail".into()),
        account_id: None,
        login: "u@x".into(),
        imap_host: "imap.x".into(),
        imap_port: 993,
        mailbox: "INBOX".into(),
        source_kind: "imap".into(),
        carddav_url: None,
    }
}

fn tokens(refresh: Option<&str>) -> CallbackEvent {
    CallbackEvent::Exchanged(Ok(Tokens {
        access_token: "at".into(),
        refresh_token: refresh.map(String::from),
        expires_in: None,
        scope: None,
    }))
}

fn page(step: (CallbackState, CallbackAction)) -> String {
    assert!(matches!(step.0, CallbackState::Answered));
    match step.1 {
        CallbackAction::Answer(payload) => oauth_popup("*", &payload),
        other => panic!("not an answer: {other:?}"),
    }
}

fn taking() -> CallbackState {
    on_callback(CallbackState::Start, returned("st", Some("c"), None)).0
}

#[test]
fn a_callback_goes_from_code_to_account() {
    let (state, action) = on_callback(CallbackState::Start, returned("st", Some("c"), None));
    assert!(matches!(action, CallbackAction::Take(key) if key == "st"));
    let (state, action) = on_callback(state, CallbackEvent::Taken(Ok(session(Some("encs")))));
    assert!(matches!(action, CallbackAction::Decrypt(enc) if enc == "encs"));
    let (state, action) = on_callback(state, CallbackEvent::Decrypted("secret".into()));
    match action {
        CallbackAction::Exchange(plan) => {
            assert_eq!(plan.token_endpoint, "https://auth.x/token");
            assert_eq!(plan.exchange.code, "c");
            assert_eq!(plan.exchange.client_secret.as_deref(), Some("secret"));
        }
        other => panic!("not an exchange: {other:?}"),
    }
    let (state, action) = on_callback(state, tokens(Some("rt")));
    match action {
        CallbackAction::Probe(account) => {
            assert_eq!((account.host.as_str(), account.login.as_str()), ("imap.x", "u@x"));
            assert!(matches!(account.auth, ImapAuth::OauthBearer(t) if t == "at"));
        }
        other => panic!("not a probe: {other:?}"),
    }
    let found = probe(ProbeStage::SignedIn(vec![SessionCapability::Idle]));
    let (state, action) = on_callback(state, CallbackEvent::Probed(found));
    assert!(matches!(action, CallbackAction::Encrypt(token) if token == "rt"));
    let (state, action) = on_callback(state, CallbackEvent::Encrypted("enc".into()));
    match action {
        CallbackAction::Finish { session, enc_refresh_token } => {
            assert_eq!((session.state.as_str(), enc_refresh_token.as_str()), ("st", "enc"));
        }
        other => panic!("not finished: {other:?}"),
    }
    let done =
        SignedIn { account_id: "acc".into(), action: AuthAction::Created, link: "l".into() };
    let told = page(on_callback(state, CallbackEvent::Finished { done, watched: true }));
    assert!(told.contains(r#""account_id":"acc","already_watched":true"#));
    assert!(told.contains(r#""ok":true,"qresync":false,"type":"carillon-oauth","watchable":true"#));
}

#[test]
fn a_client_without_a_secret_redeems_its_code_at_once() {
    let (state, action) = on_callback(taking(), CallbackEvent::Taken(Ok(session(None))));
    assert!(matches!(state, CallbackState::Exchanging { .. }));
    assert!(matches!(action, CallbackAction::Exchange(p) if p.exchange.client_secret.is_none()));
    let mut bad = session(None);
    bad.token_endpoint = "x".into();
    let told = page(on_callback(taking(), CallbackEvent::Taken(Ok(bad))));
    assert!(told.contains("bad token endpoint"));
}

#[test]
fn a_callback_that_fails_says_why() {
    let why = |state, event, text: &str| assert!(page(on_callback(state, event)).contains(text));
    why(CallbackState::Start, returned("st", Some("c"), Some("denied")), "denied");
    why(CallbackState::Start, returned("st", None, None), "missing authorization code");
    why(CallbackState::Start, returned("", Some("c"), None), "missing state");
    let unknown = CallbackEvent::Taken(Err(CallbackError::UnknownState));
    why(taking(), unknown, "unknown or expired sign-in; start again");
    let decrypting = || CallbackState::Decrypting { session: session(Some("e")), code: "c".into() };
    why(decrypting(), CallbackEvent::Failed, "cannot read client secret");
    let exchanging = || CallbackState::Exchanging { session: session(None) };
    let refused = CallbackEvent::Exchanged(Err("no".into()));
    why(exchanging(), refused, "token exchange failed: no");
    why(exchanging(), tokens(None), "provider returned no refresh token");
    why(exchanging(), CallbackEvent::Failed, "server error");
    let probing =
        || CallbackState::Probing { session: session(None), refresh_token: "rt".into() };
    let found = probe(ProbeStage::Refused("nope".into()));
    let unproven = CallbackEvent::Probed(found);
    why(probing(), unproven, "OAuth token did not authenticate to IMAP: nope");
    // Nothing is finished before the access token was tried.
    why(probing(), CallbackEvent::Encrypted("enc".into()), "server error");
    why(CallbackState::Answered, CallbackEvent::Decrypted("s".into()), "server error");
}

#[test]
fn finishing_tells_whether_the_mailbox_was_watched() {
    let mut store = Store::new();
    let (done, watched) = finish_callback_at(
        &mut store,
        &session(None),
        "enc".into(),
        5,
        "id1".into(),
        "l1".into(),
    );
    assert_eq!((done.account_id.as_str(), done.action, watched), ("id1", AuthAction::Created, false));
    let cred = store.get_oauth_credential("id1", "u@x").unwrap();
    assert_eq!(cred.enc_refresh_token, "enc");
    let (again, watched) = finish_callback(&mut store, &session(None), "enc2".into());
    assert_eq!((again.account_id.as_str(), watched), ("id1", false));
}

#[test]
fn servers_without_a_checkpoint_are_watched_for_new_mail() {
    let both = vec![SessionCapability::Idle, SessionCapability::QResync];
    assert_eq!(watch_mode(&both), WatchMode::Changes);
    assert_eq!(watch_mode(&vec![SessionCapability::Idle]), WatchMode::NewMail);
}
