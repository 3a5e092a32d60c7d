//! The callback of an authorization, step by step: which work comes next, and
//! what the user is answered in the end. Nothing is kept of an authorization
//! before the mailbox's server took the access token.

use crate::api::popup::{error_fields, oauth_err, oauth_fields, oauth_payload};
use crate::api::service::{is_same_service, service_already_watched};
use crate::api::sign_in::{
    callback_code, check_access, check_tokens, finish_oauth, finish_oauth_at, finishes_oauth,
    plan_exchange, plans_exchange, CallbackError, ExchangePlan, OauthCallback, SignedIn,
};
use crate::imap::session::{ImapAccount, ImapAuth, Probe};
use crate::json::{fields_of, Field};
use crate::metering::{mailbox_key, mailbox_key_of};
use crate::oauth::Tokens;
use crate::random::is_secret;
use crate::rows::OauthSession;
use crate::store::Store;
use crate::table::{any_where, copy_text};
use vstd::prelude::*;

verus! {

/// What a callback waits for.
#[derive(Debug)]
pub enum CallbackState {
    /// The user, back from the provider.
    Start,
    /// The pending authorization that the code belongs to.
    Taking { code: String },
    /// The client's secret.
    Decrypting { session: OauthSession, code: String },
    /// The tokens.
    Exchanging { session: OauthSession },
    /// What the mailbox's server says to the access token.
    Probing { session: OauthSession, refresh_token: String },
    /// The refresh token, encrypted.
    Encrypting { session: OauthSession, probe: Probe },
    /// The account, signed in to.
    Finishing { session: OauthSession, probe: Probe },
    /// Nothing: the user is answered.
    Answered,
}

/// What came of the work that a callback asked for.
#[derive(Debug)]
pub enum CallbackEvent {
    /// The provider sent the user back.
    Returned(OauthCallback),
    /// The pending authorization was taken, or there is none.
    Taken(Result<OauthSession, CallbackError>),
    /// The client's secret was decrypted.
    Decrypted(String),
    /// The token endpoint answered, or why it did not.
    Exchanged(Result<Tokens, String>),
    /// The access token was tried.
    Probed(Probe),
    /// The refresh token was encrypted.
    Encrypted(String),
    /// The authorization was finished; whether the mailbox was watched already.
    Finished { done: SignedIn, watched: bool },
    /// The work failed here.
    Failed,
}

/// What a callback asks for next.
#[derive(Debug)]
pub enum CallbackAction {
    /// Take the pending authorization of a state.
    Take(String),
    /// Decrypt the client's secret.
    Decrypt(String),
    /// Redeem the code.
    Exchange(ExchangePlan),
    /// Try the access token.
    Probe(ImapAccount),
    /// Encrypt the refresh token.
    Encrypt(String),
    /// Finish the authorization with the encrypted refresh token.
    Finish { session: OauthSession, enc_refresh_token: String },
    /// Answer the user.
    Answer(Vec<Field>),
}

/// Whether a step refuses the authorization, and tells the user why.
pub open spec fn refuses(next: CallbackState, action: CallbackAction, error: CallbackError) -> bool {
    &&& next is Answered
    &&& action matches CallbackAction::Answer(payload) && fields_of(payload@) == error_fields(
        "carillon-oauth"@,
        error.text(),
    )
}

/// Whether a step goes on to redeem the code.
pub open spec fn redeems(
    next: CallbackState,
    action: CallbackAction,
    session: OauthSession,
    client_secret: Option<String>,
    code: Seq<char>,
) -> bool {
    exists|plan: Result<ExchangePlan, CallbackError>| #[trigger]
        plans_exchange(plan, session, client_secret, code) && match plan {
            Ok(p) => next == CallbackState::Exchanging { session } && action
                == CallbackAction::Exchange(p),
            Err(e) => refuses(next, action, e),
        }
}

/// The account to try an access token on.
pub open spec fn access_to(session: OauthSession, tokens: Tokens) -> ImapAccount {
    ImapAccount {
        host: session.imap_host,
        port: session.imap_port,
        login: session.login,
        auth: ImapAuth::OauthBearer(tokens.access_token),
        mailbox: session.mailbox,
    }
}

/// What a callback does about an event, by what it waits for. What does not
/// belong there, and what failed, ends it.
pub open spec fn callback_step(
    state: CallbackState,
    event: CallbackEvent,
    next: CallbackState,
    action: CallbackAction,
) -> bool {
    match (state, event) {
        (CallbackState::Start, CallbackEvent::Returned(params)) => match (
            params.error,
            params.code,
        ) {
            (Some(error), _) => refuses(
                next,
                action,
                CallbackError::Provider(
                    match params.error_description {
                        Some(detail) => detail,
                        None => error,
                    },
                ),
            ),
            (None, None) => refuses(next, action, CallbackError::MissingCode),
            (None, Some(code)) => if params.state@.len() == 0 {
                refuses(next, action, CallbackError::MissingState)
            } else {
                next == CallbackState::Taking { code } && action == CallbackAction::Take(
                    params.state,
                )
            },
        },
        (
            CallbackState::Taking { code },
            CallbackEvent::Taken(Ok(session)),
        ) => match session.enc_client_secret {
            Some(enc) => next == CallbackState::Decrypting { session, code } && action
                == CallbackAction::Decrypt(enc),
            None => redeems(next, action, session, None, code@),
        },
        (CallbackState::Taking { .. }, CallbackEvent::Taken(Err(e))) => refuses(next, action, e),
        (CallbackState::Decrypting { session, code }, CallbackEvent::Decrypted(secret)) => redeems(
            next,
            action,
            session,
            Some(secret),
            code@,
        ),
        (CallbackState::Decrypting { .. }, CallbackEvent::Failed) => refuses(
            next,
            action,
            CallbackError::ClientSecret,
        ),
        (
            CallbackState::Exchanging { session },
            CallbackEvent::Exchanged(Ok(tokens)),
        ) => match tokens.refresh_token {
            None => refuses(next, action, CallbackError::NoRefreshToken),
            Some(refresh_token) => next == CallbackState::Probing { session, refresh_token }
                && action == CallbackAction::Probe(access_to(session, tokens)),
        },
        (CallbackState::Exchanging { .. }, CallbackEvent::Exchanged(Err(why))) => refuses(
            next,
            action,
            CallbackError::Exchange(why),
        ),
        (
            CallbackState::Probing { session, refresh_token },
            CallbackEvent::Probed(probe),
        ) => if probe.authenticated {
            next == CallbackState::Encrypting { session, probe } && action
                == CallbackAction::Encrypt(refresh_token)
        } else {
            exists|why: String| #[trigger]
                refuses(next, action, CallbackError::NotAuthenticated(why)) && why@ == (
                match probe.error {
                    Some(e) => e@,
                    None => ""@,
                })
        },
        (
            CallbackState::Encrypting { session, probe },
            CallbackEvent::Encrypted(enc_refresh_token),
        ) => next == CallbackState::Finishing { session, probe } && action
            == CallbackAction::Finish { session, enc_refresh_token },
        (
            CallbackState::Finishing { session, probe },
            CallbackEvent::Finished { done, watched },
        ) => next is Answered && (action matches CallbackAction::Answer(payload) && fields_of(
            payload@,
        ) == oauth_fields(done, probe, watched, session)),
        _ => refuses(next, action, CallbackError::Server),
    }
}

fn refuse(error: &CallbackError) -> (r: (CallbackState, CallbackAction))
    ensures
        refuses(r.0, r.1, *error),
{
    (CallbackState::Answered, CallbackAction::Answer(oauth_err(error)))
}

fn redeem(session: OauthSession, client_secret: Option<String>, code: &str) -> (r: (
    CallbackState,
    CallbackAction,
))
    ensures
        redeems(r.0, r.1, session, client_secret, code@),
{
    let plan = plan_exchange(&session, client_secret, code);
    let ghost planned = plan;
    let r = match plan {
        Ok(p) => (CallbackState::Exchanging { session }, CallbackAction::Exchange(p)),
        Err(e) => refuse(&e),
    };
    assert(plans_exchange(planned, session, client_secret, code@));
    r
}

/// What a callback does about an event: what it waits for next, and what it asks
/// for.
pub fn on_callback(state: CallbackState, event: CallbackEvent) -> (r: (
    CallbackState,
    CallbackAction,
))
    ensures
        callback_step(state, event, r.0, r.1),
{
    match (state, event) {
        (CallbackState::Start, CallbackEvent::Returned(params)) => match callback_code(&params) {
            Ok(code) => (CallbackState::Taking { code }, CallbackAction::Take(params.state)),
            Err(e) => refuse(&e),
        },
        (CallbackState::Taking { code }, CallbackEvent::Taken(Ok(session))) => {
            match copy_text(&session.enc_client_secret) {
                Some(enc) => (
                    CallbackState::Decrypting { session, code },
                    CallbackAction::Decrypt(enc),
                ),
                None => redeem(session, None, code.as_str()),
            }
        },
        (CallbackState::Taking { .. }, CallbackEvent::Taken(Err(e))) => refuse(&e),
        (CallbackState::Decrypting { session, code }, CallbackEvent::Decrypted(secret)) => redeem(
            session,
            Some(secret),
            code.as_str(),
        ),
        (CallbackState::Decrypting { .. }, CallbackEvent::Failed) => refuse(
            &CallbackError::ClientSecret,
        ),
        (CallbackState::Exchanging { session }, CallbackEvent::Exchanged(Ok(tokens))) => {
            match check_tokens(&session, &tokens) {
                Ok((refresh_token, account)) => (
                    CallbackState::Probing { session, refresh_token },
                    CallbackAction::Probe(account),
                ),
                Err(e) => refuse(&e),
            }
        },
        (CallbackState::Exchanging { .. }, CallbackEvent::Exchanged(Err(why))) => refuse(
            &CallbackError::Exchange(why),
        ),
        (CallbackState::Probing { session, refresh_token }, CallbackEvent::Probed(probe)) => {
            match check_access(&probe) {
                Ok(_) => (
                    CallbackState::Encrypting { session, probe },
                    CallbackAction::Encrypt(refresh_token),
                ),
                Err(e) => refuse(&e),
            }
        },
        (
            CallbackState::Encrypting { session, probe },
            CallbackEvent::Encrypted(enc_refresh_token),
        ) => {
            let taken = session.clone();
            (
                CallbackState::Finishing { session, probe },
                CallbackAction::Finish { session: taken, enc_refresh_token },
            )
        },
        (
            CallbackState::Finishing { session, probe },
            CallbackEvent::Finished { done, watched },
        ) => (
            CallbackState::Answered,
            CallbackAction::Answer(oauth_payload(&done, &probe, watched, &session)),
        ),
        _ => refuse(&CallbackError::Server),
    }
}

/// Finishes the authorization that a callback asks to finish, at a time and with
/// a given account id and link should they be needed; whether its mailbox was
/// watched before.
pub fn finish_callback_at(
    store: &mut Store,
    session: &OauthSession,
    enc_refresh_token: String,
    now: i64,
    fresh_id: String,
    fresh_link: String,
) -> (r: (SignedIn, bool))
    ensures
        finishes_oauth(
            *old(store),
            *final(store),
            *session,
            enc_refresh_token,
            fresh_id@,
            fresh_link@,
            now,
            r.0,
        ),
        r.1 == any_where(
            old(store).watches@,
            is_same_service(
                mailbox_key_of(session.login@, session.imap_host@),
                session.mailbox@,
                None,
            ),
        ),
        old(store).wf() ==> final(store).wf(),
{
    let key = mailbox_key(session.login.as_str(), session.imap_host.as_str());
    let watched = service_already_watched(store, key.as_str(), session.mailbox.as_str(), None);
    let done = finish_oauth_at(store, session, enc_refresh_token, now, fresh_id, fresh_link);
    (done, watched)
}

/// Finishes the authorization that a callback asks to finish, now.
pub fn finish_callback(store: &mut Store, session: &OauthSession, enc_refresh_token: String) -> (r: (
    SignedIn,
    bool,
))
    ensures
        exists|id: Seq<char>, link: Seq<char>, now: i64|
            is_secret(id) && is_secret(link) && #[trigger] finishes_oauth(
                *old(store),
                *final(store),
                *session,
                enc_refresh_token,
                id,
                link,
                now,
                r.0,
            ),
        r.1 == any_where(
            old(store).watches@,
            is_same_service(
                mailbox_key_of(session.login@, session.imap_host@),
                session.mailbox@,
                None,
            ),
        ),
        old(store).wf() ==> final(store).wf(),
{
    let key = mailbox_key(session.login.as_str(), session.imap_host.as_str());
    let watched = service_already_watched(store, key.as_str(), session.mailbox.as_str(), None);
    let done = finish_oauth(store, session, enc_refresh_token);
    let r = (done, watched);
    assert(r.0 == done);
    r
}

// --- what holds ---

/// Whether these are the steps of one callback: the states it went through, what
/// came in at each, and what it asked for.
pub open spec fn callback_run(
    states: Seq<CallbackState>,
    events: Seq<CallbackEvent>,
    actions: Seq<CallbackAction>,
) -> bool {
    &&& states.len() == events.len() + 1
    &&& actions.len() == events.len()
    &&& states[0] is Start
    &&& forall|i: int|
        0 <= i < events.len() ==> callback_step(
            states[i],
            #[trigger] events[i],
            states[i + 1],
            actions[i],
        )
}

/// An authorization is only ever finished after, in this order, it was taken,
/// its code was redeemed for a refresh token, the mailbox's server took the
/// access token, and the refresh token was encrypted; and what is finished is
/// what was taken.
pub proof fn only_proven_authorizations_finish(
    states: Seq<CallbackState>,
    events: Seq<CallbackEvent>,
    actions: Seq<CallbackAction>,
    k: int,
)
    requires
        callback_run(states, events, actions),
        0 <= k < events.len(),
        actions[k] is Finish,
    ensures
        actions[k] matches CallbackAction::Finish { session, enc_refresh_token } && {
            &&& k >= 4
            &&& events[k] == CallbackEvent::Encrypted(enc_refresh_token)
            &&& events[k - 1] matches CallbackEvent::Probed(probe) && probe.authenticated
            &&& events[k - 2] matches CallbackEvent::Exchanged(Ok(tokens)) && {
                &&& actions[k - 2] == CallbackAction::Probe(access_to(session, tokens))
                &&& tokens.refresh_token matches Some(token) && actions[k - 1]
                    == CallbackAction::Encrypt(token)
            }
            &&& actions[k - 3] is Exchange
            &&& exists|i: int|
                0 <= i < k - 2 && #[trigger] events[i] == CallbackEvent::Taken(
                    Ok::<OauthSession, CallbackError>(session),
                )
        },
{
    assert(callback_step(states[k], events[k], states[k + 1], actions[k]));
    assert(states[k] is Encrypting);
    let i = k - 1;
    assert(callback_step(states[i], events[i], states[i + 1], actions[i]));
    assert(states[i] is Probing);
    let i = k - 2;
    assert(callback_step(states[i], events[i], states[i + 1], actions[i]));
    assert(states[i] is Exchanging);
    let i = k - 3;
    assert(callback_step(states[i], events[i], states[i + 1], actions[i]));
    if states[i] is Decrypting {
        let j = k - 4;
        assert(callback_step(states[j], events[j], states[j + 1], actions[j]));
        assert(states[j] is Taking);
    } else {
        assert(states[i] is Taking);
    }
}

/// A callback that answered does nothing more than to answer.
pub proof fn answered_callback_is_over(
    event: CallbackEvent,
    next: CallbackState,
    action: CallbackAction,
)
    requires
        callback_step(CallbackState::Answered, event, next, action),
    ensures
        next is Answered,
        action is Answer,
{
}

/// What a refusal tells the user is why, and that it is the authorization that
/// came to nothing.
pub proof fn refused_authorization_says_why(
    next: CallbackState,
    action: CallbackAction,
    error: CallbackError,
)
    requires
        refuses(next, action, error),
    ensures
        next is Answered,
        action matches CallbackAction::Answer(said) && fields_of(said@) == seq![
            ("error"@, crate::json::JsonView::Text(error.text())),
            ("ok"@, crate::json::JsonView::Bool(false)),
            ("type"@, crate::json::JsonView::Text("carillon-oauth"@)),
        ],
{
}

/// The provider's own error counts before anything else, and is told in the
/// provider's words; without one a code and a state have to be there, and then the
/// authorization of that state is taken.
pub proof fn returned_user_is_heard(
    params: OauthCallback,
    next: CallbackState,
    action: CallbackAction,
)
    requires
        callback_step(CallbackState::Start, CallbackEvent::Returned(params), next, action),
    ensures
        params.error is Some ==> tells(
            action,
            match params.error_description {
                Some(detail) => detail@,
                None => params.error->0@,
            },
        ),
        params.error is None && params.code is None ==> tells(
            action,
            "missing authorization code"@,
        ),
        params.error is None && params.code is Some && params.state@.len() == 0 ==> tells(
            action,
            "missing state"@,
        ),
        params.error is None && params.code is Some && params.state@.len() > 0 ==> action
            == CallbackAction::Take(params.state) && next == (CallbackState::Taking {
            code: params.code->0,
        }),
{
}

/// Whether the user is told this of an authorization that came to nothing.
pub open spec fn tells(action: CallbackAction, why: Seq<char>) -> bool {
    action matches CallbackAction::Answer(said) && fields_of(said@) == seq![
        ("error"@, crate::json::JsonView::Text(why)),
        ("ok"@, crate::json::JsonView::Bool(false)),
        ("type"@, crate::json::JsonView::Text("carillon-oauth"@)),
    ]
}

/// An authorization whose client has a secret has it decrypted before the code is
/// redeemed, and one whose client has none is redeemed at once; an unknown one is
/// refused, and so is one whose secret cannot be read.
pub proof fn taken_authorization_is_redeemed(
    code: String,
    session: OauthSession,
    secret: String,
    next: CallbackState,
    action: CallbackAction,
)
    ensures
        (callback_step(
            CallbackState::Taking { code },
            CallbackEvent::Taken(Ok(session)),
            next,
            action,
        ) && session.enc_client_secret is Some) ==> action == CallbackAction::Decrypt(
            session.enc_client_secret->0,
        ) && next == (CallbackState::Decrypting { session, code }),
        (callback_step(
            CallbackState::Taking { code },
            CallbackEvent::Taken(Ok(session)),
            next,
            action,
        ) && session.enc_client_secret is None && action is Exchange) ==> {
            let e = action->Exchange_0.exchange;
            &&& e.code@ == code@
            &&& e.client_secret is None
            &&& e.client_id@ == session.client_id@
            &&& e.verifier@ == session.verifier@
            &&& e.redirect_uri@ == session.redirect_uri@
        },
        (callback_step(
            CallbackState::Decrypting { session, code },
            CallbackEvent::Decrypted(secret),
            next,
            action,
        ) && action is Exchange) ==> {
            let e = action->Exchange_0.exchange;
            &&& e.code@ == code@
            &&& e.client_secret matches Some(s) && s@ == secret@
            &&& e.client_id@ == session.client_id@
            &&& e.verifier@ == session.verifier@
            &&& e.redirect_uri@ == session.redirect_uri@
        },
        callback_step(
            CallbackState::Taking { code },
            CallbackEvent::Taken(Err(CallbackError::UnknownState)),
            next,
            action,
        ) ==> tells(action, "unknown or expired sign-in; start again"@),
        callback_step(
            CallbackState::Decrypting { session, code },
            CallbackEvent::Failed,
            next,
            action,
        ) ==> tells(action, "cannot read client secret"@),
{
}

/// The access token is tried on the mailbox that the authorization is for, and
/// only a refresh token that came with one is kept; what the mailbox's server, or
/// the token endpoint, said against it is told.
pub proof fn granted_tokens_are_tried_out(
    session: OauthSession,
    tokens: Tokens,
    probe: Probe,
    refresh_token: String,
    why: String,
    next: CallbackState,
    action: CallbackAction,
)
    ensures
        callback_step(
            CallbackState::Exchanging { session },
            CallbackEvent::Exchanged(Ok(tokens)),
            next,
            action,
        ) ==> (match tokens.refresh_token {
            Some(token) => {
                &&& next == (CallbackState::Probing { session, refresh_token: token })
                &&& action matches CallbackAction::Probe(on) && on.host == session.imap_host
                    && on.port == session.imap_port && on.login == session.login && on.mailbox
                    == session.mailbox && on.auth == ImapAuth::OauthBearer(tokens.access_token)
            },
            None => tells(
                action,
                "provider returned no refresh token (missing offline access)"@,
            ),
        }),
        callback_step(
            CallbackState::Exchanging { session },
            CallbackEvent::Exchanged(Err(why)),
            next,
            action,
        ) ==> tells(action, "token exchange failed: "@ + why@),
        (callback_step(
            CallbackState::Probing { session, refresh_token },
            CallbackEvent::Probed(probe),
            next,
            action,
        ) && probe.authenticated) ==> action == CallbackAction::Encrypt(refresh_token) && next == (
        CallbackState::Encrypting { session, probe }),
        (callback_step(
            CallbackState::Probing { session, refresh_token },
            CallbackEvent::Probed(probe),
            next,
            action,
        ) && !probe.authenticated) ==> tells(
            action,
            "OAuth token did not authenticate to IMAP: "@ + (match probe.error {
                Some(e) => e@,
                None => ""@,
            }),
        ),
{
}

/// Only the encrypted refresh token is handed on to be kept, with the
/// authorization that it was granted to; what fails on the way ends the
/// authorization as the server's fault.
pub proof fn finished_authorization_is_the_taken_one(
    session: OauthSession,
    probe: Probe,
    enc: String,
    done: SignedIn,
    watched: bool,
    next: CallbackState,
    action: CallbackAction,
)
    ensures
        callback_step(
            CallbackState::Encrypting { session, probe },
            CallbackEvent::Encrypted(enc),
            next,
            action,
        ) ==> action == (CallbackAction::Finish { session, enc_refresh_token: enc }) && next == (
        CallbackState::Finishing { session, probe }),
        callback_step(
            CallbackState::Encrypting { session, probe },
            CallbackEvent::Failed,
            next,
            action,
        ) ==> tells(action, "server error"@),
        callback_step(
            CallbackState::Finishing { session, probe },
            CallbackEvent::Failed,
            next,
            action,
        ) ==> tells(action, "server error"@),
        callback_step(
            CallbackState::Finishing { session, probe },
            CallbackEvent::Finished { done, watched },
            next,
            action,
        ) ==> (action matches CallbackAction::Answer(said) && fields_of(said@).contains(
            ("account_id"@, crate::json::JsonView::Text(done.account_id@)),
        ) && fields_of(said@).contains(("link"@, crate::json::JsonView::Text(done.link@)))
            && fields_of(said@).contains(("already_watched"@, crate::json::JsonView::Bool(watched)))
            && fields_of(said@).contains(("ok"@, crate::json::JsonView::Bool(true)))),
{
    crate::api::popup::authorization_says_each_thing_by_name(done, probe, watched, session);
}

} // verus!
