//! The page that ends a sign-in in a window of its own: it hands the result to
//! the dashboard that opened the window, and closes it.

use crate::api::sign_in::{
    links_sign_in_for_a_quarter_of_an_hour, verifies_magic, verify_magic_at, CallbackError, SignedIn,
};
use crate::imap::session::Probe;
use crate::json::{
    bool_field, fields_of, int_field, json_object, json_string, json_string_text, json_text,
    text_field, Field, JsonValue, JsonView,
};
use crate::random::{is_secret, random_secret};
use crate::rows::OauthSession;
use crate::store::Store;
use crate::text::{chars_of, stands_at, texts};
use crate::util::now_secs;
use vstd::prelude::*;

verus! {

/// A text with every `<` written as JSON escapes it.
pub open spec fn escaped(s: Seq<char>) -> Seq<char>
    decreases s.len(),
{
    if s.len() == 0 {
        s
    } else if s.last() == '<' {
        escaped(s.drop_last()) + "\\u003c"@
    } else {
        escaped(s.drop_last()).push(s.last())
    }
}

/// A text with every `<` written as JSON escapes it.
pub fn escape(s: &str) -> (r: String)
    ensures
        r@ == escaped(s@),
{
    let v = chars_of(s);
    let mut out = "".to_owned();
    let mut i: usize = 0;
    proof {
        reveal_strlit("");
    }
    assert(out@ =~= escaped(v@.take(0)));
    while i < v.len()
        invariant
            v@ == s@,
            i <= v@.len(),
            out@ == escaped(v@.take(i as int)),
        decreases v@.len() - i,
    {
        assert(v@.take(i + 1).drop_last() =~= v@.take(i as int));
        let c = v[i];
        if c == '<' {
            out.append("\\u003c");
        } else {
            out.push(c);
        }
        i += 1;
    }
    assert(v@.take(i as int) =~= v@);
    out
}

/// What is handed over cannot end the script that hands it over.
pub proof fn escaped_opens_no_tag(s: Seq<char>)
    ensures
        !escaped(s).contains('<'),
    decreases s.len(),
{
    if s.len() > 0 {
        let t = escaped(s.drop_last());
        escaped_opens_no_tag(s.drop_last());
        if s.last() == '<' {
            reveal_strlit("\\u003c");
            let r = t + "\\u003c"@;
            assert forall|i: int| 0 <= i < r.len() implies r[i] != '<' by {
                if i < t.len() {
                    assert(t.contains(t[i]));
                }
            }
        } else {
            let r = t.push(s.last());
            assert forall|i: int| 0 <= i < r.len() implies r[i] != '<' by {
                if i < t.len() {
                    assert(t.contains(t[i]));
                }
            }
        }
    }
}

/// The page that hands a result to a dashboard.
pub open spec fn page_of(dashboard: Seq<char>, payload: Seq<(Seq<char>, JsonView)>) -> Seq<char> {
    "<!doctype html><html><head><meta charset=\"utf-8\"><title>Carillon</title></head><body style=\"font-family:system-ui,sans-serif;padding:2rem\">Signed in — you can close this window.<script>(function(){try{if(window.opener){window.opener.postMessage("@
        + escaped(json_text(payload)) + ","@ + escaped(json_string_text(dashboard))
        + ");}}catch(e){}setTimeout(function(){window.close();},150);})();</script></body></html>"@
}

/// The page that hands a result to a dashboard.
pub fn oauth_popup(dashboard_origin: &str, payload: &Vec<Field>) -> (r: String)
    ensures
        r@ == page_of(dashboard_origin@, fields_of(payload@)),
{
    let json = json_object(payload);
    let origin = json_string(dashboard_origin);
    let json = escape(json.as_str());
    let origin = escape(origin.as_str());
    let mut out =
        "<!doctype html><html><head><meta charset=\"utf-8\"><title>Carillon</title></head><body style=\"font-family:system-ui,sans-serif;padding:2rem\">Signed in — you can close this window.<script>(function(){try{if(window.opener){window.opener.postMessage(".to_owned();
    out.append(json.as_str());
    out.append(",");
    out.append(origin.as_str());
    out.append(
        ");}}catch(e){}setTimeout(function(){window.close();},150);})();</script></body></html>",
    );
    out
}

/// What an error says, of one way to sign in or another.
pub open spec fn error_fields(kind: Seq<char>, message: Seq<char>) -> Seq<(Seq<char>, JsonView)> {
    seq![
        ("error"@, JsonView::Text(message)),
        ("ok"@, JsonView::Bool(false)),
        ("type"@, JsonView::Text(kind)),
    ]
}

fn error_payload(kind: &str, message: &str) -> (r: Vec<Field>)
    ensures
        fields_of(r@) == error_fields(kind@, message@),
{
    let mut out: Vec<Field> = Vec::new();
    out.push(text_field("error", message));
    out.push(bool_field("ok", false));
    out.push(text_field("type", kind));
    assert(fields_of(out@) =~= error_fields(kind@, message@));
    out
}

/// What an authorization that came to nothing says.
pub fn oauth_err(error: &CallbackError) -> (r: Vec<Field>)
    ensures
        fields_of(r@) == error_fields("carillon-oauth"@, error.text()),
{
    let message = error.message();
    error_payload("carillon-oauth", message.as_str())
}

/// What a link sent by mail that came to nothing says.
pub fn magic_err(message: &str) -> (r: Vec<Field>)
    ensures
        fields_of(r@) == error_fields("carillon-magic"@, message@),
{
    error_payload("carillon-magic", message)
}

/// What a link sent by mail says that signed in.
pub open spec fn magic_fields(account: Seq<char>, link: Seq<char>) -> Seq<(Seq<char>, JsonView)> {
    seq![
        ("account_id"@, JsonView::Text(account)),
        ("link"@, JsonView::Text(link)),
        ("ok"@, JsonView::Bool(true)),
        ("type"@, JsonView::Text("carillon-magic"@)),
    ]
}

/// What a link sent by mail says that signed in.
pub fn magic_payload(account_id: &str, link: &str) -> (r: Vec<Field>)
    ensures
        fields_of(r@) == magic_fields(account_id@, link@),
{
    let mut out: Vec<Field> = Vec::new();
    out.push(text_field("account_id", account_id));
    out.push(text_field("link", link));
    out.push(bool_field("ok", true));
    out.push(text_field("type", "carillon-magic"));
    assert(fields_of(out@) =~= magic_fields(account_id@, link@));
    out
}

/// What opening a link sent by mail does, at a time, and what it says.
pub open spec fn opens_mail_link(
    before: Store,
    after: Store,
    token: Seq<char>,
    fresh_id: Seq<char>,
    fresh_link: Seq<char>,
    now: i64,
    said: Seq<(Seq<char>, JsonView)>,
) -> bool {
    if token.len() == 0 {
        after == before && said == error_fields("carillon-magic"@, "missing token"@)
    } else {
        exists|done: Option<(String, String)>| #[trigger]
            verifies_magic(before, after, token, fresh_id, fresh_link, now, done) && said == (
            match done {
                Some(d) => magic_fields(d.0@, d.1@),
                None => error_fields("carillon-magic"@, "invalid or expired sign-in link"@),
            })
    }
}

/// Opens a link sent by mail, at a time and with a given account id and link
/// should they be needed, and says what came of it.
pub fn magic_verify_get_at(
    store: &mut Store,
    token: &str,
    now: i64,
    fresh_id: String,
    fresh_link: String,
) -> (r: Vec<Field>)
    ensures
        opens_mail_link(
            *old(store),
            *final(store),
            token@,
            fresh_id@,
            fresh_link@,
            now,
            fields_of(r@),
        ),
        old(store).wf() ==> final(store).wf(),
{
    if token.unicode_len() == 0 {
        return magic_err("missing token");
    }
    match verify_magic_at(store, token, now, fresh_id, fresh_link) {
        Some(done) => magic_payload(done.0.as_str(), done.1.as_str()),
        None => magic_err("invalid or expired sign-in link"),
    }
}

/// Opens a link sent by mail, now, and says what came of it.
pub fn magic_verify_get(store: &mut Store, token: &str) -> (r: Vec<Field>)
    ensures
        exists|id: Seq<char>, link: Seq<char>, now: i64|
            is_secret(id) && is_secret(link) && #[trigger] opens_mail_link(
                *old(store),
                *final(store),
                token@,
                id,
                link,
                now,
                fields_of(r@),
            ),
        old(store).wf() ==> final(store).wf(),
{
    let now: i64 = now_secs();
    let id = random_secret();
    let link = random_secret();
    magic_verify_get_at(store, token, now, id, link)
}

/// What the server lacks that a watcher needs, by name.
pub open spec fn missing_names(probe: Probe) -> Seq<Seq<char>> {
    if probe.idle {
        Seq::empty()
    } else {
        seq!["IDLE"@]
    }
}

/// What an authorization says that signed in: the account and its link, whether
/// the mailbox can be watched, and what it is for.
pub open spec fn oauth_fields(
    done: SignedIn,
    probe: Probe,
    already_watched: bool,
    session: OauthSession,
) -> Seq<(Seq<char>, JsonView)> {
    seq![
        ("account_id"@, JsonView::Text(done.account_id@)),
        ("already_watched"@, JsonView::Bool(already_watched)),
        ("imap_host"@, JsonView::Text(session.imap_host@)),
        ("imap_port"@, JsonView::Int(session.imap_port as int)),
        ("link"@, JsonView::Text(done.link@)),
        ("login"@, JsonView::Text(session.login@)),
        ("mailbox"@, JsonView::Text(session.mailbox@)),
        ("missing"@, JsonView::Texts(missing_names(probe))),
        ("ok"@, JsonView::Bool(true)),
        ("qresync"@, JsonView::Bool(probe.qresync)),
        ("type"@, JsonView::Text("carillon-oauth"@)),
        (
            "watchable"@,
            JsonView::Bool(probe.reachable && probe.authenticated && probe.idle),
        ),
    ]
}

/// What an authorization says that signed in.
pub fn oauth_payload(
    done: &SignedIn,
    probe: &Probe,
    already_watched: bool,
    session: &OauthSession,
) -> (r: Vec<Field>)
    ensures
        fields_of(r@) == oauth_fields(*done, *probe, already_watched, *session),
{
    let mut missing: Vec<String> = Vec::new();
    if !probe.idle {
        missing.push("IDLE".to_owned());
    }
    assert(texts(missing@) =~= missing_names(*probe));
    let mut out: Vec<Field> = Vec::new();
    out.push(text_field("account_id", done.account_id.as_str()));
    out.push(bool_field("already_watched", already_watched));
    out.push(text_field("imap_host", session.imap_host.as_str()));
    out.push(int_field("imap_port", session.imap_port as i64));
    out.push(text_field("link", done.link.as_str()));
    out.push(text_field("login", session.login.as_str()));
    out.push(text_field("mailbox", session.mailbox.as_str()));
    out.push(Field { name: "missing".to_owned(), value: JsonValue::Texts(missing) });
    out.push(bool_field("ok", true));
    out.push(bool_field("qresync", probe.qresync));
    out.push(text_field("type", "carillon-oauth"));
    out.push(bool_field("watchable", probe.watchable()));
    assert(fields_of(out@) =~= oauth_fields(*done, *probe, already_watched, *session));
    out
}

/// Escaping changes nothing but the opening of a tag, goes through a text from
/// left to right, and writes each opening as the six characters of its escape.
pub proof fn escaping_changes_openings_alone(a: Seq<char>, c: char, s: Seq<char>)
    ensures
        escaped(Seq::empty()) == Seq::<char>::empty(),
        c != '<' ==> escaped(a.push(c)) == escaped(a).push(c),
        escaped(a.push('<')) == escaped(a) + seq!['\\', 'u', '0', '0', '3', 'c'],
        !s.contains('<') ==> escaped(s) == s,
    decreases s.len(),
{
    reveal_strlit("\\u003c");
    assert("\\u003c"@ =~= seq!['\\', 'u', '0', '0', '3', 'c']);
    assert(a.push(c).drop_last() =~= a);
    assert(a.push('<').drop_last() =~= a);
    if s.len() > 0 && !s.contains('<') {
        let t = s.drop_last();
        assert forall|i: int| 0 <= i < t.len() implies t[i] != '<' by {
            assert(s.contains(s[i]));
        }
        assert(!t.contains('<'));
        assert(s.contains(s[s.len() - 1]));
        escaping_changes_openings_alone(a, c, t);
        assert(t.push(s.last()) =~= s);
    }
}

/// The page hands over what there is to say, and to the dashboard alone: what is
/// said comes first, and then, behind a comma, whom it is said to.
pub proof fn page_hands_over_to_its_dashboard(
    dashboard: Seq<char>,
    payload: Seq<(Seq<char>, JsonView)>,
)
    ensures
        exists|head: Seq<char>, tail: Seq<char>| #[trigger]
            (head + escaped(json_text(payload)) + seq![','] + escaped(json_string_text(dashboard))
                + tail) == page_of(dashboard, payload) && stands_at(
                head,
                "window.opener.postMessage("@,
                head.len() - 26,
            ),
{
    reveal_strlit(",");
    assert(","@ =~= seq![',']);
    reveal_strlit(
        "<!doctype html><html><head><meta charset=\"utf-8\"><title>Carillon</title></head><body style=\"font-family:system-ui,sans-serif;padding:2rem\">Signed in — you can close this window.<script>(function(){try{if(window.opener){window.opener.postMessage(",
    );
    reveal_strlit("window.opener.postMessage(");
    let head =
        "<!doctype html><html><head><meta charset=\"utf-8\"><title>Carillon</title></head><body style=\"font-family:system-ui,sans-serif;padding:2rem\">Signed in — you can close this window.<script>(function(){try{if(window.opener){window.opener.postMessage("@;
    let tail =
        ");}}catch(e){}setTimeout(function(){window.close();},150);})();</script></body></html>"@;
    let said = "window.opener.postMessage("@;
    assert(said.len() == 26);
    assert(head.subrange(head.len() - 26, head.len() as int) =~= said);
    assert(head + escaped(json_text(payload)) + seq![','] + escaped(json_string_text(dashboard))
        + tail == page_of(dashboard, payload));
}

/// What came to nothing says that it is not well and why; which way to sign in it
/// was says the kind.
pub proof fn failures_say_why(kind: Seq<char>, message: Seq<char>)
    ensures
        error_fields(kind, message) == seq![
            ("error"@, JsonView::Text(message)),
            ("ok"@, JsonView::Bool(false)),
            ("type"@, JsonView::Text(kind)),
        ],
{
}

/// A link sent by mail that signed in says which account it came to, and the link
/// that opens it. One without a token signs nobody in, and says so, and neither
/// does one that is unknown, used or older than a quarter of an hour.
pub proof fn mail_link_says_where_it_led(
    before: Store,
    after: Store,
    token: Seq<char>,
    fresh_id: Seq<char>,
    fresh_link: Seq<char>,
    now: i64,
    said: Seq<(Seq<char>, JsonView)>,
)
    requires
        opens_mail_link(before, after, token, fresh_id, fresh_link, now, said),
    ensures
        token.len() == 0 ==> after == before && said == seq![
            ("error"@, JsonView::Text("missing token"@)),
            ("ok"@, JsonView::Bool(false)),
            ("type"@, JsonView::Text("carillon-magic"@)),
        ],
        (token.len() > 0 && forall|i: int|
            0 <= i < before.magic_links@.len() ==> (#[trigger] before.magic_links@[i]).token_hash@
                != crate::digest::token_hash_of(token) || before.magic_links@[i].created_at < now
                - 900) ==> after.capabilities == before.capabilities && after.accounts
            == before.accounts && said == seq![
            ("error"@, JsonView::Text("invalid or expired sign-in link"@)),
            ("ok"@, JsonView::Bool(false)),
            ("type"@, JsonView::Text("carillon-magic"@)),
        ],
        (token.len() > 0 && exists|i: int|
            0 <= i < before.magic_links@.len() && (#[trigger] before.magic_links@[i]).token_hash@
                == crate::digest::token_hash_of(token) && before.magic_links@[i].created_at >= now
                - 900) ==> said == seq![
            ("account_id"@, JsonView::Text(after.capabilities@.last().account_id@)),
            ("link"@, JsonView::Text(fresh_link)),
            ("ok"@, JsonView::Bool(true)),
            ("type"@, JsonView::Text("carillon-magic"@)),
        ] && after.capabilities@.last().token_hash@ == crate::digest::token_hash_of(fresh_link),
{
    if token.len() > 0 {
        let done = choose|done: Option<(String, String)>| #[trigger]
            verifies_magic(before, after, token, fresh_id, fresh_link, now, done) && said == (
            match done {
                Some(d) => magic_fields(d.0@, d.1@),
                None => error_fields("carillon-magic"@, "invalid or expired sign-in link"@),
            });
        links_sign_in_for_a_quarter_of_an_hour(
            before,
            after,
            token,
            fresh_id,
            fresh_link,
            now,
            done,
        );
        if let Some(d) = done {
            assert(said == seq![
                ("account_id"@, JsonView::Text(d.0@)),
                ("link"@, JsonView::Text(fresh_link)),
                ("ok"@, JsonView::Bool(true)),
                ("type"@, JsonView::Text("carillon-magic"@)),
            ]);
        }
    }
}

/// An authorization that signed in says each thing under its own name, and that
/// the mailbox can be watched exactly where its server was reached, let it in and
/// can push.
pub proof fn authorization_says_each_thing_by_name(
    done: SignedIn,
    probe: Probe,
    watched: bool,
    session: OauthSession,
)
    ensures
        ({
            let said = oauth_fields(done, probe, watched, session);
            &&& said.contains(("account_id"@, JsonView::Text(done.account_id@)))
            &&& said.contains(("link"@, JsonView::Text(done.link@)))
            &&& said.contains(("login"@, JsonView::Text(session.login@)))
            &&& said.contains(("imap_host"@, JsonView::Text(session.imap_host@)))
            &&& said.contains(("imap_port"@, JsonView::Int(session.imap_port as int)))
            &&& said.contains(("mailbox"@, JsonView::Text(session.mailbox@)))
            &&& said.contains(("already_watched"@, JsonView::Bool(watched)))
            &&& said.contains(("qresync"@, JsonView::Bool(probe.qresync)))
            &&& said.contains(("ok"@, JsonView::Bool(true)))
            &&& said.contains(("type"@, JsonView::Text("carillon-oauth"@)))
            &&& said.contains(
                (
                    "watchable"@,
                    JsonView::Bool(probe.reachable && probe.authenticated && probe.idle),
                ),
            )
            &&& probe.idle ==> said.contains(("missing"@, JsonView::Texts(Seq::empty())))
            &&& !probe.idle ==> said.contains(("missing"@, JsonView::Texts(seq!["IDLE"@])))
            &&& said.len() == 12
        }),
{
    let said = oauth_fields(done, probe, watched, session);
    assert(said[0] == ("account_id"@, JsonView::Text(done.account_id@)));
    assert(said[1] == ("already_watched"@, JsonView::Bool(watched)));
    assert(said[2] == ("imap_host"@, JsonView::Text(session.imap_host@)));
    assert(said[3] == ("imap_port"@, JsonView::Int(session.imap_port as int)));
    assert(said[4] == ("link"@, JsonView::Text(done.link@)));
    assert(said[5] == ("login"@, JsonView::Text(session.login@)));
    assert(said[6] == ("mailbox"@, JsonView::Text(session.mailbox@)));
    assert(said[7].0 == "missing"@);
    assert(probe.idle ==> said[7] == ("missing"@, JsonView::Texts(Seq::empty())));
    assert(!probe.idle ==> said[7] == ("missing"@, JsonView::Texts(seq!["IDLE"@])));
    assert(said[8] == ("ok"@, JsonView::Bool(true)));
    assert(said[9] == ("qresync"@, JsonView::Bool(probe.qresync)));
    assert(said[10] == ("type"@, JsonView::Text("carillon-oauth"@)));
    assert(said[11] == (
        "watchable"@,
        JsonView::Bool(probe.reachable && probe.authenticated && probe.idle),
    ));
}

} // verus!
