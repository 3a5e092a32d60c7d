//! What a dashboard watches in real time: delivery outcomes, the state of a
//! service's connection, and billing notices. No message content.

use crate::json::{
    fields_of, json_object, json_text, int_field, text_field, bool_field, Field, JsonValue, JsonView,
};
use crate::table::opt_text;
use crate::util::now_secs;
use vstd::prelude::*;

verus! {

/// How many live events wait for a slow subscriber before the oldest are
/// dropped.
pub const CAPACITY: usize = 1024;

/// A billing notice.
#[derive(Debug, Clone, Copy, PartialEq, Eq, Structural)]
pub enum NoticeKind {
    /// A paid month is about to end.
    WatchEnding,
    /// A paid month ended without a renewal; the service stopped.
    WatchStopped,
    /// The credit pool is running low.
    LowPool,
}

impl NoticeKind {
    /// The wire name.
    pub open spec fn name(self) -> Seq<char> {
        match self {
            NoticeKind::WatchEnding => "watch_ending"@,
            NoticeKind::WatchStopped => "watch_stopped"@,
            NoticeKind::LowPool => "low_pool"@,
        }
    }

    /// The wire name of the notice.
    pub fn as_str(&self) -> (r: &'static str)
        ensures
            r@ == self.name(),
    {
        match self {
            NoticeKind::WatchEnding => "watch_ending",
            NoticeKind::WatchStopped => "watch_stopped",
            NoticeKind::LowPool => "low_pool",
        }
    }
}

/// The state of a service's connection.
#[derive(Debug, Clone, Copy, PartialEq, Eq, Structural)]
pub enum WatchState {
    /// Connected, authenticated and waiting for changes.
    Watching,
    /// Between connections.
    Reconnecting,
    /// The last attempt failed.
    Error,
    /// Stopped: paused, removed or shutting down.
    Stopped,
}

impl WatchState {
    /// The wire name.
    pub open spec fn name(self) -> Seq<char> {
        match self {
            WatchState::Watching => "watching"@,
            WatchState::Reconnecting => "reconnecting"@,
            WatchState::Error => "error"@,
            WatchState::Stopped => "stopped"@,
        }
    }

    /// The wire name of the state.
    pub fn as_str(&self) -> (r: &'static str)
        ensures
            r@ == self.name(),
    {
        match self {
            WatchState::Watching => "watching",
            WatchState::Reconnecting => "reconnecting",
            WatchState::Error => "error",
            WatchState::Stopped => "stopped",
        }
    }
}

/// One thing worth showing on a live dashboard.
#[derive(Debug)]
pub enum LiveEvent {
    /// A delivery completed, with success or for good.
    Delivery {
        account: String,
        event: &'static str,
        uid: u32,
        ok: bool,
        status: Option<u16>,
        attempts: u32,
        at: i64,
    },
    /// A service's connection changed state.
    Status { account: String, state: WatchState, detail: Option<String>, at: i64 },
    /// A billing notice.
    Notice { account: String, kind: NoticeKind, detail: Option<String>, at: i64 },
}

impl LiveEvent {
    /// The stream name of the event.
    pub fn name(&self) -> (r: &'static str)
        ensures
            r@ == (match self {
                LiveEvent::Delivery { .. } => "delivery"@,
                LiveEvent::Status { .. } => "status"@,
                LiveEvent::Notice { .. } => "notice"@,
            }),
    {
        match self {
            LiveEvent::Delivery { .. } => "delivery",
            LiveEvent::Status { .. } => "status",
            LiveEvent::Notice { .. } => "notice",
        }
    }

    /// Whether this is a delivery outcome with these parts.
    pub open spec fn is_delivery(
        self,
        name: Seq<char>,
        kind: Seq<char>,
        number: u32,
        acked: bool,
        code: Option<u16>,
        tries: u32,
    ) -> bool {
        match self {
            LiveEvent::Delivery { account, event, uid, ok, status, attempts, at } => {
                &&& account@ == name
                &&& event@ == kind
                &&& uid == number
                &&& ok == acked
                &&& status == code
                &&& attempts == tries
            },
            _ => false,
        }
    }

    /// Whether this is a change of state with these parts.
    pub open spec fn is_status(
        self,
        name: Seq<char>,
        to: WatchState,
        why: Option<Seq<char>>,
    ) -> bool {
        match self {
            LiveEvent::Status { account, state, detail, at } => {
                account@ == name && state == to && opt_text(detail) == why
            },
            _ => false,
        }
    }

    /// Whether this is a notice with these parts.
    pub open spec fn is_notice(
        self,
        name: Seq<char>,
        what: NoticeKind,
        why: Option<Seq<char>>,
    ) -> bool {
        match self {
            LiveEvent::Notice { account, kind, detail, at } => {
                account@ == name && kind == what && opt_text(detail) == why
            },
            _ => false,
        }
    }

    /// When the event happened.
    pub open spec fn time(self) -> i64 {
        match self {
            LiveEvent::Delivery { at, .. } => at,
            LiveEvent::Status { at, .. } => at,
            LiveEvent::Notice { at, .. } => at,
        }
    }

    /// A delivery outcome at a time.
    pub fn delivery_at(
        account: &str,
        event: &'static str,
        uid: u32,
        ok: bool,
        status: Option<u16>,
        attempts: u32,
        at: i64,
    ) -> (r: LiveEvent)
        ensures
            r.is_delivery(account@, event@, uid, ok, status, attempts),
            r.time() == at,
    {
        LiveEvent::Delivery { account: account.to_owned(), event, uid, ok, status, attempts, at }
    }

    /// A delivery outcome stamped now.
    pub fn delivery(
        account: &str,
        event: &'static str,
        uid: u32,
        ok: bool,
        status: Option<u16>,
        attempts: u32,
    ) -> (r: LiveEvent)
        ensures
            r.is_delivery(account@, event@, uid, ok, status, attempts),
    {
        let at: i64 = now_secs();
        Self::delivery_at(account, event, uid, ok, status, attempts, at)
    }

    /// A change of state at a time.
    pub fn status_at(account: &str, state: WatchState, detail: Option<String>, at: i64) -> (r: LiveEvent)
        ensures
            r.is_status(account@, state, opt_text(detail)),
            r.time() == at,
    {
        LiveEvent::Status { account: account.to_owned(), state, detail, at }
    }

    /// A change of state stamped now.
    pub fn status(account: &str, state: WatchState, detail: Option<String>) -> (r: LiveEvent)
        ensures
            r.is_status(account@, state, opt_text(detail)),
    {
        let at: i64 = now_secs();
        Self::status_at(account, state, detail, at)
    }

    /// A billing notice at a time.
    pub fn notice_at(account: &str, kind: NoticeKind, detail: Option<String>, at: i64) -> (r: LiveEvent)
        ensures
            r.is_notice(account@, kind, opt_text(detail)),
            r.time() == at,
    {
        LiveEvent::Notice { account: account.to_owned(), kind, detail, at }
    }

    /// A billing notice stamped now.
    pub fn notice(account: &str, kind: NoticeKind, detail: Option<String>) -> (r: LiveEvent)
        ensures
            r.is_notice(account@, kind, opt_text(detail)),
    {
        let at: i64 = now_secs();
        Self::notice_at(account, kind, detail, at)
    }

    /// What a subscriber is sent of the event.
    pub open spec fn fields(self) -> Seq<(Seq<char>, JsonView)> {
        match self {
            LiveEvent::Delivery { account, event, uid, ok, status, attempts, at } => seq![
                ("type"@, JsonView::Text("delivery"@)),
                ("account"@, JsonView::Text(account@)),
                ("event"@, JsonView::Text(event@)),
                ("uid"@, JsonView::Int(uid as int)),
                ("ok"@, JsonView::Bool(ok)),
                ("status"@, opt_number(status)),
                ("attempts"@, JsonView::Int(attempts as int)),
                ("at"@, JsonView::Int(at as int)),
            ],
            LiveEvent::Status { account, state, detail, at } => seq![
                ("type"@, JsonView::Text("status"@)),
                ("account"@, JsonView::Text(account@)),
                ("state"@, JsonView::Text(state.name())),
                ("detail"@, opt_detail(opt_text(detail))),
                ("at"@, JsonView::Int(at as int)),
            ],
            LiveEvent::Notice { account, kind, detail, at } => seq![
                ("type"@, JsonView::Text("notice"@)),
                ("account"@, JsonView::Text(account@)),
                ("kind"@, JsonView::Text(kind.name())),
                ("detail"@, opt_detail(opt_text(detail))),
                ("at"@, JsonView::Int(at as int)),
            ],
        }
    }

    /// The text a subscriber is sent.
    pub fn payload(&self) -> (r: String)
        ensures
            r@ == json_text(self.fields()),
    {
        let mut out: Vec<Field> = Vec::new();
        out.push(text_field("type", self.name()));
        match self {
            LiveEvent::Delivery { account, event, uid, ok, status, attempts, at } => {
                out.push(text_field("account", account.as_str()));
                out.push(text_field("event", event));
                out.push(int_field("uid", *uid as i64));
                out.push(bool_field("ok", *ok));
                out.push(
                    Field {
                        name: "status".to_owned(),
                        value: match status {
                            Some(n) => JsonValue::Int(*n as i64),
                            None => JsonValue::Null,
                        },
                    },
                );
                out.push(int_field("attempts", *attempts as i64));
                out.push(int_field("at", *at));
            },
            LiveEvent::Status { account, state, detail, at } => {
                out.push(text_field("account", account.as_str()));
                out.push(text_field("state", state.as_str()));
                out.push(detail_field(detail));
                out.push(int_field("at", *at));
            },
            LiveEvent::Notice { account, kind, detail, at } => {
                out.push(text_field("account", account.as_str()));
                out.push(text_field("kind", kind.as_str()));
                out.push(detail_field(detail));
                out.push(int_field("at", *at));
            },
        }
        assert(fields_of(out@) =~= self.fields());
        json_object(&out)
    }
}

/// An optional number as it is sent.
pub open spec fn opt_number(n: Option<u16>) -> JsonView {
    match n {
        Some(n) => JsonView::Int(n as int),
        None => JsonView::Null,
    }
}

/// An optional text as it is sent.
pub open spec fn opt_detail(t: Option<Seq<char>>) -> JsonView {
    match t {
        Some(t) => JsonView::Text(t),
        None => JsonView::Null,
    }
}

pub(crate) fn detail_field(detail: &Option<String>) -> (r: Field)
    ensures
        (r.name@, r.value@) == ("detail"@, opt_detail(opt_text(*detail))),
{
    Field {
        name: "detail".to_owned(),
        value: match detail {
            Some(t) => JsonValue::Text(t.clone()),
            None => JsonValue::Null,
        },
    }
}

/// A live event and the account it concerns. The account is for routing; a
/// subscriber is sent the event alone.
#[derive(Debug)]
pub struct Routed {
    /// The account the event concerns.
    pub account_id: String,
    /// The event.
    pub event: LiveEvent,
}

impl Routed {
    /// Tags a live event with the account it concerns.
    pub fn new(account_id: &str, event: LiveEvent) -> (r: Routed)
        ensures
            r.account_id@ == account_id@,
            r.event == event,
    {
        Routed { account_id: account_id.to_owned(), event }
    }

    /// Whether a subscriber is shown the event: one without a scope is shown
    /// everything, any other its own account.
    pub fn visible(&self, scope: &Option<String>) -> (r: bool)
        ensures
            r == (opt_text(*scope) matches Some(id) ==> self.account_id@ == id),
    {
        match scope {
            None => true,
            Some(id) => crate::text::same(self.account_id.as_str(), id.as_str()),
        }
    }
}

// --- laws ---

/// A notice and a state go by their own names on the wire, and no two of them
/// share one.
pub proof fn notices_and_states_are_told_apart(
    a: NoticeKind,
    b: NoticeKind,
    s: WatchState,
    t: WatchState,
)
    ensures
        NoticeKind::WatchEnding.name() == "watch_ending"@,
        NoticeKind::WatchStopped.name() == "watch_stopped"@,
        NoticeKind::LowPool.name() == "low_pool"@,
        WatchState::Watching.name() == "watching"@,
        WatchState::Reconnecting.name() == "reconnecting"@,
        WatchState::Error.name() == "error"@,
        WatchState::Stopped.name() == "stopped"@,
        a.name() == b.name() ==> a == b,
        s.name() == t.name() ==> s == t,
{
    reveal_strlit("watch_ending");
    reveal_strlit("watch_stopped");
    reveal_strlit("low_pool");
    reveal_strlit("watching");
    reveal_strlit("reconnecting");
    reveal_strlit("error");
    reveal_strlit("stopped");
    assert("watch_ending"@.len() == 12 && "watch_stopped"@.len() == 13 && "low_pool"@.len() == 8);
    assert("watching"@.len() == 8 && "reconnecting"@.len() == 12 && "error"@.len() == 5);
    assert("stopped"@.len() == 7);
}

/// A subscriber is told of a delivery the service, the kind of change, the
/// message, whether and with what status it was acknowledged, how many attempts
/// it took, and when.
pub proof fn delivery_is_shown_as_it_was(
    e: LiveEvent,
    name: Seq<char>,
    kind: Seq<char>,
    uid: u32,
    ok: bool,
    status: Option<u16>,
    attempts: u32,
)
    requires
        e.is_delivery(name, kind, uid, ok, status, attempts),
    ensures
        e.fields().contains(("type"@, JsonView::Text("delivery"@))),
        e.fields().contains(("account"@, JsonView::Text(name))),
        e.fields().contains(("event"@, JsonView::Text(kind))),
        e.fields().contains(("uid"@, JsonView::Int(uid as int))),
        e.fields().contains(("ok"@, JsonView::Bool(ok))),
        status matches Some(n) ==> e.fields().contains(("status"@, JsonView::Int(n as int))),
        status is None ==> e.fields().contains(("status"@, JsonView::Null)),
        e.fields().contains(("attempts"@, JsonView::Int(attempts as int))),
        e.fields().contains(("at"@, JsonView::Int(e.time() as int))),
        e.fields().len() == 8,
{
    let f = e.fields();
    assert(f[0] == ("type"@, JsonView::Text("delivery"@)));
    assert(f[1] == ("account"@, JsonView::Text(name)));
    assert(f[2] == ("event"@, JsonView::Text(kind)));
    assert(f[3] == ("uid"@, JsonView::Int(uid as int)));
    assert(f[4] == ("ok"@, JsonView::Bool(ok)));
    assert(f[5].0 == "status"@);
    assert(f[6] == ("attempts"@, JsonView::Int(attempts as int)));
    assert(f[7] == ("at"@, JsonView::Int(e.time() as int)));
    match status {
        Some(n) => {
            assert(f[5] == ("status"@, JsonView::Int(n as int)));
        },
        None => {
            assert(f[5] == ("status"@, JsonView::Null));
        },
    }
}

/// A subscriber is told of a change of state the service, the state and why, and
/// when.
pub proof fn state_is_shown_as_it_is(
    e: LiveEvent,
    name: Seq<char>,
    to: WatchState,
    why: Option<Seq<char>>,
)
    requires
        e.is_status(name, to, why),
    ensures
        e.fields().contains(("type"@, JsonView::Text("status"@))),
        e.fields().contains(("account"@, JsonView::Text(name))),
        e.fields().contains(("state"@, JsonView::Text(to.name()))),
        why matches Some(w) ==> e.fields().contains(("detail"@, JsonView::Text(w))),
        why is None ==> e.fields().contains(("detail"@, JsonView::Null)),
        e.fields().contains(("at"@, JsonView::Int(e.time() as int))),
        e.fields().len() == 5,
{
    let f = e.fields();
    assert(f[0] == ("type"@, JsonView::Text("status"@)));
    assert(f[1] == ("account"@, JsonView::Text(name)));
    assert(f[2] == ("state"@, JsonView::Text(to.name())));
    assert(f[4] == ("at"@, JsonView::Int(e.time() as int)));
    match why {
        Some(w) => {
            assert(f[3] == ("detail"@, JsonView::Text(w)));
        },
        None => {
            assert(f[3] == ("detail"@, JsonView::Null));
        },
    }
}

/// A subscriber is told of a notice what it is about, its kind and detail, and
/// when.
pub proof fn notice_is_shown_as_it_is(
    e: LiveEvent,
    name: Seq<char>,
    what: NoticeKind,
    why: Option<Seq<char>>,
)
    requires
        e.is_notice(name, what, why),
    ensures
        e.fields().contains(("type"@, JsonView::Text("notice"@))),
        e.fields().contains(("account"@, JsonView::Text(name))),
        e.fields().contains(("kind"@, JsonView::Text(what.name()))),
        why matches Some(w) ==> e.fields().contains(("detail"@, JsonView::Text(w))),
        why is None ==> e.fields().contains(("detail"@, JsonView::Null)),
        e.fields().contains(("at"@, JsonView::Int(e.time() as int))),
        e.fields().len() == 5,
{
    let f = e.fields();
    assert(f[0] == ("type"@, JsonView::Text("notice"@)));
    assert(f[1] == ("account"@, JsonView::Text(name)));
    assert(f[2] == ("kind"@, JsonView::Text(what.name())));
    assert(f[4] == ("at"@, JsonView::Int(e.time() as int)));
    match why {
        Some(w) => {
            assert(f[3] == ("detail"@, JsonView::Text(w)));
        },
        None => {
            assert(f[3] == ("detail"@, JsonView::Null));
        },
    }
}

} // verus!
