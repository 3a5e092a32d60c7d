//! Delivery: where a signal is posted, how it is signed, when it is tried
//! again, and what is recorded of it.

use crate::digest::utf8;
use crate::event::ChangeEvent;
use crate::guard::is_zero_to;
use crate::json::{
    fields_of, int_field, json_object, json_text, text_field, Field, JsonView,
};
use crate::live::{LiveEvent, Routed};
use crate::rows::{DeliveryRow, Watch};
use crate::signature::{code_of, codes_of, header_of, sign, signed_header_is_valid, timestamp_of};
use crate::store::{watch_is, DeliveryOutcome, Store};
use crate::table::{appended, first_where, opt_text};
use crate::text::{join2, lower_of, same, split_of, to_lower};
use crate::weburl::{pair, pairs_of, parse_url, url_of, UrlHost, UrlHostView, WebUrl, WebUrlView};
use vstd::prelude::*;

verus! {

/// Give up after this many attempts.
pub const MAX_ATTEMPTS: u32 = 3;

/// How many deliveries are under way at once.
pub const CONCURRENCY: usize = 64;

// --- where to post ---

/// Whether a host is this machine: a loopback address or `localhost`.
pub open spec fn loopback(host: Option<UrlHostView>) -> bool {
    match host {
        Some(UrlHostView::V4(o)) => o[0] == 127,
        Some(UrlHostView::V6(o)) => crate::guard::all_zero(o, 0, 15) && o[15] == 1,
        Some(UrlHostView::Domain(name)) => lower_of(name) == "localhost"@,
        None => false,
    }
}

/// Whether a URL's host is a loopback address or `localhost`.
pub fn is_loopback(url: &WebUrl) -> (r: bool)
    ensures
        r == loopback(url@.host),
{
    match &url.host {
        Some(UrlHost::V4(o)) => o[0] == 127,
        Some(UrlHost::V6(o)) => is_zero_to(o, 15) && o[15] == 1,
        Some(UrlHost::Domain(name)) => same(to_lower(name.as_str()).as_str(), "localhost"),
        None => false,
    }
}

/// Why an endpoint is refused.
#[derive(Debug)]
pub enum NotifyUrlError {
    /// The text is no URL.
    NotAUrl(String),
    /// Plain HTTP to another machine.
    PlainHttp,
    /// Neither HTTPS nor HTTP.
    Scheme(String),
}

impl NotifyUrlError {
    /// What to tell the caller.
    pub open spec fn text(self) -> Seq<char> {
        match self {
            NotifyUrlError::NotAUrl(why) => "not a valid URL: "@ + why@,
            NotifyUrlError::PlainHttp =>
                "notify URL must be https:// (plain http is only allowed to loopback)"@,
            NotifyUrlError::Scheme(scheme) => "notify URL scheme must be https, got "@ + scheme@
                + "://"@,
        }
    }

    /// What to tell the caller.
    pub fn message(&self) -> (r: String)
        ensures
            r@ == self.text(),
    {
        match self {
            NotifyUrlError::NotAUrl(why) => join2("not a valid URL: ", why.as_str()),
            NotifyUrlError::PlainHttp => {
                "notify URL must be https:// (plain http is only allowed to loopback)".to_owned()
            },
            NotifyUrlError::Scheme(scheme) => {
                let mut out = "notify URL scheme must be https, got ".to_owned();
                out.append(scheme.as_str());
                out.append("://");
                out
            },
        }
    }
}

/// Whether an endpoint is taken: HTTPS, or HTTP to this machine.
pub open spec fn notify_url_allowed(url: WebUrlView) -> bool {
    url.scheme == "https"@ || url.scheme == "http"@ && loopback(url.host)
}

/// Applies the endpoint policy to a parsed URL.
pub fn check_notify_url(url: &WebUrl) -> (r: Result<(), NotifyUrlError>)
    ensures
        r is Ok == notify_url_allowed(url@),
        r matches Err(e) ==> match e {
            NotifyUrlError::NotAUrl(_) => false,
            NotifyUrlError::PlainHttp => url@.scheme == "http"@,
            NotifyUrlError::Scheme(s) => url@.scheme != "http"@ && s@ == url@.scheme,
        },
{
    if same(url.scheme.as_str(), "https") {
        return Ok(());
    }
    if same(url.scheme.as_str(), "http") {
        if is_loopback(url) {
            return Ok(());
        }
        return Err(NotifyUrlError::PlainHttp);
    }
    Err(NotifyUrlError::Scheme(url.scheme.clone()))
}

/// Validates an endpoint: HTTPS only, but for this machine, where plain HTTP
/// leaks nothing and local receivers need it.
pub fn validate_notify_url(url: &str) -> (r: Result<(), NotifyUrlError>)
    ensures
        match url_of(url@) {
            Ok(u) => {
                &&& r is Ok == notify_url_allowed(u)
                &&& r matches Err(e) ==> match e {
                    NotifyUrlError::NotAUrl(_) => false,
                    NotifyUrlError::PlainHttp => u.scheme == "http"@,
                    NotifyUrlError::Scheme(s) => u.scheme != "http"@ && s@ == u.scheme,
                }
            },
            Err(why) => r matches Err(NotifyUrlError::NotAUrl(w)) && w@ == why,
        },
{
    match parse_url(url) {
        Ok(parsed) => check_notify_url(&parsed),
        Err(why) => Err(NotifyUrlError::NotAUrl(why)),
    }
}

// --- what is posted ---

/// A signed request.
pub struct Outgoing {
    pub url: String,
    pub headers: Vec<(String, String)>,
    pub body: String,
}

impl Outgoing {
    /// Whether the request is this one.
    pub open spec fn is(
        self,
        url: Seq<char>,
        headers: Seq<(Seq<char>, Seq<char>)>,
        body: Seq<char>,
    ) -> bool {
        self.url@ == url && pairs_of(self.headers@) == headers && self.body@ == body
    }
}

/// The headers of a change event's delivery.
pub open spec fn event_headers(event: ChangeEvent, signature: Seq<char>) -> Seq<
    (Seq<char>, Seq<char>),
> {
    seq![
        ("content-type"@, "application/json"@),
        ("x-carillon-event"@, event.event.name()),
        ("x-carillon-account"@, event.account@),
        ("x-carillon-id"@, event.id@),
        ("x-carillon-signature"@, signature),
    ]
}

/// The signed request for an event of a service: signed over the event's own
/// time with every secret in force now.
pub fn event_request(watch: &Watch, event: &ChangeEvent, now: i64) -> (r: Outgoing)
    ensures
        ({
            let body = json_text(event.fields());
            r.is(
                watch.notify_url@,
                event_headers(
                    *event,
                    header_of(watch.secrets_at(now as int), event.ts as int, utf8(body)),
                ),
                body,
            )
        }),
{
    let body = event.payload();
    let secrets = watch.signing_secrets(now);
    let signature = sign(secrets.as_slice(), event.ts, body.as_str().as_bytes());
    let mut headers: Vec<(String, String)> = Vec::new();
    headers.push(pair("content-type", "application/json"));
    headers.push(pair("x-carillon-event", event.event.as_str()));
    headers.push(pair("x-carillon-account", event.account.as_str()));
    headers.push(pair("x-carillon-id", event.id.as_str()));
    headers.push(pair("x-carillon-signature", signature.as_str()));
    assert(pairs_of(headers@) =~= event_headers(*event, signature@));
    Outgoing { url: watch.notify_url.clone(), headers, body }
}

/// The service an event is delivered for, and the signed request; nothing
/// where the service is unknown.
pub fn prepare_delivery(store: &Store, event: &ChangeEvent, now: i64) -> (r: Option<
    (Watch, Outgoing),
>)
    ensures
        match r {
            Some((watch, out)) => {
                let body = json_text(event.fields());
                &&& first_where(store.watches@, watch_is(event.account@)) == Some(watch)
                &&& out.is(
                    watch.notify_url@,
                    event_headers(
                        *event,
                        header_of(watch.secrets_at(now as int), event.ts as int, utf8(body)),
                    ),
                    body,
                )
            },
            None => first_where(store.watches@, watch_is(event.account@)) is None,
        },
{
    match store.get_watch(event.account.as_str()) {
        Some(watch) => {
            let out = event_request(&watch, event, now);
            Some((watch, out))
        },
        None => None,
    }
}

/// The body of a notice.
pub open spec fn notice_fields(watch: Watch, kind: Seq<char>, ts: int) -> Seq<
    (Seq<char>, JsonView),
> {
    seq![
        ("account"@, JsonView::Text(watch.id@)),
        ("notice"@, JsonView::Text(kind)),
        ("ts"@, JsonView::Int(ts)),
        ("type"@, JsonView::Text("notice"@)),
    ]
}

/// The signed request that tells a service's endpoint of a notice. It is sent
/// once: a notice is advisory.
pub fn notice_request(watch: &Watch, kind: &str, ts: i64) -> (r: Outgoing)
    ensures
        ({
            let body = json_text(notice_fields(*watch, kind@, ts as int));
            r.is(
                watch.notify_url@,
                seq![
                    ("content-type"@, "application/json"@),
                    ("x-carillon-event"@, "notice"@),
                    ("x-carillon-account"@, watch.id@),
                    (
                        "x-carillon-signature"@,
                        header_of(watch.secrets_at(ts as int), ts as int, utf8(body)),
                    ),
                ],
                body,
            )
        }),
{
    let mut out: Vec<Field> = Vec::new();
    out.push(text_field("account", watch.id.as_str()));
    out.push(text_field("notice", kind));
    out.push(int_field("ts", ts));
    out.push(text_field("type", "notice"));
    assert(fields_of(out@) =~= notice_fields(*watch, kind@, ts as int));
    let body = json_object(&out);
    let secrets = watch.signing_secrets(ts);
    let signature = sign(secrets.as_slice(), ts, body.as_str().as_bytes());
    let mut headers: Vec<(String, String)> = Vec::new();
    headers.push(pair("content-type", "application/json"));
    headers.push(pair("x-carillon-event", "notice"));
    headers.push(pair("x-carillon-account", watch.id.as_str()));
    headers.push(pair("x-carillon-signature", signature.as_str()));
    assert(pairs_of(headers@) =~= seq![
        ("content-type"@, "application/json"@),
        ("x-carillon-event"@, "notice"@),
        ("x-carillon-account"@, watch.id@),
        ("x-carillon-signature"@, signature@),
    ]);
    Outgoing { url: watch.notify_url.clone(), headers, body }
}

/// The body of a test event.
pub open spec fn test_fields(ts: int) -> Seq<(Seq<char>, JsonView)> {
    seq![
        ("event"@, JsonView::Text("test"@)),
        ("ts"@, JsonView::Int(ts)),
        ("type"@, JsonView::Text("test"@)),
        ("uid"@, JsonView::Int(0)),
    ]
}

/// The signed request of a test event, signed like a delivery with the one
/// secret given.
pub fn test_request(notify_url: &str, secret: &str, ts: i64) -> (r: Outgoing)
    ensures
        ({
            let body = json_text(test_fields(ts as int));
            r.is(
                notify_url@,
                seq![
                    ("content-type"@, "application/json"@),
                    ("x-carillon-event"@, "test"@),
                    (
                        "x-carillon-signature"@,
                        header_of(seq![secret@], ts as int, utf8(body)),
                    ),
                ],
                body,
            )
        }),
{
    let mut out: Vec<Field> = Vec::new();
    out.push(text_field("event", "test"));
    out.push(int_field("ts", ts));
    out.push(text_field("type", "test"));
    out.push(int_field("uid", 0));
    assert(fields_of(out@) =~= test_fields(ts as int));
    let body = json_object(&out);
    let mut secrets: Vec<&str> = Vec::new();
    secrets.push(secret);
    assert(crate::signature::strs(secrets@) =~= seq![secret@]);
    let signature = sign(secrets.as_slice(), ts, body.as_str().as_bytes());
    let mut headers: Vec<(String, String)> = Vec::new();
    headers.push(pair("content-type", "application/json"));
    headers.push(pair("x-carillon-event", "test"));
    headers.push(pair("x-carillon-signature", signature.as_str()));
    assert(pairs_of(headers@) =~= seq![
        ("content-type"@, "application/json"@),
        ("x-carillon-event"@, "test"@),
        ("x-carillon-signature"@, signature@),
    ]);
    Outgoing { url: notify_url.to_owned(), headers, body }
}

// --- trying and trying again ---

/// What came back of an attempt.
#[derive(Debug)]
pub enum Reply {
    /// A response: its status, and the status as it is written out.
    Status { code: u16, text: String },
    /// No response, and why.
    Failed(String),
}

pub open spec fn is_success(code: u16) -> bool {
    200 <= code <= 299
}

pub open spec fn is_server_error(code: u16) -> bool {
    500 <= code <= 599
}

/// How far a delivery has come.
#[derive(Debug)]
pub struct Progress {
    /// Attempts made.
    pub attempts: u32,
    /// The last status that came back.
    pub last_status: Option<u16>,
    /// What went wrong last.
    pub last_error: Option<String>,
    /// Whether the endpoint acknowledged.
    pub ok: bool,
}

/// What to do next about a delivery.
#[derive(Debug, Clone, Copy, PartialEq, Eq, Structural)]
pub enum Next {
    /// Nothing more.
    Done,
    /// Wait so many milliseconds, and try again.
    Retry { wait_ms: u64 },
}

/// How long to wait after so many attempts, in milliseconds.
pub open spec fn retry_wait(attempts: int) -> int {
    if attempts == 1 {
        500
    } else {
        1000
    }
}

impl Progress {
    /// No attempt made yet.
    pub fn new() -> (r: Progress)
        ensures
            r.attempts == 0,
            r.last_status is None,
            r.last_error is None,
            !r.ok,
    {
        Progress { attempts: 0, last_status: None, last_error: None, ok: false }
    }

    /// What an attempt makes of the progress, and what is next: an
    /// acknowledgement ends the delivery, with nothing wrong any more, and so
    /// does a refusal that trying again would not change; any other failure is
    /// tried again, three times in all, after half a second and then a second.
    pub open spec fn attempted(self, after: Progress, reply: Reply, next: Next) -> bool {
        let again = if after.attempts < MAX_ATTEMPTS {
            Next::Retry { wait_ms: retry_wait(after.attempts as int) as u64 }
        } else {
            Next::Done
        };
        &&& after.attempts == self.attempts + 1
        &&& match reply {
            Reply::Status { code, text } => {
                &&& after.last_status == Some(code)
                &&& after.ok == is_success(code)
                &&& if is_success(code) {
                    &&& after.last_error is None
                    &&& next == Next::Done
                } else {
                    &&& opt_text(after.last_error) == Some("HTTP "@ + text@)
                    &&& next == if is_server_error(code) {
                        again
                    } else {
                        Next::Done
                    }
                }
            },
            Reply::Failed(why) => {
                &&& !after.ok
                &&& after.last_status == self.last_status
                &&& after.last_error == Some(why)
                &&& next == again
            },
        }
    }

    /// Takes in what came back of an attempt.
    pub fn on_reply(&mut self, reply: Reply) -> (r: Next)
        requires
            old(self).attempts < MAX_ATTEMPTS,
        ensures
            old(self).attempted(*final(self), reply, r),
            final(self).ok <==> final(self).last_error is None,
    {
        self.attempts = self.attempts + 1;
        self.ok = false;
        match reply {
            Reply::Status { code, text } => {
                self.last_status = Some(code);
                if 200 <= code && code <= 299 {
                    self.ok = true;
                    self.last_error = None;
                    return Next::Done;
                }
                self.last_error = Some(join2("HTTP ", text.as_str()));
                if !(500 <= code && code <= 599) {
                    return Next::Done;
                }
            },
            Reply::Failed(why) => {
                self.last_error = Some(why);
            },
        }
        if self.attempts < MAX_ATTEMPTS {
            let wait_ms: u64 = if self.attempts == 1 {
                500
            } else {
                1000
            };
            Next::Retry { wait_ms }
        } else {
            Next::Done
        }
    }
}

/// Whether a row records a delivery as it ended: with an error only where it
/// failed.
pub open spec fn records(row: DeliveryRow, event: ChangeEvent, progress: Progress, at: i64) -> bool {
    &&& row.account@ == event.account@
    &&& row.event@ == event.event.name()
    &&& row.uid == event.uid
    &&& row.ok == progress.ok
    &&& row.status == progress.last_status
    &&& opt_text(row.error) == if progress.ok {
        None
    } else {
        opt_text(progress.last_error)
    }
    &&& row.attempts == progress.attempts
    &&& row.at == at
}

/// What the dashboard of a service's owner is told of a delivery as it ended.
pub fn delivery_event(watch: &Watch, event: &ChangeEvent, progress: &Progress, now: i64) -> (r:
    Routed)
    ensures
        r.account_id@ == watch.account_id@,
        r.event.is_delivery(
            event.account@,
            event.event.name(),
            event.uid,
            progress.ok,
            progress.last_status,
            progress.attempts,
        ),
        r.event.time() == now,
{
    Routed::new(
        watch.account_id.as_str(),
        LiveEvent::delivery_at(
            event.account.as_str(),
            event.event.as_str(),
            event.uid,
            progress.ok,
            progress.last_status,
            progress.attempts,
            now,
        ),
    )
}

/// Records a delivery as it ended.
pub fn record_delivery(store: &mut Store, event: &ChangeEvent, progress: &Progress, now: i64)
    ensures
        appended(old(store).deliveries@, final(store).deliveries@),
        records(final(store).deliveries@.last(), *event, *progress, now),
        *final(store) == (Store { deliveries: final(store).deliveries, ..*old(store) }),
        old(store).wf() ==> final(store).wf(),
{
    let outcome = DeliveryOutcome {
        account: event.account.as_str(),
        event: event.event.as_str(),
        uid: event.uid,
        ok: progress.ok,
        status: progress.last_status,
        error: match &progress.last_error {
            Some(why) if !progress.ok => Some(why.as_str()),
            _ => None,
        },
        attempts: progress.attempts,
    };
    store.log_delivery_at(&outcome, now);
}

/// The outcome of a test event: sent once, never tried again.
#[derive(Debug)]
pub struct TestOutcome {
    /// The endpoint acknowledged (2xx).
    pub ok: bool,
    /// The status, if there was a response.
    pub status: Option<u16>,
    /// Why it was not acknowledged.
    pub error: Option<String>,
}

/// What came of a test event.
pub fn test_outcome(reply: Reply) -> (r: TestOutcome)
    ensures
        match reply {
            Reply::Status { code, text } => {
                &&& r.ok == is_success(code)
                &&& r.status == Some(code)
                &&& opt_text(r.error) == (if is_success(code) {
                    None
                } else {
                    Some("endpoint returned HTTP "@ + text@)
                })
            },
            Reply::Failed(why) => !r.ok && r.status is None && r.error == Some(why),
        },
{
    match reply {
        Reply::Status { code, text } => {
            let ok = 200 <= code && code <= 299;
            TestOutcome {
                ok,
                status: Some(code),
                error: if ok {
                    None
                } else {
                    Some(join2("endpoint returned HTTP ", text.as_str()))
                },
            }
        },
        Reply::Failed(why) => TestOutcome { ok: false, status: None, error: Some(why) },
    }
}

// --- laws ---

/// However many attempts failed before, a delivery that is acknowledged is
/// recorded as acknowledged and without an error; one that failed is recorded
/// with the error of its last attempt.
pub proof fn errors_are_of_failed_deliveries(
    before: Progress,
    after: Progress,
    reply: Reply,
    next: Next,
    row: DeliveryRow,
    event: ChangeEvent,
    at: i64,
)
    requires
        before.attempted(after, reply, next),
        records(row, event, after, at),
    ensures
        row.ok <==> (reply matches Reply::Status { code, .. } && is_success(code)),
        row.ok <==> row.error is None,
        !row.ok ==> opt_text(row.error) == Some(
            match reply {
                Reply::Status { text, .. } => "HTTP "@ + text@,
                Reply::Failed(why) => why@,
            },
        ),
{
}

/// The header of a delivery is valid to a receiver that holds the service's
/// current secret, and, while a rotation overlaps, to one that still holds the
/// previous secret.
pub proof fn delivery_verifies(watch: Watch, now: int, ts: int, body: Seq<u8>)
    requires
        i64::MIN <= ts <= i64::MAX,
    ensures
        ({
            let parts = split_of(header_of(watch.secrets_at(now), ts, body), ',');
            &&& timestamp_of(parts, false) == Some(ts)
            &&& codes_of(parts, false).contains(code_of(watch.hmac_secret@, ts, body))
            &&& (watch.hmac_secret_prev matches Some(prev) && watch.hmac_secret_prev_expires matches Some(
                expires,
            ) && now < expires) ==> codes_of(parts, false).contains(
                code_of(watch.hmac_secret_prev->0@, ts, body),
            )
        }),
{
    let secrets = watch.secrets_at(now);
    signed_header_is_valid(secrets, 0, ts, body);
    if secrets.len() == 2 {
        signed_header_is_valid(secrets, 1, ts, body);
    }
}

/// A delivery is tried three times at most, and every attempt but the last
/// waits before the next.
pub proof fn delivery_is_bounded(before: Progress, after: Progress, reply: Reply, next: Next)
    requires
        before.attempts < MAX_ATTEMPTS,
        before.attempted(after, reply, next),
    ensures
        after.attempts <= MAX_ATTEMPTS,
        after.attempts == MAX_ATTEMPTS ==> next == Next::Done,
        next is Retry ==> !after.ok,
        reply matches Reply::Status { code, text } && 400 <= code <= 499 ==> next == Next::Done,
{
}

/// A server error is tried again until three attempts were made: whatever the
/// status from 500 to 599, the first is followed by another after half a
/// second, the second after a second, and the third is the last.
pub proof fn server_errors_are_tried_again(
    before: Progress,
    after: Progress,
    code: u16,
    text: String,
    next: Next,
)
    requires
        before.attempted(after, Reply::Status { code, text }, next),
        500 <= code <= 599,
    ensures
        !after.ok,
        before.attempts == 0 ==> next == (Next::Retry { wait_ms: 500 }),
        before.attempts == 1 ==> next == (Next::Retry { wait_ms: 1000 }),
        before.attempts >= 2 ==> next == Next::Done,
{
}

/// An attempt that brought no response is tried again as a server error is.
pub proof fn silence_is_tried_again(
    before: Progress,
    after: Progress,
    why: String,
    next: Next,
)
    requires
        before.attempted(after, Reply::Failed(why), next),
    ensures
        !after.ok,
        after.last_error == Some(why),
        before.attempts == 0 ==> next == (Next::Retry { wait_ms: 500 }),
        before.attempts == 1 ==> next == (Next::Retry { wait_ms: 1000 }),
        before.attempts >= 2 ==> next == Next::Done,
{
}

/// A response that is no server error ends the delivery, however few attempts
/// were made; the endpoint acknowledged exactly where the status is one from
/// 200 to 299.
pub proof fn other_responses_are_final(
    before: Progress,
    after: Progress,
    code: u16,
    text: String,
    next: Next,
)
    requires
        before.attempted(after, Reply::Status { code, text }, next),
        !(500 <= code <= 599),
    ensures
        next == Next::Done,
        after.last_status == Some(code),
        after.ok <==> 200 <= code <= 299,
        after.ok <==> after.last_error is None,
{
}

/// A delivery's request goes to the service's endpoint with the event's own
/// payload, and its headers name the event's kind, service and id.
pub proof fn request_names_its_event(
    watch: Watch,
    event: ChangeEvent,
    signature: Seq<char>,
    out: Outgoing,
    body: Seq<char>,
)
    requires
        out.is(watch.notify_url@, event_headers(event, signature), body),
    ensures
        out.url@ == watch.notify_url@,
        out.body@ == body,
        pairs_of(out.headers@).contains(("content-type"@, "application/json"@)),
        pairs_of(out.headers@).contains(("x-carillon-event"@, event.event.name())),
        pairs_of(out.headers@).contains(("x-carillon-account"@, event.account@)),
        pairs_of(out.headers@).contains(("x-carillon-id"@, event.id@)),
        pairs_of(out.headers@).contains(("x-carillon-signature"@, signature)),
{
    let h = pairs_of(out.headers@);
    assert(h[0] == ("content-type"@, "application/json"@));
    assert(h[1] == ("x-carillon-event"@, event.event.name()));
    assert(h[2] == ("x-carillon-account"@, event.account@));
    assert(h[3] == ("x-carillon-id"@, event.id@));
    assert(h[4] == ("x-carillon-signature"@, signature));
}

/// A notice's payload names the service, the notice and the time, and is marked
/// as a notice.
pub proof fn notice_says_what_it_is(watch: Watch, kind: Seq<char>, ts: int)
    ensures
        notice_fields(watch, kind, ts).contains(("account"@, JsonView::Text(watch.id@))),
        notice_fields(watch, kind, ts).contains(("notice"@, JsonView::Text(kind))),
        notice_fields(watch, kind, ts).contains(("ts"@, JsonView::Int(ts))),
        notice_fields(watch, kind, ts).contains(("type"@, JsonView::Text("notice"@))),
{
    let f = notice_fields(watch, kind, ts);
    assert(f[0] == ("account"@, JsonView::Text(watch.id@)));
    assert(f[1] == ("notice"@, JsonView::Text(kind)));
    assert(f[2] == ("ts"@, JsonView::Int(ts)));
    assert(f[3] == ("type"@, JsonView::Text("notice"@)));
}

/// A test event's payload is marked as a test, and names no message.
pub proof fn test_event_says_what_it_is(ts: int)
    ensures
        test_fields(ts).contains(("type"@, JsonView::Text("test"@))),
        test_fields(ts).contains(("event"@, JsonView::Text("test"@))),
        test_fields(ts).contains(("ts"@, JsonView::Int(ts))),
        test_fields(ts).contains(("uid"@, JsonView::Int(0))),
{
    let f = test_fields(ts);
    assert(f[0] == ("event"@, JsonView::Text("test"@)));
    assert(f[1] == ("ts"@, JsonView::Int(ts)));
    assert(f[2] == ("type"@, JsonView::Text("test"@)));
    assert(f[3] == ("uid"@, JsonView::Int(0)));
}

/// What is recorded of a delivery is the service, kind and message of its
/// event, the last status and how many attempts were made.
pub proof fn record_is_of_its_event(
    row: DeliveryRow,
    event: ChangeEvent,
    progress: Progress,
    at: i64,
)
    requires
        records(row, event, progress, at),
    ensures
        row.account@ == event.account@,
        row.event@ == event.event.name(),
        row.uid == event.uid,
        row.ok == progress.ok,
        row.status == progress.last_status,
        row.attempts == progress.attempts,
        row.at == at,
        progress.ok ==> row.error is None,
        !progress.ok ==> opt_text(row.error) == opt_text(progress.last_error),
{
}

/// An endpoint on another machine is taken over HTTPS alone; plain HTTP reaches
/// this machine alone, which is `localhost` in any case, an address that begins
/// with 127, or the IPv6 address that is all zeros and a one.
pub proof fn plain_http_stays_on_this_machine(url: WebUrlView)
    ensures
        url.scheme == "https"@ ==> notify_url_allowed(url),
        url.scheme != "https"@ && url.scheme != "http"@ ==> !notify_url_allowed(url),
        url.scheme == "http"@ && url.host is None ==> !notify_url_allowed(url),
        url.scheme == "http"@ ==> (url.host matches Some(UrlHostView::V4(o)) ==> (
        notify_url_allowed(url) <==> o[0] == 127)),
        url.scheme == "http"@ ==> (url.host matches Some(UrlHostView::V6(o)) ==> (
        notify_url_allowed(url) <==> o[15] == 1 && forall|i: int|
            0 <= i < 15 ==> #[trigger] o[i] == 0)),
        url.scheme == "http"@ ==> (url.host matches Some(UrlHostView::Domain(name)) ==> (
        notify_url_allowed(url) <==> lower_of(name) == "localhost"@)),
{
    reveal_strlit("https");
    reveal_strlit("http");
    assert("https"@.len() == 5 && "http"@.len() == 4);
}

/// Why an endpoint is refused is told in words.
pub proof fn refused_endpoints_have_their_words(why: String, scheme: String)
    ensures
        NotifyUrlError::NotAUrl(why).text() == "not a valid URL: "@ + why@,
        NotifyUrlError::PlainHttp.text() == "notify URL must be https:// (plain http is only allowed to loopback)"@,
        NotifyUrlError::Scheme(scheme).text() == "notify URL scheme must be https, got "@ + scheme@
                + "://"@,
{
}

/// An event is tried three times at most, and sixty-four of them at a time.
pub proof fn events_are_tried_three_times()
    ensures
        MAX_ATTEMPTS == 3,
        CONCURRENCY == 64,
{
}

} // verus!
