//! What a request is answered that is refused, and the settings that a request
//! may leave out.

use crate::json::{count_field, fields_of, json_object, json_text, text_field, Field, JsonView};
use crate::table::opt_text;
use crate::text::{decimal_of, decimal_u64, join2};
use vstd::prelude::*;

verus! {

/// Why a request is refused.
#[derive(Debug)]
pub enum ApiError {
    /// No capability link, or one that opens nothing.
    Unauthorized,
    BadRequest(String),
    /// The mailbox was not proven to be the caller's.
    NotProven,
    /// The service is there already.
    Exists,
    /// The pool is empty.
    NoCredits,
    /// The account watches as many mailboxes as it may.
    FairUse(usize),
    /// There is no such service, or it is not the caller's.
    NotFound(String),
    /// Too many attempts; so many seconds to wait.
    TooMany(u64),
    /// The mailbox's server refused, and said this.
    AuthenticationFailed(Option<String>),
    /// The sign-in link is unknown, used or too old.
    InvalidSignIn,
    /// The sign-in mail could not be sent.
    MailNotSent,
    /// Something failed here.
    Internal(String),
}

impl ApiError {
    pub open spec fn code(self) -> u16 {
        match self {
            ApiError::Unauthorized => 401,
            ApiError::BadRequest(_) => 400,
            ApiError::NotProven => 403,
            ApiError::Exists => 409,
            ApiError::NoCredits => 402,
            ApiError::FairUse(_) => 402,
            ApiError::NotFound(_) => 404,
            ApiError::TooMany(_) => 429,
            ApiError::AuthenticationFailed(_) => 401,
            ApiError::InvalidSignIn => 401,
            ApiError::MailNotSent => 502,
            ApiError::Internal(_) => 500,
        }
    }

    /// The HTTP status.
    pub fn status(&self) -> (r: u16)
        ensures
            r == self.code(),
    {
        match self {
            ApiError::Unauthorized => 401,
            ApiError::BadRequest(_) => 400,
            ApiError::NotProven => 403,
            ApiError::Exists => 409,
            ApiError::NoCredits => 402,
            ApiError::FairUse(_) => 402,
            ApiError::NotFound(_) => 404,
            ApiError::TooMany(_) => 429,
            ApiError::AuthenticationFailed(_) => 401,
            ApiError::InvalidSignIn => 401,
            ApiError::MailNotSent => 502,
            ApiError::Internal(_) => 500,
        }
    }

    pub open spec fn text(self) -> Seq<char> {
        match self {
            ApiError::Unauthorized => "invalid or missing capability link"@,
            ApiError::BadRequest(message) => message@,
            ApiError::NotProven =>
                "authenticate this mailbox first (POST /auth) before watching it"@,
            ApiError::Exists => "this service already exists (same mailbox and folder)"@,
            ApiError::NoCredits => "no credits — buy a pack to activate this service"@,
            ApiError::FairUse(cap) => "fair-use limit reached ("@ + decimal_of(cap as int)
                + " mailboxes) — get in touch for a volume plan"@,
            ApiError::NotFound(_) => "watch not found"@,
            ApiError::TooMany(_) => "too many attempts"@,
            ApiError::AuthenticationFailed(_) => "authentication failed"@,
            ApiError::InvalidSignIn => "invalid or expired sign-in link"@,
            ApiError::MailNotSent => "could not send the sign-in email; try again"@,
            ApiError::Internal(message) => message@,
        }
    }

    /// What is wrong.
    pub fn message(&self) -> (r: String)
        ensures
            r@ == self.text(),
    {
        match self {
            ApiError::Unauthorized => "invalid or missing capability link".to_owned(),
            ApiError::BadRequest(message) => message.clone(),
            ApiError::NotProven =>
                "authenticate this mailbox first (POST /auth) before watching it".to_owned(),
            ApiError::Exists => "this service already exists (same mailbox and folder)".to_owned(),
            ApiError::NoCredits => "no credits — buy a pack to activate this service".to_owned(),
            ApiError::FairUse(cap) => {
                let number = decimal_u64(*cap as u64);
                let mut out = join2("fair-use limit reached (", number.as_str());
                out.append(" mailboxes) — get in touch for a volume plan");
                out
            },
            ApiError::NotFound(_) => "watch not found".to_owned(),
            ApiError::TooMany(_) => "too many attempts".to_owned(),
            ApiError::AuthenticationFailed(_) => "authentication failed".to_owned(),
            ApiError::InvalidSignIn => "invalid or expired sign-in link".to_owned(),
            ApiError::MailNotSent => "could not send the sign-in email; try again".to_owned(),
            ApiError::Internal(message) => message.clone(),
        }
    }

    /// What the answer says: what is wrong and, for some, a detail.
    pub open spec fn fields(self) -> Seq<(Seq<char>, JsonView)> {
        let error = ("error"@, JsonView::Text(self.text()));
        match self {
            ApiError::FairUse(cap) => seq![error, ("limit"@, JsonView::Int(cap as int))],
            ApiError::NotFound(id) => seq![error, ("id"@, JsonView::Text(id@))],
            ApiError::TooMany(seconds) => seq![
                error,
                ("retry_after"@, JsonView::Int(seconds as int)),
            ],
            ApiError::AuthenticationFailed(detail) => seq![
                ("detail"@, crate::live::opt_detail(opt_text(detail))),
                error,
            ],
            _ => seq![error],
        }
    }

    /// The answer.
    pub fn body(&self) -> (r: String)
        ensures
            r@ == json_text(self.fields()),
    {
        let mut out: Vec<Field> = Vec::new();
        if let ApiError::AuthenticationFailed(detail) = self {
            out.push(crate::live::detail_field(detail));
        }
        let message = self.message();
        out.push(text_field("error", message.as_str()));
        match self {
            ApiError::FairUse(cap) => {
                out.push(count_field("limit", *cap as u64));
            },
            ApiError::NotFound(id) => {
                out.push(text_field("id", id.as_str()));
            },
            ApiError::TooMany(seconds) => {
                out.push(count_field("retry_after", *seconds));
            },
            _ => {},
        }
        assert(fields_of(out@) =~= self.fields());
        json_object(&out)
    }
}

/// The key that a caller's attempts are counted under: where they come from and
/// whom they are about.
pub fn limit_key(ip: &str, who: &str) -> (r: String)
    ensures
        r@ == ip@ + "|"@ + who@,
{
    let mut out = join2(ip, "|");
    out.append(who);
    out
}

/// What a caller is answered that has made too many attempts: to wait until the
/// window is over, and at least a second.
pub fn too_many(wait_nanos: u128) -> (r: ApiError)
    ensures
        r == ApiError::TooMany(
            if wait_nanos < 2_000_000_000 {
                1u64
            } else if wait_nanos / 1_000_000_000 <= u64::MAX {
                (wait_nanos / 1_000_000_000) as u64
            } else {
                u64::MAX
            },
        ),
{
    let secs: u128 = wait_nanos / 1_000_000_000;
    let seconds: u64 = if secs <= 1 {
        1
    } else if secs <= u64::MAX as u128 {
        secs as u64
    } else {
        u64::MAX
    };
    ApiError::TooMany(seconds)
}

// --- what a request may leave out ---

/// The port of IMAP over TLS.
pub fn default_port() -> (r: u16)
    ensures
        r == 993,
{
    993
}

/// The mailbox that everyone has.
pub fn default_mailbox() -> (r: String)
    ensures
        r@ == "INBOX"@,
{
    "INBOX".to_owned()
}

/// Services are created active.
pub fn default_true() -> (r: bool)
    ensures
        r,
{
    true
}

/// How many deliveries are listed.
pub fn default_limit() -> (r: u32)
    ensures
        r == 50,
{
    50
}

/// How many packs are bought.
pub fn default_packs() -> (r: i64)
    ensures
        r == 1,
{
    1
}

/// Every refusal has its HTTP status.
pub proof fn refusals_have_their_status(m: String, n: usize, s: u64, d: Option<String>)
    ensures
        ApiError::BadRequest(m).code() == 400,
        ApiError::Unauthorized.code() == 401,
        ApiError::AuthenticationFailed(d).code() == 401,
        ApiError::InvalidSignIn.code() == 401,
        ApiError::NoCredits.code() == 402,
        ApiError::FairUse(n).code() == 402,
        ApiError::NotProven.code() == 403,
        ApiError::NotFound(m).code() == 404,
        ApiError::Exists.code() == 409,
        ApiError::TooMany(s).code() == 429,
        ApiError::Internal(m).code() == 500,
        ApiError::MailNotSent.code() == 502,
{
}

/// Every refusal says what is wrong, and those that have more to say say it:
/// how many mailboxes may be watched, which service is not there, how long to
/// wait, and what the mailbox's server said.
pub proof fn refusals_say_what_is_wrong(m: String, n: usize, s: u64, d: Option<String>)
    ensures
        ApiError::Unauthorized.fields() == seq![
            ("error"@, JsonView::Text("invalid or missing capability link"@)),
        ],
        ApiError::BadRequest(m).fields() == seq![("error"@, JsonView::Text(m@))],
        ApiError::Internal(m).fields() == seq![("error"@, JsonView::Text(m@))],
        ApiError::NotProven.fields() == seq![
            (
                "error"@,
                JsonView::Text("authenticate this mailbox first (POST /auth) before watching it"@),
            ),
        ],
        ApiError::Exists.fields() == seq![
            ("error"@, JsonView::Text("this service already exists (same mailbox and folder)"@)),
        ],
        ApiError::NoCredits.fields() == seq![
            ("error"@, JsonView::Text("no credits — buy a pack to activate this service"@)),
        ],
        ApiError::InvalidSignIn.fields() == seq![
            ("error"@, JsonView::Text("invalid or expired sign-in link"@)),
        ],
        ApiError::MailNotSent.fields() == seq![
            ("error"@, JsonView::Text("could not send the sign-in email; try again"@)),
        ],
        ApiError::FairUse(n).fields() == seq![
            (
                "error"@,
                JsonView::Text(
                    "fair-use limit reached ("@ + decimal_of(n as int)
                        + " mailboxes) — get in touch for a volume plan"@,
                ),
            ),
            ("limit"@, JsonView::Int(n as int)),
        ],
        ApiError::NotFound(m).fields() == seq![
            ("error"@, JsonView::Text("watch not found"@)),
            ("id"@, JsonView::Text(m@)),
        ],
        ApiError::TooMany(s).fields() == seq![
            ("error"@, JsonView::Text("too many attempts"@)),
            ("retry_after"@, JsonView::Int(s as int)),
        ],
        ApiError::AuthenticationFailed(None).fields() == seq![
            ("detail"@, JsonView::Null),
            ("error"@, JsonView::Text("authentication failed"@)),
        ],
        ApiError::AuthenticationFailed(Some(m)).fields() == seq![
            ("detail"@, JsonView::Text(m@)),
            ("error"@, JsonView::Text("authentication failed"@)),
        ],
{
}

} // verus!
