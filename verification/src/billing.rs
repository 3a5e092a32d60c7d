//! Payment. The provider owns the customer and the receipt; what is kept here
//! is the credit balance a purchase adds to. A purchase is a one-off payment
//! for packs of credits.

use crate::config::StripeConfig;
use crate::json::{json_string_at, string_at};
use crate::signature::{
    any_code_matches, code_accepted, codes_of, fresh, header_of, is_fresh, read_header,
    signed_header_is_accepted, timestamp_of,
};
use crate::table::{opt_str, opt_text};
use crate::text::{decimal_i64, decimal_of, join2, same, split_of, trim_end_char, trim_end_char_of};
use crate::util::now_secs;
use crate::weburl::{form_encode, form_text, pair, pairs_of};
use vstd::prelude::*;

verus! {

/// Credits in a pack, the only thing that is sold.
pub const PACK_SIZE: i64 = 5;

/// What a verified webhook asks for.
#[derive(Debug)]
pub enum WebhookOutcome {
    /// A payment completed: credit the account that our reference names, by
    /// what the purchase recorded.
    Credit { session_id: String },
    /// Nothing that concerns us.
    Ignore,
}

/// What an outcome says.
pub ghost enum OutcomeView {
    Credit(Seq<char>),
    Ignore,
}

impl View for WebhookOutcome {
    type V = OutcomeView;

    open spec fn view(&self) -> OutcomeView {
        match self {
            WebhookOutcome::Credit { session_id } => OutcomeView::Credit(session_id@),
            WebhookOutcome::Ignore => OutcomeView::Ignore,
        }
    }
}

/// Why a checkout or a webhook was refused.
#[derive(Debug)]
pub enum BillingError {
    /// The body of a webhook is no JSON.
    InvalidBody,
    MissingSignature,
    MissingTimestamp,
    StaleTimestamp,
    SignatureMismatch,
    /// The event of a webhook is no JSON.
    InvalidEvent,
    /// No price is configured for a pack.
    NoPrice,
    /// The provider refused, with its status and what it said.
    Provider { status: String, text: String },
    /// The provider's answer is no JSON.
    InvalidResponse,
    /// The provider's answer holds no URL.
    NoUrl,
}

impl BillingError {
    /// What to tell the caller.
    pub open spec fn text(self) -> Seq<char> {
        match self {
            BillingError::InvalidBody => "invalid webhook body"@,
            BillingError::MissingSignature => "missing Stripe-Signature header"@,
            BillingError::MissingTimestamp => "Stripe-Signature missing timestamp"@,
            BillingError::StaleTimestamp => "Stripe webhook timestamp outside tolerance"@,
            BillingError::SignatureMismatch => "Stripe webhook signature mismatch"@,
            BillingError::InvalidEvent => "invalid Stripe event JSON"@,
            BillingError::NoPrice => "no Stripe price configured for 'pack'"@,
            BillingError::Provider { status, text } => "Stripe checkout error ("@ + status@ + "): "@
                + text@,
            BillingError::InvalidResponse => "invalid Stripe checkout response"@,
            BillingError::NoUrl => "Stripe checkout response carried no url"@,
        }
    }

    /// What to tell the caller.
    pub fn message(&self) -> (r: String)
        ensures
            r@ == self.text(),
    {
        match self {
            BillingError::InvalidBody => "invalid webhook body".to_owned(),
            BillingError::MissingSignature => "missing Stripe-Signature header".to_owned(),
            BillingError::MissingTimestamp => "Stripe-Signature missing timestamp".to_owned(),
            BillingError::StaleTimestamp => "Stripe webhook timestamp outside tolerance".to_owned(),
            BillingError::SignatureMismatch => "Stripe webhook signature mismatch".to_owned(),
            BillingError::InvalidEvent => "invalid Stripe event JSON".to_owned(),
            BillingError::NoPrice => "no Stripe price configured for 'pack'".to_owned(),
            BillingError::Provider { status, text } => {
                let mut out = "Stripe checkout error (".to_owned();
                out.append(status.as_str());
                out.append("): ");
                out.append(text.as_str());
                out
            },
            BillingError::InvalidResponse => "invalid Stripe checkout response".to_owned(),
            BillingError::NoUrl => "Stripe checkout response carried no url".to_owned(),
        }
    }
}

/// The payment provider.
#[derive(Debug)]
pub enum Billing {
    /// Without keys: a placeholder checkout, and webhooks taken on trust.
    Stub,
    /// Hosted checkouts and signed webhooks.
    Stripe(StripeBilling),
}

/// The provider's settings.
#[derive(Debug)]
pub struct StripeBilling {
    pub secret_key: String,
    pub webhook_secret: String,
    pub success_url: String,
    pub cancel_url: String,
    /// What is sold, by name, and the provider's price for it.
    pub prices: Vec<(String, String)>,
}

/// How a checkout goes on.
#[derive(Debug)]
pub enum Checkout {
    /// It can be had here.
    Ready(String),
    /// This form has to be posted to the provider first, with its key.
    Post { url: String, secret_key: String, body: String },
}

/// The name a pack's price is configured under.
pub open spec fn pack_price(prices: Seq<(String, String)>) -> Option<Seq<char>>
    decreases prices.len(),
{
    if prices.len() == 0 {
        None
    } else if prices[0].0@ == "pack"@ {
        Some(prices[0].1@)
    } else {
        pack_price(prices.drop_first())
    }
}

/// The form that asks the provider for a checkout.
pub open spec fn checkout_form(
    stripe: StripeBilling,
    price: Seq<char>,
    session: Seq<char>,
    account: Seq<char>,
    packs: int,
) -> Seq<(Seq<char>, Seq<char>)> {
    seq![
        ("mode"@, "payment"@),
        ("success_url"@, stripe.success_url@),
        ("cancel_url"@, stripe.cancel_url@),
        ("client_reference_id"@, session),
        ("line_items[0][price]"@, price),
        ("line_items[0][quantity]"@, decimal_of(packs)),
        ("metadata[account_id]"@, account),
        ("metadata[carillon_session]"@, session),
    ]
}

impl Billing {
    /// The provider's name.
    pub fn provider(&self) -> (r: &'static str)
        ensures
            r@ == (match self {
                Billing::Stub => "stub"@,
                Billing::Stripe(_) => "stripe"@,
            }),
    {
        match self {
            Billing::Stub => "stub",
            Billing::Stripe(_) => "stripe",
        }
    }

    /// Begins a checkout for so many packs. Our reference goes with it, so
    /// that the webhook leads back to the pending purchase.
    pub fn create_checkout(&self, session_id: &str, account_id: &str, packs: i64) -> (r: Result<
        Checkout,
        BillingError,
    >)
        ensures
            match self {
                Billing::Stub => r matches Ok(Checkout::Ready(url)) && url@
                    == "https://checkout.stub.local/buy/"@ + session_id@,
                Billing::Stripe(stripe) => match pack_price(stripe.prices@) {
                    Some(price) => r matches Ok(Checkout::Post { url, secret_key, body }) && url@
                        == "https://api.stripe.com/v1/checkout/sessions"@ && secret_key
                        == stripe.secret_key && body@ == form_text(
                        checkout_form(*stripe, price, session_id@, account_id@, packs as int),
                    ),
                    None => r == Err::<Checkout, BillingError>(BillingError::NoPrice),
                },
            },
    {
        match self {
            Billing::Stub => Ok(
                Checkout::Ready(join2("https://checkout.stub.local/buy/", session_id)),
            ),
            Billing::Stripe(stripe) => stripe.create_checkout(session_id, account_id, packs),
        }
    }

    /// What a webhook with this body asks for, or why it is refused, at a
    /// time.
    pub open spec fn webhook(
        self,
        signature: Option<Seq<char>>,
        body: Seq<u8>,
        now: int,
        r: Result<WebhookOutcome, BillingError>,
    ) -> bool {
        match self {
            Billing::Stub => match json_string_at(body, "/session_id"@) {
                None => r == Err::<WebhookOutcome, BillingError>(BillingError::InvalidBody),
                Some(Some(id)) => r matches Ok(o) && o@ == OutcomeView::Credit(id),
                Some(None) => r matches Ok(o) && o@ == OutcomeView::Ignore,
            },
            Billing::Stripe(stripe) => stripe.webhook(signature, body, now, r),
        }
    }

    /// Verifies a webhook over its raw body, at a time.
    pub fn verify_webhook_at(&self, signature: Option<&str>, raw_body: &[u8], now: i64) -> (r: Result<
        WebhookOutcome,
        BillingError,
    >)
        ensures
            self.webhook(opt_str(signature), raw_body@, now as int, r),
    {
        match self {
            Billing::Stub => stub_outcome(string_at(raw_body, "/session_id")),
            Billing::Stripe(stripe) => stripe.verify_webhook_at(signature, raw_body, now),
        }
    }

    /// Verifies a webhook over its raw body. Without a provider the body is
    /// taken on trust; with one, its signature has to be ours and fresh, and a
    /// paid checkout becomes a credit.
    pub fn verify_webhook(&self, signature: Option<&str>, raw_body: &[u8]) -> (r: Result<
        WebhookOutcome,
        BillingError,
    >)
        ensures
            exists|now: i64| #[trigger]
                self.webhook(opt_str(signature), raw_body@, now as int, r),
    {
        let now: i64 = now_secs();
        let r = self.verify_webhook_at(signature, raw_body, now);
        assert(self.webhook(opt_str(signature), raw_body@, now as int, r));
        r
    }
}

/// What a webhook that is taken on trust asks for: a credit where it names a
/// purchase.
pub fn stub_outcome(session: Option<Option<String>>) -> (r: Result<WebhookOutcome, BillingError>)
    ensures
        match session {
            None => r == Err::<WebhookOutcome, BillingError>(BillingError::InvalidBody),
            Some(Some(id)) => r matches Ok(o) && o@ == OutcomeView::Credit(id@),
            Some(None) => r matches Ok(o) && o@ == OutcomeView::Ignore,
        },
{
    match session {
        None => Err(BillingError::InvalidBody),
        Some(Some(session_id)) => Ok(WebhookOutcome::Credit { session_id }),
        Some(None) => Ok(WebhookOutcome::Ignore),
    }
}

/// Whether a checkout is paid for: where its payment is made, or where it is
/// complete and no payment is outstanding.
pub open spec fn is_paid(payment_status: Option<Seq<char>>, status: Option<Seq<char>>) -> bool {
    payment_status != Some("unpaid"@) && (payment_status == Some("paid"@) || status == Some(
        "complete"@,
    ))
}

/// What a completed checkout asks for: a credit where it is paid for and
/// carries our reference.
pub open spec fn session_outcome(
    payment_status: Option<Seq<char>>,
    status: Option<Seq<char>>,
    reference: Option<Seq<char>>,
) -> OutcomeView {
    match reference {
        Some(session) => if is_paid(payment_status, status) {
            OutcomeView::Credit(session)
        } else {
            OutcomeView::Ignore
        },
        None => OutcomeView::Ignore,
    }
}

fn is_text(t: &Option<String>, s: &str) -> (r: bool)
    ensures
        r == (opt_text(*t) == Some(s@)),
{
    match t {
        Some(x) => same(x.as_str(), s),
        None => false,
    }
}

/// What a completed checkout asks for.
pub fn credit_from_session(
    payment_status: &Option<String>,
    status: &Option<String>,
    reference: Option<String>,
) -> (r: WebhookOutcome)
    ensures
        r@ == session_outcome(opt_text(*payment_status), opt_text(*status), opt_text(reference)),
{
    let paid = !is_text(payment_status, "unpaid") && (is_text(payment_status, "paid") || is_text(
        status,
        "complete",
    ));
    match reference {
        Some(session_id) => if paid {
            WebhookOutcome::Credit { session_id }
        } else {
            WebhookOutcome::Ignore
        },
        None => WebhookOutcome::Ignore,
    }
}

/// What an event asks for, by its type and what it says of its checkout.
pub open spec fn event_outcome(
    kind: Option<Seq<char>>,
    payment_status: Option<Seq<char>>,
    status: Option<Seq<char>>,
    reference: Option<Seq<char>>,
) -> OutcomeView {
    if kind == Some("checkout.session.completed"@) {
        session_outcome(payment_status, status, reference)
    } else {
        OutcomeView::Ignore
    }
}

/// What an event asks for, by its type and what it says of its checkout.
pub fn outcome_of_event(
    kind: &Option<String>,
    payment_status: &Option<String>,
    status: &Option<String>,
    reference: Option<String>,
) -> (r: WebhookOutcome)
    ensures
        r@ == event_outcome(
            opt_text(*kind),
            opt_text(*payment_status),
            opt_text(*status),
            opt_text(reference),
        ),
{
    if is_text(kind, "checkout.session.completed") {
        credit_from_session(payment_status, status, reference)
    } else {
        WebhookOutcome::Ignore
    }
}

fn at(body: &[u8], pointer: &str) -> (r: Option<String>)
    ensures
        opt_text(r) == found_at(body@, pointer@),
{
    match string_at(body, pointer) {
        Some(found) => found,
        None => None,
    }
}

/// The string at a pointer in a body, where there is one.
pub open spec fn found_at(body: Seq<u8>, pointer: Seq<char>) -> Option<Seq<char>> {
    match json_string_at(body, pointer) {
        Some(found) => found,
        None => None,
    }
}

/// Whether a signature header is good for a body: why not, where it is not.
pub open spec fn signature_error(
    secret: Seq<char>,
    signature: Option<Seq<char>>,
    body: Seq<u8>,
    now: int,
) -> Option<BillingError> {
    match signature {
        None => Some(BillingError::MissingSignature),
        Some(header) => {
            let parts = split_of(header, ',');
            match timestamp_of(parts, true) {
                None => Some(BillingError::MissingTimestamp),
                Some(ts) => if !fresh(now, ts) {
                    Some(BillingError::StaleTimestamp)
                } else if !code_accepted(codes_of(parts, true), secret, ts, body) {
                    Some(BillingError::SignatureMismatch)
                } else {
                    None
                },
            }
        },
    }
}

/// Checks a signature header against a body, at a time.
pub fn check_signature(secret: &str, signature: Option<&str>, raw_body: &[u8], now: i64) -> (r: Result<
    (),
    BillingError,
>)
    ensures
        match r {
            Ok(_) => signature_error(secret@, opt_str(signature), raw_body@, now as int) is None,
            Err(e) => signature_error(secret@, opt_str(signature), raw_body@, now as int) == Some(
                e,
            ),
        },
{
    let header = match signature {
        Some(header) => header,
        None => return Err(BillingError::MissingSignature),
    };
    let read = read_header(header, true);
    let ts: i64 = match read.timestamp {
        Some(ts) => ts,
        None => return Err(BillingError::MissingTimestamp),
    };
    if !is_fresh(now, ts) {
        return Err(BillingError::StaleTimestamp);
    }
    if !any_code_matches(&read.codes, secret, ts, raw_body) {
        return Err(BillingError::SignatureMismatch);
    }
    Ok(())
}

impl StripeBilling {
    /// The provider's settings from the configuration. The buyer returns to
    /// the dashboard where no other page is configured.
    pub fn new(config: &StripeConfig, default_base: &str) -> (r: StripeBilling)
        ensures
            r.secret_key == config.secret_key,
            r.webhook_secret == config.webhook_secret,
            r.success_url@ == (match config.success_url {
                Some(url) => url@,
                None => trim_end_char_of(default_base@, '/') + "/?checkout=success"@,
            }),
            r.cancel_url@ == (match config.cancel_url {
                Some(url) => url@,
                None => trim_end_char_of(default_base@, '/') + "/?checkout=cancel"@,
            }),
            r.prices@ == config.prices@,
    {
        let base = trim_end_char(default_base, '/');
        let mut prices: Vec<(String, String)> = Vec::new();
        let mut i: usize = 0;
        while i < config.prices.len()
            invariant
                i <= config.prices@.len(),
                prices@ =~= config.prices@.take(i as int),
            decreases config.prices@.len() - i,
        {
            prices.push((config.prices[i].0.clone(), config.prices[i].1.clone()));
            i += 1;
        }
        assert(prices@ =~= config.prices@);
        StripeBilling {
            secret_key: config.secret_key.clone(),
            webhook_secret: config.webhook_secret.clone(),
            success_url: match &config.success_url {
                Some(url) => url.clone(),
                None => join2(base.as_str(), "/?checkout=success"),
            },
            cancel_url: match &config.cancel_url {
                Some(url) => url.clone(),
                None => join2(base.as_str(), "/?checkout=cancel"),
            },
            prices,
        }
    }

    fn pack_price(&self) -> (r: Option<String>)
        ensures
            opt_text(r) == pack_price(self.prices@),
    {
        let mut i: usize = 0;
        assert(self.prices@.skip(0) =~= self.prices@);
        while i < self.prices.len()
            invariant
                i <= self.prices@.len(),
                pack_price(self.prices@) == pack_price(self.prices@.skip(i as int)),
            decreases self.prices@.len() - i,
        {
            if same(self.prices[i].0.as_str(), "pack") {
                return Some(self.prices[i].1.clone());
            }
            assert(self.prices@.skip(i as int).drop_first() =~= self.prices@.skip(i + 1));
            i += 1;
        }
        None
    }

    /// The form that asks for a hosted checkout of so many packs.
    pub fn create_checkout(&self, session_id: &str, account_id: &str, packs: i64) -> (r: Result<
        Checkout,
        BillingError,
    >)
        ensures
            match pack_price(self.prices@) {
                Some(price) => r matches Ok(Checkout::Post { url, secret_key, body }) && url@
                    == "https://api.stripe.com/v1/checkout/sessions"@ && secret_key
                    == self.secret_key && body@ == form_text(
                    checkout_form(*self, price, session_id@, account_id@, packs as int),
                ),
                None => r == Err::<Checkout, BillingError>(BillingError::NoPrice),
            },
    {
        let price = match self.pack_price() {
            Some(price) => price,
            None => return Err(BillingError::NoPrice),
        };
        let quantity = decimal_i64(packs);
        let mut form: Vec<(String, String)> = Vec::new();
        form.push(pair("mode", "payment"));
        form.push(pair("success_url", self.success_url.as_str()));
        form.push(pair("cancel_url", self.cancel_url.as_str()));
        form.push(pair("client_reference_id", session_id));
        form.push(pair("line_items[0][price]", price.as_str()));
        form.push(pair("line_items[0][quantity]", quantity.as_str()));
        form.push(pair("metadata[account_id]", account_id));
        form.push(pair("metadata[carillon_session]", session_id));
        assert(pairs_of(form@) =~= checkout_form(
            *self,
            price@,
            session_id@,
            account_id@,
            packs as int,
        ));
        Ok(
            Checkout::Post {
                url: "https://api.stripe.com/v1/checkout/sessions".to_owned(),
                secret_key: self.secret_key.clone(),
                body: form_encode(&form),
            },
        )
    }

    /// What a webhook asks for, or why it is refused, at a time.
    pub open spec fn webhook(
        self,
        signature: Option<Seq<char>>,
        body: Seq<u8>,
        now: int,
        r: Result<WebhookOutcome, BillingError>,
    ) -> bool {
        match signature_error(self.webhook_secret@, signature, body, now) {
            Some(e) => r == Err::<WebhookOutcome, BillingError>(e),
            None => match json_string_at(body, "/type"@) {
                None => r == Err::<WebhookOutcome, BillingError>(BillingError::InvalidEvent),
                Some(kind) => r matches Ok(o) && o@ == event_outcome(
                    kind,
                    found_at(body, "/data/object/payment_status"@),
                    found_at(body, "/data/object/status"@),
                    found_at(body, "/data/object/client_reference_id"@),
                ),
            },
        }
    }

    /// Verifies a signed webhook over its raw body, at a time.
    pub fn verify_webhook_at(&self, signature: Option<&str>, raw_body: &[u8], now: i64) -> (r: Result<
        WebhookOutcome,
        BillingError,
    >)
        ensures
            self.webhook(opt_str(signature), raw_body@, now as int, r),
    {
        match check_signature(self.webhook_secret.as_str(), signature, raw_body, now) {
            Ok(_) => {},
            Err(e) => return Err(e),
        }
        match string_at(raw_body, "/type") {
            None => Err(BillingError::InvalidEvent),
            Some(kind) => Ok(
                outcome_of_event(
                    &kind,
                    &at(raw_body, "/data/object/payment_status"),
                    &at(raw_body, "/data/object/status"),
                    at(raw_body, "/data/object/client_reference_id"),
                ),
            ),
        }
    }

    /// Verifies a signed webhook over its raw body, now.
    pub fn verify_webhook(&self, signature: Option<&str>, raw_body: &[u8]) -> (r: Result<
        WebhookOutcome,
        BillingError,
    >)
        ensures
            exists|now: i64| #[trigger]
                self.webhook(opt_str(signature), raw_body@, now as int, r),
    {
        let now: i64 = now_secs();
        let r = self.verify_webhook_at(signature, raw_body, now);
        assert(self.webhook(opt_str(signature), raw_body@, now as int, r));
        r
    }
}

/// The page to send the buyer to, out of what the provider answered.
pub fn checkout_url(success: bool, status: &str, text: &str) -> (r: Result<String, BillingError>)
    ensures
        if !success {
            r matches Err(BillingError::Provider { status: s, text: t }) && s@ == status@ && t@
                == text@
        } else {
            match json_string_at(crate::digest::utf8(text@), "/url"@) {
                None => r == Err::<String, BillingError>(BillingError::InvalidResponse),
                Some(Some(url)) => r matches Ok(u) && u@ == url,
                Some(None) => r == Err::<String, BillingError>(BillingError::NoUrl),
            }
        },
{
    if !success {
        return Err(BillingError::Provider { status: status.to_owned(), text: text.to_owned() });
    }
    match string_at(text.as_bytes(), "/url") {
        None => Err(BillingError::InvalidResponse),
        Some(Some(url)) => Ok(url),
        Some(None) => Err(BillingError::NoUrl),
    }
}

/// A webhook that was signed with our secret less than the tolerance ago is
/// not refused for its signature.
pub proof fn signed_webhook_is_accepted(secret: Seq<char>, ts: int, body: Seq<u8>, now: int)
    requires
        i64::MIN <= ts <= i64::MAX,
        fresh(now, ts),
    ensures
        signature_error(secret, Some(header_of(seq![secret], ts, body)), body, now) is None,
{
    signed_header_is_accepted(seq![secret], 0, ts, body);
}

/// A webhook whose time is outside the tolerance is refused, whoever signed
/// it.
pub proof fn stale_webhook_is_refused(
    secret: Seq<char>,
    signers: Seq<Seq<char>>,
    ts: int,
    body: Seq<u8>,
    now: int,
)
    requires
        i64::MIN <= ts <= i64::MAX,
        !fresh(now, ts),
        signers.len() > 0,
    ensures
        signature_error(secret, Some(header_of(signers, ts, body)), body, now) == Some(
            BillingError::StaleTimestamp,
        ),
{
    signed_header_is_accepted(signers, 0, ts, body);
}

/// A purchase is credited where its payment was made, or where it is complete
/// and nothing is outstanding; one that is said to be unpaid never is, nor one
/// that is neither paid nor complete.
pub proof fn only_paid_purchases_are_credited(
    payment: Option<Seq<char>>,
    status: Option<Seq<char>>,
    reference: Seq<char>,
)
    ensures
        payment == Some("unpaid"@) ==> session_outcome(payment, status, Some(reference))
            == OutcomeView::Ignore,
        payment == Some("paid"@) ==> session_outcome(payment, status, Some(reference))
            == OutcomeView::Credit(reference),
        payment != Some("unpaid"@) && status == Some("complete"@) ==> session_outcome(
            payment,
            status,
            Some(reference),
        ) == OutcomeView::Credit(reference),
        payment != Some("paid"@) && status != Some("complete"@) ==> session_outcome(
            payment,
            status,
            Some(reference),
        ) == OutcomeView::Ignore,
        session_outcome(payment, status, None) == OutcomeView::Ignore,
{
    reveal_strlit("unpaid");
    reveal_strlit("paid");
    assert("unpaid"@.len() == 6 && "paid"@.len() == 4);
}

/// Only a completed checkout credits anything: an event of any other type, or
/// of none, is ignored.
pub proof fn other_events_are_ignored(
    kind: Option<Seq<char>>,
    payment: Option<Seq<char>>,
    status: Option<Seq<char>>,
    reference: Option<Seq<char>>,
)
    ensures
        kind != Some("checkout.session.completed"@) ==> event_outcome(
            kind,
            payment,
            status,
            reference,
        ) == OutcomeView::Ignore,
        kind == Some("checkout.session.completed"@) ==> event_outcome(
            kind,
            payment,
            status,
            reference,
        ) == session_outcome(payment, status, reference),
{
}

/// A webhook that is taken carries a code of its own body under our secret, and
/// a time no further than five minutes from now.
pub proof fn taken_webhook_is_signed_and_fresh(
    stripe: StripeBilling,
    signature: Option<Seq<char>>,
    body: Seq<u8>,
    now: int,
    r: Result<WebhookOutcome, BillingError>,
)
    requires
        stripe.webhook(signature, body, now, r),
        r is Ok,
    ensures
        signature matches Some(header) && (timestamp_of(split_of(header, ','), true) matches Some(
            ts,
        ) && now - ts <= 300 && ts - now <= 300 && exists|i: int|
            0 <= i < codes_of(split_of(header, ','), true).len() && crate::digest::unhex(
                #[trigger] codes_of(split_of(header, ','), true)[i],
            ) == Some(
                crate::digest::hmac_sha256(
                    crate::digest::utf8(stripe.webhook_secret@),
                    crate::signature::signed_content(ts, body),
                ),
            )),
{
}

/// A webhook with no header, without a time, too old or signed by another is
/// refused, each for its own reason.
pub proof fn bad_webhooks_are_refused(
    stripe: StripeBilling,
    signature: Option<Seq<char>>,
    body: Seq<u8>,
    now: int,
    r: Result<WebhookOutcome, BillingError>,
)
    requires
        stripe.webhook(signature, body, now, r),
    ensures
        signature is None ==> r == Err::<WebhookOutcome, BillingError>(
            BillingError::MissingSignature,
        ),
        signature matches Some(header) ==> (timestamp_of(split_of(header, ','), true) is None ==> r
            == Err::<WebhookOutcome, BillingError>(BillingError::MissingTimestamp)),
        signature matches Some(header) ==> (timestamp_of(split_of(header, ','), true) matches Some(
            ts,
        ) ==> (now - ts > 300 || ts - now > 300) ==> r == Err::<WebhookOutcome, BillingError>(
            BillingError::StaleTimestamp,
        )),
        signature matches Some(header) ==> (timestamp_of(split_of(header, ','), true) matches Some(
            ts,
        ) ==> now - ts <= 300 && ts - now <= 300 && (forall|i: int|
            0 <= i < codes_of(split_of(header, ','), true).len() ==> crate::digest::unhex(
                #[trigger] codes_of(split_of(header, ','), true)[i],
            ) != Some(
                crate::digest::hmac_sha256(
                    crate::digest::utf8(stripe.webhook_secret@),
                    crate::signature::signed_content(ts, body),
                ),
            )) ==> r == Err::<WebhookOutcome, BillingError>(BillingError::SignatureMismatch)),
{
}

/// What a taken webhook asks for is read from where the provider puts it: the
/// type of the event, and the payment, the status and our reference of its
/// checkout.
pub proof fn webhook_is_read_where_it_stands(
    stripe: StripeBilling,
    signature: Option<Seq<char>>,
    body: Seq<u8>,
    now: int,
    r: Result<WebhookOutcome, BillingError>,
    reference: Seq<char>,
)
    requires
        stripe.webhook(signature, body, now, r),
        r is Ok,
        json_string_at(body, "/type"@) == Some(Some("checkout.session.completed"@)),
        json_string_at(body, "/data/object/client_reference_id"@) == Some(Some(reference)),
    ensures
        json_string_at(body, "/data/object/payment_status"@) == Some(Some("paid"@)) ==> r->Ok_0@
            == OutcomeView::Credit(reference),
        json_string_at(body, "/data/object/payment_status"@) == Some(Some("unpaid"@)) ==> r->Ok_0@
            == OutcomeView::Ignore,
        json_string_at(body, "/data/object/payment_status"@) == Some(None::<Seq<char>>)
            && json_string_at(body, "/data/object/status"@) == Some(Some("complete"@)) ==> r->Ok_0@
            == OutcomeView::Credit(reference),
{
    only_paid_purchases_are_credited(
        found_at(body, "/data/object/payment_status"@),
        found_at(body, "/data/object/status"@),
        reference,
    );
}

/// A checkout asks the provider for one payment of so many packs at the given
/// price, carries our reference and the account, and returns to our pages.
pub proof fn checkout_asks_for_packs(
    stripe: StripeBilling,
    price: Seq<char>,
    session: Seq<char>,
    account: Seq<char>,
    packs: int,
)
    ensures
        ({
            let form = checkout_form(stripe, price, session, account, packs);
            &&& form.contains(("mode"@, "payment"@))
            &&& form.contains(("success_url"@, stripe.success_url@))
            &&& form.contains(("cancel_url"@, stripe.cancel_url@))
            &&& form.contains(("client_reference_id"@, session))
            &&& form.contains(("line_items[0][price]"@, price))
            &&& form.contains(("line_items[0][quantity]"@, decimal_of(packs)))
            &&& form.contains(("metadata[account_id]"@, account))
            &&& form.contains(("metadata[carillon_session]"@, session))
            &&& form.len() == 8
        }),
{
    let form = checkout_form(stripe, price, session, account, packs);
    assert(form[0] == ("mode"@, "payment"@));
    assert(form[1] == ("success_url"@, stripe.success_url@));
    assert(form[2] == ("cancel_url"@, stripe.cancel_url@));
    assert(form[3] == ("client_reference_id"@, session));
    assert(form[4] == ("line_items[0][price]"@, price));
    assert(form[5] == ("line_items[0][quantity]"@, decimal_of(packs)));
    assert(form[6] == ("metadata[account_id]"@, account));
    assert(form[7] == ("metadata[carillon_session]"@, session));
}

/// A pack has the first price that is configured under its name, and five
/// credits.
pub proof fn packs_have_the_price_of_packs(prices: Seq<(String, String)>, i: int)
    requires
        0 <= i < prices.len(),
        prices[i].0@ == "pack"@,
        forall|j: int| 0 <= j < i ==> (#[trigger] prices[j]).0@ != "pack"@,
    ensures
        pack_price(prices) == Some(prices[i].1@),
        PACK_SIZE == 5,
    decreases i,
{
    if i > 0 {
        let rest = prices.drop_first();
        assert(prices[0].0@ != "pack"@);
        assert(rest[i - 1] == prices[i]);
        assert forall|j: int| 0 <= j < i - 1 implies (#[trigger] rest[j]).0@ != "pack"@ by {
            assert(rest[j] == prices[j + 1]);
        }
        packs_have_the_price_of_packs(rest, i - 1);
    }
}

/// Where nothing is configured under the name of a pack, packs have no price.
pub proof fn packs_without_a_price_have_none(prices: Seq<(String, String)>)
    requires
        forall|j: int| 0 <= j < prices.len() ==> (#[trigger] prices[j]).0@ != "pack"@,
    ensures
        pack_price(prices) is None,
    decreases prices.len(),
{
    if prices.len() > 0 {
        let rest = prices.drop_first();
        assert(prices[0].0@ != "pack"@);
        assert forall|j: int| 0 <= j < rest.len() implies (#[trigger] rest[j]).0@ != "pack"@ by {
            assert(rest[j] == prices[j + 1]);
        }
        packs_without_a_price_have_none(rest);
    }
}

/// Why a checkout or a webhook is refused is told in words, the provider's own among them.
pub proof fn refused_payments_have_their_words(status: String, text: String)
    ensures
        BillingError::InvalidBody.text() == "invalid webhook body"@,
        BillingError::MissingSignature.text() == "missing Stripe-Signature header"@,
        BillingError::MissingTimestamp.text() == "Stripe-Signature missing timestamp"@,
        BillingError::StaleTimestamp.text() == "Stripe webhook timestamp outside tolerance"@,
        BillingError::SignatureMismatch.text() == "Stripe webhook signature mismatch"@,
        BillingError::InvalidEvent.text() == "invalid Stripe event JSON"@,
        BillingError::NoPrice.text() == "no Stripe price configured for 'pack'"@,
        (BillingError::Provider { status, text }).text() == "Stripe checkout error ("@ + status@ + "): "@
                + text@,
        BillingError::InvalidResponse.text() == "invalid Stripe checkout response"@,
        BillingError::NoUrl.text() == "Stripe checkout response carried no url"@,
{
}

/// A webhook's outcome says which purchase it credits, or that it is ignored.
pub proof fn outcomes_say_what_they_credit(session_id: String)
    ensures
        (WebhookOutcome::Credit { session_id })@ == OutcomeView::Credit(session_id@),
        WebhookOutcome::Ignore@ == OutcomeView::Ignore,
{
}

/// Without a provider a webhook's body is taken on trust: it credits the purchase
/// that it names, one that names none is ignored, and one that is no JSON is
/// refused.
pub proof fn unsigned_webhook_names_its_purchase(
    signature: Option<Seq<char>>,
    body: Seq<u8>,
    now: int,
    r: Result<WebhookOutcome, BillingError>,
)
    requires
        Billing::Stub.webhook(signature, body, now, r),
    ensures
        json_string_at(body, "/session_id"@) is None ==> r == Err::<WebhookOutcome, BillingError>(
            BillingError::InvalidBody,
        ),
        json_string_at(body, "/session_id"@) == Some(None::<Seq<char>>) ==> r == Ok::<
            WebhookOutcome,
            BillingError,
        >(WebhookOutcome::Ignore),
        json_string_at(body, "/session_id"@) matches Some(Some(id)) ==> (r matches Ok(
            WebhookOutcome::Credit { session_id },
        ) && session_id@ == id),
{
}

} // verus!
