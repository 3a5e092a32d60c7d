use carillon_backend::billing::{
    checkout_url, credit_from_session, Billing, BillingError, Checkout, StripeBilling, WebhookOutcome,
};
use carillon_backend::config::StripeConfig;
use carillon_backend::util::now_secs;
use hmac::{Hmac, KeyInit, Mac};
use sha2::Sha256;

const COMPLETED: &[u8] = br#"{"type":"checkout.session.completed","data":{"object":{"status":"complete","payment_status":"paid","client_reference_id":"sess_123"}}}"#;

fn stripe(webhook_secret: &str) -> StripeBilling {
    StripeBilling {
        secret_key: "sk_test_x".into(),
        webhook_secret: webhook_secret.into(),
        success_url: "https://dash/ok".into(),
        cancel_url: "https://dash/no".into(),
        prices: Vec::new(),
    }
}

fn sign(secret: &str, ts: i64, body: &[u8]) -> String {
    let mut mac = Hmac::<Sha256>::new_from_slice(secret.as_bytes()).unwrap();
    mac.update(ts.to_string().as_bytes());
    mac.update(b".");
    mac.update(body);
    format!("t={ts},v1={}", hex::encode(mac.finalize().into_bytes()))
}

#[test]
fn valid_signature_credits_completed_checkout() {
    let s = stripe("whsec_test");
    let header = sign("whsec_test", now_secs(), COMPLETED);
    match s.verify_webhook(Some(&header), COMPLETED).unwrap() {
        WebhookOutcome::Credit { session_id } => assert_eq!(session_id, "sess_123"),
        _ => panic!("expected credit"),
    }
}

#[test]
fn tampered_body_is_rejected() {
    let s = stripe("whsec_test");
    let header = sign("whsec_test", now_secs(), COMPLETED);
    let tampered = br#"{"type":"checkout.session.completed","data":{"object":{"status":"complete","payment_status":"paid","client_reference_id":"sess_HACK"}}}"#;
    assert!(s.verify_webhook(Some(&header), tampered).is_err());
}

#[test]
fn wrong_secret_is_rejected() {
    let s = stripe("whsec_real");
    let header = sign("whsec_attacker", now_secs(), COMPLETED);
    assert!(s.verify_webhook(Some(&header), COMPLETED).is_err());
}

#[test]
fn stale_timestamp_is_rejected() {
    let s = stripe("whsec_test");
    let header = sign("whsec_test", now_secs() - 10_000, COMPLETED);
    assert!(s.verify_webhook(Some(&header), COMPLETED).is_err());
}

#[test]
fn missing_signature_is_rejected() {
    let s = stripe("whsec_test");
    assert!(s.verify_webhook(None, COMPLETED).is_err());
}

#[test]
fn unpaid_completed_session_is_ignored() {
    let s = stripe("whsec_test");
    let body = br#"{"type":"checkout.session.completed","data":{"object":{"status":"open","payment_status":"unpaid","client_reference_id":"x"}}}"#;
    let header = sign("whsec_test", now_secs(), body);
    assert!(matches!(
        s.verify_webhook(Some(&header), body).unwrap(),
        WebhookOutcome::Ignore
    ));
}

#[test]
fn payment_decides_before_completion() {
    let outcome = |payment: Option<&str>, status: Option<&str>| {
        credit_from_session(
            &payment.map(String::from),
            &status.map(String::from),
            Some("x".to_string()),
        )
    };
    let ignored = |o: WebhookOutcome| matches!(o, WebhookOutcome::Ignore);
    let credited =
        |o: WebhookOutcome| matches!(o, WebhookOutcome::Credit { session_id } if session_id == "x");
    assert!(ignored(outcome(Some("unpaid"), Some("complete"))));
    assert!(credited(outcome(Some("paid"), Some("open"))));
    assert!(credited(outcome(None, Some("complete"))));
    assert!(credited(outcome(Some("no_payment_required"), Some("complete"))));
    assert!(ignored(outcome(Some("no_payment_required"), Some("open"))));
    assert!(ignored(outcome(None, Some("open"))));
    assert!(ignored(outcome(None, None)));

    let s = stripe("whsec_test");
    let body = br#"{"type":"checkout.session.completed","data":{"object":{"status":"complete","payment_status":"unpaid","client_reference_id":"x"}}}"#;
    let header = sign("whsec_test", now_secs(), body);
    assert!(ignored(s.verify_webhook(Some(&header), body).unwrap()));
}

#[test]
fn other_event_type_is_ignored() {
    let s = stripe("whsec_test");
    let body = br#"{"type":"payment_intent.created","data":{"object":{}}}"#;
    let header = sign("whsec_test", now_secs(), body);
    assert!(matches!(
        s.verify_webhook(Some(&header), body).unwrap(),
        WebhookOutcome::Ignore
    ));
}

#[test]
fn stub_credits_from_session_id() {
    let outcome = Billing::Stub
        .verify_webhook(None, br#"{"session_id":"sess_9"}"#)
        .unwrap();
    assert!(matches!(
        outcome,
        WebhookOutcome::Credit { session_id } if session_id == "sess_9"
    ));
}

#[test]
fn stub_ignores_unrelated_body() {
    let outcome = Billing::Stub
        .verify_webhook(None, br#"{"foo":"bar"}"#)
        .unwrap();
    assert!(matches!(outcome, WebhookOutcome::Ignore));
}

#[test]
fn each_refusal_of_a_webhook_says_why() {
    let s = stripe("whsec_test");
    let why = |signature: Option<&str>, body: &[u8], now: i64| {
        s.verify_webhook_at(signature, body, now).err().map(|e| e.message())
    };
    let header = sign("whsec_test", 1_000, COMPLETED);
    assert_eq!(why(Some(&header), COMPLETED, 1_300), None);
    assert_eq!(
        why(Some(&header), COMPLETED, 1_301).as_deref(),
        Some("Stripe webhook timestamp outside tolerance")
    );
    assert_eq!(why(None, COMPLETED, 0).as_deref(), Some("missing Stripe-Signature header"));
    assert_eq!(
        why(Some("v1=00"), COMPLETED, 0).as_deref(),
        Some("Stripe-Signature missing timestamp")
    );
    assert_eq!(
        why(Some("t=0,v1=00"), COMPLETED, 0).as_deref(),
        Some("Stripe webhook signature mismatch")
    );
    let bad = sign("whsec_test", 0, b"no json");
    assert_eq!(why(Some(&bad), b"no json", 0).as_deref(), Some("invalid Stripe event JSON"));
    assert_eq!(
        Billing::Stub.verify_webhook_at(None, b"no json", 0).err().map(|e| e.message()).as_deref(),
        Some("invalid webhook body")
    );
}

#[test]
fn any_of_several_codes_will_do() {
    let s = stripe("whsec_test");
    let good = sign("whsec_test", 7, COMPLETED);
    let header = format!("v1=ab, {},v1=zz", good);
    // The time stands behind a blank, so it is not read as one.
    assert!(s.verify_webhook_at(Some(&header), COMPLETED, 7).is_err());
    let header = format!("{good},v1=ab");
    assert!(s.verify_webhook_at(Some(&header), COMPLETED, 7).is_ok());
}

#[test]
fn a_checkout_is_a_form() {
    let mut s = stripe("w");
    assert!(matches!(s.create_checkout("sess", "acc", 2), Err(BillingError::NoPrice)));
    assert_eq!(
        BillingError::NoPrice.message(),
        "no Stripe price configured for 'pack'"
    );
    s.prices = vec![("other".into(), "p0".into()), ("pack".into(), "price_1".into())];
    match s.create_checkout("sess 1", "acc&x", 2).unwrap() {
        Checkout::Post { url, secret_key, body } => {
            assert_eq!(url, "https://api.stripe.com/v1/checkout/sessions");
            assert_eq!(secret_key, "sk_test_x");
            assert_eq!(
                body,
                "mode=payment&success_url=https%3A%2F%2Fdash%2Fok&cancel_url=https%3A%2F%2Fdash%2Fno\
                 &client_reference_id=sess+1&line_items%5B0%5D%5Bprice%5D=price_1\
                 &line_items%5B0%5D%5Bquantity%5D=2&metadata%5Baccount_id%5D=acc%26x\
                 &metadata%5Bcarillon_session%5D=sess+1"
            );
        }
        _ => panic!("expected a form"),
    }
    match Billing::Stub.create_checkout("s1", "acc", 1).unwrap() {
        Checkout::Ready(url) => assert_eq!(url, "https://checkout.stub.local/buy/s1"),
        _ => panic!("expected a page"),
    }
}

#[test]
fn a_checkout_answer_holds_a_page() {
    assert_eq!(
        checkout_url(true, "200 OK", r#"{"url":"https://pay/1"}"#).unwrap(),
        "https://pay/1"
    );
    assert_eq!(
        checkout_url(true, "200 OK", "{}").unwrap_err().message(),
        "Stripe checkout response carried no url"
    );
    assert_eq!(
        checkout_url(true, "200 OK", "oops").unwrap_err().message(),
        "invalid Stripe checkout response"
    );
    assert_eq!(
        checkout_url(false, "402 Payment Required", "no").unwrap_err().message(),
        "Stripe checkout error (402 Payment Required): no"
    );
}

#[test]
fn the_buyer_returns_to_the_dashboard() {
    let config = StripeConfig {
        secret_key: "sk".into(),
        secret_key_file: None,
        webhook_secret: "wh".into(),
        webhook_secret_file: None,
        success_url: None,
        cancel_url: Some("https://x/no".into()),
        prices: vec![("pack".into(), "price_1".into())],
    };
    let s = StripeBilling::new(&config, "https://dash//");
    assert_eq!(s.success_url, "https://dash/?checkout=success");
    assert_eq!(s.cancel_url, "https://x/no");
    assert_eq!(s.prices.len(), 1);
    assert_eq!(Billing::Stripe(s).provider(), "stripe");
    assert_eq!(Billing::Stub.provider(), "stub");
}
