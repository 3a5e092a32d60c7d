use carillon_backend::delivery::validate_notify_url;
use carillon_backend::guard::{
    check_url_host, is_blocked_ip, resolve_allowed, set_allow_private_targets, allow_private,
    EgressPolicy, HostCheck, IpAddr, SocketAddr,
};
use carillon_backend::metering::{
    free_trial_secs, low_pool_credits, mailbox_key, month_secs, pim_entitled, provider_domain, tick,
    warn_before_secs,
};
use carillon_backend::ratelimit::RateLimiter;
use carillon_backend::signature::{sign, verify_at};
use carillon_backend::text::{is_whitespace, words};
use carillon_backend::weburl::{read_origin, read_url, UrlHost};
use hmac::{Hmac, KeyInit, Mac};
use sha2::Sha256;
use std::time::{Duration, Instant};

fn expected_v1(secret: &str, ts: i64, body: &[u8]) -> String {
    let mut mac = Hmac::<Sha256>::new_from_slice(secret.as_bytes()).unwrap();
    mac.update(format!("{ts}.").as_bytes());
    mac.update(body);
    hex::encode(mac.finalize().into_bytes())
}

#[test]
fn single_secret_signature_shape() {
    let header = sign(&["s3cr3t"], 1700000000, b"{\"uid\":1}");
    let v1 = expected_v1("s3cr3t", 1700000000, b"{\"uid\":1}");
    assert_eq!(header, format!("t=1700000000,v1={v1}"));
}

#[test]
fn rotation_overlap_emits_both_v1() {
    let header = sign(&["new", "old"], 42, b"body");
    let new_v1 = expected_v1("new", 42, b"body");
    let old_v1 = expected_v1("old", 42, b"body");
    assert_eq!(header, format!("t=42,v1={new_v1},v1={old_v1}"));
}

#[test]
fn a_receiver_with_either_secret_accepts_an_overlap() {
    let header = sign(&["new", "old"], 42, b"body");
    assert!(verify_at("new", &header, b"body", 50).valid);
    assert!(verify_at("old", &header, b"body", 50).valid);
    assert!(!verify_at("other", &header, b"body", 50).valid);
    assert!(!verify_at("new", &header, b"bodY", 50).valid);
    assert_eq!(verify_at("new", &header, b"body", 50).age, Some(8));
    assert_eq!(verify_at("new", "v1=00", b"body", 50).age, None);
}

#[test]
fn notify_url_policy() {
    assert!(validate_notify_url("https://example.org/hook").is_ok());
    assert!(validate_notify_url("http://127.0.0.1:9099/").is_ok());
    assert!(validate_notify_url("http://localhost:8080/x").is_ok());
    assert!(validate_notify_url("http://example.org/hook").is_err());
    assert!(validate_notify_url("ftp://example.org/hook").is_err());
    assert!(validate_notify_url("not a url").is_err());
}

#[test]
fn refused_endpoints_say_why() {
    let why = |url: &str| validate_notify_url(url).unwrap_err().message();
    assert_eq!(
        why("http://example.org/hook"),
        "notify URL must be https:// (plain http is only allowed to loopback)"
    );
    assert_eq!(why("ftp://example.org/"), "notify URL scheme must be https, got ftp://");
    assert_eq!(why("not a url"), "not a valid URL: relative URL without a base");
    assert!(validate_notify_url("http://[::1]:8080/").is_ok());
}

fn ip(s: &str) -> IpAddr {
    let text = if s.contains(':') { format!("http://[{s}]/") } else { format!("http://{s}/") };
    match read_url(&text).unwrap().host.unwrap() {
        UrlHost::V4(o) => IpAddr::V4(o),
        UrlHost::V6(o) => IpAddr::V6(o),
        UrlHost::Domain(_) => panic!("not an address: {s}"),
    }
}

#[test]
fn blocks_loopback_private_linklocal_metadata() {
    for s in [
        "127.0.0.1",
        "127.9.9.9",
        "10.0.0.5",
        "172.16.3.4",
        "192.168.1.1",
        "169.254.169.254",
        "169.254.0.1",
        "0.0.0.0",
        "100.64.0.1",
        "::1",
        "fe80::1",
        "fc00::1",
        "fd12:3456::1",
        "::ffff:127.0.0.1",
        "::ffff:10.0.0.1",
    ] {
        assert!(is_blocked_ip(&ip(s)), "expected blocked: {s}");
    }
}

#[test]
fn allows_public_addresses() {
    for s in [
        "1.1.1.1",
        "8.8.8.8",
        "142.250.1.1",
        "2606:4700:4700::1111",
        "2a00:1450:400c::1",
    ] {
        assert!(!is_blocked_ip(&ip(s)), "expected allowed: {s}");
    }
}

#[test]
fn the_first_allowed_address_is_connected_to() {
    let private = SocketAddr { ip: ip("10.0.0.1"), port: 993 };
    let public = SocketAddr { ip: ip("1.1.1.1"), port: 993 };
    let addr = resolve_allowed("h", &vec![private, public], false).unwrap();
    assert!(matches!(addr.ip, IpAddr::V4([1, 1, 1, 1])));
    let addr = resolve_allowed("h", &vec![private, public], true).unwrap();
    assert!(matches!(addr.ip, IpAddr::V4([10, 0, 0, 1])));
    assert_eq!(
        resolve_allowed("h", &vec![private], false).unwrap_err().message(),
        "refusing to connect to a private/loopback address for host 'h' (set [server] allow_private_targets = true for local/self-host use)"
    );
    assert_eq!(
        resolve_allowed("h", &Vec::new(), true).unwrap_err().message(),
        "host 'h' resolved to no addresses"
    );
}

#[test]
fn hosts_of_urls_are_checked() {
    let url = read_url("https://10.0.0.1/x").unwrap();
    assert_eq!(
        check_url_host(&url, false).unwrap_err().message(),
        "refusing to send to a private/loopback address (set [server] allow_private_targets = true for local/self-host use)"
    );
    assert!(matches!(
        check_url_host(&url, true).unwrap(),
        HostCheck::Allowed
    ));
    let url = read_url("https://[2606:4700:4700::1111]/hook").unwrap();
    assert!(matches!(check_url_host(&url, false).unwrap(), HostCheck::Allowed));
    for private in ["https://[fd00::1]/x", "https://[::ffff:10.0.0.1]/x", "https://[::1]/x"] {
        let url = read_url(private).unwrap();
        assert!(check_url_host(&url, false).is_err());
        assert!(matches!(check_url_host(&url, true).unwrap(), HostCheck::Allowed));
    }
    let url = read_url("https://example.org:8443/x").unwrap();
    assert!(matches!(
        check_url_host(&url, false).unwrap(),
        HostCheck::Resolve { host, port } if host == "example.org" && port == 8443
    ));
    let url = read_url("mailto:a@b.c").unwrap();
    assert_eq!(check_url_host(&url, false).unwrap_err().message(), "URL has no host");
}

#[test]
fn the_first_policy_wins() {
    let mut policy = EgressPolicy { allow: None };
    assert!(!allow_private(&policy));
    set_allow_private_targets(&mut policy, true);
    set_allow_private_targets(&mut policy, false);
    assert!(allow_private(&policy));
}

#[test]
fn pim_entitled_tracks_watching_until() {
    let now = 1_000_000;
    assert!(pim_entitled(Some(now + 10), now));
    assert!(!pim_entitled(Some(now - 10), now));
    assert!(!pim_entitled(None, now));
}

#[test]
fn provider_domain_is_the_registrable_domain() {
    assert_eq!(provider_domain("imap.fastmail.com"), "fastmail.com");
    assert_eq!(provider_domain("carddav.fastmail.com"), "fastmail.com");
    assert_eq!(provider_domain("IMAP.GMail.com"), "gmail.com");
    assert_eq!(provider_domain("fastmail.com"), "fastmail.com");
    assert_eq!(provider_domain("carddav.fastmail.com."), "fastmail.com");
    assert_eq!(provider_domain("localhost"), "localhost");
}

#[test]
fn keys_and_providers_are_their_own() {
    for (login, host) in [("User+tag@Example.ORG", "h"), ("bare", " IMAP.x "), ("+t", ""), ("", "a@b")] {
        let key = mailbox_key(login, host);
        assert_eq!(mailbox_key(&key, "other"), key);
    }
    for host in ["imap.fastmail.com", "localhost", "a..b.", ".x", ""] {
        let provider = provider_domain(host);
        assert_eq!(provider_domain(&provider), provider);
    }
    // White space inside a host is left around its provider, and then trimmed.
    assert_eq!(provider_domain("x. a.b"), " a.b");
    assert_eq!(provider_domain(" a.b"), "a.b");
}

#[test]
fn mailbox_key_normalises() {
    assert_eq!(
        mailbox_key("User@Example.ORG", "imap.x"),
        "user@example.org"
    );
    assert_eq!(
        mailbox_key("user+carillon@example.org", "imap.x"),
        "user@example.org"
    );
    assert_eq!(
        mailbox_key("bareuser", "imap.example.org"),
        "bareuser@imap.example.org"
    );
}

#[test]
fn settings_fall_back() {
    assert_eq!(month_secs(None), 2_592_000);
    assert_eq!(month_secs(Some("60")), 60);
    assert_eq!(month_secs(Some("x")), 2_592_000);
}

const MINUTE: u128 = 60_000_000_000;

#[test]
fn allows_up_to_max_then_blocks() {
    let mut limiter = RateLimiter::new(3, MINUTE);

    assert!(limiter.check("a|user").is_ok());
    assert!(limiter.check("a|user").is_ok());
    assert!(limiter.check("a|user").is_ok());
    assert!(limiter.check("a|user").is_err(), "4th attempt blocked");
}

#[test]
fn keys_are_independent() {
    let mut limiter = RateLimiter::new(1, MINUTE);

    assert!(limiter.check("a|user").is_ok());
    assert!(limiter.check("a|user").is_err());
    assert!(limiter.check("b|user").is_ok());
}

#[test]
fn windows_that_are_over_are_dropped_once_there_are_many() {
    let mut limiter = RateLimiter::new(1, 10);
    for i in 0..4097 {
        assert!(limiter.check_at(&format!("key {i}"), i / 4096 * 50).is_ok());
    }
    assert_eq!(limiter.windows.len(), 4097);
    assert!(limiter.check_at("other", 55).is_ok());
    let kept: Vec<&str> = limiter.windows.iter().map(|w| w.key.as_str()).collect();
    assert_eq!(kept, vec!["key 4096", "other"]);
}

#[test]
fn window_resets_after_expiry() {
    let mut limiter = RateLimiter::new(1, 1_000_000);

    assert!(limiter.check("a|user").is_ok());
    let start = Instant::now();
    while start.elapsed() < Duration::from_millis(5) {}
    assert!(limiter.check("a|user").is_ok(), "resets after the window");
}

#[test]
fn a_blocked_charge_tells_how_long_to_wait() {
    let mut limiter = RateLimiter::new(1, 100);
    assert_eq!(limiter.check_at("k", 1_000), Ok(()));
    assert_eq!(limiter.check_at("k", 1_040), Err(60));
    assert_eq!(limiter.check_at("k", 1_099), Err(1));
    assert_eq!(limiter.check_at("k", 1_100), Ok(()));
}

#[test]
fn white_space_is_what_the_language_says() {
    for n in 0..=0x10ffffu32 {
        if let Some(c) = char::from_u32(n) {
            assert_eq!(is_whitespace(c), c.is_whitespace(), "{n:x}");
        }
    }
    for text in ["", "  ", "a", " a  b\tc\n", "\u{a0}x\u{2003}y"] {
        let expected: Vec<&str> = text.split_whitespace().collect();
        assert_eq!(words(text), expected);
    }
}

#[test]
fn settings_are_overridden_by_numbers() {
    assert_eq!(free_trial_secs(None), 604_800);
    assert_eq!(free_trial_secs(Some("60")), 60);
    assert_eq!(month_secs(Some("x")), 2_592_000);
    assert_eq!(warn_before_secs(Some("7")), 7);
    assert_eq!(low_pool_credits(None), 2);
    assert_eq!(tick(Some("30")), 30);
}

#[test]
fn origins_are_scheme_host_and_port() {
    for (url, origin) in [
        ("https://u:p@Dash.X/app?q#f", "https://dash.x"),
        ("https://dash.x:443/", "https://dash.x"),
        ("https://dash.x:8443/", "https://dash.x:8443"),
        ("http://[::1]:80/", "http://[::1]"),
        ("ws://10.0.0.1:81/", "ws://10.0.0.1:81"),
        ("wss://dash.x/", "wss://dash.x"),
        ("ftp://dash.x:21/", "ftp://dash.x"),
        ("mailto:a@dash.x", "null"),
        ("file:///etc", "null"),
        ("custom://dash.x:80/", "null"),
        ("blob:https://dash.x:8443/id", "https://dash.x:8443"),
        ("blob:BLOB: https://dash.x/id", "https://dash.x"),
        ("blob:id", "null"),
        ("nowhere", "null"),
    ] {
        assert_eq!(read_origin(url), origin, "{url}");
    }
}

#[test]
fn urls_that_hold_many_others_are_read() {
    let nested = |n: usize| format!("{}https://dash.x/id", "blob:".repeat(n));
    assert_eq!(read_origin(&nested(1000)), "https://dash.x");
    let url = read_url(&nested(100_000)).unwrap();
    assert_eq!((url.scheme.as_str(), url.path.len()), ("blob", nested(99_999).len()));
}
