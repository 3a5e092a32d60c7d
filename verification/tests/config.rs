use carillon_backend::config::{
    config_path, expand_tilde, password_output, resolve_optional_secret, resolve_required_secret,
    ApiConfig, BillingConfig, Config, EmailConfig, OauthConfig, PasswordConfig, PasswordSource,
    SecretFile, ServerConfig, StripeConfig,
};

fn file(path: &str, content: &str) -> SecretFile {
    SecretFile { path: path.into(), content: Some(content.into()) }
}

#[test]
fn inline_optional_secret_passes_through() {
    assert_eq!(
        resolve_optional_secret("x", Some("v".into()), None).unwrap(),
        Some("v".to_owned())
    );
    assert_eq!(resolve_optional_secret("x", None, None).unwrap(), None);
}

#[test]
fn file_secret_is_read_and_trimmed() {
    assert_eq!(
        resolve_required_secret("x", String::new(), Some(file("read", "  sk_live_abc\n"))).unwrap(),
        "sk_live_abc"
    );
    assert_eq!(
        resolve_optional_secret("x", None, Some(file("read", "  sk_live_abc\n"))).unwrap(),
        Some("sk_live_abc".to_owned())
    );
}

#[test]
fn both_inline_and_file_is_rejected() {
    assert!(resolve_optional_secret("x", Some("v".into()), Some(file("both", "v"))).is_err());
    assert!(resolve_required_secret("x", "v".into(), Some(file("both", "v"))).is_err());
}

#[test]
fn missing_required_secret_is_rejected() {
    assert!(resolve_required_secret("x", String::new(), None).is_err());
}

#[test]
fn empty_secret_file_is_rejected() {
    assert!(resolve_required_secret("x", String::new(), Some(file("empty", "   \n"))).is_err());
}

fn config(stripe: Option<StripeConfig>) -> Config {
    Config {
        server: ServerConfig::default(),
        api: ApiConfig::default(),
        oauth: OauthConfig { google: None, microsoft: None },
        billing: BillingConfig { stripe },
        email: EmailConfig { resend: None },
    }
}

#[test]
fn stripe_secret_key_resolves_from_file_on_load() {
    let mut config = config(Some(StripeConfig {
        secret_key: String::new(),
        secret_key_file: Some("stripe-sk".into()),
        webhook_secret: "whsec_inline".into(),
        webhook_secret_file: None,
        success_url: None,
        cancel_url: None,
        prices: vec![("pack".into(), "price_1".into())],
    }));
    config.resolve_secrets(&vec![file("stripe-sk", "sk_live_fromfile\n")]).unwrap();
    let stripe = config.billing.stripe.unwrap();
    assert_eq!(stripe.secret_key, "sk_live_fromfile");
    assert_eq!(stripe.webhook_secret, "whsec_inline");
}

#[test]
fn resolving_secrets_twice_changes_nothing() {
    let mut config = config(Some(StripeConfig {
        secret_key: String::new(),
        secret_key_file: Some("stripe-sk".into()),
        webhook_secret: "whsec_inline".into(),
        webhook_secret_file: None,
        success_url: None,
        cancel_url: None,
        prices: vec![("pack".into(), "price_1".into())],
    }));
    config.resolve_secrets(&vec![file("stripe-sk", "sk\n")]).unwrap();
    let once = format!("{config:?}");
    config.resolve_secrets(&vec![file("stripe-sk", "other")]).unwrap();
    assert_eq!(format!("{config:?}"), once);
}

#[test]
fn each_refused_secret_says_why() {
    let both = resolve_optional_secret("api.token", Some("v".into()), Some(file("f", "v")));
    assert_eq!(
        both.unwrap_err().message(),
        "api.token: set either the inline value or api.token_file, not both"
    );
    let none = resolve_required_secret("key", String::new(), None);
    assert_eq!(
        none.unwrap_err().message(),
        "key is required: set it inline or via key_file"
    );
    let gone = SecretFile { path: "/etc/k".into(), content: None };
    assert_eq!(
        resolve_required_secret("key", String::new(), Some(gone)).unwrap_err().message(),
        "Cannot read key from /etc/k"
    );
    assert_eq!(
        resolve_required_secret("key", String::new(), Some(file("/etc/k", " "))).unwrap_err().message(),
        "key file /etc/k is empty"
    );
}

#[test]
fn passwords_come_inline_or_from_a_command() {
    let raw = PasswordConfig { raw: Some("pw".into()), command: Some("cmd".into()) };
    assert!(matches!(raw.resolve().unwrap(), PasswordSource::Ready(p) if p == "pw"));
    let run = PasswordConfig { raw: None, command: Some("pass mail".into()) };
    assert!(matches!(run.resolve().unwrap(), PasswordSource::Run(c) if c == "pass mail"));
    let none = PasswordConfig { raw: None, command: None };
    assert_eq!(
        none.resolve().unwrap_err().message(),
        "Account password requires either raw or command"
    );

    assert_eq!(password_output(true, "0", b" secret \n\n".to_vec()).unwrap(), " secret ");
    assert_eq!(password_output(true, "0", b"pw \n".to_vec()).unwrap(), "pw ");
    assert_eq!(password_output(true, "0", b"pw\t\r\n".to_vec()).unwrap(), "pw\t");
    assert_eq!(password_output(true, "0", b"pw".to_vec()).unwrap(), "pw");
    assert_eq!(
        password_output(false, "exit status: 1", Vec::new()).unwrap_err().message(),
        "Password command exited with exit status: 1"
    );
    assert_eq!(
        password_output(true, "0", vec![0xff]).unwrap_err().message(),
        "Password command output is not valid UTF-8"
    );
}

#[test]
fn paths_expand_at_home() {
    assert_eq!(expand_tilde("~/x/y", Some("/home/u")), "/home/u/x/y");
    assert_eq!(expand_tilde("/x", Some("/home/u")), "/x");
    assert_eq!(expand_tilde("~user/x", Some("/home/u")), "~user/x");
    assert_eq!(config_path(Some("a"), Some("b")), "a");
    assert_eq!(config_path(None, Some("b")), "b");
    assert_eq!(config_path(None, None), "carillon.toml");
}
