use carillon_backend::discover::{
    discover_carddav, discover_imap, discovery_email, AuthMethod, AuthMethodView, DiscoveredConfig,
    DiscoveredEndpoint, DiscoveredService, Security,
};

fn imap(host: &str, port: u16, security: Security, auth: Vec<AuthMethod>) -> DiscoveredConfig {
    DiscoveredConfig {
        service: DiscoveredService::Imap,
        endpoint: DiscoveredEndpoint::Tcp { host: host.into(), port, security },
        auth,
    }
}

fn code(scope: Option<&str>) -> AuthMethod {
    AuthMethod::OauthAuthorizationCodeGrant {
        authorization_endpoint: "https://a".into(),
        token_endpoint: "https://t".into(),
        scope: scope.map(|s| s.to_string()),
    }
}

fn device() -> AuthMethod {
    AuthMethod::OauthDeviceAuthorizationGrant {
        device_authorization_endpoint: "https://d".into(),
        token_endpoint: "https://t".into(),
        scope: None,
    }
}

fn kind(auth: &AuthMethodView) -> &'static str {
    match auth {
        AuthMethodView::Password => "password",
        AuthMethodView::Bearer => "bearer",
        AuthMethodView::Oauth { .. } => "oauth",
        AuthMethodView::OauthDevice { .. } => "device",
        AuthMethodView::OauthIssuer { .. } => "issuer",
    }
}

#[test]
fn bare_domains_get_a_name() {
    assert_eq!(discovery_email(" example.org "), "user@example.org");
    assert_eq!(discovery_email("me@example.org"), "me@example.org");
}

#[test]
fn choices_are_grouped_by_server_and_kind() {
    let configs = vec![
        imap("b.org", 993, Security::Tls, vec![AuthMethod::Bearer]),
        imap("a.org", 993, Security::Tls, vec![]),
        imap("b.org", 993, Security::Tls, vec![AuthMethod::Password, code(None)]),
        imap("b.org", 143, Security::Starttls, vec![AuthMethod::OauthIssuer("https://i".into())]),
        DiscoveredConfig {
            service: DiscoveredService::Other,
            endpoint: DiscoveredEndpoint::Tcp {
                host: "smtp".into(),
                port: 25,
                security: Security::Plain,
            },
            auth: vec![],
        },
        DiscoveredConfig {
            service: DiscoveredService::Imap,
            endpoint: DiscoveredEndpoint::Http("https://x".into()),
            auth: vec![],
        },
    ];
    let seen: Vec<(String, u16, &str, &str)> = discover_imap(&configs)
        .iter()
        .map(|c| (c.host.clone(), c.port, c.security, kind(&c.auth)))
        .collect();
    assert_eq!(
        seen,
        vec![
            ("a.org".to_string(), 993, "tls", "password"),
            ("b.org".to_string(), 143, "starttls", "issuer"),
            ("b.org".to_string(), 993, "tls", "password"),
            ("b.org".to_string(), 993, "tls", "oauth"),
            ("b.org".to_string(), 993, "tls", "bearer"),
        ]
    );
}

#[test]
fn the_best_oauth_is_for_mail() {
    let pick = |auth: Vec<AuthMethod>| {
        let all = discover_imap(&vec![imap("a.org", 993, Security::Tls, auth)]);
        let scope = match &all[0].auth {
            AuthMethodView::Oauth { scope, .. } => scope.clone(),
            other => Some(kind(other).to_string()),
        };
        (all.len(), scope)
    };
    assert_eq!(
        pick(vec![device(), code(Some("calendar")), code(Some("https://x/IMAP.All"))]),
        (1, Some("https://x/IMAP.All".to_string()))
    );
    assert_eq!(pick(vec![device(), code(Some("calendar"))]), (1, Some("calendar".to_string())));
    assert_eq!(
        pick(vec![AuthMethod::OauthIssuer("i".into()), device()]),
        (1, Some("device".to_string()))
    );
}

#[test]
fn address_books_are_offered_once_and_always_with_a_password() {
    let book = |url: &str, auth: Vec<AuthMethod>| DiscoveredConfig {
        service: DiscoveredService::Carddav,
        endpoint: DiscoveredEndpoint::Http(url.into()),
        auth,
    };
    let configs = vec![
        book("https://dav/", vec![code(None)]),
        book("https://dav/", vec![]),
        book("https://other/", vec![]),
        book("https://late/", vec![]),
        book("https://late/", vec![code(None)]),
        imap("a.org", 993, Security::Tls, vec![]),
    ];
    let seen: Vec<(String, &str)> = discover_carddav(&configs)
        .iter()
        .map(|c| (c.url.clone(), kind(&c.auth)))
        .collect();
    assert_eq!(
        seen,
        vec![
            ("https://dav/".to_string(), "password"),
            ("https://dav/".to_string(), "oauth"),
            ("https://other/".to_string(), "password"),
            ("https://late/".to_string(), "password"),
            ("https://late/".to_string(), "oauth"),
        ]
    );
}
