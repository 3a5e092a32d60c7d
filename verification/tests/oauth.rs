use carillon_backend::oauth::{
    build_authorization, build_authorization_with, check_issuer, exchange_code, mail_scope,
    plan_authorization, plan_client, plan_endpoints, probed_endpoints, provider_for, refresh,
    register_client, resolve_issuer, AuthInput, ClientId, ClientPlan, EndpointPlan, IssuerMetadata,
    KnownProvider, OauthEndpoints, OauthError, StaticClients,
};

fn endpoints(registration: Option<&str>, scopes: &[&str]) -> OauthEndpoints {
    OauthEndpoints {
        authorization: "https://auth.example/authorize".into(),
        token: "https://auth.example/token".into(),
        registration: registration.map(|s| s.to_string()),
        scopes_supported: scopes.iter().map(|s| s.to_string()).collect(),
    }
}

fn client() -> ClientId {
    ClientId::Dynamic { client_id: "cid".into(), client_secret: None }
}

#[test]
fn a_request_carries_everything() {
    let request = build_authorization_with(
        &endpoints(None, &[]),
        "cid",
        "https://api/oauth/callback",
        Some("b  a b"),
        &vec![("prompt".into(), "none".into()), ("prompt".into(), "consent".into())],
        "state".into(),
        "verifier".into(),
    )
    .unwrap();
    assert_eq!(
        request.url,
        "https://auth.example/authorize?client_id=cid\
         &code_challenge=iMnq5o6zALKXGivsnlom_0F5_WYda32GHkxlV7mq7hQ\
         &code_challenge_method=S256&prompt=consent\
         &redirect_uri=https%3A%2F%2Fapi%2Foauth%2Fcallback&response_type=code&scope=a+b&state=state"
    );
    assert_eq!(request.state, "state");
    assert_eq!(request.verifier, "verifier");
}

#[test]
fn requests_are_fresh() {
    let make = || build_authorization(&endpoints(None, &[]), "cid", "r", None, &Vec::new()).unwrap();
    let (a, b) = (make(), make());
    assert_eq!((a.state.len(), a.verifier.len()), (32, 43));
    assert!(a.state != b.state && a.verifier != b.verifier);
    assert!(exchange_code(&client(), "r", "code", &a.verifier).is_ok());
    let mut bad = endpoints(None, &[]);
    bad.authorization = "nowhere".into();
    assert_eq!(
        build_authorization(&bad, "cid", "r", None, &Vec::new()).unwrap_err().message(),
        "invalid authorization_endpoint"
    );
}

#[test]
fn codes_are_redeemed_with_their_verifier() {
    let secret = ClientId::Static { client_id: "c".into(), client_secret: Some("s".into()) };
    let x = exchange_code(&secret, "r", "code", "abc-._~09").unwrap();
    assert_eq!((x.code.as_str(), x.redirect_uri.as_str()), ("code", "r"));
    assert_eq!((x.client_id.as_str(), x.client_secret.as_deref()), ("c", Some("s")));
    assert_eq!(
        exchange_code(&secret, "r", "code", "ab c!").unwrap_err().message(),
        "invalid PKCE verifier byte 32"
    );
    let r = refresh(&secret, "token");
    assert_eq!((r.client_id.as_str(), r.refresh_token.as_str()), ("c", "token"));
    assert_eq!(r.client_secret.as_deref(), Some("s"));
}

#[test]
fn metadata_has_to_name_both_endpoints() {
    let metadata = |a: Option<&str>, t: Option<&str>| {
        Some(IssuerMetadata {
            authorization_endpoint: a.map(|s| s.to_string()),
            token_endpoint: t.map(|s| s.to_string()),
            registration_endpoint: Some("https://r".into()),
            scopes_supported: vec!["mail".into()],
        })
    };
    let good = resolve_issuer("https://i", metadata(Some("https://a"), Some("https://t"))).unwrap();
    assert_eq!(good.authorization, "https://a");
    assert_eq!(good.registration.as_deref(), Some("https://r"));
    assert_eq!(
        resolve_issuer("https://i", None).unwrap_err().message(),
        "no RFC 8414 metadata for issuer https://i"
    );
    assert_eq!(
        resolve_issuer("i", metadata(None, None)).unwrap_err().message(),
        "issuer metadata has no authorization_endpoint"
    );
    assert_eq!(
        resolve_issuer("i", metadata(Some("a"), None)).unwrap_err().message(),
        "issuer metadata has no token_endpoint"
    );
    assert!(check_issuer("https://i").is_ok());
    assert_eq!(check_issuer("i").unwrap_err().message(), "invalid issuer URL");
}

#[test]
fn registered_clients_are_public() {
    let r = register_client("https://api/cb", Some("mail"));
    assert_eq!(r.redirect_uris, vec!["https://api/cb"]);
    assert_eq!(r.token_endpoint_auth_method, "none");
    assert_eq!(r.grant_types, vec!["authorization_code", "refresh_token"]);
    assert_eq!(r.response_types, vec!["code"]);
    assert_eq!(r.client_name, "Carillon");
    assert_eq!(r.scope.as_deref(), Some("mail"));
}

#[test]
fn known_providers_go_by_their_host() {
    assert_eq!(provider_for("accounts.google.com"), Some(KnownProvider::Google));
    assert_eq!(provider_for("login.microsoftonline.com"), Some(KnownProvider::Microsoft));
    assert_eq!(provider_for("api.fastmail.com"), None);
    assert_eq!(KnownProvider::Microsoft.client_id(), "9e5f94bc-e8a4-4e73-b8be-63364c29d753");
    assert_eq!(KnownProvider::Microsoft.client_secret(), None);
    assert_eq!(KnownProvider::Google.scope(), "https://mail.google.com/");
    assert_eq!(KnownProvider::Google.auth_params().len(), 2);
}

#[test]
fn the_mail_scope_is_picked() {
    let pick = |all: &[&str]| mail_scope(&all.iter().map(|s| s.to_string()).collect());
    assert_eq!(
        pick(&["urn:ietf:params:oauth:scope:contacts", "urn:ietf:params:oauth:scope:mail", "offline_access"])
            .as_deref(),
        Some("urn:ietf:params:oauth:scope:mail offline_access")
    );
    assert_eq!(pick(&["https://x/Mail"]).as_deref(), Some("https://x/Mail"));
    assert_eq!(pick(&["https://x/mailbox", "IMAP.All"]).as_deref(), Some("IMAP.All"));
    assert_eq!(pick(&["offline_access"]).as_deref(), Some("offline_access"));
    assert_eq!(pick(&["calendar"]), None);
}

#[test]
fn endpoints_come_from_an_issuer_a_probe_or_directly() {
    let input = |issuer: Option<&str>, a: Option<&str>, t: Option<&str>| AuthInput {
        issuer: issuer.map(|s| s.to_string()),
        authorization_endpoint: a.map(|s| s.to_string()),
        token_endpoint: t.map(|s| s.to_string()),
        scope: None,
    };
    assert!(matches!(
        plan_endpoints(&input(Some("https://api.fastmail.com"), None, None)).unwrap(),
        EndpointPlan::Issuer { issuer, host }
            if issuer == "https://api.fastmail.com" && host == "api.fastmail.com"
    ));
    match plan_endpoints(&input(None, Some("https://auth.x/a"), Some("https://auth.x/t"))).unwrap() {
        EndpointPlan::Probe { issuer, direct, host } => {
            assert_eq!(issuer, "https://auth.x");
            assert_eq!(host, "auth.x");
            let offers = probed_endpoints(direct, Some(endpoints(Some("https://r"), &[])));
            assert_eq!(offers.authorization, "https://auth.example/authorize");
        }
        _ => panic!("expected a probe"),
    }
    assert!(matches!(
        plan_endpoints(&input(None, Some("mailto:a@x"), Some("https://auth.x/t"))).unwrap(),
        EndpointPlan::Probe { issuer, .. } if issuer == "null"
    ));
    let direct = endpoints(None, &[]);
    assert_eq!(probed_endpoints(direct, Some(endpoints(None, &["x"]))).scopes_supported.len(), 0);
    assert!(matches!(
        plan_endpoints(&input(None, Some("https://accounts.google.com/a"), Some("https://t.x/"))).unwrap(),
        EndpointPlan::Direct { host, .. } if host == "accounts.google.com"
    ));
    let why = |a: Option<&str>, t: Option<&str>| plan_endpoints(&input(None, a, t)).unwrap_err().message();
    assert_eq!(why(None, None), "need an issuer or an authorization_endpoint");
    assert_eq!(why(Some("https://a"), None), "need a token_endpoint");
    assert_eq!(why(Some("a"), Some("t")), "invalid authorization_endpoint");
    assert_eq!(why(Some("https://a"), Some("t")), "invalid token_endpoint");
}

#[test]
fn clients_are_registered_or_known() {
    let clients = StaticClients {
        google: None,
        microsoft: Some(("own".into(), Some("secret".into()))),
    };
    let found = Some("found".to_string());
    let offers = endpoints(Some("https://r"), &["x:mail"]);
    assert!(matches!(
        plan_client(&offers, "accounts.google.com", &found, &clients).unwrap(),
        ClientPlan::Register { registration, scope }
            if registration == "https://r" && scope.as_deref() == Some("x:mail")
    ));
    let silent = endpoints(Some("https://r"), &[]);
    assert!(matches!(
        plan_client(&silent, "x", &found, &clients).unwrap(),
        ClientPlan::Register { scope, .. } if scope.as_deref() == Some("found")
    ));
    let none = endpoints(None, &[]);
    match plan_client(&none, "login.microsoftonline.com", &found, &clients).unwrap() {
        ClientPlan::Known { client, scope } => {
            assert_eq!(client.id(), "own");
            assert_eq!(client.secret(), Some("secret"));
            assert_eq!(
                scope.as_deref(),
                Some("https://outlook.office.com/IMAP.AccessAsUser.All offline_access")
            );
        }
        _ => panic!("expected a known client"),
    }
    match plan_client(&none, "accounts.google.com", &found, &clients).unwrap() {
        ClientPlan::Known { client, .. } => {
            assert!(client.id().starts_with("406964657835-"));
        }
        _ => panic!("expected a known client"),
    }
    assert!(matches!(
        plan_client(&none, "x", &found, &clients),
        Err(OauthError::NotConfigured)
    ));
    assert_eq!(
        OauthError::NotConfigured.message(),
        "OAuth is not configured for this provider yet"
    );
    assert!(clients.for_host("google").is_none());
    assert!(clients.for_host("microsoftonline").is_some());
    assert!(clients.for_host("other").is_none());
}

#[test]
fn plans_carry_what_the_callback_needs() {
    let planned =
        plan_authorization(&endpoints(None, &[]), "accounts.google.com", &client(), Some("m".into()), "r")
            .unwrap();
    assert!(planned.auth.url.contains("access_type=offline"));
    assert!(planned.auth.url.contains("prompt=consent"));
    assert_eq!(planned.token_endpoint, "https://auth.example/token");
    assert_eq!(planned.client_id, "cid");
    assert_eq!(planned.client_secret, None);
    assert_eq!(planned.scope.as_deref(), Some("m"));
    assert_eq!(planned.resource, None);
}
