use interactive_credential::{
    authorization_code_or_error, combine_scopes, token_lifetime_secs, IdentityError,
    InteractiveBrowserCredential, InteractiveBrowserCredentialOptions,
};

#[test]
fn default_options() {
    let o = InteractiveBrowserCredentialOptions::default();
    assert!(o.client_id.is_none());
    assert!(o.tenant_id.is_none());
    assert!(o.redirect_url.is_none());
    assert_eq!(o.prompt.as_deref(), Some("select_account"));
    assert!(o.additionally_allowed_tenants.is_empty());
}

#[test]
fn new_without_options_uses_defaults() {
    let c = InteractiveBrowserCredential::new(None).expect("Failed to create credential");
    assert_eq!(c.client_id(), "04b07795-8ddb-461a-bbee-02f9e1bf7b46");
    assert_eq!(c.tenant_id(), "organizations");
    assert_eq!(c.redirect_url(), "http://localhost:47828/");
    assert_eq!(c.prompt(), "select_account");
}

#[test]
fn new_keeps_given_values() {
    let options = InteractiveBrowserCredentialOptions {
        client_id: Some("my-client".to_string()),
        tenant_id: Some("72f988bf-86f1-41af-91ab-2d7cd011db47".to_string()),
        redirect_url: Some("http://localhost:8400/".to_string()),
        prompt: None,
        additionally_allowed_tenants: vec!["*".to_string()],
    };
    let c = InteractiveBrowserCredential::new(Some(options)).unwrap();
    assert_eq!(c.client_id(), "my-client");
    assert_eq!(c.tenant_id(), "72f988bf-86f1-41af-91ab-2d7cd011db47");
    assert_eq!(c.redirect_url(), "http://localhost:8400/");
    assert_eq!(c.prompt(), "select_account");
    assert!(c.options().prompt.is_none());
    assert_eq!(c.options().additionally_allowed_tenants, vec!["*".to_string()]);
}

#[test]
fn new_with_tenant_only() {
    let options = InteractiveBrowserCredentialOptions {
        tenant_id: Some("contoso".to_string()),
        ..Default::default()
    };
    let c = InteractiveBrowserCredential::new(Some(options)).unwrap();
    assert_eq!(c.client_id(), "04b07795-8ddb-461a-bbee-02f9e1bf7b46");
    assert_eq!(c.tenant_id(), "contoso");
    assert_eq!(c.prompt(), "select_account");
}

#[test]
fn new_with_params_fills_defaults() {
    let c = InteractiveBrowserCredential::new_with_params(Some("cid".to_string()), None, None).unwrap();
    assert_eq!(c.client_id(), "cid");
    assert_eq!(c.tenant_id(), "organizations");
    assert_eq!(c.redirect_url(), "http://localhost:47828/");
    assert_eq!(c.prompt(), "select_account");
    assert_eq!(c.options().client_id.as_deref(), Some("cid"));
    assert!(c.options().tenant_id.is_none());
}

#[test]
fn new_keeps_given_prompt() {
    let options = InteractiveBrowserCredentialOptions {
        prompt: Some("login".to_string()),
        ..Default::default()
    };
    let c = InteractiveBrowserCredential::new(Some(options)).unwrap();
    assert_eq!(c.prompt(), "login");
}

#[test]
fn from_parsed_uses_the_parse_result() {
    let c = InteractiveBrowserCredential::from_parsed(
        InteractiveBrowserCredentialOptions::default(),
        Some("http://127.0.0.1:9/".to_string()),
    )
    .unwrap();
    assert_eq!(c.redirect_url(), "http://127.0.0.1:9/");
    assert_eq!(c.client_id(), "04b07795-8ddb-461a-bbee-02f9e1bf7b46");
    let e = InteractiveBrowserCredential::from_parsed(InteractiveBrowserCredentialOptions::default(), None)
        .unwrap_err();
    assert_eq!(e, IdentityError::InvalidRedirectUrl);
}

#[test]
fn new_with_params_agrees_with_new() {
    let a = InteractiveBrowserCredential::new_with_params(Some("c".to_string()), Some("t".to_string()), None).unwrap();
    let b = InteractiveBrowserCredential::new(Some(InteractiveBrowserCredentialOptions {
        client_id: Some("c".to_string()),
        tenant_id: Some("t".to_string()),
        ..Default::default()
    }))
    .unwrap();
    assert_eq!(a.client_id(), b.client_id());
    assert_eq!(a.tenant_id(), b.tenant_id());
    assert_eq!(a.redirect_url(), b.redirect_url());
    assert_eq!(a.prompt(), b.prompt());
    assert_eq!(a.options().prompt, b.options().prompt);
}

#[test]
fn scopes_default_only() {
    assert_eq!(combine_scopes(&[]), vec!["openid", "offline_access", "profile"]);
}

#[test]
fn scopes_appended_without_duplicates() {
    assert_eq!(
        combine_scopes(&["https://management.core.windows.net/.default", "profile", "openid", "https://management.core.windows.net/.default", "User.Read"]),
        vec!["openid", "offline_access", "profile", "https://management.core.windows.net/.default", "User.Read"]
    );
}

#[test]
fn scopes_merging_twice_changes_nothing() {
    let once = combine_scopes(&["a", "b", "a"]);
    let twice = combine_scopes(&once);
    assert_eq!(once, twice);
}

#[test]
fn token_lifetime() {
    assert_eq!(token_lifetime_secs(None), 3600);
    assert_eq!(token_lifetime_secs(Some(5399)), 5399);
    assert_eq!(token_lifetime_secs(Some(0)), 0);
    assert_eq!(token_lifetime_secs(Some(i64::MAX as u64)), i64::MAX);
    assert_eq!(token_lifetime_secs(Some(u64::MAX)), -1);
    assert_eq!(token_lifetime_secs(Some(1u64 << 63)), i64::MIN);
}

#[test]
fn missing_code_is_an_error() {
    assert_eq!(authorization_code_or_error(Some("abc".to_string())), Ok("abc".to_string()));
    let e = authorization_code_or_error(None).unwrap_err();
    assert_eq!(e, IdentityError::AuthorizationCodeMissing);
    assert_eq!(e.message(), "Failed to retrieve authorization code.");
}

#[test]
fn redirect_url_is_parsed() {
    let c = InteractiveBrowserCredential::new_with_params(
        None,
        None,
        Some("HTTP://LocalHost:8400/cb?x=1".to_string()),
    )
    .unwrap();
    assert_eq!(c.redirect_url(), "http://localhost:8400/cb?x=1");
    assert_eq!(c.options().redirect_url.as_deref(), Some("HTTP://LocalHost:8400/cb?x=1"));
}

#[test]
fn invalid_redirect_url_is_refused() {
    let e = InteractiveBrowserCredential::new_with_params(None, None, Some("not a url".to_string()))
        .unwrap_err();
    assert_eq!(e, IdentityError::InvalidRedirectUrl);
    assert_eq!(e.message(), "Failed to parse redirect URL");
}
