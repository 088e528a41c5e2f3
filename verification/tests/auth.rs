use sqlserver_mcp::auth_manager::{
    credentials_from_env, AuthManager, CredentialAction, EnvVars, TdsAuth,
};
use sqlserver_mcp::auth_strategy::{
    strategy_for, AuthError, AuthStrategy, AzureAdAuthStrategy, SqlServerAuthStrategy,
    TokenResponse, WindowsAuthStrategy,
};
use sqlserver_mcp::config::{auth_method_named, AuthMethod};
use sqlserver_mcp::string_map::{AuthConfig, Credentials, StringMap};

fn pairs(items: &[(&str, &str)]) -> StringMap {
    StringMap::from_pairs(items.iter().map(|(k, v)| (k.to_string(), v.to_string())).collect())
}

fn config(username: &str, password: &str) -> AuthConfig {
    pairs(&[("username", username), ("password", password)])
}

fn no_env() -> EnvVars {
    EnvVars { username: None, password: None, client_id: None, client_secret: None, tenant_id: None }
}

/// Runs the credential cascade for a manager with nothing configured in the
/// environment and nothing stored.
fn resolve_without_sources(manager: &mut AuthManager, now_ms: u64) -> Result<Credentials, AuthError> {
    let mut action = manager.credentials_begin(now_ms);
    loop {
        action = match action {
            CredentialAction::Resolved(c) | CredentialAction::ResolvedAndSave(c) => return Ok(c),
            CredentialAction::Failed(e) => return Err(e),
            CredentialAction::ReadEnvironment => manager.credentials_with_environment(&no_env(), now_ms),
            CredentialAction::LoadStored => manager.credentials_with_stored(None, now_ms),
            CredentialAction::ExchangeToken(_) => panic!("no token exchange expected"),
        };
    }
}

fn resolve_tds_auth(manager: &mut AuthManager, now_ms: u64) -> Result<TdsAuth, AuthError> {
    let credentials = resolve_without_sources(manager, now_ms)?;
    manager.tds_auth_for(&credentials)
}

// ---------------------------------------------------------------------------
// Azure AD

#[test]
fn token_url_defaults_to_the_tenant_specific_v2_endpoint() {
    let config = pairs(&[("tenant_id", "abc-123")]);
    assert_eq!(
        AzureAdAuthStrategy::token_url(&config).ok().unwrap(),
        "https://login.microsoftonline.com/abc-123/oauth2/v2.0/token"
    );
}

#[test]
fn token_url_prefers_an_explicit_override() {
    let config = pairs(&[("token_url", "https://example.com/token")]);
    assert_eq!(AzureAdAuthStrategy::token_url(&config).ok().unwrap(), "https://example.com/token");
}

#[test]
fn token_url_errors_without_either_tenant_id_or_token_url() {
    assert!(AzureAdAuthStrategy::token_url(&AuthConfig::new()).is_err());
}

#[test]
fn validates_a_token_with_no_expiry_as_always_valid() {
    let strategy = AzureAdAuthStrategy;
    let credentials = pairs(&[("access_token", "abc")]);
    assert!(strategy.validate_credentials(&credentials));
}

#[test]
fn rejects_an_expired_token() {
    let strategy = AzureAdAuthStrategy;
    let credentials = pairs(&[("access_token", "abc"), ("expires_at", "1")]);
    assert!(!strategy.validate_credentials(&credentials));
}

#[test]
fn rejects_credentials_with_no_access_token() {
    let strategy = AzureAdAuthStrategy;
    assert!(!strategy.validate_credentials(&Credentials::new()));
}

// ---------------------------------------------------------------------------
// SQL Server and Windows logins

#[test]
fn carries_username_and_password_through_unchanged() {
    let strategy = SqlServerAuthStrategy;
    let credentials = strategy.authenticate(&config("sa", "s3cr3t")).ok().unwrap();
    assert_eq!(credentials.get("username").unwrap(), "sa");
    assert_eq!(credentials.get("password").unwrap(), "s3cr3t");
}

#[test]
fn sql_server_rejects_a_config_missing_either_field() {
    let strategy = SqlServerAuthStrategy;
    assert!(strategy.authenticate(&AuthConfig::new()).is_err());
}

#[test]
fn validates_credentials_carrying_both_fields() {
    let strategy = SqlServerAuthStrategy;
    assert!(strategy.validate_credentials(&config("sa", "s3cr3t")));
    assert!(!strategy.validate_credentials(&Credentials::new()));
}

#[test]
fn carries_a_domain_qualified_username_through_unchanged() {
    let strategy = WindowsAuthStrategy;
    let config = pairs(&[("username", "CORP\\alice"), ("password", "s3cr3t")]);
    let credentials = strategy.authenticate(&config).ok().unwrap();
    assert_eq!(credentials.get("username").unwrap(), "CORP\\alice");
}

#[test]
fn windows_rejects_a_config_missing_either_field() {
    let strategy = WindowsAuthStrategy;
    assert!(strategy.authenticate(&AuthConfig::new()).is_err());
}

// ---------------------------------------------------------------------------
// The manager

#[test]
fn seeded_credentials_win_over_stored_ones() {
    let mut manager = AuthManager::new(AuthMethod::SqlServer);
    manager.set_credentials(config("sa", "s3cr3t"));
    let resolved = resolve_without_sources(&mut manager, 0).ok().unwrap();
    assert_eq!(resolved.get("username").map(String::as_str), Some("sa"));
}

#[test]
fn resolve_tds_auth_builds_a_sql_server_auth_method() {
    let mut manager = AuthManager::new(AuthMethod::SqlServer);
    manager.set_credentials(config("sa", "s3cr3t"));
    let auth = resolve_tds_auth(&mut manager, 0).ok().unwrap();
    assert!(matches!(auth, TdsAuth::SqlServer { .. }));
}

#[test]
fn resolve_tds_auth_builds_an_azure_ad_auth_method() {
    let mut manager = AuthManager::new(AuthMethod::AzureAd);
    manager.set_credentials(pairs(&[("access_token", "eyJ...")]));
    let auth = resolve_tds_auth(&mut manager, 0).ok().unwrap();
    assert!(matches!(auth, TdsAuth::AadToken(_)));
}

#[test]
fn resolve_tds_auth_errors_without_any_credentials() {
    let mut manager = AuthManager::new(AuthMethod::SqlServer);
    assert!(resolve_tds_auth(&mut manager, 0).is_err());
}

// ---------------------------------------------------------------------------
// Further cases

#[test]
fn the_cascade_falls_back_to_the_environment_then_the_store() {
    let mut manager = AuthManager::new(AuthMethod::SqlServer);
    assert!(matches!(manager.credentials_begin(0), CredentialAction::ReadEnvironment));
    let env = EnvVars { username: Some("sa".to_string()), password: Some("pw".to_string()), ..no_env() };
    match manager.credentials_with_environment(&env, 0) {
        CredentialAction::Resolved(c) => assert_eq!(c.get("password").unwrap(), "pw"),
        _ => panic!("expected credentials from the environment"),
    }
    assert!(manager.cached_credentials.is_some());
    let mut manager = AuthManager::new(AuthMethod::SqlServer);
    let env = EnvVars { username: Some("".to_string()), password: Some("pw".to_string()), ..no_env() };
    assert!(matches!(manager.credentials_with_environment(&env, 0), CredentialAction::LoadStored));
    match manager.credentials_with_stored(Some(config("u", "p")), 0) {
        CredentialAction::Resolved(c) => assert_eq!(c.get("username").unwrap(), "u"),
        _ => panic!("expected the stored credentials"),
    }
    match manager.credentials_with_stored(None, 0) {
        CredentialAction::Failed(AuthError::NoActiveCredentials(name)) => assert_eq!(name, "SqlServer"),
        _ => panic!("expected no active credentials"),
    }
}

#[test]
fn an_azure_ad_cascade_exchanges_and_refreshes_tokens() {
    let mut manager = AuthManager::new(AuthMethod::AzureAd);
    let env = EnvVars {
        client_id: Some("id".to_string()),
        client_secret: Some("secret".to_string()),
        tenant_id: Some("t1".to_string()),
        ..no_env()
    };
    let request = match manager.credentials_with_environment(&env, 1_000) {
        CredentialAction::ExchangeToken(q) => q,
        _ => panic!("expected a token exchange"),
    };
    assert_eq!(request.url, "https://login.microsoftonline.com/t1/oauth2/v2.0/token");
    assert_eq!(request.form[0], ("grant_type".to_string(), "client_credentials".to_string()));
    assert_eq!(request.form[3], ("scope".to_string(), "https://database.windows.net/.default".to_string()));
    let settings = credentials_from_env(AuthMethod::AzureAd, &env).unwrap();
    let response = TokenResponse { access_token: "tok".to_string(), expires_in: Some(3600) };
    match manager.credentials_with_env_token(&settings, &request.url, Some(response), 1_000) {
        CredentialAction::Resolved(c) => {
            assert_eq!(c.get("access_token").unwrap(), "tok");
            assert_eq!(c.get("expires_at").unwrap(), "3601000");
            assert_eq!(c.get("tenant_id").unwrap(), "t1");
            assert_eq!(c.get("token_url").unwrap(), &request.url);
        }
        _ => panic!("expected fresh credentials"),
    }
    let expired = TokenResponse { access_token: "tok".to_string(), expires_in: Some(0) };
    assert!(matches!(
        manager.credentials_with_env_token(&settings, &request.url, Some(expired), 1_000),
        CredentialAction::LoadStored
    ));
    let stored = pairs(&[
        ("access_token", "old"),
        ("expires_at", "5"),
        ("client_id", "id"),
        ("client_secret", "secret"),
        ("token_url", "https://example.com/token"),
    ]);
    let refresh = match manager.credentials_with_stored(Some(stored.duplicate()), 10) {
        CredentialAction::ExchangeToken(q) => q,
        _ => panic!("expected a refresh exchange"),
    };
    assert_eq!(refresh.url, "https://example.com/token");
    let response = TokenResponse { access_token: "new".to_string(), expires_in: None };
    match manager.credentials_with_refresh_token(&stored, &refresh.url, Some(response), 10) {
        CredentialAction::ResolvedAndSave(c) => {
            assert_eq!(c.get("access_token").unwrap(), "new");
            assert!(c.get("expires_at").is_none());
        }
        _ => panic!("expected refreshed credentials"),
    }
}

#[test]
fn tds_auth_names_the_missing_field() {
    let manager = AuthManager::new(AuthMethod::Windows);
    match manager.tds_auth_for(&pairs(&[("username", "u")])) {
        Err(AuthError::MissingCredentials(f)) => assert_eq!(f, "password"),
        _ => panic!("expected a missing password"),
    }
    assert!(matches!(
        manager.tds_auth_for(&config("u", "p")),
        Ok(TdsAuth::Windows { .. })
    ));
    let manager = AuthManager::new(AuthMethod::AzureAd);
    match manager.tds_auth_for(&Credentials::new()) {
        Err(AuthError::MissingCredentials(f)) => assert_eq!(f, "access_token"),
        _ => panic!("expected a missing token"),
    }
}

#[test]
fn strategies_follow_the_auth_method() {
    assert!(matches!(strategy_for(AuthMethod::SqlServer), AuthStrategy::SqlServer(_)));
    assert!(matches!(strategy_for(AuthMethod::Windows), AuthStrategy::Windows(_)));
    assert!(matches!(strategy_for(AuthMethod::AzureAd), AuthStrategy::AzureAd(_)));
}

#[test]
fn a_later_pair_replaces_an_earlier_one() {
    let map = pairs(&[("k", "1"), ("k", "2")]);
    assert_eq!(map.get("k").unwrap(), "2");
    assert_eq!(map.entries.len(), 1);
}

#[test]
fn a_token_expiring_now_is_already_invalid() {
    let strategy = AzureAdAuthStrategy;
    let credentials = pairs(&[("access_token", "abc"), ("expires_at", "100")]);
    assert!(strategy.validate_credentials_at(&credentials, 99));
    assert!(!strategy.validate_credentials_at(&credentials, 100));
    let credentials = pairs(&[("access_token", "abc"), ("expires_at", "soon")]);
    assert!(!strategy.validate_credentials_at(&credentials, 0));
}

#[test]
fn auth_methods_are_read_by_their_configuration_names() {
    assert!(auth_method_named("sql_server") == Some(AuthMethod::SqlServer));
    assert!(auth_method_named("windows") == Some(AuthMethod::Windows));
    assert!(auth_method_named("azure_ad") == Some(AuthMethod::AzureAd));
    assert!(auth_method_named("AzureAd").is_none());
}

#[test]
fn a_failed_cascade_leaves_the_cache_as_it_was() {
    let mut manager = AuthManager::new(AuthMethod::SqlServer);
    manager.set_credentials(config("", "pw"));
    assert!(resolve_without_sources(&mut manager, 0).is_err());
    let cached = manager.cached_credentials.as_ref().unwrap();
    assert_eq!(cached.get("password").unwrap(), "pw");
    match resolve_without_sources(&mut manager, 0) {
        Err(e) => assert_eq!(e.message(), "no active credentials for the SqlServer authentication method"),
        Ok(_) => panic!("expected no credentials"),
    }
}
