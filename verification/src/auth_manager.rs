//! The deployment's one active authentication strategy and the cascade
//! that finds usable credentials: the in-memory cache, then the
//! environment, then the credential store (refreshing an expired Azure AD
//! token). The cascade is a sequence of decisions; the reads, token
//! exchanges and saves between them are performed by the caller, which
//! hands each outcome back.
use vstd::prelude::*;

use crate::auth_strategy::{
    strategy_accepts, strategy_for, strategy_of, token_credentials, expiry_fits,
    request_for, request_possible,
    AuthError, AuthStrategy, AzureAdAuthStrategy, TokenRequest, TokenResponse,
};
use crate::config::AuthMethod;
use crate::string_map::{AuthConfig, Credentials, StringMap};

verus! {

/// Selects exactly one active authentication strategy per deployment and
/// caches the credentials it last resolved.
pub struct AuthManager {
    pub auth_method: AuthMethod,
    pub strategy: AuthStrategy,
    pub cached_credentials: Option<Credentials>,
}

/// The values of the `SQLSERVER_*` environment variables the strategies
/// read (`None` when unset).
pub struct EnvVars {
    pub username: Option<String>,
    pub password: Option<String>,
    pub client_id: Option<String>,
    pub client_secret: Option<String>,
    pub tenant_id: Option<String>,
}

/// What the caller does next while credentials are being resolved.
pub enum CredentialAction {
    /// Resolved: return these credentials.
    Resolved(Credentials),
    /// Resolved by a refresh: save these credentials, then return them.
    ResolvedAndSave(Credentials),
    /// Give up with this error.
    Failed(AuthError),
    /// Read the environment and continue with `credentials_with_environment`.
    ReadEnvironment,
    /// Post this token request; continue with the response.
    ExchangeToken(TokenRequest),
    /// Load the stored credentials and continue with
    /// `credentials_with_stored`.
    LoadStored,
}

/// How SQL Server is authenticated on the wire.
pub enum TdsAuth {
    SqlServer { username: String, password: String },
    Windows { username: String, password: String },
    AadToken(String),
}

pub open spec fn opt_view(s: Option<String>) -> Option<Seq<char>> {
    match s {
        Some(t) => Some(t@),
        None => None,
    }
}

/// The settings the environment supplies for an authentication method:
/// `username` and `password`, or `client_id`, `client_secret` and (when
/// set) `tenant_id`; `None` when a required variable is unset.
pub open spec fn env_config(
    auth_method: AuthMethod,
    env: EnvVars,
) -> Option<Map<Seq<char>, Seq<char>>> {
    match auth_method {
        AuthMethod::AzureAd => match (opt_view(env.client_id), opt_view(env.client_secret)) {
            (Some(id), Some(secret)) => {
                let base = map!["client_id"@ => id, "client_secret"@ => secret];
                Some(
                    match opt_view(env.tenant_id) {
                        Some(t) => base.insert("tenant_id"@, t),
                        None => base,
                    },
                )
            },
            _ => None,
        },
        _ => match (opt_view(env.username), opt_view(env.password)) {
            (Some(u), Some(p)) => Some(map!["username"@ => u, "password"@ => p]),
            _ => None,
        },
    }
}

/// Builds the settings for `auth_method` from the environment's values
/// (see `env_config`).
pub fn credentials_from_env(auth_method: AuthMethod, env: &EnvVars) -> (r: Option<AuthConfig>)
    ensures
        match env_config(auth_method, *env) {
            Some(m) => r matches Some(c) && c@ == m,
            None => r is None,
        },
{
    let mut config = StringMap::new();
    match auth_method {
        AuthMethod::SqlServer | AuthMethod::Windows => {
            let username = match &env.username {
                Some(u) => u.clone(),
                None => {
                    return None;
                },
            };
            let password = match &env.password {
                Some(p) => p.clone(),
                None => {
                    return None;
                },
            };
            config.insert("username".to_owned(), username);
            config.insert("password".to_owned(), password);
        },
        AuthMethod::AzureAd => {
            let client_id = match &env.client_id {
                Some(c) => c.clone(),
                None => {
                    return None;
                },
            };
            let client_secret = match &env.client_secret {
                Some(c) => c.clone(),
                None => {
                    return None;
                },
            };
            config.insert("client_id".to_owned(), client_id);
            config.insert("client_secret".to_owned(), client_secret);
            if let Some(t) = &env.tenant_id {
                config.insert("tenant_id".to_owned(), t.clone());
            }
        },
    }
    proof {
        reveal_strlit("username");
        reveal_strlit("password");
        reveal_strlit("client_id");
        reveal_strlit("client_secret");
        reveal_strlit("tenant_id");
        assert(config@ =~= env_config(auth_method, *env)->0);
    }
    Some(config)
}

pub open spec fn resolved_with(a: CredentialAction, c: Map<Seq<char>, Seq<char>>) -> bool {
    a matches CredentialAction::Resolved(x) && x@ == c
}

pub open spec fn cached_with(m: AuthManager, c: Map<Seq<char>, Seq<char>>) -> bool {
    m.cached_credentials matches Some(x) && x@ == c
}

pub open spec fn no_active(a: CredentialAction, auth_method: AuthMethod) -> bool {
    a matches CredentialAction::Failed(AuthError::NoActiveCredentials(n)) && n@ == method_name(
        auth_method,
    )
}

/// The method's name as written in errors.
pub open spec fn method_name(auth_method: AuthMethod) -> Seq<char> {
    match auth_method {
        AuthMethod::SqlServer => "SqlServer"@,
        AuthMethod::Windows => "Windows"@,
        AuthMethod::AzureAd => "AzureAd"@,
    }
}

/// The same manager, cache included.
pub open spec fn unchanged(a: AuthManager, b: AuthManager) -> bool {
    a.auth_method == b.auth_method && a.strategy == b.strategy && a.cached_credentials
        == b.cached_credentials
}

/// The same method and strategy, with `c` cached.
pub open spec fn now_caching(a: AuthManager, b: AuthManager, c: Map<Seq<char>, Seq<char>>) -> bool {
    a.auth_method == b.auth_method && a.strategy == b.strategy && cached_with(b, c)
}

/// One step of the credential cascade: a step that resolves caches exactly
/// the credentials it returns; any other step leaves the manager as it
/// was.
pub open spec fn cascade_step(before: AuthManager, after: AuthManager, a: CredentialAction) -> bool {
    match a {
        CredentialAction::Resolved(c) => now_caching(before, after, c@),
        CredentialAction::ResolvedAndSave(c) => now_caching(before, after, c@),
        _ => unchanged(before, after),
    }
}

/// An action after which the cascade goes on.
pub open spec fn continues(a: CredentialAction) -> bool {
    a is ReadEnvironment || a is LoadStored || a is ExchangeToken
}

/// The manager's strategy matches its method.
pub open spec fn manager_wf(m: AuthManager) -> bool {
    m.strategy == strategy_of(m.auth_method)
}

/// The manager after `set_credentials(c)`.
pub open spec fn with_credentials(m: AuthManager, c: Credentials) -> AuthManager {
    AuthManager { cached_credentials: Some(c), ..m }
}

/// What the first step resolves: the cached credentials, when the
/// strategy accepts them at `now_ms`.
pub open spec fn cached_outcome(m: AuthManager, now_ms: u64) -> Option<Map<Seq<char>, Seq<char>>> {
    match m.cached_credentials {
        Some(c) => if strategy_accepts(m.strategy, c@, now_ms) {
            Some(c@)
        } else {
            None
        },
        None => None,
    }
}

fn method_label(auth_method: AuthMethod) -> (r: String)
    ensures
        r@ == method_name(auth_method),
{
    match auth_method {
        AuthMethod::SqlServer => "SqlServer".to_owned(),
        AuthMethod::Windows => "Windows".to_owned(),
        AuthMethod::AzureAd => "AzureAd".to_owned(),
    }
}

impl AuthManager {
    pub fn new(auth_method: AuthMethod) -> (r: Self)
        ensures
            r.auth_method == auth_method,
            r.strategy == strategy_of(auth_method),
            r.cached_credentials is None,
            manager_wf(r),
    {
        AuthManager { strategy: strategy_for(auth_method), auth_method, cached_credentials: None }
    }

    /// Seeds the in-memory credentials directly, bypassing the credential
    /// store.
    pub fn set_credentials(&mut self, credentials: Credentials)
        ensures
            *final(self) == with_credentials(*old(self), credentials),
    {
        self.cached_credentials = Some(credentials);
    }

    fn no_active_credentials(&self) -> (r: CredentialAction)
        ensures
            no_active(r, self.auth_method),
    {
        CredentialAction::Failed(AuthError::NoActiveCredentials(method_label(self.auth_method)))
    }

    /// The first step: cached credentials that the strategy accepts at
    /// `now_ms` are returned; otherwise the environment is read next.
    pub fn credentials_begin(&mut self, now_ms: u64) -> (r: CredentialAction)
        ensures
            cascade_step(*old(self), *final(self), r),
            unchanged(*old(self), *final(self)),
            match cached_outcome(*old(self), now_ms) {
                Some(c) => resolved_with(r, c),
                None => r is ReadEnvironment,
            },
    {
        match &self.cached_credentials {
            Some(c) => {
                if self.strategy.validate_credentials_at(c, now_ms) {
                    CredentialAction::Resolved(c.duplicate())
                } else {
                    CredentialAction::ReadEnvironment
                }
            },
            None => CredentialAction::ReadEnvironment,
        }
    }

    /// After the environment is read: settings from the environment are
    /// authenticated. A SQL or Windows login is carried through and, when
    /// accepted, cached and returned; for Azure AD the token request is
    /// returned for the caller to post (then `credentials_with_env_token`).
    /// Without usable settings the stored credentials are loaded next.
    pub fn credentials_with_environment(&mut self, env: &EnvVars, now_ms: u64) -> (r:
        CredentialAction)
        requires
            manager_wf(*old(self)),
        ensures
            cascade_step(*old(self), *final(self), r),
            match env_config(old(self).auth_method, *env) {
                None => unchanged(*old(self), *final(self)) && r is LoadStored,
                Some(config) => match old(self).auth_method {
                    AuthMethod::AzureAd => unchanged(*old(self), *final(self)) && if request_possible(
                        config,
                    ) {
                        (r matches CredentialAction::ExchangeToken(q) && request_for(config, q))
                    } else {
                        r is LoadStored
                    },
                    _ => {
                        let login = map!["username"@ => config["username"@], "password"@ => config["password"@]];
                        if strategy_accepts(old(self).strategy, login, now_ms) {
                            now_caching(*old(self), *final(self), login) && resolved_with(r, login)
                        } else {
                            unchanged(*old(self), *final(self)) && r is LoadStored
                        }
                    },
                },
            },
    {
        proof {
            reveal_strlit("username");
            reveal_strlit("password");
        }
        let config = match credentials_from_env(self.auth_method, env) {
            Some(c) => c,
            None => {
                return CredentialAction::LoadStored;
            },
        };
        let authenticated = match &self.strategy {
            AuthStrategy::SqlServer(s) => s.authenticate(&config),
            AuthStrategy::Windows(s) => s.authenticate(&config),
            AuthStrategy::AzureAd(_) => {
                return match AzureAdAuthStrategy::token_request(&config) {
                    Ok(q) => CredentialAction::ExchangeToken(q),
                    Err(_) => CredentialAction::LoadStored,
                };
            },
        };
        match authenticated {
            Ok(c) => {
                if self.strategy.validate_credentials_at(&c, now_ms) {
                    let answer = c.duplicate();
                    self.cached_credentials = Some(c);
                    CredentialAction::Resolved(answer)
                } else {
                    CredentialAction::LoadStored
                }
            },
            Err(_) => CredentialAction::LoadStored,
        }
    }

    /// After the token request built from the environment's settings was
    /// posted: a response is turned into credentials at `now_ms`, which are
    /// cached and returned when valid; a failed exchange or an already
    /// expired token leads to loading the stored credentials.
    pub fn credentials_with_env_token(
        &mut self,
        config: &AuthConfig,
        token_url: &str,
        response: Option<TokenResponse>,
        now_ms: u64,
    ) -> (r: CredentialAction)
        requires
            manager_wf(*old(self)),
            old(self).auth_method == AuthMethod::AzureAd,
            response matches Some(t) ==> expiry_fits(t, now_ms),
        ensures
            cascade_step(*old(self), *final(self), r),
            match response {
                Some(t) => {
                    let c = token_credentials(t, config@, token_url@, now_ms);
                    if strategy_accepts(old(self).strategy, c, now_ms) {
                        now_caching(*old(self), *final(self), c) && resolved_with(r, c)
                    } else {
                        unchanged(*old(self), *final(self)) && r is LoadStored
                    }
                },
                None => unchanged(*old(self), *final(self)) && r is LoadStored,
            },
    {
        match response {
            Some(t) => {
                let c = AzureAdAuthStrategy::from_token_response_at(t, config, token_url, now_ms);
                if self.strategy.validate_credentials_at(&c, now_ms) {
                    let answer = c.duplicate();
                    self.cached_credentials = Some(c);
                    CredentialAction::Resolved(answer)
                } else {
                    CredentialAction::LoadStored
                }
            },
            None => CredentialAction::LoadStored,
        }
    }

    /// After the credential store was read: stored credentials that the
    /// strategy accepts are cached and returned. Expired Azure AD
    /// credentials are refreshed by a new token exchange made with them
    /// (then `credentials_with_refresh_token`); anything else ends with
    /// `NoActiveCredentials`.
    pub fn credentials_with_stored(&mut self, stored: Option<Credentials>, now_ms: u64) -> (r:
        CredentialAction)
        requires
            manager_wf(*old(self)),
        ensures
            cascade_step(*old(self), *final(self), r),
            match stored {
                None => unchanged(*old(self), *final(self)) && no_active(r, old(self).auth_method),
                Some(s) => if strategy_accepts(old(self).strategy, s@, now_ms) {
                    now_caching(*old(self), *final(self), s@) && resolved_with(r, s@)
                } else {
                    unchanged(*old(self), *final(self)) && match old(self).auth_method {
                        AuthMethod::AzureAd => if request_possible(s@) {
                            (r matches CredentialAction::ExchangeToken(q) && request_for(s@, q))
                        } else {
                            no_active(r, old(self).auth_method)
                        },
                        _ => no_active(r, old(self).auth_method),
                    }
                },
            },
    {
        let parsed = match stored {
            Some(p) => p,
            None => {
                return self.no_active_credentials();
            },
        };
        if self.strategy.validate_credentials_at(&parsed, now_ms) {
            let answer = parsed.duplicate();
            self.cached_credentials = Some(parsed);
            return CredentialAction::Resolved(answer);
        }
        match &self.strategy {
            AuthStrategy::AzureAd(_) => match AzureAdAuthStrategy::token_request(&parsed) {
                Ok(q) => CredentialAction::ExchangeToken(q),
                Err(_) => self.no_active_credentials(),
            },
            _ => self.no_active_credentials(),
        }
    }

    /// After the refresh exchange made with the stored credentials: the new
    /// credentials are cached, saved and returned; a failed exchange ends
    /// with `NoActiveCredentials`.
    pub fn credentials_with_refresh_token(
        &mut self,
        stored: &Credentials,
        token_url: &str,
        response: Option<TokenResponse>,
        now_ms: u64,
    ) -> (r: CredentialAction)
        requires
            manager_wf(*old(self)),
            response matches Some(t) ==> expiry_fits(t, now_ms),
        ensures
            cascade_step(*old(self), *final(self), r),
            match response {
                Some(t) => {
                    let c = token_credentials(t, stored@, token_url@, now_ms);
                    now_caching(*old(self), *final(self), c) && (r matches CredentialAction::ResolvedAndSave(
                        x,
                    ) && x@ == c)
                },
                None => unchanged(*old(self), *final(self)) && no_active(r, old(self).auth_method),
            },
    {
        match response {
            Some(t) => {
                let c = AzureAdAuthStrategy::from_token_response_at(t, stored, token_url, now_ms);
                let answer = c.duplicate();
                self.cached_credentials = Some(c);
                CredentialAction::ResolvedAndSave(answer)
            },
            None => self.no_active_credentials(),
        }
    }

    /// Logging in with explicit settings: a SQL or Windows login is
    /// authenticated, cached and handed back to be saved; for Azure AD the
    /// token request is returned for the caller to post (then
    /// `login_with_token`). Settings the strategy needs but lacks are
    /// `Failed(MissingCredentials)`.
    pub fn login_begin(&mut self, config: &AuthConfig) -> (r: CredentialAction)
        requires
            manager_wf(*old(self)),
        ensures
            match old(self).auth_method {
                AuthMethod::AzureAd => unchanged(*old(self), *final(self)) && if request_possible(config@) {
                    (r matches CredentialAction::ExchangeToken(q) && request_for(config@, q))
                } else {
                    r matches CredentialAction::Failed(AuthError::MissingCredentials(_))
                },
                _ => if config@.contains_key("username"@) && config@.contains_key("password"@) {
                    let login = map!["username"@ => config@["username"@], "password"@ => config@["password"@]];
                    now_caching(*old(self), *final(self), login) && (r matches CredentialAction::ResolvedAndSave(x) && x@ == login)
                } else {
                    unchanged(*old(self), *final(self)) && r matches CredentialAction::Failed(AuthError::MissingCredentials(_))
                },
            },
    {
        let authenticated = match &self.strategy {
            AuthStrategy::SqlServer(s) => s.authenticate(config),
            AuthStrategy::Windows(s) => s.authenticate(config),
            AuthStrategy::AzureAd(_) => {
                return match AzureAdAuthStrategy::token_request(config) {
                    Ok(q) => CredentialAction::ExchangeToken(q),
                    Err(e) => CredentialAction::Failed(e),
                };
            },
        };
        match authenticated {
            Ok(c) => {
                let answer = c.duplicate();
                self.cached_credentials = Some(c);
                CredentialAction::ResolvedAndSave(answer)
            },
            Err(e) => CredentialAction::Failed(e),
        }
    }

    /// Completes an Azure AD login with the token endpoint's response at
    /// `now_ms`: the credentials are cached and handed back to be saved.
    pub fn login_with_token(
        &mut self,
        config: &AuthConfig,
        token_url: &str,
        response: TokenResponse,
        now_ms: u64,
    ) -> (r: CredentialAction)
        requires
            expiry_fits(response, now_ms),
        ensures
            ({
                let c = token_credentials(response, config@, token_url@, now_ms);
                now_caching(*old(self), *final(self), c) && (r matches CredentialAction::ResolvedAndSave(
                    x,
                ) && x@ == c)
            }),
    {
        let c = AzureAdAuthStrategy::from_token_response_at(response, config, token_url, now_ms);
        let answer = c.duplicate();
        self.cached_credentials = Some(c);
        CredentialAction::ResolvedAndSave(answer)
    }

    /// The wire authentication for resolved credentials: a SQL or Windows
    /// login from `username` and `password`, or the Azure AD
    /// `access_token`; a missing field is `MissingCredentials` naming it.
    pub fn tds_auth_for(&self, credentials: &Credentials) -> (r: Result<TdsAuth, AuthError>)
        ensures
            match self.auth_method {
                AuthMethod::AzureAd => if credentials@.contains_key("access_token"@) {
                    r matches Ok(TdsAuth::AadToken(t)) && t@ == credentials@["access_token"@]
                } else {
                    r matches Err(AuthError::MissingCredentials(m)) && m@ == "access_token"@
                },
                _ => if !credentials@.contains_key("username"@) {
                    r matches Err(AuthError::MissingCredentials(m)) && m@ == "username"@
                } else if !credentials@.contains_key("password"@) {
                    r matches Err(AuthError::MissingCredentials(m)) && m@ == "password"@
                } else if self.auth_method == AuthMethod::SqlServer {
                    r matches Ok(TdsAuth::SqlServer { username: u, password: p }) && u@
                        == credentials@["username"@] && p@ == credentials@["password"@]
                } else {
                    r matches Ok(TdsAuth::Windows { username: u, password: p }) && u@
                        == credentials@["username"@] && p@ == credentials@["password"@]
                },
            },
    {
        match self.auth_method {
            AuthMethod::AzureAd => match credentials.get("access_token") {
                Some(t) => Ok(TdsAuth::AadToken(t.clone())),
                None => Err(AuthError::MissingCredentials("access_token".to_owned())),
            },
            _ => {
                let username = match credentials.get("username") {
                    Some(u) => u.clone(),
                    None => {
                        return Err(AuthError::MissingCredentials("username".to_owned()));
                    },
                };
                let password = match credentials.get("password") {
                    Some(p) => p.clone(),
                    None => {
                        return Err(AuthError::MissingCredentials("password".to_owned()));
                    },
                };
                if self.auth_method == AuthMethod::SqlServer {
                    Ok(TdsAuth::SqlServer { username, password })
                } else {
                    Ok(TdsAuth::Windows { username, password })
                }
            },
        }
    }
}

/// Credentials seeded with `set_credentials` that the strategy accepts
/// are what the cascade resolves first, ahead of the environment and the
/// store.
pub proof fn law_seeded_valid_credentials_win(m: AuthManager, c: Credentials, now_ms: u64)
    requires
        strategy_accepts(m.strategy, c@, now_ms),
    ensures
        cached_outcome(with_credentials(m, c), now_ms) == Some(c@),
{
}

proof fn lemma_cache_kept(ms: Seq<AuthManager>, acts: Seq<CredentialAction>, k: int)
    requires
        0 <= k < ms.len(),
        ms.len() == acts.len() + 1,
        forall|i: int| 0 <= i < acts.len() ==> cascade_step(ms[i], ms[i + 1], #[trigger] acts[i]),
        forall|i: int| 0 <= i < k ==> continues(#[trigger] acts[i]),
    ensures
        unchanged(ms[0], ms[k]),
    decreases k,
{
    if k > 0 {
        lemma_cache_kept(ms, acts, k - 1);
        assert(continues(acts[k - 1]));
        assert(cascade_step(ms[k - 1], ms[k], acts[k - 1]));
    }
}

/// A run of the credential cascade, whose steps each continue until the
/// last, ends with the manager caching exactly the credentials it returns,
/// and a run that fails leaves the cache as it was at the start; the
/// method and strategy never change.
pub proof fn law_cascade_caches_what_it_returns(ms: Seq<AuthManager>, acts: Seq<CredentialAction>)
    requires
        acts.len() > 0,
        ms.len() == acts.len() + 1,
        forall|i: int| 0 <= i < acts.len() ==> cascade_step(ms[i], ms[i + 1], #[trigger] acts[i]),
        forall|i: int| 0 <= i < acts.len() - 1 ==> continues(#[trigger] acts[i]),
    ensures
        ms.last().auth_method == ms[0].auth_method,
        ms.last().strategy == ms[0].strategy,
        match acts.last() {
            CredentialAction::Resolved(c) => cached_with(ms.last(), c@),
            CredentialAction::ResolvedAndSave(c) => cached_with(ms.last(), c@),
            _ => ms.last().cached_credentials == ms[0].cached_credentials,
        },
{
    let n = acts.len() - 1;
    lemma_cache_kept(ms, acts, n);
    assert(cascade_step(ms[n], ms[n + 1], acts[n]));
}

} // verus!
