//! The three ways this server authenticates to SQL Server: a SQL login,
//! Windows credentials, and an Azure AD (Entra ID) access token obtained
//! with the OAuth2 client-credentials grant.
use vstd::prelude::*;

use crate::config::AuthMethod;
use crate::external::now_millis;
use crate::string_map::{AuthConfig, Credentials, StringMap};
use crate::text::{concat2, concat3, chars_of, dec_digits, parse_u64, parse_unsigned, string_of, u64_text, extend_str};

verus! {

/// Why credentials could not be produced.
pub enum AuthError {
    /// Settings the strategy needs are absent; the text names them.
    MissingCredentials(String),
    /// No cached, configured or stored credentials are usable; the text
    /// names the authentication method.
    NoActiveCredentials(String),
}

/// The message of an authentication error.
pub open spec fn auth_error_text(e: AuthError) -> Seq<char> {
    match e {
        AuthError::MissingCredentials(n) => "missing credentials: "@ + n@,
        AuthError::NoActiveCredentials(m) => "no active credentials for the "@ + m@
            + " authentication method"@,
    }
}

impl AuthError {
    /// The error's message (`auth_error_text`).
    pub fn message(&self) -> (r: String)
        ensures
            r@ == auth_error_text(*self),
    {
        match self {
            AuthError::MissingCredentials(n) => concat2("missing credentials: ", n.as_str()),
            AuthError::NoActiveCredentials(m) => concat3(
                "no active credentials for the ",
                m.as_str(),
                " authentication method",
            ),
        }
    }
}

/// SQL Server Authentication: a SQL login validated by the engine.
pub struct SqlServerAuthStrategy;

/// Windows Authentication (integrated security).
pub struct WindowsAuthStrategy;

/// Azure AD authentication with an access token.
pub struct AzureAdAuthStrategy;

/// The strategy of a deployment's authentication method.
pub enum AuthStrategy {
    SqlServer(SqlServerAuthStrategy),
    Windows(WindowsAuthStrategy),
    AzureAd(AzureAdAuthStrategy),
}

pub open spec fn is_missing(r: Result<Credentials, AuthError>, names: Seq<char>) -> bool {
    r matches Err(AuthError::MissingCredentials(m)) && m@ == names
}

/// `username` and `password` carried through unchanged, if both are set.
pub open spec fn login_credentials(
    config: Map<Seq<char>, Seq<char>>,
    r: Result<Credentials, AuthError>,
    missing_username: Seq<char>,
    missing_password: Seq<char>,
) -> bool {
    if !config.contains_key("username"@) {
        is_missing(r, missing_username)
    } else if !config.contains_key("password"@) {
        is_missing(r, missing_password)
    } else {
        r matches Ok(c) && c@ == map!["username"@ => config["username"@], "password"@ => config["password"@]]
    }
}

/// Credentials carrying a non-empty `username` and a non-empty `password`.
pub open spec fn login_valid(c: Map<Seq<char>, Seq<char>>) -> bool {
    &&& c.contains_key("username"@)
    &&& c["username"@].len() > 0
    &&& c.contains_key("password"@)
    &&& c["password"@].len() > 0
}

fn login_from(config: &AuthConfig, missing_username: &str, missing_password: &str) -> (r: Result<
    Credentials,
    AuthError,
>)
    ensures
        login_credentials(config@, r, missing_username@, missing_password@),
{
    let username = match config.get("username") {
        Some(u) => u,
        None => {
            return Err(AuthError::MissingCredentials(missing_username.to_owned()));
        },
    };
    let password = match config.get("password") {
        Some(p) => p,
        None => {
            return Err(AuthError::MissingCredentials(missing_password.to_owned()));
        },
    };
    let mut credentials = StringMap::new();
    credentials.insert("username".to_owned(), username.clone());
    credentials.insert("password".to_owned(), password.clone());
    proof {
        assert(credentials@ =~= map!["username"@ => config@["username"@], "password"@ => config@["password"@]]);
    }
    Ok(credentials)
}

fn login_is_valid(credentials: &Credentials) -> (r: bool)
    ensures
        r == login_valid(credentials@),
{
    let user_ok = match credentials.get("username") {
        Some(u) => !u.as_str().is_empty(),
        None => false,
    };
    let password_ok = match credentials.get("password") {
        Some(p) => !p.as_str().is_empty(),
        None => false,
    };
    user_ok && password_ok
}

impl SqlServerAuthStrategy {
    /// Carries `username` and `password` through unchanged; either missing
    /// is `MissingCredentials("username, password")`.
    pub fn authenticate(&self, config: &AuthConfig) -> (r: Result<Credentials, AuthError>)
        ensures
            login_credentials(config@, r, "username, password"@, "username, password"@),
    {
        login_from(config, "username, password", "username, password")
    }

    /// Both `username` and `password` present and non-empty.
    pub fn validate_credentials(&self, credentials: &Credentials) -> (r: bool)
        ensures
            r == login_valid(credentials@),
    {
        login_is_valid(credentials)
    }
}

impl WindowsAuthStrategy {
    /// Carries `username` (optionally `DOMAIN\user`) and `password` through
    /// unchanged; either missing is `MissingCredentials`.
    pub fn authenticate(&self, config: &AuthConfig) -> (r: Result<Credentials, AuthError>)
        ensures
            login_credentials(
                config@,
                r,
                "username (optionally DOMAIN\\user), password"@,
                "username, password"@,
            ),
    {
        login_from(config, "username (optionally DOMAIN\\user), password", "username, password")
    }

    /// Both `username` and `password` present and non-empty.
    pub fn validate_credentials(&self, credentials: &Credentials) -> (r: bool)
        ensures
            r == login_valid(credentials@),
    {
        login_is_valid(credentials)
    }
}

// ---------------------------------------------------------------------------
// Azure AD

/// A client-credentials token request: the token endpoint and the form
/// fields posted to it.
pub struct TokenRequest {
    pub url: String,
    pub form: Vec<(String, String)>,
}

/// The token endpoint's answer.
pub struct TokenResponse {
    pub access_token: String,
    pub expires_in: Option<u64>,
}

/// The token endpoint of a configuration: an explicit `token_url`, else
/// the tenant's v2 endpoint.
pub open spec fn token_url_of(config: Map<Seq<char>, Seq<char>>) -> Option<Seq<char>> {
    if config.contains_key("token_url"@) {
        Some(config["token_url"@])
    } else if config.contains_key("tenant_id"@) {
        Some("https://login.microsoftonline.com/"@ + config["tenant_id"@] + "/oauth2/v2.0/token"@)
    } else {
        None
    }
}

pub open spec fn scope_of(config: Map<Seq<char>, Seq<char>>) -> Seq<char> {
    if config.contains_key("scope"@) {
        config["scope"@]
    } else {
        "https://database.windows.net/.default"@
    }
}

pub open spec fn form_view(form: Seq<(String, String)>) -> Seq<(Seq<char>, Seq<char>)> {
    form.map_values(|p: (String, String)| (p.0@, p.1@))
}

/// The form fields of a client-credentials token request.
pub open spec fn token_form(config: Map<Seq<char>, Seq<char>>) -> Seq<(Seq<char>, Seq<char>)> {
    seq![
        ("grant_type"@, "client_credentials"@),
        ("client_id"@, config["client_id"@]),
        ("client_secret"@, config["client_secret"@]),
        ("scope"@, scope_of(config)),
    ]
}

/// Whether a token request can be made from a configuration: it has a
/// client id, a client secret and a token endpoint.
pub open spec fn request_possible(config: Map<Seq<char>, Seq<char>>) -> bool {
    config.contains_key("client_id"@) && config.contains_key("client_secret"@) && token_url_of(
        config,
    ) is Some
}

/// `q` is the token request made from `config`.
pub open spec fn request_for(config: Map<Seq<char>, Seq<char>>, q: TokenRequest) -> bool {
    q.url@ == token_url_of(config)->0 && form_view(q.form@) == token_form(config)
}

/// The credentials made from a token response at time `now_ms`: the
/// access token, its expiry time in milliseconds when the response gives
/// a lifetime, the configuration's client settings, and the endpoint.
pub open spec fn token_credentials(
    data: TokenResponse,
    config: Map<Seq<char>, Seq<char>>,
    token_url: Seq<char>,
    now_ms: u64,
) -> Map<Seq<char>, Seq<char>> {
    let with_token = map!["access_token"@ => data.access_token@];
    let with_expiry = match data.expires_in {
        Some(e) => with_token.insert("expires_at"@, dec_digits((now_ms + e * 1000) as nat)),
        None => with_token,
    };
    let copied = Map::new(
        |k: Seq<char>|
            with_expiry.contains_key(k) || ((k == "client_id"@ || k == "client_secret"@ || k
                == "tenant_id"@ || k == "scope"@) && config.contains_key(k)),
        |k: Seq<char>|
            if (k == "client_id"@ || k == "client_secret"@ || k == "tenant_id"@ || k == "scope"@)
                && config.contains_key(k) {
                config[k]
            } else {
                with_expiry[k]
            },
    );
    copied.insert("token_url"@, token_url)
}

/// Whether the expiry time `now_ms + expires_in * 1000` fits a `u64`.
pub open spec fn expiry_fits(data: TokenResponse, now_ms: u64) -> bool {
    match data.expires_in {
        Some(e) => now_ms + e * 1000 <= u64::MAX,
        None => true,
    }
}

/// Credentials with an access token that has not expired at `now_ms`: no
/// `expires_at`, or an `expires_at` (a `u64` in milliseconds) later than
/// `now_ms`.
pub open spec fn token_valid_at(c: Map<Seq<char>, Seq<char>>, now_ms: u64) -> bool {
    &&& c.contains_key("access_token"@)
    &&& if c.contains_key("expires_at"@) {
        match parse_unsigned(c["expires_at"@], u64::MAX as nat) {
            Some(t) => now_ms < t,
            None => false,
        }
    } else {
        true
    }
}

fn copy_setting(from: &AuthConfig, to: &mut Credentials, key: &str)
    ensures
        final(to)@ == if from@.contains_key(key@) {
            old(to)@.insert(key@, from@[key@])
        } else {
            old(to)@
        },
{
    match from.get(key) {
        Some(v) => {
            to.insert(key.to_owned(), v.clone());
        },
        None => {},
    }
}

impl AzureAdAuthStrategy {
    /// The token endpoint: an explicit `token_url` wins, else
    /// `https://login.microsoftonline.com/<tenant_id>/oauth2/v2.0/token`;
    /// with neither it is `MissingCredentials`.
    pub fn token_url(config: &AuthConfig) -> (r: Result<String, AuthError>)
        ensures
            match token_url_of(config@) {
                Some(u) => r matches Ok(s) && s@ == u,
                None => r matches Err(AuthError::MissingCredentials(m)) && m@
                    == "tenant_id (or token_url), client_id, client_secret"@,
            },
    {
        if let Some(url) = config.get("token_url") {
            return Ok(url.clone());
        }
        let tenant_id = match config.get("tenant_id") {
            Some(t) => t,
            None => {
                return Err(
                    AuthError::MissingCredentials(
                        "tenant_id (or token_url), client_id, client_secret".to_owned(),
                    ),
                );
            },
        };
        let mut url: Vec<char> = Vec::new();
        extend_str(&mut url, "https://login.microsoftonline.com/");
        extend_str(&mut url, tenant_id.as_str());
        extend_str(&mut url, "/oauth2/v2.0/token");
        Ok(string_of(&url))
    }

    /// What `authenticate` posts: `client_id` and `client_secret` are
    /// required (`MissingCredentials` otherwise), then the token endpoint
    /// is resolved, and the form carries the client-credentials grant, the
    /// client settings and the scope (by default
    /// `https://database.windows.net/.default`).
    pub fn token_request(config: &AuthConfig) -> (r: Result<TokenRequest, AuthError>)
        ensures
            if !config@.contains_key("client_id"@) || !config@.contains_key("client_secret"@) {
                r matches Err(AuthError::MissingCredentials(m)) && m@
                    == "client_id, client_secret, tenant_id"@
            } else {
                match token_url_of(config@) {
                    Some(u) => r matches Ok(q) && request_for(config@, q),
                    None => r matches Err(AuthError::MissingCredentials(m)) && m@
                        == "tenant_id (or token_url), client_id, client_secret"@,
                }
            },
    {
        let client_id = match config.get("client_id") {
            Some(c) => c,
            None => {
                return Err(AuthError::MissingCredentials("client_id, client_secret, tenant_id".to_owned()));
            },
        };
        let client_secret = match config.get("client_secret") {
            Some(c) => c,
            None => {
                return Err(AuthError::MissingCredentials("client_id, client_secret, tenant_id".to_owned()));
            },
        };
        let url = match Self::token_url(config) {
            Ok(u) => u,
            Err(e) => {
                return Err(e);
            },
        };
        let scope = match config.get("scope") {
            Some(s) => s.clone(),
            None => "https://database.windows.net/.default".to_owned(),
        };
        let mut form: Vec<(String, String)> = Vec::new();
        form.push(("grant_type".to_owned(), "client_credentials".to_owned()));
        form.push(("client_id".to_owned(), client_id.clone()));
        form.push(("client_secret".to_owned(), client_secret.clone()));
        form.push(("scope".to_owned(), scope));
        assert(form_view(form@) =~= token_form(config@));
        Ok(TokenRequest { url, form })
    }

    /// Builds credentials from a token response at time `now_ms` (see
    /// `token_credentials`).
    pub fn from_token_response_at(
        data: TokenResponse,
        config: &AuthConfig,
        token_url: &str,
        now_ms: u64,
    ) -> (r: Credentials)
        requires
            expiry_fits(data, now_ms),
        ensures
            r@ == token_credentials(data, config@, token_url@, now_ms),
    {
        let ghost d = data;
        let mut credentials = StringMap::new();
        credentials.insert("access_token".to_owned(), data.access_token);
        if let Some(expires_in) = data.expires_in {
            let expires_at: u64 = now_ms + expires_in * 1000;
            credentials.insert("expires_at".to_owned(), u64_text(expires_at));
        }
        let ghost base = credentials@;
        copy_setting(config, &mut credentials, "client_id");
        copy_setting(config, &mut credentials, "client_secret");
        copy_setting(config, &mut credentials, "tenant_id");
        copy_setting(config, &mut credentials, "scope");
        credentials.insert("token_url".to_owned(), token_url.to_owned());
        proof {
            reveal_strlit("client_id");
            reveal_strlit("client_secret");
            reveal_strlit("tenant_id");
            reveal_strlit("scope");
            reveal_strlit("token_url");
            reveal_strlit("access_token");
            reveal_strlit("expires_at");
            assert(credentials@ =~= token_credentials(d, config@, token_url@, now_ms));
        }
        credentials
    }

    /// Builds credentials from a token response at the current time of the
    /// system clock. `None` only when the expiry time would overflow a
    /// `u64` at that time.
    pub fn from_token_response(data: TokenResponse, config: &AuthConfig, token_url: &str) -> (r:
        Option<Credentials>)
        ensures
            exists|now_ms: u64|
                match r {
                    Some(c) => expiry_fits(data, now_ms) && c@ == token_credentials(
                        data,
                        config@,
                        token_url@,
                        now_ms,
                    ),
                    None => !expiry_fits(data, now_ms),
                },
    {
        let now_ms = now_millis();
        let fits = match data.expires_in {
            Some(e) => e <= (u64::MAX - now_ms) / 1000,
            None => true,
        };
        if fits {
            let ghost d = data;
            let c = Self::from_token_response_at(data, config, token_url, now_ms);
            assert(expiry_fits(d, now_ms) && c@ == token_credentials(d, config@, token_url@, now_ms));
            Some(c)
        } else {
            assert(!expiry_fits(data, now_ms));
            None
        }
    }

    /// Whether the credentials hold an access token that has not expired
    /// at `now_ms` (see `token_valid_at`).
    pub fn validate_credentials_at(&self, credentials: &Credentials, now_ms: u64) -> (r: bool)
        ensures
            r == token_valid_at(credentials@, now_ms),
    {
        if !credentials.contains_key("access_token") {
            return false;
        }
        let expires_at = match credentials.get("expires_at") {
            Some(e) => e,
            None => {
                return true;
            },
        };
        let digits = chars_of(expires_at.as_str());
        match parse_u64(&digits) {
            Some(t) => now_ms < t,
            None => false,
        }
    }

    /// Whether the credentials hold an access token that has not expired at
    /// the current time of the system clock.
    pub fn validate_credentials(&self, credentials: &Credentials) -> (r: bool)
        ensures
            exists|now_ms: u64| r == token_valid_at(credentials@, now_ms),
            !credentials@.contains_key("access_token"@) ==> !r,
            credentials@.contains_key("access_token"@) && !credentials@.contains_key(
                "expires_at"@,
            ) ==> r,
    {
        let now_ms = now_millis();
        self.validate_credentials_at(credentials, now_ms)
    }
}

// ---------------------------------------------------------------------------
// Choosing a strategy

/// The strategy of an authentication method.
pub fn strategy_for(auth_method: AuthMethod) -> (r: AuthStrategy)
    ensures
        r == strategy_of(auth_method),
{
    match auth_method {
        AuthMethod::SqlServer => AuthStrategy::SqlServer(SqlServerAuthStrategy),
        AuthMethod::Windows => AuthStrategy::Windows(WindowsAuthStrategy),
        AuthMethod::AzureAd => AuthStrategy::AzureAd(AzureAdAuthStrategy),
    }
}

pub open spec fn strategy_of(auth_method: AuthMethod) -> AuthStrategy {
    match auth_method {
        AuthMethod::SqlServer => AuthStrategy::SqlServer(SqlServerAuthStrategy),
        AuthMethod::Windows => AuthStrategy::Windows(WindowsAuthStrategy),
        AuthMethod::AzureAd => AuthStrategy::AzureAd(AzureAdAuthStrategy),
    }
}

/// Whether a strategy accepts credentials at time `now_ms`.
pub open spec fn strategy_accepts(s: AuthStrategy, c: Map<Seq<char>, Seq<char>>, now_ms: u64) -> bool {
    match s {
        AuthStrategy::AzureAd(_) => token_valid_at(c, now_ms),
        _ => login_valid(c),
    }
}

impl AuthStrategy {
    /// `validate_credentials` of the strategy, at time `now_ms`.
    pub fn validate_credentials_at(&self, credentials: &Credentials, now_ms: u64) -> (r: bool)
        ensures
            r == strategy_accepts(*self, credentials@, now_ms),
    {
        match self {
            AuthStrategy::SqlServer(s) => s.validate_credentials(credentials),
            AuthStrategy::Windows(s) => s.validate_credentials(credentials),
            AuthStrategy::AzureAd(s) => s.validate_credentials_at(credentials, now_ms),
        }
    }
}

// ---------------------------------------------------------------------------
// Laws

/// A token request posts four form fields in this order: the
/// client-credentials grant, the configured client id and client secret,
/// and the scope, which is the configured `scope` when the configuration
/// has one and `https://database.windows.net/.default` only when it has
/// none.
pub proof fn law_token_request_posts_the_configured_scope(
    config: Map<Seq<char>, Seq<char>>,
    q: TokenRequest,
)
    requires
        request_for(config, q),
    ensures
        q.form@.len() == 4,
        q.form@[0].0@ == "grant_type"@ && q.form@[0].1@ == "client_credentials"@,
        q.form@[1].0@ == "client_id"@ && q.form@[1].1@ == config["client_id"@],
        q.form@[2].0@ == "client_secret"@ && q.form@[2].1@ == config["client_secret"@],
        q.form@[3].0@ == "scope"@,
        config.contains_key("scope"@) ==> q.form@[3].1@ == config["scope"@],
        !config.contains_key("scope"@) ==> q.form@[3].1@ == "https://database.windows.net/.default"@,
{
    let f = form_view(q.form@);
    assert(f.len() == 4);
    assert(f[0] == (q.form@[0].0@, q.form@[0].1@));
    assert(f[1] == (q.form@[1].0@, q.form@[1].1@));
    assert(f[2] == (q.form@[2].0@, q.form@[2].1@));
    assert(f[3] == (q.form@[3].0@, q.form@[3].1@));
}

/// Credentials made from a token response are valid at the moment they are
/// made exactly when the response gives no lifetime or a positive one.
pub proof fn law_fresh_token_is_valid_unless_already_expired(
    data: TokenResponse,
    config: Map<Seq<char>, Seq<char>>,
    token_url: Seq<char>,
    now_ms: u64,
)
    requires
        expiry_fits(data, now_ms),
    ensures
        token_valid_at(token_credentials(data, config, token_url, now_ms), now_ms) <==> match data.expires_in {
            Some(e) => e > 0,
            None => true,
        },
{
    reveal_strlit("client_id");
    reveal_strlit("client_secret");
    reveal_strlit("tenant_id");
    reveal_strlit("scope");
    reveal_strlit("token_url");
    reveal_strlit("access_token");
    reveal_strlit("expires_at");
    let c = token_credentials(data, config, token_url, now_ms);
    assert(c.contains_key("access_token"@));
    match data.expires_in {
        Some(e) => {
            let t: nat = (now_ms + e * 1000) as nat;
            let with_expiry = map!["access_token"@ => data.access_token@].insert(
                "expires_at"@,
                dec_digits(t),
            );
            assert(with_expiry.contains_key("expires_at"@));
            assert(with_expiry["expires_at"@] == dec_digits(t));
            assert("expires_at"@[0] != "client_id"@[0]);
            assert("expires_at"@ != "client_id"@);
            assert("expires_at"@ != "client_secret"@);
            assert("expires_at"@ != "tenant_id"@);
            assert("expires_at"@ != "scope"@);
            assert("expires_at"@ != "token_url"@);
            assert(c.contains_key("expires_at"@));
            assert(c["expires_at"@] == dec_digits(t));
            crate::text::lemma_parse_unsigned_dec_digits(t, u64::MAX as nat);
        },
        None => {
            assert("expires_at"@[0] != "access_token"@[0]);
            assert("expires_at"@ != "access_token"@);
            assert("expires_at"@[0] != "client_id"@[0]);
            assert("expires_at"@ != "client_id"@);
            assert("expires_at"@ != "client_secret"@);
            assert("expires_at"@ != "tenant_id"@);
            assert("expires_at"@ != "scope"@);
            assert("expires_at"@ != "token_url"@);
            assert(!c.contains_key("expires_at"@));
        },
    }
}

} // verus!
