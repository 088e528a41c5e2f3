//! The server's configuration: where SQL Server is, how to authenticate to
//! it, and the defaults an operation call falls back on.
use vstd::prelude::*;

use crate::text::str_eq;
use crate::text::{
    chars_of, dec_digits, extend_chars, extend_str, parse_unsigned, parse_unsigned_range,
    slice_chars, string_of, u128_digits,
};

verus! {

/// The three authentication modes SQL Server's TDS protocol accepts.
#[derive(Clone, Copy, Debug, PartialEq, Eq, Structural)]
pub enum AuthMethod {
    SqlServer,
    Windows,
    AzureAd,
}

/// How MCP clients reach this server.
#[derive(Clone, Copy, Debug, PartialEq, Eq, Structural)]
pub enum Transport {
    Stdio,
    Http,
}

/// The server's configuration.
#[derive(Clone, Debug)]
pub struct Config {
    /// SQL Server host, or `host:port`.
    pub url: String,
    pub auth_method: AuthMethod,
    /// TDS port used when `url` carries no `:port` suffix.
    pub sql_port: u16,
    pub pool_max_size: u32,
    pub trust_server_cert: bool,
    pub api_version: String,
    pub log_level: String,
    pub rate_limit: u32,
    pub timeout_ms: u64,
    pub cache_size: u32,
    pub retry_attempts: u32,
    pub transport: Transport,
    pub host: String,
    pub port: u16,
    pub cors_allow: Option<String>,
    /// The database an operation runs in when the call names none.
    pub default_database: Option<String>,
}

/// The configuration name of an authentication method.
pub open spec fn auth_method_name(m: AuthMethod) -> Seq<char> {
    match m {
        AuthMethod::SqlServer => "sql_server"@,
        AuthMethod::Windows => "windows"@,
        AuthMethod::AzureAd => "azure_ad"@,
    }
}

/// The authentication method configured as `name` (`sql_server`,
/// `windows` or `azure_ad`).
pub fn auth_method_named(name: &str) -> (r: Option<AuthMethod>)
    ensures
        match r {
            Some(m) => auth_method_name(m) == name@,
            None => forall|m: AuthMethod| auth_method_name(m) != name@,
        },
{
    if str_eq(name, "sql_server") {
        Some(AuthMethod::SqlServer)
    } else if str_eq(name, "windows") {
        Some(AuthMethod::Windows)
    } else if str_eq(name, "azure_ad") {
        Some(AuthMethod::AzureAd)
    } else {
        proof {
            assert forall|m: AuthMethod| auth_method_name(m) != name@ by {
                match m {
                    AuthMethod::SqlServer => {},
                    AuthMethod::Windows => {},
                    AuthMethod::AzureAd => {},
                }
            }
        }
        None
    }
}

/// The index of the last occurrence of `c` in `s`.
pub open spec fn last_index_of(s: Seq<char>, c: char) -> Option<int>
    decreases s.len(),
{
    if s.len() == 0 {
        None
    } else if s.last() == c {
        Some(s.len() - 1)
    } else {
        last_index_of(s.drop_last(), c)
    }
}

/// The TDS host and port of a `url`: a `host:port` url is split at its last
/// `:` when what follows is a valid port number; any other url is the host
/// itself, on `sql_port`.
pub open spec fn host_and_port_of(url: Seq<char>, sql_port: u16) -> (Seq<char>, u16) {
    match last_index_of(url, ':') {
        Some(k) => match parse_unsigned(url.skip(k + 1), 65535) {
            Some(p) => (url.take(k), p as u16),
            None => (url, sql_port),
        },
        None => (url, sql_port),
    }
}

proof fn lemma_last_index_in_range(s: Seq<char>, c: char)
    ensures
        last_index_of(s, c) matches Some(k) ==> 0 <= k < s.len() && s[k] == c,
    decreases s.len(),
{
    if s.len() > 0 && s.last() != c {
        lemma_last_index_in_range(s.drop_last(), c);
    }
}

fn last_colon(v: &Vec<char>) -> (r: Option<usize>)
    ensures
        match last_index_of(v@, ':') {
            Some(k) => r == Some(k as usize),
            None => r is None,
        },
        r matches Some(k) ==> k < v@.len(),
{
    let mut i = v.len();
    proof {
        lemma_last_index_in_range(v@, ':');
    }
    assert(v@.take(v@.len() as int) == v@);
    while i > 0
        invariant
            i <= v.len(),
            last_index_of(v@, ':') == last_index_of(v@.take(i as int), ':'),
            v@.take(v@.len() as int) == v@,
        decreases i,
    {
        assert(v@.take(i as int).drop_last() == v@.take(i - 1));
        if v[i - 1] == ':' {
            assert(last_index_of(v@.take(i as int), ':') == Some(i - 1));
            return Some(i - 1);
        }
        i = i - 1;
    }
    None
}

impl Config {
    /// The key of the connection pool for this configuration, `host:port`:
    /// it depends on the configuration alone.
    pub fn pool_key(&self) -> (r: String)
        ensures
            r@ == host_and_port_of(self.url@, self.sql_port).0 + ":"@ + dec_digits(
                host_and_port_of(self.url@, self.sql_port).1 as nat,
            ),
    {
        let (host, port) = self.host_and_port();
        let mut v: Vec<char> = Vec::new();
        extend_str(&mut v, host.as_str());
        extend_str(&mut v, ":");
        let d = u128_digits(port as u128);
        extend_chars(&mut v, &d);
        string_of(&v)
    }

    /// The TDS host and port to connect to (see `host_and_port_of`).
    pub fn host_and_port(&self) -> (r: (String, u16))
        ensures
            (r.0@, r.1) == host_and_port_of(self.url@, self.sql_port),
    {
        let v = chars_of(self.url.as_str());
        assert(v@ == self.url@);
        proof {
            lemma_last_index_in_range(v@, ':');
        }
        assert(v@.take(v@.len() as int) == v@);
        match last_colon(&v) {
            Some(k) => {
                assert(v@.subrange(k + 1, v@.len() as int) == v@.skip(k + 1));
                match parse_unsigned_range(&v, k + 1, v.len(), 65535) {
                    Some(p) => {
                        assert(last_index_of(self.url@, ':') == Some(k as int));
                        assert(parse_unsigned(self.url@.skip(k + 1), 65535) == Some(p as nat));
                        let host = slice_chars(&v, 0, k);
                        assert(v@.subrange(0, k as int) == v@.take(k as int));
                        (string_of(&host), p as u16)
                    },
                    None => (self.url.clone(), self.sql_port),
                }
            },
            None => (self.url.clone(), self.sql_port),
        }
    }
}

} // verus!
