//! Service configuration: the values read from the environment, the check
//! made on them, and the defaults that fill what was left unset.

use vstd::prelude::*;
use vstd::string::StringExecFns;
use vstd::string::StrSliceExecFns;

verus! {

/// Port the service listens on when none is configured.
pub const DEFAULT_PORT: u16 = 9950;

/// Fewest characters a secret token may have.
pub const MIN_SECRET_TOKEN_CHARS: u64 = 10;

/// Directory that holds the pastes when none is configured.
pub open spec fn default_storage_dir() -> Seq<char> {
    "./baste_storage"@
}

/// Address the service binds to when none is configured.
pub open spec fn default_address() -> Seq<char> {
    "0.0.0.0"@
}

/// Public base URL of the service when none is configured.
pub open spec fn default_base_url() -> Seq<char> {
    "http://localhost:9950"@
}

/// The settings of the service. As read from the environment every field but
/// the secret token may be unset; after [`Config::load`] none is.
#[derive(Clone, Debug, Default)]
pub struct Config {
    pub secret_token: String,
    pub port: Option<u16>,
    pub address: Option<String>,
    pub base_url: Option<String>,
    pub storage_directory: Option<String>,
}

/// Why a configuration was turned down.
#[derive(Clone, Copy, Debug, PartialEq, Eq, Structural)]
pub enum ConfigError {
    /// The secret token has fewer than [`MIN_SECRET_TOKEN_CHARS`] characters.
    SecretTokenTooShort,
}

/// A configuration as plain mathematical values.
pub struct ConfigView {
    pub secret_token: Seq<char>,
    pub port: Option<u16>,
    pub address: Option<Seq<char>>,
    pub base_url: Option<Seq<char>>,
    pub storage_directory: Option<Seq<char>>,
}

/// The characters of an optional string.
pub open spec fn text_of(s: Option<String>) -> Option<Seq<char>> {
    match s {
        Some(t) => Some(t@),
        None => None,
    }
}

impl View for Config {
    type V = ConfigView;

    open spec fn view(&self) -> ConfigView {
        ConfigView {
            secret_token: self.secret_token@,
            port: self.port,
            address: text_of(self.address),
            base_url: text_of(self.base_url),
            storage_directory: text_of(self.storage_directory),
        }
    }
}

/// Whether `u` already names its scheme, plain or secure HTTP.
pub open spec fn has_http_scheme(u: Seq<char>) -> bool {
    "http://"@.is_prefix_of(u) || "https://"@.is_prefix_of(u)
}

/// `u` with a scheme: unchanged if it names one, else made a secure URL.
pub open spec fn with_http_scheme(u: Seq<char>) -> Seq<char> {
    if has_http_scheme(u) {
        u
    } else {
        "https://"@ + u
    }
}

/// The configuration that [`Config::load`] makes of `raw`, when it accepts it.
pub open spec fn completed(raw: ConfigView) -> ConfigView {
    ConfigView {
        secret_token: raw.secret_token,
        port: Some(
            match raw.port {
                Some(p) => p,
                None => DEFAULT_PORT,
            },
        ),
        address: Some(
            match raw.address {
                Some(a) => a,
                None => default_address(),
            },
        ),
        base_url: Some(
            match raw.base_url {
                Some(u) => with_http_scheme(u),
                None => default_base_url(),
            },
        ),
        storage_directory: Some(
            match raw.storage_directory {
                Some(d) => d,
                None => default_storage_dir(),
            },
        ),
    }
}

/// What [`Config::load`] answers for `raw`.
pub open spec fn load_result(raw: ConfigView) -> Result<ConfigView, ConfigError> {
    if raw.secret_token.len() >= MIN_SECRET_TOKEN_CHARS {
        Ok(completed(raw))
    } else {
        Err(ConfigError::SecretTokenTooShort)
    }
}

/// The answer of [`Config::load`] as plain mathematical values.
pub open spec fn view_of(r: Result<Config, ConfigError>) -> Result<ConfigView, ConfigError> {
    match r {
        Ok(c) => Ok(c@),
        Err(e) => Err(e),
    }
}

/// Length check of the `validator` crate: calls
/// `validator::ValidateLength::validate_length` on the string with `min` as
/// the only bound. The crate counts the characters of a string (not its
/// bytes) and accepts it when the count is not below the minimum.
#[verifier::external_body]
fn has_min_chars(s: &String, min: u64) -> (ok: bool)
    ensures
        ok == (s@.len() >= min),
{
    validator::ValidateLength::validate_length(s, Some(min), None, None)
}

/// Whether `s` begins with `prefix`.
fn begins_with(s: &str, prefix: &str) -> (r: bool)
    ensures
        r == prefix@.is_prefix_of(s@),
{
    let n: usize = prefix.unicode_len();
    let m: usize = s.unicode_len();
    if m < n {
        return false;
    }
    let mut i: usize = 0;
    while i < n
        invariant
            i <= n,
            n == prefix@.len(),
            m == s@.len(),
            n <= m,
            forall|j: int| 0 <= j < i ==> s@[j] == prefix@[j],
        decreases n - i,
    {
        if s.get_char(i) != prefix.get_char(i) {
            return false;
        }
        i += 1;
    }
    assert(prefix@ =~= s@.subrange(0, n as int));
    true
}

/// Gives a base URL its scheme: one that starts with `http://` or `https://`
/// is returned as it is, any other gets `https://` put in front.
pub fn format_http_prefix(u: String) -> (r: String)
    ensures
        r@ == with_http_scheme(u@),
{
    if begins_with(u.as_str(), "http://") || begins_with(u.as_str(), "https://") {
        u
    } else {
        String::from_str("https://").concat(u.as_str())
    }
}

impl Config {
    /// Completes a configuration read from the environment.
    ///
    /// The secret token must have at least [`MIN_SECRET_TOKEN_CHARS`]
    /// characters, else the configuration is refused. Of the other settings
    /// each one that is unset gets its default; a base URL that is set gets a
    /// scheme if it has none (see [`format_http_prefix`]). What is set stays.
    pub fn load(raw: Config) -> (r: Result<Config, ConfigError>)
        ensures
            view_of(r) == load_result(raw@),
    {
        if !has_min_chars(&raw.secret_token, MIN_SECRET_TOKEN_CHARS) {
            return Err(ConfigError::SecretTokenTooShort);
        }
        let port: u16 = match raw.port {
            Some(p) => p,
            None => DEFAULT_PORT,
        };
        let storage_directory = match raw.storage_directory {
            Some(path) => path,
            None => String::from_str("./baste_storage"),
        };
        let address = match raw.address {
            Some(address) => address,
            None => String::from_str("0.0.0.0"),
        };
        let base_url = match raw.base_url {
            Some(base_url) => format_http_prefix(base_url),
            None => String::from_str("http://localhost:9950"),
        };
        Ok(
            Config {
                secret_token: raw.secret_token,
                port: Some(port),
                address: Some(address),
                base_url: Some(base_url),
                storage_directory: Some(storage_directory),
            },
        )
    }
}

} // verus!
