use baste::config::format_http_prefix;
use baste::config::Config;
use baste::config::ConfigError;

fn raw(token: &str) -> Config {
    Config {
        secret_token: token.to_string(),
        port: None,
        address: None,
        base_url: None,
        storage_directory: None,
    }
}

#[test]
fn load_fills_every_default() {
    let c = Config::load(raw("0123456789")).unwrap();
    assert_eq!(c.secret_token, "0123456789");
    assert_eq!(c.port, Some(9950));
    assert_eq!(c.address.as_deref(), Some("0.0.0.0"));
    assert_eq!(c.base_url.as_deref(), Some("http://localhost:9950"));
    assert_eq!(c.storage_directory.as_deref(), Some("./baste_storage"));
}

#[test]
fn load_keeps_what_is_set() {
    let mut r = raw("a-long-enough-token");
    r.port = Some(8080);
    r.address = Some("127.0.0.1".to_string());
    r.base_url = Some("http://paste.example".to_string());
    r.storage_directory = Some("/var/lib/baste".to_string());
    let c = Config::load(r).unwrap();
    assert_eq!(c.secret_token, "a-long-enough-token");
    assert_eq!(c.port, Some(8080));
    assert_eq!(c.address.as_deref(), Some("127.0.0.1"));
    assert_eq!(c.base_url.as_deref(), Some("http://paste.example"));
    assert_eq!(c.storage_directory.as_deref(), Some("/var/lib/baste"));
}

#[test]
fn load_gives_a_bare_base_url_a_scheme() {
    let mut r = raw("0123456789");
    r.base_url = Some("paste.example".to_string());
    let c = Config::load(r).unwrap();
    assert_eq!(c.base_url.as_deref(), Some("https://paste.example"));
}

#[test]
fn load_refuses_a_token_of_nine_characters() {
    assert_eq!(Config::load(raw("012345678")).err(), Some(ConfigError::SecretTokenTooShort));
}

#[test]
fn load_refuses_an_empty_token() {
    assert_eq!(Config::load(raw("")).err(), Some(ConfigError::SecretTokenTooShort));
}

#[test]
fn load_accepts_a_token_of_ten_characters() {
    assert!(Config::load(raw("0123456789")).is_ok());
}

#[test]
fn load_counts_characters_not_bytes() {
    // nine characters in eighteen bytes, then ten in twenty
    assert_eq!(Config::load(raw("ééééééééé")).err(), Some(ConfigError::SecretTokenTooShort));
    assert!(Config::load(raw("éééééééééé")).is_ok());
}

#[test]
fn format_http_prefix_keeps_a_plain_http_url() {
    assert_eq!(format_http_prefix("http://a.b".to_string()), "http://a.b");
}

#[test]
fn format_http_prefix_keeps_a_secure_url() {
    assert_eq!(format_http_prefix("https://a.b".to_string()), "https://a.b");
}

#[test]
fn format_http_prefix_makes_other_urls_secure() {
    assert_eq!(format_http_prefix("a.b".to_string()), "https://a.b");
    assert_eq!(format_http_prefix("".to_string()), "https://");
    assert_eq!(format_http_prefix("http:/a.b".to_string()), "https://http:/a.b");
    assert_eq!(format_http_prefix("ftp://a.b".to_string()), "https://ftp://a.b");
    assert_eq!(format_http_prefix("HTTP://a.b".to_string()), "https://HTTP://a.b");
}

#[test]
fn format_http_prefix_takes_the_scheme_alone() {
    assert_eq!(format_http_prefix("http://".to_string()), "http://");
    assert_eq!(format_http_prefix("https://".to_string()), "https://");
}
