use opacore::config::{parse_port, Config, Environment};

fn empty() -> Environment {
    Environment {
        server_port: None,
        sqlite_path: None,
        bdk_wallets_dir: None,
        session_secret: None,
        esplora_url: None,
        coingecko_api_url: None,
        cors_origin: None,
        secure_cookies: None,
        resend_api_key: None,
        admin_email: None,
        from_email: None,
        app_url: None,
    }
}

#[test]
fn ports_are_decimal_numbers_up_to_65535() {
    assert_eq!(parse_port("4000"), Some(4000));
    assert_eq!(parse_port("0"), Some(0));
    assert_eq!(parse_port("65535"), Some(65535));
    assert_eq!(parse_port("+80"), Some(80));
    assert_eq!(parse_port("00080"), Some(80));
    assert_eq!(parse_port("000000000000000000000000080"), Some(80));
    assert_eq!(parse_port("65536"), None);
    assert_eq!(parse_port("99999999999999999999"), None);
    assert_eq!(parse_port("655350"), None);
    assert_eq!(parse_port(""), None);
    assert_eq!(parse_port("+"), None);
    assert_eq!(parse_port("-1"), None);
    assert_eq!(parse_port("++1"), None);
    assert_eq!(parse_port("80 "), None);
    assert_eq!(parse_port("8o"), None);
    assert_eq!(parse_port("٨٠"), None);
    assert_eq!(parse_port("70000x"), None);
}

#[test]
fn parse_port_agrees_with_the_standard_parser() {
    for text in ["4000", "+1", "65535", "65536", "", "+", "-0", "0x10", "12 ", "007"] {
        assert_eq!(parse_port(text), text.parse::<u16>().ok(), "{:?}", text);
    }
}

#[test]
fn empty_environment_gives_the_defaults() {
    let config = Config::from_env(empty()).unwrap();
    assert_eq!(config.server_port, 4000);
    assert_eq!(config.sqlite_path, "./data/opacore.db");
    assert_eq!(config.bdk_wallets_dir, "./data/wallets");
    assert_eq!(config.session_secret, "change-me-to-a-random-32-char-string");
    assert_eq!(config.esplora_url, "https://blockstream.info/api");
    assert_eq!(config.coingecko_api_url, "https://api.coingecko.com/api/v3");
    assert_eq!(config.cors_origin, "http://localhost:3000");
    assert!(!config.secure_cookies);
    assert_eq!(config.resend_api_key, None);
    assert_eq!(config.admin_email, None);
    assert_eq!(config.from_email, "noreply@opacore.com");
    assert_eq!(config.app_url, "http://localhost:3000");
}

#[test]
fn environment_values_are_taken_as_given() {
    let mut env = empty();
    env.server_port = Some("8443".to_string());
    env.sqlite_path = Some("/var/db.sqlite".to_string());
    env.bdk_wallets_dir = Some("/var/wallets".to_string());
    env.session_secret = Some("s3cret".to_string());
    env.esplora_url = Some("http://esplora".to_string());
    env.coingecko_api_url = Some("http://prices".to_string());
    env.cors_origin = Some("https://app".to_string());
    env.secure_cookies = Some("true".to_string());
    env.resend_api_key = Some("key".to_string());
    env.admin_email = Some("admin@example.com".to_string());
    env.from_email = Some("hello@example.com".to_string());
    env.app_url = Some("https://app.example.com".to_string());
    let config = Config::from_env(env).unwrap();
    assert_eq!(config.server_port, 8443);
    assert_eq!(config.sqlite_path, "/var/db.sqlite");
    assert_eq!(config.bdk_wallets_dir, "/var/wallets");
    assert_eq!(config.session_secret, "s3cret");
    assert_eq!(config.esplora_url, "http://esplora");
    assert_eq!(config.coingecko_api_url, "http://prices");
    assert_eq!(config.cors_origin, "https://app");
    assert!(config.secure_cookies);
    assert_eq!(config.resend_api_key.as_deref(), Some("key"));
    assert_eq!(config.admin_email.as_deref(), Some("admin@example.com"));
    assert_eq!(config.from_email, "hello@example.com");
    assert_eq!(config.app_url, "https://app.example.com");
}

#[test]
fn cookies_are_secure_only_on_true() {
    for text in ["false", "TRUE", "1", "yes", ""] {
        let mut env = empty();
        env.secure_cookies = Some(text.to_string());
        assert!(!Config::from_env(env).unwrap().secure_cookies);
    }
}

#[test]
fn bad_port_gives_no_settings() {
    for text in ["http", "70000", ""] {
        let mut env = empty();
        env.server_port = Some(text.to_string());
        assert!(Config::from_env(env).is_none());
    }
}
