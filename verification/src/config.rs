//! The settings of the service, read from the texts that its environment gives.

use vstd::prelude::*;
use vstd::string::*;
use crate::dates::{digit_value, is_digit};
use crate::text::same_text;

verus! {

/// The settings of the service.
#[derive(Clone, Debug)]
pub struct Config {
    pub server_port: u16,
    pub sqlite_path: String,
    pub bdk_wallets_dir: String,
    pub session_secret: String,
    pub esplora_url: String,
    pub coingecko_api_url: String,
    pub cors_origin: String,
    pub secure_cookies: bool,
    pub resend_api_key: Option<String>,
    pub admin_email: Option<String>,
    pub from_email: String,
    pub app_url: String,
}

/// The texts that the environment holds for the settings, each `None` where the
/// environment has no value.
#[derive(Clone, Debug)]
pub struct Environment {
    pub server_port: Option<String>,
    pub sqlite_path: Option<String>,
    pub bdk_wallets_dir: Option<String>,
    pub session_secret: Option<String>,
    pub esplora_url: Option<String>,
    pub coingecko_api_url: Option<String>,
    pub cors_origin: Option<String>,
    pub secure_cookies: Option<String>,
    pub resend_api_key: Option<String>,
    pub admin_email: Option<String>,
    pub from_email: Option<String>,
    pub app_url: Option<String>,
}

/// The number that the first `n` characters write, read as decimal digits.
pub open spec fn digits_value(text: Seq<char>, n: nat) -> nat
    decreases n,
{
    if n == 0 {
        0
    } else {
        (10 * digits_value(text, (n - 1) as nat) + digit_value(text[n - 1])) as nat
    }
}

/// Whether every character is a decimal digit.
pub open spec fn all_digits(text: Seq<char>) -> bool {
    forall|i: int| 0 <= i < text.len() ==> is_digit(#[trigger] text[i])
}

/// The digits of a number that may be written with a plus sign before it.
pub open spec fn unsigned_digits(text: Seq<char>) -> Seq<char> {
    if text.len() > 0 && text[0] == '+' {
        text.skip(1)
    } else {
        text
    }
}

/// The port that a text writes: decimal digits, at least one, with or without a
/// plus sign before them, that write a number up to 65535.
pub open spec fn parse_port_spec(text: Seq<char>) -> Option<u16> {
    let digits = unsigned_digits(text);
    if digits.len() == 0 || !all_digits(digits) || digits_value(digits, digits.len()) > 65535 {
        None
    } else {
        Some(digits_value(digits, digits.len()) as u16)
    }
}

/// Digits that follow can only make a number larger.
pub proof fn lemma_digits_grow(text: Seq<char>, a: nat, b: nat)
    requires
        a <= b <= text.len(),
        all_digits(text),
    ensures
        digits_value(text, a) <= digits_value(text, b),
    decreases b,
{
    if a < b {
        lemma_digits_grow(text, a, (b - 1) as nat);
        assert(is_digit(text[b - 1]));
    }
}

/// Reads a port.
pub fn parse_port(text: &str) -> (port: Option<u16>)
    ensures
        port == parse_port_spec(text@),
{
    let n = text.unicode_len();
    let start: usize = if n > 0 && text.get_char(0) == '+' {
        1
    } else {
        0
    };
    let ghost digits = unsigned_digits(text@);
    proof {
        assert(digits =~= text@.skip(start as int));
    }
    if start == n {
        return None;
    }
    let mut value: u32 = 0;
    let mut i: usize = start;
    while i < n
        invariant
            start <= i <= n,
            n == text@.len(),
            digits == text@.skip(start as int),
            digits == unsigned_digits(text@),
            digits.len() > 0,
            value == digits_value(digits, (i - start) as nat),
            value <= 65535,
            forall|k: int| 0 <= k < i - start ==> is_digit(#[trigger] digits[k]),
        decreases n - i,
    {
        let c = text.get_char(i);
        assert(digits[i - start] == c);
        if !('0' <= c && c <= '9') {
            assert(!is_digit(digits[i - start]));
            return None;
        }
        let next = 10 * value + (c as u32 - '0' as u32);
        assert(next == digits_value(digits, (i - start + 1) as nat));
        if next > 65535 {
            proof {
                if all_digits(digits) {
                    lemma_digits_grow(digits, (i - start + 1) as nat, digits.len());
                }
            }
            return None;
        }
        value = next;
        i += 1;
    }
    proof {
        assert(all_digits(digits));
    }
    Some(value as u16)
}

/// An optional text, or a default where there is none.
pub open spec fn setting(value: Option<String>, default: Seq<char>) -> Seq<char> {
    match value {
        Some(text) => text@,
        None => default,
    }
}

fn setting_or(value: Option<String>, default: &str) -> (chosen: String)
    ensures
        chosen@ == setting(value, default@),
{
    match value {
        Some(text) => text,
        None => String::from_str(default),
    }
}

/// What the settings are for an environment: each value as given, or its default.
/// Cookies are secure only where the environment says `true`.
pub open spec fn is_config_of(config: Config, env: Environment) -> bool {
    &&& Some(config.server_port) == parse_port_spec(setting(env.server_port, "4000"@))
    &&& config.sqlite_path@ == setting(env.sqlite_path, "./data/opacore.db"@)
    &&& config.bdk_wallets_dir@ == setting(env.bdk_wallets_dir, "./data/wallets"@)
    &&& config.session_secret@ == setting(
        env.session_secret,
        "change-me-to-a-random-32-char-string"@,
    )
    &&& config.esplora_url@ == setting(env.esplora_url, "https://blockstream.info/api"@)
    &&& config.coingecko_api_url@ == setting(
        env.coingecko_api_url,
        "https://api.coingecko.com/api/v3"@,
    )
    &&& config.cors_origin@ == setting(env.cors_origin, "http://localhost:3000"@)
    &&& config.secure_cookies == (env.secure_cookies matches Some(text) && text@ == "true"@)
    &&& config.resend_api_key == env.resend_api_key
    &&& config.admin_email == env.admin_email
    &&& config.from_email@ == setting(env.from_email, "noreply@opacore.com"@)
    &&& config.app_url@ == setting(env.app_url, "http://localhost:3000"@)
}

impl Config {
    /// The settings for an environment; `None` where the port given is no port.
    pub fn from_env(env: Environment) -> (config: Option<Config>)
        ensures
            config is Some <==> parse_port_spec(setting(env.server_port, "4000"@)) is Some,
            config matches Some(c) ==> is_config_of(c, env),
    {
        let port_text = setting_or(env.server_port, "4000");
        let server_port = match parse_port(port_text.as_str()) {
            Some(port) => port,
            None => {
                return None;
            },
        };
        let secure_cookies = match &env.secure_cookies {
            Some(text) => same_text(text.as_str(), "true"),
            None => false,
        };
        Some(
            Config {
                server_port,
                sqlite_path: setting_or(env.sqlite_path, "./data/opacore.db"),
                bdk_wallets_dir: setting_or(env.bdk_wallets_dir, "./data/wallets"),
                session_secret: setting_or(
                    env.session_secret,
                    "change-me-to-a-random-32-char-string",
                ),
                esplora_url: setting_or(env.esplora_url, "https://blockstream.info/api"),
                coingecko_api_url: setting_or(
                    env.coingecko_api_url,
                    "https://api.coingecko.com/api/v3",
                ),
                cors_origin: setting_or(env.cors_origin, "http://localhost:3000"),
                secure_cookies,
                resend_api_key: env.resend_api_key,
                admin_email: env.admin_email,
                from_email: setting_or(env.from_email, "noreply@opacore.com"),
                app_url: setting_or(env.app_url, "http://localhost:3000"),
            },
        )
    }
}

} // verus!
