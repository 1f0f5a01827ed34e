//! Startup configuration: key material, token lifetimes and the store's address.
use vstd::prelude::*;
use vstd::string::StringSliceAdditionalSpecFns;
use vstd::utf8::encode_utf8;
use crate::token::TokenService;

verus! {

/// The settings that the configuration is read from.
#[derive(Debug, Clone, Copy, PartialEq, Eq, Structural)]
pub enum Setting {
    DatabaseUrl,
    AccessTokenPrivateKey,
    AccessTokenPublicKey,
    RefreshTokenPrivateKey,
    RefreshTokenPublicKey,
    AccessTokenMaxAge,
    RefreshTokenMaxAge,
}

/// The variable name under which a setting is read.
pub open spec fn setting_key(s: Setting) -> Seq<char> {
    match s {
        Setting::DatabaseUrl => "DATABASE_URL"@,
        Setting::AccessTokenPrivateKey => "ACCESS_TOKEN_PRIVATE_KEY"@,
        Setting::AccessTokenPublicKey => "ACCESS_TOKEN_PUBLIC_KEY"@,
        Setting::RefreshTokenPrivateKey => "REFRESH_TOKEN_PRIVATE_KEY"@,
        Setting::RefreshTokenPublicKey => "REFRESH_TOKEN_PUBLIC_KEY"@,
        Setting::AccessTokenMaxAge => "ACCESS_TOKEN_MAX_AGE"@,
        Setting::RefreshTokenMaxAge => "REFRESH_TOKEN_MAX_AGE"@,
    }
}

impl Setting {
    /// The variable name under which this setting is read.
    pub fn key(self) -> (r: &'static str)
        ensures
            r@ == setting_key(self),
    {
        match self {
            Setting::DatabaseUrl => "DATABASE_URL",
            Setting::AccessTokenPrivateKey => "ACCESS_TOKEN_PRIVATE_KEY",
            Setting::AccessTokenPublicKey => "ACCESS_TOKEN_PUBLIC_KEY",
            Setting::RefreshTokenPrivateKey => "REFRESH_TOKEN_PRIVATE_KEY",
            Setting::RefreshTokenPublicKey => "REFRESH_TOKEN_PUBLIC_KEY",
            Setting::AccessTokenMaxAge => "ACCESS_TOKEN_MAX_AGE",
            Setting::RefreshTokenMaxAge => "REFRESH_TOKEN_MAX_AGE",
        }
    }
}

/// Why the configuration could not be read.
#[derive(Debug, Clone, Copy, PartialEq, Eq, Structural)]
pub enum ConfigError {
    /// The setting is absent.
    Missing(Setting),
    /// The setting is present but is not a decimal 64-bit integer.
    NotAnInteger(Setting),
}

/// Immutable configuration shared by the token services and the store. The
/// four keys are PEM text: Ed25519 private keys in PKCS#8, public keys in SPKI.
#[derive(Debug)]
pub struct Config {
    pub database_url: String,
    pub access_token_private_key: String,
    pub access_token_public_key: String,
    pub refresh_token_private_key: String,
    pub refresh_token_public_key: String,
    pub access_token_max_age: i64,
    pub refresh_token_max_age: i64,
}

/// The value of the first variable named `key`.
pub open spec fn env_lookup(vars: Seq<(String, String)>, key: Seq<char>) -> Option<String>
    decreases vars.len(),
{
    if vars.len() == 0 {
        None
    } else if vars[0].0@ == key {
        Some(vars[0].1)
    } else {
        env_lookup(vars.drop_first(), key)
    }
}

pub open spec fn is_digit(b: u8) -> bool {
    48 <= b <= 57
}

pub open spec fn all_digits(s: Seq<u8>) -> bool {
    forall|i: int| 0 <= i < s.len() ==> is_digit(#[trigger] s[i])
}

/// The value of a string of decimal digits, most significant first.
pub open spec fn digits_value(s: Seq<u8>) -> int
    decreases s.len(),
{
    if s.len() == 0 {
        0
    } else {
        digits_value(s.drop_last()) * 10 + (s.last() - 48)
    }
}

/// Length of a leading `-` or `+` sign.
pub open spec fn sign_len(s: Seq<u8>) -> int {
    if s.len() > 0 && (s[0] == 45 || s[0] == 43) {
        1
    } else {
        0
    }
}

/// The integer that `s` writes: an optional sign, then one or more decimal digits.
pub open spec fn decimal_of(s: Seq<u8>) -> Option<int> {
    let d = s.subrange(sign_len(s), s.len() as int);
    if d.len() > 0 && all_digits(d) {
        Some(if sign_len(s) == 1 && s[0] == 45 { -digits_value(d) } else { digits_value(d) })
    } else {
        None
    }
}

/// The 64-bit signed integer that `s` writes, if it writes one in range.
pub open spec fn i64_of(s: Seq<u8>) -> Option<i64> {
    match decimal_of(s) {
        Some(v) => if i64::MIN <= v <= i64::MAX {
            Some(v as i64)
        } else {
            None
        },
        None => None,
    }
}

/// A setting read as a string.
pub open spec fn text_setting(vars: Seq<(String, String)>, s: Setting) -> Result<String, ConfigError> {
    match env_lookup(vars, setting_key(s)) {
        Some(v) => Ok(v),
        None => Err(ConfigError::Missing(s)),
    }
}

/// A setting read as a 64-bit integer.
pub open spec fn integer_setting(vars: Seq<(String, String)>, s: Setting) -> Result<i64, ConfigError> {
    match env_lookup(vars, setting_key(s)) {
        Some(v) => match i64_of(encode_utf8(v@)) {
            Some(n) => Ok(n),
            None => Err(ConfigError::NotAnInteger(s)),
        },
        None => Err(ConfigError::Missing(s)),
    }
}


/// The whole configuration read from `vars`, the process's variables as
/// name and value pairs.
pub open spec fn config_of(vars: Seq<(String, String)>) -> Result<Config, ConfigError> {
    match (
        text_setting(vars, Setting::DatabaseUrl),
        text_setting(vars, Setting::AccessTokenPrivateKey),
        text_setting(vars, Setting::AccessTokenPublicKey),
        text_setting(vars, Setting::RefreshTokenPrivateKey),
        text_setting(vars, Setting::RefreshTokenPublicKey),
    ) {
        (Err(e), _, _, _, _) => Err(e),
        (_, Err(e), _, _, _) => Err(e),
        (_, _, Err(e), _, _) => Err(e),
        (_, _, _, Err(e), _) => Err(e),
        (_, _, _, _, Err(e)) => Err(e),
        (Ok(db), Ok(apriv), Ok(apub), Ok(rpriv), Ok(rpub)) => match (
            integer_setting(vars, Setting::AccessTokenMaxAge),
            integer_setting(vars, Setting::RefreshTokenMaxAge),
        ) {
            (Err(e), _) => Err(e),
            (_, Err(e)) => Err(e),
            (Ok(access), Ok(refresh)) => Ok(
                Config {
                    database_url: db,
                    access_token_private_key: apriv,
                    access_token_public_key: apub,
                    refresh_token_private_key: rpriv,
                    refresh_token_public_key: rpub,
                    access_token_max_age: access,
                    refresh_token_max_age: refresh,
                },
            ),
        },
    }
}

/// A prefix of a digit string never writes a larger value than the whole.
proof fn lemma_digits_prefix_le(s: Seq<u8>, k: int)
    requires
        all_digits(s),
        0 <= k <= s.len(),
    ensures
        0 <= digits_value(s.subrange(0, k)) <= digits_value(s),
    decreases s.len(),
{
    if k == s.len() {
        assert(s.subrange(0, k) =~= s);
        lemma_digits_nonneg(s);
    } else {
        let t = s.drop_last();
        assert(all_digits(t)) by {
            assert forall|i: int| 0 <= i < t.len() implies is_digit(#[trigger] t[i]) by {
                assert(t[i] == s[i]);
            }
        }
        lemma_digits_prefix_le(t, k);
        assert(t.subrange(0, k) =~= s.subrange(0, k));
        assert(is_digit(s[s.len() - 1]));
    }
}

proof fn lemma_digits_nonneg(s: Seq<u8>)
    requires
        all_digits(s),
    ensures
        digits_value(s) >= 0,
    decreases s.len(),
{
    if s.len() > 0 {
        let t = s.drop_last();
        assert forall|i: int| 0 <= i < t.len() implies is_digit(#[trigger] t[i]) by {
            assert(t[i] == s[i]);
        }
        lemma_digits_nonneg(t);
        assert(is_digit(s[s.len() - 1]));
    }
}

/// Reads a decimal 64-bit signed integer: an optional sign, then digits.
pub fn parse_i64(text: &str) -> (r: Option<i64>)
    ensures
        r == i64_of(text.spec_bytes()),
{
    let b = text.as_bytes();
    let n = b.len();
    if n == 0 {
        return None;
    }
    let negative = b[0] == 45u8;
    let start: usize = if b[0] == 45u8 || b[0] == 43u8 { 1 } else { 0 };
    let ghost s = b@;
    let ghost d = s.subrange(start as int, n as int);
    assert(sign_len(s) == start as int);
    if start == n {
        return None;
    }
    let mut acc: u64 = 0;
    let mut i: usize = start;
    while i < n
        invariant
            b@ == s,
            s == text.spec_bytes(),
            n == s.len(),
            d == s.subrange(start as int, n as int),
            start <= i <= n,
            sign_len(s) == start as int,
            start < n,
            all_digits(s.subrange(start as int, i as int)),
            acc as int == digits_value(s.subrange(start as int, i as int)),
            acc <= 0x8000_0000_0000_0000u64,
        decreases n - i,
    {
        let c = b[i];
        if c < 48u8 || c > 57u8 {
            assert(d[i - start] == c);
            assert(!is_digit(d[i - start]));
            assert(!all_digits(d));
            assert(decimal_of(s) is None);
            return None;
        }
        let next: u128 = acc as u128 * 10 + (c - 48u8) as u128;
        let ghost p = s.subrange(start as int, i + 1);
        assert(p.drop_last() =~= s.subrange(start as int, i as int));
        assert(p.last() == c);
        assert(digits_value(p) == next as int);
        assert(all_digits(p)) by {
            assert forall|j: int| 0 <= j < p.len() implies is_digit(#[trigger] p[j]) by {
                if j < p.len() - 1 {
                    assert(p[j] == s.subrange(start as int, i as int)[j]);
                }
            }
        }
        if next > 0x8000_0000_0000_0000u128 {
            proof {
                if all_digits(d) {
                    lemma_digits_prefix_le(d, (i + 1 - start) as int);
                    assert(d.subrange(0, (i + 1 - start) as int) =~= p);
                    assert(digits_value(d) > 0x8000_0000_0000_0000);
                }
            }
            return None;
        }
        acc = next as u64;
        i = i + 1;
    }
    assert(s.subrange(start as int, i as int) =~= d);
    if negative {
        if acc == 0x8000_0000_0000_0000u64 {
            Some(i64::MIN)
        } else {
            Some(-(acc as i64))
        }
    } else if acc > 0x7fff_ffff_ffff_ffffu64 {
        None
    } else {
        Some(acc as i64)
    }
}

/// Returns the value of the first variable in `vars` named `key`.
pub fn lookup<'a>(vars: &'a Vec<(String, String)>, key: &str) -> (r: Option<&'a String>)
    ensures
        r matches Some(v) ==> env_lookup(vars@, key@) == Some(*v),
        r is None ==> env_lookup(vars@, key@) is None,
{
    let wanted = key.to_owned();
    let mut i: usize = 0;
    assert(vars@.subrange(0, vars@.len() as int) =~= vars@);
    while i < vars.len()
        invariant
            i <= vars@.len(),
            wanted@ == key@,
            env_lookup(vars@, key@) == env_lookup(vars@.subrange(i as int, vars@.len() as int), key@),
        decreases vars.len() - i,
    {
        let ghost rest = vars@.subrange(i as int, vars@.len() as int);
        if vars[i].0 == wanted {
            return Some(&vars[i].1);
        }
        assert(rest.drop_first() =~= vars@.subrange(i + 1, vars@.len() as int));
        i = i + 1;
    }
    None
}

fn read_text(vars: &Vec<(String, String)>, s: Setting) -> (r: Result<String, ConfigError>)
    ensures
        r == text_setting(vars@, s),
{
    match lookup(vars, s.key()) {
        Some(v) => Ok(v.clone()),
        None => Err(ConfigError::Missing(s)),
    }
}

fn read_integer(vars: &Vec<(String, String)>, s: Setting) -> (r: Result<i64, ConfigError>)
    ensures
        r == integer_setting(vars@, s),
{
    match lookup(vars, s.key()) {
        Some(v) => match parse_i64(v.as_str()) {
            Some(n) => Ok(n),
            None => Err(ConfigError::NotAnInteger(s)),
        },
        None => Err(ConfigError::Missing(s)),
    }
}

impl Config {
    /// The service that issues and verifies access tokens.
    pub fn access_service(&self) -> (r: TokenService)
        ensures
            r.private_key == self.access_token_private_key,
            r.public_key == self.access_token_public_key,
            r.lifetime == self.access_token_max_age,
    {
        TokenService::new(
            self.access_token_private_key.clone(),
            self.access_token_public_key.clone(),
            self.access_token_max_age,
        )
    }

    /// The service that issues and verifies refresh tokens.
    pub fn refresh_service(&self) -> (r: TokenService)
        ensures
            r.private_key == self.refresh_token_private_key,
            r.public_key == self.refresh_token_public_key,
            r.lifetime == self.refresh_token_max_age,
    {
        TokenService::new(
            self.refresh_token_private_key.clone(),
            self.refresh_token_public_key.clone(),
            self.refresh_token_max_age,
        )
    }

    /// Reads the configuration from the process's variables, given as name and
    /// value pairs; the first absent or unreadable setting is reported.
    pub fn from_env(vars: &Vec<(String, String)>) -> (r: Result<Config, ConfigError>)
        ensures
            r == config_of(vars@),
    {
        let database_url = read_text(vars, Setting::DatabaseUrl)?;
        let access_token_private_key = read_text(vars, Setting::AccessTokenPrivateKey)?;
        let access_token_public_key = read_text(vars, Setting::AccessTokenPublicKey)?;
        let refresh_token_private_key = read_text(vars, Setting::RefreshTokenPrivateKey)?;
        let refresh_token_public_key = read_text(vars, Setting::RefreshTokenPublicKey)?;
        let access_token_max_age = read_integer(vars, Setting::AccessTokenMaxAge)?;
        let refresh_token_max_age = read_integer(vars, Setting::RefreshTokenMaxAge)?;
        Ok(Config {
            database_url,
            access_token_private_key,
            access_token_public_key,
            refresh_token_private_key,
            refresh_token_public_key,
            access_token_max_age,
            refresh_token_max_age,
        })
    }
}

} // verus!
