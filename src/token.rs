//! Signed, expiring session tokens (EdDSA JSON Web Tokens over Ed25519 keys).
use jsonwebtoken::errors::ErrorKind;
use jsonwebtoken::{decode, encode, Algorithm, DecodingKey, EncodingKey, Header, Validation};
use std::collections::BTreeMap;
use vstd::prelude::*;

verus! {

/// The fields read back from a token's payload: subject, issue instant, expiry instant.
pub type ClaimFields = (Option<u128>, Option<u128>, Option<u128>);

/// The compact EdDSA token that `jsonwebtoken::encode` makes of the claims
/// `{sub, iat, exp}` under the PEM (PKCS#8 Ed25519) private key `private_pem`.
pub uninterp spec fn eddsa_encode(subject: u128, issued_at: u64, expires_at: u64, private_pem: Seq<char>) -> Seq<char>;

/// Whether the PEM text `private_pem` is an Ed25519 private key that
/// `jsonwebtoken` loads and signs with.
pub uninterp spec fn eddsa_key_signs(private_pem: Seq<char>) -> bool;

/// What `jsonwebtoken::decode` reads from `token` under the PEM public key
/// `public_pem`, with the signature checked and no time-based validation.
pub uninterp spec fn eddsa_decode(token: Seq<char>, public_pem: Seq<char>) -> Result<ClaimFields, TokenError>;

/// The claims a token carries.
#[derive(Debug, Clone, Copy, PartialEq, Eq, Structural)]
pub struct Claims {
    /// Identifier of the account the token was issued for.
    pub subject: u128,
    /// Seconds since the Unix epoch at issue.
    pub issued_at: u64,
    /// Seconds since the Unix epoch after which the token is no longer valid.
    pub expires_at: u64,
}

/// Why a token was not accepted.
#[derive(Debug, Clone, Copy, PartialEq, Eq, Structural)]
pub enum TokenError {
    /// The signature does not match the verifying key.
    InvalidSignature,
    /// The token, its payload or the key cannot be read.
    Malformed,
    /// The token was presented at or after its expiry instant.
    Expired,
}

/// The claims issued for `subject` at `now` with the given lifetime, when the
/// expiry instant is representable.
pub open spec fn claims_for(subject: u128, now: u64, lifetime: i64) -> Option<Claims> {
    let expires_at = now + lifetime;
    if 0 <= expires_at <= u64::MAX {
        Some(Claims { subject, issued_at: now, expires_at: expires_at as u64 })
    } else {
        None
    }
}

/// Whether `token` is the token issued for `subject` at `now` with the given
/// lifetime under the PEM private key `private_pem`.
pub open spec fn issued_token(token: Seq<char>, subject: u128, now: u64, lifetime: i64, private_pem: Seq<char>) -> bool {
    match claims_for(subject, now, lifetime) {
        Some(c) => token == eddsa_encode(c.subject, c.issued_at, c.expires_at, private_pem),
        None => false,
    }
}

/// The claims that a decoded payload holds, when all three are present and in range.
pub open spec fn claims_of_fields(fields: ClaimFields) -> Option<Claims> {
    match fields {
        (Some(sub), Some(iat), Some(exp)) => if iat <= u64::MAX && exp <= u64::MAX {
            Some(Claims { subject: sub, issued_at: iat as u64, expires_at: exp as u64 })
        } else {
            None
        },
        _ => None,
    }
}

/// The verdict on a decoding outcome presented at instant `now`.
pub open spec fn verdict(decoded: Result<ClaimFields, TokenError>, now: u64) -> Result<Claims, TokenError> {
    match decoded {
        Err(e) => Err(e),
        Ok(fields) => match claims_of_fields(fields) {
            None => Err(TokenError::Malformed),
            Some(c) => if now < c.expires_at {
                Ok(c)
            } else {
                Err(TokenError::Expired)
            },
        },
    }
}

/// Relies on `EncodingKey::from_ed_pem` and on `jsonwebtoken::encode` with an
/// EdDSA header: Ed25519 signatures are deterministic, so the token is a
/// function of the claims and the key. Only loading the key can fail, which
/// depends on the key alone; a token joins three parts with `.`, so it is
/// never empty.
#[verifier::external_body]
fn sign_eddsa(subject: u128, issued_at: u64, expires_at: u64, private_pem: &str) -> (r: Option<String>)
    ensures
        r is Some <==> eddsa_key_signs(private_pem@),
        r matches Some(t) ==> t@ == eddsa_encode(subject, issued_at, expires_at, private_pem@) && t@.len() > 0,
{
    let key = EncodingKey::from_ed_pem(private_pem.as_bytes()).ok()?;
    let mut claims = BTreeMap::new();
    claims.insert("sub", subject);
    claims.insert("iat", issued_at as u128);
    claims.insert("exp", expires_at as u128);
    encode(&Header::new(Algorithm::EdDSA), &claims, &key).ok()
}

/// Relies on `DecodingKey::from_ed_pem` and on `jsonwebtoken::decode`, which
/// checks the EdDSA signature; expiry is left to the caller. A rejected
/// signature is told apart from every other failure.
#[verifier::external_body]
fn read_eddsa(token: &str, public_pem: &str) -> (r: Result<ClaimFields, TokenError>)
    ensures
        r == eddsa_decode(token@, public_pem@),
{
    let key = DecodingKey::from_ed_pem(public_pem.as_bytes()).map_err(|_| TokenError::Malformed)?;
    let mut rules = Validation::new(Algorithm::EdDSA);
    rules.validate_exp = false;
    rules.required_spec_claims.clear();
    match decode::<BTreeMap<String, u128>>(token, &key, &rules) {
        Ok(d) => Ok((d.claims.get("sub").copied(), d.claims.get("iat").copied(), d.claims.get("exp").copied())),
        Err(e) if *e.kind() == ErrorKind::InvalidSignature => Err(TokenError::InvalidSignature),
        Err(_) => Err(TokenError::Malformed),
    }
}

/// Builds the claims for `subject` issued at `now`, or `None` when the expiry
/// instant `now + lifetime` falls outside the range of instants.
pub fn issue_claims(subject: u128, now: u64, lifetime: i64) -> (r: Option<Claims>)
    ensures
        r == claims_for(subject, now, lifetime),
{
    let expires_at: i128 = now as i128 + lifetime as i128;
    if 0 <= expires_at && expires_at <= u64::MAX as i128 {
        Some(Claims { subject, issued_at: now, expires_at: expires_at as u64 })
    } else {
        None
    }
}

/// Decides on a decoded payload presented at instant `now`: the claims when
/// all are present and `now` is before the expiry, else the classified error.
pub fn check_claims(decoded: Result<ClaimFields, TokenError>, now: u64) -> (r: Result<Claims, TokenError>)
    ensures
        r == verdict(decoded, now),
{
    match decoded {
        Err(e) => Err(e),
        Ok((Some(sub), Some(iat), Some(exp))) => {
            if iat <= u64::MAX as u128 && exp <= u64::MAX as u128 {
                if (now as u128) < exp {
                    Ok(Claims { subject: sub, issued_at: iat as u64, expires_at: exp as u64 })
                } else {
                    Err(TokenError::Expired)
                }
            } else {
                Err(TokenError::Malformed)
            }
        },
        Ok(_) => Err(TokenError::Malformed),
    }
}

/// A token service: one key pair and one lifetime in seconds.
#[derive(Debug)]
pub struct TokenService {
    pub private_key: String,
    pub public_key: String,
    pub lifetime: i64,
}

impl TokenService {
    pub fn new(private_key: String, public_key: String, lifetime: i64) -> (r: TokenService)
        ensures
            r.private_key == private_key,
            r.public_key == public_key,
            r.lifetime == lifetime,
    {
        TokenService { private_key, public_key, lifetime }
    }

    /// Issues a token for `subject` at instant `now`: exactly when the expiry
    /// instant is in range and the private key signs.
    pub fn issue(&self, subject: u128, now: u64) -> (r: Option<String>)
        ensures
            r is Some <==> (claims_for(subject, now, self.lifetime) is Some && eddsa_key_signs(self.private_key@)),
            r matches Some(t) ==> issued_token(t@, subject, now, self.lifetime, self.private_key@) && t@.len() > 0,
    {
        match issue_claims(subject, now, self.lifetime) {
            None => None,
            Some(c) => sign_eddsa(c.subject, c.issued_at, c.expires_at, self.private_key.as_str()),
        }
    }

    /// Verifies `token` at instant `now`: its signature against this service's
    /// public key, then its expiry.
    pub fn verify(&self, token: &str, now: u64) -> (r: Result<Claims, TokenError>)
        ensures
            r == verdict(eddsa_decode(token@, self.public_key@), now),
    {
        check_claims(read_eddsa(token, self.public_key.as_str()), now)
    }
}

/// A token is never accepted at or after its expiry instant: whatever the
/// decoding, an accepted verdict lies before the expiry, and a well-formed
/// payload presented at or after its expiry is classified as expired.
pub proof fn expired_tokens_rejected(decoded: Result<ClaimFields, TokenError>, now: u64)
    ensures
        verdict(decoded, now) matches Ok(c) ==> now < c.expires_at,
        decoded matches Ok(f) && claims_of_fields(f) matches Some(c) && c.expires_at <= now
            ==> verdict(decoded, now) == Err::<Claims, TokenError>(TokenError::Expired),
{
}

} // verus!
