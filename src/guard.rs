//! The request guard: bearer-token extraction, access-token verification and
//! account resolution for protected requests.
use crate::config::Config;
use crate::token::{eddsa_decode, verdict, Claims, TokenError};
use crate::user::{account_with_id, id_taken, AccountRow, AppUser, AppUserTable};
use vstd::prelude::*;
use vstd::string::StringSliceAdditionalSpecFns;
use vstd::utf8::{decode_utf8, encode_utf8_decode_utf8, encode_utf8_valid_utf8, is_char_boundary, valid_utf8};

verus! {

/// The bytes of the `Bearer ` scheme prefix of an authorization header.
pub open spec fn bearer_prefix() -> Seq<u8> {
    seq![66u8, 101u8, 97u8, 114u8, 101u8, 114u8, 32u8]
}

/// Whether the header's bytes begin with the bearer prefix.
pub open spec fn has_bearer_prefix(header: Seq<u8>) -> bool {
    header.len() >= 7 && header.subrange(0, 7) == bearer_prefix()
}

/// A run of one-byte characters at the front of valid UTF-8 ends on a character boundary.
proof fn lemma_ascii_prefix_boundary(bytes: Seq<u8>, k: int)
    requires
        valid_utf8(bytes),
        0 <= k <= bytes.len(),
        forall|i: int| 0 <= i < k ==> #[trigger] bytes[i] <= 0x7f,
    ensures
        is_char_boundary(bytes, k),
    decreases k,
{
    if k > 0 {
        let rest = bytes.subrange(1, bytes.len() as int);
        assert(bytes[0] <= 0x7f);
        assert forall|i: int| 0 <= i < k - 1 implies #[trigger] rest[i] <= 0x7f by {
            assert(rest[i] == bytes[i + 1]);
        }
        lemma_ascii_prefix_boundary(rest, k - 1);
    }
}

/// The token that follows the `Bearer ` prefix of an authorization header.
pub fn bearer_token(header: &str) -> (r: Option<&str>)
    ensures
        r is None <==> !has_bearer_prefix(header.spec_bytes()),
        r matches Some(t) ==> header.spec_bytes() == bearer_prefix() + t.spec_bytes(),
{
    let b = header.as_bytes();
    if b.len() < 7 {
        return None;
    }
    if !(b[0] == 66u8 && b[1] == 101u8 && b[2] == 97u8 && b[3] == 114u8 && b[4] == 101u8 && b[5] == 114u8
        && b[6] == 32u8) {
        assert(b@.subrange(0, 7) != bearer_prefix()) by {
            if b@.subrange(0, 7) == bearer_prefix() {
                assert(b@[0] == b@.subrange(0, 7)[0]);
                assert(b@[1] == b@.subrange(0, 7)[1]);
                assert(b@[2] == b@.subrange(0, 7)[2]);
                assert(b@[3] == b@.subrange(0, 7)[3]);
                assert(b@[4] == b@.subrange(0, 7)[4]);
                assert(b@[5] == b@.subrange(0, 7)[5]);
                assert(b@[6] == b@.subrange(0, 7)[6]);
            }
        }
        return None;
    }
    assert(b@.subrange(0, 7) =~= bearer_prefix());
    proof {
        encode_utf8_valid_utf8(header@);
        lemma_ascii_prefix_boundary(header.spec_bytes(), 7);
    }
    let (_, token) = header.split_at(7);
    assert(header.spec_bytes() =~= bearer_prefix() + token.spec_bytes());
    Some(token)
}

/// Why a protected request was refused. All are answered as unauthorized;
/// the variants tell the causes apart for logging.
#[derive(Debug, Clone, Copy, PartialEq, Eq, Structural)]
pub enum AuthError {
    /// No authorization header, or one without the bearer prefix.
    NoToken,
    /// The access token did not verify.
    InvalidToken(TokenError),
    /// The token's subject names no account.
    UnknownAccount,
}

/// The text of the token that follows the bearer prefix in the header's bytes.
pub open spec fn bearer_text(header: Seq<u8>) -> Seq<char> {
    decode_utf8(header.subrange(7, header.len() as int))
}

/// What the guard decides on the token stage of a request: the verified claims
/// of the access token, or why there are none.
pub open spec fn token_decision(header: Option<Seq<u8>>, config: Config, now: u64) -> Result<Claims, AuthError> {
    match header {
        None => Err(AuthError::NoToken),
        Some(h) => if !has_bearer_prefix(h) {
            Err(AuthError::NoToken)
        } else {
            match verdict(eddsa_decode(bearer_text(h), config.access_token_public_key@), now) {
                Ok(c) => Ok(c),
                Err(e) => Err(AuthError::InvalidToken(e)),
            }
        },
    }
}

/// The token stage of the guard: extracts the bearer token from the
/// authorization header (if any) and verifies it as an access token at `now`.
pub fn authorize(header: Option<&str>, config: &Config, now: u64) -> (r: Result<Claims, AuthError>)
    ensures
        r == token_decision(
            match header {
                Some(h) => Some(h.spec_bytes()),
                None => None,
            },
            *config,
            now,
        ),
{
    let h = match header {
        Some(h) => h,
        None => return Err(AuthError::NoToken),
    };
    let token = match bearer_token(h) {
        Some(t) => t,
        None => return Err(AuthError::NoToken),
    };
    proof {
        encode_utf8_decode_utf8(token@);
        assert(h.spec_bytes().subrange(7, h.spec_bytes().len() as int) =~= token.spec_bytes());
    }
    match config.access_service().verify(token, now) {
        Ok(c) => Ok(c),
        Err(e) => Err(AuthError::InvalidToken(e)),
    }
}

/// The request context handed to protected handlers: the authenticated account.
#[derive(Debug)]
pub struct JWTAuthMiddleware {
    pub user: AppUser,
}

/// The whole guard against the account table: the token stage, then a fresh
/// lookup of the token's subject.
pub fn auth(table: &AppUserTable, header: Option<&str>, config: &Config, now: u64) -> (r: Result<
    JWTAuthMiddleware,
    AuthError,
>)
    requires
        table.wf(),
    ensures
        ({
            let decision = token_decision(
                match header {
                    Some(h) => Some(h.spec_bytes()),
                    None => None,
                },
                *config,
                now,
            );
            match decision {
                Err(e) => r == Err::<JWTAuthMiddleware, AuthError>(e),
                Ok(c) => if id_taken(table@, c.subject) {
                    r matches Ok(m) && m.user@ == account_with_id(table@, c.subject)
                } else {
                    r == Err::<JWTAuthMiddleware, AuthError>(AuthError::UnknownAccount)
                },
            }
        }),
{
    let claims = authorize(header, config, now)?;
    match table.find_by_id(claims.subject) {
        Some(u) => Ok(JWTAuthMiddleware { user: u.duplicate() }),
        None => Err(AuthError::UnknownAccount),
    }
}

/// The body of a refusal.
#[derive(Debug)]
pub struct ErrorResponse {
    pub status: String,
    pub message: String,
}

impl AuthError {
    /// The transport status of every refusal: unauthorized.
    pub fn status_code(&self) -> (r: u16)
        ensures
            r == 401,
    {
        401
    }

    /// The refusal's body: a missing token is named as such; every other
    /// cause reads the same.
    pub fn response(&self) -> (r: ErrorResponse)
        ensures
            r.status@ == "error"@,
            *self is NoToken ==> r.message@ == "No valid token found"@,
            !(*self is NoToken) ==> r.message@ == "Unauthorized"@,
    {
        let message = match self {
            AuthError::NoToken => "No valid token found".to_owned(),
            _ => "Unauthorized".to_owned(),
        };
        ErrorResponse { status: "error".to_owned(), message }
    }
}

} // verus!
