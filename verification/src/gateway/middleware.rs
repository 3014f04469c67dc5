//! Token checking for protected routes.
//!
//! The token comes from an `Authorization: Bearer <token>` header, or else
//! from a `token=<token>` query parameter (the last one wins), for clients
//! that cannot set headers. A verified token yields the caller's context.

use vstd::prelude::*;
use crate::auth::service::AuthService;
use crate::auth::token::{SessionToken, TokenClaims, TokenError, TokenVerifier, ed25519_verifies};
use crate::scan::{chars_of, find_chars, find_from, split_chars, split_on, string_of, trim, trimmed_string};
use crate::text::{starts_with, str_eq};

verus! {

/// Who is calling, from a verified token.
#[derive(Debug, Clone)]
pub struct AuthContext {
    /// User id.
    pub user_id: String,
    /// Token version.
    pub version: u64,
    /// Issue time (unix nanoseconds).
    pub issued_at: i64,
    /// Expiry (unix nanoseconds).
    pub expires_at: i64,
}

/// The value of a `key=value` piece whose key is `token`.
pub open spec fn token_value(piece: Seq<char>) -> Option<Seq<char>> {
    match find_from(piece, seq!['='], 0) {
        Some(i) => if piece.take(i) == "token"@ {
            Some(piece.skip(i + 1))
        } else {
            None
        },
        None => None,
    }
}

/// The value of the last `token=` piece.
pub open spec fn last_token(pieces: Seq<Seq<char>>) -> Option<Seq<char>>
    decreases pieces.len(),
{
    if pieces.len() == 0 {
        None
    } else {
        match token_value(pieces.last()) {
            Some(v) => Some(v),
            None => last_token(pieces.drop_last()),
        }
    }
}

/// The token a request carries: after `Bearer ` in the header (trimmed),
/// or else in the query.
pub open spec fn carried_token(header: Seq<char>, query: Seq<char>) -> Option<Seq<char>> {
    if header.len() >= 7 && header.take(7) == "Bearer "@ {
        Some(trim(header.skip(7)))
    } else {
        last_token(split_on(query, '&'))
    }
}

/// The token a request carries, from its `Authorization` header value
/// (empty without one) and its query string (empty without one).
pub fn bearer_token(auth_header: &str, query: &str) -> (r: Option<String>)
    ensures
        match r {
            Some(t) => carried_token(auth_header@, query@) == Some(t@),
            None => carried_token(auth_header@, query@) is None,
        },
{
    proof {
        reveal_strlit("Bearer ");
        reveal_strlit("token");
    }
    if starts_with(auth_header, "Bearer ") {
        let v = chars_of(auth_header);
        let t = trimmed_string(&v, 7, v.len());
        assert(v@.subrange(7, v@.len() as int) =~= auth_header@.skip(7));
        assert(auth_header@.take(7) =~= "Bearer "@);
        return Some(t);
    }
    proof {
        assert("Bearer "@.len() == 7);
        if auth_header@.len() >= 7 && auth_header@.take(7) == "Bearer "@ {
            assert(auth_header@.subrange(0, 7) == "Bearer "@);
        }
    }
    let q = chars_of(query);
    let pieces = split_chars(&q, '&');
    let eq: Vec<char> = vec!['='];
    assert(eq@ == seq!['=']);
    let ghost all = split_on(query@, '&');
    assert(all.take(all.len() as int) =~= all);
    assert(eq@.len() == 1);
    assert("Bearer "@.len() == 7);
    let mut k: usize = pieces.len();
    while k > 0
        invariant
            k <= pieces@.len(),
            pieces@.len() == all.len(),
            forall|i: int| 0 <= i < pieces@.len() ==> #[trigger] pieces@[i]@ == all[i],
            eq@ == seq!['='],
            all == split_on(query@, '&'),
            !(auth_header@.len() >= 7 && auth_header@.take(7) == "Bearer "@),
            last_token(all) == last_token(all.take(k as int)),
        decreases k,
    {
        let piece = &pieces[k - 1];
        let ghost pre = all.take(k as int);
        assert(pre.last() == all[k - 1]);
        assert(pre.drop_last() =~= all.take(k - 1));
        match find_chars(piece, &eq, 0) {
            Some(i) => {
                proof {
                    crate::scan::lemma_find_from(piece@, eq@, 0);
                    assert(eq@.len() == 1);
                }
                let plen = piece.len();
                let key = string_of(piece, 0, i);
                if str_eq(key.as_str(), "token") {
                    let value = string_of(piece, i + 1, plen);
                    assert(piece@.subrange(0, i as int) =~= piece@.take(i as int));
                    assert(piece@.subrange(i + 1, piece@.len() as int) =~= piece@.skip(i + 1));
                    assert(all[k - 1] == piece@);
                    assert(token_value(all[k - 1]) == Some(value@));
                    assert(last_token(all.take(k as int)) == Some(value@));
                    return Some(value);
                }
                assert(piece@.subrange(0, i as int) =~= piece@.take(i as int));
            },
            None => {},
        }
        k = k - 1;
    }
    None
}

/// The message answered for a token that does not verify.
pub open spec fn rejection_message(e: TokenError) -> Seq<char> {
    match e {
        TokenError::Expired => "token expired"@,
        TokenError::Revoked => "token revoked"@,
        TokenError::VersionMismatch { .. } => "token version mismatch (rotated)"@,
        TokenError::InvalidSignature => "invalid token signature"@,
        TokenError::Malformed(_) => "malformed token"@,
    }
}

/// What checking a token at time `now` answers, its claims having the
/// bytes `claims_bytes`: the signature, then the expiry, then the version.
pub open spec fn token_check(
    tokens: TokenVerifier,
    token: SessionToken,
    claims_bytes: Seq<u8>,
    now: i64,
    r: Result<AuthContext, String>,
) -> bool {
    let t = token.claims;
    if !ed25519_verifies(tokens.key(), claims_bytes, token.signature@) {
        r matches Err(m) && m@ == "invalid token signature"@
    } else if t.exp < now {
        r matches Err(m) && m@ == "token expired"@
    } else {
        match tokens.version_of(t.sub@) {
            None => r matches Err(m) && m@ == "token revoked"@,
            Some(v) => if v != t.ver {
                r matches Err(m) && m@ == "token version mismatch (rotated)"@
            } else {
                r matches Ok(c) && c.user_id@ == t.sub@ && c.version == t.ver && c.issued_at == t.iat
                    && c.expires_at == t.exp
            },
        }
    }
}

/// The state of the token check: the authentication service.
pub struct AuthMiddleware {
    /// The service whose tokens are checked.
    pub auth: AuthService,
}

impl AuthMiddleware {
    /// A token check against a service.
    pub fn new(auth: AuthService) -> (m: AuthMiddleware)
        ensures
            m.auth == auth,
    {
        AuthMiddleware { auth }
    }

    /// Check a token at time `now`: the signature is checked over the bytes
    /// that `encode` gives for the token's claims (their MessagePack form);
    /// the caller's context, or the message to answer with 401.
    pub fn authenticate_at<F: Fn(&TokenClaims) -> Vec<u8>>(&self, token: &SessionToken, now: i64, encode: &F) -> (r:
        Result<AuthContext, String>)
        requires
            self.auth.tokens.wf(),
            encode.requires((&token.claims,)),
        ensures
            exists|bytes: Vec<u8>|
                #[trigger] encode.ensures((&token.claims,), bytes) && token_check(
                    self.auth.tokens,
                    *token,
                    bytes@,
                    now,
                    r,
                ),
    {
        let claims_bytes = encode(&token.claims);
        match self.auth.tokens.verify_at(token, claims_bytes.as_slice(), now) {
            Ok(claims) => Ok(
                AuthContext {
                    user_id: claims.sub,
                    version: claims.ver,
                    issued_at: claims.iat,
                    expires_at: claims.exp,
                },
            ),
            Err(e) => {
                let m = match e {
                    TokenError::Expired => "token expired",
                    TokenError::Revoked => "token revoked",
                    TokenError::VersionMismatch { .. } => "token version mismatch (rotated)",
                    TokenError::InvalidSignature => "invalid token signature",
                    TokenError::Malformed(_) => "malformed token",
                };
                Err(m.to_owned())
            },
        }
    }
}

} // verus!
