use vstd::prelude::*;

use crate::claims::AccessClaims;
use crate::errors::{
    spec_forbidden, spec_token_missing, spec_unauthorized_generic, AuthError, UnauthorizedKind,
};
use crate::jwt::{access_decode_post, decode_access_token};
use crate::text::char_positions;

verus! {

/// The header value splits into exactly two space-separated parts at `i`.
pub open spec fn one_space_at(h: Seq<char>, i: int) -> bool {
    0 <= i < h.len() && h[i] == ' ' && forall|j: int|
        0 <= j < h.len() && j != i ==> h[j] != ' '
}

/// What authenticating one request promises. A missing header is a missing
/// token; a header that is not exactly two space-separated parts is a
/// generic rejection; otherwise the outcome is exactly that of decoding the
/// token part.
pub open spec fn auth_post(
    header: Option<&str>,
    secret: Seq<char>,
    r: Result<AccessClaims, AuthError>,
) -> bool {
    &&& (header is None ==> (r matches Err(e) && spec_token_missing(e)))
    &&& (header matches Some(h) && !(exists|i: int| one_space_at(h@, i)) ==> (r matches Err(e)
        && spec_unauthorized_generic(e)))
    &&& (header matches Some(h) ==> forall|i: int|
        one_space_at(h@, i) ==> access_decode_post(
            h@.subrange(i + 1, h@.len() as int),
            secret,
            r,
        ))
}

/// The pure decision of the request interceptor: reads the value of the
/// `Authorization` header, expects the shape `Bearer <token>`, and decodes
/// the token. No session store is consulted — an access token's validity is
/// self-contained.
pub fn authenticate(header: Option<&str>, secret: &str) -> (r: Result<AccessClaims, AuthError>)
    ensures
        auth_post(header, secret@, r),
{
    match header {
        None => Err(AuthError::Unauthorized(UnauthorizedKind::TokenMissing)),
        Some(at) => {
            let spaces = char_positions(at, ' ');
            if spaces.len() != 1 {
                proof {
                    assert forall|i: int| !one_space_at(at@, i) by {
                        if one_space_at(at@, i) {
                            assert(exists|k: int| 0 <= k < spaces@.len() && spaces@[k] == i);
                            let k = choose|k: int| 0 <= k < spaces@.len() && spaces@[k] == i;
                            if spaces@.len() > 1 {
                                if k == 0 {
                                    assert(at@[spaces@[1] as int] == ' ');
                                    assert(spaces@[0] < spaces@[1]);
                                } else {
                                    assert(at@[spaces@[0] as int] == ' ');
                                    assert(spaces@[0] < spaces@[k]);
                                }
                            }
                        }
                    }
                }
                Err(
                    AuthError::Unauthorized(
                        UnauthorizedKind::Generic(String::from_str("token is in invalid format")),
                    ),
                )
            } else {
                let i = spaces[0];
                let n = at.unicode_len();
                proof {
                    assert(one_space_at(at@, i as int)) by {
                        assert forall|j: int| 0 <= j < at@.len() && j != i implies at@[j]
                            != ' ' by {
                            if at@[j] == ' ' {
                                let k = choose|k: int|
                                    0 <= k < spaces@.len() && spaces@[k] == j;
                            }
                        }
                    }
                    assert forall|i2: int| one_space_at(at@, i2) implies i2 == i as int by {}
                }
                let token = at.substring_char(i + 1, n);
                decode_access_token(token, secret)
            }
        },
    }
}

/// The request guard carrying an authenticated identity.
pub struct AuthGuard(pub AccessClaims);

/// The claims behind a guard result, for stating guard contracts in terms
/// of the plain authentication outcome.
pub open spec fn guard_claims(r: Result<AuthGuard, AuthError>) -> Result<AccessClaims, AuthError> {
    match r {
        Ok(g) => Ok(g.0),
        Err(e) => Err(e),
    }
}

impl AuthGuard {
    /// Admits any bearer of a valid, unexpired access token.
    pub fn from_header(header: Option<&str>, secret: &str) -> (r: Result<AuthGuard, AuthError>)
        ensures
            auth_post(header, secret@, guard_claims(r)),
    {
        match authenticate(header, secret) {
            Ok(c) => Ok(AuthGuard(c)),
            Err(e) => Err(e),
        }
    }
}

/// The request guard that additionally demands the admin role.
pub struct LevelGuard(pub AccessClaims);

impl LevelGuard {
    /// Admits only bearers whose decoded role is "admin"; any other role is
    /// refused with a distinct Forbidden outcome.
    pub fn from_header(header: Option<&str>, secret: &str) -> (r: Result<LevelGuard, AuthError>)
        ensures
            r matches Ok(g) ==> auth_post(header, secret@, Ok(g.0)) && g.0@.role == "admin"@,
            r matches Err(e) ==> (!spec_forbidden(e) ==> auth_post(header, secret@, Err(e))) && (
            spec_forbidden(e) ==> exists|c: AccessClaims|
                #[trigger] auth_post(header, secret@, Ok(c)) && c@.role != "admin"@),
    {
        let claims = match authenticate(header, secret) {
            Ok(c) => c,
            Err(e) => {
                return Err(e);
            },
        };
        let admin = String::from_str("admin");
        if claims.role.eq(&admin) {
            Ok(LevelGuard(claims))
        } else {
            proof {
                assert(auth_post(header, secret@, Ok(claims)));
            }
            Err(AuthError::Forbidden(String::from_str("insufficient privilege")))
        }
    }
}

} // verus!
