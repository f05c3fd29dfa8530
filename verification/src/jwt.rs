use vstd::prelude::*;

use crate::claims::{
    parse_access_data, parse_refresh_data, spec_access_data, spec_refresh_data, wf_access,
    wf_refresh, AccessClaims, AccessClaimsView, RefreshClaims, RefreshClaimsView,
};
use crate::errors::{spec_generic_msg, spec_token_expired, AuthError, UnauthorizedKind};
use jsonwebtoken::errors::ErrorKind;
use jsonwebtoken::{decode, encode, DecodingKey, EncodingKey, Header, Validation};
use serde_json::Value;

verus! {

// The signed compact token that jsonwebtoken's `encode` produces for a given
// claims payload, expiry and signing secret. `encode` serialises the two
// claims deterministically and signs with HMAC-SHA256, so the token is a
// function of these three values alone, on every machine and in every
// process.
pub uninterp spec fn jwt_of(sub: Seq<char>, exp: int, secret: Seq<char>) -> Seq<char>;

// The time-independent part of what jsonwebtoken's `decode` makes of a token
// under a secret: `Some((sub, exp))` when the token passes every check of
// `decode` that does not consult the clock — an HS256 header, a signature
// valid under the secret, a present integral `exp`, and none of the
// registered claims `decode` rejects outright (with no audience or issuer
// configured, any `aud` claim, or an `iss` claim, rejects the token) — and
// its payload carries a string `sub` and an `exp` within `i64`; `None`
// otherwise. Whether a token in the first group is accepted or reported
// expired depends on the wall clock, not on the arguments, so that choice
// is deliberately left open here.
pub uninterp spec fn jwt_check(token: Seq<char>, secret: Seq<char>) -> Option<(Seq<char>, int)>;

/// What one decoding attempt yielded: the signed payload and expiry, a
/// valid-but-lapsed signature, or anything else.
pub enum JwtOutcome {
    Payload(String, i64),
    Expired,
    Invalid,
}

/// Relies on jsonwebtoken::encode (HS256 with the default header): the token
/// is a deterministic function of the claims and the secret, and
/// jsonwebtoken::decode recovers exactly the `sub` and `exp` claims from it,
/// as the crate's own round-trip usage documents. The call cannot fail
/// here: for HS256 the key family always matches, HMAC accepts any secret,
/// signing is infallible, and serialising the default header and a
/// string-keyed claims object cannot error.
#[verifier::external_body]
fn jwt_encode(sub: &str, exp: i64, secret: &str) -> (r: Option<String>)
    requires
        0 <= exp,
    ensures
        r is Some,
        r matches Some(t) ==> t@ == jwt_of(sub@, exp as int, secret@) && jwt_check(t@, secret@)
            == Some((sub@, exp as int)),
{
    let mut claims = serde_json::Map::new();
    claims.insert("sub".to_string(), Value::String(sub.to_string()));
    claims.insert("exp".to_string(), Value::from(exp));
    let key = EncodingKey::from_secret(secret.as_bytes());
    encode(&Header::default(), &Value::Object(claims), &key).ok()
}

/// Relies on jsonwebtoken::decode (HS256, default validation): a token that
/// passes every clock-free check and carries a string `sub` and an integer
/// `exp` is either accepted, yielding exactly those claims, or rejected as
/// expired; every other token is rejected as invalid. `ExpiredSignature` is
/// raised only after the signature has verified, and the second, expiry-free
/// decoding confirms the payload shape, so `Expired` comes back only for
/// tokens in the first group.
#[verifier::external_body]
fn jwt_decode(token: &str, secret: &str) -> (r: JwtOutcome)
    ensures
        r matches JwtOutcome::Payload(s, e) ==> jwt_check(token@, secret@) == Some(
            (s@, e as int),
        ),
        jwt_check(token@, secret@) matches Some(p) ==> ((r matches JwtOutcome::Payload(s, e) && s@
            == p.0 && e as int == p.1) || r is Expired),
        r is Expired ==> jwt_check(token@, secret@) is Some,
{
    let key = DecodingKey::from_secret(secret.as_bytes());
    let expired = matches!(decode::<Value>(token, &key, &Validation::default()),
        Err(e) if matches!(e.kind(), ErrorKind::ExpiredSignature));
    let mut lax = Validation::default();
    lax.validate_exp = false;
    match decode::<Value>(token, &key, &lax) {
        Ok(d) => match (d.claims.get("sub").and_then(|v| v.as_str()), d.claims.get("exp").and_then(|v| v.as_i64())) {
            (Some(s), Some(e)) => if expired { JwtOutcome::Expired } else { JwtOutcome::Payload(s.to_string(), e) },
            _ => JwtOutcome::Invalid,
        },
        Err(_) => JwtOutcome::Invalid,
    }
}

/// The access token minted for these claims under this secret.
pub open spec fn spec_access_token(cv: AccessClaimsView, secret: Seq<char>) -> Seq<char> {
    jwt_of(spec_access_data(cv), cv.exp, secret)
}

/// The refresh token minted for these claims under this secret.
pub open spec fn spec_refresh_token(rv: RefreshClaimsView, secret: Seq<char>) -> Seq<char> {
    jwt_of(spec_refresh_data(rv), rv.refresh_exp, secret)
}

/// Everything decoding an access token promises: what it accepted really is
/// a signed access payload; any token that carries a well-formed access
/// payload is either returned exactly or reported expired, never rejected as
/// malformed; and failures are always one of those two rejections.
pub open spec fn access_decode_post(
    token: Seq<char>,
    secret: Seq<char>,
    r: Result<AccessClaims, AuthError>,
) -> bool {
    &&& (r matches Ok(c) ==> wf_access(c@) && jwt_check(token, secret) == Some(
        (spec_access_data(c@), c@.exp),
    ))
    &&& (forall|cv: AccessClaimsView|
        wf_access(cv) && jwt_check(token, secret) == Some((spec_access_data(cv), cv.exp)) ==> (
        r matches Ok(c) && c@ == cv) || (r matches Err(e) && spec_token_expired(e)))
    &&& (r matches Err(e) ==> spec_token_expired(e) || spec_generic_msg(
        e,
        "failed to decode token"@,
    ))
    &&& (r matches Err(e) && spec_token_expired(e) ==> jwt_check(token, secret) is Some)
}

/// As `access_decode_post`, for refresh tokens.
pub open spec fn refresh_decode_post(
    token: Seq<char>,
    secret: Seq<char>,
    r: Result<RefreshClaims, AuthError>,
) -> bool {
    &&& (r matches Ok(c) ==> wf_refresh(c@) && jwt_check(token, secret) == Some(
        (spec_refresh_data(c@), c@.refresh_exp),
    ))
    &&& (forall|rv: RefreshClaimsView|
        wf_refresh(rv) && jwt_check(token, secret) == Some((spec_refresh_data(rv), rv.refresh_exp))
            ==> (r matches Ok(c) && c@ == rv) || (r matches Err(e) && spec_token_expired(e)))
    &&& (r matches Err(e) ==> spec_token_expired(e) || spec_generic_msg(
        e,
        "failed to decode token"@,
    ))
    &&& (r matches Err(e) && spec_token_expired(e) ==> jwt_check(token, secret) is Some)
}

/// Signs access claims into a compact token; the HS256 signing primitive
/// cannot fail.
pub fn encode_access_token(c: &AccessClaims, secret: &str) -> (r: Result<String, AuthError>)
    requires
        wf_access(c@),
    ensures
        r is Ok,
        r matches Ok(t) ==> t@ == spec_access_token(c@, secret@) && jwt_check(t@, secret@) == Some(
            (spec_access_data(c@), c@.exp),
        ),
{
    let data = crate::claims::access_data(c);
    match jwt_encode(data.as_str(), c.exp, secret) {
        Some(t) => Ok(t),
        None => Err(AuthError::Internal(String::from_str("failed to create access token"))),
    }
}

/// Signs refresh claims into a compact token; the HS256 signing primitive
/// cannot fail.
pub fn encode_refresh_token(c: &RefreshClaims, secret: &str) -> (r: Result<String, AuthError>)
    requires
        wf_refresh(c@),
    ensures
        r is Ok,
        r matches Ok(t) ==> t@ == spec_refresh_token(c@, secret@) && jwt_check(t@, secret@)
            == Some((spec_refresh_data(c@), c@.refresh_exp)),
{
    let data = crate::claims::refresh_data(c);
    match jwt_encode(data.as_str(), c.refresh_exp, secret) {
        Some(t) => Ok(t),
        None => Err(AuthError::Internal(String::from_str("failed to create refresh token"))),
    }
}

/// Checks an access token's signature and expiry and reads its claims back.
/// An expired signature and a malformed token are told apart, as callers
/// react differently to the two.
pub fn decode_access_token(token: &str, secret: &str) -> (r: Result<AccessClaims, AuthError>)
    ensures
        access_decode_post(token@, secret@, r),
{
    match jwt_decode(token, secret) {
        JwtOutcome::Payload(s, e) => {
            match parse_access_data(s.as_str(), e) {
                Some(c) => Ok(c),
                None => Err(
                    AuthError::Unauthorized(
                        UnauthorizedKind::Generic(String::from_str("failed to decode token")),
                    ),
                ),
            }
        },
        JwtOutcome::Expired => Err(AuthError::Unauthorized(UnauthorizedKind::TokenExpired)),
        JwtOutcome::Invalid => Err(
            AuthError::Unauthorized(
                UnauthorizedKind::Generic(String::from_str("failed to decode token")),
            ),
        ),
    }
}

/// As `decode_access_token`, for refresh tokens.
pub fn decode_refresh_token(token: &str, secret: &str) -> (r: Result<RefreshClaims, AuthError>)
    ensures
        refresh_decode_post(token@, secret@, r),
{
    match jwt_decode(token, secret) {
        JwtOutcome::Payload(s, e) => {
            match parse_refresh_data(s.as_str(), e) {
                Some(c) => Ok(c),
                None => Err(
                    AuthError::Unauthorized(
                        UnauthorizedKind::Generic(String::from_str("failed to decode token")),
                    ),
                ),
            }
        },
        JwtOutcome::Expired => Err(AuthError::Unauthorized(UnauthorizedKind::TokenExpired)),
        JwtOutcome::Invalid => Err(
            AuthError::Unauthorized(
                UnauthorizedKind::Generic(String::from_str("failed to decode token")),
            ),
        ),
    }
}

/// Law: decoding is deterministic. Two successful decodings of the same
/// refresh token under the same secret carry identical claims; nothing about
/// the result depends on hidden randomness.
pub proof fn lemma_refresh_decode_deterministic(
    token: Seq<char>,
    secret: Seq<char>,
    r1: Result<RefreshClaims, AuthError>,
    r2: Result<RefreshClaims, AuthError>,
)
    requires
        refresh_decode_post(token, secret, r1),
        refresh_decode_post(token, secret, r2),
        r1 is Ok,
        r2 is Ok,
    ensures
        r1->Ok_0@ == r2->Ok_0@,
{
    let c1 = r1->Ok_0;
    assert(wf_refresh(c1@) && jwt_check(token, secret) == Some(
        (spec_refresh_data(c1@), c1@.refresh_exp),
    ));
}

/// Law: the same, for access tokens.
pub proof fn lemma_access_decode_deterministic(
    token: Seq<char>,
    secret: Seq<char>,
    r1: Result<AccessClaims, AuthError>,
    r2: Result<AccessClaims, AuthError>,
)
    requires
        access_decode_post(token, secret, r1),
        access_decode_post(token, secret, r2),
        r1 is Ok,
        r2 is Ok,
    ensures
        r1->Ok_0@ == r2->Ok_0@,
{
    let c1 = r1->Ok_0;
    assert(wf_access(c1@) && jwt_check(token, secret) == Some(
        (spec_access_data(c1@), c1@.exp),
    ));
}

/// Law: a freshly minted token round-trips. If `token` is the encoding of
/// well-formed access claims under `secret`, decoding it yields exactly
/// those claims back, or reports the token expired; it is never rejected as
/// malformed.
pub proof fn lemma_access_round_trip(
    cv: AccessClaimsView,
    token: Seq<char>,
    secret: Seq<char>,
    r: Result<AccessClaims, AuthError>,
)
    requires
        wf_access(cv),
        jwt_check(token, secret) == Some((spec_access_data(cv), cv.exp)),
        access_decode_post(token, secret, r),
    ensures
        (r matches Ok(c) && c@ == cv) || (r matches Err(e) && spec_token_expired(e)),
{
}

/// Law: the same round trip for refresh tokens.
pub proof fn lemma_refresh_round_trip(
    rv: RefreshClaimsView,
    token: Seq<char>,
    secret: Seq<char>,
    r: Result<RefreshClaims, AuthError>,
)
    requires
        wf_refresh(rv),
        jwt_check(token, secret) == Some((spec_refresh_data(rv), rv.refresh_exp)),
        refresh_decode_post(token, secret, r),
    ensures
        (r matches Ok(c) && c@ == rv) || (r matches Err(e) && spec_token_expired(e)),
{
}

} // verus!
