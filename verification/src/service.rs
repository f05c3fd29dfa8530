use vstd::prelude::*;

use crate::claims::{
    spec_access_data, spec_refresh_data, wf_access, wf_refresh, AccessClaims, AccessClaimsView,
    RefreshClaims, RefreshClaimsView, ACCESS_TTL_SECS, MAX_INSTANT, REFRESH_TTL_SECS,
};
use crate::errors::{
    spec_internal, spec_not_found, spec_token_expired, spec_unauthorized_generic,
    spec_unprocessable, AuthError, UnauthorizedKind,
};
use crate::jwt::{
    decode_refresh_token, encode_access_token, encode_refresh_token, jwt_check,
    spec_access_token, spec_refresh_token,
};
use crate::session::{Session, SessionStore, SessionView};
use crate::text::plain_field;
use crate::users::{argon_check, NewUser, User, UserStore, UserView};

verus! {

/// The pair a login or refresh hands out: a short-lived access token and
/// the refresh token that can later be exchanged for the next pair. Always
/// minted together.
pub struct Tokens {
    pub access_token: String,
    pub refresh_token: String,
}

pub struct TokensView {
    pub access_token: Seq<char>,
    pub refresh_token: Seq<char>,
}

impl View for Tokens {
    type V = TokensView;

    open spec fn view(&self) -> TokensView {
        TokensView { access_token: self.access_token@, refresh_token: self.refresh_token@ }
    }
}

impl Clone for Tokens {
    fn clone(&self) -> (r: Self)
        ensures
            r@ == self@,
    {
        Tokens {
            access_token: self.access_token.clone(),
            refresh_token: self.refresh_token.clone(),
        }
    }
}

/// Relies on chrono::Utc::now for the current whole-second UNIX time.
/// Nothing is assumed about the value.
#[verifier::external_body]
fn unix_now() -> (r: i64)
{
    chrono::Utc::now().timestamp()
}

/// The instants a token pair may be minted at: non-negative, and early
/// enough that both expiries stay within bounds.
pub open spec fn spec_mintable(now: int) -> bool {
    0 <= now <= MAX_INSTANT - REFRESH_TTL_SECS
}

/// Reads the clock and checks it lies in the mintable range; a clock
/// outside it is reported as an internal fault rather than trusted.
pub fn current_time() -> (r: Result<i64, AuthError>)
    ensures
        r matches Ok(t) ==> spec_mintable(t as int),
        r matches Err(e) ==> spec_internal(e),
{
    let t = unix_now();
    if 0 <= t && t <= MAX_INSTANT - REFRESH_TTL_SECS {
        Ok(t)
    } else {
        Err(AuthError::Internal(String::from_str("clock out of range")))
    }
}

/// These two claim sets and this token pair belong together: the refresh
/// claims name the access identifier and expiry, both expiries are measured
/// from `now`, and each token is the signed encoding of its claims.
pub open spec fn minted_with(
    t: TokensView,
    acv: AccessClaimsView,
    rcv: RefreshClaimsView,
    username: Seq<char>,
    role: Seq<char>,
    now: int,
    secret: Seq<char>,
) -> bool {
    &&& wf_access(acv)
    &&& wf_refresh(rcv)
    &&& acv.username == username
    &&& acv.role == role
    &&& acv.exp == now + ACCESS_TTL_SECS
    &&& rcv.access_uuid == acv.access_uuid
    &&& rcv.username == username
    &&& rcv.access_exp == acv.exp
    &&& rcv.refresh_exp == now + REFRESH_TTL_SECS
    &&& t.access_token == spec_access_token(acv, secret)
    &&& jwt_check(t.access_token, secret) == Some((spec_access_data(acv), acv.exp))
    &&& t.refresh_token == spec_refresh_token(rcv, secret)
    &&& jwt_check(t.refresh_token, secret) == Some((spec_refresh_data(rcv), rcv.refresh_exp))
}

/// A token pair minted for this user at this instant: some claim pair ties
/// the two tokens together as `minted_with` demands.
pub open spec fn minted(
    t: TokensView,
    username: Seq<char>,
    role: Seq<char>,
    now: int,
    secret: Seq<char>,
) -> bool {
    exists|acv: AccessClaimsView, rcv: RefreshClaimsView|
        #[trigger] minted_with(t, acv, rcv, username, role, now, secret)
}

impl Tokens {
    /// Mints a fresh pair for `username` with `role`: access claims good
    /// for fifteen minutes, refresh claims referencing them and good for
    /// seven days, both signed under `secret`. Minting alone has no side
    /// effect on any store; the caller decides when to persist the session.
    pub fn new(username: &str, role: &str, secret: &str, now: i64) -> (r: Result<
        Tokens,
        AuthError,
    >)
        requires
            plain_field(username@),
            plain_field(role@),
            spec_mintable(now as int),
        ensures
            r is Ok,
            r matches Ok(t) ==> minted(t@, username@, role@, now as int, secret@),
    {
        let ac = AccessClaims::new(
            crate::users::fresh_uuid(),
            username.to_owned(),
            role.to_owned(),
            now,
        );
        let rc = RefreshClaims::new(crate::users::fresh_uuid(), &ac, now);
        let access_token = match encode_access_token(&ac, secret) {
            Ok(t) => t,
            Err(e) => {
                return Err(e);
            },
        };
        let refresh_token = match encode_refresh_token(&rc, secret) {
            Ok(t) => t,
            Err(e) => {
                return Err(e);
            },
        };
        let tokens = Tokens { access_token, refresh_token };
        proof {
            assert(minted_with(
                tokens@,
                ac@,
                rc@,
                username@,
                role@,
                now as int,
                secret@,
            ));
        }
        Ok(tokens)
    }
}

/// This token decodes to these refresh claims: it is validly signed and
/// carries their payload and expiry.
pub open spec fn decoded_refresh(
    token: Seq<char>,
    secret: Seq<char>,
    rv: RefreshClaimsView,
) -> bool {
    wf_refresh(rv) && jwt_check(token, secret) == Some((spec_refresh_data(rv), rv.refresh_exp))
}

/// The session record a successful exchange writes for the new pair.
pub open spec fn spec_new_session(username: Seq<char>, token: Seq<char>, now: int) -> SessionView {
    SessionView { username, token, created_at: now, updated_at: now }
}

/// What a successful refresh did: the presented token decoded, was not yet
/// lapsed, had a live session, its user exists, a new pair was minted for
/// that user, and the store traded the old session for the new one.
pub open spec fn refresh_ok(
    users: Map<Seq<char>, UserView>,
    pre: Map<Seq<char>, SessionView>,
    post: Map<Seq<char>, SessionView>,
    token: Seq<char>,
    secret: Seq<char>,
    now: int,
    t: TokensView,
) -> bool {
    exists|rv: RefreshClaimsView|
        {
            &&& #[trigger] decoded_refresh(token, secret, rv)
            &&& now < rv.refresh_exp
            &&& pre.contains_key(token)
            &&& users.contains_key(rv.username)
            &&& minted(t, rv.username, users[rv.username].role, now, secret)
            &&& post == pre.remove(token).insert(
                t.refresh_token,
                spec_new_session(rv.username, t.refresh_token, now),
            )
        }
}

/// What each refresh failure means, and what it left of the store.
pub open spec fn refresh_err(
    users: Map<Seq<char>, UserView>,
    pre: Map<Seq<char>, SessionView>,
    post: Map<Seq<char>, SessionView>,
    token: Seq<char>,
    secret: Seq<char>,
    now: int,
    e: AuthError,
) -> bool {
    &&& (spec_not_found(e, "token"@) ==> !pre.contains_key(token) && post == pre && exists|
        rv: RefreshClaimsView,
    |
        #[trigger] decoded_refresh(token, secret, rv) && now < rv.refresh_exp)
    &&& (spec_not_found(e, "user"@) ==> pre.contains_key(token) && post == pre.remove(token)
        && exists|rv: RefreshClaimsView|
        #[trigger] decoded_refresh(token, secret, rv) && !users.contains_key(rv.username))
    &&& (spec_token_expired(e) || spec_unauthorized_generic(e) ==> post == pre)
    &&& (spec_not_found(e, "token"@) || spec_not_found(e, "user"@) || spec_token_expired(e)
        || spec_unauthorized_generic(e))
}

/// The whole contract of one refresh attempt, including what is owed for
/// every refresh claim set the token decodes to. Only wall-clock expiry,
/// checked by the codec against real time, may pre-empt the stated outcome,
/// and then the error says so.
pub open spec fn refresh_post(
    users: Map<Seq<char>, UserView>,
    pre: Map<Seq<char>, SessionView>,
    post: Map<Seq<char>, SessionView>,
    token: Seq<char>,
    secret: Seq<char>,
    now: int,
    r: Result<Tokens, AuthError>,
) -> bool {
    &&& (r matches Ok(t) ==> refresh_ok(users, pre, post, token, secret, now, t@))
    &&& (r matches Err(e) ==> refresh_err(users, pre, post, token, secret, now, e))
    &&& (forall|rv: RefreshClaimsView|
        #[trigger] decoded_refresh(token, secret, rv) ==> {
            if now >= rv.refresh_exp {
                r matches Err(e) && spec_token_expired(e)
            } else if !pre.contains_key(token) {
                r matches Err(e) && (spec_not_found(e, "token"@) || spec_token_expired(e))
            } else if !users.contains_key(rv.username) {
                r matches Err(e) && (spec_not_found(e, "user"@) || spec_token_expired(e))
            } else {
                r is Ok || (r matches Err(e) && spec_token_expired(e))
            }
        })
}

/// Exchanges a refresh token for a fresh pair: decode, enforce the embedded
/// refresh expiry, delete the old session before anything is minted (the
/// single-use guarantee: a replay sees zero deleted rows and fails), look
/// the owner up, mint, and record the new session.
pub fn refresh_token(
    users: &UserStore,
    store: &mut SessionStore,
    presented: &str,
    secret: &str,
    now: i64,
) -> (r: Result<Tokens, AuthError>)
    requires
        users.wf(),
        old(store).wf(),
        spec_mintable(now as int),
    ensures
        final(store).wf(),
        refresh_post(users@, old(store)@, final(store)@, presented@, secret@, now as int, r),
{
    proof {
        // the two lookup failures carry distinct names
        reveal_strlit("token");
        reveal_strlit("user");
        assert("token"@.len() == 5);
        assert("user"@.len() == 4);
        assert("token"@ != "user"@);
    }
    let claims = match decode_refresh_token(presented, secret) {
        Ok(c) => c,
        Err(e) => {
            return Err(e);
        },
    };
    proof {
        assert(decoded_refresh(presented@, secret@, claims@));
        assert forall|rv: RefreshClaimsView|
            #[trigger] decoded_refresh(presented@, secret@, rv) implies rv == claims@ by {
            assert(wf_refresh(rv) && jwt_check(presented@, secret@) == Some(
                (spec_refresh_data(rv), rv.refresh_exp),
            ));
        }
    }
    if now >= claims.refresh_exp {
        return Err(AuthError::Unauthorized(UnauthorizedKind::TokenExpired));
    }
    let deleted = store.delete_by_token(presented);
    if deleted != 1 {
        proof {
            assert(store@ =~= old(store)@);
        }
        return Err(AuthError::NotFound(String::from_str("token")));
    }
    let user = match users.get_by_username(claims.username.as_str()) {
        Ok(u) => u,
        Err(e) => {
            return Err(e);
        },
    };
    let tokens = match Tokens::new(user.username.as_str(), user.role.as_str(), secret, now) {
        Ok(t) => t,
        Err(e) => {
            return Err(e);
        },
    };
    let session = Session::new(user.username.clone(), tokens.refresh_token.clone(), now);
    store.insert(session);
    proof {
        let rv = claims@;
        assert(decoded_refresh(presented@, secret@, rv));
        assert(final(store)@ =~= old(store)@.remove(presented@).insert(
            tokens@.refresh_token,
            spec_new_session(rv.username, tokens@.refresh_token, now as int),
        ));
        assert(refresh_ok(
            users@,
            old(store)@,
            final(store)@,
            presented@,
            secret@,
            now as int,
            tokens@,
        ));
    }
    Ok(tokens)
}

/// What one revocation attempt promises: the store only ever shrinks by the
/// presented token, success means the session existed and is gone, and a
/// decodable token with no session is answered with the dedicated message.
pub open spec fn revoke_post(
    pre: Map<Seq<char>, SessionView>,
    post: Map<Seq<char>, SessionView>,
    token: Seq<char>,
    secret: Seq<char>,
    r: Result<(), AuthError>,
) -> bool {
    &&& (r is Ok ==> pre.contains_key(token) && post == pre.remove(token) && exists|
        rv: RefreshClaimsView,
    |
        #[trigger] decoded_refresh(token, secret, rv))
    &&& (r matches Err(e) ==> post == pre)
    &&& (r matches Err(e) ==> spec_token_expired(e) || spec_unauthorized_generic(e))
    &&& (r matches Err(e) && crate::errors::spec_generic_msg(e, "token not found"@)
        ==> !pre.contains_key(token))
    &&& (forall|rv: RefreshClaimsView|
        #[trigger] decoded_refresh(token, secret, rv) ==> {
            if pre.contains_key(token) {
                r is Ok || (r matches Err(e) && spec_token_expired(e))
            } else {
                r matches Err(e) && (crate::errors::spec_generic_msg(e, "token not found"@)
                    || spec_token_expired(e))
            }
        })
}

/// Revokes (logs out) a refresh token: the token must still decode, and the
/// matching session is deleted. Zero matching sessions is answered with
/// Unauthorized("token not found").
pub fn revoke(store: &mut SessionStore, refresh_token: &str, secret: &str) -> (r: Result<
    (),
    AuthError,
>)
    requires
        old(store).wf(),
    ensures
        final(store).wf(),
        revoke_post(old(store)@, final(store)@, refresh_token@, secret@, r),
{
    proof {
        // a missing session and an undecodable token answer with distinct
        // messages
        reveal_strlit("token not found");
        reveal_strlit("failed to decode token");
        assert("token not found"@.len() == 15);
        assert("failed to decode token"@.len() == 22);
        assert("token not found"@ != "failed to decode token"@);
    }
    let claims = match decode_refresh_token(refresh_token, secret) {
        Ok(c) => c,
        Err(e) => {
            return Err(e);
        },
    };
    proof {
        assert(decoded_refresh(refresh_token@, secret@, claims@));
        assert forall|rv: RefreshClaimsView|
            #[trigger] decoded_refresh(refresh_token@, secret@, rv) implies rv == claims@ by {
            assert(wf_refresh(rv) && jwt_check(refresh_token@, secret@) == Some(
                (spec_refresh_data(rv), rv.refresh_exp),
            ));
        }
    }
    let deleted = store.delete_by_token(refresh_token);
    if deleted != 1 {
        proof {
            assert(store@ =~= old(store)@);
        }
        return Err(
            AuthError::Unauthorized(
                UnauthorizedKind::Generic(String::from_str("token not found")),
            ),
        );
    }
    Ok(())
}

/// What a login promises: a pair comes back only for a stored account whose
/// hash verifies the presented password, and then its session is recorded;
/// every failure names its cause and leaves the store alone.
pub open spec fn login_post(
    users: Map<Seq<char>, UserView>,
    pre: Map<Seq<char>, SessionView>,
    post: Map<Seq<char>, SessionView>,
    username: Seq<char>,
    password: Seq<char>,
    now: int,
    secret: Seq<char>,
    r: Result<Tokens, AuthError>,
) -> bool {
    &&& (r matches Ok(t) ==> users.contains_key(username) && argon_check(
        users[username].hash,
        password,
    ) == Some(true) && minted(t@, username, users[username].role, now, secret) && post
        == pre.insert(t@.refresh_token, spec_new_session(username, t@.refresh_token, now)))
    &&& (r matches Err(e) ==> post == pre)
    &&& (!(crate::users::spec_valid_username(username) && crate::users::spec_valid_password(
        password,
    )) ==> (r matches Err(e) && spec_unprocessable(e)))
    &&& (r matches Err(e) && spec_unprocessable(e) ==> !(crate::users::spec_valid_username(username)
        && crate::users::spec_valid_password(password)))
    &&& (r matches Err(e) && spec_not_found(e, "user"@) ==> !users.contains_key(username)
        || argon_check(users[username].hash, password) == Some(false))
    &&& (r matches Err(e) && spec_internal(e) ==> users.contains_key(username) && argon_check(
        users[username].hash,
        password,
    ) is None)
    &&& (crate::users::spec_valid_username(username) && crate::users::spec_valid_password(password)
        && (!users.contains_key(username) || argon_check(users[username].hash, password) == Some(
        false,
    )) ==> (r matches Err(e) && spec_not_found(e, "user"@)))
    &&& (crate::users::spec_valid_username(username) && crate::users::spec_valid_password(password)
        && users.contains_key(username) && argon_check(users[username].hash, password) == Some(
        true,
    ) ==> r is Ok)
    &&& (r matches Err(e) ==> spec_unprocessable(e) || spec_not_found(e, "user"@)
        || spec_internal(e))
}

/// Validates the submitted credentials, verifies the password against the
/// stored hash, mints a pair and records the refresh session.
pub fn login(
    users: &UserStore,
    store: &mut SessionStore,
    nu: &NewUser,
    secret: &str,
    now: i64,
) -> (r: Result<Tokens, AuthError>)
    requires
        users.wf(),
        old(store).wf(),
        spec_mintable(now as int),
    ensures
        final(store).wf(),
        login_post(
            users@,
            old(store)@,
            final(store)@,
            nu.username@,
            nu.password@,
            now as int,
            secret@,
            r,
        ),
{
    match nu.validate() {
        Ok(_) => (),
        Err(e) => {
            return Err(e);
        },
    };
    let user = match users.get_by_username(nu.username.as_str()) {
        Ok(u) => u,
        Err(e) => {
            return Err(e);
        },
    };
    let verified = match user.password_verify(nu.password.as_str()) {
        Ok(b) => b,
        Err(e) => {
            return Err(e);
        },
    };
    if !verified {
        return Err(AuthError::NotFound(String::from_str("user")));
    }
    let tokens = match Tokens::new(user.username.as_str(), user.role.as_str(), secret, now) {
        Ok(t) => t,
        Err(e) => {
            return Err(e);
        },
    };
    let session = Session::new(user.username.clone(), tokens.refresh_token.clone(), now);
    store.insert(session);
    Ok(tokens)
}

/// What a registration promises: on success a fresh account with the "user"
/// role is stored under the submitted username, its hash verifying the
/// submitted password; rejected submissions and taken usernames change
/// nothing.
pub open spec fn registration_post(
    pre: Map<Seq<char>, UserView>,
    post: Map<Seq<char>, UserView>,
    username: Seq<char>,
    password: Seq<char>,
    now: int,
    r: Result<String, AuthError>,
) -> bool {
    &&& (r matches Ok(id) ==> exists|uv: UserView|
        {
            &&& post == #[trigger] pre.insert(username, uv)
            &&& !pre.contains_key(username)
            &&& uv.username == username
            &&& uv.role == "user"@
            &&& uv.id == id@
            &&& argon_check(uv.hash, password) == Some(true)
            &&& uv.created_at == now
            &&& uv.updated_at == now
        })
    &&& (r is Ok <==> crate::users::spec_valid_username(username)
        && crate::users::spec_valid_password(password) && !pre.contains_key(username))
    &&& (r matches Err(e) ==> post == pre && spec_unprocessable(e))
}

/// Registers a new account: validates the submission, hashes the password
/// with a fresh salt, and stores the account under the "user" role.
pub fn registration(users: &mut UserStore, nu: &NewUser, now: i64) -> (r: Result<
    String,
    AuthError,
>)
    requires
        old(users).wf(),
    ensures
        final(users).wf(),
        registration_post(old(users)@, final(users)@, nu.username@, nu.password@, now as int, r),
{
    proof {
        reveal_strlit("user");
    }
    match nu.validate() {
        Ok(_) => (),
        Err(e) => {
            return Err(e);
        },
    };
    let mut user = User::from_new(nu, now);
    match user.password_hashing() {
        Ok(_) => (),
        Err(e) => {
            return Err(e);
        },
    };
    let id = user.id.clone();
    let ghost uv = user@;
    match users.create(user) {
        Ok(_) => {
            proof {
                assert(final(users)@ == #[trigger] old(users)@.insert(nu.username@, uv));
            }
            Ok(id)
        },
        Err(e) => Err(e),
    }
}

/// Changing a password: the new one must differ, the old one must verify,
/// and then only the stored hash and update instant change.
pub open spec fn change_password_post(
    pre: Map<Seq<char>, UserView>,
    post: Map<Seq<char>, UserView>,
    username: Seq<char>,
    old_password: Seq<char>,
    new_password: Seq<char>,
    now: int,
    r: Result<(), AuthError>,
) -> bool {
    &&& (r is Ok ==> pre.contains_key(username) && argon_check(pre[username].hash, old_password)
        == Some(true) && old_password != new_password && exists|h: Seq<char>|
        #[trigger] argon_check(h, new_password) == Some(true) && post == pre.insert(
            username,
            UserView { hash: h, updated_at: now, ..pre[username] },
        ))
    &&& (r matches Err(e) ==> post == pre)
    &&& (old_password == new_password ==> (r matches Err(e) && spec_unprocessable(e)))
    &&& (r matches Err(e) && spec_unprocessable(e) ==> old_password == new_password)
    &&& (r matches Err(e) && spec_not_found(e, "user"@) ==> !pre.contains_key(username)
        || argon_check(pre[username].hash, old_password) == Some(false))
    &&& (old_password != new_password && (!pre.contains_key(username) || argon_check(
        pre[username].hash,
        old_password,
    ) == Some(false)) ==> (r matches Err(e) && spec_not_found(e, "user"@)))
    &&& (r matches Err(e) && spec_internal(e) ==> pre.contains_key(username) && (argon_check(
        pre[username].hash,
        old_password,
    ) is None || new_password.len() > 0xFFFF_FFFF))
    &&& (old_password != new_password && pre.contains_key(username) && argon_check(
        pre[username].hash,
        old_password,
    ) == Some(true) && new_password.len() <= 0xFFFF_FFFF ==> r is Ok)
    &&& (r matches Err(e) ==> spec_unprocessable(e) || spec_not_found(e, "user"@)
        || spec_internal(e))
}

/// Replaces an account's password after checking the old one.
pub fn change_password(
    users: &mut UserStore,
    username: &str,
    old_password: &str,
    new_password: &str,
    now: i64,
) -> (r: Result<(), AuthError>)
    requires
        old(users).wf(),
    ensures
        final(users).wf(),
        change_password_post(
            old(users)@,
            final(users)@,
            username@,
            old_password@,
            new_password@,
            now as int,
            r,
        ),
{
    let old_owned = old_password.to_owned();
    let new_owned = new_password.to_owned();
    if old_owned.eq(&new_owned) {
        return Err(
            AuthError::Unprocessable(
                String::from_str("the new password must be different from the old one"),
            ),
        );
    }
    let user = match users.get_by_username(username) {
        Ok(u) => u,
        Err(e) => {
            return Err(e);
        },
    };
    let verified = match user.password_verify(old_password) {
        Ok(b) => b,
        Err(e) => {
            return Err(e);
        },
    };
    if !verified {
        return Err(AuthError::NotFound(String::from_str("user")));
    }
    let hash = match User::password_hashing_apart(new_password) {
        Ok(h) => h,
        Err(e) => {
            return Err(e);
        },
    };
    match users.update_password(username, hash, now) {
        Ok(_) => Ok(()),
        Err(_) => Err(AuthError::Internal(String::from_str("failed to update password"))),
    }
}

/// Deletes an account outright; an unknown username answers NotFound.
pub fn delete_account(users: &mut UserStore, username: &str) -> (r: Result<(), AuthError>)
    requires
        old(users).wf(),
    ensures
        final(users).wf(),
        r is Ok <==> old(users)@.contains_key(username@),
        r is Ok ==> final(users)@ == old(users)@.remove(username@),
        r matches Err(e) ==> final(users)@ == old(users)@ && spec_not_found(e, "user"@),
{
    let deleted = users.del_by_username(username);
    if deleted < 1 {
        proof {
            assert(final(users)@ =~= old(users)@);
        }
        Err(AuthError::NotFound(String::from_str("user")))
    } else {
        Ok(())
    }
}

/// Raising or lowering an account's role: admins may not change their own,
/// only the two known levels are accepted, and then only the role and
/// update instant change.
pub open spec fn privilege_post(
    pre: Map<Seq<char>, UserView>,
    post: Map<Seq<char>, UserView>,
    caller: Seq<char>,
    username: Seq<char>,
    level: Seq<char>,
    now: int,
    r: Result<(), AuthError>,
) -> bool {
    &&& (r is Ok <==> caller != username && (level == "user"@ || level == "admin"@)
        && pre.contains_key(username))
    &&& (r is Ok ==> post == pre.insert(
        username,
        UserView { role: level, updated_at: now, ..pre[username] },
    ))
    &&& (r matches Err(e) ==> post == pre)
    &&& (caller == username ==> (r matches Err(e) && spec_unprocessable(e)))
    &&& (caller != username && !(level == "user"@ || level == "admin"@) ==> (r matches Err(e)
        && spec_unprocessable(e)))
    &&& (caller != username && (level == "user"@ || level == "admin"@) && !pre.contains_key(
        username,
    ) ==> (r matches Err(e) && spec_not_found(e, "user"@)))
    &&& (r matches Err(e) ==> spec_unprocessable(e) || spec_not_found(e, "user"@))
}

/// Sets an account's role to one of the known levels.
pub fn privilege(
    users: &mut UserStore,
    caller_username: &str,
    username: &str,
    level: &str,
    now: i64,
) -> (r: Result<(), AuthError>)
    requires
        old(users).wf(),
    ensures
        final(users).wf(),
        privilege_post(
            old(users)@,
            final(users)@,
            caller_username@,
            username@,
            level@,
            now as int,
            r,
        ),
{
    proof {
        reveal_strlit("user");
        reveal_strlit("admin");
    }
    let caller_owned = caller_username.to_owned();
    let user_owned = username.to_owned();
    if caller_owned.eq(&user_owned) {
        return Err(AuthError::Unprocessable(String::from_str("you can't change your role")));
    }
    let level_owned = level.to_owned();
    let level_user = String::from_str("user");
    let level_admin = String::from_str("admin");
    if !(level_owned.eq(&level_user) || level_owned.eq(&level_admin)) {
        return Err(AuthError::Unprocessable(String::from_str("unknown privilege level")));
    }
    match users.privilege_set(username, level_owned, now) {
        Ok(_) => Ok(()),
        Err(e) => Err(e),
    }
}

/// Fetches an account and every live session it owns.
pub fn account(users: &UserStore, store: &SessionStore, username: &str) -> (r: Result<
    (User, Vec<Session>),
    AuthError,
>)
    requires
        users.wf(),
        store.wf(),
    ensures
        r matches Ok(p) ==> users@.contains_key(username@) && p.0@ == users@[username@]
            && crate::session::lists_user_sessions(store@, username@, p.1@),
        r matches Err(e) ==> !users@.contains_key(username@) && spec_not_found(e, "user"@),
{
    let user = match users.get_by_username(username) {
        Ok(u) => u,
        Err(e) => {
            return Err(e);
        },
    };
    let sessions = store.list_by_username(username);
    Ok((user, sessions))
}

/// Law: minting and decoding agree. A pair minted for a user decodes, while
/// its access expiry has not lapsed, to access claims carrying exactly that
/// username and role and an expiry fifteen minutes from the minting
/// instant.
pub proof fn lemma_mint_then_decode(
    tv: TokensView,
    username: Seq<char>,
    role: Seq<char>,
    now: int,
    secret: Seq<char>,
    r: Result<AccessClaims, AuthError>,
)
    requires
        minted(tv, username, role, now, secret),
        crate::jwt::access_decode_post(tv.access_token, secret, r),
    ensures
        (r matches Ok(c) && c@.username == username && c@.role == role && c@.exp == now
            + ACCESS_TTL_SECS) || (r matches Err(e) && spec_token_expired(e)),
{
    let (acv, rcv) = choose|acv: AccessClaimsView, rcv: RefreshClaimsView|
        #[trigger] minted_with(tv, acv, rcv, username, role, now, secret);
    assert(wf_access(acv) && jwt_check(tv.access_token, secret) == Some(
        (spec_access_data(acv), acv.exp),
    ));
}

/// Law: a refresh token never persisted as a session is refused with
/// NotFound("token") — decoding alone grants nothing. Only a wall-clock
/// expiry, which also refuses the exchange, can pre-empt that answer.
pub proof fn lemma_refresh_unknown_token(
    users: Map<Seq<char>, UserView>,
    pre: Map<Seq<char>, SessionView>,
    post: Map<Seq<char>, SessionView>,
    token: Seq<char>,
    secret: Seq<char>,
    now: int,
    rv: RefreshClaimsView,
    r: Result<Tokens, AuthError>,
)
    requires
        refresh_post(users, pre, post, token, secret, now, r),
        decoded_refresh(token, secret, rv),
        now < rv.refresh_exp,
        !pre.contains_key(token),
    ensures
        r matches Err(e) && (spec_not_found(e, "token"@) || spec_token_expired(e)),
        post == pre,
{
}

/// Law: a successful revocation leaves no session under the token; any
/// later lookup of it comes back empty.
pub proof fn lemma_revoke_removes(
    pre: Map<Seq<char>, SessionView>,
    post: Map<Seq<char>, SessionView>,
    token: Seq<char>,
    secret: Seq<char>,
    r: Result<(), AuthError>,
)
    requires
        revoke_post(pre, post, token, secret, r),
        r is Ok,
    ensures
        pre.contains_key(token),
        !post.contains_key(token),
{
}

/// Law: refresh is single-use. After one successful exchange of a token
/// whose replacement token differs from it, a second attempt with the same
/// token is refused with NotFound("token"), or with the expiry rejection if
/// the wall clock lapsed it meanwhile — never honoured.
pub proof fn lemma_refresh_single_use(
    users: Map<Seq<char>, UserView>,
    pre: Map<Seq<char>, SessionView>,
    mid: Map<Seq<char>, SessionView>,
    post: Map<Seq<char>, SessionView>,
    token: Seq<char>,
    secret: Seq<char>,
    now1: int,
    now2: int,
    t: Tokens,
    r1: Result<Tokens, AuthError>,
    r2: Result<Tokens, AuthError>,
)
    requires
        refresh_post(users, pre, mid, token, secret, now1, r1),
        refresh_post(users, mid, post, token, secret, now2, r2),
        r1 matches Ok(t0) && t0@ == t@,
        t@.refresh_token != token,
    ensures
        r2 matches Err(e) && (spec_not_found(e, "token"@) || spec_token_expired(e)),
        post == mid,
{
    let rv = choose|rv: RefreshClaimsView|
        {
            &&& #[trigger] decoded_refresh(token, secret, rv)
            &&& now1 < rv.refresh_exp
            &&& pre.contains_key(token)
            &&& users.contains_key(rv.username)
            &&& minted(t@, rv.username, users[rv.username].role, now1, secret)
            &&& mid == pre.remove(token).insert(
                t@.refresh_token,
                spec_new_session(rv.username, t@.refresh_token, now1),
            )
        };
    assert(!mid.contains_key(token));
    if now2 >= rv.refresh_exp {
    } else {
    }
}

} // verus!
