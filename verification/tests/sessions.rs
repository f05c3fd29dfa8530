use authcore::errors::{AuthError, UnauthorizedKind};
use authcore::service::{refresh_token, revoke, Tokens};
use authcore::session::{Session, SessionStore};
use authcore::users::{NewUser, User, UserStore};

const SECRET: &str = "unit-test-signing-secret";

fn now() -> i64 {
    chrono::Utc::now().timestamp()
}

fn store_with_alice() -> UserStore {
    let mut users = UserStore::new();
    let mut user = User {
        id: String::from("id-alice"),
        username: String::from("alice"),
        role: String::from("user"),
        hash: String::from("password1"),
        created_at: now(),
        updated_at: now(),
    };
    user.password_hashing().unwrap();
    users.create(user).unwrap();
    users
}

#[test]
fn store_insert_find_delete() {
    let mut store = SessionStore::new();
    assert_eq!(store.len(), 0);
    store.insert(Session::new(
        String::from("alice"),
        String::from("tok-1"),
        now(),
    ));
    assert_eq!(store.len(), 1);
    let found = store.find_by_token("tok-1").unwrap();
    assert_eq!(found.username, "alice");
    assert!(store.find_by_token("tok-2").is_none());
    assert_eq!(store.delete_by_token("tok-2"), 0);
    assert_eq!(store.delete_by_token("tok-1"), 1);
    assert!(store.find_by_token("tok-1").is_none());
    assert_eq!(store.len(), 0);
}

#[test]
fn store_insert_replaces_same_token() {
    let mut store = SessionStore::new();
    store.insert(Session::new(String::from("alice"), String::from("t"), 1));
    store.insert(Session::new(String::from("bob"), String::from("t"), 2));
    assert_eq!(store.len(), 1);
    assert_eq!(store.find_by_token("t").unwrap().username, "bob");
}

#[test]
fn store_lists_by_username() {
    let mut store = SessionStore::new();
    store.insert(Session::new(String::from("alice"), String::from("t1"), 1));
    store.insert(Session::new(String::from("bob"), String::from("t2"), 2));
    store.insert(Session::new(String::from("alice"), String::from("t3"), 3));
    let mine = store.list_by_username("alice");
    assert_eq!(mine.len(), 2);
    assert!(mine.iter().all(|s| s.username == "alice"));
    assert!(store.list_by_username("carol").is_empty());
}

#[test]
fn refresh_of_unpersisted_token_fails_not_found() {
    let users = store_with_alice();
    let mut sessions = SessionStore::new();
    let tokens = Tokens::new("alice", "user", SECRET, now()).unwrap();
    // the pair was minted but its session never recorded
    let r = refresh_token(&users, &mut sessions, &tokens.refresh_token, SECRET, now());
    assert!(matches!(r, Err(AuthError::NotFound(m)) if m == "token"));
}

#[test]
fn refresh_replay_fails_not_found() {
    let users = store_with_alice();
    let mut sessions = SessionStore::new();
    let t0 = now();
    let tokens = Tokens::new("alice", "user", SECRET, t0).unwrap();
    sessions.insert(Session::new(
        String::from("alice"),
        tokens.refresh_token.clone(),
        t0,
    ));
    let first = refresh_token(&users, &mut sessions, &tokens.refresh_token, SECRET, now());
    let new_pair = first.unwrap();
    assert_ne!(new_pair.refresh_token, tokens.refresh_token);
    let second = refresh_token(&users, &mut sessions, &tokens.refresh_token, SECRET, now());
    assert!(matches!(second, Err(AuthError::NotFound(m)) if m == "token"));
}

#[test]
fn refresh_of_unknown_user_fails_not_found_user() {
    let users = UserStore::new();
    let mut sessions = SessionStore::new();
    let t0 = now();
    let tokens = Tokens::new("ghost", "user", SECRET, t0).unwrap();
    sessions.insert(Session::new(
        String::from("ghost"),
        tokens.refresh_token.clone(),
        t0,
    ));
    let r = refresh_token(&users, &mut sessions, &tokens.refresh_token, SECRET, now());
    assert!(matches!(r, Err(AuthError::NotFound(m)) if m == "user"));
    // single-use enforcement already removed the session
    assert!(sessions.find_by_token(&tokens.refresh_token).is_none());
}

#[test]
fn refresh_with_lapsed_embedded_expiry_fails_expired() {
    let users = store_with_alice();
    let mut sessions = SessionStore::new();
    let t0 = now();
    let tokens = Tokens::new("alice", "user", SECRET, t0).unwrap();
    sessions.insert(Session::new(
        String::from("alice"),
        tokens.refresh_token.clone(),
        t0,
    ));
    // pretend the exchange happens after the embedded refresh expiry
    let far_future = t0 + authcore::claims::REFRESH_TTL_SECS;
    let r = refresh_token(&users, &mut sessions, &tokens.refresh_token, SECRET, far_future);
    assert!(matches!(
        r,
        Err(AuthError::Unauthorized(UnauthorizedKind::TokenExpired))
    ));
}

#[test]
fn revoke_without_session_fails_token_not_found() {
    let mut sessions = SessionStore::new();
    let tokens = Tokens::new("alice", "user", SECRET, now()).unwrap();
    let r = revoke(&mut sessions, &tokens.refresh_token, SECRET);
    assert!(matches!(
        r,
        Err(AuthError::Unauthorized(UnauthorizedKind::Generic(m))) if m == "token not found"
    ));
}

#[test]
fn revoke_with_session_succeeds_and_removes_it() {
    let mut sessions = SessionStore::new();
    let t0 = now();
    let tokens = Tokens::new("alice", "user", SECRET, t0).unwrap();
    sessions.insert(Session::new(
        String::from("alice"),
        tokens.refresh_token.clone(),
        t0,
    ));
    assert!(revoke(&mut sessions, &tokens.refresh_token, SECRET).is_ok());
    assert!(sessions.find_by_token(&tokens.refresh_token).is_none());
}

#[test]
fn revoke_of_garbage_token_fails_generic() {
    let mut sessions = SessionStore::new();
    let r = revoke(&mut sessions, "not-a-token", SECRET);
    assert!(matches!(
        r,
        Err(AuthError::Unauthorized(UnauthorizedKind::Generic(m))) if m == "failed to decode token"
    ));
}

#[test]
fn new_user_validation_accepts_and_rejects() {
    let good = NewUser {
        username: String::from("alice"),
        password: String::from("password1"),
    };
    assert!(good.validate().is_ok());
    let short_name = NewUser {
        username: String::from("al"),
        password: String::from("password1"),
    };
    assert!(matches!(short_name.validate(), Err(AuthError::Unprocessable(_))));
    let long_name = NewUser {
        username: String::from("averylongusername"),
        password: String::from("password1"),
    };
    assert!(matches!(long_name.validate(), Err(AuthError::Unprocessable(_))));
    let short_pw = NewUser {
        username: String::from("alice"),
        password: String::from("pw"),
    };
    assert!(matches!(short_pw.validate(), Err(AuthError::Unprocessable(_))));
    let odd_chars = NewUser {
        username: String::from("al ice"),
        password: String::from("password1"),
    };
    assert!(matches!(odd_chars.validate(), Err(AuthError::Unprocessable(_))));
}

#[test]
fn password_verify_accepts_only_the_right_password() {
    let mut user = User {
        id: String::from("id"),
        username: String::from("dave"),
        role: String::from("user"),
        hash: String::from("hunter2hunter2"),
        created_at: 0,
        updated_at: 0,
    };
    let hashed = user.password_hashing().unwrap();
    assert_ne!(hashed.hash, "hunter2hunter2");
    assert!(user.password_verify("hunter2hunter2").unwrap());
    assert!(!user.password_verify("wrongpassword").unwrap());
}
