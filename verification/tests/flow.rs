use authcore::content::{default_tags, Flags, Tail};
use authcore::errors::AuthError;
use authcore::guard::authenticate;
use authcore::service::{
    account, change_password, delete_account, login, privilege, refresh_token, revoke, Tokens,
};
use authcore::session::SessionStore;
use authcore::users::{NewUser, UserStore};

const SECRET: &str = "unit-test-signing-secret";

fn now() -> i64 {
    chrono::Utc::now().timestamp()
}

#[test]
fn register_login_account_refresh_logout_end_to_end() {
    let mut users = UserStore::new();
    let mut sessions = SessionStore::new();
    let nu = NewUser {
        username: String::from("alice"),
        password: String::from("password1"),
    };

    // register
    let id = authcore::service::registration(&mut users, &nu, now()).unwrap();
    assert!(!id.is_empty());

    // login returns a pair and records its session
    let tokens: Tokens = login(&users, &mut sessions, &nu, SECRET, now()).unwrap();

    // a protected fetch with the access token succeeds and names alice
    let header = format!("Bearer {}", tokens.access_token);
    let identity = authenticate(Some(&header), SECRET).unwrap();
    assert_eq!(identity.username, "alice");
    let (user, my_sessions) = account(&users, &sessions, &identity.get_username()).unwrap();
    assert_eq!(user.username, "alice");
    assert_eq!(user.role, "user");
    assert_eq!(my_sessions.len(), 1);

    // refresh rotates the pair and invalidates the old refresh token
    let new_pair = refresh_token(&users, &mut sessions, &tokens.refresh_token, SECRET, now())
        .unwrap();
    let replay = refresh_token(&users, &mut sessions, &tokens.refresh_token, SECRET, now());
    assert!(matches!(replay, Err(AuthError::NotFound(m)) if m == "token"));

    // logout with the new refresh token succeeds
    assert!(revoke(&mut sessions, &new_pair.refresh_token, SECRET).is_ok());

    // the revoked token cannot be exchanged again
    let after_logout =
        refresh_token(&users, &mut sessions, &new_pair.refresh_token, SECRET, now());
    assert!(matches!(after_logout, Err(AuthError::NotFound(m)) if m == "token"));
}

#[test]
fn registration_rejects_taken_username() {
    let mut users = UserStore::new();
    let nu = NewUser {
        username: String::from("alice"),
        password: String::from("password1"),
    };
    authcore::service::registration(&mut users, &nu, now()).unwrap();
    let again = authcore::service::registration(&mut users, &nu, now());
    assert!(matches!(again, Err(AuthError::Unprocessable(_))));
}

#[test]
fn login_rejects_wrong_password_and_unknown_user() {
    let mut users = UserStore::new();
    let mut sessions = SessionStore::new();
    let nu = NewUser {
        username: String::from("alice"),
        password: String::from("password1"),
    };
    authcore::service::registration(&mut users, &nu, now()).unwrap();

    let wrong = NewUser {
        username: String::from("alice"),
        password: String::from("password2"),
    };
    let r = login(&users, &mut sessions, &wrong, SECRET, now());
    assert!(matches!(r, Err(AuthError::NotFound(m)) if m == "user"));

    let unknown = NewUser {
        username: String::from("nosuch"),
        password: String::from("password1"),
    };
    let r2 = login(&users, &mut sessions, &unknown, SECRET, now());
    assert!(matches!(r2, Err(AuthError::NotFound(m)) if m == "user"));
}

#[test]
fn change_password_flow() {
    let mut users = UserStore::new();
    let nu = NewUser {
        username: String::from("alice"),
        password: String::from("password1"),
    };
    authcore::service::registration(&mut users, &nu, now()).unwrap();

    let same = change_password(&mut users, "alice", "password1", "password1", now());
    assert!(matches!(same, Err(AuthError::Unprocessable(_))));

    let bad_old = change_password(&mut users, "alice", "password9", "password2", now());
    assert!(matches!(bad_old, Err(AuthError::NotFound(m)) if m == "user"));

    change_password(&mut users, "alice", "password1", "password2", now()).unwrap();
    let user = users.get_by_username("alice").unwrap();
    assert!(user.password_verify("password2").unwrap());
    assert!(!user.password_verify("password1").unwrap());
}

#[test]
fn privilege_and_delete_flows() {
    let mut users = UserStore::new();
    let nu = NewUser {
        username: String::from("alice"),
        password: String::from("password1"),
    };
    authcore::service::registration(&mut users, &nu, now()).unwrap();

    let own = privilege(&mut users, "alice", "alice", "admin", now());
    assert!(matches!(own, Err(AuthError::Unprocessable(_))));

    let bad_level = privilege(&mut users, "root", "alice", "emperor", now());
    assert!(matches!(bad_level, Err(AuthError::Unprocessable(_))));

    let missing = privilege(&mut users, "root", "nosuch", "admin", now());
    assert!(matches!(missing, Err(AuthError::NotFound(m)) if m == "user"));

    privilege(&mut users, "root", "alice", "admin", now()).unwrap();
    assert_eq!(users.get_by_username("alice").unwrap().role, "admin");

    let gone = delete_account(&mut users, "nosuch");
    assert!(matches!(gone, Err(AuthError::NotFound(m)) if m == "user"));
    delete_account(&mut users, "alice").unwrap();
    assert!(users.get_by_username("alice").is_err());
}

#[test]
fn clock_reads_a_mintable_instant() {
    let t = authcore::service::current_time().unwrap();
    assert!(t > 1_500_000_000);
}

#[test]
fn flags_toggle_and_default() {
    let mut flags = Flags::default();
    assert!(!flags.religious && !flags.political && !flags.racist && !flags.sexist);
    let snap = flags.religious_coup();
    assert!(snap.religious && flags.religious);
    flags.political_coup();
    flags.racist_coup();
    flags.sexist_coup();
    assert!(flags.political && flags.racist && flags.sexist);
    flags.religious_coup();
    assert!(!flags.religious);
    let built = Flags::new(true, false, true, false);
    assert!(built.religious && !built.political && built.racist && !built.sexist);
}

#[test]
fn tail_keeps_its_fields() {
    let tags = vec![String::from("general"), String::from("dry")];
    let tail = Tail::new(
        Flags::default(),
        &String::from("en"),
        String::from("alice"),
        &tags,
    );
    assert_eq!(tail.lang, "en");
    assert_eq!(tail.author, "alice");
    assert_eq!(tail.tags, tags);
    assert_eq!(default_tags(), vec![String::from("general")]);
}
