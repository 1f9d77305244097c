use recurio::auth::{authenticate, login_with_password, AuthContext, LoginError};
use recurio::domain::user::{Password, PasswordHash, User, UserId, UserRole};
use recurio::identity::{IdentityBackend, MemoryUsers};
use recurio::routes::auth::{register, LoginInput, RegisterError, RegisterInput};
use recurio::session_store::{MemoryStore, SessionBackend};

const NOW: i64 = 1_700_000_000;

#[test]
fn verifying_a_fresh_hash_succeeds() {
    let password = Password::parse("correct horse battery staple").unwrap();
    let user = User::new("alice", password).unwrap();
    assert!(user.verify_password("correct horse battery staple"));
}

#[test]
fn verifying_a_wrong_password_fails() {
    let password = Password::parse("correct horse battery staple").unwrap();
    let user = User::new("alice", password).unwrap();
    assert!(!user.verify_password("correct horse battery stable"));
    assert!(!user.verify_password(""));
}

#[test]
fn hash_is_portable_across_restarts() {
    // Emulate a restart: only the encoded hash string survives, and a
    // new identity object is rebuilt around it.
    let password = Password::parse("hunter2!").unwrap();
    let original = User::new("bob", password).unwrap();
    let stored_hash = original.get_password_hash();

    let rebuilt = User {
        id: UserId(42),
        password_hash: PasswordHash::from(stored_hash),
        role: UserRole::User,
        login: "bob".to_string(),
        updated_at: NOW,
        created_at: NOW,
    };
    assert!(rebuilt.verify_password("hunter2!"));
    assert!(!rebuilt.verify_password("hunter3!"));
}

#[test]
fn hash_is_not_the_plaintext() {
    let password = Password::parse("plain").unwrap();
    let hash = password.hash().unwrap();
    assert_ne!(hash.as_str(), "plain");
    assert!(hash.as_str().starts_with('$'));
}

#[test]
fn malformed_stored_hash_verifies_as_false() {
    let user = User {
        id: UserId(7),
        password_hash: PasswordHash::from("not a phc string".to_string()),
        role: UserRole::User,
        login: "mallory".to_string(),
        updated_at: NOW,
        created_at: NOW,
    };
    assert!(!user.verify_password("anything"));
}

#[test]
fn roles_round_trip_through_their_stored_text() {
    assert_eq!(UserRole::from("user".to_string()), UserRole::User);
    assert_eq!(UserRole::from("admin".to_string()), UserRole::Admin);
    assert_eq!(UserRole::User.as_str(), "user");
    assert_eq!(UserRole::Admin.as_str(), "admin");
}

#[test]
fn registering_then_authenticating_binds_the_identity() {
    let mut store = MemoryStore::new();
    let mut users = MemoryUsers::new();
    let mut ctx = AuthContext::anonymous();

    let input = RegisterInput { login: "carol".to_string(), password: "s3cret".to_string() };
    let (user, cookie) = register(&mut ctx, &mut store, &mut users, input).unwrap();
    assert_eq!(user.login, "carol");
    assert_eq!(user.role, UserRole::User);
    let cookie = cookie.expect("a fresh session must hand back a cookie value");

    let bound = authenticate(&store, &users, Some(&cookie), NOW).unwrap();
    let current = bound.current_user.expect("the cookie should bind the registered identity");
    assert_eq!(current.login, "carol");
    assert_eq!(current.id.0, user.id.0);
}

#[test]
fn registering_a_taken_login_conflicts() {
    let mut store = MemoryStore::new();
    let mut users = MemoryUsers::new();
    let mut ctx = AuthContext::anonymous();

    let input = RegisterInput { login: "dave".to_string(), password: "one".to_string() };
    register(&mut ctx, &mut store, &mut users, input).unwrap();

    let mut ctx2 = AuthContext::anonymous();
    let input = RegisterInput { login: "dave".to_string(), password: "two".to_string() };
    let err = register(&mut ctx2, &mut store, &mut users, input).unwrap_err();
    assert_eq!(err, RegisterError::Conflict);
}

#[test]
fn login_rejects_unknown_login_and_wrong_password() {
    let mut store = MemoryStore::new();
    let mut users = MemoryUsers::new();
    let mut ctx = AuthContext::anonymous();

    let input = RegisterInput { login: "erin".to_string(), password: "opensesame".to_string() };
    register(&mut ctx, &mut store, &mut users, input).unwrap();

    let mut ctx2 = AuthContext::anonymous();
    let attempt = LoginInput { login: "nobody".to_string(), password: "x".to_string() };
    let err = login_with_password(&mut ctx2, &mut store, &users, &attempt).unwrap_err();
    assert_eq!(err, LoginError::UnknownLogin);

    let attempt = LoginInput { login: "erin".to_string(), password: "wrong".to_string() };
    let err = login_with_password(&mut ctx2, &mut store, &users, &attempt).unwrap_err();
    assert_eq!(err, LoginError::WrongPassword);

    let attempt = LoginInput { login: "erin".to_string(), password: "opensesame".to_string() };
    let (user, _cookie) = login_with_password(&mut ctx2, &mut store, &users, &attempt).unwrap();
    assert_eq!(user.login, "erin");
    assert!(ctx2.current_user.is_some());
}

#[test]
fn refused_login_mutates_nothing() {
    let mut store = MemoryStore::new();
    let mut users = MemoryUsers::new();
    let mut ctx = AuthContext::anonymous();

    let input = RegisterInput { login: "ivan".to_string(), password: "right".to_string() };
    register(&mut ctx, &mut store, &mut users, input).unwrap();
    let rows_before = store.count().unwrap();

    let mut ctx2 = AuthContext::anonymous();
    let session_id_before = ctx2.session.id().to_string();

    let attempt = LoginInput { login: "nobody".to_string(), password: "x".to_string() };
    assert!(login_with_password(&mut ctx2, &mut store, &users, &attempt).is_err());
    let attempt = LoginInput { login: "ivan".to_string(), password: "wrong".to_string() };
    assert!(login_with_password(&mut ctx2, &mut store, &users, &attempt).is_err());

    // Neither refusal touched the store or the request's context.
    assert_eq!(rows_before, store.count().unwrap());
    assert_eq!(session_id_before, ctx2.session.id());
    assert!(ctx2.current_user.is_none());
}

#[test]
fn new_identity_has_one_creation_instant() {
    let password = Password::parse("pw").unwrap();
    let user = User::new("judy", password).unwrap();
    assert_eq!(user.created_at, user.updated_at);
}

#[test]
fn logout_unbinds_but_keeps_the_session() {
    let mut store = MemoryStore::new();
    let mut users = MemoryUsers::new();
    let mut ctx = AuthContext::anonymous();

    let input = RegisterInput { login: "frank".to_string(), password: "pw".to_string() };
    let (_user, cookie) = register(&mut ctx, &mut store, &mut users, input).unwrap();
    let cookie = cookie.unwrap();

    ctx.logout(&mut store).unwrap();
    assert!(ctx.current_user.is_none());

    let bound = authenticate(&store, &users, Some(&cookie), NOW).unwrap();
    assert!(bound.current_user.is_none());
    assert_eq!(1, store.count().unwrap());
}

#[test]
fn missing_steps_yield_anonymous() {
    let store = MemoryStore::new();
    let users = MemoryUsers::new();

    // No cookie at all.
    let ctx = authenticate(&store, &users, None, NOW).unwrap();
    assert!(ctx.current_user.is_none());

    // A malformed cookie fails closed into an anonymous context.
    let ctx = authenticate(&store, &users, Some("garbage"), NOW).unwrap();
    assert!(ctx.current_user.is_none());

    // A well-formed cookie for an absent session.
    let id = recurio::cookie::generate_session_id();
    let cookie = recurio::cookie::encode_cookie(&id);
    let ctx = authenticate(&store, &users, Some(&cookie), NOW).unwrap();
    assert!(ctx.current_user.is_none());
}

#[test]
fn deleted_identity_degrades_to_anonymous() {
    let mut store = MemoryStore::new();
    let mut users = MemoryUsers::new();
    let mut ctx = AuthContext::anonymous();

    let input = RegisterInput { login: "grace".to_string(), password: "pw".to_string() };
    let (_user, cookie) = register(&mut ctx, &mut store, &mut users, input).unwrap();
    let cookie = cookie.unwrap();

    // The identity disappears while the session lives on.
    let emptied = MemoryUsers::new();
    let bound = authenticate(&store, &emptied, Some(&cookie), NOW).unwrap();
    assert!(bound.current_user.is_none());
}

#[test]
fn lookup_by_id_and_login_resolve_the_same_identity() {
    let mut users = MemoryUsers::new();
    let password = Password::parse("pw").unwrap();
    let user = User::new("heidi", password).unwrap();
    let id = user.id.0;
    users.insert_user(user).unwrap();

    let by_login = users.by_login("heidi").unwrap().unwrap();
    assert_eq!(by_login.id.0, id);
    let by_id = users.by_id(id).unwrap().unwrap();
    assert_eq!(by_id.login, "heidi");
    assert!(users.by_id(id.wrapping_add(1)).unwrap().is_none());
    assert!(users.by_login("нeidi").unwrap().is_none());
}
