use docstore::auth::{login, register, AuthError, AuthorizeRequest, AuthorizeResponse, Claims, RegisterRequest};
use docstore::digest::file_hash;
use docstore::models::role::Role;
use docstore::repositories::permission::PermissionRepository;
use docstore::repositories::users::{hash_password, UsersRepository};
use docstore::repositories::RepoError;
use uuid::Uuid;

#[test]
fn hashing() {
    let user_id = Uuid::parse_str("81721217-8f19-4c3b-8b25-a2af68875018").unwrap();
    let password = "admin";
    let salt = Uuid::parse_str("8ce53b43-a248-4abf-a76e-d79d21a820cf").unwrap();
    let hashed = hash_password(&user_id.as_u128(), password, &salt.as_u128());
    println!("Hash: `{}`", hashed);
}

#[test]
fn a_password_hash_is_the_digest_of_id_password_and_salt() {
    let user_id = Uuid::parse_str("81721217-8f19-4c3b-8b25-a2af68875018").unwrap();
    let salt = Uuid::parse_str("8ce53b43-a248-4abf-a76e-d79d21a820cf").unwrap();
    assert_eq!(
        hash_password(&user_id.as_u128(), "admin", &salt.as_u128()),
        "34a5da8d86e760f40fdad550e0f3713952b96a63f78b618b56beb5df3049f4e7"
    );
    assert_eq!(
        hash_password(&1, "pä", &2),
        "6bf85979244c05626003a86459bea56e4cfe0cd08f79e579355247695fc09f31"
    );
    assert_ne!(hash_password(&1, "admin", &2), hash_password(&2, "admin", &1));
    assert_eq!(hash_password(&1, "", &2).len(), 64);
}

#[test]
fn a_file_hash_is_the_lowercase_hexadecimal_digest() {
    assert_eq!(
        file_hash(b"hello"),
        "2cf24dba5fb0a30e26e83b2ac5b9e29e1b161e5c1fa7425e73043362938b9824"
    );
    assert_eq!(
        file_hash(b""),
        "e3b0c44298fc1c149afbf4c8996fb92427ae41e4649b934ca495991b7852b855"
    );
}

#[test]
fn a_registered_user_is_verified_by_the_password() {
    let mut users = UsersRepository::new();
    let alice = users.create_user_with(10, 11, "alice".to_string(), "secret".to_string()).unwrap();
    assert_eq!(alice.user_id, 10);
    assert_eq!(alice.salt, 11);
    assert_eq!(alice.username, "alice");
    assert_eq!(alice.password_hash, hash_password(&10, "secret", &11));
    let found = users.verify("alice", "secret").unwrap().unwrap();
    assert_eq!(found.user_id, 10);
    assert!(users.verify("alice", "wrong").unwrap().is_none());
    assert!(matches!(users.verify("bob", "secret"), Err(RepoError::NotFound)));
}

#[test]
fn a_user_name_is_taken_once() {
    let mut users = UsersRepository::new();
    users.create_user_with(10, 11, "alice".to_string(), "secret".to_string()).unwrap();
    let again = users.create_user_with(12, 13, "alice".to_string(), "other".to_string());
    assert!(matches!(again, Err(RepoError::UniqueConflict)));
    let same_id = users.create_user_with(10, 13, "bob".to_string(), "other".to_string());
    assert!(matches!(same_id, Err(RepoError::StoreFailure)));
    assert_eq!(users.len(), 1);
    let fresh = users.create_user("carol".to_string(), "pw".to_string()).unwrap();
    assert_eq!(fresh.password_hash, hash_password(&fresh.user_id, "pw", &fresh.salt));
    assert_ne!(fresh.user_id, fresh.salt);
    assert_eq!(users.len(), 2);
}

#[test]
fn a_login_is_good_for_a_day() {
    let mut users = UsersRepository::new();
    users.create_user_with(10, 11, "alice".to_string(), "secret".to_string()).unwrap();
    let request = AuthorizeRequest { username: "alice".to_string(), password: "secret".to_string() };
    let claims: Claims = login(&users, &request, 1_700_000_000).unwrap();
    assert_eq!(claims.user_id, 10);
    assert_eq!(claims.username, "alice");
    assert_eq!(claims.iat, 1_700_000_000);
    assert_eq!(claims.nbf, 1_700_000_000);
    assert_eq!(claims.exp, 1_700_086_400);
    let wrong = AuthorizeRequest { username: "alice".to_string(), password: "nope".to_string() };
    assert_eq!(login(&users, &wrong, 1_700_000_000).unwrap_err(), AuthError::InvalidCredentials);
    let unknown = AuthorizeRequest { username: "bob".to_string(), password: "secret".to_string() };
    assert_eq!(login(&users, &unknown, 1_700_000_000).unwrap_err(), AuthError::InvalidCredentials);
}

#[test]
fn registering_twice_is_turned_down() {
    let mut users = UsersRepository::new();
    let request = || RegisterRequest { username: "alice".to_string(), password: "pw".to_string() };
    assert!(register(&mut users, request()).is_ok());
    assert_eq!(register(&mut users, request()).unwrap_err(), AuthError::InvalidCredentials);
    assert!(users.verify("alice", "pw").unwrap().is_some());
}

#[test]
fn authentication_errors_have_their_status_and_message() {
    assert_eq!(AuthError::TokenCreation.status_code(), 500);
    assert_eq!(AuthError::InvalidToken.status_code(), 401);
    assert_eq!(AuthError::InvalidCredentials.status_code(), 401);
    assert_eq!(AuthError::TokenCreation.message(), "Token creation error");
    assert_eq!(AuthError::InvalidToken.message(), "Invalid token");
    assert_eq!(AuthError::InvalidCredentials.message(), "Invalid credentials");
    assert_eq!(AuthorizeResponse::new("abc".to_string()).token, "abc");
}

#[test]
fn administrators_are_those_given_the_role() {
    let mut roles = PermissionRepository::new();
    assert!(!roles.is_admin(1));
    assert!(roles.grant_role(1, Role::Admin));
    assert!(!roles.grant_role(1, Role::Admin));
    assert!(roles.is_admin(1));
    assert!(!roles.is_admin(2));
}
