use witter::api::Env;
use witter::auth::{authenticate, get_auth_token, AuthError, AuthGate};
use witter::errors::{ApiError, ErrorReponseToJson};
use witter::store::Store;
use witter::tokens::{issue, revoke, TOKEN_LENGTH};
use witter::users::{
    complete_login, create_account, create_user, get_user, login_account, logout, me,
    username_already_claimed,
};

fn bearer(token: &str) -> String {
    format!("Bearer {}", token)
}

fn sign_up(store: &mut Store, name: &str, id: u128, token: &str) -> String {
    let r = create_account(
        store,
        name,
        "digest".to_string(),
        id,
        token.to_string(),
        id + 1000,
        1,
    );
    r.expect("sign-up succeeds").token
}

fn status_and_message(e: ApiError) -> (String, String) {
    let b = ErrorReponseToJson.error_body(e);
    (b.status_code, b.message)
}

#[test]
fn mod_creating_a_user_and_logging_in() {
    let gate = AuthGate::new().unwrap();
    let mut store = Store::new();
    let token = create_user(&mut store, "bob", "digest".to_string()).unwrap().token;
    let header = bearer(&token);
    let user = me(&gate, &store, Some(header.as_str())).unwrap();
    assert_eq!(user.username, "bob");

    let account = login_account(&store, "bob").unwrap();
    let second = complete_login(&mut store, account.id, true).unwrap().token;
    assert_eq!(second.len(), 32);
    let header = bearer(&second);
    assert_eq!(me(&gate, &store, Some(header.as_str())).unwrap().username, "bob");
}

#[test]
fn user_creation_creating_a_user_and_logging_in() {
    let gate = AuthGate::new().unwrap();
    let mut store = Store::new();
    let token = create_user(&mut store, "bob", "digest".to_string()).unwrap().token;
    assert_eq!(token.len(), TOKEN_LENGTH);
    assert!(token.chars().all(|c| c.is_ascii_alphanumeric()));
    let header = bearer(&token);
    assert_eq!(me(&gate, &store, Some(header.as_str())).unwrap().username, "bob");

    let account = login_account(&store, "bob").unwrap();
    let token = complete_login(&mut store, account.id, true).unwrap().token;
    assert_eq!(token.len(), 32);
}

#[test]
fn creating_a_user() {
    let mut store = Store::new();
    assert!(create_user(&mut store, "bob", "digest".to_string()).is_ok());
    assert!(username_already_claimed(&store, "bob"));
    assert!(!username_already_claimed(&store, "Bob"));
}

#[test]
fn mod_claiming_username_already_claimed_gives_client_error() {
    let mut store = Store::new();
    assert!(create_user(&mut store, "bob", "foo".to_string()).is_ok());
    let e = create_user(&mut store, "bob", "bar".to_string()).err().unwrap();
    assert_eq!(e, ApiError::UsernameClaimed);
    assert_eq!(e.status(), 422);
    let (code, message) = status_and_message(e);
    assert_eq!(code, "422");
    assert_eq!(message, "Username is already claimed");
}

#[test]
fn user_creation_claiming_username_already_claimed_gives_client_error() {
    let mut store = Store::new();
    sign_up(&mut store, "bob", 1, "first");
    let e = create_account(&mut store, "bob", "bar".to_string(), 2, "second".to_string(), 3, 2)
        .err()
        .unwrap();
    assert_eq!(e.status(), 422);
    assert_eq!(e.message(), Some("Username is already claimed"));
}

#[test]
fn login_token_authenticates_its_account() {
    let gate = AuthGate::new().unwrap();
    let mut store = Store::new();
    let first = create_user(&mut store, "bob", "digest".to_string()).unwrap().token;
    let account = login_account(&store, "bob").unwrap();
    let second = complete_login(&mut store, account.id, true).unwrap().token;
    assert_ne!(first, second);
    assert_eq!(second.len(), TOKEN_LENGTH);
    let header = bearer(&second);
    let user = authenticate(&gate, &store, Some(header.as_str())).unwrap();
    assert_eq!(user.id, account.id);
    assert_eq!(user.username, "bob");
}

#[test]
fn sign_up_with_an_id_in_use_is_an_internal_error() {
    let mut store = Store::new();
    sign_up(&mut store, "bob", 1, "first");
    let e = create_account(&mut store, "alice", "x".to_string(), 1, "second".to_string(), 3, 2)
        .err()
        .unwrap();
    assert_eq!(e, ApiError::Internal);
    assert_eq!(e.status(), 500);
    assert!(!username_already_claimed(&store, "alice"));
}

#[test]
fn authenticating_without_auth_header() {
    let gate = AuthGate::new().unwrap();
    let store = Store::new();
    let e = me(&gate, &store, None).err().unwrap();
    assert_eq!(e.status(), 400);
    let (code, message) = status_and_message(e);
    assert_eq!(code, "400");
    assert_eq!(message, "Missing value for `Authorization` header");
}

#[test]
fn logging_in_without_auth_header() {
    let gate = AuthGate::new().unwrap();
    let mut store = Store::new();
    sign_up(&mut store, "bob", 1, "abc");
    let e = me(&gate, &store, None).err().unwrap();
    assert_eq!(e.status(), 400);
    assert_eq!(e.message(), Some("Missing value for `Authorization` header"));
}

#[test]
fn authenticating_with_invalid_auth_header() {
    let gate = AuthGate::new().unwrap();
    let mut store = Store::new();
    let token = sign_up(&mut store, "bob", 1, "abc");
    let header = format!("foo {}", token);
    let e = me(&gate, &store, Some(header.as_str())).err().unwrap();
    assert_eq!(e.status(), 400);
}

#[test]
fn logging_in_with_invalid_auth_header() {
    let gate = AuthGate::new().unwrap();
    let store = Store::new();
    let e = me(&gate, &store, Some("foo abc")).err().unwrap();
    assert_eq!(e, ApiError::MalformedAuthHeader);
    assert_eq!(e.status(), 400);
}

#[test]
fn header_prefix_is_exact() {
    let gate = AuthGate::new().unwrap();
    let mut store = Store::new();
    sign_up(&mut store, "bob", 1, "abc");
    assert_eq!(get_auth_token(&gate, "Bearer abc"), Some("abc".to_string()));
    assert_eq!(get_auth_token(&gate, "Bearer "), Some(String::new()));
    assert_eq!(get_auth_token(&gate, "bearer abc"), None);
    assert_eq!(get_auth_token(&gate, "Bearer  abc"), Some(" abc".to_string()));
    assert_eq!(get_auth_token(&gate, "Bearerabc"), None);
    assert_eq!(get_auth_token(&gate, "Bearer a\nb"), Some("a\nb".to_string()));
    assert_eq!(
        authenticate(&gate, &store, Some("Bearer a\nb")).err(),
        Some(AuthError::InvalidToken)
    );
    assert_eq!(get_auth_token(&gate, "Bearer\tx"), None);
    assert_eq!(get_auth_token(&gate, "Bearer abc\n"), Some("abc\n".to_string()));
    assert_eq!(
        authenticate(&gate, &store, Some("Bearer  abc")).err(),
        Some(AuthError::InvalidToken)
    );
    assert_eq!(authenticate(&gate, &store, Some("Bearer abc")).unwrap().id, 1);
}

#[test]
fn login_logging_in_with_unknown_user_gives_404() {
    let store = Store::new();
    let e = login_account(&store, "bob").err().unwrap();
    assert_eq!(e.status(), 404);
}

#[test]
fn mod_logging_in_with_unknown_user_gives_404() {
    let mut store = Store::new();
    sign_up(&mut store, "alice", 1, "abc");
    let e = login_account(&store, "bob").err().unwrap();
    assert_eq!(e, ApiError::UserNotFound);
    assert_eq!(e.status(), 404);
}

#[test]
fn logging_in_with_invalid_password() {
    let mut store = Store::new();
    sign_up(&mut store, "bob", 1, "abc");
    let account = login_account(&store, "bob").unwrap();
    let e = complete_login(&mut store, account.id, false).err().unwrap();
    assert_eq!(e.status(), 403);
    let (code, message) = status_and_message(e);
    assert_eq!(code, "403");
    assert_eq!(message, "Something went wrong");
}

#[test]
fn logging_in_with_invalid_token() {
    let mut store = Store::new();
    sign_up(&mut store, "bob", 1, "abc");
    let account = login_account(&store, "bob").unwrap();
    let e = complete_login(&mut store, account.id, false).err().unwrap();
    assert_eq!(e, ApiError::WrongPassword);
    assert_eq!(e.status(), 403);
}

#[test]
fn logging_out() {
    let gate = AuthGate::new().unwrap();
    let mut store = Store::new();
    let token = sign_up(&mut store, "bob", 1, "abc");
    let header = bearer(&token);
    assert!(me(&gate, &store, Some(header.as_str())).is_ok());
    assert!(logout(&gate, &mut store, Some(header.as_str())).is_ok());
    let e = me(&gate, &store, Some(header.as_str())).err().unwrap();
    assert_eq!(e, ApiError::InvalidToken);
    assert_eq!(e.status(), 403);
}

#[test]
fn issued_token_authenticates_its_account() {
    let gate = AuthGate::new().unwrap();
    let mut store = Store::new();
    sign_up(&mut store, "bob", 7, "abc");
    let token = issue(&mut store, 7).unwrap();
    assert_eq!(token.len(), 32);
    let header = bearer(&token);
    let user = authenticate(&gate, &store, Some(header.as_str())).unwrap();
    assert_eq!(user.id, 7);
    assert_eq!(user.username, "bob");
    assert_eq!(issue(&mut store, 99).err(), Some(witter::store::StoreError::ForeignKeyViolation));
}

#[test]
fn revoked_token_is_invalid_and_revoking_twice_is_harmless() {
    let gate = AuthGate::new().unwrap();
    let mut store = Store::new();
    sign_up(&mut store, "bob", 1, "abc");
    let other = issue(&mut store, 1).unwrap();
    revoke(&mut store, "abc");
    revoke(&mut store, "abc");
    revoke(&mut store, "never-issued");
    assert_eq!(
        authenticate(&gate, &store, Some("Bearer abc")).err(),
        Some(AuthError::InvalidToken)
    );
    let header = bearer(&other);
    assert_eq!(authenticate(&gate, &store, Some(header.as_str())).unwrap().id, 1);
}

#[test]
fn get_profile_of_other_user() {
    let mut store = Store::new();
    sign_up(&mut store, "bob", 1, "abc");
    let user = get_user(&store, "bob").unwrap();
    assert_eq!(user.username, "bob");
    assert_eq!(user.id, 1);
}

#[test]
fn get_profile_of_non_unknown_user() {
    let store = Store::new();
    let e = get_user(&store, "foo").err().unwrap();
    let (code, message) = status_and_message(e);
    assert_eq!(code, "404");
    assert_eq!(message, "User not found");
}

#[test]
fn in_test_env_during_tests() {
    let env = Env::from_name("test").unwrap();
    assert_eq!(env, Env::Test);
    assert!(env.is_test());
    assert!(!Env::from_name("production").unwrap().is_test());
    assert_eq!(Env::from_name("development"), Some(Env::Development));
    assert_eq!(Env::from_name("staging"), None);
}
