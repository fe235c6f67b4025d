use bearer_auth::auth::authorize;
use bearer_auth::directory::{init_users, login};
use bearer_auth::errors::{status_and_message, Error};
use bearer_auth::handlers::{admin_greeting, user_greeting, LoginResponseDTO};
use bearer_auth::role::Role;
use bearer_auth::token::issue;

const SECRET: &[u8] = b"test-signing-secret";
const NOW: u64 = 1_700_000_000;

fn bearer(token: &str) -> String {
    format!("Bearer {}", token)
}

#[test]
fn test_login_handler_success() {
    let users = init_users();
    let email = String::from("user@userland.com");
    let password = String::from("12345678");

    let result = login(&users, &email, &password, NOW, SECRET);

    assert!(result.is_ok());
    let response = LoginResponseDTO { token: result.unwrap() };
    assert!(!response.token.is_empty());
}

#[test]
fn test_login_handler_failure() {
    let users = init_users();
    let email = String::from("wrong@user.com");
    let password = String::from("wrongpassword");

    let result = login(&users, &email, &password, NOW, SECRET);

    assert!(result.is_err());
    match result {
        Err(error) => assert_eq!(error.message(), "wrong credentials"),
        Ok(_) => panic!("Expected an error, but got Ok"),
    }
}

#[test]
fn test_with_auth_success() {
    let user_uuid = String::from("1");
    let role = Role::User;
    let token = issue(&user_uuid, role, NOW, SECRET).unwrap();

    let header = bearer(&token);
    let result = authorize(Some(header.as_str()), role, NOW, SECRET);

    assert!(result.is_ok(), "Expected Ok, but got Err: {:?}", result);
    let returned_uuid = result.unwrap();
    assert_eq!(returned_uuid, user_uuid, "Expected UUID {}, but got {}", user_uuid, returned_uuid);
}

#[test]
fn test_with_auth_failure() {
    let result = authorize(Some("Bearer invalid_token"), Role::Admin, NOW, SECRET);
    assert!(result.is_err());
    assert_eq!(result.unwrap_err(), Error::JWTTokenError);
}

#[test]
fn test_user_handler() {
    let user_uuid = String::from("1");
    let greeting = user_greeting(&user_uuid);
    assert_eq!(greeting, format!("Hello User {}", user_uuid));
}

#[test]
fn test_admin_handler() {
    let admin_uuid = String::from("2");
    let greeting = admin_greeting(&admin_uuid);
    assert_eq!(greeting, format!("Hello Admin {}", admin_uuid));
}

#[test]
fn missing_header_is_rejected_before_anything_else() {
    assert_eq!(authorize(None, Role::User, NOW, SECRET).unwrap_err(), Error::NoAuthHeaderError);
    assert_eq!(authorize(None, Role::Admin, NOW, SECRET).unwrap_err(), Error::NoAuthHeaderError);
}

#[test]
fn header_without_bearer_scheme_is_rejected_as_malformed() {
    let token = issue("1", Role::User, NOW, SECRET).unwrap();
    for header in [
        token.as_str(),
        "bearer x",
        "Bearer",
        "Basic dXNlcjpwdw==",
        "",
    ] {
        assert_eq!(
            authorize(Some(header), Role::User, NOW, SECRET).unwrap_err(),
            Error::InvalidAuthHeaderError,
            "header {:?}",
            header
        );
    }
}

#[test]
fn bearer_scheme_is_case_sensitive() {
    let token = issue("1", Role::User, NOW, SECRET).unwrap();
    let header = format!("bearer {}", token);
    assert_eq!(
        authorize(Some(header.as_str()), Role::User, NOW, SECRET).unwrap_err(),
        Error::InvalidAuthHeaderError
    );
}

#[test]
fn role_mismatch_is_rejected_with_no_permission() {
    let user_token = issue("1", Role::User, NOW, SECRET).unwrap();
    let admin_token = issue("2", Role::Admin, NOW, SECRET).unwrap();

    let header = bearer(&user_token);
    assert_eq!(
        authorize(Some(header.as_str()), Role::Admin, NOW, SECRET).unwrap_err(),
        Error::NoPermissionError
    );
    let header = bearer(&admin_token);
    assert_eq!(
        authorize(Some(header.as_str()), Role::User, NOW, SECRET).unwrap_err(),
        Error::NoPermissionError
    );
}

#[test]
fn expired_token_is_rejected_by_the_gate() {
    let token = issue("1", Role::User, 0, SECRET).unwrap();
    let header = bearer(&token);
    assert_eq!(
        authorize(Some(header.as_str()), Role::User, NOW, SECRET).unwrap_err(),
        Error::JWTTokenError
    );
}

#[test]
fn login_then_user_route_admits_and_admin_route_rejects() {
    let users = init_users();
    let email = String::from("user@userland.com");
    let password = String::from("12345678");

    let token = login(&users, &email, &password, NOW, SECRET).unwrap();
    let header = bearer(&token);

    let admitted = authorize(Some(header.as_str()), Role::User, NOW, SECRET);
    assert_eq!(admitted.unwrap(), "1");

    let rejected = authorize(Some(header.as_str()), Role::Admin, NOW, SECRET);
    assert_eq!(rejected.unwrap_err(), Error::NoPermissionError);
    assert_eq!(status_and_message(&Error::NoPermissionError).0, 401);
}

#[test]
fn admin_login_reaches_admin_route() {
    let users = init_users();
    let email = String::from("admin@adminland.com");
    let password = String::from("12345678");

    let token = login(&users, &email, &password, NOW, SECRET).unwrap();
    let header = bearer(&token);

    assert_eq!(authorize(Some(header.as_str()), Role::Admin, NOW, SECRET).unwrap(), "2");
}

#[test]
fn init_users_holds_the_two_known_entries() {
    let users = init_users();
    assert_eq!(users.len(), 2);
    assert_eq!(users[0].uuid, "1");
    assert_eq!(users[0].email, "user@userland.com");
    assert_eq!(users[0].password, "12345678");
    assert_eq!(users[0].role, "User");
    assert_eq!(users[1].uuid, "2");
    assert_eq!(users[1].email, "admin@adminland.com");
    assert_eq!(users[1].password, "12345678");
    assert_eq!(users[1].role, "Admin");
}

#[test]
fn error_translation_matches_the_boundary_contract() {
    let cases = [
        (Error::WrongCredentialsError, 403, "wrong credentials"),
        (Error::NoPermissionError, 401, "No permission error"),
        (Error::JWTTokenError, 401, "JWT error"),
        (Error::JWTTokenCreationError, 500, "Internal Server Error"),
        (Error::NoAuthHeaderError, 400, "No auth header error"),
        (Error::InvalidAuthHeaderError, 400, "Invalid auth header error"),
    ];
    for (error, status, message) in cases {
        let (code, text) = status_and_message(&error);
        assert_eq!(code, status, "{:?}", error);
        assert_eq!(text, message, "{:?}", error);
    }
}

#[test]
fn error_messages_are_stable() {
    assert_eq!(Error::WrongCredentialsError.message(), "wrong credentials");
    assert_eq!(Error::JWTTokenCreationError.message(), "JWT creation error");
    assert_eq!(Error::JWTTokenError.message(), "JWT error");
    assert_eq!(Error::NoAuthHeaderError.message(), "No auth header error");
    assert_eq!(Error::NoPermissionError.message(), "No permission error");
    assert_eq!(Error::InvalidAuthHeaderError.message(), "Invalid auth header error");
}
