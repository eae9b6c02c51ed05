use base64::engine::general_purpose::STANDARD as BASE64;
use base64::Engine;
use unicum_api::api::auth::{
    authenticate, decode_basic_credentials, verify_password, RequirePermissions,
};
use unicum_api::api::error::ApiError;
use unicum_api::entities::{Permissions, User};
use unicum_api::users::hash_password;

fn basic_header(credentials: &[u8]) -> Vec<u8> {
    format!("Basic {}", BASE64.encode(credentials)).into_bytes()
}

#[test]
fn path_ok_basic_credentials() {
    let header = basic_header(b"alice:correct horse battery staple");

    let result = decode_basic_credentials(Some(header.as_slice()));

    assert!(result.is_ok());
    assert_eq!(
        (
            "alice".to_owned(),
            "correct horse battery staple".to_owned()
        ),
        result.expect("credentials should decode")
    );
}

#[test]
fn anxiety_password_contains_colon() {
    let header = basic_header(b"alice:part:part");

    let result = decode_basic_credentials(Some(header.as_slice()));

    assert!(result.is_ok());
    assert_eq!(
        ("alice".to_owned(), "part:part".to_owned()),
        result.expect("credentials should split at the first colon")
    );
}

#[test]
fn path_err_authorization_header_missing() {
    let result = decode_basic_credentials(None);

    assert!(result.is_err());
    assert!(matches!(result, Err(ApiError::Unauthorized)));
}

#[test]
fn path_err_authorization_header_is_not_text() {
    let header: [u8; 1] = [0x80];

    let result = decode_basic_credentials(Some(&header[..]));

    assert!(result.is_err());
    match result.expect_err("non-text header should fail") {
        ApiError::BadRequest { message } => {
            assert_eq!("invalid authorization header", message);
        }
        error => panic!("expected BadRequest, got {error:?}"),
    }
}

#[test]
fn path_err_authentication_scheme_is_not_basic() {
    let result = decode_basic_credentials(Some(b"Bearer token".as_slice()));

    assert!(result.is_err());
    match result.expect_err("non-Basic scheme should fail") {
        ApiError::BadRequest { message } => {
            assert_eq!("authorization must use Basic authentication", message);
        }
        error => panic!("expected BadRequest, got {error:?}"),
    }
}

#[test]
fn path_err_credentials_are_not_base64() {
    let result = decode_basic_credentials(Some(b"Basic !!!".as_slice()));

    assert!(result.is_err());
    match result.expect_err("invalid base64 should fail") {
        ApiError::BadRequest { message } => {
            assert_eq!("invalid base64 credentials", message);
        }
        error => panic!("expected BadRequest, got {error:?}"),
    }
}

#[test]
fn path_err_credentials_are_not_utf8() {
    let header = basic_header(&[0xff]);

    let result = decode_basic_credentials(Some(header.as_slice()));

    assert!(result.is_err());
    match result.expect_err("non-UTF-8 credentials should fail") {
        ApiError::BadRequest { message } => {
            assert_eq!("credentials are not valid UTF-8", message);
        }
        error => panic!("expected BadRequest, got {error:?}"),
    }
}

#[test]
fn path_err_credentials_have_no_separator() {
    let header = basic_header(b"alice");

    let result = decode_basic_credentials(Some(header.as_slice()));

    assert!(result.is_err());
    match result.expect_err("credentials without a colon should fail") {
        ApiError::BadRequest { message } => {
            assert_eq!("credentials must contain a username and password", message);
        }
        error => panic!("expected BadRequest, got {error:?}"),
    }
}

fn user_with_permissions(bits: u32) -> User {
    User {
        username: "test".into(),
        password_hash: "hash".into(),
        permissions: Permissions::from_bits_truncate(bits),
    }
}

#[test]
fn path_ok_user_has_required_permission() {
    let user = user_with_permissions(Permissions::STOCK_READ | Permissions::SALES_READ);

    let result = RequirePermissions::<{ Permissions::STOCK_READ }>::from_request_user(Some(&user));

    assert!(result.is_ok());
}

#[test]
fn path_ok_no_permissions_are_required() {
    let user = user_with_permissions(0);

    let result = RequirePermissions::<0>::from_request_user(Some(&user));

    assert!(result.is_ok());
}

#[test]
fn path_err_user_is_missing() {
    let result = RequirePermissions::<{ Permissions::STOCK_READ }>::from_request_user(None);

    assert!(result.is_err());
    assert!(matches!(result, Err(ApiError::Unauthorized)));
}

#[test]
fn path_err_user_lacks_required_permission() {
    let user = user_with_permissions(Permissions::SALES_READ);

    let result = RequirePermissions::<{ Permissions::STOCK_READ }>::from_request_user(Some(&user));

    assert!(result.is_err());
    assert!(matches!(result, Err(ApiError::Forbidden)));
}

#[test]
fn path_err_user_has_only_some_required_permissions() {
    let user = user_with_permissions(Permissions::STOCK_READ);
    const REQUIRED: u32 = Permissions::STOCK_READ | Permissions::STOCK_WRITE;

    let result = RequirePermissions::<REQUIRED>::from_request_user(Some(&user));

    assert!(result.is_err());
    assert!(matches!(result, Err(ApiError::Forbidden)));
}

#[test]
fn unknown_required_bits_are_ignored() {
    let user = user_with_permissions(Permissions::STATE_READ);

    let result = RequirePermissions::<{ Permissions::STATE_READ | 0b1_0000 }>::from_request_user(Some(&user));

    assert!(result.is_ok());
}

fn test_hash(password: &str) -> String {
    hash_password(password, "dGVzdHNhbHQ").expect("password should hash")
}

#[test]
fn path_ok_password_matches_hash() {
    let password = "test";
    let encoded_hash = test_hash(password);

    let result = verify_password(password, &encoded_hash);

    assert!(result.is_ok());
    assert_eq!((), result.expect("matching password should verify"));
}

#[test]
fn path_err_password_does_not_match_hash() {
    let encoded_hash = test_hash("test");

    let result = verify_password("wrong", &encoded_hash);

    assert!(result.is_err());
    assert_eq!(
        "invalid password",
        result.expect_err("incorrect password should fail")
    );
}

#[test]
fn path_err_hash_is_malformed() {
    let result = verify_password("test", "not-a-password-hash");

    assert!(result.is_err());
    assert_eq!(
        "password hash string missing field",
        result.expect_err("malformed hash should fail")
    );
}

#[test]
fn hashing_is_deterministic_for_a_salt() {
    assert_eq!(test_hash("secret"), test_hash("secret"));
    assert!(test_hash("secret").starts_with("$argon2id$"));
}

#[test]
fn bad_salt_is_refused() {
    let result = hash_password("test", "!!");

    assert!(result.is_err());
}

fn stored_user(password: &str) -> User {
    User {
        username: "alice".into(),
        password_hash: test_hash(password),
        permissions: Permissions::from_bits_truncate(Permissions::STOCK_READ),
    }
}

#[test]
fn stored_password_authenticates() {
    let result = authenticate(Ok(Some(stored_user("hunter2"))), "hunter2");

    let user = result.expect("the stored password should authenticate");
    assert_eq!("alice", user.username);
}

#[test]
fn wrong_password_is_unauthorized() {
    let result = authenticate(Ok(Some(stored_user("hunter2"))), "hunter3");

    assert!(matches!(result, Err(ApiError::Unauthorized)));
}

#[test]
fn unknown_user_is_unauthorized() {
    let result = authenticate(Ok(None), "hunter2");

    assert!(matches!(result, Err(ApiError::Unauthorized)));
}

#[test]
fn failed_lookup_is_internal() {
    let result = authenticate(Err("connection refused".into()), "hunter2");

    assert!(matches!(result, Err(ApiError::Internal)));
}

#[test]
fn errors_have_their_status_codes() {
    assert_eq!(400, ApiError::bad_request("x").status_code());
    assert_eq!(401, ApiError::Unauthorized.status_code());
    assert_eq!(403, ApiError::Forbidden.status_code());
    assert_eq!(500, ApiError::Internal.status_code());
    assert_eq!(502, ApiError::Upstream.status_code());
}
