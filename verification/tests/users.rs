use base64::engine::general_purpose::STANDARD as BASE64;
use base64::Engine;
use unicum_api::api::auth::verify_password;
use unicum_api::entities::{Permissions, User};
use unicum_api::user_mgmt::{credentials_with_hash, found_user, RequirePermissions};
use unicum_api::users::{hash_password, user_to_store, UserAddError};

const SALT: &str = "dGVzdHNhbHQ";

fn existing_user() -> User {
    User {
        username: "alice".to_owned(),
        password_hash: hash_password("old", SALT).unwrap(),
        permissions: Permissions::from_bits_truncate(Permissions::SALES_READ),
    }
}

#[test]
fn a_new_user_gets_the_entered_values() {
    let selected = [
        Permissions::from_bits_truncate(Permissions::STOCK_READ),
        Permissions::from_bits_truncate(Permissions::STOCK_WRITE),
    ];

    let user = user_to_store("bob".to_owned(), Some("pw"), Some(&selected[..]), None, SALT).unwrap();

    assert_eq!("bob", user.username);
    assert_eq!(0b0011, user.permissions.bits());
    assert!(verify_password("pw", &user.password_hash).is_ok());
}

#[test]
fn skipped_prompts_keep_the_existing_values() {
    let existing = existing_user();

    let user = user_to_store("alice".to_owned(), None, None, Some(&existing), SALT).unwrap();

    assert_eq!(existing.password_hash, user.password_hash);
    assert_eq!(existing.permissions, user.permissions);
}

#[test]
fn entered_values_replace_the_existing_ones() {
    let existing = existing_user();

    let user = user_to_store("alice".to_owned(), Some("new"), Some(&[][..]), Some(&existing), SALT).unwrap();

    assert!(verify_password("new", &user.password_hash).is_ok());
    assert!(verify_password("old", &user.password_hash).is_err());
    assert_eq!(0, user.permissions.bits());
}

#[test]
fn a_new_user_needs_a_password_and_permissions() {
    let no_password = user_to_store("bob".to_owned(), None, Some(&[][..]), None, SALT);
    match no_password {
        Err(error @ UserAddError::MissingPassword) => assert_eq!("Please provide a password.", error.message()),
        other => panic!("expected MissingPassword, got {other:?}"),
    }
    let no_permissions = user_to_store("bob".to_owned(), Some("pw"), None, None, SALT);
    match no_permissions {
        Err(error @ UserAddError::MissingPermissions) => {
            assert_eq!("Please select some permissions.", error.message())
        }
        other => panic!("expected MissingPermissions, got {other:?}"),
    }
    match user_to_store("bob".to_owned(), Some("pw"), None, None, "!") {
        Err(error @ UserAddError::HashFailed { .. }) => {
            assert!(error.message().starts_with("Failed to hash password: "))
        }
        other => panic!("expected HashFailed, got {other:?}"),
    }
}

fn header(credentials: &[u8]) -> Vec<u8> {
    format!("Basic {}", BASE64.encode(credentials)).into_bytes()
}

#[test]
fn credentials_are_looked_up_by_their_hash() {
    let h = header(b"alice:pw:ignored");

    let (username, hash) = credentials_with_hash(Some(h.as_slice()), SALT).unwrap();

    assert_eq!("alice", username);
    assert_eq!(hash_password("pw", SALT).unwrap(), hash);
}

#[test]
fn credentials_are_refused_with_a_status() {
    assert_eq!(Err(401), credentials_with_hash(None, SALT));
    assert_eq!(Err(401), credentials_with_hash(Some(&[0x80][..]), SALT));
    assert_eq!(Err(400), credentials_with_hash(Some(b"Bearer x".as_slice()), SALT));
    assert_eq!(Err(400), credentials_with_hash(Some(b"Basic !!!".as_slice()), SALT));
    assert_eq!(Err(400), credentials_with_hash(Some(header(&[0xff]).as_slice()), SALT));
    assert_eq!(Err(400), credentials_with_hash(Some(header(b"alice").as_slice()), SALT));
    assert_eq!(Err(400), credentials_with_hash(Some(header(b"alice:pw").as_slice()), "!"));
}

#[test]
fn a_failed_lookup_is_a_server_error() {
    assert_eq!(500, found_user(Err("no rows".to_owned())).unwrap_err());
    assert_eq!("alice", found_user(Ok(existing_user())).unwrap().username);
}

#[test]
fn permissions_are_checked_with_messages() {
    let user = existing_user();

    assert!(RequirePermissions::<{ Permissions::SALES_READ }>::from_request_user(Some(&user)).is_ok());
    match RequirePermissions::<{ Permissions::STOCK_READ }>::from_request_user(Some(&user)) {
        Err(rejection) => assert_eq!((403, "Access denied: Insufficient permissions"), rejection),
        Ok(_) => panic!("a missing permission should be refused"),
    }
    match RequirePermissions::<0>::from_request_user(None) {
        Err(rejection) => assert_eq!((401, "Missing authentication context"), rejection),
        Ok(_) => panic!("a missing user should be refused"),
    }
}
