use unicum_api::outbound::official::client::{
    check_status, login_outcome, token_cookie, LoginStep, UnicumApi, TOKEN_LIFETIME_NANOS,
};
use unicum_api::outbound::official::error::ModuleError;

#[test]
fn a_new_session_logs_in_once_its_placeholder_token_expired() {
    let api = UnicumApi::new("operator".to_owned(), "secret".to_owned());

    assert_eq!("", api.token());
    assert_eq!(("operator", "secret"), (api.username(), api.password()));
    assert_eq!(TOKEN_LIFETIME_NANOS, api.token_expires_at());
    assert!(!api.needs_login(TOKEN_LIFETIME_NANOS));
    assert!(api.needs_login(TOKEN_LIFETIME_NANOS + 1));
    assert!(api.token_expired());
}

#[test]
fn a_token_is_used_for_thirty_nine_minutes() {
    let mut api = UnicumApi::new("operator".to_owned(), "secret".to_owned());
    let set_at: i128 = 1_700_000_000_000_000_000;

    api.update_token_at("abc".to_owned(), set_at);

    assert_eq!("abc", api.token());
    assert_eq!(set_at + 39 * 60 * 1_000_000_000, api.token_expires_at());
    assert!(!api.needs_login(set_at + 39 * 60 * 1_000_000_000));
    assert!(api.needs_login(set_at + 39 * 60 * 1_000_000_000 + 1));
}

#[test]
fn a_token_set_now_is_fresh() {
    let mut api = UnicumApi::new("operator".to_owned(), "secret".to_owned());

    api.update_token("fresh".to_owned());

    assert_eq!("fresh", api.token());
    assert!(!api.token_expired());
}

#[test]
fn expiry_saturates_at_the_latest_instant() {
    let mut api = UnicumApi::new("u".to_owned(), "p".to_owned());
    let latest: i128 = 253_402_300_799_999_999_999;

    api.update_token_at("t".to_owned(), latest - 5);

    assert_eq!(latest, api.token_expires_at());
    assert!(!api.needs_login(latest));
}

#[test]
fn login_outcomes_decide_the_next_step() {
    let mut api = UnicumApi::new("u".to_owned(), "p".to_owned());

    assert!(matches!(api.after_login_at(Err(ModuleError::RetryLogin), 5), LoginStep::Retry));
    assert_eq!("", api.token());
    assert!(matches!(
        api.after_login_at(Err(ModuleError::HttpStatus { status: 500 }), 5),
        LoginStep::Failed(ModuleError::HttpStatus { status: 500 })
    ));
    assert!(matches!(api.after_login_at(Ok("new".to_owned()), 5), LoginStep::Ready));
    assert_eq!("new", api.token());
    assert!(!api.needs_login(5 + TOKEN_LIFETIME_NANOS));
}

#[test]
fn a_conflict_at_login_means_retry() {
    assert!(matches!(
        login_outcome(Err(ModuleError::HttpStatus { status: 409 })),
        Err(ModuleError::RetryLogin)
    ));
    assert!(matches!(
        login_outcome(Err(ModuleError::HttpStatus { status: 403 })),
        Err(ModuleError::HttpStatus { status: 403 })
    ));
    assert_eq!("tok", login_outcome(Ok("tok".to_owned())).unwrap());
}

#[test]
fn statuses_succeed_in_the_two_hundreds() {
    assert!(check_status(200).is_ok());
    assert!(check_status(299).is_ok());
    assert!(matches!(check_status(199), Err(ModuleError::HttpStatus { status: 199 })));
    assert!(matches!(check_status(302), Err(ModuleError::HttpStatus { status: 302 })));
}

#[test]
fn tokens_travel_in_a_cookie() {
    assert_eq!("nvmc_login=abc", token_cookie("abc"));
}
