use unicum_api::config::{
    env_name, password_salt, postgres_url, unicum_password, unicum_username, ConfigError,
    EnvValue, Environment,
};

fn environment(vars: &[(&str, Option<&str>)]) -> Environment {
    let mut env = Environment::new();
    for (name, value) in vars {
        let value = match value {
            Some(text) => EnvValue::Text((*text).to_owned()),
            None => EnvValue::NotUnicode,
        };
        env.push((*name).to_owned(), value);
    }
    env
}

#[test]
fn names_carry_the_prefix() {
    assert_eq!("UNICUM_API_POSTGRES_URL", env_name("POSTGRES_URL"));
}

#[test]
fn settings_are_read_by_name() {
    let env = environment(&[
        ("UNICUM_API_POSTGRES_URL", Some("postgres://localhost/db")),
        ("UNICUM_API_SALT_B64", Some("dGVzdHNhbHQ")),
        ("UNICUM_API_UNICUM_USERNAME", Some("operator")),
        ("UNICUM_API_UNICUM_PASSWORD", Some("secret")),
    ]);

    assert_eq!("postgres://localhost/db", postgres_url(&env).unwrap());
    assert_eq!("dGVzdHNhbHQ", password_salt(&env).unwrap());
    assert_eq!("operator", unicum_username(&env).unwrap());
    assert_eq!("secret", unicum_password(&env).unwrap());
}

#[test]
fn the_first_setting_of_a_name_counts() {
    let env = environment(&[
        ("UNICUM_API_UNICUM_USERNAME", Some("first")),
        ("UNICUM_API_UNICUM_USERNAME", Some("second")),
    ]);

    assert_eq!("first", unicum_username(&env).unwrap());
}

#[test]
fn a_missing_setting_names_its_variable() {
    let env = environment(&[]);

    match postgres_url(&env) {
        Err(error @ ConfigError::Missing { .. }) => {
            assert_eq!(
                "Please specify a Postgres URL with UNICUM_API_POSTGRES_URL env variable.",
                error.message()
            );
        }
        other => panic!("expected Missing, got {other:?}"),
    }
}

#[test]
fn a_setting_that_is_not_unicode_is_refused() {
    let env = environment(&[("UNICUM_API_SALT_B64", None)]);

    match password_salt(&env) {
        Err(error @ ConfigError::NotUnicode { .. }) => {
            assert_eq!(
                "UNICUM_API_SALT_B64 env variable's value must be valid Unicode.",
                error.message()
            );
        }
        other => panic!("expected NotUnicode, got {other:?}"),
    }
}
