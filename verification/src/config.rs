//! The configuration: settings are read from environment variables named
//! `UNICUM_API_<SUFFIX>`.
use vstd::prelude::*;

use crate::text::{owned, push_str, str_eq};

verus! {

/// The prefix of every configuration variable.
pub const ENV_PREFIX: &'static str = "UNICUM_API";

/// The value of an environment variable: text, or bytes that are not
/// valid Unicode.
#[derive(Debug)]
pub enum EnvValue {
    Text(String),
    NotUnicode,
}

impl View for EnvValue {
    /// The text, or `None` when the value is not valid Unicode.
    type V = Option<Seq<char>>;

    open spec fn view(&self) -> Option<Seq<char>> {
        match self {
            EnvValue::Text(s) => Some(s@),
            EnvValue::NotUnicode => None,
        }
    }
}

/// The environment variables of the process, in the order the process
/// lists them.
#[derive(Debug)]
pub struct Environment {
    vars: Vec<(String, EnvValue)>,
}

/// The value of the first variable named `name`.
pub open spec fn lookup(vars: Seq<(Seq<char>, Option<Seq<char>>)>, name: Seq<char>) -> Option<
    Option<Seq<char>>,
>
    decreases vars.len(),
{
    if vars.len() == 0 {
        None
    } else if vars[0].0 == name {
        Some(vars[0].1)
    } else {
        lookup(vars.drop_first(), name)
    }
}

impl View for Environment {
    type V = Seq<(Seq<char>, Option<Seq<char>>)>;

    closed spec fn view(&self) -> Seq<(Seq<char>, Option<Seq<char>>)> {
        self.vars@.map_values(|v: (String, EnvValue)| (v.0@, v.1@))
    }
}

impl Environment {
    /// An environment without variables.
    pub fn new() -> (res: Self)
        ensures
            res@ == Seq::<(Seq<char>, Option<Seq<char>>)>::empty(),
    {
        let res = Environment { vars: Vec::new() };
        assert(res@ =~= Seq::<(Seq<char>, Option<Seq<char>>)>::empty());
        res
    }

    /// Adds a variable after those already listed.
    pub fn push(&mut self, name: String, value: EnvValue)
        ensures
            final(self)@ == old(self)@.push((name@, value@)),
    {
        let ghost entry = (name@, value@);
        self.vars.push((name, value));
        assert(self@ =~= old(self)@.push(entry));
    }

    /// The value of the first variable named `name` (`std::env::var_os`).
    pub fn get(&self, name: &str) -> (res: Option<&EnvValue>)
        ensures
            match lookup(self@, name@) {
                Some(v) => res matches Some(r) && r@ == v,
                None => res is None,
            },
    {
        let mut i: usize = 0;
        assert(self@.skip(0) =~= self@);
        while i < self.vars.len()
            invariant
                i <= self.vars@.len(),
                lookup(self@, name@) == lookup(self@.skip(i as int), name@),
            decreases self.vars@.len() - i,
        {
            let ghost rest = self@.skip(i as int);
            assert(rest[0] == (self.vars@[i as int].0@, self.vars@[i as int].1@));
            if str_eq(self.vars[i].0.as_str(), name) {
                return Some(&self.vars[i].1);
            }
            assert(rest.drop_first() =~= self@.skip(i + 1));
            i = i + 1;
        }
        None
    }
}

/// The name of the variable with the given suffix.
pub open spec fn env_name_spec(suffix: Seq<char>) -> Seq<char> {
    "UNICUM_API_"@ + suffix
}

/// The name of the variable with the given suffix: `UNICUM_API_<suffix>`.
pub fn env_name(suffix: &str) -> (res: String)
    ensures
        res@ == env_name_spec(suffix@),
{
    let mut name = owned(ENV_PREFIX);
    push_str(&mut name, "_");
    push_str(&mut name, suffix);
    proof {
        reveal_strlit("UNICUM_API");
        reveal_strlit("_");
        reveal_strlit("UNICUM_API_");
        assert(name@ =~= env_name_spec(suffix@));
    }
    name
}

/// Why a setting could not be read.
#[derive(Debug)]
pub enum ConfigError {
    Missing { name: String, description: &'static str },
    NotUnicode { name: String },
}

/// The message of a configuration error.
pub open spec fn config_error_text(name: Seq<char>, description: Option<Seq<char>>) -> Seq<char> {
    match description {
        Some(d) => "Please specify "@ + d + " with "@ + name + " env variable."@,
        None => name + " env variable's value must be valid Unicode."@,
    }
}

impl ConfigError {
    /// The message that the error displays.
    pub fn message(&self) -> (res: String)
        ensures
            match self {
                ConfigError::Missing { name, description } => res@ == config_error_text(
                    name@,
                    Some(description@),
                ),
                ConfigError::NotUnicode { name } => res@ == config_error_text(name@, None),
            },
    {
        match self {
            ConfigError::Missing { name, description } => {
                let mut out = owned("Please specify ");
                push_str(&mut out, description);
                push_str(&mut out, " with ");
                push_str(&mut out, name.as_str());
                push_str(&mut out, " env variable.");
                out
            },
            ConfigError::NotUnicode { name } => {
                let mut out = owned(name.as_str());
                push_str(&mut out, " env variable's value must be valid Unicode.");
                out
            },
        }
    }
}

/// What reading the setting with the given suffix gives: its text, an
/// error naming the variable when it is missing, or one when its value is
/// not valid Unicode.
pub open spec fn required_env_spec(
    env: Seq<(Seq<char>, Option<Seq<char>>)>,
    suffix: Seq<char>,
) -> Result<Seq<char>, Option<Seq<char>>> {
    match lookup(env, env_name_spec(suffix)) {
        None => Err(None),
        Some(None) => Err(Some(env_name_spec(suffix))),
        Some(Some(v)) => Ok(v),
    }
}

/// Whether a configuration result is the one that `required_env_spec`
/// describes for the given setting and description.
pub open spec fn config_result_matches(
    res: Result<String, ConfigError>,
    env: Seq<(Seq<char>, Option<Seq<char>>)>,
    suffix: Seq<char>,
    description: Seq<char>,
) -> bool {
    match lookup(env, env_name_spec(suffix)) {
        None => res matches Err(ConfigError::Missing { name, description: d }) && name@
            == env_name_spec(suffix) && d@ == description,
        Some(None) => res matches Err(ConfigError::NotUnicode { name }) && name@ == env_name_spec(
            suffix,
        ),
        Some(Some(v)) => res matches Ok(s) && s@ == v,
    }
}

/// Reads the setting with the given suffix.
pub fn required_env(env: &Environment, suffix: &str, description: &'static str) -> (res: Result<
    String,
    ConfigError,
>)
    ensures
        config_result_matches(res, env@, suffix@, description@),
{
    let name = env_name(suffix);
    match env.get(name.as_str()) {
        None => Err(ConfigError::Missing { name, description }),
        Some(EnvValue::NotUnicode) => Err(ConfigError::NotUnicode { name }),
        Some(EnvValue::Text(value)) => Ok(value.clone()),
    }
}

/// The URL of the Postgres database (`UNICUM_API_POSTGRES_URL`).
pub fn postgres_url(env: &Environment) -> (res: Result<String, ConfigError>)
    ensures
        config_result_matches(res, env@, "POSTGRES_URL"@, "a Postgres URL"@),
{
    required_env(env, "POSTGRES_URL", "a Postgres URL")
}

/// The salt for password hashes, in B64 (`UNICUM_API_SALT_B64`).
pub fn password_salt(env: &Environment) -> (res: Result<String, ConfigError>)
    ensures
        config_result_matches(res, env@, "SALT_B64"@, "a password salt"@),
{
    required_env(env, "SALT_B64", "a password salt")
}

/// The user name for the upstream service (`UNICUM_API_UNICUM_USERNAME`).
pub fn unicum_username(env: &Environment) -> (res: Result<String, ConfigError>)
    ensures
        config_result_matches(res, env@, "UNICUM_USERNAME"@, "a Unicum username"@),
{
    required_env(env, "UNICUM_USERNAME", "a Unicum username")
}

/// The password for the upstream service (`UNICUM_API_UNICUM_PASSWORD`).
pub fn unicum_password(env: &Environment) -> (res: Result<String, ConfigError>)
    ensures
        config_result_matches(res, env@, "UNICUM_PASSWORD"@, "a Unicum password"@),
{
    required_env(env, "UNICUM_PASSWORD", "a Unicum password")
}

} // verus!
