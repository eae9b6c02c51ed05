//! The session with the service: the credentials, the token it handed out
//! and when, and the decisions around logging in again.
use vstd::prelude::*;

use crate::outbound::official::error::ModuleError;
use crate::text::{owned, push_str};

verus! {

/// How long a token is used before the client logs in again: 39 minutes,
/// in nanoseconds.
pub const TOKEN_LIFETIME_NANOS: i128 = 2_340_000_000_000;

/// The earliest instant a time can hold, -9999-01-01T00:00:00Z, in
/// nanoseconds since the Unix epoch.
pub const MIN_INSTANT: i128 = -377_705_116_800_000_000_000;

/// The latest instant a time can hold, 9999-12-31T23:59:59.999999999Z, in
/// nanoseconds since the Unix epoch.
pub const MAX_INSTANT: i128 = 253_402_300_799_999_999_999;

/// Whether an instant can be held by a time.
pub open spec fn is_instant(t: int) -> bool {
    MIN_INSTANT <= t <= MAX_INSTANT
}

/// When a token set at `updated` stops being used: 39 minutes later, or the
/// latest instant when that is later still (`OffsetDateTime::saturating_add`).
pub open spec fn token_expiry(updated: int) -> int {
    if updated + TOKEN_LIFETIME_NANOS <= MAX_INSTANT {
        updated + TOKEN_LIFETIME_NANOS
    } else {
        MAX_INSTANT as int
    }
}

/// The current time in nanoseconds since the Unix epoch, by
/// `time::OffsetDateTime::now_utc` and `unix_timestamp_nanos`. Claims only
/// that it is an instant that a time can hold.
#[verifier::external_body]
fn now_unix_nanos() -> (res: i128)
    ensures
        is_instant(res as int),
{
    time::OffsetDateTime::now_utc().unix_timestamp_nanos()
}

/// The session with the service.
pub struct UnicumApi {
    username: String,
    password: String,
    token: String,
    token_updated_at: i128,
}

impl View for UnicumApi {
    /// `(username, password, token, token_updated_at)`.
    type V = (Seq<char>, Seq<char>, Seq<char>, int);

    closed spec fn view(&self) -> (Seq<char>, Seq<char>, Seq<char>, int) {
        (self.username@, self.password@, self.token@, self.token_updated_at as int)
    }
}

/// What to do after a login attempt.
#[derive(Debug)]
pub enum LoginStep {
    /// The service is busy: wait a little and log in again.
    Retry,
    /// The new token is set.
    Ready,
    /// The login failed.
    Failed(ModuleError),
}

impl UnicumApi {
    #[verifier::type_invariant]
    spec fn valid_time(self) -> bool {
        is_instant(self.token_updated_at as int)
    }

    /// A session with no token yet, as if one had been set at the Unix
    /// epoch, so that the first request logs in.
    pub fn new(username: String, password: String) -> (res: Self)
        ensures
            res@ == (username@, password@, Seq::<char>::empty(), 0int),
    {
        UnicumApi { username, password, token: String::new(), token_updated_at: 0 }
    }

    /// The user name the session logs in with.
    pub fn username(&self) -> (res: &str)
        ensures
            res@ == self@.0,
    {
        self.username.as_str()
    }

    /// The password the session logs in with.
    pub fn password(&self) -> (res: &str)
        ensures
            res@ == self@.1,
    {
        self.password.as_str()
    }

    /// The current token.
    pub fn token(&self) -> (res: &str)
        ensures
            res@ == self@.2,
    {
        self.token.as_str()
    }

    /// Sets a new token, handed out at time `now`.
    pub fn update_token_at(&mut self, new_token: String, now: i128)
        requires
            is_instant(now as int),
        ensures
            final(self)@ == (old(self)@.0, old(self)@.1, new_token@, now as int),
    {
        proof {
            use_type_invariant(&*self);
        }
        self.token = new_token;
        self.token_updated_at = now;
    }

    /// Sets a new token, handed out now.
    pub fn update_token(&mut self, new_token: String)
        ensures
            final(self)@.0 == old(self)@.0,
            final(self)@.1 == old(self)@.1,
            final(self)@.2 == new_token@,
            is_instant(final(self)@.3),
    {
        let now = now_unix_nanos();
        self.update_token_at(new_token, now);
    }

    /// When the current token stops being used.
    pub fn token_expires_at(&self) -> (res: i128)
        ensures
            res == token_expiry(self@.3),
    {
        proof {
            use_type_invariant(self);
        }
        if self.token_updated_at <= MAX_INSTANT - TOKEN_LIFETIME_NANOS {
            self.token_updated_at + TOKEN_LIFETIME_NANOS
        } else {
            MAX_INSTANT
        }
    }

    /// Whether the session must log in before a request made at `now`.
    pub fn needs_login(&self, now: i128) -> (res: bool)
        ensures
            res == (now > token_expiry(self@.3)),
    {
        now > self.token_expires_at()
    }

    /// Whether the session must log in before a request made now.
    pub fn token_expired(&self) -> (res: bool)
        ensures
            exists|now: int| is_instant(now) && res == (now > token_expiry(self@.3)),
    {
        let now = now_unix_nanos();
        self.needs_login(now)
    }

    /// Takes the outcome of a login attempt made at `now`: a token is set
    /// and the session is ready; a busy service is tried again; any other
    /// failure ends the attempt.
    pub fn after_login_at(&mut self, outcome: Result<String, ModuleError>, now: i128) -> (res:
        LoginStep)
        requires
            is_instant(now as int),
        ensures
            match outcome {
                Ok(t) => res is Ready && final(self)@ == (old(self)@.0, old(self)@.1, t@, now as int),
                Err(ModuleError::RetryLogin) => res is Retry && final(self)@ == old(self)@,
                Err(e) => res == LoginStep::Failed(e) && final(self)@ == old(self)@,
            },
    {
        match outcome {
            Ok(token) => {
                self.update_token_at(token, now);
                LoginStep::Ready
            },
            Err(ModuleError::RetryLogin) => LoginStep::Retry,
            Err(error) => LoginStep::Failed(error),
        }
    }

    /// Takes the outcome of a login attempt made now.
    pub fn after_login(&mut self, outcome: Result<String, ModuleError>) -> (res: LoginStep)
        ensures
            match outcome {
                Ok(t) => res is Ready && final(self)@.0 == old(self)@.0 && final(self)@.1 == old(
                    self,
                )@.1 && final(self)@.2 == t@ && is_instant(final(self)@.3),
                Err(ModuleError::RetryLogin) => res is Retry && final(self)@ == old(self)@,
                Err(e) => res == LoginStep::Failed(e) && final(self)@ == old(self)@,
            },
    {
        let now = now_unix_nanos();
        self.after_login_at(outcome, now)
    }
}

/// A token set at a given time is used for 39 minutes: the session logs in
/// again exactly when more than 39 minutes have passed since then.
pub proof fn lemma_token_lifetime(updated: int, now: int)
    requires
        is_instant(updated),
        is_instant(now),
    ensures
        (now > token_expiry(updated)) <==> (now - updated > TOKEN_LIFETIME_NANOS),
{
}

/// After a token is set at time `now`, requests up to 39 minutes later use
/// it without logging in again.
pub proof fn lemma_fresh_token_is_used(now: int, later: int)
    requires
        is_instant(now),
        now <= later <= now + TOKEN_LIFETIME_NANOS,
        is_instant(later),
    ensures
        !(later > token_expiry(now)),
{
}

/// The outcome of a login request: a conflict means that the service is
/// busy with another login and the request should be made again.
pub fn login_outcome(response: Result<String, ModuleError>) -> (res: Result<String, ModuleError>)
    ensures
        match response {
            Err(ModuleError::HttpStatus { status }) => status == 409 ==> res matches Err(
                ModuleError::RetryLogin,
            ),
            _ => true,
        },
        match response {
            Err(ModuleError::HttpStatus { status }) => status != 409 ==> res == response,
            _ => res == response,
        },
{
    match response {
        Err(ModuleError::HttpStatus { status }) => {
            if status == 409 {
                Err(ModuleError::RetryLogin)
            } else {
                Err(ModuleError::HttpStatus { status })
            }
        },
        other => other,
    }
}

/// Whether a response status means success: any code from 200 to 299; any
/// other is reported as an error.
pub fn check_status(status: u16) -> (res: Result<(), ModuleError>)
    ensures
        200 <= status <= 299 ==> res is Ok,
        !(200 <= status <= 299) ==> res == Err::<(), ModuleError>(ModuleError::HttpStatus { status }),
{
    if 200 <= status && status <= 299 {
        Ok(())
    } else {
        Err(ModuleError::HttpStatus { status })
    }
}

/// The cookie that carries a session token.
pub fn token_cookie(token: &str) -> (res: String)
    ensures
        res@ == "nvmc_login="@ + token@,
{
    let mut out = owned("nvmc_login=");
    push_str(&mut out, token);
    out
}

} // verus!
