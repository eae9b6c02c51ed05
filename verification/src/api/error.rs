//! The errors of the HTTP API and the status codes they are answered with.
use vstd::prelude::*;

use crate::contracts::ContractError;
use crate::text::owned;

verus! {

/// An error answered by the HTTP API.
#[derive(Clone, Debug)]
pub enum ApiError {
    BadRequest { message: String },
    Unauthorized,
    Forbidden,
    Internal,
    Upstream,
}

/// The HTTP status code of each kind of error.
pub open spec fn status_of(e: ApiError) -> u16 {
    match e {
        ApiError::BadRequest { .. } => 400,
        ApiError::Unauthorized => 401,
        ApiError::Forbidden => 403,
        ApiError::Internal => 500,
        ApiError::Upstream => 502,
    }
}

impl ApiError {
    /// A bad request with the given message.
    pub fn bad_request(message: &str) -> (res: Self)
        ensures
            res matches ApiError::BadRequest { message: m } && m@ == message@,
    {
        ApiError::BadRequest { message: owned(message) }
    }

    /// The HTTP status code the error is answered with.
    pub fn status_code(&self) -> (res: u16)
        ensures
            res == status_of(*self),
    {
        match self {
            ApiError::BadRequest { .. } => 400,
            ApiError::Unauthorized => 401,
            ApiError::Forbidden => 403,
            ApiError::Internal => 500,
            ApiError::Upstream => 502,
        }
    }

    /// A failure of the upstream service is answered as an upstream error,
    /// whatever its cause.
    pub fn from_contract_error(error: ContractError) -> (res: Self)
        ensures
            res is Upstream,
    {
        ApiError::Upstream
    }
}

impl From<ContractError> for ApiError {
    fn from(error: ContractError) -> (res: Self) {
        ApiError::from_contract_error(error)
    }
}

impl vstd::std_specs::convert::FromSpecImpl<ContractError> for ApiError {
    open spec fn obeys_from_spec() -> bool {
        true
    }

    open spec fn from_spec(error: ContractError) -> ApiError {
        ApiError::Upstream
    }
}

} // verus!
