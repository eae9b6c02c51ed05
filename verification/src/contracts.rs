//! What the upstream service's operations can fail with.
use vstd::prelude::*;

use crate::text::{owned, push_str};

verus! {

/// Why an operation of the upstream service failed.
#[derive(Debug)]
pub enum ContractError {
    Network { cause: String },
    Parse { cause: String },
}

/// The message of a contract error.
pub open spec fn contract_error_text(network: bool, cause: Seq<char>) -> Seq<char> {
    if network {
        "network error: "@ + cause
    } else {
        "response parsing error: "@ + cause
    }
}

impl ContractError {
    /// The message the error displays.
    pub fn message(&self) -> (res: String)
        ensures
            match self {
                ContractError::Network { cause } => res@ == contract_error_text(true, cause@),
                ContractError::Parse { cause } => res@ == contract_error_text(false, cause@),
            },
    {
        match self {
            ContractError::Network { cause } => {
                let mut out = owned("network error: ");
                push_str(&mut out, cause.as_str());
                out
            },
            ContractError::Parse { cause } => {
                let mut out = owned("response parsing error: ");
                push_str(&mut out, cause.as_str());
                out
            },
        }
    }
}

} // verus!
