//! The errors of the upstream client, and how they are reported.
use vstd::prelude::*;

use crate::contracts::ContractError;
use crate::text::{decimal, format_unsigned, owned, push_str, str_debug, str_debug_of};

verus! {

/// Why a page of the service could not be read.
#[derive(Debug)]
pub enum ScraperError {
    JaggedTable { cause: String },
    MissingElement { element: String },
    MissingAttribute { attribute: String },
    EmptyValue { what: String },
    InvalidValue { field: String, value: String },
    InvalidDate { value: String, cause: String },
    SalesColumnCountMismatch { slot: String, expected: usize, actual: usize },
    InvalidSalesCell { value: String, cause: String },
    ZeroSalesCount,
    ParseError { cause: String },
}

/// A scraper error with its texts as character sequences.
pub ghost enum ScraperErrorView {
    JaggedTable { cause: Seq<char> },
    MissingElement { element: Seq<char> },
    MissingAttribute { attribute: Seq<char> },
    EmptyValue { what: Seq<char> },
    InvalidValue { field: Seq<char>, value: Seq<char> },
    InvalidDate { value: Seq<char>, cause: Seq<char> },
    SalesColumnCountMismatch { slot: Seq<char>, expected: usize, actual: usize },
    InvalidSalesCell { value: Seq<char>, cause: Seq<char> },
    ZeroSalesCount,
    ParseError { cause: Seq<char> },
}

impl View for ScraperError {
    type V = ScraperErrorView;

    open spec fn view(&self) -> ScraperErrorView {
        match self {
            ScraperError::JaggedTable { cause } => ScraperErrorView::JaggedTable { cause: cause@ },
            ScraperError::MissingElement { element } => ScraperErrorView::MissingElement {
                element: element@,
            },
            ScraperError::MissingAttribute { attribute } => ScraperErrorView::MissingAttribute {
                attribute: attribute@,
            },
            ScraperError::EmptyValue { what } => ScraperErrorView::EmptyValue { what: what@ },
            ScraperError::InvalidValue { field, value } => ScraperErrorView::InvalidValue {
                field: field@,
                value: value@,
            },
            ScraperError::InvalidDate { value, cause } => ScraperErrorView::InvalidDate {
                value: value@,
                cause: cause@,
            },
            ScraperError::SalesColumnCountMismatch { slot, expected, actual } =>
                ScraperErrorView::SalesColumnCountMismatch {
                slot: slot@,
                expected: *expected,
                actual: *actual,
            },
            ScraperError::InvalidSalesCell { value, cause } => ScraperErrorView::InvalidSalesCell {
                value: value@,
                cause: cause@,
            },
            ScraperError::ZeroSalesCount => ScraperErrorView::ZeroSalesCount,
            ScraperError::ParseError { cause } => ScraperErrorView::ParseError { cause: cause@ },
        }
    }
}

/// The message of a scraper error.
pub open spec fn scraper_error_text(e: ScraperError) -> Seq<char> {
    match e {
        ScraperError::JaggedTable { cause } => "Jagged table: "@ + cause@,
        ScraperError::MissingElement { element } => "Missing required element: "@ + element@,
        ScraperError::MissingAttribute { attribute } => "Missing required attribute: "@
            + attribute@,
        ScraperError::EmptyValue { what } => "Empty value for "@ + what@,
        ScraperError::InvalidValue { field, value } => "Invalid "@ + field@ + " value "@
            + str_debug_of(value@),
        ScraperError::InvalidDate { value, cause } => "Invalid date "@ + str_debug_of(value@)
            + ": "@ + cause@,
        ScraperError::SalesColumnCountMismatch { slot, expected, actual } => "Sales row for slot "@
            + str_debug_of(slot@) + " has "@ + decimal(actual as nat) + " date cells, expected "@
            + decimal(expected as nat),
        ScraperError::InvalidSalesCell { value, cause } => "Invalid sales cell "@ + str_debug_of(
            value@,
        ) + ": "@ + cause@,
        ScraperError::ZeroSalesCount => "Sales count cannot be zero"@,
        ScraperError::ParseError { cause } => "Failed to parse: "@ + cause@,
    }
}

impl ScraperError {
    /// The message the error displays.
    pub fn message(&self) -> (res: String)
        ensures
            res@ == scraper_error_text(*self),
    {
        match self {
            ScraperError::JaggedTable { cause } => {
                let mut out = owned("Jagged table: ");
                push_str(&mut out, cause.as_str());
                out
            },
            ScraperError::MissingElement { element } => {
                let mut out = owned("Missing required element: ");
                push_str(&mut out, element.as_str());
                out
            },
            ScraperError::MissingAttribute { attribute } => {
                let mut out = owned("Missing required attribute: ");
                push_str(&mut out, attribute.as_str());
                out
            },
            ScraperError::EmptyValue { what } => {
                let mut out = owned("Empty value for ");
                push_str(&mut out, what.as_str());
                out
            },
            ScraperError::InvalidValue { field, value } => {
                let mut out = owned("Invalid ");
                push_str(&mut out, field.as_str());
                push_str(&mut out, " value ");
                push_str(&mut out, str_debug(value.as_str()).as_str());
                out
            },
            ScraperError::InvalidDate { value, cause } => {
                let mut out = owned("Invalid date ");
                push_str(&mut out, str_debug(value.as_str()).as_str());
                push_str(&mut out, ": ");
                push_str(&mut out, cause.as_str());
                out
            },
            ScraperError::SalesColumnCountMismatch { slot, expected, actual } => {
                let mut out = owned("Sales row for slot ");
                push_str(&mut out, str_debug(slot.as_str()).as_str());
                push_str(&mut out, " has ");
                push_str(&mut out, format_unsigned(*actual as u64).as_str());
                push_str(&mut out, " date cells, expected ");
                push_str(&mut out, format_unsigned(*expected as u64).as_str());
                out
            },
            ScraperError::InvalidSalesCell { value, cause } => {
                let mut out = owned("Invalid sales cell ");
                push_str(&mut out, str_debug(value.as_str()).as_str());
                push_str(&mut out, ": ");
                push_str(&mut out, cause.as_str());
                out
            },
            ScraperError::ZeroSalesCount => owned("Sales count cannot be zero"),
            ScraperError::ParseError { cause } => {
                let mut out = owned("Failed to parse: ");
                push_str(&mut out, cause.as_str());
                out
            },
        }
    }
}

/// The text of an HTTP status code (`<http::StatusCode as Display>`): the
/// code, and its canonical reason phrase where there is one.
pub uninterp spec fn http_status_text(code: u16) -> Seq<char>;

/// Formats an HTTP status code as `http::StatusCode` displays it; a number
/// outside `100..=999`, which `StatusCode` refuses, is shown as the bare
/// number. Claims only that the text is `http_status_text(code)`.
#[verifier::external_body]
pub(crate) fn status_text(code: u16) -> (res: String)
    ensures
        res@ == http_status_text(code),
{
    match axum::http::StatusCode::from_u16(code) {
        Ok(status) => status.to_string(),
        Err(_) => code.to_string(),
    }
}

/// Why an operation of the upstream client failed.
#[derive(Debug)]
pub enum ModuleError {
    RetryLogin,
    HttpStatus { status: u16 },
    Scraper(ScraperError),
    ReqwestError { message: String },
    JsonError { message: String },
}

/// The message of an unexpected HTTP status.
pub open spec fn http_status_error_text(status: u16) -> Seq<char> {
    "Official API returned HTTP status "@ + http_status_text(status)
}

/// The message of a client error.
pub open spec fn module_error_text(e: ModuleError) -> Seq<char> {
    match e {
        ModuleError::RetryLogin => "Retry the login request"@,
        ModuleError::HttpStatus { status } => http_status_error_text(status),
        ModuleError::Scraper(s) => "Scraper error: "@ + scraper_error_text(s),
        ModuleError::ReqwestError { message } => "Reqwest error: "@ + message@,
        ModuleError::JsonError { message } => "JSON error: "@ + message@,
    }
}

/// The contract error a client error becomes: network errors for the
/// transport, the status and a busy login, parse errors for the rest.
pub open spec fn contract_error_of(e: ModuleError) -> (bool, Seq<char>) {
    match e {
        ModuleError::HttpStatus { status } => (true, http_status_error_text(status)),
        ModuleError::ReqwestError { message } => (true, message@),
        ModuleError::JsonError { message } => (false, message@),
        ModuleError::RetryLogin => (true, "Login busy, try again"@),
        ModuleError::Scraper(s) => (false, scraper_error_text(s)),
    }
}

fn http_status_message(status: u16) -> (res: String)
    ensures
        res@ == http_status_error_text(status),
{
    let mut out = owned("Official API returned HTTP status ");
    push_str(&mut out, status_text(status).as_str());
    out
}

impl ModuleError {
    /// The message the error displays.
    pub fn message(&self) -> (res: String)
        ensures
            res@ == module_error_text(*self),
    {
        match self {
            ModuleError::RetryLogin => owned("Retry the login request"),
            ModuleError::HttpStatus { status } => http_status_message(*status),
            ModuleError::Scraper(s) => {
                let mut out = owned("Scraper error: ");
                push_str(&mut out, s.message().as_str());
                out
            },
            ModuleError::ReqwestError { message } => {
                let mut out = owned("Reqwest error: ");
                push_str(&mut out, message.as_str());
                out
            },
            ModuleError::JsonError { message } => {
                let mut out = owned("JSON error: ");
                push_str(&mut out, message.as_str());
                out
            },
        }
    }

    /// The contract error this error is reported as.
    pub fn into_contract_error(self) -> (res: ContractError)
        ensures
            contract_error_of(self).0 ==> (res matches ContractError::Network { cause } && cause@
                == contract_error_of(self).1),
            !contract_error_of(self).0 ==> (res matches ContractError::Parse { cause } && cause@
                == contract_error_of(self).1),
    {
        match self {
            ModuleError::HttpStatus { status } => ContractError::Network {
                cause: http_status_message(status),
            },
            ModuleError::ReqwestError { message } => ContractError::Network { cause: message },
            ModuleError::JsonError { message } => ContractError::Parse { cause: message },
            ModuleError::RetryLogin => ContractError::Network { cause: owned("Login busy, try again") },
            ModuleError::Scraper(s) => ContractError::Parse { cause: s.message() },
        }
    }
}

impl From<ScraperError> for ModuleError {
    fn from(error: ScraperError) -> (res: Self) {
        ModuleError::Scraper(error)
    }
}

impl vstd::std_specs::convert::FromSpecImpl<ScraperError> for ModuleError {
    open spec fn obeys_from_spec() -> bool {
        true
    }

    open spec fn from_spec(error: ScraperError) -> ModuleError {
        ModuleError::Scraper(error)
    }
}

} // verus!
