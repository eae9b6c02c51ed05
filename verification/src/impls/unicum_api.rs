//! The client for the classic pages: its errors, how they are reported, and
//! the cookie that carries its token.
use vstd::prelude::*;

use reqwest::RequestBuilder;

use crate::entities::InternalError;
use crate::text::{owned, push_str};

/// The session with the service, shared with the other client.
pub use crate::outbound::official::client::UnicumApi;

pub mod get_sales;
pub mod get_state;
pub mod get_stock;
pub mod set_stock;
pub mod utils;

verus! {

/// Why an operation of the client failed.
#[derive(Debug)]
pub enum ModuleError {
    RetryLogin,
    ParseError { cause: String },
    ReqwestError { message: String },
    JsonError { message: String },
}

/// The message of a client error. A JSON error is displayed like a
/// transport error.
pub open spec fn module_error_text(e: ModuleError) -> Seq<char> {
    match e {
        ModuleError::RetryLogin => "Retry the login request"@,
        ModuleError::ParseError { cause } => "Failed to parse: "@ + cause@,
        ModuleError::ReqwestError { message } => "Reqwest error: "@ + message@,
        ModuleError::JsonError { message } => "Reqwest error: "@ + message@,
    }
}

/// The cookie that carries a session token to the classic pages, scoped to
/// their path.
pub open spec fn token_cookie_text(token: Seq<char>) -> Seq<char> {
    "nvmc_login="@ + token + "; nvmc_root=/n/"@
}

/// The cookie that carries a session token to the classic pages, scoped to
/// their path.
pub fn token_cookie(token: &str) -> (res: String)
    ensures
        res@ == token_cookie_text(token@),
{
    let mut out = owned("nvmc_login=");
    push_str(&mut out, token);
    push_str(&mut out, "; nvmc_root=/n/");
    out
}

/// A user as the service describes it: the token it handed out.
#[derive(Debug)]
pub struct User {
    token: String,
}

#[verifier::external_type_specification]
#[verifier::external_body]
pub struct ExRequestBuilder(RequestBuilder);

/// The headers a request being built holds: each header name, in lower
/// case, with its values as bytes in the order they were added; `None` once
/// building the request has failed.
pub uninterp spec fn request_headers(builder: RequestBuilder) -> Option<
    Map<Seq<char>, Seq<Seq<u8>>>,
>;

/// Whether a byte may stand in a header value: a visible character, a
/// space, a tab or any byte of a multi-byte character, not DEL.
pub open spec fn header_value_byte(b: u8) -> bool {
    (b >= 32 && b != 127) || b == 9
}

/// Whether every byte of a header value may stand there.
pub open spec fn header_value_ok(bytes: Seq<u8>) -> bool {
    forall|i: int| 0 <= i < bytes.len() ==> header_value_byte(#[trigger] bytes[i])
}

/// The headers with one more value appended under `name`.
pub open spec fn append_header(
    headers: Map<Seq<char>, Seq<Seq<u8>>>,
    name: Seq<char>,
    value: Seq<u8>,
) -> Map<Seq<char>, Seq<Seq<u8>>> {
    if headers.contains_key(name) {
        headers.insert(name, headers[name].push(value))
    } else {
        headers.insert(name, seq![value])
    }
}

/// What a request being built holds once `value` is added under `name`:
/// nothing more once building has failed; the value appended when its bytes
/// may stand in a header; a failed request otherwise.
pub open spec fn headers_after_append(
    before: Option<Map<Seq<char>, Seq<Seq<u8>>>>,
    name: Seq<char>,
    value: Seq<char>,
) -> Option<Map<Seq<char>, Seq<Seq<u8>>>> {
    match before {
        None => None,
        Some(h) => if header_value_ok(vstd::utf8::encode_utf8(value)) {
            Some(append_header(h, name, vstd::utf8::encode_utf8(value)))
        } else {
            None
        },
    }
}

/// How many header names a request may hold before one more header is
/// added: `HeaderMap` panics when it must grow past its largest size, which
/// below this many names it never must.
pub const HEADER_NAMES_ROOM: usize = 6553;

/// Whether a request being built can take one more header without its map
/// outgrowing the largest size.
pub open spec fn has_room_for_header(headers: Option<Map<Seq<char>, Seq<Seq<u8>>>>) -> bool {
    headers matches Some(h) ==> h.dom().len() <= HEADER_NAMES_ROOM
}

/// `RequestBuilder::header` of reqwest with the name `Cookie`. Claims what
/// its source does: a builder that has failed stays failed; otherwise the
/// value, as its UTF-8 bytes, is appended under the name `cookie` (the
/// standard name, in lower case) when every byte is one `HeaderValue`
/// accepts, and building fails when one is not.
#[verifier::external_body]
fn with_cookie_header(builder: RequestBuilder, cookie: String) -> (res: RequestBuilder)
    requires
        has_room_for_header(request_headers(builder)),
    ensures
        request_headers(res) == headers_after_append(
            request_headers(builder),
            "cookie"@,
            cookie@,
        ),
{
    builder.header("Cookie", cookie)
}

/// Requests that can carry a session token.
pub trait AddTokenCookie: Sized {
    /// Whether the request can take one more header.
    spec fn has_header_room(&self) -> bool;

    /// The request with the token's cookie added.
    fn add_token_cookie(self, token: String) -> Self
        requires
            self.has_header_room(),
    ;
}

impl AddTokenCookie for RequestBuilder {
    open spec fn has_header_room(&self) -> bool {
        has_room_for_header(request_headers(*self))
    }

    /// Adds the cookie of `token_cookie` as the `Cookie` header.
    fn add_token_cookie(self, token: String) -> (res: Self)
        ensures
            request_headers(res) == headers_after_append(
                request_headers(self),
                "cookie"@,
                token_cookie_text(token@),
            ),
    {
        let cookie = token_cookie(token.as_str());
        with_cookie_header(self, cookie)
    }
}

/// A parse error with the given cause.
pub fn parse_err(cause: String) -> (res: ModuleError)
    ensures
        res == (ModuleError::ParseError { cause }),
{
    ModuleError::ParseError { cause }
}

impl ModuleError {
    /// The message the error displays.
    pub fn message(&self) -> (res: String)
        ensures
            res@ == module_error_text(*self),
    {
        match self {
            ModuleError::RetryLogin => owned("Retry the login request"),
            ModuleError::ParseError { cause } => {
                let mut out = owned("Failed to parse: ");
                push_str(&mut out, cause.as_str());
                out
            },
            ModuleError::ReqwestError { message } => {
                let mut out = owned("Reqwest error: ");
                push_str(&mut out, message.as_str());
                out
            },
            ModuleError::JsonError { message } => {
                let mut out = owned("Reqwest error: ");
                push_str(&mut out, message.as_str());
                out
            },
        }
    }

    /// The internal error this error is reported as.
    pub fn into_internal_error(self) -> (res: InternalError)
        ensures
            match self {
                ModuleError::ReqwestError { message } => res matches InternalError::NetworkError {
                    cause,
                } && cause@ == message@,
                ModuleError::JsonError { message } => res matches InternalError::ParseError {
                    cause,
                } && cause@ == message@,
                ModuleError::RetryLogin => res matches InternalError::NetworkError { cause }
                    && cause@ == "Login busy, try again"@,
                ModuleError::ParseError { cause: c } => res matches InternalError::ParseError {
                    cause,
                } && cause@ == c@,
            },
    {
        match self {
            ModuleError::ReqwestError { message } => InternalError::NetworkError { cause: message },
            ModuleError::JsonError { message } => InternalError::ParseError { cause: message },
            ModuleError::RetryLogin => InternalError::NetworkError {
                cause: owned("Login busy, try again"),
            },
            ModuleError::ParseError { cause } => InternalError::ParseError { cause },
        }
    }
}

} // verus!
