//! Base64 decoding (through the `base64` crate) and upper-case hex encoding.
use base64::Engine;
use vstd::prelude::*;

use crate::text::{format_unsigned, owned, push_char, push_str, decimal};

verus! {

/// Why a text is not standard, padded Base64 (`base64::DecodeError`).
#[derive(Clone, Copy, Debug, PartialEq, Eq, Structural)]
pub enum Base64Error {
    InvalidByte { offset: usize, byte: u8 },
    InvalidLength { length: usize },
    InvalidLastSymbol { offset: usize, byte: u8 },
    InvalidPadding,
}

/// What the standard Base64 engine of the `base64` crate
/// (`general_purpose::STANDARD`: standard alphabet, canonical padding
/// required) decodes from the given bytes.
pub uninterp spec fn base64_standard_decode(input: Seq<u8>) -> Result<Seq<u8>, Base64Error>;

/// Decodes standard Base64 with `base64::engine::general_purpose::STANDARD`
/// (`Engine::decode`). Claims that the result is `base64_standard_decode` of
/// the input, the decoded bytes or the error that the crate reports.
#[verifier::external_body]
pub(crate) fn decode_base64(input: &[u8]) -> (res: Result<Vec<u8>, Base64Error>)
    ensures
        match base64_standard_decode(input@) {
            Ok(v) => res matches Ok(r) && r@ == v,
            Err(e) => res == Err::<Vec<u8>, Base64Error>(e),
        },
{
    match base64::engine::general_purpose::STANDARD.decode(input) {
        Ok(bytes) => Ok(bytes),
        Err(base64::DecodeError::InvalidByte(offset, byte)) => Err(Base64Error::InvalidByte { offset, byte }),
        Err(base64::DecodeError::InvalidLength(length)) => Err(Base64Error::InvalidLength { length }),
        Err(base64::DecodeError::InvalidLastSymbol(offset, byte)) => Err(Base64Error::InvalidLastSymbol { offset, byte }),
        Err(base64::DecodeError::InvalidPadding) => Err(Base64Error::InvalidPadding),
    }
}

/// The message of a Base64 error (`<DecodeError as Display>`).
pub open spec fn base64_error_text(e: Base64Error) -> Seq<char> {
    match e {
        Base64Error::InvalidByte { offset, byte } => "Invalid symbol "@ + decimal(byte as nat)
            + ", offset "@ + decimal(offset as nat) + "."@,
        Base64Error::InvalidLength { length } => "Invalid input length: "@ + decimal(length as nat),
        Base64Error::InvalidLastSymbol { offset, byte } => "Invalid last symbol "@ + decimal(
            byte as nat,
        ) + ", offset "@ + decimal(offset as nat) + "."@,
        Base64Error::InvalidPadding => "Invalid padding"@,
    }
}

impl Base64Error {
    /// The message the error displays.
    pub fn message(&self) -> (res: String)
        ensures
            res@ == base64_error_text(*self),
    {
        match *self {
            Base64Error::InvalidByte { offset, byte } => {
                let mut out = owned("Invalid symbol ");
                push_str(&mut out, format_unsigned(byte as u64).as_str());
                push_str(&mut out, ", offset ");
                push_str(&mut out, format_unsigned(offset as u64).as_str());
                push_str(&mut out, ".");
                out
            },
            Base64Error::InvalidLength { length } => {
                let mut out = owned("Invalid input length: ");
                push_str(&mut out, format_unsigned(length as u64).as_str());
                out
            },
            Base64Error::InvalidLastSymbol { offset, byte } => {
                let mut out = owned("Invalid last symbol ");
                push_str(&mut out, format_unsigned(byte as u64).as_str());
                push_str(&mut out, ", offset ");
                push_str(&mut out, format_unsigned(offset as u64).as_str());
                push_str(&mut out, ".");
                out
            },
            Base64Error::InvalidPadding => owned("Invalid padding"),
        }
    }
}

/// The upper-case hex digit of a value below 16.
pub open spec fn hex_digit(d: nat) -> char {
    if d < 10 {
        crate::text::digit_char(d)
    } else if d == 10 {
        'A'
    } else if d == 11 {
        'B'
    } else if d == 12 {
        'C'
    } else if d == 13 {
        'D'
    } else if d == 14 {
        'E'
    } else {
        'F'
    }
}

/// Each byte as two upper-case hex digits (`{:02X}`), in order.
pub open spec fn hex_upper(bytes: Seq<u8>) -> Seq<char>
    decreases bytes.len(),
{
    if bytes.len() == 0 {
        Seq::empty()
    } else {
        hex_upper(bytes.drop_last()) + seq![
            hex_digit((bytes.last() / 16) as nat),
            hex_digit((bytes.last() % 16) as nat),
        ]
    }
}

fn hex_char(d: u8) -> (c: char)
    requires
        d < 16,
    ensures
        c == hex_digit(d as nat),
{
    if d == 0 { '0' }
    else if d == 1 { '1' }
    else if d == 2 { '2' }
    else if d == 3 { '3' }
    else if d == 4 { '4' }
    else if d == 5 { '5' }
    else if d == 6 { '6' }
    else if d == 7 { '7' }
    else if d == 8 { '8' }
    else if d == 9 { '9' }
    else if d == 10 { 'A' }
    else if d == 11 { 'B' }
    else if d == 12 { 'C' }
    else if d == 13 { 'D' }
    else if d == 14 { 'E' }
    else { 'F' }
}

/// Encodes bytes as upper-case hex, two digits per byte.
pub fn to_hex_upper(bytes: &[u8]) -> (res: String)
    ensures
        res@ == hex_upper(bytes@),
{
    let mut out = String::new();
    let mut i: usize = 0;
    while i < bytes.len()
        invariant
            i <= bytes@.len(),
            out@ == hex_upper(bytes@.take(i as int)),
        decreases bytes@.len() - i,
    {
        let b = bytes[i];
        push_char(&mut out, hex_char(b / 16));
        push_char(&mut out, hex_char(b % 16));
        proof {
            let t = bytes@.take(i + 1);
            assert(t.drop_last() =~= bytes@.take(i as int));
            assert(out@ =~= hex_upper(t));
        }
        i = i + 1;
    }
    assert(bytes@.take(bytes@.len() as int) =~= bytes@);
    out
}

} // verus!
