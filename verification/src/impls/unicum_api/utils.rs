//! Reading digits and numbers out of the texts of the classic pages.
use std::str::Chars;
use vstd::prelude::*;
use vstd::std_specs::iter::IteratorSpec;

use crate::impls::unicum_api::ModuleError;
use crate::text::{
    char_debug, char_debug_of, float_error_message, float_error_text, float_literal,
    int_error_text, is_float_literal, owned, parse_unsigned, parse_unsigned_spec, push_char,
    push_str, to_digit, to_digit_spec, trim, trim_str,
};

verus! {

broadcast use vstd::string::group_string_axioms;

/// The cause of a character that is no digit: the character as an `Option`
/// is shown with `{:?}`.
pub open spec fn not_a_number_cause(c: char) -> Seq<char> {
    "Failed to parse Some("@ + char_debug_of(c) + ") as number"@
}

/// Takes the next character and reads it as a digit of the given radix.
/// Without a character the cause is empty.
pub fn to_digit_next(chars: &mut Chars, radix: u32) -> (res: Result<u32, ModuleError>)
    requires
        2 <= radix <= 36,
    ensures
        (*old(chars)).remaining().len() == 0 ==> (*final(chars)).remaining() == (*old(chars)).remaining(),
        (*old(chars)).remaining().len() > 0 ==> (*final(chars)).remaining() == (*old(chars)).remaining().drop_first(),
        (*old(chars)).remaining().len() == 0 ==> (res matches Err(ModuleError::ParseError { cause }) && cause@ == Seq::<char>::empty()),
        (*old(chars)).remaining().len() > 0 ==> match to_digit_spec((*old(chars)).remaining()[0], radix) {
            Some(d) => res == Ok::<u32, ModuleError>(d as u32),
            None => res matches Err(ModuleError::ParseError { cause }) && cause@
                == not_a_number_cause((*old(chars)).remaining()[0]),
        },
{
    let next = chars.next();
    let character = match next {
        None => return Err(ModuleError::ParseError { cause: String::new() }),
        Some(c) => c,
    };
    match to_digit(character, radix) {
        Some(d) => Ok(d),
        None => {
            let mut cause = owned("Failed to parse Some(");
            push_str(&mut cause, char_debug(character).as_str());
            push_str(&mut cause, ") as number");
            Err(ModuleError::ParseError { cause })
        },
    }
}

/// The row and column of a selection text: its first two characters read
/// as hex digits, or the cause of the failure.
pub open spec fn selection_digits(s: Seq<char>) -> Result<(u8, u8), Seq<char>> {
    if s.len() == 0 {
        Err(Seq::empty())
    } else {
        match to_digit_spec(s[0], 16) {
            None => Err(not_a_number_cause(s[0])),
            Some(r) => if s.len() == 1 {
                Err(Seq::empty())
            } else {
                match to_digit_spec(s[1], 16) {
                    None => Err(not_a_number_cause(s[1])),
                    Some(c) => Ok((r as u8, c as u8)),
                }
            },
        }
    }
}

/// Whether a result reports what `selection_digits` gives.
pub open spec fn selection_result_matches(
    res: Result<(u8, u8), ModuleError>,
    expected: Result<(u8, u8), Seq<char>>,
) -> bool {
    match expected {
        Ok(rc) => res == Ok::<(u8, u8), ModuleError>(rc),
        Err(c) => res matches Err(ModuleError::ParseError { cause }) && cause@ == c,
    }
}

/// The row and column of a slot selection such as `AF`.
pub fn sel_to_row_and_col(sel: &str) -> (res: Result<(u8, u8), ModuleError>)
    ensures
        selection_result_matches(res, selection_digits(sel@)),        res matches Ok((r, c)) ==> sel@.len() >= 2 && to_digit_spec(sel@[0], 16) == Some(r as nat)
            && to_digit_spec(sel@[1], 16) == Some(c as nat),
        (sel@.len() >= 2 && to_digit_spec(sel@[0], 16) is Some && to_digit_spec(sel@[1], 16) is Some)
            ==> res is Ok,
{
    let mut chars = sel.chars();
    proof {
        vstd::string::axiom_spec_iter(sel);
    }
    let row = to_digit_next(&mut chars, 16)?;
    let col = to_digit_next(&mut chars, 16)?;
    Ok((row as u8, col as u8))
}

/// A value that can be read as a string slice for a moment.
pub trait AsStrRef {
    /// The text the value is read as.
    spec fn as_text(&self) -> Seq<char>;

    /// Calls `f` on the value read as a string slice.
    fn with_str<R, F: FnOnce(&str) -> R>(&self, f: F) -> (res: R)
        requires
            forall|s: &str| s@ == self.as_text() ==> call_requires(f, (s,)),
        ensures
            exists|s: &str| s@ == self.as_text() && call_ensures(f, (s,), res),
    ;
}

impl<'a> AsStrRef for &'a str {
    open spec fn as_text(&self) -> Seq<char> {
        (*self)@
    }

    fn with_str<R, F: FnOnce(&str) -> R>(&self, f: F) -> (res: R) {
        let text: &str = *self;
        assert(text@ == self.as_text());
        f(text)
    }
}

impl AsStrRef for char {
    open spec fn as_text(&self) -> Seq<char> {
        seq![*self]
    }

    fn with_str<R, F: FnOnce(&str) -> R>(&self, f: F) -> (res: R) {
        let mut text = String::new();
        push_char(&mut text, *self);
        assert(text@ =~= seq![*self]);
        f(text.as_str())
    }
}

/// The texts of a list of pieces.
pub open spec fn pieces_view<U: AsStrRef>(pieces: Seq<U>) -> Seq<Seq<char>> {
    pieces.map_values(|p: U| p.as_text())
}

/// What a piece gives read, trimmed, as a `u32`: the number, or the text of
/// the parse error.
pub open spec fn count_text(text: Seq<char>) -> Result<u32, Seq<char>> {
    match parse_unsigned_spec(trim(text), 0xffff_ffff) {
        Ok(n) => Ok(n as u32),
        Err(k) => Err(int_error_text(k)),
    }
}

/// What reading the next piece as a `u32` gives: the trimmed piece parsed,
/// the text of the parse error, or an empty cause when there is no piece.
pub open spec fn next_count(pieces: Seq<Seq<char>>, position: int) -> Result<u32, Seq<char>> {
    if position >= pieces.len() {
        Err(Seq::empty())
    } else {
        count_text(pieces[position])
    }
}

fn count_of(s: &str) -> (res: Result<u32, ModuleError>)
    ensures
        match count_text(s@) {
            Ok(n) => res == Ok::<u32, ModuleError>(n),
            Err(c) => res matches Err(ModuleError::ParseError { cause }) && cause@ == c,
        },
{
    match parse_unsigned(trim_str(s), 0xffff_ffff) {
        Ok(n) => Ok(n as u32),
        Err(kind) => Err(ModuleError::ParseError { cause: kind.message() }),
    }
}

/// Reads the next of a list of pieces, trimmed, as a `u32`, and moves past
/// it.
pub fn parse_next<U: AsStrRef>(pieces: &[U], position: &mut usize) -> (res: Result<u32, ModuleError>)
    requires
        *old(position) <= pieces@.len(),
    ensures
        *old(position) < pieces@.len() ==> *final(position) == *old(position) + 1,
        *old(position) == pieces@.len() ==> *final(position) == *old(position),
        match next_count(pieces_view(pieces@), *old(position) as int) {
            Ok(n) => res == Ok::<u32, ModuleError>(n),
            Err(c) => res matches Err(ModuleError::ParseError { cause }) && cause@ == c,
        },
{
    if *position >= pieces.len() {
        return Err(ModuleError::ParseError { cause: String::new() });
    }
    let piece = &pieces[*position];
    assert(pieces_view(pieces@)[*position as int] == piece.as_text());
    *position = *position + 1;
    piece.with_str(count_of)
}

/// What a piece gives read, trimmed, as a floating-point number: its
/// trimmed text when it is one, or the text of the parse error.
pub open spec fn float_text(text: Seq<char>) -> Result<Seq<char>, Seq<char>> {
    if is_float_literal(trim(text)) {
        Ok(trim(text))
    } else {
        Err(float_error_text(trim(text)))
    }
}

/// What reading the next piece as a floating-point number gives: the
/// trimmed piece when it is one, the text of the parse error, or an empty
/// cause when there is no piece.
pub open spec fn next_float(pieces: Seq<Seq<char>>, position: int) -> Result<Seq<char>, Seq<char>> {
    if position >= pieces.len() {
        Err(Seq::empty())
    } else {
        float_text(pieces[position])
    }
}

fn float_of(s: &str) -> (res: Result<String, ModuleError>)
    ensures
        match float_text(s@) {
            Ok(t) => res matches Ok(r) && r@ == t,
            Err(c) => res matches Err(ModuleError::ParseError { cause }) && cause@ == c,
        },
{
    let text = trim_str(s);
    if float_literal(text) {
        Ok(owned(text))
    } else {
        Err(ModuleError::ParseError { cause: float_error_message(text) })
    }
}

/// Reads the next of a list of pieces, trimmed, as a floating-point number,
/// and moves past it; the number is handed back as its text.
pub fn parse_next_float<U: AsStrRef>(pieces: &[U], position: &mut usize) -> (res: Result<
    String,
    ModuleError,
>)
    requires
        *old(position) <= pieces@.len(),
    ensures
        *old(position) < pieces@.len() ==> *final(position) == *old(position) + 1,
        *old(position) == pieces@.len() ==> *final(position) == *old(position),
        match next_float(pieces_view(pieces@), *old(position) as int) {
            Ok(t) => res matches Ok(r) && r@ == t,
            Err(c) => res matches Err(ModuleError::ParseError { cause }) && cause@ == c,
        },
{
    if *position >= pieces.len() {
        return Err(ModuleError::ParseError { cause: String::new() });
    }
    let piece = &pieces[*position];
    assert(pieces_view(pieces@)[*position as int] == piece.as_text());
    *position = *position + 1;
    piece.with_str(float_of)
}

} // verus!
