//! Reading values out of the service's HTML pages.
use std::str::Chars;
use vstd::prelude::*;
use vstd::std_specs::iter::IteratorSpec;

use crate::outbound::official::error::ScraperError;
use crate::outbound::official::html::Node;
use crate::text::{
    char_debug, char_debug_of, int_error_text, owned, parse_unsigned, parse_unsigned_spec, to_digit,
    to_digit_spec,
};

verus! {

broadcast use vstd::string::group_string_axioms;

/// Takes the next character and reads it as a digit of the given radix.
/// Without a character the error names the missing `character`; a
/// character that is no digit is reported with its `{:?}` text.
pub fn to_digit_next(chars: &mut Chars, radix: u32) -> (res: Result<u32, ScraperError>)
    requires
        2 <= radix <= 36,
    ensures
        (*old(chars)).remaining().len() == 0 ==> (*final(chars)).remaining() == (*old(chars)).remaining(),
        (*old(chars)).remaining().len() > 0 ==> (*final(chars)).remaining() == (*old(chars)).remaining().drop_first(),
        (*old(chars)).remaining().len() == 0 ==> (res matches Err(ScraperError::MissingElement { element }) && element@ == "character"@),
        (*old(chars)).remaining().len() > 0 ==> match to_digit_spec((*old(chars)).remaining()[0], radix) {
            Some(d) => res == Ok::<u32, ScraperError>(d as u32),
            None => res matches Err(ScraperError::InvalidValue { field, value }) && field@ == "character"@
                && value@ == char_debug_of((*old(chars)).remaining()[0]),
        },
{
    let next = chars.next();
    let character = match next {
        None => return Err(ScraperError::MissingElement { element: owned("character") }),
        Some(c) => c,
    };
    match to_digit(character, radix) {
        Some(d) => Ok(d),
        None => Err(ScraperError::InvalidValue { field: owned("character"), value: char_debug(character) }),
    }
}

/// The value of the first attribute with the given name.
pub open spec fn attr_value(attrs: Seq<(Seq<char>, Seq<char>)>, name: Seq<char>) -> Option<Seq<char>>
    decreases attrs.len(),
{
    if attrs.len() == 0 {
        None
    } else if attrs[0].0 == name {
        Some(attrs[0].1)
    } else {
        attr_value(attrs.drop_first(), name)
    }
}

/// The value of an attribute that an element must have.
pub fn parse_required_attr<'a>(element: &'a Node, attribute: &str) -> (res: Result<
    &'a str,
    ScraperError,
>)
    ensures
        match attr_value(element@.1, attribute@) {
            Some(v) => res matches Ok(r) && r@ == v,
            None => res matches Err(ScraperError::MissingAttribute { attribute: a }) && a@
                == attribute@,
        },
{
    let mut i: usize = 0;
    assert(element@.1.skip(0) =~= element@.1);
    while i < element.attrs.len()
        invariant
            i <= element.attrs@.len(),
            attr_value(element@.1, attribute@) == attr_value(element@.1.skip(i as int), attribute@),
        decreases element.attrs@.len() - i,
    {
        let ghost rest = element@.1.skip(i as int);
        assert(rest[0] == (element.attrs@[i as int].0@, element.attrs@[i as int].1@));
        if crate::text::str_eq(element.attrs[i].0.as_str(), attribute) {
            return Ok(element.attrs[i].1.as_str());
        }
        assert(rest.drop_first() =~= element@.1.skip(i + 1));
        i = i + 1;
    }
    Err(ScraperError::MissingAttribute { attribute: owned(attribute) })
}

/// The value of an attribute that an element must have, read as a `u8`;
/// a value that is no `u8` is reported with the message of the parse error.
pub fn parse_u8_attr(element: &Node, attribute: &str) -> (res: Result<u8, ScraperError>)
    ensures
        match attr_value(element@.1, attribute@) {
            None => res matches Err(ScraperError::MissingAttribute { attribute: a }) && a@
                == attribute@,
            Some(v) => match parse_unsigned_spec(v, 255) {
                Ok(n) => res == Ok::<u8, ScraperError>(n as u8),
                Err(kind) => res matches Err(ScraperError::InvalidValue { field, value }) && field@
                    == attribute@ && value@ == int_error_text(kind),
            },
        },
{
    let text = parse_required_attr(element, attribute)?;
    match parse_unsigned(text, 255) {
        Ok(n) => Ok(n as u8),
        Err(kind) => Err(ScraperError::InvalidValue { field: owned(attribute), value: kind.message() }),
    }
}

/// The row and column of a coordinate text: its first two characters read
/// as hex digits; what follows them is ignored. An error holds the first
/// character that is no hex digit, or `None` when a character is missing.
pub open spec fn coordinate_digits(s: Seq<char>) -> Result<(u8, u8), Option<char>> {
    if s.len() == 0 {
        Err(None)
    } else {
        match to_digit_spec(s[0], 16) {
            None => Err(Some(s[0])),
            Some(r) => if s.len() == 1 {
                Err(None)
            } else {
                match to_digit_spec(s[1], 16) {
                    None => Err(Some(s[1])),
                    Some(c) => Ok((r as u8, c as u8)),
                }
            },
        }
    }
}

/// Whether a result reports what `coordinate_digits` gives.
pub open spec fn coordinate_result_matches(
    res: Result<(u8, u8), ScraperError>,
    expected: Result<(u8, u8), Option<char>>,
) -> bool {
    match expected {
        Ok(rc) => res == Ok::<(u8, u8), ScraperError>(rc),
        Err(None) => res matches Err(ScraperError::MissingElement { element }) && element@
            == "character"@,
        Err(Some(c)) => res matches Err(ScraperError::InvalidValue { field, value }) && field@
            == "character"@ && value@ == char_debug_of(c),
    }
}

/// The row and column of a slot selection such as `AF`.
pub fn sel_to_row_and_col(sel: &str) -> (res: Result<(u8, u8), ScraperError>)
    ensures
        coordinate_result_matches(res, coordinate_digits(sel@)),        res matches Ok((r, c)) ==> sel@.len() >= 2 && to_digit_spec(sel@[0], 16) == Some(r as nat)
            && to_digit_spec(sel@[1], 16) == Some(c as nat),
        (sel@.len() >= 2 && to_digit_spec(sel@[0], 16) is Some && to_digit_spec(sel@[1], 16) is Some)
            ==> res is Ok,
{
    let mut chars = sel.chars();
    proof {
        vstd::string::axiom_spec_iter(sel);
    }
    let row = to_digit_next(&mut chars, 16)?;
    let col = to_digit_next(&mut chars, 16)?;
    Ok((row as u8, col as u8))
}

} // verus!
