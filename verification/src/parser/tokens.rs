//! The token readers: each one hands a text to a parser of the `winnow` crate
//! and states what comes back.
//!
//! A reader takes the text that is still to be read and returns what it read
//! together with the text behind it, or `None` where the token does not stand
//! at the front. Verus takes the contracts in this file on trust.

use vstd::prelude::*;
use winnow::ascii::{alphanumeric1, dec_int, dec_uint, float, line_ending};
use winnow::error::ContextError;
use winnow::token::{literal, none_of, take_until};
use winnow::Parser;
use super::text;

verus! {

/// `String::push` of the standard library appends one character.
pub assume_specification[ String::push ](s: &mut String, c: char)
    ensures
        final(s)@ == old(s)@.push(c),
;

/// Calls `winnow::token::literal` with `key`. It matches exactly where the
/// text begins with `key`, and then leaves the text behind `key`.
#[verifier::external_body]
pub(crate) fn take_literal<'a>(input: &'a str, key: &str) -> (r: Option<&'a str>)
    ensures
        match r {
            Some(rest) => text::after_literal(input@, key@) == Some(rest@),
            None => text::after_literal(input@, key@) is None,
        },
{
    let mut rest = input;
    let parsed: Result<&str, ContextError> = literal(key).parse_next(&mut rest);
    match parsed {
        Ok(_) => Some(rest),
        Err(_) => None,
    }
}

/// Calls `winnow::ascii::line_ending`, which matches a line feed, or a
/// carriage return followed by a line feed, and nothing else.
#[verifier::external_body]
pub(crate) fn take_line_ending<'a>(input: &'a str) -> (r: Option<&'a str>)
    ensures
        match r {
            Some(rest) => text::after_line_ending(input@) == Some(rest@),
            None => text::after_line_ending(input@) is None,
        },
{
    let mut rest = input;
    let parsed: Result<&str, ContextError> = line_ending(&mut rest);
    match parsed {
        Ok(_) => Some(rest),
        Err(_) => None,
    }
}

/// Calls `winnow::token::none_of` with the one character `excluded`. It takes
/// the next character of the text, and fails where the text is empty or that
/// character is `excluded`.
#[verifier::external_body]
pub(crate) fn take_char_except<'a>(input: &'a str, excluded: char) -> (r: Option<(char, &'a str)>)
    ensures
        match r {
            Some((c, rest)) => text::after_char_except(input@, excluded) == Some((c, rest@)),
            None => text::after_char_except(input@, excluded) is None,
        },
{
    let mut rest = input;
    let parsed: Result<char, ContextError> = none_of([excluded]).parse_next(&mut rest);
    match parsed {
        Ok(c) => Some((c, rest)),
        Err(_) => None,
    }
}

/// Calls `winnow::token::take_until` with no lower bound and `key`. It drops
/// the text before the first place at which `key` stands and leaves the text
/// from there on, `key` included; it fails where `key` stands nowhere.
#[verifier::external_body]
pub(crate) fn skip_until<'a>(input: &'a str, key: &str) -> (r: Option<&'a str>)
    ensures
        match r {
            Some(rest) => text::from_first(input@, key@) == Some(rest@),
            None => text::from_first(input@, key@) is None,
        },
{
    let mut rest = input;
    let parsed: Result<&str, ContextError> = take_until(0.., key).parse_next(&mut rest);
    match parsed {
        Ok(_) => Some(rest),
        Err(_) => None,
    }
}

/// Calls `winnow::ascii::dec_uint` for a `u64`. It reads a lone `0`, or a
/// digit from 1 to 9 and all digits that follow, and fails where neither
/// stands at the front or the digits write a number above `u64::MAX`.
#[verifier::external_body]
pub(crate) fn take_dec_uint<'a>(input: &'a str) -> (r: Option<(u64, &'a str)>)
    ensures
        match r {
            Some((value, rest)) => text::dec_uint(input@) == Some((value, rest@)),
            None => text::dec_uint(input@) is None,
        },
{
    let mut rest = input;
    let parsed: Result<u64, ContextError> = dec_uint(&mut rest);
    match parsed {
        Ok(value) => Some((value, rest)),
        Err(_) => None,
    }
}

/// Calls `winnow::ascii::dec_int` for an `i64`. It reads a lone `0`, or an
/// optional sign, a digit from 1 to 9 and all digits that follow, and fails
/// where neither stands at the front or the number does not fit an `i64`.
#[verifier::external_body]
pub(crate) fn take_dec_int<'a>(input: &'a str) -> (r: Option<(i64, &'a str)>)
    ensures
        match r {
            Some((value, rest)) => text::dec_int(input@) == Some((value, rest@)),
            None => text::dec_int(input@) is None,
        },
{
    let mut rest = input;
    let parsed: Result<i64, ContextError> = dec_int(&mut rest);
    match parsed {
        Ok(value) => Some((value, rest)),
        Err(_) => None,
    }
}

/// Calls `winnow::ascii::alphanumeric1`, which reads the ASCII letters and
/// digits at the front of the text and fails where there is none.
#[verifier::external_body]
pub(crate) fn take_alphanumeric<'a>(input: &'a str) -> (r: Option<(&'a str, &'a str)>)
    ensures
        match r {
            Some((word, rest)) => text::alphanumeric_word(input@) == Some((word@, rest@)),
            None => text::alphanumeric_word(input@) is None,
        },
{
    let mut rest = input;
    let parsed: Result<&str, ContextError> = alphanumeric1(&mut rest);
    match parsed {
        Ok(word) => Some((word, rest)),
        Err(_) => None,
    }
}

/// Calls `winnow::ascii::float` with a `String` as its output, so that the
/// literal comes back as it was written and no float is made of it. The
/// contract states the grammar of that function: `text::float_literal_len` is
/// its three dispatches, on the first character of the text, of the literal
/// without sign, and of the exponent.
#[verifier::external_body]
pub(crate) fn take_float<'a>(input: &'a str) -> (r: Option<(String, &'a str)>)
    ensures
        match r {
            Some((literal, rest)) => text::float_literal(input@) == Some((literal@, rest@)),
            None => text::float_literal(input@) is None,
        },
{
    let mut rest = input;
    let parsed: Result<String, ContextError> = float(&mut rest);
    match parsed {
        Ok(literal) => Some((literal, rest)),
        Err(_) => None,
    }
}

} // verus!
