//! The literals a selector compares a value with, and the ways of comparing.

use crate::document::Json;
use crate::selection::captures::{Captures, SpecCaptures};
use crate::text::{
    all_digits, contains, decimal_value, ends_with, has_token, parse_decimal, starts_with,
    str_contains, str_ends_with, str_equal, str_has_token, str_starts_with,
};
use vstd::prelude::*;

verus! {

/// The literal that a scalar is compared with.
#[derive(Debug, PartialEq, Eq)]
pub enum JsonValueMatcher {
    String(String),
    Number(i64),
    Boolean(bool),
    Null,
}

/// A [`JsonValueMatcher`] as specifications see it: text is a sequence of
/// characters.
pub enum SpecValueMatcher {
    String(Seq<char>),
    Number(i64),
    Boolean(bool),
    Null,
}

impl View for JsonValueMatcher {
    type V = SpecValueMatcher;

    open spec fn view(&self) -> SpecValueMatcher {
        match self {
            JsonValueMatcher::String(text) => SpecValueMatcher::String(text@),
            JsonValueMatcher::Number(number) => SpecValueMatcher::Number(*number),
            JsonValueMatcher::Boolean(flag) => SpecValueMatcher::Boolean(*flag),
            JsonValueMatcher::Null => SpecValueMatcher::Null,
        }
    }
}

/// A literal together with the strategy by which a value is compared with it.
#[derive(Debug, PartialEq, Eq)]
pub enum JsonValueMemberMatcher {
    Exact(JsonValueMatcher),
    ContainsExact(JsonValueMatcher),
    Prefixed(JsonValueMatcher),
    Suffixed(JsonValueMatcher),
    Contains(JsonValueMatcher),
}

/// A [`JsonValueMemberMatcher`] as specifications see it.
pub enum SpecMemberMatcher {
    Exact(SpecValueMatcher),
    ContainsExact(SpecValueMatcher),
    Prefixed(SpecValueMatcher),
    Suffixed(SpecValueMatcher),
    Contains(SpecValueMatcher),
}

impl View for JsonValueMemberMatcher {
    type V = SpecMemberMatcher;

    open spec fn view(&self) -> SpecMemberMatcher {
        match self {
            JsonValueMemberMatcher::Exact(value) => SpecMemberMatcher::Exact(value@),
            JsonValueMemberMatcher::ContainsExact(value) => SpecMemberMatcher::ContainsExact(
                value@,
            ),
            JsonValueMemberMatcher::Prefixed(value) => SpecMemberMatcher::Prefixed(value@),
            JsonValueMemberMatcher::Suffixed(value) => SpecMemberMatcher::Suffixed(value@),
            JsonValueMemberMatcher::Contains(value) => SpecMemberMatcher::Contains(value@),
        }
    }
}

/// `node` is a scalar of the literal's kind with the literal's value. A
/// number equals an integer literal where it denotes that integer; one with a
/// fractional part equals none.
pub open spec fn equals_literal(node: Json, literal: SpecValueMatcher) -> bool {
    match (node, literal) {
        (Json::String(text), SpecValueMatcher::String(wanted)) => text@ == wanted,
        (Json::Number(number), SpecValueMatcher::Number(wanted)) => number.denotes(wanted as int),
        (Json::Boolean(flag), SpecValueMatcher::Boolean(wanted)) => flag == wanted,
        (Json::Null, SpecValueMatcher::Null) => true,
        _ => false,
    }
}

/// `node` is a string one of whose white-space-separated tokens is the
/// literal, itself a string.
pub open spec fn holds_token(node: Json, literal: SpecValueMatcher) -> bool {
    match (node, literal) {
        (Json::String(text), SpecValueMatcher::String(wanted)) => has_token(text@, wanted),
        _ => false,
    }
}

/// `node` is a string that begins with the literal, itself a string.
pub open spec fn has_prefix(node: Json, literal: SpecValueMatcher) -> bool {
    match (node, literal) {
        (Json::String(text), SpecValueMatcher::String(wanted)) => starts_with(text@, wanted),
        _ => false,
    }
}

/// `node` is a string that ends with the literal, itself a string.
pub open spec fn has_suffix(node: Json, literal: SpecValueMatcher) -> bool {
    match (node, literal) {
        (Json::String(text), SpecValueMatcher::String(wanted)) => ends_with(text@, wanted),
        _ => false,
    }
}

/// `node` is a string in which the literal, itself a string, stands somewhere.
pub open spec fn has_part(node: Json, literal: SpecValueMatcher) -> bool {
    match (node, literal) {
        (Json::String(text), SpecValueMatcher::String(wanted)) => contains(text@, wanted),
        _ => false,
    }
}

/// A value satisfies the matcher: the test is the same for the value of a
/// property and for an element of an array.
///
/// - `Exact`: the value is a scalar of the literal's kind with the literal's
///   value.
/// - `ContainsExact`: the value is a string, and the literal is one of the
///   tokens that splitting it on white space gives. The strategy applies to
///   strings only: a number, a boolean or null holds no token, and no literal
///   but a string is one.
/// - `Prefixed`, `Suffixed`, `Contains`: the value is a string that begins
///   with, ends with or holds the literal, itself a string.
pub open spec fn value_satisfies(node: Json, matcher: SpecMemberMatcher) -> bool {
    match matcher {
        SpecMemberMatcher::Exact(literal) => equals_literal(node, literal),
        SpecMemberMatcher::ContainsExact(literal) => holds_token(node, literal),
        SpecMemberMatcher::Prefixed(literal) => has_prefix(node, literal),
        SpecMemberMatcher::Suffixed(literal) => has_suffix(node, literal),
        SpecMemberMatcher::Contains(literal) => has_part(node, literal),
    }
}

/// Whether `node` is a scalar of the literal's kind with the literal's value.
pub fn is_literal(node: &Json, literal: &JsonValueMatcher) -> (same: bool)
    ensures
        same == equals_literal(*node, literal@),
{
    match (node, literal) {
        (Json::String(text), JsonValueMatcher::String(wanted)) => crate::text::str_equal(
            text.as_str(),
            wanted.as_str(),
        ),
        (Json::Number(number), JsonValueMatcher::Number(wanted)) => number.equals_integer(
            *wanted,
        ),
        (Json::Boolean(flag), JsonValueMatcher::Boolean(wanted)) => *flag == *wanted,
        (Json::Null, JsonValueMatcher::Null) => true,
        _ => false,
    }
}

/// Whether a value satisfies the matcher.
pub fn satisfies(node: &Json, matcher: &JsonValueMemberMatcher) -> (holds: bool)
    ensures
        holds == value_satisfies(*node, matcher@),
{
    match matcher {
        JsonValueMemberMatcher::Exact(literal) => is_literal(node, literal),
        JsonValueMemberMatcher::ContainsExact(literal) => match (node, literal) {
            (Json::String(text), JsonValueMatcher::String(wanted)) => str_has_token(
                text.as_str(),
                wanted.as_str(),
            ),
            _ => false,
        },
        JsonValueMemberMatcher::Prefixed(literal) => match (node, literal) {
            (Json::String(text), JsonValueMatcher::String(wanted)) => str_starts_with(
                text.as_str(),
                wanted.as_str(),
            ),
            _ => false,
        },
        JsonValueMemberMatcher::Suffixed(literal) => match (node, literal) {
            (Json::String(text), JsonValueMatcher::String(wanted)) => str_ends_with(
                text.as_str(),
                wanted.as_str(),
            ),
            _ => false,
        },
        JsonValueMemberMatcher::Contains(literal) => match (node, literal) {
            (Json::String(text), JsonValueMatcher::String(wanted)) => str_contains(
                text.as_str(),
                wanted.as_str(),
            ),
            _ => false,
        },
    }
}

/// The strategy that an operator stands for, applied to a literal. An
/// operator is written with `=` in brackets and with `:` in braces. A run of
/// several operators stands for none.
pub open spec fn strategy_for(operator: Option<Seq<char>>, member: SpecValueMatcher) -> Option<
    SpecMemberMatcher,
> {
    match operator {
        Some(op) => if op == "~="@ || op == "~:"@ {
            Some(SpecMemberMatcher::ContainsExact(member))
        } else if op == "^="@ || op == "^:"@ {
            Some(SpecMemberMatcher::Prefixed(member))
        } else if op == "$="@ || op == "$:"@ {
            Some(SpecMemberMatcher::Suffixed(member))
        } else if op == "="@ || op == ":"@ {
            Some(SpecMemberMatcher::Exact(member))
        } else if op == "*="@ || op == "*:"@ {
            Some(SpecMemberMatcher::Contains(member))
        } else {
            None
        },
        None => None,
    }
}

/// The literal that a quoted value stands for: its text.
pub open spec fn string_literal(cap: SpecCaptures) -> Option<Result<SpecValueMatcher, ()>> {
    match cap.string_value {
        Some(text) => Some(Ok(SpecValueMatcher::String(text))),
        None => None,
    }
}

/// The literal that a value of digits stands for: the number they denote in
/// decimal, or an error where that is above the largest `i64`.
pub open spec fn number_literal(cap: SpecCaptures) -> Option<Result<SpecValueMatcher, ()>> {
    match cap.number_value {
        Some(digits) => Some(
            if digits.len() > 0 && all_digits(digits) && decimal_value(digits) <= i64::MAX {
                Ok(SpecValueMatcher::Number(decimal_value(digits) as i64))
            } else {
                Err(())
            },
        ),
        None => None,
    }
}

/// The literal that a bare word stands for: `true`, `false` or `null`, and
/// an error for any other word.
pub open spec fn keyword_literal(cap: SpecCaptures) -> Option<Result<SpecValueMatcher, ()>> {
    match cap.literal_value {
        Some(word) => Some(
            if word == "true"@ {
                Ok(SpecValueMatcher::Boolean(true))
            } else if word == "false"@ {
                Ok(SpecValueMatcher::Boolean(false))
            } else if word == "null"@ {
                Ok(SpecValueMatcher::Null)
            } else {
                Err(())
            },
        ),
        None => None,
    }
}

/// The literal of the captures: the quoted value where there is one, else
/// the number, else the word.
pub open spec fn literal_of(cap: SpecCaptures) -> Option<Result<SpecValueMatcher, ()>> {
    match string_literal(cap) {
        Some(literal) => Some(literal),
        None => match number_literal(cap) {
            Some(literal) => Some(literal),
            None => keyword_literal(cap),
        },
    }
}

/// The test that the captures describe: none where they hold no value, an
/// error where the value or the operator stands for nothing.
pub open spec fn value_matcher(cap: SpecCaptures) -> Result<Option<SpecMemberMatcher>, ()> {
    match literal_of(cap) {
        Some(Ok(literal)) => match strategy_for(cap.matching_strategy, literal) {
            Some(matcher) => Ok(Some(matcher)),
            None => Err(()),
        },
        Some(Err(_)) => Err(()),
        None => Ok(None),
    }
}

/// A literal that was or was not found, as specifications see it.
pub open spec fn literal_view(found: Option<Result<JsonValueMatcher, ()>>) -> Option<
    Result<SpecValueMatcher, ()>,
> {
    match found {
        Some(Ok(literal)) => Some(Ok(literal@)),
        Some(Err(_)) => Some(Err(())),
        None => None,
    }
}

/// A test that may be missing, as specifications see it.
pub open spec fn matcher_view(matcher: Option<JsonValueMemberMatcher>) -> Option<
    SpecMemberMatcher,
> {
    match matcher {
        Some(test) => Some(test@),
        None => None,
    }
}

/// Pairs the literal with the strategy that the captured operator stands for.
pub fn identify_member_matcher(cap: &Captures, member: JsonValueMatcher) -> (out: Result<
    JsonValueMemberMatcher,
    (),
>)
    ensures
        match strategy_for(cap@.matching_strategy, member@) {
            Some(matcher) => out matches Ok(got) && got@ == matcher,
            None => out is Err,
        },
{
    match cap.matching_strategy {
        Some(op) => {
            if str_equal(op, "~=") || str_equal(op, "~:") {
                Ok(JsonValueMemberMatcher::ContainsExact(member))
            } else if str_equal(op, "^=") || str_equal(op, "^:") {
                Ok(JsonValueMemberMatcher::Prefixed(member))
            } else if str_equal(op, "$=") || str_equal(op, "$:") {
                Ok(JsonValueMemberMatcher::Suffixed(member))
            } else if str_equal(op, "=") || str_equal(op, ":") {
                Ok(JsonValueMemberMatcher::Exact(member))
            } else if str_equal(op, "*=") || str_equal(op, "*:") {
                Ok(JsonValueMemberMatcher::Contains(member))
            } else {
                Err(())
            }
        },
        None => Err(()),
    }
}

/// The literal of a quoted value.
pub fn identify_string_matcher(cap: &Captures) -> (out: Option<Result<JsonValueMatcher, ()>>)
    ensures
        literal_view(out) == string_literal(cap@),
{
    match cap.string_value {
        Some(value) => Some(Ok(JsonValueMatcher::String(value.to_owned()))),
        None => None,
    }
}

/// The literal of a value of digits.
pub fn identify_number_matcher(cap: &Captures) -> (out: Option<Result<JsonValueMatcher, ()>>)
    ensures
        literal_view(out) == number_literal(cap@),
{
    match cap.number_value {
        Some(value) => match parse_decimal(value, 0x7fff_ffff_ffff_ffff) {
            Some(number_value) => Some(Ok(JsonValueMatcher::Number(number_value as i64))),
            None => Some(Err(())),
        },
        None => None,
    }
}

/// The literal of a bare word.
pub fn identify_literal_matcher(cap: &Captures) -> (out: Option<Result<JsonValueMatcher, ()>>)
    ensures
        literal_view(out) == keyword_literal(cap@),
{
    match cap.literal_value {
        Some(value) => {
            if str_equal(value, "true") {
                Some(Ok(JsonValueMatcher::Boolean(true)))
            } else if str_equal(value, "false") {
                Some(Ok(JsonValueMatcher::Boolean(false)))
            } else if str_equal(value, "null") {
                Some(Ok(JsonValueMatcher::Null))
            } else {
                Some(Err(()))
            }
        },
        None => None,
    }
}

/// The test that the captures describe.
pub fn identify_value_matcher(cap: &Captures) -> (out: Result<Option<JsonValueMemberMatcher>, ()>)
    ensures
        match value_matcher(cap@) {
            Ok(matcher) => out matches Ok(got) && matcher_view(got) == matcher,
            Err(_) => out is Err,
        },
{
    let literal = match identify_string_matcher(cap) {
        Some(found) => Some(found),
        None => match identify_number_matcher(cap) {
            Some(found) => Some(found),
            None => identify_literal_matcher(cap),
        },
    };
    match literal {
        Some(Ok(json_value_matcher)) => match identify_member_matcher(cap, json_value_matcher) {
            Ok(match_strategy) => Ok(Some(match_strategy)),
            _ => Err(()),
        },
        Some(Err(_)) => Err(()),
        None => Ok(None),
    }
}

} // verus!
