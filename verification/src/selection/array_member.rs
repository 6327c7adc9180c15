//! The lenses on arrays: `[N]` selects by position, `[=V]` and its kin by
//! value.

use crate::document::Json;
use crate::selection::captures::{indexed_element, tested_element, text_of, Captures};
use crate::selection::identity::parsed_view;
use crate::selection::value_matchers::{
    identify_value_matcher, is_literal, satisfies, value_matcher, JsonValueMatcher,
    JsonValueMemberMatcher, SpecMemberMatcher,
};
use crate::selection::{element_at, first_satisfying, referent, select, Lens, SpecLens};
use crate::text::{all_digits, decimal_value, parse_decimal};
use vstd::prelude::*;

verus! {

/// The lens that selects the element of an array at `index`.
#[derive(Debug, PartialEq, Eq)]
pub struct ArrayIndexMember {
    pub index: usize,
}

impl View for ArrayIndexMember {
    type V = SpecLens;

    open spec fn view(&self) -> SpecLens {
        SpecLens::ArrayIndex { index: self.index as int }
    }
}

impl ArrayIndexMember {
    /// The element at `index`, where the input is an array that has one.
    pub fn select<'a>(&self, input: Option<&'a Json>) -> (out: Option<&'a Json>)
        ensures
            referent(out) == (match input {
                Some(node) => select(self@, *node),
                None => None,
            }),
    {
        match input {
            Some(Json::Array(array)) => if self.index < array.len() {
                Some(&array[self.index])
            } else {
                None
            },
            _ => None,
        }
    }
}

/// The lens that selects the first element of an array that satisfies
/// `value`. With the `Exact` strategy the array must hold that one element
/// and no other.
#[derive(Debug, PartialEq, Eq)]
pub struct ArrayValueMember {
    pub value: JsonValueMemberMatcher,
}

impl View for ArrayValueMember {
    type V = SpecLens;

    open spec fn view(&self) -> SpecLens {
        SpecLens::ArrayValue { matcher: self.value@ }
    }
}

/// The first element of `sequence` that satisfies `matcher`.
pub fn first_member<'a>(sequence: &'a Vec<Json>, matcher: &JsonValueMemberMatcher) -> (out: Option<
    &'a Json,
>)
    ensures
        referent(out) == element_at(sequence@, first_satisfying(sequence@, matcher@, 0)),
{
    let mut i: usize = 0;
    while i < sequence.len()
        invariant
            i <= sequence.len(),
            first_satisfying(sequence@, matcher@, 0) == first_satisfying(
                sequence@,
                matcher@,
                i as int,
            ),
        decreases sequence.len() - i,
    {
        if satisfies(&sequence[i], matcher) {
            return Some(&sequence[i]);
        }
        i += 1;
    }
    None
}

impl ArrayValueMember {
    /// The first element of `sequence` that equals the literal.
    pub fn member_in_array<'a>(
        sequence: &'a Vec<Json>,
        json_value_matcher: &JsonValueMatcher,
    ) -> (out: Option<&'a Json>)
        ensures
            referent(out) == element_at(
                sequence@,
                first_satisfying(sequence@, SpecMemberMatcher::Exact(json_value_matcher@), 0),
            ),
    {
        let ghost matcher = SpecMemberMatcher::Exact(json_value_matcher@);
        let mut i: usize = 0;
        while i < sequence.len()
            invariant
                i <= sequence.len(),
                matcher == SpecMemberMatcher::Exact(json_value_matcher@),
                first_satisfying(sequence@, matcher, 0) == first_satisfying(
                    sequence@,
                    matcher,
                    i as int,
                ),
            decreases sequence.len() - i,
        {
            if is_literal(&sequence[i], json_value_matcher) {
                return Some(&sequence[i]);
            }
            i += 1;
        }
        None
    }

    /// The first element that satisfies `value`, where the input is an
    /// array that holds one and, for `Exact`, nothing else.
    pub fn select<'a>(&self, input: Option<&'a Json>) -> (out: Option<&'a Json>)
        ensures
            referent(out) == (match input {
                Some(node) => select(self@, *node),
                None => None,
            }),
    {
        match input {
            Some(Json::Array(array)) => match &self.value {
                JsonValueMemberMatcher::Exact(json_value_matcher) => {
                    if array.len() == 1 {
                        ArrayValueMember::member_in_array(array, json_value_matcher)
                    } else {
                        None
                    }
                },
                _ => first_member(array, &self.value),
            },
            _ => None,
        }
    }
}

/// What selects an element of an array: a position or a test of the value.
#[derive(Debug, PartialEq, Eq)]
pub enum ArrayMember {
    Index(usize),
    Value(JsonValueMemberMatcher),
}

impl View for ArrayMember {
    type V = SpecLens;

    open spec fn view(&self) -> SpecLens {
        match self {
            ArrayMember::Index(index) => SpecLens::ArrayIndex { index: *index as int },
            ArrayMember::Value(value) => SpecLens::ArrayValue { matcher: value@ },
        }
    }
}

/// The rule of the lenses on arrays. Where the pattern begins with an
/// indexed element, the digits are read in decimal and must not be above the
/// largest `usize`. Where it does not, it must begin with a tested element
/// whose test stands for a matcher.
pub open spec fn array_member_rule(s: Seq<char>) -> Option<(SpecLens, Option<Seq<char>>)> {
    match indexed_element(s) {
        Some(cap) => match cap.index {
            Some(digits) => if digits.len() > 0 && all_digits(digits) && decimal_value(digits)
                <= usize::MAX {
                Some((SpecLens::ArrayIndex { index: decimal_value(digits) as int }, cap.remainder))
            } else {
                None
            },
            None => None,
        },
        None => match tested_element(s) {
            Some(cap) => match value_matcher(cap) {
                Ok(Some(matcher)) => Some((SpecLens::ArrayValue { matcher }, cap.remainder)),
                _ => None,
            },
            None => None,
        },
    }
}

/// The parser of the lenses on arrays.
#[derive(Debug, PartialEq, Eq)]
pub struct ArrayMemberParser;

impl ArrayMemberParser {
    /// Reads a position or a test in brackets from the head of the pattern,
    /// and the remainder.
    pub fn match_array_member<'a>(pattern: &'a str) -> (out: Option<
        (ArrayMember, Option<&'a str>),
    >)
        ensures
            match array_member_rule(pattern@) {
                Some((lens, rest)) => out matches Some((member, remainder)) && member@ == lens
                    && text_of(remainder) == rest,
                None => out is None,
            },
    {
        match Captures::indexed_element(pattern) {
            Some(captured_index) => match captured_index.index {
                Some(index) => match parse_decimal(index, usize::MAX as u64) {
                    Some(position) => Some(
                        (ArrayMember::Index(position as usize), captured_index.remainder),
                    ),
                    None => None,
                },
                None => None,
            },
            None => match Captures::tested_element(pattern) {
                Some(cap) => match identify_value_matcher(&cap) {
                    Ok(Some(json_matcher)) => Some((ArrayMember::Value(json_matcher), cap.remainder)),
                    Ok(None) => None,
                    Err(_) => None,
                },
                None => None,
            },
        }
    }

    /// Reads a lens on arrays from the head of the pattern, and hands back
    /// a pattern that begins with none.
    pub fn try_parse<'a>(&self, lens_pattern: Option<&'a str>) -> (out: Result<
        (Lens, Option<&'a str>),
        Option<&'a str>,
    >)
        ensures
            parsed_view(out) == (match lens_pattern {
                Some(pattern) => array_member_rule(pattern@),
                None => None,
            }),
            out matches Err(unmatched) ==> unmatched == lens_pattern,
    {
        match lens_pattern {
            Some(pattern) => match ArrayMemberParser::match_array_member(pattern) {
                Some((array_member, remainder)) => Ok(
                    (
                        match array_member {
                            ArrayMember::Index(index) => Lens::ArrayIndex(
                                ArrayIndexMember { index },
                            ),
                            ArrayMember::Value(value) => Lens::ArrayValue(
                                ArrayValueMember { value },
                            ),
                        },
                        remainder,
                    ),
                ),
                None => Err(lens_pattern),
            },
            None => Err(lens_pattern),
        }
    }
}

} // verus!
