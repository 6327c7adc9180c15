//! The property lens, written `.name` or `{"name"}`, the latter with an
//! optional test of the value.

use crate::document::Json;
use crate::selection::captures::{braced_property, dotted_property, text_of, Captures};
use crate::selection::identity::parsed_view;
use crate::selection::value_matchers::{
    equals_literal, has_part, has_prefix, has_suffix, holds_token, identify_value_matcher,
    is_literal, matcher_view, value_matcher, JsonValueMatcher, JsonValueMemberMatcher,
    SpecMemberMatcher,
};
use crate::selection::{referent, select, Lens, SpecLens};
use crate::text::{str_contains, str_ends_with, str_has_token, str_starts_with};
use vstd::prelude::*;

verus! {

/// The lens that selects the member of an object called `name`, provided its
/// value satisfies `value` where there is one.
#[derive(Debug, PartialEq, Eq)]
pub struct Prop {
    pub name: String,
    pub value: Option<JsonValueMemberMatcher>,
}

impl View for Prop {
    type V = SpecLens;

    open spec fn view(&self) -> SpecLens {
        SpecLens::Prop { name: self.name@, value: self.spec_value() }
    }
}

impl Prop {
    /// The test of the value as specifications see it.
    pub open spec fn spec_value(&self) -> Option<SpecMemberMatcher> {
        matcher_view(self.value)
    }

    /// The value itself where it equals the literal.
    pub fn prop_value_matches_exact<'a, 'b>(
        prop: &'a Json,
        prop_value_matcher: &'b JsonValueMatcher,
    ) -> (out: Option<&'a Json>)
        ensures
            out == (if equals_literal(*prop, prop_value_matcher@) {
                Some(prop)
            } else {
                None
            }),
    {
        if is_literal(prop, prop_value_matcher) {
            Some(prop)
        } else {
            None
        }
    }

    /// The value itself where it is a string and the literal is one of its
    /// white-space-separated tokens.
    pub fn prop_value_contains_exact<'a, 'b>(
        prop: &'a Json,
        prop_value_matcher: &'b JsonValueMatcher,
    ) -> (out: Option<&'a Json>)
        ensures
            out == (if holds_token(*prop, prop_value_matcher@) {
                Some(prop)
            } else {
                None
            }),
    {
        match (prop, prop_value_matcher) {
            (Json::String(string_prop), JsonValueMatcher::String(prop_value)) => {
                if str_has_token(string_prop.as_str(), prop_value.as_str()) {
                    Some(prop)
                } else {
                    None
                }
            },
            _ => None,
        }
    }

    /// The value itself where it is a string that begins with the literal.
    pub fn prop_value_is_prefixed_by<'a, 'b>(
        prop: &'a Json,
        prop_value_matcher: &'b JsonValueMatcher,
    ) -> (out: Option<&'a Json>)
        ensures
            out == (if has_prefix(*prop, prop_value_matcher@) {
                Some(prop)
            } else {
                None
            }),
    {
        match (prop, prop_value_matcher) {
            (Json::String(string_prop), JsonValueMatcher::String(prop_value)) => {
                if str_starts_with(string_prop.as_str(), prop_value.as_str()) {
                    Some(prop)
                } else {
                    None
                }
            },
            _ => None,
        }
    }

    /// The value itself where it is a string that ends with the literal.
    pub fn prop_value_is_suffixed_by<'a, 'b>(
        prop: &'a Json,
        prop_value_matcher: &'b JsonValueMatcher,
    ) -> (out: Option<&'a Json>)
        ensures
            out == (if has_suffix(*prop, prop_value_matcher@) {
                Some(prop)
            } else {
                None
            }),
    {
        match (prop, prop_value_matcher) {
            (Json::String(string_prop), JsonValueMatcher::String(prop_value)) => {
                if str_ends_with(string_prop.as_str(), prop_value.as_str()) {
                    Some(prop)
                } else {
                    None
                }
            },
            _ => None,
        }
    }

    /// The value itself where it is a string in which the literal stands.
    pub fn prop_value_contains<'a, 'b>(
        prop: &'a Json,
        prop_value_matcher: &'b JsonValueMatcher,
    ) -> (out: Option<&'a Json>)
        ensures
            out == (if has_part(*prop, prop_value_matcher@) {
                Some(prop)
            } else {
                None
            }),
    {
        match (prop, prop_value_matcher) {
            (Json::String(string_prop), JsonValueMatcher::String(prop_value)) => {
                if str_contains(string_prop.as_str(), prop_value.as_str()) {
                    Some(prop)
                } else {
                    None
                }
            },
            _ => None,
        }
    }

    /// The member of the input called `name`, where the input is an object
    /// that has one and its value passes the test.
    pub fn select<'a>(&self, input: Option<&'a Json>) -> (out: Option<&'a Json>)
        ensures
            referent(out) == (match input {
                Some(node) => select(self@, *node),
                None => None,
            }),
    {
        match input {
            Some(node) => match (node.member(self.name.as_str()), &self.value) {
                (Some(prop), Some(JsonValueMemberMatcher::Exact(prop_value_matcher))) => {
                    Prop::prop_value_matches_exact(prop, prop_value_matcher)
                },
                (Some(prop), Some(JsonValueMemberMatcher::ContainsExact(prop_value_matcher))) => {
                    Prop::prop_value_contains_exact(prop, prop_value_matcher)
                },
                (Some(prop), Some(JsonValueMemberMatcher::Prefixed(prop_value_matcher))) => {
                    Prop::prop_value_is_prefixed_by(prop, prop_value_matcher)
                },
                (Some(prop), Some(JsonValueMemberMatcher::Suffixed(prop_value_matcher))) => {
                    Prop::prop_value_is_suffixed_by(prop, prop_value_matcher)
                },
                (Some(prop), Some(JsonValueMemberMatcher::Contains(prop_value_matcher))) => {
                    Prop::prop_value_contains(prop, prop_value_matcher)
                },
                (Some(prop), None) => Some(prop),
                (None, _) => None,
            },
            None => None,
        }
    }
}

/// The rule of the property lens: the pattern begins with a dotted or,
/// failing that, with a braced property, and the value test of a braced one
/// stands for a matcher.
pub open spec fn property_rule(s: Seq<char>) -> Option<(SpecLens, Option<Seq<char>>)> {
    let parts = match dotted_property(s) {
        Some(cap) => Some(cap),
        None => braced_property(s),
    };
    match parts {
        Some(cap) => match (cap.prop, value_matcher(cap)) {
            (Some(name), Ok(value)) => Some((SpecLens::Prop { name, value }, cap.remainder)),
            _ => None,
        },
        None => None,
    }
}

/// The parser of the property lens.
#[derive(Debug, PartialEq, Eq)]
pub struct PropParser;

impl PropParser {
    /// Reads a property from the head of the pattern: its name, the test of
    /// its value where there is one, and the remainder.
    pub fn match_prop<'a>(pattern: &'a str) -> (out: Option<
        (&'a str, Option<JsonValueMemberMatcher>, Option<&'a str>),
    >)
        ensures
            match property_rule(pattern@) {
                Some((lens, rest)) => out matches Some((name, value, remainder)) && lens
                    == (SpecLens::Prop { name: name@, value: matcher_view(value) }) && text_of(
                    remainder,
                ) == rest,
                None => out is None,
            },
    {
        let parts = match Captures::dotted_property(pattern) {
            Some(cap) => Some(cap),
            None => Captures::braced_property(pattern),
        };
        match parts {
            Some(cap) => match cap.prop {
                Some(prop) => match identify_value_matcher(&cap) {
                    Ok(json_matcher) => Some((prop, json_matcher, cap.remainder)),
                    Err(_) => None,
                },
                None => None,
            },
            None => None,
        }
    }

    /// Reads a property lens from the head of the pattern, and hands back a
    /// pattern that begins with none.
    pub fn try_parse<'a>(&self, lens_pattern: Option<&'a str>) -> (out: Result<
        (Lens, Option<&'a str>),
        Option<&'a str>,
    >)
        ensures
            parsed_view(out) == (match lens_pattern {
                Some(pattern) => property_rule(pattern@),
                None => None,
            }),
            out matches Err(unmatched) ==> unmatched == lens_pattern,
    {
        match lens_pattern {
            Some(pattern) => match PropParser::match_prop(pattern) {
                Some((prop_name, prop_value, remainder)) => Ok(
                    (Lens::Prop(Prop { name: prop_name.to_owned(), value: prop_value }), remainder),
                ),
                None => Err(lens_pattern),
            },
            None => Err(lens_pattern),
        }
    }
}

} // verus!
