//! The identity lens, written `.`.

use crate::document::Json;
use crate::selection::captures::text_of;
use crate::selection::{Lens, SpecLens};
use crate::text::str_equal;
use vstd::prelude::*;

verus! {

/// The lens that selects its input.
#[derive(Debug, PartialEq, Eq)]
pub struct Identity;

impl View for Identity {
    type V = SpecLens;

    open spec fn view(&self) -> SpecLens {
        SpecLens::Identity
    }
}

impl Identity {
    /// Hands the input back.
    pub fn select<'a>(&self, input: Option<&'a Json>) -> (out: Option<&'a Json>)
        ensures
            out == input,
    {
        input
    }
}

/// The rule of the identity lens: the pattern is a single dot.
pub open spec fn identity_rule(s: Seq<char>) -> Option<(SpecLens, Option<Seq<char>>)> {
    if s == "."@ {
        Some((SpecLens::Identity, None))
    } else {
        None
    }
}

/// What a parser made of a pattern, as specifications see it: the lens and
/// the remainder, or nothing where it handed the pattern back.
pub open spec fn parsed_view(out: Result<(Lens, Option<&str>), Option<&str>>) -> Option<
    (SpecLens, Option<Seq<char>>),
> {
    match out {
        Ok((lens, remainder)) => Some((lens@, text_of(remainder))),
        Err(_) => None,
    }
}

/// The parser of the identity lens.
#[derive(Debug, PartialEq, Eq)]
pub struct IdentityParser;

impl IdentityParser {
    /// Reads the identity lens where the pattern is `.`, and hands any
    /// other pattern back.
    pub fn try_parse<'a>(&self, lens_pattern: Option<&'a str>) -> (out: Result<
        (Lens, Option<&'a str>),
        Option<&'a str>,
    >)
        ensures
            parsed_view(out) == (match lens_pattern {
                Some(pattern) => identity_rule(pattern@),
                None => None,
            }),
            out matches Err(unmatched) ==> unmatched == lens_pattern,
    {
        match lens_pattern {
            Some(pattern) => if str_equal(pattern, ".") {
                Ok((Lens::Identity(Identity {  }), None))
            } else {
                Err(lens_pattern)
            },
            None => Err(lens_pattern),
        }
    }
}

} // verus!
