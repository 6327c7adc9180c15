//! The sequence lens, written `[` chain `]`.

use crate::document::Json;
use crate::selection::captures::{bracketed, bracketed_chain, text_of};
use crate::selection::identity::parsed_view;
use crate::selection::{
    chain_view, first_admitted, match_json_slice, parse_chain, referent, select,
    try_to_match_filters, Lens, SpecLens,
};
use vstd::prelude::*;

verus! {

/// The lens that selects the first element of an array to which the whole
/// chain `matchers` applies. The chain is tried on the element itself, never
/// on what lies below it.
#[derive(Debug, PartialEq, Eq)]
pub struct Sequence {
    pub matchers: Vec<Lens>,
}

impl View for Sequence {
    type V = SpecLens;

    open spec fn view(&self) -> SpecLens {
        SpecLens::Sequence { matchers: chain_view(self.matchers@) }
    }
}

impl Sequence {
    /// The first element to which the chain applies, where the input is an
    /// array that holds one.
    #[verifier::loop_isolation(false)]
    pub fn select<'a>(&self, input: Option<&'a Json>) -> (out: Option<&'a Json>)
        ensures
            referent(out) == (match input {
                Some(node) => select(self@, *node),
                None => None,
            }),
        decreases self, 0nat, input,
    {
        match input {
            Some(Json::Array(array)) => {
                let ghost inner = chain_view(self.matchers@);
                let mut i: usize = 0;
                while i < array.len()
                    invariant
                        i <= array.len(),
                        first_admitted(inner, array@, 0) == first_admitted(
                            inner,
                            array@,
                            i as int,
                        ),
                    decreases array.len() - i,
                {
                    if match_json_slice(&self.matchers, &array[i], true).is_ok() {
                        return Some(&array[i]);
                    }
                    i += 1;
                }
                None
            },
            _ => None,
        }
    }
}

/// The rule of the sequence lens: the whole pattern stands in brackets, and
/// what stands between them is a chain of lenses from its first character to
/// its last.
pub open spec fn sequence_rule(s: Seq<char>) -> Option<(SpecLens, Option<Seq<char>>)>
    decreases s.len(), 0nat,
{
    match bracketed(s) {
        Some(inner) => match parse_chain(inner) {
            Ok(matchers) => Some((SpecLens::Sequence { matchers }, None)),
            Err(_) => None,
        },
        None => None,
    }
}

/// The parser of the sequence lens.
#[derive(Debug, PartialEq, Eq)]
pub struct SequenceParser;

impl SequenceParser {
    /// What stands between the brackets, where the whole pattern stands in
    /// brackets.
    pub fn match_sequence<'a>(pattern: &'a str) -> (inner: Option<&'a str>)
        ensures
            text_of(inner) == bracketed(pattern@),
    {
        bracketed_chain(pattern)
    }

    /// Reads a sequence lens where the whole pattern is one, and hands any
    /// other pattern back.
    pub fn try_parse<'a>(&self, lens_pattern: Option<&'a str>) -> (out: Result<
        (Lens, Option<&'a str>),
        Option<&'a str>,
    >)
        ensures
            parsed_view(out) == (match lens_pattern {
                Some(pattern) => sequence_rule(pattern@),
                None => None,
            }),
            out matches Err(unmatched) ==> unmatched == lens_pattern,
        decreases
                (match lens_pattern {
                    Some(pattern) => pattern@.len(),
                    None => 0,
                }),
                0nat,
    {
        let inner = match lens_pattern {
            Some(pattern) => SequenceParser::match_sequence(pattern),
            None => None,
        };
        match inner {
            Some(sequence_matcher) => match try_to_match_filters(sequence_matcher) {
                Ok(matchers) => Ok((Lens::Sequence(Sequence { matchers }), None)),
                Err(_) => Err(lens_pattern),
            },
            None => Err(lens_pattern),
        }
    }
}

} // verus!
