//! Line-oriented JSON selection. A selector pattern is parsed into a chain of
//! lenses; a chain is matched against the document of each input line, and a
//! line is selected where a chain selects something in its document.
//!
//! The crate holds the selector language and what the line pipeline decides.
//! Reading lines, decoding their JSON and writing the selected lines is left
//! to the caller.

pub mod document;
pub mod input;
pub mod selection;
pub mod text;

use crate::input::parameter_substitution::{apply_substitution, substitution, texts_of};
use crate::input::{configured_case, in_configured_case, Config};
use crate::selection::{
    chain_view, invalid_filter_message, match_filters, parse_chain, Lens, SpecLens,
};
use vstd::prelude::*;

verus! {

/// Swaps success and failure where `should_invert` holds, and leaves the
/// result as it is where it does not.
pub fn invert_result<A>(should_invert: bool, result: Result<A, A>) -> (out: Result<A, A>)
    ensures
        out == (if should_invert {
            match result {
                Ok(ok_res) => Err::<A, A>(ok_res),
                Err(err_res) => Ok::<A, A>(err_res),
            }
        } else {
            result
        }),
{
    match result {
        Ok(ok_res) => {
            if should_invert {
                Err(ok_res)
            } else {
                Ok(ok_res)
            }
        },
        Err(err_res) => {
            if should_invert {
                Ok(err_res)
            } else {
                Err(err_res)
            }
        },
    }
}

/// The patterns of a run as they are parsed: after the parameters, if any
/// were given, have been substituted into them, and in the case in which the
/// run compares.
pub open spec fn prepared_patterns(config: Config) -> Seq<Seq<char>> {
    let given = texts_of(config.matchers@);
    let substituted = match config.params {
        Some(params) => substitution(given, texts_of(params@), 0),
        None => given,
    };
    substituted.map_values(|pattern: Seq<char>| configured_case(pattern, config.ignore_case))
}

/// The first `count` patterns are chains, and `filters` holds them.
pub open spec fn parsed_so_far(patterns: Seq<Seq<char>>, filters: Seq<Vec<Lens>>, count: int) -> bool {
    &&& filters.len() == count
    &&& forall|i: int|
        0 <= i < count ==> parse_chain(#[trigger] patterns[i]) == Ok::<Seq<SpecLens>, Seq<char>>(
            chain_view(filters[i]@),
        )
}

/// Prepares the patterns of a run and parses each into its chain. Fails on
/// the first pattern that is no chain, with the message that names its
/// unparsed part: no run starts on some of its patterns.
pub fn matched_filters(config: &Config) -> (out: Result<Vec<Vec<Lens>>, Option<String>>)
    ensures
        match out {
            Ok(filters) => parsed_so_far(
                prepared_patterns(*config),
                filters@,
                prepared_patterns(*config).len() as int,
            ),
            Err(error) => exists|failed: int|
                #![trigger prepared_patterns(*config)[failed]]
                {
                    &&& 0 <= failed < prepared_patterns(*config).len()
                    &&& forall|i: int|
                        0 <= i < failed ==> parse_chain(
                            #[trigger] prepared_patterns(*config)[i],
                        ) is Ok
                    &&& parse_chain(prepared_patterns(*config)[failed]) matches Err(unparsed)
                    &&& error matches Some(message)
                    &&& message@ == invalid_filter_message(unparsed)
                },
        },
{
    let lens_patterns: Vec<String> = match &config.params {
        Some(params) => apply_substitution(&config.matchers, params),
        None => {
            let mut copies: Vec<String> = Vec::new();
            let mut k: usize = 0;
            while k < config.matchers.len()
                invariant
                    k <= config.matchers.len(),
                    copies@.len() == k,
                    forall|i: int| 0 <= i < k ==> (#[trigger] copies@[i])@ == config.matchers@[i]@,
                decreases config.matchers.len() - k,
            {
                copies.push(config.matchers[k].to_owned());
                k += 1;
            }
            copies
        },
    };
    let ghost patterns = prepared_patterns(*config);
    proof {
        if config.params is None {
            assert(lens_patterns@.map_values(|s: String| s@) =~= texts_of(config.matchers@));
        }
    }
    assert(patterns.len() == lens_patterns@.len());
    assert(forall|i: int|
        0 <= i < patterns.len() ==> (#[trigger] patterns[i]) == configured_case(
            lens_patterns@[i]@,
            config.ignore_case,
        ));
    let mut filters: Vec<Vec<Lens>> = Vec::new();
    let mut i: usize = 0;
    while i < lens_patterns.len()
        invariant
            i <= lens_patterns.len(),
            patterns == prepared_patterns(*config),
            patterns.len() == lens_patterns@.len(),
            forall|i: int|
                0 <= i < patterns.len() ==> (#[trigger] patterns[i]) == configured_case(
                    lens_patterns@[i]@,
                    config.ignore_case,
                ),
            parsed_so_far(patterns, filters@, i as int),
        decreases lens_patterns.len() - i,
    {
        let pattern = in_configured_case(lens_patterns[i].as_str(), config);
        match match_filters(pattern.as_str()) {
            Ok(lenses) => {
                filters.push(lenses);
            },
            Err(message) => {
                assert(parse_chain(patterns[i as int]) is Err);
                return Err(Some(message));
            },
        }
        i += 1;
    }
    Ok(filters)
}

} // verus!
