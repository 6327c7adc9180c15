//! What the line pipeline decides: how patterns are prepared, which lines are
//! selected, how a selected line is to be written, and how the selected lines
//! are counted.

pub mod enumeration;
pub mod parameter_substitution;

use crate::document::Json;
use crate::input::enumeration::{counted_one_more, Enumeration};
use crate::selection::{chain_view, match_json_slice, search, Lens, SpecLens};
use vstd::prelude::*;

verus! {

/// Whether and how the parts of a line that the patterns selected are marked
/// when the line is written.
#[derive(Clone, Copy, Debug, PartialEq, Eq)]
pub enum HighlightMatches {
    Never,
    Cycle,
    Single,
}

/// The options of one run.
pub struct Config<'a> {
    pub matchers: Vec<&'a str>,
    pub params: Option<Vec<&'a str>>,
    pub input: Option<&'a str>,
    pub print_only_count: bool,
    pub print_line_number: bool,
    pub highlight_matches: HighlightMatches,
    pub ignore_case: bool,
    pub is_quiet_mode: bool,
    pub invert_match: bool,
    pub match_root_only: bool,
    pub max_num: Option<usize>,
}

/// The text in lower case, as `str::to_lowercase` gives it.
pub uninterp spec fn lowercase(text: Seq<char>) -> Seq<char>;

/// Calls `str::to_lowercase`, which maps each character to its lower case
/// by the Unicode tables. The contract names the text without stating it.
#[verifier::external_body]
fn to_lowercase(value: &str) -> (lowered: String)
    ensures
        lowered@ == lowercase(value@),
{
    value.to_lowercase()
}

/// A text in the case in which the run compares: in lower case where case is
/// ignored, else as it is.
pub open spec fn configured_case(text: Seq<char>, ignore_case: bool) -> Seq<char> {
    if ignore_case {
        lowercase(text)
    } else {
        text
    }
}

/// The text in the case in which the run compares.
pub fn in_configured_case(value: &str, config: &Config) -> (out: String)
    ensures
        out@ == configured_case(value@, config.ignore_case),
{
    if config.ignore_case {
        to_lowercase(value)
    } else {
        value.to_owned()
    }
}

/// The chains that a vector of parsed patterns stands for.
pub open spec fn pattern_set_view(patterns: Seq<Vec<Lens>>) -> Seq<Seq<SpecLens>> {
    patterns.map_values(|lenses: Vec<Lens>| chain_view(lenses@))
}

/// What a vector of references into a document refers to.
pub open spec fn referents(found: Seq<&Json>) -> Seq<Json> {
    found.map_values(|node: &Json| *node)
}

/// What the patterns select in a document: the result of each pattern that
/// selects something, in the order of the patterns. Each pattern searches the
/// whole document, whatever the others found.
pub open spec fn matched_slices(
    patterns: Seq<Seq<SpecLens>>,
    document: Json,
    root_only: bool,
) -> Seq<Json>
    decreases patterns.len(),
{
    if patterns.len() == 0 {
        Seq::empty()
    } else {
        let before = matched_slices(patterns.drop_last(), document, root_only);
        match search(patterns.last(), document, root_only) {
            Some(found) => before.push(found),
            None => before,
        }
    }
}

/// The patterns select something exactly where one of them does.
pub proof fn lemma_matched_by_any(patterns: Seq<Seq<SpecLens>>, document: Json, root_only: bool)
    ensures
        matched_slices(patterns, document, root_only).len() > 0 <==> exists|i: int|
            0 <= i < patterns.len() && search(#[trigger] patterns[i], document, root_only) is Some,
    decreases patterns.len(),
{
    if patterns.len() > 0 {
        let front = patterns.drop_last();
        lemma_matched_by_any(front, document, root_only);
        if matched_slices(patterns, document, root_only).len() > 0 {
            if search(patterns.last(), document, root_only) is Some {
                assert(search(patterns[patterns.len() - 1], document, root_only) is Some);
            } else {
                let i = choose|i: int|
                    0 <= i < front.len() && search(#[trigger] front[i], document, root_only)
                        is Some;
                assert(front[i] == patterns[i]);
            }
        }
        if exists|i: int|
            0 <= i < patterns.len() && search(#[trigger] patterns[i], document, root_only)
                is Some {
            let i = choose|i: int|
                0 <= i < patterns.len() && search(#[trigger] patterns[i], document, root_only)
                    is Some;
            if i < front.len() {
                assert(front[i] == patterns[i]);
            }
        }
    }
}

/// Searches the document with every pattern and returns what the patterns
/// selected, in the order of the patterns, or nothing where none of them
/// selected anything.
pub fn any_match<'a>(matchers: &Vec<Vec<Lens>>, json_input: &'a Json, match_root_only: bool) -> (out:
    Option<Vec<&'a Json>>)
    ensures
        match out {
            Some(found) => found@.len() > 0 && referents(found@) == matched_slices(
                pattern_set_view(matchers@),
                *json_input,
                match_root_only,
            ),
            None => matched_slices(pattern_set_view(matchers@), *json_input, match_root_only).len()
                == 0,
        },
{
    let ghost patterns = pattern_set_view(matchers@);
    let mut matches: Vec<&'a Json> = Vec::new();
    let mut i: usize = 0;
    assert(patterns.take(0) =~= Seq::<Seq<SpecLens>>::empty());
    assert(referents(matches@) =~= Seq::<Json>::empty());
    while i < matchers.len()
        invariant
            i <= matchers.len(),
            patterns == pattern_set_view(matchers@),
            referents(matches@) == matched_slices(
                patterns.take(i as int),
                *json_input,
                match_root_only,
            ),
        decreases matchers.len() - i,
    {
        proof {
            let next = patterns.take(i + 1);
            assert(next.drop_last() =~= patterns.take(i as int));
            assert(next.last() == chain_view(matchers@[i as int]@));
        }
        match match_json_slice(&matchers[i], json_input, match_root_only) {
            Ok(found) => {
                proof {
                    assert(referents(matches@.push(found)) =~= referents(matches@).push(*found));
                }
                matches.push(found);
            },
            Err(_) => {},
        }
        i += 1;
    }
    proof {
        assert(patterns.take(i as int) =~= patterns);
    }
    if matches.len() == 0 {
        None
    } else {
        Some(matches)
    }
}

/// How a line is to be written.
#[derive(Debug, PartialEq, Eq)]
pub enum Rendering<'a> {
    /// As it was read.
    Plain,
    /// With the given parts of its document marked, all in one colour.
    Single(Vec<&'a Json>),
    /// With the given parts of its document marked, each in the next of a
    /// cycle of colours.
    Cycle(Vec<&'a Json>),
}

/// The result of matching one line: `Ok` where a pattern selected something
/// in its document, with the way to write the line; `Err` where the line held
/// no document or no pattern selected anything in it.
pub open spec fn line_match(
    patterns: Seq<Seq<SpecLens>>,
    root_only: bool,
    highlight: HighlightMatches,
    document: Option<Json>,
) -> Result<Option<Seq<Json>>, ()> {
    match document {
        Some(json) => {
            let found = matched_slices(patterns, json, root_only);
            if found.len() == 0 {
                Err(())
            } else if highlight == HighlightMatches::Never {
                Ok(None)
            } else {
                Ok(Some(found))
            }
        },
        None => Err(()),
    }
}

/// Matches the document of one line against the patterns. `json_input` is
/// the document that the line holds, or `None` where it holds none.
pub fn match_line<'a>(
    matchers: &Vec<Vec<Lens>>,
    config: &Config,
    json_input: Option<&'a Json>,
) -> (out: Result<Rendering<'a>, Rendering<'a>>)
    ensures
        match line_match(
            pattern_set_view(matchers@),
            config.match_root_only,
            config.highlight_matches,
            match json_input {
                Some(json) => Some(*json),
                None => None,
            },
        ) {
            Ok(None) => out == Ok::<Rendering<'a>, Rendering<'a>>(Rendering::Plain),
            Ok(Some(found)) => match config.highlight_matches {
                HighlightMatches::Cycle => out matches Ok(Rendering::Cycle(matches)) && referents(
                    matches@,
                ) == found,
                _ => out matches Ok(Rendering::Single(matches)) && referents(matches@) == found,
            },
            Err(_) => out == Err::<Rendering<'a>, Rendering<'a>>(Rendering::Plain),
        },
{
    match json_input {
        Some(json) => match any_match(matchers, json, config.match_root_only) {
            Some(matches) => Ok(
                match config.highlight_matches {
                    HighlightMatches::Never => Rendering::Plain,
                    HighlightMatches::Single => Rendering::Single(matches),
                    HighlightMatches::Cycle => Rendering::Cycle(matches),
                },
            ),
            None => Err(Rendering::Plain),
        },
        None => Err(Rendering::Plain),
    }
}

/// Whether the scan goes on after a selected line: it stops once the count
/// of selected lines has reached the limit, where there is a limit and a
/// count.
pub open spec fn may_proceed(max_num: Option<usize>, matched: Option<usize>) -> bool {
    match (max_num, matched) {
        (Some(max), Some(count)) => count < max,
        _ => true,
    }
}

/// What the pipeline does with one line.
#[derive(Debug, PartialEq, Eq)]
pub enum Step {
    /// The line was not selected: nothing is written.
    Skip,
    /// The line was selected. `index` is its number among the lines read,
    /// where lines are numbered. It is written only if `print` holds, and no
    /// further line is read unless `proceed` holds.
    Report { index: Option<usize>, matched_line: String, print: bool, proceed: bool },
}

/// The state of a scan over the lines of the input.
pub struct Scan {
    enumeration: Enumeration,
    last: Option<Option<usize>>,
}

impl Scan {
    /// The counters of the scan.
    pub closed spec fn enumeration(&self) -> Enumeration {
        self.enumeration
    }

    /// The count of selected lines that the last selected line left, where
    /// the scan went on after it; `None` where no such line has been seen.
    pub closed spec fn last(&self) -> Option<Option<usize>> {
        self.last
    }

    /// A scan that has seen no line. All lines are numbered where line
    /// numbers are asked for; selected lines are counted where only the count
    /// is written or where their number is limited.
    pub fn new(config: &Config) -> (scan: Scan)
        ensures
            scan.enumeration().enumerates_all() == config.print_line_number,
            scan.enumeration().enumerates_oks() == (config.print_only_count
                || config.max_num is Some),
            scan.enumeration().all() is None,
            scan.enumeration().oks() is None,
            scan.last() is None,
    {
        Scan {
            enumeration: Enumeration::new(
                config.print_line_number,
                config.print_only_count || config.max_num.is_some(),
            ),
            last: None,
        }
    }

    /// Takes the result of matching one line, `Ok` where the line is
    /// selected, and says what to do with the line.
    pub fn step(&mut self, config: &Config, line: Result<String, String>) -> (out: Step)
        ensures
            final(self).enumeration().enumerates_all() == old(self).enumeration().enumerates_all(),
            final(self).enumeration().enumerates_oks() == old(self).enumeration().enumerates_oks(),
            final(self).enumeration().all() == (if old(self).enumeration().enumerates_all() {
                counted_one_more(old(self).enumeration().all())
            } else {
                old(self).enumeration().all()
            }),
            final(self).enumeration().oks() == (if old(self).enumeration().enumerates_oks()
                && line is Ok {
                counted_one_more(old(self).enumeration().oks())
            } else {
                old(self).enumeration().oks()
            }),
            match line {
                Ok(text) => {
                    let proceed = may_proceed(config.max_num, final(self).enumeration().oks());
                    &&& out == (Step::Report {
                        index: final(self).enumeration().all(),
                        matched_line: text,
                        print: !(config.print_only_count || config.is_quiet_mode),
                        proceed,
                    })
                    &&& final(self).last() == (if proceed {
                        Some(final(self).enumeration().oks())
                    } else {
                        old(self).last()
                    })
                },
                Err(_) => out == Step::Skip && final(self).last() == old(self).last(),
            },
    {
        let (index, matched_count, matched_result) = self.enumeration.enumerate(line);
        match matched_result {
            Ok(matched_line) => {
                let proceed = match config.max_num {
                    Some(max) => match matched_count {
                        Some(matched) => matched < max,
                        None => true,
                    },
                    None => true,
                };
                if proceed {
                    self.last = Some(matched_count);
                }
                Step::Report {
                    index,
                    matched_line,
                    print: !(config.print_only_count || config.is_quiet_mode),
                    proceed,
                }
            },
            Err(_) => Step::Skip,
        }
    }

    /// The outcome of the scan: the count that the last selected line left,
    /// or an error without a message where no line was selected, or none
    /// before the limit was reached.
    pub fn finish(&self) -> (out: Result<Option<usize>, Option<String>>)
        ensures
            out == (match self.last() {
                Some(matched_lines) => Ok::<Option<usize>, Option<String>>(matched_lines),
                None => Err::<Option<usize>, Option<String>>(None),
            }),
    {
        match self.last {
            Some(matched_lines) => Ok(matched_lines),
            None => Err(None),
        }
    }
}

} // verus!
