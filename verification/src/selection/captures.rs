//! The token rules of the selector grammar. Each rule reads one lens from
//! the head of a pattern and cuts the pattern into the parts that make up the
//! lens and the remainder that follows it.
//!
//! ```text
//! dotted property   .NAME REST
//! braced property   {"NAME"} REST   or   {"NAME" TEST} REST
//! indexed element   [DIGITS] REST
//! tested element    [TEST] REST
//! bracketed chain   [INNER]
//! TEST              OPERATORS VALUE
//! VALUE             "TEXT"  or  WORD
//! ```
//!
//! `NAME` and `WORD` are the longest runs of word characters, `DIGITS` of
//! decimal digits and `TEXT` of characters other than the double quote; none
//! is empty. `OPERATORS` is the longest run of operators, written with `:` in
//! braces and with `=` in brackets. A `WORD` of digits alone is a number.

use crate::text::{chars_of, run_length, scan_run, CharClass};
use vstd::prelude::*;
use vstd::string::StrSliceExecFns;

verus! {

/// The parts that a token rule found in a pattern.
#[derive(Debug, PartialEq, Eq)]
pub struct Captures<'a> {
    pub prop: Option<&'a str>,
    pub index: Option<&'a str>,
    pub matching_strategy: Option<&'a str>,
    pub string_value: Option<&'a str>,
    pub number_value: Option<&'a str>,
    pub literal_value: Option<&'a str>,
    pub remainder: Option<&'a str>,
}

/// [`Captures`] as specifications see them.
pub struct SpecCaptures {
    pub prop: Option<Seq<char>>,
    pub index: Option<Seq<char>>,
    pub matching_strategy: Option<Seq<char>>,
    pub string_value: Option<Seq<char>>,
    pub number_value: Option<Seq<char>>,
    pub literal_value: Option<Seq<char>>,
    pub remainder: Option<Seq<char>>,
}

/// The characters of a part that may be missing.
pub open spec fn text_of(part: Option<&str>) -> Option<Seq<char>> {
    match part {
        Some(text) => Some(text@),
        None => None,
    }
}

impl<'a> View for Captures<'a> {
    type V = SpecCaptures;

    open spec fn view(&self) -> SpecCaptures {
        SpecCaptures {
            prop: text_of(self.prop),
            index: text_of(self.index),
            matching_strategy: text_of(self.matching_strategy),
            string_value: text_of(self.string_value),
            number_value: text_of(self.number_value),
            literal_value: text_of(self.literal_value),
            remainder: text_of(self.remainder),
        }
    }
}

/// The test of a value as a token rule found it: the operators, the value
/// under the one of three names that says how it was written, and the
/// position after the value.
pub struct SpecValueTest {
    pub matching_strategy: Seq<char>,
    pub string_value: Option<Seq<char>>,
    pub number_value: Option<Seq<char>>,
    pub literal_value: Option<Seq<char>>,
    pub end: int,
}

/// What follows position `at`, or nothing where the pattern ends there.
pub open spec fn rest_from(s: Seq<char>, at: int) -> Option<Seq<char>> {
    if 0 <= at < s.len() {
        Some(s.skip(at))
    } else {
        None
    }
}

/// A character that, before the mark, makes an operator of two characters.
pub open spec fn is_modifier(c: char) -> bool {
    c == '~' || c == '$' || c == '^' || c == '*'
}

/// The length of the operator at the head of `s`, or zero where there is
/// none: the mark alone, or a modifier and the mark.
pub open spec fn operator_length(s: Seq<char>, mark: char) -> nat {
    if s.len() >= 1 && s[0] == mark {
        1
    } else if s.len() >= 2 && is_modifier(s[0]) && s[1] == mark {
        2
    } else {
        0
    }
}

/// The length of the longest run of operators at the head of `s`.
pub open spec fn operator_run(s: Seq<char>, mark: char) -> nat
    decreases s.len(),
{
    let first = operator_length(s, mark);
    if first == 0 {
        0
    } else {
        first + operator_run(s.skip(first as int), mark)
    }
}

/// The test that begins at `at`.
pub open spec fn value_test(s: Seq<char>, at: int, mark: char) -> Option<SpecValueTest> {
    let value: int = at + operator_run(s.skip(at), mark);
    if value == at || value >= s.len() {
        None
    } else if s[value] == '"' {
        let text: int = run_length(s.skip(value + 1), CharClass::Unquoted) as int;
        if text > 0 && value + 1 + text < s.len() {
            Some(
                SpecValueTest {
                    matching_strategy: s.subrange(at, value),
                    string_value: Some(s.subrange(value + 1, value + 1 + text)),
                    number_value: None,
                    literal_value: None,
                    end: value + text + 2,
                },
            )
        } else {
            None
        }
    } else {
        let word: int = run_length(s.skip(value), CharClass::Word) as int;
        if word == 0 {
            None
        } else if run_length(s.skip(value), CharClass::Digit) == word {
            Some(
                SpecValueTest {
                    matching_strategy: s.subrange(at, value),
                    string_value: None,
                    number_value: Some(s.subrange(value, value + word)),
                    literal_value: None,
                    end: value + word,
                },
            )
        } else {
            Some(
                SpecValueTest {
                    matching_strategy: s.subrange(at, value),
                    string_value: None,
                    number_value: None,
                    literal_value: Some(s.subrange(value, value + word)),
                    end: value + word,
                },
            )
        }
    }
}

/// The rule `.NAME REST`.
pub open spec fn dotted_property(s: Seq<char>) -> Option<SpecCaptures> {
    let name: int = run_length(s.skip(1), CharClass::Word) as int;
    if s.len() > 0 && s[0] == '.' && name > 0 {
        Some(
            SpecCaptures {
                prop: Some(s.subrange(1, 1 + name)),
                index: None,
                matching_strategy: None,
                string_value: None,
                number_value: None,
                literal_value: None,
                remainder: rest_from(s, 1 + name),
            },
        )
    } else {
        None
    }
}

/// The rule `{"NAME"} REST` or `{"NAME" TEST} REST`, with `:` as the mark of
/// the operators.
pub open spec fn braced_property(s: Seq<char>) -> Option<SpecCaptures> {
    let name: int = run_length(s.skip(2), CharClass::Word) as int;
    let quote: int = 2 + name;
    if s.len() > 2 && s[0] == '{' && s[1] == '"' && name > 0 && quote + 1 < s.len() && s[quote]
        == '"' {
        if s[quote + 1] == '}' {
            Some(
                SpecCaptures {
                    prop: Some(s.subrange(2, quote)),
                    index: None,
                    matching_strategy: None,
                    string_value: None,
                    number_value: None,
                    literal_value: None,
                    remainder: rest_from(s, quote + 2),
                },
            )
        } else {
            match value_test(s, quote + 1, ':') {
                Some(test) => if test.end < s.len() && s[test.end] == '}' {
                    Some(
                        SpecCaptures {
                            prop: Some(s.subrange(2, quote)),
                            index: None,
                            matching_strategy: Some(test.matching_strategy),
                            string_value: test.string_value,
                            number_value: test.number_value,
                            literal_value: test.literal_value,
                            remainder: rest_from(s, test.end + 1),
                        },
                    )
                } else {
                    None
                },
                None => None,
            }
        }
    } else {
        None
    }
}

/// The rule `[DIGITS] REST`.
pub open spec fn indexed_element(s: Seq<char>) -> Option<SpecCaptures> {
    let digits: int = run_length(s.skip(1), CharClass::Digit) as int;
    if s.len() > 0 && s[0] == '[' && digits > 0 && 1 + digits < s.len() && s[1 + digits] == ']' {
        Some(
            SpecCaptures {
                prop: None,
                index: Some(s.subrange(1, 1 + digits)),
                matching_strategy: None,
                string_value: None,
                number_value: None,
                literal_value: None,
                remainder: rest_from(s, 2 + digits),
            },
        )
    } else {
        None
    }
}

/// The rule `[TEST] REST`, with `=` as the mark of the operators.
pub open spec fn tested_element(s: Seq<char>) -> Option<SpecCaptures> {
    if s.len() > 0 && s[0] == '[' {
        match value_test(s, 1, '=') {
            Some(test) => if test.end < s.len() && s[test.end] == ']' {
                Some(
                    SpecCaptures {
                        prop: None,
                        index: None,
                        matching_strategy: Some(test.matching_strategy),
                        string_value: test.string_value,
                        number_value: test.number_value,
                        literal_value: test.literal_value,
                        remainder: rest_from(s, test.end + 1),
                    },
                )
            } else {
                None
            },
            None => None,
        }
    } else {
        None
    }
}

/// The rule `[INNER]`: the whole pattern stands in brackets, and `INNER` is
/// what stands between them. It is not empty.
pub open spec fn bracketed(s: Seq<char>) -> Option<Seq<char>> {
    if s.len() >= 3 && s[0] == '[' && s[s.len() - 1] == ']' {
        Some(s.subrange(1, s.len() - 1))
    } else {
        None
    }
}

/// The part of the pattern from `at` on, where anything is left.
fn remainder_at<'a>(pattern: &'a str, length: usize, at: usize) -> (rest: Option<&'a str>)
    requires
        length == pattern@.len(),
    ensures
        text_of(rest) == rest_from(pattern@, at as int),
{
    if at < length {
        let rest = pattern.substring_char(at, length);
        Some(rest)
    } else {
        None
    }
}

/// The end of the longest run of operators that begins at `from`.
fn scan_operators(chars: &Vec<char>, from: usize, mark: char) -> (end: usize)
    requires
        from <= chars.len(),
    ensures
        from <= end <= chars.len(),
        end - from == operator_run(chars@.skip(from as int), mark),
{
    let mut end: usize = from;
    loop
        invariant
            from <= end <= chars.len(),
            operator_run(chars@.skip(from as int), mark) == (end - from) + operator_run(
                chars@.skip(end as int),
                mark,
            ),
        decreases chars.len() - end,
    {
        let ghost here = chars@.skip(end as int);
        let step: usize = if end < chars.len() && chars[end] == mark {
            1
        } else if end < chars.len() && end + 1 < chars.len() && (chars[end] == '~' || chars[end] == '$' || chars[end]
            == '^' || chars[end] == '*') && chars[end + 1] == mark {
            2
        } else {
            0
        };
        proof {
            if end < chars.len() {
                assert(here[0] == chars@[end as int]);
            }
            if end + 1 < chars.len() {
                assert(here[1] == chars@[end + 1]);
            }
            assert(step == operator_length(here, mark));
            assert(here.skip(step as int) =~= chars@.skip(end + step));
        }
        if step == 0 {
            return end;
        }
        end += step;
    }
}

/// The test of a value, cut out of the pattern.
struct ValueTest<'a> {
    matching_strategy: &'a str,
    string_value: Option<&'a str>,
    number_value: Option<&'a str>,
    literal_value: Option<&'a str>,
    end: usize,
}

impl<'a> ValueTest<'a> {
    spec fn model(self) -> SpecValueTest {
        SpecValueTest {
            matching_strategy: self.matching_strategy@,
            string_value: text_of(self.string_value),
            number_value: text_of(self.number_value),
            literal_value: text_of(self.literal_value),
            end: self.end as int,
        }
    }
}

/// Reads the test that begins at `at`.
fn scan_value_test<'a>(pattern: &'a str, chars: &Vec<char>, at: usize, mark: char) -> (found:
    Option<ValueTest<'a>>)
    requires
        chars@ == pattern@,
        at <= chars.len(),
    ensures
        match value_test(pattern@, at as int, mark) {
            Some(test) => found matches Some(got) && got.model() == test && at < got.end
                <= chars.len(),
            None => found is None,
        },
{
    let value = scan_operators(chars, at, mark);
    if value == at || value >= chars.len() {
        return None;
    }
    let matching_strategy = pattern.substring_char(at, value);
    if chars[value] == '"' {
        let end = scan_run(chars, value + 1, CharClass::Unquoted);
        if end > value + 1 && end < chars.len() {
            let string_value = pattern.substring_char(value + 1, end);
            Some(
                ValueTest {
                    matching_strategy,
                    string_value: Some(string_value),
                    number_value: None,
                    literal_value: None,
                    end: end + 1,
                },
            )
        } else {
            None
        }
    } else {
        let end = scan_run(chars, value, CharClass::Word);
        if end == value {
            return None;
        }
        let word = pattern.substring_char(value, end);
        let digits = scan_run(chars, value, CharClass::Digit);
        if digits == end {
            Some(
                ValueTest {
                    matching_strategy,
                    string_value: None,
                    number_value: Some(word),
                    literal_value: None,
                    end,
                },
            )
        } else {
            Some(
                ValueTest {
                    matching_strategy,
                    string_value: None,
                    number_value: None,
                    literal_value: Some(word),
                    end,
                },
            )
        }
    }
}

impl<'a> Captures<'a> {
    /// Reads a pattern by the rule `.NAME REST`.
    pub fn dotted_property(pattern: &'a str) -> (found: Option<Captures<'a>>)
        ensures
            match dotted_property(pattern@) {
                Some(parts) => found matches Some(got) && got@ == parts,
                None => found is None,
            },
    {
        let chars = chars_of(pattern);
        if chars.len() == 0 || chars[0] != '.' {
            return None;
        }
        let end = scan_run(&chars, 1, CharClass::Word);
        if end == 1 {
            return None;
        }
        let prop = pattern.substring_char(1, end);
        let remainder = remainder_at(pattern, chars.len(), end);
        Some(
            Captures {
                prop: Some(prop),
                index: None,
                matching_strategy: None,
                string_value: None,
                number_value: None,
                literal_value: None,
                remainder,
            },
        )
    }

    /// Reads a pattern by the rule `{"NAME"} REST` or `{"NAME" TEST} REST`.
    pub fn braced_property(pattern: &'a str) -> (found: Option<Captures<'a>>)
        ensures
            match braced_property(pattern@) {
                Some(parts) => found matches Some(got) && got@ == parts,
                None => found is None,
            },
    {
        let chars = chars_of(pattern);
        if chars.len() <= 2 || chars[0] != '{' || chars[1] != '"' {
            return None;
        }
        let quote = scan_run(&chars, 2, CharClass::Word);
        if quote == 2 || quote >= chars.len() - 1 || chars[quote] != '"' {
            return None;
        }
        let prop = pattern.substring_char(2, quote);
        if chars[quote + 1] == '}' {
            let remainder = remainder_at(pattern, chars.len(), quote + 2);
            return Some(
                Captures {
                    prop: Some(prop),
                    index: None,
                    matching_strategy: None,
                    string_value: None,
                    number_value: None,
                    literal_value: None,
                    remainder,
                },
            );
        }
        match scan_value_test(pattern, &chars, quote + 1, ':') {
            Some(test) => {
                if test.end < chars.len() && chars[test.end] == '}' {
                    let remainder = remainder_at(pattern, chars.len(), test.end + 1);
                    Some(
                        Captures {
                            prop: Some(prop),
                            index: None,
                            matching_strategy: Some(test.matching_strategy),
                            string_value: test.string_value,
                            number_value: test.number_value,
                            literal_value: test.literal_value,
                            remainder,
                        },
                    )
                } else {
                    None
                }
            },
            None => None,
        }
    }

    /// Reads a pattern by the rule `[DIGITS] REST`.
    pub fn indexed_element(pattern: &'a str) -> (found: Option<Captures<'a>>)
        ensures
            match indexed_element(pattern@) {
                Some(parts) => found matches Some(got) && got@ == parts,
                None => found is None,
            },
    {
        let chars = chars_of(pattern);
        if chars.len() == 0 || chars[0] != '[' {
            return None;
        }
        let end = scan_run(&chars, 1, CharClass::Digit);
        if end == 1 || end >= chars.len() || chars[end] != ']' {
            return None;
        }
        let index = pattern.substring_char(1, end);
        let remainder = remainder_at(pattern, chars.len(), end + 1);
        Some(
            Captures {
                prop: None,
                index: Some(index),
                matching_strategy: None,
                string_value: None,
                number_value: None,
                literal_value: None,
                remainder,
            },
        )
    }

    /// Reads a pattern by the rule `[TEST] REST`.
    pub fn tested_element(pattern: &'a str) -> (found: Option<Captures<'a>>)
        ensures
            match tested_element(pattern@) {
                Some(parts) => found matches Some(got) && got@ == parts,
                None => found is None,
            },
    {
        let chars = chars_of(pattern);
        if chars.len() == 0 || chars[0] != '[' {
            return None;
        }
        match scan_value_test(pattern, &chars, 1, '=') {
            Some(test) => {
                if test.end < chars.len() && chars[test.end] == ']' {
                    let remainder = remainder_at(pattern, chars.len(), test.end + 1);
                    Some(
                        Captures {
                            prop: None,
                            index: None,
                            matching_strategy: Some(test.matching_strategy),
                            string_value: test.string_value,
                            number_value: test.number_value,
                            literal_value: test.literal_value,
                            remainder,
                        },
                    )
                } else {
                    None
                }
            },
            None => None,
        }
    }
}

/// Reads a pattern by the rule `[INNER]` and returns `INNER`.
pub fn bracketed_chain<'a>(pattern: &'a str) -> (inner: Option<&'a str>)
    ensures
        text_of(inner) == bracketed(pattern@),
{
    let chars = chars_of(pattern);
    let length = chars.len();
    if length >= 3 && chars[0] == '[' && chars[length - 1] == ']' {
        let inner = pattern.substring_char(1, length - 1);
        Some(inner)
    } else {
        None
    }
}

} // verus!
