//! Selection by position alone: `[N]`.

use crate::selection::array_member::ArrayIndexMember;
use crate::selection::captures::{indexed_element, text_of, Captures};
use crate::text::{all_digits, decimal_value, parse_decimal};
use vstd::prelude::*;

verus! {

/// The lens that selects the element of an array at `index`.
pub fn array_index(index: usize) -> (lens: ArrayIndexMember)
    ensures
        lens.index == index,
{
    ArrayIndexMember { index }
}

/// The rule `[DIGITS] REST` with the digits read in decimal: the position and
/// the remainder. The position must not be above the largest `usize`.
pub open spec fn index_rule(s: Seq<char>) -> Option<(int, Option<Seq<char>>)> {
    match indexed_element(s) {
        Some(cap) => match cap.index {
            Some(digits) => if digits.len() > 0 && all_digits(digits) && decimal_value(digits)
                <= usize::MAX {
                Some((decimal_value(digits) as int, cap.remainder))
            } else {
                None
            },
            None => None,
        },
        None => None,
    }
}

/// Reads a position in brackets from the head of the pattern, and the
/// remainder.
pub fn match_array_index<'a>(pattern: &'a str) -> (out: Option<(usize, Option<&'a str>)>)
    ensures
        match index_rule(pattern@) {
            Some((index, rest)) => out matches Some((position, remainder)) && position == index
                && text_of(remainder) == rest,
            None => out is None,
        },
{
    match Captures::indexed_element(pattern) {
        Some(cap) => match cap.index {
            Some(index) => match parse_decimal(index, usize::MAX as u64) {
                Some(position) => Some((position as usize, cap.remainder)),
                None => None,
            },
            None => None,
        },
        None => None,
    }
}

/// Reads a lens that selects by position from the head of the pattern, and
/// hands back a pattern that begins with none.
pub fn greedily_matches<'a>(maybe_pattern: Option<&'a str>) -> (out: Result<
    (ArrayIndexMember, Option<&'a str>),
    Option<&'a str>,
>)
    ensures
        match maybe_pattern {
            Some(pattern) => match index_rule(pattern@) {
                Some((index, rest)) => out matches Ok((lens, remainder)) && lens.index == index
                    && text_of(remainder) == rest,
                None => out == Err::<(ArrayIndexMember, Option<&'a str>), Option<&'a str>>(
                    maybe_pattern,
                ),
            },
            None => out == Err::<(ArrayIndexMember, Option<&'a str>), Option<&'a str>>(None),
        },
{
    match maybe_pattern {
        Some(pattern) => match match_array_index(pattern) {
            Some((index, remainder)) => Ok((array_index(index), remainder)),
            None => Err(maybe_pattern),
        },
        None => Err(maybe_pattern),
    }
}

} // verus!
