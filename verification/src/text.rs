//! Character-level helpers shared by the pattern grammar and the value
//! matchers. A string is viewed as its sequence of `char`s, and every
//! comparison is exact on that sequence.

use vstd::prelude::*;

verus! {

/// A word character: an ASCII letter, an ASCII digit or the underscore.
pub open spec fn is_word(c: char) -> bool {
    ('a' <= c && c <= 'z') || ('A' <= c && c <= 'Z') || ('0' <= c && c <= '9') || c == '_'
}

/// An ASCII decimal digit.
pub open spec fn is_digit(c: char) -> bool {
    '0' <= c && c <= '9'
}

/// A character with the Unicode `White_Space` property.
pub open spec fn is_whitespace(c: char) -> bool {
    let u = c as u32;
    (0x09 <= u && u <= 0x0D) || u == 0x20 || u == 0x85 || u == 0xA0 || u == 0x1680 || (0x2000
        <= u && u <= 0x200A) || u == 0x2028 || u == 0x2029 || u == 0x202F || u == 0x205F || u
        == 0x3000
}

/// The classes of characters that the pattern grammar reads in runs.
#[derive(Clone, Copy, Debug, PartialEq, Eq)]
pub enum CharClass {
    /// Word characters.
    Word,
    /// Decimal digits.
    Digit,
    /// Anything but a double quote.
    Unquoted,
}

impl CharClass {
    /// Whether `c` belongs to the class.
    pub open spec fn holds(self, c: char) -> bool {
        match self {
            CharClass::Word => is_word(c),
            CharClass::Digit => is_digit(c),
            CharClass::Unquoted => c != '"',
        }
    }

    /// Executable form of [`CharClass::holds`].
    pub fn admits(self, c: char) -> (b: bool)
        ensures
            b == self.holds(c),
    {
        match self {
            CharClass::Word => is_word_char(c),
            CharClass::Digit => is_digit_char(c),
            CharClass::Unquoted => c != '"',
        }
    }
}

/// Executable form of [`is_word`].
pub fn is_word_char(c: char) -> (b: bool)
    ensures
        b == is_word(c),
{
    ('a' <= c && c <= 'z') || ('A' <= c && c <= 'Z') || ('0' <= c && c <= '9') || c == '_'
}

/// Executable form of [`is_digit`].
pub fn is_digit_char(c: char) -> (b: bool)
    ensures
        b == is_digit(c),
{
    '0' <= c && c <= '9'
}

/// Executable form of [`is_whitespace`].
pub fn is_whitespace_char(c: char) -> (b: bool)
    ensures
        b == is_whitespace(c),
{
    let u: u32 = c as u32;
    (0x09 <= u && u <= 0x0D) || u == 0x20 || u == 0x85 || u == 0xA0 || u == 0x1680 || (0x2000
        <= u && u <= 0x200A) || u == 0x2028 || u == 0x2029 || u == 0x202F || u == 0x205F || u
        == 0x3000
}

/// The characters of `s`, in order.
pub fn chars_of(s: &str) -> (chars: Vec<char>)
    ensures
        chars@ == s@,
{
    let mut chars: Vec<char> = Vec::new();
    for c in it: s.chars()
        invariant
            chars@ == it.seq().take(it.index() as int),
            it.seq() == s@,
    {
        chars.push(c);
    }
    chars
}

/// `part` stands in `text` at position `at`.
pub open spec fn occurs_at(text: Seq<char>, part: Seq<char>, at: int) -> bool {
    0 <= at && at + part.len() <= text.len() && text.subrange(at, at + part.len()) == part
}

/// `text` begins with `part`.
pub open spec fn starts_with(text: Seq<char>, part: Seq<char>) -> bool {
    occurs_at(text, part, 0)
}

/// `text` ends with `part`.
pub open spec fn ends_with(text: Seq<char>, part: Seq<char>) -> bool {
    occurs_at(text, part, text.len() - part.len())
}

/// `part` stands somewhere in `text`.
pub open spec fn contains(text: Seq<char>, part: Seq<char>) -> bool {
    exists|at: int| occurs_at(text, part, at)
}

/// `at` is the first position at which `part` stands in `text`.
pub open spec fn first_occurrence(text: Seq<char>, part: Seq<char>, at: int) -> bool {
    occurs_at(text, part, at) && forall|earlier: int| 0 <= earlier < at ==> !occurs_at(
        text,
        part,
        earlier,
    )
}

/// `text[from..to]` is a token of `text`: a non-empty run without white space
/// that white space or an end of the text bounds on either side.
pub open spec fn is_token_at(text: Seq<char>, from: int, to: int) -> bool {
    &&& 0 <= from < to <= text.len()
    &&& forall|k: int| from <= k < to ==> !is_whitespace(#[trigger] text[k])
    &&& (from == 0 || is_whitespace(text[from - 1]))
    &&& (to == text.len() || is_whitespace(text[to]))
}

/// `token` is one of the tokens that splitting `text` on white space gives.
pub open spec fn has_token(text: Seq<char>, token: Seq<char>) -> bool {
    exists|from: int, to: int| is_token_at(text, from, to) && text.subrange(from, to) == token
}

/// The length of the longest prefix of `s` whose characters are all in `class`.
pub open spec fn run_length(s: Seq<char>, class: CharClass) -> nat
    decreases s.len(),
{
    if s.len() > 0 && class.holds(s[0]) {
        1 + run_length(s.drop_first(), class)
    } else {
        0
    }
}

/// Whether `part` stands in `text` at `at`.
pub fn matches_at(text: &Vec<char>, part: &Vec<char>, at: usize) -> (b: bool)
    ensures
        b == occurs_at(text@, part@, at as int),
{
    if part.len() > text.len() || at > text.len() - part.len() {
        return false;
    }
    let mut k: usize = 0;
    while k < part.len()
        invariant
            k <= part.len(),
            at + part.len() <= text.len(),
            forall|j: int| 0 <= j < k ==> text@[at + j] == part@[j],
        decreases part.len() - k,
    {
        if text[at + k] != part[k] {
            proof {
                let sub = text@.subrange(at as int, at + part.len());
                assert(sub[k as int] == text@[at + k]);
            }
            return false;
        }
        k += 1;
    }
    proof {
        assert(text@.subrange(at as int, at + part.len()) =~= part@);
    }
    true
}

/// The first position at which `part` stands in `text`, if there is one.
pub fn find(text: &Vec<char>, part: &Vec<char>) -> (found: Option<usize>)
    ensures
        match found {
            Some(at) => first_occurrence(text@, part@, at as int),
            None => !contains(text@, part@),
        },
{
    if part.len() > text.len() {
        return None;
    }
    let last: usize = text.len() - part.len();
    let mut at: usize = 0;
    loop
        invariant
            at <= last,
            last == text.len() - part.len(),
            part.len() <= text.len(),
            forall|earlier: int| 0 <= earlier < at ==> !occurs_at(text@, part@, earlier),
        decreases last - at,
    {
        if matches_at(text, part, at) {
            return Some(at);
        }
        if at == last {
            return None;
        }
        at += 1;
    }
}

/// Whether `text` begins with `part`.
pub fn str_starts_with(text: &str, part: &str) -> (b: bool)
    ensures
        b == starts_with(text@, part@),
{
    let text_chars = chars_of(text);
    let part_chars = chars_of(part);
    matches_at(&text_chars, &part_chars, 0)
}

/// Whether `text` ends with `part`.
pub fn str_ends_with(text: &str, part: &str) -> (b: bool)
    ensures
        b == ends_with(text@, part@),
{
    let text_chars = chars_of(text);
    let part_chars = chars_of(part);
    if part_chars.len() > text_chars.len() {
        return false;
    }
    matches_at(&text_chars, &part_chars, text_chars.len() - part_chars.len())
}

/// Whether `part` stands somewhere in `text`.
pub fn str_contains(text: &str, part: &str) -> (b: bool)
    ensures
        b == contains(text@, part@),
{
    let text_chars = chars_of(text);
    let part_chars = chars_of(part);
    let found = find(&text_chars, &part_chars);
    found.is_some()
}

/// Whether the two strings hold the same characters.
pub fn str_equal(left: &str, right: &str) -> (b: bool)
    ensures
        b == (left@ == right@),
{
    let left_chars = chars_of(left);
    let right_chars = chars_of(right);
    if left_chars.len() != right_chars.len() {
        return false;
    }
    let b = matches_at(&left_chars, &right_chars, 0);
    proof {
        assert(left@.subrange(0, left@.len() as int) =~= left@);
    }
    b
}

/// Whether `token` is one of the tokens that splitting `text` on white space
/// gives.
pub fn str_has_token(text: &str, token: &str) -> (b: bool)
    ensures
        b == has_token(text@, token@),
{
    let chars = chars_of(text);
    let wanted = chars_of(token);
    let len = chars.len();
    let mut at: usize = 0;
    while at < len
        invariant
            at <= len,
            len == chars@.len(),
            chars@ == text@,
            wanted@ == token@,
            at == 0 || is_whitespace(chars@[at - 1]),
            forall|from: int, to: int|
                from < at && is_token_at(chars@, from, to) ==> chars@.subrange(from, to)
                    != wanted@,
        decreases len - at,
    {
        if is_whitespace_char(chars[at]) {
            at += 1;
        } else {
            let start = at;
            let mut end: usize = at + 1;
            while end < len && !is_whitespace_char(chars[end])
                invariant
                    start < end <= len,
                    len == chars@.len(),
                    forall|k: int| start <= k < end ==> !is_whitespace(#[trigger] chars@[k]),
                decreases len - end,
            {
                end += 1;
            }
            assert(is_token_at(chars@, start as int, end as int));
            let same = end - start == wanted.len() && matches_at(&chars, &wanted, start);
            if same {
                return true;
            }
            proof {
                assert forall|from: int, to: int|
                    from <= end && is_token_at(chars@, from, to) implies chars@.subrange(from, to)
                        != wanted@ by {
                    if start <= from {
                        if from > start {
                            assert(!is_whitespace(chars@[from - 1]));
                        }
                        if from == end {
                            assert(is_whitespace(chars@[from]) || from == len);
                        }
                        if from == start {
                            if to < end {
                                assert(!is_whitespace(chars@[to]));
                            }
                            if to > end {
                                assert(!is_whitespace(chars@[end as int]));
                            }
                            assert(to == end);
                        }
                    }
                }
            }
            if end == len {
                return false;
            }
            at = end + 1;
        }
    }
    false
}

/// The number that a decimal digit stands for.
pub open spec fn digit_value(c: char) -> int {
    c as int - '0' as int
}

/// The number that a run of decimal digits denotes, most significant digit
/// first. The empty run denotes zero.
pub open spec fn decimal_value(digits: Seq<char>) -> nat
    decreases digits.len(),
{
    if digits.len() == 0 {
        0
    } else {
        (decimal_value(digits.drop_last()) * 10 + digit_value(digits.last())) as nat
    }
}

/// Every character of `s` is a decimal digit.
pub open spec fn all_digits(s: Seq<char>) -> bool {
    forall|k: int| 0 <= k < s.len() ==> is_digit(#[trigger] s[k])
}

/// A longer run of digits denotes at least what its prefixes denote.
pub proof fn lemma_decimal_value_grows(digits: Seq<char>, shorter: int)
    requires
        all_digits(digits),
        0 <= shorter <= digits.len(),
    ensures
        decimal_value(digits.take(shorter)) <= decimal_value(digits),
    decreases digits.len() - shorter,
{
    if shorter == digits.len() {
        assert(digits.take(shorter) =~= digits);
    } else {
        lemma_decimal_value_grows(digits, shorter + 1);
        let next = digits.take(shorter + 1);
        assert(next.drop_last() =~= digits.take(shorter));
        assert(is_digit(next.last()));
    }
}

/// Reads a run of decimal digits as a number no greater than `limit`.
/// Returns `None` where a character is no digit, the run is empty or the
/// number is above the limit.
pub fn parse_decimal(text: &str, limit: u64) -> (value: Option<u64>)
    ensures
        value == (if text@.len() > 0 && all_digits(text@) && decimal_value(text@) <= limit {
            Some(decimal_value(text@) as u64)
        } else {
            None
        }),
{
    let digits = chars_of(text);
    if digits.len() == 0 {
        return None;
    }
    let mut total: u64 = 0;
    let mut k: usize = 0;
    while k < digits.len()
        invariant
            k <= digits.len(),
            digits@ == text@,
            all_digits(digits@.take(k as int)),
            total == decimal_value(digits@.take(k as int)),
            total <= limit,
        decreases digits.len() - k,
    {
        let c = digits[k];
        if !is_digit_char(c) {
            return None;
        }
        let d: u64 = (c as u32 - '0' as u32) as u64;
        proof {
            let next = digits@.take(k + 1);
            assert(next.drop_last() =~= digits@.take(k as int));
            assert(next.last() == c);
            assert(all_digits(next)) by {
                assert forall|j: int| 0 <= j < next.len() implies is_digit(#[trigger] next[j]) by {
                    if j < k {
                        assert(next[j] == digits@.take(k as int)[j]);
                    }
                }
            }
            assert(decimal_value(next) == total * 10 + d);
            if all_digits(digits@) {
                lemma_decimal_value_grows(digits@, k + 1);
            }
        }
        if d > limit || total > (limit - d) / 10 {
            return None;
        }
        total = total * 10 + d;
        k += 1;
    }
    proof {
        assert(digits@.take(k as int) =~= digits@);
    }
    Some(total)
}

/// The end of the longest run of characters of `class` that begins at
/// `from`. A position beyond the end of the text is handed back.
pub fn scan_run(chars: &Vec<char>, from: usize, class: CharClass) -> (end: usize)
    ensures
        from <= end,
        from <= chars.len() ==> end <= chars.len() && end - from == run_length(
            chars@.skip(from as int),
            class,
        ),
        from > chars.len() ==> end == from,
{
    if from > chars.len() {
        return from;
    }
    let mut end: usize = from;
    while end < chars.len() && class.admits(chars[end])
        invariant
            from <= end <= chars.len(),
            run_length(chars@.skip(from as int), class) == (end - from) + run_length(
                chars@.skip(end as int),
                class,
            ),
        decreases chars.len() - end,
    {
        proof {
            let here = chars@.skip(end as int);
            assert(here[0] == chars@[end as int]);
            assert(here.drop_first() =~= chars@.skip(end + 1));
        }
        end += 1;
    }
    proof {
        let here = chars@.skip(end as int);
        if end < chars.len() {
            assert(here[0] == chars@[end as int]);
        }
    }
    end
}

} // verus!
