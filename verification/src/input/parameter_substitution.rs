//! Parameters for patterns: each `{}` in a pattern stands for the next
//! parameter.

use crate::text::{chars_of, contains, find, first_occurrence, occurs_at};
use vstd::prelude::*;
use vstd::string::{StrSliceExecFns, StringExecFns};

verus! {

/// The two characters that stand for a parameter.
pub open spec fn placeholder() -> Seq<char> {
    seq!['{', '}']
}

/// The first position at which `part` stands in `text`, if it stands there
/// at all.
pub open spec fn index_of(text: Seq<char>, part: Seq<char>) -> Option<int> {
    if exists|at: int| first_occurrence(text, part, at) {
        Some(choose|at: int| first_occurrence(text, part, at))
    } else {
        None
    }
}

/// A first occurrence is the only one.
pub proof fn lemma_index_of(text: Seq<char>, part: Seq<char>, at: int)
    requires
        first_occurrence(text, part, at),
    ensures
        index_of(text, part) == Some(at),
{
    let chosen = choose|at: int| first_occurrence(text, part, at);
    if chosen < at {
        assert(!occurs_at(text, part, chosen));
    }
    if at < chosen {
        assert(!occurs_at(text, part, at));
    }
}

/// Where `part` stands nowhere in `text`, it has no first position.
pub proof fn lemma_index_of_none(text: Seq<char>, part: Seq<char>)
    requires
        !contains(text, part),
    ensures
        index_of(text, part) is None,
{
    if exists|at: int| first_occurrence(text, part, at) {
        let at = choose|at: int| first_occurrence(text, part, at);
        assert(occurs_at(text, part, at));
    }
}

/// One pattern after substitution, and the number of parameters used up
/// after it. While a parameter is left and the pattern holds a placeholder,
/// the first placeholder gives way to the next parameter; the text that a
/// parameter brought in is read again like the rest.
pub open spec fn substituted(source: Seq<char>, params: Seq<Seq<char>>, cursor: int) -> (
    Seq<char>,
    int,
)
    decreases params.len() - cursor,
{
    if 0 <= cursor < params.len() {
        match index_of(source, placeholder()) {
            Some(at) => substituted(
                source.subrange(0, at) + params[cursor] + source.subrange(
                    at + 2,
                    source.len() as int,
                ),
                params,
                cursor + 1,
            ),
            None => (source, cursor),
        }
    } else {
        (source, cursor)
    }
}

/// The patterns after substitution. The parameters are used in order, and
/// one pattern goes on where the one before it stopped.
pub open spec fn substitution(sources: Seq<Seq<char>>, params: Seq<Seq<char>>, cursor: int) -> Seq<
    Seq<char>,
>
    decreases sources.len(),
{
    if sources.len() == 0 {
        Seq::empty()
    } else {
        let (text, next) = substituted(sources[0], params, cursor);
        seq![text] + substitution(sources.drop_first(), params, next)
    }
}

/// The texts of a sequence of string slices.
pub open spec fn texts_of(strings: Seq<&str>) -> Seq<Seq<char>> {
    strings.map_values(|s: &str| s@)
}

/// The texts of a sequence of strings.
pub open spec fn texts(strings: Seq<String>) -> Seq<Seq<char>> {
    strings.map_values(|s: String| s@)
}

/// Substitutes into one pattern, beginning with the parameter at `cursor`.
fn substitute_one(source: &str, params: &Vec<&str>, cursor: usize) -> (out: (String, usize))
    requires
        cursor <= params.len(),
    ensures
        (out.0@, out.1 as int) == substituted(source@, texts_of(params@), cursor as int),
        cursor <= out.1 <= params.len(),
{
    let mut marker: Vec<char> = Vec::new();
    marker.push('{');
    marker.push('}');
    assert(marker@ =~= placeholder());
    let mut src: String = source.to_owned();
    let mut next: usize = cursor;
    while next < params.len()
        invariant
            cursor <= next <= params.len(),
            marker@ == placeholder(),
            substituted(source@, texts_of(params@), cursor as int) == substituted(
                src@,
                texts_of(params@),
                next as int,
            ),
        decreases params.len() - next,
    {
        let chars = chars_of(src.as_str());
        let length = chars.len();
        match find(&chars, &marker) {
            Some(at) => {
                proof {
                    lemma_index_of(src@, placeholder(), at as int);
                    assert(placeholder().len() == 2);
                    assert(occurs_at(src@, placeholder(), at as int));
                    assert(at + 2 <= length);
                }
                let head = src.as_str().substring_char(0, at);
                let tail = src.as_str().substring_char(at + 2, length);
                let replaced = head.to_owned().concat(params[next]).concat(tail);
                src = replaced;
                next += 1;
            },
            None => {
                proof {
                    lemma_index_of_none(src@, placeholder());
                }
                return (src, next);
            },
        }
    }
    (src, next)
}

/// Replaces the placeholders of the patterns by the parameters, in order:
/// those of the first pattern before those of the second. Placeholders for
/// which no parameter is left stay as they are.
pub fn apply_substitution(sources: &Vec<&str>, params: &Vec<&str>) -> (out: Vec<String>)
    ensures
        texts(out@) == substitution(texts_of(sources@), texts_of(params@), 0),
{
    let mut out: Vec<String> = Vec::new();
    let mut cursor: usize = 0;
    let mut i: usize = 0;
    let ghost all = texts_of(sources@);
    let ghost given = texts_of(params@);
    assert(all.skip(0) =~= all);
    assert(texts(out@) =~= Seq::<Seq<char>>::empty());
    while i < sources.len()
        invariant
            i <= sources.len(),
            cursor <= params.len(),
            all == texts_of(sources@),
            given == texts_of(params@),
            substitution(all, given, 0) == texts(out@) + substitution(
                all.skip(i as int),
                given,
                cursor as int,
            ),
        decreases sources.len() - i,
    {
        let (text, next) = substitute_one(sources[i], params, cursor);
        proof {
            let rest = all.skip(i as int);
            assert(rest[0] == sources@[i as int]@);
            assert(rest.drop_first() =~= all.skip(i + 1));
            assert(texts(out@.push(text)) =~= texts(out@).push(text@));
            assert(texts(out@) + (seq![text@] + substitution(
                all.skip(i + 1),
                given,
                next as int,
            )) =~= texts(out@).push(text@) + substitution(all.skip(i + 1), given, next as int));
        }
        out.push(text);
        cursor = next;
        i += 1;
    }
    assert(texts(out@) + Seq::<Seq<char>>::empty() =~= texts(out@));
    out
}

/// A pattern without a placeholder stays as it is, and uses no parameter.
pub proof fn lemma_substituted_without_placeholder(
    source: Seq<char>,
    params: Seq<Seq<char>>,
    cursor: int,
)
    requires
        !contains(source, placeholder()),
    ensures
        substituted(source, params, cursor) == (source, cursor),
{
    lemma_index_of_none(source, placeholder());
}

/// Patterns without a placeholder stay as they are, whatever the
/// parameters.
pub proof fn lemma_substitution_without_placeholder(
    sources: Seq<Seq<char>>,
    params: Seq<Seq<char>>,
    cursor: int,
)
    requires
        forall|i: int| 0 <= i < sources.len() ==> !contains(#[trigger] sources[i], placeholder()),
    ensures
        substitution(sources, params, cursor) == sources,
    decreases sources.len(),
{
    if sources.len() > 0 {
        let rest = sources.drop_first();
        lemma_substituted_without_placeholder(sources[0], params, cursor);
        assert forall|i: int| 0 <= i < rest.len() implies !contains(
            #[trigger] rest[i],
            placeholder(),
        ) by {
            assert(rest[i] == sources[i + 1]);
        }
        lemma_substitution_without_placeholder(rest, params, cursor);
        assert(seq![sources[0]] + rest =~= sources);
    } else {
        assert(sources =~= Seq::<Seq<char>>::empty());
    }
}

/// Substitution is idempotent once no placeholder remains: where the
/// patterns that a substitution gives hold no placeholder, substituting the
/// same parameters into them again changes nothing.
pub proof fn lemma_substitution_idempotent(sources: Seq<Seq<char>>, params: Seq<Seq<char>>)
    requires
        forall|i: int|
            0 <= i < substitution(sources, params, 0).len() ==> !contains(
                #[trigger] substitution(sources, params, 0)[i],
                placeholder(),
            ),
    ensures
        substitution(substitution(sources, params, 0), params, 0) == substitution(
            sources,
            params,
            0,
        ),
{
    lemma_substitution_without_placeholder(substitution(sources, params, 0), params, 0);
}

} // verus!
