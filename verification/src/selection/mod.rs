//! The selector language: lenses, the grammar that reads them from a
//! pattern, and the search that applies a chain of them to a document.

pub mod array;
pub mod array_member;
pub mod captures;
pub mod identity;
pub mod laws;
pub mod prop;
pub mod sequence;
pub mod value_matchers;

use crate::document::{member_named, Json, Member};
use crate::selection::array_member::{
    array_member_rule, ArrayIndexMember, ArrayMemberParser, ArrayValueMember,
};
use crate::selection::captures::text_of;
use crate::selection::identity::{identity_rule, Identity, IdentityParser};
use crate::selection::prop::{property_rule, Prop, PropParser};
use crate::selection::sequence::{sequence_rule, Sequence, SequenceParser};
use crate::selection::value_matchers::{value_satisfies, SpecMemberMatcher};
use vstd::prelude::*;
use vstd::string::StringExecFns;

verus! {

/// One selection step: it narrows a node of the document to a node below
/// it, or to the node itself, or finds that the node has not the shape it asks
/// for.
#[derive(Debug, PartialEq, Eq)]
pub enum Lens {
    Identity(Identity),
    Prop(Prop),
    ArrayIndex(ArrayIndexMember),
    ArrayValue(ArrayValueMember),
    Sequence(Sequence),
}

/// A [`Lens`] as specifications see it.
pub enum SpecLens {
    /// The node itself.
    Identity,
    /// The member of an object called `name`, if its value satisfies `value`.
    Prop { name: Seq<char>, value: Option<SpecMemberMatcher> },
    /// The element of an array at `index`.
    ArrayIndex { index: int },
    /// The first element of an array that satisfies `matcher`.
    ArrayValue { matcher: SpecMemberMatcher },
    /// The first element of an array that the chain `matchers` accepts.
    Sequence { matchers: Seq<SpecLens> },
}

/// The chain that a vector of lenses stands for.
pub open spec fn chain_view(lenses: Seq<Lens>) -> Seq<SpecLens>
    decreases lenses,
{
    if lenses.len() == 0 {
        Seq::empty()
    } else {
        chain_view(lenses.drop_last()).push(lenses.last().view())
    }
}

impl View for Lens {
    type V = SpecLens;

    open spec fn view(&self) -> SpecLens
        decreases self,
    {
        match self {
            Lens::Identity(identity) => identity@,
            Lens::Prop(prop) => prop@,
            Lens::ArrayIndex(member) => member@,
            Lens::ArrayValue(member) => member@,
            Lens::Sequence(sequence) => SpecLens::Sequence {
                matchers: chain_view(sequence.matchers@),
            },
        }
    }
}

/// What a reference found in a document refers to.
pub open spec fn referent(found: Option<&Json>) -> Option<Json> {
    match found {
        Some(node) => Some(*node),
        None => None,
    }
}

/// The element at `index`, where there is an index.
pub open spec fn element_at(elements: Seq<Json>, index: Option<int>) -> Option<Json> {
    match index {
        Some(i) => Some(elements[i]),
        None => None,
    }
}

/// The position of the first element from `from` on that satisfies `matcher`.
pub open spec fn first_satisfying(
    elements: Seq<Json>,
    matcher: SpecMemberMatcher,
    from: int,
) -> Option<int>
    decreases elements.len() - from,
{
    if from < 0 || from >= elements.len() {
        None
    } else if value_satisfies(elements[from], matcher) {
        Some(from)
    } else {
        first_satisfying(elements, matcher, from + 1)
    }
}

/// What one lens selects from `input`.
pub open spec fn select(lens: SpecLens, input: Json) -> Option<Json>
    decreases lens, 0nat, 0nat,
{
    match lens {
        SpecLens::Identity => Some(input),
        SpecLens::Prop { name, value } => match input {
            Json::Object(members) => match member_named(members@, name) {
                Some(found) => if value matches Some(matcher) ==> value_satisfies(found, matcher) {
                    Some(found)
                } else {
                    None
                },
                None => None,
            },
            _ => None,
        },
        SpecLens::ArrayIndex { index } => match input {
            Json::Array(elements) => if 0 <= index < elements@.len() {
                Some(elements@[index])
            } else {
                None
            },
            _ => None,
        },
        SpecLens::ArrayValue { matcher } => match input {
            Json::Array(elements) => if matcher is Exact && elements@.len() != 1 {
                None
            } else {
                element_at(elements@, first_satisfying(elements@, matcher, 0))
            },
            _ => None,
        },
        SpecLens::Sequence { matchers } => match input {
            Json::Array(elements) => element_at(elements@, first_admitted(matchers, elements@, 0)),
            _ => None,
        },
    }
}

/// What the lenses of `chain` from position `from` on select from `input`,
/// each applied to what the one before it selected.
pub open spec fn apply_chain(chain: Seq<SpecLens>, from: int, input: Json) -> Option<Json>
    decreases chain, 0nat, chain.len() - from,
{
    if from < 0 || from >= chain.len() {
        Some(input)
    } else {
        match select(chain[from], input) {
            Some(next) => apply_chain(chain, from + 1, next),
            None => None,
        }
    }
}

/// The position of the first element from `from` on to which the whole chain
/// `inner` applies.
pub open spec fn first_admitted(inner: Seq<SpecLens>, elements: Seq<Json>, from: int) -> Option<
    int,
>
    decreases inner, 1nat, elements.len() - from,
{
    if from < 0 || from >= elements.len() {
        None
    } else if apply_chain(inner, 0, elements[from]) is Some {
        Some(from)
    } else {
        first_admitted(inner, elements, from + 1)
    }
}

/// What a chain selects when it is applied to `document` itself.
pub open spec fn matches_directly(chain: Seq<SpecLens>, document: Json) -> Option<Json> {
    apply_chain(chain, 0, document)
}

/// What a chain selects in `document`: what it selects from the document
/// itself or, unless `root_only`, from the first node below it, depth first
/// and in document order, to which it applies.
pub open spec fn search(chain: Seq<SpecLens>, document: Json, root_only: bool) -> Option<Json>
    decreases document, 0nat,
{
    match matches_directly(chain, document) {
        Some(found) => Some(found),
        None => if root_only {
            None
        } else {
            match document {
                Json::Array(elements) => search_elements(chain, elements@, 0),
                Json::Object(members) => search_members(chain, members@, 0),
                _ => None,
            }
        },
    }
}

/// The result of the first successful search among the elements from `from`
/// on.
pub open spec fn search_elements(chain: Seq<SpecLens>, elements: Seq<Json>, from: int) -> Option<
    Json,
>
    decreases elements, elements.len() - from,
{
    if from < 0 || from >= elements.len() {
        None
    } else {
        match search(chain, elements[from], false) {
            Some(found) => Some(found),
            None => search_elements(chain, elements, from + 1),
        }
    }
}

/// The result of the first successful search among the member values from
/// `from` on.
pub open spec fn search_members(chain: Seq<SpecLens>, members: Seq<Member>, from: int) -> Option<
    Json,
>
    decreases members, members.len() - from,
{
    if from < 0 || from >= members.len() {
        None
    } else {
        match search(chain, members[from].value, false) {
            Some(found) => Some(found),
            None => search_members(chain, members, from + 1),
        }
    }
}

/// A chain has one lens for each lens of the vector, in the same order.
pub proof fn lemma_chain_view(lenses: Seq<Lens>)
    ensures
        chain_view(lenses).len() == lenses.len(),
        forall|k: int| 0 <= k < lenses.len() ==> (#[trigger] chain_view(lenses)[k]) == lenses[k]@,
    decreases lenses.len(),
{
    if lenses.len() > 0 {
        let front = lenses.drop_last();
        lemma_chain_view(front);
        assert(chain_view(lenses) == chain_view(front).push(lenses.last()@));
        assert forall|k: int| 0 <= k < lenses.len() implies (#[trigger] chain_view(lenses)[k])
            == lenses[k]@ by {
            if k < front.len() {
                assert(front[k] == lenses[k]);
            }
        }
    } else {
        assert(chain_view(lenses) == Seq::<SpecLens>::empty());
    }
}

impl Lens {
    /// What the lens selects from the input; nothing from no input.
    pub fn select<'a>(&self, input: Option<&'a Json>) -> (out: Option<&'a Json>)
        ensures
            referent(out) == (match input {
                Some(node) => select(self@, *node),
                None => None,
            }),
        decreases self, 0nat, input,
    {
        match self {
            Lens::Identity(identity) => identity.select(input),
            Lens::Prop(prop) => prop.select(input),
            Lens::ArrayIndex(member) => member.select(input),
            Lens::ArrayValue(member) => member.select(input),
            Lens::Sequence(sequence) => sequence.select(input),
        }
    }
}

/// Applies the lenses in turn, each to what the one before it selected,
/// starting from `json_input`.
#[verifier::loop_isolation(false)]
pub fn apply_lenses<'a>(matchers: &Vec<Lens>, json_input: &'a Json) -> (out: Option<&'a Json>)
    ensures
        referent(out) == matches_directly(chain_view(matchers@), *json_input),
    decreases matchers, 0nat, json_input,
{
    let ghost chain = chain_view(matchers@);
    proof {
        lemma_chain_view(matchers@);
    }
    let mut current: &'a Json = json_input;
    let mut k: usize = 0;
    while k < matchers.len()
        invariant
            k <= matchers.len(),
            apply_chain(chain, 0, *json_input) == apply_chain(chain, k as int, *current),
        decreases matchers.len() - k,
    {
        match matchers[k].select(Some(current)) {
            Some(next) => {
                current = next;
            },
            None => {
                return None;
            },
        }
        k += 1;
    }
    Some(current)
}

/// Searches `json_input` for the first node to which the chain applies and
/// returns what the chain selects there: the document itself is tried first
/// and then, unless `match_root_only`, the nodes below it, depth first and in
/// document order.
#[verifier::loop_isolation(false)]
pub fn match_json_slice<'a>(
    matchers: &Vec<Lens>,
    json_input: &'a Json,
    match_root_only: bool,
) -> (out: Result<&'a Json, ()>)
    ensures
        (match out {
            Ok(found) => Some(*found),
            Err(_) => None,
        }) == search(chain_view(matchers@), *json_input, match_root_only),
    decreases matchers, 1nat, json_input,
{
    let ghost chain = chain_view(matchers@);
    match apply_lenses(matchers, json_input) {
        Some(matching_slice) => Ok(matching_slice),
        None => match (match_root_only, json_input) {
            (false, Json::Object(object)) => {
                let mut i: usize = 0;
                while i < object.len()
                    invariant
                        i <= object.len(),
                        search_members(chain, object@, 0) == search_members(
                            chain,
                            object@,
                            i as int,
                        ),
                    decreases object.len() - i,
                {
                    match match_json_slice(matchers, &object[i].value, match_root_only) {
                        Ok(matching_slice) => {
                            return Ok(matching_slice);
                        },
                        Err(_) => {},
                    }
                    i += 1;
                }
                Err(())
            },
            (false, Json::Array(sequence)) => {
                let mut i: usize = 0;
                while i < sequence.len()
                    invariant
                        i <= sequence.len(),
                        search_elements(chain, sequence@, 0) == search_elements(
                            chain,
                            sequence@,
                            i as int,
                        ),
                    decreases sequence.len() - i,
                {
                    match match_json_slice(matchers, &sequence[i], match_root_only) {
                        Ok(matching_slice) => {
                            return Ok(matching_slice);
                        },
                        Err(_) => {},
                    }
                    i += 1;
                }
                Err(())
            },
            (_, _) => Err(()),
        },
    }
}

/// The lens at the head of a pattern and the remainder after it. The rules
/// are tried in a fixed order, and the first that applies decides: identity,
/// property, element of an array, sequence.
pub open spec fn parse_lens(s: Seq<char>) -> Option<(SpecLens, Option<Seq<char>>)>
    decreases s.len(), 1nat,
{
    match identity_rule(s) {
        Some(parsed) => Some(parsed),
        None => match property_rule(s) {
            Some(parsed) => Some(parsed),
            None => match array_member_rule(s) {
                Some(parsed) => Some(parsed),
                None => sequence_rule(s),
            },
        },
    }
}

/// The chain that a pattern stands for: its lenses from first to last, read
/// one after the other until nothing remains. Where no rule applies to what
/// remains, the pattern stands for no chain, and what remains is the error.
///
/// A remainder is always shorter than the pattern it was cut from
/// ([`lemma_remainder_shortens`]). The definition asks for it only to be well
/// founded, and its last case never arises.
pub open spec fn parse_chain(s: Seq<char>) -> Result<Seq<SpecLens>, Seq<char>>
    decreases s.len(), 2nat,
{
    match parse_lens(s) {
        Some((lens, None)) => Ok(seq![lens]),
        Some((lens, Some(rest))) => if rest.len() < s.len() {
            match parse_chain(rest) {
                Ok(chain) => Ok(seq![lens] + chain),
                Err(unparsed) => Err(unparsed),
            }
        } else {
            Err(rest)
        },
        None => Err(s),
    }
}

/// Every lens takes something: a remainder is not empty, is shorter than
/// the pattern, and is the end of it.
pub proof fn lemma_remainder_shortens(s: Seq<char>)
    ensures
        parse_lens(s) matches Some((_, Some(rest))) ==> 0 < rest.len() < s.len() && rest == s.skip(
            s.len() - rest.len(),
        ),
{
}

/// Pushing a lens onto a vector pushes its view onto the chain.
pub proof fn lemma_chain_view_push(lenses: Seq<Lens>, lens: Lens)
    ensures
        chain_view(lenses.push(lens)) == chain_view(lenses).push(lens@),
{
    assert(lenses.push(lens).drop_last() =~= lenses);
}

/// Reads one lens from the head of `filter`. Returns the lens and what
/// remains of the pattern after it, or the pattern itself where no rule of the
/// grammar applies to it.
pub fn match_filter<'a>(filter: &'a str) -> (out: Result<(Lens, Option<&'a str>), &'a str>)
    ensures
        match parse_lens(filter@) {
            Some((lens, rest)) => out matches Ok((got, remainder)) && got@ == lens && text_of(
                remainder,
            ) == rest,
            None => out matches Err(unmatched) && unmatched == filter,
        },
    decreases filter@.len(), 1nat,
{
    match (IdentityParser {  }).try_parse(Some(filter)) {
        Ok(parsed) => Ok(parsed),
        Err(unmatched_filter) => match (PropParser {  }).try_parse(unmatched_filter) {
            Ok(parsed) => Ok(parsed),
            Err(unmatched_filter) => match (ArrayMemberParser {  }).try_parse(unmatched_filter) {
                Ok(parsed) => Ok(parsed),
                Err(unmatched_filter) => match (SequenceParser {  }).try_parse(unmatched_filter) {
                    Ok(parsed) => Ok(parsed),
                    Err(_) => Err(filter),
                },
            },
        },
    }
}

/// Reads a whole pattern as a chain of lenses. Returns the lenses in the
/// order in which they stand or, where the pattern is no chain, what was left
/// of it when no rule applied.
pub fn try_to_match_filters<'a>(filter: &'a str) -> (out: Result<Vec<Lens>, &'a str>)
    ensures
        match parse_chain(filter@) {
            Ok(chain) => out matches Ok(lenses) && chain_view(lenses@) == chain,
            Err(unparsed) => out matches Err(rest) && rest@ == unparsed,
        },
    decreases filter@.len(), 2nat,
{
    let mut matchers: Vec<Lens> = Vec::new();
    let mut current: &'a str = filter;
    assert(chain_view(matchers@) =~= Seq::<SpecLens>::empty());
    loop
        invariant
            current@.len() <= filter@.len(),
            match parse_chain(current@) {
                Ok(chain) => parse_chain(filter@) == Ok::<Seq<SpecLens>, Seq<char>>(
                    chain_view(matchers@) + chain,
                ),
                Err(unparsed) => parse_chain(filter@) == Err::<Seq<SpecLens>, Seq<char>>(unparsed),
            },
        decreases current@.len(),
    {
        proof {
            lemma_remainder_shortens(current@);
        }
        match match_filter(current) {
            Ok((matcher, remainder)) => {
                proof {
                    lemma_chain_view_push(matchers@, matcher);
                }
                let ghost before = chain_view(matchers@);
                matchers.push(matcher);
                match remainder {
                    Some(rest) => {
                        proof {
                            match parse_chain(rest@) {
                                Ok(chain) => {
                                    assert(before + (seq![matcher@] + chain) =~= before.push(
                                        matcher@,
                                    ) + chain);
                                },
                                Err(_) => {},
                            }
                        }
                        current = rest;
                    },
                    None => {
                        proof {
                            assert(before + seq![matcher@] =~= before.push(matcher@));
                        }
                        return Ok(matchers);
                    },
                }
            },
            Err(remaining_filter) => {
                return Err(remaining_filter);
            },
        }
    }
}

/// A string as `str`'s `Debug` writes it: in double quotes, with its special
/// characters escaped.
pub uninterp spec fn debug_text(text: Seq<char>) -> Seq<char>;

/// Formats a string with `{:?}`, that is by `str`'s `Debug`, which puts it in
/// double quotes and escapes its special characters. The contract names the
/// text without stating it.
#[verifier::external_body]
fn debug_of(text: &str) -> (written: String)
    ensures
        written@ == debug_text(text@),
{
    format!("{:?}", text)
}

/// The message that reports the part of a pattern that no rule of the
/// grammar applies to: the words `Invalid filter: ` and the part in quotes.
pub open spec fn invalid_filter_message(unmatched_filter: Seq<char>) -> Seq<char> {
    "Invalid filter: "@ + debug_text(unmatched_filter)
}

/// Writes the message for an unparsed part of a pattern.
fn invalid_filter(unmatched_filter: &str) -> (message: String)
    ensures
        message@ == invalid_filter_message(unmatched_filter@),
{
    let quoted = debug_of(unmatched_filter);
    "Invalid filter: ".to_owned().concat(quoted.as_str())
}

/// Reads a whole pattern as a chain of lenses, or says in a message which
/// part of it could not be read.
pub fn match_filters(filter: &str) -> (out: Result<Vec<Lens>, String>)
    ensures
        match parse_chain(filter@) {
            Ok(chain) => out matches Ok(lenses) && chain_view(lenses@) == chain,
            Err(unparsed) => out matches Err(message) && message@ == invalid_filter_message(
                unparsed,
            ),
        },
{
    match try_to_match_filters(filter) {
        Ok(lenses) => Ok(lenses),
        Err(unmatched_filter) => Err(invalid_filter(unmatched_filter)),
    }
}

} // verus!
