//! What holds of the grammar and of the search, whatever the pattern and
//! the document.

use crate::document::{Json, Member};
use crate::selection::identity::identity_rule;
use crate::selection::value_matchers::{
    equals_literal, value_satisfies, SpecMemberMatcher, SpecValueMatcher,
};
use crate::selection::{
    apply_chain, chain_view, first_admitted, first_satisfying, matches_directly, parse_chain,
    parse_lens, search, search_elements, search_members, select, Lens, SpecLens,
};
use vstd::prelude::*;

verus! {

/// Parsing is a function of the text. Two vectors of lenses that were read
/// from the same pattern stand for the same chain, so they select the same in
/// every document, at the root and below it.
pub proof fn lemma_parse_deterministic(
    pattern: Seq<char>,
    first: Seq<Lens>,
    second: Seq<Lens>,
    document: Json,
    root_only: bool,
)
    requires
        parse_chain(pattern) == Ok::<Seq<SpecLens>, Seq<char>>(chain_view(first)),
        parse_chain(pattern) == Ok::<Seq<SpecLens>, Seq<char>>(chain_view(second)),
    ensures
        chain_view(first) == chain_view(second),
        matches_directly(chain_view(first), document) == matches_directly(
            chain_view(second),
            document,
        ),
        search(chain_view(first), document, root_only) == search(
            chain_view(second),
            document,
            root_only,
        ),
{
}

/// The pattern `.` is the chain of the identity lens alone.
pub proof fn lemma_dot_is_identity()
    ensures
        parse_chain("."@) == Ok::<Seq<SpecLens>, Seq<char>>(seq![SpecLens::Identity]),
{
    reveal_strlit(".");
    assert(identity_rule("."@) == Some((SpecLens::Identity, None::<Seq<char>>)));
    assert(parse_lens("."@) == Some((SpecLens::Identity, None::<Seq<char>>)));
}

/// The identity chain selects every document at its root: the document
/// itself.
pub proof fn lemma_identity_matches_any(document: Json, root_only: bool)
    ensures
        matches_directly(seq![SpecLens::Identity], document) == Some(document),
        search(seq![SpecLens::Identity], document, root_only) == Some(document),
{
    let chain = seq![SpecLens::Identity];
    assert(select(chain[0], document) == Some(document));
    assert(apply_chain(chain, 1, document) == Some(document));
    assert(apply_chain(chain, 0, document) == Some(document));
}

/// With the `Exact` strategy an array is matched only if it holds a single
/// element and that element equals the literal; that element is then what is
/// selected.
pub proof fn lemma_exact_member_is_sole_element(literal: SpecValueMatcher, input: Json)
    ensures
        select(SpecLens::ArrayValue { matcher: SpecMemberMatcher::Exact(literal) }, input)
            is Some <==> (input matches Json::Array(elements) && elements@.len() == 1
            && equals_literal(elements@[0], literal)),
        select(
            SpecLens::ArrayValue { matcher: SpecMemberMatcher::Exact(literal) },
            input,
        ) matches Some(found) ==> input matches Json::Array(elements) && found == elements@[0],
{
    let matcher = SpecMemberMatcher::Exact(literal);
    match input {
        Json::Array(elements) => {
            if elements@.len() == 1 {
                assert(first_satisfying(elements@, matcher, 1) is None);
            }
        },
        _ => {},
    }
}

/// The element that a test of the value selects is the first that satisfies
/// the test: it satisfies it, and none before it does. Nothing is selected only
/// where no element satisfies the test.
pub proof fn lemma_first_satisfying_is_first(elements: Seq<Json>, matcher: SpecMemberMatcher)
    ensures
        match first_satisfying(elements, matcher, 0) {
            Some(at) => 0 <= at < elements.len() && value_satisfies(elements[at], matcher)
                && forall|before: int|
                0 <= before < at ==> !value_satisfies(#[trigger] elements[before], matcher),
            None => forall|at: int|
                0 <= at < elements.len() ==> !value_satisfies(#[trigger] elements[at], matcher),
        },
{
    lemma_first_satisfying_from(elements, matcher, 0);
}

proof fn lemma_first_satisfying_from(elements: Seq<Json>, matcher: SpecMemberMatcher, from: int)
    requires
        0 <= from,
    ensures
        match first_satisfying(elements, matcher, from) {
            Some(at) => from <= at < elements.len() && value_satisfies(elements[at], matcher)
                && forall|before: int|
                from <= before < at ==> !value_satisfies(#[trigger] elements[before], matcher),
            None => forall|at: int|
                from <= at < elements.len() ==> !value_satisfies(
                    #[trigger] elements[at],
                    matcher,
                ),
        },
    decreases elements.len() - from,
{
    if from < elements.len() && !value_satisfies(elements[from], matcher) {
        lemma_first_satisfying_from(elements, matcher, from + 1);
    }
}

/// The element that a sequence selects is the first to which its chain
/// applies: the chain applies to it, and to none before it. Nothing is selected
/// only where the chain applies to no element.
pub proof fn lemma_first_admitted_is_first(inner: Seq<SpecLens>, elements: Seq<Json>)
    ensures
        match first_admitted(inner, elements, 0) {
            Some(at) => 0 <= at < elements.len() && matches_directly(inner, elements[at]) is Some
                && forall|before: int|
                0 <= before < at ==> matches_directly(inner, #[trigger] elements[before]) is None,
            None => forall|at: int|
                0 <= at < elements.len() ==> matches_directly(inner, #[trigger] elements[at])
                    is None,
        },
{
    lemma_first_admitted_from(inner, elements, 0);
}

proof fn lemma_first_admitted_from(inner: Seq<SpecLens>, elements: Seq<Json>, from: int)
    requires
        0 <= from,
    ensures
        match first_admitted(inner, elements, from) {
            Some(at) => from <= at < elements.len() && matches_directly(inner, elements[at])
                is Some && forall|before: int|
                from <= before < at ==> matches_directly(inner, #[trigger] elements[before])
                    is None,
            None => forall|at: int|
                from <= at < elements.len() ==> matches_directly(inner, #[trigger] elements[at])
                    is None,
        },
    decreases elements.len() - from,
{
    if from < elements.len() && apply_chain(inner, 0, elements[from]) is None {
        lemma_first_admitted_from(inner, elements, from + 1);
    }
}

/// The path to the node at which a search finds its match: the empty path
/// where the document itself matches; else, unless `root_only`, the position of
/// the first child in which the search succeeds, followed by the path that the
/// search takes in that child.
pub open spec fn search_path(chain: Seq<SpecLens>, document: Json, root_only: bool) -> Option<
    Seq<int>,
>
    decreases document, 0nat,
{
    if matches_directly(chain, document) is Some {
        Some(Seq::empty())
    } else if root_only {
        None
    } else {
        match document {
            Json::Array(elements) => search_path_elements(chain, elements@, 0),
            Json::Object(members) => search_path_members(chain, members@, 0),
            _ => None,
        }
    }
}

/// The path of the first successful search among the elements from `from`
/// on, seen from the array.
pub open spec fn search_path_elements(
    chain: Seq<SpecLens>,
    elements: Seq<Json>,
    from: int,
) -> Option<Seq<int>>
    decreases elements, elements.len() - from,
{
    if from < 0 || from >= elements.len() {
        None
    } else {
        match search_path(chain, elements[from], false) {
            Some(rest) => Some(seq![from] + rest),
            None => search_path_elements(chain, elements, from + 1),
        }
    }
}

/// The path of the first successful search among the member values from
/// `from` on, seen from the object.
pub open spec fn search_path_members(
    chain: Seq<SpecLens>,
    members: Seq<Member>,
    from: int,
) -> Option<Seq<int>>
    decreases members, members.len() - from,
{
    if from < 0 || from >= members.len() {
        None
    } else {
        match search_path(chain, members[from].value, false) {
            Some(rest) => Some(seq![from] + rest),
            None => search_path_members(chain, members, from + 1),
        }
    }
}

/// The node at `earlier` comes before the node at `later` in document order:
/// a node comes before every node below it, and a child with all that lies
/// below it comes before the children after it.
pub open spec fn precedes(earlier: Seq<int>, later: Seq<int>) -> bool
    decreases earlier.len(),
{
    if later.len() == 0 {
        false
    } else if earlier.len() == 0 {
        true
    } else if earlier[0] != later[0] {
        earlier[0] < later[0]
    } else {
        precedes(earlier.drop_first(), later.drop_first())
    }
}

/// There is a node, and the chain does not match it directly.
pub open spec fn is_passed_over(chain: Seq<SpecLens>, node: Option<Json>) -> bool {
    match node {
        Some(above) => matches_directly(chain, above) is None,
        None => false,
    }
}

/// The node that a path reaches matches the chain directly, and no node
/// above it on the path does.
pub open spec fn first_match_on_path(chain: Seq<SpecLens>, document: Json, path: Seq<int>) -> bool {
    &&& document.descend(path) matches Some(node) && matches_directly(chain, node) is Some
    &&& forall|k: int|
        0 <= k < path.len() ==> is_passed_over(chain, #[trigger] document.descend(path.take(k)))
}

/// Descending by a path that begins with `first` is descending from the
/// child at `first` by the rest of the path.
proof fn lemma_descend_through_child(document: Json, first: int, rest: Seq<int>)
    requires
        0 <= first < document.children().len(),
    ensures
        document.descend(seq![first] + rest) == document.children()[first].descend(rest),
{
    let path = seq![first] + rest;
    assert(path[0] == first);
    assert(path.drop_first() =~= rest);
}

/// A first match below a child is a first match below the document, where
/// the document itself does not match.
proof fn lemma_first_match_through_child(
    chain: Seq<SpecLens>,
    document: Json,
    first: int,
    rest: Seq<int>,
)
    requires
        0 <= first < document.children().len(),
        matches_directly(chain, document) is None,
        first_match_on_path(chain, document.children()[first], rest),
    ensures
        first_match_on_path(chain, document, seq![first] + rest),
{
    let path = seq![first] + rest;
    let child = document.children()[first];
    lemma_descend_through_child(document, first, rest);
    assert forall|k: int| 0 <= k < path.len() implies is_passed_over(
        chain,
        #[trigger] document.descend(path.take(k)),
    ) by {
        if k == 0 {
            assert(path.take(0) =~= Seq::<int>::empty());
        } else {
            assert(path.take(k) =~= seq![first] + rest.take(k - 1));
            lemma_descend_through_child(document, first, rest.take(k - 1));
            assert(child.descend(rest.take(k - 1)) is Some);
        }
    }
}

/// A search that succeeds has found a node of the document at which the
/// chain matches directly, and what the chain selects there is its result.
/// The lemma returns the path to that node. The path is empty where the
/// document itself matches, and always when the search is confined to the
/// root. Where it is not empty, the document is an array or an object and does
/// not match itself, and no node above the one found matches either.
pub proof fn lemma_search_finds_first_match(
    chain: Seq<SpecLens>,
    document: Json,
    root_only: bool,
) -> (path: Seq<int>)
    requires
        search(chain, document, root_only) is Some,
    ensures
        first_match_on_path(chain, document, path),
        document.descend(path) matches Some(node) && search(chain, document, root_only)
            == matches_directly(chain, node) && search(chain, node, true) == search(
            chain,
            document,
            root_only,
        ),
        root_only ==> path.len() == 0,
        path.len() > 0 ==> document.children().len() > 0 && matches_directly(chain, document)
            is None,
        search_path(chain, document, root_only) == Some(path),
    decreases document, 0nat,
{
    if matches_directly(chain, document) is Some {
        let path = Seq::<int>::empty();
        path
    } else {
        match document {
            Json::Array(elements) => {
                let (index, rest) = lemma_search_elements_finds(chain, elements@, 0);
                assert(document.children()[index] == elements@[index]);
                lemma_first_match_through_child(chain, document, index, rest);
                lemma_descend_through_child(document, index, rest);
                seq![index] + rest
            },
            Json::Object(members) => {
                let (index, rest) = lemma_search_members_finds(chain, members@, 0);
                assert(document.children()[index] == members@[index].value);
                lemma_first_match_through_child(chain, document, index, rest);
                lemma_descend_through_child(document, index, rest);
                seq![index] + rest
            },
            _ => Seq::<int>::empty(),
        }
    }
}

/// A successful search among elements has succeeded in one of them, and in
/// none before it.
proof fn lemma_search_elements_finds(chain: Seq<SpecLens>, elements: Seq<Json>, from: int) -> (out:
    (int, Seq<int>))
    requires
        0 <= from,
        search_elements(chain, elements, from) is Some,
    ensures
        from <= out.0 < elements.len(),
        search(chain, elements[out.0], false) == search_elements(chain, elements, from),
        forall|j: int| from <= j < out.0 ==> search(chain, #[trigger] elements[j], false) is None,
        first_match_on_path(chain, elements[out.0], out.1),
        elements[out.0].descend(out.1) matches Some(node) && search_elements(chain, elements, from)
            == matches_directly(chain, node) && search(chain, node, true) == search_elements(
            chain,
            elements,
            from,
        ),
        search_path_elements(chain, elements, from) == Some(seq![out.0] + out.1),
    decreases elements, elements.len() - from,
{
    if search(chain, elements[from], false) is Some {
        let rest = lemma_search_finds_first_match(chain, elements[from], false);
        (from, rest)
    } else {
        lemma_search_path_agrees(chain, elements[from], false);
        lemma_search_elements_finds(chain, elements, from + 1)
    }
}

/// A successful search among member values has succeeded in one of them,
/// and in none before it.
proof fn lemma_search_members_finds(chain: Seq<SpecLens>, members: Seq<Member>, from: int) -> (out:
    (int, Seq<int>))
    requires
        0 <= from,
        search_members(chain, members, from) is Some,
    ensures
        from <= out.0 < members.len(),
        search(chain, members[out.0].value, false) == search_members(chain, members, from),
        forall|j: int|
            from <= j < out.0 ==> search(chain, (#[trigger] members[j]).value, false) is None,
        first_match_on_path(chain, members[out.0].value, out.1),
        members[out.0].value.descend(out.1) matches Some(node) && search_members(
            chain,
            members,
            from,
        ) == matches_directly(chain, node) && search(chain, node, true) == search_members(
            chain,
            members,
            from,
        ),
        search_path_members(chain, members, from) == Some(seq![out.0] + out.1),
    decreases members, members.len() - from,
{
    if search(chain, members[from].value, false) is Some {
        let rest = lemma_search_finds_first_match(chain, members[from].value, false);
        (from, rest)
    } else {
        lemma_search_path_agrees(chain, members[from].value, false);
        lemma_search_members_finds(chain, members, from + 1)
    }
}

/// A search among elements succeeds where the search in one of them does.
proof fn lemma_search_elements_reaches(
    chain: Seq<SpecLens>,
    elements: Seq<Json>,
    from: int,
    index: int,
)
    requires
        0 <= from <= index < elements.len(),
        search(chain, elements[index], false) is Some,
    ensures
        search_elements(chain, elements, from) is Some,
    decreases index - from,
{
    if from < index && search(chain, elements[from], false) is None {
        lemma_search_elements_reaches(chain, elements, from + 1, index);
    }
}

/// A search among member values succeeds where the search in one of them
/// does.
proof fn lemma_search_members_reaches(
    chain: Seq<SpecLens>,
    members: Seq<Member>,
    from: int,
    index: int,
)
    requires
        0 <= from <= index < members.len(),
        search(chain, members[index].value, false) is Some,
    ensures
        search_members(chain, members, from) is Some,
    decreases index - from,
{
    if from < index && search(chain, members[from].value, false) is None {
        lemma_search_members_reaches(chain, members, from + 1, index);
    }
}

/// A search that may go below the root succeeds wherever the chain matches
/// some node of the document directly, at whatever depth.
pub proof fn lemma_search_reaches_every_node(chain: Seq<SpecLens>, document: Json, path: Seq<int>)
    requires
        document.descend(path) matches Some(node) && matches_directly(chain, node) is Some,
    ensures
        search(chain, document, false) is Some,
    decreases path.len(),
{
    if matches_directly(chain, document) is None {
        assert(path.len() > 0);
        let index = path[0];
        let child = document.children()[index];
        lemma_search_reaches_every_node(chain, child, path.drop_first());
        match document {
            Json::Array(elements) => {
                assert(child == elements@[index]);
                lemma_search_elements_reaches(chain, elements@, 0, index);
            },
            Json::Object(members) => {
                assert(child == members@[index].value);
                lemma_search_members_reaches(chain, members@, 0, index);
            },
            _ => {},
        }
    }
}

/// A search has a path exactly where it has a result.
pub proof fn lemma_search_path_agrees(chain: Seq<SpecLens>, document: Json, root_only: bool)
    ensures
        search_path(chain, document, root_only) is Some <==> search(chain, document, root_only)
            is Some,
    decreases document, 0nat,
{
    if matches_directly(chain, document) is None && !root_only {
        match document {
            Json::Array(elements) => {
                lemma_search_path_elements_agrees(chain, elements@, 0);
            },
            Json::Object(members) => {
                lemma_search_path_members_agrees(chain, members@, 0);
            },
            _ => {},
        }
    }
}

proof fn lemma_search_path_elements_agrees(chain: Seq<SpecLens>, elements: Seq<Json>, from: int)
    requires
        0 <= from,
    ensures
        search_path_elements(chain, elements, from) is Some <==> search_elements(
            chain,
            elements,
            from,
        ) is Some,
    decreases elements, elements.len() - from,
{
    if from < elements.len() {
        lemma_search_path_agrees(chain, elements[from], false);
        lemma_search_path_elements_agrees(chain, elements, from + 1);
    }
}

proof fn lemma_search_path_members_agrees(chain: Seq<SpecLens>, members: Seq<Member>, from: int)
    requires
        0 <= from,
    ensures
        search_path_members(chain, members, from) is Some <==> search_members(
            chain,
            members,
            from,
        ) is Some,
    decreases members, members.len() - from,
{
    if from < members.len() {
        lemma_search_path_agrees(chain, members[from].value, false);
        lemma_search_path_members_agrees(chain, members, from + 1);
    }
}

/// The path of a successful search among elements begins with the position
/// of an element in which the search succeeds, goes on with the path of that
/// search, and passes over elements in which the search fails.
proof fn lemma_search_path_elements_shape(chain: Seq<SpecLens>, elements: Seq<Json>, from: int)
    requires
        0 <= from,
        search_path_elements(chain, elements, from) is Some,
    ensures
        ({
            let path = search_path_elements(chain, elements, from)->0;
            &&& path.len() > 0
            &&& from <= path[0] < elements.len()
            &&& search_path(chain, elements[path[0]], false) == Some(path.drop_first())
            &&& forall|j: int|
                from <= j < path[0] ==> search(chain, #[trigger] elements[j], false) is None
        }),
    decreases elements.len() - from,
{
    match search_path(chain, elements[from], false) {
        Some(rest) => {
            assert((seq![from] + rest).drop_first() =~= rest);
        },
        None => {
            lemma_search_path_agrees(chain, elements[from], false);
            lemma_search_path_elements_shape(chain, elements, from + 1);
        },
    }
}

/// The same of the members of an object.
proof fn lemma_search_path_members_shape(chain: Seq<SpecLens>, members: Seq<Member>, from: int)
    requires
        0 <= from,
        search_path_members(chain, members, from) is Some,
    ensures
        ({
            let path = search_path_members(chain, members, from)->0;
            &&& path.len() > 0
            &&& from <= path[0] < members.len()
            &&& search_path(chain, members[path[0]].value, false) == Some(path.drop_first())
            &&& forall|j: int|
                from <= j < path[0] ==> search(chain, (#[trigger] members[j]).value, false)
                    is None
        }),
    decreases members.len() - from,
{
    match search_path(chain, members[from].value, false) {
        Some(rest) => {
            assert((seq![from] + rest).drop_first() =~= rest);
        },
        None => {
            lemma_search_path_agrees(chain, members[from].value, false);
            lemma_search_path_members_shape(chain, members, from + 1);
        },
    }
}

/// The match that a search finds is the first in document order: the chain
/// matches directly at no node of the document that comes before the node
/// found, be it above it, in a child before the one that leads to it, or
/// anywhere below such a child.
pub proof fn lemma_search_finds_earliest_match(
    chain: Seq<SpecLens>,
    document: Json,
    root_only: bool,
    other: Seq<int>,
)
    requires
        search_path(chain, document, root_only) matches Some(path) && precedes(other, path),
        document.descend(other) is Some,
    ensures
        document.descend(other) matches Some(node) && matches_directly(chain, node) is None,
    decreases document, 0nat,
{
    let path = search_path(chain, document, root_only)->0;
    if matches_directly(chain, document) is None && !root_only {
        if other.len() > 0 {
            let at = other[0];
            let below = other.drop_first();
            let child = document.children()[at];
            match document {
                Json::Array(elements) => {
                    lemma_search_path_elements_shape(chain, elements@, 0);
                    assert(child == elements@[at]);
                },
                Json::Object(members) => {
                    lemma_search_path_members_shape(chain, members@, 0);
                    assert(child == members@[at].value);
                },
                _ => {},
            }
            if at < path[0] {
                if matches_directly(chain, child.descend(below)->0) is Some {
                    lemma_search_reaches_every_node(chain, child, below);
                }
            } else {
                lemma_search_finds_earliest_match(chain, child, false, below);
            }
        }
    }
}

} // verus!
