//! Searching by characters that stand in order, and by parts of texts.
use vstd::prelude::*;
use vstd::string::*;

use crate::text::{chars_of, contains, contains_text, lowercase, lowered, lowered_chars,
    to_lowercase};

verus! {

/// Whether the characters of a text stand in another, in their order.
pub open spec fn is_subsequence(wanted: Seq<char>, within: Seq<char>) -> bool
    decreases within.len(),
{
    if wanted.len() == 0 {
        true
    } else if within.len() == 0 {
        false
    } else if within[0] == wanted[0] {
        is_subsequence(wanted.skip(1), within.skip(1))
    } else {
        is_subsequence(wanted, within.skip(1))
    }
}

/// Places in a text, each behind the one before, at which the characters of another stand.
pub open spec fn are_places(places: Seq<int>, wanted: Seq<char>, within: Seq<char>) -> bool {
    &&& places.len() == wanted.len()
    &&& forall|k: int|
        0 <= k < places.len() ==> 0 <= #[trigger] places[k] < within.len() && within[places[k]]
            == wanted[k]
    &&& forall|j: int, k: int| 0 <= j < k < places.len() ==> #[trigger] places[j] < #[trigger] places[k]
}

/// Whether a text fits what is searched for: its characters stand in the text's lower-case form,
/// in their order.
pub open spec fn fuzzy(value: Seq<char>, query: Seq<char>) -> bool {
    is_subsequence(query, lowered(value))
}

/// Tests whether the characters of a text stand in others, in their order.
pub fn chars_in_order(wanted: &Vec<char>, within: &Vec<char>) -> (found: bool)
    ensures
        found == is_subsequence(wanted@, within@),
{
    let count: usize = within.len();
    let mut index: usize = 0;
    let mut at: usize = 0;
    assert(wanted@.skip(0) =~= wanted@);
    assert(within@.skip(0) =~= within@);
    while index < count && at < wanted.len()
        invariant
            index <= count,
            count == within@.len(),
            at <= wanted@.len(),
            is_subsequence(wanted@, within@) == is_subsequence(
                wanted@.skip(at as int),
                within@.skip(index as int),
            ),
        decreases count - index,
    {
        proof {
            assert(wanted@.skip(at as int).skip(1) =~= wanted@.skip(at + 1));
            assert(within@.skip(index as int).skip(1) =~= within@.skip(index + 1));
        }
        if within[index] == wanted[at] {
            at = at + 1;
        }
        index = index + 1;
    }
    at == wanted.len()
}

/// Tests whether a text fits what is searched for.
pub fn fuzzy_matches(value: &str, query: &str) -> (found: bool)
    ensures
        found == fuzzy(value@, query@),
{
    let wanted = chars_of(query);
    let within = lowered_chars(value);
    chars_in_order(&wanted, &within)
}

/// Tests whether the lower-case form of a text holds another text.
pub fn contains_ignore_case(value: &str, query: &str) -> (found: bool)
    ensures
        found == contains(lowercase(value@), query@),
{
    contains_text(to_lowercase(value).as_str(), query)
}

/// The characters of a text stand in another in their order if and only if there are places for
/// them, each behind the one before.
pub proof fn law_subsequence_has_places(wanted: Seq<char>, within: Seq<char>)
    ensures
        is_subsequence(wanted, within) <==> exists|places: Seq<int>|
            are_places(places, wanted, within),
{
    if is_subsequence(wanted, within) {
        let places = lemma_places(wanted, within);
        assert(are_places(places, wanted, within));
    }
    if exists|places: Seq<int>| are_places(places, wanted, within) {
        let places = choose|places: Seq<int>| are_places(places, wanted, within);
        lemma_subsequence(places, wanted, within);
    }
}

proof fn lemma_places(wanted: Seq<char>, within: Seq<char>) -> (places: Seq<int>)
    requires
        is_subsequence(wanted, within),
    ensures
        are_places(places, wanted, within),
    decreases within.len(),
{
    if wanted.len() == 0 {
        Seq::empty()
    } else if within[0] == wanted[0] {
        let rest = lemma_places(wanted.skip(1), within.skip(1));
        let places = Seq::new(wanted.len(), |k: int| if k == 0 { 0 } else { rest[k - 1] + 1 });
        assert forall|k: int| 0 <= k < places.len() implies 0 <= #[trigger] places[k]
            < within.len() && within[places[k]] == wanted[k] by {
            if k > 0 {
                assert(within.skip(1)[rest[k - 1]] == wanted.skip(1)[k - 1]);
            }
        }
        assert forall|j: int, k: int| 0 <= j < k < places.len() implies #[trigger] places[j]
            < #[trigger] places[k] by {
            assert(0 <= rest[k - 1]);
            if j > 0 {
                assert(rest[j - 1] < rest[k - 1]);
            }
        }
        places
    } else {
        let rest = lemma_places(wanted, within.skip(1));
        let places = Seq::new(wanted.len(), |k: int| rest[k] + 1);
        assert forall|k: int| 0 <= k < places.len() implies 0 <= #[trigger] places[k]
            < within.len() && within[places[k]] == wanted[k] by {
            assert(within.skip(1)[rest[k]] == wanted[k]);
        }
        assert forall|j: int, k: int| 0 <= j < k < places.len() implies #[trigger] places[j]
            < #[trigger] places[k] by {
            assert(rest[j] < rest[k]);
        }
        places
    }
}

proof fn lemma_subsequence(places: Seq<int>, wanted: Seq<char>, within: Seq<char>)
    requires
        are_places(places, wanted, within),
    ensures
        is_subsequence(wanted, within),
    decreases within.len(),
{
    if wanted.len() > 0 {
        assert(0 <= places[0] < within.len());
        if within[0] == wanted[0] {
            let rest = Seq::new((wanted.len() - 1) as nat, |k: int| places[k + 1] - 1);
            assert forall|k: int| 0 <= k < rest.len() implies 0 <= #[trigger] rest[k]
                < within.skip(1).len() && within.skip(1)[rest[k]] == wanted.skip(1)[k] by {
                assert(places[0] < places[k + 1]);
            }
            assert forall|j: int, k: int| 0 <= j < k < rest.len() implies #[trigger] rest[j]
                < #[trigger] rest[k] by {
                assert(places[j + 1] < places[k + 1]);
            }
            lemma_subsequence(rest, wanted.skip(1), within.skip(1));
        } else {
            let rest = Seq::new(wanted.len(), |k: int| places[k] - 1);
            assert(places[0] > 0) by {
                assert(within[places[0]] == wanted[0]);
            }
            assert forall|k: int| 0 <= k < rest.len() implies 0 <= #[trigger] rest[k]
                < within.skip(1).len() && within.skip(1)[rest[k]] == wanted[k] by {
                if k > 0 {
                    assert(places[0] < places[k]);
                }
            }
            assert forall|j: int, k: int| 0 <= j < k < rest.len() implies #[trigger] rest[j]
                < #[trigger] rest[k] by {
                assert(places[j] < places[k]);
            }
            lemma_subsequence(rest, wanted, within.skip(1));
        }
    }
}

} // verus!
