//! The parameters that an authorization request carries without a meaning of its own.
use crate::params::{known_key, AuthorizationQueryParams};
use vstd::prelude::*;

verus! {

/// The pairs of a query whose keys are not recognized: kept as they were sent, in
/// order, a repeated key as often as it was sent.
#[derive(Debug, PartialEq, Eq)]
pub struct OpaqueParameters(pub Vec<(String, String)>);

impl View for OpaqueParameters {
    type V = Seq<(Seq<char>, Seq<char>)>;

    open spec fn view(&self) -> Seq<(Seq<char>, Seq<char>)> {
        self.0.deep_view()
    }
}

/// Whether a pair is opaque: its key is not recognized.
pub open spec fn is_opaque() -> spec_fn((Seq<char>, Seq<char>)) -> bool {
    |pair: (Seq<char>, Seq<char>)| known_key(pair.0) is None
}

/// The parameter that a pair sets, with the value that it sends.
pub open spec fn recognize() -> spec_fn((Seq<char>, Seq<char>)) -> Option<
    (AuthorizationQueryParams, Seq<char>),
> {
    |pair: (Seq<char>, Seq<char>)|
        match known_key(pair.0) {
            Some(param) => Some((param, pair.1)),
            None => None,
        }
}

/// The opaque pairs among `pairs`, untouched and in their order.
pub open spec fn opaque_parameters(pairs: Seq<(Seq<char>, Seq<char>)>) -> Seq<
    (Seq<char>, Seq<char>),
> {
    pairs.filter(is_opaque())
}

/// The recognized parameters among `pairs`, in their order, each with its value.
pub open spec fn recognized_parameters(pairs: Seq<(Seq<char>, Seq<char>)>) -> Seq<
    (AuthorizationQueryParams, Seq<char>),
> {
    pairs.filter_map(recognize())
}

/// The opaque pairs of a query are those of its parts, one part after the other.
pub proof fn lemma_opaque_parameters_add(
    front: Seq<(Seq<char>, Seq<char>)>,
    back: Seq<(Seq<char>, Seq<char>)>,
)
    ensures
        opaque_parameters(front + back) == opaque_parameters(front) + opaque_parameters(back),
{
    Seq::filter_distributes_over_add(front, back, is_opaque());
}

/// The only opaque pair of a single pair is that pair, where its key is not recognized;
/// the only recognized parameter of a single pair is the one that its key names.
pub proof fn lemma_single_pair(pair: (Seq<char>, Seq<char>))
    ensures
        opaque_parameters(seq![pair]) == if known_key(pair.0) is None {
            seq![pair]
        } else {
            Seq::empty()
        },
        recognized_parameters(seq![pair]) == match known_key(pair.0) {
            Some(param) => seq![(param, pair.1)],
            None => Seq::empty(),
        },
{
    let none = Seq::<(Seq<char>, Seq<char>)>::empty();
    assert(seq![pair] == none.push(pair));
    none.lemma_filter_push(pair, is_opaque());
    reveal(Seq::filter);
    assert(none.filter(is_opaque()) == none);
    assert(seq![pair].drop_last() == none);
    assert(seq![pair].last() == pair);
    assert(none.filter_map(recognize()) == Seq::<(AuthorizationQueryParams, Seq<char>)>::empty());
    match known_key(pair.0) {
        Some(param) => {
            assert(recognize()(pair) == Some((param, pair.1)));
            assert(none.filter_map(recognize()) + seq![(param, pair.1)] == seq![
                (param, pair.1),
            ]);
        },
        None => {},
    }
}

/// The recognized parameters of a query are those of its parts, one part after the
/// other.
pub proof fn lemma_recognized_parameters_add(
    front: Seq<(Seq<char>, Seq<char>)>,
    back: Seq<(Seq<char>, Seq<char>)>,
)
    ensures
        recognized_parameters(front + back) == recognized_parameters(front)
            + recognized_parameters(back),
    decreases back.len(),
{
    if back.len() == 0 {
        assert(front + back == front);
    } else {
        lemma_recognized_parameters_add(front, back.drop_last());
        assert((front + back).drop_last() == front + back.drop_last());
        assert((front + back).last() == back.last());
    }
}

/// Parts the decoded pairs of a query into the opaque ones and the recognized ones.
/// Nothing is dropped or reordered on either side, and no value is looked at.
pub fn extract_opaque_parameters(parameters: Vec<(String, String)>) -> (parted: (
    Vec<(String, String)>,
    Vec<(AuthorizationQueryParams, String)>,
))
    ensures
        parted.0.deep_view() == opaque_parameters(parameters.deep_view()),
        parted.1.deep_view() == recognized_parameters(parameters.deep_view()),
{
    let ghost pairs = parameters.deep_view();
    let mut opaque: Vec<(String, String)> = Vec::new();
    let mut known: Vec<(AuthorizationQueryParams, String)> = Vec::new();
    proof {
        reveal(Seq::filter);
        assert(pairs.take(0).filter(is_opaque()) == opaque.deep_view());
        assert(pairs.take(0).filter_map(recognize()) == known.deep_view());
    }
    for key_value in it: parameters
        invariant
            it.seq() == parameters@,
            pairs == parameters.deep_view(),
            opaque.deep_view() == opaque_parameters(pairs.take(it.index() as int)),
            known.deep_view() == recognized_parameters(pairs.take(it.index() as int)),
    {
        let ghost i = it.index() as int;
        let ghost pair = key_value.deep_view();
        let ghost opaque_before = opaque.deep_view();
        let ghost known_before = known.deep_view();
        proof {
            assert(pairs[i] == pair);
            assert(pairs.take(i + 1) == pairs.take(i).push(pair));
            pairs.take(i).lemma_filter_push(pair, is_opaque());
            pairs.lemma_filter_map_take_succ(recognize(), i);
        }
        match AuthorizationQueryParams::split(key_value) {
            Ok(entry) => {
                known.push(entry);
                assert(known.deep_view() == known_before + seq![(entry.0, entry.1@)]);
            },
            Err(pair) => {
                opaque.push(pair);
                assert(opaque.deep_view() == opaque_before.push(pair.deep_view()));
            },
        }
    }
    assert(pairs.take(pairs.len() as int) == pairs);
    (opaque, known)
}

} // verus!
