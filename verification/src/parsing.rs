//! From a raw query to the values of its recognized parameters.
//!
//! A recognized parameter is set once. The first pair that names it sets it: to its
//! value, or to nothing where the value is empty. Any later pair that names it is a
//! repetition, whatever its value.
use crate::form::{decode_pairs, decoded_pairs};
use crate::params::AuthorizationQueryParams;
use vstd::prelude::*;

verus! {

/// Why a query could not be read.
#[derive(Debug, PartialEq, Eq)]
pub enum ParsingError {
    /// The query is not in `application/x-www-form-urlencoded` form.
    ParsingError,
    /// The parameter of this name was sent more than once.
    RepeatedParameter(&'static str),
}

/// The value of an entry, where the entry sets `param`.
pub open spec fn value_under(param: AuthorizationQueryParams) -> spec_fn(
    (AuthorizationQueryParams, Seq<char>),
) -> Option<Seq<char>> {
    |entry: (AuthorizationQueryParams, Seq<char>)|
        if entry.0 == param {
            Some(entry.1)
        } else {
            None
        }
}

/// The values that were sent for `param`, in their order.
pub open spec fn values_of(
    known: Seq<(AuthorizationQueryParams, Seq<char>)>,
    param: AuthorizationQueryParams,
) -> Seq<Seq<char>> {
    known.filter_map(value_under(param))
}

/// The value that `param` is set to: that of the first pair that names it, unless that
/// value is empty. An empty value sets nothing, as if the pair had not been sent.
pub open spec fn sent_value(
    known: Seq<(AuthorizationQueryParams, Seq<char>)>,
    param: AuthorizationQueryParams,
) -> Option<Seq<char>> {
    let values = values_of(known, param);
    if values.len() > 0 && values[0].len() > 0 {
        Some(values[0])
    } else {
        None
    }
}

/// The parameter of the first entry that names a parameter already named before it.
pub open spec fn first_repeated(known: Seq<(AuthorizationQueryParams, Seq<char>)>) -> Option<
    AuthorizationQueryParams,
>
    decreases known.len(),
{
    if known.len() == 0 {
        None
    } else {
        match first_repeated(known.drop_last()) {
            Some(param) => Some(param),
            None => if values_of(known.drop_last(), known.last().0).len() > 0 {
                Some(known.last().0)
            } else {
                None
            },
        }
    }
}

/// A repetition stays the first one, whatever is sent after it.
pub proof fn lemma_first_repeated_stays(
    known: Seq<(AuthorizationQueryParams, Seq<char>)>,
    n: int,
)
    requires
        0 <= n <= known.len(),
        first_repeated(known.take(n)) is Some,
    ensures
        first_repeated(known) == first_repeated(known.take(n)),
    decreases known.len() - n,
{
    if n < known.len() {
        assert(known.take(n + 1).drop_last() == known.take(n));
        lemma_first_repeated_stays(known, n + 1);
    } else {
        assert(known.take(n) == known);
    }
}

/// An entry adds its value to the values of its parameter, and to no others.
pub proof fn lemma_values_of_push(
    known: Seq<(AuthorizationQueryParams, Seq<char>)>,
    entry: (AuthorizationQueryParams, Seq<char>),
    param: AuthorizationQueryParams,
)
    ensures
        values_of(known.push(entry), param) == if entry.0 == param {
            values_of(known, param).push(entry.1)
        } else {
            values_of(known, param)
        },
{
    assert(known.push(entry).drop_last() == known);
}

/// The values of a parameter are read off in order, part by part.
pub proof fn lemma_values_of_add(
    front: Seq<(AuthorizationQueryParams, Seq<char>)>,
    back: Seq<(AuthorizationQueryParams, Seq<char>)>,
    param: AuthorizationQueryParams,
)
    ensures
        values_of(front + back, param) == values_of(front, param) + values_of(back, param),
    decreases back.len(),
{
    if back.len() == 0 {
        assert(front + back == front);
    } else {
        lemma_values_of_add(front, back.drop_last(), param);
        assert(front + back == (front + back.drop_last()).push(back.last()));
        assert(back == back.drop_last().push(back.last()));
        lemma_values_of_push(front + back.drop_last(), back.last(), param);
        lemma_values_of_push(back.drop_last(), back.last(), param);
    }
}

/// There is a first repetition exactly when some parameter was sent twice, and the
/// parameter it names is one of those.
pub proof fn lemma_first_repeated_sent_twice(known: Seq<(AuthorizationQueryParams, Seq<char>)>)
    ensures
        first_repeated(known) matches Some(param) ==> values_of(known, param).len() >= 2,
        first_repeated(known) is None ==> forall|param: AuthorizationQueryParams|
            #[trigger] values_of(known, param).len() <= 1,
    decreases known.len(),
{
    if known.len() > 0 {
        let before = known.drop_last();
        lemma_first_repeated_sent_twice(before);
        assert(known == before.push(known.last()));
        assert forall|param: AuthorizationQueryParams|
            values_of(before, param).len() <= #[trigger] values_of(known, param).len()
            && (param != known.last().0 ==> values_of(known, param) == values_of(
            before,
            param,
        )) && (param == known.last().0 ==> values_of(known, param).len() == values_of(
            before,
            param,
        ).len() + 1) by {
            lemma_values_of_push(before, known.last(), param);
        }
        if first_repeated(known) is None {
            assert forall|param: AuthorizationQueryParams| #[trigger]
                values_of(known, param).len() <= 1 by {
                assert(values_of(before, param).len() <= 1);
            }
        }
    } else {
    }
}

/// Whether the entry at `at` names a parameter that an entry before it names too.
pub open spec fn repeats_at(known: Seq<(AuthorizationQueryParams, Seq<char>)>, at: int) -> bool {
    0 <= at < known.len() && exists|before: int|
        0 <= before < at && (#[trigger] known[before]).0 == known[at].0
}

/// Values were sent for a parameter exactly when some entry names it.
pub proof fn lemma_values_of_some(
    known: Seq<(AuthorizationQueryParams, Seq<char>)>,
    param: AuthorizationQueryParams,
)
    ensures
        values_of(known, param).len() > 0 <==> exists|at: int|
            0 <= at < known.len() && (#[trigger] known[at]).0 == param,
    decreases known.len(),
{
    if known.len() > 0 {
        let rest = known.drop_last();
        lemma_values_of_some(rest, param);
        assert(known == rest.push(known.last()));
        lemma_values_of_push(rest, known.last(), param);
        if values_of(known, param).len() > 0 {
            if known.last().0 == param {
                assert(known[known.len() - 1].0 == param);
            } else {
                let at = choose|at: int| 0 <= at < rest.len() && (#[trigger] rest[at]).0 == param;
                assert(known[at].0 == param);
            }
        }
        if exists|at: int| 0 <= at < known.len() && (#[trigger] known[at]).0 == param {
            let at = choose|at: int| 0 <= at < known.len() && (#[trigger] known[at]).0 == param;
            if at < rest.len() {
                assert(rest[at].0 == param);
            }
        }
    }
}

/// The first repetition is the first in the order of sending: it is named by the first
/// entry whose parameter an earlier entry names too. There is none exactly when no two
/// entries name the same parameter.
pub proof fn law_first_repeated(known: Seq<(AuthorizationQueryParams, Seq<char>)>)
    ensures
        match first_repeated(known) {
            Some(param) => exists|at: int|
                #[trigger] repeats_at(known, at) && known[at].0 == param && forall|before: int|
                    0 <= before < at ==> !#[trigger] repeats_at(known, before),
            None => forall|at: int| !#[trigger] repeats_at(known, at),
        },
    decreases known.len(),
{
    if known.len() > 0 {
        let rest = known.drop_last();
        let last = known.len() - 1;
        law_first_repeated(rest);
        lemma_values_of_some(rest, known.last().0);
        assert forall|at: int| 0 <= at < last implies repeats_at(rest, at) == #[trigger] repeats_at(
            known,
            at,
        ) by {
            if repeats_at(rest, at) {
                let before = choose|before: int|
                    0 <= before < at && (#[trigger] rest[before]).0 == rest[at].0;
                assert(known[before].0 == known[at].0);
            }
            if repeats_at(known, at) {
                let before = choose|before: int|
                    0 <= before < at && (#[trigger] known[before]).0 == known[at].0;
                assert(rest[before].0 == rest[at].0);
            }
        }
        assert(repeats_at(known, last) <==> values_of(rest, known.last().0).len() > 0) by {
            if repeats_at(known, last) {
                let before = choose|before: int|
                    0 <= before < last && (#[trigger] known[before]).0 == known[last].0;
                assert(rest[before].0 == known.last().0);
            }
            if values_of(rest, known.last().0).len() > 0 {
                let before = choose|before: int|
                    0 <= before < rest.len() && (#[trigger] rest[before]).0 == known.last().0;
                assert(known[before].0 == known[last].0);
            }
        }
        match first_repeated(rest) {
            Some(param) => {
                let at = choose|at: int|
                    #[trigger] repeats_at(rest, at) && rest[at].0 == param && forall|before: int|
                        0 <= before < at ==> !#[trigger] repeats_at(rest, before);
                assert(repeats_at(known, at));
                assert forall|before: int| 0 <= before < at implies !#[trigger] repeats_at(
                    known,
                    before,
                ) by {
                    assert(!repeats_at(rest, before));
                }
            },
            None => {
                assert forall|at: int| 0 <= at < last implies !#[trigger] repeats_at(known, at) by {
                    assert(!repeats_at(rest, at));
                }
                if repeats_at(known, last) {
                    assert(known[last].0 == known.last().0);
                }
            },
        }
    }
}

/// Whether the entry at `at` is the first that names `param`.
pub open spec fn first_named_at(
    known: Seq<(AuthorizationQueryParams, Seq<char>)>,
    param: AuthorizationQueryParams,
    at: int,
) -> bool {
    0 <= at < known.len() && known[at].0 == param && forall|before: int|
        0 <= before < at ==> (#[trigger] known[before]).0 != param
}

/// The first value that was sent for a parameter is that of the first entry that names
/// it.
pub proof fn lemma_first_value(
    known: Seq<(AuthorizationQueryParams, Seq<char>)>,
    param: AuthorizationQueryParams,
)
    requires
        values_of(known, param).len() > 0,
    ensures
        exists|at: int| #[trigger]
            first_named_at(known, param, at) && known[at].1 == values_of(known, param)[0],
    decreases known.len(),
{
    let rest = known.drop_last();
    let last = known.len() - 1;
    assert(known == rest.push(known.last()));
    lemma_values_of_push(rest, known.last(), param);
    lemma_values_of_some(rest, param);
    if values_of(rest, param).len() > 0 {
        lemma_first_value(rest, param);
        let at = choose|at: int| #[trigger]
            first_named_at(rest, param, at) && rest[at].1 == values_of(rest, param)[0];
        assert(first_named_at(known, param, at)) by {
            assert(known[at] == rest[at]);
            assert forall|before: int| 0 <= before < at implies (#[trigger] known[before]).0
                != param by {
                assert(rest[before].0 != param);
            }
        }
        assert(values_of(known, param)[0] == values_of(rest, param)[0]);
    } else {
        assert(first_named_at(known, param, last)) by {
            assert forall|before: int| 0 <= before < last implies (#[trigger] known[before]).0
                != param by {
                assert(rest[before].0 != param);
            }
        }
        assert(values_of(known, param) == seq![known.last().1]);
    }
}

/// The value of a parameter is that of the first entry that names it, unless that
/// value is empty.
pub proof fn law_sent_value(
    known: Seq<(AuthorizationQueryParams, Seq<char>)>,
    param: AuthorizationQueryParams,
)
    ensures
        match sent_value(known, param) {
            Some(value) => value.len() > 0 && exists|at: int| #[trigger]
                first_named_at(known, param, at) && known[at].1 == value,
            None => forall|at: int| #[trigger]
                first_named_at(known, param, at) ==> known[at].1.len() == 0,
        },
{
    lemma_values_of_some(known, param);
    if values_of(known, param).len() > 0 {
        lemma_first_value(known, param);
        let first = choose|at: int| #[trigger]
            first_named_at(known, param, at) && known[at].1 == values_of(known, param)[0];
        assert forall|at: int| #[trigger] first_named_at(known, param, at) implies at == first by {
            if at < first {
                assert(known[at].0 != param);
            }
            if first < at {
                assert(known[first].0 != param);
            }
        }
    } else {
        assert forall|at: int| #[trigger] first_named_at(known, param, at) implies false by {
            assert(known[at].0 == param);
        }
    }
}

/// A parameter that was sent once repeats nothing: without its entry, the first
/// repetition is the same.
pub proof fn lemma_first_repeated_without(
    front: Seq<(AuthorizationQueryParams, Seq<char>)>,
    entry: (AuthorizationQueryParams, Seq<char>),
    back: Seq<(AuthorizationQueryParams, Seq<char>)>,
)
    requires
        values_of(front + back, entry.0).len() == 0,
    ensures
        first_repeated(front.push(entry) + back) == first_repeated(front + back),
    decreases back.len(),
{
    if back.len() == 0 {
        assert(front.push(entry) + back == front.push(entry));
        assert(front + back == front);
        assert(front.push(entry).drop_last() == front);
    } else {
        let rest = back.drop_last();
        let last = back.last();
        assert(front + back == (front + rest).push(last));
        assert(front.push(entry) + back == (front.push(entry) + rest).push(last));
        assert((front + back).drop_last() == front + rest);
        assert((front.push(entry) + back).drop_last() == front.push(entry) + rest);
        lemma_values_of_push(front + rest, last, entry.0);
        lemma_first_repeated_without(front, entry, rest);
        lemma_values_of_add(front.push(entry), rest, last.0);
        lemma_values_of_add(front, rest, last.0);
        lemma_values_of_push(front, entry, last.0);
    }
}

/// The values of the recognized parameters of a query: `None` for a parameter that was
/// not sent, or sent empty.
#[derive(Debug, PartialEq, Eq)]
pub struct KnownParameters {
    pub response_type: Option<String>,
    pub client_id: Option<String>,
    pub redirect_uri: Option<String>,
    pub scope: Option<String>,
    pub state: Option<String>,
}

/// The text of an optional string.
pub open spec fn text_of(value: Option<String>) -> Option<Seq<char>> {
    match value {
        Some(text) => Some(text@),
        None => None,
    }
}

impl KnownParameters {
    /// The value of `param`.
    pub open spec fn value(self, param: AuthorizationQueryParams) -> Option<Seq<char>> {
        match param {
            AuthorizationQueryParams::ResponseType => text_of(self.response_type),
            AuthorizationQueryParams::ClientId => text_of(self.client_id),
            AuthorizationQueryParams::RedirectUri => text_of(self.redirect_uri),
            AuthorizationQueryParams::Scope => text_of(self.scope),
            AuthorizationQueryParams::State => text_of(self.state),
        }
    }
}

/// What is known of one parameter while the pairs are read.
enum SetOnce {
    /// No pair has named it yet.
    Undefined,
    /// A pair has named it, with an empty value.
    Absent,
    /// A pair has named it, with this value.
    Present(String),
}

impl SetOnce {
    /// Whether this is the state of a parameter after `values` were sent for it.
    spec fn tracks(self, values: Seq<Seq<char>>) -> bool {
        match self {
            SetOnce::Undefined => values.len() == 0,
            SetOnce::Absent => values.len() == 1 && values[0].len() == 0,
            SetOnce::Present(value) => values.len() == 1 && values[0] == value@ && value@.len()
                > 0,
        }
    }

    /// The value that a parameter in this state is set to.
    spec fn sent(self) -> Option<Seq<char>> {
        match self {
            SetOnce::Present(value) => Some(value@),
            _ => None,
        }
    }

    /// Sets the parameter, unless a pair has named it before.
    fn try_define(&mut self, value: String, name: &'static str) -> (defined: Result<
        (),
        ParsingError,
    >)
        ensures
            match defined {
                Ok(_) => *old(self) is Undefined && forall|values: Seq<Seq<char>>|
                    (*old(self)).tracks(values) ==> #[trigger] (*final(self)).tracks(
                        values.push(value@),
                    ),
                Err(error) => !(*old(self) is Undefined) && *final(self) == *old(self)
                    && error == ParsingError::RepeatedParameter(name),
            },
    {
        let undefined = match self {
            SetOnce::Undefined => true,
            _ => false,
        };
        if !undefined {
            return Err(ParsingError::RepeatedParameter(name));
        }
        if value.as_str().is_empty() {
            *self = SetOnce::Absent;
        } else {
            *self = SetOnce::Present(value);
        }
        Ok(())
    }

    fn to_option(self) -> (value: Option<String>)
        ensures
            text_of(value) == self.sent(),
    {
        match self {
            SetOnce::Present(value) => Some(value),
            _ => None,
        }
    }
}

/// The state of every parameter while the pairs are read.
struct Slots {
    response_type: SetOnce,
    client_id: SetOnce,
    redirect_uri: SetOnce,
    scope: SetOnce,
    state: SetOnce,
}

impl Slots {
    spec fn slot(self, param: AuthorizationQueryParams) -> SetOnce {
        match param {
            AuthorizationQueryParams::ResponseType => self.response_type,
            AuthorizationQueryParams::ClientId => self.client_id,
            AuthorizationQueryParams::RedirectUri => self.redirect_uri,
            AuthorizationQueryParams::Scope => self.scope,
            AuthorizationQueryParams::State => self.state,
        }
    }

    /// Whether these are the states after `known` was read without a repetition.
    spec fn tracks(self, known: Seq<(AuthorizationQueryParams, Seq<char>)>) -> bool {
        forall|param: AuthorizationQueryParams| #[trigger]
            self.slot(param).tracks(values_of(known, param))
    }
}

/// Decodes a raw query into its pairs.
pub fn decode_query(query: &str) -> (decoded: Result<Vec<(String, String)>, ParsingError>)
    ensures
        match decoded {
            Ok(pairs) => decoded_pairs(query@) == Some(pairs.deep_view()),
            Err(error) => decoded_pairs(query@) is None && error == ParsingError::ParsingError,
        },
{
    match decode_pairs(query) {
        Ok(pairs) => Ok(pairs),
        Err(_) => Err(ParsingError::ParsingError),
    }
}

/// Applies the set-once rule to the recognized parameters of a query, in the order in
/// which they were sent. The first repetition ends the reading.
pub fn define_once(known: Vec<(AuthorizationQueryParams, String)>) -> (defined: Result<
    KnownParameters,
    ParsingError,
>)
    ensures
        match defined {
            Ok(values) => first_repeated(known.deep_view()) is None && forall|
                param: AuthorizationQueryParams,
            | #[trigger] values.value(param) == sent_value(known.deep_view(), param),
            Err(ParsingError::RepeatedParameter(name)) => first_repeated(known.deep_view())
                matches Some(param) && name@ == param.spec_name(),
            Err(ParsingError::ParsingError) => false,
        },
{
    let ghost entries = known.deep_view();
    let mut slots = Slots {
        response_type: SetOnce::Undefined,
        client_id: SetOnce::Undefined,
        redirect_uri: SetOnce::Undefined,
        scope: SetOnce::Undefined,
        state: SetOnce::Undefined,
    };
    assert(slots.tracks(entries.take(0)));
    for entry in it: known
        invariant
            it.seq() == known@,
            entries == known.deep_view(),
            first_repeated(entries.take(it.index() as int)) is None,
            slots.tracks(entries.take(it.index() as int)),
    {
        let ghost i = it.index() as int;
        let ghost before = slots;
        let (param, value) = entry;
        proof {
            assert(entries[i] == (param, value@));
            assert(entries.take(i + 1).drop_last() == entries.take(i));
            assert forall|other: AuthorizationQueryParams|
                values_of(entries.take(i + 1), other) == #[trigger] values_of(
                    entries.take(i),
                    other,
                ) + (if other == param {
                    seq![value@]
                } else {
                    Seq::empty()
                }) by {
                entries.lemma_filter_map_take_succ(value_under(other), i);
            }
            assert(before.slot(param).tracks(values_of(entries.take(i), param)));
        }
        let name = param.name();
        let defined = match param {
            AuthorizationQueryParams::ResponseType => slots.response_type.try_define(value, name),
            AuthorizationQueryParams::ClientId => slots.client_id.try_define(value, name),
            AuthorizationQueryParams::RedirectUri => slots.redirect_uri.try_define(value, name),
            AuthorizationQueryParams::Scope => slots.scope.try_define(value, name),
            AuthorizationQueryParams::State => slots.state.try_define(value, name),
        };
        match defined {
            Ok(_) => {
                assert(slots.tracks(entries.take(i + 1))) by {
                    assert forall|other: AuthorizationQueryParams| #[trigger]
                        slots.slot(other).tracks(values_of(entries.take(i + 1), other)) by {
                        assert(before.slot(other).tracks(values_of(entries.take(i), other)));
                        if other == param {
                            assert(values_of(entries.take(i), other) + seq![value@]
                                == values_of(entries.take(i), other).push(value@));
                        } else {
                            assert(slots.slot(other) == before.slot(other));
                            assert(values_of(entries.take(i), other) + Seq::empty()
                                == values_of(entries.take(i), other));
                        }
                    }
                }
            },
            Err(error) => {
                proof {
                    assert(first_repeated(entries.take(i + 1)) == Some(param));
                    lemma_first_repeated_stays(entries, i + 1);
                }
                return Err(error);
            },
        }
    }
    assert(entries.take(entries.len() as int) == entries);
    let ghost last = slots;
    let values = KnownParameters {
        response_type: slots.response_type.to_option(),
        client_id: slots.client_id.to_option(),
        redirect_uri: slots.redirect_uri.to_option(),
        scope: slots.scope.to_option(),
        state: slots.state.to_option(),
    };
    assert forall|param: AuthorizationQueryParams| #[trigger]
        values.value(param) == sent_value(entries, param) by {
        assert(last.slot(param).tracks(values_of(entries, param)));
        assert(values.value(param) == last.slot(param).sent());
    }
    Ok(values)
}

} // verus!
