//! What holds of every query, proved from the definitions of the other modules.
use crate::opaque_parameters::{
    lemma_opaque_parameters_add,
    lemma_recognized_parameters_add,
    lemma_single_pair,
    opaque_parameters,
    recognized_parameters,
};
use crate::params::{known_key, AuthorizationQueryParams};
use crate::parsing::{
    first_repeated,
    lemma_first_repeated_sent_twice,
    lemma_first_repeated_without,
    lemma_values_of_add,
    lemma_values_of_push,
    sent_value,
    values_of,
};
use crate::query::{authorization_request, query_outcome, resolved_target, ErrorView, RequestView};
use crate::redirect_uri::redirect_target;
use crate::response::{redirect_location, BAD_REQUEST, SEE_OTHER};
use crate::response_type::ResponseType;
use crate::scope::{
    first_invalid_token,
    is_scope_token,
    lemma_first_invalid_token,
    lemma_first_invalid_token_stays,
    scope_list,
    split_at_spaces,
};
use vstd::prelude::*;

verus! {

/// The redirect target is judged first. A query whose redirect target is missing, sent
/// empty, sent twice or not valid is answered with `400 Bad Request` and without a
/// `Location`, whatever else it holds.
pub proof fn law_no_target_no_redirect(pairs: Seq<(Seq<char>, Seq<char>)>)
    requires
        ({
            let sent = values_of(
                recognized_parameters(pairs),
                AuthorizationQueryParams::RedirectUri,
            );
            sent.len() != 1 || sent[0].len() == 0 || redirect_target(sent[0]) is None
        }),
    ensures
        authorization_request(pairs) == Err::<RequestView, ErrorView>(ErrorView::InvalidUri),
        ErrorView::InvalidUri.response().status == BAD_REQUEST,
        ErrorView::InvalidUri.response().location is None,
{
}

/// A query that does not decode is answered with `400 Bad Request` and without a
/// `Location`.
pub proof fn law_undecodable_query_is_answered_flat(query: Seq<char>)
    requires
        crate::form::decoded_pairs(query) is None,
    ensures
        query_outcome(query) == Err::<RequestView, ErrorView>(ErrorView::ParsingError),
        ErrorView::ParsingError.response().status == BAD_REQUEST,
        ErrorView::ParsingError.response().location is None,
{
}

/// An error carries a redirect target only if the query named one that passed
/// validation, and then it carries that one. No answer redirects anywhere else: a
/// `Location` is written from the target that the error carries, and only a `303 See
/// Other` has one.
pub proof fn law_redirects_go_to_the_validated_target(pairs: Seq<(Seq<char>, Seq<char>)>)
    ensures
        authorization_request(pairs) matches Err(error) ==> {
            &&& error.target() == resolved_target(recognized_parameters(pairs))
            &&& error.response().location is Some <==> error.response().status == SEE_OTHER
            &&& error.response().location is None <==> error.response().status == BAD_REQUEST
            &&& error.response().location matches Some(location) ==> error.target() matches Some(
                target,
            ) && redirect_location(target, error.standard_error_text()) == Some(location)
        },
{
}

/// A query with nothing but a response type `code`, a client identifier, a valid
/// redirect target and the scope `a b`, each sent once and in any order, is an
/// authorization request without opaque parameters and with the scopes `a` and `b`, in
/// this order. A state may be sent along.
pub proof fn law_plain_request(
    pairs: Seq<(Seq<char>, Seq<char>)>,
    client_id: Seq<char>,
    redirect_uri: Seq<char>,
)
    requires
        forall|i: int| 0 <= i < pairs.len() ==> known_key((#[trigger] pairs[i]).0) is Some,
        values_of(recognized_parameters(pairs), AuthorizationQueryParams::ResponseType) == seq![
            "code"@,
        ],
        values_of(recognized_parameters(pairs), AuthorizationQueryParams::ClientId) == seq![
            client_id,
        ],
        values_of(recognized_parameters(pairs), AuthorizationQueryParams::RedirectUri) == seq![
            redirect_uri,
        ],
        values_of(recognized_parameters(pairs), AuthorizationQueryParams::Scope) == seq!["a b"@],
        values_of(recognized_parameters(pairs), AuthorizationQueryParams::State).len() <= 1,
        client_id.len() > 0,
        redirect_uri.len() > 0,
        redirect_target(redirect_uri) is Some,
    ensures
        authorization_request(pairs) == Ok::<RequestView, ErrorView>(
            RequestView {
                opaque_parameters: Seq::empty(),
                response_type: ResponseType::Code,
                client_id,
                redirect_uri: redirect_target(redirect_uri).unwrap(),
                scope: seq!["a"@, "b"@],
                state: sent_value(recognized_parameters(pairs), AuthorizationQueryParams::State),
            },
        ),
{
    let known = recognized_parameters(pairs);
    assert(opaque_parameters(pairs) == Seq::<(Seq<char>, Seq<char>)>::empty()) by {
        lemma_no_opaque_parameters(pairs);
    }
    assert(first_repeated(known) is None) by {
        lemma_first_repeated_sent_twice(known);
        if let Some(param) = first_repeated(known) {
            assert(values_of(known, param).len() >= 2);
        }
    }
    lemma_scope_a_b();
    reveal_strlit("code");
    reveal_strlit("a b");
}

/// The plain request, with its parameters in the usual order.
pub proof fn law_plain_request_in_order(client_id: Seq<char>, redirect_uri: Seq<char>)
    requires
        client_id.len() > 0,
        redirect_uri.len() > 0,
        redirect_target(redirect_uri) is Some,
    ensures
        authorization_request(
            seq![
                ("response_type"@, "code"@),
                ("client_id"@, client_id),
                ("redirect_uri"@, redirect_uri),
                ("scope"@, "a b"@),
            ],
        ) == Ok::<RequestView, ErrorView>(
            RequestView {
                opaque_parameters: Seq::empty(),
                response_type: ResponseType::Code,
                client_id,
                redirect_uri: redirect_target(redirect_uri).unwrap(),
                scope: seq!["a"@, "b"@],
                state: None,
            },
        ),
{
    let first = ("response_type"@, "code"@);
    let second = ("client_id"@, client_id);
    let third = ("redirect_uri"@, redirect_uri);
    let fourth = ("scope"@, "a b"@);
    let pairs = seq![first, second, third, fourth];
    let none = Seq::<(AuthorizationQueryParams, Seq<char>)>::empty();
    let known = none.push((AuthorizationQueryParams::ResponseType, "code"@)).push(
        (AuthorizationQueryParams::ClientId, client_id),
    ).push((AuthorizationQueryParams::RedirectUri, redirect_uri)).push(
        (AuthorizationQueryParams::Scope, "a b"@),
    );
    AuthorizationQueryParams::ResponseType.law_name_round_trip();
    AuthorizationQueryParams::ClientId.law_name_round_trip();
    AuthorizationQueryParams::RedirectUri.law_name_round_trip();
    AuthorizationQueryParams::Scope.law_name_round_trip();
    assert(recognized_parameters(pairs) == known) by {
        lemma_single_pair(first);
        lemma_single_pair(second);
        lemma_single_pair(third);
        lemma_single_pair(fourth);
        lemma_recognized_parameters_add(seq![first], seq![second]);
        lemma_recognized_parameters_add(seq![first] + seq![second], seq![third]);
        lemma_recognized_parameters_add(seq![first] + seq![second] + seq![third], seq![fourth]);
        assert(pairs == seq![first] + seq![second] + seq![third] + seq![fourth]);
    }
    assert forall|param: AuthorizationQueryParams| #[trigger]
        values_of(known, param) == (match param {
            AuthorizationQueryParams::ResponseType => seq!["code"@],
            AuthorizationQueryParams::ClientId => seq![client_id],
            AuthorizationQueryParams::RedirectUri => seq![redirect_uri],
            AuthorizationQueryParams::Scope => seq!["a b"@],
            AuthorizationQueryParams::State => Seq::<Seq<char>>::empty(),
        }) by {
        let one = none.push((AuthorizationQueryParams::ResponseType, "code"@));
        let two = one.push((AuthorizationQueryParams::ClientId, client_id));
        let three = two.push((AuthorizationQueryParams::RedirectUri, redirect_uri));
        assert(values_of(none, param).len() == 0);
        lemma_values_of_push(none, (AuthorizationQueryParams::ResponseType, "code"@), param);
        lemma_values_of_push(one, (AuthorizationQueryParams::ClientId, client_id), param);
        lemma_values_of_push(two, (AuthorizationQueryParams::RedirectUri, redirect_uri), param);
        lemma_values_of_push(three, (AuthorizationQueryParams::Scope, "a b"@), param);
    }
    assert(values_of(known, AuthorizationQueryParams::State).len() == 0);
    law_plain_request(pairs, client_id, redirect_uri);
}

/// The scope `a b` asks for `a` and for `b`.
pub proof fn lemma_scope_a_b()
    ensures
        scope_list("a b"@) == Ok::<Seq<Seq<char>>, Seq<char>>(seq!["a"@, "b"@]),
{
    reveal_strlit("a b");
    reveal_strlit("a");
    reveal_strlit("b");
    let text = "a b"@;
    let none = Seq::<char>::empty();
    assert(text == seq!['a', ' ', 'b']);
    assert(text.drop_last() == seq!['a', ' ']);
    assert(text.drop_last().drop_last() == seq!['a']);
    assert(text.drop_last().drop_last().drop_last() == none);
    assert(split_at_spaces(none) == seq![none]);
    assert(split_at_spaces(seq!['a']) == seq![seq!['a']]) by {
        assert(seq![none].drop_last().push(seq![none].last().push('a')) == seq![seq!['a']]);
    }
    assert(split_at_spaces(seq!['a', ' ']) == seq![seq!['a'], none]);
    assert(split_at_spaces(text) == seq![seq!['a'], seq!['b']]) by {
        let before = seq![seq!['a'], none];
        assert(before.drop_last().push(before.last().push('b')) == seq![seq!['a'], seq!['b']]);
    }
    let tokens = seq!["a"@, "b"@];
    assert("a"@ == seq!['a']);
    assert("b"@ == seq!['b']);
    assert(tokens == seq![seq!['a'], seq!['b']]);
    assert(is_scope_token("a"@));
    assert(is_scope_token("b"@));
    assert(tokens.drop_last() == seq!["a"@]);
    assert(tokens.drop_last().drop_last() == Seq::<Seq<char>>::empty());
    assert(tokens.drop_last().last() == "a"@);
    assert(tokens.last() == "b"@);
    assert(first_invalid_token(tokens.drop_last().drop_last()) is None);
    assert(first_invalid_token(tokens.drop_last()) is None);
    assert(first_invalid_token(tokens) is None);
}

/// A query with recognized keys only has no opaque parameters.
pub proof fn lemma_no_opaque_parameters(pairs: Seq<(Seq<char>, Seq<char>)>)
    requires
        forall|i: int| 0 <= i < pairs.len() ==> known_key((#[trigger] pairs[i]).0) is Some,
    ensures
        opaque_parameters(pairs).len() == 0,
    decreases pairs.len(),
{
    reveal(Seq::filter);
    if pairs.len() > 0 {
        lemma_no_opaque_parameters(pairs.drop_last());
    }
}

/// Opaque parameters are kept as they were sent: those of a query are those of its
/// parts, one part after the other, and a pair with an unrecognized key is its own and
/// only opaque parameter. So every such pair is kept, as often as it was sent, and in
/// the order in which it was sent.
pub proof fn law_opaque_parameters_are_preserved(
    front: Seq<(Seq<char>, Seq<char>)>,
    pair: (Seq<char>, Seq<char>),
    back: Seq<(Seq<char>, Seq<char>)>,
)
    requires
        known_key(pair.0) is None,
    ensures
        opaque_parameters(front.push(pair) + back) == opaque_parameters(front).push(pair)
            + opaque_parameters(back),
        authorization_request(front.push(pair) + back) matches Ok(request)
            ==> request.opaque_parameters == opaque_parameters(front).push(pair)
            + opaque_parameters(back),
{
    lemma_opaque_parameters_add(front.push(pair), back);
    lemma_opaque_parameters_add(front, seq![pair]);
    lemma_single_pair(pair);
    assert(front.push(pair) == front + seq![pair]);
}

/// Opaque parameters are never interpreted: with or without one of them, a query breaks
/// the same rule, or is the same request but for its opaque parameters.
pub proof fn law_opaque_parameters_are_not_interpreted(
    front: Seq<(Seq<char>, Seq<char>)>,
    pair: (Seq<char>, Seq<char>),
    back: Seq<(Seq<char>, Seq<char>)>,
)
    requires
        known_key(pair.0) is None,
    ensures
        recognized_parameters(front.push(pair) + back) == recognized_parameters(front + back),
        match authorization_request(front.push(pair) + back) {
            Ok(with) => authorization_request(front + back) == Ok::<RequestView, ErrorView>(
                RequestView { opaque_parameters: opaque_parameters(front + back), ..with },
            ),
            Err(error) => authorization_request(front + back) == Err::<RequestView, ErrorView>(
                error,
            ),
        },
{
    lemma_recognized_parameters_add(front.push(pair), back);
    lemma_recognized_parameters_add(front, seq![pair]);
    lemma_recognized_parameters_add(front, back);
    lemma_single_pair(pair);
    assert(front.push(pair) == front + seq![pair]);
    assert(recognized_parameters(front) + Seq::empty() == recognized_parameters(front));
}

/// An empty value is like no value. Where a recognized parameter is not sent, sending it
/// with an empty value, anywhere in the query, changes nothing.
pub proof fn law_empty_value_is_omission(
    front: Seq<(Seq<char>, Seq<char>)>,
    key: Seq<char>,
    back: Seq<(Seq<char>, Seq<char>)>,
)
    requires
        known_key(key) matches Some(param) && values_of(
            recognized_parameters(front + back),
            param,
        ).len() == 0,
    ensures
        authorization_request(front.push((key, Seq::empty())) + back) == authorization_request(
            front + back,
        ),
{
    let param = known_key(key).unwrap();
    let pair = (key, Seq::<char>::empty());
    let entry = (param, Seq::<char>::empty());
    let with = front.push(pair) + back;
    let without = front + back;
    let known_front = recognized_parameters(front);
    let known_back = recognized_parameters(back);
    lemma_recognized_parameters_add(front.push(pair), back);
    lemma_recognized_parameters_add(front, seq![pair]);
    lemma_recognized_parameters_add(front, back);
    lemma_single_pair(pair);
    assert(front.push(pair) == front + seq![pair]);
    assert(known_front + seq![entry] == known_front.push(entry));
    assert(recognized_parameters(with) == known_front.push(entry) + known_back);
    assert(recognized_parameters(without) == known_front + known_back);
    assert(opaque_parameters(with) == opaque_parameters(without)) by {
        lemma_opaque_parameters_add(front.push(pair), back);
        lemma_opaque_parameters_add(front, seq![pair]);
        lemma_opaque_parameters_add(front, back);
        assert(opaque_parameters(front) + Seq::empty() == opaque_parameters(front));
    }
    lemma_first_repeated_without(known_front, entry, known_back);
    assert forall|other: AuthorizationQueryParams|
        #![trigger values_of(recognized_parameters(with), other)]
        {
            &&& other != param ==> values_of(recognized_parameters(with), other) == values_of(
                recognized_parameters(without),
                other,
            )
            &&& other == param ==> values_of(recognized_parameters(with), other) == seq![
                Seq::<char>::empty(),
            ]
            &&& sent_value(recognized_parameters(with), other) == sent_value(
                recognized_parameters(without),
                other,
            )
        } by {
        lemma_values_of_add(known_front.push(entry), known_back, other);
        lemma_values_of_add(known_front, known_back, other);
        lemma_values_of_push(known_front, entry, other);
        if other == param {
            assert(values_of(known_front, other).len() == 0);
            assert(values_of(known_back, other).len() == 0);
            assert(values_of(recognized_parameters(with), other) == seq![
                Seq::<char>::empty(),
            ]);
        }
    }
    assert(resolved_target(recognized_parameters(with)) == resolved_target(
        recognized_parameters(without),
    ));
}

/// A recognized parameter that is sent twice, with any two values, is a repeated
/// parameter, once the redirect target is known: the error names the parameter of the
/// first repetition, which is one that was sent twice.
pub proof fn law_repeated_parameter(
    pairs: Seq<(Seq<char>, Seq<char>)>,
    param: AuthorizationQueryParams,
)
    requires
        resolved_target(recognized_parameters(pairs)) is Some,
        values_of(recognized_parameters(pairs), param).len() >= 2,
    ensures
        first_repeated(recognized_parameters(pairs)) matches Some(first) && values_of(
            recognized_parameters(pairs),
            first,
        ).len() >= 2 && first != AuthorizationQueryParams::RedirectUri
            && authorization_request(pairs) == Err::<RequestView, ErrorView>(
            ErrorView::RepeatedParameter(
                first.spec_name(),
                resolved_target(recognized_parameters(pairs)).unwrap(),
            ),
        ),
{
    lemma_first_repeated_sent_twice(recognized_parameters(pairs));
}

/// Where one recognized parameter is sent twice and no other is, the error names that
/// parameter.
pub proof fn law_only_repeated_parameter(
    pairs: Seq<(Seq<char>, Seq<char>)>,
    param: AuthorizationQueryParams,
)
    requires
        resolved_target(recognized_parameters(pairs)) is Some,
        values_of(recognized_parameters(pairs), param).len() >= 2,
        forall|other: AuthorizationQueryParams|
            other != param ==> #[trigger] values_of(recognized_parameters(pairs), other).len()
                <= 1,
    ensures
        authorization_request(pairs) == Err::<RequestView, ErrorView>(
            ErrorView::RepeatedParameter(
                param.spec_name(),
                resolved_target(recognized_parameters(pairs)).unwrap(),
            ),
        ),
{
    law_repeated_parameter(pairs, param);
}

/// A piece of the scope parameter that is no scope token makes the query an invalid
/// scope, once the rules before this one are met. The error carries the first such
/// piece, as it was sent.
pub proof fn law_invalid_scope_is_reported(
    pairs: Seq<(Seq<char>, Seq<char>)>,
    scope: Seq<char>,
    i: int,
)
    requires
        resolved_target(recognized_parameters(pairs)) is Some,
        first_repeated(recognized_parameters(pairs)) is None,
        sent_value(recognized_parameters(pairs), AuthorizationQueryParams::ResponseType)
            == Some("code"@),
        sent_value(recognized_parameters(pairs), AuthorizationQueryParams::ClientId) is Some,
        sent_value(recognized_parameters(pairs), AuthorizationQueryParams::Scope) == Some(scope),
        0 <= i < split_at_spaces(scope).len(),
        !is_scope_token(split_at_spaces(scope)[i]),
        forall|j: int| 0 <= j < i ==> is_scope_token(#[trigger] split_at_spaces(scope)[j]),
    ensures
        authorization_request(pairs) == Err::<RequestView, ErrorView>(
            ErrorView::InvalidScope(
                split_at_spaces(scope)[i],
                resolved_target(recognized_parameters(pairs)).unwrap(),
            ),
        ),
{
    law_invalid_scope(scope, i);
}

/// The first piece of a scope value that is no scope token is reported as it was sent,
/// and nothing after it is looked at.
pub proof fn law_invalid_scope(text: Seq<char>, i: int)
    requires
        text.len() > 0,
        0 <= i < split_at_spaces(text).len(),
        !is_scope_token(split_at_spaces(text)[i]),
        forall|j: int| 0 <= j < i ==> is_scope_token(#[trigger] split_at_spaces(text)[j]),
    ensures
        scope_list(text) == Err::<Seq<Seq<char>>, Seq<char>>(split_at_spaces(text)[i]),
{
    let tokens = split_at_spaces(text);
    lemma_first_invalid_token(tokens.take(i));
    assert(first_invalid_token(tokens.take(i)) is None) by {
        if let Some(token) = first_invalid_token(tokens.take(i)) {
            let at = choose|at: int|
                0 <= at < tokens.take(i).len() && #[trigger] tokens.take(i)[at] == token
                    && !is_scope_token(token);
            assert(is_scope_token(tokens[at]));
        }
    }
    assert(tokens.take(i + 1).drop_last() == tokens.take(i));
    assert(tokens.take(i + 1).last() == tokens[i]);
    lemma_first_invalid_token_stays(tokens, i + 1);
}

} // verus!
