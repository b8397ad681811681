//! The authorization request query and the parser that validates it.
//!
//! The redirect target is judged before anything else. Until it is known to be valid,
//! every failure is reported without a target; once it is, every failure carries it, so
//! that the client can be told through a redirect.
use crate::form::decoded_pairs;
use crate::opaque_parameters::{
    extract_opaque_parameters,
    opaque_parameters,
    recognized_parameters,
    OpaqueParameters,
};
use crate::params::AuthorizationQueryParams;
use crate::parsing::{
    decode_query,
    define_once,
    first_repeated,
    sent_value,
    value_under,
    values_of,
    ParsingError,
};
use crate::redirect_uri::{redirect_target, InvalidUri, RedirectTarget, RedirectUri};
use crate::response_type::ResponseType;
use crate::scope::{
    is_scope_token,
    lemma_first_invalid_token,
    scope_list,
    split_at_spaces,
    ScopeList,
};
use vstd::prelude::*;

verus! {

pub type ClientId = String;

pub type State = String;

/// A validated authorization request.
#[derive(Debug, PartialEq, Eq)]
pub struct AuthorizationRequestQuery {
    /// Every pair with an unrecognized key, as it was sent.
    pub opaque_parameters: OpaqueParameters,
    pub response_type: ResponseType,
    /// The client's identifier; never empty.
    pub client_id: ClientId,
    pub redirect_uri: RedirectUri,
    /// The requested scopes; none where the parameter was not sent.
    pub scope: ScopeList,
    /// The client's state, to be handed back as it came; never empty.
    pub state: Option<State>,
}

/// Why a query is no authorization request. A variant with a [`RedirectUri`] is
/// reported to the client through a redirect to that target; one without is reported
/// to the caller alone.
#[derive(Debug, PartialEq, Eq)]
pub enum AuthorizationQueryParsingError {
    /// A response type other than `code` was asked for.
    UnsupportedResponseType(RedirectUri),
    /// The query is not in `application/x-www-form-urlencoded` form.
    ParsingError,
    /// The parameter of this name was sent more than once.
    RepeatedParameter(&'static str, RedirectUri),
    /// The required parameter of this name was not sent, or sent empty.
    MissingParameter(&'static str, RedirectUri),
    /// This piece of the scope parameter is no scope token.
    InvalidScope(String, RedirectUri),
    /// The redirect target is missing, repeated or invalid.
    InvalidUri,
}

/// [`AuthorizationRequestQuery`] as specifications see it.
pub ghost struct RequestView {
    pub opaque_parameters: Seq<(Seq<char>, Seq<char>)>,
    pub response_type: ResponseType,
    pub client_id: Seq<char>,
    pub redirect_uri: RedirectTarget,
    pub scope: Seq<Seq<char>>,
    pub state: Option<Seq<char>>,
}

/// [`AuthorizationQueryParsingError`] as specifications see it.
pub ghost enum ErrorView {
    UnsupportedResponseType(RedirectTarget),
    ParsingError,
    RepeatedParameter(Seq<char>, RedirectTarget),
    MissingParameter(Seq<char>, RedirectTarget),
    InvalidScope(Seq<char>, RedirectTarget),
    InvalidUri,
}

impl RequestView {
    /// What holds of every validated request.
    pub open spec fn wf(self) -> bool {
        &&& self.client_id.len() > 0
        &&& self.state matches Some(state) ==> state.len() > 0
        &&& forall|i: int| 0 <= i < self.scope.len() ==> is_scope_token(#[trigger] self.scope[i])
    }
}

impl ErrorView {
    /// The redirect target that the error carries.
    pub open spec fn target(self) -> Option<RedirectTarget> {
        match self {
            ErrorView::UnsupportedResponseType(target) => Some(target),
            ErrorView::ParsingError => None,
            ErrorView::RepeatedParameter(_, target) => Some(target),
            ErrorView::MissingParameter(_, target) => Some(target),
            ErrorView::InvalidScope(_, target) => Some(target),
            ErrorView::InvalidUri => None,
        }
    }
}

impl View for AuthorizationRequestQuery {
    type V = RequestView;

    open spec fn view(&self) -> RequestView {
        RequestView {
            opaque_parameters: self.opaque_parameters@,
            response_type: self.response_type,
            client_id: self.client_id@,
            redirect_uri: self.redirect_uri@,
            scope: self.scope@,
            state: match self.state {
                Some(state) => Some(state@),
                None => None,
            },
        }
    }
}

impl View for AuthorizationQueryParsingError {
    type V = ErrorView;

    open spec fn view(&self) -> ErrorView {
        match self {
            Self::UnsupportedResponseType(target) => ErrorView::UnsupportedResponseType(target@),
            Self::ParsingError => ErrorView::ParsingError,
            Self::RepeatedParameter(name, target) => ErrorView::RepeatedParameter(
                name@,
                target@,
            ),
            Self::MissingParameter(name, target) => ErrorView::MissingParameter(name@, target@),
            Self::InvalidScope(token, target) => ErrorView::InvalidScope(token@, target@),
            Self::InvalidUri => ErrorView::InvalidUri,
        }
    }
}

/// The outcome of a parse as specifications see it.
pub open spec fn outcome(
    parsed: Result<AuthorizationRequestQuery, AuthorizationQueryParsingError>,
) -> Result<RequestView, ErrorView> {
    match parsed {
        Ok(request) => Ok(request@),
        Err(error) => Err(error@),
    }
}

/// The redirect target of a query: the value of its `redirect_uri` parameter, where
/// that was sent exactly once, is not empty and names a redirect target.
pub open spec fn resolved_target(known: Seq<(AuthorizationQueryParams, Seq<char>)>) -> Option<
    RedirectTarget,
> {
    let values = values_of(known, AuthorizationQueryParams::RedirectUri);
    if values.len() == 1 && values[0].len() > 0 {
        redirect_target(values[0])
    } else {
        None
    }
}

/// What a query with the decoded pairs `pairs` is: an authorization request, or the
/// first rule that it breaks. The rules, in the order in which they are judged:
///
/// 1. the redirect target is sent once and valid;
/// 2. no recognized parameter is sent twice;
/// 3. the response type is sent,
/// 4. and is `code`;
/// 5. the client's identifier is sent;
/// 6. the scope, if sent, is a list of scope tokens.
pub open spec fn authorization_request(pairs: Seq<(Seq<char>, Seq<char>)>) -> Result<
    RequestView,
    ErrorView,
> {
    let known = recognized_parameters(pairs);
    match resolved_target(known) {
        None => Err(ErrorView::InvalidUri),
        Some(target) => match first_repeated(known) {
            Some(param) => Err(ErrorView::RepeatedParameter(param.spec_name(), target)),
            None => match sent_value(known, AuthorizationQueryParams::ResponseType) {
                None => Err(
                    ErrorView::MissingParameter(
                        AuthorizationQueryParams::ResponseType.spec_name(),
                        target,
                    ),
                ),
                Some(response_type) => if response_type != "code"@ {
                    Err(ErrorView::UnsupportedResponseType(target))
                } else {
                    match sent_value(known, AuthorizationQueryParams::ClientId) {
                        None => Err(
                            ErrorView::MissingParameter(
                                AuthorizationQueryParams::ClientId.spec_name(),
                                target,
                            ),
                        ),
                        Some(client_id) => match scope_list(
                            match sent_value(known, AuthorizationQueryParams::Scope) {
                                Some(scope) => scope,
                                None => Seq::empty(),
                            },
                        ) {
                            Err(token) => Err(ErrorView::InvalidScope(token, target)),
                            Ok(scope) => Ok(
                                RequestView {
                                    opaque_parameters: opaque_parameters(pairs),
                                    response_type: ResponseType::Code,
                                    client_id,
                                    redirect_uri: target,
                                    scope,
                                    state: sent_value(known, AuthorizationQueryParams::State),
                                },
                            ),
                        },
                    }
                },
            },
        },
    }
}

/// What a raw query is: an authorization request, or the first rule that it breaks. A
/// query that does not decode breaks the first rule of all.
pub open spec fn query_outcome(query: Seq<char>) -> Result<RequestView, ErrorView> {
    match decoded_pairs(query) {
        Some(pairs) => authorization_request(pairs),
        None => Err(ErrorView::ParsingError),
    }
}

/// A request that passed validation has a client identifier, a state that is not empty
/// if it has one, scope tokens for scopes, and the redirect target that the query named.
pub proof fn lemma_request_is_well_formed(pairs: Seq<(Seq<char>, Seq<char>)>)
    ensures
        authorization_request(pairs) matches Ok(request) ==> request.wf() && resolved_target(
            recognized_parameters(pairs),
        ) == Some(request.redirect_uri),
{
    if let Ok(request) = authorization_request(pairs) {
        let known = recognized_parameters(pairs);
        let scope = match sent_value(known, AuthorizationQueryParams::Scope) {
            Some(scope) => scope,
            None => Seq::empty(),
        };
        assert(scope_list(scope) == Ok::<Seq<Seq<char>>, Seq<char>>(request.scope));
        if scope.len() > 0 {
            lemma_first_invalid_token(split_at_spaces(scope));
        }
    }
}

/// Finds and validates the redirect target among the recognized parameters.
pub fn resolve_redirect_uri(known: &Vec<(AuthorizationQueryParams, String)>) -> (resolved: Result<
    RedirectUri,
    InvalidUri,
>)
    ensures
        match resolved {
            Ok(target) => resolved_target(known.deep_view()) == Some(target@),
            Err(_) => resolved_target(known.deep_view()) is None,
        },
{
    let ghost entries = known.deep_view();
    let ghost under = value_under(AuthorizationQueryParams::RedirectUri);
    let mut found: Option<usize> = None;
    let mut repeated = false;
    let mut i: usize = 0;
    while i < known.len()
        invariant
            i <= known@.len(),
            entries == known.deep_view(),
            under == value_under(AuthorizationQueryParams::RedirectUri),
            repeated ==> entries.take(i as int).filter_map(under).len() >= 2,
            !repeated ==> match found {
                Some(at) => at < i && entries.take(i as int).filter_map(under) == seq![
                    known@[at as int].1@,
                ],
                None => entries.take(i as int).filter_map(under).len() == 0,
            },
        decreases known@.len() - i,
    {
        proof {
            entries.lemma_filter_map_take_succ(under, i as int);
        }
        if known[i].0 == AuthorizationQueryParams::RedirectUri {
            if found.is_some() {
                repeated = true;
            } else {
                found = Some(i);
            }
        }
        i = i + 1;
    }
    assert(entries.take(i as int) == entries);
    if repeated {
        return Err(InvalidUri);
    }
    match found {
        None => Err(InvalidUri),
        Some(at) => {
            let value = known[at].1.as_str();
            if value.is_empty() {
                Err(InvalidUri)
            } else {
                RedirectUri::new(value)
            }
        },
    }
}

/// Validates the decoded pairs of a query: see [`authorization_request`].
pub fn parse_pairs(pairs: Vec<(String, String)>) -> (parsed: Result<
    AuthorizationRequestQuery,
    AuthorizationQueryParsingError,
>)
    ensures
        outcome(parsed) == authorization_request(pairs.deep_view()),
        parsed matches Ok(request) ==> request@.wf(),
{
    proof {
        lemma_request_is_well_formed(pairs.deep_view());
    }
    let (opaque, known) = extract_opaque_parameters(pairs);
    let redirect_uri = match resolve_redirect_uri(&known) {
        Ok(target) => target,
        Err(_) => return Err(AuthorizationQueryParsingError::InvalidUri),
    };
    let values = match define_once(known) {
        Ok(values) => values,
        Err(ParsingError::RepeatedParameter(name)) => {
            return Err(AuthorizationQueryParsingError::RepeatedParameter(name, redirect_uri));
        },
        Err(ParsingError::ParsingError) => {
            return Err(AuthorizationQueryParsingError::ParsingError);
        },
    };
    proof {
        let entries = known.deep_view();
        assert(values.value(AuthorizationQueryParams::ResponseType) == sent_value(
            entries,
            AuthorizationQueryParams::ResponseType,
        ));
        assert(values.value(AuthorizationQueryParams::ClientId) == sent_value(
            entries,
            AuthorizationQueryParams::ClientId,
        ));
        assert(values.value(AuthorizationQueryParams::Scope) == sent_value(
            entries,
            AuthorizationQueryParams::Scope,
        ));
        assert(values.value(AuthorizationQueryParams::State) == sent_value(
            entries,
            AuthorizationQueryParams::State,
        ));
    }
    let response_type = match values.response_type {
        None => {
            return Err(
                AuthorizationQueryParsingError::MissingParameter(
                    AuthorizationQueryParams::ResponseType.name(),
                    redirect_uri,
                ),
            );
        },
        Some(response_type) => match ResponseType::new(response_type.as_str()) {
            Ok(response_type) => response_type,
            Err(_) => {
                return Err(AuthorizationQueryParsingError::UnsupportedResponseType(redirect_uri));
            },
        },
    };
    let client_id = match values.client_id {
        Some(client_id) => client_id,
        None => {
            return Err(
                AuthorizationQueryParsingError::MissingParameter(
                    AuthorizationQueryParams::ClientId.name(),
                    redirect_uri,
                ),
            );
        },
    };
    let scope = match values.scope {
        Some(scope) => scope,
        None => String::new(),
    };
    let scope = match ScopeList::try_from(scope.as_str()) {
        Ok(scope) => scope,
        Err(invalid) => {
            return Err(AuthorizationQueryParsingError::InvalidScope(invalid.0, redirect_uri));
        },
    };
    Ok(
        AuthorizationRequestQuery {
            opaque_parameters: OpaqueParameters(opaque),
            response_type,
            client_id,
            redirect_uri,
            scope,
            state: values.state,
        },
    )
}

/// Validates a raw, still percent-encoded query. A query that does not decode is a
/// [`AuthorizationQueryParsingError::ParsingError`]; one that does is judged by its
/// pairs: see [`parse_pairs`].
pub fn parse_query(query: &str) -> (parsed: Result<
    AuthorizationRequestQuery,
    AuthorizationQueryParsingError,
>)
    ensures
        outcome(parsed) == query_outcome(query@),
        parsed matches Ok(request) ==> request@.wf(),
{
    match decode_query(query) {
        Ok(pairs) => parse_pairs(pairs),
        Err(_) => Err(AuthorizationQueryParsingError::ParsingError),
    }
}

impl std::str::FromStr for AuthorizationRequestQuery {
    type Err = AuthorizationQueryParsingError;

    /// The same as [`parse_query`].
    fn from_str(query: &str) -> (parsed: Result<Self, AuthorizationQueryParsingError>)
        ensures
            outcome(parsed) == query_outcome(query@),
            parsed matches Ok(request) ==> request@.wf(),
    {
        parse_query(query)
    }
}

} // verus!
