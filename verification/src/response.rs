//! What the caller has to answer when a query is no authorization request.
//!
//! An error that carries a redirect target is answered with `303 See Other` and a
//! `Location` that is the target with `error=<code>` appended to its query. An error
//! that carries none is answered with `400 Bad Request` and no `Location`: nothing is
//! ever sent to a target that did not pass validation. Nothing but the error code is
//! added to the target: the state of the request, in particular, is not sent along.
use crate::form::{encode_pairs, encoded_pairs};
use crate::query::{AuthorizationQueryParsingError, ErrorView};
use crate::redirect_uri::{copy_pairs, join_url, joined_url, RedirectTarget, RedirectUri};
use vstd::prelude::*;
use vstd::string::StringExecFns;

verus! {

/// `400 Bad Request`.
pub const BAD_REQUEST: u16 = 400;

/// `303 See Other`.
pub const SEE_OTHER: u16 = 303;

/// The answer to a query that is no authorization request.
#[derive(Debug, PartialEq, Eq)]
pub struct ErrorResponse {
    /// The HTTP status: [`SEE_OTHER`] or [`BAD_REQUEST`].
    pub status: u16,
    /// The value of the `Location` header, where there is one.
    pub location: Option<String>,
    /// A diagnostic for a human reader. It is not meant to be parsed.
    pub body: String,
}

/// [`ErrorResponse`] as specifications see it.
pub ghost struct ResponseView {
    pub status: u16,
    pub location: Option<Seq<char>>,
    pub body: Seq<char>,
}

impl View for ErrorResponse {
    type V = ResponseView;

    open spec fn view(&self) -> ResponseView {
        ResponseView {
            status: self.status,
            location: match self.location {
                Some(location) => Some(location@),
                None => None,
            },
            body: self.body@,
        }
    }
}

/// `text` as the `{:?}` format of the standard library writes a string: in double
/// quotes, with escapes.
pub uninterp spec fn debug_text(text: Seq<char>) -> Seq<char>;

/// Formats `text` with `{:?}`. The standard library's `Debug` for `str` reads nothing
/// but the text, so the outcome is [`debug_text`] of it; nothing more is claimed.
#[verifier::external_body]
fn debug_quoted(text: &str) -> (quoted: String)
    ensures
        quoted@ == debug_text(text@),
{
    format!("{:?}", text)
}

impl ErrorView {
    /// The error code that the client is told.
    pub open spec fn standard_error_text(self) -> Seq<char> {
        match self {
            ErrorView::UnsupportedResponseType(_) => "unsupported_response_type"@,
            ErrorView::MissingParameter(_, _) => "invalid_request"@,
            ErrorView::RepeatedParameter(_, _) => "invalid_request"@,
            ErrorView::ParsingError => "invalid_request"@,
            ErrorView::InvalidScope(_, _) => "invalid_scope"@,
            ErrorView::InvalidUri => "server_error"@,
        }
    }

    /// The status that the error calls for: a redirect where it carries a target. The
    /// answer has this status unless no `Location` can be written, see
    /// [`Self::response`].
    pub open spec fn status(self) -> u16 {
        if self.target() is Some {
            SEE_OTHER
        } else {
            BAD_REQUEST
        }
    }

    /// The diagnostic for a human reader.
    pub open spec fn message(self) -> Seq<char> {
        match self {
            ErrorView::UnsupportedResponseType(_) =>
                "only the \"code\" response_type is supported"@,
            ErrorView::ParsingError => "the query is not in urlencoded format"@,
            ErrorView::RepeatedParameter(name, _) => "parameter "@ + debug_text(name)
                + " sent more than once"@,
            ErrorView::MissingParameter(name, _) => "missing parameter "@ + debug_text(name),
            ErrorView::InvalidScope(token, _) => "invalid scope format on `"@ + debug_text(token)
                + "`. check section 3.3 of RFC 6749 for the allowed characters"@,
            ErrorView::InvalidUri => "the redirect_uri is invalid"@,
        }
    }

    /// The answer to the error, given the `Location` that could be written for it: a
    /// redirect where there is one, and `400 Bad Request` where there is none.
    pub open spec fn response_with(self, location: Option<Seq<char>>) -> ResponseView {
        ResponseView {
            status: if location is Some {
                SEE_OTHER
            } else {
                BAD_REQUEST
            },
            location,
            body: self.message(),
        }
    }

    /// The answer to the error. An error without a redirect target has no `Location`;
    /// for one with a target, see [`redirect_location`].
    pub open spec fn response(self) -> ResponseView {
        self.response_with(
            match self.target() {
                Some(target) => redirect_location(target, self.standard_error_text()),
                None => None,
            },
        )
    }
}

/// The target with `query` in the place of its query component. `None` where the
/// result is no URL.
pub open spec fn target_with_query(target: RedirectTarget, query: Seq<char>) -> Option<
    Seq<char>,
> {
    joined_url(target.href, "?"@ + query)
}

/// Where the client is sent to learn of the error `code`: the pairs of the target's
/// query with `error=<code>` after them, encoded anew, take the place of the target's
/// query. `None` where the pairs cannot be encoded or the result is no URL.
pub open spec fn redirect_location(target: RedirectTarget, code: Seq<char>) -> Option<Seq<char>> {
    match encoded_pairs(target.query.push(("error"@, code))) {
        None => None,
        Some(query) => target_with_query(target, query),
    }
}

impl RedirectUri {
    /// Writes the target with `query` in the place of its query component: see
    /// [`target_with_query`].
    pub fn with_query(&self, query: &str) -> (location: Option<String>)
        ensures
            match location {
                Some(href) => target_with_query(self@, query@) == Some(href@),
                None => target_with_query(self@, query@) is None,
            },
    {
        let mut reference = "?".to_owned();
        reference.append(query);
        match join_url(self.get(), reference.as_str()) {
            Ok(location) => Some(location),
            Err(_) => None,
        }
    }

    /// Writes the `Location` for the error `code`: see [`redirect_location`].
    pub fn error_location(&self, code: &str) -> (location: Option<String>)
        ensures
            match location {
                Some(href) => redirect_location(self@, code@) == Some(href@),
                None => redirect_location(self@, code@) is None,
            },
    {
        let mut query = copy_pairs(self.query_pairs());
        let ghost before = query.deep_view();
        query.push(("error".to_owned(), code.to_owned()));
        assert(query.deep_view() == before.push(("error"@, code@)));
        match encode_pairs(&query) {
            Ok(encoded) => self.with_query(encoded.as_str()),
            Err(_) => None,
        }
    }
}

impl AuthorizationQueryParsingError {
    /// The error code that the client is told.
    pub fn standard_error_text(&self) -> (code: &'static str)
        ensures
            code@ == self@.standard_error_text(),
    {
        match self {
            Self::UnsupportedResponseType(_) => "unsupported_response_type",
            Self::MissingParameter(_, _) | Self::RepeatedParameter(_, _) | Self::ParsingError =>
                "invalid_request",
            Self::InvalidScope(_, _) => "invalid_scope",
            Self::InvalidUri => "server_error",
        }
    }

    /// The status that the error calls for: [`SEE_OTHER`] where it carries a redirect
    /// target, [`BAD_REQUEST`] where it carries none. The answer has this status unless
    /// no `Location` can be written, see [`Self::as_response`].
    pub fn status(&self) -> (status: u16)
        ensures
            status == self@.status(),
    {
        match self {
            Self::InvalidUri | Self::ParsingError => BAD_REQUEST,
            _ => SEE_OTHER,
        }
    }

    /// The diagnostic for a human reader.
    pub fn message(&self) -> (message: String)
        ensures
            message@ == self@.message(),
    {
        match self {
            Self::UnsupportedResponseType(_) =>
                "only the \"code\" response_type is supported".to_owned(),
            Self::ParsingError => "the query is not in urlencoded format".to_owned(),
            Self::RepeatedParameter(name, _) => {
                let mut message = "parameter ".to_owned();
                message.append(debug_quoted(name).as_str());
                message.append(" sent more than once");
                message
            },
            Self::MissingParameter(name, _) => {
                let mut message = "missing parameter ".to_owned();
                message.append(debug_quoted(name).as_str());
                message
            },
            Self::InvalidScope(token, _) => {
                let mut message = "invalid scope format on `".to_owned();
                message.append(debug_quoted(token.as_str()).as_str());
                message.append("`. check section 3.3 of RFC 6749 for the allowed characters");
                message
            },
            Self::InvalidUri => "the redirect_uri is invalid".to_owned(),
        }
    }

    /// The redirect target that the error carries.
    pub fn target(&self) -> (target: Option<&RedirectUri>)
        ensures
            match target {
                Some(target) => self@.target() == Some(target@),
                None => self@.target() is None,
            },
    {
        match self {
            Self::UnsupportedResponseType(target) => Some(target),
            Self::ParsingError => None,
            Self::RepeatedParameter(_, target) => Some(target),
            Self::MissingParameter(_, target) => Some(target),
            Self::InvalidScope(_, target) => Some(target),
            Self::InvalidUri => None,
        }
    }

    /// The answer to the error, given the `Location` that could be written for it: see
    /// [`ErrorView::response_with`].
    pub fn respond(&self, location: Option<String>) -> (response: ErrorResponse)
        ensures
            response@ == self@.response_with(
                match location {
                    Some(location) => Some(location@),
                    None => None,
                },
            ),
    {
        let body = self.message();
        match location {
            Some(location) => ErrorResponse { status: SEE_OTHER, location: Some(location), body },
            None => ErrorResponse { status: BAD_REQUEST, location: None, body },
        }
    }

    /// The answer to the error: see [`ErrorView::response`].
    pub fn as_response(&self) -> (response: ErrorResponse)
        ensures
            response@ == self@.response(),
    {
        let location = match self.target() {
            Some(target) => target.error_location(self.standard_error_text()),
            None => None,
        };
        self.respond(location)
    }

    /// The answer to the error: the same as [`Self::as_response`].
    pub fn into_response(self) -> (response: ErrorResponse)
        ensures
            response@ == self@.response(),
    {
        self.as_response()
    }
}

} // verus!
