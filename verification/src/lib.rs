//! Validation of the query string of an OAuth 2.0 authorization request.
//!
//! The entry point is [`parse_query`]: it decodes a raw, still percent-encoded query
//! string and yields either an [`AuthorizationRequestQuery`] or an
//! [`AuthorizationQueryParsingError`]. The error says by its variant whether a validated
//! redirect target is known; [`AuthorizationQueryParsingError::into_response`] turns it
//! into the status, `Location` and body that the caller has to send.
pub mod form;
pub mod laws;
pub mod opaque_parameters;
pub mod params;
pub mod parsing;
pub mod query;
pub mod redirect_uri;
pub mod response;
pub mod response_type;
pub mod scope;
pub mod text;

pub use opaque_parameters::OpaqueParameters;
pub use params::AuthorizationQueryParams;
pub use parsing::ParsingError;
pub use query::{
    parse_pairs, parse_query, AuthorizationQueryParsingError, AuthorizationRequestQuery,
};
pub use redirect_uri::{InvalidUri, ParsedUrl, RedirectUri};
pub use response::ErrorResponse;
pub use response_type::{ResponseType, UnsupportedResponseType};
pub use scope::{InvalidScope, Scope, ScopeList};
