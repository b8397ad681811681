//! The flow that an authorization request selects.
use crate::text::same_text;
use vstd::prelude::*;

verus! {

/// The response type of a request. The authorization code flow is the only one.
#[derive(Debug, Clone, Copy, PartialEq, Eq, Structural)]
pub enum ResponseType {
    Code,
}

/// A response type other than `code` was asked for.
#[derive(Debug, Clone, Copy, PartialEq, Eq, Structural)]
pub struct UnsupportedResponseType;

impl ResponseType {
    /// Accepts the literal `code` and nothing else: the comparison is exact, so `Code`
    /// or `code ` are refused.
    pub fn new(response_type: &str) -> (checked: Result<Self, UnsupportedResponseType>)
        ensures
            checked is Ok <==> response_type@ == "code"@,
    {
        if same_text(response_type, "code") {
            Ok(Self::Code)
        } else {
            Err(UnsupportedResponseType)
        }
    }
}

} // verus!
