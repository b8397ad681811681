//! Key/value pairs in `application/x-www-form-urlencoded` form.
//!
//! Reading and writing the format is the work of `serde_urlencoded`. This module gives
//! each of the two directions a name, so that the rest of the library can say what it
//! hands to the codec and what it does with the answer.
use vstd::prelude::*;

verus! {

/// The error of `serde_urlencoded::from_str`.
#[verifier::external_type_specification]
#[verifier::external_body]
pub struct ExDecodeError(serde_urlencoded::de::Error);

/// The error of `serde_urlencoded::to_string`.
#[verifier::external_type_specification]
#[verifier::external_body]
pub struct ExEncodeError(serde_urlencoded::ser::Error);

/// The pairs that `serde_urlencoded::from_str` reads from `text`, in the order and
/// number in which they stand there; `None` where it reports an error.
pub uninterp spec fn decoded_pairs(text: Seq<char>) -> Option<Seq<(Seq<char>, Seq<char>)>>;

/// The text that `serde_urlencoded::to_string` writes for `pairs`; `None` where it
/// reports an error.
pub uninterp spec fn encoded_pairs(pairs: Seq<(Seq<char>, Seq<char>)>) -> Option<Seq<char>>;

/// Calls `serde_urlencoded::from_str` for a list of pairs of strings. The call reads
/// nothing but `text`, so its outcome is [`decoded_pairs`] of it; nothing more is
/// claimed.
#[verifier::external_body]
pub(crate) fn decode_pairs(text: &str) -> (decoded: Result<
    Vec<(String, String)>,
    serde_urlencoded::de::Error,
>)
    ensures
        match decoded {
            Ok(pairs) => decoded_pairs(text@) == Some(pairs.deep_view()),
            Err(_) => decoded_pairs(text@) is None,
        },
{
    serde_urlencoded::from_str::<Vec<(String, String)>>(text)
}

/// Calls `serde_urlencoded::to_string` on a list of pairs of strings. The call reads
/// nothing but `pairs`, so its outcome is [`encoded_pairs`] of them; nothing more is
/// claimed.
#[verifier::external_body]
pub(crate) fn encode_pairs(pairs: &Vec<(String, String)>) -> (encoded: Result<
    String,
    serde_urlencoded::ser::Error,
>)
    ensures
        match encoded {
            Ok(text) => encoded_pairs(pairs.deep_view()) == Some(text@),
            Err(_) => encoded_pairs(pairs.deep_view()) is None,
        },
{
    serde_urlencoded::to_string(pairs)
}

} // verus!
