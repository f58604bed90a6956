//! The one place that calls the serializer on plain values.

use vstd::prelude::*;

verus! {

/// The serializer's error, as an opaque value.
#[verifier::external_type_specification]
#[verifier::external_body]
pub struct ExPostcardError(postcard::Error);

/// Serializes a number by `postcard::to_stdvec`. Growing a vector never fails, and
/// an unsigned number is written as a varint.
#[verifier::external_body]
pub(crate) fn postcard_u64(value: u64) -> (out: Result<Vec<u8>, postcard::Error>)
    ensures
        out is Ok,
        out->Ok_0@ == crate::bytes::varint(value as nat),
{
    postcard::to_stdvec(&value)
}

/// The text that the `Display` of `postcard::Error` renders, named: it depends on the
/// error alone, and is a line of its own for each kind of error.
pub uninterp spec fn postcard_error_chars(error: postcard::Error) -> Seq<char>;

/// Renders a serializer error by the `Display` of `postcard::Error`, whose text the
/// name above stands for.
#[verifier::external_body]
pub(crate) fn postcard_error_text(error: postcard::Error) -> (text: String)
    ensures
        text@ == postcard_error_chars(error),
{
    error.to_string()
}

} // verus!
