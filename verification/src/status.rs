//! HTTP status codes.
use crate::decimal::decimal;
use crate::text::opt_text;
use vstd::prelude::*;

verus! {

/// A number that is an HTTP status code: one of three digits.
pub open spec fn status_code(status: u16) -> bool {
    100 <= status <= 999
}

/// A status that means success: from 200 to 299.
pub open spec fn success(status: u16) -> bool {
    200 <= status <= 299
}

/// Whether `status` means success.
pub fn is_success(status: u16) -> (r: bool)
    ensures
        r == success(status),
{
    200 <= status && status <= 299
}

/// The status code `status` with its canonical reason, where it is a status code.
pub uninterp spec fn status_words(status: u16) -> Option<Seq<char>>;

/// `StatusCode::from_u16` of `reqwest` (which has it from the `http` crate), and the text
/// that `to_string` gives of the code. Only numbers of three digits are status codes; the
/// text is the number, a space and the reason. Which reason belongs to which number is
/// left to the name.
#[verifier::external_body]
pub(crate) fn status_text(status: u16) -> (text: Option<String>)
    ensures
        opt_text(text) == status_words(status),
        text is Some <==> status_code(status),
        text matches Some(words) ==> decimal(status as nat).push(' ').is_prefix_of(words@),
{
    reqwest::StatusCode::from_u16(status).ok().map(|code| code.to_string())
}

} // verus!
