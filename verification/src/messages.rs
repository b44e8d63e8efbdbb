//! The error messages, which `format!` writes.

use data_encoding::{DecodeError, DecodePartial};
use vstd::prelude::*;

verus! {

/// The decimal digit for `d`, where `d < 10`.
pub open spec fn digit_char(d: nat) -> char {
    ('0' as nat + d) as char
}

/// The decimal notation of `n`, as `Display` writes an unsigned integer.
pub open spec fn decimal(n: nat) -> Seq<char>
    decreases n,
{
    if n < 10 {
        seq![digit_char(n)]
    } else {
        decimal(n / 10).push(digit_char(n % 10))
    }
}

/// The text of the error for an encode buffer shorter than the encoding.
pub open spec fn encode_too_small_text(need: nat, have: nat) -> Seq<char> {
    "Encode buffer too small: need "@ + decimal(need) + ", have "@ + decimal(have)
}

/// The text of the error for a decode buffer shorter than the decoded length.
pub open spec fn decode_too_small_text(need: nat, have: nat) -> Seq<char> {
    "Decode buffer too small: need "@ + decimal(need) + ", have "@ + decimal(have)
}

/// `format!` of the encode-buffer error, with both lengths in decimal.
#[verifier::external_body]
pub(crate) fn encode_too_small_message(need: usize, have: usize) -> (msg: String)
    ensures
        msg@ == encode_too_small_text(need as nat, have as nat),
{
    format!("Encode buffer too small: need {}, have {}", need, have)
}

/// `format!` of the decode-buffer error, with both lengths in decimal.
#[verifier::external_body]
pub(crate) fn decode_too_small_message(need: usize, have: usize) -> (msg: String)
    ensures
        msg@ == decode_too_small_text(need as nat, have as nat),
{
    format!("Decode buffer too small: need {}, have {}", need, have)
}

/// `format!` of a refused encoded length; the rest of the text is what
/// `DecodeError`'s `Display` writes, which is not stated.
#[verifier::external_body]
pub(crate) fn invalid_length_message(e: &DecodeError) -> (msg: String)
    ensures
        "Invalid encoded length: "@.is_prefix_of(msg@),
{
    format!("Invalid encoded length: {e}")
}

/// `format!` of a failed decoding; the rest of the text is what
/// `DecodePartial`'s `Debug` writes, which is not stated.
#[verifier::external_body]
pub(crate) fn decode_failed_message(e: &DecodePartial) -> (msg: String)
    ensures
        "Decode failed: "@.is_prefix_of(msg@),
{
    format!("Decode failed: {e:?}")
}

} // verus!
