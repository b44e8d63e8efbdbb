//! The calls into `data_encoding`'s padded Base64 encoding (RFC 4648), and
//! what this library relies on of them.

use data_encoding::{DecodeError, DecodePartial, BASE64};
use vstd::prelude::*;

verus! {

#[verifier::external_type_specification]
#[verifier::external_body]
pub struct ExDecodeError(DecodeError);

#[verifier::external_type_specification]
#[verifier::external_body]
pub struct ExDecodePartial(DecodePartial);

/// Length of the padded Base64 encoding of `len` bytes: four symbols for each
/// started group of three bytes.
pub open spec fn encoded_len(len: nat) -> nat {
    ((len + 2) / 3 * 4) as nat
}

/// Length of the buffer that decoding `len` symbols needs: three bytes for
/// each group of four symbols.
pub open spec fn decoded_len(len: nat) -> nat {
    len / 4 * 3
}

/// The padded Base64 encoding of `input`, as `data_encoding::BASE64` writes it.
pub uninterp spec fn base64_encoded(input: Seq<u8>) -> Seq<u8>;

/// The bytes that `data_encoding::BASE64` decodes from `input`, or `None`
/// where it rejects `input`.
pub uninterp spec fn base64_decoded(input: Seq<u8>) -> Option<Seq<u8>>;

/// `BASE64.encode_len(len)`: four symbols for each started group of three
/// bytes. The crate asserts `len <= usize::MAX / 512`, hence the `requires`.
#[verifier::external_body]
pub(crate) fn base64_encode_len(len: usize) -> (n: usize)
    requires
        len <= usize::MAX / 512,
    ensures
        n == encoded_len(len as nat),
{
    BASE64.encode_len(len)
}

/// `BASE64.encode_mut(input, &mut output[..len])`: writes the encoding of
/// `input` over the first `len` bytes of `output`, which must be its encoded
/// length (the crate asserts so), and leaves the rest of `output` alone.
#[verifier::external_body]
pub(crate) fn base64_encode_into(input: &[u8], output: &mut [u8], len: usize)
    requires
        input@.len() <= usize::MAX / 512,
        len == encoded_len(input@.len()),
        len <= old(output)@.len(),
    ensures
        final(output)@.len() == old(output)@.len(),
        final(output)@.take(len as int) == base64_encoded(input@),
        final(output)@.skip(len as int) == old(output)@.skip(len as int),
{
    BASE64.encode_mut(input, &mut output[..len])
}

/// `BASE64.decode_len(len)`: the symbols come in groups of four, so a length
/// that is a multiple of four gives three bytes per group and any other
/// length is refused. The crate asserts `len <= usize::MAX / 8`. Not stated:
/// the position and kind held in the error.
#[verifier::external_body]
pub(crate) fn base64_decode_len(len: usize) -> (res: Result<usize, DecodeError>)
    requires
        len <= usize::MAX / 8,
    ensures
        match res {
            Ok(n) => len % 4 == 0 && n == decoded_len(len as nat),
            Err(_) => len % 4 != 0,
        },
{
    BASE64.decode_len(len)
}

/// `BASE64.decode_mut(input, &mut output[..len])`, where `len` is the decoded
/// length of `input` (the crate asserts so). On success it returns how many
/// bytes it decoded, which stand at the front of `output`; nothing past `len`
/// is touched. The crate documents that encoding followed by decoding gives
/// the initial data; its source shows that, for such an input, the bytes of
/// the window after the decoded ones are not written either. Not stated: what
/// the window holds after a failure, and the contents of the error.
#[verifier::external_body]
pub(crate) fn base64_decode_into(input: &[u8], output: &mut [u8], len: usize) -> (res: Result<usize, DecodePartial>)
    requires
        input@.len() <= usize::MAX / 8,
        input@.len() % 4 == 0,
        len == decoded_len(input@.len()),
        len <= old(output)@.len(),
    ensures
        final(output)@.len() == old(output)@.len(),
        final(output)@.skip(len as int) == old(output)@.skip(len as int),
        match res {
            Ok(n) => n <= len && base64_decoded(input@) == Some(final(output)@.take(n as int)),
            Err(_) => base64_decoded(input@) is None,
        },
        forall|x: Seq<u8>|
            base64_encoded(x) == input@ ==> res is Ok && res->Ok_0 == x.len(),
        forall|x: Seq<u8>|
            base64_encoded(x) == input@ ==> final(output)@.take(x.len() as int) == x,
        forall|x: Seq<u8>|
            base64_encoded(x) == input@ ==> final(output)@.skip(x.len() as int)
                == old(output)@.skip(x.len() as int),
{
    BASE64.decode_mut(input, &mut output[..len])
}

} // verus!
