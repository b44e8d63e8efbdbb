//! Encoding bytes to Base64, decoding them back, and comparing the result
//! with the input.

use crate::codec::{
    base64_decode_into, base64_decode_len, base64_encode_into, base64_encode_len, base64_decoded,
    base64_encoded, decoded_len, encoded_len,
};
use crate::messages::{
    decode_failed_message, decode_too_small_message, decode_too_small_text,
    encode_too_small_message, encode_too_small_text, invalid_length_message,
};
use crate::trim::{
    bytes_equal, lemma_trimmed_ignores_appended_zeros, pad_zeros, remove_right_zeros,
    trim_trailing_zeros, trimmed,
};
use vstd::prelude::*;

verus! {

/// The longest input that the fixed-buffer check is sized for.
pub const MAX_U8_LEN: usize = 512;

/// Encoded bytes reserved per input byte by the fixed-buffer check.
pub const MAX_NUMBER_OF_UUENCODE_PER_U8: usize = 4;

/// The decoded length of the encoding of `len` bytes: three bytes for each
/// started group of three, so at least `len`.
pub open spec fn roundtrip_decoded_len(len: nat) -> nat {
    decoded_len(encoded_len(len))
}

/// What `data_encoding` gives back when the Base64 encoding of `input` is
/// decoded, or `None` if it refuses it.
pub open spec fn roundtrip_bytes(input: Seq<u8>) -> Option<Seq<u8>> {
    base64_decoded(base64_encoded(input))
}

proof fn lemma_roundtrip_lens(n: nat)
    ensures
        encoded_len(n) % 4 == 0,
        roundtrip_decoded_len(n) == (n + 2) / 3 * 3,
        n <= roundtrip_decoded_len(n),
        roundtrip_decoded_len(n) <= n + 2,
        encoded_len(n) <= 4 * n,
{
}

/// Verifies that Base64 encoding followed by decoding preserves `input`.
///
/// Encodes `input` into the front of `encode_buffer`, decodes that back into
/// the front of `decode_buffer`, and compares the two after trailing zeros are
/// trimmed from both. A buffer that is too short gives an error that names the
/// length needed and the length given. When both buffers are long enough the
/// answer is `Ok(true)`.
pub fn verify_base64_roundtrip(
    input: &[u8],
    encode_buffer: &mut [u8],
    decode_buffer: &mut [u8],
) -> (res: Result<bool, String>)
    requires
        input@.len() <= usize::MAX / 512,
    ensures
        final(encode_buffer)@.len() == old(encode_buffer)@.len(),
        final(decode_buffer)@.len() == old(decode_buffer)@.len(),
        old(encode_buffer)@.len() < encoded_len(input@.len()) ==> {
            &&& res is Err
            &&& res->Err_0@ == encode_too_small_text(
                encoded_len(input@.len()),
                old(encode_buffer)@.len(),
            )
            &&& final(encode_buffer)@ == old(encode_buffer)@
            &&& final(decode_buffer)@ == old(decode_buffer)@
        },
        old(encode_buffer)@.len() >= encoded_len(input@.len()) ==> {
            &&& final(encode_buffer)@.take(encoded_len(input@.len()) as int) == base64_encoded(
                input@,
            )
            &&& final(encode_buffer)@.skip(encoded_len(input@.len()) as int) == old(
                encode_buffer,
            )@.skip(encoded_len(input@.len()) as int)
        },
        old(encode_buffer)@.len() >= encoded_len(input@.len()) && old(decode_buffer)@.len()
            < roundtrip_decoded_len(input@.len()) ==> {
            &&& res is Err
            &&& res->Err_0@ == decode_too_small_text(
                roundtrip_decoded_len(input@.len()),
                old(decode_buffer)@.len(),
            )
            &&& final(decode_buffer)@ == old(decode_buffer)@
        },
        old(encode_buffer)@.len() >= encoded_len(input@.len()) && old(decode_buffer)@.len()
            >= roundtrip_decoded_len(input@.len()) ==> {
            &&& roundtrip_bytes(input@) == Some(input@)
            &&& res == Ok::<bool, String>(true)
            &&& final(decode_buffer)@.take(input@.len() as int) == input@
            &&& final(decode_buffer)@.skip(input@.len() as int) == old(decode_buffer)@.skip(
                input@.len() as int,
            )
        },
{
    proof {
        lemma_roundtrip_lens(input@.len());
    }
    let encoded_len = base64_encode_len(input.len());
    if encode_buffer.len() < encoded_len {
        return Err(encode_too_small_message(encoded_len, encode_buffer.len()));
    }
    base64_encode_into(input, encode_buffer, encoded_len);
    let encoded = &encode_buffer[0..encoded_len];

    let decoded_len = match base64_decode_len(encoded.len()) {
        Ok(n) => n,
        Err(e) => return Err(invalid_length_message(&e)),
    };
    if decode_buffer.len() < decoded_len {
        return Err(decode_too_small_message(decoded_len, decode_buffer.len()));
    }
    let actual_decoded_len = match base64_decode_into(encoded, decode_buffer, decoded_len) {
        Ok(n) => n,
        Err(e) => return Err(decode_failed_message(&e)),
    };
    assert(base64_encoded(input@) == encoded@);
    assert(roundtrip_bytes(input@) == Some(input@)) by {
        assert(decode_buffer@.take(actual_decoded_len as int) == input@);
    }

    // Compare trimmed versions (removing padding zeros)
    let decoded_trimmed = trim_trailing_zeros(&decode_buffer[0..actual_decoded_len]);
    let input_trimmed = trim_trailing_zeros(input);
    Ok(bytes_equal(input_trimmed, decoded_trimmed))
}

/// Verifies the Base64 round trip of `input` with buffers that it allocates:
/// four bytes per input byte for each, which is always enough, so the answer
/// is `Ok(true)`.
pub fn verify_base64_simple(input: &[u8]) -> (res: Result<bool, String>)
    requires
        input@.len() <= usize::MAX / 512,
    ensures
        roundtrip_bytes(input@) == Some(input@),
        res == Ok::<bool, String>(true),
{
    proof {
        lemma_roundtrip_lens(input@.len());
    }
    let mut encode_buffer = vec![0u8; input.len() * 4];
    let mut decode_buffer = vec![0u8; input.len() * 4];
    verify_base64_roundtrip(input, encode_buffer.as_mut_slice(), decode_buffer.as_mut_slice())
}

/// Encodes `input` and decodes it back in buffers of fixed size, zeroed
/// first, and tells whether the decoded bytes equal the input once trailing
/// zeros are removed from both. The buffers hold inputs of up to
/// `MAX_U8_LEN + 1` bytes, and for every such input the answer is `true`.
pub fn does_uuencode_match_input(input: &[u8]) -> (res: bool)
    requires
        input@.len() <= MAX_U8_LEN + 1,
    ensures
        roundtrip_bytes(input@) == Some(input@),
        res == (trimmed(roundtrip_bytes(input@)->Some_0) == trimmed(input@)),
        res,
{
    proof {
        lemma_roundtrip_lens(input@.len());
    }
    let mut buffer = vec![0u8; MAX_U8_LEN * MAX_NUMBER_OF_UUENCODE_PER_U8];
    let encoded_len = base64_encode_len(input.len());
    base64_encode_into(input, buffer.as_mut_slice(), encoded_len);
    let output = &buffer.as_slice()[0..encoded_len];

    let mut buffer2 = vec![0u8; MAX_U8_LEN + 1];
    let ghost zeroed = buffer2@;
    let decoded_len = base64_decode_len(output.len()).unwrap();
    base64_decode_into(output, buffer2.as_mut_slice(), decoded_len).unwrap();
    let output2 = &buffer2.as_slice()[0..decoded_len];
    proof {
        assert(base64_encoded(input@) == output@);
        assert(roundtrip_bytes(input@) == Some(input@)) by {
            assert(buffer2@.take(input@.len() as int) == input@);
        }
        let pad = (decoded_len - input@.len()) as nat;
        assert(output2@ =~= pad_zeros(input@, pad)) by {
            assert forall|i: int| input@.len() <= i < decoded_len implies #[trigger] output2@[i]
                == 0u8 by {
                assert(buffer2@.skip(input@.len() as int)[i - input@.len()] == zeroed.skip(
                    input@.len() as int,
                )[i - input@.len()]);
            }
            assert forall|i: int| 0 <= i < input@.len() implies #[trigger] output2@[i]
                == input@[i] by {
                assert(buffer2@.take(input@.len() as int)[i] == input@[i]);
            }
        }
        lemma_trimmed_ignores_appended_zeros(input@, pad);
    }
    let output2 = remove_right_zeros(output2);
    let input = remove_right_zeros(input);
    bytes_equal(input, output2)
}

} // verus!
