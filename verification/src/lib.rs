//! Checks that Base64 encoding followed by decoding gives back the input.

pub mod codec;
pub mod messages;
pub mod roundtrip;
pub mod trim;

pub use trim::{bytes_equal, remove_right_zeros, trim_trailing_zeros};
pub use roundtrip::{
    does_uuencode_match_input, verify_base64_roundtrip, verify_base64_simple,
    MAX_NUMBER_OF_UUENCODE_PER_U8, MAX_U8_LEN,
};
