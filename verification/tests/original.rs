use base64check::{trim_trailing_zeros, verify_base64_roundtrip, verify_base64_simple};
use rand::distributions::Standard;
use rand::{thread_rng, Rng};

#[test]
fn test_trim_trailing_zeros() {
    assert_eq!(trim_trailing_zeros(&[]), &[]);
    assert_eq!(trim_trailing_zeros(&[0]), &[]);
    assert_eq!(trim_trailing_zeros(&[0, 0, 0]), &[]);
    assert_eq!(trim_trailing_zeros(&[1, 2, 3]), &[1, 2, 3]);
    assert_eq!(trim_trailing_zeros(&[1, 2, 3, 0]), &[1, 2, 3]);
    assert_eq!(trim_trailing_zeros(&[1, 2, 3, 0, 0, 0]), &[1, 2, 3]);
    assert_eq!(trim_trailing_zeros(&[0, 1, 2, 0, 0]), &[0, 1, 2]);
}

#[test]
fn test_verify_base64_simple_basic() {
    // Test empty input
    assert!(verify_base64_simple(&[]).unwrap());

    // Test simple ASCII
    assert!(verify_base64_simple(b"Hello").unwrap());
    assert!(verify_base64_simple(b"Hello, World!").unwrap());

    // Test binary data
    assert!(verify_base64_simple(&[0, 1, 2, 3, 255, 254]).unwrap());

    // Test with trailing zeros
    assert!(verify_base64_simple(&[1, 2, 3, 0, 0]).unwrap());
}

#[test]
fn test_verify_base64_roundtrip_buffer_sizes() {
    let input = b"test data";
    let mut small_encode_buffer = [0u8; 5]; // Too small
    let mut decode_buffer = vec![0u8; input.len() + 1];

    let result = verify_base64_roundtrip(input, &mut small_encode_buffer, &mut decode_buffer);
    assert!(result.is_err());
    assert!(result.unwrap_err().contains("Encode buffer too small"));

    let mut encode_buffer = vec![0u8; input.len() * 4];
    let mut small_decode_buffer = [0u8; 2]; // Too small

    let result = verify_base64_roundtrip(input, &mut encode_buffer, &mut small_decode_buffer);
    assert!(result.is_err());
    assert!(result.unwrap_err().contains("Decode buffer too small"));
}

#[test]
fn test_random_data_verification() {
    let mut encode_buffer = vec![0u8; 1024 * 4];
    let mut decode_buffer = vec![0u8; 1024 + 1];

    for _ in 0..1000 {
        let mut rng = thread_rng();
        let len = rng.gen_range(0..1024);
        let input: Vec<u8> = thread_rng().sample_iter(Standard).take(len).collect();

        let result = verify_base64_roundtrip(&input, &mut encode_buffer, &mut decode_buffer);
        assert!(result.is_ok(), "Verification failed for input: {:?}", input);
        assert!(result.unwrap(), "Roundtrip failed for input: {:?}", input);
    }
}

#[test]
fn test_edge_cases() {
    // Test maximum single byte values
    for i in 0..=255u8 {
        assert!(verify_base64_simple(&[i]).unwrap());
    }

    // Test various lengths up to a reasonable size
    for len in 0..256 {
        let input: Vec<u8> = thread_rng().sample_iter(Standard).take(len).collect();
        assert!(
            verify_base64_simple(&input).unwrap(),
            "Failed for length {} with data: {:?}",
            len,
            input
        );
    }
}

#[test]
fn test_all_zero_input() {
    assert!(verify_base64_simple(&[0]).unwrap());
    assert!(verify_base64_simple(&[0, 0, 0, 0]).unwrap());
    assert!(verify_base64_simple(&vec![0; 100]).unwrap());
}
