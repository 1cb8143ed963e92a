use azure_attest::{base64, base64_decode, hex_decode, hex_encode, AttestError};

#[test]
fn hex_decode_even_valid() {
    assert_eq!(hex_decode("00ab7aff").unwrap(), vec![0x00, 0xab, 0x7a, 0xff]);
    assert_eq!(hex_decode("00AB7AFF").unwrap(), vec![0x00, 0xab, 0x7a, 0xff]);
    assert_eq!(hex_decode("").unwrap(), Vec::<u8>::new());
}

#[test]
fn hex_decode_rejects_odd_length() {
    assert_eq!(hex_decode("abc").unwrap_err(), AttestError::DecodeError);
    assert_eq!(hex_decode("0").unwrap_err(), AttestError::DecodeError);
}

#[test]
fn hex_decode_rejects_non_digit() {
    assert_eq!(hex_decode("0g").unwrap_err(), AttestError::DecodeError);
    assert_eq!(hex_decode("zz").unwrap_err(), AttestError::DecodeError);
    assert_eq!(hex_decode("a\u{00e9}").unwrap_err(), AttestError::DecodeError);
}

#[test]
fn hex_encode_lower_case() {
    assert_eq!(hex_encode(&vec![0x00, 0xab, 0x7a, 0xff]), "00ab7aff");
    assert_eq!(hex_encode(&Vec::new()), "");
}

#[test]
fn hex_round_trip_concrete() {
    let h = "AbCd09";
    let bytes = hex_decode(h).unwrap();
    assert_eq!(hex_encode(&bytes), h.to_ascii_lowercase());
}

#[test]
fn hex_matches_reference_crate() {
    let inputs: Vec<Vec<u8>> = vec![
        vec![],
        vec![0],
        vec![0xde, 0xad, 0xbe, 0xef],
        (0u8..=255).collect(),
    ];
    for bytes in inputs {
        assert_eq!(hex_encode(&bytes), hex::encode(&bytes));
        assert_eq!(hex_decode(&hex::encode(&bytes)).unwrap(), bytes);
    }
    assert_eq!(
        hex_decode("0f1e2d").unwrap(),
        hex::decode("0f1e2d").unwrap()
    );
}

#[test]
fn base64_encode_padding_forms() {
    assert_eq!(base64(vec![1, 2]), "AQI=");
    assert_eq!(base64(vec![3]), "Aw==");
    assert_eq!(base64(vec![0xff]), "/w==");
    assert_eq!(base64(vec![0, 1, 2, 3, 4, 5, 6, 7, 8]), "AAECAwQFBgcI");
    assert_eq!(base64(b"hello world!".to_vec()), "aGVsbG8gd29ybGQh");
    assert_eq!(base64(Vec::new()), "");
}

#[test]
fn base64_decode_standard_alphabet() {
    assert_eq!(base64_decode("AQI=").unwrap(), vec![1, 2]);
    assert_eq!(base64_decode("Aw==").unwrap(), vec![3]);
    assert_eq!(base64_decode("/w==").unwrap(), vec![0xff]);
    assert_eq!(base64_decode("++8=").unwrap(), vec![0xfb, 0xef]);
    assert_eq!(base64_decode("aGVsbG8gd29ybGQh").unwrap(), b"hello world!".to_vec());
    assert_eq!(base64_decode("").unwrap(), Vec::<u8>::new());
}

#[test]
fn base64_decode_accepts_url_safe_and_unpadded() {
    assert_eq!(base64_decode("--8").unwrap(), vec![0xfb, 0xef]);
    assert_eq!(base64_decode("_w").unwrap(), vec![0xff]);
    assert_eq!(base64_decode("AQI").unwrap(), vec![1, 2]);
}

#[test]
fn base64_decode_rejects_malformed() {
    assert_eq!(base64_decode("A").unwrap_err(), AttestError::DecodeError);
    assert_eq!(base64_decode("A===").unwrap_err(), AttestError::DecodeError);
    assert_eq!(base64_decode("????").unwrap_err(), AttestError::DecodeError);
    assert_eq!(base64_decode("AQI=extra").unwrap_err(), AttestError::DecodeError);
    // nonzero unused trailing bits
    assert_eq!(base64_decode("Ax==").unwrap_err(), AttestError::DecodeError);
}

#[test]
fn base64_round_trip_concrete() {
    let inputs: Vec<Vec<u8>> = vec![
        vec![],
        vec![0],
        vec![1, 2],
        vec![1, 2, 3],
        vec![250, 251, 252, 253],
        (0u8..=255).collect(),
    ];
    for bytes in inputs {
        assert_eq!(base64_decode(&base64(bytes.clone())).unwrap(), bytes);
    }
}
