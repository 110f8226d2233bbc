use sealed_dioxus_ui::encoded::thumbnail_data_url;
use sealed_dioxus_ui::encoded::{Encoded, EncodedError};
use std::str::FromStr;

#[test]
fn encoded_bytes_round_trip() {
    let bytes = vec![0u8, 1, 2, 250, 251, 252, 253, 254, 255];
    let e: Encoded<u32> = Encoded::try_as_encoded_bytes(&bytes);
    assert_eq!(e.0, "AAEC-vv8_f7_");
    assert_eq!(e.try_as_decoded_bytes(), Ok(bytes));
    let empty: Encoded<u32> = Encoded::try_as_encoded_bytes(&[]);
    assert_eq!(empty.0, "");
    assert_eq!(empty.try_as_decoded_bytes(), Ok(vec![]));
}

#[test]
fn invalid_text_is_refused() {
    let e: Encoded<u32> = Encoded::from_str("not base64!").unwrap();
    assert_eq!(e.try_as_decoded_bytes(), Err(EncodedError::InvalidBase64));
    let e: Encoded<u32> = Encoded::from_str("AAEC+vv8").unwrap();
    assert_eq!(e.try_as_decoded_bytes(), Err(EncodedError::InvalidBase64));
    let e: Encoded<u32> = Encoded::from_str("aGk=").unwrap();
    assert_eq!(e.try_as_decoded_bytes(), Ok(b"hi".to_vec()));
    assert_eq!(e.as_str(), "aGk=");
}

#[test]
fn thumbnail_url_uses_standard_base64() {
    assert_eq!(thumbnail_data_url(b"hi"), "data:image/png;base64,aGk=");
    assert_eq!(thumbnail_data_url(&[251, 255]), "data:image/png;base64,+/8=");
    assert_eq!(thumbnail_data_url(&[]), "data:image/png;base64,");
}

#[test]
fn encoded_text_is_padded_url_safe_symbols() {
    for n in 0..8usize {
        let bytes: Vec<u8> = (0..n).map(|i| 250 + i as u8 % 6).collect();
        let e: Encoded<u32> = Encoded::try_as_encoded_bytes(&bytes);
        assert_eq!(e.0.len(), (n + 2) / 3 * 4);
        assert!(e.0.chars().all(|c| c.is_ascii_alphanumeric() || "-_=".contains(c)));
        let body = e.0.trim_end_matches('=');
        assert_eq!(e.0.len() - body.len(), (3 - n % 3) % 3);
        assert!(!body.contains('='));
    }
    let e: Encoded<u32> = Encoded::try_as_encoded_bytes(&[255, 255, 255, 255]);
    assert_eq!(e.0, "_____w==");
    let e: Encoded<u32> = Encoded::from_str("ab+/").unwrap();
    assert_eq!(e.try_as_decoded_bytes(), Err(EncodedError::InvalidBase64));
}
