use ai_ask::base64::decode_base64;
use ai_ask::base64::decode_base64url;

#[test]
fn test_decode_base64_standard() {
    let input = "SGVsbG8gV29ybGQ=";
    let result = decode_base64(input).unwrap();
    assert_eq!(result, b"Hello World");
}

#[test]
fn test_decode_base64url() {
    // "Hello World" in base64url (no padding)
    let input = "SGVsbG8gV29ybGQ";
    let result = decode_base64url(input).unwrap();
    assert_eq!(result, b"Hello World");
}

#[test]
fn decode_base64url_maps_url_safe_characters() {
    // '_' stands for 63 and '-' for 62.
    assert_eq!(decode_base64url("PDw_Pz8_Pj4").unwrap(), b"<<????>>");
    assert_eq!(decode_base64url("PDw_Pz8-Pj4").unwrap(), b"<<???>>>");
}

#[test]
fn test_decode_base64_invalid_char() {
    let input = "SGVsbG8g!!!";
    let result = decode_base64(input);
    assert!(result.is_err());
    assert!(result.unwrap_err().contains("invalid base64 character"));
}

#[test]
fn decode_base64_empty_input() {
    assert_eq!(decode_base64("").unwrap(), Vec::<u8>::new());
}

#[test]
fn decode_base64_exact_zero_bytes() {
    assert_eq!(decode_base64("AAAA").unwrap(), vec![0u8, 0, 0]);
}

#[test]
fn decode_base64_reports_first_invalid_char() {
    let err = decode_base64("SGVs#GQ=").unwrap_err();
    assert_eq!(err, "invalid base64 character: '#'");
}

#[test]
fn decode_base64_rejects_url_alphabet() {
    assert!(decode_base64("PDw_Pz8-Pj4").is_err());
}

#[test]
fn decode_base64url_accepts_standard_alphabet() {
    assert_eq!(decode_base64url("SGVsbG8gV29ybGQ=").unwrap(), b"Hello World");
}
