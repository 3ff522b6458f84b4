use smartmail::envelope::{decode_payload, parse_data_rate};

#[test]
fn payload_base64_decodes() {
    // "AYIBPQ==" is the base64 encoding of the distance record
    // [0x01, 0x82, 0x01, 0x3D].
    let decoded = decode_payload(b"AYIBPQ==").unwrap();
    assert_eq!(decoded, vec![0x01, 0x82, 0x01, 0x3D]);
}

#[test]
fn invalid_base64_is_rejected() {
    assert_eq!(decode_payload(b"!!!"), None);
}

#[test]
fn data_rate_parses_factor_and_bandwidth() {
    assert_eq!(parse_data_rate(b"SF7BW125"), Some((Some(7), Some(125))));
    assert_eq!(parse_data_rate(b"SF12BW500"), Some((Some(12), None)));
}

#[test]
fn data_rate_accepts_leading_zeros() {
    assert_eq!(parse_data_rate(b"SF007BW125"), Some((Some(7), Some(125))));
}

#[test]
fn data_rate_field_too_large_for_a_byte_is_dropped() {
    assert_eq!(parse_data_rate(b"SF999BW125"), Some((None, Some(125))));
    assert_eq!(parse_data_rate(b"SF7BW99999"), Some((Some(7), None)));
}

#[test]
fn malformed_data_rate_is_rejected() {
    assert_eq!(parse_data_rate(b""), None);
    assert_eq!(parse_data_rate(b"XX7BW125"), None);
    assert_eq!(parse_data_rate(b"SF7"), None);
    assert_eq!(parse_data_rate(b"SF7BW"), None);
    assert_eq!(parse_data_rate(b"SFBW125"), None);
    assert_eq!(parse_data_rate(b"SF7BW125x"), None);
    assert_eq!(parse_data_rate(b"SF7XW125"), None);
}
