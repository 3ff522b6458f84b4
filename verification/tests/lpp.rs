use smartmail::lpp::{Channel, DataType, LppDecoder, Measurement};

#[test]
fn test_distance_data() {
    let data = [0x01, 0x82, 0x01, 0x3D];
    let mut decoder = LppDecoder::new(&data);
    assert_eq!(
        decoder.next().unwrap(),
        Measurement::new(Channel::DistanceSensor, DataType::Distance(317))
    );
}

#[test]
fn test_keepalive_data() {
    let data = [
        0x01, 0x67, 0x00, 0xE6, //
        0x04, 0x02, 0x01, 0x7A,
    ];
    let mut decoder = LppDecoder::new(&data);
    let first = decoder.next().unwrap();
    assert_eq!(
        first,
        Measurement::new(Channel::DistanceSensor, DataType::Temperature(230))
    );
    // 0x00E6 tenths of a degree is 23.0 degrees Celsius.
    assert_eq!(230 as f32 / 10.0, 23.0);
    let second = decoder.next().unwrap();
    assert_eq!(
        second,
        Measurement::new(Channel::Adc, DataType::AnalogInput(378))
    );
    // 0x017A hundredths of a volt is 3.78 volts.
    assert_eq!(378 as f32 / 100.0, 3.78);
}

#[test]
fn decoding_is_deterministic() {
    let data = [0x01, 0x82, 0x01, 0x3D, 0x01, 0x67, 0x00, 0xE6];
    let first = LppDecoder::new(&data).collect_measurements();
    let second = LppDecoder::new(&data).collect_measurements();
    assert_eq!(first, second);
    assert_eq!(first.len(), 2);
}

#[test]
fn distance_formula_matches_bytes() {
    // hi * 256 + lo, for a different pair of payload bytes.
    let data = [0x01, 0x82, 0x02, 0x10];
    let mut decoder = LppDecoder::new(&data);
    assert_eq!(
        decoder.next().unwrap(),
        Measurement::new(Channel::DistanceSensor, DataType::Distance(2 * 256 + 16))
    );
    assert!(decoder.next().is_none());
}

#[test]
fn truncated_payload_yields_nothing() {
    let data = [0x01, 0x82, 0x01];
    let mut decoder = LppDecoder::new(&data);
    assert!(decoder.next().is_none());
    assert!(decoder.next().is_none());
    assert_eq!(LppDecoder::new(&data).collect_measurements(), vec![]);
}

#[test]
fn unknown_tag_truncates_sequence() {
    let data = [0x01, 0x82, 0x01, 0x3D, 0x01, 0xFF, 0x09, 0x09];
    let measurements = LppDecoder::new(&data).collect_measurements();
    assert_eq!(
        measurements,
        vec![Measurement::new(
            Channel::DistanceSensor,
            DataType::Distance(317)
        )]
    );
}

#[test]
fn missing_type_byte_yields_nothing() {
    let data = [0x01];
    let mut decoder = LppDecoder::new(&data);
    assert!(decoder.next().is_none());
}

#[test]
fn empty_buffer_yields_nothing() {
    let data: [u8; 0] = [];
    let mut decoder = LppDecoder::new(&data);
    assert!(decoder.next().is_none());
}

#[test]
fn negative_temperature_decodes_two_complement() {
    // 0xFFCE is -50 tenths: -5.0 degrees Celsius.
    let data = [0x01, 0x67, 0xFF, 0xCE];
    let mut decoder = LppDecoder::new(&data);
    assert_eq!(
        decoder.next().unwrap(),
        Measurement::new(Channel::DistanceSensor, DataType::Temperature(-50))
    );
}

#[test]
fn unknown_channel_id_maps_to_other() {
    let data = [0x09, 0x82, 0x00, 0x2A];
    let mut decoder = LppDecoder::new(&data);
    assert_eq!(
        decoder.next().unwrap(),
        Measurement::new(Channel::Other(9), DataType::Distance(42))
    );
}

#[test]
fn max_distance_decodes() {
    let data = [0x01, 0x82, 0xFF, 0xFF];
    let mut decoder = LppDecoder::new(&data);
    assert_eq!(
        decoder.next().unwrap(),
        Measurement::new(Channel::DistanceSensor, DataType::Distance(65535))
    );
}
