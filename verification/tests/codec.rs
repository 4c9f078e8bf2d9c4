use mouse_rate_checker::event::{
    decode_record, decode_stream, encode_record, encode_stream, record_buffer_size, CodecError,
    InstantWrap, RECORD_SIZE,
};

#[test]
fn record_round_trip_is_bit_identical() {
    for nanos in [
        0u64,
        1,
        999,
        1_000_000_000,
        0x0102_0304_0506_0708,
        u64::MAX,
        u64::MAX - 1,
    ] {
        let e = InstantWrap(nanos);
        let encoded = encode_record(e);
        assert_eq!(encoded.len(), RECORD_SIZE);
        let decoded = decode_record(&encoded);
        assert_eq!(decoded, e);
        assert_eq!(decoded.0, nanos);
    }
}

#[test]
fn record_encoding_is_little_endian() {
    let e = InstantWrap(0x0102_0304_0506_0708);
    let encoded = encode_record(e);
    assert_eq!(encoded, [0x08, 0x07, 0x06, 0x05, 0x04, 0x03, 0x02, 0x01]);
}

#[test]
fn stream_round_trip_keeps_order() {
    let events = vec![
        InstantWrap(5),
        InstantWrap(1),
        InstantWrap(u64::MAX),
        InstantWrap(0),
    ];
    let bytes = encode_stream(&events);
    assert_eq!(bytes.len(), events.len() * RECORD_SIZE);
    let back = decode_stream(&bytes).unwrap();
    assert_eq!(back, events);
}

#[test]
fn empty_stream_decodes_to_nothing() {
    let back = decode_stream(&Vec::new()).unwrap();
    assert!(back.is_empty());
}

#[test]
fn partial_record_is_a_size_mismatch() {
    let mut bytes = encode_stream(&vec![InstantWrap(7)]);
    bytes.pop();
    assert_eq!(decode_stream(&bytes), Err(CodecError::SizeMismatch));
    assert_eq!(
        decode_stream(&vec![1u8, 2, 3]),
        Err(CodecError::SizeMismatch)
    );
}

#[test]
fn buffer_size_counts_whole_records() {
    assert_eq!(record_buffer_size(0), 0);
    assert_eq!(record_buffer_size(1), RECORD_SIZE);
    assert_eq!(record_buffer_size(65536), 65536 * RECORD_SIZE);
}

#[test]
fn instant_wrap_conversions() {
    let e = InstantWrap::from_nanos(123_456_789);
    assert_eq!(e.as_nanos(), 123_456_789);
    assert_eq!(e, InstantWrap(123_456_789));
}
