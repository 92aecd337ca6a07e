use byten::{
    BytesCodec, DecodeError, Decoder, Encoder, EncoderToVec, EndianCodec, FixedMeasurer,
    Measurer, OptionCodec, PrefixedCodec, RemainingCodec, U8Codec, UTF8Codec,
};

#[test]
fn law_encode_then_decode_on_a_dirty_buffer() {
    let codec = OptionCodec::new(EndianCodec::<u16>::be());
    let value: Option<u16> = Some(0x0102);
    let mut buffer = [0xaau8; 12];
    let mut offset = 2;
    codec.encode(&value, &mut buffer, &mut offset).unwrap();
    assert_eq!(offset, 5);
    let mut decode_offset = 2;
    let decoded = codec.decode(&buffer, &mut decode_offset).unwrap();
    assert_eq!(decoded, value);
    assert_eq!(decode_offset, offset);
}

#[test]
fn law_serialize_then_decode() {
    let codec: PrefixedCodec<Vec<u32>, _, _> =
        PrefixedCodec::new(EndianCodec::<u16>::le(), EndianCodec::<u32>::be());
    let value = vec![7u32, 0xdeadbeef];
    let bytes = codec.encode_to_vec(&value).unwrap();
    let mut offset = 0;
    assert_eq!(codec.decode(&bytes, &mut offset), Ok(value));
    assert_eq!(offset, bytes.len());
}

#[test]
fn law_remaining_needs_the_end_of_the_buffer() {
    let codec = RemainingCodec::new();
    let mut buffer = [0u8; 5];
    let mut offset = 1;
    codec.encode(b"ab", &mut buffer, &mut offset).unwrap();
    let mut decode_offset = 1;
    assert_eq!(codec.decode(&buffer[..offset], &mut decode_offset), Ok(&b"ab"[..]));
    let mut decode_offset = 1;
    assert_eq!(codec.decode(&buffer, &mut decode_offset), Ok(&b"ab\0\0"[..]));
}

#[test]
fn law_measure_is_encoded_size() {
    let codec = UTF8Codec::new(BytesCodec::new(U8Codec));
    let text = "measure me";
    let size = codec.measure(text).unwrap();
    let mut exact = vec![0u8; size];
    let mut offset = 0;
    codec.encode(text, &mut exact, &mut offset).unwrap();
    assert_eq!(offset, size);
    let mut short = vec![0u8; size - 1];
    let mut offset = 0;
    assert!(codec.encode(text, &mut short, &mut offset).is_err());
}

#[test]
fn law_encode_keeps_rest() {
    let codec = EndianCodec::<u32>::le();
    let mut buffer = [1u8, 2, 3, 4, 5, 6, 7, 8];
    let mut offset = 2;
    codec.encode(&0, &mut buffer, &mut offset).unwrap();
    assert_eq!(buffer, [1, 2, 0, 0, 0, 0, 7, 8]);
}

#[test]
fn law_encode_writes_serialization() {
    let codec = BytesCodec::new(U8Codec);
    let expected = codec.encode_to_vec(b"hi").unwrap();
    let mut buffer = [0x55u8; 7];
    let mut offset = 3;
    codec.encode(b"hi", &mut buffer, &mut offset).unwrap();
    assert_eq!(&buffer[3..offset], expected.as_slice());
    assert_eq!(expected, vec![2, b'h', b'i']);
}

#[test]
fn law_decode_moves_forward() {
    let codec = BytesCodec::new(U8Codec);
    let mut offset = 0;
    assert!(codec.decode(&[9, 1], &mut offset).is_err());
    assert!(offset >= 0 && offset <= 2);
    let mut offset = 4;
    assert_eq!(codec.decode(&[9, 1], &mut offset), Err(DecodeError::EOF));
    assert_eq!(offset, 4);
}

#[test]
fn law_fixed_size() {
    let codec = EndianCodec::<u64>::be();
    for value in [0u64, 1, u64::MAX] {
        assert_eq!(codec.measure(&value).unwrap(), codec.measure_fixed());
        let mut buffer = [0u8; 9];
        let mut offset = 1;
        codec.encode(&value, &mut buffer, &mut offset).unwrap();
        assert_eq!(offset, 1 + codec.measure_fixed());
    }
}

#[test]
fn law_measure_is_encoded_size_past_the_end() {
    let codec = byten::PhantomCodec::new(9u8);
    let mut buffer = [4u8, 5];
    let mut offset = 7;
    assert_eq!(codec.measure(&9), Ok(0));
    codec.encode(&9, &mut buffer, &mut offset).unwrap();
    assert_eq!(offset, 7);
    assert_eq!(buffer, [4, 5]);
    let mut offset = 7;
    assert_eq!(U8Codec.encode(&1, &mut buffer, &mut offset), Err(byten::EncodeError::BufferTooSmall));
    assert_eq!(offset, 7);
}
