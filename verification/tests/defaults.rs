use byten::{
    DecodeDefault, DecodeError, DefaultCodec, EncodeDefault, EncodeError, EncodeToHeaplessVec,
    EncodeToVec, EncoderToHeaplessVec, EncoderToVec, EndianCodec, U8Codec,
};

#[test]
fn default_codecs_of_primitives() {
    let mut buffer = [0u8; 6];
    let mut offset = 0;
    EncodeDefault::encode(&7u8, &mut buffer, &mut offset).unwrap();
    EncodeDefault::encode(&-1i8, &mut buffer, &mut offset).unwrap();
    EncodeDefault::encode(&true, &mut buffer, &mut offset).unwrap();
    EncodeDefault::encode(&[4u8, 5], &mut buffer, &mut offset).unwrap();
    assert_eq!(offset, 5);
    assert_eq!(buffer, [7, 0xff, 1, 4, 5, 0]);

    let mut offset = 0;
    assert_eq!(<u8 as DecodeDefault>::decode(&buffer, &mut offset), Ok(7));
    assert_eq!(<i8 as DecodeDefault>::decode(&buffer, &mut offset), Ok(-1));
    assert_eq!(<bool as DecodeDefault>::decode(&buffer, &mut offset), Ok(true));
    assert_eq!(<[u8; 2] as DecodeDefault>::decode(&buffer, &mut offset), Ok([4, 5]));
    assert_eq!(offset, 5);
}

#[test]
fn default_codec_of_array_ref() {
    let data = [1u8, 2, 3];
    let mut offset = 0;
    let decoded: &[u8; 2] = <&[u8; 2] as DecodeDefault>::decode(&data, &mut offset).unwrap();
    assert_eq!(decoded, &[1, 2]);
    assert_eq!(offset, 2);
}

#[test]
fn default_codec_of_option_and_box() {
    let value: Option<u8> = Some(9);
    assert_eq!(value.encode_to_vec().unwrap(), vec![0, 9]);
    let none: Option<u8> = None;
    assert_eq!(none.encode_to_vec().unwrap(), vec![1]);
    let boxed: Box<bool> = Box::new(false);
    assert_eq!(boxed.encode_to_vec().unwrap(), vec![0]);

    let mut offset = 0;
    assert_eq!(<Option<u8> as DecodeDefault>::decode(&[0, 9], &mut offset), Ok(Some(9)));
    let mut offset = 0;
    let decoded: Box<bool> = <Box<bool> as DecodeDefault>::decode(&[1], &mut offset).unwrap();
    assert!(*decoded);
    let _codec: byten::OptionCodec<U8Codec> = <Option<u8> as DefaultCodec>::default_codec();
}

#[test]
fn default_decode_errors() {
    let mut offset = 0;
    assert_eq!(<u8 as DecodeDefault>::decode(&[], &mut offset), Err(DecodeError::EOF));
    let mut offset = 0;
    assert_eq!(<bool as DecodeDefault>::decode(&[3], &mut offset), Err(DecodeError::InvalidData));
}

#[test]
fn encode_to_vec_is_measured_encoding() {
    assert_eq!(42u8.encode_to_vec().unwrap(), vec![42]);
    assert_eq!([1u8, 2, 3].encode_to_vec().unwrap(), vec![1, 2, 3]);
    let codec = EndianCodec::<u32>::be();
    assert_eq!(codec.encode_to_vec(&0x0a0b0c0d).unwrap(), vec![0x0a, 0x0b, 0x0c, 0x0d]);
}

#[test]
fn encode_to_heapless_vec_within_capacity() {
    let encoded = 5u8.encode_to_heapless_vec::<4>().unwrap();
    assert_eq!(encoded.as_slice(), &[5]);
    let codec = EndianCodec::<u32>::le();
    let encoded = codec.encode_to_heapless_vec::<4>(&0x01020304).unwrap();
    assert_eq!(encoded.as_slice(), &[4, 3, 2, 1]);
}

#[test]
fn encode_to_heapless_vec_too_small() {
    let codec = EndianCodec::<u32>::le();
    assert_eq!(codec.encode_to_heapless_vec::<3>(&1).err(), Some(EncodeError::BufferTooSmall));
    assert_eq!([1u8, 2].encode_to_heapless_vec::<1>().err(), Some(EncodeError::BufferTooSmall));
    assert_eq!(true.encode_to_heapless_vec::<0>().err(), Some(EncodeError::BufferTooSmall));
}

#[test]
fn law_default_roundtrip_on_values() {
    let value: Option<Box<[u8; 3]>> = Some(Box::new([7, 8, 9]));
    let bytes = value.encode_to_vec().unwrap();
    assert_eq!(bytes, vec![0, 7, 8, 9]);
    let mut offset = 0;
    let decoded = <Option<Box<[u8; 3]>> as DecodeDefault>::decode(&bytes, &mut offset).unwrap();
    assert_eq!(decoded, value);
    assert_eq!(offset, bytes.len());

    let flag = false;
    let bytes = flag.encode_to_vec().unwrap();
    let mut offset = 0;
    assert_eq!(<bool as DecodeDefault>::decode(&bytes, &mut offset), Ok(false));
    assert_eq!(offset, 1);
}
