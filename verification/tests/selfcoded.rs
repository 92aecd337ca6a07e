use byten::{
    Decode, DecodeError, DecodeOwned, Decoder, Encode, EncodeError, Encoder, EndianCodec,
    FixedMeasurer, Measure, MeasureFixed, Measurer, Model, SelfCoded, SelfSpec,
};

struct MyType {
    value: u32,
}

impl MyType {
    fn new(value: u32) -> Self {
        Self { value }
    }
}

impl Model for MyType {
    type M = u32;

    fn model(&self) -> u32 {
        self.value
    }
}

impl SelfSpec for MyType {
    type Codec = EndianCodec<u32>;

    fn spec_codec() -> EndianCodec<u32> {
        EndianCodec::le()
    }
}

impl<'encoded> Decode<'encoded> for MyType {
    fn decode(encoded: &'encoded [u8], offset: &mut usize) -> Result<Self, DecodeError> {
        Ok(MyType { value: EndianCodec::<u32>::le().decode(encoded, offset)? })
    }
}

impl DecodeOwned for MyType {}

impl Encode for MyType {
    fn encode(&self, encoded: &mut [u8], offset: &mut usize) -> Result<(), EncodeError> {
        EndianCodec::<u32>::le().encode(&self.value, encoded, offset)
    }
}

impl Measure for MyType {
    fn measure(&self) -> Result<usize, EncodeError> {
        EndianCodec::<u32>::le().measure(&self.value)
    }
}

impl MeasureFixed for MyType {
    fn spec_fixed_size() -> usize {
        4
    }

    fn measure_fixed() -> usize {
        EndianCodec::<u32>::le().measure_fixed()
    }

    fn lemma_fixed_size(_v: u32) {}
}

#[test]
fn self_coded_round_trip() {
    let codec = SelfCoded::new();
    let my_type = MyType::new(0x12345678);
    let mut data = vec![0u8; 4];

    let mut offset = 0;
    codec.encode(&my_type, &mut data, &mut offset).unwrap();
    assert_eq!(data, vec![0x78, 0x56, 0x34, 0x12]);
    assert_eq!(offset, 4);

    let mut decode_offset = 0;
    let decoded: MyType = codec.decode(&data, &mut decode_offset).unwrap();
    assert_eq!(decoded.value, 0x12345678);
    assert_eq!(decode_offset, 4);

    assert_eq!(codec.measure(&my_type).unwrap(), 4);
    assert_eq!(codec.measure_fixed(), 4);
}

#[test]
fn decode_owned_decodes_as_decode() {
    let data = vec![0x78, 0x56, 0x34, 0x12];
    let mut offset = 0;
    let my_type = MyType::decode_owned(&data, &mut offset).unwrap();
    assert_eq!(my_type.value, 0x12345678);
    assert_eq!(offset, 4);

    let mut offset = 1;
    assert!(matches!(MyType::decode_owned(&data, &mut offset), Err(DecodeError::EOF)));
}

#[test]
fn self_coded_errors_pass_through() {
    let codec = SelfCoded::<MyType>::new();
    let mut small = [0u8; 3];
    let mut offset = 0;
    assert_eq!(codec.encode(&MyType::new(1), &mut small, &mut offset), Err(EncodeError::BufferTooSmall));
    let mut offset = 0;
    assert!(matches!(codec.decode(&small, &mut offset), Err(DecodeError::EOF)));
}
