//! Codecs that wrap other codecs: owned results and constant values.
use vstd::prelude::*;

use vstd::slice::slice_to_vec;

use crate::bytes::{decode_in_bounds, encode_agrees, DecodeOutcome, EncodeOutcome};
use crate::error::{DecodeError, EncodeError};
use crate::model::{lemma_models_bytes, Model};
use crate::{Decoder, Encoder, FixedMeasurer, Measurer, SpecCodec};

verus! {

/// An unsized borrowed form of data with an owned counterpart of the same
/// model, which it can be borrowed from:
/// byte slices own as vectors, string slices as strings.
pub trait Ownable: Model {
    type Owned: Model<M = <Self as Model>::M>;

    /// Borrows the data of an owned value.
    fn borrow_owned(owned: &Self::Owned) -> (r: &Self)
        ensures
            r.model() == owned.model(),
    ;
}

impl Ownable for [u8] {
    type Owned = Vec<u8>;

    fn borrow_owned(owned: &Vec<u8>) -> (r: &[u8]) {
        owned.as_slice()
    }
}

impl Ownable for str {
    type Owned = String;

    fn borrow_owned(owned: &String) -> (r: &str) {
        owned.as_str()
    }
}

/// A borrowed result of decoding that can be copied into owned data of the
/// same model.
pub trait ToOwnedData: Model {
    type Owned: Model<M = <Self as Model>::M>;

    fn to_owned_data(&self) -> (r: Self::Owned)
        ensures
            r.model() == self.model(),
    ;
}

impl<'a> ToOwnedData for &'a [u8] {
    type Owned = Vec<u8>;

    fn to_owned_data(&self) -> (r: Vec<u8>) {
        slice_to_vec(*self)
    }
}

impl<'a> ToOwnedData for &'a str {
    type Owned = String;

    fn to_owned_data(&self) -> (r: String) {
        (*self).to_owned()
    }
}

/// A codec that decodes to owned data by first decoding to borrowed data
/// and then copying it, and encodes owned data through its borrowed form.
pub struct OwnedCodec<Codec> {
    pub codec: Codec,
}

impl<Codec> OwnedCodec<Codec> {
    pub fn new(codec: Codec) -> (c: Self)
        ensures
            c == (OwnedCodec { codec }),
    {
        OwnedCodec { codec }
    }
}

impl<Codec: SpecCodec> SpecCodec for OwnedCodec<Codec> {
    type Value = Codec::Value;

    open spec fn spec_serialize(&self, v: Codec::Value) -> Result<Seq<u8>, EncodeError> {
        self.codec.spec_serialize(v)
    }

    open spec fn spec_encode(&self, v: Codec::Value, buf: Seq<u8>, off: int) -> EncodeOutcome {
        self.codec.spec_encode(v, buf, off)
    }

    open spec fn spec_decode(&self, buf: Seq<u8>, off: int) -> DecodeOutcome<Codec::Value> {
        self.codec.spec_decode(buf, off)
    }

    open spec fn decode_requires(&self, buf: Seq<u8>, off: int) -> bool {
        self.codec.decode_requires(buf, off)
    }

    open spec fn measure_fits(&self, v: Codec::Value) -> bool {
        self.codec.measure_fits(v)
    }

    open spec fn prefix_secure(&self) -> bool {
        self.codec.prefix_secure()
    }

    open spec fn spec_wf(&self, v: Codec::Value) -> bool {
        self.codec.spec_wf(v)
    }

    proof fn lemma_encode(&self, v: Codec::Value, buf: Seq<u8>, off: int) {
        self.codec.lemma_encode(v, buf, off);
    }

    proof fn lemma_decode(&self, buf: Seq<u8>, off: int) {
        self.codec.lemma_decode(buf, off);
    }

    proof fn lemma_measure_fits(&self, v: Codec::Value) {
        self.codec.lemma_measure_fits(v);
    }

    proof fn lemma_roundtrip(&self, v: Codec::Value, pre: Seq<u8>, post: Seq<u8>) {
        self.codec.lemma_roundtrip(v, pre, post);
    }
}

impl<'encoded, 'decoded, Codec: Decoder<'encoded, 'decoded>> Decoder<'encoded, 'decoded> for OwnedCodec<
    Codec,
> where
    <Codec as Decoder<'encoded, 'decoded>>::Decoded: ToOwnedData,
    <<Codec as Decoder<'encoded, 'decoded>>::Decoded as ToOwnedData>::Owned: 'decoded,
 {
    type Decoded = <<Codec as Decoder<'encoded, 'decoded>>::Decoded as ToOwnedData>::Owned;

    fn decode(&self, encoded: &'encoded [u8], offset: &mut usize) -> (r: Result<
        <<Codec as Decoder<'encoded, 'decoded>>::Decoded as ToOwnedData>::Owned,
        DecodeError,
    >) {
        match self.codec.decode(encoded, offset) {
            Ok(b) => Ok(b.to_owned_data()),
            Err(e) => Err(e),
        }
    }
}

impl<Codec: Encoder> Encoder for OwnedCodec<Codec> where <Codec as Encoder>::Decoded: Ownable {
    type Decoded = <<Codec as Encoder>::Decoded as Ownable>::Owned;

    fn encode(
        &self,
        decoded: &<<Codec as Encoder>::Decoded as Ownable>::Owned,
        encoded: &mut [u8],
        offset: &mut usize,
    ) -> (r: Result<(), EncodeError>) {
        self.codec.encode(<Codec as Encoder>::Decoded::borrow_owned(decoded), encoded, offset)
    }
}

impl<Codec: Measurer> Measurer for OwnedCodec<Codec> where <Codec as Measurer>::Decoded: Ownable {
    type Decoded = <<Codec as Measurer>::Decoded as Ownable>::Owned;

    fn measure(&self, decoded: &<<Codec as Measurer>::Decoded as Ownable>::Owned) -> (r: Result<
        usize,
        EncodeError,
    >) {
        self.codec.measure(<Codec as Measurer>::Decoded::borrow_owned(decoded))
    }
}

impl<Codec: FixedMeasurer> FixedMeasurer for OwnedCodec<Codec> where <Codec as Measurer>::Decoded: Ownable {
    open spec fn spec_fixed_size(&self) -> nat {
        self.codec.spec_fixed_size()
    }

    fn measure_fixed(&self) -> (r: usize) {
        self.codec.measure_fixed()
    }

    proof fn lemma_fixed_size(&self, v: Codec::Value) {
        self.codec.lemma_fixed_size(v);
    }
}

/// A codec that always encodes and decodes a constant value.
pub trait ConstantCoder {
    type Decoded;

    spec fn spec_constant(&self) -> Self::Decoded;

    fn constant(&self) -> (r: &Self::Decoded)
        ensures
            *r == self.spec_constant(),
    ;
}

/// A value that a phantom codec can hold: it can be duplicated and compared,
/// and it is its own model.
pub trait PhantomValue: Sized + Model<M = Self> {
    /// A copy of the value.
    fn duplicate(&self) -> (r: Self)
        ensures
            r == *self,
    ;

    /// Whether two values are equal.
    fn same(&self, other: &Self) -> (r: bool)
        ensures
            r == (*self == *other),
    ;

    proof fn lemma_model(v: Self)
        ensures
            v.model() == v,
    ;
}

impl PhantomValue for u8 {
    fn duplicate(&self) -> (r: u8) {
        *self
    }

    fn same(&self, other: &u8) -> (r: bool) {
        *self == *other
    }

    proof fn lemma_model(v: u8) {
    }
}

impl PhantomValue for u16 {
    fn duplicate(&self) -> (r: u16) {
        *self
    }

    fn same(&self, other: &u16) -> (r: bool) {
        *self == *other
    }

    proof fn lemma_model(v: u16) {
    }
}

impl PhantomValue for u32 {
    fn duplicate(&self) -> (r: u32) {
        *self
    }

    fn same(&self, other: &u32) -> (r: bool) {
        *self == *other
    }

    proof fn lemma_model(v: u32) {
    }
}

impl PhantomValue for u64 {
    fn duplicate(&self) -> (r: u64) {
        *self
    }

    fn same(&self, other: &u64) -> (r: bool) {
        *self == *other
    }

    proof fn lemma_model(v: u64) {
    }
}

impl PhantomValue for u128 {
    fn duplicate(&self) -> (r: u128) {
        *self
    }

    fn same(&self, other: &u128) -> (r: bool) {
        *self == *other
    }

    proof fn lemma_model(v: u128) {
    }
}

impl PhantomValue for usize {
    fn duplicate(&self) -> (r: usize) {
        *self
    }

    fn same(&self, other: &usize) -> (r: bool) {
        *self == *other
    }

    proof fn lemma_model(v: usize) {
    }
}

impl PhantomValue for i8 {
    fn duplicate(&self) -> (r: i8) {
        *self
    }

    fn same(&self, other: &i8) -> (r: bool) {
        *self == *other
    }

    proof fn lemma_model(v: i8) {
    }
}

impl PhantomValue for i16 {
    fn duplicate(&self) -> (r: i16) {
        *self
    }

    fn same(&self, other: &i16) -> (r: bool) {
        *self == *other
    }

    proof fn lemma_model(v: i16) {
    }
}

impl PhantomValue for i32 {
    fn duplicate(&self) -> (r: i32) {
        *self
    }

    fn same(&self, other: &i32) -> (r: bool) {
        *self == *other
    }

    proof fn lemma_model(v: i32) {
    }
}

impl PhantomValue for i64 {
    fn duplicate(&self) -> (r: i64) {
        *self
    }

    fn same(&self, other: &i64) -> (r: bool) {
        *self == *other
    }

    proof fn lemma_model(v: i64) {
    }
}

impl PhantomValue for i128 {
    fn duplicate(&self) -> (r: i128) {
        *self
    }

    fn same(&self, other: &i128) -> (r: bool) {
        *self == *other
    }

    proof fn lemma_model(v: i128) {
    }
}

impl PhantomValue for bool {
    fn duplicate(&self) -> (r: bool) {
        *self
    }

    fn same(&self, other: &bool) -> (r: bool) {
        *self == *other
    }

    proof fn lemma_model(v: bool) {
    }
}

impl PhantomValue for isize {
    fn duplicate(&self) -> (r: isize) {
        *self
    }

    fn same(&self, other: &isize) -> (r: bool) {
        *self == *other
    }

    proof fn lemma_model(v: isize) {
    }
}

impl PhantomValue for char {
    fn duplicate(&self) -> (r: char) {
        *self
    }

    fn same(&self, other: &char) -> (r: bool) {
        *self == *other
    }

    proof fn lemma_model(v: char) {
    }
}

impl PhantomValue for () {
    fn duplicate(&self) -> (r: ()) {
        ()
    }

    fn same(&self, other: &()) -> (r: bool) {
        true
    }

    proof fn lemma_model(v: ()) {
    }
}

/// A codec that always decodes to the constant value it holds, encodes only
/// that value, and reads and writes no bytes.
pub struct PhantomCodec<T>(pub T);

impl<T: Clone> PhantomCodec<T> {
    pub fn new(value: T) -> (c: Self)
        ensures
            c == PhantomCodec(value),
    {
        PhantomCodec(value)
    }
}

impl<T> ConstantCoder for PhantomCodec<T> {
    type Decoded = T;

    open spec fn spec_constant(&self) -> T {
        self.0
    }

    fn constant(&self) -> (r: &T) {
        &self.0
    }
}

impl<T: PhantomValue> SpecCodec for PhantomCodec<T> {
    type Value = T;

    open spec fn spec_serialize(&self, v: T) -> Result<Seq<u8>, EncodeError> {
        if v == self.0 {
            Ok(Seq::empty())
        } else {
            Err(EncodeError::InvalidData)
        }
    }

    open spec fn spec_encode(&self, v: T, buf: Seq<u8>, off: int) -> EncodeOutcome {
        if v == self.0 {
            (buf, off, Ok(()))
        } else {
            (buf, off, Err(EncodeError::InvalidData))
        }
    }

    open spec fn spec_decode(&self, buf: Seq<u8>, off: int) -> DecodeOutcome<T> {
        (off, Ok(self.0))
    }

    open spec fn decode_requires(&self, buf: Seq<u8>, off: int) -> bool {
        true
    }

    open spec fn measure_fits(&self, v: T) -> bool {
        true
    }

    open spec fn prefix_secure(&self) -> bool {
        true
    }

    open spec fn spec_wf(&self, v: T) -> bool {
        true
    }

    proof fn lemma_encode(&self, v: T, buf: Seq<u8>, off: int) {
        if v == self.0 && off <= buf.len() {
            assert(buf.subrange(0, off) + Seq::<u8>::empty() + buf.subrange(off, buf.len() as int)
                =~= buf);
        }
    }

    proof fn lemma_decode(&self, buf: Seq<u8>, off: int) {
    }

    proof fn lemma_measure_fits(&self, v: T) {
    }

    proof fn lemma_roundtrip(&self, v: T, pre: Seq<u8>, post: Seq<u8>) {
    }
}

impl<'encoded, 'decoded, T: PhantomValue + 'decoded> Decoder<'encoded, 'decoded> for PhantomCodec<T> {
    type Decoded = T;

    fn decode(&self, encoded: &'encoded [u8], offset: &mut usize) -> (r: Result<T, DecodeError>) {
        proof {
            T::lemma_model(self.0);
        }
        Ok(self.0.duplicate())
    }
}

impl<T: PhantomValue> Encoder for PhantomCodec<T> {
    type Decoded = T;

    fn encode(&self, decoded: &T, encoded: &mut [u8], offset: &mut usize) -> (r: Result<
        (),
        EncodeError,
    >) {
        proof {
            T::lemma_model(*decoded);
        }
        if !decoded.same(&self.0) {
            return Err(EncodeError::InvalidData);
        }
        Ok(())
    }
}

impl<T: PhantomValue> Measurer for PhantomCodec<T> {
    type Decoded = T;

    fn measure(&self, decoded: &T) -> (r: Result<usize, EncodeError>) {
        proof {
            T::lemma_model(*decoded);
        }
        if !decoded.same(&self.0) {
            return Err(EncodeError::InvalidData);
        }
        Ok(0)
    }
}

impl<T: PhantomValue> FixedMeasurer for PhantomCodec<T> {
    open spec fn spec_fixed_size(&self) -> nat {
        0
    }

    fn measure_fixed(&self) -> (r: usize) {
        0
    }

    proof fn lemma_fixed_size(&self, v: T) {
    }
}

} // verus!
