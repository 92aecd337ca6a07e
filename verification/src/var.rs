//! Codecs of variable size: the rest of the input, optional values and
//! length-prefixed byte strings.
use vstd::prelude::*;

use vstd::slice::slice_subrange;

use crate::asis::{write_slice, BoolCodec, U8Codec};
use crate::bytes::{
    decode_in_bounds, encode_agrees, lemma_splice_twice, splice, write_bytes, DecodeOutcome,
    EncodeOutcome,
};
use crate::error::{DecodeError, EncodeError};
use crate::model::{lemma_models_bytes, Model};
use crate::{Decoder, Encoder, Measurer, SpecCodec};

verus! {

/// An integer type that can stand for a length: it converts to and from
/// `usize`, failing when the number does not fit.
pub trait LengthValue: Sized + Model<M = Self> {
    /// The number `v` as a `usize`, if it is one.
    spec fn spec_to_usize(v: Self) -> Option<usize>;

    /// The number `n` in this type, if it fits.
    spec fn spec_from_usize(n: usize) -> Option<Self>;

    /// A length converted to this type converts back to itself.
    proof fn lemma_length_value(v: Self, n: usize)
        ensures
            v.model() == v,
            Self::spec_from_usize(n) == Some(v) ==> Self::spec_to_usize(v) == Some(n),
    ;

    fn to_usize(&self) -> (r: Result<usize, DecodeError>)
        ensures
            r == match Self::spec_to_usize(*self) {
                Some(n) => Ok::<usize, DecodeError>(n),
                None => Err(DecodeError::CodecFailure),
            },
    ;

    fn from_usize(n: usize) -> (r: Result<Self, EncodeError>)
        ensures
            r == match Self::spec_from_usize(n) {
                Some(v) => Ok::<Self, EncodeError>(v),
                None => Err(EncodeError::CodecFailure),
            },
    ;
}

impl LengthValue for u8 {
    open spec fn spec_to_usize(v: u8) -> Option<usize> {
        Some(v as usize)
    }

    open spec fn spec_from_usize(n: usize) -> Option<u8> {
        if n <= u8::MAX {
            Some(n as u8)
        } else {
            None
        }
    }

    proof fn lemma_length_value(v: u8, n: usize) {
    }

    fn to_usize(&self) -> (r: Result<usize, DecodeError>) {
        Ok(*self as usize)
    }

    fn from_usize(n: usize) -> (r: Result<u8, EncodeError>) {
        if n <= u8::MAX as usize {
            Ok(n as u8)
        } else {
            Err(EncodeError::CodecFailure)
        }
    }
}

impl LengthValue for u16 {
    open spec fn spec_to_usize(v: u16) -> Option<usize> {
        Some(v as usize)
    }

    open spec fn spec_from_usize(n: usize) -> Option<u16> {
        if n <= u16::MAX {
            Some(n as u16)
        } else {
            None
        }
    }

    proof fn lemma_length_value(v: u16, n: usize) {
    }

    fn to_usize(&self) -> (r: Result<usize, DecodeError>) {
        Ok(*self as usize)
    }

    fn from_usize(n: usize) -> (r: Result<u16, EncodeError>) {
        if n <= u16::MAX as usize {
            Ok(n as u16)
        } else {
            Err(EncodeError::CodecFailure)
        }
    }
}

impl LengthValue for u32 {
    open spec fn spec_to_usize(v: u32) -> Option<usize> {
        if v <= usize::MAX {
            Some(v as usize)
        } else {
            None
        }
    }

    open spec fn spec_from_usize(n: usize) -> Option<u32> {
        if n <= u32::MAX {
            Some(n as u32)
        } else {
            None
        }
    }

    proof fn lemma_length_value(v: u32, n: usize) {
    }

    fn to_usize(&self) -> (r: Result<usize, DecodeError>) {
        if (*self as u128) <= (usize::MAX as u128) {
            Ok(*self as usize)
        } else {
            Err(DecodeError::CodecFailure)
        }
    }

    fn from_usize(n: usize) -> (r: Result<u32, EncodeError>) {
        if (n as u128) <= (u32::MAX as u128) {
            Ok(n as u32)
        } else {
            Err(EncodeError::CodecFailure)
        }
    }
}

impl LengthValue for u64 {
    open spec fn spec_to_usize(v: u64) -> Option<usize> {
        if v <= usize::MAX {
            Some(v as usize)
        } else {
            None
        }
    }

    open spec fn spec_from_usize(n: usize) -> Option<u64> {
        Some(n as u64)
    }

    proof fn lemma_length_value(v: u64, n: usize) {
    }

    fn to_usize(&self) -> (r: Result<usize, DecodeError>) {
        if (*self as u128) <= (usize::MAX as u128) {
            Ok(*self as usize)
        } else {
            Err(DecodeError::CodecFailure)
        }
    }

    fn from_usize(n: usize) -> (r: Result<u64, EncodeError>) {
        Ok(n as u64)
    }
}

impl LengthValue for u128 {
    open spec fn spec_to_usize(v: u128) -> Option<usize> {
        if v <= usize::MAX {
            Some(v as usize)
        } else {
            None
        }
    }

    open spec fn spec_from_usize(n: usize) -> Option<u128> {
        Some(n as u128)
    }

    proof fn lemma_length_value(v: u128, n: usize) {
    }

    fn to_usize(&self) -> (r: Result<usize, DecodeError>) {
        if *self <= (usize::MAX as u128) {
            Ok(*self as usize)
        } else {
            Err(DecodeError::CodecFailure)
        }
    }

    fn from_usize(n: usize) -> (r: Result<u128, EncodeError>) {
        Ok(n as u128)
    }
}

impl LengthValue for usize {
    open spec fn spec_to_usize(v: usize) -> Option<usize> {
        Some(v)
    }

    open spec fn spec_from_usize(n: usize) -> Option<usize> {
        Some(n)
    }

    proof fn lemma_length_value(v: usize, n: usize) {
    }

    fn to_usize(&self) -> (r: Result<usize, DecodeError>) {
        Ok(*self)
    }

    fn from_usize(n: usize) -> (r: Result<usize, EncodeError>) {
        Ok(n)
    }
}

impl LengthValue for i8 {
    open spec fn spec_to_usize(v: i8) -> Option<usize> {
        if 0 <= v && v <= usize::MAX {
            Some(v as usize)
        } else {
            None
        }
    }

    open spec fn spec_from_usize(n: usize) -> Option<i8> {
        if n <= i8::MAX {
            Some(n as i8)
        } else {
            None
        }
    }

    proof fn lemma_length_value(v: i8, n: usize) {
    }

    fn to_usize(&self) -> (r: Result<usize, DecodeError>) {
        if *self >= 0 && (*self as u128) <= (usize::MAX as u128) {
            Ok(*self as usize)
        } else {
            Err(DecodeError::CodecFailure)
        }
    }

    fn from_usize(n: usize) -> (r: Result<i8, EncodeError>) {
        if (n as u128) <= (i8::MAX as u128) {
            Ok(n as i8)
        } else {
            Err(EncodeError::CodecFailure)
        }
    }
}

impl LengthValue for i16 {
    open spec fn spec_to_usize(v: i16) -> Option<usize> {
        if 0 <= v && v <= usize::MAX {
            Some(v as usize)
        } else {
            None
        }
    }

    open spec fn spec_from_usize(n: usize) -> Option<i16> {
        if n <= i16::MAX {
            Some(n as i16)
        } else {
            None
        }
    }

    proof fn lemma_length_value(v: i16, n: usize) {
    }

    fn to_usize(&self) -> (r: Result<usize, DecodeError>) {
        if *self >= 0 && (*self as u128) <= (usize::MAX as u128) {
            Ok(*self as usize)
        } else {
            Err(DecodeError::CodecFailure)
        }
    }

    fn from_usize(n: usize) -> (r: Result<i16, EncodeError>) {
        if (n as u128) <= (i16::MAX as u128) {
            Ok(n as i16)
        } else {
            Err(EncodeError::CodecFailure)
        }
    }
}

impl LengthValue for i32 {
    open spec fn spec_to_usize(v: i32) -> Option<usize> {
        if 0 <= v && v <= usize::MAX {
            Some(v as usize)
        } else {
            None
        }
    }

    open spec fn spec_from_usize(n: usize) -> Option<i32> {
        if n <= i32::MAX {
            Some(n as i32)
        } else {
            None
        }
    }

    proof fn lemma_length_value(v: i32, n: usize) {
    }

    fn to_usize(&self) -> (r: Result<usize, DecodeError>) {
        if *self >= 0 && (*self as u128) <= (usize::MAX as u128) {
            Ok(*self as usize)
        } else {
            Err(DecodeError::CodecFailure)
        }
    }

    fn from_usize(n: usize) -> (r: Result<i32, EncodeError>) {
        if (n as u128) <= (i32::MAX as u128) {
            Ok(n as i32)
        } else {
            Err(EncodeError::CodecFailure)
        }
    }
}

impl LengthValue for i64 {
    open spec fn spec_to_usize(v: i64) -> Option<usize> {
        if 0 <= v && v <= usize::MAX {
            Some(v as usize)
        } else {
            None
        }
    }

    open spec fn spec_from_usize(n: usize) -> Option<i64> {
        if n <= i64::MAX {
            Some(n as i64)
        } else {
            None
        }
    }

    proof fn lemma_length_value(v: i64, n: usize) {
    }

    fn to_usize(&self) -> (r: Result<usize, DecodeError>) {
        if *self >= 0 && (*self as u128) <= (usize::MAX as u128) {
            Ok(*self as usize)
        } else {
            Err(DecodeError::CodecFailure)
        }
    }

    fn from_usize(n: usize) -> (r: Result<i64, EncodeError>) {
        if (n as u128) <= (i64::MAX as u128) {
            Ok(n as i64)
        } else {
            Err(EncodeError::CodecFailure)
        }
    }
}

impl LengthValue for i128 {
    open spec fn spec_to_usize(v: i128) -> Option<usize> {
        if 0 <= v && v <= usize::MAX {
            Some(v as usize)
        } else {
            None
        }
    }

    open spec fn spec_from_usize(n: usize) -> Option<i128> {
        if n <= i128::MAX {
            Some(n as i128)
        } else {
            None
        }
    }

    proof fn lemma_length_value(v: i128, n: usize) {
    }

    fn to_usize(&self) -> (r: Result<usize, DecodeError>) {
        if *self >= 0 && (*self as u128) <= (usize::MAX as u128) {
            Ok(*self as usize)
        } else {
            Err(DecodeError::CodecFailure)
        }
    }

    fn from_usize(n: usize) -> (r: Result<i128, EncodeError>) {
        if (n as u128) <= (i128::MAX as u128) {
            Ok(n as i128)
        } else {
            Err(EncodeError::CodecFailure)
        }
    }
}

impl LengthValue for isize {
    open spec fn spec_to_usize(v: isize) -> Option<usize> {
        if 0 <= v && v <= usize::MAX {
            Some(v as usize)
        } else {
            None
        }
    }

    open spec fn spec_from_usize(n: usize) -> Option<isize> {
        if n <= isize::MAX {
            Some(n as isize)
        } else {
            None
        }
    }

    proof fn lemma_length_value(v: isize, n: usize) {
    }

    fn to_usize(&self) -> (r: Result<usize, DecodeError>) {
        if *self >= 0 && (*self as u128) <= (usize::MAX as u128) {
            Ok(*self as usize)
        } else {
            Err(DecodeError::CodecFailure)
        }
    }

    fn from_usize(n: usize) -> (r: Result<isize, EncodeError>) {
        if (n as u128) <= (isize::MAX as u128) {
            Ok(n as isize)
        } else {
            Err(EncodeError::CodecFailure)
        }
    }
}

/// The length of `v` in the length type `N`, when it fits.
pub open spec fn length_of<N: LengthValue, T>(v: Seq<T>) -> Option<N> {
    if v.len() <= usize::MAX {
        N::spec_from_usize(v.len() as usize)
    } else {
        None
    }
}

/// A codec that decodes all the bytes that remain in the input, and encodes
/// a byte slice as it is.
pub struct RemainingCodec;

impl RemainingCodec {
    pub fn new() -> (c: Self)
        ensures
            c == RemainingCodec,
    {
        RemainingCodec
    }
}

impl SpecCodec for RemainingCodec {
    type Value = Seq<u8>;

    open spec fn spec_serialize(&self, v: Seq<u8>) -> Result<Seq<u8>, EncodeError> {
        Ok(v)
    }

    open spec fn spec_encode(&self, v: Seq<u8>, buf: Seq<u8>, off: int) -> EncodeOutcome {
        write_bytes(buf, off, v)
    }

    /// Everything from `off` to the end; an offset past the end is invalid.
    open spec fn spec_decode(&self, buf: Seq<u8>, off: int) -> DecodeOutcome<Seq<u8>> {
        if 0 <= off <= buf.len() {
            (buf.len() as int, Ok(buf.subrange(off, buf.len() as int)))
        } else {
            (off, Err(DecodeError::InvalidData))
        }
    }

    open spec fn decode_requires(&self, buf: Seq<u8>, off: int) -> bool {
        true
    }

    open spec fn measure_fits(&self, v: Seq<u8>) -> bool {
        v.len() <= usize::MAX
    }

    open spec fn prefix_secure(&self) -> bool {
        false
    }

    open spec fn spec_wf(&self, v: Seq<u8>) -> bool {
        true
    }

    proof fn lemma_encode(&self, v: Seq<u8>, buf: Seq<u8>, off: int) {
    }

    proof fn lemma_decode(&self, buf: Seq<u8>, off: int) {
    }

    proof fn lemma_measure_fits(&self, v: Seq<u8>) {
    }

    proof fn lemma_roundtrip(&self, v: Seq<u8>, pre: Seq<u8>, post: Seq<u8>) {
        let b = pre + v + post;
        assert(b.subrange(pre.len() as int, b.len() as int) =~= v);
    }
}

impl Encoder for RemainingCodec {
    type Decoded = [u8];

    fn encode(&self, decoded: &[u8], encoded: &mut [u8], offset: &mut usize) -> (r: Result<
        (),
        EncodeError,
    >) {
        proof {
            lemma_models_bytes(decoded@);
        }
        write_slice(decoded, encoded, offset)
    }
}

impl<'encoded: 'decoded, 'decoded> Decoder<'encoded, 'decoded> for RemainingCodec {
    type Decoded = &'decoded [u8];

    fn decode(&self, encoded: &'encoded [u8], offset: &mut usize) -> (r: Result<
        &'decoded [u8],
        DecodeError,
    >) {
        if *offset > encoded.len() {
            return Err(DecodeError::InvalidData);
        }
        let remaining = slice_subrange(encoded, *offset, encoded.len());
        *offset = encoded.len();
        proof {
            lemma_models_bytes(remaining@);
        }
        Ok(remaining)
    }
}

impl Measurer for RemainingCodec {
    type Decoded = [u8];

    fn measure(&self, decoded: &[u8]) -> (r: Result<usize, EncodeError>) {
        proof {
            lemma_models_bytes(decoded@);
        }
        Ok(decoded.len())
    }
}

/// A codec for optional values: a presence flag, then the value when there
/// is one. The flag is `true` when the value is absent and `false` when it is
/// present.
pub struct OptionCodec<Item>(pub Item);

impl<Item> OptionCodec<Item> {
    pub fn new(item: Item) -> (c: Self)
        ensures
            c == OptionCodec(item),
    {
        OptionCodec(item)
    }
}

impl<Item: SpecCodec> SpecCodec for OptionCodec<Item> {
    type Value = Option<Item::Value>;

    open spec fn spec_serialize(&self, v: Option<Item::Value>) -> Result<Seq<u8>, EncodeError> {
        match v {
            None => Ok(seq![1u8]),
            Some(x) => match self.0.spec_serialize(x) {
                Ok(s) => Ok(seq![0u8] + s),
                Err(e) => Err(e),
            },
        }
    }

    open spec fn spec_encode(&self, v: Option<Item::Value>, buf: Seq<u8>, off: int) -> EncodeOutcome {
        match v {
            None => write_bytes(buf, off, seq![1u8]),
            Some(x) => {
                let flag = write_bytes(buf, off, seq![0u8]);
                if flag.2 is Ok {
                    self.0.spec_encode(x, flag.0, flag.1)
                } else {
                    flag
                }
            },
        }
    }

    open spec fn spec_decode(&self, buf: Seq<u8>, off: int) -> DecodeOutcome<Option<Item::Value>> {
        let flag = BoolCodec.spec_decode(buf, off);
        match flag.1 {
            Err(e) => (flag.0, Err(e)),
            Ok(true) => (flag.0, Ok(None)),
            Ok(false) => {
                let item = self.0.spec_decode(buf, flag.0);
                match item.1 {
                    Ok(x) => (item.0, Ok(Some(x))),
                    Err(e) => (item.0, Err(e)),
                }
            },
        }
    }

    open spec fn decode_requires(&self, buf: Seq<u8>, off: int) -> bool {
        true
    }

    open spec fn measure_fits(&self, v: Option<Item::Value>) -> bool {
        match v {
            None => true,
            Some(x) => self.0.measure_fits(x) && (self.0.spec_serialize(x) is Ok ==> 1
                + self.0.spec_serialize(x)->Ok_0.len() <= usize::MAX),
        }
    }

    open spec fn prefix_secure(&self) -> bool {
        self.0.prefix_secure()
    }

    open spec fn spec_wf(&self, v: Option<Item::Value>) -> bool {
        match v {
            None => true,
            Some(x) => self.0.spec_wf(x),
        }
    }

    proof fn lemma_encode(&self, v: Option<Item::Value>, buf: Seq<u8>, off: int) {
        match v {
            None => {},
            Some(x) => {
                let flag = write_bytes(buf, off, seq![0u8]);
                if flag.2 is Ok {
                    self.0.lemma_encode(x, flag.0, flag.1);
                    if self.0.spec_serialize(x) is Ok && off + 1 + self.0.spec_serialize(x)->Ok_0.len()
                        <= buf.len() {
                        lemma_splice_twice(buf, off, seq![0u8], self.0.spec_serialize(x)->Ok_0);
                    }
                }
            },
        }
    }

    proof fn lemma_decode(&self, buf: Seq<u8>, off: int) {
        let flag = BoolCodec.spec_decode(buf, off);
        if flag.1 == Ok::<bool, DecodeError>(false) {
            self.0.lemma_decode(buf, flag.0);
        }
    }

    proof fn lemma_measure_fits(&self, v: Option<Item::Value>) {
        match v {
            None => {},
            Some(x) => {
                self.0.lemma_measure_fits(x);
            },
        }
    }

    proof fn lemma_roundtrip(&self, v: Option<Item::Value>, pre: Seq<u8>, post: Seq<u8>) {
        match v {
            None => {
                assert((pre + seq![1u8] + post)[pre.len() as int] == 1u8);
            },
            Some(x) => {
                let s = self.0.spec_serialize(x)->Ok_0;
                let pre1 = pre + seq![0u8];
                assert(pre + (seq![0u8] + s) + post =~= pre1 + s + post);
                assert((pre1 + s + post)[pre.len() as int] == 0u8);
                self.0.lemma_roundtrip(x, pre1, post);
            },
        }
    }
}

impl<Item: Encoder<Decoded = D>, D: Model<M = Item::Value>> Encoder for OptionCodec<Item> {
    type Decoded = Option<D>;

    fn encode(
        &self,
        decoded: &Option<D>,
        encoded: &mut [u8],
        offset: &mut usize,
    ) -> (r: Result<(), EncodeError>) {
        match decoded {
            None => BoolCodec.encode(&true, encoded, offset),
            Some(item) => {
                match BoolCodec.encode(&false, encoded, offset) {
                    Ok(()) => {},
                    Err(e) => return Err(e),
                }
                self.0.encode(item, encoded, offset)
            },
        }
    }
}

impl<'encoded, 'decoded, Item: Decoder<'encoded, 'decoded>> Decoder<'encoded, 'decoded> for OptionCodec<
    Item,
> {
    type Decoded = Option<<Item as Decoder<'encoded, 'decoded>>::Decoded>;

    fn decode(&self, encoded: &'encoded [u8], offset: &mut usize) -> (r: Result<
        Option<<Item as Decoder<'encoded, 'decoded>>::Decoded>,
        DecodeError,
    >) {
        let flag = match BoolCodec.decode(encoded, offset) {
            Ok(flag) => flag,
            Err(e) => return Err(e),
        };
        if flag {
            Ok(None)
        } else {
            proof {
                self.0.lemma_decode(encoded@, *offset as int);
            }
            match self.0.decode(encoded, offset) {
                Ok(item) => Ok(Some(item)),
                Err(e) => Err(e),
            }
        }
    }
}

impl<Item: Measurer<Decoded = D>, D: Model<M = Item::Value>> Measurer for OptionCodec<Item> {
    type Decoded = Option<D>;

    fn measure(&self, decoded: &Option<D>) -> (r: Result<
        usize,
        EncodeError,
    >) {
        match decoded {
            None => BoolCodec.measure(&true),
            Some(item) => {
                let flag_size = match BoolCodec.measure(&false) {
                    Ok(n) => n,
                    Err(e) => return Err(e),
                };
                let item_size = match self.0.measure(item) {
                    Ok(n) => n,
                    Err(e) => return Err(e),
                };
                Ok(flag_size + item_size)
            },
        }
    }
}

/// A codec for byte slices prefixed with their length, which the given
/// length codec encodes.
pub struct BytesCodec<Length>(pub Length);

impl<Length> BytesCodec<Length> {
    pub fn new(length: Length) -> (c: Self)
        ensures
            c == BytesCodec(length),
    {
        BytesCodec(length)
    }
}

impl<Length: SpecCodec<Value = N>, N: LengthValue> SpecCodec for BytesCodec<Length> {
    type Value = Seq<u8>;

    open spec fn spec_serialize(&self, v: Seq<u8>) -> Result<Seq<u8>, EncodeError> {
        match length_of::<N, u8>(v) {
            None => Err(EncodeError::CodecFailure),
            Some(n) => match self.0.spec_serialize(n) {
                Ok(s) => Ok(s + v),
                Err(e) => Err(e),
            },
        }
    }

    open spec fn spec_encode(&self, v: Seq<u8>, buf: Seq<u8>, off: int) -> EncodeOutcome {
        match length_of::<N, u8>(v) {
            None => (buf, off, Err(EncodeError::CodecFailure)),
            Some(n) => {
                let len = self.0.spec_encode(n, buf, off);
                if len.2 is Ok {
                    write_bytes(len.0, len.1, v)
                } else {
                    len
                }
            },
        }
    }

    /// The length first; then that many bytes, which must all be there.
    open spec fn spec_decode(&self, buf: Seq<u8>, off: int) -> DecodeOutcome<Seq<u8>> {
        let len = self.0.spec_decode(buf, off);
        match len.1 {
            Err(e) => (len.0, Err(e)),
            Ok(n) => match N::spec_to_usize(n) {
                None => (len.0, Err(DecodeError::CodecFailure)),
                Some(size) => if len.0 + size <= buf.len() {
                    (len.0 + size, Ok(buf.subrange(len.0, len.0 + size)))
                } else {
                    (len.0, Err(DecodeError::InvalidData))
                },
            },
        }
    }

    open spec fn decode_requires(&self, buf: Seq<u8>, off: int) -> bool {
        self.0.decode_requires(buf, off)
    }

    open spec fn measure_fits(&self, v: Seq<u8>) -> bool {
        match length_of::<N, u8>(v) {
            None => true,
            Some(n) => self.0.measure_fits(n) && (self.0.spec_serialize(n) is Ok ==> self.0.spec_serialize(n)->Ok_0.len() + v.len() <= usize::MAX),
        }
    }

    open spec fn prefix_secure(&self) -> bool {
        self.0.prefix_secure()
    }

    open spec fn spec_wf(&self, v: Seq<u8>) -> bool {
        &&& self.0.prefix_secure()
        &&& match length_of::<N, u8>(v) {
            None => true,
            Some(n) => self.0.spec_wf(n),
        }
    }

    proof fn lemma_encode(&self, v: Seq<u8>, buf: Seq<u8>, off: int) {
        match length_of::<N, u8>(v) {
            None => {},
            Some(n) => {
                self.0.lemma_encode(n, buf, off);
                let len = self.0.spec_encode(n, buf, off);
                if len.2 is Ok && off + self.0.spec_serialize(n)->Ok_0.len() + v.len() <= buf.len() {
                    lemma_splice_twice(buf, off, self.0.spec_serialize(n)->Ok_0, v);
                }
            },
        }
    }

    proof fn lemma_decode(&self, buf: Seq<u8>, off: int) {
        self.0.lemma_decode(buf, off);
    }

    proof fn lemma_measure_fits(&self, v: Seq<u8>) {
        match length_of::<N, u8>(v) {
            None => {},
            Some(n) => {
                self.0.lemma_measure_fits(n);
            },
        }
    }

    proof fn lemma_roundtrip(&self, v: Seq<u8>, pre: Seq<u8>, post: Seq<u8>) {
        let n = length_of::<N, u8>(v)->Some_0;
        let s = self.0.spec_serialize(n)->Ok_0;
        assert(pre + (s + v) + post =~= pre + s + (v + post));
        self.0.lemma_roundtrip(n, pre, v + post);
        N::lemma_length_value(n, v.len() as usize);
        let b = pre + s + (v + post);
        assert(b.subrange((pre.len() + s.len()) as int, (pre.len() + s.len() + v.len()) as int) =~= v);
    }
}

impl<Length: Encoder<Decoded = N> + SpecCodec<Value = N>, N: LengthValue> Encoder for BytesCodec<
    Length,
> {
    type Decoded = [u8];

    fn encode(&self, decoded: &[u8], encoded: &mut [u8], offset: &mut usize) -> (r: Result<
        (),
        EncodeError,
    >) {
        proof {
            lemma_models_bytes(decoded@);
        }
        let size = decoded.len();
        let n = match N::from_usize(size) {
            Ok(n) => n,
            Err(e) => return Err(e),
        };
        proof {
            N::lemma_length_value(n, size);
        }
        match self.0.encode(&n, encoded, offset) {
            Ok(()) => {},
            Err(e) => return Err(e),
        }
        write_slice(decoded, encoded, offset)
    }
}

impl<
    'encoded: 'decoded,
    'decoded,
    Length: Decoder<'encoded, 'decoded, Decoded = N> + SpecCodec<Value = N>,
    N: LengthValue + 'decoded,
> Decoder<'encoded, 'decoded> for BytesCodec<Length> {
    type Decoded = &'decoded [u8];

    fn decode(&self, encoded: &'encoded [u8], offset: &mut usize) -> (r: Result<
        &'decoded [u8],
        DecodeError,
    >) {
        let mut length_offset = *offset;
        let decoded_length = self.0.decode(encoded, &mut length_offset);
        *offset = length_offset;
        let n = match decoded_length {
            Ok(n) => n,
            Err(e) => return Err(e),
        };
        proof {
            N::lemma_length_value(n, 0);
        }
        let size = match n.to_usize() {
            Ok(size) => size,
            Err(e) => return Err(e),
        };
        if *offset > encoded.len() || encoded.len() - *offset < size {
            return Err(DecodeError::InvalidData);
        }
        let buffer = slice_subrange(encoded, *offset, *offset + size);
        *offset = *offset + size;
        proof {
            lemma_models_bytes(buffer@);
        }
        Ok(buffer)
    }
}

impl<Length: Measurer<Decoded = N> + SpecCodec<Value = N>, N: LengthValue> Measurer for BytesCodec<
    Length,
> {
    type Decoded = [u8];

    fn measure(&self, decoded: &[u8]) -> (r: Result<usize, EncodeError>) {
        proof {
            lemma_models_bytes(decoded@);
        }
        let size = decoded.len();
        let n = match N::from_usize(size) {
            Ok(n) => n,
            Err(e) => return Err(e),
        };
        proof {
            N::lemma_length_value(n, size);
            self.0.lemma_measure_fits(n);
        }
        let size_measure = match self.0.measure(&n) {
            Ok(m) => m,
            Err(e) => return Err(e),
        };
        Ok(size_measure + size)
    }
}

} // verus!
