//! Collections prefixed with the number of their items.
use vstd::prelude::*;

use core::marker::PhantomData;

use crate::array::{
    decode_items, encode_items, items_decode, items_encode, items_measure_fits, items_serialize,
    items_wf, lemma_items_decode, lemma_items_encode, lemma_items_measure_fits,
    lemma_items_roundtrip, measure_items,
};
use crate::bytes::{
    decode_in_bounds, encode_agrees, encode_then, lemma_encode_then, ser_then, DecodeOutcome,
    EncodeOutcome,
};
use crate::error::{DecodeError, EncodeError};
use crate::model::{models, Model};
use crate::var::{length_of, LengthValue};
use crate::{Decoder, Encoder, Measurer, SpecCodec};

verus! {

/// A codec for a collection of items: the number of items, which the length
/// codec encodes, then the items one after the other, which the item codec
/// encodes.
pub struct PrefixedCodec<Collection, Length, Item> {
    pub collection: PhantomData<Collection>,
    pub length: Length,
    pub item: Item,
}

impl<Collection, Length, Item> PrefixedCodec<Collection, Length, Item> {
    pub fn new(length: Length, item: Item) -> (c: Self)
        ensures
            c.length == length,
            c.item == item,
    {
        PrefixedCodec { collection: PhantomData, length, item }
    }
}

impl<Collection, Length: SpecCodec<Value = N>, N: LengthValue, Item: SpecCodec> SpecCodec for PrefixedCodec<
    Collection,
    Length,
    Item,
> {
    type Value = Seq<Item::Value>;

    /// The count, then the items; a count that the length type cannot hold
    /// is a `CodecFailure`.
    open spec fn spec_serialize(&self, v: Seq<Item::Value>) -> Result<Seq<u8>, EncodeError> {
        match length_of::<N, Item::Value>(v) {
            None => Err(EncodeError::CodecFailure),
            Some(n) => ser_then(self.length.spec_serialize(n), items_serialize(self.item, v)),
        }
    }

    open spec fn spec_encode(&self, v: Seq<Item::Value>, buf: Seq<u8>, off: int) -> EncodeOutcome {
        match length_of::<N, Item::Value>(v) {
            None => (buf, off, Err(EncodeError::CodecFailure)),
            Some(n) => {
                let len = self.length.spec_encode(n, buf, off);
                encode_then(len, items_encode(self.item, v, len.0, len.1))
            },
        }
    }

    /// The count first, then that many items; a count that is no `usize` is
    /// a `CodecFailure`.
    open spec fn spec_decode(&self, buf: Seq<u8>, off: int) -> DecodeOutcome<Seq<Item::Value>> {
        let len = self.length.spec_decode(buf, off);
        match len.1 {
            Err(e) => (len.0, Err(e)),
            Ok(n) => match N::spec_to_usize(n) {
                None => (len.0, Err(DecodeError::CodecFailure)),
                Some(count) => items_decode(self.item, count as nat, buf, len.0),
            },
        }
    }

    open spec fn decode_requires(&self, buf: Seq<u8>, off: int) -> bool {
        &&& self.length.decode_requires(buf, off)
        &&& (off <= buf.len() || self.item.decode_requires(buf, off))
    }

    open spec fn measure_fits(&self, v: Seq<Item::Value>) -> bool {
        match length_of::<N, Item::Value>(v) {
            None => true,
            Some(n) => {
                &&& self.length.measure_fits(n)
                &&& (self.length.spec_serialize(n) is Ok ==> {
                    &&& items_measure_fits(self.item, v)
                    &&& (items_serialize(self.item, v) is Ok ==> self.length.spec_serialize(
                        n,
                    )->Ok_0.len() + items_serialize(self.item, v)->Ok_0.len() <= usize::MAX)
                })
            },
        }
    }

    open spec fn prefix_secure(&self) -> bool {
        self.length.prefix_secure() && self.item.prefix_secure()
    }

    open spec fn spec_wf(&self, v: Seq<Item::Value>) -> bool {
        &&& (v.len() > 0 ==> self.length.prefix_secure())
        &&& (v.len() > 1 ==> self.item.prefix_secure())
        &&& items_wf(self.item, v)
        &&& match length_of::<N, Item::Value>(v) {
            None => true,
            Some(n) => self.length.spec_wf(n),
        }
    }

    proof fn lemma_encode(&self, v: Seq<Item::Value>, buf: Seq<u8>, off: int) {
        match length_of::<N, Item::Value>(v) {
            None => {},
            Some(n) => {
                self.length.lemma_encode(n, buf, off);
                let len = self.length.spec_encode(n, buf, off);
                if len.2 is Ok {
                    lemma_items_encode(self.item, v, len.0, len.1);
                }
                lemma_encode_then(
                    self.length.spec_serialize(n),
                    items_serialize(self.item, v),
                    buf,
                    off,
                    len,
                    items_encode(self.item, v, len.0, len.1),
                );
            },
        }
    }

    proof fn lemma_decode(&self, buf: Seq<u8>, off: int) {
        self.length.lemma_decode(buf, off);
        let len = self.length.spec_decode(buf, off);
        if len.1 is Ok {
            if let Some(count) = N::spec_to_usize(len.1->Ok_0) {
                lemma_items_decode(self.item, count as nat, buf, len.0);
            }
        }
    }

    proof fn lemma_measure_fits(&self, v: Seq<Item::Value>) {
        match length_of::<N, Item::Value>(v) {
            None => {},
            Some(n) => {
                self.length.lemma_measure_fits(n);
                if self.length.spec_serialize(n) is Ok {
                    lemma_items_measure_fits(self.item, v);
                }
            },
        }
    }

    proof fn lemma_roundtrip(&self, v: Seq<Item::Value>, pre: Seq<u8>, post: Seq<u8>) {
        let n = length_of::<N, Item::Value>(v)->Some_0;
        let s = self.length.spec_serialize(n)->Ok_0;
        let t = items_serialize(self.item, v)->Ok_0;
        assert(pre + (s + t) + post =~= pre + s + (t + post));
        assert(pre + (s + t) + post =~= (pre + s) + t + post);
        self.length.lemma_roundtrip(n, pre, t + post);
        N::lemma_length_value(n, v.len() as usize);
        lemma_items_roundtrip(self.item, v, pre + s, post);
    }
}

impl<
    Length: Encoder<Decoded = N> + SpecCodec<Value = N>,
    N: LengthValue,
    Item: Encoder<Decoded = D>,
    D: Model<M = Item::Value>,
> Encoder for PrefixedCodec<Vec<D>, Length, Item> {
    type Decoded = Vec<D>;

    fn encode(&self, decoded: &Vec<D>, encoded: &mut [u8], offset: &mut usize) -> (r: Result<
        (),
        EncodeError,
    >) {
        let count = decoded.len();
        let n = match N::from_usize(count) {
            Ok(n) => n,
            Err(e) => return Err(e),
        };
        proof {
            N::lemma_length_value(n, count);
        }
        match self.length.encode(&n, encoded, offset) {
            Ok(()) => {},
            Err(e) => return Err(e),
        }
        encode_items(&self.item, decoded.as_slice(), encoded, offset)
    }
}

impl<
    'encoded,
    'decoded,
    Length: Decoder<'encoded, 'decoded, Decoded = N> + SpecCodec<Value = N>,
    N: LengthValue + 'decoded,
    Item: Decoder<'encoded, 'decoded>,
> Decoder<'encoded, 'decoded> for PrefixedCodec<
    Vec<<Item as Decoder<'encoded, 'decoded>>::Decoded>,
    Length,
    Item,
> {
    type Decoded = Vec<<Item as Decoder<'encoded, 'decoded>>::Decoded>;

    fn decode(&self, encoded: &'encoded [u8], offset: &mut usize) -> (r: Result<
        Vec<<Item as Decoder<'encoded, 'decoded>>::Decoded>,
        DecodeError,
    >) {
        proof {
            self.length.lemma_decode(encoded@, *offset as int);
        }
        let mut length_offset = *offset;
        let decoded_length = self.length.decode(encoded, &mut length_offset);
        *offset = length_offset;
        let n = match decoded_length {
            Ok(n) => n,
            Err(e) => return Err(e),
        };
        proof {
            N::lemma_length_value(n, 0);
        }
        let count = match n.to_usize() {
            Ok(count) => count,
            Err(e) => return Err(e),
        };
        proof {
            if *offset <= encoded@.len() {
                self.item.lemma_decode(encoded@, *offset as int);
            }
        }
        decode_items(&self.item, count, encoded, offset)
    }
}

impl<
    Length: Measurer<Decoded = N> + SpecCodec<Value = N>,
    N: LengthValue,
    Item: Measurer<Decoded = D>,
    D: Model<M = Item::Value>,
> Measurer for PrefixedCodec<Vec<D>, Length, Item> {
    type Decoded = Vec<D>;

    fn measure(&self, decoded: &Vec<D>) -> (r: Result<usize, EncodeError>) {
        let count = decoded.len();
        let n = match N::from_usize(count) {
            Ok(n) => n,
            Err(e) => return Err(e),
        };
        proof {
            N::lemma_length_value(n, count);
        }
        let length_size = match self.length.measure(&n) {
            Ok(size) => size,
            Err(e) => return Err(e),
        };
        let items_size = match measure_items(&self.item, decoded.as_slice()) {
            Ok(size) => size,
            Err(e) => return Err(e),
        };
        Ok(length_size + items_size)
    }
}

} // verus!
