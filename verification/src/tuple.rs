//! The codec for the unit type.
use vstd::prelude::*;

use crate::bytes::{decode_in_bounds, encode_agrees, splice, DecodeOutcome, EncodeOutcome};
use crate::error::{DecodeError, EncodeError};
use crate::{Decoder, Encoder, FixedMeasurer, Measurer, SpecCodec};

verus! {

/// The codec for `()`, which reads and writes no bytes.
pub struct UnitCodec;

impl UnitCodec {
    pub fn new() -> (c: Self)
        ensures
            c == UnitCodec,
    {
        UnitCodec
    }
}

impl SpecCodec for UnitCodec {
    type Value = ();

    open spec fn spec_serialize(&self, v: ()) -> Result<Seq<u8>, EncodeError> {
        Ok(Seq::empty())
    }

    open spec fn spec_encode(&self, v: (), buf: Seq<u8>, off: int) -> EncodeOutcome {
        (buf, off, Ok(()))
    }

    open spec fn spec_decode(&self, buf: Seq<u8>, off: int) -> DecodeOutcome<()> {
        (off, Ok(()))
    }

    open spec fn decode_requires(&self, buf: Seq<u8>, off: int) -> bool {
        true
    }

    open spec fn measure_fits(&self, v: ()) -> bool {
        true
    }

    open spec fn prefix_secure(&self) -> bool {
        true
    }

    open spec fn spec_wf(&self, v: ()) -> bool {
        true
    }

    proof fn lemma_encode(&self, v: (), buf: Seq<u8>, off: int) {
        if off <= buf.len() {
            assert(splice(buf, off, Seq::empty()) =~= buf);
        }
    }

    proof fn lemma_decode(&self, buf: Seq<u8>, off: int) {
    }

    proof fn lemma_measure_fits(&self, v: ()) {
    }

    proof fn lemma_roundtrip(&self, v: (), pre: Seq<u8>, post: Seq<u8>) {
    }
}

impl<'encoded, 'decoded> Decoder<'encoded, 'decoded> for UnitCodec {
    type Decoded = ();

    fn decode(&self, encoded: &'encoded [u8], offset: &mut usize) -> (r: Result<(), DecodeError>) {
        Ok(())
    }
}

impl Encoder for UnitCodec {
    type Decoded = ();

    fn encode(&self, decoded: &(), encoded: &mut [u8], offset: &mut usize) -> (r: Result<
        (),
        EncodeError,
    >) {
        Ok(())
    }
}

impl Measurer for UnitCodec {
    type Decoded = ();

    fn measure(&self, decoded: &()) -> (r: Result<usize, EncodeError>) {
        Ok(0)
    }
}

impl FixedMeasurer for UnitCodec {
    open spec fn spec_fixed_size(&self) -> nat {
        0
    }

    fn measure_fixed(&self) -> (r: usize) {
        0
    }

    proof fn lemma_fixed_size(&self, v: ()) {
    }
}

} // verus!
