//! Codecs for text: UTF-8 strings and nul-terminated C strings.
use vstd::prelude::*;

use vstd::slice::slice_subrange;
use vstd::string::StringSliceAdditionalSpecFns;
use vstd::utf8::{decode_utf8, encode_utf8, encode_utf8_decode_utf8, encode_utf8_valid_utf8, valid_utf8};

use crate::asis::write_slice;
use crate::bytes::{decode_in_bounds, encode_agrees, write_bytes, DecodeOutcome, EncodeOutcome};
use crate::error::{DecodeError, EncodeError};
use crate::model::{lemma_models_bytes, Model};
use crate::{Decoder, Encoder, FixedMeasurer, Measurer, SpecCodec};

verus! {

/// Views bytes as a string slice when they are UTF-8 (std
/// `core::str::from_utf8`, which fails exactly when the bytes are not valid
/// UTF-8, and otherwise returns a string slice over the same bytes).
#[verifier::external_body]
fn str_from_utf8(bytes: &[u8]) -> (r: Option<&str>)
    ensures
        r is Some <==> valid_utf8(bytes@),
        r matches Some(s) ==> s.spec_bytes() == bytes@,
{
    core::str::from_utf8(bytes).ok()
}

/// A codec for UTF-8 strings, whose bytes the inner codec encodes, decodes
/// and measures.
pub struct UTF8Codec<Codec>(pub Codec);

impl<Codec> UTF8Codec<Codec> {
    pub fn new(codec: Codec) -> (c: Self)
        ensures
            c == UTF8Codec(codec),
    {
        UTF8Codec(codec)
    }
}

impl<Codec: SpecCodec<Value = Seq<u8>>> SpecCodec for UTF8Codec<Codec> {
    type Value = Seq<char>;

    open spec fn spec_serialize(&self, v: Seq<char>) -> Result<Seq<u8>, EncodeError> {
        self.0.spec_serialize(encode_utf8(v))
    }

    open spec fn spec_encode(&self, v: Seq<char>, buf: Seq<u8>, off: int) -> EncodeOutcome {
        self.0.spec_encode(encode_utf8(v), buf, off)
    }

    /// The inner bytes, which must be valid UTF-8.
    open spec fn spec_decode(&self, buf: Seq<u8>, off: int) -> DecodeOutcome<Seq<char>> {
        let inner = self.0.spec_decode(buf, off);
        match inner.1 {
            Ok(bytes) => if valid_utf8(bytes) {
                (inner.0, Ok(decode_utf8(bytes)))
            } else {
                (inner.0, Err(DecodeError::InvalidData))
            },
            Err(e) => (inner.0, Err(e)),
        }
    }

    open spec fn decode_requires(&self, buf: Seq<u8>, off: int) -> bool {
        self.0.decode_requires(buf, off)
    }

    open spec fn measure_fits(&self, v: Seq<char>) -> bool {
        self.0.measure_fits(encode_utf8(v))
    }

    open spec fn prefix_secure(&self) -> bool {
        self.0.prefix_secure()
    }

    open spec fn spec_wf(&self, v: Seq<char>) -> bool {
        self.0.spec_wf(encode_utf8(v))
    }

    proof fn lemma_encode(&self, v: Seq<char>, buf: Seq<u8>, off: int) {
        self.0.lemma_encode(encode_utf8(v), buf, off);
    }

    proof fn lemma_decode(&self, buf: Seq<u8>, off: int) {
        self.0.lemma_decode(buf, off);
    }

    proof fn lemma_measure_fits(&self, v: Seq<char>) {
        self.0.lemma_measure_fits(encode_utf8(v));
    }

    proof fn lemma_roundtrip(&self, v: Seq<char>, pre: Seq<u8>, post: Seq<u8>) {
        self.0.lemma_roundtrip(encode_utf8(v), pre, post);
        encode_utf8_valid_utf8(v);
        encode_utf8_decode_utf8(v);
    }
}

impl<'encoded: 'decoded, 'decoded, Codec> Decoder<'encoded, 'decoded> for UTF8Codec<Codec> where
    Codec: Decoder<'encoded, 'decoded, Decoded = &'decoded [u8]> + SpecCodec<Value = Seq<u8>>,
 {
    type Decoded = &'decoded str;

    fn decode(&self, encoded: &'encoded [u8], offset: &mut usize) -> (r: Result<
        &'decoded str,
        DecodeError,
    >) {
        let mut inner_offset = *offset;
        let inner = self.0.decode(encoded, &mut inner_offset);
        *offset = inner_offset;
        let bytes = match inner {
            Ok(bytes) => bytes,
            Err(e) => return Err(e),
        };
        proof {
            lemma_models_bytes(bytes@);
        }
        match str_from_utf8(bytes) {
            Some(s) => {
                proof {
                    vstd::utf8::decode_utf8_encode_utf8(bytes@);
                    encode_utf8_decode_utf8(s@);
                }
                Ok(s)
            },
            None => Err(DecodeError::InvalidData),
        }
    }
}

impl<Codec: Encoder<Decoded = [u8]> + SpecCodec<Value = Seq<u8>>> Encoder for UTF8Codec<Codec> {
    type Decoded = str;

    fn encode(&self, decoded: &str, encoded: &mut [u8], offset: &mut usize) -> (r: Result<
        (),
        EncodeError,
    >) {
        let bytes = decoded.as_bytes();
        proof {
            lemma_models_bytes(bytes@);
        }
        self.0.encode(bytes, encoded, offset)
    }
}

impl<Codec: Measurer<Decoded = [u8]> + SpecCodec<Value = Seq<u8>>> Measurer for UTF8Codec<Codec> {
    type Decoded = str;

    fn measure(&self, decoded: &str) -> (r: Result<usize, EncodeError>) {
        let bytes = decoded.as_bytes();
        proof {
            lemma_models_bytes(bytes@);
        }
        self.0.measure(bytes)
    }
}

impl<Codec: FixedMeasurer<Decoded = [u8]> + SpecCodec<Value = Seq<u8>>> FixedMeasurer for UTF8Codec<
    Codec,
> {
    open spec fn spec_fixed_size(&self) -> nat {
        self.0.spec_fixed_size()
    }

    fn measure_fixed(&self) -> (r: usize) {
        self.0.measure_fixed()
    }

    proof fn lemma_fixed_size(&self, v: Seq<char>) {
        self.0.lemma_fixed_size(encode_utf8(v));
    }
}

/// The bytes of a C string: a terminating nul and no nul before it.
pub open spec fn is_c_string(s: Seq<u8>) -> bool {
    &&& s.len() >= 1
    &&& s.last() == 0
    &&& forall|i: int| 0 <= i < s.len() - 1 ==> s[i] != 0
}

/// The index of the first nul byte at or after `i`, if there is one.
pub open spec fn nul_index(buf: Seq<u8>, i: int) -> Option<int>
    decreases buf.len() - i,
{
    if i < 0 || i >= buf.len() {
        None
    } else if buf[i] == 0 {
        Some(i)
    } else {
        nul_index(buf, i + 1)
    }
}

/// The first nul at or after `i` is the one at `end` when none comes
/// before it.
pub proof fn lemma_nul_index(buf: Seq<u8>, i: int, end: int)
    requires
        0 <= i <= end < buf.len(),
        buf[end] == 0,
        forall|j: int| i <= j < end ==> buf[j] != 0,
    ensures
        nul_index(buf, i) == Some(end),
    decreases end - i,
{
    if i < end {
        lemma_nul_index(buf, i + 1, end);
    }
}

/// Whether `bytes` are the bytes of a C string.
fn check_c_string(bytes: &[u8]) -> (r: bool)
    ensures
        r == is_c_string(bytes@),
{
    let n = bytes.len();
    if n == 0 {
        return false;
    }
    let mut i: usize = 0;
    while i < n - 1
        invariant
            n == bytes@.len(),
            n >= 1,
            i <= n - 1,
            forall|j: int| 0 <= j < i ==> bytes@[j] != 0,
        decreases n - 1 - i,
    {
        if bytes[i] == 0 {
            return false;
        }
        i = i + 1;
    }
    bytes[n - 1] == 0
}

/// A codec for C strings: their bytes, terminating nul included, written as
/// they are; decoding reads up to and including the first nul.
///
/// The encoded values are byte slices that hold a C string with its
/// terminating nul; encoding any other bytes is `InvalidData`.
pub struct CStrCodec;

impl CStrCodec {
    pub fn new() -> (c: Self)
        ensures
            c == CStrCodec,
    {
        CStrCodec
    }
}

impl SpecCodec for CStrCodec {
    type Value = Seq<u8>;

    open spec fn spec_serialize(&self, v: Seq<u8>) -> Result<Seq<u8>, EncodeError> {
        if is_c_string(v) {
            Ok(v)
        } else {
            Err(EncodeError::InvalidData)
        }
    }

    open spec fn spec_encode(&self, v: Seq<u8>, buf: Seq<u8>, off: int) -> EncodeOutcome {
        if is_c_string(v) {
            write_bytes(buf, off, v)
        } else {
            (buf, off, Err(EncodeError::InvalidData))
        }
    }

    /// Up to and including the first nul; without a nul the data is invalid.
    open spec fn spec_decode(&self, buf: Seq<u8>, off: int) -> DecodeOutcome<Seq<u8>> {
        match nul_index(buf, off) {
            Some(k) => (k + 1, Ok(buf.subrange(off, k + 1))),
            None => (off, Err(DecodeError::InvalidData)),
        }
    }

    open spec fn decode_requires(&self, buf: Seq<u8>, off: int) -> bool {
        off <= buf.len()
    }

    open spec fn measure_fits(&self, v: Seq<u8>) -> bool {
        v.len() <= usize::MAX
    }

    open spec fn prefix_secure(&self) -> bool {
        true
    }

    open spec fn spec_wf(&self, v: Seq<u8>) -> bool {
        true
    }

    proof fn lemma_encode(&self, v: Seq<u8>, buf: Seq<u8>, off: int) {
    }

    proof fn lemma_decode(&self, buf: Seq<u8>, off: int) {
        lemma_nul_index_bounds(buf, off);
    }

    proof fn lemma_measure_fits(&self, v: Seq<u8>) {
    }

    proof fn lemma_roundtrip(&self, v: Seq<u8>, pre: Seq<u8>, post: Seq<u8>) {
        let b = pre + v + post;
        let end = pre.len() + v.len() - 1;
        assert forall|j: int| pre.len() <= j < end implies b[j] != 0 by {
            assert(b[j] == v[j - pre.len()]);
        }
        assert(b[end] == v.last());
        lemma_nul_index(b, pre.len() as int, end);
        assert(b.subrange(pre.len() as int, end + 1) =~= v);
    }
}

/// The first nul lies within the buffer, at or after where the search starts.
pub proof fn lemma_nul_index_bounds(buf: Seq<u8>, i: int)
    ensures
        nul_index(buf, i) matches Some(k) ==> 0 <= i <= k < buf.len() && buf[k] == 0,
    decreases buf.len() - i,
{
    if 0 <= i < buf.len() && buf[i] != 0 {
        lemma_nul_index_bounds(buf, i + 1);
    }
}

impl<'encoded: 'decoded, 'decoded> Decoder<'encoded, 'decoded> for CStrCodec {
    type Decoded = &'decoded [u8];

    fn decode(&self, encoded: &'encoded [u8], offset: &mut usize) -> (r: Result<
        &'decoded [u8],
        DecodeError,
    >) {
        let n = encoded.len();
        let start = *offset;
        let mut i = start;
        while i < n && encoded[i] != 0
            invariant
                n == encoded@.len(),
                start <= i <= n,
                nul_index(encoded@, start as int) == nul_index(encoded@, i as int),
            decreases n - i,
        {
            i = i + 1;
        }
        if i == n {
            return Err(DecodeError::InvalidData);
        }
        let cstr = slice_subrange(encoded, start, i + 1);
        *offset = i + 1;
        proof {
            lemma_models_bytes(cstr@);
        }
        Ok(cstr)
    }
}

impl Encoder for CStrCodec {
    type Decoded = [u8];

    fn encode(&self, decoded: &[u8], encoded: &mut [u8], offset: &mut usize) -> (r: Result<
        (),
        EncodeError,
    >) {
        proof {
            lemma_models_bytes(decoded@);
        }
        if !check_c_string(decoded) {
            return Err(EncodeError::InvalidData);
        }
        write_slice(decoded, encoded, offset)
    }
}

impl Measurer for CStrCodec {
    type Decoded = [u8];

    fn measure(&self, decoded: &[u8]) -> (r: Result<usize, EncodeError>) {
        proof {
            lemma_models_bytes(decoded@);
        }
        if !check_c_string(decoded) {
            return Err(EncodeError::InvalidData);
        }
        Ok(decoded.len())
    }
}

} // verus!
