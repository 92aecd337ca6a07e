//! Spec-level vocabulary shared by all codecs: byte splicing and the
//! outcomes of encoding and decoding.
use vstd::prelude::*;

use crate::error::{DecodeError, EncodeError};
use crate::model::Model;

verus! {

/// `buf` with `s` written over it starting at `off`.
pub open spec fn splice(buf: Seq<u8>, off: int, s: Seq<u8>) -> Seq<u8> {
    buf.subrange(0, off) + s + buf.subrange(off + s.len(), buf.len() as int)
}

/// What an encode leaves behind: the buffer, the offset and the result.
pub type EncodeOutcome = (Seq<u8>, int, Result<(), EncodeError>);

/// What a decode leaves behind: the offset and the decoded value or error.
pub type DecodeOutcome<V> = (int, Result<V, DecodeError>);

/// The outcome of writing `s` at `off` as one piece: either it fits and is
/// written, or nothing changes and `BufferTooSmall` is reported.
pub open spec fn write_bytes(buf: Seq<u8>, off: int, s: Seq<u8>) -> EncodeOutcome {
    if 0 <= off && off + s.len() <= buf.len() {
        (splice(buf, off, s), off + s.len(), Ok(()))
    } else {
        (buf, off, Err(EncodeError::BufferTooSmall))
    }
}

/// An encode outcome agrees with the bytes that the value serializes to:
/// it succeeds whenever those bytes fit, and on success it has written
/// exactly them and moved past them. (An empty serialization may also
/// succeed at an offset past the end, writing nothing.)
pub open spec fn encode_agrees(
    ser: Result<Seq<u8>, EncodeError>,
    buf: Seq<u8>,
    off: int,
    out: EncodeOutcome,
) -> bool {
    &&& out.0.len() == buf.len()
    &&& off <= out.1
    &&& (out.1 == off || out.1 <= buf.len())
    &&& (ser is Ok && off + ser->Ok_0.len() <= buf.len() ==> out.2 is Ok)
    &&& (out.2 is Ok ==> {
        &&& ser is Ok
        &&& out.1 == off + ser->Ok_0.len()
        &&& (off + ser->Ok_0.len() <= buf.len() ==> out.0 == splice(buf, off, ser->Ok_0))
        &&& (off + ser->Ok_0.len() > buf.len() ==> ser->Ok_0.len() == 0 && out.0 == buf)
    })
}

/// A decode never moves backwards and never leaves the buffer once it moved.
pub open spec fn decode_in_bounds<V>(buf: Seq<u8>, off: int, out: DecodeOutcome<V>) -> bool {
    &&& off <= out.0
    &&& (out.0 == off || out.0 <= buf.len())
}

/// The state after an exec encode is the spec outcome.
pub open spec fn encode_matches(
    out: EncodeOutcome,
    buf: Seq<u8>,
    off: usize,
    r: Result<(), EncodeError>,
) -> bool {
    &&& buf == out.0
    &&& off as int == out.1
    &&& r == out.2
}

/// The result of an exec decode, taken by its model, is the spec outcome.
pub open spec fn decode_matches<T: Model>(
    out: DecodeOutcome<T::M>,
    off: usize,
    r: Result<T, DecodeError>,
) -> bool {
    &&& off as int == out.0
    &&& match r {
        Ok(x) => out.1 == Ok::<T::M, DecodeError>(x.model()),
        Err(e) => out.1 == Err::<T::M, DecodeError>(e),
    }
}

/// The result of an exec measure is the length of the serialization.
pub open spec fn measure_matches(ser: Result<Seq<u8>, EncodeError>, r: Result<usize, EncodeError>) -> bool {
    match ser {
        Ok(s) => r == Ok::<usize, EncodeError>(s.len() as usize),
        Err(e) => r == Err::<usize, EncodeError>(e),
    }
}

/// Writing two pieces one after the other writes their concatenation.
pub proof fn lemma_splice_twice(buf: Seq<u8>, off: int, s1: Seq<u8>, s2: Seq<u8>)
    requires
        0 <= off,
        off + s1.len() + s2.len() <= buf.len(),
    ensures
        splice(splice(buf, off, s1), off + s1.len(), s2) == splice(buf, off, s1 + s2),
{
    assert(splice(splice(buf, off, s1), off + s1.len(), s2) =~= splice(buf, off, s1 + s2));
}

/// The serialization of two parts one after the other: the first error, or
/// the concatenation.
pub open spec fn ser_then(
    a: Result<Seq<u8>, EncodeError>,
    b: Result<Seq<u8>, EncodeError>,
) -> Result<Seq<u8>, EncodeError> {
    match a {
        Err(e) => Err(e),
        Ok(s) => match b {
            Ok(t) => Ok(s + t),
            Err(e) => Err(e),
        },
    }
}

/// Encoding two parts one after the other: the second runs only when the
/// first succeeded.
pub open spec fn encode_then(first: EncodeOutcome, second: EncodeOutcome) -> EncodeOutcome {
    if first.2 is Ok {
        second
    } else {
        first
    }
}

/// Encodings that agree with their parts' serializations agree, one after
/// the other, with the serialization of both parts.
pub proof fn lemma_encode_then(
    a: Result<Seq<u8>, EncodeError>,
    b: Result<Seq<u8>, EncodeError>,
    buf: Seq<u8>,
    off: int,
    first: EncodeOutcome,
    second: EncodeOutcome,
)
    requires
        0 <= off,
        encode_agrees(a, buf, off, first),
        first.2 is Ok ==> encode_agrees(b, first.0, first.1, second),
    ensures
        encode_agrees(ser_then(a, b), buf, off, encode_then(first, second)),
{
    if first.2 is Ok {
        let s = a->Ok_0;
        if b is Ok {
            let t = b->Ok_0;
            if off + s.len() + t.len() <= buf.len() {
                lemma_splice_twice(buf, off, s, t);
            }
        }
    }
}

} // verus!
