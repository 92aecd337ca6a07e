//! Sequences of items, one after the other: the spec of such sequences and
//! the codec for fixed-size arrays.
use vstd::prelude::*;

use crate::bytes::{
    decode_in_bounds, decode_matches, encode_agrees, encode_matches, lemma_splice_twice,
    measure_matches, splice, DecodeOutcome, EncodeOutcome,
};
use crate::error::{DecodeError, EncodeError};
use crate::model::{models, Model};
use crate::{Decoder, Encoder, FixedMeasurer, Measurer, SpecCodec};

verus! {

/// The bytes of the items one after the other, or the first item's error.
pub open spec fn items_serialize<C: SpecCodec>(c: C, vs: Seq<C::Value>) -> Result<Seq<u8>, EncodeError>
    decreases vs.len(),
{
    if vs.len() == 0 {
        Ok(Seq::empty())
    } else {
        match items_serialize(c, vs.drop_last()) {
            Err(e) => Err(e),
            Ok(s) => match c.spec_serialize(vs.last()) {
                Ok(t) => Ok(s + t),
                Err(e) => Err(e),
            },
        }
    }
}

/// Encoding the items one after the other, stopping at the first error.
pub open spec fn items_encode<C: SpecCodec>(c: C, vs: Seq<C::Value>, buf: Seq<u8>, off: int) -> EncodeOutcome
    decreases vs.len(),
{
    if vs.len() == 0 {
        (buf, off, Ok(()))
    } else {
        let prev = items_encode(c, vs.drop_last(), buf, off);
        if prev.2 is Ok {
            c.spec_encode(vs.last(), prev.0, prev.1)
        } else {
            prev
        }
    }
}

/// Decoding `n` items one after the other, stopping at the first error.
pub open spec fn items_decode<C: SpecCodec>(c: C, n: nat, buf: Seq<u8>, off: int) -> DecodeOutcome<
    Seq<C::Value>,
>
    decreases n,
{
    if n == 0 {
        (off, Ok(Seq::empty()))
    } else {
        let prev = items_decode(c, (n - 1) as nat, buf, off);
        match prev.1 {
            Err(e) => (prev.0, Err(e)),
            Ok(vs) => {
                let next = c.spec_decode(buf, prev.0);
                match next.1 {
                    Ok(x) => (next.0, Ok(vs.push(x))),
                    Err(e) => (next.0, Err(e)),
                }
            },
        }
    }
}

/// Measuring the items one after the other adds up sizes that fit in `usize`.
pub open spec fn items_measure_fits<C: SpecCodec>(c: C, vs: Seq<C::Value>) -> bool
    decreases vs.len(),
{
    vs.len() == 0 || {
        &&& items_measure_fits(c, vs.drop_last())
        &&& (items_serialize(c, vs.drop_last()) is Ok ==> {
            &&& c.measure_fits(vs.last())
            &&& (c.spec_serialize(vs.last()) is Ok ==> items_serialize(c, vs.drop_last())->Ok_0.len()
                + c.spec_serialize(vs.last())->Ok_0.len() <= usize::MAX)
        })
    }
}

/// Every item is well formed.
pub open spec fn items_wf<C: SpecCodec>(c: C, vs: Seq<C::Value>) -> bool {
    forall|i: int| 0 <= i < vs.len() ==> c.spec_wf(#[trigger] vs[i])
}

/// Encoding the items agrees with their serialization.
pub proof fn lemma_items_encode<C: SpecCodec>(c: C, vs: Seq<C::Value>, buf: Seq<u8>, off: int)
    requires
        0 <= off,
    ensures
        encode_agrees(items_serialize(c, vs), buf, off, items_encode(c, vs, buf, off)),
    decreases vs.len(),
{
    if vs.len() == 0 {
        if off <= buf.len() {
            assert(splice(buf, off, Seq::empty()) =~= buf);
        }
    } else {
        let dl = vs.drop_last();
        lemma_items_encode(c, dl, buf, off);
        let prev = items_encode(c, dl, buf, off);
        if prev.2 is Ok {
            c.lemma_encode(vs.last(), prev.0, prev.1);
            let s = items_serialize(c, dl)->Ok_0;
            if c.spec_serialize(vs.last()) is Ok {
                let t = c.spec_serialize(vs.last())->Ok_0;
                if off + s.len() + t.len() <= buf.len() {
                    lemma_splice_twice(buf, off, s, t);
                }
                if off + s.len() <= buf.len() && s.len() == 0 {
                    assert(splice(buf, off, s) =~= buf);
                }
                assert(s + t == items_serialize(c, vs)->Ok_0);
            }
        }
    }
}

/// Decoding items moves forward within the buffer.
pub proof fn lemma_items_decode<C: SpecCodec>(c: C, n: nat, buf: Seq<u8>, off: int)
    requires
        0 <= off,
    ensures
        decode_in_bounds(buf, off, items_decode(c, n, buf, off)),
    decreases n,
{
    if n > 0 {
        lemma_items_decode(c, (n - 1) as nat, buf, off);
        let prev = items_decode(c, (n - 1) as nat, buf, off);
        c.lemma_decode(buf, prev.0);
    }
}

/// When measuring the items fits, so does the length of their serialization.
pub proof fn lemma_items_measure_fits<C: SpecCodec>(c: C, vs: Seq<C::Value>)
    requires
        items_measure_fits(c, vs),
    ensures
        items_serialize(c, vs) is Ok ==> items_serialize(c, vs)->Ok_0.len() <= usize::MAX,
    decreases vs.len(),
{
    if vs.len() > 0 {
        lemma_items_measure_fits(c, vs.drop_last());
    }
}

/// Decoding the items' serialization gives them back.
pub proof fn lemma_items_roundtrip<C: SpecCodec>(c: C, vs: Seq<C::Value>, pre: Seq<u8>, post: Seq<u8>)
    requires
        items_wf(c, vs),
        items_serialize(c, vs) is Ok,
        vs.len() == 0 || c.prefix_secure() || (vs.len() == 1 && post.len() == 0),
    ensures
        items_decode(c, vs.len(), pre + items_serialize(c, vs)->Ok_0 + post, pre.len() as int) == (
        (pre.len() + items_serialize(c, vs)->Ok_0.len()) as int,
        Ok::<Seq<C::Value>, DecodeError>(vs),
        ),
    decreases vs.len(),
{
    if vs.len() == 0 {
        assert(vs =~= Seq::<C::Value>::empty());
    } else {
        let dl = vs.drop_last();
        let s = items_serialize(c, dl)->Ok_0;
        let t = c.spec_serialize(vs.last())->Ok_0;
        assert(pre + (s + t) + post =~= pre + s + (t + post));
        assert(pre + (s + t) + post =~= (pre + s) + t + post);
        assert(items_wf(c, dl)) by {
            assert forall|i: int| 0 <= i < dl.len() implies c.spec_wf(#[trigger] dl[i]) by {
                assert(dl[i] == vs[i]);
            }
        }
        lemma_items_roundtrip(c, dl, pre, t + post);
        assert(c.spec_wf(vs[vs.len() - 1]));
        c.lemma_roundtrip(vs.last(), pre + s, post);
        assert(items_serialize(c, vs)->Ok_0 == s + t);
        assert(dl.push(vs.last()) =~= vs);
        assert(((vs.len() - 1) as nat) == dl.len());
    }
}

/// Once a prefix of the items fails to serialize, so do all of them, with
/// the same error.
pub proof fn lemma_items_serialize_prefix<C: SpecCodec>(c: C, vs: Seq<C::Value>, k: int)
    requires
        0 <= k <= vs.len(),
        items_serialize(c, vs.take(k)) is Err,
    ensures
        items_serialize(c, vs) == items_serialize(c, vs.take(k)),
    decreases vs.len(),
{
    if k == vs.len() {
        assert(vs.take(k) =~= vs);
    } else {
        assert(vs.drop_last().take(k) =~= vs.take(k));
        lemma_items_serialize_prefix(c, vs.drop_last(), k);
    }
}

/// Once encoding a prefix of the items fails, encoding all of them fails the
/// same way.
pub proof fn lemma_items_encode_prefix<C: SpecCodec>(
    c: C,
    vs: Seq<C::Value>,
    k: int,
    buf: Seq<u8>,
    off: int,
)
    requires
        0 <= k <= vs.len(),
        items_encode(c, vs.take(k), buf, off).2 is Err,
    ensures
        items_encode(c, vs, buf, off) == items_encode(c, vs.take(k), buf, off),
    decreases vs.len(),
{
    if k == vs.len() {
        assert(vs.take(k) =~= vs);
    } else {
        assert(vs.drop_last().take(k) =~= vs.take(k));
        lemma_items_encode_prefix(c, vs.drop_last(), k, buf, off);
    }
}

/// Measuring fits for a prefix of the items when it fits for all of them.
pub proof fn lemma_items_measure_fits_prefix<C: SpecCodec>(c: C, vs: Seq<C::Value>, k: int)
    requires
        0 <= k <= vs.len(),
        items_measure_fits(c, vs),
    ensures
        items_measure_fits(c, vs.take(k)),
    decreases vs.len(),
{
    if k == vs.len() {
        assert(vs.take(k) =~= vs);
    } else {
        assert(vs.drop_last().take(k) =~= vs.take(k));
        lemma_items_measure_fits_prefix(c, vs.drop_last(), k);
    }
}

/// Once decoding `m` items fails, decoding more fails the same way.
pub proof fn lemma_items_decode_err<C: SpecCodec>(c: C, m: nat, n: nat, buf: Seq<u8>, off: int)
    requires
        m <= n,
        items_decode(c, m, buf, off).1 is Err,
    ensures
        items_decode(c, n, buf, off) == items_decode(c, m, buf, off),
    decreases n,
{
    if m < n {
        lemma_items_decode_err(c, m, (n - 1) as nat, buf, off);
    }
}

/// Items of a fixed size serialize to that size times their number.
pub proof fn lemma_items_fixed<C: FixedMeasurer>(c: C, vs: Seq<C::Value>)
    requires
        items_wf(c, vs),
    ensures
        items_serialize(c, vs) is Ok ==> items_serialize(c, vs)->Ok_0.len() == vs.len()
            * c.spec_fixed_size(),
    decreases vs.len(),
{
    if vs.len() > 0 {
        let dl = vs.drop_last();
        assert(items_wf(c, dl)) by {
            assert forall|i: int| 0 <= i < dl.len() implies c.spec_wf(#[trigger] dl[i]) by {
                assert(dl[i] == vs[i]);
            }
        }
        lemma_items_fixed(c, dl);
        assert(c.spec_wf(vs[vs.len() - 1]));
        c.lemma_fixed_size(vs.last());
        let n = vs.len() as int;
        let f = c.spec_fixed_size();
        assert((n - 1) * f + f == n * f) by (nonlinear_arith);
    }
}

/// Encodes the items one after the other.
pub(crate) fn encode_items<C: Encoder<Decoded = D>, D: Model<M = C::Value>>(
    c: &C,
    items: &[D],
    encoded: &mut [u8],
    offset: &mut usize,
) -> (r: Result<(), EncodeError>)
    ensures
        encode_matches(
            items_encode(*c, models(items@), old(encoded)@, *old(offset) as int),
            final(encoded)@,
            *final(offset),
            r,
        ),
{
    let ghost vs = models(items@);
    let ghost buf0 = encoded@;
    let ghost off0 = *offset as int;
    let n = items.len();
    let mut i: usize = 0;
    assert(vs.take(0) =~= Seq::<C::Value>::empty());
    while i < n
        invariant
            n == items@.len(),
            vs == models(items@),
            buf0 == old(encoded)@,
            off0 == *old(offset) as int,
            i <= n,
            items_encode(*c, vs.take(i as int), buf0, off0) == (encoded@, *offset as int, Ok::<
                (),
                EncodeError,
            >(())),
        decreases n - i,
    {
        assert(vs.take(i + 1).drop_last() =~= vs.take(i as int));
        assert(vs.take(i + 1).last() == items@[i as int].model());
        let ghost prev = (encoded@, *offset as int, Ok::<(), EncodeError>(()));
        let res = c.encode(&items[i], encoded, offset);
        assert(res == c.spec_encode(items@[i as int].model(), prev.0, prev.1).2);
        match res {
            Ok(()) => {
                assert(items_encode(*c, vs.take(i + 1), buf0, off0) == c.spec_encode(
                    vs.take(i + 1).last(),
                    prev.0,
                    prev.1,
                ));
                proof {
                    lemma_unit_ok(res);
                }
            },
            Err(e) => {
                proof {
                    assert(items_encode(*c, vs.take(i + 1), buf0, off0) == c.spec_encode(
                        vs.take(i + 1).last(),
                        prev.0,
                        prev.1,
                    ));
                    lemma_items_encode_prefix(*c, vs, i + 1, buf0, off0);
                    assert(vs.take(n as int) =~= vs);
                }
                return Err(e);
            },
        }
        i = i + 1;
    }
    assert(vs.take(n as int) =~= vs);
    Ok(())
}

/// Measures the items one after the other and adds up their sizes.
pub(crate) fn measure_items<C: Measurer<Decoded = D>, D: Model<M = C::Value>>(c: &C, items: &[D]) -> (r:
    Result<usize, EncodeError>)
    requires
        items_measure_fits(*c, models(items@)),
    ensures
        measure_matches(items_serialize(*c, models(items@)), r),
{
    let ghost vs = models(items@);
    let n = items.len();
    let mut total: usize = 0;
    let mut i: usize = 0;
    assert(vs.take(0) =~= Seq::<C::Value>::empty());
    while i < n
        invariant
            n == items@.len(),
            vs == models(items@),
            i <= n,
            items_measure_fits(*c, vs),
            items_serialize(*c, vs.take(i as int)) is Ok,
            items_serialize(*c, vs.take(i as int))->Ok_0.len() == total,
        decreases n - i,
    {
        proof {
            assert(vs.take(i + 1).drop_last() =~= vs.take(i as int));
            assert(vs.take(i + 1).last() == items@[i as int].model());
            lemma_items_measure_fits_prefix(*c, vs, i + 1);
        }
        let size = match c.measure(&items[i]) {
            Ok(size) => size,
            Err(e) => {
                proof {
                    lemma_items_serialize_prefix(*c, vs, i + 1);
                    assert(vs.take(n as int) =~= vs);
                }
                return Err(e);
            },
        };
        total = total + size;
        i = i + 1;
    }
    assert(vs.take(n as int) =~= vs);
    Ok(total)
}

/// Decodes `count` items one after the other.
pub(crate) fn decode_items<'encoded, 'decoded, C: Decoder<'encoded, 'decoded>>(
    c: &C,
    count: usize,
    encoded: &'encoded [u8],
    offset: &mut usize,
) -> (r: Result<Vec<<C as Decoder<'encoded, 'decoded>>::Decoded>, DecodeError>)
    requires
        count == 0 || c.decode_requires(encoded@, *old(offset) as int),
    ensures
        decode_matches(items_decode(*c, count as nat, encoded@, *old(offset) as int), *final(offset), r),
{
    let ghost buf = encoded@;
    let ghost off0 = *offset as int;
    let mut items: Vec<<C as Decoder<'encoded, 'decoded>>::Decoded> = Vec::new();
    let mut i: usize = 0;
    assert(models(items@) =~= Seq::<C::Value>::empty());
    while i < count
        invariant
            buf == encoded@,
            off0 == *old(offset) as int,
            i <= count,
            count == 0 || c.decode_requires(buf, off0),
            off0 <= *offset,
            *offset as int == off0 || *offset <= buf.len(),
            items_decode(*c, i as nat, buf, off0) == (*offset as int, Ok::<Seq<C::Value>, DecodeError>(models(items@))),
        decreases count - i,
    {
        proof {
            c.lemma_decode(buf, *offset as int);
        }
        let ghost prev_off = *offset as int;
        match c.decode(encoded, offset) {
            Ok(x) => {
                let ghost before = items@;
                items.push(x);
                proof {
                    assert(models(items@) =~= models(before).push(x.model()));
                }
            },
            Err(e) => {
                proof {
                    lemma_items_decode_err(*c, (i + 1) as nat, count as nat, buf, off0);
                }
                return Err(e);
            },
        }
        i = i + 1;
    }
    Ok(items)
}

/// Items collected in a fixed-capacity vector of the `heapless` crate, with
/// the items it holds, in order, as its model. Only the `heapless_items_*`
/// functions below make or change one.
#[verifier::reject_recursive_types(T)]
struct HeaplessItems<T, const N: usize> {
    vec: heapless::Vec<T, N>,
    items: Ghost<Seq<T>>,
}

/// `heapless::Vec::new`: an empty vector of capacity `N`.
#[verifier::external_body]
fn heapless_items_new<T, const N: usize>() -> (r: HeaplessItems<T, N>)
    ensures
        r.items@ == Seq::<T>::empty(),
{
    HeaplessItems { vec: heapless::Vec::new(), items: Ghost(Seq::empty()) }
}

/// `heapless::Vec::push`, on a vector with room left: the item goes at the
/// end.
#[verifier::external_body]
fn heapless_items_push<T, const N: usize>(h: &mut HeaplessItems<T, N>, item: T)
    requires
        old(h).items@.len() < N,
    ensures
        final(h).items@ == old(h).items@.push(item),
{
    h.items = Ghost(h.items@.push(item));
    let _ = h.vec.push(item);
}

/// `heapless::Vec::into_array`, on a full vector: the array of its items in
/// order.
#[verifier::external_body]
fn heapless_items_into_array<T, const N: usize>(h: HeaplessItems<T, N>) -> (r: [T; N])
    requires
        h.items@.len() == N,
    ensures
        r@ == h.items@,
{
    h.vec.into_array().ok().unwrap()
}

/// Decodes `N` items one after the other into an array.
fn decode_array<'encoded, 'decoded, C: Decoder<'encoded, 'decoded>, const N: usize>(
    c: &C,
    encoded: &'encoded [u8],
    offset: &mut usize,
) -> (r: Result<[<C as Decoder<'encoded, 'decoded>>::Decoded; N], DecodeError>)
    requires
        N == 0 || c.decode_requires(encoded@, *old(offset) as int),
    ensures
        decode_matches(items_decode(*c, N as nat, encoded@, *old(offset) as int), *final(offset), r),
{
    let ghost buf = encoded@;
    let ghost off0 = *offset as int;
    let mut items: HeaplessItems<<C as Decoder<'encoded, 'decoded>>::Decoded, N> =
        heapless_items_new();
    let mut i: usize = 0;
    assert(models(items.items@) =~= Seq::<C::Value>::empty());
    while i < N
        invariant
            buf == encoded@,
            off0 == *old(offset) as int,
            i <= N,
            items.items@.len() == i,
            N == 0 || c.decode_requires(buf, off0),
            off0 <= *offset,
            *offset as int == off0 || *offset <= buf.len(),
            items_decode(*c, i as nat, buf, off0) == (
                *offset as int,
                Ok::<Seq<C::Value>, DecodeError>(models(items.items@)),
            ),
        decreases N - i,
    {
        proof {
            c.lemma_decode(buf, *offset as int);
        }
        match c.decode(encoded, offset) {
            Ok(x) => {
                let ghost before = items.items@;
                heapless_items_push(&mut items, x);
                proof {
                    assert(models(items.items@) =~= models(before).push(x.model()));
                }
            },
            Err(e) => {
                proof {
                    lemma_items_decode_err(*c, (i + 1) as nat, N as nat, buf, off0);
                }
                return Err(e);
            },
        }
        i = i + 1;
    }
    let array = heapless_items_into_array(items);
    proof {
        assert(models(array@) =~= models(items.items@));
    }
    Ok(array)
}

/// A codec for fixed-size arrays, which encodes the items one after the
/// other with the item codec.
pub struct ArrayCodec<Item, const N: usize>(pub Item);

impl<Item, const N: usize> ArrayCodec<Item, N> {
    pub fn new(item: Item) -> (c: Self)
        ensures
            c == ArrayCodec::<Item, N>(item),
    {
        ArrayCodec(item)
    }
}

impl<Item: SpecCodec, const N: usize> SpecCodec for ArrayCodec<Item, N> {
    type Value = Seq<Item::Value>;

    open spec fn spec_serialize(&self, v: Seq<Item::Value>) -> Result<Seq<u8>, EncodeError> {
        items_serialize(self.0, v)
    }

    open spec fn spec_encode(&self, v: Seq<Item::Value>, buf: Seq<u8>, off: int) -> EncodeOutcome {
        items_encode(self.0, v, buf, off)
    }

    open spec fn spec_decode(&self, buf: Seq<u8>, off: int) -> DecodeOutcome<Seq<Item::Value>> {
        items_decode(self.0, N as nat, buf, off)
    }

    open spec fn decode_requires(&self, buf: Seq<u8>, off: int) -> bool {
        N == 0 || self.0.decode_requires(buf, off)
    }

    open spec fn measure_fits(&self, v: Seq<Item::Value>) -> bool {
        items_measure_fits(self.0, v)
    }

    open spec fn prefix_secure(&self) -> bool {
        N == 0 || self.0.prefix_secure()
    }

    open spec fn spec_wf(&self, v: Seq<Item::Value>) -> bool {
        &&& v.len() == N
        &&& items_wf(self.0, v)
        &&& (N <= 1 || self.0.prefix_secure())
    }

    proof fn lemma_encode(&self, v: Seq<Item::Value>, buf: Seq<u8>, off: int) {
        lemma_items_encode(self.0, v, buf, off);
    }

    proof fn lemma_decode(&self, buf: Seq<u8>, off: int) {
        lemma_items_decode(self.0, N as nat, buf, off);
        if N > 0 {
            self.0.lemma_decode(buf, off);
        }
    }

    proof fn lemma_measure_fits(&self, v: Seq<Item::Value>) {
        lemma_items_measure_fits(self.0, v);
    }

    proof fn lemma_roundtrip(&self, v: Seq<Item::Value>, pre: Seq<u8>, post: Seq<u8>) {
        lemma_items_roundtrip(self.0, v, pre, post);
    }
}

impl<Item: Encoder<Decoded = D>, D: Model<M = Item::Value>, const N: usize> Encoder for ArrayCodec<
    Item,
    N,
> {
    type Decoded = [D; N];

    fn encode(&self, decoded: &[D; N], encoded: &mut [u8], offset: &mut usize) -> (r: Result<
        (),
        EncodeError,
    >) {
        encode_items(&self.0, decoded.as_slice(), encoded, offset)
    }
}

impl<'encoded, 'decoded, Item: Decoder<'encoded, 'decoded>, const N: usize> Decoder<
    'encoded,
    'decoded,
> for ArrayCodec<Item, N> {
    type Decoded = [<Item as Decoder<'encoded, 'decoded>>::Decoded; N];

    fn decode(&self, encoded: &'encoded [u8], offset: &mut usize) -> (r: Result<
        [<Item as Decoder<'encoded, 'decoded>>::Decoded; N],
        DecodeError,
    >) {
        decode_array(&self.0, encoded, offset)
    }
}

impl<Item: Measurer<Decoded = D>, D: Model<M = Item::Value>, const N: usize> Measurer for ArrayCodec<
    Item,
    N,
> {
    type Decoded = [D; N];

    fn measure(&self, decoded: &[D; N]) -> (r: Result<usize, EncodeError>) {
        measure_items(&self.0, decoded.as_slice())
    }
}

impl<Item: FixedMeasurer<Decoded = D>, D: Model<M = Item::Value>, const N: usize> FixedMeasurer for ArrayCodec<
    Item,
    N,
> {
    open spec fn spec_fixed_size(&self) -> nat {
        (N as nat) * self.0.spec_fixed_size()
    }

    fn measure_fixed(&self) -> (r: usize) {
        if N == 0 {
            return 0;
        }
        proof {
            let f = self.0.spec_fixed_size();
            assert(f <= (N as nat) * f) by (nonlinear_arith)
                requires
                    N >= 1,
            ;
        }
        N * self.0.measure_fixed()
    }

    proof fn lemma_fixed_size(&self, v: Seq<Item::Value>) {
        lemma_items_fixed(self.0, v);
        if N > 0 {
            self.0.lemma_fixed_size(v[0]);
        }
    }
}

/// Items decoded successfully are as many as asked for.
pub proof fn lemma_items_decode_len<C: SpecCodec>(c: C, n: nat, buf: Seq<u8>, off: int)
    ensures
        items_decode(c, n, buf, off).1 is Ok ==> items_decode(c, n, buf, off).1->Ok_0.len() == n,
    decreases n,
{
    if n > 0 {
        lemma_items_decode_len(c, (n - 1) as nat, buf, off);
    }
}

/// A successful unit result is `Ok(())`.
pub proof fn lemma_unit_ok(r: Result<(), EncodeError>)
    ensures
        r is Ok ==> r == Ok::<(), EncodeError>(()),
{
    if let Ok(u) = r {
        assert(u == ());
    }
}

} // verus!
