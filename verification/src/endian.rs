//! Integers in big- or little-endian byte order.
use vstd::prelude::*;

use core::marker::PhantomData;
use vstd::arithmetic::div_mod::{
    lemma_div_denominator, lemma_fundamental_div_mod, lemma_mod_add_multiples_vanish, lemma_small_mod,
};
use vstd::arithmetic::power::pow;
use vstd::slice::slice_subrange;

use crate::asis::copy_into;
use crate::bytes::{decode_in_bounds, encode_agrees, splice, write_bytes, DecodeOutcome, EncodeOutcome};
use crate::error::{DecodeError, EncodeError};
use crate::model::Model;
use crate::{Decoder, Encoder, FixedMeasurer, Measurer, SpecCodec};

verus! {

/// The order of the bytes of a multi-byte integer.
#[derive(Clone, Copy, Debug, PartialEq, Eq, Hash)]
pub enum Endianness {
    Big,
    Little,
}

/// `256` to the power `n`.
pub open spec fn pow256(n: nat) -> nat
    decreases n,
{
    if n == 0 {
        1
    } else {
        256 * pow256((n - 1) as nat)
    }
}

/// The `n` lowest bytes of `v`, most significant first.
pub open spec fn be_bytes(v: nat, n: nat) -> Seq<u8> {
    Seq::new(n, |i: int| ((v / pow256((n - 1 - i) as nat)) % 256) as u8)
}

/// The `n` lowest bytes of `v`, least significant first.
pub open spec fn le_bytes(v: nat, n: nat) -> Seq<u8> {
    Seq::new(n, |i: int| ((v / pow256(i as nat)) % 256) as u8)
}

/// The number whose bytes, most significant first, are `s`.
pub open spec fn be_value(s: Seq<u8>) -> nat
    decreases s.len(),
{
    if s.len() == 0 {
        0
    } else {
        (be_value(s.drop_last()) * 256 + s.last()) as nat
    }
}

/// The number whose bytes, least significant first, are `s`.
pub open spec fn le_value(s: Seq<u8>) -> nat
    decreases s.len(),
{
    if s.len() == 0 {
        0
    } else {
        (s[0] + 256 * le_value(s.drop_first())) as nat
    }
}

/// The `n` lowest bytes of `v` in the given order.
pub open spec fn uint_bytes(e: Endianness, v: nat, n: nat) -> Seq<u8> {
    match e {
        Endianness::Big => be_bytes(v, n),
        Endianness::Little => le_bytes(v, n),
    }
}

/// The number whose bytes in the given order are `s`.
pub open spec fn uint_value(e: Endianness, s: Seq<u8>) -> nat {
    match e {
        Endianness::Big => be_value(s),
        Endianness::Little => le_value(s),
    }
}

/// The two's complement of `v` on `n` bytes, as a natural number.
pub open spec fn twos_complement(v: int, n: nat) -> nat {
    if v >= 0 {
        v as nat
    } else {
        (v + pow256(n)) as nat
    }
}

/// The signed number whose two's complement on `n` bytes is `u`.
pub open spec fn signed_value(u: nat, n: nat) -> int {
    if u >= pow256(n) / 2 {
        u - pow256(n)
    } else {
        u as int
    }
}

/// Powers of 256 are positive and grow by 256 at each step.
pub proof fn lemma_pow256_facts(n: nat)
    ensures
        pow256(n) > 0,
        pow256(n + 1) == 256 * pow256(n),
    decreases n,
{
    if n > 0 {
        lemma_pow256_facts((n - 1) as nat);
    }
}

/// Powers of 256 grow with the exponent.
pub proof fn lemma_pow256_mono(i: nat, j: nat)
    requires
        i <= j,
    ensures
        pow256(i) <= pow256(j),
    decreases j,
{
    if i < j {
        lemma_pow256_mono(i, (j - 1) as nat);
        lemma_pow256_facts((j - 1) as nat);
    }
}

/// The powers of 256 that the integer widths need.
pub proof fn lemma_pow256_values()
    ensures
        pow256(1) == 0x100,
        pow256(2) == 0x10000,
        pow256(4) == 0x1_0000_0000,
        pow256(8) == 0x1_0000_0000_0000_0000,
        pow256(16) == 0x1_0000_0000_0000_0000_0000_0000_0000_0000,
{
    reveal_with_fuel(pow256, 17);
}

/// Bytes, most significant first, give back the number they were taken from.
pub proof fn lemma_be_roundtrip(v: nat, n: nat)
    requires
        v < pow256(n),
    ensures
        be_bytes(v, n).len() == n,
        be_value(be_bytes(v, n)) == v,
    decreases n,
{
    if n > 0 {
        let m = (n - 1) as nat;
        let s = be_bytes(v, n);
        lemma_pow256_facts(m);
        assert forall|i: int| 0 <= i < m implies s.drop_last()[i] == be_bytes(v / 256, m)[i] by {
            let k = (m - 1 - i) as nat;
            lemma_pow256_facts(k);
            assert((n - 1 - i) as nat == k + 1);
            lemma_div_denominator(v as int, 256, pow256(k) as int);
        }
        assert(s.drop_last() =~= be_bytes(v / 256, m));
        assert(v / 256 < pow256(m)) by (nonlinear_arith)
            requires
                v < 256 * pow256(m),
        ;
        lemma_be_roundtrip(v / 256, m);
        lemma_fundamental_div_mod(v as int, 256);
        assert(pow256(0) == 1);
        assert(((n - 1 - (n - 1)) as nat) == 0);
        assert(s.last() == ((v / pow256(0)) % 256) as u8);
        assert(v / 1 == v);
        assert(s.last() == v % 256);
    }
}

/// Bytes, least significant first, give back the number they were taken from.
pub proof fn lemma_le_roundtrip(v: nat, n: nat)
    requires
        v < pow256(n),
    ensures
        le_bytes(v, n).len() == n,
        le_value(le_bytes(v, n)) == v,
    decreases n,
{
    if n > 0 {
        let m = (n - 1) as nat;
        let s = le_bytes(v, n);
        lemma_pow256_facts(m);
        assert forall|i: int| 0 <= i < m implies s.drop_first()[i] == le_bytes(v / 256, m)[i] by {
            lemma_pow256_facts(i as nat);
            assert((i + 1) as nat == i as nat + 1);
            lemma_div_denominator(v as int, 256, pow256(i as nat) as int);
        }
        assert(s.drop_first() =~= le_bytes(v / 256, m));
        assert(v / 256 < pow256(m)) by (nonlinear_arith)
            requires
                v < 256 * pow256(m),
        ;
        lemma_le_roundtrip(v / 256, m);
        lemma_fundamental_div_mod(v as int, 256);
        assert(pow256(0) == 1);
        assert(s[0] == ((v / pow256(0)) % 256) as u8);
        assert(v / 1 == v);
        assert(s[0] == v % 256);
    }
}

/// Bytes in either order give back the number they were taken from.
pub proof fn lemma_uint_roundtrip(e: Endianness, v: nat, n: nat)
    requires
        v < pow256(n),
    ensures
        uint_bytes(e, v, n).len() == n,
        uint_value(e, uint_bytes(e, v, n)) == v,
{
    match e {
        Endianness::Big => lemma_be_roundtrip(v, n),
        Endianness::Little => lemma_le_roundtrip(v, n),
    }
}

/// The number that `n` bytes stand for is below `256^n`.
pub proof fn lemma_uint_value_bound(e: Endianness, s: Seq<u8>)
    ensures
        uint_value(e, s) < pow256(s.len()),
    decreases s.len(),
{
    if s.len() > 0 {
        lemma_pow256_facts((s.len() - 1) as nat);
        match e {
            Endianness::Big => {
                lemma_uint_value_bound(e, s.drop_last());
                let a = be_value(s.drop_last());
                let p = pow256((s.len() - 1) as nat);
                assert(a * 256 + s.last() < 256 * p) by (nonlinear_arith)
                    requires
                        a < p,
                        s.last() < 256,
                ;
            },
            Endianness::Little => {
                lemma_uint_value_bound(e, s.drop_first());
                let a = le_value(s.drop_first());
                let p = pow256((s.len() - 1) as nat);
                assert(s[0] + 256 * a < 256 * p) by (nonlinear_arith)
                    requires
                        a < p,
                        s[0] < 256,
                ;
            },
        }
    }
}

/// Signed numbers in range survive the trip through two's complement.
pub proof fn lemma_signed_roundtrip(v: int, n: nat)
    requires
        n > 0,
        -(pow256(n) / 2) <= v < pow256(n) / 2,
    ensures
        twos_complement(v, n) < pow256(n),
        signed_value(twos_complement(v, n), n) == v,
{
    lemma_pow256_facts((n - 1) as nat);
}

/// Bytes read most significant first stand for the number that the same
/// bytes reversed stand for when read least significant first.
pub proof fn lemma_be_le_reverse(s: Seq<u8>)
    ensures
        be_value(s) == le_value(s.reverse()),
    decreases s.len(),
{
    if s.len() > 0 {
        let r = s.reverse();
        assert(r.drop_first() =~= s.drop_last().reverse());
        assert(r[0] == s.last());
        lemma_be_le_reverse(s.drop_last());
    }
}

/// `pow256` is the power of 256 that vstd's `pow` names.
pub proof fn lemma_pow256_is_pow(n: nat)
    ensures
        pow256(n) == pow(256, n),
    decreases n,
{
    reveal(pow);
    if n > 0 {
        lemma_pow256_is_pow((n - 1) as nat);
    }
}

/// Byte `i` of the `n` lowest bytes of `x`: most significant first, it is
/// the digit of weight `256^(n - 1 - i)`; least significant first, the
/// digit of weight `256^i`.
pub proof fn lemma_uint_bytes_digits(x: nat, n: nat)
    ensures
        uint_bytes(Endianness::Big, x, n).len() == n,
        uint_bytes(Endianness::Little, x, n).len() == n,
        forall|i: int|
            0 <= i < n ==> #[trigger] uint_bytes(Endianness::Big, x, n)[i] as int == (x as int / pow(
                256,
                (n - 1 - i) as nat,
            )) % 256,
        forall|i: int|
            0 <= i < n ==> #[trigger] uint_bytes(Endianness::Little, x, n)[i] as int == (x as int / pow(
                256,
                i as nat,
            )) % 256,
{
    assert forall|i: int| 0 <= i < n implies #[trigger] uint_bytes(Endianness::Big, x, n)[i] as int
        == (x as int / pow(256, (n - 1 - i) as nat)) % 256 by {
        lemma_pow256_is_pow((n - 1 - i) as nat);
        lemma_pow256_facts((n - 1 - i) as nat);
    }
    assert forall|i: int| 0 <= i < n implies #[trigger] uint_bytes(Endianness::Little, x, n)[i] as int
        == (x as int / pow(256, i as nat)) % 256 by {
        lemma_pow256_is_pow(i as nat);
        lemma_pow256_facts(i as nat);
    }
}

/// Taking a byte off the end of a big-endian number, or off the front of a
/// little-endian one, divides it by 256 and leaves that byte as remainder.
proof fn lemma_split_byte(a: nat, b: u8)
    ensures
        (a * 256 + b) / 256 == a,
        (a * 256 + b) % 256 == b,
        (b + 256 * a) / 256 == a,
        (b + 256 * a) % 256 == b,
{
    assert((a * 256 + b) / 256 == a && (a * 256 + b) % 256 == b) by (nonlinear_arith)
        requires
            0 <= b < 256,
    ;
    assert(b + 256 * a == a * 256 + b) by (nonlinear_arith);
}

/// Reading bytes as a number and writing the number back on as many bytes,
/// in the same order, gives the same bytes.
pub proof fn lemma_uint_bytes_of_value(e: Endianness, s: Seq<u8>)
    ensures
        uint_bytes(e, uint_value(e, s), s.len()) == s,
    decreases s.len(),
{
    let n = s.len();
    if n > 0 {
        let m = (n - 1) as nat;
        let v = uint_value(e, s);
        match e {
            Endianness::Big => {
                let t = s.drop_last();
                let a = be_value(t);
                lemma_uint_bytes_of_value(e, t);
                lemma_split_byte(a, s.last());
                assert forall|i: int| 0 <= i < n implies #[trigger] be_bytes(v, n)[i] == s[i] by {
                    if i < m {
                        let k = (m - 1 - i) as nat;
                        lemma_pow256_facts(k);
                        assert((n - 1 - i) as nat == k + 1);
                        lemma_div_denominator(v as int, 256, pow256(k) as int);
                        assert(be_bytes(a, m)[i] == t[i]);
                    } else {
                        assert(pow256(0) == 1);
                        assert(v / 1 == v);
                    }
                }
                assert(be_bytes(v, n) =~= s);
            },
            Endianness::Little => {
                let t = s.drop_first();
                let a = le_value(t);
                lemma_uint_bytes_of_value(e, t);
                lemma_split_byte(a, s[0]);
                assert forall|i: int| 0 <= i < n implies #[trigger] le_bytes(v, n)[i] == s[i] by {
                    if i > 0 {
                        let k = (i - 1) as nat;
                        lemma_pow256_facts(k);
                        assert(i as nat == k + 1);
                        lemma_div_denominator(v as int, 256, pow256(k) as int);
                        assert(le_bytes(a, m)[i - 1] == t[i - 1]);
                    } else {
                        assert(pow256(0) == 1);
                        assert(v / 1 == v);
                    }
                }
                assert(le_bytes(v, n) =~= s);
            },
        }
    } else {
        assert(uint_bytes(e, uint_value(e, s), 0) =~= s);
    }
}

/// Two's complement on `n` bytes is the remainder modulo `256^n`.
pub proof fn lemma_twos_complement_mod(v: int, n: nat)
    requires
        n > 0,
        -(pow256(n) / 2) <= v < pow256(n) / 2,
    ensures
        twos_complement(v, n) as int == v % (pow256(n) as int),
{
    lemma_pow256_facts((n - 1) as nat);
    let p = pow256(n);
    if v >= 0 {
        lemma_small_mod(v as nat, p);
    } else {
        lemma_mod_add_multiples_vanish(v, p as int);
        lemma_small_mod((p + v) as nat, p);
    }
}

/// Every number below `256^n` is the two's complement of the signed number
/// that it stands for, and that number is in range.
pub proof fn lemma_signed_value_inverse(u: nat, n: nat)
    requires
        n > 0,
        u < pow256(n),
    ensures
        -(pow256(n) / 2) <= signed_value(u, n) < pow256(n) / 2,
        twos_complement(signed_value(u, n), n) == u,
{
    lemma_pow256_facts((n - 1) as nat);
}

/// Reads the number that `bytes` stand for in the given order.
fn uint_from_bytes(endianness: Endianness, bytes: &[u8]) -> (r: u128)
    requires
        bytes@.len() <= 16,
    ensures
        r == uint_value(endianness, bytes@),
{
    let n = bytes.len();
    let mut acc: u128 = 0;
    proof {
        lemma_pow256_values();
    }
    match endianness {
        Endianness::Big => {
            let mut i: usize = 0;
            while i < n
                invariant
                    n == bytes@.len(),
                    n <= 16,
                    i <= n,
                    acc == be_value(bytes@.subrange(0, i as int)),
                    acc < pow256(i as nat),
                    pow256(16) == 0x1_0000_0000_0000_0000_0000_0000_0000_0000,
                decreases n - i,
            {
                proof {
                    lemma_pow256_facts(i as nat);
                    lemma_pow256_mono((i + 1) as nat, 16);
                    let p = pow256(i as nat);
                    let b = bytes@[i as int];
                    assert(acc * 256 + b < 256 * p) by (nonlinear_arith)
                        requires
                            acc < p,
                            b < 256,
                    ;
                    assert(bytes@.subrange(0, i + 1).drop_last() =~= bytes@.subrange(0, i as int));
                }
                acc = acc * 256 + bytes[i] as u128;
                i = i + 1;
            }
            assert(bytes@.subrange(0, n as int) =~= bytes@);
        },
        Endianness::Little => {
            let mut i: usize = n;
            while i > 0
                invariant
                    n == bytes@.len(),
                    n <= 16,
                    i <= n,
                    acc == le_value(bytes@.subrange(i as int, n as int)),
                    acc < pow256((n - i) as nat),
                    pow256(16) == 0x1_0000_0000_0000_0000_0000_0000_0000_0000,
                decreases i,
            {
                proof {
                    lemma_pow256_facts((n - i) as nat);
                    lemma_pow256_mono((n - i + 1) as nat, 16);
                    let p = pow256((n - i) as nat);
                    let b = bytes@[i - 1];
                    assert(b + 256 * acc < 256 * p) by (nonlinear_arith)
                        requires
                            acc < p,
                            b < 256,
                    ;
                    assert(bytes@.subrange(i - 1, n as int).drop_first() =~= bytes@.subrange(
                        i as int,
                        n as int,
                    ));
                    assert(((n - (i - 1)) as nat) == (n - i) as nat + 1);
                }
                acc = bytes[i - 1] as u128 + 256 * acc;
                i = i - 1;
            }
            assert(bytes@.subrange(0, n as int) =~= bytes@);
        },
    }
    acc
}

/// Writes the bytes of `w` in the given order over all of `bytes`.
fn uint_to_bytes(endianness: Endianness, w: u128, bytes: &mut [u8])
    requires
        old(bytes)@.len() <= 16,
        w < pow256(old(bytes)@.len()),
    ensures
        final(bytes)@ == uint_bytes(endianness, w as nat, old(bytes)@.len()),
{
    let n = bytes.len();
    let ghost target = uint_bytes(endianness, w as nat, n as nat);
    let mut x: u128 = w;
    let mut k: usize = 0;
    proof {
        lemma_pow256_facts(0);
        assert(pow256(0) == 1);
        assert(w as nat / 1 == w as nat);
    }
    while k < n
        invariant
            n == bytes@.len(),
            n <= 16,
            k <= n,
            target == uint_bytes(endianness, w as nat, n as nat),
            x as nat == (w as nat) / pow256(k as nat),
            forall|j: int|
                #![trigger bytes@[j]]
                0 <= j < n && (match endianness {
                    Endianness::Big => n - k <= j,
                    Endianness::Little => j < k,
                }) ==> bytes@[j] == target[j],
        decreases n - k,
    {
        let byte = (x % 256) as u8;
        match endianness {
            Endianness::Big => {
                bytes[n - 1 - k] = byte;
            },
            Endianness::Little => {
                bytes[k] = byte;
            },
        }
        proof {
            lemma_pow256_facts(k as nat);
            lemma_div_denominator(w as int, pow256(k as nat) as int, 256);
            assert(pow256(k as nat) * 256 == pow256((k + 1) as nat));
        }
        x = x / 256;
        k = k + 1;
    }
    assert(bytes@ =~= target);
}

/// A primitive integer that encodes to and decodes from a fixed number of
/// bytes in either byte order.
pub trait EndianCoded: Sized + Model<M = Self> {
    /// The number of bytes of every encoding.
    spec fn spec_length() -> nat;

    /// The bytes of `v` in the given order.
    spec fn spec_to_bytes(v: Self, endianness: Endianness) -> Seq<u8>;

    /// The value that `bytes` stand for in the given order.
    spec fn spec_from_bytes(endianness: Endianness, bytes: Seq<u8>) -> Self;

    /// Every value has `spec_length` bytes and is read back from them.
    proof fn lemma_endian_roundtrip(v: Self, endianness: Endianness)
        ensures
            Self::spec_length() <= 16,
            Self::spec_to_bytes(v, endianness).len() == Self::spec_length(),
            Self::spec_from_bytes(endianness, Self::spec_to_bytes(v, endianness)) == v,
            v.model() == v,
    ;

    /// Bytes read most significant first stand for what the same bytes
    /// reversed stand for when read least significant first.
    proof fn lemma_byte_order(bytes: Seq<u8>)
        ensures
            Self::spec_from_bytes(Endianness::Big, bytes) == Self::spec_from_bytes(
                Endianness::Little,
                bytes.reverse(),
            ),
    ;

    fn length() -> (r: usize)
        ensures
            r == Self::spec_length(),
    ;

    fn decode(endianness: Endianness, bytes: &[u8]) -> (r: Self)
        requires
            bytes@.len() == Self::spec_length(),
        ensures
            r == Self::spec_from_bytes(endianness, bytes@),
    ;

    fn encode(&self, endianness: Endianness, bytes: &mut [u8])
        requires
            old(bytes)@.len() == Self::spec_length(),
        ensures
            final(bytes)@ == Self::spec_to_bytes(*self, endianness),
    ;
}

impl EndianCoded for u16 {
    open spec fn spec_length() -> nat {
        2
    }

    open spec fn spec_to_bytes(v: u16, endianness: Endianness) -> Seq<u8> {
        uint_bytes(endianness, v as nat, 2)
    }

    open spec fn spec_from_bytes(endianness: Endianness, bytes: Seq<u8>) -> u16 {
        uint_value(endianness, bytes) as u16
    }

    proof fn lemma_byte_order(bytes: Seq<u8>) {
        lemma_be_le_reverse(bytes);
    }

    proof fn lemma_endian_roundtrip(v: u16, endianness: Endianness) {
        lemma_pow256_values();
        lemma_uint_roundtrip(endianness, v as nat, 2);
    }

    fn length() -> (r: usize) {
        2
    }

    fn decode(endianness: Endianness, bytes: &[u8]) -> (r: u16) {
        proof {
            lemma_pow256_values();
            lemma_uint_value_bound(endianness, bytes@);
        }
        uint_from_bytes(endianness, bytes) as u16
    }

    fn encode(&self, endianness: Endianness, bytes: &mut [u8]) {
        proof {
            lemma_pow256_values();
        }
        uint_to_bytes(endianness, *self as u128, bytes);
    }
}

impl EndianCoded for u32 {
    open spec fn spec_length() -> nat {
        4
    }

    open spec fn spec_to_bytes(v: u32, endianness: Endianness) -> Seq<u8> {
        uint_bytes(endianness, v as nat, 4)
    }

    open spec fn spec_from_bytes(endianness: Endianness, bytes: Seq<u8>) -> u32 {
        uint_value(endianness, bytes) as u32
    }

    proof fn lemma_byte_order(bytes: Seq<u8>) {
        lemma_be_le_reverse(bytes);
    }

    proof fn lemma_endian_roundtrip(v: u32, endianness: Endianness) {
        lemma_pow256_values();
        lemma_uint_roundtrip(endianness, v as nat, 4);
    }

    fn length() -> (r: usize) {
        4
    }

    fn decode(endianness: Endianness, bytes: &[u8]) -> (r: u32) {
        proof {
            lemma_pow256_values();
            lemma_uint_value_bound(endianness, bytes@);
        }
        uint_from_bytes(endianness, bytes) as u32
    }

    fn encode(&self, endianness: Endianness, bytes: &mut [u8]) {
        proof {
            lemma_pow256_values();
        }
        uint_to_bytes(endianness, *self as u128, bytes);
    }
}

impl EndianCoded for u64 {
    open spec fn spec_length() -> nat {
        8
    }

    open spec fn spec_to_bytes(v: u64, endianness: Endianness) -> Seq<u8> {
        uint_bytes(endianness, v as nat, 8)
    }

    open spec fn spec_from_bytes(endianness: Endianness, bytes: Seq<u8>) -> u64 {
        uint_value(endianness, bytes) as u64
    }

    proof fn lemma_byte_order(bytes: Seq<u8>) {
        lemma_be_le_reverse(bytes);
    }

    proof fn lemma_endian_roundtrip(v: u64, endianness: Endianness) {
        lemma_pow256_values();
        lemma_uint_roundtrip(endianness, v as nat, 8);
    }

    fn length() -> (r: usize) {
        8
    }

    fn decode(endianness: Endianness, bytes: &[u8]) -> (r: u64) {
        proof {
            lemma_pow256_values();
            lemma_uint_value_bound(endianness, bytes@);
        }
        uint_from_bytes(endianness, bytes) as u64
    }

    fn encode(&self, endianness: Endianness, bytes: &mut [u8]) {
        proof {
            lemma_pow256_values();
        }
        uint_to_bytes(endianness, *self as u128, bytes);
    }
}

impl EndianCoded for u128 {
    open spec fn spec_length() -> nat {
        16
    }

    open spec fn spec_to_bytes(v: u128, endianness: Endianness) -> Seq<u8> {
        uint_bytes(endianness, v as nat, 16)
    }

    open spec fn spec_from_bytes(endianness: Endianness, bytes: Seq<u8>) -> u128 {
        uint_value(endianness, bytes) as u128
    }

    proof fn lemma_byte_order(bytes: Seq<u8>) {
        lemma_be_le_reverse(bytes);
    }

    proof fn lemma_endian_roundtrip(v: u128, endianness: Endianness) {
        lemma_pow256_values();
        lemma_uint_roundtrip(endianness, v as nat, 16);
    }

    fn length() -> (r: usize) {
        16
    }

    fn decode(endianness: Endianness, bytes: &[u8]) -> (r: u128) {
        uint_from_bytes(endianness, bytes)
    }

    fn encode(&self, endianness: Endianness, bytes: &mut [u8]) {
        proof {
            lemma_pow256_values();
        }
        uint_to_bytes(endianness, *self, bytes);
    }
}

impl EndianCoded for i16 {
    open spec fn spec_length() -> nat {
        2
    }

    open spec fn spec_to_bytes(v: i16, endianness: Endianness) -> Seq<u8> {
        uint_bytes(endianness, twos_complement(v as int, 2), 2)
    }

    open spec fn spec_from_bytes(endianness: Endianness, bytes: Seq<u8>) -> i16 {
        signed_value(uint_value(endianness, bytes), 2) as i16
    }

    proof fn lemma_byte_order(bytes: Seq<u8>) {
        lemma_be_le_reverse(bytes);
    }

    proof fn lemma_endian_roundtrip(v: i16, endianness: Endianness) {
        lemma_pow256_values();
        lemma_signed_roundtrip(v as int, 2);
        lemma_uint_roundtrip(endianness, twos_complement(v as int, 2), 2);
    }

    fn length() -> (r: usize) {
        2
    }

    fn decode(endianness: Endianness, bytes: &[u8]) -> (r: i16) {
        proof {
            lemma_pow256_values();
            lemma_uint_value_bound(endianness, bytes@);
        }
        let u = uint_from_bytes(endianness, bytes);
        if u >= 0x8000 {
            (u as i32 - 0x10000) as i16
        } else {
            u as i16
        }
    }

    fn encode(&self, endianness: Endianness, bytes: &mut [u8]) {
        proof {
            lemma_pow256_values();
        }
        let w: u128 = if *self >= 0 {
            *self as u128
        } else {
            (*self as i32 + 0x10000) as u128
        };
        uint_to_bytes(endianness, w, bytes);
    }
}

impl EndianCoded for i32 {
    open spec fn spec_length() -> nat {
        4
    }

    open spec fn spec_to_bytes(v: i32, endianness: Endianness) -> Seq<u8> {
        uint_bytes(endianness, twos_complement(v as int, 4), 4)
    }

    open spec fn spec_from_bytes(endianness: Endianness, bytes: Seq<u8>) -> i32 {
        signed_value(uint_value(endianness, bytes), 4) as i32
    }

    proof fn lemma_byte_order(bytes: Seq<u8>) {
        lemma_be_le_reverse(bytes);
    }

    proof fn lemma_endian_roundtrip(v: i32, endianness: Endianness) {
        lemma_pow256_values();
        lemma_signed_roundtrip(v as int, 4);
        lemma_uint_roundtrip(endianness, twos_complement(v as int, 4), 4);
    }

    fn length() -> (r: usize) {
        4
    }

    fn decode(endianness: Endianness, bytes: &[u8]) -> (r: i32) {
        proof {
            lemma_pow256_values();
            lemma_uint_value_bound(endianness, bytes@);
        }
        let u = uint_from_bytes(endianness, bytes);
        if u >= 0x8000_0000 {
            (u as i64 - 0x1_0000_0000) as i32
        } else {
            u as i32
        }
    }

    fn encode(&self, endianness: Endianness, bytes: &mut [u8]) {
        proof {
            lemma_pow256_values();
        }
        let w: u128 = if *self >= 0 {
            *self as u128
        } else {
            (*self as i64 + 0x1_0000_0000) as u128
        };
        uint_to_bytes(endianness, w, bytes);
    }
}

impl EndianCoded for i64 {
    open spec fn spec_length() -> nat {
        8
    }

    open spec fn spec_to_bytes(v: i64, endianness: Endianness) -> Seq<u8> {
        uint_bytes(endianness, twos_complement(v as int, 8), 8)
    }

    open spec fn spec_from_bytes(endianness: Endianness, bytes: Seq<u8>) -> i64 {
        signed_value(uint_value(endianness, bytes), 8) as i64
    }

    proof fn lemma_byte_order(bytes: Seq<u8>) {
        lemma_be_le_reverse(bytes);
    }

    proof fn lemma_endian_roundtrip(v: i64, endianness: Endianness) {
        lemma_pow256_values();
        lemma_signed_roundtrip(v as int, 8);
        lemma_uint_roundtrip(endianness, twos_complement(v as int, 8), 8);
    }

    fn length() -> (r: usize) {
        8
    }

    fn decode(endianness: Endianness, bytes: &[u8]) -> (r: i64) {
        proof {
            lemma_pow256_values();
            lemma_uint_value_bound(endianness, bytes@);
        }
        let u = uint_from_bytes(endianness, bytes);
        if u >= 0x8000_0000_0000_0000 {
            (u as i128 - 0x1_0000_0000_0000_0000) as i64
        } else {
            u as i64
        }
    }

    fn encode(&self, endianness: Endianness, bytes: &mut [u8]) {
        proof {
            lemma_pow256_values();
        }
        let w: u128 = if *self >= 0 {
            *self as u128
        } else {
            (*self as i128 + 0x1_0000_0000_0000_0000) as u128
        };
        uint_to_bytes(endianness, w, bytes);
    }
}

impl EndianCoded for i128 {
    open spec fn spec_length() -> nat {
        16
    }

    open spec fn spec_to_bytes(v: i128, endianness: Endianness) -> Seq<u8> {
        uint_bytes(endianness, twos_complement(v as int, 16), 16)
    }

    open spec fn spec_from_bytes(endianness: Endianness, bytes: Seq<u8>) -> i128 {
        signed_value(uint_value(endianness, bytes), 16) as i128
    }

    proof fn lemma_byte_order(bytes: Seq<u8>) {
        lemma_be_le_reverse(bytes);
    }

    proof fn lemma_endian_roundtrip(v: i128, endianness: Endianness) {
        lemma_pow256_values();
        lemma_signed_roundtrip(v as int, 16);
        lemma_uint_roundtrip(endianness, twos_complement(v as int, 16), 16);
    }

    fn length() -> (r: usize) {
        16
    }

    fn decode(endianness: Endianness, bytes: &[u8]) -> (r: i128) {
        proof {
            lemma_pow256_values();
            lemma_uint_value_bound(endianness, bytes@);
        }
        let u = uint_from_bytes(endianness, bytes);
        if u >= 0x8000_0000_0000_0000_0000_0000_0000_0000 {
            ((u - 0x8000_0000_0000_0000_0000_0000_0000_0000) as i128) + i128::MIN
        } else {
            u as i128
        }
    }

    fn encode(&self, endianness: Endianness, bytes: &mut [u8]) {
        proof {
            lemma_pow256_values();
        }
        let w: u128 = if *self >= 0 {
            *self as u128
        } else {
            ((*self - i128::MIN) as u128) + 0x8000_0000_0000_0000_0000_0000_0000_0000
        };
        uint_to_bytes(endianness, w, bytes);
    }
}

/// A codec that encodes and decodes integers in the given byte order.
pub struct EndianCodec<T> {
    pub endianness: Endianness,
    pub _marker: PhantomData<T>,
}

impl<T> EndianCodec<T> {
    pub fn new(endianness: Endianness) -> (c: Self)
        ensures
            c.endianness == endianness,
    {
        EndianCodec { endianness, _marker: PhantomData }
    }

    pub fn le() -> (c: Self)
        ensures
            c.endianness == Endianness::Little,
    {
        Self::new(Endianness::Little)
    }

    pub fn be() -> (c: Self)
        ensures
            c.endianness == Endianness::Big,
    {
        Self::new(Endianness::Big)
    }
}

impl<T: EndianCoded> SpecCodec for EndianCodec<T> {
    type Value = T;

    open spec fn spec_serialize(&self, v: T) -> Result<Seq<u8>, EncodeError> {
        Ok(T::spec_to_bytes(v, self.endianness))
    }

    open spec fn spec_encode(&self, v: T, buf: Seq<u8>, off: int) -> EncodeOutcome {
        write_bytes(buf, off, T::spec_to_bytes(v, self.endianness))
    }

    open spec fn spec_decode(&self, buf: Seq<u8>, off: int) -> DecodeOutcome<T> {
        let n = T::spec_length() as int;
        if 0 <= off && off + n <= buf.len() {
            (off + n, Ok(T::spec_from_bytes(self.endianness, buf.subrange(off, off + n))))
        } else {
            (off, Err(DecodeError::EOF))
        }
    }

    open spec fn decode_requires(&self, buf: Seq<u8>, off: int) -> bool {
        true
    }

    open spec fn measure_fits(&self, v: T) -> bool {
        true
    }

    open spec fn prefix_secure(&self) -> bool {
        true
    }

    open spec fn spec_wf(&self, v: T) -> bool {
        true
    }

    proof fn lemma_encode(&self, v: T, buf: Seq<u8>, off: int) {
    }

    proof fn lemma_decode(&self, buf: Seq<u8>, off: int) {
    }

    proof fn lemma_measure_fits(&self, v: T) {
        T::lemma_endian_roundtrip(v, self.endianness);
    }

    proof fn lemma_roundtrip(&self, v: T, pre: Seq<u8>, post: Seq<u8>) {
        T::lemma_endian_roundtrip(v, self.endianness);
        let s = T::spec_to_bytes(v, self.endianness);
        let b = pre + s + post;
        assert(b.subrange(pre.len() as int, (pre.len() + s.len()) as int) =~= s);
    }
}

impl<T: EndianCoded> Encoder for EndianCodec<T> {
    type Decoded = T;

    fn encode(&self, decoded: &T, encoded: &mut [u8], offset: &mut usize) -> (r: Result<
        (),
        EncodeError,
    >) {
        proof {
            T::lemma_endian_roundtrip(*decoded, self.endianness);
        }
        let length = T::length();
        if *offset > encoded.len() || encoded.len() - *offset < length {
            return Err(EncodeError::BufferTooSmall);
        }
        let mut bytes: Vec<u8> = vec![0u8; length];
        decoded.encode(self.endianness, bytes.as_mut_slice());
        copy_into(encoded, *offset, bytes.as_slice());
        *offset = *offset + length;
        proof {
            T::lemma_endian_roundtrip(*decoded, self.endianness);
        }
        Ok(())
    }
}

impl<'encoded, 'decoded, T: EndianCoded + 'decoded> Decoder<'encoded, 'decoded> for EndianCodec<T> {
    type Decoded = T;

    fn decode(&self, encoded: &'encoded [u8], offset: &mut usize) -> (r: Result<T, DecodeError>) {
        let length = T::length();
        if *offset > encoded.len() || encoded.len() - *offset < length {
            return Err(DecodeError::EOF);
        }
        let value = T::decode(self.endianness, slice_subrange(encoded, *offset, *offset + length));
        *offset = *offset + length;
        proof {
            T::lemma_endian_roundtrip(value, self.endianness);
        }
        Ok(value)
    }
}

impl<T: EndianCoded> Measurer for EndianCodec<T> {
    type Decoded = T;

    fn measure(&self, decoded: &T) -> (r: Result<usize, EncodeError>) {
        proof {
            T::lemma_endian_roundtrip(*decoded, self.endianness);
        }
        Ok(self.measure_fixed())
    }
}

impl<T: EndianCoded> FixedMeasurer for EndianCodec<T> {
    open spec fn spec_fixed_size(&self) -> nat {
        T::spec_length()
    }

    fn measure_fixed(&self) -> (r: usize) {
        T::length()
    }

    proof fn lemma_fixed_size(&self, v: T) {
        T::lemma_endian_roundtrip(v, self.endianness);
    }
}

} // verus!
