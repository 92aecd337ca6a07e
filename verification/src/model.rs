//! The mathematical value that each encodable Rust value stands for.
use vstd::prelude::*;

verus! {

/// A type whose values have a mathematical model, over which the codecs'
/// contracts are stated: integers stand for themselves, slices, arrays and
/// vectors for sequences of their items' models, strings for sequences of
/// characters.
pub trait Model {
    type M;

    spec fn model(&self) -> Self::M;
}

impl Model for u8 {
    type M = u8;

    open spec fn model(&self) -> u8 {
        *self
    }
}

impl Model for i8 {
    type M = i8;

    open spec fn model(&self) -> i8 {
        *self
    }
}

impl Model for u16 {
    type M = u16;

    open spec fn model(&self) -> u16 {
        *self
    }
}

impl Model for i16 {
    type M = i16;

    open spec fn model(&self) -> i16 {
        *self
    }
}

impl Model for u32 {
    type M = u32;

    open spec fn model(&self) -> u32 {
        *self
    }
}

impl Model for i32 {
    type M = i32;

    open spec fn model(&self) -> i32 {
        *self
    }
}

impl Model for u64 {
    type M = u64;

    open spec fn model(&self) -> u64 {
        *self
    }
}

impl Model for i64 {
    type M = i64;

    open spec fn model(&self) -> i64 {
        *self
    }
}

impl Model for u128 {
    type M = u128;

    open spec fn model(&self) -> u128 {
        *self
    }
}

impl Model for i128 {
    type M = i128;

    open spec fn model(&self) -> i128 {
        *self
    }
}

impl Model for usize {
    type M = usize;

    open spec fn model(&self) -> usize {
        *self
    }
}

impl Model for isize {
    type M = isize;

    open spec fn model(&self) -> isize {
        *self
    }
}

impl Model for char {
    type M = char;

    open spec fn model(&self) -> char {
        *self
    }
}

impl Model for bool {
    type M = bool;

    open spec fn model(&self) -> bool {
        *self
    }
}

impl Model for () {
    type M = ();

    open spec fn model(&self) -> () {
        ()
    }
}

impl<T: Model + ?Sized> Model for &T {
    type M = T::M;

    open spec fn model(&self) -> T::M {
        (**self).model()
    }
}

impl<T: Model + ?Sized> Model for Box<T> {
    type M = T::M;

    open spec fn model(&self) -> T::M {
        (**self).model()
    }
}

impl<T: Model> Model for Option<T> {
    type M = Option<T::M>;

    open spec fn model(&self) -> Option<T::M> {
        match self {
            Some(x) => Some(x.model()),
            None => None,
        }
    }
}

/// The models of a sequence of values, item by item.
pub open spec fn models<T: Model>(s: Seq<T>) -> Seq<T::M> {
    Seq::new(s.len(), |i: int| s[i].model())
}

impl<T: Model> Model for [T] {
    type M = Seq<T::M>;

    open spec fn model(&self) -> Seq<T::M> {
        models(self@)
    }
}

impl<T: Model, const N: usize> Model for [T; N] {
    type M = Seq<T::M>;

    open spec fn model(&self) -> Seq<T::M> {
        models(self@)
    }
}

impl<T: Model> Model for Vec<T> {
    type M = Seq<T::M>;

    open spec fn model(&self) -> Seq<T::M> {
        models(self@)
    }
}

impl Model for str {
    type M = Seq<char>;

    open spec fn model(&self) -> Seq<char> {
        self@
    }
}

impl Model for String {
    type M = Seq<char>;

    open spec fn model(&self) -> Seq<char> {
        self@
    }
}

/// Bytes model themselves.
pub proof fn lemma_models_bytes(s: Seq<u8>)
    ensures
        models(s) == s,
{
    assert(models(s) =~= s);
}

} // verus!
