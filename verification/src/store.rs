//! The fixed-capacity vector that stores the palette's colours, and what is
//! taken on trust about it.

use vstd::prelude::*;
use arrayvec::ArrayVec;
use crate::color::Rgba8;

verus! {

/// The most colours that a palette holds.
pub const CAPACITY: usize = 256;

/// An `arrayvec::ArrayVec` of 256 colour slots. Nothing inside it is visible
/// to the verifier: the contracts of its methods speak of `elements`.
#[verifier::external_body]
pub struct ColorStore {
    inner: ArrayVec<[Rgba8; 256]>,
}

/// The colours that a store holds, first pushed first.
pub uninterp spec fn elements(store: ColorStore) -> Seq<Rgba8>;

impl View for ColorStore {
    type V = Seq<Rgba8>;

    open spec fn view(&self) -> Seq<Rgba8> {
        elements(*self)
    }
}

impl ColorStore {
    /// `ArrayVec::new`: the new vector holds nothing.
    #[verifier::external_body]
    pub(crate) fn new() -> (store: ColorStore)
        ensures
            elements(store) == Seq::<Rgba8>::empty(),
    {
        ColorStore { inner: ArrayVec::new() }
    }

    /// `ArrayVec::len`: the number of elements held, which is never more
    /// than the length of the backing array.
    #[verifier::external_body]
    pub(crate) fn len(&self) -> (n: usize)
        ensures
            n == elements(*self).len(),
            n <= CAPACITY,
    {
        self.inner.len()
    }

    /// `ArrayVec::push`: appends the element behind those held. The call
    /// panics on a full vector, which the precondition rules out.
    #[verifier::external_body]
    pub(crate) fn push(&mut self, color: Rgba8)
        requires
            elements(*old(self)).len() < CAPACITY,
        ensures
            elements(*final(self)) == elements(*old(self)).push(color),
    {
        self.inner.push(color)
    }

    /// `ArrayVec::clear`: drops every element.
    #[verifier::external_body]
    pub(crate) fn clear(&mut self)
        ensures
            elements(*final(self)) == Seq::<Rgba8>::empty(),
    {
        self.inner.clear()
    }

    /// Indexing an `ArrayVec` through its slice: a copy of the element at
    /// `index`. The call panics past the end, which the precondition rules
    /// out.
    #[verifier::external_body]
    pub(crate) fn get(&self, index: usize) -> (color: Rgba8)
        requires
            index < elements(*self).len(),
        ensures
            color == elements(*self)[index as int],
    {
        self.inner[index]
    }
}

} // verus!
