//! `ThinBoxedSlice`: an owned sequence of fixed length behind a handle of one word.

use crate::block::{block_align, block_fits, block_size, layout_align, layout_size, try_layout};
use allocator_api2::alloc::{Global, Layout};
use vstd::laws_eq::obeys_concrete_eq;
use vstd::prelude::*;
use vstd::std_specs::cmp::PartialEqSpec;
use vstd::std_specs::convert::FromSpecImpl;

verus! {

/// `allocator_api2::alloc::Global`, the strategy that a sequence has where none
/// is named. Nothing is claimed of it.
#[verifier::external_type_specification]
#[verifier::external_body]
pub struct ExGlobal(Global);

/// `Vec::as_mut_slice` hands out all the elements of a vector as one mutable
/// slice. A slice can neither grow nor shrink, so whatever is written through
/// it, the vector keeps its length.
#[verifier::external_body]
fn whole_mut<T>(items: &mut Vec<T>) -> (r: &mut [T])
    ensures
        r@ == old(items)@,
        final(r)@ == final(items)@,
        final(items)@.len() == old(items)@.len(),
{
    items.as_mut_slice()
}

/// Whether `copy` holds, index by index, a clone of what `source` holds.
pub open spec fn clones_of<T: Clone>(source: Seq<T>, copy: Seq<T>) -> bool {
    &&& copy.len() == source.len()
    &&& forall|i: int| 0 <= i < source.len() ==> cloned::<T>(source[i], #[trigger] copy[i])
}

/// Whether every clone of a `T` equals the value it was made from.
pub open spec fn clone_is_exact<T: Clone>() -> bool {
    forall|a: T, b: T| #[trigger] cloned::<T>(a, b) ==> a == b
}

/// Whether two sequences have one length and, index by index, elements that
/// `T`'s `==` takes for equal.
pub open spec fn elements_eq<T: PartialEq>(left: Seq<T>, right: Seq<T>) -> bool {
    &&& left.len() == right.len()
    &&& forall|i: int| 0 <= i < left.len() ==> #[trigger] left[i].eq_spec(&right[i])
}

/// Clones that are exact copy a sequence as it is.
pub proof fn lemma_exact_clones_are_equal<T: Clone>(source: Seq<T>, copy: Seq<T>)
    requires
        clone_is_exact::<T>(),
        clones_of(source, copy),
    ensures
        copy == source,
{
    assert(copy =~= source);
}

/// An owned sequence of `T` whose length is fixed when it is made.
///
/// The handle is a single pointer beside the allocation strategy `A`, so with a
/// strategy of no size, such as `Global`, it is one word wide and an `Option`
/// of it is no wider. The number of elements is kept behind the pointer, with
/// the elements.
///
/// The sequence carries its strategy and never calls it: the elements are kept
/// in a vector of their own. Code that keeps the length and the elements in
/// one block of raw memory reserves that block from the strategy, with the
/// layout that [`ThinBoxedSlice::layout`] gives.
#[derive(Debug)]
pub struct ThinBoxedSlice<T, A = Global> {
    items: Box<Vec<T>>,
    allocator: A,
}

impl<T, A> View for ThinBoxedSlice<T, A> {
    type V = Seq<T>;

    closed spec fn view(&self) -> Seq<T> {
        self.items@
    }
}

impl<T, A> ThinBoxedSlice<T, A> {
    /// The allocation strategy that the sequence was made with.
    pub closed spec fn strategy(&self) -> A {
        self.allocator
    }

    /// Clones the elements of `s`, first to last, into a new sequence that
    /// keeps `allocator` as its strategy.
    pub fn new_in(s: &[T], allocator: A) -> (r: Self) where T: Clone
        ensures
            clones_of(s@, r@),
            clone_is_exact::<T>() ==> r@ == s@,
            r.strategy() == allocator,
    {
        let n: usize = s.len();
        let mut items: Vec<T> = Vec::with_capacity(n);
        let mut i: usize = 0;
        while i < n
            invariant
                n == s@.len(),
                i <= n,
                items@.len() == i,
                forall|j: int| 0 <= j < i ==> cloned::<T>(s@[j], #[trigger] items@[j]),
            decreases n - i,
        {
            items.push(s[i].clone());
            i = i + 1;
        }
        proof {
            if clone_is_exact::<T>() {
                assert(items@ =~= s@);
            }
        }
        ThinBoxedSlice { items: Box::new(items), allocator }
    }

    /// The number of elements.
    pub fn len(&self) -> (n: usize)
        ensures
            n == self@.len(),
    {
        self.items.len()
    }

    /// The allocation strategy that the sequence was made with.
    pub fn allocator(&self) -> (a: &A)
        ensures
            *a == self.strategy(),
    {
        &self.allocator
    }

    /// The layout of the one block that holds the length and the elements of
    /// this sequence, where such a block can be described.
    pub fn layout(&self) -> (r: Option<Layout>)
        ensures
            r is Some <==> block_fits::<T>(self@.len()),
            r matches Some(layout) ==> layout_size(layout) == block_size::<T>(self@.len())
                && layout_align(layout) == block_align::<T>(),
    {
        try_layout::<T>(self.items.len())
    }
}

impl<T, A> core::ops::Deref for ThinBoxedSlice<T, A> {
    type Target = [T];

    fn deref(&self) -> (r: &[T])
        ensures
            r@ == self@,
    {
        self.items.as_slice()
    }
}

impl<T, A> core::ops::DerefMut for ThinBoxedSlice<T, A> {
    fn deref_mut(&mut self) -> (r: &mut [T])
        ensures
            r@ == old(self)@,
            final(r)@ == final(self)@,
            final(self)@.len() == old(self)@.len(),
            final(self).strategy() == old(self).strategy(),
    {
        whole_mut(&mut self.items)
    }
}

impl<T, A> core::borrow::Borrow<[T]> for ThinBoxedSlice<T, A> {
    fn borrow(&self) -> (r: &[T])
        ensures
            self@ == <[T] as View>::view(r),
    {
        self.items.as_slice()
    }
}

impl<T: PartialEq, A> PartialEq for ThinBoxedSlice<T, A> {
    fn eq(&self, other: &Self) -> (r: bool)
        ensures
            T::obeys_eq_spec() ==> r == elements_eq(self@, other@),
    {
        *self.items == *other.items
    }
}

impl<T: PartialEq, A> vstd::std_specs::cmp::PartialEqSpecImpl for ThinBoxedSlice<T, A> {
    open spec fn obeys_eq_spec() -> bool {
        T::obeys_eq_spec()
    }

    open spec fn eq_spec(&self, other: &Self) -> bool {
        elements_eq(self@, other@)
    }
}

/// Two sequences made from `s1` and `s2`, by clones that are exact, compare
/// equal exactly when `s1` and `s2` have one length and, index by index,
/// elements that `T`'s `==` takes for equal. Where `T`'s `==` is equality of
/// values, that is exactly when `s1` and `s2` are the same sequence.
pub proof fn lemma_eq_follows_sources<T: Clone + PartialEq, A>(
    s1: Seq<T>,
    s2: Seq<T>,
    x: ThinBoxedSlice<T, A>,
    y: ThinBoxedSlice<T, A>,
)
    requires
        clone_is_exact::<T>(),
        clones_of(s1, x@),
        clones_of(s2, y@),
    ensures
        x.eq_spec(&y) <==> elements_eq(s1, s2),
        obeys_concrete_eq::<T>() ==> (x.eq_spec(&y) <==> (s1 == s2)),
{
    lemma_exact_clones_are_equal(s1, x@);
    lemma_exact_clones_are_equal(s2, y@);
    lemma_eq_is_same_elements(x, y);
}

/// Where `T`'s `==` is equality of values, two sequences compare equal exactly
/// when they hold the same elements in the same order; `hash` then hands the
/// same slice to the hasher for both.
pub proof fn lemma_eq_is_same_elements<T: PartialEq, A>(
    x: ThinBoxedSlice<T, A>,
    y: ThinBoxedSlice<T, A>,
)
    ensures
        obeys_concrete_eq::<T>() ==> (x.eq_spec(&y) <==> (x@ == y@)),
{
    reveal(obeys_concrete_eq);
    if obeys_concrete_eq::<T>() {
        if x.eq_spec(&y) {
            assert forall|i: int| 0 <= i < x@.len() implies x@[i] == y@[i] by {
                assert(x@[i].eq_spec(&y@[i]));
            }
            assert(x@ =~= y@);
        }
    }
}

impl<T: PartialEq, A> Eq for ThinBoxedSlice<T, A> {}

impl<T: core::hash::Hash, A> core::hash::Hash for ThinBoxedSlice<T, A> {
    /// Feeds the elements to `state` through `Hash::hash` of the slice of
    /// them, so that the sequence hashes as that slice does. Nothing is
    /// claimed of the hasher's state afterwards.
    #[verifier::external_body]
    fn hash<H: core::hash::Hasher>(&self, state: &mut H) {
        self.items.as_slice().hash(state)
    }
}

impl<T: Clone, A: Default> From<&[T]> for ThinBoxedSlice<T, A> {
    fn from(value: &[T]) -> (r: Self)
        ensures
            clones_of(value@, r@),
            clone_is_exact::<T>() ==> r@ == value@,
            call_ensures(A::default, (), r.strategy()),
    {
        Self::new_in(value, A::default())
    }
}

impl<T: Clone, A: Default> FromSpecImpl<&[T]> for ThinBoxedSlice<T, A> {
    open spec fn obeys_from_spec() -> bool {
        false
    }

    open spec fn from_spec(value: &[T]) -> Self {
        arbitrary()
    }
}

impl<T: Clone, A: Default, const N: usize> From<&[T; N]> for ThinBoxedSlice<T, A> {
    fn from(value: &[T; N]) -> (r: Self)
        ensures
            clones_of(value@, r@),
            clone_is_exact::<T>() ==> r@ == value@,
            call_ensures(A::default, (), r.strategy()),
    {
        Self::new_in(value.as_slice(), A::default())
    }
}

impl<T: Clone, A: Default, const N: usize> FromSpecImpl<&[T; N]> for ThinBoxedSlice<T, A> {
    open spec fn obeys_from_spec() -> bool {
        false
    }

    open spec fn from_spec(value: &[T; N]) -> Self {
        arbitrary()
    }
}

} // verus!
