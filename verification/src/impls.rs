//! The context labels: type-level names for the computational contexts the
//! protocol operations are implemented for.  A label is never constructed; it
//! only selects an implementation.

use vstd::prelude::*;

verus! {

/// The identity context: a value stands for itself.
pub struct Identity {}

/// Vectors under the nondeterminism reading: pairing is the cross product.
pub struct UndetVec {}

/// Vectors under the zip reading: pairing is index-wise.
pub struct ZipVec {}

/// The optional-value context.
pub struct OptionFunctor {}

/// The result-with-error context.
pub struct ResultFunctor<E> {
    phantom: core::marker::PhantomData<E>,
}

/// The homogeneous-pair context.
pub struct V2 {}

/// The boxed-value context.
pub struct Boxed {}

/// A reader context label.
pub struct Reader<R> {
    pub env: core::marker::PhantomData<R>,
}

/// A state context label.
pub struct State<S> {
    pub env: core::marker::PhantomData<S>,
}

/// The fixed-length-vector context: every container holds exactly `N`
/// elements.
pub struct ArrayFunctor<const N: usize> {}

} // verus!
