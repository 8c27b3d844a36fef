//! A desugaring engine for qualified do-notation: blocks of bind, let, guard,
//! return and expression statements, annotated with the namespace of a
//! combinator protocol, are rewritten into nested calls against that protocol.
//! The engine proves the absence of forward dependencies before it chooses the
//! independent (applicative) composition, and otherwise falls back to the
//! sequential (monadic) one.

pub mod analysis;
pub mod control;
pub mod data;
pub mod desugar;
pub mod impls;
pub mod iter;
pub mod nonlinear;
pub mod render;
pub mod types;

pub use control::AsControl;
pub use data::AsData;
pub use impls::{
    ArrayFunctor, Boxed, Identity, OptionFunctor, Reader, ResultFunctor, State, UndetVec, V2,
    ZipVec,
};
pub use iter::Iter;
pub use iter::ZipIter;
pub use nonlinear::AsNonlinear;

use vstd::prelude::*;

verus! {

/// The optional-value context, resolved through the control hierarchy.
pub type Optioned = control::AsControl<impls::OptionFunctor>;

/// The result-with-error context, resolved through the control hierarchy.
pub type Resulted<E> = control::AsControl<impls::ResultFunctor<E>>;

} // verus!
