//! The data hierarchy: protocol operations over data-like containers, whose
//! continuations may be consumed once per element, so they take `Fn`.
//! `AsData<F>` forces a block's emitted calls to resolve against these
//! implementations.

use vstd::prelude::*;

use crate::impls::{ArrayFunctor, Boxed, OptionFunctor, ResultFunctor, UndetVec, V2, ZipVec};

verus! {

/// A type-level selector for the data implementations of a context.
pub struct AsData<F>(core::marker::PhantomData<F>);

// ---------------------------------------------------------------------------
// Vector helpers
// ---------------------------------------------------------------------------

/// Map a function over a vector, in order.
#[verifier::loop_isolation(false)]
pub fn map_vec<A, B, F: Fn(A) -> B>(f: F, fa: Vec<A>) -> (r: Vec<B>)
    requires
        forall|i: int| 0 <= i < fa@.len() ==> call_requires(f, (fa@[i],)),
    ensures
        r@.len() == fa@.len(),
        forall|i: int| 0 <= i < fa@.len() ==> call_ensures(f, (fa@[i],), #[trigger] r@[i]),
{
    let ghost fa0 = fa@;
    let mut rest = fa;
    let mut out: Vec<B> = Vec::new();
    while rest.len() > 0
        invariant
            out@.len() + rest@.len() == fa0.len(),
            rest@ == fa0.skip(out@.len() as int),
            forall|i: int| 0 <= i < out@.len() ==> call_ensures(f, (fa0[i],), #[trigger] out@[i]),
        decreases rest.len(),
    {
        let ghost k = out@.len() as int;
        let x = rest.remove(0);
        proof {
            assert(x == fa0[k]);
            assert(rest@ =~= fa0.skip(k + 1));
        }
        out.push(f(x));
    }
    out
}

/// Zip two vectors pointwise, truncating to the shorter.
#[verifier::loop_isolation(false)]
pub fn zip_vec<A, B, C, F: Fn(A, B) -> C>(f: F, fa: Vec<A>, fb: Vec<B>) -> (r: Vec<C>)
    requires
        forall|i: int|
            0 <= i < fa@.len() && i < fb@.len() ==> call_requires(f, (fa@[i], fb@[i])),
    ensures
        r@.len() == vstd::math::min(fa@.len() as int, fb@.len() as int),
        forall|i: int|
            0 <= i < r@.len() ==> call_ensures(f, (fa@[i], fb@[i]), #[trigger] r@[i]),
{
    let ghost fa0 = fa@;
    let ghost fb0 = fb@;
    let mut ra = fa;
    let mut rb = fb;
    let mut out: Vec<C> = Vec::new();
    while ra.len() > 0 && rb.len() > 0
        invariant
            out@.len() + ra@.len() == fa0.len(),
            out@.len() + rb@.len() == fb0.len(),
            ra@ == fa0.skip(out@.len() as int),
            rb@ == fb0.skip(out@.len() as int),
            forall|i: int|
                0 <= i < out@.len() ==> call_ensures(f, (fa0[i], fb0[i]), #[trigger] out@[i]),
        decreases ra.len(),
    {
        let ghost k = out@.len() as int;
        let x = ra.remove(0);
        let y = rb.remove(0);
        proof {
            assert(x == fa0[k]);
            assert(y == fb0[k]);
            assert(ra@ =~= fa0.skip(k + 1));
            assert(rb@ =~= fb0.skip(k + 1));
        }
        out.push(f(x, y));
    }
    out
}

/// Relies on itertools::repeat_n: an iterator yielding exactly `n`
/// repetitions of the element, collected into a vector.
#[verifier::external_body]
fn repeat_n_vec<T: Clone>(t: T, n: usize) -> (r: Vec<T>)
    ensures
        r@.len() == n,
{
    itertools::repeat_n(t, n).collect()
}

// ---------------------------------------------------------------------------
// The optional-value context
// ---------------------------------------------------------------------------

impl AsData<OptionFunctor> {
    /// Transform the payload; absence is preserved.
    pub fn fmap<A, B, F: Fn(A) -> B>(f: F, fa: Option<A>) -> (r: Option<B>)
        requires
            fa matches Some(a) ==> call_requires(f, (a,)),
        ensures
            match fa {
                Some(a) => r matches Some(b) && call_ensures(f, (a,), b),
                None => r is None,
            },
    {
        match fa {
            Some(a) => Some(f(a)),
            None => None,
        }
    }

    /// Lift a plain value.
    pub fn pure<T: Clone>(t: T) -> (r: Option<T>)
        ensures
            r == Some(t),
    {
        Some(t)
    }

    /// Pairwise independent combination.
    pub fn zip_with<A, B, C, F: Fn(A, B) -> C>(f: F, fa: Option<A>, fb: Option<B>) -> (r: Option<
        C,
    >)
        requires
            fa matches Some(a) && fb matches Some(b) ==> call_requires(f, (a, b)),
        ensures
            match (fa, fb) {
                (Some(a), Some(b)) => r matches Some(c) && call_ensures(f, (a, b), c),
                _ => r is None,
            },
    {
        match (fa, fb) {
            (Some(a), Some(b)) => Some(f(a, b)),
            _ => None,
        }
    }

    /// Apply a wrapped function to a wrapped argument.
    pub fn ap<A, B, F: Fn(A) -> B>(ff: Option<F>, fa: Option<A>) -> (r: Option<B>)
        requires
            ff matches Some(f) && fa matches Some(a) ==> call_requires(f, (a,)),
        ensures
            match (ff, fa) {
                (Some(f), Some(a)) => r matches Some(b) && call_ensures(f, (a,), b),
                _ => r is None,
            },
    {
        match (ff, fa) {
            (Some(f), Some(a)) => Some(f(a)),
            _ => None,
        }
    }

    /// The empty value.
    pub fn empty<T>() -> (r: Option<T>)
        ensures
            r is None,
    {
        None
    }

    /// Left-biased choice.
    pub fn choice<T>(a: Option<T>, b: Option<T>) -> (r: Option<T>)
        ensures
            r == (if a is Some {
                a
            } else {
                b
            }),
    {
        match a {
            Some(x) => Some(x),
            None => b,
        }
    }

    /// Success-unit or the empty value.
    pub fn guard(p: bool) -> (r: Option<()>)
        ensures
            r == crate::control::opt_guard(p),
    {
        if p {
            Some(())
        } else {
            None
        }
    }
}

// ---------------------------------------------------------------------------
// The result-with-error context
// ---------------------------------------------------------------------------

impl<E> AsData<ResultFunctor<E>> {
    /// Transform the payload; an error is preserved.
    pub fn fmap<A, B, F: Fn(A) -> B>(f: F, fa: Result<A, E>) -> (r: Result<B, E>)
        requires
            fa matches Ok(a) ==> call_requires(f, (a,)),
        ensures
            match fa {
                Ok(a) => r matches Ok(b) && call_ensures(f, (a,), b),
                Err(e) => r == Err::<B, E>(e),
            },
    {
        match fa {
            Ok(a) => Ok(f(a)),
            Err(e) => Err(e),
        }
    }

    /// Lift a plain value.
    pub fn pure<T: Clone>(t: T) -> (r: Result<T, E>)
        ensures
            r == Ok::<T, E>(t),
    {
        Ok(t)
    }

    /// Pairwise independent combination; the first operand's error wins.
    pub fn zip_with<A, B, C, F: Fn(A, B) -> C>(f: F, fa: Result<A, E>, fb: Result<B, E>) -> (r:
        Result<C, E>)
        requires
            fa matches Ok(a) && fb matches Ok(b) ==> call_requires(f, (a, b)),
        ensures
            match (fa, fb) {
                (Ok(a), Ok(b)) => r matches Ok(c) && call_ensures(f, (a, b), c),
                (Err(e), _) => r == Err::<C, E>(e),
                (Ok(_), Err(e)) => r == Err::<C, E>(e),
            },
    {
        match (fa, fb) {
            (Ok(a), Ok(b)) => Ok(f(a, b)),
            (Err(e), _) => Err(e),
            (Ok(_), Err(e)) => Err(e),
        }
    }

    /// Apply a wrapped function to a wrapped argument.
    pub fn ap<A, B, F: Fn(A) -> B>(ff: Result<F, E>, fa: Result<A, E>) -> (r: Result<B, E>)
        requires
            ff matches Ok(f) && fa matches Ok(a) ==> call_requires(f, (a,)),
        ensures
            match (ff, fa) {
                (Ok(f), Ok(a)) => r matches Ok(b) && call_ensures(f, (a,), b),
                (Err(e), _) => r == Err::<B, E>(e),
                (Ok(_), Err(e)) => r == Err::<B, E>(e),
            },
    {
        match (ff, fa) {
            (Ok(f), Ok(a)) => Ok(f(a)),
            (Err(e), _) => Err(e),
            (Ok(_), Err(e)) => Err(e),
        }
    }
}

impl<E: Default> AsData<ResultFunctor<E>> {
    /// The empty value: the error type's default.
    pub fn empty<T>() -> (r: Result<T, E>)
        ensures
            r is Err,
    {
        Err(E::default())
    }

    /// Left-biased choice.
    pub fn choice<T>(a: Result<T, E>, b: Result<T, E>) -> (r: Result<T, E>)
        ensures
            r == (if a is Ok {
                a
            } else {
                b
            }),
    {
        match a {
            Ok(x) => Ok(x),
            Err(_) => b,
        }
    }

    /// Success-unit or the empty value.
    pub fn guard(p: bool) -> (r: Result<(), E>)
        ensures
            p ==> r == Ok::<(), E>(()),
            !p ==> r is Err,
    {
        if p {
            Ok(())
        } else {
            Err(E::default())
        }
    }
}

// ---------------------------------------------------------------------------
// Vector contexts
// ---------------------------------------------------------------------------

impl AsData<UndetVec> {
    /// Transform every element, keeping the order.
    pub fn fmap<A, B, F: Fn(A) -> B>(f: F, fa: Vec<A>) -> (r: Vec<B>)
        requires
            forall|i: int| 0 <= i < fa@.len() ==> call_requires(f, (fa@[i],)),
        ensures
            r@.len() == fa@.len(),
            forall|i: int| 0 <= i < fa@.len() ==> call_ensures(f, (fa@[i],), #[trigger] r@[i]),
    {
        map_vec(f, fa)
    }

    /// Lift a plain value: the one-element vector.
    pub fn pure<T: Clone>(t: T) -> (r: Vec<T>)
        ensures
            r@ == seq![t],
    {
        let mut r: Vec<T> = Vec::new();
        r.push(t);
        proof {
            assert(r@ =~= seq![r@[0]]);
        }
        r
    }
}

impl AsData<ZipVec> {
    /// Transform every element, keeping the order.
    pub fn fmap<A, B, F: Fn(A) -> B>(f: F, fa: Vec<A>) -> (r: Vec<B>)
        requires
            forall|i: int| 0 <= i < fa@.len() ==> call_requires(f, (fa@[i],)),
        ensures
            r@.len() == fa@.len(),
            forall|i: int| 0 <= i < fa@.len() ==> call_ensures(f, (fa@[i],), #[trigger] r@[i]),
    {
        map_vec(f, fa)
    }

    /// Index-wise pairing, truncating to the shorter operand.
    pub fn zip_with<A, B, C, F: Fn(A, B) -> C>(f: F, fa: Vec<A>, fb: Vec<B>) -> (r: Vec<C>)
        requires
            forall|i: int|
                0 <= i < fa@.len() && i < fb@.len() ==> call_requires(f, (fa@[i], fb@[i])),
        ensures
            r@.len() == vstd::math::min(fa@.len() as int, fb@.len() as int),
            forall|i: int|
                0 <= i < r@.len() ==> call_ensures(f, (fa@[i], fb@[i]), #[trigger] r@[i]),
    {
        zip_vec(f, fa, fb)
    }
}

// ---------------------------------------------------------------------------
// The homogeneous-pair context
// ---------------------------------------------------------------------------

impl AsData<V2> {
    /// Transform both components.
    pub fn fmap<A, B, F: Fn(A) -> B>(f: F, fa: (A, A)) -> (r: (B, B))
        requires
            call_requires(f, (fa.0,)),
            call_requires(f, (fa.1,)),
        ensures
            call_ensures(f, (fa.0,), r.0),
            call_ensures(f, (fa.1,), r.1),
    {
        let (a1, a2) = fa;
        (f(a1), f(a2))
    }

    /// Lift a plain value into both components.
    pub fn pure<T: Clone>(t: T) -> (r: (T, T))
        ensures
            r.1 == t,
    {
        (t.clone(), t)
    }

    /// Combine component-wise.
    pub fn zip_with<A, B, C, F: Fn(A, B) -> C>(f: F, fa: (A, A), fb: (B, B)) -> (r: (C, C))
        requires
            call_requires(f, (fa.0, fb.0)),
            call_requires(f, (fa.1, fb.1)),
        ensures
            call_ensures(f, (fa.0, fb.0), r.0),
            call_ensures(f, (fa.1, fb.1), r.1),
    {
        let (a1, a2) = fa;
        let (b1, b2) = fb;
        (f(a1, b1), f(a2, b2))
    }

    /// Apply component-wise.
    pub fn ap<A, B, F: Fn(A) -> B>(ff: (F, F), fa: (A, A)) -> (r: (B, B))
        requires
            call_requires(ff.0, (fa.0,)),
            call_requires(ff.1, (fa.1,)),
        ensures
            call_ensures(ff.0, (fa.0,), r.0),
            call_ensures(ff.1, (fa.1,), r.1),
    {
        let (f1, f2) = ff;
        let (a1, a2) = fa;
        (f1(a1), f2(a2))
    }
}

// ---------------------------------------------------------------------------
// The boxed-value context
// ---------------------------------------------------------------------------

impl AsData<Boxed> {
    /// Transform the boxed value.
    pub fn fmap<A, B, F: Fn(A) -> B>(f: F, fa: Box<A>) -> (r: Box<B>)
        requires
            call_requires(f, (*fa,)),
        ensures
            call_ensures(f, (*fa,), *r),
    {
        Box::new(f(*fa))
    }

    /// Lift a plain value.
    pub fn pure<T: Clone>(t: T) -> (r: Box<T>)
        ensures
            *r == t,
    {
        Box::new(t)
    }

    /// Combine two boxed values.
    pub fn zip_with<A, B, C, F: Fn(A, B) -> C>(f: F, fa: Box<A>, fb: Box<B>) -> (r: Box<C>)
        requires
            call_requires(f, (*fa, *fb)),
        ensures
            call_ensures(f, (*fa, *fb), *r),
    {
        Box::new(f(*fa, *fb))
    }
}

// ---------------------------------------------------------------------------
// The fixed-length-vector context
// ---------------------------------------------------------------------------

impl<const N: usize> ArrayFunctor<N> {
    /// Transform every element, keeping length and order.
    pub fn fmap<A, B, F: Fn(A) -> B>(f: F, fa: Vec<A>) -> (r: Vec<B>)
        requires
            fa@.len() == N,
            forall|i: int| 0 <= i < fa@.len() ==> call_requires(f, (fa@[i],)),
        ensures
            r@.len() == N,
            forall|i: int| 0 <= i < fa@.len() ==> call_ensures(f, (fa@[i],), #[trigger] r@[i]),
    {
        map_vec(f, fa)
    }

    /// Lift a plain value into `N` repetitions.
    pub fn pure<T: Clone>(t: T) -> (r: Vec<T>)
        ensures
            r@.len() == N,
    {
        repeat_n_vec(t, N)
    }

    /// Combine index-wise; both operands hold `N` elements.
    pub fn zip_with<A, B, C, F: Fn(A, B) -> C>(f: F, fa: Vec<A>, fb: Vec<B>) -> (r: Vec<C>)
        requires
            fa@.len() == N,
            fb@.len() == N,
            forall|i: int| 0 <= i < N ==> call_requires(f, (fa@[i], fb@[i])),
        ensures
            r@.len() == N,
            forall|i: int|
                0 <= i < r@.len() ==> call_ensures(f, (fa@[i], fb@[i]), #[trigger] r@[i]),
    {
        zip_vec(f, fa, fb)
    }
}

} // verus!
