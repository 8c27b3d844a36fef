//! The control hierarchy: protocol operations whose continuations are
//! consumed at most once, so they take `FnOnce`.  `AsControl<F>` forces a
//! block's emitted calls to resolve against these implementations.
//!
//! Each operation's contract states the result for every input: what the
//! continuation receives, and that the context's failure value short-circuits.

use vstd::prelude::*;

use crate::impls::{Identity, OptionFunctor, ResultFunctor};

verus! {

/// A type-level selector for the control implementations of a context.
pub struct AsControl<F>(core::marker::PhantomData<F>);

// ---------------------------------------------------------------------------
// Spec models of the optional-value context
// ---------------------------------------------------------------------------

/// What `guard` yields in the optional-value context.
pub open spec fn opt_guard(p: bool) -> Option<()> {
    if p {
        Some(())
    } else {
        None
    }
}

/// Independent pairing in the optional-value context: what
/// `zip_with(|a, b| (a, b), fa, fb)` computes.
pub open spec fn opt_pair<A, B>(fa: Option<A>, fb: Option<B>) -> Option<(A, B)> {
    match (fa, fb) {
        (Some(a), Some(b)) => Some((a, b)),
        _ => None,
    }
}

/// Sequential pairing in the optional-value context: what
/// `and_then(fa, |a| fmap(|b| (a, b), fb))` computes.
pub open spec fn opt_bind_pair<A, B>(fa: Option<A>, fb: Option<B>) -> Option<(A, B)> {
    match fa {
        Some(a) => match fb {
            Some(b) => Some((a, b)),
            None => None,
        },
        None => None,
    }
}

/// Law (compositional equivalence, optional-value context): independent
/// pairing and sequential pairing agree on every input, so a block desugared
/// applicatively is value-equivalent to its monadic form, pairing step by
/// pairing step.
pub proof fn lemma_option_compositional_equivalence<A, B>(fa: Option<A>, fb: Option<B>)
    ensures
        opt_pair(fa, fb) == opt_bind_pair(fa, fb),
{
}

/// Law (guard zero, optional-value context): a false guard is the context's
/// zero, and pairing with it forces the zero under both plans, whatever the
/// other operand.
pub proof fn lemma_option_guard_zero<A>(fa: Option<A>)
    ensures
        opt_guard(false) is None,
        opt_pair(fa, opt_guard(false)) is None,
        opt_bind_pair(fa, opt_guard(false)) is None,
{
}


/// Spec models of the result-with-error context, and the same two laws.
pub open spec fn result_pair<A, B, E>(fa: Result<A, E>, fb: Result<B, E>) -> Result<(A, B), E> {
    match (fa, fb) {
        (Ok(a), Ok(b)) => Ok((a, b)),
        (Err(e), _) => Err(e),
        (Ok(_), Err(e)) => Err(e),
    }
}

/// Sequential pairing in the result-with-error context.
pub open spec fn result_bind_pair<A, B, E>(fa: Result<A, E>, fb: Result<B, E>) -> Result<
    (A, B),
    E,
> {
    match fa {
        Ok(a) => match fb {
            Ok(b) => Ok((a, b)),
            Err(e) => Err(e),
        },
        Err(e) => Err(e),
    }
}

/// Law (compositional equivalence, result-with-error context): independent
/// pairing and sequential pairing agree on every input, the first error
/// winning under both.
pub proof fn lemma_result_compositional_equivalence<A, B, E>(fa: Result<A, E>, fb: Result<B, E>)
    ensures
        result_pair(fa, fb) == result_bind_pair(fa, fb),
{
}

// ---------------------------------------------------------------------------
// The optional-value context
// ---------------------------------------------------------------------------

impl AsControl<OptionFunctor> {
    /// Transform the payload; absence is preserved.
    pub fn fmap<A, B, F: FnOnce(A) -> B>(f: F, fa: Option<A>) -> (r: Option<B>)
        requires
            fa matches Some(a) ==> call_requires(f, (a,)),
        ensures
            match fa {
                Some(a) => r matches Some(b) && call_ensures(f, (a,), b),
                None => r is None,
            },
    {
        match fa {
            Some(a) => Some(f(a)),
            None => None,
        }
    }

    /// Lift a plain value.
    pub fn pure<A>(a: A) -> (r: Option<A>)
        ensures
            r == Some(a),
    {
        Some(a)
    }

    /// Pairwise independent combination: absent if either side is absent.
    pub fn zip_with<A, B, C, F: FnOnce(A, B) -> C>(f: F, fa: Option<A>, fb: Option<B>) -> (r:
        Option<C>)
        requires
            fa matches Some(a) && fb matches Some(b) ==> call_requires(f, (a, b)),
        ensures
            match (fa, fb) {
                (Some(a), Some(b)) => r matches Some(c) && call_ensures(f, (a, b), c),
                _ => r is None,
            },
    {
        match (fa, fb) {
            (Some(a), Some(b)) => Some(f(a, b)),
            _ => None,
        }
    }

    /// Apply a wrapped function to a wrapped argument.
    pub fn ap<A, B, F: FnOnce(A) -> B>(ff: Option<F>, fa: Option<A>) -> (r: Option<B>)
        requires
            ff matches Some(f) && fa matches Some(a) ==> call_requires(f, (a,)),
        ensures
            match (ff, fa) {
                (Some(f), Some(a)) => r matches Some(b) && call_ensures(f, (a,), b),
                _ => r is None,
            },
    {
        match (ff, fa) {
            (Some(f), Some(a)) => Some(f(a)),
            _ => None,
        }
    }

    /// Sequential dependent combination; short-circuits on absence.
    pub fn and_then<A, B, F: FnOnce(A) -> Option<B>>(fa: Option<A>, f: F) -> (r: Option<B>)
        requires
            fa matches Some(a) ==> call_requires(f, (a,)),
        ensures
            match fa {
                Some(a) => call_ensures(f, (a,), r),
                None => r is None,
            },
    {
        match fa {
            Some(a) => f(a),
            None => None,
        }
    }

    /// Collapse one layer of nesting.
    pub fn flatten<A>(ffa: Option<Option<A>>) -> (r: Option<A>)
        ensures
            r == (match ffa {
                Some(fa) => fa,
                None => None::<A>,
            }),
    {
        match ffa {
            Some(fa) => fa,
            None => None,
        }
    }

    /// The designated failure value; the diagnostic has nowhere to live here.
    pub fn fail<A>(_msg: &str) -> (r: Option<A>)
        ensures
            r is None,
    {
        None
    }

    /// The empty value.
    pub fn empty<A>() -> (r: Option<A>)
        ensures
            r is None,
    {
        None
    }

    /// Left-biased choice.
    pub fn choice<A>(a: Option<A>, b: Option<A>) -> (r: Option<A>)
        ensures
            r == (if a is Some {
                a
            } else {
                b
            }),
    {
        match a {
            Some(x) => Some(x),
            None => b,
        }
    }

    /// Success-unit or the empty value.
    pub fn guard(p: bool) -> (r: Option<()>)
        ensures
            r == opt_guard(p),
    {
        if p {
            Some(())
        } else {
            None
        }
    }
}

// ---------------------------------------------------------------------------
// The result-with-error context
// ---------------------------------------------------------------------------

impl<E> AsControl<ResultFunctor<E>> {
    /// Transform the payload; an error is preserved.
    pub fn fmap<A, B, F: FnOnce(A) -> B>(f: F, fa: Result<A, E>) -> (r: Result<B, E>)
        requires
            fa matches Ok(a) ==> call_requires(f, (a,)),
        ensures
            match fa {
                Ok(a) => r matches Ok(b) && call_ensures(f, (a,), b),
                Err(e) => r == Err::<B, E>(e),
            },
    {
        match fa {
            Ok(a) => Ok(f(a)),
            Err(e) => Err(e),
        }
    }

    /// Lift a plain value.
    pub fn pure<A>(a: A) -> (r: Result<A, E>)
        ensures
            r == Ok::<A, E>(a),
    {
        Ok(a)
    }

    /// Pairwise independent combination; the first operand's error wins.
    pub fn zip_with<A, B, C, F: FnOnce(A, B) -> C>(f: F, fa: Result<A, E>, fb: Result<B, E>) -> (r:
        Result<C, E>)
        requires
            fa matches Ok(a) && fb matches Ok(b) ==> call_requires(f, (a, b)),
        ensures
            match (fa, fb) {
                (Ok(a), Ok(b)) => r matches Ok(c) && call_ensures(f, (a, b), c),
                (Err(e), _) => r == Err::<C, E>(e),
                (Ok(_), Err(e)) => r == Err::<C, E>(e),
            },
    {
        match (fa, fb) {
            (Ok(a), Ok(b)) => Ok(f(a, b)),
            (Err(e), _) => Err(e),
            (Ok(_), Err(e)) => Err(e),
        }
    }

    /// Apply a wrapped function to a wrapped argument.
    pub fn ap<A, B, F: FnOnce(A) -> B>(ff: Result<F, E>, fa: Result<A, E>) -> (r: Result<B, E>)
        requires
            ff matches Ok(f) && fa matches Ok(a) ==> call_requires(f, (a,)),
        ensures
            match (ff, fa) {
                (Ok(f), Ok(a)) => r matches Ok(b) && call_ensures(f, (a,), b),
                (Err(e), _) => r == Err::<B, E>(e),
                (Ok(_), Err(e)) => r == Err::<B, E>(e),
            },
    {
        match (ff, fa) {
            (Ok(f), Ok(a)) => Ok(f(a)),
            (Err(e), _) => Err(e),
            (Ok(_), Err(e)) => Err(e),
        }
    }

    /// Sequential dependent combination; short-circuits on the first error.
    pub fn and_then<A, B, F: FnOnce(A) -> Result<B, E>>(fa: Result<A, E>, f: F) -> (r: Result<
        B,
        E,
    >)
        requires
            fa matches Ok(a) ==> call_requires(f, (a,)),
        ensures
            match fa {
                Ok(a) => call_ensures(f, (a,), r),
                Err(e) => r == Err::<B, E>(e),
            },
    {
        match fa {
            Ok(a) => f(a),
            Err(e) => Err(e),
        }
    }

    /// Collapse one layer of nesting.
    pub fn flatten<A>(ffa: Result<Result<A, E>, E>) -> (r: Result<A, E>)
        ensures
            r == (match ffa {
                Ok(fa) => fa,
                Err(e) => Err::<A, E>(e),
            }),
    {
        match ffa {
            Ok(fa) => fa,
            Err(e) => Err(e),
        }
    }
}

impl<E: From<String>> AsControl<ResultFunctor<E>> {
    /// The designated failure value, carrying the diagnostic through the
    /// error type's own conversion from text.
    pub fn fail<A>(msg: &str) -> (r: Result<A, E>)
        ensures
            r is Err,
    {
        Err(E::from(msg.to_owned()))
    }
}

impl<E: Default> AsControl<ResultFunctor<E>> {
    /// The empty value: the error type's default.
    pub fn empty<A>() -> (r: Result<A, E>)
        ensures
            r is Err,
    {
        Err(E::default())
    }

    /// Left-biased choice.
    pub fn choice<A>(a: Result<A, E>, b: Result<A, E>) -> (r: Result<A, E>)
        ensures
            r == (if a is Ok {
                a
            } else {
                b
            }),
    {
        match a {
            Ok(x) => Ok(x),
            Err(_) => b,
        }
    }

    /// Success-unit or the empty value.
    pub fn guard(p: bool) -> (r: Result<(), E>)
        ensures
            p ==> r == Ok::<(), E>(()),
            !p ==> r is Err,
    {
        if p {
            Ok(())
        } else {
            Err(E::default())
        }
    }
}

// ---------------------------------------------------------------------------
// The identity context
// ---------------------------------------------------------------------------

impl AsControl<Identity> {
    /// Transform the value itself.
    pub fn fmap<A, B, F: FnOnce(A) -> B>(f: F, a: A) -> (r: B)
        requires
            call_requires(f, (a,)),
        ensures
            call_ensures(f, (a,), r),
    {
        f(a)
    }

    /// Lift a plain value: the value itself.
    pub fn pure<A>(a: A) -> (r: A)
        ensures
            r == a,
    {
        a
    }

    /// Combine two plain values.
    pub fn zip_with<A, B, C, F: FnOnce(A, B) -> C>(f: F, a: A, b: B) -> (r: C)
        requires
            call_requires(f, (a, b)),
        ensures
            call_ensures(f, (a, b), r),
    {
        f(a, b)
    }

    /// Apply a function to a value.
    pub fn ap<A, B, F: FnOnce(A) -> B>(ff: F, a: A) -> (r: B)
        requires
            call_requires(ff, (a,)),
        ensures
            call_ensures(ff, (a,), r),
    {
        ff(a)
    }

    /// Sequence a dependent continuation.
    pub fn and_then<A, B, F: FnOnce(A) -> B>(a: A, f: F) -> (r: B)
        requires
            call_requires(f, (a,)),
        ensures
            call_ensures(f, (a,), r),
    {
        f(a)
    }

    /// Collapse one layer of nesting: the identity.
    pub fn flatten<A>(a: A) -> (r: A)
        ensures
            r == a,
    {
        a
    }
}

} // verus!
