//! The nonlinear hierarchy: protocol operations whose continuations may run
//! any number of times, so they take `Fn`; this is where the vector contexts
//! get their cross-product pairing and their sequential `and_then`.

use vstd::prelude::*;

use crate::data::{map_vec, zip_vec};
use crate::impls::{ArrayFunctor, Identity, OptionFunctor, ResultFunctor, UndetVec, V2, ZipVec};

verus! {

/// A type-level selector for the nonlinear implementations of a context.
pub struct AsNonlinear<F>(core::marker::PhantomData<F>);

// ---------------------------------------------------------------------------
// Vector helpers
// ---------------------------------------------------------------------------

/// The concatenation of the views of a list of vectors.
pub open spec fn concat_views<T>(rows: Seq<Vec<T>>) -> Seq<T>
    decreases rows,
{
    if rows.len() == 0 {
        Seq::empty()
    } else {
        concat_views(rows.drop_last()) + rows.last()@
    }
}

/// Concatenate a vector of vectors.
#[verifier::loop_isolation(false)]
pub fn concat_all<T>(vv: Vec<Vec<T>>) -> (r: Vec<T>)
    ensures
        r@ == concat_views(vv@),
{
    let ghost vv0 = vv@;
    let mut rest = vv;
    let mut out: Vec<T> = Vec::new();
    proof {
        assert(vv0.take(0) =~= Seq::<Vec<T>>::empty());
    }
    while rest.len() > 0
        invariant
            rest@ == vv0.skip((vv0.len() - rest@.len()) as int),
            rest@.len() <= vv0.len(),
            out@ == concat_views(vv0.take((vv0.len() - rest@.len()) as int)),
        decreases rest.len(),
    {
        let ghost k = (vv0.len() - rest@.len()) as int;
        let mut row = rest.remove(0);
        proof {
            assert(row == vv0[k]);
            assert(rest@ =~= vv0.skip(k + 1));
        }
        out.append(&mut row);
        proof {
            assert(vv0.take(k + 1).drop_last() =~= vv0.take(k));
            assert(vv0.take(k + 1).last() == vv0[k]);
        }
    }
    proof {
        assert(vv0.take(vv0.len() as int) =~= vv0);
    }
    out
}

/// Map a continuation returning a vector over every element and concatenate
/// the rows, in order.
#[verifier::loop_isolation(false)]
pub fn flat_map_vec<A, B, F: Fn(A) -> Vec<B>>(f: F, fa: Vec<A>) -> (r: Vec<B>)
    requires
        forall|i: int| 0 <= i < fa@.len() ==> call_requires(f, (fa@[i],)),
    ensures
        exists|rows: Seq<Vec<B>>|
            #![auto]
            {
                &&& rows.len() == fa@.len()
                &&& forall|i: int|
                    0 <= i < fa@.len() ==> call_ensures(f, (fa@[i],), #[trigger] rows[i])
                &&& r@ == concat_views(rows)
            },
{
    let ghost fa0 = fa@;
    let mut rest = fa;
    let mut out: Vec<B> = Vec::new();
    let ghost mut rows: Seq<Vec<B>> = Seq::empty();
    while rest.len() > 0
        invariant
            rows.len() + rest@.len() == fa0.len(),
            rest@ == fa0.skip(rows.len() as int),
            forall|i: int| 0 <= i < rows.len() ==> call_ensures(f, (fa0[i],), #[trigger] rows[i]),
            out@ == concat_views(rows),
        decreases rest.len(),
    {
        let ghost k = rows.len() as int;
        let x = rest.remove(0);
        proof {
            assert(x == fa0[k]);
            assert(rest@ =~= fa0.skip(k + 1));
        }
        let mut row = f(x);
        let ghost rows0 = rows;
        proof {
            rows = rows0.push(row);
        }
        out.append(&mut row);
        proof {
            assert(rows.drop_last() =~= rows0);
            assert(out@ == concat_views(rows));
        }
    }
    proof {
        assert(rows.len() == fa0.len());
    }
    out
}

/// Pair every element of the first vector with every element of the second,
/// in row-major order.
#[verifier::loop_isolation(false)]
pub fn cross_vec<A: Copy, B: Copy, C, F: Fn(A, B) -> C>(f: F, fa: Vec<A>, fb: Vec<B>) -> (r: Vec<
    C,
>)
    requires
        fa@.len() * fb@.len() <= usize::MAX,
        forall|i: int, j: int|
            0 <= i < fa@.len() && 0 <= j < fb@.len() ==> call_requires(f, (fa@[i], fb@[j])),
    ensures
        r@.len() == fa@.len() * fb@.len(),
        forall|k: int|
            0 <= k < r@.len() ==> call_ensures(
                f,
                (fa@[k / fb@.len() as int], fb@[k % fb@.len() as int]),
                #[trigger] r@[k],
            ),
{
    let m = fb.len();
    let mut out: Vec<C> = Vec::new();
    if m == 0 {
        proof {
            assert(fa@.len() * 0 == 0) by (nonlinear_arith);
        }
        return out;
    }
    let mut i: usize = 0;
    while i < fa.len()
        invariant
            0 <= i <= fa@.len(),
            m == fb@.len(),
            m > 0,
            out@.len() == i * m,
            forall|k: int|
                0 <= k < out@.len() ==> call_ensures(
                    f,
                    (fa@[k / m as int], fb@[k % m as int]),
                    #[trigger] out@[k],
                ),
        decreases fa.len() - i,
    {
        let mut j: usize = 0;
        proof {
            assert(i * m + m <= fa@.len() * m) by (nonlinear_arith)
                requires
                    i + 1 <= fa@.len(),
                    m > 0,
            ;
            assert(fa@.len() * m <= usize::MAX);
        }
        while j < m
            invariant
                0 <= j <= m,
                0 <= i < fa@.len(),
                m == fb@.len(),
                m > 0,
                out@.len() == i * m + j,
                i * m + m <= usize::MAX,
                forall|k: int|
                    0 <= k < out@.len() ==> call_ensures(
                        f,
                        (fa@[k / m as int], fb@[k % m as int]),
                        #[trigger] out@[k],
                    ),
            decreases m - j,
        {
            let c = f(fa[i], fb[j]);
            out.push(c);
            proof {
                assert((i * m + j) / m as int == i as int && (i * m + j) % m as int == j as int)
                    by (nonlinear_arith)
                    requires
                        0 <= j < m,
                        0 <= i,
                ;
            }
            j += 1;
        }
        proof {
            assert((i + 1) * m == i * m + m) by (nonlinear_arith);
        }
        i += 1;
    }
    proof {
        assert(out@.len() == fa@.len() * m);
    }
    out
}

// ---------------------------------------------------------------------------
// The optional-value context
// ---------------------------------------------------------------------------

impl AsNonlinear<OptionFunctor> {
    /// Transform the payload; absence is preserved.
    pub fn fmap<A, B, F: Fn(A) -> B>(f: F, fa: Option<A>) -> (r: Option<B>)
        requires
            fa matches Some(a) ==> call_requires(f, (a,)),
        ensures
            match fa {
                Some(a) => r matches Some(b) && call_ensures(f, (a,), b),
                None => r is None,
            },
    {
        match fa {
            Some(a) => Some(f(a)),
            None => None,
        }
    }

    /// Lift a plain value.
    pub fn pure<T: Clone>(t: T) -> (r: Option<T>)
        ensures
            r == Some(t),
    {
        Some(t)
    }

    /// Pairwise independent combination.
    pub fn zip_with<A, B, C, F: Fn(A, B) -> C>(f: F, fa: Option<A>, fb: Option<B>) -> (r: Option<
        C,
    >)
        requires
            fa matches Some(a) && fb matches Some(b) ==> call_requires(f, (a, b)),
        ensures
            match (fa, fb) {
                (Some(a), Some(b)) => r matches Some(c) && call_ensures(f, (a, b), c),
                _ => r is None,
            },
    {
        match (fa, fb) {
            (Some(a), Some(b)) => Some(f(a, b)),
            _ => None,
        }
    }

    /// The empty value.
    pub fn empty<T>() -> (r: Option<T>)
        ensures
            r is None,
    {
        None
    }

    /// Left-biased choice.
    pub fn choice<T>(a: Option<T>, b: Option<T>) -> (r: Option<T>)
        ensures
            r == (if a is Some {
                a
            } else {
                b
            }),
    {
        match a {
            Some(x) => Some(x),
            None => b,
        }
    }

    /// Success-unit or the empty value.
    pub fn guard(p: bool) -> (r: Option<()>)
        ensures
            r == crate::control::opt_guard(p),
    {
        if p {
            Some(())
        } else {
            None
        }
    }

    /// Sequential dependent combination.
    pub fn and_then<A: Clone, B: Clone, F: Fn(A) -> Option<B>>(fa: Option<A>, f: F) -> (r: Option<
        B,
    >)
        requires
            fa matches Some(a) ==> call_requires(f, (a,)),
        ensures
            match fa {
                Some(a) => call_ensures(f, (a,), r),
                None => r is None,
            },
    {
        match fa {
            Some(a) => f(a),
            None => None,
        }
    }

    /// Collapse one layer of nesting.
    pub fn flatten<A: Clone>(ffa: Option<Option<A>>) -> (r: Option<A>)
        ensures
            r == (match ffa {
                Some(fa) => fa,
                None => None::<A>,
            }),
    {
        match ffa {
            Some(fa) => fa,
            None => None,
        }
    }

    /// The designated failure value.
    pub fn fail<A>(_msg: &str) -> (r: Option<A>)
        ensures
            r is None,
    {
        None
    }
}

// ---------------------------------------------------------------------------
// The result-with-error context
// ---------------------------------------------------------------------------

impl<E> AsNonlinear<ResultFunctor<E>> {
    /// Sequential dependent combination; short-circuits on the first error.
    pub fn and_then<A: Clone, B: Clone, F: Fn(A) -> Result<B, E>>(fa: Result<A, E>, f: F) -> (r:
        Result<B, E>)
        requires
            fa matches Ok(a) ==> call_requires(f, (a,)),
        ensures
            match fa {
                Ok(a) => call_ensures(f, (a,), r),
                Err(e) => r == Err::<B, E>(e),
            },
    {
        match fa {
            Ok(a) => f(a),
            Err(e) => Err(e),
        }
    }
}

impl<E: From<String>> AsNonlinear<ResultFunctor<E>> {
    /// The designated failure value, carrying the diagnostic through the
    /// error type's own conversion from text.
    pub fn fail<A>(msg: &str) -> (r: Result<A, E>)
        ensures
            r is Err,
    {
        Err(E::from(msg.to_owned()))
    }
}

// ---------------------------------------------------------------------------
// Vector contexts
// ---------------------------------------------------------------------------

impl AsNonlinear<UndetVec> {
    /// Transform every element, keeping the order.
    pub fn fmap<A, B, F: Fn(A) -> B>(f: F, fa: Vec<A>) -> (r: Vec<B>)
        requires
            forall|i: int| 0 <= i < fa@.len() ==> call_requires(f, (fa@[i],)),
        ensures
            r@.len() == fa@.len(),
            forall|i: int| 0 <= i < fa@.len() ==> call_ensures(f, (fa@[i],), #[trigger] r@[i]),
    {
        map_vec(f, fa)
    }

    /// Lift a plain value: the one-element vector.
    pub fn pure<T: Clone>(t: T) -> (r: Vec<T>)
        ensures
            r@ == seq![t],
    {
        let mut r: Vec<T> = Vec::new();
        r.push(t);
        proof {
            assert(r@ =~= seq![r@[0]]);
        }
        r
    }

    /// Cross-product pairing, row-major.
    pub fn zip_with<A: Copy, B: Copy, C, F: Fn(A, B) -> C>(f: F, fa: Vec<A>, fb: Vec<B>) -> (r:
        Vec<C>)
        requires
            fa@.len() * fb@.len() <= usize::MAX,
            forall|i: int, j: int|
                0 <= i < fa@.len() && 0 <= j < fb@.len() ==> call_requires(f, (fa@[i], fb@[j])),
        ensures
            r@.len() == fa@.len() * fb@.len(),
            forall|k: int|
                0 <= k < r@.len() ==> call_ensures(
                    f,
                    (fa@[k / fb@.len() as int], fb@[k % fb@.len() as int]),
                    #[trigger] r@[k],
                ),
    {
        cross_vec(f, fa, fb)
    }

    /// The empty vector.
    pub fn empty<T>() -> (r: Vec<T>)
        ensures
            r@ == Seq::<T>::empty(),
    {
        Vec::new()
    }

    /// Concatenation.
    pub fn choice<T>(a: Vec<T>, b: Vec<T>) -> (r: Vec<T>)
        ensures
            r@ == a@ + b@,
    {
        let mut a = a;
        let mut b = b;
        a.append(&mut b);
        a
    }

    /// The one-element unit vector, or the empty vector.
    pub fn guard(p: bool) -> (r: Vec<()>)
        ensures
            p ==> r@ == seq![()],
            !p ==> r@ == Seq::<()>::empty(),
    {
        let mut r: Vec<()> = Vec::new();
        if p {
            r.push(());
            proof {
                assert(r@ =~= seq![()]);
            }
        }
        r
    }

    /// Sequential dependent combination: every element's row, concatenated in
    /// order.
    pub fn and_then<A: Clone, B: Clone, F: Fn(A) -> Vec<B>>(fa: Vec<A>, f: F) -> (r: Vec<B>)
        requires
            forall|i: int| 0 <= i < fa@.len() ==> call_requires(f, (fa@[i],)),
        ensures
            exists|rows: Seq<Vec<B>>|
                #![auto]
                {
                    &&& rows.len() == fa@.len()
                    &&& forall|i: int|
                        0 <= i < fa@.len() ==> call_ensures(f, (fa@[i],), #[trigger] rows[i])
                    &&& r@ == concat_views(rows)
                },
    {
        flat_map_vec(f, fa)
    }

    /// Collapse one layer of nesting: concatenation in order.
    pub fn flatten<A: Clone>(ffa: Vec<Vec<A>>) -> (r: Vec<A>)
        ensures
            r@ == concat_views(ffa@),
    {
        concat_all(ffa)
    }

    /// The designated failure value: the empty vector.
    pub fn fail<A>(_msg: &str) -> (r: Vec<A>)
        ensures
            r@ == Seq::<A>::empty(),
    {
        Vec::new()
    }
}

impl AsNonlinear<ZipVec> {
    /// Index-wise pairing, truncating to the shorter operand.
    pub fn zip_with<A, B, C, F: Fn(A, B) -> C>(f: F, fa: Vec<A>, fb: Vec<B>) -> (r: Vec<C>)
        requires
            forall|i: int|
                0 <= i < fa@.len() && i < fb@.len() ==> call_requires(f, (fa@[i], fb@[i])),
        ensures
            r@.len() == vstd::math::min(fa@.len() as int, fb@.len() as int),
            forall|i: int|
                0 <= i < r@.len() ==> call_ensures(f, (fa@[i], fb@[i]), #[trigger] r@[i]),
    {
        zip_vec(f, fa, fb)
    }
}

// ---------------------------------------------------------------------------
// The homogeneous-pair context
// ---------------------------------------------------------------------------

impl AsNonlinear<V2> {
    /// Combine component-wise.
    pub fn zip_with<A, B, C, F: Fn(A, B) -> C>(f: F, fa: (A, A), fb: (B, B)) -> (r: (C, C))
        requires
            call_requires(f, (fa.0, fb.0)),
            call_requires(f, (fa.1, fb.1)),
        ensures
            call_ensures(f, (fa.0, fb.0), r.0),
            call_ensures(f, (fa.1, fb.1), r.1),
    {
        let (a1, a2) = fa;
        let (b1, b2) = fb;
        (f(a1, b1), f(a2, b2))
    }

    /// Sequential dependent combination: the diagonal of the two runs of the
    /// continuation.
    pub fn and_then<A: Clone, B: Clone, F: Fn(A) -> (B, B)>(fa: (A, A), f: F) -> (r: (B, B))
        requires
            call_requires(f, (fa.0,)),
            call_requires(f, (fa.1,)),
        ensures
            exists|p: (B, B)| call_ensures(f, (fa.0,), p) && r.0 == p.0,
            exists|q: (B, B)| call_ensures(f, (fa.1,), q) && r.1 == q.1,
    {
        let (a, b) = fa;
        let (r0, _) = f(a);
        let (_, r1) = f(b);
        (r0, r1)
    }
}

// ---------------------------------------------------------------------------
// The identity context
// ---------------------------------------------------------------------------

impl AsNonlinear<Identity> {
    /// Transform the value itself.
    pub fn fmap<A, B, F: Fn(A) -> B>(f: F, a: A) -> (r: B)
        requires
            call_requires(f, (a,)),
        ensures
            call_ensures(f, (a,), r),
    {
        f(a)
    }

    /// Sequence a dependent continuation.
    pub fn and_then<A: Clone, B: Clone, F: Fn(A) -> B>(a: A, f: F) -> (r: B)
        requires
            call_requires(f, (a,)),
        ensures
            call_ensures(f, (a,), r),
    {
        f(a)
    }

    /// Collapse one layer of nesting: the identity.
    pub fn flatten<A: Clone>(a: A) -> (r: A)
        ensures
            r == a,
    {
        a
    }
}

// ---------------------------------------------------------------------------
// The fixed-length-vector context
// ---------------------------------------------------------------------------

impl<const N: usize> ArrayFunctor<N> {
    /// Sequential dependent combination, taking the diagonal upon joining:
    /// the element at each index comes from that index of its own row.  Every
    /// run of the continuation must yield exactly `N` elements.
    #[verifier::loop_isolation(false)]
    pub fn and_then<A, B, F: Fn(A) -> Vec<B>>(fa: Vec<A>, f: F) -> (r: Vec<B>)
        requires
            fa@.len() == N,
            forall|i: int| 0 <= i < fa@.len() ==> call_requires(f, (fa@[i],)),
            forall|x: A, out: Vec<B>| call_ensures(f, (x,), out) ==> out@.len() == N,
        ensures
            r@.len() == N,
            forall|i: int| 0 <= i < r@.len() ==> #[trigger] diag_entry(f, fa@[i], i, r@[i]),
    {
        let ghost fa0 = fa@;
        let mut rest = fa;
        let mut out: Vec<B> = Vec::new();
        while rest.len() > 0
            invariant
                out@.len() + rest@.len() == N,
                rest@ == fa0.skip(out@.len() as int),
                forall|i: int|
                    0 <= i < out@.len() ==> #[trigger] diag_entry(f, fa0[i], i, out@[i]),
            decreases rest.len(),
        {
            let ghost k = out@.len() as int;
            let x = rest.remove(0);
            proof {
                assert(x == fa0[k]);
                assert(rest@ =~= fa0.skip(k + 1));
            }
            let mut row = f(x);
            let ghost row0 = row;
            proof {
                assert(call_ensures(f, (fa0[k],), row0));
                assert(row0@.len() == N);
            }
            let picked = row.remove(out.len());
            proof {
                assert(picked == row0@[k]);
            }
            out.push(picked);
            proof {
                assert(diag_entry(f, fa0[k], k, picked)) by {
                    assert(call_ensures(f, (fa0[k],), row0) && picked == row0@[k]);
                }
            }
        }
        out
    }
}

/// Whether `y` can be the `i`-th element of a row the continuation returns
/// for `x`: the diagonal relation of the fixed-length context's `and_then`.
pub open spec fn diag_entry<A, B, F: Fn(A) -> Vec<B>>(f: F, x: A, i: int, y: B) -> bool {
    exists|row: Vec<B>| #![auto] call_ensures(f, (x,), row) && y == row@[i]
}

} // verus!
