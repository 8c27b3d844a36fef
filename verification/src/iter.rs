//! Sequence contexts for blocks over streams of values.  `Iter` is the
//! list-like context: index order is kept, `zip_with` is the cross product
//! and `and_then` enumerates every combination.  `ZipIter` is the zipping
//! context: `zip_with` pairs index-wise and `pure` repeats its value, so a
//! lifted plain value pairs with every index of a finite stream.

use vstd::prelude::*;

use crate::data::map_vec;
use crate::nonlinear::{concat_all, concat_views, cross_vec, flat_map_vec};

verus! {

/// The list-like context label.
pub struct Iter {}

impl Iter {
    /// Transform every element, keeping the order.
    pub fn fmap<A, B, F: Fn(A) -> B>(f: F, a: Vec<A>) -> (r: Vec<B>)
        requires
            forall|i: int| 0 <= i < a@.len() ==> call_requires(f, (a@[i],)),
        ensures
            r@.len() == a@.len(),
            forall|i: int| 0 <= i < a@.len() ==> call_ensures(f, (a@[i],), #[trigger] r@[i]),
    {
        map_vec(f, a)
    }

    /// Lift a plain value: the one-element stream.
    pub fn pure<A>(a: A) -> (r: Vec<A>)
        ensures
            r@ == seq![a],
    {
        let ghost av = a;
        let mut r: Vec<A> = Vec::new();
        r.push(a);
        proof {
            assert(r@ =~= seq![av]);
        }
        r
    }

    /// Cross-product pairing, row-major: every element of the first stream
    /// against every element of the second.
    pub fn zip_with<A: Copy, B: Copy, C, F: Fn(A, B) -> C>(f: F, a: Vec<A>, b: Vec<B>) -> (r: Vec<
        C,
    >)
        requires
            a@.len() * b@.len() <= usize::MAX,
            forall|i: int, j: int|
                0 <= i < a@.len() && 0 <= j < b@.len() ==> call_requires(f, (a@[i], b@[j])),
        ensures
            r@.len() == a@.len() * b@.len(),
            forall|k: int|
                0 <= k < r@.len() ==> call_ensures(
                    f,
                    (a@[k / b@.len() as int], b@[k % b@.len() as int]),
                    #[trigger] r@[k],
                ),
    {
        cross_vec(f, a, b)
    }

    /// Sequential dependent combination: every element's row, concatenated in
    /// order.
    pub fn and_then<A, B, F: Fn(A) -> Vec<B>>(a: Vec<A>, f: F) -> (r: Vec<B>)
        requires
            forall|i: int| 0 <= i < a@.len() ==> call_requires(f, (a@[i],)),
        ensures
            exists|rows: Seq<Vec<B>>|
                #![auto]
                {
                    &&& rows.len() == a@.len()
                    &&& forall|i: int|
                        0 <= i < a@.len() ==> call_ensures(f, (a@[i],), #[trigger] rows[i])
                    &&& r@ == concat_views(rows)
                },
    {
        flat_map_vec(f, a)
    }

    /// The designated failure value: the empty stream, the diagnostic
    /// discarded.
    pub fn fail<T>(_msg: &str) -> (r: Vec<T>)
        ensures
            r@ == Seq::<T>::empty(),
    {
        Vec::new()
    }

    /// Collapse one layer of nesting: concatenation in order.
    pub fn join<A>(a: Vec<Vec<A>>) -> (r: Vec<A>)
        ensures
            r@ == concat_views(a@),
    {
        concat_all(a)
    }

    /// The one-element unit stream, or the empty stream.
    pub fn guard(cond: bool) -> (r: Vec<()>)
        ensures
            cond ==> r@ == seq![()],
            !cond ==> r@ == Seq::<()>::empty(),
    {
        let mut r: Vec<()> = Vec::new();
        if cond {
            r.push(());
            proof {
                assert(r@ =~= seq![()]);
            }
        }
        r
    }

    /// The empty stream.
    pub fn empty<T>() -> (r: Vec<T>)
        ensures
            r@ == Seq::<T>::empty(),
    {
        Vec::new()
    }

    /// Concatenation.
    pub fn choice<T>(l: Vec<T>, r: Vec<T>) -> (out: Vec<T>)
        ensures
            out@ == l@ + r@,
    {
        let mut l = l;
        let mut r = r;
        l.append(&mut r);
        l
    }
}

// ---------------------------------------------------------------------------
// The zipping context
// ---------------------------------------------------------------------------

/// A stream for the zipping context: a finite prefix, optionally followed by
/// one value repeating forever.  `pure` must repeat its value so that a
/// lifted constant pairs with every index of the other operand.
pub struct Zipped<T> {
    pub prefix: Vec<T>,
    pub tail: Option<T>,
}

/// The element of a zipped stream at an index: from the prefix while it
/// lasts, then the repeating tail.
pub open spec fn z_at<T>(prefix: Seq<T>, tail: Option<T>, i: int) -> T {
    if i < prefix.len() {
        prefix[i]
    } else {
        tail->0
    }
}

/// The prefix length of the index-wise pairing of two zipped streams.
pub open spec fn zip_prefix_len(la: int, ta: bool, lb: int, tb: bool) -> int {
    if ta && tb {
        vstd::math::max(la, lb)
    } else if ta {
        lb
    } else if tb {
        la
    } else {
        vstd::math::min(la, lb)
    }
}

/// The zipping context label.
pub struct ZipIter {}

impl ZipIter {
    /// Transform every element, the repeating tail included.
    pub fn fmap<A, B, F: Fn(A) -> B>(f: F, a: Zipped<A>) -> (r: Zipped<B>)
        requires
            forall|i: int| 0 <= i < a.prefix@.len() ==> call_requires(f, (a.prefix@[i],)),
            a.tail matches Some(t) ==> call_requires(f, (t,)),
        ensures
            r.prefix@.len() == a.prefix@.len(),
            forall|i: int|
                0 <= i < a.prefix@.len() ==> call_ensures(
                    f,
                    (a.prefix@[i],),
                    #[trigger] r.prefix@[i],
                ),
            match (a.tail, r.tail) {
                (Some(t), Some(rt)) => call_ensures(f, (t,), rt),
                (None, None) => true,
                _ => false,
            },
    {
        let Zipped { prefix, tail } = a;
        let new_tail = match tail {
            Some(t) => Some(f(t)),
            None => None,
        };
        Zipped { prefix: map_vec(f, prefix), tail: new_tail }
    }

    /// Lift a plain value: it repeats at every index.
    pub fn pure<A>(a: A) -> (r: Zipped<A>)
        ensures
            r.prefix@ == Seq::<A>::empty(),
            r.tail == Some(a),
    {
        Zipped { prefix: Vec::new(), tail: Some(a) }
    }

    /// Index-wise pairing: the result has an element exactly where both
    /// operands do, and repeats only where both repeat.
    #[verifier::loop_isolation(false)]
    pub fn zip_with<A: Copy, B: Copy, C, F: Fn(A, B) -> C>(f: F, a: Zipped<A>, b: Zipped<B>) -> (r:
        Zipped<C>)
        requires
            forall|i: int|
                0 <= i < zip_prefix_len(
                    a.prefix@.len() as int,
                    a.tail is Some,
                    b.prefix@.len() as int,
                    b.tail is Some,
                ) ==> call_requires(
                    f,
                    (z_at(a.prefix@, a.tail, i), z_at(b.prefix@, b.tail, i)),
                ),
            a.tail matches Some(ta) && b.tail matches Some(tb) ==> call_requires(f, (ta, tb)),
        ensures
            r.prefix@.len() == zip_prefix_len(
                a.prefix@.len() as int,
                a.tail is Some,
                b.prefix@.len() as int,
                b.tail is Some,
            ),
            forall|i: int|
                0 <= i < r.prefix@.len() ==> call_ensures(
                    f,
                    (z_at(a.prefix@, a.tail, i), z_at(b.prefix@, b.tail, i)),
                    #[trigger] r.prefix@[i],
                ),
            match (a.tail, b.tail) {
                (Some(ta), Some(tb)) => r.tail matches Some(tc) && call_ensures(f, (ta, tb), tc),
                _ => r.tail is None,
            },
    {
        let pa_len = a.prefix.len();
        let pb_len = b.prefix.len();
        let n: usize = match (&a.tail, &b.tail) {
            (Some(_), Some(_)) => if pa_len >= pb_len {
                pa_len
            } else {
                pb_len
            },
            (Some(_), None) => pb_len,
            (None, Some(_)) => pa_len,
            (None, None) => if pa_len <= pb_len {
                pa_len
            } else {
                pb_len
            },
        };
        proof {
            assert(n as int == zip_prefix_len(
                pa_len as int,
                a.tail is Some,
                pb_len as int,
                b.tail is Some,
            ));
        }
        let mut out: Vec<C> = Vec::new();
        let mut i: usize = 0;
        while i < n
            invariant
                0 <= i <= n,
                out@.len() == i,
                forall|k: int|
                    0 <= k < i ==> call_ensures(
                        f,
                        (z_at(a.prefix@, a.tail, k), z_at(b.prefix@, b.tail, k)),
                        #[trigger] out@[k],
                    ),
            decreases n - i,
        {
            let x: A = if i < pa_len {
                a.prefix[i]
            } else {
                proof {
                    assert(a.tail is Some);
                }
                match &a.tail {
                    Some(t) => *t,
                    None => vstd::pervasive::unreached(),
                }
            };
            let y: B = if i < pb_len {
                b.prefix[i]
            } else {
                proof {
                    assert(b.tail is Some);
                }
                match &b.tail {
                    Some(t) => *t,
                    None => vstd::pervasive::unreached(),
                }
            };
            proof {
                assert(x == z_at(a.prefix@, a.tail, i as int));
                assert(y == z_at(b.prefix@, b.tail, i as int));
            }
            out.push(f(x, y));
            i += 1;
        }
        let new_tail = match (a.tail, b.tail) {
            (Some(ta), Some(tb)) => Some(f(ta, tb)),
            _ => None,
        };
        Zipped { prefix: out, tail: new_tail }
    }

    /// The empty stream.
    pub fn empty<A>() -> (r: Zipped<A>)
        ensures
            r.prefix@ == Seq::<A>::empty(),
            r.tail is None,
    {
        Zipped { prefix: Vec::new(), tail: None }
    }

    /// A repeating unit, or the empty stream.
    pub fn guard(cond: bool) -> (r: Zipped<()>)
        ensures
            r.prefix@ == Seq::<()>::empty(),
            cond ==> r.tail == Some(()),
            !cond ==> r.tail is None,
    {
        if cond {
            Zipped { prefix: Vec::new(), tail: Some(()) }
        } else {
            Zipped { prefix: Vec::new(), tail: None }
        }
    }

    /// Left-biased index-wise choice: the element at each index comes from
    /// the left stream while it lasts, then from the right one.
    pub fn choice<T>(l: Zipped<T>, r: Zipped<T>) -> (out: Zipped<T>)
        ensures
            l.tail is Some ==> out == l,
            l.tail is None ==> {
                &&& out.tail == r.tail
                &&& out.prefix@ == (if r.prefix@.len() <= l.prefix@.len() {
                    l.prefix@
                } else {
                    l.prefix@ + r.prefix@.skip(l.prefix@.len() as int)
                })
            },
    {
        if l.tail.is_some() {
            return l;
        }
        let Zipped { prefix: mut p, tail: _ } = l;
        let mut rp = r.prefix;
        if rp.len() > p.len() {
            let mut suf = rp.split_off(p.len());
            p.append(&mut suf);
        }
        Zipped { prefix: p, tail: r.tail }
    }
}

// ---------------------------------------------------------------------------
// Compositional equivalence for streams
// ---------------------------------------------------------------------------

/// Independent pairing of the list-like context, element by element: the pair
/// at row-major position `k` of the cross product.
pub open spec fn cross_at<A, B>(a: Seq<A>, b: Seq<B>, k: int) -> (A, B) {
    (a[k / b.len() as int], b[k % b.len() as int])
}

/// Law (compositional equivalence, list-like context): the cross-product
/// pairing enumerates, in row-major order, exactly the pairs that sequencing
/// the first stream and then the second enumerates; position `i * |b| + j`
/// holds the pair `(a[i], b[j])` under either reading.
pub proof fn lemma_iter_compositional_equivalence<A, B>(a: Seq<A>, b: Seq<B>, i: int, j: int)
    requires
        0 <= i < a.len(),
        0 <= j < b.len(),
    ensures
        cross_at(a, b, i * b.len() + j) == (a[i], b[j]),
{
    let m = b.len() as int;
    assert((i * m + j) / m == i && (i * m + j) % m == j) by (nonlinear_arith)
        requires
            0 <= j < m,
            0 <= i,
    ;
}

} // verus!
