use std::collections::HashSet;

use either::Either;
use either::Either::{Left, Right};

use qualified_do::impls::{ArrayFunctor, UndetVec};
use qualified_do::nonlinear::AsNonlinear;
use qualified_do::iter::{Iter, ZipIter, Zipped};
use qualified_do::{Optioned, Resulted};

#[test]
fn test_array_monad() {
    assert_eq!(
        ArrayFunctor::<5>::and_then(vec![1, 2, 3, 4, 5], |x| vec![x, x + 1, x + 2, x + 3, x + 4]),
        [1, 2, 3, 4, 5]
            .into_iter()
            .enumerate()
            .map(|(i, x)| i + x)
            .collect::<Vec<_>>()
    )
}

#[test]
fn test_array_zip_with() {
    assert_eq!(
        ArrayFunctor::<3>::zip_with(|a, b| a + b, vec![1, 2, 3], vec![4, 5, 6]),
        ArrayFunctor::<3>::and_then(vec![1, 2, 3], |a| ArrayFunctor::<3>::fmap(
            |b| a + b,
            vec![4, 5, 6]
        ))
    )
}

#[test]
fn test_array_pure_repeats() {
    let r = ArrayFunctor::<4>::pure(9i64);
    assert_eq!(r, vec![9, 9, 9, 9]);
}

#[test]
fn test_iter_undet_01() {
    let a: Vec<i64> = vec![1, 2, 3];
    let b: Vec<i64> = vec![4, 5, 6];
    let answer = {
        let a = a.clone();
        let b = b.clone();
        Iter::fmap(
            |((x, y), z)| x + y + z,
            Iter::fmap(|p| (p, 100i64), Iter::zip_with(|x, y| (x, y), a, b)),
        )
    };
    let c = a
        .into_iter()
        .flat_map(|x| b.iter().cloned().map(move |y| x + y + 100))
        .collect::<Vec<_>>();
    assert_eq!(answer, c);
}

#[test]
fn test_iter_undet_pattern_01() {
    let a = vec![Some(1), None, Some(3)];
    let b = vec![Left(4), Left(5), Right(6)];
    let answer = {
        let a = a.clone();
        let b = b.clone();
        Iter::and_then(a, move |arg| match arg {
            Some(x) => Iter::and_then(b.clone(), move |arg2| match arg2 {
                Left(y) => {
                    let z = 100i64;
                    Iter::pure(x + y + z)
                }
                _ => Iter::fail("Pattern match failed:\n  expected: Left(y)"),
            }),
            _ => Iter::fail("Pattern match failed:\n  expected: Some(x)"),
        })
    };
    let c = a
        .into_iter()
        .flatten()
        .flat_map(|x| {
            b.iter()
                .cloned()
                .flat_map(|x| x.left())
                .map(move |y| x + y + 100)
        })
        .collect::<Vec<_>>();
    assert_eq!(answer, c);
}

#[test]
fn test_iter_guard() {
    let is: Vec<Option<i64>> = vec![Some(1), None, Some(3)];
    let js: Vec<Either<i64, i64>> = vec![Left(4), Right(5), Right(6)];
    let ans: Vec<i64> = {
        let is = is.clone();
        let js = js.clone();
        Iter::and_then(is, move |a| match a {
            Some(i) => Iter::and_then(js.clone(), move |b| match b {
                Right(j) => Iter::and_then(Iter::guard(j % 2 == 0), move |_| {
                    let k = 100i64;
                    Iter::pure(i + j + k)
                }),
                _ => Iter::fail("Pattern match failed:\n  expected: Right(j)"),
            }),
            _ => Iter::fail("Pattern match failed:\n  expected: Some(i)"),
        })
    };
    let expected = is
        .into_iter()
        .flatten()
        .flat_map(|i| {
            js.iter().cloned().flat_map(move |j| {
                j.right()
                    .and_then(move |j| (j % 2 == 0).then_some(i + j + 100))
            })
        })
        .collect::<Vec<_>>();
    assert_eq!(ans, expected);
}

#[test]
fn test_zipiter_no_guard() {
    let is: Vec<i64> = vec![1, 2, 3];
    let js: Vec<i64> = vec![4, 5, 6];
    let ans: HashSet<i64> = {
        let is = is.clone();
        let js = js.clone();
        let zipped = ZipIter::zip_with(
            |i, j| (i, j),
            Zipped { prefix: is, tail: None },
            Zipped { prefix: js, tail: None },
        );
        let lifted = ZipIter::fmap(|p| (p, 100i64), zipped);
        let out = ZipIter::fmap(|((i, j), k)| i + j + k, lifted);
        assert!(out.tail.is_none());
        out.prefix.into_iter().collect()
    };
    let expected = is
        .into_iter()
        .zip(js)
        .map(|(i, j)| i + j + 100)
        .collect::<HashSet<_>>();
    assert_eq!(ans, expected);
}

#[test]
fn test_zipiter_pure_pairs_every_index() {
    let out = ZipIter::zip_with(
        |a, b| (a, b),
        ZipIter::pure(7i64),
        Zipped { prefix: vec![1i64, 2], tail: None },
    );
    assert_eq!(out.prefix, vec![(7, 1), (7, 2)]);
    assert!(out.tail.is_none());
}

#[test]
fn test_zipiter_choice_left_biased() {
    let l = Zipped { prefix: vec![1i64, 2], tail: None };
    let r = Zipped { prefix: vec![10i64, 20, 30], tail: Some(99) };
    let out = ZipIter::choice(l, r);
    assert_eq!(out.prefix, vec![1, 2, 30]);
    assert_eq!(out.tail, Some(99));
}

#[test]
fn test_optioned_applicative() {
    let answer = Optioned::fmap(
        |(x, y)| x + y + 100,
        Optioned::zip_with(|a, b| (a, b), Some(1), Some(2)),
    );
    assert_eq!(answer, Some(103));
}

#[test]
fn text_optioned_resulted_nested() {
    #[derive(Debug, Copy, Clone)]
    enum Go {
        Go,
        NoGo,
    }
    let inner = |go: Go| -> Option<i64> {
        Optioned::and_then(Some(1), |x| {
            Optioned::and_then(Some(2), move |y| {
                Optioned::and_then(Some(go), move |arg| match arg {
                    Go::Go => Optioned::and_then(
                        Optioned::guard(x + y % 2 == 1),
                        move |_: ()| Optioned::pure(x + y + 100),
                    ),
                    _ => Optioned::fail("Pattern match failed:\n  expected: Go::Go"),
                })
            })
        })
    };
    let run = |go: Go| -> Result<i64, String> {
        Resulted::<String>::fmap(
            |(x, y)| x + y + 1000,
            Resulted::<String>::zip_with(
                |a, b| (a, b),
                inner(go).ok_or("Failed".to_string()),
                Ok(3),
            ),
        )
    };
    assert_eq!(run(Go::Go), Ok(1106));
    assert_eq!(run(Go::NoGo), Err("Failed".to_string()));
}

#[test]
fn test_guard_false_forces_zero() {
    let opt = Optioned::and_then(Some(5i64), |x| {
        Optioned::and_then(Optioned::guard(false), move |_: ()| Optioned::pure(x + 99))
    });
    assert_eq!(opt, None);
    let lst = Iter::and_then(vec![1i64, 2, 3], |x| {
        Iter::and_then(Iter::guard(false), move |_| Iter::pure(x + 99))
    });
    assert_eq!(lst, Vec::<i64>::new());
}

#[test]
fn test_undet_cross_product_is_row_major() {
    let r = AsNonlinear::<UndetVec>::zip_with(|a, b| a + b, vec![1i64, 2], vec![10i64, 20]);
    assert_eq!(r, vec![11, 21, 12, 22]);
    let s = AsNonlinear::<UndetVec>::and_then(vec![1i64, 2], |a| vec![a * 10, a * 10 + 1]);
    assert_eq!(s, vec![10, 11, 20, 21]);
}

#[test]
fn test_resulted_fail_carries_message() {
    let r: Result<i64, String> = Resulted::<String>::fail("boom");
    assert_eq!(r, Err("boom".to_string()));
}
