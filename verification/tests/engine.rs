use qualified_do::iter::Iter;
use qualified_do::render::render_pattern;
use qualified_do::types::{
    Bind, BinOp, DoStatement, Expr, Guard, Ident, Let, Lit, Namespace, Pattern, QDo, Return,
    ShapeError,
};
use qualified_do::Optioned;

fn nm(s: &str) -> Ident {
    Ident::Named(s.to_string())
}

fn pid(s: &str) -> Pattern {
    Pattern::Ident(nm(s))
}

fn pid_s(n: u64) -> Pattern {
    Pattern::Ident(Ident::Synth(n))
}

fn var(s: &str) -> Expr {
    Expr::Var(nm(s))
}

fn var_s(n: u64) -> Expr {
    Expr::Var(Ident::Synth(n))
}

fn num(n: i64) -> Expr {
    Expr::Lit(Lit::Num(n))
}

fn call1(f: Expr, a: Expr) -> Expr {
    Expr::Call(Box::new(f), vec![a])
}

fn some_of(e: Expr) -> Expr {
    call1(var("Some"), e)
}

fn add(a: Expr, b: Expr) -> Expr {
    Expr::Binary(BinOp::Add, Box::new(a), Box::new(b))
}

fn rem(a: Expr, b: Expr) -> Expr {
    Expr::Binary(BinOp::Rem, Box::new(a), Box::new(b))
}

fn eq(a: Expr, b: Expr) -> Expr {
    Expr::Binary(BinOp::Eq, Box::new(a), Box::new(b))
}

fn bind(p: &str, e: Expr) -> DoStatement {
    DoStatement::Bind(Bind { irrefutable: false, pat: pid(p), body: e })
}

fn bind_pat(p: Pattern, e: Expr) -> DoStatement {
    DoStatement::Bind(Bind { irrefutable: false, pat: p, body: e })
}

fn let_st(p: &str, e: Expr) -> DoStatement {
    DoStatement::Let(Let { pat: pid(p), expr: e })
}

fn ret(e: Expr) -> DoStatement {
    DoStatement::Return(Return { expr: e })
}

fn guard_st(e: Expr) -> DoStatement {
    DoStatement::Guard(Guard { cond: e })
}

fn block(ns: &str, statements: Vec<DoStatement>) -> QDo {
    QDo {
        namespace: Namespace(vec![nm(ns)]),
        statements,
        trailing_semi: false,
    }
}

fn ns_op(ns: &str, op: &str, args: Vec<Expr>) -> Expr {
    Expr::Call(Box::new(Expr::Path(vec![nm(ns), nm(op)])), args)
}

fn closure(ps: Vec<Pattern>, body: Expr) -> Expr {
    Expr::Closure(ps, Box::new(body))
}

fn pair_e(a: Expr, b: Expr) -> Expr {
    Expr::Pair(Box::new(a), Box::new(b))
}

fn pair_p(a: Pattern, b: Pattern) -> Pattern {
    Pattern::Pair(Box::new(a), Box::new(b))
}

/// The block of the first concrete scenario:
/// `{ i <- Some(5); j <- Some(6); let k = 7; return i + j + k }`.
fn independent_block() -> QDo {
    block(
        "Optioned",
        vec![
            bind("i", some_of(num(5))),
            bind("j", some_of(num(6))),
            let_st("k", num(7)),
            ret(add(add(var("i"), var("j")), var("k"))),
        ],
    )
}

#[test]
fn applicative_plan_shape() {
    let got = independent_block()
        .desugar_applicative()
        .expect("no forward dependency, so the applicative path applies");
    let chain1 = ns_op(
        "Optioned",
        "zip_with",
        vec![
            closure(vec![pid_s(1), pid_s(2)], pair_e(var_s(1), var_s(2))),
            some_of(num(5)),
            some_of(num(6)),
        ],
    );
    let chain2 = ns_op(
        "Optioned",
        "fmap",
        vec![
            closure(
                vec![pid_s(3)],
                Expr::LetIn(
                    Box::new(pid_s(4)),
                    Box::new(num(7)),
                    Box::new(pair_e(var_s(3), var_s(4))),
                ),
            ),
            chain1,
        ],
    );
    let nest = pair_p(pair_p(pid("i"), pid("j")), pid("k"));
    let expected = ns_op(
        "Optioned",
        "fmap",
        vec![
            closure(vec![nest], add(add(var("i"), var("j")), var("k"))),
            chain2,
        ],
    );
    assert_eq!(got, expected);
}

#[test]
fn applicative_block_evaluates() {
    // The plan shape checked above, run by hand against the optional-value
    // context: Some(5), Some(6) and the lifted 7 reach the final transform.
    assert!(independent_block().desugar_applicative().is_some());
    let value = Optioned::fmap(
        |((i, j), k)| i + j + k,
        Optioned::fmap(
            |a| (a, 7i64),
            Optioned::zip_with(|a, b| (a, b), Some(5i64), Some(6i64)),
        ),
    );
    assert_eq!(value, Some(18));
}

#[test]
fn absent_source_yields_none_on_either_path() {
    // The same block with `j <- None` still takes the applicative path; its
    // value, and the monadic value, are both None.
    let b = block(
        "Optioned",
        vec![
            bind("i", some_of(num(5))),
            bind("j", var("None")),
            let_st("k", num(7)),
            ret(add(add(var("i"), var("j")), var("k"))),
        ],
    );
    assert!(b.desugar_applicative().is_some());
    let applicative = Optioned::fmap(
        |((i, j), k)| i + j + k,
        Optioned::fmap(
            |a| (a, 7i64),
            Optioned::zip_with(|a, b| (a, b), Some(5i64), None::<i64>),
        ),
    );
    assert_eq!(applicative, None);
    let monadic = Optioned::and_then(Some(5i64), |i| {
        Optioned::and_then(None::<i64>, move |j| {
            let k = 7i64;
            Optioned::pure(i + j + k)
        })
    });
    assert_eq!(monadic, None);
}

fn guarded_block() -> QDo {
    // `{ i <- is; j <- js; guard i % 2 == 1; return i + j + k }`
    block(
        "Iter",
        vec![
            bind("i", var("is")),
            bind("j", var("js")),
            guard_st(eq(rem(var("i"), num(2)), num(1))),
            ret(add(add(var("i"), var("j")), var("k"))),
        ],
    )
}

#[test]
fn dependent_guard_declines_applicative() {
    // The guard reads `i`, which an earlier statement binds: a true forward
    // dependency, so the applicative planner declines and the engine takes
    // the monadic path.
    assert!(guarded_block().desugar_applicative().is_none());
    assert_eq!(
        guarded_block().desugar(),
        guarded_block().desugar_monad(),
    );
}

#[test]
fn index_paired_guard_value() {
    // The guarded block run by hand under index pairing: of the pairs
    // (1, 4), (2, 5), (3, 6) the odd left components 1 and 3 pass the guard.
    let pairs = qualified_do::data::AsData::<qualified_do::impls::ZipVec>::zip_with(
        |i, j| (i, j),
        vec![1i64, 2, 3],
        vec![4i64, 5, 6],
    );
    let out = Iter::and_then(pairs, |(i, j)| {
        Iter::and_then(Iter::guard(i % 2 == 1), move |_| {
            let k = 100i64;
            Iter::pure(i + j + k)
        })
    });
    assert_eq!(out, vec![105, 109]);
}

#[test]
fn refutable_bind_takes_monadic_path() {
    // `{ Some(x) <- maybe_values; return x }`: the refutable pattern forces
    // the monadic plan, whose continuation routes a non-match into `fail`
    // with a diagnostic naming the pattern.
    let mk = || {
        block(
            "Iter",
            vec![
                bind_pat(
                    Pattern::Ctor(vec![nm("Some")], vec![pid("x")]),
                    var("maybe_values"),
                ),
                ret(var("x")),
            ],
        )
    };
    assert!(mk().desugar_applicative().is_none());
    let expected = ns_op(
        "Iter",
        "and_then",
        vec![
            var("maybe_values"),
            closure(
                vec![pid_s(1)],
                Expr::Match(
                    Box::new(var_s(1)),
                    Box::new(Pattern::Ctor(vec![nm("Some")], vec![pid("x")])),
                    Box::new(ns_op("Iter", "pure", vec![var("x")])),
                    Box::new(ns_op(
                        "Iter",
                        "fail",
                        vec![Expr::Lit(Lit::Text(
                            "Pattern match failed:\n  expected: Some(x)".to_string(),
                        ))],
                    )),
                ),
            ),
        ],
    );
    assert_eq!(mk().desugar(), Ok(expected));
}

#[test]
fn non_match_contributes_empty() {
    // A non-matching element of a list-like context contributes nothing,
    // through `fail`, rather than raising an error.
    let out = Iter::and_then(vec![Some(1i64), None, Some(3)], |arg| match arg {
        Some(x) => Iter::pure(x),
        _ => Iter::fail("Pattern match failed:\n  expected: Some(x)"),
    });
    assert_eq!(out, vec![1, 3]);
}

#[test]
fn marked_irrefutable_bind_stays_applicative() {
    let b = block(
        "Optioned",
        vec![
            DoStatement::Bind(Bind {
                irrefutable: true,
                pat: pair_p(pid("x"), pid("y")),
                body: var("pairs"),
            }),
            ret(var("x")),
        ],
    );
    assert!(b.desugar_applicative().is_some());
}

#[test]
fn shadowed_binding_is_sealed_to_wildcard() {
    // `{ x <- a; x <- b; return x }`: both statements bind `x`; only the
    // later binder survives in the final destructure, the earlier one is a
    // discard.
    let b = block(
        "Optioned",
        vec![bind("x", var("a")), bind("x", var("b")), ret(var("x"))],
    );
    let got = b.desugar_applicative().expect("no dependency: `b` is free, not `x`");
    match got {
        Expr::Call(_, args) => match &args[0] {
            Expr::Closure(ps, _) => {
                assert_eq!(ps.len(), 1);
                assert_eq!(ps[0], pair_p(Pattern::Wild, pid("x")));
            }
            other => panic!("expected the transform closure, got {:?}", other),
        },
        other => panic!("expected a call, got {:?}", other),
    }
}

#[test]
fn empty_block_is_a_shape_error() {
    let b = block("Optioned", vec![]);
    assert_eq!(b.desugar(), Err(ShapeError::EmptyBlock));
}

#[test]
fn terminal_let_is_rejected() {
    // A block ending in a bare `let` has no result expression: a shape
    // error, never a silent truncation.
    let b = block(
        "Optioned",
        vec![bind("x", some_of(num(1))), let_st("y", num(2))],
    );
    assert_eq!(b.desugar(), Err(ShapeError::NonExprTerminal));
}

#[test]
fn trailing_terminator_lifts_unit() {
    // `{ x <- a; }` with the trailing terminator: the monadic plan sequences
    // `a` into a lifted unit.
    let b = QDo {
        namespace: Namespace(vec![nm("Optioned")]),
        statements: vec![bind("x", var("a"))],
        trailing_semi: true,
    };
    let expected = ns_op(
        "Optioned",
        "and_then",
        vec![
            var("a"),
            closure(
                vec![pid("x")],
                ns_op("Optioned", "pure", vec![Expr::Lit(Lit::Unit)]),
            ),
        ],
    );
    assert_eq!(b.desugar_monad(), Ok(expected));
}

#[test]
fn rendered_patterns() {
    assert_eq!(
        render_pattern(&Pattern::Ctor(vec![nm("Some")], vec![pid("x")])),
        "Some(x)"
    );
    assert_eq!(render_pattern(&Pattern::Ident(Ident::Synth(12))), "__qdo_arg_12");
    assert_eq!(
        render_pattern(&pair_p(Pattern::Wild, Pattern::Lit(Lit::Num(42)))),
        "(_, 42)"
    );
    assert_eq!(render_pattern(&Pattern::Lit(Lit::Num(-7))), "-7");
    assert_eq!(render_pattern(&Pattern::Lit(Lit::Flag(true))), "true");
    assert_eq!(
        render_pattern(&Pattern::Ctor(vec![nm("Go"), nm("Go")], vec![])),
        "Go::Go"
    );
    assert_eq!(
        render_pattern(&Pattern::Lit(Lit::Text("hi".to_string()))),
        "\"hi\""
    );
}

#[test]
fn rendered_extreme_number() {
    assert_eq!(
        render_pattern(&Pattern::Lit(Lit::Num(i64::MIN))),
        "-9223372036854775808"
    );
    assert_eq!(render_pattern(&Pattern::Ident(Ident::Synth(0))), "__qdo_arg_0");
}

#[test]
fn rendered_plan_text() {
    // The emitter's text for the independent block's finished plan.
    let plan = independent_block().desugar().expect("desugars");
    assert_eq!(
        plan.render(),
        "Optioned::fmap(|((i, j), k)| ((i + j) + k), \
         Optioned::fmap(|__qdo_arg_3| { let __qdo_arg_4 = 7; (__qdo_arg_3, __qdo_arg_4) }, \
         Optioned::zip_with(|__qdo_arg_1, __qdo_arg_2| (__qdo_arg_1, __qdo_arg_2), \
         Some(5), Some(6))))"
    );
}

#[test]
fn trailing_terminator_takes_applicative_path() {
    // `{ x <- a; }`: the trailing terminator is an implicit `return ()`, so
    // the one retained statement composes applicatively into a unit-valued
    // transform.
    let b = QDo {
        namespace: Namespace(vec![nm("Optioned")]),
        statements: vec![bind("x", var("a"))],
        trailing_semi: true,
    };
    let expected = ns_op(
        "Optioned",
        "fmap",
        vec![closure(vec![pid("x")], Expr::Lit(Lit::Unit)), var("a")],
    );
    assert_eq!(b.desugar_applicative(), Some(expected));
}

#[test]
fn leading_guard_is_an_ordinary_step() {
    // A guard as the very first statement depends on nothing, so the
    // applicative path still applies: the guard becomes the head of the
    // chain.
    let b = block(
        "Optioned",
        vec![guard_st(var("ready")), ret(num(5))],
    );
    let expected = ns_op(
        "Optioned",
        "fmap",
        vec![
            closure(vec![Pattern::Wild], num(5)),
            ns_op("Optioned", "guard", vec![var("ready")]),
        ],
    );
    assert_eq!(b.desugar_applicative(), Some(expected));
}
