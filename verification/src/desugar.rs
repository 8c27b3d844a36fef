//! The desugaring engine.  A block is rewritten into nested calls against its
//! namespace's combinator protocol, in one of two forms:
//!
//! * the applicative plan composes all non-terminal statements
//!   order-independently with `zip_with`, and is chosen only when the block
//!   provably has no forward dependency, no refutable binding and a `return`
//!   terminal;
//! * the monadic plan is the universal sequential fallback, a right fold over
//!   the statements built from `and_then`.
//!
//! Both planners are specified by spec-level plan functions; each executable
//! planner returns exactly the plan its spec function names.

use vstd::prelude::*;

use crate::analysis::{
    collect_pat_idents, dup_ids, free_vars, free_vars_of, idset, pat_idents, seal_all,
    seal_patterns, shares_id,
};
use crate::render::{pat_chars, render_pattern};
use crate::types::{
    DoStatement, Expr, ExprV, IdName, Ident, Lit, LitV, Namespace, Pattern, PatternV, QDo, QDoV,
    ShapeError, StmtV, expr_view, exprs_view, ids_view, pat_view, pats_view, stmt_binder,
    stmt_body, stmt_marked_irrefutable, stmts_view,
};

verus! {

broadcast use {
    crate::types::lemma_ids_view,
    crate::types::lemma_pats_view,
    crate::types::lemma_exprs_view,
    crate::types::lemma_stmts_view,
};

// ---------------------------------------------------------------------------
// Emission helpers: nested protocol calls
// ---------------------------------------------------------------------------

/// A call `ns::op(args...)` against the block's protocol namespace.
pub open spec fn ns_call_v(ns: Seq<IdName>, op: Seq<char>, args: Seq<ExprV>) -> ExprV {
    ExprV::Call(Box::new(ExprV::Path(ns.push(IdName::Name(op)))), args)
}

/// Build a call `ns::op(args...)`.
fn ns_call(ns: &Namespace, op: &str, args: Vec<Expr>) -> (r: Expr)
    ensures
        expr_view(r) == ns_call_v(ns@, op@, exprs_view(args@)),
{
    let mut path = dup_ids(&ns.0);
    path.push(Ident::Named(op.to_owned()));
    proof {
        assert(ids_view(path@) =~= ns@.push(IdName::Name(op@))) by {
            assert(forall|j: int|
                0 <= j < path@.len() - 1 ==> ids_view(path@)[j] == ids_view(ns.0@)[j]);
        }
    }
    let pe = Expr::Path(path);
    proof {
        assert(expr_view(pe) == ExprV::Path(ns@.push(IdName::Name(op@))));
    }
    Expr::Call(Box::new(pe), args)
}

fn vec1(a: Expr) -> (r: Vec<Expr>)
    ensures
        exprs_view(r@) == seq![expr_view(a)],
{
    let ghost av = expr_view(a);
    let mut r: Vec<Expr> = Vec::new();
    r.push(a);
    proof {
        assert(exprs_view(r@) =~= seq![av]);
    }
    r
}

fn vec2(a: Expr, b: Expr) -> (r: Vec<Expr>)
    ensures
        exprs_view(r@) == seq![expr_view(a), expr_view(b)],
{
    let ghost av = expr_view(a);
    let ghost bv = expr_view(b);
    let mut r: Vec<Expr> = Vec::new();
    r.push(a);
    r.push(b);
    proof {
        assert(exprs_view(r@) =~= seq![av, bv]);
    }
    r
}

fn vec3(a: Expr, b: Expr, c: Expr) -> (r: Vec<Expr>)
    ensures
        exprs_view(r@) == seq![expr_view(a), expr_view(b), expr_view(c)],
{
    let ghost av = expr_view(a);
    let ghost bv = expr_view(b);
    let ghost cv = expr_view(c);
    let mut r: Vec<Expr> = Vec::new();
    r.push(a);
    r.push(b);
    r.push(c);
    proof {
        assert(exprs_view(r@) =~= seq![av, bv, cv]);
    }
    r
}

/// A closure `|_| body`, used to discard a sequenced value.
pub open spec fn wild_closure_v(body: ExprV) -> ExprV {
    ExprV::Closure(seq![PatternV::Wild], Box::new(body))
}

fn wild_closure(body: Expr) -> (r: Expr)
    ensures
        expr_view(r) == wild_closure_v(expr_view(body)),
{
    let ghost bv = expr_view(body);
    let mut ps: Vec<Pattern> = Vec::new();
    ps.push(Pattern::Wild);
    proof {
        assert(pats_view(ps@) =~= seq![PatternV::Wild]);
    }
    Expr::Closure(ps, Box::new(body))
}

/// A closure `|()| body`, used to discard a guard's unit.
pub open spec fn unit_closure_v(body: ExprV) -> ExprV {
    ExprV::Closure(seq![PatternV::Lit(LitV::Unit)], Box::new(body))
}

fn unit_closure(body: Expr) -> (r: Expr)
    ensures
        expr_view(r) == unit_closure_v(expr_view(body)),
{
    let ghost bv = expr_view(body);
    let mut ps: Vec<Pattern> = Vec::new();
    ps.push(Pattern::Lit(Lit::Unit));
    proof {
        assert(pats_view(ps@) =~= seq![PatternV::Lit(LitV::Unit)]);
    }
    Expr::Closure(ps, Box::new(body))
}

// ---------------------------------------------------------------------------
// Fresh names and the refutable-binding continuation
// ---------------------------------------------------------------------------

/// Draw the next synthetic name from the per-block counter.
fn fresh_var(counter: &mut u64) -> (r: Ident)
    requires
        *old(counter) < u64::MAX,
    ensures
        *final(counter) == *old(counter) + 1,
        r@ == IdName::Synth((*old(counter) + 1) as u64),
{
    *counter = *counter + 1;
    Ident::Synth(*counter)
}

/// The diagnostic handed to `fail` when a refutable pattern does not match.
pub open spec fn fail_msg_chars(p: PatternV) -> Seq<char> {
    "Pattern match failed:\n  expected: "@ + pat_chars(p)
}

/// The continuation a `Bind` statement sequences its source through: a plain
/// parameter for an irrefutable pattern, otherwise a fresh parameter matched
/// against the pattern, with the non-matching case routed into `fail`.
/// Returns the continuation and the counter after it.
pub open spec fn bind_cont_v(ns: Seq<IdName>, ctr: nat, irr: bool, p: PatternV, body: ExprV) -> (
    ExprV,
    nat,
) {
    if p is Ident || p is Wild || irr {
        (ExprV::Closure(seq![p], Box::new(body)), ctr)
    } else {
        let v = IdName::Synth((ctr + 1) as u64);
        let miss = ns_call_v(ns, "fail"@, seq![ExprV::Lit(LitV::Text(fail_msg_chars(p)))]);
        (
            ExprV::Closure(
                seq![PatternV::Ident(v)],
                Box::new(
                    ExprV::Match(
                        Box::new(ExprV::Var(v)),
                        Box::new(p),
                        Box::new(body),
                        Box::new(miss),
                    ),
                ),
            ),
            ctr + 1,
        )
    }
}

/// Build the continuation for a `Bind` statement.
fn mk_bind_cont(ns: &Namespace, counter: &mut u64, irr: bool, p: Pattern, body: Expr) -> (r: Expr)
    requires
        *old(counter) < u64::MAX,
    ensures
        expr_view(r) == bind_cont_v(
            ns@,
            *old(counter) as nat,
            irr,
            pat_view(p),
            expr_view(body),
        ).0,
        *final(counter) as nat == bind_cont_v(
            ns@,
            *old(counter) as nat,
            irr,
            pat_view(p),
            expr_view(body),
        ).1,
{
    let ghost pv = pat_view(p);
    let ghost bv = expr_view(body);
    let direct = match &p {
        Pattern::Ident(_) => true,
        Pattern::Wild => true,
        Pattern::Pair(_, _) => irr,
        Pattern::Ctor(_, _) => irr,
        Pattern::Lit(_) => irr,
    };
    proof {
        assert(direct == (pv is Ident || pv is Wild || irr));
    }
    if direct {
        let mut ps: Vec<Pattern> = Vec::new();
        ps.push(p);
        proof {
            assert(pats_view(ps@) =~= seq![pv]);
        }
        Expr::Closure(ps, Box::new(body))
    } else {
        let v = fresh_var(counter);
        let mut msg: String = "Pattern match failed:\n  expected: ".to_owned();
        let rendered = render_pattern(&p);
        msg.append(rendered.as_str());
        let miss = ns_call(ns, "fail", vec1(Expr::Lit(Lit::Text(msg))));
        let mut ps: Vec<Pattern> = Vec::new();
        ps.push(Pattern::Ident(v.dup()));
        proof {
            assert(pats_view(ps@) =~= seq![PatternV::Ident(v@)]);
        }
        let ghost missv = expr_view(miss);
        let ghost vid = v@;
        let ma = Expr::Match(Box::new(Expr::Var(v)), Box::new(p), Box::new(body), Box::new(miss));
        proof {
            reveal_with_fuel(expr_view, 4);
            assert(expr_view(ma) == ExprV::Match(
                Box::new(ExprV::Var(vid)),
                Box::new(pv),
                Box::new(bv),
                Box::new(missv),
            ));
        }
        Expr::Closure(ps, Box::new(ma))
    }
}

// ---------------------------------------------------------------------------
// The monadic plan
// ---------------------------------------------------------------------------

/// The terminal value of the monadic fold: a trailing terminator lifts unit, a
/// terminal `return e` lifts `e`, a terminal bare expression stands verbatim,
/// and any other shape is a shape error.
pub open spec fn monad_terminal(b: QDoV) -> Result<ExprV, ShapeError> {
    if b.statements.len() == 0 {
        Err(ShapeError::EmptyBlock)
    } else if b.trailing_semi {
        Ok(ns_call_v(b.namespace, "pure"@, seq![ExprV::Lit(LitV::Unit)]))
    } else {
        match b.statements.last() {
            StmtV::Expr(e) => Ok(e),
            StmtV::Return(e) => Ok(ns_call_v(b.namespace, "pure"@, seq![e])),
            _ => Err(ShapeError::NonExprTerminal),
        }
    }
}

/// One step of the monadic fold, wrapping the continuation `acc`.
pub open spec fn monad_step(ns: Seq<IdName>, st: StmtV, acc: ExprV, ctr: nat) -> (ExprV, nat) {
    match st {
        StmtV::Expr(e) => (ns_call_v(ns, "and_then"@, seq![e, wild_closure_v(acc)]), ctr),
        StmtV::Return(e) => (
            ns_call_v(
                ns,
                "and_then"@,
                seq![ns_call_v(ns, "pure"@, seq![e]), wild_closure_v(acc)],
            ),
            ctr,
        ),
        StmtV::Let(p, e) => (ExprV::LetIn(Box::new(p), Box::new(e), Box::new(acc)), ctr),
        StmtV::Guard(c) => (
            ns_call_v(
                ns,
                "and_then"@,
                seq![ns_call_v(ns, "guard"@, seq![c]), unit_closure_v(acc)],
            ),
            ctr,
        ),
        StmtV::Bind(irr, p, body) => {
            let (k, c2) = bind_cont_v(ns, ctr, irr, p, acc);
            (ns_call_v(ns, "and_then"@, seq![body, k]), c2)
        },
    }
}

/// The right fold of the monadic plan, processing statements last to first.
pub open spec fn monad_fold(ns: Seq<IdName>, s: Seq<StmtV>, acc: ExprV, ctr: nat) -> (ExprV, nat)
    decreases s,
{
    if s.len() == 0 {
        (acc, ctr)
    } else {
        let (acc2, c2) = monad_step(ns, s.last(), acc, ctr);
        monad_fold(ns, s.drop_last(), acc2, c2)
    }
}

/// The monadic plan of a whole block.
pub open spec fn monad_plan(b: QDoV) -> Result<ExprV, ShapeError> {
    match monad_terminal(b) {
        Err(e) => Err(e),
        Ok(last) => {
            let body = if b.trailing_semi {
                b.statements
            } else {
                b.statements.drop_last()
            };
            Ok(monad_fold(b.namespace, body, last, 0).0)
        },
    }
}

// ---------------------------------------------------------------------------
// The applicative plan
// ---------------------------------------------------------------------------

/// The statements the applicative plan composes: all of them under a trailing
/// terminator, else all but the terminal `return`.
pub open spec fn retained(b: QDoV) -> Seq<StmtV> {
    if b.trailing_semi {
        b.statements
    } else {
        b.statements.drop_last()
    }
}

/// The expression the final transform evaluates: unit under a trailing
/// terminator, else the terminal `return`'s expression; `None` when the block
/// has no such terminal and the applicative planner must decline.
pub open spec fn terminal_ret(b: QDoV) -> Option<ExprV> {
    if b.statements.len() == 0 {
        None
    } else if b.trailing_semi {
        Some(ExprV::Lit(LitV::Unit))
    } else {
        match b.statements.last() {
            StmtV::Return(e) => Some(e),
            _ => None,
        }
    }
}

/// The names a statement's binder introduces.
pub open spec fn binder_names(st: StmtV) -> Set<IdName> {
    match stmt_binder(st) {
        Some(p) => pat_idents(p),
        None => Set::empty(),
    }
}

/// The pattern a statement contributes to the destructuring column.
pub open spec fn binder_pat(st: StmtV) -> PatternV {
    match stmt_binder(st) {
        Some(p) => p,
        None => PatternV::Wild,
    }
}

/// Whether a statement's pattern may join an independent composition: an
/// identifier, a wildcard, or an explicitly marked irrefutable pattern.
pub open spec fn binder_ok(st: StmtV) -> bool {
    match stmt_binder(st) {
        Some(p) => p is Ident || p is Wild || stmt_marked_irrefutable(st),
        None => true,
    }
}

/// The walk of the applicative planner: no statement's free identifiers may
/// meet the names bound by strictly earlier statements, and every binder must
/// be irrefutable.
pub open spec fn steps_ok(s: Seq<StmtV>, bound: Set<IdName>) -> bool
    decreases s,
{
    if s.len() == 0 {
        true
    } else {
        &&& free_vars(stmt_body(s[0]), Set::empty()).disjoint(bound)
        &&& binder_ok(s[0])
        &&& steps_ok(s.drop_first(), bound + binder_names(s[0]))
    }
}

/// Whether the applicative plan applies to a block.
pub open spec fn ap_ok(b: QDoV) -> bool {
    &&& terminal_ret(b) is Some
    &&& retained(b).len() > 0
    &&& steps_ok(retained(b), Set::empty())
}

/// The first link of the independent chain: a `Bind`'s source stands as is, a
/// plain value is lifted with `pure`, a guard becomes `guard(cond)`.
pub open spec fn scrut0_v(ns: Seq<IdName>, st: StmtV) -> ExprV {
    match st {
        StmtV::Bind(_, _, e) => e,
        StmtV::Let(_, e) => ns_call_v(ns, "pure"@, seq![e]),
        StmtV::Expr(e) => ns_call_v(ns, "pure"@, seq![e]),
        StmtV::Return(e) => ns_call_v(ns, "pure"@, seq![e]),
        StmtV::Guard(c) => ns_call_v(ns, "guard"@, seq![c]),
    }
}

/// The pairing closure `|a, b| (a, b)` over two synthetic names.
pub open spec fn pair_fn_v(a: IdName, b: IdName) -> ExprV {
    ExprV::Closure(
        seq![PatternV::Ident(a), PatternV::Ident(b)],
        Box::new(ExprV::Pair(Box::new(ExprV::Var(a)), Box::new(ExprV::Var(b)))),
    )
}

/// The lifting closure `|a| { let b = y; (a, b) }`, pairing a plain value's
/// contribution with the running chain without an extra protocol call.
pub open spec fn lift_fn_v(a: IdName, b: IdName, y: ExprV) -> ExprV {
    ExprV::Closure(
        seq![PatternV::Ident(a)],
        Box::new(
            ExprV::LetIn(
                Box::new(PatternV::Ident(b)),
                Box::new(y),
                Box::new(ExprV::Pair(Box::new(ExprV::Var(a)), Box::new(ExprV::Var(b)))),
            ),
        ),
    )
}

/// One pairing step of the independent chain: the running value `x` is paired
/// with the statement's contribution, left to right.
pub open spec fn zip_step_v(ns: Seq<IdName>, x: ExprV, st: StmtV, ctr: nat) -> (ExprV, nat) {
    let a = IdName::Synth((ctr + 1) as u64);
    let b = IdName::Synth((ctr + 2) as u64);
    match st {
        StmtV::Bind(_, _, y) => (
            ns_call_v(ns, "zip_with"@, seq![pair_fn_v(a, b), x, y]),
            ctr + 2,
        ),
        StmtV::Let(_, y) => (ns_call_v(ns, "fmap"@, seq![lift_fn_v(a, b, y), x]), ctr + 2),
        StmtV::Expr(y) => (ns_call_v(ns, "fmap"@, seq![lift_fn_v(a, b, y), x]), ctr + 2),
        StmtV::Return(y) => (ns_call_v(ns, "fmap"@, seq![lift_fn_v(a, b, y), x]), ctr + 2),
        StmtV::Guard(g) => (
            ns_call_v(
                ns,
                "zip_with"@,
                seq![pair_fn_v(a, b), x, ns_call_v(ns, "guard"@, seq![g])],
            ),
            ctr + 2,
        ),
    }
}

/// The whole independent chain over a non-empty statement list.
pub open spec fn zip_chain_v(ns: Seq<IdName>, s: Seq<StmtV>, ctr: nat) -> (ExprV, nat)
    decreases s,
{
    if s.len() <= 1 {
        (scrut0_v(ns, s[0]), ctr)
    } else {
        let (x, c1) = zip_chain_v(ns, s.drop_last(), ctr);
        zip_step_v(ns, x, s.last(), c1)
    }
}

/// The pattern column of the retained statements.
pub open spec fn pat_column(s: Seq<StmtV>) -> Seq<PatternV> {
    Seq::new(s.len(), |i: int| binder_pat(s[i]))
}

/// The left-nested pair pattern destructuring the chain's payload.
pub open spec fn pat_nest(s: Seq<PatternV>) -> PatternV
    decreases s,
{
    if s.len() <= 1 {
        s[0]
    } else {
        PatternV::Pair(Box::new(pat_nest(s.drop_last())), Box::new(s.last()))
    }
}

/// The applicative plan of a block, defined when `ap_ok` holds: one transform
/// of the chain's nested-tuple payload through the sealed destructuring
/// pattern into the terminal expression.
pub open spec fn ap_plan(b: QDoV) -> ExprV {
    let r = retained(b);
    let ret = terminal_ret(b)->Some_0;
    let chain = zip_chain_v(b.namespace, r, 0).0;
    let sealed = seal_all(pat_column(r));
    ns_call_v(
        b.namespace,
        "fmap"@,
        seq![ExprV::Closure(seq![pat_nest(sealed)], Box::new(ret)), chain],
    )
}

/// What the engine emits for a block: the applicative plan wherever it
/// applies, else the monadic plan, else that plan's shape error.
pub open spec fn desugar_plan(b: QDoV) -> Result<ExprV, ShapeError> {
    if ap_ok(b) {
        Ok(ap_plan(b))
    } else {
        monad_plan(b)
    }
}

// ---------------------------------------------------------------------------
// Executable chain builders
// ---------------------------------------------------------------------------

/// Build the pairing closure `|a, b| (a, b)`.
fn pair_closure(a: &Ident, b: &Ident) -> (r: Expr)
    ensures
        expr_view(r) == pair_fn_v(a@, b@),
{
    let mut ps: Vec<Pattern> = Vec::new();
    ps.push(Pattern::Ident(a.dup()));
    ps.push(Pattern::Ident(b.dup()));
    proof {
        assert(pats_view(ps@) =~= seq![PatternV::Ident(a@), PatternV::Ident(b@)]);
    }
    let pr = Expr::Pair(Box::new(Expr::Var(a.dup())), Box::new(Expr::Var(b.dup())));
    proof {
        reveal_with_fuel(expr_view, 4);
        assert(expr_view(pr) == ExprV::Pair(
            Box::new(ExprV::Var(a@)),
            Box::new(ExprV::Var(b@)),
        ));
    }
    Expr::Closure(ps, Box::new(pr))
}

/// Build the lifting closure `|a| { let b = y; (a, b) }`.
fn lift_closure(a: &Ident, b: &Ident, y: Expr) -> (r: Expr)
    ensures
        expr_view(r) == lift_fn_v(a@, b@, expr_view(y)),
{
    let ghost yv = expr_view(y);
    let mut ps: Vec<Pattern> = Vec::new();
    ps.push(Pattern::Ident(a.dup()));
    proof {
        assert(pats_view(ps@) =~= seq![PatternV::Ident(a@)]);
    }
    let pr = Expr::Pair(Box::new(Expr::Var(a.dup())), Box::new(Expr::Var(b.dup())));
    proof {
        reveal_with_fuel(expr_view, 4);
        assert(expr_view(pr) == ExprV::Pair(
            Box::new(ExprV::Var(a@)),
            Box::new(ExprV::Var(b@)),
        ));
    }
    let li = Expr::LetIn(Box::new(Pattern::Ident(b.dup())), Box::new(y), Box::new(pr));
    proof {
        assert(expr_view(li) == ExprV::LetIn(
            Box::new(PatternV::Ident(b@)),
            Box::new(yv),
            Box::new(expr_view(pr)),
        ));
    }
    Expr::Closure(ps, Box::new(li))
}

/// The first link of the chain, and the pattern the statement contributes.
fn first_link(ns: &Namespace, st: DoStatement) -> (r: (Expr, Pattern))
    ensures
        expr_view(r.0) == scrut0_v(ns@, st@),
        pat_view(r.1) == binder_pat(st@),
{
    match st {
        DoStatement::Bind(b) => (b.body, b.pat),
        DoStatement::Let(l) => (ns_call(ns, "pure", vec1(l.expr)), l.pat),
        DoStatement::Expr(e) => (ns_call(ns, "pure", vec1(e)), Pattern::Wild),
        DoStatement::Return(rr) => (ns_call(ns, "pure", vec1(rr.expr)), Pattern::Wild),
        DoStatement::Guard(g) => (ns_call(ns, "guard", vec1(g.cond)), Pattern::Wild),
    }
}

/// Extend the chain by one statement, and return its contributed pattern.
fn next_link(ns: &Namespace, x: Expr, st: DoStatement, ctr: &mut u64) -> (r: (Expr, Pattern))
    requires
        *old(ctr) + 2 <= u64::MAX,
    ensures
        (expr_view(r.0), *final(ctr) as nat) == zip_step_v(
            ns@,
            expr_view(x),
            st@,
            *old(ctr) as nat,
        ),
        pat_view(r.1) == binder_pat(st@),
{
    let ghost xv = expr_view(x);
    let a = fresh_var(ctr);
    let b = fresh_var(ctr);
    match st {
        DoStatement::Bind(bd) => {
            let pf = pair_closure(&a, &b);
            (ns_call(ns, "zip_with", vec3(pf, x, bd.body)), bd.pat)
        },
        DoStatement::Let(l) => {
            let lf = lift_closure(&a, &b, l.expr);
            (ns_call(ns, "fmap", vec2(lf, x)), l.pat)
        },
        DoStatement::Expr(e) => {
            let lf = lift_closure(&a, &b, e);
            (ns_call(ns, "fmap", vec2(lf, x)), Pattern::Wild)
        },
        DoStatement::Return(rr) => {
            let lf = lift_closure(&a, &b, rr.expr);
            (ns_call(ns, "fmap", vec2(lf, x)), Pattern::Wild)
        },
        DoStatement::Guard(g) => {
            let pf = pair_closure(&a, &b);
            let gd = ns_call(ns, "guard", vec1(g.cond));
            (ns_call(ns, "zip_with", vec3(pf, x, gd)), Pattern::Wild)
        },
    }
}

// ---------------------------------------------------------------------------
// The planners
// ---------------------------------------------------------------------------

impl QDo {
    /// The applicative planner's test: a `return` terminal, a non-empty
    /// retained body, no forward dependency, no refutable binder.
    #[verifier::loop_isolation(false)]
    fn applicative_viable(&self) -> (r: bool)
        ensures
            r == ap_ok(self@),
    {
        let n = self.statements.len();
        if n == 0 {
            return false;
        }
        let n_ret: usize = if self.trailing_semi {
            n
        } else {
            let is_ret = match &self.statements[n - 1] {
                DoStatement::Return(_) => true,
                _ => false,
            };
            if !is_ret {
                return false;
            }
            n - 1
        };
        if n_ret == 0 {
            return false;
        }
        let ghost retv = retained(self@);
        proof {
            assert(retv.len() == n_ret);
            assert(forall|k: int| 0 <= k < retv.len() ==> retv[k] == self.statements@[k]@);
            assert(retv.skip(0) =~= retv);
        }
        let mut bound: Vec<Ident> = Vec::new();
        let mut i: usize = 0;
        while i < n_ret
            invariant
                0 <= i <= n_ret,
                steps_ok(retv, Set::empty()) == steps_ok(retv.skip(i as int), idset(bound@)),
            decreases n_ret - i,
        {
            let st = &self.statements[i];
            let fv = free_vars_of(st.body());
            let ghost bound0 = idset(bound@);
            if shares_id(&fv, &bound) {
                proof {
                    assert(!steps_ok(retv.skip(i as int), bound0));
                }
                return false;
            }
            let okb: bool = match st.binder() {
                None => true,
                Some(p) => match p {
                    Pattern::Ident(_) => true,
                    Pattern::Wild => true,
                    Pattern::Pair(_, _) => st.irrefutable(),
                    Pattern::Ctor(_, _) => st.irrefutable(),
                    Pattern::Lit(_) => st.irrefutable(),
                },
            };
            proof {
                assert(okb == binder_ok(retv[i as int]));
            }
            if !okb {
                proof {
                    assert(!steps_ok(retv.skip(i as int), bound0));
                }
                return false;
            }
            match st.binder() {
                Some(p) => {
                    collect_pat_idents(p, &mut bound);
                },
                None => {},
            }
            proof {
                assert(idset(bound@) =~= bound0 + binder_names(retv[i as int]));
                assert(retv.skip(i as int).drop_first() =~= retv.skip(i as int + 1));
                assert(steps_ok(retv.skip(i as int), bound0) == steps_ok(
                    retv.skip(i as int + 1),
                    idset(bound@),
                ));
            }
            i += 1;
        }
        proof {
            assert(retv.skip(n_ret as int) =~= Seq::<StmtV>::empty());
            assert(steps_ok(retv, Set::empty()));
            assert(ap_ok(self@));
        }
        true
    }

    /// Attempt the independent composition; `None` is the planner declining,
    /// never an error.
    #[verifier::loop_isolation(false)]
    #[verifier::rlimit(100)]
    pub fn desugar_applicative(self) -> (r: Option<Expr>)
        requires
            self.statements@.len() < 0x4000000000000000,
        ensures
            (r is Some) == ap_ok(self@),
            r matches Some(e) ==> expr_view(e) == ap_plan(self@),
    {
        let ghost bv = self@;
        if !self.applicative_viable() {
            return None;
        }
        let QDo { namespace, mut statements, trailing_semi } = self;
        let ghost retv = retained(bv);
        let ghost nsv = namespace@;
        let ret_expr: Expr = if trailing_semi {
            Expr::Lit(Lit::Unit)
        } else {
            match statements.pop().unwrap() {
                DoStatement::Return(rr) => rr.expr,
                _ => {
                    proof {
                        assert(false);
                    }
                    vstd::pervasive::unreached()
                },
            }
        };
        proof {
            assert(expr_view(ret_expr) == terminal_ret(bv)->Some_0);
            assert(stmts_view(statements@) =~= retv);
            assert(forall|k: int| 0 <= k < retv.len() ==> statements@[k]@ == retv[k]);
        }
        let n_ret = statements.len();
        proof {
            assert(n_ret == retv.len());
        }
        let st0 = statements.remove(0);
        let mut ctr: u64 = 0;
        let (chain0, p0) = first_link(&namespace, st0);
        let mut chain = chain0;
        let mut pats: Vec<Pattern> = Vec::new();
        pats.push(p0);
        let mut i: usize = 1;
        proof {
            assert(retv.take(1).len() == 1 && retv.take(1)[0] == retv[0]);
            assert((expr_view(chain), ctr as nat) == zip_chain_v(nsv, retv.take(1), 0));
        }
        while i < n_ret
            invariant
                1 <= i <= n_ret,
                statements@.len() == n_ret - i,
                forall|k: int| 0 <= k < statements@.len() ==> statements@[k]@ == retv[i + k],
                (expr_view(chain), ctr as nat) == zip_chain_v(nsv, retv.take(i as int), 0),
                pats@.len() == i,
                forall|k: int| 0 <= k < i ==> pat_view(pats@[k]) == binder_pat(retv[k]),
                ctr <= 2 * i,
            decreases n_ret - i,
        {
            let st = statements.remove(0);
            let (c2, pk) = next_link(&namespace, chain, st, &mut ctr);
            chain = c2;
            pats.push(pk);
            proof {
                assert(retv.take(i as int + 1).drop_last() =~= retv.take(i as int));
                assert(retv.take(i as int + 1).last() == retv[i as int]);
                assert((expr_view(chain), ctr as nat) == zip_chain_v(
                    nsv,
                    retv.take(i as int + 1),
                    0,
                ));
            }
            i += 1;
        }
        proof {
            assert(retv.take(n_ret as int) =~= retv);
            assert(pats_view(pats@) =~= pat_column(retv));
        }
        let sealed = seal_patterns(pats);
        let ghost colv = seal_all(pat_column(retv));
        let mut rest = sealed;
        let mut nest = rest.remove(0);
        proof {
            assert(pat_view(nest) == colv[0]);
            assert(colv.take(1).len() == 1 && colv.take(1)[0] == colv[0]);
            assert(pat_view(nest) == pat_nest(colv.take(1)));
        }
        let mut j: usize = 1;
        while j < n_ret
            invariant
                1 <= j <= n_ret,
                rest@.len() == n_ret - j,
                forall|k: int| 0 <= k < rest@.len() ==> pat_view(rest@[k]) == colv[j + k],
                pat_view(nest) == pat_nest(colv.take(j as int)),
            decreases n_ret - j,
        {
            let q = rest.remove(0);
            nest = Pattern::Pair(Box::new(nest), Box::new(q));
            proof {
                assert(colv.take(j as int + 1).drop_last() =~= colv.take(j as int));
                assert(colv.take(j as int + 1).last() == colv[j as int]);
            }
            j += 1;
        }
        proof {
            assert(colv.take(n_ret as int) =~= colv);
        }
        let mut ps: Vec<Pattern> = Vec::new();
        ps.push(nest);
        proof {
            assert(pats_view(ps@) =~= seq![pat_nest(colv)]);
        }
        let clos = Expr::Closure(ps, Box::new(ret_expr));
        let out = ns_call(&namespace, "fmap", vec2(clos, chain));
        proof {
            assert(expr_view(out) == ap_plan(bv));
        }
        Some(out)
    }

    /// The universal sequential fallback: a right fold over the statements.
    #[verifier::loop_isolation(false)]
    pub fn desugar_monad(self) -> (r: Result<Expr, ShapeError>)
        ensures
            r matches Ok(e) ==> monad_plan(self@) == Ok::<ExprV, ShapeError>(expr_view(e)),
            r matches Err(er) ==> monad_plan(self@) == Err::<ExprV, ShapeError>(er),
    {
        let ghost bv = self@;
        let QDo { namespace, mut statements, trailing_semi } = self;
        let ghost nsv = namespace@;
        if statements.len() == 0 {
            return Err(ShapeError::EmptyBlock);
        }
        let last: Expr = if trailing_semi {
            ns_call(&namespace, "pure", vec1(Expr::Lit(Lit::Unit)))
        } else {
            match statements.pop().unwrap() {
                DoStatement::Expr(e) => e,
                DoStatement::Return(rr) => ns_call(&namespace, "pure", vec1(rr.expr)),
                _ => {
                    return Err(ShapeError::NonExprTerminal);
                },
            }
        };
        let ghost body0 = if bv.trailing_semi {
            bv.statements
        } else {
            bv.statements.drop_last()
        };
        let ghost last0 = expr_view(last);
        proof {
            assert(stmts_view(statements@) =~= body0);
            assert(monad_plan(bv) == Ok::<ExprV, ShapeError>(monad_fold(nsv, body0, last0, 0).0));
        }
        let mut acc = last;
        let mut ctr: u64 = 0;
        while statements.len() > 0
            invariant
                monad_fold(nsv, stmts_view(statements@), expr_view(acc), ctr as nat) == monad_fold(
                    nsv,
                    body0,
                    last0,
                    0,
                ),
                ctr as int + statements@.len() <= body0.len(),
            decreases statements.len(),
        {
            let ghost pre = statements@;
            let st = statements.pop().unwrap();
            proof {
                assert(stmts_view(pre).last() == st@);
                assert(stmts_view(pre).drop_last() == stmts_view(statements@));
                assert(ctr < u64::MAX);
            }
            match st {
                DoStatement::Expr(e) => {
                    let k = wild_closure(acc);
                    acc = ns_call(&namespace, "and_then", vec2(e, k));
                },
                DoStatement::Return(rr) => {
                    let pe = ns_call(&namespace, "pure", vec1(rr.expr));
                    let k = wild_closure(acc);
                    acc = ns_call(&namespace, "and_then", vec2(pe, k));
                },
                DoStatement::Let(l) => {
                    acc = Expr::LetIn(Box::new(l.pat), Box::new(l.expr), Box::new(acc));
                },
                DoStatement::Guard(g) => {
                    let gd = ns_call(&namespace, "guard", vec1(g.cond));
                    let k = unit_closure(acc);
                    acc = ns_call(&namespace, "and_then", vec2(gd, k));
                },
                DoStatement::Bind(b) => {
                    let k = mk_bind_cont(&namespace, &mut ctr, b.irrefutable, b.pat, acc);
                    acc = ns_call(&namespace, "and_then", vec2(b.body, k));
                },
            }
        }
        Ok(acc)
    }

    /// Desugar the block: the applicative plan wherever it applies, else the
    /// monadic fallback.
    pub fn desugar(self) -> (r: Result<Expr, ShapeError>)
        requires
            self.statements@.len() < 0x4000000000000000,
        ensures
            r matches Ok(e) ==> desugar_plan(self@) == Ok::<ExprV, ShapeError>(expr_view(e)),
            r matches Err(er) ==> desugar_plan(self@) == Err::<ExprV, ShapeError>(er),
    {
        let ghost bv = self@;
        if self.applicative_viable() {
            match self.desugar_applicative() {
                Some(e) => Ok(e),
                None => {
                    proof {
                        assert(false);
                    }
                    vstd::pervasive::unreached()
                },
            }
        } else {
            self.desugar_monad()
        }
    }
}

// ---------------------------------------------------------------------------
// Laws of the planner choice
// ---------------------------------------------------------------------------

/// A statement whose binding can fail and carries no promise that it will
/// not: a `Bind` whose pattern is neither an identifier nor a wildcard, and
/// which is not marked irrefutable.
pub open spec fn refutable_bind(st: StmtV) -> bool {
    match st {
        StmtV::Bind(irr, p, _) => !irr && !(p is Ident) && !(p is Wild),
        _ => false,
    }
}

proof fn lemma_steps_ok_bound(s: Seq<StmtV>, bound: Set<IdName>, j: int, n: IdName)
    requires
        steps_ok(s, bound),
        bound.contains(n),
        0 <= j < s.len(),
    ensures
        !free_vars(stmt_body(s[j]), Set::empty()).contains(n),
    decreases s,
{
    if j == 0 {
    } else {
        lemma_steps_ok_bound(s.drop_first(), bound + binder_names(s[0]), j - 1, n);
        assert(s.drop_first()[j - 1] == s[j]);
    }
}

proof fn lemma_steps_ok_dep(s: Seq<StmtV>, bound: Set<IdName>, i: int, j: int, n: IdName)
    requires
        steps_ok(s, bound),
        0 <= i < j < s.len(),
        binder_names(s[i]).contains(n),
    ensures
        !free_vars(stmt_body(s[j]), Set::empty()).contains(n),
    decreases s,
{
    if i == 0 {
        lemma_steps_ok_bound(s.drop_first(), bound + binder_names(s[0]), j - 1, n);
        assert(s.drop_first()[j - 1] == s[j]);
    } else {
        lemma_steps_ok_dep(s.drop_first(), bound + binder_names(s[0]), i - 1, j - 1, n);
        assert(s.drop_first()[i - 1] == s[i]);
        assert(s.drop_first()[j - 1] == s[j]);
    }
}

proof fn lemma_steps_ok_binder(s: Seq<StmtV>, bound: Set<IdName>, i: int)
    requires
        steps_ok(s, bound),
        0 <= i < s.len(),
    ensures
        binder_ok(s[i]),
    decreases s,
{
    if i > 0 {
        lemma_steps_ok_binder(s.drop_first(), bound + binder_names(s[0]), i - 1);
        assert(s.drop_first()[i - 1] == s[i]);
    }
}

/// Law: dependency soundness.  Wherever a later retained statement's
/// expression mentions, free, a name that an earlier retained statement
/// binds, the applicative planner declines.
pub proof fn lemma_dependency_soundness(b: QDoV, i: int, j: int, n: IdName)
    requires
        0 <= i < j < retained(b).len(),
        binder_names(retained(b)[i]).contains(n),
        free_vars(stmt_body(retained(b)[j]), Set::empty()).contains(n),
    ensures
        !ap_ok(b),
{
    if ap_ok(b) {
        lemma_steps_ok_dep(retained(b), Set::empty(), i, j, n);
    }
}

/// Law: refutable fallback.  A block holding a refutable, unmarked `Bind`
/// pattern anywhere never takes the applicative path.
pub proof fn lemma_refutable_fallback(b: QDoV, i: int)
    requires
        0 <= i < b.statements.len(),
        refutable_bind(b.statements[i]),
    ensures
        !ap_ok(b),
{
    if ap_ok(b) {
        if b.trailing_semi {
            lemma_steps_ok_binder(retained(b), Set::empty(), i);
        } else if i < b.statements.len() - 1 {
            lemma_steps_ok_binder(retained(b), Set::empty(), i);
            assert(retained(b)[i] == b.statements[i]);
        } else {
            assert(terminal_ret(b) is None);
        }
    }
}

/// The shape a block must have for desugaring to succeed: at least one
/// statement, and, without a trailing terminator, a `return` or bare
/// expression last.
pub open spec fn block_shape_ok(b: QDoV) -> bool {
    b.statements.len() > 0 && (b.trailing_semi || b.statements.last() is Return
        || b.statements.last() is Expr)
}

/// Law: the engine succeeds exactly on well-shaped blocks.  Every block with
/// at least one statement and an expression-producing terminal desugars to a
/// plan, on one path or the other; every other block is rejected with a shape
/// error.
pub proof fn lemma_desugar_total_on_shape(b: QDoV)
    ensures
        desugar_plan(b) is Ok <==> block_shape_ok(b),
{
}

/// Law: terminal-shape rejection.  A non-terminated block whose last
/// statement is neither `return` nor a bare expression is rejected with a
/// shape error by the engine as a whole, never silently truncated.
pub proof fn lemma_terminal_shape_rejection(b: QDoV)
    requires
        !b.trailing_semi,
        b.statements.len() > 0,
        !(b.statements.last() is Return),
        !(b.statements.last() is Expr),
    ensures
        desugar_plan(b) == Err::<ExprV, ShapeError>(ShapeError::NonExprTerminal),
{
    assert(terminal_ret(b) is None);
}

// ---------------------------------------------------------------------------
// Guard routing
// ---------------------------------------------------------------------------

/// Whether `t` occurs in `e`, the whole of `e` included.
pub open spec fn contains_subexpr(e: ExprV, t: ExprV) -> bool
    decreases e,
{
    e == t || match e {
        ExprV::Call(f, args) => contains_subexpr(*f, t) || contains_in_list(args, t),
        ExprV::MethodCall(recv, _, args) => contains_subexpr(*recv, t) || contains_in_list(
            args,
            t,
        ),
        ExprV::Binary(_, a, b) => contains_subexpr(*a, t) || contains_subexpr(*b, t),
        ExprV::Pair(a, b) => contains_subexpr(*a, t) || contains_subexpr(*b, t),
        ExprV::Closure(_, body) => contains_subexpr(*body, t),
        ExprV::Match(s, _, hit, miss) => contains_subexpr(*s, t) || contains_subexpr(*hit, t)
            || contains_subexpr(*miss, t),
        ExprV::LetIn(_, rhs, body) => contains_subexpr(*rhs, t) || contains_subexpr(*body, t),
        _ => false,
    }
}

/// Whether `t` occurs in some element of the list.
pub open spec fn contains_in_list(s: Seq<ExprV>, t: ExprV) -> bool
    decreases s,
{
    if s.len() == 0 {
        false
    } else {
        contains_subexpr(s[0], t) || contains_in_list(s.drop_first(), t)
    }
}

proof fn lemma_contains_in_list_elem(s: Seq<ExprV>, t: ExprV, i: int)
    requires
        0 <= i < s.len(),
        contains_subexpr(s[i], t),
    ensures
        contains_in_list(s, t),
    decreases s,
{
    if i > 0 {
        lemma_contains_in_list_elem(s.drop_first(), t, i - 1);
    }
}

/// One monadic fold step keeps every subterm of the continuation it wraps.
proof fn lemma_step_keeps_subterm(ns: Seq<IdName>, st: StmtV, acc: ExprV, ctr: nat, t: ExprV)
    requires
        contains_subexpr(acc, t),
    ensures
        contains_subexpr(monad_step(ns, st, acc, ctr).0, t),
{
    match st {
        StmtV::Expr(e) => {
            lemma_contains_in_list_elem(seq![e, wild_closure_v(acc)], t, 1);
        },
        StmtV::Return(e) => {
            lemma_contains_in_list_elem(
                seq![ns_call_v(ns, "pure"@, seq![e]), wild_closure_v(acc)],
                t,
                1,
            );
        },
        StmtV::Let(_, _) => {},
        StmtV::Guard(c) => {
            lemma_contains_in_list_elem(
                seq![ns_call_v(ns, "guard"@, seq![c]), unit_closure_v(acc)],
                t,
                1,
            );
        },
        StmtV::Bind(irr, p, body) => {
            let (k, _) = bind_cont_v(ns, ctr, irr, p, acc);
            if p is Ident || p is Wild || irr {
                assert(k == ExprV::Closure(seq![p], Box::new(acc)));
            } else {
                let v = IdName::Synth((ctr + 1) as u64);
                let miss = ns_call_v(ns, "fail"@, seq![ExprV::Lit(LitV::Text(fail_msg_chars(p)))]);
                let ma = ExprV::Match(
                    Box::new(ExprV::Var(v)),
                    Box::new(p),
                    Box::new(acc),
                    Box::new(miss),
                );
                assert(contains_subexpr(ma, t));
                assert(k == ExprV::Closure(seq![PatternV::Ident(v)], Box::new(ma)));
            }
            assert(contains_subexpr(k, t));
            lemma_contains_in_list_elem(seq![body, k], t, 1);
        },
    }
}

/// The whole monadic fold keeps every subterm of its initial value.
proof fn lemma_fold_keeps_subterm(
    ns: Seq<IdName>,
    s: Seq<StmtV>,
    acc: ExprV,
    ctr: nat,
    t: ExprV,
)
    requires
        contains_subexpr(acc, t),
    ensures
        contains_subexpr(monad_fold(ns, s, acc, ctr).0, t),
    decreases s,
{
    if s.len() > 0 {
        let (acc2, c2) = monad_step(ns, s.last(), acc, ctr);
        lemma_step_keeps_subterm(ns, s.last(), acc, ctr, t);
        lemma_fold_keeps_subterm(ns, s.drop_last(), acc2, c2, t);
    }
}

proof fn lemma_fold_routes_guard(ns: Seq<IdName>, s: Seq<StmtV>, acc: ExprV, ctr: nat, i: int)
    requires
        0 <= i < s.len(),
        s[i] is Guard,
    ensures
        contains_subexpr(
            monad_fold(ns, s, acc, ctr).0,
            ns_call_v(ns, "guard"@, seq![s[i]->Guard_0]),
        ),
    decreases s,
{
    let t = ns_call_v(ns, "guard"@, seq![s[i]->Guard_0]);
    let (acc2, c2) = monad_step(ns, s.last(), acc, ctr);
    if i == s.len() - 1 {
        lemma_contains_in_list_elem(seq![t, unit_closure_v(acc)], t, 0);
        assert(contains_subexpr(acc2, t));
        lemma_fold_keeps_subterm(ns, s.drop_last(), acc2, c2, t);
    } else {
        assert(s.drop_last()[i] == s[i]);
        lemma_fold_routes_guard(ns, s.drop_last(), acc2, c2, i);
    }
}

/// Law (guard routing, monadic plan): every `guard` statement of the fold
/// body reaches the emitted composition as a call of the protocol's `guard`
/// operation on its own predicate, so the context's zero law governs it;
/// `guard false` there is the context's zero, which `and_then`
/// short-circuits, per the operations' contracts.
pub proof fn lemma_guard_routed_monadic(b: QDoV, i: int)
    requires
        monad_plan(b) is Ok,
        0 <= i < retained(b).len(),
        retained(b)[i] is Guard,
    ensures
        contains_subexpr(
            monad_plan(b)->Ok_0,
            ns_call_v(b.namespace, "guard"@, seq![retained(b)[i]->Guard_0]),
        ),
{
    let last = monad_terminal(b)->Ok_0;
    lemma_fold_routes_guard(b.namespace, retained(b), last, 0, i);
}

/// One pairing step keeps every subterm of the chain it extends.
proof fn lemma_zip_step_keeps_subterm(ns: Seq<IdName>, x: ExprV, st: StmtV, ctr: nat, t: ExprV)
    requires
        contains_subexpr(x, t),
    ensures
        contains_subexpr(zip_step_v(ns, x, st, ctr).0, t),
{
    let a = IdName::Synth((ctr + 1) as u64);
    let bb = IdName::Synth((ctr + 2) as u64);
    match st {
        StmtV::Bind(_, _, y) => {
            lemma_contains_in_list_elem(seq![pair_fn_v(a, bb), x, y], t, 1);
        },
        StmtV::Let(_, y) => {
            lemma_contains_in_list_elem(seq![lift_fn_v(a, bb, y), x], t, 1);
        },
        StmtV::Expr(y) => {
            lemma_contains_in_list_elem(seq![lift_fn_v(a, bb, y), x], t, 1);
        },
        StmtV::Return(y) => {
            lemma_contains_in_list_elem(seq![lift_fn_v(a, bb, y), x], t, 1);
        },
        StmtV::Guard(g) => {
            lemma_contains_in_list_elem(
                seq![pair_fn_v(a, bb), x, ns_call_v(ns, "guard"@, seq![g])],
                t,
                1,
            );
        },
    }
}

proof fn lemma_chain_routes_guard(ns: Seq<IdName>, s: Seq<StmtV>, ctr: nat, i: int)
    requires
        0 <= i < s.len(),
        s[i] is Guard,
    ensures
        contains_subexpr(
            zip_chain_v(ns, s, ctr).0,
            ns_call_v(ns, "guard"@, seq![s[i]->Guard_0]),
        ),
    decreases s,
{
    let t = ns_call_v(ns, "guard"@, seq![s[i]->Guard_0]);
    if s.len() <= 1 {
        assert(zip_chain_v(ns, s, ctr).0 == t);
    } else {
        let (x, c1) = zip_chain_v(ns, s.drop_last(), ctr);
        if i == s.len() - 1 {
            let a = IdName::Synth((c1 + 1) as u64);
            let bb = IdName::Synth((c1 + 2) as u64);
            lemma_contains_in_list_elem(seq![pair_fn_v(a, bb), x, t], t, 2);
        } else {
            assert(s.drop_last()[i] == s[i]);
            lemma_chain_routes_guard(ns, s.drop_last(), ctr, i);
            lemma_zip_step_keeps_subterm(ns, x, s.last(), c1, t);
        }
    }
}

/// Law (guard routing, applicative plan): every `guard` statement of the
/// retained body reaches the emitted composition as a call of the protocol's
/// `guard` operation on its own predicate; `guard false` there is the
/// context's zero, which `zip_with` and the final transform absorb, per the
/// operations' contracts.
pub proof fn lemma_guard_routed_applicative(b: QDoV, i: int)
    requires
        ap_ok(b),
        0 <= i < retained(b).len(),
        retained(b)[i] is Guard,
    ensures
        contains_subexpr(
            ap_plan(b),
            ns_call_v(b.namespace, "guard"@, seq![retained(b)[i]->Guard_0]),
        ),
{
    let t = ns_call_v(b.namespace, "guard"@, seq![retained(b)[i]->Guard_0]);
    lemma_chain_routes_guard(b.namespace, retained(b), 0, i);
    let r = retained(b);
    let ret = terminal_ret(b)->Some_0;
    let chain = zip_chain_v(b.namespace, r, 0).0;
    let sealed = seal_all(pat_column(r));
    lemma_contains_in_list_elem(
        seq![ExprV::Closure(seq![pat_nest(sealed)], Box::new(ret)), chain],
        t,
        1,
    );
}

proof fn lemma_fold_routes_fail(ns: Seq<IdName>, s: Seq<StmtV>, acc: ExprV, ctr: nat, i: int)
    requires
        0 <= i < s.len(),
        refutable_bind(s[i]),
    ensures
        contains_subexpr(
            monad_fold(ns, s, acc, ctr).0,
            ns_call_v(ns, "fail"@, seq![ExprV::Lit(LitV::Text(fail_msg_chars(s[i]->Bind_1)))]),
        ),
    decreases s,
{
    let p = s[i]->Bind_1;
    let t = ns_call_v(ns, "fail"@, seq![ExprV::Lit(LitV::Text(fail_msg_chars(p)))]);
    let (acc2, c2) = monad_step(ns, s.last(), acc, ctr);
    if i == s.len() - 1 {
        let v = IdName::Synth((ctr + 1) as u64);
        let ma = ExprV::Match(Box::new(ExprV::Var(v)), Box::new(p), Box::new(acc), Box::new(t));
        assert(contains_subexpr(t, t));
        assert(contains_subexpr(ma, t));
        let k = ExprV::Closure(seq![PatternV::Ident(v)], Box::new(ma));
        assert(bind_cont_v(ns, ctr, s[i]->Bind_0, p, acc).0 == k);
        lemma_contains_in_list_elem(seq![s[i]->Bind_2, k], t, 1);
        assert(contains_subexpr(acc2, t));
        lemma_fold_keeps_subterm(ns, s.drop_last(), acc2, c2, t);
    } else {
        assert(s.drop_last()[i] == s[i]);
        lemma_fold_routes_fail(ns, s.drop_last(), acc2, c2, i);
    }
}

/// Law (refutable fallback, failure channel): in the monadic plan, every
/// refutable, unmarked binding carries a call of the protocol's `fail`
/// operation with a diagnostic naming the unmatched pattern, so a non-match
/// surfaces through the context's own failure channel, never a silent
/// default.
pub proof fn lemma_refutable_routed_through_fail(b: QDoV, i: int)
    requires
        monad_plan(b) is Ok,
        0 <= i < retained(b).len(),
        refutable_bind(retained(b)[i]),
    ensures
        contains_subexpr(
            monad_plan(b)->Ok_0,
            ns_call_v(
                b.namespace,
                "fail"@,
                seq![ExprV::Lit(LitV::Text(fail_msg_chars(retained(b)[i]->Bind_1)))],
            ),
        ),
{
    let last = monad_terminal(b)->Ok_0;
    lemma_fold_routes_fail(b.namespace, retained(b), last, 0, i);
}

} // verus!
