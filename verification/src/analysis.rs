//! Variable-dependency analysis: the identifiers a pattern introduces, the
//! free identifiers of an expression (ignoring names bound by a closure's own
//! parameters), and the sealing pass that rewrites re-bound names in earlier
//! patterns to wildcards so that only the last binder of a name survives.

use vstd::prelude::*;

use crate::types::{
    Expr, ExprV, IdName, Ident, Lit, Pattern, PatternV, expr_size, expr_view, exprs_size,
    exprs_view, ids_view, pat_size, pat_view, pats_size, pats_view,
};

verus! {

broadcast use {
    crate::types::lemma_ids_view,
    crate::types::lemma_pats_view,
    crate::types::lemma_exprs_view,
    crate::types::lemma_stmts_view,
    crate::types::lemma_pats_size,
    crate::types::lemma_exprs_size,
};

// ---------------------------------------------------------------------------
// Identifier sets
// ---------------------------------------------------------------------------

/// The set of identifier views occurring in a list of identifiers.
pub open spec fn idset(s: Seq<Ident>) -> Set<IdName>
    decreases s,
{
    if s.len() == 0 {
        Set::empty()
    } else {
        idset(s.drop_last()).insert(s.last()@)
    }
}

pub broadcast proof fn lemma_idset(s: Seq<Ident>, x: IdName)
    ensures
        #[trigger] idset(s).contains(x) <==> exists|i: int| 0 <= i < s.len() && s[i]@ == x,
    decreases s,
{
    if s.len() > 0 {
        lemma_idset(s.drop_last(), x);
        if idset(s).contains(x) {
            if s.last()@ == x {
                assert(s[s.len() - 1]@ == x);
            } else {
                let i = choose|i: int| 0 <= i < s.len() - 1 && s.drop_last()[i]@ == x;
                assert(s[i]@ == x);
            }
        }
        if exists|i: int| 0 <= i < s.len() && s[i]@ == x {
            let i = choose|i: int| 0 <= i < s.len() && s[i]@ == x;
            if i < s.len() - 1 {
                assert(s.drop_last()[i]@ == x);
            }
        }
    }
}

/// Whether the list holds an identifier with the given view.
pub fn contains_id(s: &Vec<Ident>, x: &Ident) -> (r: bool)
    ensures
        r == idset(s@).contains(x@),
{
    proof {
        broadcast use lemma_idset;
    }
    let mut i: usize = 0;
    while i < s.len()
        invariant
            0 <= i <= s.len(),
            forall|j: int| 0 <= j < i ==> s@[j]@ != x@,
        decreases s.len() - i,
    {
        if &s[i] == x {
            proof {
                broadcast use lemma_idset;
            }
            return true;
        }
        i += 1;
    }
    proof {
        broadcast use lemma_idset;
    }
    false
}

/// Copy a list of identifiers, view for view.
pub fn dup_ids(s: &Vec<Ident>) -> (r: Vec<Ident>)
    ensures
        ids_view(r@) == ids_view(s@),
        idset(r@) == idset(s@),
{
    let mut r: Vec<Ident> = Vec::new();
    let mut i: usize = 0;
    while i < s.len()
        invariant
            0 <= i <= s.len(),
            r@.len() == i,
            forall|j: int| 0 <= j < i ==> r@[j]@ == s@[j]@,
        decreases s.len() - i,
    {
        r.push(s[i].dup());
        i += 1;
    }
    proof {
        assert(ids_view(r@) =~= ids_view(s@)) by {
            assert forall|j: int| 0 <= j < s@.len() implies ids_view(r@)[j] == ids_view(s@)[j] by {}
        }
        broadcast use lemma_idset;

        assert(idset(r@) =~= idset(s@));
    }
    r
}

// ---------------------------------------------------------------------------
// Pattern identifiers
// ---------------------------------------------------------------------------

/// The set of identifiers a pattern introduces.
pub open spec fn pat_idents(p: PatternV) -> Set<IdName>
    decreases p,
{
    match p {
        PatternV::Ident(x) => Set::empty().insert(x),
        PatternV::Wild => Set::empty(),
        PatternV::Pair(a, b) => pat_idents(*a) + pat_idents(*b),
        PatternV::Ctor(_, args) => pats_idents(args),
        PatternV::Lit(_) => Set::empty(),
    }
}

/// The set of identifiers a list of patterns introduces.
pub open spec fn pats_idents(s: Seq<PatternV>) -> Set<IdName>
    decreases s,
{
    if s.len() == 0 {
        Set::empty()
    } else {
        pats_idents(s.drop_last()) + pat_idents(s.last())
    }
}

/// Append every identifier the pattern introduces to `acc`.
#[verifier::loop_isolation(false)]
pub fn collect_pat_idents(p: &Pattern, acc: &mut Vec<Ident>)
    ensures
        idset(final(acc)@) == idset(old(acc)@) + pat_idents(pat_view(*p)),
    decreases pat_size(pat_view(*p)),
{
    match p {
        Pattern::Ident(x) => {
            acc.push(x.dup());
            proof {
                broadcast use lemma_idset;
                assert(idset(acc@) =~= idset(old(acc)@) + pat_idents(pat_view(*p))) by {
                    assert(acc@.drop_last() == old(acc)@);
                }
            }
        },
        Pattern::Wild => {
            proof {
                assert(idset(acc@) =~= idset(old(acc)@) + pat_idents(pat_view(*p)));
            }
        },
        Pattern::Pair(a, b) => {
            collect_pat_idents(a, acc);
            collect_pat_idents(b, acc);
            proof {
                assert(idset(acc@) =~= idset(old(acc)@) + pat_idents(pat_view(*p)));
            }
        },
        Pattern::Ctor(path, args) => {
            let ghost args0 = args@;
            let mut i: usize = 0;
            while i < args.len()
                invariant
                    0 <= i <= args.len(),
                    args@ == args0,
                    idset(acc@) == idset(old(acc)@) + pats_idents(pats_view(args0.take(i as int))),
                decreases args.len() - i,
            {
                proof {
                    assert(pats_view(args0)[i as int] == pat_view(args0[i as int]));
                    assert(pat_size(pat_view(args0[i as int])) <= pats_size(pats_view(args0)));
                }
                collect_pat_idents(&args[i], acc);
                proof {
                    assert(pats_view(args0.take(i + 1)).drop_last() == pats_view(
                        args0.take(i as int),
                    )) by {
                        assert(args0.take(i + 1).drop_last() =~= args0.take(i as int));
                    }
                    assert(pats_view(args0.take(i + 1)).last() == pat_view(args0[i as int]));
                    assert(idset(acc@) =~= idset(old(acc)@) + pats_idents(
                        pats_view(args0.take(i + 1)),
                    ));
                }
                i += 1;
            }
            proof {
                assert(args0.take(args0.len() as int) =~= args0);
                assert(idset(acc@) =~= idset(old(acc)@) + pat_idents(pat_view(*p)));
            }
        },
        Pattern::Lit(_) => {
            proof {
                assert(idset(acc@) =~= idset(old(acc)@) + pat_idents(pat_view(*p)));
            }
        },
    }
}

// ---------------------------------------------------------------------------
// Free variables
// ---------------------------------------------------------------------------

/// The free identifiers of an expression.  A single-segment path is a free
/// occurrence unless it is in `bound`; a closure's parameters are added to
/// `bound` for its body only.  Patterns of `match` arms and `let` scopes do
/// not shadow: the analysis treats their bodies like any other subexpression,
/// which at worst over-approximates the free set.
pub open spec fn free_vars(e: ExprV, bound: Set<IdName>) -> Set<IdName>
    decreases e,
{
    match e {
        ExprV::Var(x) => if bound.contains(x) {
            Set::empty()
        } else {
            Set::empty().insert(x)
        },
        ExprV::Path(_) => Set::empty(),
        ExprV::Lit(_) => Set::empty(),
        ExprV::Call(f, args) => free_vars(*f, bound) + frees(args, bound),
        ExprV::MethodCall(recv, _, args) => free_vars(*recv, bound) + frees(args, bound),
        ExprV::Binary(_, a, b) => free_vars(*a, bound) + free_vars(*b, bound),
        ExprV::Pair(a, b) => free_vars(*a, bound) + free_vars(*b, bound),
        ExprV::Closure(params, body) => free_vars(*body, bound + pats_idents(params)),
        ExprV::Match(s, _, hit, miss) => free_vars(*s, bound) + free_vars(*hit, bound)
            + free_vars(*miss, bound),
        ExprV::LetIn(_, rhs, body) => free_vars(*rhs, bound) + free_vars(*body, bound),
    }
}

/// The free identifiers of a list of expressions.
pub open spec fn frees(s: Seq<ExprV>, bound: Set<IdName>) -> Set<IdName>
    decreases s,
{
    if s.len() == 0 {
        Set::empty()
    } else {
        frees(s.drop_last(), bound) + free_vars(s.last(), bound)
    }
}

/// Append the free identifiers of `e` under `bound` to `acc`.
#[verifier::loop_isolation(false)]
pub fn collect_free_vars(e: &Expr, bound: &Vec<Ident>, acc: &mut Vec<Ident>)
    ensures
        idset(final(acc)@) == idset(old(acc)@) + free_vars(expr_view(*e), idset(bound@)),
    decreases expr_size(expr_view(*e)), 0nat,
{
    match e {
        Expr::Var(x) => {
            if !contains_id(bound, x) {
                acc.push(x.dup());
                proof {
                    broadcast use lemma_idset;
                    assert(idset(acc@) =~= idset(old(acc)@) + free_vars(
                        expr_view(*e),
                        idset(bound@),
                    )) by {
                        assert(acc@.drop_last() == old(acc)@);
                    }
                }
            } else {
                proof {
                    assert(idset(acc@) =~= idset(old(acc)@) + free_vars(
                        expr_view(*e),
                        idset(bound@),
                    ));
                }
            }
        },
        Expr::Path(_) => {
            proof {
                assert(idset(acc@) =~= idset(old(acc)@) + free_vars(expr_view(*e), idset(bound@)));
            }
        },
        Expr::Lit(_) => {
            proof {
                assert(idset(acc@) =~= idset(old(acc)@) + free_vars(expr_view(*e), idset(bound@)));
            }
        },
        Expr::Call(f, args) => {
            collect_free_vars(f, bound, acc);
            collect_free_list(args, bound, acc);
            proof {
                assert(idset(acc@) =~= idset(old(acc)@) + free_vars(expr_view(*e), idset(bound@)));
            }
        },
        Expr::MethodCall(recv, _, args) => {
            collect_free_vars(recv, bound, acc);
            collect_free_list(args, bound, acc);
            proof {
                assert(idset(acc@) =~= idset(old(acc)@) + free_vars(expr_view(*e), idset(bound@)));
            }
        },
        Expr::Binary(_, a, b) => {
            collect_free_vars(a, bound, acc);
            collect_free_vars(b, bound, acc);
            proof {
                assert(idset(acc@) =~= idset(old(acc)@) + free_vars(expr_view(*e), idset(bound@)));
            }
        },
        Expr::Pair(a, b) => {
            collect_free_vars(a, bound, acc);
            collect_free_vars(b, bound, acc);
            proof {
                assert(idset(acc@) =~= idset(old(acc)@) + free_vars(expr_view(*e), idset(bound@)));
            }
        },
        Expr::Closure(params, body) => {
            let mut inner = dup_ids(bound);
            let mut i: usize = 0;
            let ghost params0 = params@;
            proof {
                assert(params0.take(0) =~= Seq::<Pattern>::empty());
                assert(idset(inner@) =~= idset(bound@) + pats_idents(
                    pats_view(params0.take(0)),
                ));
            }
            while i < params.len()
                invariant
                    0 <= i <= params.len(),
                    params@ == params0,
                    idset(inner@) == idset(bound@) + pats_idents(pats_view(params0.take(i as int))),
                decreases params.len() - i,
            {
                collect_pat_idents(&params[i], &mut inner);
                proof {
                    assert(pats_view(params0.take(i + 1)).drop_last() == pats_view(
                        params0.take(i as int),
                    )) by {
                        assert(params0.take(i + 1).drop_last() =~= params0.take(i as int));
                    }
                    assert(idset(inner@) =~= idset(bound@) + pats_idents(
                        pats_view(params0.take(i + 1)),
                    ));
                }
                i += 1;
            }
            proof {
                assert(params0.take(params0.len() as int) =~= params0);
            }
            collect_free_vars(body, &inner, acc);
            proof {
                assert(idset(acc@) =~= idset(old(acc)@) + free_vars(expr_view(*e), idset(bound@)));
            }
        },
        Expr::Match(s, _, hit, miss) => {
            collect_free_vars(s, bound, acc);
            collect_free_vars(hit, bound, acc);
            collect_free_vars(miss, bound, acc);
            proof {
                assert(idset(acc@) =~= idset(old(acc)@) + free_vars(expr_view(*e), idset(bound@)));
            }
        },
        Expr::LetIn(_, rhs, body) => {
            collect_free_vars(rhs, bound, acc);
            collect_free_vars(body, bound, acc);
            proof {
                assert(idset(acc@) =~= idset(old(acc)@) + free_vars(expr_view(*e), idset(bound@)));
            }
        },
    }
}

/// Append the free identifiers of every expression in `args` to `acc`.
#[verifier::loop_isolation(false)]
fn collect_free_list(args: &Vec<Expr>, bound: &Vec<Ident>, acc: &mut Vec<Ident>)
    ensures
        idset(final(acc)@) == idset(old(acc)@) + frees(exprs_view(args@), idset(bound@)),
    decreases exprs_size(exprs_view(args@)), 1nat,
{
    let ghost args0 = args@;
    let mut i: usize = 0;
    while i < args.len()
        invariant
            0 <= i <= args.len(),
            args@ == args0,
            idset(acc@) == idset(old(acc)@) + frees(exprs_view(args0.take(i as int)), idset(bound@)),
        decreases args.len() - i,
    {
        proof {
            assert(exprs_view(args0)[i as int] == expr_view(args0[i as int]));
            assert(expr_size(expr_view(args0[i as int])) <= exprs_size(exprs_view(args0)));
        }
        collect_free_vars(&args[i], bound, acc);
        proof {
            assert(exprs_view(args0.take(i + 1)).drop_last() == exprs_view(
                args0.take(i as int),
            )) by {
                assert(args0.take(i + 1).drop_last() =~= args0.take(i as int));
            }
            assert(idset(acc@) =~= idset(old(acc)@) + frees(
                exprs_view(args0.take(i + 1)),
                idset(bound@),
            ));
        }
        i += 1;
    }
    proof {
        assert(args0.take(args0.len() as int) =~= args0);
    }
}

/// The free identifiers of an expression, as a list.
pub fn free_vars_of(e: &Expr) -> (r: Vec<Ident>)
    ensures
        idset(r@) == free_vars(expr_view(*e), Set::empty()),
{
    let bound: Vec<Ident> = Vec::new();
    let mut acc: Vec<Ident> = Vec::new();
    collect_free_vars(e, &bound, &mut acc);
    acc
}

/// Whether the two lists share an identifier view.
pub fn shares_id(a: &Vec<Ident>, b: &Vec<Ident>) -> (r: bool)
    ensures
        r == !idset(a@).disjoint(idset(b@)),
{
    proof {
        broadcast use lemma_idset;
    }
    let mut i: usize = 0;
    while i < a.len()
        invariant
            0 <= i <= a.len(),
            forall|j: int| 0 <= j < i ==> !idset(b@).contains(a@[j]@),
        decreases a.len() - i,
    {
        if contains_id(b, &a[i]) {
            proof {
                broadcast use lemma_idset;
                assert(!idset(a@).disjoint(idset(b@)));
            }
            return true;
        }
        i += 1;
    }
    proof {
        broadcast use lemma_idset;
        assert(idset(a@).disjoint(idset(b@))) by {
            assert forall|x: IdName| idset(a@).contains(x) implies !idset(b@).contains(x) by {
                let j = choose|j: int| 0 <= j < a@.len() && a@[j]@ == x;
            }
        }
    }
    false
}

// ---------------------------------------------------------------------------
// Sealing
// ---------------------------------------------------------------------------

/// Seal one pattern against a set of already-claimed names: every identifier
/// node whose name is claimed becomes a wildcard, every other identifier node
/// claims its name.  Identifier nodes are visited left to right.  Returns the
/// sealed pattern and the grown claimed set.
pub open spec fn seal(p: PatternV, claimed: Set<IdName>) -> (PatternV, Set<IdName>)
    decreases p,
{
    match p {
        PatternV::Ident(x) => if claimed.contains(x) {
            (PatternV::Wild, claimed)
        } else {
            (p, claimed.insert(x))
        },
        PatternV::Wild => (p, claimed),
        PatternV::Pair(a, b) => {
            let (a2, c1) = seal(*a, claimed);
            let (b2, c2) = seal(*b, c1);
            (PatternV::Pair(Box::new(a2), Box::new(b2)), c2)
        },
        PatternV::Ctor(path, args) => {
            let (args2, c2) = seal_list(args, claimed);
            (PatternV::Ctor(path, args2), c2)
        },
        PatternV::Lit(_) => (p, claimed),
    }
}

/// Seal a list of patterns left to right, threading the claimed set.
pub open spec fn seal_list(s: Seq<PatternV>, claimed: Set<IdName>) -> (Seq<PatternV>, Set<IdName>)
    decreases s,
{
    if s.len() == 0 {
        (s, claimed)
    } else {
        let (front, c1) = seal_list(s.drop_last(), claimed);
        let (pl, c2) = seal(s.last(), c1);
        (front.push(pl), c2)
    }
}

/// Sealing claims exactly the pattern's own names, whatever was claimed
/// before.
pub proof fn lemma_seal_claims(p: PatternV, claimed: Set<IdName>)
    ensures
        seal(p, claimed).1 =~= claimed + pat_idents(p),
    decreases p,
{
    match p {
        PatternV::Pair(a, b) => {
            lemma_seal_claims(*a, claimed);
            lemma_seal_claims(*b, seal(*a, claimed).1);
        },
        PatternV::Ctor(_, args) => {
            lemma_seal_list_claims(args, claimed);
        },
        _ => {},
    }
}

pub proof fn lemma_seal_list_claims(s: Seq<PatternV>, claimed: Set<IdName>)
    ensures
        seal_list(s, claimed).1 =~= claimed + pats_idents(s),
    decreases s,
{
    if s.len() > 0 {
        lemma_seal_list_claims(s.drop_last(), claimed);
        lemma_seal_claims(s.last(), seal_list(s.drop_last(), claimed).1);
    }
}

/// The names a sealed pattern still introduces are exactly the pattern's own
/// names less the ones claimed before.
pub proof fn lemma_seal_names(p: PatternV, claimed: Set<IdName>)
    ensures
        pat_idents(seal(p, claimed).0) =~= pat_idents(p) - claimed,
    decreases p,
{
    match p {
        PatternV::Pair(a, b) => {
            lemma_seal_names(*a, claimed);
            lemma_seal_claims(*a, claimed);
            lemma_seal_names(*b, seal(*a, claimed).1);
        },
        PatternV::Ctor(_, args) => {
            lemma_seal_list_names(args, claimed);
        },
        _ => {},
    }
}

pub proof fn lemma_seal_list_names(s: Seq<PatternV>, claimed: Set<IdName>)
    ensures
        pats_idents(seal_list(s, claimed).0) =~= pats_idents(s) - claimed,
    decreases s,
{
    if s.len() > 0 {
        lemma_seal_list_names(s.drop_last(), claimed);
        lemma_seal_list_claims(s.drop_last(), claimed);
        lemma_seal_names(s.last(), seal_list(s.drop_last(), claimed).1);
        assert(seal_list(s, claimed).0.drop_last() == seal_list(s.drop_last(), claimed).0);
        assert(seal_list(s, claimed).0.last() == seal(
            s.last(),
            seal_list(s.drop_last(), claimed).1,
        ).0);
    }
}

/// The names bound by the patterns `s[i..]`.
pub open spec fn bound_from(s: Seq<PatternV>, i: int) -> Set<IdName>
    decreases s.len() - i,
{
    if i < 0 || i >= s.len() {
        Set::empty()
    } else {
        pat_idents(s[i]) + bound_from(s, i + 1)
    }
}

pub proof fn lemma_bound_from_contains(s: Seq<PatternV>, i: int, n: IdName)
    requires
        0 <= i,
    ensures
        bound_from(s, i).contains(n) <==> exists|j: int|
            i <= j < s.len() && #[trigger] pat_idents(s[j]).contains(n),
    decreases s.len() - i,
{
    if i < s.len() {
        lemma_bound_from_contains(s, i + 1, n);
    }
}

/// The whole sealing pass over the pattern column of a block, scanning in
/// reverse statement order: the sealed form of `s[i]` is `s[i]` sealed
/// against every name bound by a later pattern.
pub open spec fn seal_all(s: Seq<PatternV>) -> Seq<PatternV> {
    Seq::new(s.len(), |i: int| seal(s[i], bound_from(s, i + 1)).0)
}

/// Duplicate a literal, view for view.
pub fn dup_lit(l: &Lit) -> (r: Lit)
    ensures
        r@ == l@,
{
    match l {
        Lit::Num(n) => Lit::Num(*n),
        Lit::Flag(b) => Lit::Flag(*b),
        Lit::Text(s) => Lit::Text(s.clone()),
        Lit::Unit => Lit::Unit,
    }
}

/// Build the sealed form of one pattern, growing the claimed list.
#[verifier::loop_isolation(false)]
pub fn seal_pattern(p: &Pattern, claimed: &mut Vec<Ident>) -> (r: Pattern)
    ensures
        pat_view(r) == seal(pat_view(*p), idset(old(claimed)@)).0,
        idset(final(claimed)@) == seal(pat_view(*p), idset(old(claimed)@)).1,
    decreases pat_size(pat_view(*p)),
{
    match p {
        Pattern::Ident(x) => {
            if contains_id(claimed, x) {
                Pattern::Wild
            } else {
                let r = Pattern::Ident(x.dup());
                claimed.push(x.dup());
                proof {
                    broadcast use lemma_idset;

                    assert(idset(claimed@) =~= idset(old(claimed)@).insert(x@)) by {
                        assert(claimed@.drop_last() == old(claimed)@);
                    }
                }
                r
            }
        },
        Pattern::Wild => Pattern::Wild,
        Pattern::Pair(a, b) => {
            let a2 = seal_pattern(a, claimed);
            let b2 = seal_pattern(b, claimed);
            Pattern::Pair(Box::new(a2), Box::new(b2))
        },
        Pattern::Ctor(path, args) => {
            let ghost c0 = idset(claimed@);
            let ghost args0 = args@;
            let mut out: Vec<Pattern> = Vec::new();
            let mut i: usize = 0;
            proof {
                assert(args0.take(0) =~= Seq::<Pattern>::empty());
            }
            while i < args.len()
                invariant
                    0 <= i <= args.len(),
                    pats_view(out@) == seal_list(pats_view(args0.take(i as int)), c0).0,
                    idset(claimed@) == seal_list(pats_view(args0.take(i as int)), c0).1,
                decreases args.len() - i,
            {
                proof {
                    assert(pats_view(args0)[i as int] == pat_view(args0[i as int]));
                    assert(pat_size(pat_view(args0[i as int])) <= pats_size(pats_view(args0)));
                }
                let q = seal_pattern(&args[i], claimed);
                out.push(q);
                proof {
                    assert(args0.take(i + 1).drop_last() =~= args0.take(i as int));
                    assert(pats_view(args0.take(i + 1)).drop_last() == pats_view(
                        args0.take(i as int),
                    ));
                    assert(pats_view(args0.take(i + 1)).last() == pat_view(args0[i as int]));
                    assert(pats_view(out@).drop_last() == pats_view(out@.drop_last()));
                }
                i += 1;
            }
            proof {
                assert(args0.take(args0.len() as int) =~= args0);
            }
            Pattern::Ctor(dup_ids(path), out)
        },
        Pattern::Lit(l) => Pattern::Lit(dup_lit(l)),
    }
}

/// The sealing pass: rewrite the whole pattern column, scanning from the
/// last pattern to the first, so that of several bindings of one name only
/// the last is still visible and every earlier one has become a wildcard.
#[verifier::loop_isolation(false)]
pub fn seal_patterns(pats: Vec<Pattern>) -> (r: Vec<Pattern>)
    ensures
        pats_view(r@) == seal_all(pats_view(pats@)),
{
    let ghost sv = pats_view(pats@);
    let mut claimed: Vec<Ident> = Vec::new();
    let mut rev: Vec<Pattern> = Vec::new();
    let mut i: usize = pats.len();
    while i > 0
        invariant
            0 <= i <= pats.len(),
            idset(claimed@) == bound_from(sv, i as int),
            rev@.len() == pats@.len() - i,
            forall|k: int|
                0 <= k < rev@.len() ==> pat_view(rev@[k]) == seal_all(sv)[pats@.len() - 1 - k],
        decreases i,
    {
        i -= 1;
        proof {
            assert(pats_view(pats@)[i as int] == pat_view(pats@[i as int]));
        }
        let q = seal_pattern(&pats[i], &mut claimed);
        rev.push(q);
        proof {
            lemma_seal_claims(sv[i as int], bound_from(sv, i as int + 1));
            assert(idset(claimed@) =~= bound_from(sv, i as int));
            assert(pat_view(q) == seal_all(sv)[i as int]);
        }
    }
    let mut out: Vec<Pattern> = Vec::new();
    let ghost n = pats@.len();
    while rev.len() > 0
        invariant
            out@.len() + rev@.len() == n,
            forall|k: int|
                0 <= k < rev@.len() ==> pat_view(rev@[k]) == seal_all(sv)[n - 1 - k],
            forall|k: int| 0 <= k < out@.len() ==> pat_view(out@[k]) == seal_all(sv)[k],
        decreases rev.len(),
    {
        let q = rev.pop().unwrap();
        out.push(q);
    }
    proof {
        broadcast use crate::types::lemma_pats_view;

        assert(pats_view(out@) =~= seal_all(sv));
    }
    out
}

/// The sealing visitor: rewrites one pattern at a time against the names
/// already claimed by patterns visited before it.  Visiting patterns in
/// reverse statement order makes the last binder of each name the survivor.
pub struct PatVarSealer {
    pub bound: Vec<Ident>,
}

impl PatVarSealer {
    /// A sealer with nothing claimed yet.
    pub fn new() -> (r: PatVarSealer)
        ensures
            idset(r.bound@) == Set::<IdName>::empty(),
    {
        PatVarSealer { bound: Vec::new() }
    }

    /// Seal one pattern in place, claiming its surviving names.
    pub fn visit_pat_mut(&mut self, node: &mut Pattern)
        ensures
            pat_view(*final(node)) == seal(pat_view(*old(node)), idset(old(self).bound@)).0,
            idset(final(self).bound@) == seal(pat_view(*old(node)), idset(old(self).bound@)).1,
    {
        let sealed = seal_pattern(node, &mut self.bound);
        *node = sealed;
    }
}

// ---------------------------------------------------------------------------
// Laws of the sealing pass
// ---------------------------------------------------------------------------

/// Law: in a pattern column binding one name twice, sealing hides every
/// binding of the name but the last; the earlier occurrences have become
/// wildcards and introduce nothing.
pub proof fn lemma_shadow_sealing(s: Seq<PatternV>, i: int, j: int, n: IdName)
    requires
        0 <= i < j < s.len(),
        pat_idents(s[i]).contains(n),
        pat_idents(s[j]).contains(n),
    ensures
        !pat_idents(seal_all(s)[i]).contains(n),
{
    lemma_seal_names(s[i], bound_from(s, i + 1));
    lemma_bound_from_contains(s, i + 1, n);
}

/// Law: the last binder of a name survives sealing: a name bound by `s[i]`
/// and by no later pattern is still introduced by the sealed form of `s[i]`.
pub proof fn lemma_last_binder_survives(s: Seq<PatternV>, i: int, n: IdName)
    requires
        0 <= i < s.len(),
        pat_idents(s[i]).contains(n),
        forall|j: int| i < j < s.len() ==> !(#[trigger] pat_idents(s[j])).contains(n),
    ensures
        pat_idents(seal_all(s)[i]).contains(n),
{
    lemma_seal_names(s[i], bound_from(s, i + 1));
    lemma_bound_from_contains(s, i + 1, n);
}

} // verus!
