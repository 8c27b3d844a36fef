//! Rendering of patterns into source text.  The engine embeds the rendered
//! pattern in the diagnostic it hands to the protocol's `fail` operation when
//! a refutable binding does not match.

use vstd::prelude::*;

use crate::types::{Bind, BinOp, DoStatement, Expr, ExprV, Guard, IdName, Ident, Let, Lit, LitV,
    Namespace, Pattern, PatternV, Return, StmtV, expr_size, expr_view, exprs_size, exprs_view,
    ids_view, pat_size, pat_view, pats_size, pats_view};

verus! {

broadcast use {
    crate::types::lemma_ids_view,
    crate::types::lemma_pats_view,
    crate::types::lemma_pats_size,
    crate::types::lemma_exprs_view,
    crate::types::lemma_exprs_size,
};

// ---------------------------------------------------------------------------
// Decimal digits
// ---------------------------------------------------------------------------

pub open spec fn digit_char(d: nat) -> char {
    if d == 0 {
        '0'
    } else if d == 1 {
        '1'
    } else if d == 2 {
        '2'
    } else if d == 3 {
        '3'
    } else if d == 4 {
        '4'
    } else if d == 5 {
        '5'
    } else if d == 6 {
        '6'
    } else if d == 7 {
        '7'
    } else if d == 8 {
        '8'
    } else {
        '9'
    }
}

/// The decimal rendering of a natural number, most significant digit first.
pub open spec fn dec_digits(n: nat) -> Seq<char>
    decreases n,
{
    if n < 10 {
        seq![digit_char(n)]
    } else {
        dec_digits(n / 10).push(digit_char(n % 10))
    }
}

/// Append one decimal digit.
fn push_digit(out: &mut String, d: u64)
    requires
        d < 10,
    ensures
        final(out)@ == old(out)@.push(digit_char(d as nat)),
{
    let s: &str = if d == 0 {
        "0"
    } else if d == 1 {
        "1"
    } else if d == 2 {
        "2"
    } else if d == 3 {
        "3"
    } else if d == 4 {
        "4"
    } else if d == 5 {
        "5"
    } else if d == 6 {
        "6"
    } else if d == 7 {
        "7"
    } else if d == 8 {
        "8"
    } else {
        "9"
    };
    proof {
        reveal_strlit("0");
        reveal_strlit("1");
        reveal_strlit("2");
        reveal_strlit("3");
        reveal_strlit("4");
        reveal_strlit("5");
        reveal_strlit("6");
        reveal_strlit("7");
        reveal_strlit("8");
        reveal_strlit("9");
    }
    out.append(s);
    proof {
        assert(out@ =~= old(out)@.push(digit_char(d as nat)));
    }
}

/// Append the decimal rendering of `n`.
pub fn append_u64(out: &mut String, n: u64)
    ensures
        final(out)@ == old(out)@ + dec_digits(n as nat),
    decreases n,
{
    if n < 10 {
        push_digit(out, n);
        proof {
            assert(out@ =~= old(out)@ + dec_digits(n as nat));
        }
    } else {
        append_u64(out, n / 10);
        push_digit(out, n % 10);
        proof {
            assert(out@ =~= old(out)@ + dec_digits(n as nat));
        }
    }
}

/// The rendering of a signed number: a minus sign, then the magnitude.
pub open spec fn num_chars(n: int) -> Seq<char> {
    if n >= 0 {
        dec_digits(n as nat)
    } else {
        seq!['-'] + dec_digits((-n) as nat)
    }
}

/// Append the decimal rendering of `n`, sign included.
pub fn append_i64(out: &mut String, n: i64)
    ensures
        final(out)@ == old(out)@ + num_chars(n as int),
{
    if n >= 0 {
        append_u64(out, n as u64);
    } else {
        out.append("-");
        let m: u64 = if n == i64::MIN {
            9223372036854775808u64
        } else {
            (-n) as u64
        };
        append_u64(out, m);
        proof {
            reveal_strlit("-");
            assert(out@ =~= old(out)@ + num_chars(n as int));
        }
    }
}

// ---------------------------------------------------------------------------
// Identifiers, paths and literals
// ---------------------------------------------------------------------------

/// The characters of an identifier; a synthetic name renders with a reserved
/// prefix no source name is parsed into.
pub open spec fn id_chars(x: IdName) -> Seq<char> {
    match x {
        IdName::Name(s) => s,
        IdName::Synth(n) => "__qdo_arg_"@ + dec_digits(n as nat),
    }
}

/// Append the rendering of one identifier.
pub fn append_ident(out: &mut String, x: &Ident)
    ensures
        final(out)@ == old(out)@ + id_chars(x@),
{
    match x {
        Ident::Named(s) => {
            out.append(s.as_str());
        },
        Ident::Synth(n) => {
            out.append("__qdo_arg_");
            append_u64(out, *n);
            proof {
                assert(out@ =~= old(out)@ + id_chars(x@));
            }
        },
    }
}

/// The rendering of a path: its segments joined by `::`.
pub open spec fn path_chars(s: Seq<IdName>) -> Seq<char>
    decreases s,
{
    if s.len() == 0 {
        Seq::empty()
    } else if s.len() == 1 {
        id_chars(s[0])
    } else {
        path_chars(s.drop_last()) + "::"@ + id_chars(s.last())
    }
}

/// Append the rendering of a path.
#[verifier::loop_isolation(false)]
pub fn append_path(out: &mut String, path: &Vec<Ident>)
    ensures
        final(out)@ == old(out)@ + path_chars(ids_view(path@)),
{
    let ghost p0 = ids_view(path@);
    let mut i: usize = 0;
    proof {
        assert(out@ =~= old(out)@ + path_chars(p0.take(0)));
    }
    while i < path.len()
        invariant
            0 <= i <= path.len(),
            out@ == old(out)@ + path_chars(p0.take(i as int)),
        decreases path.len() - i,
    {
        if i > 0 {
            out.append("::");
        }
        append_ident(out, &path[i]);
        proof {
            assert(p0.take(i + 1).drop_last() =~= p0.take(i as int));
            if i > 0 {
                assert(out@ =~= old(out)@ + path_chars(p0.take(i + 1)));
            } else {
                assert(out@ =~= old(out)@ + path_chars(p0.take(1)));
            }
        }
        i += 1;
    }
    proof {
        assert(p0.take(p0.len() as int) =~= p0);
    }
}

/// The rendering of a literal.  Text renders quoted, verbatim.
pub open spec fn lit_chars(l: LitV) -> Seq<char> {
    match l {
        LitV::Num(n) => num_chars(n as int),
        LitV::Flag(b) => if b {
            "true"@
        } else {
            "false"@
        },
        LitV::Text(s) => seq!['"'] + s + seq!['"'],
        LitV::Unit => "()"@,
    }
}

/// Append the rendering of a literal.
pub fn append_lit(out: &mut String, l: &Lit)
    ensures
        final(out)@ == old(out)@ + lit_chars(l@),
{
    match l {
        Lit::Num(n) => {
            append_i64(out, *n);
        },
        Lit::Flag(b) => {
            if *b {
                out.append("true");
            } else {
                out.append("false");
            }
        },
        Lit::Text(s) => {
            out.append("\"");
            out.append(s.as_str());
            out.append("\"");
            proof {
                reveal_strlit("\"");
                assert(out@ =~= old(out)@ + lit_chars(l@));
            }
        },
        Lit::Unit => {
            out.append("()");
        },
    }
}

// ---------------------------------------------------------------------------
// Patterns
// ---------------------------------------------------------------------------

/// The rendering of a pattern.
pub open spec fn pat_chars(p: PatternV) -> Seq<char>
    decreases p,
{
    match p {
        PatternV::Ident(x) => id_chars(x),
        PatternV::Wild => "_"@,
        PatternV::Pair(a, b) => seq!['('] + pat_chars(*a) + ", "@ + pat_chars(*b) + seq![')'],
        PatternV::Ctor(path, args) => if args.len() == 0 {
            path_chars(path)
        } else {
            path_chars(path) + seq!['('] + pat_list_chars(args) + seq![')']
        },
        PatternV::Lit(l) => lit_chars(l),
    }
}

/// The rendering of a comma-separated pattern list.
pub open spec fn pat_list_chars(s: Seq<PatternV>) -> Seq<char>
    decreases s,
{
    if s.len() == 0 {
        Seq::empty()
    } else if s.len() == 1 {
        pat_chars(s[0])
    } else {
        pat_list_chars(s.drop_last()) + ", "@ + pat_chars(s.last())
    }
}

/// Append the rendering of a pattern.
#[verifier::loop_isolation(false)]
pub fn append_pattern(out: &mut String, p: &Pattern)
    ensures
        final(out)@ == old(out)@ + pat_chars(pat_view(*p)),
    decreases pat_size(pat_view(*p)),
{
    match p {
        Pattern::Ident(x) => {
            append_ident(out, x);
        },
        Pattern::Wild => {
            out.append("_");
        },
        Pattern::Pair(a, b) => {
            out.append("(");
            append_pattern(out, a);
            out.append(", ");
            append_pattern(out, b);
            out.append(")");
            proof {
                reveal_strlit("(");
                reveal_strlit(")");
                assert(out@ =~= old(out)@ + pat_chars(pat_view(*p)));
            }
        },
        Pattern::Ctor(path, args) => {
            append_path(out, path);
            if args.len() > 0 {
                let ghost a0 = pats_view(args@);
                out.append("(");
                let mut i: usize = 0;
                proof {
                    reveal_strlit("(");
                    assert(out@ =~= old(out)@ + path_chars(ids_view(path@)) + seq!['(']
                        + pat_list_chars(a0.take(0)));
                }
                while i < args.len()
                    invariant
                        0 <= i <= args.len(),
                        out@ == old(out)@ + path_chars(ids_view(path@)) + seq!['(']
                            + pat_list_chars(a0.take(i as int)),
                    decreases args.len() - i,
                {
                    if i > 0 {
                        out.append(", ");
                    }
                    proof {
                        assert(a0[i as int] == pat_view(args@[i as int]));
                        assert(pat_size(pat_view(args@[i as int])) <= pats_size(a0));
                    }
                    append_pattern(out, &args[i]);
                    proof {
                        assert(a0.take(i + 1).drop_last() =~= a0.take(i as int));
                        if i > 0 {
                            assert(out@ =~= old(out)@ + path_chars(ids_view(path@)) + seq!['(']
                                + pat_list_chars(a0.take(i + 1)));
                        } else {
                            assert(out@ =~= old(out)@ + path_chars(ids_view(path@)) + seq!['(']
                                + pat_list_chars(a0.take(1)));
                        }
                    }
                    i += 1;
                }
                out.append(")");
                proof {
                    reveal_strlit(")");
                    assert(a0.take(a0.len() as int) =~= a0);
                    assert(out@ =~= old(out)@ + pat_chars(pat_view(*p)));
                }
            }
        },
        Pattern::Lit(l) => {
            append_lit(out, l);
        },
    }
}

/// The rendering of a pattern, as a fresh string.
pub fn render_pattern(p: &Pattern) -> (r: String)
    ensures
        r@ == pat_chars(pat_view(*p)),
{
    let mut out = String::new();
    append_pattern(&mut out, p);
    proof {
        assert(out@ =~= pat_chars(pat_view(*p)));
    }
    out
}

// ---------------------------------------------------------------------------
// Expressions and statements
// ---------------------------------------------------------------------------

/// The rendering of a binary operator.
pub open spec fn op_chars(op: BinOp) -> Seq<char> {
    match op {
        BinOp::Add => "+"@,
        BinOp::Sub => "-"@,
        BinOp::Mul => "*"@,
        BinOp::Rem => "%"@,
        BinOp::Eq => "=="@,
        BinOp::Ne => "!="@,
        BinOp::Lt => "<"@,
        BinOp::Le => "<="@,
        BinOp::Gt => ">"@,
        BinOp::Ge => ">="@,
        BinOp::And => "&&"@,
        BinOp::Or => "||"@,
    }
}

/// Append the rendering of a binary operator.
fn append_op(out: &mut String, op: BinOp)
    ensures
        final(out)@ == old(out)@ + op_chars(op),
{
    match op {
        BinOp::Add => out.append("+"),
        BinOp::Sub => out.append("-"),
        BinOp::Mul => out.append("*"),
        BinOp::Rem => out.append("%"),
        BinOp::Eq => out.append("=="),
        BinOp::Ne => out.append("!="),
        BinOp::Lt => out.append("<"),
        BinOp::Le => out.append("<="),
        BinOp::Gt => out.append(">"),
        BinOp::Ge => out.append(">="),
        BinOp::And => out.append("&&"),
        BinOp::Or => out.append("||"),
    }
}

/// The rendering of an expression.  Binary operations are parenthesized, so
/// no precedence is lost; everything else renders by shape.
pub open spec fn expr_chars(e: ExprV) -> Seq<char>
    decreases e,
{
    match e {
        ExprV::Var(x) => id_chars(x),
        ExprV::Path(p) => path_chars(p),
        ExprV::Lit(l) => lit_chars(l),
        ExprV::Call(f, args) => expr_chars(*f) + seq!['('] + expr_list_chars(args) + seq![')'],
        ExprV::MethodCall(recv, name, args) => expr_chars(*recv) + seq!['.'] + id_chars(name)
            + seq!['('] + expr_list_chars(args) + seq![')'],
        ExprV::Binary(op, a, b) => seq!['('] + expr_chars(*a) + seq![' '] + op_chars(op)
            + seq![' '] + expr_chars(*b) + seq![')'],
        ExprV::Pair(a, b) => seq!['('] + expr_chars(*a) + ", "@ + expr_chars(*b) + seq![')'],
        ExprV::Closure(params, body) => seq!['|'] + pat_list_chars(params) + "| "@ + expr_chars(
            *body,
        ),
        ExprV::Match(s, p, hit, miss) => "match "@ + expr_chars(*s) + " { "@ + pat_chars(*p)
            + " => "@ + expr_chars(*hit) + ", _ => "@ + expr_chars(*miss) + " }"@,
        ExprV::LetIn(p, rhs, body) => "{ let "@ + pat_chars(*p) + " = "@ + expr_chars(*rhs)
            + "; "@ + expr_chars(*body) + " }"@,
    }
}

/// The rendering of a comma-separated expression list.
pub open spec fn expr_list_chars(s: Seq<ExprV>) -> Seq<char>
    decreases s,
{
    if s.len() == 0 {
        Seq::empty()
    } else if s.len() == 1 {
        expr_chars(s[0])
    } else {
        expr_list_chars(s.drop_last()) + ", "@ + expr_chars(s.last())
    }
}

/// Append the rendering of a comma-separated pattern list.
#[verifier::loop_isolation(false)]
fn append_pat_list(out: &mut String, ps: &Vec<Pattern>)
    ensures
        final(out)@ == old(out)@ + pat_list_chars(pats_view(ps@)),
    decreases pats_size(pats_view(ps@)), 0nat,
{
    let ghost p0 = pats_view(ps@);
    let mut i: usize = 0;
    proof {
        assert(out@ =~= old(out)@ + pat_list_chars(p0.take(0)));
    }
    while i < ps.len()
        invariant
            0 <= i <= ps.len(),
            out@ == old(out)@ + pat_list_chars(p0.take(i as int)),
        decreases ps.len() - i,
    {
        if i > 0 {
            out.append(", ");
        }
        proof {
            assert(p0[i as int] == pat_view(ps@[i as int]));
            assert(pat_size(pat_view(ps@[i as int])) <= pats_size(p0));
        }
        append_pattern(out, &ps[i]);
        proof {
            assert(p0.take(i + 1).drop_last() =~= p0.take(i as int));
            if i > 0 {
                assert(out@ =~= old(out)@ + pat_list_chars(p0.take(i + 1)));
            } else {
                assert(out@ =~= old(out)@ + pat_list_chars(p0.take(1)));
            }
        }
        i += 1;
    }
    proof {
        assert(p0.take(p0.len() as int) =~= p0);
    }
}

/// Append the rendering of an expression.
#[verifier::loop_isolation(false)]
#[verifier::rlimit(100)]
pub fn append_expr(out: &mut String, e: &Expr)
    ensures
        final(out)@ == old(out)@ + expr_chars(expr_view(*e)),
    decreases expr_size(expr_view(*e)), 0nat,
{
    match e {
        Expr::Var(x) => {
            append_ident(out, x);
        },
        Expr::Path(p) => {
            append_path(out, p);
        },
        Expr::Lit(l) => {
            append_lit(out, l);
        },
        Expr::Call(f, args) => {
            append_expr(out, f);
            out.append("(");
            append_expr_list(out, args);
            out.append(")");
            proof {
                reveal_strlit("(");
                reveal_strlit(")");
                assert(out@ =~= old(out)@ + expr_chars(expr_view(*e)));
            }
        },
        Expr::MethodCall(recv, name, args) => {
            append_expr(out, recv);
            out.append(".");
            append_ident(out, name);
            out.append("(");
            append_expr_list(out, args);
            out.append(")");
            proof {
                reveal_strlit(".");
                reveal_strlit("(");
                reveal_strlit(")");
                assert(out@ =~= old(out)@ + expr_chars(expr_view(*e)));
            }
        },
        Expr::Binary(op, a, b) => {
            out.append("(");
            append_expr(out, a);
            out.append(" ");
            append_op(out, *op);
            out.append(" ");
            append_expr(out, b);
            out.append(")");
            proof {
                reveal_strlit("(");
                reveal_strlit(" ");
                reveal_strlit(")");
                assert(out@ =~= old(out)@ + expr_chars(expr_view(*e)));
            }
        },
        Expr::Pair(a, b) => {
            out.append("(");
            append_expr(out, a);
            out.append(", ");
            append_expr(out, b);
            out.append(")");
            proof {
                reveal_strlit("(");
                reveal_strlit(")");
                assert(out@ =~= old(out)@ + expr_chars(expr_view(*e)));
            }
        },
        Expr::Closure(params, body) => {
            out.append("|");
            append_pat_list(out, params);
            out.append("| ");
            append_expr(out, body);
            proof {
                reveal_strlit("|");
                assert(out@ =~= old(out)@ + expr_chars(expr_view(*e)));
            }
        },
        Expr::Match(s, p, hit, miss) => {
            out.append("match ");
            append_expr(out, s);
            out.append(" { ");
            append_pattern(out, p);
            out.append(" => ");
            append_expr(out, hit);
            out.append(", _ => ");
            append_expr(out, miss);
            out.append(" }");
            proof {
                assert(out@ =~= old(out)@ + expr_chars(expr_view(*e)));
            }
        },
        Expr::LetIn(p, rhs, body) => {
            out.append("{ let ");
            append_pattern(out, p);
            out.append(" = ");
            append_expr(out, rhs);
            out.append("; ");
            append_expr(out, body);
            out.append(" }");
            proof {
                assert(out@ =~= old(out)@ + expr_chars(expr_view(*e)));
            }
        },
    }
}

/// Append the rendering of a comma-separated expression list.
#[verifier::loop_isolation(false)]
fn append_expr_list(out: &mut String, args: &Vec<Expr>)
    ensures
        final(out)@ == old(out)@ + expr_list_chars(exprs_view(args@)),
    decreases exprs_size(exprs_view(args@)), 1nat,
{
    let ghost a0 = exprs_view(args@);
    let mut i: usize = 0;
    proof {
        assert(out@ =~= old(out)@ + expr_list_chars(a0.take(0)));
    }
    while i < args.len()
        invariant
            0 <= i <= args.len(),
            out@ == old(out)@ + expr_list_chars(a0.take(i as int)),
        decreases args.len() - i,
    {
        if i > 0 {
            out.append(", ");
        }
        proof {
            assert(a0[i as int] == expr_view(args@[i as int]));
            assert(expr_size(expr_view(args@[i as int])) <= exprs_size(a0));
        }
        append_expr(out, &args[i]);
        proof {
            assert(a0.take(i + 1).drop_last() =~= a0.take(i as int));
            if i > 0 {
                assert(out@ =~= old(out)@ + expr_list_chars(a0.take(i + 1)));
            } else {
                assert(out@ =~= old(out)@ + expr_list_chars(a0.take(1)));
            }
        }
        i += 1;
    }
    proof {
        assert(a0.take(a0.len() as int) =~= a0);
    }
}

impl Expr {
    /// The rendering of this expression, as a fresh string: the emitter's
    /// final step for a finished plan.
    pub fn render(&self) -> (r: String)
        ensures
            r@ == expr_chars(expr_view(*self)),
    {
        let mut out = String::new();
        append_expr(&mut out, self);
        proof {
            assert(out@ =~= expr_chars(expr_view(*self)));
        }
        out
    }
}

/// The rendering of a surface statement.
pub open spec fn stmt_chars(s: StmtV) -> Seq<char> {
    match s {
        StmtV::Return(e) => "return "@ + expr_chars(e),
        StmtV::Let(p, e) => "let "@ + pat_chars(p) + " = "@ + expr_chars(e),
        StmtV::Bind(irr, p, e) => (if irr {
            "~"@
        } else {
            Seq::empty()
        }) + pat_chars(p) + " <- "@ + expr_chars(e),
        StmtV::Expr(e) => expr_chars(e),
        StmtV::Guard(c) => "guard "@ + expr_chars(c),
    }
}

impl DoStatement {
    /// The rendering of this statement, as a fresh string.
    pub fn render(&self) -> (r: String)
        ensures
            r@ == stmt_chars(self@),
    {
        let mut out = String::new();
        match self {
            DoStatement::Return(rr) => {
                out.append("return ");
                append_expr(&mut out, &rr.expr);
            },
            DoStatement::Let(l) => {
                out.append("let ");
                append_pattern(&mut out, &l.pat);
                out.append(" = ");
                append_expr(&mut out, &l.expr);
            },
            DoStatement::Bind(b) => {
                if b.irrefutable {
                    out.append("~");
                }
                append_pattern(&mut out, &b.pat);
                out.append(" <- ");
                append_expr(&mut out, &b.body);
            },
            DoStatement::Expr(e) => {
                append_expr(&mut out, e);
            },
            DoStatement::Guard(g) => {
                out.append("guard ");
                append_expr(&mut out, &g.cond);
            },
        }
        proof {
            reveal_strlit("~");
            assert(out@ =~= stmt_chars(self@));
        }
        out
    }
}

impl Namespace {
    /// The rendering of the namespace path.
    pub fn render(&self) -> (r: String)
        ensures
            r@ == path_chars(self@),
    {
        let mut out = String::new();
        append_path(&mut out, &self.0);
        proof {
            assert(out@ =~= path_chars(self@));
        }
        out
    }
}

impl Return {
    /// The rendering of this statement.
    pub fn render(&self) -> (r: String)
        ensures
            r@ == "return "@ + expr_chars(expr_view(self.expr)),
    {
        let mut out: String = "return ".to_owned();
        append_expr(&mut out, &self.expr);
        proof {
            assert(out@ =~= "return "@ + expr_chars(expr_view(self.expr)));
        }
        out
    }
}

impl Let {
    /// The rendering of this statement.
    pub fn render(&self) -> (r: String)
        ensures
            r@ == "let "@ + pat_chars(pat_view(self.pat)) + " = "@ + expr_chars(
                expr_view(self.expr),
            ),
    {
        let mut out: String = "let ".to_owned();
        append_pattern(&mut out, &self.pat);
        out.append(" = ");
        append_expr(&mut out, &self.expr);
        proof {
            assert(out@ =~= "let "@ + pat_chars(pat_view(self.pat)) + " = "@ + expr_chars(
                expr_view(self.expr),
            ));
        }
        out
    }
}

impl Bind {
    /// The rendering of this statement, the irrefutability marker included.
    pub fn render(&self) -> (r: String)
        ensures
            r@ == (if self.irrefutable {
                "~"@
            } else {
                Seq::<char>::empty()
            }) + pat_chars(pat_view(self.pat)) + " <- "@ + expr_chars(expr_view(self.body)),
    {
        let mut out = String::new();
        if self.irrefutable {
            out.append("~");
        }
        append_pattern(&mut out, &self.pat);
        out.append(" <- ");
        append_expr(&mut out, &self.body);
        proof {
            reveal_strlit("~");
            assert(out@ =~= (if self.irrefutable {
                "~"@
            } else {
                Seq::<char>::empty()
            }) + pat_chars(pat_view(self.pat)) + " <- "@ + expr_chars(expr_view(self.body)));
        }
        out
    }
}

impl Guard {
    /// The rendering of this statement.
    pub fn render(&self) -> (r: String)
        ensures
            r@ == "guard "@ + expr_chars(expr_view(self.cond)),
    {
        let mut out: String = "guard ".to_owned();
        append_expr(&mut out, &self.cond);
        proof {
            assert(out@ =~= "guard "@ + expr_chars(expr_view(self.cond)));
        }
        out
    }
}

} // verus!
