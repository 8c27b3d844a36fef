//! The statement AST that a desugared block is built from, together with the
//! mathematical view of each node used by the contracts.
//!
//! A block (`QDo`) carries a namespace path, an ordered list of statements and
//! a trailing-terminator flag.  Statements, patterns and expressions are plain
//! recursive data; identifiers are either source names or synthetic names that
//! the desugaring engine invents, which by construction never collide with a
//! source name.

use vstd::prelude::*;

verus! {

// ---------------------------------------------------------------------------
// Identifiers
// ---------------------------------------------------------------------------

/// An identifier: either a name written in the source, or a synthetic
/// parameter name generated from a per-block counter.
#[derive(Debug)]
pub enum Ident {
    Named(String),
    Synth(u64),
}

/// Mathematical view of an identifier.
pub enum IdName {
    Name(Seq<char>),
    Synth(u64),
}

impl View for Ident {
    type V = IdName;

    open spec fn view(&self) -> IdName {
        match self {
            Ident::Named(s) => IdName::Name(s@),
            Ident::Synth(n) => IdName::Synth(*n),
        }
    }
}

impl Ident {
    /// Make a copy with the same view.
    pub fn dup(&self) -> (r: Ident)
        ensures
            r@ == self@,
    {
        match self {
            Ident::Named(s) => Ident::Named(s.clone()),
            Ident::Synth(n) => Ident::Synth(*n),
        }
    }
}

impl PartialEq for Ident {
    fn eq(&self, other: &Ident) -> (r: bool) {
        match (self, other) {
            (Ident::Named(a), Ident::Named(b)) => a.eq(b),
            (Ident::Synth(a), Ident::Synth(b)) => *a == *b,
            _ => false,
        }
    }
}

impl vstd::std_specs::cmp::PartialEqSpecImpl for Ident {
    open spec fn obeys_eq_spec() -> bool {
        true
    }

    open spec fn eq_spec(&self, other: &Ident) -> bool {
        self@ == other@
    }
}

/// View of a list of identifiers.
pub open spec fn ids_view(s: Seq<Ident>) -> Seq<IdName>
    decreases s,
{
    if s.len() == 0 {
        Seq::empty()
    } else {
        ids_view(s.drop_last()).push(s.last()@)
    }
}

pub broadcast proof fn lemma_ids_view(s: Seq<Ident>)
    ensures
        (#[trigger] ids_view(s)).len() == s.len(),
        forall|i: int| 0 <= i < s.len() ==> ids_view(s)[i] == s[i]@,
    decreases s,
{
    if s.len() > 0 {
        lemma_ids_view(s.drop_last());
    }
}

// ---------------------------------------------------------------------------
// Literals and operators
// ---------------------------------------------------------------------------

/// A literal value carried through a block unchanged.
#[derive(Debug, PartialEq)]
pub enum Lit {
    Num(i64),
    Flag(bool),
    Text(String),
    Unit,
}

/// Mathematical view of a literal.
pub enum LitV {
    Num(i64),
    Flag(bool),
    Text(Seq<char>),
    Unit,
}

impl View for Lit {
    type V = LitV;

    open spec fn view(&self) -> LitV {
        match self {
            Lit::Num(n) => LitV::Num(*n),
            Lit::Flag(b) => LitV::Flag(*b),
            Lit::Text(s) => LitV::Text(s@),
            Lit::Unit => LitV::Unit,
        }
    }
}

/// A binary operator occurring in a source expression.
#[derive(Clone, Copy, Debug, PartialEq, Eq, Structural)]
pub enum BinOp {
    Add,
    Sub,
    Mul,
    Rem,
    Eq,
    Ne,
    Lt,
    Le,
    Gt,
    Ge,
    And,
    Or,
}

// ---------------------------------------------------------------------------
// Patterns
// ---------------------------------------------------------------------------

/// A structural matcher introducing a set of identifiers.
#[derive(Debug, PartialEq)]
pub enum Pattern {
    /// A bare identifier; always matches.
    Ident(Ident),
    /// The wildcard `_`; always matches, introduces nothing.
    Wild,
    /// A pair `(p, q)`.
    Pair(Box<Pattern>, Box<Pattern>),
    /// A constructor application such as `Some(x)` or `Go::Go`; the path
    /// names the constructor, the arguments are sub-patterns.
    Ctor(Vec<Ident>, Vec<Pattern>),
    /// A literal pattern.
    Lit(Lit),
}

/// Mathematical view of a pattern.
pub enum PatternV {
    Ident(IdName),
    Wild,
    Pair(Box<PatternV>, Box<PatternV>),
    Ctor(Seq<IdName>, Seq<PatternV>),
    Lit(LitV),
}

pub open spec fn pat_view(p: Pattern) -> PatternV
    decreases p,
{
    match p {
        Pattern::Ident(x) => PatternV::Ident(x@),
        Pattern::Wild => PatternV::Wild,
        Pattern::Pair(a, b) => PatternV::Pair(Box::new(pat_view(*a)), Box::new(pat_view(*b))),
        Pattern::Ctor(path, args) => PatternV::Ctor(ids_view(path@), pats_view(args@)),
        Pattern::Lit(l) => PatternV::Lit(l@),
    }
}

pub open spec fn pats_view(s: Seq<Pattern>) -> Seq<PatternV>
    decreases s,
{
    if s.len() == 0 {
        Seq::empty()
    } else {
        pats_view(s.drop_last()).push(pat_view(s.last()))
    }
}

pub broadcast proof fn lemma_pats_view(s: Seq<Pattern>)
    ensures
        (#[trigger] pats_view(s)).len() == s.len(),
        forall|i: int| 0 <= i < s.len() ==> pats_view(s)[i] == pat_view(s[i]),
    decreases s,
{
    if s.len() > 0 {
        lemma_pats_view(s.drop_last());
    }
}

impl View for Pattern {
    type V = PatternV;

    open spec fn view(&self) -> PatternV {
        pat_view(*self)
    }
}

// ---------------------------------------------------------------------------
// Expressions
// ---------------------------------------------------------------------------

/// An expression: both the statements of a block and the composition that the
/// engine emits are built from this one grammar.
#[derive(Debug, PartialEq)]
pub enum Expr {
    /// A single-segment path; the only form that counts as a free variable.
    Var(Ident),
    /// A path of two or more segments, such as `Go::Go`; never a free
    /// variable.
    Path(Vec<Ident>),
    Lit(Lit),
    /// A call `f(a, b, ...)`.
    Call(Box<Expr>, Vec<Expr>),
    /// A method call `recv.name(a, b, ...)`.
    MethodCall(Box<Expr>, Ident, Vec<Expr>),
    Binary(BinOp, Box<Expr>, Box<Expr>),
    /// A pair `(a, b)`.
    Pair(Box<Expr>, Box<Expr>),
    /// A closure `|p, q| body`; the parameters bind inside the body only.
    Closure(Vec<Pattern>, Box<Expr>),
    /// A two-armed match `match scrutinee { pat => hit, _ => miss }`, the
    /// shape the engine emits for a refutable binding.
    Match(Box<Expr>, Box<Pattern>, Box<Expr>, Box<Expr>),
    /// A scope `{ let pat = bound; body }`.
    LetIn(Box<Pattern>, Box<Expr>, Box<Expr>),
}

/// Mathematical view of an expression.
pub enum ExprV {
    Var(IdName),
    Path(Seq<IdName>),
    Lit(LitV),
    Call(Box<ExprV>, Seq<ExprV>),
    MethodCall(Box<ExprV>, IdName, Seq<ExprV>),
    Binary(BinOp, Box<ExprV>, Box<ExprV>),
    Pair(Box<ExprV>, Box<ExprV>),
    Closure(Seq<PatternV>, Box<ExprV>),
    Match(Box<ExprV>, Box<PatternV>, Box<ExprV>, Box<ExprV>),
    LetIn(Box<PatternV>, Box<ExprV>, Box<ExprV>),
}

pub open spec fn expr_view(e: Expr) -> ExprV
    decreases e,
{
    match e {
        Expr::Var(x) => ExprV::Var(x@),
        Expr::Path(p) => ExprV::Path(ids_view(p@)),
        Expr::Lit(l) => ExprV::Lit(l@),
        Expr::Call(f, args) => ExprV::Call(Box::new(expr_view(*f)), exprs_view(args@)),
        Expr::MethodCall(recv, name, args) => ExprV::MethodCall(
            Box::new(expr_view(*recv)),
            name@,
            exprs_view(args@),
        ),
        Expr::Binary(op, a, b) => ExprV::Binary(
            op,
            Box::new(expr_view(*a)),
            Box::new(expr_view(*b)),
        ),
        Expr::Pair(a, b) => ExprV::Pair(Box::new(expr_view(*a)), Box::new(expr_view(*b))),
        Expr::Closure(params, body) => ExprV::Closure(
            pats_view(params@),
            Box::new(expr_view(*body)),
        ),
        Expr::Match(s, p, hit, miss) => ExprV::Match(
            Box::new(expr_view(*s)),
            Box::new(pat_view(*p)),
            Box::new(expr_view(*hit)),
            Box::new(expr_view(*miss)),
        ),
        Expr::LetIn(p, bound, body) => ExprV::LetIn(
            Box::new(pat_view(*p)),
            Box::new(expr_view(*bound)),
            Box::new(expr_view(*body)),
        ),
    }
}

pub open spec fn exprs_view(s: Seq<Expr>) -> Seq<ExprV>
    decreases s,
{
    if s.len() == 0 {
        Seq::empty()
    } else {
        exprs_view(s.drop_last()).push(expr_view(s.last()))
    }
}

pub broadcast proof fn lemma_exprs_view(s: Seq<Expr>)
    ensures
        (#[trigger] exprs_view(s)).len() == s.len(),
        forall|i: int| 0 <= i < s.len() ==> exprs_view(s)[i] == expr_view(s[i]),
    decreases s,
{
    if s.len() > 0 {
        lemma_exprs_view(s.drop_last());
    }
}

impl View for Expr {
    type V = ExprV;

    open spec fn view(&self) -> ExprV {
        expr_view(*self)
    }
}

// ---------------------------------------------------------------------------
// Node counts, used as termination measures by the recursive passes
// ---------------------------------------------------------------------------

pub open spec fn pat_size(p: PatternV) -> nat
    decreases p,
{
    match p {
        PatternV::Ident(_) => 1,
        PatternV::Wild => 1,
        PatternV::Pair(a, b) => 1 + pat_size(*a) + pat_size(*b),
        PatternV::Ctor(_, args) => 1 + pats_size(args),
        PatternV::Lit(_) => 1,
    }
}

pub open spec fn pats_size(s: Seq<PatternV>) -> nat
    decreases s,
{
    if s.len() == 0 {
        0
    } else {
        pats_size(s.drop_last()) + pat_size(s.last())
    }
}

pub broadcast proof fn lemma_pats_size(s: Seq<PatternV>, i: int)
    requires
        0 <= i < s.len(),
    ensures
        #[trigger] pat_size(s[i]) <= pats_size(s),
    decreases s,
{
    if i < s.len() - 1 {
        lemma_pats_size(s.drop_last(), i);
        assert(s.drop_last()[i] == s[i]);
    }
}

pub open spec fn expr_size(e: ExprV) -> nat
    decreases e,
{
    match e {
        ExprV::Var(_) => 1,
        ExprV::Path(_) => 1,
        ExprV::Lit(_) => 1,
        ExprV::Call(f, args) => 1 + expr_size(*f) + exprs_size(args),
        ExprV::MethodCall(recv, _, args) => 1 + expr_size(*recv) + exprs_size(args),
        ExprV::Binary(_, a, b) => 1 + expr_size(*a) + expr_size(*b),
        ExprV::Pair(a, b) => 1 + expr_size(*a) + expr_size(*b),
        ExprV::Closure(params, body) => 1 + pats_size(params) + expr_size(*body),
        ExprV::Match(s, p, hit, miss) => 1 + expr_size(*s) + pat_size(*p) + expr_size(*hit)
            + expr_size(*miss),
        ExprV::LetIn(p, rhs, body) => 1 + pat_size(*p) + expr_size(*rhs) + expr_size(*body),
    }
}

pub open spec fn exprs_size(s: Seq<ExprV>) -> nat
    decreases s,
{
    if s.len() == 0 {
        0
    } else {
        exprs_size(s.drop_last()) + expr_size(s.last())
    }
}

pub broadcast proof fn lemma_exprs_size(s: Seq<ExprV>, i: int)
    requires
        0 <= i < s.len(),
    ensures
        #[trigger] expr_size(s[i]) <= exprs_size(s),
    decreases s,
{
    if i < s.len() - 1 {
        lemma_exprs_size(s.drop_last(), i);
        assert(s.drop_last()[i] == s[i]);
    }
}

// ---------------------------------------------------------------------------
// Statements and blocks
// ---------------------------------------------------------------------------

/// A `return expr` statement.
pub struct Return {
    pub expr: Expr,
}

/// A `let pat = expr` statement.
pub struct Let {
    pub pat: Pattern,
    pub expr: Expr,
}

/// A `pat <- body` statement; `irrefutable` records an explicit marker that
/// promises the pattern always matches.
pub struct Bind {
    pub irrefutable: bool,
    pub pat: Pattern,
    pub body: Expr,
}

/// A `guard cond` statement.
pub struct Guard {
    pub cond: Expr,
}

/// One statement of a block.
pub enum DoStatement {
    Return(Return),
    Let(Let),
    Bind(Bind),
    Expr(Expr),
    Guard(Guard),
}

/// Mathematical view of a statement.
pub enum StmtV {
    Return(ExprV),
    Let(PatternV, ExprV),
    Bind(bool, PatternV, ExprV),
    Expr(ExprV),
    Guard(ExprV),
}

impl View for DoStatement {
    type V = StmtV;

    open spec fn view(&self) -> StmtV {
        match self {
            DoStatement::Return(r) => StmtV::Return(expr_view(r.expr)),
            DoStatement::Let(l) => StmtV::Let(pat_view(l.pat), expr_view(l.expr)),
            DoStatement::Bind(b) => StmtV::Bind(b.irrefutable, pat_view(b.pat), expr_view(b.body)),
            DoStatement::Expr(e) => StmtV::Expr(expr_view(*e)),
            DoStatement::Guard(g) => StmtV::Guard(expr_view(g.cond)),
        }
    }
}

pub open spec fn stmts_view(s: Seq<DoStatement>) -> Seq<StmtV>
    decreases s,
{
    if s.len() == 0 {
        Seq::empty()
    } else {
        stmts_view(s.drop_last()).push(s.last()@)
    }
}

pub broadcast proof fn lemma_stmts_view(s: Seq<DoStatement>)
    ensures
        (#[trigger] stmts_view(s)).len() == s.len(),
        forall|i: int| 0 <= i < s.len() ==> stmts_view(s)[i] == s[i]@,
    decreases s,
{
    if s.len() > 0 {
        lemma_stmts_view(s.drop_last());
    }
}

/// The spec-level body of a statement: the expression the statement evaluates.
pub open spec fn stmt_body(s: StmtV) -> ExprV {
    match s {
        StmtV::Return(e) => e,
        StmtV::Let(_, e) => e,
        StmtV::Bind(_, _, e) => e,
        StmtV::Expr(e) => e,
        StmtV::Guard(e) => e,
    }
}

/// The spec-level binder of a statement: the pattern it introduces, if any.
pub open spec fn stmt_binder(s: StmtV) -> Option<PatternV> {
    match s {
        StmtV::Let(p, _) => Some(p),
        StmtV::Bind(_, p, _) => Some(p),
        _ => None,
    }
}

/// The spec-level irrefutability marker of a statement.
pub open spec fn stmt_marked_irrefutable(s: StmtV) -> bool {
    match s {
        StmtV::Bind(irr, _, _) => irr,
        _ => false,
    }
}

impl DoStatement {
    /// The pattern this statement binds, if it binds one.
    pub fn binder(&self) -> (r: Option<&Pattern>)
        ensures
            match r {
                Some(p) => stmt_binder(self@) == Some(pat_view(*p)),
                None => stmt_binder(self@) is None,
            },
    {
        match self {
            DoStatement::Bind(b) => Some(&b.pat),
            DoStatement::Let(l) => Some(&l.pat),
            _ => None,
        }
    }

    /// Whether this statement carries the explicit irrefutability marker.
    pub fn irrefutable(&self) -> (r: bool)
        ensures
            r == stmt_marked_irrefutable(self@),
    {
        match self {
            DoStatement::Bind(b) => b.irrefutable,
            _ => false,
        }
    }

    /// The expression this statement evaluates.
    pub fn body(&self) -> (r: &Expr)
        ensures
            expr_view(*r) == stmt_body(self@),
    {
        match self {
            DoStatement::Bind(b) => &b.body,
            DoStatement::Let(l) => &l.expr,
            DoStatement::Return(r) => &r.expr,
            DoStatement::Expr(e) => e,
            DoStatement::Guard(g) => &g.cond,
        }
    }
}

/// The path naming the combinator-protocol implementation a block targets.
pub struct Namespace(pub Vec<Ident>);

impl View for Namespace {
    type V = Seq<IdName>;

    open spec fn view(&self) -> Seq<IdName> {
        ids_view(self.0@)
    }
}

/// A whole block: namespace, ordered statements, trailing-terminator flag.
pub struct QDo {
    pub namespace: Namespace,
    pub statements: Vec<DoStatement>,
    pub trailing_semi: bool,
}

/// Mathematical view of a block.
pub struct QDoV {
    pub namespace: Seq<IdName>,
    pub statements: Seq<StmtV>,
    pub trailing_semi: bool,
}

impl View for QDo {
    type V = QDoV;

    open spec fn view(&self) -> QDoV {
        QDoV {
            namespace: self.namespace@,
            statements: stmts_view(self.statements@),
            trailing_semi: self.trailing_semi,
        }
    }
}

// ---------------------------------------------------------------------------
// Shape errors
// ---------------------------------------------------------------------------

/// A desugar-time shape error, fatal to the block it names.
#[derive(Clone, Copy, PartialEq, Eq, Structural, Debug)]
pub enum ShapeError {
    /// The block holds no statement at all.
    EmptyBlock,
    /// A non-terminated block whose last statement is neither `return` nor a
    /// bare expression.
    NonExprTerminal,
}

} // verus!
