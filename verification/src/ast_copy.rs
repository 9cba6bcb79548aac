//! Deep copies of Dafny syntax trees: each copy has the model of the tree it
//! copies.
use vstd::prelude::*;

use crate::dafny_ast::{
    case_view, cases_view, expr_view, exprs_view, lemma_cases_view_prefix, lemma_exprs_view_prefix,
    lemma_patterns_view_prefix, lemma_stmts_view_prefix, lemma_types_view_prefix, lhs_view,
    literal_view, opt_expr_view, pattern_view, patterns_view, primary_view, quantifier_view,
    qvars_view, stmt_view, stmts_view, type_view, types_view, Assign, Block, Call, Case, Expr,
    ForLoop, IfElse, Lhs, Literal, Match, Pattern, PrimaryExpr, Quantifier, QuantifierVar, Stmt,
    Type, Var, WhileLoop,
};

verus! {

/// A copy of a type.
pub fn copy_type(t: &Type) -> (r: Type)
    ensures
        type_view(r) == type_view(*t),
    decreases t, 1int,
{
    match t {
        Type::Int => Type::Int,
        Type::Bool => Type::Bool,
        Type::Real => Type::Real,
        Type::Bv(n) => Type::Bv(*n),
        Type::SetOf(inner) => Type::SetOf(Box::new(copy_type(inner))),
        Type::SeqOf(inner) => Type::SeqOf(Box::new(copy_type(inner))),
        Type::Array(inner) => Type::Array(Box::new(copy_type(inner))),
        Type::Named(name) => Type::Named(name.clone()),
        Type::Function(args, ret) => Type::Function(copy_types(args), Box::new(copy_type(ret))),
    }
}

/// A copy of a vector of types.
pub fn copy_types(v: &Vec<Type>) -> (r: Vec<Type>)
    ensures
        types_view(r@) == types_view(v@),
    decreases v, 0int,
{
    let mut r: Vec<Type> = Vec::new();
    let n = v.len();
    let mut i: usize = 0;
    while i < n
        invariant
            n == v@.len(),
            i <= n,
            types_view(r@) == types_view(v@.subrange(0, i as int)),
        decreases n - i,
    {
        let t = copy_type(&v[i]);
        proof {
            lemma_types_view_prefix(v@, i as int);
            assert(r@.push(t).drop_last() =~= r@);
        }
        r.push(t);
        i = i + 1;
    }
    assert(v@.subrange(0, n as int) =~= v@);
    r
}

/// A copy of an expression.
pub fn copy_expr(e: &Expr) -> (r: Expr)
    ensures
        expr_view(r) == expr_view(*e),
    decreases e, 1int,
{
    match e {
        Expr::LogicalOr(l, r) => Expr::LogicalOr(Box::new(copy_expr(l)), Box::new(copy_expr(r))),
        Expr::LogicalAnd(l, r) => Expr::LogicalAnd(Box::new(copy_expr(l)), Box::new(copy_expr(r))),
        Expr::Equality(op, l, r) => Expr::Equality(
            *op,
            Box::new(copy_expr(l)),
            Box::new(copy_expr(r)),
        ),
        Expr::Comparison(op, l, r) => Expr::Comparison(
            *op,
            Box::new(copy_expr(l)),
            Box::new(copy_expr(r)),
        ),
        Expr::BitwiseOr(l, r) => Expr::BitwiseOr(Box::new(copy_expr(l)), Box::new(copy_expr(r))),
        Expr::BitwiseXor(l, r) => Expr::BitwiseXor(Box::new(copy_expr(l)), Box::new(copy_expr(r))),
        Expr::BitwiseAnd(l, r) => Expr::BitwiseAnd(Box::new(copy_expr(l)), Box::new(copy_expr(r))),
        Expr::Shift(op, l, r) => Expr::Shift(*op, Box::new(copy_expr(l)), Box::new(copy_expr(r))),
        Expr::Additive(op, l, r) => Expr::Additive(
            *op,
            Box::new(copy_expr(l)),
            Box::new(copy_expr(r)),
        ),
        Expr::Mult(op, l, r) => Expr::Mult(*op, Box::new(copy_expr(l)), Box::new(copy_expr(r))),
        Expr::Unary(op, x) => Expr::Unary(*op, Box::new(copy_expr(x))),
        Expr::Primary(p) => Expr::Primary(copy_primary(p)),
        Expr::Forall(q, x) => Expr::Forall(copy_quantifier(q), Box::new(copy_expr(x))),
        Expr::Exists(q, x) => Expr::Exists(copy_quantifier(q), Box::new(copy_expr(x))),
        Expr::IfThenElse(c, t, f) => Expr::IfThenElse(
            Box::new(copy_expr(c)),
            Box::new(copy_expr(t)),
            Box::new(copy_expr(f)),
        ),
        Expr::ArrayInit(dims, ty) => Expr::ArrayInit(copy_exprs(dims), copy_type(ty)),
    }
}

/// A copy of a vector of expressions.
pub fn copy_exprs(v: &Vec<Expr>) -> (r: Vec<Expr>)
    ensures
        exprs_view(r@) == exprs_view(v@),
    decreases v, 0int,
{
    let mut r: Vec<Expr> = Vec::new();
    let n = v.len();
    let mut i: usize = 0;
    while i < n
        invariant
            n == v@.len(),
            i <= n,
            exprs_view(r@) == exprs_view(v@.subrange(0, i as int)),
        decreases n - i,
    {
        let x = copy_expr(&v[i]);
        proof {
            lemma_exprs_view_prefix(v@, i as int);
            assert(r@.push(x).drop_last() =~= r@);
        }
        r.push(x);
        i = i + 1;
    }
    assert(v@.subrange(0, n as int) =~= v@);
    r
}

fn copy_primary(p: &PrimaryExpr) -> (r: PrimaryExpr)
    ensures
        primary_view(r) == primary_view(*p),
    decreases p, 1int,
{
    match p {
        PrimaryExpr::Literal(l) => PrimaryExpr::Literal(copy_literal(l)),
        PrimaryExpr::Identifier(name) => PrimaryExpr::Identifier(name.clone()),
        PrimaryExpr::Call(f, args) => PrimaryExpr::Call(Box::new(copy_expr(f)), copy_exprs(args)),
        PrimaryExpr::Index(a, i) => PrimaryExpr::Index(Box::new(copy_expr(a)), Box::new(copy_expr(i))),
        PrimaryExpr::MemberAccess(o, name) => PrimaryExpr::MemberAccess(
            Box::new(copy_expr(o)),
            name.clone(),
        ),
    }
}

fn copy_literal(l: &Literal) -> (r: Literal)
    ensures
        literal_view(r) == literal_view(*l),
    decreases l, 1int,
{
    match l {
        Literal::Integer(s) => Literal::Integer(s.clone()),
        Literal::Boolean(b) => Literal::Boolean(*b),
        Literal::Null => Literal::Null,
        Literal::Sequence(items) => Literal::Sequence(copy_exprs(items)),
        Literal::Star => Literal::Star,
        Literal::This => Literal::This,
        Literal::Real(s) => Literal::Real(s.clone()),
    }
}

fn copy_quantifier(q: &Quantifier) -> (r: Quantifier)
    ensures
        quantifier_view(r) == quantifier_view(*q),
    decreases q, 1int,
{
    let mut vars: Vec<QuantifierVar> = Vec::new();
    let n = q.variables.len();
    let mut i: usize = 0;
    while i < n
        invariant
            n == q.variables@.len(),
            i <= n,
            qvars_view(vars@) == qvars_view(q.variables@.subrange(0, i as int)),
        decreases n - i,
    {
        let v = &q.variables[i];
        let c = QuantifierVar { id: v.id.clone(), type_: copy_type(&v.type_) };
        proof {
            assert(q.variables@.subrange(0, i + 1).drop_last() =~= q.variables@.subrange(0, i as int));
            assert(vars@.push(c).drop_last() =~= vars@);
        }
        vars.push(c);
        i = i + 1;
    }
    assert(q.variables@.subrange(0, n as int) =~= q.variables@);
    let condition = match &q.condition {
        Some(c) => Some(Box::new(copy_expr(c))),
        None => None,
    };
    Quantifier { variables: vars, condition }
}

impl Clone for Type {
    fn clone(&self) -> (r: Self)
        ensures
            r@ == self@,
    {
        copy_type(self)
    }
}

impl Clone for Expr {
    fn clone(&self) -> (r: Self)
        ensures
            r@ == self@,
    {
        copy_expr(self)
    }
}

impl Clone for Stmt {
    fn clone(&self) -> (r: Self)
        ensures
            r@ == self@,
    {
        copy_stmt(self)
    }
}

impl Clone for Pattern {
    fn clone(&self) -> (r: Self)
        ensures
            pattern_view(r) == pattern_view(*self),
    {
        copy_pattern(self)
    }
}

fn copy_lhs(l: &Lhs) -> (r: Lhs)
    ensures
        lhs_view(r) == lhs_view(*l),
{
    match l {
        Lhs::Identifier(name) => Lhs::Identifier(name.clone()),
        Lhs::MemberAccess(o, f) => Lhs::MemberAccess(Box::new(copy_expr(o)), f.clone()),
        Lhs::Index(a, i) => Lhs::Index(Box::new(copy_expr(a)), Box::new(copy_expr(i))),
    }
}

fn copy_opt_expr(e: &Option<Expr>) -> (r: Option<Expr>)
    ensures
        opt_expr_view(r) == opt_expr_view(*e),
{
    match e {
        Some(x) => Some(copy_expr(x)),
        None => None,
    }
}

/// A copy of a pattern.
pub fn copy_pattern(p: &Pattern) -> (r: Pattern)
    ensures
        pattern_view(r) == pattern_view(*p),
    decreases p, 1int,
{
    match p {
        Pattern::Identifier(name) => Pattern::Identifier(name.clone()),
        Pattern::Constructor(name, subs) => Pattern::Constructor(name.clone(), copy_patterns(subs)),
    }
}

fn copy_patterns(v: &Vec<Pattern>) -> (r: Vec<Pattern>)
    ensures
        patterns_view(r@) == patterns_view(v@),
    decreases v, 0int,
{
    let mut r: Vec<Pattern> = Vec::new();
    let n = v.len();
    let mut i: usize = 0;
    while i < n
        invariant
            n == v@.len(),
            i <= n,
            patterns_view(r@) == patterns_view(v@.subrange(0, i as int)),
        decreases n - i,
    {
        let x = copy_pattern(&v[i]);
        proof {
            lemma_patterns_view_prefix(v@, i as int);
            assert(r@.push(x).drop_last() =~= r@);
        }
        r.push(x);
        i = i + 1;
    }
    assert(v@.subrange(0, n as int) =~= v@);
    r
}

/// A copy of a statement.
pub fn copy_stmt(s: &Stmt) -> (r: Stmt)
    ensures
        stmt_view(r) == stmt_view(*s),
    decreases s, 1int,
{
    match s {
        Stmt::Assign(a) => Stmt::Assign(Assign { lhs: copy_lhs(&a.lhs), expr: copy_expr(&a.expr) }),
        Stmt::IfElse(ie) => {
            let else_block = match &ie.else_block {
                Some(b) => Some(Block { stmts: copy_stmts(&b.stmts) }),
                None => None,
            };
            Stmt::IfElse(
                IfElse {
                    cond: copy_expr(&ie.cond),
                    then_block: Block { stmts: copy_stmts(&ie.then_block.stmts) },
                    else_block,
                },
            )
        },
        Stmt::WhileLoop(w) => Stmt::WhileLoop(
            WhileLoop {
                cond: copy_expr(&w.cond),
                invariants: copy_exprs(&w.invariants),
                decreases: copy_exprs(&w.decreases),
                block: Block { stmts: copy_stmts(&w.block.stmts) },
            },
        ),
        Stmt::ForLoop(f) => Stmt::ForLoop(
            ForLoop {
                id: f.id.clone(),
                start: copy_expr(&f.start),
                end: copy_expr(&f.end),
                block: Block { stmts: copy_stmts(&f.block.stmts) },
            },
        ),
        Stmt::Match(m) => Stmt::Match(Match { expr: copy_expr(&m.expr), cases: copy_cases(&m.cases) }),
        Stmt::Assert(e) => Stmt::Assert(copy_expr(e)),
        Stmt::Print(e) => Stmt::Print(copy_expr(e)),
        Stmt::Return(e) => Stmt::Return(copy_opt_expr(e)),
        Stmt::DeclVar(v) => Stmt::DeclVar(
            Var { id: v.id.clone(), type_: copy_type(&v.type_), init: copy_opt_expr(&v.init) },
        ),
        Stmt::Break => Stmt::Break,
        Stmt::Continue => Stmt::Continue,
        Stmt::Assume(e) => Stmt::Assume(copy_expr(e)),
        Stmt::Call(c) => Stmt::Call(Call { id: c.id.clone(), args: copy_exprs(&c.args) }),
    }
}

/// A copy of a vector of statements.
pub fn copy_stmts(v: &Vec<Stmt>) -> (r: Vec<Stmt>)
    ensures
        stmts_view(r@) == stmts_view(v@),
    decreases v, 0int,
{
    let mut r: Vec<Stmt> = Vec::new();
    let n = v.len();
    let mut i: usize = 0;
    while i < n
        invariant
            n == v@.len(),
            i <= n,
            stmts_view(r@) == stmts_view(v@.subrange(0, i as int)),
        decreases n - i,
    {
        let x = copy_stmt(&v[i]);
        proof {
            lemma_stmts_view_prefix(v@, i as int);
            assert(r@.push(x).drop_last() =~= r@);
        }
        r.push(x);
        i = i + 1;
    }
    assert(v@.subrange(0, n as int) =~= v@);
    r
}

fn copy_cases(v: &Vec<Case>) -> (r: Vec<Case>)
    ensures
        cases_view(r@) == cases_view(v@),
    decreases v, 0int,
{
    let mut r: Vec<Case> = Vec::new();
    let n = v.len();
    let mut i: usize = 0;
    while i < n
        invariant
            n == v@.len(),
            i <= n,
            cases_view(r@) == cases_view(v@.subrange(0, i as int)),
        decreases n - i,
    {
        let c = &v[i];
        let x = Case { pattern: copy_pattern(&c.pattern), stmts: copy_stmts(&c.stmts) };
        assert(case_view(x) == case_view(*c));
        proof {
            lemma_cases_view_prefix(v@, i as int);
            assert(r@.push(x).drop_last() =~= r@);
        }
        r.push(x);
        i = i + 1;
    }
    assert(v@.subrange(0, n as int) =~= v@);
    r
}

} // verus!
