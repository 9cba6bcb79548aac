//! Decides whether the printer renders a program: no expression or
//! statement it has no text for, and no indentation level past the largest
//! machine integer.
use vstd::prelude::*;

use crate::dafny_ast::{
    case_view, cases_view, class_view, constructor_view, datatype_view, declaration_view,
    expr_view, exprs_view, function_view, lemma_cases_view, lemma_exprs_view, lemma_stmts_view,
    lhs_view, literal_view, method_view, opt_expr_view, predicate_view, primary_view, stmt_view,
    stmts_view, Case, ClassDecl, ConstructorDecl, DatatypeDecl, Declaration, Expr, FunctionDecl,
    Lhs, Literal, MethodDecl, PredicateDecl, PrimaryExpr, Program, Stmt,
};
use crate::printer_spec::{
    printable_block, printable_case, printable_cases, printable_class, printable_constructor,
    printable_datatype, printable_declaration, printable_expr, printable_exprs,
    printable_function, printable_lhs, printable_literal, printable_method, printable_opt_expr,
    printable_predicate, printable_primary, printable_program, printable_stmt,
};

verus! {

fn expr_ok(e: &Expr) -> (r: bool)
    ensures
        r == printable_expr(expr_view(*e)),
    decreases e,
{
    match e {
        Expr::LogicalOr(l, r) => expr_ok(l) && expr_ok(r),
        Expr::LogicalAnd(l, r) => expr_ok(l) && expr_ok(r),
        Expr::Equality(_, l, r) => expr_ok(l) && expr_ok(r),
        Expr::Comparison(_, l, r) => expr_ok(l) && expr_ok(r),
        Expr::BitwiseOr(l, r) => expr_ok(l) && expr_ok(r),
        Expr::BitwiseXor(l, r) => expr_ok(l) && expr_ok(r),
        Expr::BitwiseAnd(l, r) => expr_ok(l) && expr_ok(r),
        Expr::Shift(_, l, r) => expr_ok(l) && expr_ok(r),
        Expr::Additive(_, l, r) => expr_ok(l) && expr_ok(r),
        Expr::Mult(_, l, r) => expr_ok(l) && expr_ok(r),
        Expr::Unary(_, x) => expr_ok(x),
        Expr::Primary(p) => primary_ok(p),
        Expr::IfThenElse(c, t, f) => expr_ok(c) && expr_ok(t) && expr_ok(f),
        Expr::Forall(..) => false,
        Expr::Exists(..) => false,
        Expr::ArrayInit(dims, _) => exprs_ok(dims),
    }
}

fn exprs_ok(v: &Vec<Expr>) -> (r: bool)
    ensures
        r == printable_exprs(exprs_view(v@)),
    decreases v,
{
    proof {
        lemma_exprs_view(v@);
    }
    let ghost s = exprs_view(v@);
    let n = v.len();
    let mut ok = true;
    let mut i: usize = 0;
    assert(s.subrange(0, 0) =~= Seq::<crate::dafny_ast::ExprView>::empty());
    while i < n
        invariant
            n == v@.len(),
            i <= n,
            s == exprs_view(v@),
            s.len() == n,
            forall|j: int| 0 <= j < n ==> #[trigger] s[j] == expr_view(v@[j]),
            ok == printable_exprs(s.subrange(0, i as int)),
        decreases n - i,
    {
        assert(s.subrange(0, i + 1).drop_last() =~= s.subrange(0, i as int));
        assert(s.subrange(0, i + 1).last() == s[i as int]);
        ok = ok && expr_ok(&v[i]);
        i = i + 1;
    }
    assert(s.subrange(0, n as int) =~= s);
    ok
}

fn primary_ok(p: &PrimaryExpr) -> (r: bool)
    ensures
        r == printable_primary(primary_view(*p)),
    decreases p,
{
    match p {
        PrimaryExpr::Literal(l) => literal_ok(l),
        PrimaryExpr::Identifier(_) => true,
        PrimaryExpr::Index(a, i) => expr_ok(a) && expr_ok(i),
        PrimaryExpr::MemberAccess(o, _) => expr_ok(o),
        PrimaryExpr::Call(f, args) => expr_ok(f) && exprs_ok(args),
    }
}

fn literal_ok(l: &Literal) -> (r: bool)
    ensures
        r == printable_literal(literal_view(*l)),
    decreases l,
{
    match l {
        Literal::Sequence(items) => exprs_ok(items),
        _ => true,
    }
}

fn opt_expr_ok(e: &Option<Expr>) -> (r: bool)
    ensures
        r == printable_opt_expr(opt_expr_view(*e)),
{
    match e {
        Some(x) => expr_ok(x),
        None => true,
    }
}

fn lhs_ok(l: &Lhs) -> (r: bool)
    ensures
        r == printable_lhs(lhs_view(*l)),
{
    match l {
        Lhs::Identifier(_) => true,
        Lhs::MemberAccess(o, _) => expr_ok(o),
        Lhs::Index(a, i) => expr_ok(a) && expr_ok(i),
    }
}

fn stmt_ok(s: &Stmt, k: usize) -> (r: bool)
    ensures
        r == printable_stmt(stmt_view(*s), k as nat),
    decreases s,
{
    match s {
        Stmt::Assign(a) => lhs_ok(&a.lhs) && expr_ok(&a.expr),
        Stmt::IfElse(ie) => {
            if k >= usize::MAX - 1 {
                return false;
            }
            let els = match &ie.else_block {
                Some(b) => block_ok(&b.stmts, k + 1),
                None => true,
            };
            expr_ok(&ie.cond) && block_ok(&ie.then_block.stmts, k + 1) && els
        },
        Stmt::WhileLoop(w) => {
            if k >= usize::MAX - 1 {
                return false;
            }
            expr_ok(&w.cond) && exprs_ok(&w.invariants) && exprs_ok(&w.decreases) && block_ok(
                &w.block.stmts,
                k + 1,
            )
        },
        Stmt::ForLoop(f) => {
            if k >= usize::MAX - 1 {
                return false;
            }
            expr_ok(&f.start) && expr_ok(&f.end) && block_ok(&f.block.stmts, k + 1)
        },
        Stmt::Match(m) => {
            if k >= usize::MAX - 1 {
                return false;
            }
            expr_ok(&m.expr) && cases_ok(&m.cases, k + 1)
        },
        Stmt::Assert(e) => expr_ok(e),
        Stmt::Print(e) => expr_ok(e),
        Stmt::Return(e) => opt_expr_ok(e),
        Stmt::DeclVar(v) => opt_expr_ok(&v.init),
        Stmt::Break => true,
        Stmt::Continue => true,
        Stmt::Assume(e) => expr_ok(e),
        Stmt::Call(c) => exprs_ok(&c.args),
    }
}

fn block_ok(v: &Vec<Stmt>, k: usize) -> (r: bool)
    ensures
        r == printable_block(stmts_view(v@), k as nat),
    decreases v,
{
    proof {
        lemma_stmts_view(v@);
    }
    let ghost s = stmts_view(v@);
    let n = v.len();
    let mut ok = true;
    let mut i: usize = 0;
    assert(s.subrange(0, 0) =~= Seq::<crate::dafny_ast::StmtView>::empty());
    while i < n
        invariant
            n == v@.len(),
            i <= n,
            s == stmts_view(v@),
            s.len() == n,
            forall|j: int| 0 <= j < n ==> #[trigger] s[j] == stmt_view(v@[j]),
            ok == printable_block(s.subrange(0, i as int), k as nat),
        decreases n - i,
    {
        assert(s.subrange(0, i + 1).drop_last() =~= s.subrange(0, i as int));
        assert(s.subrange(0, i + 1).last() == s[i as int]);
        ok = ok && stmt_ok(&v[i], k);
        i = i + 1;
    }
    assert(s.subrange(0, n as int) =~= s);
    ok
}

fn case_ok(c: &Case, k: usize) -> (r: bool)
    ensures
        r == printable_case(case_view(*c), k as nat),
    decreases c,
{
    if k >= usize::MAX - 1 {
        return false;
    }
    block_ok(&c.stmts, k + 1)
}

fn cases_ok(v: &Vec<Case>, k: usize) -> (r: bool)
    ensures
        r == printable_cases(cases_view(v@), k as nat),
    decreases v,
{
    proof {
        lemma_cases_view(v@);
    }
    let ghost s = cases_view(v@);
    let n = v.len();
    let mut ok = true;
    let mut i: usize = 0;
    assert(s.subrange(0, 0) =~= Seq::<crate::dafny_ast::CaseView>::empty());
    while i < n
        invariant
            n == v@.len(),
            i <= n,
            s == cases_view(v@),
            s.len() == n,
            forall|j: int| 0 <= j < n ==> #[trigger] s[j] == case_view(v@[j]),
            ok == printable_cases(s.subrange(0, i as int), k as nat),
        decreases n - i,
    {
        assert(s.subrange(0, i + 1).drop_last() =~= s.subrange(0, i as int));
        assert(s.subrange(0, i + 1).last() == s[i as int]);
        ok = ok && case_ok(&v[i], k);
        i = i + 1;
    }
    assert(s.subrange(0, n as int) =~= s);
    ok
}

fn method_ok(m: &MethodDecl, k: usize) -> (r: bool)
    ensures
        r == printable_method(method_view(*m), k as nat),
{
    if k >= usize::MAX - 1 {
        return false;
    }
    exprs_ok(&m.requires) && exprs_ok(&m.ensures) && exprs_ok(&m.decreases) && exprs_ok(
        &m.modifies,
    ) && block_ok(&m.block.stmts, k + 1)
}

fn function_ok(f: &FunctionDecl, k: usize) -> (r: bool)
    ensures
        r == printable_function(function_view(*f), k as nat),
{
    if k >= usize::MAX - 1 {
        return false;
    }
    exprs_ok(&f.requires) && exprs_ok(&f.ensures) && expr_ok(&f.body)
}

fn predicate_ok(p: &PredicateDecl, k: usize) -> (r: bool)
    ensures
        r == printable_predicate(predicate_view(*p), k as nat),
{
    if k >= usize::MAX - 1 {
        return false;
    }
    exprs_ok(&p.requires) && expr_ok(&p.body)
}

fn constructor_ok(c: &ConstructorDecl, k: usize) -> (r: bool)
    ensures
        r == printable_constructor(constructor_view(*c), k as nat),
{
    if k >= usize::MAX - 1 {
        return false;
    }
    block_ok(&c.block.stmts, k + 1)
}

fn class_ok(c: &ClassDecl, k: usize) -> (r: bool)
    ensures
        r == printable_class(class_view(*c), k as nat),
{
    if k >= usize::MAX - 1 {
        return false;
    }
    let cons = match &c.constructor {
        Some(x) => constructor_ok(x, k + 1),
        None => true,
    };
    if !cons {
        return false;
    }
    let ghost ms = class_view(*c).methods;
    let n = c.methods.len();
    let mut i: usize = 0;
    while i < n
        invariant
            n == c.methods@.len(),
            i <= n,
            k < usize::MAX - 1,
            ms == class_view(*c).methods,
            ms == c.methods@.map_values(|m: MethodDecl| method_view(m)),
            forall|j: int| 0 <= j < i ==> printable_method(#[trigger] ms[j], (k + 1) as nat),
        decreases n - i,
    {
        assert(ms[i as int] == method_view(c.methods@[i as int]));
        if !method_ok(&c.methods[i], k + 1) {
            return false;
        }
        i = i + 1;
    }
    true
}

fn datatype_ok(d: &DatatypeDecl, k: usize) -> (r: bool)
    ensures
        r == printable_datatype(datatype_view(*d), k as nat),
{
    let ghost cs = datatype_view(*d).constructors;
    let n = d.constructors.len();
    let mut i: usize = 0;
    while i < n
        invariant
            n == d.constructors@.len(),
            i <= n,
            cs == datatype_view(*d).constructors,
            cs == d.constructors@.map_values(|c: ConstructorDecl| constructor_view(c)),
            forall|j: int| 0 <= j < i ==> printable_constructor(#[trigger] cs[j], k as nat),
        decreases n - i,
    {
        assert(cs[i as int] == constructor_view(d.constructors@[i as int]));
        if !constructor_ok(&d.constructors[i], k) {
            return false;
        }
        i = i + 1;
    }
    true
}

fn declaration_ok(d: &Declaration, k: usize) -> (r: bool)
    ensures
        r == printable_declaration(declaration_view(*d), k as nat),
{
    match d {
        Declaration::Method(m) => method_ok(m, k),
        Declaration::Function(f) => function_ok(f, k),
        Declaration::Predicate(p) => predicate_ok(p, k),
        Declaration::Datatype(x) => datatype_ok(x, k),
        Declaration::Class(c) => class_ok(c, k),
    }
}

/// Whether the printer renders the program.
pub fn is_printable(program: &Program) -> (r: bool)
    ensures
        r == printable_program(program@),
{
    let n = program.declarations.len();
    let mut i: usize = 0;
    while i < n
        invariant
            n == program.declarations@.len(),
            i <= n,
            program@.len() == n,
            forall|j: int| 0 <= j < i ==> printable_declaration(#[trigger] program@[j], 0),
        decreases n - i,
    {
        assert(program@[i as int] == declaration_view(program.declarations@[i as int]));
        if !declaration_ok(&program.declarations[i], 0) {
            return false;
        }
        i = i + 1;
    }
    true
}

} // verus!
