//! Translation of C statements and local declarations into Dafny
//! statements.
use vstd::prelude::*;
use vstd::string::*;

use crate::ast_copy::copy_type;
use crate::context::Context;
use crate::convert_expr::{
    bool_lit, c_arith_expr, ident, int_lit, int_lit_str, parse_args, parse_expr, parse_type, star_lit,
};
use crate::convert_spec::{
    array_dims, array_of, compound_assign, ctx_declare, decl_array, decl_array_init, decl_id, decl_var_then, decl_stmts, for_parts,
    goto_stmts, init_items, lemma_comma_err, lemma_dims_err, lemma_for_parts_err,
    lemma_return_err, lemma_stmts_of_err, opt_expr_result, opt_stmts_result, parsed_array_decl,
    parsed_assign, parsed_call_stmt, parsed_comma, parsed_declaration, parsed_expr_stmt,
    parsed_for, parsed_if, parsed_init_list, parsed_lhs, parsed_stmt, parsed_update_stmt,
    parsed_while, return_value, for_step, stmts_of, stmts_result, type_of_decl, ForState,
};
use crate::converter::ConvertError;
use crate::dafny_ast::{
    expr_view, exprs_view, lemma_exprs_view, lemma_exprs_view_push, lemma_stmts_view,
    lemma_stmts_view_add, lemma_stmts_view_push, lhs_view, opt_expr_view, opt_type_view,
    stmt_view, stmts_view, type_view, AdditiveOp, Assign, Block, Call, Expr, ExprView, IfElse,
    Lhs, LhsView, MultOp, ShiftOp, Stmt, StmtView, Type, Var, WhileLoop,
};
use crate::strings::{dec, push_decimal, str_eq};
use crate::syntax::{field_child, field_is, kind_is, SyntaxNode};

verus! {

spec fn lhs_result(r: Result<Option<Lhs>, ConvertError>) -> Result<Option<LhsView>, ConvertError> {
    match r {
        Ok(Some(l)) => Ok(Some(lhs_view(l))),
        Ok(None) => Ok(None),
        Err(x) => Err(x),
    }
}

spec fn opt_stmt_result(r: Result<Option<Stmt>, ConvertError>) -> Result<Option<StmtView>, ConvertError> {
    match r {
        Ok(Some(s)) => Ok(Some(stmt_view(s))),
        Ok(None) => Ok(None),
        Err(x) => Err(x),
    }
}

spec fn stmt_result(r: Result<Stmt, ConvertError>) -> Result<StmtView, ConvertError> {
    match r {
        Ok(s) => Ok(stmt_view(s)),
        Err(x) => Err(x),
    }
}

/// A vector of one statement.
fn one_stmt(s: Stmt) -> (v: Vec<Stmt>)
    ensures
        stmts_view(v@) == seq![stmt_view(s)],
{
    let mut v: Vec<Stmt> = Vec::new();
    proof {
        lemma_stmts_view_push(v@, s);
        assert(stmts_view(v@) == Seq::<StmtView>::empty());
    }
    v.push(s);
    v
}

/// A vector of one expression.
fn one_expr(e: Expr) -> (v: Vec<Expr>)
    ensures
        exprs_view(v@) == seq![expr_view(e)],
{
    let mut v: Vec<Expr> = Vec::new();
    proof {
        lemma_exprs_view_push(v@, e);
        assert(exprs_view(v@) == Seq::<ExprView>::empty());
    }
    v.push(e);
    v
}

/// `a` followed by `b`.
fn append_stmts(a: &mut Vec<Stmt>, b: Vec<Stmt>)
    ensures
        stmts_view(final(a)@) == stmts_view(old(a)@) + stmts_view(b@),
{
    let mut b = b;
    proof {
        lemma_stmts_view_add(a@, b@);
    }
    a.append(&mut b);
}

/// `x := x + 1` or `x := x - 1`.
fn step_assign(id: &str, add: bool) -> (s: Stmt)
    ensures
        stmt_view(s) == StmtView::Assign(
            LhsView::Identifier(id@),
            if add {
                ExprView::Additive(
                    AdditiveOp::Add,
                    Box::new(crate::convert_spec::ident_expr(id@)),
                    Box::new(crate::convert_spec::int_literal("1"@)),
                )
            } else {
                ExprView::Additive(
                    AdditiveOp::Sub,
                    Box::new(crate::convert_spec::ident_expr(id@)),
                    Box::new(crate::convert_spec::int_literal("1"@)),
                )
            },
        ),
{
    let op = if add {
        AdditiveOp::Add
    } else {
        AdditiveOp::Sub
    };
    let e = Expr::Additive(op, Box::new(ident(String::from_str(id))), Box::new(int_lit_str("1")));
    Stmt::Assign(Assign { lhs: Lhs::Identifier(String::from_str(id)), expr: e })
}

// ---------------------------------------------------------------------------
// Expression statements.
// ---------------------------------------------------------------------------

/// The target of an assignment: a declared variable, or an element of a
/// declared array.
fn parse_lhs(n: &SyntaxNode, ctx: &Context) -> (r: Result<Option<Lhs>, ConvertError>)
    ensures
        lhs_result(r) == parsed_lhs(*n, ctx@),
{
    if kind_is(n, "identifier") {
        match ctx.lookup_var(n.text.as_str()) {
            None => Err(ConvertError::UndeclaredIdentifier),
            Some(_) => Ok(Some(Lhs::Identifier(n.text.clone()))),
        }
    } else if kind_is(n, "subscript_expression") {
        if n.children.len() < 1 {
            return Err(ConvertError::MissingChild);
        }
        let name = n.children[0].text.as_str();
        match ctx.lookup_var(name) {
            None => Err(ConvertError::UndeclaredIdentifier),
            Some(_) => {
                if n.children.len() < 3 {
                    return Err(ConvertError::MissingChild);
                }
                match parse_expr(&n.children[2], ctx)? {
                    None => Ok(None),
                    Some(i) => Ok(
                        Some(Lhs::Index(Box::new(ident(String::from_str(name))), Box::new(i))),
                    ),
                }
            },
        }
    } else {
        Ok(None)
    }
}

/// The value assigned by `lhs op= e`.
fn compound(op: &str, lhs: Expr, e: Expr, ctx: &Context) -> (r: Expr)
    ensures
        expr_view(r) == compound_assign(op@, expr_view(lhs), expr_view(e), ctx@),
{
    if str_eq(op, "+=") {
        Expr::Additive(AdditiveOp::Add, Box::new(lhs), Box::new(e))
    } else if str_eq(op, "-=") {
        Expr::Additive(AdditiveOp::Sub, Box::new(lhs), Box::new(e))
    } else if str_eq(op, "*=") {
        Expr::Mult(MultOp::Mul, Box::new(lhs), Box::new(e))
    } else if str_eq(op, "/=") {
        c_arith_expr(MultOp::Div, lhs, e, ctx)
    } else if str_eq(op, "%=") {
        c_arith_expr(MultOp::Mod, lhs, e, ctx)
    } else if str_eq(op, "&=") {
        Expr::BitwiseAnd(Box::new(lhs), Box::new(e))
    } else if str_eq(op, "|=") {
        Expr::BitwiseOr(Box::new(lhs), Box::new(e))
    } else if str_eq(op, "^=") {
        Expr::BitwiseXor(Box::new(lhs), Box::new(e))
    } else if str_eq(op, "<<=") {
        Expr::Shift(ShiftOp::Shl, Box::new(lhs), Box::new(e))
    } else if str_eq(op, ">>=") {
        Expr::Shift(ShiftOp::Shr, Box::new(lhs), Box::new(e))
    } else {
        e
    }
}

/// An assignment `x = e`, or `x op= e` for `+ - * / % & | ^ << >>`, which
/// becomes `x := x op e`; a right-hand side that translates to nothing
/// becomes 0.
fn parse_assign_statement(n: &SyntaxNode, ctx: &Context) -> (r: Result<Option<Stmt>, ConvertError>)
    ensures
        opt_stmt_result(r) == parsed_assign(*n, ctx@),
{
    if n.children.len() < 1 {
        return Err(ConvertError::MissingChild);
    }
    let c0 = &n.children[0];
    let lhs_expr = parse_expr(c0, ctx)?;
    let lhs = match parse_lhs(c0, ctx)? {
        None => {
            return Ok(None);
        },
        Some(l) => l,
    };
    if n.children.len() < 3 {
        return Err(ConvertError::MissingChild);
    }
    let rhs = parse_expr(&n.children[2], ctx)?;
    let expr = match rhs {
        Some(x) => x,
        None => int_lit_str("0"),
    };
    match lhs_expr {
        None => Ok(None),
        Some(le) => {
            let e = compound(n.children[1].kind.as_str(), le, expr, ctx);
            Ok(Some(Stmt::Assign(Assign { lhs, expr: e })))
        },
    }
}

/// `x++`, `++x`, `x--`, `--x` as a statement.
fn parse_update_statement(n: &SyntaxNode, ctx: &Context) -> (r: Result<Vec<Stmt>, ConvertError>)
    ensures
        stmts_result(r) == parsed_update_stmt(*n, ctx@),
{
    if n.children.len() < 2 {
        return Err(ConvertError::MissingChild);
    }
    let c0 = &n.children[0];
    let c1 = &n.children[1];
    let postfix = kind_is(c0, "identifier");
    let op = if postfix {
        c1.kind.as_str()
    } else {
        c0.kind.as_str()
    };
    let id = if postfix {
        c0.text.as_str()
    } else {
        c1.text.as_str()
    };
    match ctx.lookup_var(id) {
        None => Err(ConvertError::UndeclaredIdentifier),
        Some(_) => {
            if str_eq(op, "++") {
                Ok(one_stmt(step_assign(id, true)))
            } else if str_eq(op, "--") {
                Ok(one_stmt(step_assign(id, false)))
            } else {
                let v: Vec<Stmt> = Vec::new();
                assert(stmts_view(v@) == Seq::<StmtView>::empty());
                Ok(v)
            }
        },
    }
}

/// A call as a statement: `assume(e)` assumes its first argument; any
/// other call is a call statement.
fn parse_call_statement(n: &SyntaxNode, ctx: &Context) -> (r: Result<Vec<Stmt>, ConvertError>)
    ensures
        stmts_result(r) == parsed_call_stmt(*n, ctx@),
{
    if n.children.len() < 2 {
        return Err(ConvertError::MissingChild);
    }
    let mut args = parse_args(&n.children[1].children, ctx)?;
    let name = n.children[0].text.as_str();
    proof {
        lemma_exprs_view(args@);
    }
    if str_eq(name, "assume") {
        if args.len() == 0 {
            Err(ConvertError::AssumeWithoutArgument)
        } else {
            let a = args.remove(0);
            Ok(one_stmt(Stmt::Assume(a)))
        }
    } else {
        Ok(one_stmt(Stmt::Call(Call { id: String::from_str(name), args })))
    }
}

/// The statements an expression used as a statement translates to.
fn parse_expr_stmt(n: &SyntaxNode, ctx: &Context) -> (r: Result<Vec<Stmt>, ConvertError>)
    ensures
        stmts_result(r) == parsed_expr_stmt(*n, ctx@),
    decreases n, 1int,
{
    if kind_is(n, "assignment_expression") {
        match parse_assign_statement(n, ctx)? {
            None => {
                let v: Vec<Stmt> = Vec::new();
                assert(stmts_view(v@) == Seq::<StmtView>::empty());
                Ok(v)
            },
            Some(s) => Ok(one_stmt(s)),
        }
    } else if kind_is(n, "comma_expression") {
        parse_comma_statement(&n.children, ctx)
    } else if kind_is(n, "update_expression") {
        parse_update_statement(n, ctx)
    } else if kind_is(n, "call_expression") {
        parse_call_statement(n, ctx)
    } else if kind_is(n, "parenthesized_expression") {
        if n.children.len() < 2 {
            Err(ConvertError::MissingChild)
        } else {
            parse_expr_stmt(&n.children[1], ctx)
        }
    } else {
        let v: Vec<Stmt> = Vec::new();
        assert(stmts_view(v@) == Seq::<StmtView>::empty());
        Ok(v)
    }
}

/// The statements of the operands of a comma expression, in order.
fn parse_comma_statement(s: &Vec<SyntaxNode>, ctx: &Context) -> (r: Result<Vec<Stmt>, ConvertError>)
    ensures
        stmts_result(r) == parsed_comma(s@, ctx@),
    decreases s, 0int,
{
    let mut out: Vec<Stmt> = Vec::new();
    let n = s.len();
    let mut i: usize = 0;
    assert(stmts_view(out@) == Seq::<StmtView>::empty());
    while i < n
        invariant
            n == s@.len(),
            i <= n,
            parsed_comma(s@.subrange(0, i as int), ctx@) == Ok::<Seq<StmtView>, ConvertError>(
                stmts_view(out@),
            ),
        decreases n - i,
    {
        proof {
            assert(s@.subrange(0, i + 1).drop_last() =~= s@.subrange(0, i as int));
        }
        if !kind_is(&s[i], ",") {
            match parse_expr_stmt(&s[i], ctx) {
                Err(e) => {
                    proof {
                        lemma_comma_err(s@, i + 1, ctx@);
                    }
                    return Err(e);
                },
                Ok(v) => {
                    append_stmts(&mut out, v);
                },
            }
        }
        i = i + 1;
    }
    assert(s@.subrange(0, n as int) =~= s@);
    Ok(out)
}

// ---------------------------------------------------------------------------
// Returns and declarations.
// ---------------------------------------------------------------------------

/// The value of a `return` statement: its last expression child.
fn parse_return(n: &SyntaxNode, ctx: &Context) -> (r: Result<Option<Expr>, ConvertError>)
    ensures
        opt_expr_result(r) == return_value(n.children@, ctx@),
{
    let s = &n.children;
    let len = s.len();
    let mut ret: Option<Expr> = None;
    let mut i: usize = 0;
    while i < len
        invariant
            len == s@.len(),
            s == n.children,
            i <= len,
            return_value(s@.subrange(0, i as int), ctx@) == opt_expr_result(Ok(ret)),
        decreases len - i,
    {
        let x = &s[i];
        proof {
            assert(s@.subrange(0, i + 1).drop_last() =~= s@.subrange(0, i as int));
        }
        if kind_is(x, "identifier") {
            match ctx.lookup_var(x.text.as_str()) {
                None => {
                    proof {
                        lemma_return_err(s@, i + 1, ctx@);
                    }
                    return Err(ConvertError::UndeclaredIdentifier);
                },
                Some(_) => {
                    ret = Some(ident(x.text.clone()));
                },
            }
        } else if kind_is(x, ";") || kind_is(x, "return") {
        } else {
            match parse_expr(x, ctx) {
                Err(e) => {
                    proof {
                        lemma_return_err(s@, i + 1, ctx@);
                    }
                    return Err(e);
                },
                Ok(v) => {
                    ret = v;
                },
            }
        }
        i = i + 1;
    }
    assert(s@.subrange(0, len as int) =~= s@);
    Ok(ret)
}

/// The type named by the `type` field of a declaration.
pub fn decl_type(n: &SyntaxNode) -> (r: Option<Type>)
    ensures
        opt_type_view(r) == type_of_decl(*n),
{
    match field_child(n, "type") {
        None => None,
        Some(j) => parse_type(&n.children[j]),
    }
}

/// An array declaration `T a[d1]...[dk]`: `var a : array<...<T>> := new
/// T[d1, ..., dk]`; `a` is declared.
fn parse_array_decl(d: &SyntaxNode, ctx: &mut Context, base: &Type) -> (r: Result<Stmt, ConvertError>)
    ensures
        (stmt_result(r), final(ctx)@) == parsed_array_decl(*d, old(ctx)@, type_view(*base)),
{
    if d.children.len() < 1 {
        return Err(ConvertError::MissingChild);
    }
    let s = &d.children;
    let len = s.len();
    let mut dims: Vec<Expr> = Vec::new();
    let mut k: usize = 0;
    let mut i: usize = 0;
    assert(exprs_view(dims@) == Seq::<ExprView>::empty());
    while i < len
        invariant
            len == s@.len(),
            s == d.children,
            i <= len,
            k <= i,
            array_dims(s@.subrange(0, i as int), ctx@) == Ok::<(Seq<ExprView>, nat), ConvertError>(
                (exprs_view(dims@), k as nat),
            ),
        decreases len - i,
    {
        let x = &s[i];
        proof {
            assert(s@.subrange(0, i + 1).drop_last() =~= s@.subrange(0, i as int));
        }
        if kind_is(x, "[") || kind_is(x, "]") || kind_is(x, "identifier") {
        } else {
            match parse_expr(x, ctx) {
                Err(e) => {
                    proof {
                        lemma_dims_err(s@, i + 1, ctx@);
                    }
                    return Err(e);
                },
                Ok(None) => {
                    k = k + 1;
                },
                Ok(Some(e)) => {
                    proof {
                        lemma_exprs_view_push(dims@, e);
                    }
                    dims.push(e);
                    k = k + 1;
                },
            }
        }
        i = i + 1;
    }
    assert(s@.subrange(0, len as int) =~= s@);
    let mut ty = copy_type(base);
    let mut j: usize = 0;
    while j < k
        invariant
            j <= k,
            type_view(ty) == array_of(type_view(*base), j as nat),
        decreases k - j,
    {
        ty = Type::Array(Box::new(ty));
        j = j + 1;
    }
    let name = &s[0].text;
    let init = Expr::ArrayInit(dims, copy_type(base));
    let decl_ty = copy_type(&ty);
    ctx.declare_var(name.clone(), ty);
    Ok(Stmt::DeclVar(Var { id: name.clone(), type_: decl_ty, init: Some(init) }))
}

/// The assignments `a[0] := e0; a[1] := e1; ...` of an initializer list.
fn parse_init_list(n: &SyntaxNode, ctx: &Context, id: &str) -> (r: Result<
    Option<Vec<Stmt>>,
    ConvertError,
>)
    ensures
        opt_stmts_result(r) == parsed_init_list(*n, ctx@, id@),
{
    if ctx.lookup_var(id).is_none() {
        return Err(ConvertError::UndeclaredIdentifier);
    }
    let s = &n.children;
    let len = s.len();
    let mut out: Vec<Stmt> = Vec::new();
    let mut i: usize = 0;
    assert(stmts_view(out@) == Seq::<StmtView>::empty());
    while i < len
        invariant
            len == s@.len(),
            s == n.children,
            i <= len,
            out@.len() <= i,
            parsed_init_list(*n, ctx@, id@) == init_items(s@, i as int, ctx@, id@, stmts_view(out@)),
        decreases len - i,
    {
        let x = &s[i];
        if kind_is(x, "{") || kind_is(x, "}") || kind_is(x, ",") {
        } else {
            match parse_expr(x, ctx)? {
                None => {
                    return Ok(None);
                },
                Some(e) => {
                    let mut t = String::new();
                    push_decimal(&mut t, out.len() as u128);
                    proof {
                        lemma_stmts_view(out@);
                        assert(t@ =~= dec(stmts_view(out@).len()));
                    }
                    let target = Lhs::Index(Box::new(ident(String::from_str(id))), Box::new(int_lit(t)));
                    let st = Stmt::Assign(Assign { lhs: target, expr: e });
                    proof {
                        lemma_stmts_view_push(out@, st);
                    }
                    out.push(st);
                },
            }
        }
        i = i + 1;
    }
    proof {
        lemma_stmts_view(out@);
    }
    if out.len() == 0 {
        Ok(None)
    } else {
        Ok(Some(out))
    }
}

/// A plain array declarator: its declaration alone.
fn parse_decl_array(n: &SyntaxNode, d: &SyntaxNode, ctx: &mut Context) -> (r: Result<
    Option<Vec<Stmt>>,
    ConvertError,
>)
    ensures
        (opt_stmts_result(r), final(ctx)@) == decl_array(*n, *d, old(ctx)@),
{
    match decl_type(n) {
        None => Ok(None),
        Some(base) => {
            let st = parse_array_decl(d, ctx, &base)?;
            Ok(Some(one_stmt(st)))
        },
    }
}

/// An array declarator with an initializer list.
fn parse_decl_array_init(
    n: &SyntaxNode,
    dn: &SyntaxNode,
    v: &SyntaxNode,
    ctx: &mut Context,
    acc: Vec<Stmt>,
) -> (r: Result<Option<Vec<Stmt>>, ConvertError>)
    ensures
        (opt_stmts_result(r), final(ctx)@) == decl_array_init(
            *n,
            *dn,
            *v,
            old(ctx)@,
            stmts_view(acc@),
        ),
{
    let mut acc = acc;
    match decl_type(n) {
        None => Ok(None),
        Some(base) => {
            let st = parse_array_decl(dn, ctx, &base)?;
            let init = {
                let aid = match &st {
                    Stmt::DeclVar(var) => var.id.as_str(),
                    _ => "",
                };
                proof {
                    reveal_strlit("");
                    assert(aid@ == decl_id(stmt_view(st)));
                }
                parse_init_list(v, ctx, aid)?
            };
            proof {
                lemma_stmts_view_push(acc@, st);
            }
            acc.push(st);
            match init {
                Some(more) => {
                    append_stmts(&mut acc, more);
                },
                None => {
                    assert(stmts_view(acc@) + Seq::<StmtView>::empty() =~= stmts_view(acc@));
                },
            }
            Ok(Some(acc))
        },
    }
}

/// Declares `name` with the declaration's type and records its `var`
/// statement; `false`, with nothing changed, when the type is not one the
/// translation knows.
fn declare_local(
    n: &SyntaxNode,
    ctx: &mut Context,
    acc: &mut Vec<Stmt>,
    name: String,
    init: Option<Expr>,
) -> (ok: bool)
    ensures
        match type_of_decl(*n) {
            None => !ok && final(ctx)@ == old(ctx)@ && final(acc)@ == old(acc)@,
            Some(ty) => ok && final(ctx)@ == ctx_declare(old(ctx)@, name@, ty) && stmts_view(
                final(acc)@,
            ) == stmts_view(old(acc)@).push(StmtView::DeclVar(name@, ty, opt_expr_view(init))),
        },
{
    match decl_type(n) {
        None => false,
        Some(ty) => {
            ctx.declare_var(name.clone(), copy_type(&ty));
            let st = Stmt::DeclVar(Var { id: name, type_: ty, init });
            proof {
                lemma_stmts_view_push(acc@, st);
            }
            acc.push(st);
            true
        },
    }
}

/// The statements of a local declaration: a `var` per declarator, each
/// declared as it comes; array declarators allocate the array, and an
/// initializer list becomes element assignments. `None` when the type is
/// not one the translation knows, or when nothing is declared.
fn parse_declaration(n: &SyntaxNode, ctx: &mut Context) -> (r: Result<
    Option<Vec<Stmt>>,
    ConvertError,
>)
    ensures
        (opt_stmts_result(r), final(ctx)@) == parsed_declaration(*n, old(ctx)@),
{
    let s = &n.children;
    let len = s.len();
    let mut acc: Vec<Stmt> = Vec::new();
    let mut i: usize = 0;
    assert(stmts_view(acc@) == Seq::<StmtView>::empty());
    while i < len
        invariant
            len == s@.len(),
            s == n.children,
            i <= len,
            parsed_declaration(*n, old(ctx)@) == decl_stmts(*n, i as int, ctx@, stmts_view(acc@)),
        decreases len - i,
    {
        let d = &s[i];
        if !field_is(d, "declarator") || kind_is(d, "function_declarator") {
            i = i + 1;
        } else if kind_is(d, "array_declarator") {
            return parse_decl_array(n, d, ctx);
        } else if kind_is(d, "init_declarator") {
            let dj = match field_child(d, "declarator") {
                None => {
                    return Ok(None);
                },
                Some(j) => j,
            };
            let vj = match field_child(d, "value") {
                None => {
                    return Ok(None);
                },
                Some(j) => j,
            };
            let dn = &d.children[dj];
            let v = &d.children[vj];
            if kind_is(dn, "array_declarator") {
                return parse_decl_array_init(n, dn, v, ctx, acc);
            } else {
                let init = parse_expr(v, ctx)?;
                let ghost c1 = ctx@;
                let ghost a1 = stmts_view(acc@);
                let ghost iv = opt_expr_view(init);
                assert(decl_stmts(*n, i as int, c1, a1) == decl_var_then(*n, i as int, c1, a1, dn.text@, iv));
                let ok = declare_local(n, ctx, &mut acc, dn.text.clone(), init);
                assert(decl_var_then(*n, i as int, c1, a1, dn.text@, iv) == match type_of_decl(*n) {
                    None => (Ok(None), c1),
                    Some(ty) => decl_stmts(*n, i + 1, ctx_declare(c1, dn.text@, ty), a1.push(StmtView::DeclVar(dn.text@, ty, iv))),
                });
                if !ok {
                    return Ok(None);
                }
                i = i + 1;
            }
        } else {
            let ghost c1 = ctx@;
            let ghost a1 = stmts_view(acc@);
            assert(decl_stmts(*n, i as int, c1, a1) == decl_var_then(*n, i as int, c1, a1, d.text@, None));
            let ok = declare_local(n, ctx, &mut acc, d.text.clone(), None);
            assert(decl_var_then(*n, i as int, c1, a1, d.text@, None) == match type_of_decl(*n) {
                None => (Ok(None), c1),
                Some(ty) => decl_stmts(*n, i + 1, ctx_declare(c1, d.text@, ty), a1.push(StmtView::DeclVar(d.text@, ty, None))),
            });
            if !ok {
                return Ok(None);
            }
            i = i + 1;
        }
    }
    proof {
        lemma_stmts_view(acc@);
    }
    if acc.len() == 0 {
        Ok(None)
    } else {
        Ok(Some(acc))
    }
}

// ---------------------------------------------------------------------------
// Statements.
// ---------------------------------------------------------------------------

fn no_stmts() -> (v: Vec<Stmt>)
    ensures
        stmts_view(v@) == Seq::<StmtView>::empty(),
{
    let v: Vec<Stmt> = Vec::new();
    assert(stmts_view(v@) == Seq::<StmtView>::empty());
    v
}

/// A `goto`: to `ERROR` asserts false, to `LOOPEND` breaks, to `END`
/// returns; other labels are dropped.
fn goto_statement(label: &str, ctx: &Context, returns_value: bool) -> (r: Result<
    Vec<Stmt>,
    ConvertError,
>)
    ensures
        stmts_result(r) == goto_stmts(label@, ctx@, returns_value),
{
    if str_eq(label, "ERROR") {
        Ok(one_stmt(Stmt::Assert(bool_lit(false))))
    } else if str_eq(label, "LOOPEND") {
        Ok(one_stmt(Stmt::Break))
    } else if str_eq(label, "END") {
        if ctx.get_current_method().is_none() {
            Err(ConvertError::NoCurrentMethod)
        } else if returns_value {
            Ok(one_stmt(Stmt::Return(Some(int_lit_str("0")))))
        } else {
            Ok(one_stmt(Stmt::Return(None)))
        }
    } else {
        Ok(no_stmts())
    }
}

/// The statements a statement node translates to. `returns_value`: the
/// enclosing function has a return type the translation knows.
pub fn parse_stmt(n: &SyntaxNode, ctx: &mut Context, returns_value: bool) -> (r: Result<
    Vec<Stmt>,
    ConvertError,
>)
    ensures
        (stmts_result(r), final(ctx)@) == parsed_stmt(*n, old(ctx)@, returns_value),
    decreases n, 1int,
{
    if kind_is(n, "return_statement") {
        let v = parse_return(n, ctx)?;
        Ok(one_stmt(Stmt::Return(v)))
    } else if kind_is(n, "declaration") {
        match parse_declaration(n, ctx)? {
            None => Err(ConvertError::UnsupportedDeclaration),
            Some(v) => Ok(v),
        }
    } else if kind_is(n, "expression_statement") {
        if n.children.len() < 1 {
            Err(ConvertError::MissingChild)
        } else {
            parse_expr_stmt(&n.children[0], ctx)
        }
    } else if kind_is(n, "while_statement") {
        parse_while_stmt(n, ctx, returns_value)
    } else if kind_is(n, "compound_statement") {
        parse_compound_stmt(&n.children, ctx, returns_value, true)
    } else if kind_is(n, "if_statement") {
        parse_if_stmt(n, ctx, returns_value)
    } else if kind_is(n, "goto_statement") {
        if n.children.len() < 2 {
            Err(ConvertError::MissingChild)
        } else {
            goto_statement(n.children[1].text.as_str(), ctx, returns_value)
        }
    } else if kind_is(n, "labeled_statement") {
        if n.children.len() < 3 {
            Err(ConvertError::MissingChild)
        } else {
            parse_stmt(&n.children[2], ctx, returns_value)
        }
    } else if kind_is(n, "break_statement") {
        Ok(one_stmt(Stmt::Break))
    } else if kind_is(n, "continue_statement") {
        Ok(one_stmt(Stmt::Continue))
    } else if kind_is(n, "for_statement") {
        parse_for_stmt(n, ctx, returns_value)
    } else {
        Ok(no_stmts())
    }
}

/// The statements of a sequence of statement nodes, in order; with
/// `skip_braces`, the nodes `{` and `}` are passed over.
pub fn parse_compound_stmt(
    s: &Vec<SyntaxNode>,
    ctx: &mut Context,
    returns_value: bool,
    skip_braces: bool,
) -> (r: Result<Vec<Stmt>, ConvertError>)
    ensures
        (stmts_result(r), final(ctx)@) == stmts_of(s@, old(ctx)@, returns_value, skip_braces),
    decreases s, 0int,
{
    let mut out = no_stmts();
    let n = s.len();
    let mut i: usize = 0;
    while i < n
        invariant
            n == s@.len(),
            i <= n,
            stmts_of(s@.subrange(0, i as int), old(ctx)@, returns_value, skip_braces) == (
                Ok::<Seq<StmtView>, ConvertError>(stmts_view(out@)),
                ctx@,
            ),
        decreases n - i,
    {
        proof {
            assert(s@.subrange(0, i + 1).drop_last() =~= s@.subrange(0, i as int));
        }
        let x = &s[i];
        if skip_braces && (kind_is(x, "{") || kind_is(x, "}")) {
        } else {
            match parse_stmt(x, ctx, returns_value) {
                Err(e) => {
                    proof {
                        lemma_stmts_of_err(s@, i + 1, old(ctx)@, returns_value, skip_braces);
                    }
                    return Err(e);
                },
                Ok(v) => {
                    append_stmts(&mut out, v);
                },
            }
        }
        i = i + 1;
    }
    assert(s@.subrange(0, n as int) =~= s@);
    Ok(out)
}

/// A `while` loop with no invariants and `decreases *`; nothing when its
/// condition or its body translates to nothing.
fn parse_while_stmt(n: &SyntaxNode, ctx: &mut Context, returns_value: bool) -> (r: Result<
    Vec<Stmt>,
    ConvertError,
>)
    ensures
        (stmts_result(r), final(ctx)@) == parsed_while(*n, old(ctx)@, returns_value),
    decreases n, 0int,
{
    if n.children.len() < 2 {
        return Err(ConvertError::MissingChild);
    }
    let cond = parse_expr(&n.children[1], ctx)?;
    if n.children.len() < 3 {
        return Err(ConvertError::MissingChild);
    }
    let body = parse_stmt(&n.children[2], ctx, returns_value)?;
    proof {
        lemma_stmts_view(body@);
    }
    match cond {
        Some(c) => {
            if body.len() > 0 {
                let dec_clauses = one_expr(star_lit());
                let invariants: Vec<Expr> = Vec::new();
                assert(exprs_view(invariants@) == Seq::<ExprView>::empty());
                Ok(
                    one_stmt(
                        Stmt::WhileLoop(
                            WhileLoop {
                                cond: c,
                                invariants,
                                decreases: dec_clauses,
                                block: Block { stmts: body },
                            },
                        ),
                    ),
                )
            } else {
                Ok(no_stmts())
            }
        },
        None => Ok(no_stmts()),
    }
}

/// An `if` statement; a condition that translates to nothing becomes
/// `true`, an `else` branch that translates to nothing is dropped.
fn parse_if_stmt(n: &SyntaxNode, ctx: &mut Context, returns_value: bool) -> (r: Result<
    Vec<Stmt>,
    ConvertError,
>)
    ensures
        (stmts_result(r), final(ctx)@) == parsed_if(*n, old(ctx)@, returns_value),
    decreases n, 0int,
{
    if n.children.len() < 2 {
        return Err(ConvertError::MissingChild);
    }
    let cond = parse_expr(&n.children[1], ctx)?;
    if n.children.len() < 3 {
        return Err(ConvertError::MissingChild);
    }
    let then_stmts = parse_stmt(&n.children[2], ctx, returns_value)?;
    let else_block = if n.children.len() > 3 {
        let ec = &n.children[3];
        if ec.children.len() < 2 {
            return Err(ConvertError::MissingChild);
        }
        let v = parse_stmt(&ec.children[1], ctx, returns_value)?;
        proof {
            lemma_stmts_view(v@);
        }
        if v.len() == 0 {
            None
        } else {
            Some(Block { stmts: v })
        }
    } else {
        None
    };
    let c = match cond {
        Some(x) => x,
        None => bool_lit(true),
    };
    Ok(one_stmt(Stmt::IfElse(IfElse { cond: c, then_block: Block { stmts: then_stmts }, else_block })))
}

/// A `for` statement: its initialisation, then a `while` loop on its first
/// condition (or `true`) whose body is the loop's body followed by the
/// update.
fn parse_for_stmt(n: &SyntaxNode, ctx: &mut Context, returns_value: bool) -> (r: Result<
    Vec<Stmt>,
    ConvertError,
>)
    ensures
        (stmts_result(r), final(ctx)@) == parsed_for(*n, old(ctx)@, returns_value),
    decreases n, 0int,
{
    let s = &n.children;
    let len = s.len();
    let mut counter: usize = 0;
    let mut init = no_stmts();
    let mut cond: Vec<Expr> = Vec::new();
    let mut update = no_stmts();
    let mut body = no_stmts();
    let mut i: usize = 0;
    assert(exprs_view(cond@) == Seq::<ExprView>::empty());
    while i < len
        invariant
            len == s@.len(),
            s == n.children,
            i <= len,
            counter <= i,
            for_parts(s@.subrange(0, i as int), old(ctx)@, returns_value) == (
                Ok::<ForState, ConvertError>(
                    ForState {
                        counter: counter as nat,
                        init: stmts_view(init@),
                        cond: exprs_view(cond@),
                        update: stmts_view(update@),
                        body: stmts_view(body@),
                    },
                ),
                ctx@,
            ),
        decreases len - i,
    {
        let x = &s[i];
        let ghost st = ForState {
            counter: counter as nat,
            init: stmts_view(init@),
            cond: exprs_view(cond@),
            update: stmts_view(update@),
            body: stmts_view(body@),
        };
        let ghost c1 = ctx@;
        proof {
            assert(s@.subrange(0, i + 1).drop_last() =~= s@.subrange(0, i as int));
            assert(for_parts(s@.subrange(0, i + 1), old(ctx)@, returns_value) == for_step(
                st,
                *x,
                c1,
                returns_value,
            ));
        }
        if kind_is(x, ";") || kind_is(x, ")") {
            counter = counter + 1;
        } else if kind_is(x, "(") || kind_is(x, "for") {
        } else if counter == 0 {
            match parse_stmt(x, ctx, returns_value) {
                Err(e) => {
                    proof {
                        lemma_for_parts_err(s@, i + 1, old(ctx)@, returns_value);
                    }
                    return Err(e);
                },
                Ok(v) => {
                    append_stmts(&mut init, v);
                    counter = 1;
                },
            }
        } else if counter == 1 {
            match parse_expr(x, ctx) {
                Err(e) => {
                    proof {
                        lemma_for_parts_err(s@, i + 1, old(ctx)@, returns_value);
                    }
                    return Err(e);
                },
                Ok(None) => {
                    let t = bool_lit(true);
                    proof {
                        lemma_exprs_view_push(cond@, t);
                    }
                    cond.push(t);
                },
                Ok(Some(e)) => {
                    proof {
                        lemma_exprs_view_push(cond@, e);
                    }
                    cond.push(e);
                },
            }
        } else if counter == 2 {
            match parse_expr_stmt(x, ctx) {
                Err(e) => {
                    proof {
                        lemma_for_parts_err(s@, i + 1, old(ctx)@, returns_value);
                    }
                    return Err(e);
                },
                Ok(v) => {
                    append_stmts(&mut update, v);
                },
            }
        } else if counter == 3 {
            match parse_stmt(x, ctx, returns_value) {
                Err(e) => {
                    proof {
                        lemma_for_parts_err(s@, i + 1, old(ctx)@, returns_value);
                    }
                    return Err(e);
                },
                Ok(v) => {
                    append_stmts(&mut body, v);
                },
            }
        }
        i = i + 1;
    }
    assert(s@.subrange(0, len as int) =~= s@);
    proof {
        lemma_exprs_view(cond@);
    }
    let c = if cond.len() == 0 {
        bool_lit(true)
    } else {
        cond.remove(0)
    };
    append_stmts(&mut body, update);
    let dec_clauses = one_expr(star_lit());
    let invariants: Vec<Expr> = Vec::new();
    assert(exprs_view(invariants@) == Seq::<ExprView>::empty());
    let w = Stmt::WhileLoop(
        WhileLoop { cond: c, invariants, decreases: dec_clauses, block: Block { stmts: body } },
    );
    proof {
        lemma_stmts_view_push(init@, w);
    }
    init.push(w);
    Ok(init)
}

} // verus!
