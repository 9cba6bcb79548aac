//! Translation of C expressions into Dafny expressions.
use vstd::prelude::*;
use vstd::string::*;

use crate::context::Context;
use crate::convert_spec::{
    binary_of, bool_literal, c_arith, ctx_lookup, declared_identifier, divides_as_in_c, unsigned_or_real, exprs_result, ident_expr, identifier_expr,
    int_literal, is_unknown_call, lemma_args_err, opt_expr_result, parsed_args, parsed_binary,
    parsed_call, parsed_expr, parsed_subscript, parsed_type, parsed_unary, real_literal,
    star_literal, this_literal, type_of_name, unary_of, update_expr,
};
use crate::converter::ConvertError;
use crate::dafny_ast::{
    expr_view, exprs_view, literal_view, primary_view, ExprView, LiteralView, PrimaryView, lemma_exprs_view_push, opt_type_view, AdditiveOp, ComparisonOp,
    EqualityOp, Expr, Literal, MultOp, PrimaryExpr, ShiftOp, Type, UnaryOp,
};
use crate::strings::{is_float_literal, str_eq, str_trim};
use crate::syntax::{kind_is, SyntaxNode};

verus! {

// ---------------------------------------------------------------------------
// Building blocks.
// ---------------------------------------------------------------------------

/// An expression made of a primary expression.
pub fn prim(p: PrimaryExpr) -> (e: Expr)
    ensures
        expr_view(e) == ExprView::Primary(primary_view(p)),
{
    Expr::Primary(p)
}

/// A literal as an expression.
pub fn lit(l: Literal) -> (e: Expr)
    ensures
        expr_view(e) == ExprView::Primary(PrimaryView::Literal(literal_view(l))),
{
    let p = PrimaryExpr::Literal(l);
    assert(primary_view(p) == PrimaryView::Literal(literal_view(l)));
    prim(p)
}

pub fn ident(name: String) -> (e: Expr)
    ensures
        expr_view(e) == ident_expr(name@),
{
    let p = PrimaryExpr::Identifier(name);
    assert(primary_view(p) == PrimaryView::Identifier(name@));
    prim(p)
}

pub fn int_lit(text: String) -> (e: Expr)
    ensures
        expr_view(e) == int_literal(text@),
{
    let l = Literal::Integer(text);
    assert(literal_view(l) == LiteralView::Integer(text@));
    lit(l)
}

pub fn int_lit_str(text: &str) -> (e: Expr)
    ensures
        expr_view(e) == int_literal(text@),
{
    int_lit(String::from_str(text))
}

pub fn bool_lit(b: bool) -> (e: Expr)
    ensures
        expr_view(e) == bool_literal(b),
{
    let l = Literal::Boolean(b);
    assert(literal_view(l) == LiteralView::Boolean(b));
    lit(l)
}

pub fn star_lit() -> (e: Expr)
    ensures
        expr_view(e) == star_literal(),
{
    let l = Literal::Star;
    assert(literal_view(l) == LiteralView::Star);
    lit(l)
}

pub fn this_lit() -> (e: Expr)
    ensures
        expr_view(e) == this_literal(),
{
    let l = Literal::This;
    assert(literal_view(l) == LiteralView::This);
    lit(l)
}

fn real_lit(text: String) -> (e: Expr)
    ensures
        expr_view(e) == real_literal(text@),
{
    let l = Literal::Real(text);
    assert(literal_view(l) == LiteralView::Real(text@));
    lit(l)
}

/// The Dafny type of a type node: its text, trimmed, as a C type name
/// (`int`, `unsigned int`, `unsigned char`, `_Bool`, `bool`, `unsigned
/// short`, `unsigned long long`, `float`); `None` for any other.
pub fn parse_type(n: &SyntaxNode) -> (r: Option<Type>)
    ensures
        opt_type_view(r) == parsed_type(*n),
{
    let t = str_trim(n.text.as_str());
    let s = t.as_str();
    if str_eq(s, "int") {
        Some(Type::Int)
    } else if str_eq(s, "unsigned int") {
        Some(Type::Bv(32))
    } else if str_eq(s, "unsigned char") {
        Some(Type::Bv(8))
    } else if str_eq(s, "_Bool") {
        Some(Type::Bool)
    } else if str_eq(s, "bool") {
        Some(Type::Bool)
    } else if str_eq(s, "unsigned short") {
        Some(Type::Bv(16))
    } else if str_eq(s, "unsigned long long") {
        Some(Type::Bv(64))
    } else if str_eq(s, "float") {
        Some(Type::Real)
    } else {
        proof {
            assert(type_of_name(t@) is None);
        }
        None
    }
}

fn is_unknown(name: &str) -> (r: bool)
    ensures
        r == is_unknown_call(name@),
{
    str_eq(name, "unknown_int") || str_eq(name, "unknown") || str_eq(name, "unknown_uint")
        || str_eq(name, "unknown_bool") || str_eq(name, "unknown_uchar") || str_eq(
        name,
        "unknown1",
    ) || str_eq(name, "unknown2") || str_eq(name, "unknown3") || str_eq(name, "unknown_ushort")
        || str_eq(name, "unknown_float")
}

/// Whether values of type `t` divide in Dafny as in C.
fn type_divides_as_in_c(t: &Type) -> (b: bool)
    ensures
        b == divides_as_in_c(t@),
    decreases t,
{
    match t {
        Type::Bv(_) => true,
        Type::Real => true,
        Type::Array(inner) => type_divides_as_in_c(inner),
        Type::Function(_, ret) => type_divides_as_in_c(ret),
        _ => false,
    }
}

/// Whether `e` is known to be unsigned or real, so that Dafny's division
/// and remainder on it are C's.
fn is_unsigned_or_real(e: &Expr, ctx: &Context) -> (b: bool)
    ensures
        b == unsigned_or_real(expr_view(*e), ctx@),
    decreases e,
{
    proof {
        reveal_with_fuel(expr_view, 3);
    }
    match e {
        Expr::Primary(PrimaryExpr::Identifier(id)) => match ctx.lookup_var(id.as_str()) {
            Some(t) => type_divides_as_in_c(t),
            None => false,
        },
        Expr::Primary(PrimaryExpr::Literal(Literal::Real(_))) => true,
        Expr::Primary(PrimaryExpr::Index(a, _)) => is_unsigned_or_real(a, ctx),
        Expr::Primary(PrimaryExpr::Call(f, _)) => is_unsigned_or_real(f, ctx),
        Expr::BitwiseOr(l, r) => is_unsigned_or_real(l, ctx) || is_unsigned_or_real(r, ctx),
        Expr::BitwiseXor(l, r) => is_unsigned_or_real(l, ctx) || is_unsigned_or_real(r, ctx),
        Expr::BitwiseAnd(l, r) => is_unsigned_or_real(l, ctx) || is_unsigned_or_real(r, ctx),
        Expr::Shift(_, l, r) => is_unsigned_or_real(l, ctx) || is_unsigned_or_real(r, ctx),
        Expr::Additive(_, l, r) => is_unsigned_or_real(l, ctx) || is_unsigned_or_real(r, ctx),
        Expr::Mult(_, l, r) => is_unsigned_or_real(l, ctx) || is_unsigned_or_real(r, ctx),
        Expr::Unary(UnaryOp::Neg, x) => is_unsigned_or_real(x, ctx),
        Expr::IfThenElse(_, t, f) => is_unsigned_or_real(t, ctx) || is_unsigned_or_real(f, ctx),
        _ => false,
    }
}

/// C's division or remainder of `l` by `r`, rounding toward zero.
pub(crate) fn c_arith_expr(op: MultOp, l: Expr, r: Expr, ctx: &Context) -> (e: Expr)
    ensures
        expr_view(e) == c_arith(op, expr_view(l), expr_view(r), ctx@),
{
    if is_unsigned_or_real(&l, ctx) || is_unsigned_or_real(&r, ctx) {
        Expr::Mult(op, Box::new(l), Box::new(r))
    } else {
        let name = match op {
            MultOp::Div => "c_div",
            _ => "c_mod",
        };
        let f = ident(String::from_str(name));
        let ghost lv = expr_view(l);
        let ghost rv = expr_view(r);
        let mut args: Vec<Expr> = Vec::new();
        proof {
            lemma_exprs_view_push(args@, l);
        }
        args.push(l);
        proof {
            lemma_exprs_view_push(args@, r);
        }
        args.push(r);
        assert(exprs_view(args@) =~= seq![lv, rv]);
        prim(PrimaryExpr::Call(Box::new(f), args))
    }
}

/// The expression of binary operator `op` on `l` and `r`.
fn binary_op(op: &str, l: Expr, r: Expr, ctx: &Context) -> (e: Option<Expr>)
    ensures
        match e {
            Some(x) => binary_of(op@, expr_view(l), expr_view(r), ctx@) == Some(expr_view(x)),
            None => binary_of(op@, expr_view(l), expr_view(r), ctx@) is None,
        },
{
    let bl = Box::new(l);
    let br = Box::new(r);
    if str_eq(op, "<") {
        Some(Expr::Comparison(ComparisonOp::Lt, bl, br))
    } else if str_eq(op, ">") {
        Some(Expr::Comparison(ComparisonOp::Gt, bl, br))
    } else if str_eq(op, "<=") {
        Some(Expr::Comparison(ComparisonOp::Le, bl, br))
    } else if str_eq(op, ">=") {
        Some(Expr::Comparison(ComparisonOp::Ge, bl, br))
    } else if str_eq(op, "==") {
        Some(Expr::Equality(EqualityOp::Eq, bl, br))
    } else if str_eq(op, "!=") {
        Some(Expr::Equality(EqualityOp::Ne, bl, br))
    } else if str_eq(op, "+") {
        Some(Expr::Additive(AdditiveOp::Add, bl, br))
    } else if str_eq(op, "-") {
        Some(Expr::Additive(AdditiveOp::Sub, bl, br))
    } else if str_eq(op, "*") {
        Some(Expr::Mult(MultOp::Mul, bl, br))
    } else if str_eq(op, "/") {
        Some(c_arith_expr(MultOp::Div, *bl, *br, ctx))
    } else if str_eq(op, "%") {
        Some(c_arith_expr(MultOp::Mod, *bl, *br, ctx))
    } else if str_eq(op, "&&") {
        Some(Expr::LogicalAnd(bl, br))
    } else if str_eq(op, "||") {
        Some(Expr::LogicalOr(bl, br))
    } else if str_eq(op, "<<") {
        Some(Expr::Shift(ShiftOp::Shl, bl, br))
    } else if str_eq(op, ">>") {
        Some(Expr::Shift(ShiftOp::Shr, bl, br))
    } else if str_eq(op, "&") {
        Some(Expr::BitwiseAnd(bl, br))
    } else if str_eq(op, "|") {
        Some(Expr::BitwiseOr(bl, br))
    } else if str_eq(op, "^") {
        Some(Expr::BitwiseXor(bl, br))
    } else {
        None
    }
}

/// A reference to a variable; the name must be declared.
fn declared(id: &str, ctx: &Context) -> (r: Result<Option<Expr>, ConvertError>)
    ensures
        opt_expr_result(r) == declared_identifier(id@, ctx@),
{
    match ctx.lookup_var(id) {
        Some(_) => Ok(Some(ident(String::from_str(id)))),
        None => Err(ConvertError::UndeclaredIdentifier),
    }
}

/// An identifier: the value of the macro it names, or a declared variable.
fn parse_identifier(id: &str, ctx: &Context) -> (r: Result<Option<Expr>, ConvertError>)
    ensures
        opt_expr_result(r) == identifier_expr(id@, ctx@),
{
    match ctx.lookup_macro(id) {
        Some(m) => match &m.1 {
            Type::Int => Ok(Some(int_lit(m.0.clone()))),
            Type::Bool => Ok(Some(bool_lit(str_eq(m.0.as_str(), "true")))),
            Type::Real => {
                if is_float_literal(m.0.as_str()) {
                    Ok(Some(real_lit(m.0.clone())))
                } else {
                    Err(ConvertError::InvalidRealMacro)
                }
            },
            _ => declared(id, ctx),
        },
        None => declared(id, ctx),
    }
}

/// `x++`/`x--` as a value is `x`; `++x` and `--x` are `x + 1` and `x - 1`.
fn parse_update_expr(n: &SyntaxNode, ctx: &Context) -> (r: Result<Option<Expr>, ConvertError>)
    ensures
        opt_expr_result(r) == update_expr(*n, ctx@),
{
    if n.children.len() < 2 {
        return Err(ConvertError::MissingChild);
    }
    let c0 = &n.children[0];
    let c1 = &n.children[1];
    if kind_is(c0, "identifier") {
        declared(c0.text.as_str(), ctx)
    } else {
        let id = c1.text.as_str();
        match ctx.lookup_var(id) {
            None => Err(ConvertError::UndeclaredIdentifier),
            Some(_) => {
                if kind_is(c0, "++") {
                    Ok(
                        Some(
                            Expr::Additive(
                                AdditiveOp::Add,
                                Box::new(ident(String::from_str(id))),
                                Box::new(int_lit_str("1")),
                            ),
                        ),
                    )
                } else if kind_is(c0, "--") {
                    Ok(
                        Some(
                            Expr::Additive(
                                AdditiveOp::Sub,
                                Box::new(ident(String::from_str(id))),
                                Box::new(int_lit_str("1")),
                            ),
                        ),
                    )
                } else {
                    Ok(None)
                }
            },
        }
    }
}

// ---------------------------------------------------------------------------
// Expressions.
// ---------------------------------------------------------------------------

/// The Dafny expression a C expression node stands for; `None` for the
/// forms the translation leaves out.
pub fn parse_expr(n: &SyntaxNode, ctx: &Context) -> (r: Result<Option<Expr>, ConvertError>)
    ensures
        opt_expr_result(r) == parsed_expr(*n, ctx@),
    decreases n, 1int,
{
    if kind_is(n, "parenthesized_expression") {
        if n.children.len() > 1 {
            parse_expr(&n.children[1], ctx)
        } else {
            Err(ConvertError::MissingChild)
        }
    } else if kind_is(n, "binary_expression") {
        parse_binary_expr(n, ctx)
    } else if kind_is(n, "identifier") {
        parse_identifier(n.text.as_str(), ctx)
    } else if kind_is(n, "unary_expression") {
        parse_unary_expr(n, ctx)
    } else if kind_is(n, "call_expression") {
        parse_call_expr(n, ctx)
    } else if kind_is(n, "number_literal") {
        Ok(Some(int_lit(n.text.clone())))
    } else if kind_is(n, "update_expression") {
        parse_update_expr(n, ctx)
    } else if kind_is(n, "false") {
        Ok(Some(bool_lit(false)))
    } else if kind_is(n, "true") {
        Ok(Some(bool_lit(true)))
    } else if kind_is(n, "subscript_expression") {
        parse_subscript_expr(n, ctx)
    } else if kind_is(n, "initializer_list") {
        Err(ConvertError::InitializerListExpression)
    } else {
        Ok(None)
    }
}

fn parse_binary_expr(n: &SyntaxNode, ctx: &Context) -> (r: Result<Option<Expr>, ConvertError>)
    ensures
        opt_expr_result(r) == parsed_binary(*n, ctx@),
    decreases n, 0int,
{
    if n.children.len() < 1 {
        return Err(ConvertError::MissingChild);
    }
    let lhs = parse_expr(&n.children[0], ctx)?;
    if n.children.len() < 3 {
        return Err(ConvertError::MissingChild);
    }
    let rhs = parse_expr(&n.children[2], ctx)?;
    match (lhs, rhs) {
        (Some(l), Some(r)) => Ok(binary_op(n.children[1].kind.as_str(), l, r, ctx)),
        _ => Ok(None),
    }
}

fn parse_unary_expr(n: &SyntaxNode, ctx: &Context) -> (r: Result<Option<Expr>, ConvertError>)
    ensures
        opt_expr_result(r) == parsed_unary(*n, ctx@),
    decreases n, 0int,
{
    if n.children.len() < 2 {
        return Err(ConvertError::MissingChild);
    }
    let op = &n.children[0];
    match parse_expr(&n.children[1], ctx)? {
        None => Ok(None),
        Some(e) => {
            if kind_is(op, "+") {
                Ok(Some(e))
            } else if kind_is(op, "-") {
                Ok(Some(Expr::Unary(UnaryOp::Neg, Box::new(e))))
            } else if kind_is(op, "!") {
                Ok(Some(Expr::Unary(UnaryOp::Not, Box::new(e))))
            } else {
                proof {
                    assert(unary_of(op.kind@, expr_view(e)) is None);
                }
                Ok(None)
            }
        },
    }
}

/// The arguments of a call: each node but parentheses and commas, as an
/// expression; nodes that stand for no expression are left out.
pub(crate) fn parse_args(s: &Vec<SyntaxNode>, ctx: &Context) -> (r: Result<Vec<Expr>, ConvertError>)
    ensures
        exprs_result(r) == parsed_args(s@, ctx@),
    decreases s, 0int,
{
    let mut out: Vec<Expr> = Vec::new();
    let n = s.len();
    let mut i: usize = 0;
    while i < n
        invariant
            n == s@.len(),
            i <= n,
            parsed_args(s@.subrange(0, i as int), ctx@) == Ok::<Seq<crate::dafny_ast::ExprView>, ConvertError>(
                exprs_view(out@),
            ),
        decreases n - i,
    {
        let a = &s[i];
        proof {
            assert(s@.subrange(0, i + 1).drop_last() =~= s@.subrange(0, i as int));
        }
        if kind_is(a, "(") || kind_is(a, ")") || kind_is(a, ",") {
        } else {
            match parse_expr(a, ctx) {
                Err(e) => {
                    proof {
                        lemma_args_err(s@, i + 1, ctx@);
                    }
                    return Err(e);
                },
                Ok(None) => {},
                Ok(Some(x)) => {
                    proof {
                        lemma_exprs_view_push(out@, x);
                    }
                    out.push(x);
                },
            }
        }
        i = i + 1;
    }
    assert(s@.subrange(0, n as int) =~= s@);
    Ok(out)
}

/// A call: `unknown*` functions stand for any value, `assume` for no
/// expression, any other function must be declared.
fn parse_call_expr(n: &SyntaxNode, ctx: &Context) -> (r: Result<Option<Expr>, ConvertError>)
    ensures
        opt_expr_result(r) == parsed_call(*n, ctx@),
    decreases n, 0int,
{
    if n.children.len() < 2 {
        return Err(ConvertError::MissingChild);
    }
    let args = parse_args(&n.children[1].children, ctx)?;
    let name = n.children[0].text.as_str();
    if is_unknown(name) {
        Ok(Some(star_lit()))
    } else if str_eq(name, "assume") {
        Ok(None)
    } else {
        match ctx.lookup_var(name) {
            None => Err(ConvertError::UndeclaredIdentifier),
            Some(_) => {
                let f = ident(String::from_str(name));
                let ghost fv = expr_view(f);
                let ghost av = exprs_view(args@);
                let p = PrimaryExpr::Call(Box::new(f), args);
                assert(primary_view(p) == PrimaryView::Call(Box::new(fv), av));
                Ok(Some(prim(p)))
            },
        }
    }
}

fn parse_subscript_expr(n: &SyntaxNode, ctx: &Context) -> (r: Result<Option<Expr>, ConvertError>)
    ensures
        opt_expr_result(r) == parsed_subscript(*n, ctx@),
    decreases n, 0int,
{
    if n.children.len() < 3 {
        return Err(ConvertError::MissingChild);
    }
    match parse_expr(&n.children[2], ctx)? {
        None => Ok(None),
        Some(i) => {
            let name = n.children[0].text.as_str();
            match ctx.lookup_var(name) {
                None => Err(ConvertError::UndeclaredIdentifier),
                Some(_) => {
                    let a = ident(String::from_str(name));
                    let ghost av = expr_view(a);
                    let ghost iv = expr_view(i);
                    let p = PrimaryExpr::Index(Box::new(a), Box::new(i));
                    assert(primary_view(p) == PrimaryView::Index(Box::new(av), Box::new(iv)));
                    Ok(Some(prim(p)))
                },
            }
        },
    }
}

} // verus!
