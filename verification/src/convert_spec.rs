//! What converting a C syntax tree gives as a Dafny syntax tree, stated
//! over the tree and the model of the context. Each function threads
//! the context the way the translation does, and says where it fails.
use vstd::prelude::*;

use crate::context::{declare_in, lookup_in_scopes, macro_body, macro_type, ContextView};
use crate::converter::ConvertError;
use crate::dafny_ast::{
    expr_view, exprs_view, stmts_view, Expr, Stmt, AdditiveOp, ClassView, ComparisonOp, ConstructorView, DeclarationView, EqualityOp, ExprView,
    FieldView, LhsView, LiteralView, MethodView, MultOp, ParamView, PrimaryView, ShiftOp,
    StmtView, TypeView, UnaryOp,
};
use crate::strings::{dec, float_syntax, trim};
use crate::syntax::{child, child_by_field, has_field, SyntaxNode};

verus! {

// ---------------------------------------------------------------------------
// Small pieces.
// ---------------------------------------------------------------------------

pub open spec fn ctx_lookup(c: ContextView, name: Seq<char>) -> Option<TypeView> {
    lookup_in_scopes(c.scopes, name)
}

pub open spec fn ctx_declare(c: ContextView, name: Seq<char>, ty: TypeView) -> ContextView {
    ContextView { scopes: declare_in(c.scopes, name, ty), ..c }
}

pub open spec fn ctx_macro(c: ContextView, name: Seq<char>, content: Seq<char>) -> ContextView {
    ContextView { macros: c.macros.insert(name, (macro_body(content), macro_type(content))), ..c }
}

pub open spec fn ident_expr(name: Seq<char>) -> ExprView {
    ExprView::Primary(PrimaryView::Identifier(name))
}

pub open spec fn int_literal(text: Seq<char>) -> ExprView {
    ExprView::Primary(PrimaryView::Literal(LiteralView::Integer(text)))
}

pub open spec fn bool_literal(b: bool) -> ExprView {
    ExprView::Primary(PrimaryView::Literal(LiteralView::Boolean(b)))
}

pub open spec fn real_literal(text: Seq<char>) -> ExprView {
    ExprView::Primary(PrimaryView::Literal(LiteralView::Real(text)))
}

pub open spec fn star_literal() -> ExprView {
    ExprView::Primary(PrimaryView::Literal(LiteralView::Star))
}

pub open spec fn this_literal() -> ExprView {
    ExprView::Primary(PrimaryView::Literal(LiteralView::This))
}

/// The Dafny type of a C type name.
pub open spec fn type_of_name(t: Seq<char>) -> Option<TypeView> {
    if t == "int"@ {
        Some(TypeView::Int)
    } else if t == "unsigned int"@ {
        Some(TypeView::Bv(32))
    } else if t == "unsigned char"@ {
        Some(TypeView::Bv(8))
    } else if t == "_Bool"@ {
        Some(TypeView::Bool)
    } else if t == "bool"@ {
        Some(TypeView::Bool)
    } else if t == "unsigned short"@ {
        Some(TypeView::Bv(16))
    } else if t == "unsigned long long"@ {
        Some(TypeView::Bv(64))
    } else if t == "float"@ {
        Some(TypeView::Real)
    } else {
        None
    }
}

/// The Dafny type of a type node: its text, trimmed, as a C type name.
pub open spec fn parsed_type(n: SyntaxNode) -> Option<TypeView> {
    type_of_name(trim(n.text@))
}

/// The type that the `type` field of a declaration names.
pub open spec fn type_of_decl(n: SyntaxNode) -> Option<TypeView> {
    match child_by_field(n, "type"@) {
        Some(t) => parsed_type(t),
        None => None,
    }
}

/// Calls of these functions stand for an arbitrary value.
pub open spec fn is_unknown_call(name: Seq<char>) -> bool {
    ||| name == "unknown_int"@
    ||| name == "unknown"@
    ||| name == "unknown_uint"@
    ||| name == "unknown_bool"@
    ||| name == "unknown_uchar"@
    ||| name == "unknown1"@
    ||| name == "unknown2"@
    ||| name == "unknown3"@
    ||| name == "unknown_ushort"@
    ||| name == "unknown_float"@
}

/// Whether values of type `t` (or the elements of an array of them, or the
/// results of a function returning them) divide in Dafny as in C: unsigned
/// bit-vectors and reals do; signed integers do not, since Dafny's `/` and
/// `%` round the quotient down and C's round it toward zero.
pub open spec fn divides_as_in_c(t: TypeView) -> bool
    decreases t,
{
    match t {
        TypeView::Bv(_) => true,
        TypeView::Real => true,
        TypeView::ArrayOf(inner) => divides_as_in_c(*inner),
        TypeView::Function(_, ret) => divides_as_in_c(*ret),
        _ => false,
    }
}

/// Whether an arithmetic expression is known to be of a type that divides in
/// Dafny as in C: it reaches a variable of such a type, or a real literal,
/// through arithmetic, negation, indexing, calls and conditionals.
pub open spec fn unsigned_or_real(e: ExprView, c: ContextView) -> bool
    decreases e,
{
    match e {
        ExprView::Primary(PrimaryView::Identifier(id)) => match ctx_lookup(c, id) {
            Some(t) => divides_as_in_c(t),
            None => false,
        },
        ExprView::Primary(PrimaryView::Literal(LiteralView::Real(_))) => true,
        ExprView::Primary(PrimaryView::Index(a, _)) => unsigned_or_real(*a, c),
        ExprView::Primary(PrimaryView::Call(f, _)) => unsigned_or_real(*f, c),
        ExprView::BitwiseOr(l, r) => unsigned_or_real(*l, c) || unsigned_or_real(*r, c),
        ExprView::BitwiseXor(l, r) => unsigned_or_real(*l, c) || unsigned_or_real(*r, c),
        ExprView::BitwiseAnd(l, r) => unsigned_or_real(*l, c) || unsigned_or_real(*r, c),
        ExprView::Shift(_, l, r) => unsigned_or_real(*l, c) || unsigned_or_real(*r, c),
        ExprView::Additive(_, l, r) => unsigned_or_real(*l, c) || unsigned_or_real(*r, c),
        ExprView::Mult(_, l, r) => unsigned_or_real(*l, c) || unsigned_or_real(*r, c),
        ExprView::Unary(UnaryOp::Neg, x) => unsigned_or_real(*x, c),
        ExprView::IfThenElse(_, t, f) => unsigned_or_real(*t, c) || unsigned_or_real(*f, c),
        _ => false,
    }
}

/// The name of the function of the definitions before every translated
/// program that divides (`Div`) or takes the remainder (`Mod`) as C does.
pub open spec fn c_arith_function(op: MultOp) -> Seq<char> {
    match op {
        MultOp::Div => "c_div"@,
        _ => "c_mod"@,
    }
}

/// C's division (`Div`) or remainder (`Mod`) of `l` by `r`: Dafny's
/// operator where an operand is unsigned or real, and otherwise a call of
/// `c_div` or `c_mod`, which round the quotient toward zero.
pub open spec fn c_arith(op: MultOp, l: ExprView, r: ExprView, c: ContextView) -> ExprView {
    if unsigned_or_real(l, c) || unsigned_or_real(r, c) {
        ExprView::Mult(op, Box::new(l), Box::new(r))
    } else {
        ExprView::Primary(PrimaryView::Call(Box::new(ident_expr(c_arith_function(op))), seq![l, r]))
    }
}

/// The expression a C binary operator builds, if it is one the
/// translation knows.
pub open spec fn binary_of(op: Seq<char>, l: ExprView, r: ExprView, c: ContextView) -> Option<ExprView> {
    let bl = Box::new(l);
    let br = Box::new(r);
    if op == "<"@ {
        Some(ExprView::Comparison(ComparisonOp::Lt, bl, br))
    } else if op == ">"@ {
        Some(ExprView::Comparison(ComparisonOp::Gt, bl, br))
    } else if op == "<="@ {
        Some(ExprView::Comparison(ComparisonOp::Le, bl, br))
    } else if op == ">="@ {
        Some(ExprView::Comparison(ComparisonOp::Ge, bl, br))
    } else if op == "=="@ {
        Some(ExprView::Equality(EqualityOp::Eq, bl, br))
    } else if op == "!="@ {
        Some(ExprView::Equality(EqualityOp::Ne, bl, br))
    } else if op == "+"@ {
        Some(ExprView::Additive(AdditiveOp::Add, bl, br))
    } else if op == "-"@ {
        Some(ExprView::Additive(AdditiveOp::Sub, bl, br))
    } else if op == "*"@ {
        Some(ExprView::Mult(MultOp::Mul, bl, br))
    } else if op == "/"@ {
        Some(c_arith(MultOp::Div, l, r, c))
    } else if op == "%"@ {
        Some(c_arith(MultOp::Mod, l, r, c))
    } else if op == "&&"@ {
        Some(ExprView::LogicalAnd(bl, br))
    } else if op == "||"@ {
        Some(ExprView::LogicalOr(bl, br))
    } else if op == "<<"@ {
        Some(ExprView::Shift(ShiftOp::Shl, bl, br))
    } else if op == ">>"@ {
        Some(ExprView::Shift(ShiftOp::Shr, bl, br))
    } else if op == "&"@ {
        Some(ExprView::BitwiseAnd(bl, br))
    } else if op == "|"@ {
        Some(ExprView::BitwiseOr(bl, br))
    } else if op == "^"@ {
        Some(ExprView::BitwiseXor(bl, br))
    } else {
        None
    }
}

/// The expression a C prefix operator builds, if it is one the
/// translation knows.
pub open spec fn unary_of(op: Seq<char>, e: ExprView) -> Option<ExprView> {
    if op == "+"@ {
        Some(e)
    } else if op == "-"@ {
        Some(ExprView::Unary(UnaryOp::Neg, Box::new(e)))
    } else if op == "!"@ {
        Some(ExprView::Unary(UnaryOp::Not, Box::new(e)))
    } else {
        None
    }
}

/// A variable reference; the name must be declared.
pub open spec fn declared_identifier(id: Seq<char>, c: ContextView) -> Result<
    Option<ExprView>,
    ConvertError,
> {
    match ctx_lookup(c, id) {
        Some(_) => Ok(Some(ident_expr(id))),
        None => Err(ConvertError::UndeclaredIdentifier),
    }
}

/// An identifier in an expression: a macro's value when it names a macro,
/// else a reference to a declared variable.
pub open spec fn identifier_expr(id: Seq<char>, c: ContextView) -> Result<
    Option<ExprView>,
    ConvertError,
> {
    if c.macros.contains_key(id) {
        let m = c.macros[id];
        match m.1 {
            TypeView::Int => Ok(Some(int_literal(m.0))),
            TypeView::Bool => Ok(Some(bool_literal(m.0 == "true"@))),
            TypeView::Real => if float_syntax(m.0) {
                Ok(Some(real_literal(m.0)))
            } else {
                Err(ConvertError::InvalidRealMacro)
            },
            _ => declared_identifier(id, c),
        }
    } else {
        declared_identifier(id, c)
    }
}

/// `x++` or `x--` used as a value: the variable itself, as it is before the
/// update; `++x` or `--x`: the variable plus or minus one.
pub open spec fn update_expr(n: SyntaxNode, c: ContextView) -> Result<Option<ExprView>, ConvertError> {
    match child(n, 0) {
        None => Err(ConvertError::MissingChild),
        Some(c0) => match child(n, 1) {
            None => Err(ConvertError::MissingChild),
            Some(c1) => if c0.kind@ == "identifier"@ {
                declared_identifier(c0.text@, c)
            } else {
                let id = c1.text@;
                match ctx_lookup(c, id) {
                    None => Err(ConvertError::UndeclaredIdentifier),
                    Some(_) => if c0.kind@ == "++"@ {
                        Ok(
                            Some(
                                ExprView::Additive(
                                    AdditiveOp::Add,
                                    Box::new(ident_expr(id)),
                                    Box::new(int_literal("1"@)),
                                ),
                            ),
                        )
                    } else if c0.kind@ == "--"@ {
                        Ok(
                            Some(
                                ExprView::Additive(
                                    AdditiveOp::Sub,
                                    Box::new(ident_expr(id)),
                                    Box::new(int_literal("1"@)),
                                ),
                            ),
                        )
                    } else {
                        Ok(None)
                    },
                }
            },
        },
    }
}

// ---------------------------------------------------------------------------
// Expressions.
// ---------------------------------------------------------------------------

/// The expression a node stands for; `None` for a form the translation
/// leaves out.
pub open spec fn parsed_expr(n: SyntaxNode, c: ContextView) -> Result<Option<ExprView>, ConvertError>
    decreases n, 1int,
{
    let k = n.kind@;
    if k == "parenthesized_expression"@ {
        match child(n, 1) {
            Some(x) => parsed_expr(x, c),
            None => Err(ConvertError::MissingChild),
        }
    } else if k == "binary_expression"@ {
        parsed_binary(n, c)
    } else if k == "identifier"@ {
        identifier_expr(n.text@, c)
    } else if k == "unary_expression"@ {
        parsed_unary(n, c)
    } else if k == "call_expression"@ {
        parsed_call(n, c)
    } else if k == "number_literal"@ {
        Ok(Some(int_literal(n.text@)))
    } else if k == "update_expression"@ {
        update_expr(n, c)
    } else if k == "false"@ {
        Ok(Some(bool_literal(false)))
    } else if k == "true"@ {
        Ok(Some(bool_literal(true)))
    } else if k == "subscript_expression"@ {
        parsed_subscript(n, c)
    } else if k == "initializer_list"@ {
        Err(ConvertError::InitializerListExpression)
    } else {
        Ok(None)
    }
}

pub open spec fn parsed_binary(n: SyntaxNode, c: ContextView) -> Result<Option<ExprView>, ConvertError>
    decreases n, 0int,
{
    match child(n, 0) {
        None => Err(ConvertError::MissingChild),
        Some(c0) => match parsed_expr(c0, c) {
            Err(e) => Err(e),
            Ok(lhs) => match child(n, 2) {
                None => Err(ConvertError::MissingChild),
                Some(c2) => match parsed_expr(c2, c) {
                    Err(e) => Err(e),
                    Ok(rhs) => if lhs is None || rhs is None {
                        Ok(None)
                    } else {
                        match child(n, 1) {
                            None => Err(ConvertError::MissingChild),
                            Some(c1) => Ok(binary_of(c1.kind@, lhs->0, rhs->0, c)),
                        }
                    },
                },
            },
        },
    }
}

pub open spec fn parsed_unary(n: SyntaxNode, c: ContextView) -> Result<Option<ExprView>, ConvertError>
    decreases n, 0int,
{
    match child(n, 0) {
        None => Err(ConvertError::MissingChild),
        Some(op) => match child(n, 1) {
            None => Err(ConvertError::MissingChild),
            Some(x) => match parsed_expr(x, c) {
                Err(e) => Err(e),
                Ok(None) => Ok(None),
                Ok(Some(e)) => Ok(unary_of(op.kind@, e)),
            },
        },
    }
}

/// The arguments of a call: each child but the parentheses and commas, as
/// an expression; the children that stand for no expression are left out.
pub open spec fn parsed_args(s: Seq<SyntaxNode>, c: ContextView) -> Result<Seq<ExprView>, ConvertError>
    decreases s, 0int,
{
    if s.len() == 0 {
        Ok(seq![])
    } else {
        match parsed_args(s.drop_last(), c) {
            Err(e) => Err(e),
            Ok(prev) => {
                let a = s.last();
                if a.kind@ == "("@ || a.kind@ == ")"@ || a.kind@ == ","@ {
                    Ok(prev)
                } else {
                    match parsed_expr(a, c) {
                        Err(e) => Err(e),
                        Ok(None) => Ok(prev),
                        Ok(Some(e)) => Ok(prev.push(e)),
                    }
                }
            },
        }
    }
}

pub open spec fn parsed_call(n: SyntaxNode, c: ContextView) -> Result<Option<ExprView>, ConvertError>
    decreases n, 0int,
{
    match child(n, 0) {
        None => Err(ConvertError::MissingChild),
        Some(f) => match child(n, 1) {
            None => Err(ConvertError::MissingChild),
            Some(al) => match parsed_args(al.children@, c) {
                Err(e) => Err(e),
                Ok(args) => {
                    let name = f.text@;
                    if is_unknown_call(name) {
                        Ok(Some(star_literal()))
                    } else if name == "assume"@ {
                        Ok(None)
                    } else {
                        match ctx_lookup(c, name) {
                            None => Err(ConvertError::UndeclaredIdentifier),
                            Some(_) => Ok(
                                Some(
                                    ExprView::Primary(
                                        PrimaryView::Call(Box::new(ident_expr(name)), args),
                                    ),
                                ),
                            ),
                        }
                    }
                },
            },
        },
    }
}

pub open spec fn parsed_subscript(n: SyntaxNode, c: ContextView) -> Result<
    Option<ExprView>,
    ConvertError,
>
    decreases n, 0int,
{
    match child(n, 0) {
        None => Err(ConvertError::MissingChild),
        Some(c0) => match child(n, 2) {
            None => Err(ConvertError::MissingChild),
            Some(c2) => match parsed_expr(c2, c) {
                Err(e) => Err(e),
                Ok(None) => Ok(None),
                Ok(Some(i)) => match ctx_lookup(c, c0.text@) {
                    None => Err(ConvertError::UndeclaredIdentifier),
                    Some(_) => Ok(
                        Some(
                            ExprView::Primary(
                                PrimaryView::Index(Box::new(ident_expr(c0.text@)), Box::new(i)),
                            ),
                        ),
                    ),
                },
            },
        },
    }
}

// ---------------------------------------------------------------------------
// Expression statements.
// ---------------------------------------------------------------------------

pub open spec fn parsed_lhs(n: SyntaxNode, c: ContextView) -> Result<Option<LhsView>, ConvertError> {
    if n.kind@ == "identifier"@ {
        match ctx_lookup(c, n.text@) {
            None => Err(ConvertError::UndeclaredIdentifier),
            Some(_) => Ok(Some(LhsView::Identifier(n.text@))),
        }
    } else if n.kind@ == "subscript_expression"@ {
        match child(n, 0) {
            None => Err(ConvertError::MissingChild),
            Some(c0) => match ctx_lookup(c, c0.text@) {
                None => Err(ConvertError::UndeclaredIdentifier),
                Some(_) => match child(n, 2) {
                    None => Err(ConvertError::MissingChild),
                    Some(c2) => match parsed_expr(c2, c) {
                        Err(e) => Err(e),
                        Ok(None) => Ok(None),
                        Ok(Some(i)) => Ok(Some(LhsView::Index(ident_expr(c0.text@), i))),
                    },
                },
            },
        }
    } else {
        Ok(None)
    }
}

/// The right-hand side of an assignment with operator `op`: `x op= e`
/// becomes `x := x op e` for `+ - * / % & | ^ << >>`, with C's division and
/// remainder; `=` assigns `e`.
pub open spec fn compound_assign(op: Seq<char>, lhs: ExprView, e: ExprView, c: ContextView) -> ExprView {
    let bl = Box::new(lhs);
    let be = Box::new(e);
    if op == "+="@ {
        ExprView::Additive(AdditiveOp::Add, bl, be)
    } else if op == "-="@ {
        ExprView::Additive(AdditiveOp::Sub, bl, be)
    } else if op == "*="@ {
        ExprView::Mult(MultOp::Mul, bl, be)
    } else if op == "/="@ {
        c_arith(MultOp::Div, lhs, e, c)
    } else if op == "%="@ {
        c_arith(MultOp::Mod, lhs, e, c)
    } else if op == "&="@ {
        ExprView::BitwiseAnd(bl, be)
    } else if op == "|="@ {
        ExprView::BitwiseOr(bl, be)
    } else if op == "^="@ {
        ExprView::BitwiseXor(bl, be)
    } else if op == "<<="@ {
        ExprView::Shift(ShiftOp::Shl, bl, be)
    } else if op == ">>="@ {
        ExprView::Shift(ShiftOp::Shr, bl, be)
    } else {
        e
    }
}

pub open spec fn parsed_assign(n: SyntaxNode, c: ContextView) -> Result<Option<StmtView>, ConvertError> {
    match child(n, 0) {
        None => Err(ConvertError::MissingChild),
        Some(c0) => match parsed_expr(c0, c) {
            Err(e) => Err(e),
            Ok(lhs_expr) => match parsed_lhs(c0, c) {
                Err(e) => Err(e),
                Ok(None) => Ok(None),
                Ok(Some(lhs)) => match child(n, 2) {
                    None => Err(ConvertError::MissingChild),
                    Some(c2) => match parsed_expr(c2, c) {
                        Err(e) => Err(e),
                        Ok(rhs) => {
                            let expr = match rhs {
                                Some(x) => x,
                                None => int_literal("0"@),
                            };
                            match lhs_expr {
                                None => Ok(None),
                                Some(le) => match child(n, 1) {
                                    None => Err(ConvertError::MissingChild),
                                    Some(c1) => Ok(
                                        Some(StmtView::Assign(lhs, compound_assign(c1.kind@, le, expr, c))),
                                    ),
                                },
                            }
                        },
                    },
                },
            },
        },
    }
}

/// `x++`, `++x`, `x--`, `--x` as a statement: `x := x + 1` or `x := x - 1`.
pub open spec fn parsed_update_stmt(n: SyntaxNode, c: ContextView) -> Result<
    Seq<StmtView>,
    ConvertError,
> {
    match child(n, 0) {
        None => Err(ConvertError::MissingChild),
        Some(c0) => match child(n, 1) {
            None => Err(ConvertError::MissingChild),
            Some(c1) => {
                let postfix = c0.kind@ == "identifier"@;
                let op = if postfix {
                    c1.kind@
                } else {
                    c0.kind@
                };
                let id = if postfix {
                    c0.text@
                } else {
                    c1.text@
                };
                match ctx_lookup(c, id) {
                    None => Err(ConvertError::UndeclaredIdentifier),
                    Some(_) => if op == "++"@ {
                        Ok(
                            seq![
                                StmtView::Assign(
                                    LhsView::Identifier(id),
                                    ExprView::Additive(
                                        AdditiveOp::Add,
                                        Box::new(ident_expr(id)),
                                        Box::new(int_literal("1"@)),
                                    ),
                                ),
                            ],
                        )
                    } else if op == "--"@ {
                        Ok(
                            seq![
                                StmtView::Assign(
                                    LhsView::Identifier(id),
                                    ExprView::Additive(
                                        AdditiveOp::Sub,
                                        Box::new(ident_expr(id)),
                                        Box::new(int_literal("1"@)),
                                    ),
                                ),
                            ],
                        )
                    } else {
                        Ok(seq![])
                    },
                }
            },
        },
    }
}

/// A call as a statement: `assume(e)` becomes an assumption of its first
/// argument, any other call a call statement.
pub open spec fn parsed_call_stmt(n: SyntaxNode, c: ContextView) -> Result<
    Seq<StmtView>,
    ConvertError,
> {
    match child(n, 0) {
        None => Err(ConvertError::MissingChild),
        Some(f) => match child(n, 1) {
            None => Err(ConvertError::MissingChild),
            Some(al) => match parsed_args(al.children@, c) {
                Err(e) => Err(e),
                Ok(args) => if f.text@ == "assume"@ {
                    if args.len() == 0 {
                        Err(ConvertError::AssumeWithoutArgument)
                    } else {
                        Ok(seq![StmtView::Assume(args[0])])
                    }
                } else {
                    Ok(seq![StmtView::Call(f.text@, args)])
                },
            },
        },
    }
}

pub open spec fn parsed_expr_stmt(n: SyntaxNode, c: ContextView) -> Result<
    Seq<StmtView>,
    ConvertError,
>
    decreases n,
{
    let k = n.kind@;
    if k == "assignment_expression"@ {
        match parsed_assign(n, c) {
            Err(e) => Err(e),
            Ok(None) => Ok(seq![]),
            Ok(Some(s)) => Ok(seq![s]),
        }
    } else if k == "comma_expression"@ {
        parsed_comma(n.children@, c)
    } else if k == "update_expression"@ {
        parsed_update_stmt(n, c)
    } else if k == "call_expression"@ {
        parsed_call_stmt(n, c)
    } else if k == "parenthesized_expression"@ {
        match child(n, 1) {
            None => Err(ConvertError::MissingChild),
            Some(x) => parsed_expr_stmt(x, c),
        }
    } else {
        Ok(seq![])
    }
}

/// The statements of the operands of a comma expression, in order.
pub open spec fn parsed_comma(s: Seq<SyntaxNode>, c: ContextView) -> Result<
    Seq<StmtView>,
    ConvertError,
>
    decreases s,
{
    if s.len() == 0 {
        Ok(seq![])
    } else {
        match parsed_comma(s.drop_last(), c) {
            Err(e) => Err(e),
            Ok(prev) => if s.last().kind@ == ","@ {
                Ok(prev)
            } else {
                match parsed_expr_stmt(s.last(), c) {
                    Err(e) => Err(e),
                    Ok(v) => Ok(prev + v),
                }
            },
        }
    }
}

// ---------------------------------------------------------------------------
// Declarations.
// ---------------------------------------------------------------------------

/// The value a `return` statement gives: its last expression child; an
/// identifier must be declared.
pub open spec fn return_value(s: Seq<SyntaxNode>, c: ContextView) -> Result<
    Option<ExprView>,
    ConvertError,
>
    decreases s.len(),
{
    if s.len() == 0 {
        Ok(None)
    } else {
        match return_value(s.drop_last(), c) {
            Err(e) => Err(e),
            Ok(prev) => {
                let x = s.last();
                if x.kind@ == "identifier"@ {
                    declared_identifier(x.text@, c)
                } else if x.kind@ == ";"@ || x.kind@ == "return"@ {
                    Ok(prev)
                } else {
                    parsed_expr(x, c)
                }
            },
        }
    }
}

/// `t` wrapped in `k` array types.
pub open spec fn array_of(t: TypeView, k: nat) -> TypeView
    decreases k,
{
    if k == 0 {
        t
    } else {
        TypeView::ArrayOf(Box::new(array_of(t, (k - 1) as nat)))
    }
}

/// The dimensions of an array declarator, and how many array types wrap
/// the element type: one per child that is not a bracket or the name.
pub open spec fn array_dims(s: Seq<SyntaxNode>, c: ContextView) -> Result<
    (Seq<ExprView>, nat),
    ConvertError,
>
    decreases s.len(),
{
    if s.len() == 0 {
        Ok((seq![], 0))
    } else {
        match array_dims(s.drop_last(), c) {
            Err(e) => Err(e),
            Ok(acc) => {
                let x = s.last();
                if x.kind@ == "["@ || x.kind@ == "]"@ || x.kind@ == "identifier"@ {
                    Ok(acc)
                } else {
                    match parsed_expr(x, c) {
                        Err(e) => Err(e),
                        Ok(None) => Ok((acc.0, acc.1 + 1)),
                        Ok(Some(d)) => Ok((acc.0.push(d), acc.1 + 1)),
                    }
                }
            },
        }
    }
}

/// An array declaration: a variable of the array type, allocated with the
/// dimensions; the variable is declared.
pub open spec fn parsed_array_decl(d: SyntaxNode, c: ContextView, base: TypeView) -> (Result<
    StmtView,
    ConvertError,
>, ContextView) {
    match child(d, 0) {
        None => (Err(ConvertError::MissingChild), c),
        Some(c0) => match array_dims(d.children@, c) {
            Err(e) => (Err(e), c),
            Ok(dims) => {
                let ty = array_of(base, dims.1);
                (
                    Ok(StmtView::DeclVar(c0.text@, ty, Some(ExprView::ArrayInit(dims.0, base)))),
                    ctx_declare(c, c0.text@, ty),
                )
            },
        },
    }
}

/// The assignments `a[i] := e` of an initializer list, from position `i`
/// of the list's children; `None` when an element is left out, or when
/// there are no elements.
pub open spec fn init_items(
    s: Seq<SyntaxNode>,
    i: int,
    c: ContextView,
    id: Seq<char>,
    acc: Seq<StmtView>,
) -> Result<Option<Seq<StmtView>>, ConvertError>
    decreases s.len() - i,
{
    if i < 0 || i >= s.len() {
        Ok(
            if acc.len() == 0 {
                None
            } else {
                Some(acc)
            },
        )
    } else {
        let x = s[i];
        if x.kind@ == "{"@ || x.kind@ == "}"@ || x.kind@ == ","@ {
            init_items(s, i + 1, c, id, acc)
        } else {
            match parsed_expr(x, c) {
                Err(e) => Err(e),
                Ok(None) => Ok(None),
                Ok(Some(e)) => init_items(
                    s,
                    i + 1,
                    c,
                    id,
                    acc.push(
                        StmtView::Assign(
                            LhsView::Index(ident_expr(id), int_literal(dec(acc.len()))),
                            e,
                        ),
                    ),
                ),
            }
        }
    }
}

pub open spec fn parsed_init_list(n: SyntaxNode, c: ContextView, id: Seq<char>) -> Result<
    Option<Seq<StmtView>>,
    ConvertError,
> {
    match ctx_lookup(c, id) {
        None => Err(ConvertError::UndeclaredIdentifier),
        Some(_) => init_items(n.children@, 0, c, id, seq![]),
    }
}

/// The name a declaration statement declares.
pub open spec fn decl_id(s: StmtView) -> Seq<char> {
    match s {
        StmtView::DeclVar(id, _, _) => id,
        _ => seq![],
    }
}

/// A declarator `a[d1]...[dk]` without initializer: the declaration's only
/// statement is the array's.
pub open spec fn decl_array(n: SyntaxNode, d: SyntaxNode, c: ContextView) -> (Result<
    Option<Seq<StmtView>>,
    ConvertError,
>, ContextView) {
    match type_of_decl(n) {
        None => (Ok(None), c),
        Some(base) => {
            let (r, c2) = parsed_array_decl(d, c, base);
            (
                match r {
                    Err(e) => Err(e),
                    Ok(s) => Ok(Some(seq![s])),
                },
                c2,
            )
        },
    }
}

/// A declarator `a[d1]...[dk] = { ... }`: the statements so far, the
/// array's, then the assignments of the initializer list; the declaration
/// ends there.
pub open spec fn decl_array_init(
    n: SyntaxNode,
    dn: SyntaxNode,
    v: SyntaxNode,
    c: ContextView,
    acc: Seq<StmtView>,
) -> (Result<Option<Seq<StmtView>>, ConvertError>, ContextView) {
    match type_of_decl(n) {
        None => (Ok(None), c),
        Some(base) => {
            let (r, c2) = parsed_array_decl(dn, c, base);
            match r {
                Err(e) => (Err(e), c2),
                Ok(s) => match parsed_init_list(v, c2, decl_id(s)) {
                    Err(e) => (Err(e), c2),
                    Ok(init) => (
                        Ok(
                            Some(
                                acc.push(s) + match init {
                                    Some(x) => x,
                                    None => seq![],
                                },
                            ),
                        ),
                        c2,
                    ),
                },
            }
        },
    }
}

/// The statements of a declaration, from its child `i` on, with `acc`
/// already collected. `None` when the type is not one the translation
/// knows, or when there is nothing to declare.
pub open spec fn decl_stmts(n: SyntaxNode, i: int, c: ContextView, acc: Seq<StmtView>) -> (Result<
    Option<Seq<StmtView>>,
    ConvertError,
>, ContextView)
    decreases n.children@.len() - i, 1int,
{
    if i < 0 || i >= n.children@.len() {
        (
            Ok(
                if acc.len() == 0 {
                    None
                } else {
                    Some(acc)
                },
            ),
            c,
        )
    } else {
        let d = n.children@[i];
        if !has_field(d, "declarator"@) || d.kind@ == "function_declarator"@ {
            decl_stmts(n, i + 1, c, acc)
        } else if d.kind@ == "array_declarator"@ {
            decl_array(n, d, c)
        } else if d.kind@ == "init_declarator"@ {
            match child_by_field(d, "declarator"@) {
                None => (Ok(None), c),
                Some(dn) => match child_by_field(d, "value"@) {
                    None => (Ok(None), c),
                    Some(v) => if dn.kind@ == "array_declarator"@ {
                        decl_array_init(n, dn, v, c, acc)
                    } else {
                        match parsed_expr(v, c) {
                            Err(e) => (Err(e), c),
                            Ok(init) => decl_var_then(n, i, c, acc, dn.text@, init),
                        }
                    },
                },
            }
        } else {
            decl_var_then(n, i, c, acc, d.text@, None)
        }
    }
}

/// Declares the variable `name` with the declaration's type and goes on
/// with child `i + 1`.
pub open spec fn decl_var_then(
    n: SyntaxNode,
    i: int,
    c: ContextView,
    acc: Seq<StmtView>,
    name: Seq<char>,
    init: Option<ExprView>,
) -> (Result<Option<Seq<StmtView>>, ConvertError>, ContextView)
    decreases n.children@.len() - i, 0int,
{
    match type_of_decl(n) {
        None => (Ok(None), c),
        Some(ty) => if 0 <= i < n.children@.len() {
            decl_stmts(
                n,
                i + 1,
                ctx_declare(c, name, ty),
                acc.push(StmtView::DeclVar(name, ty, init)),
            )
        } else {
            (Ok(None), c)
        },
    }
}

pub open spec fn parsed_declaration(n: SyntaxNode, c: ContextView) -> (Result<
    Option<Seq<StmtView>>,
    ConvertError,
>, ContextView) {
    decl_stmts(n, 0, c, seq![])
}

// ---------------------------------------------------------------------------
// Statements.
// ---------------------------------------------------------------------------

/// A `goto`: to `ERROR` asserts false, to `LOOPEND` breaks, to `END`
/// returns (zero, in a method with a return value); other labels are
/// dropped.
pub open spec fn goto_stmts(label: Seq<char>, c: ContextView, returns_value: bool) -> Result<
    Seq<StmtView>,
    ConvertError,
> {
    if label == "ERROR"@ {
        Ok(seq![StmtView::Assert(bool_literal(false))])
    } else if label == "LOOPEND"@ {
        Ok(seq![StmtView::Break])
    } else if label == "END"@ {
        if c.current_method is None {
            Err(ConvertError::NoCurrentMethod)
        } else if returns_value {
            Ok(seq![StmtView::Return(Some(int_literal("0"@)))])
        } else {
            Ok(seq![StmtView::Return(None)])
        }
    } else {
        Ok(seq![])
    }
}

/// The statements a statement node translates to (none for the forms the
/// translation leaves out). `returns_value`: the enclosing function has a
/// return type the translation knows.
pub open spec fn parsed_stmt(n: SyntaxNode, c: ContextView, returns_value: bool) -> (Result<
    Seq<StmtView>,
    ConvertError,
>, ContextView)
    decreases n, 1int,
{
    let k = n.kind@;
    if k == "return_statement"@ {
        (
            match return_value(n.children@, c) {
                Err(e) => Err(e),
                Ok(v) => Ok(seq![StmtView::Return(v)]),
            },
            c,
        )
    } else if k == "declaration"@ {
        let (r, c2) = parsed_declaration(n, c);
        (
            match r {
                Err(e) => Err(e),
                Ok(None) => Err(ConvertError::UnsupportedDeclaration),
                Ok(Some(v)) => Ok(v),
            },
            c2,
        )
    } else if k == "expression_statement"@ {
        (
            match child(n, 0) {
                None => Err(ConvertError::MissingChild),
                Some(x) => parsed_expr_stmt(x, c),
            },
            c,
        )
    } else if k == "while_statement"@ {
        parsed_while(n, c, returns_value)
    } else if k == "compound_statement"@ {
        stmts_of(n.children@, c, returns_value, true)
    } else if k == "if_statement"@ {
        parsed_if(n, c, returns_value)
    } else if k == "goto_statement"@ {
        (
            match child(n, 1) {
                None => Err(ConvertError::MissingChild),
                Some(l) => goto_stmts(l.text@, c, returns_value),
            },
            c,
        )
    } else if k == "labeled_statement"@ {
        match child(n, 2) {
            None => (Err(ConvertError::MissingChild), c),
            Some(x) => parsed_stmt(x, c, returns_value),
        }
    } else if k == "break_statement"@ {
        (Ok(seq![StmtView::Break]), c)
    } else if k == "continue_statement"@ {
        (Ok(seq![StmtView::Continue]), c)
    } else if k == "for_statement"@ {
        parsed_for(n, c, returns_value)
    } else {
        (Ok(seq![]), c)
    }
}

/// The statements of a sequence of statement nodes, in order; with
/// `skip_braces`, the nodes `{` and `}` are passed over.
pub open spec fn stmts_of(s: Seq<SyntaxNode>, c: ContextView, returns_value: bool, skip_braces: bool) -> (Result<
    Seq<StmtView>,
    ConvertError,
>, ContextView)
    decreases s, 0int,
{
    if s.len() == 0 {
        (Ok(seq![]), c)
    } else {
        let (r, c1) = stmts_of(s.drop_last(), c, returns_value, skip_braces);
        match r {
            Err(e) => (Err(e), c1),
            Ok(prev) => {
                let x = s.last();
                if skip_braces && (x.kind@ == "{"@ || x.kind@ == "}"@) {
                    (Ok(prev), c1)
                } else {
                    let (r2, c2) = parsed_stmt(x, c1, returns_value);
                    (
                        match r2 {
                            Err(e) => Err(e),
                            Ok(v) => Ok(prev + v),
                        },
                        c2,
                    )
                }
            },
        }
    }
}

/// A `while` loop with no invariants and `decreases *`; nothing when its
/// condition or its body translates to nothing.
pub open spec fn parsed_while(n: SyntaxNode, c: ContextView, returns_value: bool) -> (Result<
    Seq<StmtView>,
    ConvertError,
>, ContextView)
    decreases n, 0int,
{
    match child(n, 1) {
        None => (Err(ConvertError::MissingChild), c),
        Some(c1) => match parsed_expr(c1, c) {
            Err(e) => (Err(e), c),
            Ok(cond) => match child(n, 2) {
                None => (Err(ConvertError::MissingChild), c),
                Some(c2) => {
                    let (b, c3) = parsed_stmt(c2, c, returns_value);
                    match b {
                        Err(e) => (Err(e), c3),
                        Ok(body) => (
                            Ok(
                                if cond is Some && body.len() > 0 {
                                    seq![
                                        StmtView::WhileLoop(
                                            cond->0,
                                            seq![],
                                            seq![star_literal()],
                                            body,
                                        ),
                                    ]
                                } else {
                                    seq![]
                                },
                            ),
                            c3,
                        ),
                    }
                },
            },
        },
    }
}

/// An `if` statement; a condition that translates to nothing becomes
/// `true`, an `else` branch that translates to nothing is dropped.
pub open spec fn parsed_if(n: SyntaxNode, c: ContextView, returns_value: bool) -> (Result<
    Seq<StmtView>,
    ConvertError,
>, ContextView)
    decreases n, 0int,
{
    match child(n, 1) {
        None => (Err(ConvertError::MissingChild), c),
        Some(c1) => match parsed_expr(c1, c) {
            Err(e) => (Err(e), c),
            Ok(cond) => match child(n, 2) {
                None => (Err(ConvertError::MissingChild), c),
                Some(c2) => {
                    let (t, ct) = parsed_stmt(c2, c, returns_value);
                    match t {
                        Err(e) => (Err(e), ct),
                        Ok(then_stmts) => {
                            let (r, ce): (Result<Option<Seq<StmtView>>, ConvertError>, ContextView) =
                                match child(n, 3) {
                                None => (Ok(None), ct),
                                Some(ec) => match child(ec, 1) {
                                    None => (Err(ConvertError::MissingChild), ct),
                                    Some(e1) => {
                                        let (r1, c4) = parsed_stmt(e1, ct, returns_value);
                                        (
                                            match r1 {
                                                Err(e) => Err(e),
                                                Ok(v) => Ok(
                                                    if v.len() == 0 {
                                                        None
                                                    } else {
                                                        Some(v)
                                                    },
                                                ),
                                            },
                                            c4,
                                        )
                                    },
                                },
                            };
                            match r {
                                Err(e) => (Err(e), ce),
                                Ok(els) => (
                                    Ok(
                                        seq![
                                            StmtView::IfElse(
                                                match cond {
                                                    Some(x) => x,
                                                    None => bool_literal(true),
                                                },
                                                then_stmts,
                                                els,
                                            ),
                                        ],
                                    ),
                                    ce,
                                ),
                            }
                        },
                    }
                },
            },
        },
    }
}

/// Where the translation of a `for` statement stands after some of its
/// children: how many separators it has passed, and the parts so far.
pub struct ForState {
    pub counter: nat,
    pub init: Seq<StmtView>,
    pub cond: Seq<ExprView>,
    pub update: Seq<StmtView>,
    pub body: Seq<StmtView>,
}

pub open spec fn for_start() -> ForState {
    ForState { counter: 0, init: seq![], cond: seq![], update: seq![], body: seq![] }
}

/// One child of a `for` statement: `;` and `)` move on to the next part;
/// the part a child belongs to is the initialisation, the condition, the
/// update or the body, by the count so far.
pub open spec fn for_step(st: ForState, x: SyntaxNode, c: ContextView, returns_value: bool) -> (Result<
    ForState,
    ConvertError,
>, ContextView)
    decreases x, 2int,
{
    let k = x.kind@;
    if k == ";"@ || k == ")"@ {
        (Ok(ForState { counter: st.counter + 1, ..st }), c)
    } else if k == "("@ || k == "for"@ {
        (Ok(st), c)
    } else if st.counter == 0 {
        let (r, c1) = parsed_stmt(x, c, returns_value);
        (
            match r {
                Err(e) => Err(e),
                Ok(v) => Ok(ForState { counter: 1, init: st.init + v, ..st }),
            },
            c1,
        )
    } else if st.counter == 1 {
        (
            match parsed_expr(x, c) {
                Err(e) => Err(e),
                Ok(None) => Ok(ForState { cond: st.cond.push(bool_literal(true)), ..st }),
                Ok(Some(e)) => Ok(ForState { cond: st.cond.push(e), ..st }),
            },
            c,
        )
    } else if st.counter == 2 {
        (
            match parsed_expr_stmt(x, c) {
                Err(e) => Err(e),
                Ok(v) => Ok(ForState { update: st.update + v, ..st }),
            },
            c,
        )
    } else if st.counter == 3 {
        let (r, c1) = parsed_stmt(x, c, returns_value);
        (
            match r {
                Err(e) => Err(e),
                Ok(v) => Ok(ForState { body: st.body + v, ..st }),
            },
            c1,
        )
    } else {
        (Ok(st), c)
    }
}

pub open spec fn for_parts(s: Seq<SyntaxNode>, c: ContextView, returns_value: bool) -> (Result<
    ForState,
    ConvertError,
>, ContextView)
    decreases s, 0int,
{
    if s.len() == 0 {
        (Ok(for_start()), c)
    } else {
        let (r, c1) = for_parts(s.drop_last(), c, returns_value);
        match r {
            Err(e) => (Err(e), c1),
            Ok(st) => for_step(st, s.last(), c1, returns_value),
        }
    }
}

/// A `for` statement: its initialisation, then a `while` loop on its first
/// condition (or `true`) whose body is the loop's body followed by the
/// update.
pub open spec fn parsed_for(n: SyntaxNode, c: ContextView, returns_value: bool) -> (Result<
    Seq<StmtView>,
    ConvertError,
>, ContextView)
    decreases n, 0int,
{
    let (r, c1) = for_parts(n.children@, c, returns_value);
    match r {
        Err(e) => (Err(e), c1),
        Ok(st) => {
            let cond = if st.cond.len() == 0 {
                bool_literal(true)
            } else {
                st.cond[0]
            };
            (
                Ok(
                    st.init.push(
                        StmtView::WhileLoop(cond, seq![], seq![star_literal()], st.body + st.update),
                    ),
                ),
                c1,
            )
        },
    }
}

// ---------------------------------------------------------------------------
// Functions, global variables, macros and the program.
// ---------------------------------------------------------------------------

/// A function definition's name: the text of its declarator's declarator.
pub open spec fn func_name(n: SyntaxNode) -> Option<Seq<char>> {
    match child_by_field(n, "declarator"@) {
        None => None,
        Some(fd) => match child_by_field(fd, "declarator"@) {
            None => None,
            Some(x) => Some(x.text@),
        },
    }
}

/// A function definition's return type, if the translation knows it.
pub open spec fn func_type(n: SyntaxNode) -> Option<TypeView> {
    match child_by_field(n, "type"@) {
        None => None,
        Some(t) => parsed_type(t),
    }
}

/// The parameters among the nodes, each declared as it comes; `None` as
/// soon as one has no type the translation knows, or no name.
pub open spec fn params_of(s: Seq<SyntaxNode>, c: ContextView) -> (Option<Seq<ParamView>>, ContextView)
    decreases s.len(),
{
    if s.len() == 0 {
        (Some(seq![]), c)
    } else {
        let (r, c1) = params_of(s.drop_last(), c);
        match r {
            None => (None, c1),
            Some(prev) => {
                let p = s.last();
                if p.kind@ != "parameter_declaration"@ {
                    (Some(prev), c1)
                } else {
                    match type_of_decl(p) {
                        None => (None, c1),
                        Some(ty) => match child_by_field(p, "declarator"@) {
                            None => (None, c1),
                            Some(dn) => (
                                Some(prev.push(ParamView { id: dn.text@, ty })),
                                ctx_declare(c1, dn.text@, ty),
                            ),
                        },
                    }
                }
            },
        }
    }
}

pub open spec fn parsed_params(n: SyntaxNode, c: ContextView) -> (Option<Seq<ParamView>>, ContextView) {
    match child_by_field(n, "declarator"@) {
        None => (None, c),
        Some(fd) => match child_by_field(fd, "parameters"@) {
            None => (None, c),
            Some(ps) => params_of(ps.children@, c),
        },
    }
}

pub open spec fn has_top_return(s: Seq<StmtView>) -> bool {
    exists|i: int| 0 <= i < s.len() && s[i] is Return
}

/// The types of the parameters, in order.
pub open spec fn param_types(ps: Seq<ParamView>) -> Seq<TypeView>
    decreases ps.len(),
{
    if ps.len() == 0 {
        seq![]
    } else {
        param_types(ps.drop_last()).push(ps.last().ty)
    }
}

/// The type a function is declared with: its parameter types and its
/// return type (`void` when the translation knows none).
pub open spec fn function_type(params: Seq<ParamView>, ret: Option<TypeView>) -> TypeView {
    TypeView::Function(
        param_types(params),
        Box::new(
            match ret {
                Some(t) => t,
                None => TypeView::Named("void"@),
            },
        ),
    )
}

/// A function definition becomes a method: its parameters, a `ret` result
/// for a known return type, `requires false` for `errorFn` and `requires
/// true` otherwise, `modifies this`, `decreases *`, and its body, with
/// `return 0` added when it returns a value and has no top-level `return`.
/// The function is declared after its body; `None` without a body.
pub open spec fn parsed_function(n: SyntaxNode, c: ContextView) -> (Result<
    Option<MethodView>,
    ConvertError,
>, ContextView) {
    let ftype = func_type(n);
    let (params, c1) = parsed_params(n, c);
    match child_by_field(n, "body"@) {
        None => (Ok(None), c1),
        Some(body) => match func_name(n) {
            None => (Err(ConvertError::MissingFunctionName), c1),
            Some(id) => {
                let c2 = ContextView { current_method: Some(id), ..c1 };
                let (r, c3) = stmts_of(body.children@, c2, ftype is Some, false);
                match r {
                    Err(e) => (Err(e), c3),
                    Ok(stmts) => {
                        let block = if !has_top_return(stmts) && ftype is Some {
                            stmts.push(StmtView::Return(Some(int_literal("0"@))))
                        } else {
                            stmts
                        };
                        let ps = match params {
                            Some(p) => p,
                            None => seq![],
                        };
                        let rets = match ftype {
                            Some(t) => seq![ParamView { id: "ret"@, ty: t }],
                            None => seq![],
                        };
                        let c4 = ctx_declare(c3, id, function_type(ps, ftype));
                        let m = MethodView {
                            id,
                            params: ps,
                            returns: rets,
                            return_type: ftype,
                            requires: seq![bool_literal(id != "errorFn"@)],
                            ensures: seq![],
                            modifies: seq![this_literal()],
                            decreases: seq![star_literal()],
                            block,
                        };
                        (Ok(Some(m)), ContextView { current_method: None, ..c4 })
                    },
                }
            },
        },
    }
}

/// The fields of a global declaration, from its child `i` on; each is
/// declared as it comes. `None` when the type is not one the translation
/// knows, or when there is nothing to declare.
pub open spec fn global_fields(n: SyntaxNode, i: int, c: ContextView, acc: Seq<FieldView>) -> (Result<
    Option<Seq<FieldView>>,
    ConvertError,
>, ContextView)
    decreases n.children@.len() - i, 1int,
{
    if i < 0 || i >= n.children@.len() {
        (
            Ok(
                if acc.len() == 0 {
                    None
                } else {
                    Some(acc)
                },
            ),
            c,
        )
    } else {
        let d = n.children@[i];
        if !has_field(d, "declarator"@) || d.kind@ == "function_declarator"@ {
            global_fields(n, i + 1, c, acc)
        } else {
            match child_by_field(d, "value"@) {
                Some(v) => match child_by_field(d, "declarator"@) {
                    None => (Ok(None), c),
                    Some(dn) => match parsed_expr(v, c) {
                        Err(e) => (Err(e), c),
                        Ok(init) => global_field_then(n, i, c, acc, dn.text@, init),
                    },
                },
                None => global_field_then(n, i, c, acc, d.text@, None),
            }
        }
    }
}

pub open spec fn global_field_then(
    n: SyntaxNode,
    i: int,
    c: ContextView,
    acc: Seq<FieldView>,
    name: Seq<char>,
    init: Option<ExprView>,
) -> (Result<Option<Seq<FieldView>>, ConvertError>, ContextView)
    decreases n.children@.len() - i, 0int,
{
    match type_of_decl(n) {
        None => (Ok(None), c),
        Some(ty) => if 0 <= i < n.children@.len() {
            global_fields(
                n,
                i + 1,
                ctx_declare(c, name, ty),
                acc.push(FieldView { id: name, ty, init }),
            )
        } else {
            (Ok(None), c)
        },
    }
}

pub open spec fn parsed_global_var(n: SyntaxNode, c: ContextView) -> (Result<
    Option<Seq<FieldView>>,
    ConvertError,
>, ContextView) {
    global_fields(n, 0, c, seq![])
}

/// A `#define`: its name and its value, both trimmed, recorded as a macro.
pub open spec fn parsed_macro(n: SyntaxNode, c: ContextView) -> (Result<(), ConvertError>, ContextView) {
    match child(n, 1) {
        None => (Err(ConvertError::MissingChild), c),
        Some(a) => match child(n, 2) {
            None => (Err(ConvertError::MissingChild), c),
            Some(b) => (Ok(()), ctx_macro(c, trim(a.text@), trim(b.text@))),
        },
    }
}

/// The constructor that gives each global variable its initial value, or
/// zero.
pub open spec fn constructor_for(fields: Seq<FieldView>) -> ConstructorView {
    ConstructorView {
        params: seq![],
        requires: seq![],
        ensures: seq![],
        modifies: seq![this_literal()],
        block: field_inits(fields),
    }
}

/// The assignment that gives a field its initial value, or zero.
pub open spec fn field_init(f: FieldView) -> StmtView {
    StmtView::Assign(
        LhsView::Identifier(f.id),
        match f.init {
            Some(e) => e,
            None => int_literal("0"@),
        },
    )
}

/// The initial assignments of the fields, in order.
pub open spec fn field_inits(fields: Seq<FieldView>) -> Seq<StmtView>
    decreases fields.len(),
{
    if fields.len() == 0 {
        seq![]
    } else {
        field_inits(fields.drop_last()).push(field_init(fields.last()))
    }
}

/// The global variables and the methods of the top-level nodes, in order.
pub open spec fn top_level(s: Seq<SyntaxNode>, c: ContextView) -> (Result<
    (Seq<FieldView>, Seq<MethodView>),
    ConvertError,
>, ContextView)
    decreases s.len(),
{
    if s.len() == 0 {
        (Ok((seq![], seq![])), c)
    } else {
        let (r, c1) = top_level(s.drop_last(), c);
        match r {
            Err(e) => (Err(e), c1),
            Ok(acc) => {
                let x = s.last();
                let k = x.kind@;
                if k == "declaration"@ {
                    let (r2, c2) = parsed_global_var(x, c1);
                    (
                        match r2 {
                            Err(e) => Err(e),
                            Ok(None) => Ok(acc),
                            Ok(Some(f)) => Ok((acc.0 + f, acc.1)),
                        },
                        c2,
                    )
                } else if k == "function_definition"@ {
                    let (r2, c2) = parsed_function(x, c1);
                    (
                        match r2 {
                            Err(e) => Err(e),
                            Ok(None) => Ok(acc),
                            Ok(Some(m)) => Ok((acc.0, acc.1.push(m))),
                        },
                        c2,
                    )
                } else if k == "preproc_def"@ {
                    let (r2, c2) = parsed_macro(x, c1);
                    (
                        match r2 {
                            Err(e) => Err(e),
                            Ok(_) => Ok(acc),
                        },
                        c2,
                    )
                } else {
                    (Ok(acc), c1)
                }
            },
        }
    }
}

/// The Dafny program of a C translation unit: one class `CProgram` whose
/// fields are the global variables, whose constructor initialises them and
/// whose methods are the functions.
pub open spec fn converted(root: SyntaxNode, c: ContextView) -> (Result<
    Seq<DeclarationView>,
    ConvertError,
>, ContextView) {
    let (r, c1) = top_level(root.children@, c);
    (
        match r {
            Err(e) => Err(e),
            Ok(acc) => Ok(
                seq![
                    DeclarationView::Class(
                        ClassView {
                            id: "CProgram"@,
                            extends: None,
                            fields: acc.0,
                            constructor: Some(constructor_for(acc.0)),
                            methods: acc.1,
                        },
                    ),
                ],
            ),
        },
        c1,
    )
}

// ---------------------------------------------------------------------------
// Models of the translation's results, and how the list recursions behave
// once they fail.
// ---------------------------------------------------------------------------

pub open spec fn opt_expr_result(r: Result<Option<Expr>, ConvertError>) -> Result<
    Option<ExprView>,
    ConvertError,
> {
    match r {
        Ok(Some(e)) => Ok(Some(expr_view(e))),
        Ok(None) => Ok(None),
        Err(x) => Err(x),
    }
}

pub open spec fn exprs_result(r: Result<Vec<Expr>, ConvertError>) -> Result<Seq<ExprView>, ConvertError> {
    match r {
        Ok(v) => Ok(exprs_view(v@)),
        Err(x) => Err(x),
    }
}

pub open spec fn stmts_result(r: Result<Vec<Stmt>, ConvertError>) -> Result<Seq<StmtView>, ConvertError> {
    match r {
        Ok(v) => Ok(stmts_view(v@)),
        Err(x) => Err(x),
    }
}

pub open spec fn opt_stmts_result(r: Result<Option<Vec<Stmt>>, ConvertError>) -> Result<
    Option<Seq<StmtView>>,
    ConvertError,
> {
    match r {
        Ok(Some(v)) => Ok(Some(stmts_view(v@))),
        Ok(None) => Ok(None),
        Err(x) => Err(x),
    }
}

/// Once the arguments of a prefix fail, all of them fail the same way.
pub proof fn lemma_args_err(s: Seq<SyntaxNode>, i: int, c: ContextView)
    requires
        0 <= i <= s.len(),
        parsed_args(s.subrange(0, i), c) is Err,
    ensures
        parsed_args(s, c) == parsed_args(s.subrange(0, i), c),
    decreases s.len() - i,
{
    if i == s.len() {
        assert(s.subrange(0, i) =~= s);
    } else {
        assert(s.subrange(0, i + 1).drop_last() =~= s.subrange(0, i));
        lemma_args_err(s, i + 1, c);
    }
}

pub proof fn lemma_comma_err(s: Seq<SyntaxNode>, i: int, c: ContextView)
    requires
        0 <= i <= s.len(),
        parsed_comma(s.subrange(0, i), c) is Err,
    ensures
        parsed_comma(s, c) == parsed_comma(s.subrange(0, i), c),
    decreases s.len() - i,
{
    if i == s.len() {
        assert(s.subrange(0, i) =~= s);
    } else {
        assert(s.subrange(0, i + 1).drop_last() =~= s.subrange(0, i));
        lemma_comma_err(s, i + 1, c);
    }
}

pub proof fn lemma_return_err(s: Seq<SyntaxNode>, i: int, c: ContextView)
    requires
        0 <= i <= s.len(),
        return_value(s.subrange(0, i), c) is Err,
    ensures
        return_value(s, c) == return_value(s.subrange(0, i), c),
    decreases s.len() - i,
{
    if i == s.len() {
        assert(s.subrange(0, i) =~= s);
    } else {
        assert(s.subrange(0, i + 1).drop_last() =~= s.subrange(0, i));
        lemma_return_err(s, i + 1, c);
    }
}

pub proof fn lemma_dims_err(s: Seq<SyntaxNode>, i: int, c: ContextView)
    requires
        0 <= i <= s.len(),
        array_dims(s.subrange(0, i), c) is Err,
    ensures
        array_dims(s, c) == array_dims(s.subrange(0, i), c),
    decreases s.len() - i,
{
    if i == s.len() {
        assert(s.subrange(0, i) =~= s);
    } else {
        assert(s.subrange(0, i + 1).drop_last() =~= s.subrange(0, i));
        lemma_dims_err(s, i + 1, c);
    }
}

pub proof fn lemma_stmts_of_err(s: Seq<SyntaxNode>, i: int, c: ContextView, rv: bool, sb: bool)
    requires
        0 <= i <= s.len(),
        stmts_of(s.subrange(0, i), c, rv, sb).0 is Err,
    ensures
        stmts_of(s, c, rv, sb) == stmts_of(s.subrange(0, i), c, rv, sb),
    decreases s.len() - i,
{
    if i == s.len() {
        assert(s.subrange(0, i) =~= s);
    } else {
        assert(s.subrange(0, i + 1).drop_last() =~= s.subrange(0, i));
        lemma_stmts_of_err(s, i + 1, c, rv, sb);
    }
}

pub proof fn lemma_for_parts_err(s: Seq<SyntaxNode>, i: int, c: ContextView, rv: bool)
    requires
        0 <= i <= s.len(),
        for_parts(s.subrange(0, i), c, rv).0 is Err,
    ensures
        for_parts(s, c, rv) == for_parts(s.subrange(0, i), c, rv),
    decreases s.len() - i,
{
    if i == s.len() {
        assert(s.subrange(0, i) =~= s);
    } else {
        assert(s.subrange(0, i + 1).drop_last() =~= s.subrange(0, i));
        lemma_for_parts_err(s, i + 1, c, rv);
    }
}

pub proof fn lemma_params_none(s: Seq<SyntaxNode>, i: int, c: ContextView)
    requires
        0 <= i <= s.len(),
        params_of(s.subrange(0, i), c).0 is None,
    ensures
        params_of(s, c) == params_of(s.subrange(0, i), c),
    decreases s.len() - i,
{
    if i == s.len() {
        assert(s.subrange(0, i) =~= s);
    } else {
        assert(s.subrange(0, i + 1).drop_last() =~= s.subrange(0, i));
        lemma_params_none(s, i + 1, c);
    }
}

pub proof fn lemma_top_level_err(s: Seq<SyntaxNode>, i: int, c: ContextView)
    requires
        0 <= i <= s.len(),
        top_level(s.subrange(0, i), c).0 is Err,
    ensures
        top_level(s, c) == top_level(s.subrange(0, i), c),
    decreases s.len() - i,
{
    if i == s.len() {
        assert(s.subrange(0, i) =~= s);
    } else {
        assert(s.subrange(0, i + 1).drop_last() =~= s.subrange(0, i));
        lemma_top_level_err(s, i + 1, c);
    }
}

} // verus!
