//! The Dafny text of a syntax tree, stated over the tree's model, and the
//! trees that can be printed: those without the forms the printer does not
//! render, and whose nesting keeps the indentation level within `usize`.
use vstd::prelude::*;

use crate::dafny_ast::{
    AdditiveOp, CaseView, ClassView, ComparisonOp, ConstructorView, DatatypeView,
    DeclarationView, EqualityOp, ExprView, FieldView, FunctionView, LhsView, LiteralView,
    MethodView, MultOp, ParamView, PatternView, PredicateView, PrimaryView, ShiftOp, StmtView,
    TypeView, UnaryOp,
};
use crate::strings::dec;

verus! {

/// `k` levels of indentation, two spaces each.
pub open spec fn indent(k: nat) -> Seq<char>
    decreases k,
{
    if k == 0 {
        seq![]
    } else {
        indent((k - 1) as nat) + "  "@
    }
}

/// The pieces joined by a separator.
pub open spec fn join(parts: Seq<Seq<char>>, sep: Seq<char>) -> Seq<char>
    decreases parts.len(),
{
    if parts.len() == 0 {
        seq![]
    } else if parts.len() == 1 {
        parts.last()
    } else {
        join(parts.drop_last(), sep) + sep + parts.last()
    }
}

pub open spec fn type_str(t: TypeView) -> Seq<char>
    decreases t,
{
    match t {
        TypeView::Int => "int"@,
        TypeView::Bool => "bool"@,
        TypeView::Real => "real"@,
        TypeView::Bv(n) => "bv"@ + dec(n as nat),
        TypeView::SetOf(inner) => "set<"@ + type_str(*inner) + ">"@,
        TypeView::SeqOf(inner) => "seq<"@ + type_str(*inner) + ">"@,
        TypeView::ArrayOf(inner) => "array<"@ + type_str(*inner) + ">"@,
        TypeView::Named(name) => name,
        TypeView::Function(args, ret) => "("@ + types_str(args) + ") -> "@ + type_str(*ret),
    }
}

/// Types separated by `, `.
pub open spec fn types_str(s: Seq<TypeView>) -> Seq<char>
    decreases s,
{
    if s.len() == 0 {
        seq![]
    } else if s.len() == 1 {
        type_str(s.last())
    } else {
        types_str(s.drop_last()) + ", "@ + type_str(s.last())
    }
}

pub open spec fn equality_op_str(op: EqualityOp) -> Seq<char> {
    match op {
        EqualityOp::Eq => "=="@,
        EqualityOp::Ne => "!="@,
    }
}

pub open spec fn comparison_op_str(op: ComparisonOp) -> Seq<char> {
    match op {
        ComparisonOp::Lt => "<"@,
        ComparisonOp::Gt => ">"@,
        ComparisonOp::Le => "<="@,
        ComparisonOp::Ge => ">="@,
    }
}

pub open spec fn shift_op_str(op: ShiftOp) -> Seq<char> {
    match op {
        ShiftOp::Shl => "<<"@,
        ShiftOp::Shr => ">>"@,
    }
}

pub open spec fn additive_op_str(op: AdditiveOp) -> Seq<char> {
    match op {
        AdditiveOp::Add => "+"@,
        AdditiveOp::Sub => "-"@,
    }
}

pub open spec fn mult_op_str(op: MultOp) -> Seq<char> {
    match op {
        MultOp::Mul => "*"@,
        MultOp::Div => "/"@,
        MultOp::Mod => "%"@,
    }
}

pub open spec fn unary_op_str(op: UnaryOp) -> Seq<char> {
    match op {
        UnaryOp::Not => "!"@,
        UnaryOp::Neg => "-"@,
        UnaryOp::Old => "old"@,
    }
}

/// A binary operation, fully parenthesised: `(l op r)`.
pub open spec fn bin_str(l: Seq<char>, op: Seq<char>, r: Seq<char>) -> Seq<char> {
    "("@ + l + " "@ + op + " "@ + r + ")"@
}

pub open spec fn expr_str(e: ExprView) -> Seq<char>
    decreases e,
{
    match e {
        ExprView::LogicalOr(l, r) => bin_str(expr_str(*l), "||"@, expr_str(*r)),
        ExprView::LogicalAnd(l, r) => bin_str(expr_str(*l), "&&"@, expr_str(*r)),
        ExprView::Equality(op, l, r) => bin_str(expr_str(*l), equality_op_str(op), expr_str(*r)),
        ExprView::Comparison(op, l, r) => bin_str(
            expr_str(*l),
            comparison_op_str(op),
            expr_str(*r),
        ),
        ExprView::BitwiseOr(l, r) => bin_str(expr_str(*l), "|"@, expr_str(*r)),
        ExprView::BitwiseXor(l, r) => bin_str(expr_str(*l), "^"@, expr_str(*r)),
        ExprView::BitwiseAnd(l, r) => bin_str(expr_str(*l), "&"@, expr_str(*r)),
        ExprView::Shift(op, l, r) => bin_str(expr_str(*l), shift_op_str(op), expr_str(*r)),
        ExprView::Additive(op, l, r) => bin_str(expr_str(*l), additive_op_str(op), expr_str(*r)),
        ExprView::Mult(op, l, r) => bin_str(expr_str(*l), mult_op_str(op), expr_str(*r)),
        ExprView::Unary(op, x) => "("@ + unary_op_str(op) + " "@ + expr_str(*x) + ")"@,
        ExprView::Primary(p) => primary_str(p),
        ExprView::IfThenElse(c, t, f) => "if "@ + expr_str(*c) + " then "@ + expr_str(*t)
            + " else "@ + expr_str(*f),
        ExprView::Forall(..) => seq![],
        ExprView::Exists(..) => seq![],
        ExprView::ArrayInit(dims, t) => "new "@ + type_str(t) + "["@ + exprs_str(dims) + "]"@,
    }
}

/// Expressions separated by `, `.
pub open spec fn exprs_str(s: Seq<ExprView>) -> Seq<char>
    decreases s,
{
    if s.len() == 0 {
        seq![]
    } else if s.len() == 1 {
        expr_str(s.last())
    } else {
        exprs_str(s.drop_last()) + ", "@ + expr_str(s.last())
    }
}

pub open spec fn primary_str(p: PrimaryView) -> Seq<char>
    decreases p,
{
    match p {
        PrimaryView::Literal(l) => literal_str(l),
        PrimaryView::Identifier(name) => name,
        PrimaryView::Index(a, i) => expr_str(*a) + "["@ + expr_str(*i) + "]"@,
        PrimaryView::MemberAccess(o, name) => expr_str(*o) + "."@ + name,
        PrimaryView::Call(f, args) => expr_str(*f) + "("@ + exprs_str(args) + ")"@,
    }
}

pub open spec fn literal_str(l: LiteralView) -> Seq<char>
    decreases l,
{
    match l {
        LiteralView::Integer(v) => v,
        LiteralView::Boolean(b) => if b {
            "true"@
        } else {
            "false"@
        },
        LiteralView::Null => "null"@,
        LiteralView::Star => "*"@,
        LiteralView::This => "this"@,
        LiteralView::Sequence(items) => "["@ + exprs_str(items) + "]"@,
        LiteralView::Real(text) => text,
    }
}

pub open spec fn lhs_str(l: LhsView) -> Seq<char> {
    match l {
        LhsView::Identifier(name) => name,
        LhsView::MemberAccess(o, f) => expr_str(o) + "."@ + f,
        LhsView::Index(a, i) => expr_str(a) + "["@ + expr_str(i) + "]"@,
    }
}

pub open spec fn pattern_str(p: PatternView) -> Seq<char>
    decreases p,
{
    match p {
        PatternView::Identifier(name) => name,
        PatternView::Constructor(name, subs) => name + "("@ + patterns_str(subs) + ")"@,
    }
}

/// Patterns separated by `, `.
pub open spec fn patterns_str(s: Seq<PatternView>) -> Seq<char>
    decreases s,
{
    if s.len() == 0 {
        seq![]
    } else if s.len() == 1 {
        pattern_str(s.last())
    } else {
        patterns_str(s.drop_last()) + ", "@ + pattern_str(s.last())
    }
}

/// A statement at indentation level `k`.
pub open spec fn stmt_str(s: StmtView, k: nat) -> Seq<char>
    decreases s,
{
    indent(k) + match s {
        StmtView::Assign(lhs, e) => lhs_str(lhs) + " := "@ + expr_str(e) + ";"@,
        StmtView::IfElse(c, t, f) => {
            let head = "if ("@ + expr_str(c) + ") {\n"@ + block_str(t, k + 1) + indent(k) + "}"@;
            match f {
                Some(b) => head + " else {\n"@ + block_str(b, k + 1) + indent(k) + "}"@,
                None => head,
            }
        },
        StmtView::WhileLoop(c, inv, dec, body) => {
            let s0 = "while "@ + expr_str(c) + "\n"@;
            let s1 = if inv.len() > 0 {
                s0 + indent(k + 1) + "invariant "@ + exprs_str(inv) + "\n"@
            } else {
                s0
            };
            let s2 = if dec.len() > 0 {
                s1 + indent(k + 1) + "decreases "@ + exprs_str(dec) + "\n"@
            } else {
                s1
            };
            s2 + indent(k) + "{\n"@ + block_str(body, k + 1) + indent(k) + "}"@
        },
        StmtView::ForLoop(id, start, end, body) => "for "@ + id + " := "@ + expr_str(start)
            + " to "@ + expr_str(end) + " {\n"@ + block_str(body, k + 1) + indent(k) + "}"@,
        StmtView::Match(e, cases) => "match "@ + expr_str(e) + " {\n"@ + cases_str(cases, k + 1)
            + indent(k) + "}"@,
        StmtView::Assert(e) => "assert "@ + expr_str(e) + ";"@,
        StmtView::Print(e) => "print "@ + expr_str(e) + ";"@,
        StmtView::Return(e) => "return "@ + match e {
            Some(x) => expr_str(x),
            None => ""@,
        } + ";"@,
        StmtView::DeclVar(id, ty, init) => match init {
            Some(x) => "var "@ + id + " : "@ + type_str(ty) + " := "@ + expr_str(x) + ";"@,
            None => "var "@ + id + " : "@ + type_str(ty) + ";"@,
        },
        StmtView::Break => "break;"@,
        StmtView::Continue => "continue;"@,
        StmtView::Assume(e) => "assume "@ + expr_str(e) + ";"@,
        StmtView::Call(id, args) => id + "("@ + exprs_str(args) + ");"@,
    }
}

/// The statements of a block at level `k`, each followed by a line break.
pub open spec fn block_str(s: Seq<StmtView>, k: nat) -> Seq<char>
    decreases s,
{
    if s.len() == 0 {
        seq![]
    } else {
        block_str(s.drop_last(), k) + stmt_str(s.last(), k) + "\n"@
    }
}

/// The cases of a `match`, each at level `k` and followed by a line break.
pub open spec fn cases_str(s: Seq<CaseView>, k: nat) -> Seq<char>
    decreases s,
{
    if s.len() == 0 {
        seq![]
    } else {
        cases_str(s.drop_last(), k) + case_str(s.last(), k) + "\n"@
    }
}

pub open spec fn case_str(c: CaseView, k: nat) -> Seq<char>
    decreases c,
{
    indent(k) + "case "@ + pattern_str(c.pattern) + " => {\n"@ + case_stmts_str(c.stmts, k + 1)
        + indent(k) + "}"@
}

/// The statements of a case: two more spaces, the statement at level `k`,
/// a line break.
pub open spec fn case_stmts_str(s: Seq<StmtView>, k: nat) -> Seq<char>
    decreases s,
{
    if s.len() == 0 {
        seq![]
    } else {
        case_stmts_str(s.drop_last(), k) + "  "@ + stmt_str(s.last(), k) + "\n"@
    }
}

pub open spec fn param_str(p: ParamView) -> Seq<char> {
    p.id + ": "@ + type_str(p.ty)
}

/// Parameters (or return variables) separated by `, `.
pub open spec fn params_str(ps: Seq<ParamView>) -> Seq<char> {
    join(ps.map_values(|p: ParamView| param_str(p)), ", "@)
}

/// A clause of a method or function header: a line break, the indentation,
/// the keyword and the expressions; nothing when there are no expressions.
pub open spec fn clause_str(s: Seq<char>, k: nat, keyword: Seq<char>, es: Seq<ExprView>) -> Seq<
    char,
> {
    if es.len() > 0 {
        s + "\n"@ + indent(k) + keyword + exprs_str(es)
    } else {
        s
    }
}

pub open spec fn method_str(m: MethodView, k: nat) -> Seq<char> {
    let s0 = indent(k) + "method "@ + m.id + "("@ + params_str(m.params) + ")"@;
    let s1 = if m.returns.len() > 0 {
        s0 + " returns ("@ + params_str(m.returns) + ")"@
    } else {
        s0
    };
    let s2 = clause_str(s1, k + 1, "requires "@, m.requires);
    let s3 = clause_str(s2, k + 1, "ensures "@, m.ensures);
    let s4 = clause_str(s3, k + 1, "decreases "@, m.decreases);
    let s5 = clause_str(s4, k + 1, "modifies "@, m.modifies);
    s5 + "\n"@ + indent(k) + "{\n"@ + block_str(m.block, k + 1) + indent(k) + "}\n"@
}

pub open spec fn function_str(f: FunctionView, k: nat) -> Seq<char> {
    let s0 = indent(k) + ("function "@ + f.id + "("@ + params_str(f.params) + ") : "@ + type_str(
        f.return_type,
    ));
    let s1 = clause_str(s0, k + 1, "requires "@, f.requires);
    let s2 = clause_str(s1, k + 1, "ensures "@, f.ensures);
    s2 + " {\n"@ + indent(k + 1) + expr_str(f.body) + ";\n"@ + indent(k) + "}\n"@
}

pub open spec fn predicate_str(p: PredicateView, k: nat) -> Seq<char> {
    let s0 = indent(k) + "predicate "@ + p.id + "("@ + params_str(p.params) + ")"@;
    let s1 = clause_str(s0, k, "requires "@, p.requires);
    s1 + " {\n  "@ + indent(k + 1) + expr_str(p.body) + "\n}\n"@
}

pub open spec fn constructor_str(c: ConstructorView, k: nat) -> Seq<char> {
    indent(k) + "constructor("@ + params_str(c.params) + "){\n"@ + block_str(c.block, k + 1)
        + indent(k) + "}"@
}

pub open spec fn datatype_str(d: DatatypeView, k: nat) -> Seq<char> {
    "  datatype "@ + d.id + " = "@ + join(
        d.constructors.map_values(|c: ConstructorView| constructor_str(c, k)),
        " | "@,
    ) + ";\n"@
}

pub open spec fn field_str(f: FieldView, k: nat) -> Seq<char> {
    indent(k) + "var "@ + f.id + ": "@ + type_str(f.ty) + "\n"@
}

/// The fields of a class, each on its own line at level `k`.
pub open spec fn fields_str(fs: Seq<FieldView>, k: nat) -> Seq<char>
    decreases fs.len(),
{
    if fs.len() == 0 {
        seq![]
    } else {
        fields_str(fs.drop_last(), k) + field_str(fs.last(), k)
    }
}

/// The methods of a class at level `k`, each followed by a line break.
pub open spec fn methods_str(ms: Seq<MethodView>, k: nat) -> Seq<char>
    decreases ms.len(),
{
    if ms.len() == 0 {
        seq![]
    } else {
        methods_str(ms.drop_last(), k) + method_str(ms.last(), k) + "\n"@
    }
}

pub open spec fn class_str(c: ClassView, k: nat) -> Seq<char> {
    let s0 = indent(k) + "class "@ + c.id;
    let s1 = match c.extends {
        Some(parent) => s0 + (" extends "@ + type_str(parent)),
        None => s0,
    };
    let s2 = s1 + " {\n"@ + fields_str(c.fields, k + 1);
    let s3 = match c.constructor {
        Some(k0) => s2 + constructor_str(k0, k + 1) + "\n"@,
        None => s2,
    };
    s3 + methods_str(c.methods, k + 1) + "}\n"@
}

pub open spec fn declaration_str(d: DeclarationView, k: nat) -> Seq<char> {
    match d {
        DeclarationView::Method(m) => method_str(m, k),
        DeclarationView::Function(f) => function_str(f, k),
        DeclarationView::Predicate(p) => predicate_str(p, k),
        DeclarationView::Datatype(x) => datatype_str(x, k),
        DeclarationView::Class(c) => class_str(c, k),
    }
}

/// A program: each declaration at level 0 followed by a line break.
pub open spec fn program_str(ds: Seq<DeclarationView>) -> Seq<char>
    decreases ds.len(),
{
    if ds.len() == 0 {
        seq![]
    } else {
        program_str(ds.drop_last()) + declaration_str(ds.last(), 0) + "\n"@
    }
}

// ---------------------------------------------------------------------------
// Which trees the printer renders.
// ---------------------------------------------------------------------------

/// An expression without quantifiers,
/// which the printer does not render.
pub open spec fn printable_expr(e: ExprView) -> bool
    decreases e,
{
    match e {
        ExprView::LogicalOr(l, r) => printable_expr(*l) && printable_expr(*r),
        ExprView::LogicalAnd(l, r) => printable_expr(*l) && printable_expr(*r),
        ExprView::Equality(_, l, r) => printable_expr(*l) && printable_expr(*r),
        ExprView::Comparison(_, l, r) => printable_expr(*l) && printable_expr(*r),
        ExprView::BitwiseOr(l, r) => printable_expr(*l) && printable_expr(*r),
        ExprView::BitwiseXor(l, r) => printable_expr(*l) && printable_expr(*r),
        ExprView::BitwiseAnd(l, r) => printable_expr(*l) && printable_expr(*r),
        ExprView::Shift(_, l, r) => printable_expr(*l) && printable_expr(*r),
        ExprView::Additive(_, l, r) => printable_expr(*l) && printable_expr(*r),
        ExprView::Mult(_, l, r) => printable_expr(*l) && printable_expr(*r),
        ExprView::Unary(_, x) => printable_expr(*x),
        ExprView::Primary(p) => printable_primary(p),
        ExprView::IfThenElse(c, t, f) => printable_expr(*c) && printable_expr(*t)
            && printable_expr(*f),
        ExprView::Forall(..) => false,
        ExprView::Exists(..) => false,
        ExprView::ArrayInit(dims, _) => printable_exprs(dims),
    }
}

pub open spec fn printable_exprs(s: Seq<ExprView>) -> bool
    decreases s,
{
    s.len() == 0 || (printable_exprs(s.drop_last()) && printable_expr(s.last()))
}

pub open spec fn printable_primary(p: PrimaryView) -> bool
    decreases p,
{
    match p {
        PrimaryView::Literal(l) => printable_literal(l),
        PrimaryView::Identifier(_) => true,
        PrimaryView::Index(a, i) => printable_expr(*a) && printable_expr(*i),
        PrimaryView::MemberAccess(o, _) => printable_expr(*o),
        PrimaryView::Call(f, args) => printable_expr(*f) && printable_exprs(args),
    }
}

pub open spec fn printable_literal(l: LiteralView) -> bool
    decreases l,
{
    match l {
        LiteralView::Sequence(items) => printable_exprs(items),
        _ => true,
    }
}

pub open spec fn printable_opt_expr(e: Option<ExprView>) -> bool {
    match e {
        Some(x) => printable_expr(x),
        None => true,
    }
}

pub open spec fn printable_lhs(l: LhsView) -> bool {
    match l {
        LhsView::Identifier(_) => true,
        LhsView::MemberAccess(o, _) => printable_expr(o),
        LhsView::Index(a, i) => printable_expr(a) && printable_expr(i),
    }
}

/// A statement the printer renders at level `k` without its indentation
/// level overflowing: printable expressions, and `k` plus the statement's nesting depth below
/// `usize::MAX`.
pub open spec fn printable_stmt(s: StmtView, k: nat) -> bool
    decreases s,
{
    match s {
        StmtView::Assign(lhs, e) => printable_lhs(lhs) && printable_expr(e),
        StmtView::IfElse(c, t, f) => k + 1 < usize::MAX && printable_expr(c) && printable_block(
            t,
            k + 1,
        ) && match f {
            Some(b) => printable_block(b, k + 1),
            None => true,
        },
        StmtView::WhileLoop(c, inv, dec, body) => k + 1 < usize::MAX && printable_expr(c)
            && printable_exprs(inv) && printable_exprs(dec) && printable_block(body, k + 1),
        StmtView::ForLoop(_, start, end, body) => k + 1 < usize::MAX && printable_expr(start)
            && printable_expr(end) && printable_block(body, k + 1),
        StmtView::Match(e, cases) => k + 1 < usize::MAX && printable_expr(e) && printable_cases(
            cases,
            k + 1,
        ),
        StmtView::Assert(e) => printable_expr(e),
        StmtView::Print(e) => printable_expr(e),
        StmtView::Return(e) => printable_opt_expr(e),
        StmtView::DeclVar(_, _, init) => printable_opt_expr(init),
        StmtView::Break => true,
        StmtView::Continue => true,
        StmtView::Assume(e) => printable_expr(e),
        StmtView::Call(_, args) => printable_exprs(args),
    }
}

pub open spec fn printable_block(s: Seq<StmtView>, k: nat) -> bool
    decreases s,
{
    s.len() == 0 || (printable_block(s.drop_last(), k) && printable_stmt(s.last(), k))
}

pub open spec fn printable_cases(s: Seq<CaseView>, k: nat) -> bool
    decreases s,
{
    s.len() == 0 || (printable_cases(s.drop_last(), k) && printable_case(s.last(), k))
}

pub open spec fn printable_case(c: CaseView, k: nat) -> bool
    decreases c,
{
    k + 1 < usize::MAX && printable_block(c.stmts, k + 1)
}

pub open spec fn printable_method(m: MethodView, k: nat) -> bool {
    &&& k + 1 < usize::MAX
    &&& printable_exprs(m.requires)
    &&& printable_exprs(m.ensures)
    &&& printable_exprs(m.decreases)
    &&& printable_exprs(m.modifies)
    &&& printable_block(m.block, k + 1)
}

pub open spec fn printable_function(f: FunctionView, k: nat) -> bool {
    &&& k + 1 < usize::MAX
    &&& printable_exprs(f.requires)
    &&& printable_exprs(f.ensures)
    &&& printable_expr(f.body)
}

pub open spec fn printable_predicate(p: PredicateView, k: nat) -> bool {
    &&& k + 1 < usize::MAX
    &&& printable_exprs(p.requires)
    &&& printable_expr(p.body)
}

pub open spec fn printable_constructor(c: ConstructorView, k: nat) -> bool {
    k + 1 < usize::MAX && printable_block(c.block, k + 1)
}

pub open spec fn printable_class(c: ClassView, k: nat) -> bool {
    &&& k + 1 < usize::MAX
    &&& match c.constructor {
        Some(k0) => printable_constructor(k0, k + 1),
        None => true,
    }
    &&& forall|i: int| 0 <= i < c.methods.len() ==> printable_method(#[trigger] c.methods[i], k + 1)
}

pub open spec fn printable_datatype(d: DatatypeView, k: nat) -> bool {
    forall|i: int| 0 <= i < d.constructors.len() ==> printable_constructor(#[trigger] d.constructors[i], k)
}

pub open spec fn printable_declaration(d: DeclarationView, k: nat) -> bool {
    match d {
        DeclarationView::Method(m) => printable_method(m, k),
        DeclarationView::Function(f) => printable_function(f, k),
        DeclarationView::Predicate(p) => printable_predicate(p, k),
        DeclarationView::Datatype(x) => printable_datatype(x, k),
        DeclarationView::Class(c) => printable_class(c, k),
    }
}

/// A program the printer renders.
pub open spec fn printable_program(ds: Seq<DeclarationView>) -> bool {
    forall|i: int| 0 <= i < ds.len() ==> printable_declaration(#[trigger] ds[i], 0)
}

pub proof fn lemma_printable_exprs(s: Seq<ExprView>)
    requires
        printable_exprs(s),
    ensures
        forall|i: int| 0 <= i < s.len() ==> printable_expr(#[trigger] s[i]),
    decreases s.len(),
{
    if s.len() > 0 {
        lemma_printable_exprs(s.drop_last());
        assert forall|i: int| 0 <= i < s.len() implies printable_expr(#[trigger] s[i]) by {
            if i < s.len() - 1 {
                assert(s[i] == s.drop_last()[i]);
            }
        }
    }
}

pub proof fn lemma_printable_block(s: Seq<StmtView>, k: nat)
    requires
        printable_block(s, k),
    ensures
        forall|i: int| 0 <= i < s.len() ==> printable_stmt(#[trigger] s[i], k),
    decreases s.len(),
{
    if s.len() > 0 {
        lemma_printable_block(s.drop_last(), k);
        assert forall|i: int| 0 <= i < s.len() implies printable_stmt(#[trigger] s[i], k) by {
            if i < s.len() - 1 {
                assert(s[i] == s.drop_last()[i]);
            }
        }
    }
}

pub proof fn lemma_printable_cases(s: Seq<CaseView>, k: nat)
    requires
        printable_cases(s, k),
    ensures
        forall|i: int| 0 <= i < s.len() ==> printable_case(#[trigger] s[i], k),
    decreases s.len(),
{
    if s.len() > 0 {
        lemma_printable_cases(s.drop_last(), k);
        assert forall|i: int| 0 <= i < s.len() implies printable_case(#[trigger] s[i], k) by {
            if i < s.len() - 1 {
                assert(s[i] == s.drop_last()[i]);
            }
        }
    }
}

pub proof fn lemma_types_str_push(x: Seq<TypeView>, y: TypeView)
    ensures
        types_str(x.push(y)) == if x.len() == 0 {
            type_str(y)
        } else {
            types_str(x) + ", "@ + type_str(y)
        },
{
    assert(x.push(y).drop_last() =~= x);
}

pub proof fn lemma_exprs_str_push(x: Seq<ExprView>, y: ExprView)
    ensures
        exprs_str(x.push(y)) == if x.len() == 0 {
            expr_str(y)
        } else {
            exprs_str(x) + ", "@ + expr_str(y)
        },
{
    assert(x.push(y).drop_last() =~= x);
}

pub proof fn lemma_patterns_str_push(x: Seq<PatternView>, y: PatternView)
    ensures
        patterns_str(x.push(y)) == if x.len() == 0 {
            pattern_str(y)
        } else {
            patterns_str(x) + ", "@ + pattern_str(y)
        },
{
    assert(x.push(y).drop_last() =~= x);
}

pub proof fn lemma_block_str_push(x: Seq<StmtView>, y: StmtView, k: nat)
    ensures
        block_str(x.push(y), k) == block_str(x, k) + stmt_str(y, k) + "\n"@,
{
    assert(x.push(y).drop_last() =~= x);
}

pub proof fn lemma_case_stmts_str_push(x: Seq<StmtView>, y: StmtView, k: nat)
    ensures
        case_stmts_str(x.push(y), k) == case_stmts_str(x, k) + "  "@ + stmt_str(y, k) + "\n"@,
{
    assert(x.push(y).drop_last() =~= x);
}

pub proof fn lemma_cases_str_push(x: Seq<CaseView>, y: CaseView, k: nat)
    ensures
        cases_str(x.push(y), k) == cases_str(x, k) + case_str(y, k) + "\n"@,
{
    assert(x.push(y).drop_last() =~= x);
}

/// The text of two programs' declarations together is the text of the
/// first followed by the text of the second.
#[verifier::spinoff_prover]
#[verifier::rlimit(40)]
pub proof fn lemma_program_str_concat(a: Seq<DeclarationView>, b: Seq<DeclarationView>)
    ensures
        program_str(a + b) == program_str(a) + program_str(b),
    decreases b.len(),
{
    if b.len() == 0 {
        assert(a + b =~= a);
        assert(program_str(a) + program_str(b) =~= program_str(a));
    } else {
        lemma_program_str_concat(a, b.drop_last());
        let ab = a + b;
        assert(ab.drop_last() =~= a + b.drop_last());
        assert(ab.last() == b.last());
        let d = declaration_str(b.last(), 0);
        assert(program_str(ab) == program_str(ab.drop_last()) + d + "\n"@);
        assert(program_str(b) == program_str(b.drop_last()) + d + "\n"@);
        assert(program_str(a) + program_str(b) =~= program_str(a) + program_str(b.drop_last()) + d
            + "\n"@);
    }
}

} // verus!
