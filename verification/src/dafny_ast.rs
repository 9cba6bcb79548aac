//! The Dafny syntax tree that the translation produces and the printer
//! renders, together with its mathematical model (each node's view, with
//! strings as `Seq<char>` and vectors as `Seq`).
use vstd::prelude::*;

verus! {

#[derive(Debug, Clone)]
pub struct Program {
    pub declarations: Vec<Declaration>,
}

#[derive(Debug, Clone)]
pub enum Declaration {
    Method(MethodDecl),
    Function(FunctionDecl),
    Predicate(PredicateDecl),
    Datatype(DatatypeDecl),
    Class(ClassDecl),
}

/// A method declaration.
#[derive(Debug, Clone)]
pub struct MethodDecl {
    pub id: String,
    pub params: Vec<Param>,
    pub returns: Vec<ReturnVar>,
    pub return_type: Option<Type>,
    pub requires: Vec<Expr>,
    pub ensures: Vec<Expr>,
    pub modifies: Vec<Expr>,
    pub decreases: Vec<Expr>,
    pub block: Block,
}

#[derive(Debug, Clone)]
pub struct ReturnVar {
    pub id: String,
    pub type_: Type,
}

/// A function declaration.
#[derive(Debug, Clone)]
pub struct FunctionDecl {
    pub id: String,
    pub params: Vec<Param>,
    pub return_type: Type,
    pub requires: Vec<Expr>,
    pub ensures: Vec<Expr>,
    pub reads: Vec<Expr>,
    pub decreases: Vec<Expr>,
    pub body: Expr,
}

/// A predicate declaration.
#[derive(Debug, Clone)]
pub struct PredicateDecl {
    pub id: String,
    pub params: Vec<Param>,
    pub requires: Vec<Expr>,
    pub body: Expr,
}

/// A datatype declaration.
#[derive(Debug, Clone)]
pub struct DatatypeDecl {
    pub id: String,
    pub constructors: Vec<ConstructorDecl>,
}

#[derive(Debug, Clone)]
pub struct ConstructorDecl {
    pub params: Vec<Param>,
    pub requires: Vec<Expr>,
    pub ensures: Vec<Expr>,
    pub modifies: Vec<Expr>,
    pub block: Block,
}

/// A class declaration.
#[derive(Debug, Clone)]
pub struct ClassDecl {
    pub id: String,
    pub extends: Option<Type>,
    pub fields: Vec<FieldDecl>,
    pub constructor: Option<ConstructorDecl>,
    pub methods: Vec<MethodDecl>,
}

#[derive(Debug, Clone)]
pub struct FieldDecl {
    pub id: String,
    pub type_: Type,
    pub init: Option<Expr>,
}

/// A parameter and its type.
#[derive(Debug, Clone)]
pub struct Param {
    pub id: String,
    pub type_: Type,
}

#[derive(Debug)]
pub enum Type {
    Int,
    Bool,
    Real,
    Bv(u32),
    SetOf(Box<Type>),
    SeqOf(Box<Type>),
    Array(Box<Type>),
    Named(String),
    Function(Vec<Type>, Box<Type>),
}

/// Expressions.
#[derive(Debug)]
pub enum Expr {
    LogicalOr(Box<Expr>, Box<Expr>),
    LogicalAnd(Box<Expr>, Box<Expr>),
    Equality(EqualityOp, Box<Expr>, Box<Expr>),
    Comparison(ComparisonOp, Box<Expr>, Box<Expr>),
    BitwiseOr(Box<Expr>, Box<Expr>),
    BitwiseXor(Box<Expr>, Box<Expr>),
    BitwiseAnd(Box<Expr>, Box<Expr>),
    Shift(ShiftOp, Box<Expr>, Box<Expr>),
    Additive(AdditiveOp, Box<Expr>, Box<Expr>),
    Mult(MultOp, Box<Expr>, Box<Expr>),
    Unary(UnaryOp, Box<Expr>),
    Primary(PrimaryExpr),
    Forall(Quantifier, Box<Expr>),
    Exists(Quantifier, Box<Expr>),
    IfThenElse(Box<Expr>, Box<Expr>, Box<Expr>),
    /// `new T[d1, ..., dn]`: the dimensions and the element type.
    ArrayInit(Vec<Expr>, Type),
}

#[derive(Debug, Clone, Copy, PartialEq, Eq)]
pub enum EqualityOp {
    Eq,
    Ne,
}

#[derive(Debug, Clone, Copy, PartialEq, Eq)]
pub enum ComparisonOp {
    Lt,
    Gt,
    Le,
    Ge,
}

#[derive(Debug, Clone, Copy, PartialEq, Eq)]
pub enum ShiftOp {
    Shl,
    Shr,
}

#[derive(Debug, Clone, Copy, PartialEq, Eq)]
pub enum AdditiveOp {
    Add,
    Sub,
}

#[derive(Debug, Clone, Copy, PartialEq, Eq)]
pub enum MultOp {
    Mul,
    Div,
    Mod,
}

#[derive(Debug, Clone, Copy, PartialEq, Eq)]
pub enum UnaryOp {
    Not,
    Neg,
    Old,
}

#[derive(Debug, Clone)]
pub enum PrimaryExpr {
    Literal(Literal),
    Identifier(String),
    Call(Box<Expr>, Vec<Expr>),
    Index(Box<Expr>, Box<Expr>),
    MemberAccess(Box<Expr>, String),
}

#[derive(Debug, Clone)]
pub enum Literal {
    Integer(String),
    Boolean(bool),
    Null,
    Sequence(Vec<Expr>),
    /// Any value.
    Star,
    /// The current object.
    This,
    /// A real number, by its decimal text.
    Real(String),
}

#[derive(Debug, Clone)]
pub struct Quantifier {
    pub variables: Vec<QuantifierVar>,
    pub condition: Option<Box<Expr>>,
}

#[derive(Debug, Clone)]
pub struct QuantifierVar {
    pub id: String,
    pub type_: Type,
}

/// Statements.
#[derive(Debug)]
pub enum Stmt {
    Assign(Assign),
    IfElse(IfElse),
    WhileLoop(WhileLoop),
    ForLoop(ForLoop),
    Match(Match),
    Assert(Expr),
    Print(Expr),
    Return(Option<Expr>),
    DeclVar(Var),
    Break,
    Continue,
    Assume(Expr),
    Call(Call),
}

#[derive(Debug, Clone)]
pub struct Var {
    pub id: String,
    pub type_: Type,
    pub init: Option<Expr>,
}

#[derive(Debug, Clone)]
pub struct Assign {
    pub lhs: Lhs,
    pub expr: Expr,
}

#[derive(Debug, Clone)]
pub enum Lhs {
    Identifier(String),
    MemberAccess(Box<Expr>, String),
    Index(Box<Expr>, Box<Expr>),
}

#[derive(Debug, Clone)]
pub struct IfElse {
    pub cond: Expr,
    pub then_block: Block,
    pub else_block: Option<Block>,
}

#[derive(Debug, Clone)]
pub struct WhileLoop {
    pub cond: Expr,
    pub invariants: Vec<Expr>,
    pub decreases: Vec<Expr>,
    pub block: Block,
}

#[derive(Debug, Clone)]
pub struct ForLoop {
    pub id: String,
    pub start: Expr,
    pub end: Expr,
    pub block: Block,
}

#[derive(Debug, Clone)]
pub struct Match {
    pub expr: Expr,
    pub cases: Vec<Case>,
}

#[derive(Debug, Clone)]
pub struct Case {
    pub pattern: Pattern,
    pub stmts: Vec<Stmt>,
}

#[derive(Debug)]
pub enum Pattern {
    Identifier(String),
    Constructor(String, Vec<Pattern>),
}

/// A call statement: the callee's name and the arguments.
#[derive(Debug, Clone)]
pub struct Call {
    pub id: String,
    pub args: Vec<Expr>,
}

#[derive(Debug, Clone)]
pub struct Block {
    pub stmts: Vec<Stmt>,
}

// ---------------------------------------------------------------------------
// The model of the tree.
// ---------------------------------------------------------------------------

pub enum TypeView {
    Int,
    Bool,
    Real,
    Bv(u32),
    SetOf(Box<TypeView>),
    SeqOf(Box<TypeView>),
    ArrayOf(Box<TypeView>),
    Named(Seq<char>),
    Function(Seq<TypeView>, Box<TypeView>),
}

pub enum ExprView {
    LogicalOr(Box<ExprView>, Box<ExprView>),
    LogicalAnd(Box<ExprView>, Box<ExprView>),
    Equality(EqualityOp, Box<ExprView>, Box<ExprView>),
    Comparison(ComparisonOp, Box<ExprView>, Box<ExprView>),
    BitwiseOr(Box<ExprView>, Box<ExprView>),
    BitwiseXor(Box<ExprView>, Box<ExprView>),
    BitwiseAnd(Box<ExprView>, Box<ExprView>),
    Shift(ShiftOp, Box<ExprView>, Box<ExprView>),
    Additive(AdditiveOp, Box<ExprView>, Box<ExprView>),
    Mult(MultOp, Box<ExprView>, Box<ExprView>),
    Unary(UnaryOp, Box<ExprView>),
    Primary(PrimaryView),
    Forall(QuantifierView, Box<ExprView>),
    Exists(QuantifierView, Box<ExprView>),
    IfThenElse(Box<ExprView>, Box<ExprView>, Box<ExprView>),
    ArrayInit(Seq<ExprView>, TypeView),
}

pub enum PrimaryView {
    Literal(LiteralView),
    Identifier(Seq<char>),
    Call(Box<ExprView>, Seq<ExprView>),
    Index(Box<ExprView>, Box<ExprView>),
    MemberAccess(Box<ExprView>, Seq<char>),
}

pub enum LiteralView {
    Integer(Seq<char>),
    Boolean(bool),
    Null,
    Sequence(Seq<ExprView>),
    Star,
    This,
    Real(Seq<char>),
}

pub struct QuantifierView {
    pub variables: Seq<(Seq<char>, TypeView)>,
    pub condition: Option<Box<ExprView>>,
}

pub enum LhsView {
    Identifier(Seq<char>),
    MemberAccess(ExprView, Seq<char>),
    Index(ExprView, ExprView),
}

pub enum PatternView {
    Identifier(Seq<char>),
    Constructor(Seq<char>, Seq<PatternView>),
}

pub enum StmtView {
    Assign(LhsView, ExprView),
    IfElse(ExprView, Seq<StmtView>, Option<Seq<StmtView>>),
    /// Condition, invariants, decreases clauses and body.
    WhileLoop(ExprView, Seq<ExprView>, Seq<ExprView>, Seq<StmtView>),
    /// Variable, start, end and body.
    ForLoop(Seq<char>, ExprView, ExprView, Seq<StmtView>),
    Match(ExprView, Seq<CaseView>),
    Assert(ExprView),
    Print(ExprView),
    Return(Option<ExprView>),
    DeclVar(Seq<char>, TypeView, Option<ExprView>),
    Break,
    Continue,
    Assume(ExprView),
    Call(Seq<char>, Seq<ExprView>),
}

pub struct CaseView {
    pub pattern: PatternView,
    pub stmts: Seq<StmtView>,
}

/// A parameter, a return variable or a bound variable: a name and a type.
pub struct ParamView {
    pub id: Seq<char>,
    pub ty: TypeView,
}

pub struct FieldView {
    pub id: Seq<char>,
    pub ty: TypeView,
    pub init: Option<ExprView>,
}

pub struct MethodView {
    pub id: Seq<char>,
    pub params: Seq<ParamView>,
    pub returns: Seq<ParamView>,
    pub return_type: Option<TypeView>,
    pub requires: Seq<ExprView>,
    pub ensures: Seq<ExprView>,
    pub modifies: Seq<ExprView>,
    pub decreases: Seq<ExprView>,
    pub block: Seq<StmtView>,
}

pub struct FunctionView {
    pub id: Seq<char>,
    pub params: Seq<ParamView>,
    pub return_type: TypeView,
    pub requires: Seq<ExprView>,
    pub ensures: Seq<ExprView>,
    pub reads: Seq<ExprView>,
    pub decreases: Seq<ExprView>,
    pub body: ExprView,
}

pub struct PredicateView {
    pub id: Seq<char>,
    pub params: Seq<ParamView>,
    pub requires: Seq<ExprView>,
    pub body: ExprView,
}

pub struct ConstructorView {
    pub params: Seq<ParamView>,
    pub requires: Seq<ExprView>,
    pub ensures: Seq<ExprView>,
    pub modifies: Seq<ExprView>,
    pub block: Seq<StmtView>,
}

pub struct DatatypeView {
    pub id: Seq<char>,
    pub constructors: Seq<ConstructorView>,
}

pub struct ClassView {
    pub id: Seq<char>,
    pub extends: Option<TypeView>,
    pub fields: Seq<FieldView>,
    pub constructor: Option<ConstructorView>,
    pub methods: Seq<MethodView>,
}

pub enum DeclarationView {
    Method(MethodView),
    Function(FunctionView),
    Predicate(PredicateView),
    Datatype(DatatypeView),
    Class(ClassView),
}

// ---------------------------------------------------------------------------
// From the tree to its model.
// ---------------------------------------------------------------------------

pub open spec fn type_view(t: Type) -> TypeView
    decreases t,
{
    match t {
        Type::Int => TypeView::Int,
        Type::Bool => TypeView::Bool,
        Type::Real => TypeView::Real,
        Type::Bv(n) => TypeView::Bv(n),
        Type::SetOf(inner) => TypeView::SetOf(Box::new(type_view(*inner))),
        Type::SeqOf(inner) => TypeView::SeqOf(Box::new(type_view(*inner))),
        Type::Array(inner) => TypeView::ArrayOf(Box::new(type_view(*inner))),
        Type::Named(name) => TypeView::Named(name@),
        Type::Function(args, ret) => TypeView::Function(types_view(args@), Box::new(type_view(*ret))),
    }
}

pub open spec fn types_view(s: Seq<Type>) -> Seq<TypeView>
    decreases s,
{
    if s.len() == 0 {
        seq![]
    } else {
        types_view(s.drop_last()).push(type_view(s.last()))
    }
}

pub open spec fn expr_view(e: Expr) -> ExprView
    decreases e,
{
    match e {
        Expr::LogicalOr(l, r) => ExprView::LogicalOr(Box::new(expr_view(*l)), Box::new(expr_view(*r))),
        Expr::LogicalAnd(l, r) => ExprView::LogicalAnd(
            Box::new(expr_view(*l)),
            Box::new(expr_view(*r)),
        ),
        Expr::Equality(op, l, r) => ExprView::Equality(
            op,
            Box::new(expr_view(*l)),
            Box::new(expr_view(*r)),
        ),
        Expr::Comparison(op, l, r) => ExprView::Comparison(
            op,
            Box::new(expr_view(*l)),
            Box::new(expr_view(*r)),
        ),
        Expr::BitwiseOr(l, r) => ExprView::BitwiseOr(Box::new(expr_view(*l)), Box::new(expr_view(*r))),
        Expr::BitwiseXor(l, r) => ExprView::BitwiseXor(
            Box::new(expr_view(*l)),
            Box::new(expr_view(*r)),
        ),
        Expr::BitwiseAnd(l, r) => ExprView::BitwiseAnd(
            Box::new(expr_view(*l)),
            Box::new(expr_view(*r)),
        ),
        Expr::Shift(op, l, r) => ExprView::Shift(op, Box::new(expr_view(*l)), Box::new(expr_view(*r))),
        Expr::Additive(op, l, r) => ExprView::Additive(
            op,
            Box::new(expr_view(*l)),
            Box::new(expr_view(*r)),
        ),
        Expr::Mult(op, l, r) => ExprView::Mult(op, Box::new(expr_view(*l)), Box::new(expr_view(*r))),
        Expr::Unary(op, x) => ExprView::Unary(op, Box::new(expr_view(*x))),
        Expr::Primary(p) => ExprView::Primary(primary_view(p)),
        Expr::Forall(q, x) => ExprView::Forall(quantifier_view(q), Box::new(expr_view(*x))),
        Expr::Exists(q, x) => ExprView::Exists(quantifier_view(q), Box::new(expr_view(*x))),
        Expr::IfThenElse(c, t, f) => ExprView::IfThenElse(
            Box::new(expr_view(*c)),
            Box::new(expr_view(*t)),
            Box::new(expr_view(*f)),
        ),
        Expr::ArrayInit(dims, ty) => ExprView::ArrayInit(exprs_view(dims@), type_view(ty)),
    }
}

pub open spec fn exprs_view(s: Seq<Expr>) -> Seq<ExprView>
    decreases s,
{
    if s.len() == 0 {
        seq![]
    } else {
        exprs_view(s.drop_last()).push(expr_view(s.last()))
    }
}

pub open spec fn primary_view(p: PrimaryExpr) -> PrimaryView
    decreases p,
{
    match p {
        PrimaryExpr::Literal(l) => PrimaryView::Literal(literal_view(l)),
        PrimaryExpr::Identifier(name) => PrimaryView::Identifier(name@),
        PrimaryExpr::Call(f, args) => PrimaryView::Call(Box::new(expr_view(*f)), exprs_view(args@)),
        PrimaryExpr::Index(a, i) => PrimaryView::Index(Box::new(expr_view(*a)), Box::new(expr_view(*i))),
        PrimaryExpr::MemberAccess(o, name) => PrimaryView::MemberAccess(
            Box::new(expr_view(*o)),
            name@,
        ),
    }
}

pub open spec fn literal_view(l: Literal) -> LiteralView
    decreases l,
{
    match l {
        Literal::Integer(s) => LiteralView::Integer(s@),
        Literal::Boolean(b) => LiteralView::Boolean(b),
        Literal::Null => LiteralView::Null,
        Literal::Sequence(items) => LiteralView::Sequence(exprs_view(items@)),
        Literal::Star => LiteralView::Star,
        Literal::This => LiteralView::This,
        Literal::Real(s) => LiteralView::Real(s@),
    }
}

/// The bound variables of a quantifier, each as its name and type.
pub open spec fn qvars_view(s: Seq<QuantifierVar>) -> Seq<(Seq<char>, TypeView)>
    decreases s.len(),
{
    if s.len() == 0 {
        seq![]
    } else {
        qvars_view(s.drop_last()).push((s.last().id@, type_view(s.last().type_)))
    }
}

pub open spec fn quantifier_view(q: Quantifier) -> QuantifierView
    decreases q,
{
    QuantifierView {
        variables: qvars_view(q.variables@),
        condition: match q.condition {
            Some(c) => Some(Box::new(expr_view(*c))),
            None => None,
        },
    }
}

pub open spec fn lhs_view(l: Lhs) -> LhsView {
    match l {
        Lhs::Identifier(name) => LhsView::Identifier(name@),
        Lhs::MemberAccess(o, f) => LhsView::MemberAccess(expr_view(*o), f@),
        Lhs::Index(a, i) => LhsView::Index(expr_view(*a), expr_view(*i)),
    }
}

pub open spec fn pattern_view(p: Pattern) -> PatternView
    decreases p,
{
    match p {
        Pattern::Identifier(name) => PatternView::Identifier(name@),
        Pattern::Constructor(name, subs) => PatternView::Constructor(name@, patterns_view(subs@)),
    }
}

pub open spec fn patterns_view(s: Seq<Pattern>) -> Seq<PatternView>
    decreases s,
{
    if s.len() == 0 {
        seq![]
    } else {
        patterns_view(s.drop_last()).push(pattern_view(s.last()))
    }
}

pub open spec fn opt_expr_view(e: Option<Expr>) -> Option<ExprView> {
    match e {
        Some(x) => Some(expr_view(x)),
        None => None,
    }
}

pub open spec fn stmt_view(s: Stmt) -> StmtView
    decreases s,
{
    match s {
        Stmt::Assign(a) => StmtView::Assign(lhs_view(a.lhs), expr_view(a.expr)),
        Stmt::IfElse(ie) => StmtView::IfElse(
            expr_view(ie.cond),
            stmts_view(ie.then_block.stmts@),
            match ie.else_block {
                Some(b) => Some(stmts_view(b.stmts@)),
                None => None,
            },
        ),
        Stmt::WhileLoop(w) => StmtView::WhileLoop(
            expr_view(w.cond),
            exprs_view(w.invariants@),
            exprs_view(w.decreases@),
            stmts_view(w.block.stmts@),
        ),
        Stmt::ForLoop(f) => StmtView::ForLoop(
            f.id@,
            expr_view(f.start),
            expr_view(f.end),
            stmts_view(f.block.stmts@),
        ),
        Stmt::Match(m) => StmtView::Match(expr_view(m.expr), cases_view(m.cases@)),
        Stmt::Assert(e) => StmtView::Assert(expr_view(e)),
        Stmt::Print(e) => StmtView::Print(expr_view(e)),
        Stmt::Return(e) => StmtView::Return(opt_expr_view(e)),
        Stmt::DeclVar(v) => StmtView::DeclVar(v.id@, type_view(v.type_), opt_expr_view(v.init)),
        Stmt::Break => StmtView::Break,
        Stmt::Continue => StmtView::Continue,
        Stmt::Assume(e) => StmtView::Assume(expr_view(e)),
        Stmt::Call(c) => StmtView::Call(c.id@, exprs_view(c.args@)),
    }
}

pub open spec fn stmts_view(s: Seq<Stmt>) -> Seq<StmtView>
    decreases s,
{
    if s.len() == 0 {
        seq![]
    } else {
        stmts_view(s.drop_last()).push(stmt_view(s.last()))
    }
}

pub open spec fn case_view(c: Case) -> CaseView
    decreases c,
{
    CaseView { pattern: pattern_view(c.pattern), stmts: stmts_view(c.stmts@) }
}

pub open spec fn cases_view(s: Seq<Case>) -> Seq<CaseView>
    decreases s,
{
    if s.len() == 0 {
        seq![]
    } else {
        cases_view(s.drop_last()).push(case_view(s.last()))
    }
}

pub open spec fn param_view(p: Param) -> ParamView {
    ParamView { id: p.id@, ty: type_view(p.type_) }
}

pub open spec fn params_view(s: Seq<Param>) -> Seq<ParamView> {
    s.map_values(|p: Param| param_view(p))
}

pub open spec fn return_vars_view(s: Seq<ReturnVar>) -> Seq<ParamView> {
    s.map_values(|r: ReturnVar| ParamView { id: r.id@, ty: type_view(r.type_) })
}

pub open spec fn opt_type_view(t: Option<Type>) -> Option<TypeView> {
    match t {
        Some(x) => Some(type_view(x)),
        None => None,
    }
}

pub open spec fn field_view(f: FieldDecl) -> FieldView {
    FieldView { id: f.id@, ty: type_view(f.type_), init: opt_expr_view(f.init) }
}

pub open spec fn method_view(m: MethodDecl) -> MethodView {
    MethodView {
        id: m.id@,
        params: params_view(m.params@),
        returns: return_vars_view(m.returns@),
        return_type: opt_type_view(m.return_type),
        requires: exprs_view(m.requires@),
        ensures: exprs_view(m.ensures@),
        modifies: exprs_view(m.modifies@),
        decreases: exprs_view(m.decreases@),
        block: stmts_view(m.block.stmts@),
    }
}

pub open spec fn function_view(f: FunctionDecl) -> FunctionView {
    FunctionView {
        id: f.id@,
        params: params_view(f.params@),
        return_type: type_view(f.return_type),
        requires: exprs_view(f.requires@),
        ensures: exprs_view(f.ensures@),
        reads: exprs_view(f.reads@),
        decreases: exprs_view(f.decreases@),
        body: expr_view(f.body),
    }
}

pub open spec fn predicate_view(p: PredicateDecl) -> PredicateView {
    PredicateView {
        id: p.id@,
        params: params_view(p.params@),
        requires: exprs_view(p.requires@),
        body: expr_view(p.body),
    }
}

pub open spec fn constructor_view(c: ConstructorDecl) -> ConstructorView {
    ConstructorView {
        params: params_view(c.params@),
        requires: exprs_view(c.requires@),
        ensures: exprs_view(c.ensures@),
        modifies: exprs_view(c.modifies@),
        block: stmts_view(c.block.stmts@),
    }
}

pub open spec fn datatype_view(d: DatatypeDecl) -> DatatypeView {
    DatatypeView {
        id: d.id@,
        constructors: d.constructors@.map_values(|c: ConstructorDecl| constructor_view(c)),
    }
}

pub open spec fn class_view(c: ClassDecl) -> ClassView {
    ClassView {
        id: c.id@,
        extends: opt_type_view(c.extends),
        fields: c.fields@.map_values(|f: FieldDecl| field_view(f)),
        constructor: match c.constructor {
            Some(k) => Some(constructor_view(k)),
            None => None,
        },
        methods: c.methods@.map_values(|m: MethodDecl| method_view(m)),
    }
}

pub open spec fn declaration_view(d: Declaration) -> DeclarationView {
    match d {
        Declaration::Method(m) => DeclarationView::Method(method_view(m)),
        Declaration::Function(f) => DeclarationView::Function(function_view(f)),
        Declaration::Predicate(p) => DeclarationView::Predicate(predicate_view(p)),
        Declaration::Datatype(x) => DeclarationView::Datatype(datatype_view(x)),
        Declaration::Class(c) => DeclarationView::Class(class_view(c)),
    }
}

impl View for Type {
    type V = TypeView;

    open spec fn view(&self) -> TypeView {
        type_view(*self)
    }
}

impl View for Expr {
    type V = ExprView;

    open spec fn view(&self) -> ExprView {
        expr_view(*self)
    }
}

impl View for Stmt {
    type V = StmtView;

    open spec fn view(&self) -> StmtView {
        stmt_view(*self)
    }
}

impl View for Program {
    type V = Seq<DeclarationView>;

    open spec fn view(&self) -> Seq<DeclarationView> {
        self.declarations@.map_values(|d: Declaration| declaration_view(d))
    }
}

// ---------------------------------------------------------------------------
// How the models of vectors relate to their elements.
// ---------------------------------------------------------------------------

pub proof fn lemma_types_view(s: Seq<Type>)
    ensures
        types_view(s).len() == s.len(),
        forall|i: int| 0 <= i < s.len() ==> #[trigger] types_view(s)[i] == type_view(s[i]),
    decreases s.len(),
{
    if s.len() > 0 {
        lemma_types_view(s.drop_last());
    }
}

pub proof fn lemma_exprs_view(s: Seq<Expr>)
    ensures
        exprs_view(s).len() == s.len(),
        forall|i: int| 0 <= i < s.len() ==> #[trigger] exprs_view(s)[i] == expr_view(s[i]),
    decreases s.len(),
{
    if s.len() > 0 {
        lemma_exprs_view(s.drop_last());
    }
}

pub proof fn lemma_stmts_view(s: Seq<Stmt>)
    ensures
        stmts_view(s).len() == s.len(),
        forall|i: int| 0 <= i < s.len() ==> #[trigger] stmts_view(s)[i] == stmt_view(s[i]),
    decreases s.len(),
{
    if s.len() > 0 {
        lemma_stmts_view(s.drop_last());
    }
}

pub proof fn lemma_patterns_view(s: Seq<Pattern>)
    ensures
        patterns_view(s).len() == s.len(),
        forall|i: int| 0 <= i < s.len() ==> #[trigger] patterns_view(s)[i] == pattern_view(s[i]),
    decreases s.len(),
{
    if s.len() > 0 {
        lemma_patterns_view(s.drop_last());
    }
}

pub proof fn lemma_cases_view(s: Seq<Case>)
    ensures
        cases_view(s).len() == s.len(),
        forall|i: int| 0 <= i < s.len() ==> #[trigger] cases_view(s)[i] == case_view(s[i]),
    decreases s.len(),
{
    if s.len() > 0 {
        lemma_cases_view(s.drop_last());
    }
}

/// Pushing onto a vector pushes the element's model onto the model.
pub proof fn lemma_exprs_view_push(s: Seq<Expr>, e: Expr)
    ensures
        exprs_view(s.push(e)) == exprs_view(s).push(expr_view(e)),
{
    assert(s.push(e).drop_last() =~= s);
}

pub proof fn lemma_stmts_view_push(s: Seq<Stmt>, x: Stmt)
    ensures
        stmts_view(s.push(x)) == stmts_view(s).push(stmt_view(x)),
{
    assert(s.push(x).drop_last() =~= s);
}

pub proof fn lemma_types_view_push(s: Seq<Type>, x: Type)
    ensures
        types_view(s.push(x)) == types_view(s).push(type_view(x)),
{
    assert(s.push(x).drop_last() =~= s);
}

/// The model of a concatenation is the concatenation of the models.
pub proof fn lemma_stmts_view_add(a: Seq<Stmt>, b: Seq<Stmt>)
    ensures
        stmts_view(a + b) == stmts_view(a) + stmts_view(b),
    decreases b.len(),
{
    if b.len() == 0 {
        assert(a + b =~= a);
        assert(stmts_view(a) + stmts_view(b) =~= stmts_view(a));
    } else {
        lemma_stmts_view_add(a, b.drop_last());
        assert((a + b).drop_last() =~= a + b.drop_last());
        assert((a + b).last() == b.last());
        assert(stmts_view(a) + stmts_view(b) =~= (stmts_view(a) + stmts_view(b.drop_last())).push(
            stmt_view(b.last()),
        ));
    }
}

/// The model of a prefix one element longer.
pub proof fn lemma_types_view_prefix(s: Seq<Type>, i: int)
    requires
        0 <= i < s.len(),
    ensures
        types_view(s.subrange(0, i + 1)) == types_view(s.subrange(0, i)).push(type_view(s[i])),
        types_view(s.subrange(0, i)).len() == i,
{
    assert(s.subrange(0, i + 1).drop_last() =~= s.subrange(0, i));
    lemma_types_view(s.subrange(0, i));
}

pub proof fn lemma_exprs_view_prefix(s: Seq<Expr>, i: int)
    requires
        0 <= i < s.len(),
    ensures
        exprs_view(s.subrange(0, i + 1)) == exprs_view(s.subrange(0, i)).push(expr_view(s[i])),
        exprs_view(s.subrange(0, i)).len() == i,
{
    assert(s.subrange(0, i + 1).drop_last() =~= s.subrange(0, i));
    lemma_exprs_view(s.subrange(0, i));
}

pub proof fn lemma_stmts_view_prefix(s: Seq<Stmt>, i: int)
    requires
        0 <= i < s.len(),
    ensures
        stmts_view(s.subrange(0, i + 1)) == stmts_view(s.subrange(0, i)).push(stmt_view(s[i])),
        stmts_view(s.subrange(0, i)).len() == i,
{
    assert(s.subrange(0, i + 1).drop_last() =~= s.subrange(0, i));
    lemma_stmts_view(s.subrange(0, i));
}

pub proof fn lemma_patterns_view_prefix(s: Seq<Pattern>, i: int)
    requires
        0 <= i < s.len(),
    ensures
        patterns_view(s.subrange(0, i + 1)) == patterns_view(s.subrange(0, i)).push(
            pattern_view(s[i]),
        ),
        patterns_view(s.subrange(0, i)).len() == i,
{
    assert(s.subrange(0, i + 1).drop_last() =~= s.subrange(0, i));
    lemma_patterns_view(s.subrange(0, i));
}

pub proof fn lemma_cases_view_prefix(s: Seq<Case>, i: int)
    requires
        0 <= i < s.len(),
    ensures
        cases_view(s.subrange(0, i + 1)) == cases_view(s.subrange(0, i)).push(case_view(s[i])),
        cases_view(s.subrange(0, i)).len() == i,
{
    assert(s.subrange(0, i + 1).drop_last() =~= s.subrange(0, i));
    lemma_cases_view(s.subrange(0, i));
}

} // verus!
