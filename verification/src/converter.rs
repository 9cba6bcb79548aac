//! The translation of a C syntax tree into a Dafny program: global
//! variables become fields of a class `CProgram`, functions become its
//! methods, and `#define`s are recorded as macros.
use vstd::prelude::*;
use vstd::string::*;

use crate::ast_copy::{copy_expr, copy_type};
use crate::context::Context;
use crate::convert_expr::{bool_lit, int_lit_str, parse_expr, star_lit, this_lit};
use crate::convert_spec::{
    constructor_for, converted, ctx_declare, field_init, field_inits, func_name, func_type,
    function_type, global_field_then, global_fields, has_top_return, lemma_params_none,
    lemma_top_level_err, param_types, parsed_function, parsed_global_var, parsed_macro,
    parsed_params, params_of, top_level,
};
use crate::convert_stmt::{decl_type, parse_compound_stmt};
use crate::dafny_ast::{
    class_view, constructor_view, expr_view, exprs_view, field_view,
    lemma_exprs_view_push, lemma_stmts_view, lemma_stmts_view_push, lemma_types_view_push,
    method_view, opt_expr_view, opt_type_view, param_view, params_view, return_vars_view,
    stmt_view, stmts_view, type_view, types_view, Assign, Block, ClassDecl, ConstructorDecl,
    Declaration, DeclarationView, Expr, ExprView, FieldDecl, FieldView, Lhs,
    MethodDecl, MethodView, Param, ParamView, Program, ReturnVar, Stmt, StmtView, Type,
    TypeView,
};
use crate::strings::{str_eq, str_trim};
use crate::syntax::{field_child, kind_is, SyntaxNode};

verus! {

/// Where the translation gives up: the tree lacks a child it reads, a name
/// is used that was never declared, or a construct it cannot translate.
#[derive(Debug, Clone, Copy, PartialEq, Eq)]
pub enum ConvertError {
    MissingChild,
    UndeclaredIdentifier,
    UnsupportedDeclaration,
    InitializerListExpression,
    AssumeWithoutArgument,
    InvalidRealMacro,
    MissingFunctionName,
    NoCurrentMethod,
}

pub open spec fn fields_view(s: Seq<FieldDecl>) -> Seq<FieldView> {
    s.map_values(|f: FieldDecl| field_view(f))
}

pub open spec fn methods_view(s: Seq<MethodDecl>) -> Seq<MethodView> {
    s.map_values(|m: MethodDecl| method_view(m))
}

spec fn opt_fields_result(r: Result<Option<Vec<FieldDecl>>, ConvertError>) -> Result<
    Option<Seq<FieldView>>,
    ConvertError,
> {
    match r {
        Ok(Some(v)) => Ok(Some(fields_view(v@))),
        Ok(None) => Ok(None),
        Err(x) => Err(x),
    }
}

spec fn method_result(r: Result<Option<MethodDecl>, ConvertError>) -> Result<
    Option<MethodView>,
    ConvertError,
> {
    match r {
        Ok(Some(m)) => Ok(Some(method_view(m))),
        Ok(None) => Ok(None),
        Err(x) => Err(x),
    }
}

proof fn lemma_fields_view_push(s: Seq<FieldDecl>, f: FieldDecl)
    ensures
        fields_view(s.push(f)) == fields_view(s).push(field_view(f)),
{
    assert(fields_view(s.push(f)) =~= fields_view(s).push(field_view(f)));
}

proof fn lemma_fields_view_add(a: Seq<FieldDecl>, b: Seq<FieldDecl>)
    ensures
        fields_view(a + b) == fields_view(a) + fields_view(b),
{
    assert(fields_view(a + b) =~= fields_view(a) + fields_view(b));
}

proof fn lemma_params_view_push(s: Seq<Param>, p: Param)
    ensures
        params_view(s.push(p)) == params_view(s).push(param_view(p)),
{
    assert(params_view(s.push(p)) =~= params_view(s).push(param_view(p)));
}

// ---------------------------------------------------------------------------
// Functions.
// ---------------------------------------------------------------------------

/// A function definition's name: the text of its declarator's declarator.
fn parse_func_name(n: &SyntaxNode) -> (r: Option<String>)
    ensures
        match r {
            Some(s) => func_name(*n) == Some(s@),
            None => func_name(*n) is None,
        },
{
    let fj = field_child(n, "declarator")?;
    let fd = &n.children[fj];
    let j = field_child(fd, "declarator")?;
    Some(fd.children[j].text.clone())
}

/// A function definition's return type, if the translation knows it.
fn parse_func_type(n: &SyntaxNode) -> (r: Option<Type>)
    ensures
        opt_type_view(r) == func_type(*n),
{
    decl_type(n)
}

/// The parameters of a function definition, each declared as it comes;
/// `None` as soon as one has no type the translation knows, or no name.
fn parse_func_params(n: &SyntaxNode, ctx: &mut Context) -> (r: Option<Vec<Param>>)
    ensures
        (
            match r {
                Some(v) => Some(params_view(v@)),
                None => None::<Seq<ParamView>>,
            },
            final(ctx)@,
        ) == parsed_params(*n, old(ctx)@),
{
    let fj = match field_child(n, "declarator") {
        None => {
            return None;
        },
        Some(j) => j,
    };
    let fd = &n.children[fj];
    let pj = match field_child(fd, "parameters") {
        None => {
            return None;
        },
        Some(j) => j,
    };
    let s = &fd.children[pj].children;
    let len = s.len();
    let mut out: Vec<Param> = Vec::new();
    let mut i: usize = 0;
    assert(params_view(out@) =~= Seq::<ParamView>::empty());
    while i < len
        invariant
            len == s@.len(),
            i <= len,
            parsed_params(*n, old(ctx)@) == params_of(s@, old(ctx)@),
            params_of(s@.subrange(0, i as int), old(ctx)@) == (
                Some::<Seq<ParamView>>(params_view(out@)),
                ctx@,
            ),
        decreases len - i,
    {
        proof {
            assert(s@.subrange(0, i + 1).drop_last() =~= s@.subrange(0, i as int));
        }
        let p = &s[i];
        if kind_is(p, "parameter_declaration") {
            match decl_type(p) {
                None => {
                    proof {
                        lemma_params_none(s@, i + 1, old(ctx)@);
                    }
                    return None;
                },
                Some(ty) => match field_child(p, "declarator") {
                    None => {
                        proof {
                            lemma_params_none(s@, i + 1, old(ctx)@);
                        }
                        return None;
                    },
                    Some(j) => {
                        let name = p.children[j].text.clone();
                        ctx.declare_var(name.clone(), copy_type(&ty));
                        let param = Param { id: name, type_: ty };
                        proof {
                            lemma_params_view_push(out@, param);
                        }
                        out.push(param);
                    },
                },
            }
        }
        i = i + 1;
    }
    assert(s@.subrange(0, len as int) =~= s@);
    Some(out)
}

/// Whether a statement list holds a `return` at its top level.
fn has_return(s: &Vec<Stmt>) -> (r: bool)
    ensures
        r == has_top_return(stmts_view(s@)),
{
    proof {
        lemma_stmts_view(s@);
    }
    let n = s.len();
    let mut i: usize = 0;
    while i < n
        invariant
            n == s@.len(),
            i <= n,
            stmts_view(s@).len() == n,
            forall|j: int| 0 <= j < n ==> #[trigger] stmts_view(s@)[j] == stmt_view(s@[j]),
            forall|j: int| 0 <= j < i ==> !(#[trigger] stmts_view(s@)[j] is Return),
        decreases n - i,
    {
        let found = match &s[i] {
            Stmt::Return(_) => true,
            _ => false,
        };
        if found {
            assert(stmts_view(s@)[i as int] is Return);
            return true;
        }
        assert(!(stmts_view(s@)[i as int] is Return));
        i = i + 1;
    }
    false
}

/// The type a function is declared with: its parameter types and its
/// return type, `void` when the translation knows none.
fn function_type_of(params: &Vec<Param>, ret: &Option<Type>) -> (t: Type)
    ensures
        type_view(t) == function_type(params_view(params@), opt_type_view(*ret)),
{
    let n = params.len();
    let mut tys: Vec<Type> = Vec::new();
    let mut i: usize = 0;
    assert(types_view(tys@) =~= Seq::<TypeView>::empty());
    while i < n
        invariant
            n == params@.len(),
            i <= n,
            types_view(tys@) == param_types(params_view(params@).subrange(0, i as int)),
        decreases n - i,
    {
        let t = copy_type(&params[i].type_);
        proof {
            lemma_types_view_push(tys@, t);
            let pv = params_view(params@);
            assert(pv.subrange(0, i + 1).drop_last() =~= pv.subrange(0, i as int));
            assert(pv.subrange(0, i + 1).last() == param_view(params@[i as int]));
        }
        tys.push(t);
        i = i + 1;
    }
    assert(params_view(params@).subrange(0, n as int) =~= params_view(params@));
    let r = match ret {
        Some(t) => copy_type(t),
        None => Type::Named(String::from_str("void")),
    };
    Type::Function(tys, Box::new(r))
}

/// A function definition becomes a method: its parameters, a `ret` result
/// for a known return type, `requires false` for `errorFn` and `requires
/// true` otherwise, `modifies this`, `decreases *`, and its body, with
/// `return 0` added when it returns a value and has no top-level `return`.
/// The function is declared after its body; `None` without a body.
fn parse_function(n: &SyntaxNode, ctx: &mut Context) -> (r: Result<Option<MethodDecl>, ConvertError>)
    ensures
        (method_result(r), final(ctx)@) == parsed_function(*n, old(ctx)@),
{
    let ftype = parse_func_type(n);
    let params = parse_func_params(n, ctx);
    let bj = match field_child(n, "body") {
        None => {
            return Ok(None);
        },
        Some(j) => j,
    };
    let id = match parse_func_name(n) {
        None => {
            return Err(ConvertError::MissingFunctionName);
        },
        Some(x) => x,
    };
    ctx.enter_method(id.clone());
    let returns_value = ftype.is_some();
    let mut stmts = parse_compound_stmt(&n.children[bj].children, ctx, returns_value, false)?;
    if !has_return(&stmts) && returns_value {
        let ret0 = Stmt::Return(Some(int_lit_str("0")));
        proof {
            lemma_stmts_view_push(stmts@, ret0);
        }
        stmts.push(ret0);
    }
    let ps = match params {
        Some(p) => p,
        None => Vec::new(),
    };
    assert(params_view(Seq::<Param>::empty()) =~= Seq::<ParamView>::empty());
    let mut rets: Vec<ReturnVar> = Vec::new();
    match &ftype {
        Some(t) => {
            rets.push(ReturnVar { id: String::from_str("ret"), type_: copy_type(t) });
        },
        None => {},
    }
    proof {
        if ftype is Some {
            assert(return_vars_view(rets@) =~= seq![
                ParamView { id: "ret"@, ty: type_view(ftype->0) },
            ]);
        } else {
            assert(return_vars_view(rets@) =~= Seq::<ParamView>::empty());
        }
    }
    let fty = function_type_of(&ps, &ftype);
    ctx.declare_var(id.clone(), fty);
    let is_error_fn = str_eq(id.as_str(), "errorFn");
    let pre = one_expr(bool_lit(!is_error_fn));
    let modifies = one_expr(this_lit());
    let dec_clauses = one_expr(star_lit());
    let post: Vec<Expr> = Vec::new();
    assert(exprs_view(post@) =~= Seq::<ExprView>::empty());
    ctx.exit_method();
    let m = MethodDecl {
        id,
        params: ps,
        returns: rets,
        return_type: ftype,
        requires: pre,
        ensures: post,
        modifies,
        decreases: dec_clauses,
        block: Block { stmts },
    };
    Ok(Some(m))
}

/// A vector of one expression.
fn one_expr(e: Expr) -> (v: Vec<Expr>)
    ensures
        exprs_view(v@) == seq![expr_view(e)],
{
    let mut v: Vec<Expr> = Vec::new();
    proof {
        lemma_exprs_view_push(v@, e);
        assert(exprs_view(v@) == Seq::<ExprView>::empty());
    }
    v.push(e);
    v
}

// ---------------------------------------------------------------------------
// Global variables, macros and the program.
// ---------------------------------------------------------------------------

/// The fields of a global declaration, each declared as it comes; `None`
/// when the type is not one the translation knows, or when nothing is
/// declared.
fn parse_global_var(n: &SyntaxNode, ctx: &mut Context) -> (r: Result<
    Option<Vec<FieldDecl>>,
    ConvertError,
>)
    ensures
        (opt_fields_result(r), final(ctx)@) == parsed_global_var(*n, old(ctx)@),
{
    let s = &n.children;
    let len = s.len();
    let mut acc: Vec<FieldDecl> = Vec::new();
    let mut i: usize = 0;
    assert(fields_view(acc@) =~= Seq::<FieldView>::empty());
    while i < len
        invariant
            len == s@.len(),
            s == n.children,
            i <= len,
            parsed_global_var(*n, old(ctx)@) == global_fields(*n, i as int, ctx@, fields_view(acc@)),
        decreases len - i,
    {
        let d = &s[i];
        if !crate::syntax::field_is(d, "declarator") || kind_is(d, "function_declarator") {
            i = i + 1;
        } else {
            let (name, init) = match field_child(d, "value") {
                Some(vj) => {
                    let dj = match field_child(d, "declarator") {
                        None => {
                            return Ok(None);
                        },
                        Some(j) => j,
                    };
                    let init = parse_expr(&d.children[vj], ctx)?;
                    (d.children[dj].text.clone(), init)
                },
                None => (d.text.clone(), None),
            };
            let ghost c1 = ctx@;
            let ghost a1 = fields_view(acc@);
            let ghost iv = opt_expr_view(init);
            assert(global_fields(*n, i as int, c1, a1) == global_field_then(
                *n,
                i as int,
                c1,
                a1,
                name@,
                iv,
            ));
            assert(global_field_then(*n, i as int, c1, a1, name@, iv) == match crate::convert_spec::type_of_decl(*n) {
                None => (Ok(None), c1),
                Some(ty) => global_fields(
                    *n,
                    i + 1,
                    ctx_declare(c1, name@, ty),
                    a1.push(FieldView { id: name@, ty, init: iv }),
                ),
            });
            match decl_type(n) {
                None => {
                    return Ok(None);
                },
                Some(ty) => {
                    ctx.declare_var(name.clone(), copy_type(&ty));
                    let f = FieldDecl { id: name, type_: ty, init };
                    proof {
                        lemma_fields_view_push(acc@, f);
                    }
                    acc.push(f);
                },
            }
            i = i + 1;
        }
    }
    if acc.len() == 0 {
        Ok(None)
    } else {
        Ok(Some(acc))
    }
}

/// A `#define`: its name and its value, both trimmed, become a macro.
fn parse_marcro(n: &SyntaxNode, ctx: &mut Context) -> (r: Result<(), ConvertError>)
    ensures
        (r, final(ctx)@) == parsed_macro(*n, old(ctx)@),
{
    if n.children.len() < 3 {
        return Err(ConvertError::MissingChild);
    }
    let id = str_trim(n.children[1].text.as_str());
    let val = str_trim(n.children[2].text.as_str());
    ctx.insert_macro(id, val);
    Ok(())
}

/// The constructor of the class: `modifies this`, and an assignment of
/// each field's initial value, or of zero, in the order of the fields.
pub fn generate_constructor(vars: &Vec<FieldDecl>, context: &Context, source: &str) -> (r:
    ConstructorDecl)
    ensures
        constructor_view(r) == constructor_for(fields_view(vars@)),
{
    let n = vars.len();
    let mut stmts: Vec<Stmt> = Vec::new();
    let mut i: usize = 0;
    assert(stmts_view(stmts@) =~= Seq::<StmtView>::empty());
    while i < n
        invariant
            n == vars@.len(),
            i <= n,
            stmts_view(stmts@) == field_inits(fields_view(vars@).subrange(0, i as int)),
        decreases n - i,
    {
        let f = &vars[i];
        let value = match &f.init {
            Some(e) => copy_expr(e),
            None => int_lit_str("0"),
        };
        let st = Stmt::Assign(Assign { lhs: Lhs::Identifier(f.id.clone()), expr: value });
        proof {
            let fv = fields_view(vars@);
            assert(fv.subrange(0, i + 1).drop_last() =~= fv.subrange(0, i as int));
            assert(fv.subrange(0, i + 1).last() == field_view(vars@[i as int]));
            assert(stmt_view(st) == field_init(field_view(vars@[i as int])));
            lemma_stmts_view_push(stmts@, st);
        }
        stmts.push(st);
        i = i + 1;
    }
    assert(fields_view(vars@).subrange(0, n as int) =~= fields_view(vars@));
    let modifies = one_expr(this_lit());
    let params: Vec<Param> = Vec::new();
    let pre: Vec<Expr> = Vec::new();
    let post: Vec<Expr> = Vec::new();
    assert(params_view(params@) =~= Seq::<ParamView>::empty());
    assert(exprs_view(pre@) =~= Seq::<ExprView>::empty());
    assert(exprs_view(post@) =~= Seq::<ExprView>::empty());
    ConstructorDecl { params, requires: pre, ensures: post, modifies, block: Block { stmts } }
}

/// The fields and methods of the top-level nodes, in order; macros are
/// recorded as they come.
fn parse_top_level(s: &Vec<SyntaxNode>, ctx: &mut Context) -> (r: Result<
    (Vec<FieldDecl>, Vec<MethodDecl>),
    ConvertError,
>)
    ensures
        (
            match r {
                Ok(p) => Ok((fields_view(p.0@), methods_view(p.1@))),
                Err(e) => Err(e),
            },
            final(ctx)@,
        ) == top_level(s@, old(ctx)@),
{
    let len = s.len();
    let mut fields: Vec<FieldDecl> = Vec::new();
    let mut methods: Vec<MethodDecl> = Vec::new();
    let mut i: usize = 0;
    assert(fields_view(fields@) =~= Seq::<FieldView>::empty());
    assert(methods_view(methods@) =~= Seq::<MethodView>::empty());
    while i < len
        invariant
            len == s@.len(),
            i <= len,
            top_level(s@.subrange(0, i as int), old(ctx)@) == (
                Ok::<(Seq<FieldView>, Seq<MethodView>), ConvertError>(
                    (fields_view(fields@), methods_view(methods@)),
                ),
                ctx@,
            ),
        decreases len - i,
    {
        proof {
            assert(s@.subrange(0, i + 1).drop_last() =~= s@.subrange(0, i as int));
        }
        let x = &s[i];
        if kind_is(x, "declaration") {
            match parse_global_var(x, ctx) {
                Err(e) => {
                    proof {
                        lemma_top_level_err(s@, i + 1, old(ctx)@);
                    }
                    return Err(e);
                },
                Ok(None) => {},
                Ok(Some(f)) => {
                    let mut f = f;
                    proof {
                        lemma_fields_view_add(fields@, f@);
                    }
                    fields.append(&mut f);
                },
            }
        } else if kind_is(x, "function_definition") {
            match parse_function(x, ctx) {
                Err(e) => {
                    proof {
                        lemma_top_level_err(s@, i + 1, old(ctx)@);
                    }
                    return Err(e);
                },
                Ok(None) => {},
                Ok(Some(m)) => {
                    proof {
                        assert(methods_view(methods@.push(m)) =~= methods_view(methods@).push(
                            method_view(m),
                        ));
                    }
                    methods.push(m);
                },
            }
        } else if kind_is(x, "preproc_def") {
            match parse_marcro(x, ctx) {
                Err(e) => {
                    proof {
                        lemma_top_level_err(s@, i + 1, old(ctx)@);
                    }
                    return Err(e);
                },
                Ok(()) => {},
            }
        }
        i = i + 1;
    }
    assert(s@.subrange(0, len as int) =~= s@);
    Ok((fields, methods))
}

/// The Dafny program of a C translation unit, or where the translation
/// gives up: one class `CProgram` whose fields are the global variables,
/// whose constructor initialises them and whose methods are the functions.
pub fn try_convert(root: &SyntaxNode, context: &mut Context) -> (r: Result<Program, ConvertError>)
    ensures
        match r {
            Ok(p) => converted(*root, old(context)@).0 == Ok::<Seq<DeclarationView>, ConvertError>(
                p@,
            ),
            Err(e) => converted(*root, old(context)@).0 == Err::<Seq<DeclarationView>, ConvertError>(
                e,
            ),
        },
        final(context)@ == converted(*root, old(context)@).1,
{
    let (fields, methods) = parse_top_level(&root.children, context)?;
    let constructor = generate_constructor(&fields, context, "");
    let class = ClassDecl {
        id: String::from_str("CProgram"),
        extends: None,
        fields,
        constructor: Some(constructor),
        methods,
    };
    proof {
        assert(class_view(class).fields =~= fields_view(class.fields@));
        assert(class_view(class).methods =~= methods_view(class.methods@));
    }
    let mut declarations: Vec<Declaration> = Vec::new();
    declarations.push(Declaration::Class(class));
    let p = Program { declarations };
    proof {
        assert(p@ =~= seq![DeclarationView::Class(class_view(class))]);
    }
    Ok(p)
}

/// The Dafny program of a C translation unit, for a tree the translation
/// accepts.
pub fn convert(root: &SyntaxNode, context: &mut Context) -> (r: Program)
    requires
        converted(*root, old(context)@).0 is Ok,
    ensures
        converted(*root, old(context)@).0 == Ok::<Seq<DeclarationView>, ConvertError>(r@),
        final(context)@ == converted(*root, old(context)@).1,
{
    match try_convert(root, context) {
        Ok(p) => p,
        Err(_) => {
            proof {
                assert(false);
            }
            Program { declarations: Vec::new() }
        },
    }
}

} // verus!
