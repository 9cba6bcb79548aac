//! Properties that every conversion has: the shape of the methods, the
//! constructor, and what the context holds afterwards.
use vstd::prelude::*;

use crate::context::{lemma_lookup_after_declare, ContextView};
use crate::convert_spec::{
    array_dims, array_of, bool_literal, converted, ctx_declare, ctx_lookup,
    decl_stmts, decl_var_then, field_init, field_inits, for_parts, for_step, func_name,
    func_type, function_type, global_field_then, global_fields, has_top_return, int_literal,
    parsed_array_decl, parsed_expr, parsed_for, parsed_function, parsed_global_var, parsed_if,
    parsed_params, parsed_stmt, parsed_while, params_of, star_literal, stmts_of,
    this_literal, top_level, type_of_decl, type_of_name, ForState,
};
use crate::dafny_ast::{
    ClassView, DeclarationView, ExprView, FieldView, MethodView, StmtView, TypeView,
};
use crate::strings::trim;
use crate::syntax::{child, child_by_field, has_field, SyntaxNode};

verus! {

/// The shape of every method the conversion makes: `requires false` for
/// `errorFn` and `requires true` for any other, no `ensures`, `decreases *`,
/// `modifies this`, and a top-level `return` when it has a return type.
pub open spec fn method_shape(m: MethodView) -> bool {
    &&& m.requires == seq![bool_literal(m.id != "errorFn"@)]
    &&& m.ensures.len() == 0
    &&& m.decreases == seq![star_literal()]
    &&& m.modifies == seq![this_literal()]
    &&& (m.return_type is Some ==> has_top_return(m.block))
}

/// The class of a converted program.
pub open spec fn the_class(ds: Seq<DeclarationView>) -> ClassView {
    match ds[0] {
        DeclarationView::Class(c) => c,
        _ => arbitrary(),
    }
}

proof fn lemma_function_shape(n: SyntaxNode, c: ContextView)
    requires
        parsed_function(n, c).0 matches Ok(Some(m)),
    ensures
        method_shape(parsed_function(n, c).0->Ok_0->Some_0),
        parsed_function(n, c).1.current_method is None,
{
    let m = parsed_function(n, c).0->Ok_0->Some_0;
    if m.return_type is Some && !has_top_return(m.block) {
        let b = m.block;
        assert(b.last() is Return);
        assert(has_top_return(b));
    }
}

proof fn lemma_top_level_methods(s: Seq<SyntaxNode>, c: ContextView)
    requires
        top_level(s, c).0 is Ok,
    ensures
        forall|i: int|
            0 <= i < top_level(s, c).0->Ok_0.1.len() ==> method_shape(
                #[trigger] top_level(s, c).0->Ok_0.1[i],
            ),
    decreases s.len(),
{
    if s.len() > 0 {
        let (r, c1) = top_level(s.drop_last(), c);
        lemma_top_level_methods(s.drop_last(), c);
        let x = s.last();
        if x.kind@ == "function_definition"@ && !(x.kind@ == "declaration"@) {
            if parsed_function(x, c1).0 matches Ok(Some(m)) {
                lemma_function_shape(x, c1);
            }
        }
    }
}

/// Every method of a converted program has the shape the conversion gives
/// to functions: `requires false` exactly for `errorFn`, `decreases *`,
/// `modifies this`, and a top-level `return` when it returns a value; the
/// program is one class named `CProgram`.
pub proof fn lemma_methods_have_their_shape(root: SyntaxNode, c: ContextView)
    requires
        converted(root, c).0 is Ok,
    ensures
        converted(root, c).0->Ok_0.len() == 1,
        converted(root, c).0->Ok_0[0] is Class,
        the_class(converted(root, c).0->Ok_0).id == "CProgram"@,
        forall|i: int|
            0 <= i < the_class(converted(root, c).0->Ok_0).methods.len() ==> method_shape(
                #[trigger] the_class(converted(root, c).0->Ok_0).methods[i],
            ),
{
    lemma_top_level_methods(root.children@, c);
}

proof fn lemma_field_inits(fs: Seq<FieldView>)
    ensures
        field_inits(fs).len() == fs.len(),
        forall|i: int| 0 <= i < fs.len() ==> #[trigger] field_inits(fs)[i] == field_init(fs[i]),
    decreases fs.len(),
{
    if fs.len() > 0 {
        lemma_field_inits(fs.drop_last());
    }
}

/// The constructor of a converted program gives each field, in the order
/// of the fields, its initial value, or zero when it has none; it modifies
/// `this` and has no parameters.
pub proof fn lemma_constructor_initialises_fields(root: SyntaxNode, c: ContextView)
    requires
        converted(root, c).0 is Ok,
    ensures
        ({
            let k = the_class(converted(root, c).0->Ok_0);
            &&& k.constructor is Some
            &&& k.constructor->0.params.len() == 0
            &&& k.constructor->0.modifies == seq![this_literal()]
            &&& k.constructor->0.block.len() == k.fields.len()
            &&& forall|i: int|
                0 <= i < k.fields.len() ==> #[trigger] k.constructor->0.block[i] == StmtView::Assign(
                    crate::dafny_ast::LhsView::Identifier(k.fields[i].id),
                    match k.fields[i].init {
                        Some(e) => e,
                        None => int_literal("0"@),
                    },
                )
        }),
{
    let k = the_class(converted(root, c).0->Ok_0);
    lemma_field_inits(k.fields);
}

// ---------------------------------------------------------------------------
// No method is left open.
// ---------------------------------------------------------------------------

proof fn lemma_global_fields_method(n: SyntaxNode, i: int, c: ContextView, acc: Seq<FieldView>)
    ensures
        global_fields(n, i, c, acc).1.current_method == c.current_method,
    decreases n.children@.len() - i, 1int,
{
    if 0 <= i < n.children@.len() {
        let d = n.children@[i];
        if !crate::syntax::has_field(d, "declarator"@) || d.kind@ == "function_declarator"@ {
            lemma_global_fields_method(n, i + 1, c, acc);
        } else {
            match crate::syntax::child_by_field(d, "value"@) {
                Some(v) => match crate::syntax::child_by_field(d, "declarator"@) {
                    None => {},
                    Some(dn) => match crate::convert_spec::parsed_expr(v, c) {
                        Err(_) => {},
                        Ok(init) => lemma_field_then_method(n, i, c, acc, dn.text@, init),
                    },
                },
                None => lemma_field_then_method(n, i, c, acc, d.text@, None),
            }
        }
    }
}

proof fn lemma_field_then_method(
    n: SyntaxNode,
    i: int,
    c: ContextView,
    acc: Seq<FieldView>,
    name: Seq<char>,
    init: Option<crate::dafny_ast::ExprView>,
)
    ensures
        global_field_then(n, i, c, acc, name, init).1.current_method == c.current_method,
    decreases n.children@.len() - i, 0int,
{
    match crate::convert_spec::type_of_decl(n) {
        None => {},
        Some(ty) => if 0 <= i < n.children@.len() {
            lemma_global_fields_method(
                n,
                i + 1,
                crate::convert_spec::ctx_declare(c, name, ty),
                acc.push(FieldView { id: name, ty, init }),
            );
        },
    }
}

proof fn lemma_params_method(s: Seq<SyntaxNode>, c: ContextView)
    ensures
        params_of(s, c).1.current_method == c.current_method,
    decreases s.len(),
{
    if s.len() > 0 {
        lemma_params_method(s.drop_last(), c);
    }
}

proof fn lemma_top_level_method(s: Seq<SyntaxNode>, c: ContextView)
    requires
        top_level(s, c).0 is Ok,
        c.current_method is None,
    ensures
        top_level(s, c).1.current_method is None,
    decreases s.len(),
{
    if s.len() > 0 {
        let (r, c1) = top_level(s.drop_last(), c);
        lemma_top_level_method(s.drop_last(), c);
        let x = s.last();
        if x.kind@ == "declaration"@ {
            lemma_global_fields_method(x, 0, c1, seq![]);
        } else if x.kind@ == "function_definition"@ {
            match crate::syntax::child_by_field(x, "declarator"@) {
                Some(fd) => match crate::syntax::child_by_field(fd, "parameters"@) {
                    Some(ps) => lemma_params_method(ps.children@, c1),
                    None => {},
                },
                None => {},
            }
            if parsed_function(x, c1).0 matches Ok(Some(m)) {
                lemma_function_shape(x, c1);
            }
        }
    }
}

/// A conversion that succeeds, started with no method open, leaves no
/// method open.
pub proof fn lemma_no_method_left_open(root: SyntaxNode, c: ContextView)
    requires
        converted(root, c).0 is Ok,
        c.current_method is None,
    ensures
        converted(root, c).1.current_method is None,
{
    lemma_top_level_method(root.children@, c);
}

// ---------------------------------------------------------------------------
// Declared names stay declared.
// ---------------------------------------------------------------------------

/// `d` has as many scopes as `c`, and every name `c` declares, `d`
/// declares too.
pub open spec fn keeps_names(c: ContextView, d: ContextView) -> bool {
    &&& d.scopes.len() == c.scopes.len()
    &&& forall|name: Seq<char>| #[trigger] ctx_lookup(c, name) is Some ==> ctx_lookup(d, name) is Some
}

proof fn lemma_keeps_trans(c: ContextView, d: ContextView, e: ContextView)
    requires
        keeps_names(c, d),
        keeps_names(d, e),
    ensures
        keeps_names(c, e),
{
    assert forall|name: Seq<char>| #[trigger] ctx_lookup(c, name) is Some implies ctx_lookup(
        e,
        name,
    ) is Some by {
        assert(ctx_lookup(d, name) is Some);
    }
}

/// Declaring a name keeps every other and, with a scope open, makes the
/// name known.
proof fn lemma_declare_keeps(c: ContextView, name: Seq<char>, ty: TypeView)
    ensures
        keeps_names(c, ctx_declare(c, name, ty)),
        c.scopes.len() > 0 ==> ctx_lookup(ctx_declare(c, name, ty), name) is Some,
{
    if c.scopes.len() > 0 {
        assert forall|other: Seq<char>| #[trigger] ctx_lookup(c, other) is Some implies ctx_lookup(
            ctx_declare(c, name, ty),
            other,
        ) is Some by {
            lemma_lookup_after_declare(c.scopes, name, ty, other);
        }
        lemma_lookup_after_declare(c.scopes, name, ty, name);
    }
}

proof fn lemma_array_decl_keeps(d: SyntaxNode, c: ContextView, base: TypeView)
    ensures
        keeps_names(c, parsed_array_decl(d, c, base).1),
{
    match child(d, 0) {
        None => {},
        Some(c0) => match array_dims(d.children@, c) {
            Err(_) => {},
            Ok(dims) => lemma_declare_keeps(c, c0.text@, array_of(base, dims.1)),
        },
    }
}

proof fn lemma_decl_stmts_keeps(n: SyntaxNode, i: int, c: ContextView, acc: Seq<StmtView>)
    ensures
        keeps_names(c, decl_stmts(n, i, c, acc).1),
    decreases n.children@.len() - i, 1int,
{
    if 0 <= i < n.children@.len() {
        let d = n.children@[i];
        if !has_field(d, "declarator"@) || d.kind@ == "function_declarator"@ {
            lemma_decl_stmts_keeps(n, i + 1, c, acc);
        } else if d.kind@ == "array_declarator"@ {
            match type_of_decl(n) {
                None => {},
                Some(base) => lemma_array_decl_keeps(d, c, base),
            }
        } else if d.kind@ == "init_declarator"@ {
            match child_by_field(d, "declarator"@) {
                None => {},
                Some(dn) => match child_by_field(d, "value"@) {
                    None => {},
                    Some(v) => if dn.kind@ == "array_declarator"@ {
                        match type_of_decl(n) {
                            None => {},
                            Some(base) => lemma_array_decl_keeps(dn, c, base),
                        }
                    } else {
                        match parsed_expr(v, c) {
                            Err(_) => {},
                            Ok(init) => lemma_decl_then_keeps(n, i, c, acc, dn.text@, init),
                        }
                    },
                },
            }
        } else {
            lemma_decl_then_keeps(n, i, c, acc, d.text@, None);
        }
    }
}

proof fn lemma_decl_then_keeps(
    n: SyntaxNode,
    i: int,
    c: ContextView,
    acc: Seq<StmtView>,
    name: Seq<char>,
    init: Option<ExprView>,
)
    ensures
        keeps_names(c, decl_var_then(n, i, c, acc, name, init).1),
    decreases n.children@.len() - i, 0int,
{
    match type_of_decl(n) {
        None => {},
        Some(ty) => if 0 <= i < n.children@.len() {
            let c1 = ctx_declare(c, name, ty);
            lemma_declare_keeps(c, name, ty);
            lemma_decl_stmts_keeps(n, i + 1, c1, acc.push(StmtView::DeclVar(name, ty, init)));
            lemma_keeps_trans(
                c,
                c1,
                decl_stmts(n, i + 1, c1, acc.push(StmtView::DeclVar(name, ty, init))).1,
            );
        },
    }
}

proof fn lemma_stmt_keeps(n: SyntaxNode, c: ContextView, rv: bool)
    ensures
        keeps_names(c, parsed_stmt(n, c, rv).1),
    decreases n, 1int,
{
    let k = n.kind@;
    if k == "return_statement"@ {
    } else if k == "declaration"@ {
        lemma_decl_stmts_keeps(n, 0, c, seq![]);
    } else if k == "expression_statement"@ {
    } else if k == "while_statement"@ {
        lemma_while_keeps(n, c, rv);
    } else if k == "compound_statement"@ {
        lemma_stmts_keeps(n.children@, c, rv, true);
    } else if k == "if_statement"@ {
        lemma_if_keeps(n, c, rv);
    } else if k == "goto_statement"@ {
    } else if k == "labeled_statement"@ {
        match child(n, 2) {
            None => {},
            Some(x) => lemma_stmt_keeps(x, c, rv),
        }
    } else if k == "break_statement"@ {
    } else if k == "continue_statement"@ {
    } else if k == "for_statement"@ {
        lemma_for_keeps(n, c, rv);
    }
}

proof fn lemma_stmts_keeps(s: Seq<SyntaxNode>, c: ContextView, rv: bool, sb: bool)
    ensures
        keeps_names(c, stmts_of(s, c, rv, sb).1),
    decreases s, 0int,
{
    if s.len() > 0 {
        let (r, c1) = stmts_of(s.drop_last(), c, rv, sb);
        lemma_stmts_keeps(s.drop_last(), c, rv, sb);
        if r is Ok {
            let x = s.last();
            if !(sb && (x.kind@ == "{"@ || x.kind@ == "}"@)) {
                lemma_stmt_keeps(x, c1, rv);
                lemma_keeps_trans(c, c1, parsed_stmt(x, c1, rv).1);
            }
        }
    }
}

proof fn lemma_while_keeps(n: SyntaxNode, c: ContextView, rv: bool)
    ensures
        keeps_names(c, parsed_while(n, c, rv).1),
    decreases n, 0int,
{
    match child(n, 1) {
        None => {},
        Some(c1) => match parsed_expr(c1, c) {
            Err(_) => {},
            Ok(_) => match child(n, 2) {
                None => {},
                Some(c2) => lemma_stmt_keeps(c2, c, rv),
            },
        },
    }
}

proof fn lemma_if_keeps(n: SyntaxNode, c: ContextView, rv: bool)
    ensures
        keeps_names(c, parsed_if(n, c, rv).1),
    decreases n, 0int,
{
    match child(n, 1) {
        None => {},
        Some(c1) => match parsed_expr(c1, c) {
            Err(_) => {},
            Ok(_) => match child(n, 2) {
                None => {},
                Some(c2) => {
                    let (t, ct) = parsed_stmt(c2, c, rv);
                    lemma_stmt_keeps(c2, c, rv);
                    if t is Ok {
                        match child(n, 3) {
                            None => {},
                            Some(ec) => match child(ec, 1) {
                                None => {},
                                Some(e1) => {
                                    lemma_stmt_keeps(e1, ct, rv);
                                    lemma_keeps_trans(c, ct, parsed_stmt(e1, ct, rv).1);
                                },
                            },
                        }
                    }
                },
            },
        },
    }
}

proof fn lemma_for_step_keeps(st: ForState, x: SyntaxNode, c: ContextView, rv: bool)
    ensures
        keeps_names(c, for_step(st, x, c, rv).1),
    decreases x, 2int,
{
    let k = x.kind@;
    if k == ";"@ || k == ")"@ {
    } else if k == "("@ || k == "for"@ {
    } else if st.counter == 0 || st.counter == 3 {
        lemma_stmt_keeps(x, c, rv);
    }
}

proof fn lemma_for_parts_keeps(s: Seq<SyntaxNode>, c: ContextView, rv: bool)
    ensures
        keeps_names(c, for_parts(s, c, rv).1),
    decreases s, 0int,
{
    if s.len() > 0 {
        let (r, c1) = for_parts(s.drop_last(), c, rv);
        lemma_for_parts_keeps(s.drop_last(), c, rv);
        if r is Ok {
            lemma_for_step_keeps(r->Ok_0, s.last(), c1, rv);
            lemma_keeps_trans(c, c1, for_step(r->Ok_0, s.last(), c1, rv).1);
        }
    }
}

proof fn lemma_for_keeps(n: SyntaxNode, c: ContextView, rv: bool)
    ensures
        keeps_names(c, parsed_for(n, c, rv).1),
    decreases n, 0int,
{
    lemma_for_parts_keeps(n.children@, c, rv);
}

proof fn lemma_params_keeps(s: Seq<SyntaxNode>, c: ContextView)
    ensures
        keeps_names(c, params_of(s, c).1),
    decreases s.len(),
{
    if s.len() > 0 {
        let (r, c1) = params_of(s.drop_last(), c);
        lemma_params_keeps(s.drop_last(), c);
        if r is Some {
            let p = s.last();
            if p.kind@ == "parameter_declaration"@ {
                match type_of_decl(p) {
                    None => {},
                    Some(ty) => match child_by_field(p, "declarator"@) {
                        None => {},
                        Some(dn) => {
                            lemma_declare_keeps(c1, dn.text@, ty);
                            lemma_keeps_trans(c, c1, ctx_declare(c1, dn.text@, ty));
                        },
                    },
                }
            }
        }
    }
}

/// A function definition keeps every declared name and, when it becomes a
/// method, declares the method's name.
proof fn lemma_function_keeps(n: SyntaxNode, c: ContextView)
    ensures
        keeps_names(c, parsed_function(n, c).1),
        c.scopes.len() > 0 ==> (parsed_function(n, c).0 matches Ok(Some(m)) ==> ctx_lookup(
            parsed_function(n, c).1,
            m.id,
        ) is Some),
{
    let (params, c1) = parsed_params(n, c);
    match child_by_field(n, "declarator"@) {
        Some(fd) => match child_by_field(fd, "parameters"@) {
            Some(ps) => lemma_params_keeps(ps.children@, c),
            None => {},
        },
        None => {},
    }
    match child_by_field(n, "body"@) {
        None => {},
        Some(body) => match func_name(n) {
            None => {},
            Some(id) => {
                let c2 = ContextView { current_method: Some(id), ..c1 };
                assert(keeps_names(c1, c2));
                lemma_keeps_trans(c, c1, c2);
                let ftype = func_type(n);
                let (r, c3) = stmts_of(body.children@, c2, ftype is Some, false);
                lemma_stmts_keeps(body.children@, c2, ftype is Some, false);
                lemma_keeps_trans(c, c2, c3);
                if r is Ok {
                    let ps = match params {
                        Some(p) => p,
                        None => seq![],
                    };
                    let c4 = ctx_declare(c3, id, function_type(ps, ftype));
                    lemma_declare_keeps(c3, id, function_type(ps, ftype));
                    lemma_keeps_trans(c, c3, c4);
                    let c5 = ContextView { current_method: None, ..c4 };
                    assert(keeps_names(c4, c5));
                    lemma_keeps_trans(c, c4, c5);
                }
            },
        },
    }
}

/// A global declaration keeps every declared name and declares each field
/// it gives, the ones already collected in `acc` staying declared.
proof fn lemma_global_fields_keeps(n: SyntaxNode, i: int, c: ContextView, acc: Seq<FieldView>)
    requires
        c.scopes.len() > 0,
        forall|j: int| 0 <= j < acc.len() ==> ctx_lookup(c, #[trigger] acc[j].id) is Some,
    ensures
        keeps_names(c, global_fields(n, i, c, acc).1),
        global_fields(n, i, c, acc).0 matches Ok(Some(fs)) ==> forall|j: int|
            0 <= j < fs.len() ==> ctx_lookup(global_fields(n, i, c, acc).1, #[trigger] fs[j].id)
                is Some,
    decreases n.children@.len() - i, 1int,
{
    if 0 <= i < n.children@.len() {
        let d = n.children@[i];
        if !has_field(d, "declarator"@) || d.kind@ == "function_declarator"@ {
            lemma_global_fields_keeps(n, i + 1, c, acc);
        } else {
            match child_by_field(d, "value"@) {
                Some(v) => match child_by_field(d, "declarator"@) {
                    None => {},
                    Some(dn) => match parsed_expr(v, c) {
                        Err(_) => {},
                        Ok(init) => lemma_global_then_keeps(n, i, c, acc, dn.text@, init),
                    },
                },
                None => lemma_global_then_keeps(n, i, c, acc, d.text@, None),
            }
        }
    }
}

proof fn lemma_global_then_keeps(
    n: SyntaxNode,
    i: int,
    c: ContextView,
    acc: Seq<FieldView>,
    name: Seq<char>,
    init: Option<ExprView>,
)
    requires
        c.scopes.len() > 0,
        forall|j: int| 0 <= j < acc.len() ==> ctx_lookup(c, #[trigger] acc[j].id) is Some,
    ensures
        keeps_names(c, global_field_then(n, i, c, acc, name, init).1),
        global_field_then(n, i, c, acc, name, init).0 matches Ok(Some(fs)) ==> forall|j: int|
            0 <= j < fs.len() ==> ctx_lookup(
                global_field_then(n, i, c, acc, name, init).1,
                #[trigger] fs[j].id,
            ) is Some,
    decreases n.children@.len() - i, 0int,
{
    match type_of_decl(n) {
        None => {},
        Some(ty) => if 0 <= i < n.children@.len() {
            let c1 = ctx_declare(c, name, ty);
            let acc1 = acc.push(FieldView { id: name, ty, init });
            lemma_declare_keeps(c, name, ty);
            assert forall|j: int| 0 <= j < acc1.len() implies ctx_lookup(
                c1,
                #[trigger] acc1[j].id,
            ) is Some by {
                if j < acc.len() {
                    assert(acc1[j] == acc[j]);
                    assert(ctx_lookup(c, acc[j].id) is Some);
                }
            }
            lemma_global_fields_keeps(n, i + 1, c1, acc1);
            lemma_keeps_trans(c, c1, global_fields(n, i + 1, c1, acc1).1);
        },
    }
}

proof fn lemma_top_level_keeps(s: Seq<SyntaxNode>, c: ContextView)
    requires
        c.scopes.len() > 0,
        top_level(s, c).0 is Ok,
    ensures
        keeps_names(c, top_level(s, c).1),
        forall|j: int|
            0 <= j < top_level(s, c).0->Ok_0.0.len() ==> ctx_lookup(
                top_level(s, c).1,
                #[trigger] top_level(s, c).0->Ok_0.0[j].id,
            ) is Some,
        forall|j: int|
            0 <= j < top_level(s, c).0->Ok_0.1.len() ==> ctx_lookup(
                top_level(s, c).1,
                #[trigger] top_level(s, c).0->Ok_0.1[j].id,
            ) is Some,
    decreases s.len(),
{
    if s.len() > 0 {
        let (r, c1) = top_level(s.drop_last(), c);
        lemma_top_level_keeps(s.drop_last(), c);
        let acc = r->Ok_0;
        let x = s.last();
        let (r2, c2) = top_level(s, c);
        let res = r2->Ok_0;
        if x.kind@ == "declaration"@ {
            lemma_global_fields_keeps(x, 0, c1, seq![]);
        } else if x.kind@ == "function_definition"@ {
            lemma_function_keeps(x, c1);
        } else {
            assert(keeps_names(c1, c2));
        }
        lemma_keeps_trans(c, c1, c2);
        assert forall|j: int| 0 <= j < res.0.len() implies ctx_lookup(c2, #[trigger] res.0[j].id)
            is Some by {
            if j < acc.0.len() {
                assert(res.0[j] == acc.0[j]);
                assert(ctx_lookup(c1, acc.0[j].id) is Some);
            } else {
                let f = parsed_global_var(x, c1).0->Ok_0->Some_0;
                assert(res.0[j] == f[j - acc.0.len()]);
            }
        }
        assert forall|j: int| 0 <= j < res.1.len() implies ctx_lookup(c2, #[trigger] res.1[j].id)
            is Some by {
            if j < acc.1.len() {
                assert(res.1[j] == acc.1[j]);
                assert(ctx_lookup(c1, acc.1[j].id) is Some);
            }
        }
    }
}

/// Converting only adds to what the context declares: every name declared
/// before is declared after, with as many scopes as before; and, with a
/// scope open, every global variable and every function of the program is
/// declared afterwards.
pub proof fn lemma_conversion_declares(root: SyntaxNode, c: ContextView)
    requires
        converted(root, c).0 is Ok,
        c.scopes.len() > 0,
    ensures
        keeps_names(c, converted(root, c).1),
        forall|j: int|
            0 <= j < the_class(converted(root, c).0->Ok_0).fields.len() ==> ctx_lookup(
                converted(root, c).1,
                #[trigger] the_class(converted(root, c).0->Ok_0).fields[j].id,
            ) is Some,
        forall|j: int|
            0 <= j < the_class(converted(root, c).0->Ok_0).methods.len() ==> ctx_lookup(
                converted(root, c).1,
                #[trigger] the_class(converted(root, c).0->Ok_0).methods[j].id,
            ) is Some,
{
    lemma_top_level_keeps(root.children@, c);
}

// ---------------------------------------------------------------------------
// Types.
// ---------------------------------------------------------------------------

/// C `int` becomes Dafny `int`, and each unsigned C type a bit-vector of
/// its width; no other C type name gives these types.
pub proof fn lemma_c_types(t: Seq<char>)
    ensures
        (type_of_name(t) == Some(TypeView::Int)) == (t == "int"@),
        type_of_name(t) matches Some(TypeView::Bv(w)) ==> (w == 8 && t == "unsigned char"@) || (w
            == 16 && t == "unsigned short"@) || (w == 32 && t == "unsigned int"@) || (w == 64 && t
            == "unsigned long long"@),
        t == "unsigned char"@ ==> type_of_name(t) == Some(TypeView::Bv(8)),
        t == "unsigned short"@ ==> type_of_name(t) == Some(TypeView::Bv(16)),
        t == "unsigned int"@ ==> type_of_name(t) == Some(TypeView::Bv(32)),
        t == "unsigned long long"@ ==> type_of_name(t) == Some(TypeView::Bv(64)),
{
    reveal_strlit("int");
    reveal_strlit("unsigned int");
    reveal_strlit("unsigned char");
    reveal_strlit("unsigned short");
    reveal_strlit("unsigned long long");
    assert("int"@.len() == 3);
    assert("unsigned int"@.len() == 12);
    assert("unsigned char"@.len() == 13);
    assert("unsigned short"@.len() == 14);
    assert("unsigned long long"@.len() == 18);
    reveal_strlit("_Bool");
    reveal_strlit("bool");
    assert("_Bool"@.len() == 5);
    assert("bool"@.len() == 4);
}

/// A type some C type name gives.
pub open spec fn is_c_type(ty: TypeView) -> bool {
    exists|t: Seq<char>| type_of_name(t) == Some(ty)
}

proof fn lemma_global_fields_types(n: SyntaxNode, i: int, c: ContextView, acc: Seq<FieldView>)
    requires
        forall|j: int| 0 <= j < acc.len() ==> is_c_type(#[trigger] acc[j].ty),
    ensures
        global_fields(n, i, c, acc).0 matches Ok(Some(fs)) ==> forall|j: int|
            0 <= j < fs.len() ==> is_c_type(#[trigger] fs[j].ty),
    decreases n.children@.len() - i, 1int,
{
    if 0 <= i < n.children@.len() {
        let d = n.children@[i];
        if !has_field(d, "declarator"@) || d.kind@ == "function_declarator"@ {
            lemma_global_fields_types(n, i + 1, c, acc);
        } else {
            match child_by_field(d, "value"@) {
                Some(v) => match child_by_field(d, "declarator"@) {
                    None => {},
                    Some(dn) => match parsed_expr(v, c) {
                        Err(_) => {},
                        Ok(init) => lemma_global_then_types(n, i, c, acc, dn.text@, init),
                    },
                },
                None => lemma_global_then_types(n, i, c, acc, d.text@, None),
            }
        }
    }
}

proof fn lemma_global_then_types(
    n: SyntaxNode,
    i: int,
    c: ContextView,
    acc: Seq<FieldView>,
    name: Seq<char>,
    init: Option<ExprView>,
)
    requires
        forall|j: int| 0 <= j < acc.len() ==> is_c_type(#[trigger] acc[j].ty),
    ensures
        global_field_then(n, i, c, acc, name, init).0 matches Ok(Some(fs)) ==> forall|j: int|
            0 <= j < fs.len() ==> is_c_type(#[trigger] fs[j].ty),
    decreases n.children@.len() - i, 0int,
{
    match type_of_decl(n) {
        None => {},
        Some(ty) => if 0 <= i < n.children@.len() {
            let tn = child_by_field(n, "type"@)->Some_0;
            assert(type_of_name(trim(tn.text@)) == Some(ty));
            let acc1 = acc.push(FieldView { id: name, ty, init });
            assert forall|j: int| 0 <= j < acc1.len() implies is_c_type(#[trigger] acc1[j].ty) by {
                if j < acc.len() {
                    assert(acc1[j] == acc[j]);
                }
            }
            lemma_global_fields_types(n, i + 1, ctx_declare(c, name, ty), acc1);
        },
    }
}

proof fn lemma_top_level_types(s: Seq<SyntaxNode>, c: ContextView)
    requires
        top_level(s, c).0 is Ok,
    ensures
        forall|j: int|
            0 <= j < top_level(s, c).0->Ok_0.0.len() ==> is_c_type(
                #[trigger] top_level(s, c).0->Ok_0.0[j].ty,
            ),
    decreases s.len(),
{
    if s.len() > 0 {
        let (r, c1) = top_level(s.drop_last(), c);
        lemma_top_level_types(s.drop_last(), c);
        let acc = r->Ok_0;
        let x = s.last();
        let res = top_level(s, c).0->Ok_0;
        if x.kind@ == "declaration"@ {
            lemma_global_fields_types(x, 0, c1, seq![]);
            assert forall|j: int| 0 <= j < res.0.len() implies is_c_type(#[trigger] res.0[j].ty) by {
                if j < acc.0.len() {
                    assert(res.0[j] == acc.0[j]);
                } else {
                    let f = parsed_global_var(x, c1).0->Ok_0->Some_0;
                    assert(res.0[j] == f[j - acc.0.len()]);
                }
            }
        }
    }
}

/// Every field of a converted program has the Dafny type of a C type name:
/// `int`, `bool`, `real`, or a bit-vector of the width of an unsigned C
/// type.
pub proof fn lemma_fields_have_c_types(root: SyntaxNode, c: ContextView)
    requires
        converted(root, c).0 is Ok,
    ensures
        forall|j: int|
            0 <= j < the_class(converted(root, c).0->Ok_0).fields.len() ==> is_c_type(
                #[trigger] the_class(converted(root, c).0->Ok_0).fields[j].ty,
            ),
{
    lemma_top_level_types(root.children@, c);
}

} // verus!
