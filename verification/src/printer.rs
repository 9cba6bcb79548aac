//! Renders a Dafny syntax tree as Dafny source text.
use vstd::prelude::*;
use vstd::string::*;

use crate::dafny_ast::{
    case_view, cases_view, class_view, constructor_view, datatype_view, declaration_view,
    expr_view, exprs_view, field_view, function_view, lemma_cases_view, lemma_cases_view_prefix, lemma_exprs_view, lemma_exprs_view_prefix,
    lemma_patterns_view_prefix, lemma_stmts_view, lemma_stmts_view_prefix,
    lemma_types_view_prefix, lhs_view, literal_view, method_view,
    params_view, pattern_view, patterns_view, predicate_view, primary_view,
    return_vars_view, stmt_view, stmts_view, type_view, types_view, AdditiveOp, Assign, Block,
    Case, ClassDecl, ComparisonOp, ConstructorDecl, DatatypeDecl, Declaration, EqualityOp, Expr,
    FieldDecl, ForLoop, FunctionDecl, IfElse, Lhs, Literal, Match, MethodDecl, MultOp, Param,
    ParamView, Pattern, PredicateDecl, PrimaryExpr, Program, ReturnVar, ShiftOp, Stmt, Type,
    UnaryOp, WhileLoop,
};
use crate::printer_spec::{
    lemma_block_str_push, lemma_case_stmts_str_push, lemma_cases_str_push, lemma_exprs_str_push, lemma_patterns_str_push, lemma_types_str_push,
    additive_op_str, bin_str, block_str, case_stmts_str, case_str, cases_str, class_str,
    clause_str, comparison_op_str, constructor_str, datatype_str, declaration_str,
    equality_op_str, expr_str, exprs_str, field_str, fields_str, function_str, indent,
    join, lemma_printable_block, lemma_printable_cases, lemma_printable_exprs,
    lhs_str, literal_str, method_str, methods_str, mult_op_str, param_str, params_str,
    pattern_str, patterns_str, predicate_str, primary_str, printable_block, printable_case,
    printable_class, printable_constructor, printable_datatype, printable_declaration,
    printable_expr, printable_exprs, printable_function, printable_lhs, printable_literal,
    printable_method, printable_predicate, printable_primary, printable_program, printable_stmt,
    program_str, shift_op_str, stmt_str, type_str, types_str, unary_op_str,
};
use crate::strings::push_decimal;

verus! {

/// The Dafny printer.
pub struct DafnyPrinter;

fn paren_bin(l: String, op: &str, r: String) -> (s: String)
    ensures
        s@ == bin_str(l@, op@, r@),
{
    let mut s = String::from_str("(");
    s.append(l.as_str());
    s.append(" ");
    s.append(op);
    s.append(" ");
    s.append(r.as_str());
    s.append(")");
    s
}

fn equality_op(op: &EqualityOp) -> (r: &'static str)
    ensures
        r@ == equality_op_str(*op),
{
    match op {
        EqualityOp::Eq => "==",
        EqualityOp::Ne => "!=",
    }
}

fn comparison_op(op: &ComparisonOp) -> (r: &'static str)
    ensures
        r@ == comparison_op_str(*op),
{
    match op {
        ComparisonOp::Lt => "<",
        ComparisonOp::Gt => ">",
        ComparisonOp::Le => "<=",
        ComparisonOp::Ge => ">=",
    }
}

fn shift_op(op: &ShiftOp) -> (r: &'static str)
    ensures
        r@ == shift_op_str(*op),
{
    match op {
        ShiftOp::Shl => "<<",
        ShiftOp::Shr => ">>",
    }
}

fn additive_op(op: &AdditiveOp) -> (r: &'static str)
    ensures
        r@ == additive_op_str(*op),
{
    match op {
        AdditiveOp::Add => "+",
        AdditiveOp::Sub => "-",
    }
}

fn mult_op(op: &MultOp) -> (r: &'static str)
    ensures
        r@ == mult_op_str(*op),
{
    match op {
        MultOp::Mul => "*",
        MultOp::Div => "/",
        MultOp::Mod => "%",
    }
}

fn unary_op(op: &UnaryOp) -> (r: &'static str)
    ensures
        r@ == unary_op_str(*op),
{
    match op {
        UnaryOp::Not => "!",
        UnaryOp::Neg => "-",
        UnaryOp::Old => "old",
    }
}

impl DafnyPrinter {
    /// The program's text: each declaration at level 0, followed by a line
    /// break.
    pub fn print_program(program: &Program) -> (r: String)
        requires
            printable_program(program@),
        ensures
            r@ == program_str(program@),
    {
        let mut result = String::new();
        let n = program.declarations.len();
        let mut i: usize = 0;
        while i < n
            invariant
                n == program.declarations@.len(),
                i <= n,
                printable_program(program@),
                result@ == program_str(program@.subrange(0, i as int)),
            decreases n - i,
        {
            assert(program@[i as int] == declaration_view(program.declarations@[i as int]));
            let d = Self::print_declaration(&program.declarations[i], 0);
            result.append(d.as_str());
            result.append("\n");
            assert(program@.subrange(0, i + 1).drop_last() =~= program@.subrange(0, i as int));
            i = i + 1;
        }
        assert(program@.subrange(0, n as int) =~= program@);
        result
    }

    pub fn print_declaration(decl: &Declaration, indent_level: usize) -> (r: String)
        requires
            printable_declaration(declaration_view(*decl), indent_level as nat),
        ensures
            r@ == declaration_str(declaration_view(*decl), indent_level as nat),
    {
        match decl {
            Declaration::Method(method) => Self::print_method_decl(method, indent_level),
            Declaration::Function(function) => Self::print_function_decl(function, indent_level),
            Declaration::Predicate(predicate) => Self::print_predicate_decl(
                predicate,
                indent_level,
            ),
            Declaration::Datatype(datatype) => Self::print_datatype_decl(datatype, indent_level),
            Declaration::Class(class) => Self::print_class_decl(class, indent_level),
        }
    }

    /// Appends a header clause: a line break, the indentation, the keyword
    /// and the expressions, when there are any.
    fn push_clause(result: &mut String, level: usize, keyword: &str, exprs: &Vec<Expr>)
        requires
            printable_exprs(exprs_view(exprs@)),
        ensures
            final(result)@ == clause_str(old(result)@, level as nat, keyword@, exprs_view(exprs@)),
    {
        proof {
            lemma_exprs_view(exprs@);
        }
        if exprs.len() > 0 {
            result.append("\n");
            let ind = Self::indent(level);
            result.append(ind.as_str());
            result.append(keyword);
            let list = Self::print_expr_list(exprs);
            result.append(list.as_str());
        }
    }

    pub fn print_method_decl(method: &MethodDecl, indent_level: usize) -> (r: String)
        requires
            printable_method(method_view(*method), indent_level as nat),
        ensures
            r@ == method_str(method_view(*method), indent_level as nat),
    {
        let mut result = Self::indent(indent_level);
        result.append("method ");
        result.append(method.id.as_str());
        result.append("(");
        let params = Self::print_params(&method.params);
        result.append(params.as_str());
        result.append(")");
        if method.returns.len() > 0 {
            result.append(" returns (");
            let rets = Self::print_return_vars(&method.returns);
            result.append(rets.as_str());
            result.append(")");
        }
        Self::push_clause(&mut result, indent_level + 1, "requires ", &method.requires);
        Self::push_clause(&mut result, indent_level + 1, "ensures ", &method.ensures);
        Self::push_clause(&mut result, indent_level + 1, "decreases ", &method.decreases);
        Self::push_clause(&mut result, indent_level + 1, "modifies ", &method.modifies);
        result.append("\n");
        let ind = Self::indent(indent_level);
        result.append(ind.as_str());
        result.append("{\n");
        let body = Self::print_block(&method.block, indent_level + 1);
        result.append(body.as_str());
        result.append(ind.as_str());
        result.append("}\n");
        result
    }

    pub fn print_function_decl(function: &FunctionDecl, indent_level: usize) -> (r: String)
        requires
            printable_function(function_view(*function), indent_level as nat),
        ensures
            r@ == function_str(function_view(*function), indent_level as nat),
    {
        let mut result = Self::indent(indent_level);
        let mut head = String::from_str("function ");
        head.append(function.id.as_str());
        head.append("(");
        let params = Self::print_params(&function.params);
        head.append(params.as_str());
        head.append(") : ");
        let ty = Self::print_type(&function.return_type);
        head.append(ty.as_str());
        result.append(head.as_str());
        Self::push_clause(&mut result, indent_level + 1, "requires ", &function.requires);
        Self::push_clause(&mut result, indent_level + 1, "ensures ", &function.ensures);
        result.append(" {\n");
        let inner = Self::indent(indent_level + 1);
        result.append(inner.as_str());
        let body = Self::print_expr(&function.body);
        result.append(body.as_str());
        result.append(";\n");
        let ind = Self::indent(indent_level);
        result.append(ind.as_str());
        result.append("}\n");
        result
    }

    pub fn print_predicate_decl(predicate: &PredicateDecl, indent_level: usize) -> (r: String)
        requires
            printable_predicate(predicate_view(*predicate), indent_level as nat),
        ensures
            r@ == predicate_str(predicate_view(*predicate), indent_level as nat),
    {
        let mut result = Self::indent(indent_level);
        result.append("predicate ");
        result.append(predicate.id.as_str());
        result.append("(");
        let params = Self::print_params(&predicate.params);
        result.append(params.as_str());
        result.append(")");
        Self::push_clause(&mut result, indent_level, "requires ", &predicate.requires);
        result.append(" {\n  ");
        let inner = Self::indent(indent_level + 1);
        result.append(inner.as_str());
        let body = Self::print_expr(&predicate.body);
        result.append(body.as_str());
        result.append("\n}\n");
        result
    }

    pub fn print_datatype_decl(datatype: &DatatypeDecl, indent_level: usize) -> (r: String)
        requires
            printable_datatype(datatype_view(*datatype), indent_level as nat),
        ensures
            r@ == datatype_str(datatype_view(*datatype), indent_level as nat),
    {
        let mut result = String::from_str("  datatype ");
        result.append(datatype.id.as_str());
        result.append(" = ");
        let ghost views = datatype_view(*datatype).constructors;
        let ghost parts = views.map_values(|c| constructor_str(c, indent_level as nat));
        let mut joined = String::new();
        let n = datatype.constructors.len();
        let mut i: usize = 0;
        while i < n
            invariant
                n == datatype.constructors@.len(),
                i <= n,
                views == datatype.constructors@.map_values(|c: ConstructorDecl| constructor_view(c)),
                parts == views.map_values(|c| constructor_str(c, indent_level as nat)),
                forall|j: int| 0 <= j < n ==> printable_constructor(#[trigger] views[j], indent_level as nat),
                joined@ == join(parts.subrange(0, i as int), " | "@),
            decreases n - i,
        {
            assert(printable_constructor(views[i as int], indent_level as nat));
            let c = Self::print_constructor_decl(&datatype.constructors[i], indent_level);
            assert(parts.subrange(0, i + 1).drop_last() =~= parts.subrange(0, i as int));
            if i > 0 {
                joined.append(" | ");
            } else {
                assert(joined@ + c@ =~= c@);
            }
            joined.append(c.as_str());
            i = i + 1;
        }
        assert(parts.subrange(0, n as int) =~= parts);
        result.append(joined.as_str());
        result.append(";\n");
        result
    }

    pub fn print_constructor_decl(constructor: &ConstructorDecl, indent_level: usize) -> (r: String)
        requires
            printable_constructor(constructor_view(*constructor), indent_level as nat),
        ensures
            r@ == constructor_str(constructor_view(*constructor), indent_level as nat),
    {
        let params = Self::print_params(&constructor.params);
        let body = Self::print_block(&constructor.block, indent_level + 1);
        let ind = Self::indent(indent_level);
        let mut result = Self::indent(indent_level);
        result.append("constructor(");
        result.append(params.as_str());
        result.append("){\n");
        result.append(body.as_str());
        result.append(ind.as_str());
        result.append("}");
        result
    }

    pub fn print_field(field: &FieldDecl, indent_level: usize) -> (r: String)
        ensures
            r@ == field_str(field_view(*field), indent_level as nat),
    {
        let mut result = Self::indent(indent_level);
        result.append("var ");
        result.append(field.id.as_str());
        result.append(": ");
        let ty = Self::print_type(&field.type_);
        result.append(ty.as_str());
        result.append("\n");
        result
    }

    pub fn print_class_decl(class: &ClassDecl, indent_level: usize) -> (r: String)
        requires
            printable_class(class_view(*class), indent_level as nat),
        ensures
            r@ == class_str(class_view(*class), indent_level as nat),
    {
        let ghost cv = class_view(*class);
        let mut result = Self::indent(indent_level);
        result.append("class ");
        result.append(class.id.as_str());
        match &class.extends {
            Some(parent) => {
                let mut ext = String::from_str(" extends ");
                let p = Self::print_type(parent);
                ext.append(p.as_str());
                result.append(ext.as_str());
            },
            None => {},
        }
        result.append(" {\n");
        let ghost fviews = cv.fields;
        let mut fields = String::new();
        let nf = class.fields.len();
        let mut i: usize = 0;
        while i < nf
            invariant
                nf == class.fields@.len(),
                i <= nf,
                indent_level + 1 < usize::MAX,
                fviews == class.fields@.map_values(|f: FieldDecl| field_view(f)),
                fields@ == fields_str(fviews.subrange(0, i as int), (indent_level + 1) as nat),
            decreases nf - i,
        {
            let f = Self::print_field(&class.fields[i], indent_level + 1);
            assert(fviews.subrange(0, i + 1).drop_last() =~= fviews.subrange(0, i as int));
            fields.append(f.as_str());
            i = i + 1;
        }
        assert(fviews.subrange(0, nf as int) =~= fviews);
        result.append(fields.as_str());
        match &class.constructor {
            Some(constructor) => {
                let c = Self::print_constructor_decl(constructor, indent_level + 1);
                result.append(c.as_str());
                result.append("\n");
            },
            None => {},
        }
        let ghost mviews = cv.methods;
        let mut methods = String::new();
        let nm = class.methods.len();
        let mut j: usize = 0;
        while j < nm
            invariant
                nm == class.methods@.len(),
                j <= nm,
                mviews == class.methods@.map_values(|m: MethodDecl| method_view(m)),
                forall|x: int|
                    0 <= x < nm ==> printable_method(#[trigger] mviews[x], (indent_level + 1) as nat),
                methods@ == methods_str(mviews.subrange(0, j as int), (indent_level + 1) as nat),
            decreases nm - j,
        {
            assert(printable_method(mviews[j as int], (indent_level + 1) as nat));
            let m = Self::print_method_decl(&class.methods[j], indent_level + 1);
            assert(mviews.subrange(0, j + 1).drop_last() =~= mviews.subrange(0, j as int));
            methods.append(m.as_str());
            methods.append("\n");
            j = j + 1;
        }
        assert(mviews.subrange(0, nm as int) =~= mviews);
        result.append(methods.as_str());
        result.append("}\n");
        result
    }

    pub fn print_params(params: &Vec<Param>) -> (r: String)
        ensures
            r@ == params_str(params_view(params@)),
    {
        let ghost parts = params_view(params@).map_values(|p: ParamView| param_str(p));
        let mut result = String::new();
        let n = params.len();
        let mut i: usize = 0;
        while i < n
            invariant
                n == params@.len(),
                i <= n,
                parts == params_view(params@).map_values(|p: ParamView| param_str(p)),
                result@ == join(parts.subrange(0, i as int), ", "@),
            decreases n - i,
        {
            let mut one = String::new();
            one.append(params[i].id.as_str());
            one.append(": ");
            let ty = Self::print_type(&params[i].type_);
            one.append(ty.as_str());
            assert(one@ == parts[i as int]);
            assert(parts.subrange(0, i + 1).drop_last() =~= parts.subrange(0, i as int));
            if i > 0 {
                result.append(", ");
            } else {
                assert(result@ + one@ =~= one@);
            }
            result.append(one.as_str());
            i = i + 1;
        }
        assert(parts.subrange(0, n as int) =~= parts);
        result
    }

    pub fn print_return_vars(rets: &Vec<ReturnVar>) -> (r: String)
        ensures
            r@ == params_str(return_vars_view(rets@)),
    {
        let ghost parts = return_vars_view(rets@).map_values(|p: ParamView| param_str(p));
        let mut result = String::new();
        let n = rets.len();
        let mut i: usize = 0;
        while i < n
            invariant
                n == rets@.len(),
                i <= n,
                parts == return_vars_view(rets@).map_values(|p: ParamView| param_str(p)),
                result@ == join(parts.subrange(0, i as int), ", "@),
            decreases n - i,
        {
            let mut one = String::new();
            one.append(rets[i].id.as_str());
            one.append(": ");
            let ty = Self::print_type(&rets[i].type_);
            one.append(ty.as_str());
            assert(one@ == parts[i as int]);
            assert(parts.subrange(0, i + 1).drop_last() =~= parts.subrange(0, i as int));
            if i > 0 {
                result.append(", ");
            } else {
                assert(result@ + one@ =~= one@);
            }
            result.append(one.as_str());
            i = i + 1;
        }
        assert(parts.subrange(0, n as int) =~= parts);
        result
    }

    pub fn print_type(type_: &Type) -> (r: String)
        ensures
            r@ == type_str(type_@),
        decreases type_,
    {
        match type_ {
            Type::Int => String::from_str("int"),
            Type::Bool => String::from_str("bool"),
            Type::Real => String::from_str("real"),
            Type::Bv(size) => {
                let mut s = String::from_str("bv");
                push_decimal(&mut s, *size as u128);
                s
            },
            Type::SetOf(inner) => {
                let mut s = String::from_str("set<");
                let i = Self::print_type(&**inner);
                s.append(i.as_str());
                s.append(">");
                s
            },
            Type::SeqOf(inner) => {
                let mut s = String::from_str("seq<");
                let i = Self::print_type(&**inner);
                s.append(i.as_str());
                s.append(">");
                s
            },
            Type::Array(inner) => {
                let mut s = String::from_str("array<");
                let i = Self::print_type(&**inner);
                s.append(i.as_str());
                s.append(">");
                s
            },
            Type::Named(name) => name.clone(),
            Type::Function(args, ret) => {
                let mut s = String::from_str("(");
                let a = Self::print_types(args);
                s.append(a.as_str());
                s.append(") -> ");
                let r = Self::print_type(&**ret);
                s.append(r.as_str());
                s
            },
        }
    }

    pub fn print_types(types: &Vec<Type>) -> (r: String)
        ensures
            r@ == types_str(types_view(types@)),
        decreases types,
    {
        let mut result = String::new();
        let n = types.len();
        let mut i: usize = 0;
        while i < n
            invariant
                n == types@.len(),
                i <= n,
                result@ == types_str(types_view(types@.subrange(0, i as int))),
            decreases n - i,
        {
            proof {
                lemma_types_view_prefix(types@, i as int);
                lemma_types_str_push(types_view(types@.subrange(0, i as int)), type_view(types@[i as int]));
            }
            let t = Self::print_type(&types[i]);
            if i > 0 {
                result.append(", ");
            } else {
                assert(result@ + t@ =~= t@);
            }
            result.append(t.as_str());
            i = i + 1;
        }
        assert(types@.subrange(0, n as int) =~= types@);
        result
    }

    pub fn print_expr_list(exprs: &Vec<Expr>) -> (r: String)
        requires
            printable_exprs(exprs_view(exprs@)),
        ensures
            r@ == exprs_str(exprs_view(exprs@)),
        decreases exprs,
    {
        proof {
            lemma_exprs_view(exprs@);
            lemma_printable_exprs(exprs_view(exprs@));
        }
        let mut result = String::new();
        let n = exprs.len();
        let mut i: usize = 0;
        while i < n
            invariant
                n == exprs@.len(),
                i <= n,
                exprs_view(exprs@).len() == n,
                forall|j: int| 0 <= j < n ==> exprs_view(exprs@)[j] == expr_view(exprs@[j]),
                forall|j: int| 0 <= j < n ==> printable_expr(#[trigger] exprs_view(exprs@)[j]),
                result@ == exprs_str(exprs_view(exprs@.subrange(0, i as int))),
            decreases n - i,
        {
            proof {
                lemma_exprs_view_prefix(exprs@, i as int);
                lemma_exprs_str_push(exprs_view(exprs@.subrange(0, i as int)), expr_view(exprs@[i as int]));
            }
            assert(printable_expr(exprs_view(exprs@)[i as int]));
            let e = Self::print_expr(&exprs[i]);
            if i > 0 {
                result.append(", ");
            } else {
                assert(result@ + e@ =~= e@);
            }
            result.append(e.as_str());
            i = i + 1;
        }
        assert(exprs@.subrange(0, n as int) =~= exprs@);
        result
    }

    pub fn print_expr(expr: &Expr) -> (r: String)
        requires
            printable_expr(expr@),
        ensures
            r@ == expr_str(expr@),
        decreases expr,
    {
        match expr {
            Expr::LogicalOr(lhs, rhs) => paren_bin(
                Self::print_expr(&**lhs),
                "||",
                Self::print_expr(&**rhs),
            ),
            Expr::LogicalAnd(lhs, rhs) => paren_bin(
                Self::print_expr(&**lhs),
                "&&",
                Self::print_expr(&**rhs),
            ),
            Expr::Equality(op, lhs, rhs) => paren_bin(
                Self::print_expr(&**lhs),
                equality_op(op),
                Self::print_expr(&**rhs),
            ),
            Expr::Primary(primary) => Self::print_primary_expr(primary),
            Expr::Additive(op, lhs, rhs) => paren_bin(
                Self::print_expr(&**lhs),
                additive_op(op),
                Self::print_expr(&**rhs),
            ),
            Expr::Mult(op, lhs, rhs) => paren_bin(
                Self::print_expr(&**lhs),
                mult_op(op),
                Self::print_expr(&**rhs),
            ),
            Expr::Unary(op, inner) => {
                let mut s = String::from_str("(");
                s.append(unary_op(op));
                s.append(" ");
                let e = Self::print_expr(&**inner);
                s.append(e.as_str());
                s.append(")");
                s
            },
            Expr::BitwiseAnd(lhs, rhs) => paren_bin(
                Self::print_expr(&**lhs),
                "&",
                Self::print_expr(&**rhs),
            ),
            Expr::BitwiseOr(lhs, rhs) => paren_bin(
                Self::print_expr(&**lhs),
                "|",
                Self::print_expr(&**rhs),
            ),
            Expr::BitwiseXor(lhs, rhs) => paren_bin(
                Self::print_expr(&**lhs),
                "^",
                Self::print_expr(&**rhs),
            ),
            Expr::Shift(op, lhs, rhs) => paren_bin(
                Self::print_expr(&**lhs),
                shift_op(op),
                Self::print_expr(&**rhs),
            ),
            Expr::Comparison(op, lhs, rhs) => paren_bin(
                Self::print_expr(&**lhs),
                comparison_op(op),
                Self::print_expr(&**rhs),
            ),
            Expr::IfThenElse(cond, then_expr, else_expr) => {
                let mut s = String::from_str("if ");
                let c = Self::print_expr(&**cond);
                s.append(c.as_str());
                s.append(" then ");
                let t = Self::print_expr(&**then_expr);
                s.append(t.as_str());
                s.append(" else ");
                let f = Self::print_expr(&**else_expr);
                s.append(f.as_str());
                s
            },
            Expr::Forall(..) => String::new(),
            Expr::Exists(..) => String::new(),
            Expr::ArrayInit(dims, elem) => {
                let mut s = String::from_str("new ");
                let t = Self::print_type(elem);
                s.append(t.as_str());
                s.append("[");
                let d = Self::print_expr_list(dims);
                s.append(d.as_str());
                s.append("]");
                s
            },
        }
    }

    pub fn print_primary_expr(primary: &PrimaryExpr) -> (r: String)
        requires
            printable_primary(primary_view(*primary)),
        ensures
            r@ == primary_str(primary_view(*primary)),
        decreases primary,
    {
        match primary {
            PrimaryExpr::Literal(literal) => Self::print_literal(literal),
            PrimaryExpr::Identifier(name) => name.clone(),
            PrimaryExpr::Index(array, index) => {
                let mut s = Self::print_expr(&**array);
                s.append("[");
                let i = Self::print_expr(&**index);
                s.append(i.as_str());
                s.append("]");
                s
            },
            PrimaryExpr::MemberAccess(object, name) => {
                let mut s = Self::print_expr(&**object);
                s.append(".");
                s.append(name.as_str());
                s
            },
            PrimaryExpr::Call(callee, args) => {
                let mut s = Self::print_expr(&**callee);
                s.append("(");
                let a = Self::print_expr_list(args);
                s.append(a.as_str());
                s.append(")");
                s
            },
        }
    }

    pub fn print_literal(literal: &Literal) -> (r: String)
        requires
            printable_literal(literal_view(*literal)),
        ensures
            r@ == literal_str(literal_view(*literal)),
        decreases literal,
    {
        match literal {
            Literal::Integer(value) => value.clone(),
            Literal::Boolean(value) => if *value {
                String::from_str("true")
            } else {
                String::from_str("false")
            },
            Literal::Null => String::from_str("null"),
            Literal::Star => String::from_str("*"),
            Literal::This => String::from_str("this"),
            Literal::Sequence(values) => {
                let mut result = String::from_str("[");
                let items = Self::print_expr_list(values);
                result.append(items.as_str());
                result.append("]");
                result
            },
            Literal::Real(text) => text.clone(),
        }
    }

    pub fn print_block(block: &Block, indent_level: usize) -> (r: String)
        requires
            printable_block(stmts_view(block.stmts@), indent_level as nat),
        ensures
            r@ == block_str(stmts_view(block.stmts@), indent_level as nat),
        decreases block,
    {
        proof {
            lemma_stmts_view(block.stmts@);
            lemma_printable_block(stmts_view(block.stmts@), indent_level as nat);
        }
        let mut result = String::new();
        let n = block.stmts.len();
        let mut i: usize = 0;
        while i < n
            invariant
                n == block.stmts@.len(),
                i <= n,
                stmts_view(block.stmts@).len() == n,
                forall|j: int|
                    0 <= j < n ==> stmts_view(block.stmts@)[j] == stmt_view(block.stmts@[j]),
                forall|j: int|
                    0 <= j < n ==> printable_stmt(
                        #[trigger] stmts_view(block.stmts@)[j],
                        indent_level as nat,
                    ),
                result@ == block_str(
                    stmts_view(block.stmts@.subrange(0, i as int)),
                    indent_level as nat,
                ),
            decreases n - i,
        {
            proof {
                lemma_stmts_view_prefix(block.stmts@, i as int);
                lemma_block_str_push(
                    stmts_view(block.stmts@.subrange(0, i as int)),
                    stmt_view(block.stmts@[i as int]),
                    indent_level as nat,
                );
            }
            assert(printable_stmt(stmts_view(block.stmts@)[i as int], indent_level as nat));
            let s = Self::print_stmt(&block.stmts[i], indent_level);
            result.append(s.as_str());
            result.append("\n");
            i = i + 1;
        }
        assert(block.stmts@.subrange(0, n as int) =~= block.stmts@);
        result
    }

    pub fn print_stmt(stmt: &Stmt, indent_level: usize) -> (r: String)
        requires
            printable_stmt(stmt@, indent_level as nat),
        ensures
            r@ == stmt_str(stmt@, indent_level as nat),
        decreases stmt,
    {
        let mut result = Self::indent(indent_level);
        let part = match stmt {
            Stmt::Assign(assign) => Self::print_assign(assign),
            Stmt::IfElse(if_else) => Self::print_if_else(if_else, indent_level),
            Stmt::WhileLoop(while_loop) => Self::print_while_loop(while_loop, indent_level),
            Stmt::ForLoop(for_loop) => Self::print_for_loop(for_loop, indent_level),
            Stmt::Match(match_stmt) => Self::print_match(match_stmt, indent_level),
            Stmt::Assert(expr) => {
                let mut s = String::from_str("assert ");
                let e = Self::print_expr(expr);
                s.append(e.as_str());
                s.append(";");
                s
            },
            Stmt::Print(expr) => {
                let mut s = String::from_str("print ");
                let e = Self::print_expr(expr);
                s.append(e.as_str());
                s.append(";");
                s
            },
            Stmt::Return(expr) => {
                let mut s = String::from_str("return ");
                match expr {
                    Some(e) => {
                        let t = Self::print_expr(e);
                        s.append(t.as_str());
                    },
                    None => {
                        s.append("");
                    },
                }
                s.append(";");
                s
            },
            Stmt::DeclVar(var) => {
                let mut s = String::from_str("var ");
                s.append(var.id.as_str());
                s.append(" : ");
                let ty = Self::print_type(&var.type_);
                s.append(ty.as_str());
                match &var.init {
                    Some(init) => {
                        s.append(" := ");
                        let e = Self::print_expr(init);
                        s.append(e.as_str());
                        s.append(";");
                    },
                    None => {
                        s.append(";");
                    },
                }
                s
            },
            Stmt::Break => String::from_str("break;"),
            Stmt::Continue => String::from_str("continue;"),
            Stmt::Assume(expr) => {
                let mut s = String::from_str("assume ");
                let e = Self::print_expr(expr);
                s.append(e.as_str());
                s.append(";");
                s
            },
            Stmt::Call(call) => {
                let mut s = call.id.clone();
                s.append("(");
                let a = Self::print_expr_list(&call.args);
                s.append(a.as_str());
                s.append(");");
                s
            },
        };
        result.append(part.as_str());
        result
    }

    pub fn print_assign(assign: &Assign) -> (r: String)
        requires
            printable_lhs(lhs_view(assign.lhs)),
            printable_expr(assign.expr@),
        ensures
            r@ == lhs_str(lhs_view(assign.lhs)) + " := "@ + expr_str(assign.expr@) + ";"@,
    {
        let mut s = Self::print_lhs(&assign.lhs);
        s.append(" := ");
        let e = Self::print_expr(&assign.expr);
        s.append(e.as_str());
        s.append(";");
        s
    }

    pub fn print_lhs(lhs: &Lhs) -> (r: String)
        requires
            printable_lhs(lhs_view(*lhs)),
        ensures
            r@ == lhs_str(lhs_view(*lhs)),
    {
        match lhs {
            Lhs::Identifier(name) => name.clone(),
            Lhs::MemberAccess(object, field) => {
                let mut s = Self::print_expr(&**object);
                s.append(".");
                s.append(field.as_str());
                s
            },
            Lhs::Index(array, index) => {
                let mut s = Self::print_expr(&**array);
                s.append("[");
                let i = Self::print_expr(&**index);
                s.append(i.as_str());
                s.append("]");
                s
            },
        }
    }

    pub fn print_if_else(if_else: &IfElse, indent_level: usize) -> (r: String)
        requires
            printable_stmt(stmt_view(Stmt::IfElse(*if_else)), indent_level as nat),
        ensures
            ({
                let head = "if ("@ + expr_str(if_else.cond@) + ") {\n"@ + block_str(
                    stmts_view(if_else.then_block.stmts@),
                    (indent_level + 1) as nat,
                ) + indent(indent_level as nat) + "}"@;
                r@ == match if_else.else_block {
                    Some(b) => head + " else {\n"@ + block_str(
                        stmts_view(b.stmts@),
                        (indent_level + 1) as nat,
                    ) + indent(indent_level as nat) + "}"@,
                    None => head,
                }
            }),
        decreases if_else,
    {
        let mut result = String::from_str("if (");
        let c = Self::print_expr(&if_else.cond);
        result.append(c.as_str());
        result.append(") {\n");
        let t = Self::print_block(&if_else.then_block, indent_level + 1);
        result.append(t.as_str());
        let ind = Self::indent(indent_level);
        result.append(ind.as_str());
        result.append("}");
        match &if_else.else_block {
            Some(else_block) => {
                result.append(" else {\n");
                let e = Self::print_block(else_block, indent_level + 1);
                result.append(e.as_str());
                result.append(ind.as_str());
                result.append("}");
            },
            None => {},
        }
        result
    }

    pub fn print_while_loop(while_loop: &WhileLoop, indent_level: usize) -> (r: String)
        requires
            printable_stmt(stmt_view(Stmt::WhileLoop(*while_loop)), indent_level as nat),
        ensures
            ({
                let k = indent_level as nat;
                let inv = exprs_view(while_loop.invariants@);
                let dec = exprs_view(while_loop.decreases@);
                let s0 = "while "@ + expr_str(while_loop.cond@) + "\n"@;
                let s1 = if inv.len() > 0 {
                    s0 + indent(k + 1) + "invariant "@ + exprs_str(inv) + "\n"@
                } else {
                    s0
                };
                let s2 = if dec.len() > 0 {
                    s1 + indent(k + 1) + "decreases "@ + exprs_str(dec) + "\n"@
                } else {
                    s1
                };
                r@ == s2 + indent(k) + "{\n"@ + block_str(
                    stmts_view(while_loop.block.stmts@),
                    k + 1,
                ) + indent(k) + "}"@
            }),
        decreases while_loop,
    {
        proof {
            lemma_exprs_view(while_loop.invariants@);
            lemma_exprs_view(while_loop.decreases@);
        }
        let mut result = String::from_str("while ");
        let c = Self::print_expr(&while_loop.cond);
        result.append(c.as_str());
        result.append("\n");
        if while_loop.invariants.len() > 0 {
            let ind = Self::indent(indent_level + 1);
            result.append(ind.as_str());
            result.append("invariant ");
            let l = Self::print_expr_list(&while_loop.invariants);
            result.append(l.as_str());
            result.append("\n");
        }
        if while_loop.decreases.len() > 0 {
            let ind = Self::indent(indent_level + 1);
            result.append(ind.as_str());
            result.append("decreases ");
            let l = Self::print_expr_list(&while_loop.decreases);
            result.append(l.as_str());
            result.append("\n");
        }
        let ind = Self::indent(indent_level);
        result.append(ind.as_str());
        result.append("{\n");
        let b = Self::print_block(&while_loop.block, indent_level + 1);
        result.append(b.as_str());
        result.append(ind.as_str());
        result.append("}");
        result
    }

    pub fn print_for_loop(for_loop: &ForLoop, indent_level: usize) -> (r: String)
        requires
            printable_stmt(stmt_view(Stmt::ForLoop(*for_loop)), indent_level as nat),
        ensures
            r@ == "for "@ + for_loop.id@ + " := "@ + expr_str(for_loop.start@) + " to "@
                + expr_str(for_loop.end@) + " {\n"@ + block_str(
                stmts_view(for_loop.block.stmts@),
                (indent_level + 1) as nat,
            ) + indent(indent_level as nat) + "}"@,
        decreases for_loop,
    {
        let mut result = String::from_str("for ");
        result.append(for_loop.id.as_str());
        result.append(" := ");
        let s = Self::print_expr(&for_loop.start);
        result.append(s.as_str());
        result.append(" to ");
        let e = Self::print_expr(&for_loop.end);
        result.append(e.as_str());
        result.append(" {\n");
        let b = Self::print_block(&for_loop.block, indent_level + 1);
        result.append(b.as_str());
        let ind = Self::indent(indent_level);
        result.append(ind.as_str());
        result.append("}");
        result
    }

    pub fn print_match(match_stmt: &Match, indent_level: usize) -> (r: String)
        requires
            printable_stmt(stmt_view(Stmt::Match(*match_stmt)), indent_level as nat),
        ensures
            r@ == "match "@ + expr_str(match_stmt.expr@) + " {\n"@ + cases_str(
                cases_view(match_stmt.cases@),
                (indent_level + 1) as nat,
            ) + indent(indent_level as nat) + "}"@,
        decreases match_stmt,
    {
        proof {
            lemma_cases_view(match_stmt.cases@);
            lemma_printable_cases(cases_view(match_stmt.cases@), (indent_level + 1) as nat);
        }
        let mut result = String::from_str("match ");
        let e = Self::print_expr(&match_stmt.expr);
        result.append(e.as_str());
        result.append(" {\n");
        let mut cases = String::new();
        let n = match_stmt.cases.len();
        let mut i: usize = 0;
        while i < n
            invariant
                n == match_stmt.cases@.len(),
                i <= n,
                indent_level + 1 < usize::MAX,
                cases_view(match_stmt.cases@).len() == n,
                forall|j: int|
                    0 <= j < n ==> cases_view(match_stmt.cases@)[j] == case_view(
                        match_stmt.cases@[j],
                    ),
                forall|j: int|
                    0 <= j < n ==> printable_case(
                        #[trigger] cases_view(match_stmt.cases@)[j],
                        (indent_level + 1) as nat,
                    ),
                cases@ == cases_str(
                    cases_view(match_stmt.cases@.subrange(0, i as int)),
                    (indent_level + 1) as nat,
                ),
            decreases n - i,
        {
            proof {
                lemma_cases_view_prefix(match_stmt.cases@, i as int);
                lemma_cases_str_push(
                    cases_view(match_stmt.cases@.subrange(0, i as int)),
                    case_view(match_stmt.cases@[i as int]),
                    (indent_level + 1) as nat,
                );
            }
            assert(printable_case(cases_view(match_stmt.cases@)[i as int], (indent_level + 1) as nat));
            let c = Self::print_case(&match_stmt.cases[i], indent_level + 1);
            cases.append(c.as_str());
            cases.append("\n");
            i = i + 1;
        }
        assert(match_stmt.cases@.subrange(0, n as int) =~= match_stmt.cases@);
        result.append(cases.as_str());
        let ind = Self::indent(indent_level);
        result.append(ind.as_str());
        result.append("}");
        result
    }

    pub fn print_case(case: &Case, indent_level: usize) -> (r: String)
        requires
            printable_case(case_view(*case), indent_level as nat),
        ensures
            r@ == case_str(case_view(*case), indent_level as nat),
        decreases case,
    {
        proof {
            lemma_stmts_view(case.stmts@);
            lemma_printable_block(stmts_view(case.stmts@), (indent_level + 1) as nat);
        }
        let mut result = Self::indent(indent_level);
        result.append("case ");
        let p = Self::print_pattern(&case.pattern);
        result.append(p.as_str());
        result.append(" => {\n");
        let mut body = String::new();
        let n = case.stmts.len();
        let mut i: usize = 0;
        while i < n
            invariant
                n == case.stmts@.len(),
                i <= n,
                indent_level + 1 < usize::MAX,
                stmts_view(case.stmts@).len() == n,
                forall|j: int| 0 <= j < n ==> stmts_view(case.stmts@)[j] == stmt_view(case.stmts@[j]),
                forall|j: int|
                    0 <= j < n ==> printable_stmt(
                        #[trigger] stmts_view(case.stmts@)[j],
                        (indent_level + 1) as nat,
                    ),
                body@ == case_stmts_str(
                    stmts_view(case.stmts@.subrange(0, i as int)),
                    (indent_level + 1) as nat,
                ),
            decreases n - i,
        {
            proof {
                lemma_stmts_view_prefix(case.stmts@, i as int);
                lemma_case_stmts_str_push(
                    stmts_view(case.stmts@.subrange(0, i as int)),
                    stmt_view(case.stmts@[i as int]),
                    (indent_level + 1) as nat,
                );
            }
            assert(printable_stmt(stmts_view(case.stmts@)[i as int], (indent_level + 1) as nat));
            body.append("  ");
            let s = Self::print_stmt(&case.stmts[i], indent_level + 1);
            body.append(s.as_str());
            body.append("\n");
            i = i + 1;
        }
        assert(case.stmts@.subrange(0, n as int) =~= case.stmts@);
        result.append(body.as_str());
        let ind = Self::indent(indent_level);
        result.append(ind.as_str());
        result.append("}");
        result
    }

    pub fn print_pattern(pattern: &Pattern) -> (r: String)
        ensures
            r@ == pattern_str(pattern_view(*pattern)),
        decreases pattern,
    {
        match pattern {
            Pattern::Identifier(name) => name.clone(),
            Pattern::Constructor(name, patterns) => {
                let mut result = name.clone();
                result.append("(");
                let subs = Self::print_patterns(patterns);
                result.append(subs.as_str());
                result.append(")");
                result
            },
        }
    }

    /// Patterns separated by `, `.
    pub fn print_patterns(patterns: &Vec<Pattern>) -> (r: String)
        ensures
            r@ == patterns_str(patterns_view(patterns@)),
        decreases patterns,
    {
        let mut subs = String::new();
        let n = patterns.len();
        let mut i: usize = 0;
        while i < n
            invariant
                n == patterns@.len(),
                i <= n,
                subs@ == patterns_str(patterns_view(patterns@.subrange(0, i as int))),
            decreases n - i,
        {
            proof {
                lemma_patterns_view_prefix(patterns@, i as int);
                lemma_patterns_str_push(
                    patterns_view(patterns@.subrange(0, i as int)),
                    pattern_view(patterns@[i as int]),
                );
            }
            let p = Self::print_pattern(&patterns[i]);
            if i > 0 {
                subs.append(", ");
            } else {
                assert(subs@ + p@ =~= p@);
            }
            subs.append(p.as_str());
            i = i + 1;
        }
        assert(patterns@.subrange(0, n as int) =~= patterns@);
        subs
    }

    /// `level` levels of indentation, two spaces each.
    pub fn indent(level: usize) -> (r: String)
        ensures
            r@ == indent(level as nat),
    {
        let mut result = String::new();
        let mut i: usize = 0;
        while i < level
            invariant
                i <= level,
                result@ == indent(i as nat),
            decreases level - i,
        {
            result.append("  ");
            i = i + 1;
        }
        result
    }
}

} // verus!
