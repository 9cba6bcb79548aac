//! What the translation does with C's operators, jumps and macros, stated
//! over the printed Dafny text: each C operator reappears in the text
//! between its operands, `break` and `continue` print as themselves, and
//! each use of a macro prints as the macro's text.
use vstd::prelude::*;

use crate::context::{macro_body, macro_type, wrapped_in_parens, ContextView};
use crate::converter::ConvertError;
use crate::convert_spec::{
    binary_of, c_arith_function, compound_assign, type_of_name, update_expr, int_literal, ctx_lookup, ctx_macro, ident_expr, unary_of, identifier_expr, parsed_stmt, unsigned_or_real,
};
use crate::dafny_ast::{AdditiveOp, ExprView, LhsView, LiteralView, MultOp, PrimaryView, StmtView, TypeView};
use crate::printer_spec::{expr_str, exprs_str, indent, lhs_str, type_str, literal_str, primary_str, stmt_str};
use crate::strings::{dec, float_syntax, seq_contains};
use crate::syntax::{child, SyntaxNode};

verus! {

/// The text `(l op r)`.
pub open spec fn between(l: ExprView, op: Seq<char>, r: ExprView) -> Seq<char> {
    "("@ + expr_str(l) + " "@ + op + " "@ + expr_str(r) + ")"@
}

/// The C binary operators whose Dafny counterpart is written the same way.
pub open spec fn same_in_dafny(op: Seq<char>) -> bool {
    ||| op == "<"@
    ||| op == ">"@
    ||| op == "<="@
    ||| op == ">="@
    ||| op == "=="@
    ||| op == "!="@
    ||| op == "+"@
    ||| op == "-"@
    ||| op == "*"@
    ||| op == "&&"@
    ||| op == "||"@
    ||| op == "<<"@
    ||| op == ">>"@
    ||| op == "&"@
    ||| op == "|"@
    ||| op == "^"@
}

/// The C compound assignments `op=` whose operator is one of `same_in_dafny`.
pub open spec fn plain_compound(op: Seq<char>) -> bool {
    ||| op == "+="@
    ||| op == "-="@
    ||| op == "*="@
    ||| op == "&="@
    ||| op == "|="@
    ||| op == "^="@
    ||| op == "<<="@
    ||| op == ">>="@
}

/// The length and the characters of each operator's text.
proof fn lemma_operator_texts()
    ensures
        "<"@.len() == 1,
        "<"@[0] == '<',
        ">"@.len() == 1,
        ">"@[0] == '>',
        "<="@.len() == 2,
        "<="@[0] == '<',
        "<="@[1] == '=',
        ">="@.len() == 2,
        ">="@[0] == '>',
        ">="@[1] == '=',
        "=="@.len() == 2,
        "=="@[0] == '=',
        "=="@[1] == '=',
        "!="@.len() == 2,
        "!="@[0] == '!',
        "!="@[1] == '=',
        "+"@.len() == 1,
        "+"@[0] == '+',
        "-"@.len() == 1,
        "-"@[0] == '-',
        "*"@.len() == 1,
        "*"@[0] == '*',
        "/"@.len() == 1,
        "/"@[0] == '/',
        "%"@.len() == 1,
        "%"@[0] == '%',
        "&&"@.len() == 2,
        "&&"@[0] == '&',
        "&&"@[1] == '&',
        "||"@.len() == 2,
        "||"@[0] == '|',
        "||"@[1] == '|',
        "<<"@.len() == 2,
        "<<"@[0] == '<',
        "<<"@[1] == '<',
        ">>"@.len() == 2,
        ">>"@[0] == '>',
        ">>"@[1] == '>',
        "&"@.len() == 1,
        "&"@[0] == '&',
        "|"@.len() == 1,
        "|"@[0] == '|',
        "^"@.len() == 1,
        "^"@[0] == '^',
        "="@.len() == 1,
        "="@[0] == '=',
        "+="@.len() == 2,
        "+="@[0] == '+',
        "+="@[1] == '=',
        "-="@.len() == 2,
        "-="@[0] == '-',
        "-="@[1] == '=',
        "*="@.len() == 2,
        "*="@[0] == '*',
        "*="@[1] == '=',
        "/="@.len() == 2,
        "/="@[0] == '/',
        "/="@[1] == '=',
        "%="@.len() == 2,
        "%="@[0] == '%',
        "%="@[1] == '=',
        "&="@.len() == 2,
        "&="@[0] == '&',
        "&="@[1] == '=',
        "|="@.len() == 2,
        "|="@[0] == '|',
        "|="@[1] == '=',
        "^="@.len() == 2,
        "^="@[0] == '^',
        "^="@[1] == '=',
        "<<="@.len() == 3,
        "<<="@[0] == '<',
        "<<="@[1] == '<',
        "<<="@[2] == '=',
        ">>="@.len() == 3,
        ">>="@[0] == '>',
        ">>="@[1] == '>',
        ">>="@[2] == '=',
{
    reveal_strlit("<");
    reveal_strlit(">");
    reveal_strlit("<=");
    reveal_strlit(">=");
    reveal_strlit("==");
    reveal_strlit("!=");
    reveal_strlit("+");
    reveal_strlit("-");
    reveal_strlit("*");
    reveal_strlit("/");
    reveal_strlit("%");
    reveal_strlit("&&");
    reveal_strlit("||");
    reveal_strlit("<<");
    reveal_strlit(">>");
    reveal_strlit("&");
    reveal_strlit("|");
    reveal_strlit("^");
    reveal_strlit("=");
    reveal_strlit("+=");
    reveal_strlit("-=");
    reveal_strlit("*=");
    reveal_strlit("/=");
    reveal_strlit("%=");
    reveal_strlit("&=");
    reveal_strlit("|=");
    reveal_strlit("^=");
    reveal_strlit("<<=");
    reveal_strlit(">>=");
}

/// Each C binary operator other than `/` and `%` keeps its meaning: `l op r`
/// becomes the Dafny expression that prints as `(l op r)`, with the same
/// operator between the translated operands.
pub proof fn lemma_binary_operator_kept(op: Seq<char>, l: ExprView, r: ExprView, c: ContextView)
    requires
        same_in_dafny(op),
    ensures
        binary_of(op, l, r, c) is Some,
        expr_str(binary_of(op, l, r, c)->0) == between(l, op, r),
{
    lemma_operator_texts();
}

/// C's prefix `-` and `!` keep their meaning and print before their operand,
/// `(- e)` and `(! e)`; a prefix `+` leaves the operand as it is.
pub proof fn lemma_unary_operator(op: Seq<char>, e: ExprView)
    requires
        op == "-"@ || op == "!"@ || op == "+"@,
    ensures
        unary_of(op, e) is Some,
        expr_str(unary_of(op, e)->0) == if op == "+"@ {
            expr_str(e)
        } else {
            "("@ + op + " "@ + expr_str(e) + ")"@
        },
{
    reveal_strlit("-");
    reveal_strlit("!");
    reveal_strlit("+");
}

/// A name that is not a macro prints as itself when a variable of that name
/// is declared, and is refused otherwise.
pub proof fn lemma_variable_use(id: Seq<char>, c: ContextView)
    requires
        !c.macros.contains_key(id),
    ensures
        ctx_lookup(c, id) is Some ==> identifier_expr(id, c) is Ok && identifier_expr(id, c)->Ok_0
            is Some && expr_str(identifier_expr(id, c)->Ok_0->0) == id,
        ctx_lookup(c, id) is None ==> identifier_expr(id, c) == Err::<Option<ExprView>, ConvertError>(
            ConvertError::UndeclaredIdentifier,
        ),
{
    assert(primary_str(PrimaryView::Identifier(id)) == id);
}

/// C's `/` and `%` stay Dafny's where an operand is unsigned or real, and
/// otherwise become calls `c_div(l, r)` and `c_mod(l, r)`.
pub proof fn lemma_division(op: Seq<char>, l: ExprView, r: ExprView, c: ContextView)
    requires
        op == "/"@ || op == "%"@,
    ensures
        binary_of(op, l, r, c) is Some,
        expr_str(binary_of(op, l, r, c)->0) == if unsigned_or_real(l, c) || unsigned_or_real(r, c) {
            between(l, op, r)
        } else {
            (if op == "/"@ {
                "c_div"@
            } else {
                "c_mod"@
            }) + "("@ + expr_str(l) + ", "@ + expr_str(r) + ")"@
        },
{
    lemma_operator_texts();
    let s = seq![l, r];
    assert(s.drop_last() =~= seq![l]);
    if !(unsigned_or_real(l, c) || unsigned_or_real(r, c)) {
        let name = if op == "/"@ {
            "c_div"@
        } else {
            "c_mod"@
        };
        assert(c_arith_function(if op == "/"@ { MultOp::Div } else { MultOp::Mod }) == name);
        let f = ident_expr(name);
        assert(expr_str(f) == name) by {
            assert(primary_str(PrimaryView::Identifier(name)) == name);
        }
        assert(exprs_str(seq![l]) == expr_str(l));
        assert(exprs_str(s) == expr_str(l) + ", "@ + expr_str(r));
        let call = PrimaryView::Call(Box::new(f), s);
        assert(primary_str(call) == expr_str(f) + "("@ + exprs_str(s) + ")"@);
        assert(expr_str(ExprView::Primary(call)) == primary_str(call));
    }
}

/// A C binary operator the translation does not know gives no expression.
pub proof fn lemma_unknown_operator(op: Seq<char>, l: ExprView, r: ExprView, c: ContextView)
    requires
        !same_in_dafny(op),
        op != "/"@,
        op != "%"@,
    ensures
        binary_of(op, l, r, c) is None,
{
}

/// `x op= e` assigns what `x op e` is: the same expression as the binary
/// operator without `=` gives, for every compound assignment, division and
/// remainder included.
pub proof fn lemma_compound_is_binary(op: Seq<char>, x: ExprView, e: ExprView, c: ContextView)
    requires
        plain_compound(op) || op == "/="@ || op == "%="@,
    ensures
        binary_of(op.drop_last(), x, e, c) is Some,
        compound_assign(op, x, e, c) == binary_of(op.drop_last(), x, e, c)->0,
{
    lemma_operator_texts();
    if op == "+="@ {
        assert(op.drop_last() =~= "+"@);
    } else if op == "-="@ {
        assert(op.drop_last() =~= "-"@);
    } else if op == "*="@ {
        assert(op.drop_last() =~= "*"@);
    } else if op == "/="@ {
        assert(op.drop_last() =~= "/"@);
    } else if op == "%="@ {
        assert(op.drop_last() =~= "%"@);
    } else if op == "&="@ {
        assert(op.drop_last() =~= "&"@);
    } else if op == "|="@ {
        assert(op.drop_last() =~= "|"@);
    } else if op == "^="@ {
        assert(op.drop_last() =~= "^"@);
    } else if op == "<<="@ {
        assert(op.drop_last() =~= "<<"@);
    } else {
        assert(op.drop_last() =~= ">>"@);
    }
}

/// `x op= e`, for an operator Dafny writes as C does, assigns the value that
/// prints as `(x op e)`: `x += 2` assigns `(x + 2)`.
pub proof fn lemma_compound_text(op: Seq<char>, x: ExprView, e: ExprView, c: ContextView)
    requires
        plain_compound(op),
    ensures
        expr_str(compound_assign(op, x, e, c)) == between(x, op.drop_last(), e),
{
    lemma_compound_is_binary(op, x, e, c);
    lemma_operator_texts();
    lemma_binary_operator_kept(op.drop_last(), x, e, c);
}

/// A plain assignment `x = e` assigns `e` itself.
pub proof fn lemma_plain_assignment(x: ExprView, e: ExprView, c: ContextView)
    ensures
        compound_assign("="@, x, e, c) == e,
{
    lemma_operator_texts();
}

/// `x op= e`, for an operator Dafny writes as C does, prints as the Dafny
/// assignment `x := (x op e);`: `x += 2;` prints `x := (x + 2);`.
pub proof fn lemma_compound_statement_text(op: Seq<char>, x: Seq<char>, e: ExprView, c: ContextView, k: nat)
    requires
        plain_compound(op),
    ensures
        stmt_str(StmtView::Assign(LhsView::Identifier(x), compound_assign(op, ident_expr(x), e, c)), k)
            == indent(k) + x + " := ("@ + x + " "@ + op.drop_last() + " "@ + expr_str(e) + ");"@,
{
    lemma_compound_text(op, ident_expr(x), e, c);
    assert(primary_str(PrimaryView::Identifier(x)) == x);
    assert(expr_str(ident_expr(x)) == x);
    assert(lhs_str(LhsView::Identifier(x)) == x);
    let v = compound_assign(op, ident_expr(x), e, c);
    assert(between(ident_expr(x), op.drop_last(), e) == "("@ + x + " "@ + op.drop_last() + " "@ + expr_str(e) + ")"@);
    assert(stmt_str(StmtView::Assign(LhsView::Identifier(x), v), k) == indent(k) + (x + " := "@ + expr_str(v) + ";"@));
    assert(x + " := "@ + ("("@ + x + " "@ + op.drop_last() + " "@ + expr_str(e) + ")"@) + ";"@
        =~= x + " := ("@ + x + " "@ + op.drop_last() + " "@ + expr_str(e) + ");"@) by {
        reveal_strlit(" := ");
        reveal_strlit(" := (");
        reveal_strlit("(");
        reveal_strlit(")");
        reveal_strlit(";");
        reveal_strlit(");");
    }
}

/// After `#define NAME true` or `#define NAME false`, a use of `NAME` prints
/// as the macro's text: `true` or `false`.
pub proof fn lemma_boolean_macro(c: ContextView, name: Seq<char>, content: Seq<char>)
    requires
        content == "true"@ || content == "false"@,
    ensures
        identifier_expr(name, ctx_macro(c, name, content)) is Ok,
        identifier_expr(name, ctx_macro(c, name, content))->Ok_0 is Some,
        expr_str(identifier_expr(name, ctx_macro(c, name, content))->Ok_0->0) == content,
{
    reveal_strlit("true");
    reveal_strlit("false");
    assert(!wrapped_in_parens(content));
    assert(macro_body(content) == content);
    assert(!seq_contains(content, seq!['.'])) by {
        assert forall|i: int| 0 <= i && i + 1 <= content.len() implies #[trigger] content.subrange(i, i + 1)
            != seq!['.'] by {
            assert(content.subrange(i, i + 1)[0] == content[i]);
        }
    }
    if content == "true"@ {
        let w = seq!['t', 'r', 'u', 'e'];
        assert(content.subrange(0int, 0int + w.len()) =~= w);
        assert(seq_contains(content, w));
    } else {
        let w = seq!['f', 'a', 'l', 's', 'e'];
        assert(content.subrange(0int, 0int + w.len()) =~= w);
        assert(seq_contains(content, w));
    }
    assert(macro_type(content) == TypeView::Bool);
    let c2 = ctx_macro(c, name, content);
    assert(c2.macros[name] == (content, TypeView::Bool));
    lemma_macro_use(name, c2);
}

/// `x++` and `x--` used as a value are `x` as it was; `++x` prints
/// `(x + 1)` and `--x` prints `(x - 1)`; each needs `x` declared.
pub proof fn lemma_update_value(n: SyntaxNode, c: ContextView)
    requires
        child(n, 0) is Some,
        child(n, 1) is Some,
    ensures
        ({
            let a = child(n, 0)->0;
            let b = child(n, 1)->0;
            &&& a.kind@ == "identifier"@ && ctx_lookup(c, a.text@) is Some ==> update_expr(n, c)
                is Ok && update_expr(n, c)->Ok_0 is Some && expr_str(update_expr(n, c)->Ok_0->0)
                == a.text@
            &&& a.kind@ == "++"@ && ctx_lookup(c, b.text@) is Some ==> update_expr(n, c) is Ok
                && update_expr(n, c)->Ok_0 is Some && expr_str(update_expr(n, c)->Ok_0->0) == "("@
                + b.text@ + " + 1)"@
            &&& a.kind@ == "--"@ && ctx_lookup(c, b.text@) is Some ==> update_expr(n, c) is Ok
                && update_expr(n, c)->Ok_0 is Some && expr_str(update_expr(n, c)->Ok_0->0) == "("@
                + b.text@ + " - 1)"@
        }),
{
    reveal_strlit("identifier");
    reveal_strlit("++");
    reveal_strlit("--");
    reveal_strlit("1");
    reveal_strlit("+");
    reveal_strlit("-");
    reveal_strlit(" ");
    reveal_strlit(")");
    reveal_strlit(" + 1)");
    reveal_strlit(" - 1)");
    let a = child(n, 0)->0;
    let b = child(n, 1)->0;
    assert(primary_str(PrimaryView::Identifier(a.text@)) == a.text@);
    assert(primary_str(PrimaryView::Identifier(b.text@)) == b.text@);
    let one = LiteralView::Integer("1"@);
    assert(literal_str(one) == "1"@);
    assert(primary_str(PrimaryView::Literal(one)) == "1"@);
    assert(expr_str(int_literal("1"@)) == "1"@);
    assert(expr_str(ident_expr(b.text@)) == b.text@);
    let x = ident_expr(b.text@);
    assert("++"@.len() != "identifier"@.len());
    assert("--"@.len() != "identifier"@.len());
    assert("++"@[0] != "--"@[0]);
    if a.kind@ == "++"@ && ctx_lookup(c, b.text@) is Some {
        let e = ExprView::Additive(AdditiveOp::Add, Box::new(x), Box::new(int_literal("1"@)));
        assert(update_expr(n, c) == Ok::<Option<ExprView>, ConvertError>(Some(e)));
        assert(expr_str(e) == "("@ + b.text@ + " "@ + "+"@ + " "@ + "1"@ + ")"@);
        assert("("@ + b.text@ + " "@ + "+"@ + " "@ + "1"@ + ")"@ =~= "("@ + b.text@ + " + 1)"@);
    } else if a.kind@ == "--"@ && ctx_lookup(c, b.text@) is Some {
        let e = ExprView::Additive(AdditiveOp::Sub, Box::new(x), Box::new(int_literal("1"@)));
        assert(update_expr(n, c) == Ok::<Option<ExprView>, ConvertError>(Some(e)));
        assert(expr_str(e) == "("@ + b.text@ + " "@ + "-"@ + " "@ + "1"@ + ")"@);
        assert("("@ + b.text@ + " "@ + "-"@ + " "@ + "1"@ + ")"@ =~= "("@ + b.text@ + " - 1)"@);
    }
}

/// The decimal texts of the bit-vector widths.
proof fn lemma_dec_widths()
    ensures
        dec(8) == seq!['8'],
        dec(16) == seq!['1', '6'],
        dec(32) == seq!['3', '2'],
        dec(64) == seq!['6', '4'],
{
    assert(dec(1) == seq!['1']);
    assert(dec(3) == seq!['3']);
    assert(dec(6) == seq!['6']);
    assert(dec(16) =~= seq!['1', '6']);
    assert(dec(32) =~= seq!['3', '2']);
    assert(dec(64) =~= seq!['6', '4']);
}

/// Each C type the translation knows prints as its Dafny type: `int` and
/// `float` as `int` and `real`, `_Bool` and `bool` as `bool`, and the
/// unsigned types as bit-vectors of their width.
pub proof fn lemma_type_names(t: Seq<char>)
    ensures
        t == "int"@ ==> type_of_name(t) is Some && type_str(type_of_name(t)->0) == "int"@,
        t == "float"@ ==> type_of_name(t) is Some && type_str(type_of_name(t)->0) == "real"@,
        t == "_Bool"@ || t == "bool"@ ==> type_of_name(t) is Some && type_str(type_of_name(t)->0)
            == "bool"@,
        t == "unsigned char"@ ==> type_of_name(t) is Some && type_str(type_of_name(t)->0) == "bv8"@,
        t == "unsigned short"@ ==> type_of_name(t) is Some && type_str(type_of_name(t)->0)
            == "bv16"@,
        t == "unsigned int"@ ==> type_of_name(t) is Some && type_str(type_of_name(t)->0) == "bv32"@,
        t == "unsigned long long"@ ==> type_of_name(t) is Some && type_str(type_of_name(t)->0)
            == "bv64"@,
{
    reveal_strlit("int");
    reveal_strlit("float");
    reveal_strlit("_Bool");
    reveal_strlit("bool");
    reveal_strlit("unsigned char");
    reveal_strlit("unsigned short");
    reveal_strlit("unsigned int");
    reveal_strlit("unsigned long long");
    reveal_strlit("bv");
    reveal_strlit("bv8");
    reveal_strlit("bv16");
    reveal_strlit("bv32");
    reveal_strlit("bv64");
    assert("unsigned char"@[9] != "unsigned int"@[9]);
    assert("unsigned short"@[9] != "unsigned int"@[9]);
    assert("unsigned short"@[9] != "unsigned char"@[9]);
    assert("float"@[0] != "_Bool"@[0]);
    if t == "int"@ {
    } else if t == "float"@ {
    } else if t == "_Bool"@ {
    } else if t == "bool"@ {
    } else {
    }
    lemma_dec_widths();
    assert("bv"@ + dec(8) =~= "bv8"@);
    assert("bv"@ + dec(16) =~= "bv16"@);
    assert("bv"@ + dec(32) =~= "bv32"@);
    assert("bv"@ + dec(64) =~= "bv64"@);
}

/// `continue;` becomes exactly one statement, printed `continue;`, and
/// leaves the context as it was; `break;` likewise becomes one statement
/// printed `break;`.
pub proof fn lemma_jumps(n: SyntaxNode, c: ContextView, returns_value: bool, k: nat)
    requires
        n.kind@ == "continue_statement"@ || n.kind@ == "break_statement"@,
    ensures
        parsed_stmt(n, c, returns_value).1 == c,
        parsed_stmt(n, c, returns_value).0 is Ok,
        parsed_stmt(n, c, returns_value).0->Ok_0.len() == 1,
        stmt_str(parsed_stmt(n, c, returns_value).0->Ok_0[0], k) == indent(k) + if n.kind@
            == "continue_statement"@ {
            "continue;"@
        } else {
            "break;"@
        },
{
    reveal_strlit("return_statement");
    reveal_strlit("declaration");
    reveal_strlit("expression_statement");
    reveal_strlit("while_statement");
    reveal_strlit("compound_statement");
    reveal_strlit("if_statement");
    reveal_strlit("goto_statement");
    reveal_strlit("labeled_statement");
    reveal_strlit("break_statement");
    reveal_strlit("continue_statement");
    reveal_strlit("for_statement");
    assert("continue_statement"@[2] != "compound_statement"@[2]);
    assert("break_statement"@[0] != "while_statement"@[0]);
    if n.kind@ == "continue_statement"@ {
    } else {
    }
}

/// A use of a macro prints as the macro's text: an integer macro, a boolean
/// macro written `true` or `false`, and a real macro in decimal syntax.
/// So `#define DEBUG false` makes `DEBUG` print `false`.
pub proof fn lemma_macro_use(id: Seq<char>, c: ContextView)
    requires
        c.macros.contains_key(id),
        c.macros[id].1 == TypeView::Int || (c.macros[id].1 == TypeView::Bool && (c.macros[id].0
            == "true"@ || c.macros[id].0 == "false"@)) || (c.macros[id].1 == TypeView::Real
            && float_syntax(c.macros[id].0)),
    ensures
        identifier_expr(id, c) is Ok,
        identifier_expr(id, c)->Ok_0 is Some,
        expr_str(identifier_expr(id, c)->Ok_0->0) == c.macros[id].0,
{
    reveal_strlit("true");
    reveal_strlit("false");
    let body = c.macros[id].0;
    let lit = match c.macros[id].1 {
        TypeView::Int => LiteralView::Integer(body),
        TypeView::Bool => LiteralView::Boolean(body == "true"@),
        _ => LiteralView::Real(body),
    };
    assert(literal_str(lit) == body);
    assert(primary_str(PrimaryView::Literal(lit)) == body);
    assert(expr_str(ExprView::Primary(PrimaryView::Literal(lit))) == body);
}

} // verus!
