use c2dafny::context::Context;
use c2dafny::convert_stmt::parse_stmt;
use c2dafny::converter::{convert, generate_constructor, try_convert, ConvertError};
use c2dafny::dafny_ast::{Declaration, Expr, FieldDecl, Literal, PrimaryExpr, Type};
use c2dafny::printer::DafnyPrinter;
use c2dafny::syntax::SyntaxNode;

fn leaf(kind: &str, text: &str) -> SyntaxNode {
    SyntaxNode::new(kind.to_string(), text.to_string(), None, vec![])
}

fn node(kind: &str, text: &str, children: Vec<SyntaxNode>) -> SyntaxNode {
    SyntaxNode::new(kind.to_string(), text.to_string(), None, children)
}

fn field(mut n: SyntaxNode, f: &str) -> SyntaxNode {
    n.field = Some(f.to_string());
    n
}

/// `int <name>(void) { <body> }` with the given body statements.
fn function(name: &str, body: Vec<SyntaxNode>) -> SyntaxNode {
    let mut stmts = vec![leaf("{", "{")];
    stmts.extend(body);
    stmts.push(leaf("}", "}"));
    node("function_definition", "", vec![
        field(leaf("primitive_type", "int"), "type"),
        field(
            node("function_declarator", "", vec![
                field(leaf("identifier", name), "declarator"),
                field(node("parameter_list", "()", vec![leaf("(", "("), leaf(")", ")")]), "parameters"),
            ]),
            "declarator",
        ),
        field(node("compound_statement", "", stmts), "body"),
    ])
}

fn return_zero() -> SyntaxNode {
    node("return_statement", "return 0;", vec![leaf("return", "return"), leaf("number_literal", "0"), leaf(";", ";")])
}

#[test]
fn hand_built_program() {
    let root = node("translation_unit", "", vec![function("main", vec![return_zero()])]);
    let mut ctx = Context::new();
    let program = convert(&root, &mut ctx);
    assert_eq!(
        DafnyPrinter::print_program(&program),
        "class CProgram {\n  constructor(){\n  }\n  method main() returns (ret: int)\n    requires true\n    decreases *\n    modifies this\n  {\n    return 0;\n  }\n\n}\n\n"
    );
    assert!(matches!(ctx.lookup_var("main"), Some(Type::Function(_, _))));
    assert!(ctx.get_current_method().is_none());
}

#[test]
fn missing_child_is_an_error() {
    let bad = node("return_statement", "", vec![
        leaf("return", "return"),
        node("binary_expression", "", vec![leaf("number_literal", "1")]),
        leaf(";", ";"),
    ]);
    let root = node("translation_unit", "", vec![function("main", vec![bad, return_zero()])]);
    let mut ctx = Context::new();
    assert_eq!(try_convert(&root, &mut ctx).err(), Some(ConvertError::MissingChild));
}

#[test]
fn missing_function_name_is_an_error() {
    let f = node("function_definition", "", vec![
        field(leaf("primitive_type", "int"), "type"),
        field(node("function_declarator", "", vec![]), "declarator"),
        field(node("compound_statement", "", vec![leaf("{", "{"), leaf("}", "}")]), "body"),
    ]);
    let root = node("translation_unit", "", vec![f]);
    let mut ctx = Context::new();
    assert_eq!(try_convert(&root, &mut ctx).err(), Some(ConvertError::MissingFunctionName));
}

#[test]
fn goto_end_outside_a_method_is_an_error() {
    let g = node("goto_statement", "goto END;", vec![leaf("goto", "goto"), leaf("statement_identifier", "END"), leaf(";", ";")]);
    let mut ctx = Context::new();
    assert_eq!(parse_stmt(&g, &mut ctx, true).err(), Some(ConvertError::NoCurrentMethod));
    ctx.enter_method("f".to_string());
    let stmts = parse_stmt(&g, &mut ctx, true).ok().expect("statements");
    assert_eq!(stmts.len(), 1);
    let stmts = parse_stmt(&g, &mut ctx, false).ok().expect("statements");
    assert!(matches!(stmts[0], c2dafny::dafny_ast::Stmt::Return(None)));
}

#[test]
fn function_without_body_is_skipped() {
    let f = node("function_definition", "", vec![field(leaf("primitive_type", "int"), "type")]);
    let root = node("translation_unit", "", vec![f]);
    let mut ctx = Context::new();
    let program = try_convert(&root, &mut ctx).ok().expect("a program");
    match &program.declarations[0] {
        Declaration::Class(c) => {
            assert_eq!(c.id, "CProgram");
            assert!(c.methods.is_empty());
            assert!(c.fields.is_empty());
        },
        _ => panic!("a class"),
    }
}

#[test]
fn constructor_assigns_each_field() {
    let vars = vec![
        FieldDecl { id: "a".to_string(), type_: Type::Int, init: None },
        FieldDecl {
            id: "b".to_string(),
            type_: Type::Bool,
            init: Some(Expr::Primary(PrimaryExpr::Literal(Literal::Boolean(true)))),
        },
    ];
    let ctx = Context::new();
    let k = generate_constructor(&vars, &ctx, "");
    assert_eq!(k.block.stmts.len(), 2);
    assert_eq!(k.modifies.len(), 1);
    assert!(k.params.is_empty());
    let class = c2dafny::dafny_ast::ClassDecl {
        id: "K".to_string(),
        extends: None,
        fields: vec![],
        constructor: Some(k),
        methods: vec![],
    };
    let program = c2dafny::dafny_ast::Program { declarations: vec![Declaration::Class(class)] };
    assert_eq!(
        DafnyPrinter::print_program(&program),
        "class K {\n  constructor(){\n    a := 0;\n    b := true;\n  }\n}\n\n"
    );
}
