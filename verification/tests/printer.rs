use c2dafny::dafny_ast::{
    AdditiveOp, Assign, Block, Call, Case, ClassDecl, ComparisonOp, ConstructorDecl, DatatypeDecl,
    Declaration, Expr, FieldDecl, ForLoop, FunctionDecl, Lhs, Literal, Match, MethodDecl, Param,
    Pattern, PredicateDecl, PrimaryExpr, Program, Quantifier, QuantifierVar, ReturnVar, Stmt, Type, UnaryOp, Var, WhileLoop,
};
use c2dafny::printable::is_printable;
use c2dafny::printer::DafnyPrinter;

fn id(name: &str) -> Expr {
    Expr::Primary(PrimaryExpr::Identifier(name.to_string()))
}

fn num(text: &str) -> Expr {
    Expr::Primary(PrimaryExpr::Literal(Literal::Integer(text.to_string())))
}

fn method(name: &str, block: Vec<Stmt>) -> MethodDecl {
    MethodDecl {
        id: name.to_string(),
        params: vec![],
        returns: vec![],
        return_type: None,
        requires: vec![],
        ensures: vec![],
        modifies: vec![],
        decreases: vec![],
        block: Block { stmts: block },
    }
}

#[test]
fn function_and_predicate() {
    let f = FunctionDecl {
        id: "f".to_string(),
        params: vec![Param { id: "x".to_string(), type_: Type::Int }],
        return_type: Type::Int,
        requires: vec![Expr::Primary(PrimaryExpr::Literal(Literal::Boolean(true)))],
        ensures: vec![],
        reads: vec![],
        decreases: vec![],
        body: Expr::Additive(AdditiveOp::Add, Box::new(id("x")), Box::new(num("1"))),
    };
    let p = PredicateDecl {
        id: "P".to_string(),
        params: vec![Param { id: "x".to_string(), type_: Type::Int }],
        requires: vec![Expr::Comparison(ComparisonOp::Gt, Box::new(id("x")), Box::new(num("0")))],
        body: Expr::Comparison(ComparisonOp::Lt, Box::new(id("x")), Box::new(num("10"))),
    };
    let program = Program { declarations: vec![Declaration::Function(f), Declaration::Predicate(p)] };
    assert!(is_printable(&program));
    assert_eq!(
        DafnyPrinter::print_program(&program),
        "function f(x: int) : int\n  requires true {\n  (x + 1);\n}\n\npredicate P(x: int)\nrequires (x > 0) {\n    (x < 10)\n}\n\n"
    );
}

#[test]
fn match_and_for_loop() {
    let m = method(
        "m",
        vec![
            Stmt::Match(Match {
                expr: id("x"),
                cases: vec![
                    Case {
                        pattern: Pattern::Constructor("Some".to_string(), vec![Pattern::Identifier("v".to_string())]),
                        stmts: vec![Stmt::Print(id("v"))],
                    },
                    Case { pattern: Pattern::Identifier("_".to_string()), stmts: vec![] },
                ],
            }),
            Stmt::ForLoop(ForLoop {
                id: "i".to_string(),
                start: num("0"),
                end: num("3"),
                block: Block {
                    stmts: vec![Stmt::Assign(Assign {
                        lhs: Lhs::Identifier("y".to_string()),
                        expr: Expr::Additive(AdditiveOp::Add, Box::new(id("y")), Box::new(id("i"))),
                    })],
                },
            }),
        ],
    );
    let program = Program { declarations: vec![Declaration::Method(m)] };
    assert!(is_printable(&program));
    assert_eq!(
        DafnyPrinter::print_program(&program),
        "method m()\n{\n  match x {\n    case Some(v) => {\n        print v;\n    }\n    case _ => {\n    }\n  }\n  for i := 0 to 3 {\n    y := (y + i);\n  }\n}\n\n"
    );
}

#[test]
fn class_with_types() {
    let fields = vec![
        FieldDecl { id: "a".to_string(), type_: Type::Array(Box::new(Type::Bv(8))), init: None },
        FieldDecl { id: "s".to_string(), type_: Type::SetOf(Box::new(Type::Int)), init: None },
        FieldDecl { id: "q".to_string(), type_: Type::SeqOf(Box::new(Type::Real)), init: None },
        FieldDecl {
            id: "f".to_string(),
            type_: Type::Function(vec![Type::Int, Type::Bool], Box::new(Type::Named("void".to_string()))),
            init: None,
        },
    ];
    let mut body = method("g", vec![
        Stmt::DeclVar(Var { id: "t".to_string(), type_: Type::Bool, init: Some(Expr::Unary(UnaryOp::Not, Box::new(id("b")))) }),
        Stmt::WhileLoop(WhileLoop {
            cond: id("t"),
            invariants: vec![id("t")],
            decreases: vec![],
            block: Block { stmts: vec![Stmt::Continue] },
        }),
        Stmt::Return(None),
    ]);
    body.params = vec![Param { id: "b".to_string(), type_: Type::Bool }];
    body.returns = vec![ReturnVar { id: "r".to_string(), type_: Type::Int }];
    let class = ClassDecl {
        id: "C".to_string(),
        extends: Some(Type::Named("Base".to_string())),
        fields,
        constructor: Some(ConstructorDecl {
            params: vec![],
            requires: vec![],
            ensures: vec![],
            modifies: vec![],
            block: Block { stmts: vec![] },
        }),
        methods: vec![body],
    };
    let program = Program { declarations: vec![Declaration::Class(class)] };
    assert!(is_printable(&program));
    assert_eq!(
        DafnyPrinter::print_program(&program),
        "class C extends Base {\n  var a: array<bv8>\n  var s: set<int>\n  var q: seq<real>\n  var f: (int, bool) -> void\n  constructor(){\n  }\n  method g(b: bool) returns (r: int)\n  {\n    var t : bool := (! b);\n    while t\n      invariant t\n    {\n      continue;\n    }\n    return ;\n  }\n\n}\n\n"
    );
}

#[test]
fn datatype_constructors() {
    let d = DatatypeDecl {
        id: "D".to_string(),
        constructors: vec![
            ConstructorDecl { params: vec![], requires: vec![], ensures: vec![], modifies: vec![], block: Block { stmts: vec![] } },
            ConstructorDecl {
                params: vec![Param { id: "x".to_string(), type_: Type::Int }],
                requires: vec![],
                ensures: vec![],
                modifies: vec![],
                block: Block { stmts: vec![Stmt::Break] },
            },
        ],
    };
    let program = Program { declarations: vec![Declaration::Datatype(d)] };
    assert_eq!(
        DafnyPrinter::print_program(&program),
        "  datatype D = constructor(){\n} | constructor(x: int){\n  break;\n};\n\n"
    );
}

#[test]
fn sequences_calls_and_indexing() {
    let e = Expr::Primary(PrimaryExpr::Call(
        Box::new(id("h")),
        vec![
            Expr::Primary(PrimaryExpr::Literal(Literal::Sequence(vec![num("1"), num("2")]))),
            Expr::Primary(PrimaryExpr::Index(Box::new(id("a")), Box::new(num("0")))),
            Expr::Primary(PrimaryExpr::MemberAccess(Box::new(id("o")), "f".to_string())),
            Expr::Primary(PrimaryExpr::Literal(Literal::Null)),
        ],
    ));
    let m = method("k", vec![Stmt::Assert(e)]);
    let program = Program { declarations: vec![Declaration::Method(m)] };
    assert_eq!(
        DafnyPrinter::print_program(&program),
        "method k()\n{\n  assert h([1, 2], a[0], o.f, null);\n}\n\n"
    );
}

#[test]
fn unprintable_forms() {
    let q = Quantifier { variables: vec![QuantifierVar { id: "i".to_string(), type_: Type::Int }], condition: None };
    let all = Expr::Forall(q, Box::new(id("i")));
    let p1 = Program { declarations: vec![Declaration::Method(method("a", vec![Stmt::Assert(all)]))] };
    assert!(!is_printable(&p1));
    let real = Expr::Primary(PrimaryExpr::Literal(Literal::Real("1.5".to_string())));
    let p2 = Program { declarations: vec![Declaration::Method(method("b", vec![Stmt::Assert(real)]))] };
    assert!(is_printable(&p2));
    assert_eq!(DafnyPrinter::print_program(&p2), "method b()\n{\n  assert 1.5;\n}\n\n");
    let p4 = Program { declarations: vec![] };
    assert!(is_printable(&p4));
    assert_eq!(DafnyPrinter::print_program(&p4), "");
}

#[test]
fn assumptions_calls_and_allocations() {
    let alloc = Expr::ArrayInit(vec![num("3"), id("n")], Type::Int);
    let m = method("c", vec![
        Stmt::Assume(id("x")),
        Stmt::Call(Call { id: "f".to_string(), args: vec![id("x"), num("2")] }),
        Stmt::DeclVar(Var { id: "a".to_string(), type_: Type::Array(Box::new(Type::Int)), init: Some(alloc) }),
        Stmt::Assign(Assign {
            lhs: Lhs::Identifier("y".to_string()),
            expr: Expr::IfThenElse(Box::new(id("b")), Box::new(num("1")), Box::new(num("2"))),
        }),
    ]);
    let program = Program { declarations: vec![Declaration::Method(m)] };
    assert!(is_printable(&program));
    assert_eq!(
        DafnyPrinter::print_program(&program),
        "method c()\n{\n  assume x;\n  f(x, 2);\n  var a : array<int> := new int[3, n];\n  y := if b then 1 else 2;\n}\n\n"
    );
}

#[test]
fn single_declarations() {
    let n = |s: &str| Expr::Primary(PrimaryExpr::Literal(Literal::Integer(s.to_string())));
    assert_eq!(DafnyPrinter::print_literal(&Literal::Sequence(vec![n("1"), n("2")])), "[1, 2]");
    assert_eq!(DafnyPrinter::print_literal(&Literal::Sequence(vec![])), "[]");
    let c = ClassDecl {
        id: "C".to_string(),
        extends: Some(Type::Named("T".to_string())),
        fields: vec![FieldDecl { id: "x".to_string(), type_: Type::Int, init: None }],
        constructor: None,
        methods: vec![],
    };
    assert_eq!(DafnyPrinter::print_class_decl(&c, 0), "class C extends T {\n  var x: int\n}\n");
    let p = PredicateDecl {
        id: "P".to_string(),
        params: vec![Param { id: "x".to_string(), type_: Type::Int }],
        requires: vec![Expr::Primary(PrimaryExpr::Literal(Literal::Boolean(true)))],
        body: id("b"),
    };
    assert_eq!(DafnyPrinter::print_predicate_decl(&p, 0), "predicate P(x: int)\nrequires true {\n    b\n}\n");
}

#[test]
fn clones_are_equal_copies() {
    let e = Expr::Additive(AdditiveOp::Add, Box::new(id("x")), Box::new(num("1")));
    let m = method("k", vec![Stmt::Assert(e.clone()), Stmt::Return(Some(e))]);
    let copy = m.clone();
    let p1 = Program { declarations: vec![Declaration::Method(m)] };
    let p2 = Program { declarations: vec![Declaration::Method(copy)] };
    assert_eq!(DafnyPrinter::print_program(&p1), DafnyPrinter::print_program(&p2));
}

#[test]
fn programs_print_one_after_the_other() {
    let first = || Declaration::Method(method("a", vec![Stmt::Break]));
    let second = || Declaration::Method(method("b", vec![Stmt::Return(Some(num("1")))]));
    let p1 = Program { declarations: vec![first()] };
    let p2 = Program { declarations: vec![second()] };
    let both = Program { declarations: vec![first(), second()] };
    let joined = format!("{}{}", DafnyPrinter::print_program(&p1), DafnyPrinter::print_program(&p2));
    assert_eq!(DafnyPrinter::print_program(&both), joined);
    assert_eq!(joined, "method a()\n{\n  break;\n}\n\nmethod b()\n{\n  return 1;\n}\n\n");
}
