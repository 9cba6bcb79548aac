use c2dafny::c_syntax::traverse_tree;
use c2dafny::context::Context;
use c2dafny::converter::try_convert;
use c2dafny::dafny_ast::Type;
use c2dafny::converter::ConvertError;
use c2dafny::translate::{parse_source, predef, translate, translate_tree, TranslateError};

fn program_text(c_code: &str, termination: bool) -> String {
    match translate(c_code, termination) {
        Ok(t) => t.dafny,
        Err(e) => panic!("no translation: {:?}", e),
    }
}

fn error_of(c_code: &str) -> TranslateError {
    match translate(c_code, false) {
        Ok(t) => panic!("unexpected translation: {}", t.dafny),
        Err(e) => e,
    }
}

#[test]
fn global_and_method() {
    let code = "int x = 1;\nint main() {\n  x = x + 1;\n  return x;\n}\n";
    let expected = "class CProgram {\n  var x: int\n  constructor(){\n    x := 1;\n  }\n  method main() returns (ret: int)\n    requires true\n    decreases *\n    modifies this\n  {\n    x := (x + 1);\n    return x;\n  }\n\n}\n\n";
    assert_eq!(program_text(code, false), format!("{}{}", predef(), expected));
}

#[test]
fn termination_drops_decreases_star() {
    let code = "int x = 1;\nint main() {\n  x = x + 1;\n  return x;\n}\n";
    let expected = "class CProgram {\n  var x: int\n  constructor(){\n    x := 1;\n  }\n  method main() returns (ret: int)\n    requires true\n    \n    modifies this\n  {\n    x := (x + 1);\n    return x;\n  }\n\n}\n\n";
    assert_eq!(program_text(code, true), format!("{}{}", predef(), expected));
}

#[test]
fn uninitialised_global_starts_at_zero() {
    let expected = "class CProgram {\n  var x: int\n  constructor(){\n    x := 0;\n  }\n}\n\n";
    assert_eq!(program_text("int x;", false), format!("{}{}", predef(), expected));
}

#[test]
fn missing_return_gets_return_zero() {
    let code = "int f(int a) { a = a * 2; }";
    let expected = "class CProgram {\n  constructor(){\n  }\n  method f(a: int) returns (ret: int)\n    requires true\n    decreases *\n    modifies this\n  {\n    a := (a * 2);\n    return 0;\n  }\n\n}\n\n";
    assert_eq!(program_text(code, false), format!("{}{}", predef(), expected));
}

#[test]
fn error_fn_requires_false() {
    let code = "void errorFn() { goto ERROR; }";
    let expected = "class CProgram {\n  constructor(){\n  }\n  method errorFn()\n    requires false\n    decreases *\n    modifies this\n  {\n    assert false;\n  }\n\n}\n\n";
    assert_eq!(program_text(code, false), format!("{}{}", predef(), expected));
}

#[test]
fn loops_and_branches() {
    let code = "unsigned int n;\nvoid run() {\n  for (unsigned int i = 0; i < n; i++) {\n    if (i == 3) { break; } else { n--; }\n  }\n  while (n > 0) { n -= 1; }\n}\n";
    let expected = "class CProgram {\n  var n: bv32\n  constructor(){\n    n := 0;\n  }\n  method run()\n    requires true\n    decreases *\n    modifies this\n  {\n    var i : bv32 := 0;\n    while (i < n)\n      decreases *\n    {\n      if ((i == 3)) {\n        break;\n      } else {\n        n := (n - 1);\n      }\n      i := (i + 1);\n    }\n    while (n > 0)\n      decreases *\n    {\n      n := (n - 1);\n    }\n  }\n\n}\n\n";
    assert_eq!(program_text(code, false), format!("{}{}", predef(), expected));
}

#[test]
fn for_with_expression_initializer_keeps_only_the_loop() {
    let code = "void g() { int i; for (i = 0; i < 3; i++) { i = i; } }";
    let expected = "class CProgram {\n  constructor(){\n  }\n  method g()\n    requires true\n    decreases *\n    modifies this\n  {\n    var i : int;\n    while true\n      decreases *\n    {\n    }\n  }\n\n}\n\n";
    assert_eq!(program_text(code, false), format!("{}{}", predef(), expected));
}

#[test]
fn macros_and_unknown_values() {
    let code = "#define LIMIT (10)\n#define FLAG true\nint main() {\n  int x = unknown_int();\n  _Bool b = FLAG;\n  if (x > LIMIT) { return 1; }\n  return 0;\n}\n";
    let expected = "class CProgram {\n  constructor(){\n  }\n  method main() returns (ret: int)\n    requires true\n    decreases *\n    modifies this\n  {\n    var x : int := *;\n    var b : bool := true;\n    if ((x > 10)) {\n      return 1;\n    }\n    return 0;\n  }\n\n}\n\n";
    assert_eq!(program_text(code, false), format!("{}{}", predef(), expected));
}

#[test]
fn hidden_assertions_are_opened() {
    let hidden = "int main() {\n  int x = 0;\n  //@ assert(x == 0);\n  return x;\n}\n";
    let expected = "class CProgram {\n  constructor(){\n  }\n  method main() returns (ret: int)\n    requires true\n    decreases *\n    modifies this\n  {\n    var x : int := 0;\n    assert((x == 0));\n    return x;\n  }\n\n}\n\n";
    assert_eq!(program_text(hidden, false), format!("{}{}", predef(), expected));
    let comment = "int main() {\n  int x = 0;\n  // assert(x == 0);\n  return x;\n}\n";
    let expected_comment = "class CProgram {\n  constructor(){\n  }\n  method main() returns (ret: int)\n    requires true\n    decreases *\n    modifies this\n  {\n    var x : int := 0;\n    return x;\n  }\n\n}\n\n";
    assert_eq!(program_text(comment, false), format!("{}{}", predef(), expected_comment));
}

#[test]
fn undeclared_variable_is_an_error() {
    assert_eq!(error_of("int main() { y = 1; return 0; }"), TranslateError::Convert(ConvertError::UndeclaredIdentifier));
}

#[test]
fn unknown_local_type_is_an_error() {
    assert_eq!(error_of("int main() { char c; return 0; }"), TranslateError::Convert(ConvertError::UnsupportedDeclaration));
}

#[test]
fn initializer_list_outside_arrays_is_an_error() {
    assert_eq!(error_of("int main() { int x = {1}; return 0; }"), TranslateError::Convert(ConvertError::InitializerListExpression));
}

#[test]
fn assume_without_argument_is_an_error() {
    assert_eq!(error_of("int main() { assume(); return 0; }"), TranslateError::Convert(ConvertError::AssumeWithoutArgument));
}

#[test]
fn real_macros_keep_their_text() {
    let code = "#define PI 3.14\nfloat area() { float x = PI; return x; }";
    let expected = "class CProgram {\n  constructor(){\n  }\n  method area() returns (ret: real)\n    requires true\n    decreases *\n    modifies this\n  {\n    var x : real := 3.14;\n    return x;\n  }\n\n}\n\n";
    assert_eq!(program_text(code, false), format!("{}{}", predef(), expected));
}

#[test]
fn malformed_real_macro_is_an_error() {
    assert_eq!(error_of("#define X 1.2.3\nint main() { float f = X; return 0; }"), TranslateError::Convert(ConvertError::InvalidRealMacro));
}

#[test]
fn arrays_and_assumptions() {
    let code = "int main() { int a[3] = {7, 8}; int x = a[1]; assume(x > 0); return 0; }";
    let expected = "class CProgram {\n  constructor(){\n  }\n  method main() returns (ret: int)\n    requires true\n    decreases *\n    modifies this\n  {\n    var a : array<int> := new int[3];\n    a[0] := 7;\n    a[1] := 8;\n    var x : int := a[1];\n    assume (x > 0);\n    return 0;\n  }\n\n}\n\n";
    assert_eq!(program_text(code, false), format!("{}{}", predef(), expected));
}

#[test]
fn compound_assignments_and_c_division() {
    let code = "int f(int a, int b) { a = a / b; b %= 2; a |= 1; a ^= b; a <<= 1; a >>= 2; a &= 3; return a; }";
    let expected = "class CProgram {\n  constructor(){\n  }\n  method f(a: int, b: int) returns (ret: int)\n    requires true\n    decreases *\n    modifies this\n  {\n    a := c_div(a, b);\n    b := c_mod(b, 2);\n    a := (a | 1);\n    a := (a ^ b);\n    a := (a << 1);\n    a := (a >> 2);\n    a := (a & 3);\n    return a;\n  }\n\n}\n\n";
    assert_eq!(program_text(code, false), format!("{}{}", predef(), expected));
}

#[test]
fn unsigned_and_real_division_stay_dafny_division() {
    let code = "float g(float x) { return x / 2; }\nint main() { unsigned int u = 7; int s = 5; u = u / 2; u %= 3; s = s * u / 2; return 0; }";
    let expected = "class CProgram {\n  constructor(){\n  }\n  method g(x: real) returns (ret: real)\n    requires true\n    decreases *\n    modifies this\n  {\n    return (x / 2);\n  }\n\n  method main() returns (ret: int)\n    requires true\n    decreases *\n    modifies this\n  {\n    var u : bv32 := 7;\n    var s : int := 5;\n    u := (u / 2);\n    u := (u % 3);\n    s := ((s * u) / 2);\n    return 0;\n  }\n\n}\n\n";
    assert_eq!(program_text(code, false), format!("{}{}", predef(), expected));
}

#[test]
fn signed_division_of_nested_expressions() {
    let code = "int main() { int a = 7; int b = 2; int c = (a - 9) / b % 3; return 0; }";
    let expected = "class CProgram {\n  constructor(){\n  }\n  method main() returns (ret: int)\n    requires true\n    decreases *\n    modifies this\n  {\n    var a : int := 7;\n    var b : int := 2;\n    var c : int := c_mod(c_div((a - 9), b), 3);\n    return 0;\n  }\n\n}\n\n";
    assert_eq!(program_text(code, false), format!("{}{}", predef(), expected));
}

#[test]
fn predefined_text_defines_c_division() {
    let p = predef();
    assert!(p.starts_with("\nfunction to_bv32(n: int): bv32\n"));
    assert!(p.contains("function c_div(a: int, b: int): int\n  requires b != 0\n{\n  if a >= 0 then a / b else -((-a) / b)\n}\n"));
    assert!(p.contains("function c_mod(a: int, b: int): int\n  requires b != 0\n{\n  if a >= 0 then a % b else -((-a) % b)\n}\n"));
}

#[test]
fn parenthesised_macros() {
    let code = "#define A (1) + (2)\n#define B ((3))\nint main() { int x = A; int y = B; return 0; }";
    let expected = "class CProgram {\n  constructor(){\n  }\n  method main() returns (ret: int)\n    requires true\n    decreases *\n    modifies this\n  {\n    var x : int := (1) + (2);\n    var y : int := (3);\n    return 0;\n  }\n\n}\n\n";
    assert_eq!(program_text(code, false), format!("{}{}", predef(), expected));
}

#[test]
fn syntax_tree_listing() {
    let tree = parse_source("int x;").expect("a tree");
    let listing = traverse_tree(&tree, 0);
    let expected = "translation_unit: int x; (1:1 - 1:7)\n  declaration: int x; (1:1 - 1:7)\n    primitive_type: int (1:1 - 1:4)\n    identifier: x (1:5 - 1:6)\n    ;: ; (1:6 - 1:7)\n";
    assert_eq!(listing, expected);
    let t = translate("int x;", false).ok().expect("a translation");
    assert_eq!(t.syntax_tree, expected);
}

#[test]
fn parse_records_fields() {
    let tree = parse_source("int x = 2;").expect("a tree");
    assert_eq!(tree.kind, "translation_unit");
    let decl = &tree.children[0];
    assert_eq!(decl.kind, "declaration");
    assert_eq!(decl.children[0].field.as_deref(), Some("type"));
    assert_eq!(decl.children[1].kind, "init_declarator");
    assert_eq!(decl.children[1].field.as_deref(), Some("declarator"));
    assert_eq!(decl.children[1].children[2].field.as_deref(), Some("value"));
    assert_eq!(decl.children[1].children[2].text, "2");
}

#[test]
fn c_types_become_dafny_types() {
    let code = "unsigned char a; unsigned short b; unsigned int c; unsigned long long d; float e; _Bool f; bool g; int h;";
    let expected = "class CProgram {\n  var a: bv8\n  var b: bv16\n  var c: bv32\n  var d: bv64\n  var e: real\n  var f: bool\n  var g: bool\n  var h: int\n  constructor(){\n    a := 0;\n    b := 0;\n    c := 0;\n    d := 0;\n    e := 0;\n    f := 0;\n    g := 0;\n    h := 0;\n  }\n}\n\n";
    assert_eq!(program_text(code, false), format!("{}{}", predef(), expected));
}

#[test]
fn conversion_declares_globals_and_functions() {
    let tree = parse_source("int g = 3;\nint f(int a) { return a; }\nvoid h() { int local; }\n").expect("a tree");
    let mut ctx = Context::new();
    ctx.declare_var("before".to_string(), Type::Bool);
    let program = try_convert(&tree, &mut ctx);
    assert!(program.is_ok());
    assert!(matches!(ctx.lookup_var("g"), Some(Type::Int)));
    assert!(matches!(ctx.lookup_var("f"), Some(Type::Function(_, _))));
    assert!(matches!(ctx.lookup_var("h"), Some(Type::Function(_, _))));
    assert!(matches!(ctx.lookup_var("before"), Some(Type::Bool)));
    assert!(ctx.get_current_method().is_none());
}

#[test]
fn tree_translation_matches_whole_translation() {
    let code = "int x = 1;\nint main() {\n  x = x + 1;\n  return x;\n}\n";
    let tree = parse_source(code).expect("a tree");
    let text = translate_tree(&tree, true).ok().expect("a text");
    assert_eq!(text, program_text(code, true));
    let bad = parse_source("int main() { y = 1; return 0; }").expect("a tree");
    assert_eq!(translate_tree(&bad, false).err(), Some(TranslateError::Convert(ConvertError::UndeclaredIdentifier)));
}
