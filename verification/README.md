# c2dafny

A transpiler from C to Dafny, written in Verus. A C source text is parsed with
the tree-sitter C grammar; global variables become the fields of a Dafny class
`CProgram`, whose constructor initialises them, and functions become its
methods. C `int` is Dafny `int`; the unsigned C types, whose overflow wraps,
become bit-vectors of their width. C's `/` and `%` on signed integers, which
round toward zero, become calls of `c_div` and `c_mod`, defined before every
translated program, since Dafny's `/` and `%` round down; on unsigned or real
operands they stay Dafny's `/` and `%`.

Layout:

- `src/syntax.rs`, `src/c_syntax.rs`: the C syntax tree, the parser call and
  the listing of a tree.
- `src/dafny_ast.rs`, `src/ast_copy.rs`: the Dafny syntax tree and its model.
- `src/context.rs`, `src/context_laws.rs`: scopes, macros and temporary
  names, and what a context holds after any sequence of calls.
- `src/convert_spec.rs`: what converting a tree gives, stated over the model;
  `src/convert_expr.rs`, `src/convert_stmt.rs`, `src/converter.rs` carry it
  out, and `src/convert_laws.rs` proves properties of every conversion.
- `src/printer_spec.rs`, `src/printer.rs`, `src/printable.rs`: the Dafny text
  of a tree, and which trees have one.
- `src/preprocess.rs`, `src/translate.rs`: opening the assertions hidden in
  `//@` comments, dropping `decreases *`, and the whole translation.
- `app/main.rs`: the command line, files, and the optional Python repair step.
