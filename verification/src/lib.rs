//! A translator from C programs to Dafny: the Dafny syntax tree, its printer,
//! the translation context and the conversion of C syntax trees.
pub mod strings;
pub mod dafny_ast;
pub mod ast_copy;
pub mod context;
pub mod context_laws;
pub mod printer_spec;
pub mod printer;
pub mod printable;
pub mod syntax;
pub mod c_syntax;
pub mod convert_spec;
pub mod convert_expr;
pub mod convert_stmt;
pub mod converter;
pub mod preprocess;
pub mod translate;
pub mod convert_laws;
pub mod operator_laws;
