//! The whole translation of a C source text: the assertions hidden in
//! comments are opened, the text is parsed, the syntax tree is listed, and
//! the tree is translated into Dafny and printed after the definitions every
//! translated program relies on.
use vstd::prelude::*;
use vstd::string::*;

use crate::c_syntax::{c_syntax_tree, height, height_at_most, parse_c_source, traverse_tree, tree_str};
use crate::context::{fresh_context, Context};
use crate::convert_spec::converted;
use crate::converter::{try_convert, ConvertError};
use crate::preprocess::{delete_decreases_star, extract_assertion, replace_all_seq};
use crate::printable::is_printable;
use crate::printer::DafnyPrinter;
use crate::printer_spec::{printable_program, program_str};
use crate::syntax::SyntaxNode;

verus! {

/// Why a source text has no translation.
#[derive(Debug, Clone, Copy, PartialEq, Eq)]
pub enum TranslateError {
    /// The C grammar gives no syntax tree.
    Parse,
    /// The tree is deeper than a listing can indent.
    TooDeep,
    /// The tree holds something the translation gives up on.
    Convert(ConvertError),
    /// The Dafny program holds something the printer has no text for.
    Unprintable,
}

/// The listing of the syntax tree and the Dafny text.
pub struct Translation {
    pub syntax_tree: String,
    pub dafny: String,
}

/// The Dafny definitions that precede every translated program: the
/// conversion of an integer to a 32-bit vector, and C's division and
/// remainder on signed integers, whose quotient rounds toward zero.
pub open spec fn predef_text() -> Seq<char> {
    "\nfunction to_bv32(n: int): bv32\n  requires -0x80000000 <= n < 0x80000000\n{\n  if n >= 0 then\n    n as bv32\n  else\n    (n + 0x100000000) as bv32  // 转换为补码形式\n}\n\nfunction c_div(a: int, b: int): int\n  requires b != 0\n{\n  if a >= 0 then a / b else -((-a) / b)\n}\n\nfunction c_mod(a: int, b: int): int\n  requires b != 0\n{\n  if a >= 0 then a % b else -((-a) % b)\n}\n\n"@
}

pub fn predef() -> (r: &'static str)
    ensures
        r@ == predef_text(),
{
    "\nfunction to_bv32(n: int): bv32\n  requires -0x80000000 <= n < 0x80000000\n{\n  if n >= 0 then\n    n as bv32\n  else\n    (n + 0x100000000) as bv32  // 转换为补码形式\n}\n\nfunction c_div(a: int, b: int): int\n  requires b != 0\n{\n  if a >= 0 then a / b else -((-a) / b)\n}\n\nfunction c_mod(a: int, b: int): int\n  requires b != 0\n{\n  if a >= 0 then a % b else -((-a) % b)\n}\n\n"
}

/// The source with its hidden assertions opened.
pub open spec fn opened(c_code: Seq<char>) -> Seq<char> {
    replace_all_seq(
        replace_all_seq(c_code, seq!['/', '/', '@'], Seq::empty()),
        seq!['\\', 'f', 'a', 'l', 's', 'e'],
        seq!['f', 'a', 'l', 's', 'e'],
    )
}

/// The printed program, without its `decreases *` clauses when termination
/// is to be checked.
pub open spec fn dafny_text(printed: Seq<char>, termination: bool) -> Seq<char> {
    if termination {
        replace_all_seq(
            printed,
            seq!['d', 'e', 'c', 'r', 'e', 'a', 's', 'e', 's', ' ', '*'],
            Seq::empty(),
        )
    } else {
        printed
    }
}

/// The Dafny text of a C syntax tree, after the definitions every
/// translated program relies on, or why there is none.
pub open spec fn tree_translation(tree: SyntaxNode, termination: bool) -> Result<
    Seq<char>,
    TranslateError,
> {
    match converted(tree, fresh_context()).0 {
        Err(e) => Err(TranslateError::Convert(e)),
        Ok(p) => if printable_program(p) {
            Ok(predef_text() + dafny_text(program_str(p), termination))
        } else {
            Err(TranslateError::Unprintable)
        },
    }
}

/// What the translation of a source text gives: the listing of its syntax
/// tree and the Dafny text, or why there is none.
pub open spec fn translation(c_code: Seq<char>, termination: bool) -> Result<
    (Seq<char>, Seq<char>),
    TranslateError,
> {
    match c_syntax_tree(opened(c_code)) {
        None => Err(TranslateError::Parse),
        Some(tree) => if height(tree) >= usize::MAX {
            Err(TranslateError::TooDeep)
        } else {
            match tree_translation(tree, termination) {
                Err(e) => Err(e),
                Ok(text) => Ok((tree_str(tree, 0), text)),
            }
        },
    }
}

/// The syntax tree of a C source text, its hidden assertions opened.
pub fn parse_source(c_code: &str) -> (r: Option<SyntaxNode>)
    ensures
        r == c_syntax_tree(opened(c_code@)),
{
    let code = extract_assertion(c_code);
    parse_c_source(code.as_str())
}

/// Translates a C syntax tree into Dafny text, in a new context: the
/// definitions every translated program relies on, then the program,
/// without its `decreases *` clauses when termination is to be checked.
pub fn translate_tree(tree: &SyntaxNode, termination: bool) -> (r: Result<String, TranslateError>)
    ensures
        match r {
            Ok(text) => tree_translation(*tree, termination) == Ok::<Seq<char>, TranslateError>(
                text@,
            ),
            Err(e) => tree_translation(*tree, termination) == Err::<Seq<char>, TranslateError>(e),
        },
{
    let mut context = Context::new();
    let program = match try_convert(tree, &mut context) {
        Err(e) => {
            return Err(TranslateError::Convert(e));
        },
        Ok(p) => p,
    };
    if !is_printable(&program) {
        return Err(TranslateError::Unprintable);
    }
    let printed = DafnyPrinter::print_program(&program);
    let text = if termination {
        delete_decreases_star(printed.as_str())
    } else {
        printed
    };
    let mut dafny = String::from_str(predef());
    dafny.append(text.as_str());
    Ok(dafny)
}

/// Translates a C source text into Dafny: the listing of its syntax tree
/// and the Dafny text.
pub fn translate(c_code: &str, termination: bool) -> (r: Result<Translation, TranslateError>)
    ensures
        match r {
            Ok(t) => translation(c_code@, termination) == Ok::<
                (Seq<char>, Seq<char>),
                TranslateError,
            >((t.syntax_tree@, t.dafny@)),
            Err(e) => translation(c_code@, termination) == Err::<
                (Seq<char>, Seq<char>),
                TranslateError,
            >(e),
        },
{
    let tree = match parse_source(c_code) {
        None => {
            return Err(TranslateError::Parse);
        },
        Some(t) => t,
    };
    if !height_at_most(&tree, usize::MAX - 1) {
        return Err(TranslateError::TooDeep);
    }
    let syntax_tree = traverse_tree(&tree, 0);
    let dafny = translate_tree(&tree, termination)?;
    Ok(Translation { syntax_tree, dafny })
}

} // verus!
