//! C source text as a syntax tree: the tree-sitter C grammar parses it, and
//! the tree can be listed one node per line.
use vstd::prelude::*;
use vstd::string::*;

use crate::strings::{dec, push_decimal};
use crate::syntax::{Span, SyntaxNode};

verus! {

#[verifier::external_type_specification]
#[verifier::external_body]
pub struct ExTsNode<'tree>(tree_sitter::Node<'tree>);

/// The syntax tree that the tree-sitter C grammar gives for a source text;
/// `None` when the parser cannot be set up or gives no tree.
pub uninterp spec fn c_syntax_tree(source: Seq<char>) -> Option<SyntaxNode>;

/// Copies a tree-sitter node and all the nodes below it: kind, text, the
/// field it fills (`field`), position and children, in order.
#[verifier::external_body]
fn syntax_node_of(node: tree_sitter::Node, field: Option<&str>, source: &str) -> SyntaxNode {
    let mut cursor = node.walk();
    let mut children = Vec::new();
    let mut more = cursor.goto_first_child();
    while more {
        children.push(syntax_node_of(cursor.node(), cursor.field_name(), source));
        more = cursor.goto_next_sibling();
    }
    let (start, end) = (node.start_position(), node.end_position());
    let span = Span { start_row: start.row, start_column: start.column, end_row: end.row, end_column: end.column };
    let text = node.utf8_text(source.as_bytes()).unwrap_or_default().to_string();
    SyntaxNode { kind: node.kind().to_string(), text, field: field.map(str::to_string), children, span }
}

/// `tree_sitter::Parser::parse` with the grammar of `tree_sitter_c`: the
/// tree it gives for `source`, copied node by node, is named
/// `c_syntax_tree(source)`. The parser is set up anew for each call, with no
/// time limit and no earlier tree, so the tree depends on the text alone.
#[verifier::external_body]
pub(crate) fn parse_c_source(source: &str) -> (r: Option<SyntaxNode>)
    ensures
        r == c_syntax_tree(source@),
{
    let mut parser = tree_sitter::Parser::new();
    parser.set_language(&tree_sitter_c::LANGUAGE.into()).ok()?;
    let tree = parser.parse(source, None)?;
    Some(syntax_node_of(tree.root_node(), None, source))
}

// ---------------------------------------------------------------------------
// Listing a tree.
// ---------------------------------------------------------------------------

/// `n` spaces.
pub open spec fn spaces(n: nat) -> Seq<char>
    decreases n,
{
    if n == 0 {
        seq![]
    } else {
        spaces((n - 1) as nat).push(' ')
    }
}

/// A node's line at depth `depth`: indented by two spaces per level, its
/// kind, its text, and where it starts and ends, counted from 1.
pub open spec fn node_line(n: SyntaxNode, depth: nat) -> Seq<char> {
    spaces(2 * depth) + n.kind@ + ": "@ + n.text@ + " ("@ + dec((n.span.start_row + 1) as nat)
        + ":"@ + dec((n.span.start_column + 1) as nat) + " - "@ + dec(
        (n.span.end_row + 1) as nat,
    ) + ":"@ + dec((n.span.end_column + 1) as nat) + ")\n"@
}

/// A node's line, then the listings of its children one level deeper.
pub open spec fn tree_str(n: SyntaxNode, depth: nat) -> Seq<char>
    decreases n, 1int,
{
    node_line(n, depth) + forest_str(n.children@, depth + 1)
}

pub open spec fn forest_str(s: Seq<SyntaxNode>, depth: nat) -> Seq<char>
    decreases s, 0int,
{
    if s.len() == 0 {
        seq![]
    } else {
        forest_str(s.drop_last(), depth) + tree_str(s.last(), depth)
    }
}

/// How many levels lie below a node.
pub open spec fn height(n: SyntaxNode) -> nat
    decreases n, 1int,
{
    if n.children@.len() == 0 {
        0
    } else {
        1 + forest_height(n.children@)
    }
}

pub open spec fn forest_height(s: Seq<SyntaxNode>) -> nat
    decreases s, 0int,
{
    if s.len() == 0 {
        0
    } else {
        let a = forest_height(s.drop_last());
        let b = height(s.last());
        if a >= b {
            a
        } else {
            b
        }
    }
}

/// The height of a forest is at most `b` exactly when each tree's is.
proof fn lemma_forest_height(s: Seq<SyntaxNode>, b: nat)
    ensures
        (forest_height(s) <= b) == (forall|i: int| 0 <= i < s.len() ==> height(#[trigger] s[i]) <= b),
    decreases s.len(),
{
    if s.len() > 0 {
        lemma_forest_height(s.drop_last(), b);
        if forest_height(s) <= b {
            assert forall|i: int| 0 <= i < s.len() implies height(#[trigger] s[i]) <= b by {
                if i < s.len() - 1 {
                    assert(s[i] == s.drop_last()[i]);
                }
            }
        } else {
            if forest_height(s.drop_last()) > b {
                let j = choose|j: int| 0 <= j < s.len() - 1 && height(#[trigger] s.drop_last()[j]) > b;
                assert(s[j] == s.drop_last()[j]);
            } else {
                assert(height(s[s.len() - 1]) > b);
            }
        }
    }
}

/// Whether no more than `bound` levels lie below the node.
pub fn height_at_most(n: &SyntaxNode, bound: usize) -> (r: bool)
    ensures
        r == (height(*n) <= bound),
    decreases n,
{
    let len = n.children.len();
    if len == 0 {
        return true;
    }
    if bound == 0 {
        return false;
    }
    proof {
        lemma_forest_height(n.children@, (bound - 1) as nat);
    }
    let mut i: usize = 0;
    while i < len
        invariant
            len == n.children@.len(),
            i <= len,
            bound > 0,
            forall|j: int| 0 <= j < i ==> height(#[trigger] n.children@[j]) <= bound - 1,
        decreases len - i,
    {
        if !height_at_most(&n.children[i], bound - 1) {
            proof {
                lemma_forest_height(n.children@, (bound - 1) as nat);
            }
            return false;
        }
        i = i + 1;
    }
    true
}

/// Appends `n + 1` in decimal.
fn push_position(s: &mut String, n: usize)
    ensures
        final(s)@ == old(s)@ + dec((n + 1) as nat),
{
    push_decimal(s, (n as u128) + 1);
}

/// The listing of a tree, one node per line from `depth` on: each line is
/// the node's kind and text and where it starts and ends, indented two
/// spaces per level.
pub fn traverse_tree(node: &SyntaxNode, depth: usize) -> (r: String)
    requires
        depth + height(*node) < usize::MAX,
    ensures
        r@ == tree_str(*node, depth as nat),
    decreases node,
{
    let mut out = String::new();
    let mut k: usize = 0;
    while k < depth
        invariant
            k <= depth,
            out@ == spaces(2 * k as nat),
        decreases depth - k,
    {
        out.append("  ");
        proof {
            reveal_strlit("  ");
            assert(spaces((2 * k + 1) as nat) == spaces(2 * k as nat).push(' '));
            assert(spaces((2 * k + 2) as nat) == spaces((2 * k + 1) as nat).push(' '));
            assert(out@ =~= spaces((2 * k + 2) as nat));
        }
        k = k + 1;
    }
    out.append(node.kind.as_str());
    out.append(": ");
    out.append(node.text.as_str());
    out.append(" (");
    push_position(&mut out, node.span.start_row);
    out.append(":");
    push_position(&mut out, node.span.start_column);
    out.append(" - ");
    push_position(&mut out, node.span.end_row);
    out.append(":");
    push_position(&mut out, node.span.end_column);
    out.append(")\n");
    let ghost line = node_line(*node, depth as nat);
    assert(out@ =~= line);
    let s = &node.children;
    let len = s.len();
    if len > 0 {
        proof {
            lemma_forest_height(s@, (height(*node) - 1) as nat);
        }
    }
    let mut i: usize = 0;
    assert(s@.subrange(0, 0) =~= Seq::<SyntaxNode>::empty());
    while i < len
        invariant
            len == s@.len(),
            s == node.children,
            i <= len,
            len > 0 ==> depth + 1 + (height(*node) - 1) < usize::MAX,
            len > 0 ==> forall|j: int| 0 <= j < len ==> height(#[trigger] s@[j]) <= height(*node) - 1,
            out@ == line + forest_str(s@.subrange(0, i as int), (depth + 1) as nat),
        decreases len - i,
    {
        let part = traverse_tree(&s[i], depth + 1);
        proof {
            assert(s@.subrange(0, i + 1).drop_last() =~= s@.subrange(0, i as int));
        }
        out.append(part.as_str());
        proof {
            assert(out@ =~= line + forest_str(s@.subrange(0, i + 1), (depth + 1) as nat));
        }
        i = i + 1;
    }
    assert(s@.subrange(0, len as int) =~= s@);
    out
}

} // verus!
