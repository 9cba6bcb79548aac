//! A concrete C syntax tree, as a parser produces it: each node has a kind,
//! the source text it spans, the name of the field it fills in its parent,
//! and all of its children, named and anonymous, in order.
use vstd::prelude::*;

use crate::strings::str_eq;

verus! {

/// Where a node stands in the source: its first and last positions, as
/// rows and columns counted from 0.
#[derive(Debug, Clone, Copy, PartialEq, Eq)]
pub struct Span {
    pub start_row: usize,
    pub start_column: usize,
    pub end_row: usize,
    pub end_column: usize,
}

/// A node of a C syntax tree.
#[derive(Debug)]
pub struct SyntaxNode {
    /// The grammar symbol, or the token itself for anonymous nodes (`;`,
    /// `(`, `+=`, ...).
    pub kind: String,
    /// The source text the node spans.
    pub text: String,
    /// The field of the parent that this node fills, if any.
    pub field: Option<String>,
    pub children: Vec<SyntaxNode>,
    pub span: Span,
}

impl SyntaxNode {
    /// A node at the start of the source.
    pub fn new(kind: String, text: String, field: Option<String>, children: Vec<SyntaxNode>) -> (r:
        SyntaxNode)
        ensures
            r.kind == kind,
            r.text == text,
            r.field == field,
            r.children == children,
            r.span == (Span { start_row: 0, start_column: 0, end_row: 0, end_column: 0 }),
    {
        SyntaxNode {
            kind,
            text,
            field,
            children,
            span: Span { start_row: 0, start_column: 0, end_row: 0, end_column: 0 },
        }
    }
}

/// The `i`-th child, if there is one.
pub open spec fn child(n: SyntaxNode, i: int) -> Option<SyntaxNode> {
    if 0 <= i < n.children@.len() {
        Some(n.children@[i])
    } else {
        None
    }
}

/// The node fills the parent's field `f`.
pub open spec fn has_field(n: SyntaxNode, f: Seq<char>) -> bool {
    match n.field {
        Some(x) => x@ == f,
        None => false,
    }
}

/// The first of the nodes that fills field `f`.
pub open spec fn first_with_field(s: Seq<SyntaxNode>, f: Seq<char>) -> Option<SyntaxNode>
    decreases s.len(),
{
    if s.len() == 0 {
        None
    } else if has_field(s[0], f) {
        Some(s[0])
    } else {
        first_with_field(s.drop_first(), f)
    }
}

/// The child that fills field `f` (the first, if several do).
pub open spec fn child_by_field(n: SyntaxNode, f: Seq<char>) -> Option<SyntaxNode> {
    first_with_field(n.children@, f)
}

/// Whether the node is of kind `k`.
pub fn kind_is(n: &SyntaxNode, k: &str) -> (r: bool)
    ensures
        r == (n.kind@ == k@),
{
    str_eq(n.kind.as_str(), k)
}

/// Whether the node fills field `f` of its parent.
pub fn field_is(n: &SyntaxNode, f: &str) -> (r: bool)
    ensures
        r == has_field(*n, f@),
{
    match &n.field {
        Some(x) => str_eq(x.as_str(), f),
        None => false,
    }
}

/// The position of the child that fills field `f`.
pub fn field_child(n: &SyntaxNode, f: &str) -> (r: Option<usize>)
    ensures
        match r {
            Some(j) => j < n.children@.len() && child_by_field(*n, f@) == Some(n.children@[j as int]),
            None => child_by_field(*n, f@) is None,
        },
{
    let len = n.children.len();
    let mut i: usize = 0;
    assert(n.children@.subrange(0, len as int) =~= n.children@);
    while i < len
        invariant
            len == n.children@.len(),
            i <= len,
            child_by_field(*n, f@) == first_with_field(n.children@.subrange(i as int, len as int), f@),
        decreases len - i,
    {
        let ghost rest = n.children@.subrange(i as int, len as int);
        assert(rest[0] == n.children@[i as int]);
        if field_is(&n.children[i], f) {
            return Some(i);
        }
        assert(rest.drop_first() =~= n.children@.subrange(i + 1, len as int));
        i = i + 1;
    }
    None
}

} // verus!
