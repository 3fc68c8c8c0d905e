//! The adapter to the tree-sitter parsing engine: the text is fed to the
//! parser line by line, and the tree comes back as its nodes in pre-order.
use vstd::prelude::*;
use vstd::slice::slice_subrange;
use crate::syntax::{node_views, SyntaxNode};
use crate::text::{views, NEWLINE};
use crate::text_buffer::Cursor;

verus! {

/// What the parser reads at `(row, column)`: the rest of that line, a
/// newline where the line is used up, and nothing past the last line.
pub open spec fn input_at(lines: Seq<Seq<u8>>, row: int, column: int) -> Seq<u8> {
    if row < lines.len() {
        if column < lines[row].len() {
            lines[row].skip(column)
        } else {
            seq![NEWLINE]
        }
    } else {
        Seq::empty()
    }
}

/// The bytes the parser reads at `(row, column)`, as `input_at` gives them.
pub fn parser_input<'a>(lines: &'a Vec<String>, row: usize, column: usize) -> (r: &'a [u8])
    ensures
        r@ == input_at(views(lines@), row as int, column as int),
{
    if row < lines.len() {
        let bytes = lines[row].as_str().as_bytes();
        if column < bytes.len() {
            let r = slice_subrange(bytes, column, bytes.len());
            assert(r@ =~= bytes@.skip(column as int));
            r
        } else {
            let nl = crate::text::newline_str();
            nl.as_bytes()
        }
    } else {
        let empty = "";
        proof {
            reveal_strlit("");
        }
        let r = empty.as_bytes();
        assert(r@ =~= Seq::<u8>::empty());
        r
    }
}

#[verifier::external_type_specification]
#[verifier::external_body]
pub struct ExTreeCursor<'a>(tree_sitter::TreeCursor<'a>);

/// Relies on `tree_sitter::TreeCursor::depth` and `node`, and `Node`'s
/// `kind`, `child_count` and `range`: the node under the cursor as plain
/// values.
#[verifier::external_body]
fn current_node(cursor: &tree_sitter::TreeCursor) -> SyntaxNode {
    let node = cursor.node();
    let (a, b) = (node.range().start_point, node.range().end_point);
    SyntaxNode {
        depth: cursor.depth() as usize,
        kind: node.kind().to_string(),
        child_count: node.child_count(),
        start: Cursor { row: a.row, column: a.column },
        end: Cursor { row: b.row, column: b.column },
    }
}

/// What tree-sitter's Python grammar makes of `lines`, read as `input_at`
/// hands them out: the nodes of the tree in pre-order, each as its depth,
/// kind, number of children, start and end; nothing where the engine gives
/// no tree.
pub uninterp spec fn python_tree_of(lines: Seq<Seq<u8>>) -> Option<Seq<(nat, Seq<char>, nat, Cursor, Cursor)>>;

/// Relies on tree-sitter: `Parser::set_language` with the grammar of
/// `tree_sitter_python::language`, `Parser::parse_with` reading through
/// `parser_input`, `Tree::walk`, `Node::descendant_count` and
/// `TreeCursor::goto_descendant`, which visits the nodes in pre-order, each
/// read by `current_node`. No timeout or cancellation is set, so the nodes
/// depend on the lines alone.
#[verifier::external_body]
pub(crate) fn parse_python(lines: &Vec<String>) -> (r: Option<Vec<SyntaxNode>>)
    ensures
        match r {
            Some(v) => python_tree_of(views(lines@)) == Some(node_views(v@)),
            None => python_tree_of(views(lines@)) is None,
        },
{
    let mut parser = tree_sitter::Parser::new();
    parser.set_language(&tree_sitter_python::language()).ok()?;
    let mut input = |_byte: usize, p: tree_sitter::Point| parser_input(lines, p.row, p.column);
    let tree = parser.parse_with(&mut input, None)?;
    let mut cursor = tree.walk();
    let count = cursor.node().descendant_count();
    let mut nodes = Vec::with_capacity(count);
    for index in 0..count {
        cursor.goto_descendant(index);
        nodes.push(current_node(&cursor));
    }
    Some(nodes)
}

} // verus!
