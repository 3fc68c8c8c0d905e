//! Leaf tokens of a syntax tree. The tree arrives as its nodes in pre-order,
//! each with its depth; a leaf's dotted path is the chain of its ancestors'
//! kinds below a synthetic root label.
use vstd::prelude::*;
use crate::highlight::{first_match, LanguageHighlightTypeMapping};
use crate::highlight::HighlightedText;
use crate::merge::{
    fragment_views, fragments_ok, highlight_lines, kept_spans, normalize_spans, wf_spans, Span,
};
use crate::text::{concat, utf8, views};
use crate::text_buffer::Cursor;

verus! {

/// A node of a syntax tree, as a pre-order walk meets it.
pub struct SyntaxNode {
    pub depth: usize,
    pub kind: String,
    pub child_count: usize,
    pub start: Cursor,
    pub end: Cursor,
}

/// A leaf of the tree: its span and its dotted path.
pub struct Token {
    pub start: Cursor,
    pub end: Cursor,
    pub path: String,
}

/// The label that every dotted path starts with.
pub open spec fn root_label() -> Seq<u8> {
    utf8("root"@)
}

/// The dotted path of a node of kind `kind` under a node whose path is
/// `parent`.
pub open spec fn child_path(parent: Seq<u8>, kind: Seq<u8>) -> Seq<u8> {
    parent + utf8("."@) + kind
}

/// The depth at which a node is placed: its own, or just below the deepest
/// open node where the walk skipped a level.
pub open spec fn placed_depth(depth: nat, open: nat) -> int {
    if depth <= open {
        depth as int
    } else {
        open as int
    }
}

/// A node as plain values: depth, kind, number of children, start, end.
pub type NodeView = (nat, Seq<char>, nat, Cursor, Cursor);

/// The plain values of a node.
pub open spec fn node_view(n: SyntaxNode) -> NodeView {
    (n.depth as nat, n.kind@, n.child_count as nat, n.start, n.end)
}

/// The plain values of each node.
pub open spec fn node_views(nodes: Seq<SyntaxNode>) -> Seq<NodeView> {
    nodes.map_values(|n: SyntaxNode| node_view(n))
}

/// The paths of the nodes open after the walk has met `nodes`, outermost
/// first.
pub open spec fn path_stack(nodes: Seq<NodeView>) -> Seq<Seq<u8>>
    decreases nodes.len(),
{
    if nodes.len() == 0 {
        Seq::empty()
    } else {
        let st = path_stack(nodes.drop_last());
        let n = nodes.last();
        let d = placed_depth(n.0, st.len());
        let parent = if d == 0 {
            root_label()
        } else {
            st[d - 1]
        };
        st.take(d).push(child_path(parent, utf8(n.1)))
    }
}

/// The leaves among `nodes`, in order, with their dotted paths.
pub open spec fn leaf_tokens(nodes: Seq<NodeView>) -> Seq<(Cursor, Cursor, Seq<u8>)>
    decreases nodes.len(),
{
    if nodes.len() == 0 {
        Seq::empty()
    } else {
        let prev = leaf_tokens(nodes.drop_last());
        let n = nodes.last();
        if n.2 == 0 {
            prev.push((n.3, n.4, path_stack(nodes).last()))
        } else {
            prev
        }
    }
}

/// The views of tokens.
pub open spec fn token_views(tokens: Seq<Token>) -> Seq<(Cursor, Cursor, Seq<u8>)> {
    tokens.map_values(|t: Token| (t.start, t.end, utf8(t.path@)))
}

/// The leaf tokens of a tree given as its nodes in pre-order.
pub fn extract_tokens(nodes: &Vec<SyntaxNode>) -> (r: Vec<Token>)
    ensures
        token_views(r@) == leaf_tokens(node_views(nodes@)),
{
    let ghost nv = node_views(nodes@);
    let mut stack: Vec<String> = Vec::new();
    let mut out: Vec<Token> = Vec::new();
    let mut i: usize = 0;
    while i < nodes.len()
        invariant
            i <= nodes@.len(),
            nv == node_views(nodes@),
            crate::text::views(stack@) == path_stack(nv.take(i as int)),
            token_views(out@) == leaf_tokens(nv.take(i as int)),
        decreases nodes@.len() - i,
    {
        let ghost prefix = nv.take(i as int + 1);
        assert(prefix.drop_last() =~= nv.take(i as int));
        let node = &nodes[i];
        assert(prefix.last() == node_view(*node));
        let d = if node.depth <= stack.len() {
            node.depth
        } else {
            stack.len()
        };
        stack.truncate(d);
        let path = if d == 0 {
            concat(concat("root", ".").as_str(), node.kind.as_str())
        } else {
            concat(concat(stack[d - 1].as_str(), ".").as_str(), node.kind.as_str())
        };
        let ghost before = stack@;
        stack.push(path.clone());
        assert(crate::text::views(stack@) =~= crate::text::views(before).push(utf8(path@)));
        assert(crate::text::views(stack@) =~= path_stack(prefix));
        if node.child_count == 0 {
            let ghost before_out = out@;
            out.push(Token { start: node.start, end: node.end, path });
            assert(token_views(out@) =~= token_views(before_out).push(
                (node.start, node.end, path_stack(prefix).last()),
            ));
        }
        i += 1;
    }
    assert(nv.take(nodes@.len() as int) =~= nv);
    out
}

/// The spans of `tokens`, each with the category that `mapping` gives its
/// path.
pub fn categorize<M: LanguageHighlightTypeMapping>(tokens: &Vec<Token>, mapping: &M) -> (r: Vec<
    Span,
>)
    ensures
        r@.len() == tokens@.len(),
        forall|i: int|
            0 <= i < tokens@.len() ==> #[trigger] r@[i] == (Span {
                start: tokens@[i].start,
                end: tokens@[i].end,
                category: first_match(mapping.rules(), utf8(tokens@[i].path@)),
            }),
{
    let mut out: Vec<Span> = Vec::new();
    let mut i: usize = 0;
    while i < tokens.len()
        invariant
            i <= tokens@.len(),
            out@.len() == i,
            forall|j: int|
                0 <= j < i ==> #[trigger] out@[j] == (Span {
                    start: tokens@[j].start,
                    end: tokens@[j].end,
                    category: first_match(mapping.rules(), utf8(tokens@[j].path@)),
                }),
        decreases tokens@.len() - i,
    {
        let t = &tokens[i];
        let category = mapping.get_highlight_type(t.path.as_str());
        out.push(Span { start: t.start, end: t.end, category });
        i += 1;
    }
    out
}

/// The categorized spans of leaf tokens under `rules`.
pub open spec fn categorized(
    tokens: Seq<(Cursor, Cursor, Seq<u8>)>,
    rules: Seq<(Seq<char>, crate::highlight::HighlightType)>,
) -> Seq<Span> {
    Seq::new(
        tokens.len(),
        |i: int| Span { start: tokens[i].0, end: tokens[i].1, category: first_match(rules, tokens[i].2) },
    )
}

/// The spans that highlighting `lines` by the tree `nodes` uses: the leaf
/// tokens, categorized by `rules`, that fit the lines in document order.
pub open spec fn highlight_spans(
    lines: Seq<Seq<u8>>,
    nodes: Seq<NodeView>,
    rules: Seq<(Seq<char>, crate::highlight::HighlightType)>,
) -> Seq<Span> {
    kept_spans(lines, categorized(leaf_tokens(nodes), rules))
}

/// Highlights `lines` by the syntax tree `nodes`, whose leaves `mapping`
/// categorizes.
pub fn highlight_nodes<M: LanguageHighlightTypeMapping>(
    lines: &Vec<String>,
    nodes: &Vec<SyntaxNode>,
    mapping: &M,
) -> (res: HighlightedText)
    ensures
        res.text@.len() == lines@.len(),
        wf_spans(views(lines@), highlight_spans(views(lines@), node_views(nodes@), mapping.rules())),
        forall|r: int|
            0 <= r < lines@.len() ==> fragments_ok(
                fragment_views(#[trigger] res.text@[r]@),
                views(lines@)[r],
                r,
                highlight_spans(views(lines@), node_views(nodes@), mapping.rules()),
            ),
{
    let tokens = extract_tokens(nodes);
    let spans = categorize(&tokens, mapping);
    assert(spans@ =~= categorized(leaf_tokens(node_views(nodes@)), mapping.rules())) by {
        assert forall|i: int| 0 <= i < tokens@.len() implies token_views(tokens@)[i] == (
        tokens@[i].start,
        tokens@[i].end,
        utf8(tokens@[i].path@),
        ) by {}
    }
    let kept = normalize_spans(lines, &spans);
    highlight_lines(lines, &kept)
}

} // verus!
