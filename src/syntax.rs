//! A parsed Nix fragment as a flat list of syntax nodes in preorder, and the
//! structural queries the library makes on it.

use vstd::prelude::*;

verus! {

/// rnix's `SyntaxKind` discriminants (`#[repr(u16)]`, declaration order) of
/// the node kinds this library tells apart.
pub const NODE_APPLY: u16 = 53;
pub const NODE_ASSERT: u16 = 54;
pub const NODE_ERROR: u16 = 57;
pub const NODE_IDENT: u16 = 58;
pub const NODE_IF_ELSE: u16 = 59;
pub const NODE_SELECT: u16 = 60;
pub const NODE_STRING: u16 = 63;
pub const NODE_LAMBDA: u16 = 65;
pub const NODE_LEGACY_LET: u16 = 67;
pub const NODE_LET_IN: u16 = 68;
pub const NODE_LIST: u16 = 69;
pub const NODE_BIN_OP: u16 = 70;
pub const NODE_PAREN: u16 = 71;
pub const NODE_ROOT: u16 = 75;
pub const NODE_ATTR_SET: u16 = 76;
pub const NODE_UNARY_OP: u16 = 78;
pub const NODE_LITERAL: u16 = 79;
pub const NODE_WITH: u16 = 80;
pub const NODE_PATH: u16 = 81;
pub const NODE_HAS_ATTR: u16 = 82;

/// Shape of an expression, as far as directive validation cares.
#[derive(Debug, Clone, Copy, PartialEq, Eq, Structural)]
pub enum NodeKind {
    Ident,
    Apply,
    List,
    AttrSet,
    Literal,
    Paren,
    Other,
}

/// One syntax node: its rnix kind code, its source text, and its depth
/// (the root has depth 1, each child one more than its parent).
#[derive(Debug, Clone)]
pub struct SyntaxNodeInfo {
    pub kind: u16,
    pub text: String,
    pub depth: usize,
}

/// The plain-value view of a node.
pub type NodeView = (u16, Seq<char>, int);

pub open spec fn node_view(n: SyntaxNodeInfo) -> NodeView {
    (n.kind, n.text@, n.depth as int)
}

pub open spec fn nodes_view(v: Seq<SyntaxNodeInfo>) -> Seq<NodeView> {
    v.map_values(|n: SyntaxNodeInfo| node_view(n))
}

pub open spec fn parsed_view(r: Option<Vec<SyntaxNodeInfo>>) -> Option<Seq<NodeView>> {
    match r {
        Some(v) => Some(nodes_view(v@)),
        None => None,
    }
}

/// The nodes of rnix's syntax tree for `text`, in preorder, when rnix parses
/// it without error.
pub uninterp spec fn nix_nodes(text: Seq<char>) -> Option<Seq<NodeView>>;

/// Relies on `rnix::Root::parse(..).ok()`, rowan's `descendants` (preorder,
/// the root first), `ancestors` (the node itself included) and the node's
/// `Display` (its source text): the result depends on the text alone.
#[verifier::external_body]
pub(crate) fn parse_nix_nodes(text: &str) -> (r: Option<Vec<SyntaxNodeInfo>>)
    ensures
        parsed_view(r) == nix_nodes(text@),
{
    let root = rnix::Root::parse(text).ok().ok()?;
    let mut nodes = Vec::new();
    for n in rowan::ast::AstNode::syntax(&root).descendants() {
        let info = SyntaxNodeInfo { kind: n.kind() as u16, text: n.to_string(), depth: n.ancestors().count() };
        nodes.push(info);
    }
    Some(nodes)
}

/// Whether rnix's `ast::Expr` accepts a node of this kind.
pub open spec fn is_expr_kind(k: u16) -> bool {
    k == NODE_APPLY || k == NODE_ASSERT || k == NODE_ERROR || k == NODE_IF_ELSE
        || k == NODE_SELECT || k == NODE_STRING || k == NODE_PATH || k == NODE_LITERAL
        || k == NODE_LAMBDA || k == NODE_LEGACY_LET || k == NODE_LET_IN || k == NODE_LIST
        || k == NODE_BIN_OP || k == NODE_PAREN || k == NODE_ROOT || k == NODE_ATTR_SET
        || k == NODE_UNARY_OP || k == NODE_IDENT || k == NODE_WITH || k == NODE_HAS_ATTR
}

pub open spec fn classify(k: u16) -> NodeKind {
    if k == NODE_IDENT {
        NodeKind::Ident
    } else if k == NODE_APPLY {
        NodeKind::Apply
    } else if k == NODE_LIST {
        NodeKind::List
    } else if k == NODE_ATTR_SET {
        NodeKind::AttrSet
    } else if k == NODE_LITERAL || k == NODE_STRING || k == NODE_PATH {
        NodeKind::Literal
    } else if k == NODE_PAREN {
        NodeKind::Paren
    } else {
        NodeKind::Other
    }
}

pub fn is_expr_code(k: u16) -> (r: bool)
    ensures
        r == is_expr_kind(k),
{
    k == NODE_APPLY || k == NODE_ASSERT || k == NODE_ERROR || k == NODE_IF_ELSE
        || k == NODE_SELECT || k == NODE_STRING || k == NODE_PATH || k == NODE_LITERAL
        || k == NODE_LAMBDA || k == NODE_LEGACY_LET || k == NODE_LET_IN || k == NODE_LIST
        || k == NODE_BIN_OP || k == NODE_PAREN || k == NODE_ROOT || k == NODE_ATTR_SET
        || k == NODE_UNARY_OP || k == NODE_IDENT || k == NODE_WITH || k == NODE_HAS_ATTR
}

pub fn classify_code(k: u16) -> (r: NodeKind)
    ensures
        r == classify(k),
{
    if k == NODE_IDENT {
        NodeKind::Ident
    } else if k == NODE_APPLY {
        NodeKind::Apply
    } else if k == NODE_LIST {
        NodeKind::List
    } else if k == NODE_ATTR_SET {
        NodeKind::AttrSet
    } else if k == NODE_LITERAL || k == NODE_STRING || k == NODE_PATH {
        NodeKind::Literal
    } else if k == NODE_PAREN {
        NodeKind::Paren
    } else {
        NodeKind::Other
    }
}

/// Node `j` is a child of node `i` that rnix reads as an expression.
pub open spec fn is_expr_child(s: Seq<NodeView>, i: int, j: int) -> bool {
    &&& 0 <= i < j < s.len()
    &&& s[j].2 == s[i].2 + 1
    &&& is_expr_kind(s[j].0)
}

/// First index after `j` (from `j` on) that lies outside the subtree of node `i`.
pub open spec fn subtree_end(s: Seq<NodeView>, i: int, j: int) -> int
    decreases s.len() - j,
{
    if j >= s.len() || j < 0 || s[j].2 <= s[i].2 {
        j
    } else {
        subtree_end(s, i, j + 1)
    }
}

/// The expression children of node `i` that come before index `j`.
pub open spec fn expr_children_before(s: Seq<NodeView>, i: int, j: int) -> Seq<int>
    decreases j - i,
{
    if j <= i + 1 {
        Seq::empty()
    } else if is_expr_child(s, i, j - 1) {
        expr_children_before(s, i, j - 1).push(j - 1)
    } else {
        expr_children_before(s, i, j - 1)
    }
}

/// The expression children of node `i`, in order.
pub open spec fn expr_children(s: Seq<NodeView>, i: int) -> Seq<int> {
    expr_children_before(s, i, subtree_end(s, i, i + 1))
}

/// Follows parentheses down to the node they wrap: a parenthesised node
/// stands for its first child node, which follows it directly in preorder.
pub open spec fn unwrap_parens(s: Seq<NodeView>, i: int) -> int
    decreases s.len() - i,
{
    if 0 <= i && i + 1 < s.len() && s[i].0 == NODE_PAREN && s[i + 1].2 == s[i].2 + 1 {
        unwrap_parens(s, i + 1)
    } else {
        i
    }
}

/// Indices of the expression children of node `i`.
pub fn expr_child_indices(nodes: &Vec<SyntaxNodeInfo>, i: usize) -> (r: Vec<usize>)
    requires
        i < nodes@.len(),
    ensures
        r@.map_values(|k: usize| k as int) == expr_children(nodes_view(nodes@), i as int),
        forall|k: int| 0 <= k < r@.len() ==> i < #[trigger] r@[k] < nodes@.len(),
{
    let ghost s = nodes_view(nodes@);
    let d = nodes[i].depth;
    let n = nodes.len();
    let mut end: usize = i + 1;
    while end < nodes.len() && nodes[end].depth > d
        invariant
            i < end <= nodes@.len(),
            s == nodes_view(nodes@),
            d == s[i as int].2,
            subtree_end(s, i as int, end as int) == subtree_end(s, i as int, i + 1),
        decreases nodes@.len() - end,
    {
        end = end + 1;
    }
    let mut r: Vec<usize> = Vec::new();
    let mut j: usize = i + 1;
    while j < end
        invariant
            i < j <= end <= nodes@.len(),
            s == nodes_view(nodes@),
            d == s[i as int].2,
            end as int == subtree_end(s, i as int, i + 1),
            r@.map_values(|k: usize| k as int) == expr_children_before(s, i as int, j as int),
            forall|k: int| 0 <= k < r@.len() ==> i < #[trigger] r@[k] < j,
        decreases end - j,
    {
        if d < usize::MAX && nodes[j].depth == d + 1 && is_expr_code(nodes[j].kind) {
            r.push(j);
            assert(r@.map_values(|k: usize| k as int) =~= expr_children_before(s, i as int, j as int).push(j as int));
        } else {
            assert(!is_expr_child(s, i as int, j as int));
        }
        j = j + 1;
    }
    r
}

/// Index of the node that node `i` stands for once parentheses are removed.
pub fn unwrap_paren_index(nodes: &Vec<SyntaxNodeInfo>, i: usize) -> (r: usize)
    requires
        i < nodes@.len(),
    ensures
        r as int == unwrap_parens(nodes_view(nodes@), i as int),
        r < nodes@.len(),
{
    let ghost s = nodes_view(nodes@);
    let n = nodes.len();
    let mut k: usize = i;
    while k < n - 1 && nodes[k].kind == NODE_PAREN && nodes[k].depth < usize::MAX
        && nodes[k + 1].depth == nodes[k].depth + 1
        invariant
            i <= k < nodes@.len(),
            n == nodes@.len(),
            s == nodes_view(nodes@),
            unwrap_parens(s, k as int) == unwrap_parens(s, i as int),
        decreases nodes@.len() - k,
    {
        k = k + 1;
    }
    k
}

} // verus!
