//! Canonical Nix expressions: the text of a parsed fragment, parentheses
//! around the whole removed, together with the kind of its outermost node.

use vstd::prelude::*;
use crate::syntax::{
    classify, classify_code, expr_child_indices, expr_children, nix_nodes, nodes_view,
    parse_nix_nodes, unwrap_paren_index, unwrap_parens, NodeKind, NodeView, SyntaxNodeInfo,
    NODE_LIST, NODE_PAREN,
};

verus! {

/// Why a fragment could not be read as an expression.
#[derive(Debug, Clone, Copy, PartialEq, Eq, Structural)]
pub enum ExprError {
    /// The text is not a well-formed Nix expression.
    ParseFailure,
    /// The text, wrapped in brackets, did not read back as a single list.
    NotAList,
}

impl ExprError {
    pub fn message(&self) -> (r: &'static str) {
        match self {
            ExprError::ParseFailure => "could not parse Nix expression",
            ExprError::NotAList => "could not get back expression as list",
        }
    }
}

/// A parsed expression. Equality is equality of the canonical text.
#[derive(Debug)]
pub struct Expr {
    raw: String,
    kind: NodeKind,
}

/// The model of an expression: canonical text and outermost kind.
pub type ExprView = (Seq<char>, NodeKind);

impl View for Expr {
    type V = ExprView;

    closed spec fn view(&self) -> ExprView {
        (self.raw@, self.kind)
    }
}

pub open spec fn exprs_view(v: Seq<Expr>) -> Seq<ExprView> {
    v.map_values(|e: Expr| e@)
}

/// The expression node `i` stands for: the node under any parentheses.
pub open spec fn expr_at(s: Seq<NodeView>, i: int) -> ExprView {
    let k = unwrap_parens(s, i);
    (s[k].1, classify(s[k].0))
}

/// The first expression under the root of a parsed fragment.
pub open spec fn root_expr(s: Seq<NodeView>) -> Option<int> {
    if s.len() > 0 && expr_children(s, 0).len() > 0 {
        Some(expr_children(s, 0)[0])
    } else {
        None
    }
}

/// The expression under the root of parsed nodes, parentheses removed.
pub open spec fn single_of_nodes(s: Seq<NodeView>) -> Result<ExprView, ExprError> {
    match root_expr(s) {
        None => Err(ExprError::ParseFailure),
        Some(e) => Ok(expr_at(s, e)),
    }
}

/// `parse_single`: one expression, outer parentheses removed.
pub open spec fn parse_single_spec(text: Seq<char>) -> Result<ExprView, ExprError> {
    match nix_nodes(text) {
        None => Err(ExprError::ParseFailure),
        Some(s) => single_of_nodes(s),
    }
}

pub open spec fn bracketed(text: Seq<char>) -> Seq<char> {
    seq!['['] + text + seq![']']
}

/// The items of the list under the root of parsed nodes, each canonical.
pub open spec fn list_of_nodes(s: Seq<NodeView>) -> Result<Seq<ExprView>, ExprError> {
    match root_expr(s) {
        None => Err(ExprError::ParseFailure),
        Some(e) => if s[e].0 == NODE_LIST {
            Ok(expr_children(s, e).map_values(|k: int| expr_at(s, k)))
        } else {
            Err(ExprError::NotAList)
        },
    }
}

/// `parse_as_list`: the items of the list `[text]`, each canonical, in order.
pub open spec fn parse_as_list_spec(text: Seq<char>) -> Result<Seq<ExprView>, ExprError> {
    match nix_nodes(bracketed(text)) {
        None => Err(ExprError::ParseFailure),
        Some(s) => list_of_nodes(s),
    }
}

impl PartialEq for Expr {
    fn eq(&self, other: &Expr) -> (r: bool) {
        self.raw == other.raw
    }
}

impl vstd::std_specs::cmp::PartialEqSpecImpl for Expr {
    open spec fn obeys_eq_spec() -> bool {
        true
    }

    open spec fn eq_spec(&self, other: &Expr) -> bool {
        self@.0 == other@.0
    }
}

impl Eq for Expr {
}

impl Clone for Expr {
    fn clone(&self) -> (r: Expr)
        ensures
            r@ == self@,
    {
        Expr { raw: self.raw.clone(), kind: self.kind }
    }
}

impl Expr {
    /// The expression that node `i` stands for.
    fn from_node(nodes: &Vec<SyntaxNodeInfo>, i: usize) -> (r: Expr)
        requires
            i < nodes@.len(),
        ensures
            r@ == expr_at(nodes_view(nodes@), i as int),
    {
        let k = unwrap_paren_index(nodes, i);
        Expr { raw: nodes[k].text.clone(), kind: classify_code(nodes[k].kind) }
    }

    /// The first expression under the root, if there is one.
    fn root_of(nodes: &Vec<SyntaxNodeInfo>) -> (r: Option<usize>)
        ensures
            r matches Some(i) ==> i < nodes@.len(),
            match r {
                Some(i) => root_expr(nodes_view(nodes@)) == Some(i as int),
                None => root_expr(nodes_view(nodes@)) is None,
            },
    {
        if nodes.len() == 0 {
            return None;
        }
        let children = expr_child_indices(nodes, 0);
        proof {
            assert(children@.map_values(|k: usize| k as int).len() == children@.len());
        }
        if children.len() == 0 {
            None
        } else {
            proof {
                assert(children@.map_values(|k: usize| k as int)[0] == children@[0] as int);
            }
            Some(children[0])
        }
    }

    /// Parses exactly one expression and removes parentheses around the whole.
    pub fn from_str(source: &str) -> (r: Result<Expr, ExprError>)
        ensures
            match r {
                Ok(e) => parse_single_spec(source@) == Ok::<ExprView, ExprError>(e@),
                Err(err) => parse_single_spec(source@) == Err::<ExprView, ExprError>(err),
            },
    {
        match parse_nix_nodes(source) {
            None => Err(ExprError::ParseFailure),
            Some(nodes) => Self::single_from_nodes(&nodes),
        }
    }

    /// The expression under the root of parsed nodes, parentheses removed.
    pub fn single_from_nodes(nodes: &Vec<SyntaxNodeInfo>) -> (r: Result<Expr, ExprError>)
        ensures
            match r {
                Ok(e) => single_of_nodes(nodes_view(nodes@)) == Ok::<ExprView, ExprError>(e@),
                Err(err) => single_of_nodes(nodes_view(nodes@)) == Err::<ExprView, ExprError>(err),
            },
    {
        match Self::root_of(nodes) {
            None => Err(ExprError::ParseFailure),
            Some(i) => Ok(Self::from_node(nodes, i)),
        }
    }

    /// Same as `from_str`.
    pub fn parse_single(source: &str) -> (r: Result<Expr, ExprError>)
        ensures
            match r {
                Ok(e) => parse_single_spec(source@) == Ok::<ExprView, ExprError>(e@),
                Err(err) => parse_single_spec(source@) == Err::<ExprView, ExprError>(err),
            },
    {
        Self::from_str(source)
    }

    /// Reads whitespace-separated expressions as the items of one list.
    pub fn parse_as_list(source: &str) -> (r: Result<Vec<Expr>, ExprError>)
        ensures
            match r {
                Ok(v) => parse_as_list_spec(source@) == Ok::<Seq<ExprView>, ExprError>(
                    exprs_view(v@),
                ),
                Err(err) => parse_as_list_spec(source@) == Err::<Seq<ExprView>, ExprError>(err),
            },
    {
        let mut text = String::from_str("[");
        text.append(source);
        text.append("]");
        proof {
            reveal_strlit("[");
            reveal_strlit("]");
            assert(text@ =~= bracketed(source@));
        }
        match parse_nix_nodes(text.as_str()) {
            None => Err(ExprError::ParseFailure),
            Some(nodes) => Self::list_from_nodes(&nodes),
        }
    }

    /// The items of the list under the root of parsed nodes, each canonical.
    pub fn list_from_nodes(nodes: &Vec<SyntaxNodeInfo>) -> (r: Result<Vec<Expr>, ExprError>)
        ensures
            match r {
                Ok(v) => list_of_nodes(nodes_view(nodes@)) == Ok::<Seq<ExprView>, ExprError>(exprs_view(v@)),
                Err(err) => list_of_nodes(nodes_view(nodes@)) == Err::<Seq<ExprView>, ExprError>(err),
            },
    {
        let ghost s = nodes_view(nodes@);
        let e = match Self::root_of(nodes) {
            None => return Err(ExprError::ParseFailure),
            Some(e) => e,
        };
        if nodes[e].kind != NODE_LIST {
            return Err(ExprError::NotAList);
        }
        let children = expr_child_indices(nodes, e);
        let ghost idx = children@.map_values(|k: usize| k as int);
        let mut items: Vec<Expr> = Vec::new();
        let mut j: usize = 0;
        while j < children.len()
            invariant
                j <= children@.len(),
                s == nodes_view(nodes@),
                idx == children@.map_values(|k: usize| k as int),
                idx == expr_children(s, e as int),
                forall|k: int| 0 <= k < children@.len() ==> e < #[trigger] children@[k] < nodes@.len(),
                exprs_view(items@) =~= idx.take(j as int).map_values(|k: int| expr_at(s, k)),
            decreases children@.len() - j,
        {
            let item = Self::from_node(nodes, children[j]);
            let ghost before = items@;
            items.push(item);
            proof {
                assert(idx[j as int] == children@[j as int] as int);
                assert(idx.take(j + 1) =~= idx.take(j as int).push(idx[j as int]));
                assert(exprs_view(items@) =~= exprs_view(before).push(item@));
            }
            j = j + 1;
        }
        proof {
            assert(idx.take(j as int) =~= idx);
        }
        Ok(items)
    }

    pub fn kind(&self) -> (r: NodeKind)
        ensures
            r == self@.1,
    {
        self.kind
    }

    /// True iff the expression is a single bare identifier.
    pub fn is_leaf(&self) -> (r: bool)
        ensures
            r == (self@.1 == NodeKind::Ident),
    {
        self.kind == NodeKind::Ident
    }

    /// The canonical text.
    pub fn as_str(&self) -> (r: &str)
        ensures
            r@ == self@.0,
    {
        self.raw.as_str()
    }

    /// The canonical text, owned.
    pub fn to_string(&self) -> (r: String)
        ensures
            r@ == self@.0,
    {
        self.raw.clone()
    }

    /// Whether the two canonical texts are the same.
    pub fn same_text(&self, other: &Expr) -> (r: bool)
        ensures
            r == (self@.0 == other@.0),
    {
        self.raw == other.raw
    }
}

/// A node sequence with depths one deeper, as under a new parent.
pub open spec fn deepened(s: Seq<NodeView>) -> Seq<NodeView> {
    s.map_values(|v: NodeView| (v.0, v.1, v.2 + 1))
}

/// The nodes of `(x)` given the nodes of `x`, whose first node is its top.
pub open spec fn paren_wrapped(s: Seq<NodeView>) -> Seq<NodeView> {
    seq![(NODE_PAREN, seq!['('] + s[0].1 + seq![')'], s[0].2)] + deepened(s)
}

/// The nodes of `x` wrapped in `n` pairs of parentheses.
pub open spec fn paren_wrapped_n(s: Seq<NodeView>, n: nat) -> Seq<NodeView>
    decreases n,
{
    if n == 0 {
        s
    } else {
        paren_wrapped(paren_wrapped_n(s, (n - 1) as nat))
    }
}

proof fn lemma_unwrap_deepened(s: Seq<NodeView>, k: int)
    requires
        0 <= k < s.len(),
    ensures
        unwrap_parens(paren_wrapped(s), k + 1) == unwrap_parens(s, k) + 1,
    decreases s.len() - k,
{
    let w = paren_wrapped(s);
    assert(w[k + 1] == (s[k].0, s[k].1, s[k].2 + 1));
    if k + 1 < s.len() {
        assert(w[k + 2] == (s[k + 1].0, s[k + 1].1, s[k + 1].2 + 1));
        if s[k].0 == NODE_PAREN && s[k + 1].2 == s[k].2 + 1 {
            lemma_unwrap_deepened(s, k + 1);
        }
    }
}

/// Parentheses around an expression do not change it: the expression that the
/// top of `x` wrapped in any number of parenthesis pairs stands for is the one
/// that the top of `x` stands for.
pub proof fn lemma_parens_fixed_point(s: Seq<NodeView>, n: nat)
    requires
        s.len() > 0,
    ensures
        paren_wrapped_n(s, n).len() == s.len() + n,
        expr_at(paren_wrapped_n(s, n), 0) == expr_at(s, 0),
    decreases n,
{
    if n > 0 {
        let inner = paren_wrapped_n(s, (n - 1) as nat);
        lemma_parens_fixed_point(s, (n - 1) as nat);
        let w = paren_wrapped(inner);
        assert(w[1] == (inner[0].0, inner[0].1, inner[0].2 + 1));
        lemma_unwrap_deepened(inner, 0);
        let k = unwrap_parens(inner, 0);
        assert(unwrap_parens(w, 0) == unwrap_parens(w, 1));
        lemma_unwrap_in_range(inner, 0);
        assert(w[k + 1] == (inner[k].0, inner[k].1, inner[k].2 + 1));
    }
}

proof fn lemma_unwrap_in_range(s: Seq<NodeView>, i: int)
    requires
        0 <= i < s.len(),
    ensures
        i <= unwrap_parens(s, i) < s.len(),
    decreases s.len() - i,
{
    if i + 1 < s.len() && s[i].0 == NODE_PAREN && s[i + 1].2 == s[i].2 + 1 {
        lemma_unwrap_in_range(s, i + 1);
    }
}

} // verus!
