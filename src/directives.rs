//! The typed configuration built from raw directives, and how values given by
//! the caller are merged into it.

use vstd::prelude::*;
use crate::expr::{exprs_view, parse_as_list_spec, parse_single_spec, Expr, ExprView};
use crate::raw::{lookup, RawDirectives, RawView};
use crate::extract::{extract_directives, extract_spec};
use crate::syntax::NodeKind;
use crate::text::{join_spaced, join_with_spaces, split_words, strings_view, words};

verus! {

/// Why directives could not be turned into a configuration.
#[derive(Debug, Clone)]
pub enum DirectiveError {
    /// A field that takes one value was given several.
    DuplicateSingularDirective(String),
    /// The text given for an expression field does not parse.
    ExpressionParseFailure(String),
    /// An expression of the wrong kind: the field, the kind expected, and
    /// the kind found.
    WrongExpressionShape(String, NodeKind, NodeKind),
}

/// The plain-value model of a `DirectiveError`.
pub enum DirectiveErrorView {
    DuplicateSingularDirective(Seq<char>),
    ExpressionParseFailure(Seq<char>),
    WrongExpressionShape(Seq<char>, NodeKind, NodeKind),
}

impl View for DirectiveError {
    type V = DirectiveErrorView;

    open spec fn view(&self) -> DirectiveErrorView {
        match self {
            DirectiveError::DuplicateSingularDirective(n) => DirectiveErrorView::DuplicateSingularDirective(n@),
            DirectiveError::ExpressionParseFailure(t) => DirectiveErrorView::ExpressionParseFailure(t@),
            DirectiveError::WrongExpressionShape(n, x, k) => DirectiveErrorView::WrongExpressionShape(n@, *x, *k),
        }
    }
}

pub open spec fn kind_name(k: NodeKind) -> Seq<char> {
    match k {
        NodeKind::Ident => "identifier"@,
        NodeKind::Apply => "function application"@,
        NodeKind::List => "list"@,
        NodeKind::AttrSet => "attribute set"@,
        NodeKind::Literal => "literal"@,
        NodeKind::Paren => "parenthesized expression"@,
        NodeKind::Other => "other expression"@,
    }
}

pub fn kind_name_of(k: NodeKind) -> (r: &'static str)
    ensures
        r@ == kind_name(k),
{
    match k {
        NodeKind::Ident => "identifier",
        NodeKind::Apply => "function application",
        NodeKind::List => "list",
        NodeKind::AttrSet => "attribute set",
        NodeKind::Literal => "literal",
        NodeKind::Paren => "parenthesized expression",
        NodeKind::Other => "other expression",
    }
}

pub open spec fn error_message(e: DirectiveErrorView) -> Seq<char> {
    match e {
        DirectiveErrorView::DuplicateSingularDirective(n) =>
            "multiple `"@ + n + "` directives but need exactly one"@,
        DirectiveErrorView::ExpressionParseFailure(t) =>
            "could not parse `"@ + t + "` as a Nix expression"@,
        DirectiveErrorView::WrongExpressionShape(n, x, k) =>
            "`"@ + n + "` directive should be of kind `"@ + kind_name(x) + "` but is of kind `"@ + kind_name(k) + "`"@,
    }
}

impl DirectiveError {
    /// A sentence that says what went wrong.
    pub fn to_string(&self) -> (r: String)
        ensures
            r@ == error_message(self@),
    {
        match self {
            DirectiveError::DuplicateSingularDirective(n) => {
                let mut s = String::from_str("multiple `");
                s.append(n.as_str());
                s.append("` directives but need exactly one");
                s
            },
            DirectiveError::ExpressionParseFailure(t) => {
                let mut s = String::from_str("could not parse `");
                s.append(t.as_str());
                s.append("` as a Nix expression");
                s
            },
            DirectiveError::WrongExpressionShape(n, x, k) => {
                let mut s = String::from_str("`");
                s.append(n.as_str());
                s.append("` directive should be of kind `");
                s.append(kind_name_of(*x));
                s.append("` but is of kind `");
                s.append(kind_name_of(*k));
                s.append("`");
                s
            },
        }
    }
}

/// The resolved configuration of a script.
#[derive(Debug)]
pub struct Directives {
    pub build_command: Option<String>,
    pub build_root: Option<String>,
    pub build_inputs: Vec<Expr>,
    pub interpreter: Option<String>,
    pub runtime_inputs: Vec<Expr>,
    pub runtime_files: Vec<String>,
    pub nixpkgs_config: Option<Expr>,
    pub all: RawDirectives,
}

pub struct DirectivesView {
    pub build_command: Option<Seq<char>>,
    pub build_root: Option<Seq<char>>,
    pub build_inputs: Seq<ExprView>,
    pub interpreter: Option<Seq<char>>,
    pub runtime_inputs: Seq<ExprView>,
    pub runtime_files: Seq<Seq<char>>,
    pub nixpkgs_config: Option<ExprView>,
    pub all: RawView,
}

pub open spec fn opt_view(o: Option<String>) -> Option<Seq<char>> {
    match o {
        Some(s) => Some(s@),
        None => None,
    }
}

pub open spec fn opt_expr_view(o: Option<Expr>) -> Option<ExprView> {
    match o {
        Some(e) => Some(e@),
        None => None,
    }
}

impl View for Directives {
    type V = DirectivesView;

    open spec fn view(&self) -> DirectivesView {
        DirectivesView {
            build_command: opt_view(self.build_command),
            build_root: opt_view(self.build_root),
            build_inputs: exprs_view(self.build_inputs@),
            interpreter: opt_view(self.interpreter),
            runtime_inputs: exprs_view(self.runtime_inputs@),
            runtime_files: strings_view(self.runtime_files@),
            nixpkgs_config: opt_expr_view(self.nixpkgs_config),
            all: self.all@,
        }
    }
}

/// Whether an expression with canonical text `t` is in `list`.
pub open spec fn has_text(list: Seq<ExprView>, t: Seq<char>) -> bool {
    exists|i: int| 0 <= i < list.len() && (#[trigger] list[i]).0 == t
}

/// `list` with `e` appended unless its text is already there.
pub open spec fn append_unique(list: Seq<ExprView>, e: ExprView) -> Seq<ExprView> {
    if has_text(list, e.0) {
        list
    } else {
        list.push(e)
    }
}

/// Each item of `items` appended in turn, unless its text is already there.
pub open spec fn append_unique_all(list: Seq<ExprView>, items: Seq<ExprView>) -> Seq<ExprView>
    decreases items.len(),
{
    if items.len() == 0 {
        list
    } else {
        append_unique(append_unique_all(list, items.drop_last()), items.last())
    }
}

/// No two expressions of `list` have the same text.
pub open spec fn texts_unique(list: Seq<ExprView>) -> bool {
    forall|i: int, j: int| 0 <= i < j < list.len() ==> (#[trigger] list[i]).0 != (#[trigger] list[j]).0
}

/// Raw expressions parsed one by one and appended unless already there. The
/// list reached, and the first text that did not parse (merging stops there).
pub open spec fn merge_exprs_spec(list: Seq<ExprView>, items: Seq<Seq<char>>) -> (Seq<ExprView>, Option<Seq<char>>)
    decreases items.len(),
{
    if items.len() == 0 {
        (list, None)
    } else {
        let (acc, failed) = merge_exprs_spec(list, items.drop_last());
        if failed is Some {
            (acc, failed)
        } else {
            match parse_single_spec(items.last()) {
                Err(_) => (acc, Some(items.last())),
                Ok(e) => (append_unique(acc, e), None),
            }
        }
    }
}

/// Paths appended in turn unless already there.
pub open spec fn merge_files_spec(list: Seq<Seq<char>>, items: Seq<Seq<char>>) -> Seq<Seq<char>>
    decreases items.len(),
{
    if items.len() == 0 {
        list
    } else {
        let acc = merge_files_spec(list, items.drop_last());
        if acc.contains(items.last()) {
            acc
        } else {
            acc.push(items.last())
        }
    }
}

/// Appends each of `items` to `list` unless an equal path is there.
fn append_unique_paths(list: &mut Vec<String>, items: &Vec<String>)
    ensures
        strings_view(final(list)@) == merge_files_spec(strings_view(old(list)@), strings_view(items@)),
        strings_view(old(list)@).no_duplicates() ==> strings_view(final(list)@).no_duplicates(),
{
    let ghost start = strings_view(list@);
    let ghost iv = strings_view(items@);
    let mut i: usize = 0;
    while i < items.len()
        invariant
            i <= items@.len(),
            iv == strings_view(items@),
            start == strings_view(old(list)@),
            strings_view(list@) == merge_files_spec(start, iv.take(i as int)),
            start.no_duplicates() ==> strings_view(list@).no_duplicates(),
        decreases items@.len() - i,
    {
        let ghost before = strings_view(list@);
        proof {
            assert(iv.take(i + 1).drop_last() =~= iv.take(i as int));
        }
        let mut found = false;
        let mut k: usize = 0;
        while k < list.len()
            invariant
                k <= list@.len(),
                before == strings_view(list@),
                found == exists|m: int| 0 <= m < k && before[m] == iv[i as int],
                i < items@.len(),
                iv == strings_view(items@),
            decreases list@.len() - k,
        {
            proof {
                assert(before[k as int] == list@[k as int]@);
                assert(iv[i as int] == items@[i as int]@);
            }
            if list[k] == items[i] {
                found = true;
            }
            k = k + 1;
        }
        proof {
            assert(found == before.contains(iv[i as int]));
        }
        if !found {
            list.push(items[i].clone());
            proof {
                let after = strings_view(list@);
                assert(after =~= before.push(iv[i as int]));
                if before.no_duplicates() {
                    assert forall|p: int, q: int| 0 <= p < after.len() && 0 <= q < after.len() && p != q
                        implies after[p] != after[q] by {
                        if p == before.len() as int {
                            assert(before[q] == after[q]);
                        } else if q == before.len() as int {
                            assert(before[p] == after[p]);
                        }
                    }
                }
            }
        }
        i = i + 1;
    }
    proof {
        assert(iv.take(i as int) =~= iv);
    }
}

fn contains_text(list: &Vec<Expr>, e: &Expr) -> (r: bool)
    ensures
        r == has_text(exprs_view(list@), e@.0),
{
    let ghost v = exprs_view(list@);
    let mut i: usize = 0;
    while i < list.len()
        invariant
            i <= list@.len(),
            v == exprs_view(list@),
            forall|k: int| 0 <= k < i ==> (#[trigger] v[k]).0 != e@.0,
        decreases list@.len() - i,
    {
        if list[i].same_text(e) {
            assert(v[i as int].0 == e@.0);
            return true;
        }
        i = i + 1;
    }
    false
}

proof fn lemma_append_unique_keeps_unique(list: Seq<ExprView>, e: ExprView)
    requires
        texts_unique(list),
    ensures
        texts_unique(append_unique(list, e)),
{
    if !has_text(list, e.0) {
        let l2 = list.push(e);
        assert forall|i: int, j: int| 0 <= i < j < l2.len() implies (#[trigger] l2[i]).0 != (#[trigger] l2[j]).0 by {
            if j == list.len() {
                assert(list[i] == l2[i]);
            }
        }
    }
}

/// Appends each of `items` to `list` unless its text is already there.
fn append_unique_exprs(list: &mut Vec<Expr>, items: &Vec<Expr>)
    ensures
        exprs_view(final(list)@) == append_unique_all(exprs_view(old(list)@), exprs_view(items@)),
        texts_unique(exprs_view(old(list)@)) ==> texts_unique(exprs_view(final(list)@)),
{
    let ghost start = exprs_view(list@);
    let ghost iv = exprs_view(items@);
    let mut i: usize = 0;
    while i < items.len()
        invariant
            i <= items@.len(),
            iv == exprs_view(items@),
            exprs_view(list@) == append_unique_all(start, iv.take(i as int)),
            texts_unique(start) ==> texts_unique(exprs_view(list@)),
        decreases items@.len() - i,
    {
        let ghost before = exprs_view(list@);
        proof {
            assert(iv.take(i + 1).drop_last() =~= iv.take(i as int));
            if texts_unique(before) {
                lemma_append_unique_keeps_unique(before, iv[i as int]);
            }
        }
        if !contains_text(list, &items[i]) {
            list.push(items[i].clone());
            proof {
                assert(exprs_view(list@) =~= before.push(iv[i as int]));
            }
        }
        i = i + 1;
    }
    proof {
        assert(iv.take(i as int) =~= iv);
    }
}

/// Parses each raw item and appends it unless its text is already there;
/// stops at the first item that does not parse and returns its text.
fn merge_exprs(list: &mut Vec<Expr>, items: &Vec<String>) -> (r: Option<String>)
    ensures
        merge_exprs_spec(exprs_view(old(list)@), strings_view(items@)) == (exprs_view(final(list)@), opt_view(r)),
        texts_unique(exprs_view(old(list)@)) ==> texts_unique(exprs_view(final(list)@)),
{
    let ghost start = exprs_view(list@);
    let ghost iv = strings_view(items@);
    let mut i: usize = 0;
    while i < items.len()
        invariant
            i <= items@.len(),
            iv == strings_view(items@),
            start == exprs_view(old(list)@),
            merge_exprs_spec(start, iv.take(i as int)) == (exprs_view(list@), None::<Seq<char>>),
            texts_unique(start) ==> texts_unique(exprs_view(list@)),
        decreases items@.len() - i,
    {
        let ghost before = exprs_view(list@);
        proof {
            assert(iv.take(i + 1).drop_last() =~= iv.take(i as int));
        }
        match Expr::from_str(items[i].as_str()) {
            Err(_) => {
                let failed = items[i].clone();
                proof {
                    assert(iv[i as int] == items@[i as int]@);
                    assert(merge_exprs_spec(start, iv.take(i + 1)) == (before, Some(iv[i as int])));
                    lemma_merge_exprs_stops(start, iv, i + 1);
                }
                return Some(failed);
            },
            Ok(e) => {
                proof {
                    if texts_unique(before) {
                        lemma_append_unique_keeps_unique(before, e@);
                    }
                }
                if !contains_text(list, &e) {
                    list.push(e);
                    proof {
                        assert(exprs_view(list@) =~= before.push(e@));
                    }
                }
            },
        }
        i = i + 1;
    }
    proof {
        assert(iv.take(i as int) =~= iv);
    }
    None
}

proof fn lemma_merge_exprs_stops(list: Seq<ExprView>, items: Seq<Seq<char>>, n: int)
    requires
        0 <= n <= items.len(),
        merge_exprs_spec(list, items.take(n)).1 is Some,
    ensures
        merge_exprs_spec(list, items) == merge_exprs_spec(list, items.take(n)),
    decreases items.len() - n,
{
    if n < items.len() {
        assert(items.take(n + 1).drop_last() =~= items.take(n));
        lemma_merge_exprs_stops(list, items, n + 1);
    } else {
        assert(items.take(n) =~= items);
    }
}

fn clone_exprs(v: &Vec<Expr>) -> (r: Vec<Expr>)
    ensures
        exprs_view(r@) == exprs_view(v@),
{
    let mut r: Vec<Expr> = Vec::new();
    let mut i: usize = 0;
    while i < v.len()
        invariant
            i <= v@.len(),
            exprs_view(r@) =~= exprs_view(v@.take(i as int)),
        decreases v@.len() - i,
    {
        let c = v[i].clone();
        let ghost before = r@;
        r.push(c);
        proof {
            assert(v@.take(i + 1) =~= v@.take(i as int).push(v@[i as int]));
            assert(exprs_view(r@) =~= exprs_view(before).push(c@));
            assert(exprs_view(v@.take(i + 1)) =~= exprs_view(v@.take(i as int)).push(v@[i as int]@));
        }
        i = i + 1;
    }
    proof {
        assert(v@.take(i as int) =~= v@);
    }
    r
}

fn clone_strings(v: &Vec<String>) -> (r: Vec<String>)
    ensures
        strings_view(r@) == strings_view(v@),
{
    let mut r: Vec<String> = Vec::new();
    let mut i: usize = 0;
    while i < v.len()
        invariant
            i <= v@.len(),
            strings_view(r@) =~= strings_view(v@.take(i as int)),
        decreases v@.len() - i,
    {
        let c = v[i].clone();
        let ghost before = r@;
        r.push(c);
        proof {
            assert(v@.take(i + 1) =~= v@.take(i as int).push(v@[i as int]));
            assert(strings_view(r@) =~= strings_view(before).push(c@));
            assert(strings_view(v@.take(i + 1)) =~= strings_view(v@.take(i as int)).push(v@[i as int]@));
        }
        i = i + 1;
    }
    proof {
        assert(v@.take(i as int) =~= v@);
    }
    r
}

/// A field that takes at most one value: none, one, or an error.
pub open spec fn once_spec(m: RawView, name: Seq<char>) -> Result<Option<Seq<char>>, DirectiveErrorView> {
    match lookup(m, name) {
        None => Ok(None),
        Some(vs) => if vs.len() == 0 {
            Ok(None)
        } else if vs.len() == 1 {
            Ok(Some(vs[0]))
        } else {
            Err(DirectiveErrorView::DuplicateSingularDirective(name))
        },
    }
}

/// A list-of-expressions field: all its lines joined, read as list items.
pub open spec fn exprs_spec(m: RawView, name: Seq<char>) -> Result<Seq<ExprView>, DirectiveErrorView> {
    match lookup(m, name) {
        None => Ok(Seq::empty()),
        Some(lines) => match parse_as_list_spec(join_spaced(lines)) {
            Ok(v) => Ok(append_unique_all(Seq::empty(), v)),
            Err(_) => Err(DirectiveErrorView::ExpressionParseFailure(join_spaced(lines))),
        },
    }
}

/// A list-of-paths field: the words of all its lines, each path once, in
/// order of first appearance.
pub open spec fn files_spec(m: RawView, name: Seq<char>) -> Seq<Seq<char>> {
    match lookup(m, name) {
        None => Seq::empty(),
        Some(lines) => merge_files_spec(Seq::empty(), words(join_spaced(lines))),
    }
}

/// A single attribute-set expression field.
pub open spec fn attrset_spec(m: RawView, name: Seq<char>) -> Result<Option<ExprView>, DirectiveErrorView> {
    match once_spec(m, name) {
        Err(e) => Err(e),
        Ok(None) => Ok(None),
        Ok(Some(raw)) => match parse_single_spec(raw) {
            Err(_) => Err(DirectiveErrorView::ExpressionParseFailure(raw)),
            Ok(e) => if e.1 == NodeKind::AttrSet {
                Ok(Some(e))
            } else {
                Err(DirectiveErrorView::WrongExpressionShape(name, NodeKind::AttrSet, e.1))
            },
        },
    }
}

/// The configuration the raw fields describe, fields checked in a fixed order.
pub open spec fn from_raw_spec(m: RawView) -> Result<DirectivesView, DirectiveErrorView> {
    match once_spec(m, "build"@) {
        Err(e) => Err(e),
        Ok(build_command) => match once_spec(m, "buildRoot"@) {
            Err(e) => Err(e),
            Ok(build_root) => match exprs_spec(m, "buildInputs"@) {
                Err(e) => Err(e),
                Ok(build_inputs) => match once_spec(m, "interpreter"@) {
                    Err(e) => Err(e),
                    Ok(interpreter) => match exprs_spec(m, "runtimeInputs"@) {
                        Err(e) => Err(e),
                        Ok(runtime_inputs) => match attrset_spec(m, "nixpkgsConfig"@) {
                            Err(e) => Err(e),
                            Ok(nixpkgs_config) => Ok(DirectivesView {
                                build_command,
                                build_root,
                                build_inputs,
                                interpreter,
                                runtime_inputs,
                                runtime_files: files_spec(m, "runtimeFiles"@),
                                nixpkgs_config,
                                all: m,
                            }),
                        },
                    },
                },
            },
        },
    }
}

impl Directives {
    fn once(name: &str, fields: &RawDirectives) -> (r: Result<Option<String>, DirectiveError>)
        ensures
            match r {
                Ok(o) => once_spec(fields@, name@) == Ok::<Option<Seq<char>>, DirectiveErrorView>(opt_view(o)),
                Err(e) => once_spec(fields@, name@) == Err::<Option<Seq<char>>, DirectiveErrorView>(e@),
            },
    {
        match fields.get(name) {
            None => Ok(None),
            Some(values) => {
                if values.len() == 0 {
                    Ok(None)
                } else if values.len() == 1 {
                    Ok(Some(values[0].clone()))
                } else {
                    Err(DirectiveError::DuplicateSingularDirective(name.to_string()))
                }
            },
        }
    }

    fn exprs(name: &str, fields: &RawDirectives) -> (r: Result<Vec<Expr>, DirectiveError>)
        ensures
            match r {
                Ok(v) => exprs_spec(fields@, name@) == Ok::<Seq<ExprView>, DirectiveErrorView>(exprs_view(v@)),
                Err(e) => exprs_spec(fields@, name@) == Err::<Seq<ExprView>, DirectiveErrorView>(e@),
            },
            r matches Ok(v) ==> texts_unique(exprs_view(v@)),
    {
        match fields.get(name) {
            None => {
                let v: Vec<Expr> = Vec::new();
                proof {
                    assert(exprs_view(v@) =~= Seq::<ExprView>::empty());
                }
                Ok(v)
            },
            Some(lines) => {
                let joined = join_with_spaces(lines);
                match Expr::parse_as_list(joined.as_str()) {
                    Ok(v) => {
                        let mut unique: Vec<Expr> = Vec::new();
                        proof {
                            assert(exprs_view(unique@) =~= Seq::<ExprView>::empty());
                        }
                        append_unique_exprs(&mut unique, &v);
                        Ok(unique)
                    },
                    Err(_) => Err(DirectiveError::ExpressionParseFailure(joined)),
                }
            },
        }
    }

    fn files(name: &str, fields: &RawDirectives) -> (r: Vec<String>)
        ensures
            strings_view(r@) == files_spec(fields@, name@),
            strings_view(r@).no_duplicates(),
    {
        match fields.get(name) {
            None => {
                let v: Vec<String> = Vec::new();
                proof {
                    assert(strings_view(v@) =~= Seq::<Seq<char>>::empty());
                }
                v
            },
            Some(lines) => {
                let joined = join_with_spaces(lines);
                let words = split_words(joined.as_str());
                let mut unique: Vec<String> = Vec::new();
                proof {
                    assert(strings_view(unique@) =~= Seq::<Seq<char>>::empty());
                }
                append_unique_paths(&mut unique, &words);
                unique
            },
        }
    }

    fn once_attrset(name: &str, fields: &RawDirectives) -> (r: Result<Option<Expr>, DirectiveError>)
        ensures
            match r {
                Ok(o) => attrset_spec(fields@, name@) == Ok::<Option<ExprView>, DirectiveErrorView>(opt_expr_view(o)),
                Err(e) => attrset_spec(fields@, name@) == Err::<Option<ExprView>, DirectiveErrorView>(e@),
            },
    {
        match Self::once(name, fields) {
            Err(e) => Err(e),
            Ok(None) => Ok(None),
            Ok(Some(raw)) => match Expr::from_str(raw.as_str()) {
                Err(_) => Err(DirectiveError::ExpressionParseFailure(raw)),
                Ok(parsed) => {
                    let kind = parsed.kind();
                    if kind == NodeKind::AttrSet {
                        Ok(Some(parsed))
                    } else {
                        Err(DirectiveError::WrongExpressionShape(name.to_string(), NodeKind::AttrSet, kind))
                    }
                },
            },
        }
    }

    /// Builds the configuration from raw fields; every raw field is kept in `all`.
    pub fn from_directives(fields: RawDirectives) -> (r: Result<Directives, DirectiveError>)
        ensures
            match r {
                Ok(d) => from_raw_spec(fields@) == Ok::<DirectivesView, DirectiveErrorView>(d@),
                Err(e) => from_raw_spec(fields@) == Err::<DirectivesView, DirectiveErrorView>(e@),
            },
            fields.wf() ==> (r matches Ok(d) ==> d.wf()),
    {
        let build_command = match Self::once("build", &fields) {
            Ok(v) => v,
            Err(e) => return Err(e),
        };
        let build_root = match Self::once("buildRoot", &fields) {
            Ok(v) => v,
            Err(e) => return Err(e),
        };
        let build_inputs = match Self::exprs("buildInputs", &fields) {
            Ok(v) => v,
            Err(e) => return Err(e),
        };
        let interpreter = match Self::once("interpreter", &fields) {
            Ok(v) => v,
            Err(e) => return Err(e),
        };
        let runtime_inputs = match Self::exprs("runtimeInputs", &fields) {
            Ok(v) => v,
            Err(e) => return Err(e),
        };
        let runtime_files = Self::files("runtimeFiles", &fields);
        let nixpkgs_config = match Self::once_attrset("nixpkgsConfig", &fields) {
            Ok(v) => v,
            Err(e) => return Err(e),
        };
        let d = Directives {
            build_command,
            build_root,
            build_inputs,
            interpreter,
            runtime_inputs,
            runtime_files,
            nixpkgs_config,
            all: fields,
        };
        Ok(d)
    }

    /// A copy of the configuration.
    pub fn duplicate(&self) -> (r: Directives)
        ensures
            r@ == self@,
            self.wf() ==> r.wf(),
    {
        Directives {
            build_command: self.build_command.clone(),
            build_root: self.build_root.clone(),
            build_inputs: clone_exprs(&self.build_inputs),
            interpreter: self.interpreter.clone(),
            runtime_inputs: clone_exprs(&self.runtime_inputs),
            runtime_files: clone_strings(&self.runtime_files),
            nixpkgs_config: match &self.nixpkgs_config {
                Some(e) => Some(e.clone()),
                None => None,
            },
            all: self.all.duplicate(),
        }
    }

    /// Reads the directive lines of a script's source and builds the
    /// configuration they describe.
    pub fn parse(indicator: &str, source: &str) -> (r: Result<Directives, DirectiveError>)
        ensures
            match r {
                Ok(d) => from_raw_spec(extract_spec(source@, indicator@))
                    == Ok::<DirectivesView, DirectiveErrorView>(d@) && d.wf(),
                Err(e) => from_raw_spec(extract_spec(source@, indicator@))
                    == Err::<DirectivesView, DirectiveErrorView>(e@),
            },
    {
        let fields = extract_directives(indicator, source);
        Self::from_directives(fields)
    }

    /// Replaces the build command when a new one is given.
    pub fn maybe_override_build_command(&mut self, maybe_new: &Option<String>)
        ensures
            final(self)@ == (DirectivesView {
                build_command: if maybe_new is Some { opt_view(*maybe_new) } else { old(self)@.build_command },
                ..old(self)@
            }),
            old(self).wf() ==> final(self).wf(),
    {
        match maybe_new {
            Some(new) => {
                self.build_command = Some(new.clone());
            },
            None => {},
        }
    }

    /// Parses each raw item and adds it to the build inputs unless an equal
    /// expression is there; fails on the first item that does not parse.
    pub fn merge_build_inputs(&mut self, new: &Vec<String>) -> (r: Result<(), DirectiveError>)
        ensures
            final(self)@ == (DirectivesView {
                build_inputs: merge_exprs_spec(old(self)@.build_inputs, strings_view(new@)).0,
                ..old(self)@
            }),
            match r {
                Ok(_) => merge_exprs_spec(old(self)@.build_inputs, strings_view(new@)).1 is None,
                Err(e) => merge_exprs_spec(old(self)@.build_inputs, strings_view(new@)).1
                    == Some(e@->ExpressionParseFailure_0) && e@ is ExpressionParseFailure,
            },
            old(self).wf() ==> final(self).wf(),
    {
        match merge_exprs(&mut self.build_inputs, new) {
            None => Ok(()),
            Some(text) => Err(DirectiveError::ExpressionParseFailure(text)),
        }
    }

    /// Sets the interpreter.
    pub fn override_interpreter(&mut self, interpreter: &str)
        ensures
            final(self)@ == (DirectivesView { interpreter: Some(interpreter@), ..old(self)@ }),
            old(self).wf() ==> final(self).wf(),
    {
        self.interpreter = Some(interpreter.to_string());
    }

    /// Parses each raw item and adds it to the runtime inputs unless an equal
    /// expression is there; fails on the first item that does not parse.
    pub fn merge_runtime_inputs(&mut self, new: &Vec<String>) -> (r: Result<(), DirectiveError>)
        ensures
            final(self)@ == (DirectivesView {
                runtime_inputs: merge_exprs_spec(old(self)@.runtime_inputs, strings_view(new@)).0,
                ..old(self)@
            }),
            match r {
                Ok(_) => merge_exprs_spec(old(self)@.runtime_inputs, strings_view(new@)).1 is None,
                Err(e) => merge_exprs_spec(old(self)@.runtime_inputs, strings_view(new@)).1
                    == Some(e@->ExpressionParseFailure_0) && e@ is ExpressionParseFailure,
            },
            old(self).wf() ==> final(self).wf(),
    {
        match merge_exprs(&mut self.runtime_inputs, new) {
            None => Ok(()),
            Some(text) => Err(DirectiveError::ExpressionParseFailure(text)),
        }
    }

    /// Adds each path to the runtime files unless it is there already.
    pub fn merge_runtime_files(&mut self, new: &Vec<String>)
        ensures
            final(self)@ == (DirectivesView {
                runtime_files: merge_files_spec(old(self)@.runtime_files, strings_view(new@)),
                ..old(self)@
            }),
            old(self).wf() ==> final(self).wf(),
    {
        append_unique_paths(&mut self.runtime_files, new);
    }

    /// Sets the nixpkgs configuration, which must be an attribute set.
    pub fn override_nixpkgs_config(&mut self, expr: &Expr) -> (r: Result<(), DirectiveError>)
        ensures
            expr@.1 == NodeKind::AttrSet ==> r is Ok
                && final(self)@ == (DirectivesView { nixpkgs_config: Some(expr@), ..old(self)@ }),
            expr@.1 != NodeKind::AttrSet ==> final(self)@ == old(self)@ && r is Err
                && r->Err_0@ == DirectiveErrorView::WrongExpressionShape("nixpkgsConfig"@, NodeKind::AttrSet, expr@.1),
            old(self).wf() ==> final(self).wf(),
    {
        let kind = expr.kind();
        if kind == NodeKind::AttrSet {
            self.nixpkgs_config = Some(expr.clone());
            Ok(())
        } else {
            Err(DirectiveError::WrongExpressionShape("nixpkgsConfig".to_string(), NodeKind::AttrSet, kind))
        }
    }

    /// The expression lists hold no two equal expressions, the runtime files
    /// no two equal paths, and the raw
    /// fields are keyed by distinct names.
    pub open spec fn wf(&self) -> bool {
        &&& texts_unique(self@.build_inputs)
        &&& texts_unique(self@.runtime_inputs)
        &&& self@.runtime_files.no_duplicates()
        &&& self.all.wf()
    }
}

} // verus!
