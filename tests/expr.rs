use nix_script::expr::{Expr, ExprError};
use nix_script::syntax::{
    NodeKind, SyntaxNodeInfo, NODE_APPLY, NODE_IDENT, NODE_LIST, NODE_PAREN, NODE_ROOT,
};

#[test]
fn equal_if_raw_is_equal() {
    assert_eq!(Expr::from_str("a").unwrap(), Expr::from_str("a").unwrap())
}

#[test]
fn unequal_if_raw_is_unequal() {
    assert!(Expr::from_str("a").unwrap() != Expr::from_str("b").unwrap())
}

#[test]
fn accepts_valid() {
    assert!(Expr::from_str("a").is_ok())
}

#[test]
fn rejects_invalid() {
    assert!(Expr::from_str("[").is_err())
}

#[test]
fn unwraps_root() {
    assert_eq!(NodeKind::Ident, Expr::from_str("a").unwrap().kind())
}

#[test]
fn unwraps_parens() {
    assert_eq!(NodeKind::Ident, Expr::from_str("(a)").unwrap().kind())
}

#[test]
fn unwraps_all_parens() {
    assert_eq!(NodeKind::Ident, Expr::from_str("((a))").unwrap().kind())
}

#[test]
fn single_item() {
    let parsed = Expr::parse_as_list("a").unwrap();

    assert_eq!(1, parsed.len());
    assert_eq!("a", parsed[0].as_str());
}

#[test]
fn multiple_items() {
    let parsed = Expr::parse_as_list("a b").unwrap();

    assert_eq!(2, parsed.len());
    assert_eq!("a", parsed[0].as_str());
    assert_eq!("b", parsed[1].as_str());
}

#[test]
fn ident_yes() {
    let parsed = Expr::from_str("a").unwrap();
    assert!(parsed.is_leaf());
}

#[test]
fn apply_no() {
    let parsed = Expr::from_str("haskellPackages.ghcWithPackages (ps: [ ps.text ])").unwrap();
    assert!(!parsed.is_leaf());
}

#[test]
fn same_as_node() {
    let parsed = Expr::from_str("a b c").unwrap();
    assert_eq!(parsed.to_string(), "a b c");
}

#[test]
fn parens_unwrap_to_the_same_text() {
    let plain = Expr::from_str("pkgs.hello").unwrap();
    for wrapped in ["(pkgs.hello)", "((pkgs.hello))", "(((pkgs.hello)))"] {
        let e = Expr::from_str(wrapped).unwrap();
        assert_eq!(plain, e);
        assert_eq!("pkgs.hello", e.as_str());
        assert_eq!(plain.kind(), e.kind());
    }
}

#[test]
fn inner_parens_are_kept() {
    let e = Expr::from_str("f (a)").unwrap();
    assert_eq!("f (a)", e.as_str());
    assert_eq!(NodeKind::Apply, e.kind());
}

#[test]
fn list_items_match_single_parses() {
    let list = Expr::parse_as_list("a b").unwrap();
    let expected = vec![Expr::parse_single("a").unwrap(), Expr::parse_single("b").unwrap()];
    assert_eq!(expected, list);
    let one = Expr::parse_as_list("a").unwrap();
    assert_eq!(vec![Expr::parse_single("a").unwrap()], one);
}

#[test]
fn list_items_unwrap_parens() {
    let list = Expr::parse_as_list("(a) (f x) [ b ]").unwrap();
    let texts: Vec<&str> = list.iter().map(|e| e.as_str()).collect();
    assert_eq!(vec!["a", "f x", "[ b ]"], texts);
    assert_eq!(NodeKind::Ident, list[0].kind());
    assert_eq!(NodeKind::Apply, list[1].kind());
    assert_eq!(NodeKind::List, list[2].kind());
}

#[test]
fn empty_list_source() {
    assert_eq!(0, Expr::parse_as_list("").unwrap().len());
}

#[test]
fn list_rejects_malformed() {
    assert_eq!(Err(ExprError::ParseFailure), Expr::parse_as_list("a ]").map(|v| v.len()));
}

#[test]
fn list_that_is_not_a_single_list() {
    assert_eq!(Err(ExprError::NotAList), Expr::parse_as_list("a ] ++ [ b").map(|v| v.len()));
}

#[test]
fn empty_text_is_no_expression() {
    assert!(Expr::from_str("").is_err());
}

#[test]
fn kinds_are_classified() {
    assert_eq!(NodeKind::AttrSet, Expr::from_str("{ a = 1; }").unwrap().kind());
    assert_eq!(NodeKind::Literal, Expr::from_str("1").unwrap().kind());
    assert_eq!(NodeKind::Literal, Expr::from_str("\"s\"").unwrap().kind());
    assert_eq!(NodeKind::List, Expr::from_str("[ a ]").unwrap().kind());
    assert_eq!(NodeKind::Other, Expr::from_str("a.b").unwrap().kind());
}

#[test]
fn whitespace_differences_are_not_equal() {
    assert!(Expr::from_str("f  x").unwrap() != Expr::from_str("f x").unwrap());
}

#[test]
fn error_messages() {
    assert_eq!("could not parse Nix expression", ExprError::ParseFailure.message());
    assert_eq!("could not get back expression as list", ExprError::NotAList.message());
}

fn node(kind: u16, text: &str, depth: usize) -> SyntaxNodeInfo {
    SyntaxNodeInfo { kind, text: text.to_string(), depth }
}

#[test]
fn single_from_nodes_unwraps_parens() {
    let nodes = vec![
        node(NODE_ROOT, " ((a)) ", 1),
        node(NODE_PAREN, "((a))", 2),
        node(NODE_PAREN, "(a)", 3),
        node(NODE_IDENT, "a", 4),
    ];
    let e = Expr::single_from_nodes(&nodes).unwrap();
    assert_eq!("a", e.as_str());
    assert_eq!(NodeKind::Ident, e.kind());
    assert_eq!(Err(ExprError::ParseFailure), Expr::single_from_nodes(&vec![node(NODE_ROOT, "", 1)]).map(|e| e.to_string()));
}

#[test]
fn list_from_nodes_takes_direct_children() {
    let nodes = vec![
        node(NODE_ROOT, "[a (f x)]", 1),
        node(NODE_LIST, "[a (f x)]", 2),
        node(NODE_IDENT, "a", 3),
        node(NODE_PAREN, "(f x)", 3),
        node(NODE_APPLY, "f x", 4),
        node(NODE_IDENT, "f", 5),
        node(NODE_IDENT, "x", 5),
    ];
    let items = Expr::list_from_nodes(&nodes).unwrap();
    let texts: Vec<&str> = items.iter().map(|e| e.as_str()).collect();
    assert_eq!(vec!["a", "f x"], texts);
    let not_list = vec![node(NODE_ROOT, "a", 1), node(NODE_IDENT, "a", 2)];
    assert_eq!(Err(ExprError::NotAList), Expr::list_from_nodes(&not_list).map(|v| v.len()));
}
