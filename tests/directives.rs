use nix_script::directives::{DirectiveError, Directives};
use nix_script::expr::Expr;
use nix_script::raw::RawDirectives;
use nix_script::resolve::{choose_build_root, resolve, BuildRoot, Overrides};
use nix_script::syntax::NodeKind;

fn raw(pairs: &[(&str, Vec<&str>)]) -> RawDirectives {
    let mut r = RawDirectives::new();
    for (name, values) in pairs {
        for v in values {
            r.add(name, v);
        }
    }
    r
}

fn from_pairs(pairs: &[(&str, Vec<&str>)]) -> Result<Directives, DirectiveError> {
    Directives::from_directives(raw(pairs))
}

fn empty() -> Directives {
    Directives::from_directives(RawDirectives::new()).unwrap()
}

fn texts(v: &[Expr]) -> Vec<String> {
    v.iter().map(|e| e.to_string()).collect()
}

#[test]
fn only_one_build_command_allowed() {
    let problem = from_pairs(&[("build", vec!["a", "b"])]).unwrap_err();

    assert!(problem.to_string().contains("multiple `build` directives"),)
}

#[test]
fn combines_build_inputs() {
    let directives = from_pairs(&[("buildInputs", vec!["a b", "c d"])]).unwrap();

    let expected: Vec<Expr> = vec![
        Expr::from_str("a").unwrap(),
        Expr::from_str("b").unwrap(),
        Expr::from_str("c").unwrap(),
        Expr::from_str("d").unwrap(),
    ];

    assert_eq!(expected, directives.build_inputs);
}

#[test]
fn only_one_interpreter_allowed() {
    let problem = from_pairs(&[("interpreter", vec!["a", "b"])]).unwrap_err();

    assert!(problem.to_string().contains("multiple `interpreter` directives"))
}

#[test]
fn combines_runtime_inputs() {
    let directives = from_pairs(&[("runtimeInputs", vec!["a b", "c d"])]).unwrap();

    let expected: Vec<Expr> = vec![
        Expr::from_str("a").unwrap(),
        Expr::from_str("b").unwrap(),
        Expr::from_str("c").unwrap(),
        Expr::from_str("d").unwrap(),
    ];

    assert_eq!(expected, directives.runtime_inputs);
}

#[test]
fn only_one_build_root_allowed() {
    let problem = from_pairs(&[("buildRoot", vec!["a", "b"])]).unwrap_err();

    assert!(problem.to_string().contains("multiple `buildRoot` directives"))
}

#[test]
fn sets_root() {
    let directives = from_pairs(&[("buildRoot", vec!["."])]).unwrap();

    assert_eq!(Some(".".to_string()), directives.build_root)
}

#[test]
fn combines_runtime_files() {
    let directives = from_pairs(&[("runtimeFiles", vec!["a b", "c d"])]).unwrap();

    let expected = vec!["a".to_string(), "b".to_string(), "c".to_string(), "d".to_string()];

    assert_eq!(expected, directives.runtime_files);
}

#[test]
fn includes_others_raw() {
    let directives = from_pairs(&[("other", vec!["other"])]).unwrap();

    assert_eq!(Some(&vec!["other".to_string()]), directives.all.get("other"))
}

#[test]
fn only_one_nixpkgs_options_allowed() {
    let problem = from_pairs(&[("nixpkgsConfig", vec!["{}", "{}"])]).unwrap_err();

    assert!(problem.to_string().contains("multiple `nixpkgsConfig` directives"))
}

#[test]
fn nixpkgs_options_must_be_a_attrset() {
    let problem = from_pairs(&[("nixpkgsConfig", vec!["1"])]).unwrap_err();

    assert!(problem.to_string().contains("`nixpkgsConfig` directive"),)
}

#[test]
fn nixpkgs_options_takes_an_attrset() {
    let options = "{ system = \"x86_64-darwin\"; }";
    let directives = from_pairs(&[("nixpkgsConfig", vec![options])]).unwrap();

    assert_eq!(Some(options.to_string()), directives.nixpkgs_config.map(|o| o.to_string()),)
}

fn assert_have_different_hashes(l: Directives, r: Directives) {
    println!("l: {}, r: {}", l.fingerprint(), r.fingerprint());
    assert!(l.fingerprint() != r.fingerprint())
}

#[test]
fn build_command_changes_hash() {
    assert_have_different_hashes(
        from_pairs(&[("build", vec!["a"])]).unwrap(),
        from_pairs(&[("build", vec!["b"])]).unwrap(),
    )
}

#[test]
fn build_inputs_changes_hash() {
    assert_have_different_hashes(
        from_pairs(&[("buildInputs", vec!["a"])]).unwrap(),
        from_pairs(&[("buildInputs", vec!["b"])]).unwrap(),
    )
}

#[test]
fn interpreter_changes_hash() {
    assert_have_different_hashes(
        from_pairs(&[("interpreter", vec!["a"])]).unwrap(),
        from_pairs(&[("interpreter", vec!["b"])]).unwrap(),
    )
}

#[test]
fn runtime_inputs_changes_hash() {
    assert_have_different_hashes(
        from_pairs(&[("runtimeInputs", vec!["a"])]).unwrap(),
        from_pairs(&[("runtimeInputs", vec!["b"])]).unwrap(),
    )
}

#[test]
fn root_changes_hash() {
    assert_have_different_hashes(
        from_pairs(&[("buildRoot", vec!["a"])]).unwrap(),
        from_pairs(&[("buildRoot", vec!["b"])]).unwrap(),
    )
}

#[test]
fn runtime_files_change_hash() {
    assert_have_different_hashes(
        from_pairs(&[("runtimeFiles", vec!["a"])]).unwrap(),
        from_pairs(&[("runtimeFiles", vec!["b"])]).unwrap(),
    )
}

#[test]
fn nixpkgs_config_changes_hash() {
    assert_have_different_hashes(
        from_pairs(&[("nixpkgsConfig", vec!["{ system = \"x86_64-darwin\"; }"])]).unwrap(),
        from_pairs(&[("nixpkgsConfig", vec!["{ system = \"aarch64-darwin\"; }"])]).unwrap(),
    )
}

#[test]
fn duplicate_build_reports_field() {
    match from_pairs(&[("build", vec!["a", "b"])]) {
        Err(DirectiveError::DuplicateSingularDirective(name)) => assert_eq!("build", name),
        other => panic!("unexpected: {:?}", other.map(|_| ())),
    }
}

#[test]
fn nixpkgs_config_of_wrong_shape() {
    match from_pairs(&[("nixpkgsConfig", vec!["1"])]) {
        Err(DirectiveError::WrongExpressionShape(name, expected, kind)) => {
            assert_eq!("nixpkgsConfig", name);
            assert_eq!(NodeKind::AttrSet, expected);
            assert_eq!(NodeKind::Literal, kind);
        }
        other => panic!("unexpected: {:?}", other.map(|_| ())),
    }
}

#[test]
fn nixpkgs_config_that_does_not_parse() {
    match from_pairs(&[("nixpkgsConfig", vec!["{"])]) {
        Err(DirectiveError::ExpressionParseFailure(text)) => assert_eq!("{", text),
        other => panic!("unexpected: {:?}", other.map(|_| ())),
    }
}

#[test]
fn build_inputs_that_do_not_parse() {
    match from_pairs(&[("buildInputs", vec!["a", "]"])]) {
        Err(DirectiveError::ExpressionParseFailure(text)) => assert_eq!("a ]", text),
        other => panic!("unexpected: {:?}", other.map(|_| ())),
    }
}

#[test]
fn list_fields_deduplicate_when_parsed() {
    let d = from_pairs(&[("buildInputs", vec!["a b", "a c"])]).unwrap();
    assert_eq!(vec!["a", "b", "c"], texts(&d.build_inputs));
}

#[test]
fn empty_raw_fields_give_empty_directives() {
    let d = empty();
    assert_eq!(None, d.build_command);
    assert_eq!(None, d.build_root);
    assert_eq!(None, d.interpreter);
    assert!(d.build_inputs.is_empty());
    assert!(d.runtime_inputs.is_empty());
    assert!(d.runtime_files.is_empty());
    assert!(d.nixpkgs_config.is_none());
    assert_eq!(0, d.all.len());
}

#[test]
fn merging_build_inputs_deduplicates_in_order() {
    let mut d = empty();
    d.merge_build_inputs(&vec!["a".to_string(), "a".to_string(), "b".to_string()]).unwrap();
    assert_eq!(vec!["a", "b"], texts(&d.build_inputs));
}

#[test]
fn merging_is_idempotent() {
    let mut d = from_pairs(&[("runtimeInputs", vec!["a"]), ("runtimeFiles", vec!["x"])]).unwrap();
    let items = vec!["a".to_string(), "(b)".to_string()];
    d.merge_runtime_inputs(&items).unwrap();
    d.merge_runtime_inputs(&items).unwrap();
    assert_eq!(vec!["a", "b"], texts(&d.runtime_inputs));
    let files = vec!["x".to_string(), "y".to_string()];
    d.merge_runtime_files(&files);
    d.merge_runtime_files(&files);
    assert_eq!(vec!["x".to_string(), "y".to_string()], d.runtime_files);
}

#[test]
fn merging_stops_at_unparsable_input() {
    let mut d = empty();
    let err = d
        .merge_build_inputs(&vec!["a".to_string(), "[".to_string(), "b".to_string()])
        .unwrap_err();
    match err {
        DirectiveError::ExpressionParseFailure(text) => assert_eq!("[", text),
        other => panic!("unexpected: {:?}", other),
    }
    assert_eq!(vec!["a"], texts(&d.build_inputs));
}

#[test]
fn overrides_replace_singular_fields() {
    let mut d = from_pairs(&[("build", vec!["make"]), ("interpreter", vec!["bash"])]).unwrap();
    d.maybe_override_build_command(&None);
    assert_eq!(Some("make".to_string()), d.build_command);
    d.maybe_override_build_command(&Some("cc".to_string()));
    assert_eq!(Some("cc".to_string()), d.build_command);
    d.override_interpreter("python3");
    assert_eq!(Some("python3".to_string()), d.interpreter);
}

#[test]
fn nixpkgs_config_override_must_be_attrset() {
    let mut d = empty();
    let bad = Expr::from_str("[ 1 ]").unwrap();
    match d.override_nixpkgs_config(&bad) {
        Err(DirectiveError::WrongExpressionShape(_, _, kind)) => assert_eq!(NodeKind::List, kind),
        other => panic!("unexpected: {:?}", other),
    }
    assert!(d.nixpkgs_config.is_none());
    let good = Expr::from_str("{ allowUnfree = true; }").unwrap();
    d.override_nixpkgs_config(&good).unwrap();
    assert_eq!(Some("{ allowUnfree = true; }".to_string()), d.nixpkgs_config.map(|e| e.to_string()));
}

#[test]
fn fingerprint_text_follows_field_order() {
    let d = from_pairs(&[
        ("nixpkgsConfig", vec!["{ }"]),
        ("runtimeFiles", vec!["f g"]),
        ("buildRoot", vec!["r"]),
        ("runtimeInputs", vec!["ri"]),
        ("interpreter", vec!["i"]),
        ("buildInputs", vec!["b1 b2"]),
        ("build", vec!["c"]),
    ])
    .unwrap();
    assert_eq!("cb1b2irirfg{ }", d.fingerprint_text());
}

#[test]
fn absent_and_empty_fields_hash_alike() {
    let a = empty();
    let b = from_pairs(&[("buildInputs", vec![""])]).unwrap();
    assert_eq!(a.fingerprint(), b.fingerprint());
}

#[test]
fn fingerprint_is_fnv1a_of_text() {
    let d = from_pairs(&[("build", vec!["a"])]).unwrap();
    assert_eq!(0xaf63dc4c8601ec8c, d.fingerprint());
    assert_eq!(0xcbf29ce484222325, empty().fingerprint());
}

#[test]
fn parse_reads_directive_lines() {
    let source = "#!/usr/bin/env nix-script\n#!build cc -o $OUT $SRC\n#!buildInputs gcc\n#!buildInputs (gnumake)\n#!haskellPackages text\necho hi\n";
    let d = Directives::parse("#!", source).unwrap();
    assert_eq!(Some("cc -o $OUT $SRC".to_string()), d.build_command);
    assert_eq!(vec!["gcc", "gnumake"], texts(&d.build_inputs));
    assert_eq!(Some(&vec!["text".to_string()]), d.all.get("haskellPackages"));
    assert_eq!(None, d.all.get("/usr/bin/env"));
}

#[test]
fn error_message_text() {
    let e = DirectiveError::WrongExpressionShape("nixpkgsConfig".to_string(), NodeKind::AttrSet, NodeKind::Literal);
    assert_eq!("`nixpkgsConfig` directive should be of kind `attribute set` but is of kind `literal`", e.to_string());
    let e = DirectiveError::ExpressionParseFailure("[".to_string());
    assert_eq!("could not parse `[` as a Nix expression", e.to_string());
}

#[test]
fn haskell_commands_from_directives() {
    let d = Directives::parse("#!", "#!haskellPackages text\n#!haskellPackages aeson\n#!ghcFlags -O2\n").unwrap();
    assert_eq!("mv $SRC $SRC.hs; ghc -O2 -o $OUT $SRC.hs", nix_script::haskell::haskell_build_command(&d.all));
    assert_eq!(
        "haskellPackages.ghcWithPackages (ps: with ps; [ text aeson ])",
        nix_script::haskell::haskell_compiler(&d.all)
    );
    let none = RawDirectives::new();
    assert_eq!("mv $SRC $SRC.hs; ghc  -o $OUT $SRC.hs", nix_script::haskell::haskell_build_command(&none));
}

#[test]
fn resolve_merges_overrides_without_touching_parsed() {
    let parsed = Directives::parse("#!", "#!build make\n#!buildInputs gcc\n#!runtimeFiles data.txt\n").unwrap();
    let overrides = Overrides {
        build_command: Some("cc".to_string()),
        build_inputs: vec!["gcc".to_string(), "zlib".to_string()],
        interpreter: Some("bash".to_string()),
        runtime_inputs: vec!["jq".to_string()],
        runtime_files: vec!["data.txt".to_string(), "more.txt".to_string()],
        nixpkgs_config: Some(Expr::from_str("{ }").unwrap()),
    };
    let resolved = resolve(&parsed, &overrides).unwrap();
    assert_eq!(Some("cc".to_string()), resolved.build_command);
    assert_eq!(vec!["gcc", "zlib"], texts(&resolved.build_inputs));
    assert_eq!(Some("bash".to_string()), resolved.interpreter);
    assert_eq!(vec!["jq"], texts(&resolved.runtime_inputs));
    assert_eq!(vec!["data.txt".to_string(), "more.txt".to_string()], resolved.runtime_files);
    assert_eq!(Some("{ }".to_string()), resolved.nixpkgs_config.map(|e| e.to_string()));
    assert_eq!(Some("make".to_string()), parsed.build_command);
    assert_eq!(vec!["gcc"], texts(&parsed.build_inputs));
}

#[test]
fn resolve_rejects_bad_overrides() {
    let parsed = empty();
    let overrides = Overrides {
        build_command: None,
        build_inputs: vec![],
        interpreter: None,
        runtime_inputs: vec!["(".to_string()],
        runtime_files: vec![],
        nixpkgs_config: None,
    };
    match resolve(&parsed, &overrides) {
        Err(DirectiveError::ExpressionParseFailure(text)) => assert_eq!("(", text),
        other => panic!("unexpected: {:?}", other.map(|_| ())),
    }
}

#[test]
fn build_root_choice() {
    let with_root = from_pairs(&[("buildRoot", vec!["src"])]).unwrap();
    let plain = empty();
    let with_files = from_pairs(&[("runtimeFiles", vec!["f"])]).unwrap();
    assert_eq!(BuildRoot::Given("x".to_string()), choose_build_root(&Some("x".to_string()), &with_root, &vec![]));
    assert_eq!(BuildRoot::FromDirective("src".to_string()), choose_build_root(&None, &with_root, &vec![]));
    assert_eq!(BuildRoot::ScriptDirectory, choose_build_root(&None, &with_files, &vec![]));
    assert_eq!(BuildRoot::ScriptDirectory, choose_build_root(&None, &plain, &vec!["f".to_string()]));
    assert_eq!(BuildRoot::Isolated, choose_build_root(&None, &plain, &vec![]));
}

#[test]
fn runtime_files_are_unique_when_parsed() {
    let d = from_pairs(&[("runtimeFiles", vec!["a a b", "b c a"])]).unwrap();
    assert_eq!(vec!["a".to_string(), "b".to_string(), "c".to_string()], d.runtime_files);
}

#[test]
fn runtime_files_split_on_any_whitespace() {
    let d = from_pairs(&[("runtimeFiles", vec!["a\u{c}b\u{b}c\u{3000}d\u{a0}e"])]).unwrap();
    let expected: Vec<String> = ["a", "b", "c", "d", "e"].iter().map(|s| s.to_string()).collect();
    assert_eq!(expected, d.runtime_files);
}

#[test]
fn equal_expressions_hash_alike() {
    let a = Expr::from_str("(pkgs.hello)").unwrap();
    let b = Expr::from_str("pkgs.hello").unwrap();
    let c = Expr::from_str("pkgs.jq").unwrap();
    assert_eq!(a.text_hash(), b.text_hash());
    assert_ne!(a.text_hash(), c.text_hash());
    assert_eq!(0xaf63dc4c8601ec8c, Expr::from_str("a").unwrap().text_hash());
}
