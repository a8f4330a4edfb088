use nix_script::extract::{directive_of_line, extract_directives};
use nix_script::raw::RawDirectives;
use nix_script::text::{join_with_spaces, split_words};

#[test]
fn directive_line_parts() {
    assert_eq!(
        Some(("build".to_string(), "make all".to_string())),
        directive_of_line("#!build make all", "#!")
    );
    assert_eq!(
        Some(("build".to_string(), "x".to_string())),
        directive_of_line("#!build \t x\r", "#!")
    );
}

#[test]
fn non_directive_lines() {
    assert_eq!(None, directive_of_line("# build x", "#!"));
    assert_eq!(None, directive_of_line("#!build", "#!"));
    assert_eq!(None, directive_of_line("#!build ", "#!"));
    assert_eq!(None, directive_of_line("#!/bin/sh x", "#!"));
    assert_eq!(None, directive_of_line("#", "#!"));
}

#[test]
fn values_grouped_in_encounter_order() {
    let r = extract_directives("//", "//a 1\n//b 2\nx\n// a 9\n//a 3\n//a 1");
    assert_eq!(2, r.len());
    assert_eq!("a", r.field(0).name);
    assert_eq!(vec!["1".to_string(), "3".to_string(), "1".to_string()], r.field(0).values);
    assert_eq!("b", r.field(1).name);
    assert_eq!(Some(&vec!["2".to_string()]), r.get("b"));
}

#[test]
fn nothing_in_empty_source() {
    assert_eq!(0, extract_directives("#!", "").len());
}

#[test]
fn raw_add_keeps_names_unique() {
    let mut r = RawDirectives::new();
    r.add("x", "1");
    r.add("y", "2");
    r.add("x", "3");
    assert_eq!(2, r.len());
    assert_eq!(Some(&vec!["1".to_string(), "3".to_string()]), r.get("x"));
    assert_eq!(None, r.get("z"));
}

#[test]
fn join_and_split() {
    let lines = vec!["a b".to_string(), "".to_string(), "c".to_string()];
    assert_eq!("a b  c", join_with_spaces(&lines));
    assert_eq!(vec!["a", "b", "c"], split_words(" a\tb  c "));
    assert!(split_words("   ").is_empty());
    assert_eq!(vec!["a", "b"], split_words("a\u{c}b\u{2028}"));
}
