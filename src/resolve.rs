//! The caller's overrides, and how they are merged into the directives read
//! from a script, after the file-only snapshot has been taken.

use vstd::prelude::*;
use crate::directives::{
    merge_exprs_spec, merge_files_spec, opt_view, DirectiveError, DirectiveErrorView, Directives,
    DirectivesView,
};
use crate::expr::{Expr, ExprView};
use crate::syntax::NodeKind;
use crate::text::strings_view;

verus! {

/// Values given by the caller, each shaped like its directive.
#[derive(Debug)]
pub struct Overrides {
    pub build_command: Option<String>,
    pub build_inputs: Vec<String>,
    pub interpreter: Option<String>,
    pub runtime_inputs: Vec<String>,
    pub runtime_files: Vec<String>,
    pub nixpkgs_config: Option<Expr>,
}

/// Singular fields are replaced by a given value; list fields get the given
/// items appended unless already there; a given nixpkgs configuration must be
/// an attribute set. Build inputs are merged before runtime inputs, and the
/// first failure ends the merge.
pub open spec fn resolve_spec(d: DirectivesView, o: Overrides) -> Result<DirectivesView, DirectiveErrorView> {
    let d1 = DirectivesView {
        build_command: if o.build_command is Some { opt_view(o.build_command) } else { d.build_command },
        ..d
    };
    let (bi, bi_failed) = merge_exprs_spec(d1.build_inputs, strings_view(o.build_inputs@));
    if bi_failed is Some {
        Err(DirectiveErrorView::ExpressionParseFailure(bi_failed->Some_0))
    } else {
        let d2 = DirectivesView {
            build_inputs: bi,
            interpreter: if o.interpreter is Some { opt_view(o.interpreter) } else { d1.interpreter },
            ..d1
        };
        let (ri, ri_failed) = merge_exprs_spec(d2.runtime_inputs, strings_view(o.runtime_inputs@));
        if ri_failed is Some {
            Err(DirectiveErrorView::ExpressionParseFailure(ri_failed->Some_0))
        } else {
            let d3 = DirectivesView {
                runtime_inputs: ri,
                runtime_files: merge_files_spec(d2.runtime_files, strings_view(o.runtime_files@)),
                ..d2
            };
            match o.nixpkgs_config {
                None => Ok(d3),
                Some(e) => if e@.1 == NodeKind::AttrSet {
                    Ok(DirectivesView { nixpkgs_config: Some(e@), ..d3 })
                } else {
                    Err(DirectiveErrorView::WrongExpressionShape("nixpkgsConfig"@, NodeKind::AttrSet, e@.1))
                },
            }
        }
    }
}

/// The resolved configuration: `parsed` with the overrides merged in.
/// `parsed` itself is left as it was read.
pub fn resolve(parsed: &Directives, overrides: &Overrides) -> (r: Result<Directives, DirectiveError>)
    ensures
        match r {
            Ok(d) => resolve_spec(parsed@, *overrides) == Ok::<DirectivesView, DirectiveErrorView>(d@)
                && (parsed.wf() ==> d.wf()),
            Err(e) => resolve_spec(parsed@, *overrides) == Err::<DirectivesView, DirectiveErrorView>(e@),
        },
{
    let mut d = parsed.duplicate();
    d.maybe_override_build_command(&overrides.build_command);
    match d.merge_build_inputs(&overrides.build_inputs) {
        Ok(_) => {},
        Err(e) => return Err(e),
    }
    match &overrides.interpreter {
        Some(i) => d.override_interpreter(i.as_str()),
        None => {},
    }
    match d.merge_runtime_inputs(&overrides.runtime_inputs) {
        Ok(_) => {},
        Err(e) => return Err(e),
    }
    d.merge_runtime_files(&overrides.runtime_files);
    match &overrides.nixpkgs_config {
        Some(e) => match d.override_nixpkgs_config(e) {
            Ok(_) => {},
            Err(err) => return Err(err),
        },
        None => {},
    }
    Ok(d)
}

/// Where the build takes place.
#[derive(Debug, Clone, PartialEq, Eq)]
pub enum BuildRoot {
    /// The root given by the caller.
    Given(String),
    /// The `buildRoot` directive, relative to the script's directory.
    FromDirective(String),
    /// The script's own directory, assumed because runtime files were asked for.
    ScriptDirectory,
    /// No root: the script is built alone.
    Isolated,
}

/// The caller's root wins over the directive's; without either, runtime
/// files make the script's directory the root.
pub fn choose_build_root(given: &Option<String>, directives: &Directives, caller_files: &Vec<String>) -> (r: BuildRoot)
    ensures
        given is Some ==> r == BuildRoot::Given(given->Some_0),
        given is None && directives.build_root is Some ==> r == BuildRoot::FromDirective(directives.build_root->Some_0),
        given is None && directives.build_root is None ==> (r == if caller_files@.len() > 0 || directives.runtime_files@.len() > 0 {
            BuildRoot::ScriptDirectory
        } else {
            BuildRoot::Isolated
        }),
{
    match given {
        Some(g) => BuildRoot::Given(g.clone()),
        None => match &directives.build_root {
            Some(root) => BuildRoot::FromDirective(root.clone()),
            None => if caller_files.len() > 0 || directives.runtime_files.len() > 0 {
                BuildRoot::ScriptDirectory
            } else {
                BuildRoot::Isolated
            },
        },
    }
}

} // verus!
