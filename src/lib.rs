//! A rule-based lint engine for smart-contract packages: detectors walk the
//! tree stages of a compiled package and report located, deduplicated
//! findings.
use vstd::prelude::*;

pub mod ast;
pub mod detector;
pub mod detectors;
pub mod file;
pub mod issue;
pub mod lint;
pub mod named;
pub mod rules;
pub mod scan;
pub mod text;
pub mod typed;
pub mod visitor;

use crate::ast::PackageAst;
use crate::detector::LintError;
use crate::detectors::default_registry;
use crate::issue::Issues;
use crate::lint::{lint_outcome, LintConfig};

verus! {

/// Runs the default registry over `ast`: the findings, or the failure.
pub fn move_lint(config: LintConfig, ast: &PackageAst) -> (r: Result<Issues, LintError>)
    ensures
        match lint_outcome(default_registry(), Seq::empty(), *ast) {
            Ok(s) => r matches Ok(i) && i@ == s,
            Err(e) => r matches Err(x) && x == e,
        },
{
    match lint::main(config, ast, None) {
        Ok(c) => Ok(c.issues),
        Err(e) => Err(e),
    }
}

} // verus!
