//! A lint pass: a registry of detectors run in order over one package.
use vstd::prelude::*;
use crate::ast::PackageAst;
use crate::detector::{detect_outcome, DetectorView, LintError};
use crate::detectors::{default_registry, Detectors};
use crate::issue::{IssueView, Issues};

verus! {

/// Options of a lint pass.
#[derive(Clone, Copy, Debug, Default, PartialEq, Eq, Structural)]
pub struct LintConfig {}

/// The state of one lint pass: its options and the findings so far.
pub struct Context {
    pub config: LintConfig,
    pub issues: Issues,
}

/// Running detectors `ds` in order over `ast`, starting from `issues`: the
/// findings, or the first failure.
pub open spec fn lint_outcome(ds: Seq<DetectorView>, issues: Seq<IssueView>, ast: PackageAst) -> Result<
    Seq<IssueView>,
    LintError,
>
    decreases ds.len(),
{
    if ds.len() == 0 {
        Ok(issues)
    } else {
        match detect_outcome(ds[0], issues, ast) {
            Ok(s) => lint_outcome(ds.drop_first(), s, ast),
            Err(e) => Err(e),
        }
    }
}

/// The detectors a pass runs: those given, or the default registry.
pub open spec fn registry_of(detectors: Option<Detectors>) -> Seq<DetectorView> {
    match detectors {
        Some(d) => d@,
        None => default_registry(),
    }
}

impl Context {
    pub fn new(config: LintConfig) -> (r: Self)
        ensures
            r.config == config,
            r.issues@ == Seq::<IssueView>::empty(),
    {
        Self { config, issues: Issues::new() }
    }

    /// Runs each detector in order; stops at the first failure, and then
    /// leaves the findings as they were before the pass.
    pub fn lint(&mut self, ast: &PackageAst, detectors: Option<Detectors>) -> (r: Result<(), LintError>)
        ensures
            final(self).config == old(self).config,
            match lint_outcome(registry_of(detectors), old(self).issues@, *ast) {
                Ok(s) => r is Ok && final(self).issues@ == s,
                Err(e) => r == Err::<(), LintError>(e) && final(self).issues@ == old(self).issues@,
            },
    {
        let saved = self.issues.duplicate();
        let ghost all = registry_of(detectors);
        let registry = match detectors {
            Some(x) => x,
            None => Detectors::default(),
        };
        let mut ds = registry.meta();
        while ds.len() > 0
            invariant
                all == registry_of(detectors),
                saved@ == old(self).issues@,
                ds@.map_values(|d: crate::detector::Detector| d@).len() == ds@.len(),
                self.config == old(self).config,
                lint_outcome(all, old(self).issues@, *ast) == lint_outcome(
                    ds@.map_values(|d: crate::detector::Detector| d@),
                    self.issues@,
                    *ast,
                ),
            decreases ds@.len(),
        {
            let ghost before = ds@.map_values(|d: crate::detector::Detector| d@);
            let ghost issues = self.issues@;
            let mut d = ds.remove(0);
            proof {
                assert(ds@.map_values(|d: crate::detector::Detector| d@) =~= before.drop_first());
                assert(d@ == before[0]);
            }
            let r = d.detect(self, ast);
            match r {
                Ok(()) => {},
                Err(e) => {
                    assert(detect_outcome(before[0], issues, *ast) == Err::<Seq<IssueView>, LintError>(e));
                    assert(before.len() > 0);
                    assert(lint_outcome(before, issues, *ast) == Err::<Seq<IssueView>, LintError>(e));
                    self.issues = saved;
                    return Err(e);
                },
            }
        }
        Ok(())
    }
}

/// Runs a pass of `detectors` (or the default registry) over `ast`; the
/// caller gets the whole context, or only the failure.
pub fn main(config: LintConfig, ast: &PackageAst, detectors: Option<Detectors>) -> (r: Result<
    Context,
    LintError,
>)
    ensures
        match lint_outcome(registry_of(detectors), Seq::empty(), *ast) {
            Ok(s) => r matches Ok(c) && c.issues@ == s && c.config == config,
            Err(e) => r matches Err(x) && x == e,
        },
{
    let mut context = Context::new(config);
    match context.lint(ast, detectors) {
        Ok(()) => Ok(context),
        Err(e) => Err(e),
    }
}

/// A pass aborts on the first failing detector: when the second of three
/// detectors fails, the pass gives that failure and no findings, even where
/// the first found something.
pub proof fn lemma_abort_on_failure(
    d1: DetectorView,
    d2: DetectorView,
    d3: DetectorView,
    issues: Seq<IssueView>,
    ast: PackageAst,
)
    requires
        detect_outcome(d1, issues, ast) is Ok,
        detect_outcome(d2, detect_outcome(d1, issues, ast)->Ok_0, ast) is Err,
    ensures
        lint_outcome(seq![d1, d2, d3], issues, ast) == Err::<Seq<IssueView>, LintError>(
            detect_outcome(d2, detect_outcome(d1, issues, ast)->Ok_0, ast)->Err_0,
        ),
{
    let ds = seq![d1, d2, d3];
    let s1 = detect_outcome(d1, issues, ast)->Ok_0;
    assert(ds[0] == d1);
    assert(ds.len() == 3);
    assert(ds.drop_first()[0] == d2);
    assert(ds.drop_first().len() == 2);
    assert(lint_outcome(ds, issues, ast) == lint_outcome(ds.drop_first(), s1, ast));
    assert(lint_outcome(ds.drop_first(), s1, ast) == Err::<Seq<IssueView>, LintError>(
        detect_outcome(d2, s1, ast)->Err_0,
    ));
}

} // verus!
