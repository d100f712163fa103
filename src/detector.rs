//! Rule metadata: severity levels and detector information.
use vstd::prelude::*;
use crate::ast::PackageAst;
use crate::issue::{add_all, issues_for, IssueView};
use crate::lint::Context;
use crate::rules::{find, rule_findings, Rule};
use crate::text::str_eq;

verus! {

/// How important a finding is.
#[derive(Clone, Copy, Debug, PartialEq, Eq, Structural)]
pub enum DetectorLevel {
    Error,
    Warning,
    Info,
    Unimplemented,
}

/// The level that a level name denotes, if any.
pub open spec fn level_named(name: Seq<char>) -> Option<DetectorLevel> {
    if name == "Error"@ {
        Some(DetectorLevel::Error)
    } else if name == "Warning"@ {
        Some(DetectorLevel::Warning)
    } else if name == "Info"@ {
        Some(DetectorLevel::Info)
    } else if name == "Unimplemented"@ {
        Some(DetectorLevel::Unimplemented)
    } else {
        None
    }
}

/// The name of a level.
pub open spec fn level_name(level: DetectorLevel) -> Seq<char> {
    match level {
        DetectorLevel::Error => "Error"@,
        DetectorLevel::Warning => "Warning"@,
        DetectorLevel::Info => "Info"@,
        DetectorLevel::Unimplemented => "Unimplemented"@,
    }
}

impl DetectorLevel {
    /// Parses a level from its name; any other text gives `None`.
    pub fn form_str(x: &str) -> (r: Option<Self>)
        ensures
            r == level_named(x@),
    {
        if str_eq(x, "Error") {
            Some(DetectorLevel::Error)
        } else if str_eq(x, "Warning") {
            Some(DetectorLevel::Warning)
        } else if str_eq(x, "Info") {
            Some(DetectorLevel::Info)
        } else if str_eq(x, "Unimplemented") {
            Some(DetectorLevel::Unimplemented)
        } else {
            None
        }
    }

    /// The level's name.
    pub fn to_string(&self) -> (r: String)
        ensures
            r@ == level_name(*self),
    {
        match self {
            DetectorLevel::Error => String::from_str("Error"),
            DetectorLevel::Warning => String::from_str("Warning"),
            DetectorLevel::Info => String::from_str("Info"),
            DetectorLevel::Unimplemented => String::from_str("Unimplemented"),
        }
    }
}

/// Immutable metadata of one rule.
#[derive(Debug)]
pub struct DetectorInfo {
    pub no: u16,
    pub wiki: String,
    pub title: String,
    pub verbose: String,
    pub level: DetectorLevel,
}

/// What a rule's metadata holds, as plain values.
pub struct DetectorInfoView {
    pub no: u16,
    pub wiki: Seq<char>,
    pub title: Seq<char>,
    pub verbose: Seq<char>,
    pub level: DetectorLevel,
}

impl View for DetectorInfo {
    type V = DetectorInfoView;

    open spec fn view(&self) -> DetectorInfoView {
        DetectorInfoView {
            no: self.no,
            wiki: self.wiki@,
            title: self.title@,
            verbose: self.verbose@,
            level: self.level,
        }
    }
}

impl Clone for DetectorInfo {
    fn clone(&self) -> (r: Self)
        ensures
            r@ == self@,
    {
        DetectorInfo {
            no: self.no,
            wiki: self.wiki.clone(),
            title: self.title.clone(),
            verbose: self.verbose.clone(),
            level: self.level,
        }
    }
}

/// Why a lint pass failed.
#[derive(Clone, Copy, Debug, PartialEq, Eq, Structural)]
pub enum LintError {
    /// The detector with this rule number had already run.
    AlreadyExecuted { no: u16 },
    /// The rule with this number met a node that breaks the language's
    /// guarantees, such as an assertion with the wrong number of arguments.
    Malformed { no: u16 },
}

/// Whether a detector has run.
#[derive(Clone, Copy, Debug, PartialEq, Eq, Structural)]
pub enum DetectorState {
    Idle,
    Ran,
}

/// One rule: its metadata, its body, and whether it has run. A detector
/// runs at most once.
pub struct Detector {
    pub info: DetectorInfo,
    detect: Rule,
    state: DetectorState,
}

pub struct DetectorView {
    pub info: DetectorInfoView,
    pub rule: Rule,
    pub state: DetectorState,
}

impl View for Detector {
    type V = DetectorView;

    closed spec fn view(&self) -> DetectorView {
        DetectorView { info: self.info@, rule: self.spec_rule(), state: self.spec_state() }
    }
}

/// What running detector `d` does to the findings `issues` of a pass over
/// `ast`: the new findings, or the failure.
pub open spec fn detect_outcome(d: DetectorView, issues: Seq<IssueView>, ast: PackageAst) -> Result<
    Seq<IssueView>,
    LintError,
> {
    if d.state == DetectorState::Ran {
        Err(LintError::AlreadyExecuted { no: d.info.no })
    } else {
        let (found, failed) = rule_findings(d.rule, ast);
        if failed {
            Err(LintError::Malformed { no: d.info.no })
        } else {
            Ok(add_all(issues, issues_for(d.info, ast.files, found)))
        }
    }
}

impl Detector {
    pub closed spec fn spec_rule(&self) -> Rule {
        self.detect
    }

    pub closed spec fn spec_state(&self) -> DetectorState {
        self.state
    }

    pub fn new(info: DetectorInfo, detect: Rule) -> (r: Self)
        ensures
            r@ == (DetectorView { info: info@, rule: detect, state: DetectorState::Idle }),
    {
        Self { info, detect, state: DetectorState::Idle }
    }

    /// Runs the rule once over `ast`, adding its findings to `context`. A
    /// second run fails; a failing rule leaves `context` as it was.
    pub fn detect(&mut self, context: &mut Context, ast: &PackageAst) -> (r: Result<(), LintError>)
        ensures
            final(self)@ == (DetectorView { state: DetectorState::Ran, ..old(self)@ }),
            final(context).config == old(context).config,
            match detect_outcome(old(self)@, old(context).issues@, *ast) {
                Ok(s) => r is Ok && final(context).issues@ == s,
                Err(e) => r == Err::<(), LintError>(e) && final(context).issues@ == old(
                    context,
                ).issues@,
            },
    {
        if self.state == DetectorState::Ran {
            return Err(LintError::AlreadyExecuted { no: self.info.no });
        }
        self.state = DetectorState::Ran;
        let (found, failed) = find(self.detect, ast);
        if failed {
            return Err(LintError::Malformed { no: self.info.no });
        }
        context.issues.add_findings(&self.info, &ast.files, &found);
        Ok(())
    }

    pub fn detected(&self) -> (r: bool)
        ensures
            r == (self@.state == DetectorState::Ran),
    {
        self.state == DetectorState::Ran
    }

    pub fn state(&self) -> (r: DetectorState)
        ensures
            r == self@.state,
    {
        self.state
    }

    pub fn rule(&self) -> (r: Rule)
        ensures
            r == self@.rule,
    {
        self.detect
    }
}

/// A detector runs once: on a package where its rule meets no malformed
/// node the first run succeeds, and any later run fails as already
/// executed, whatever the package and findings then.
pub proof fn lemma_run_once(
    d: DetectorView,
    issues: Seq<IssueView>,
    ast: PackageAst,
    later_issues: Seq<IssueView>,
    later_ast: PackageAst,
)
    requires
        d.state == DetectorState::Idle,
        !rule_findings(d.rule, ast).1,
    ensures
        detect_outcome(d, issues, ast) is Ok,
        detect_outcome(DetectorView { state: DetectorState::Ran, ..d }, later_issues, later_ast)
            == Err::<Seq<IssueView>, LintError>(LintError::AlreadyExecuted { no: d.info.no }),
{
}

} // verus!
