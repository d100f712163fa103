//! The rule bodies: what each rule looks for, and where.
use vstd::prelude::*;
use crate::ast::{
    numeric_value, bit_width, BinOp, BuiltinFunction, Dependency, DependencyKind, PackageAst, Value,
};
use crate::detector::{Detector, DetectorInfo, DetectorInfoView, DetectorLevel, DetectorState, DetectorView};
use crate::named;
use crate::scan::{
    roots_nodes, scan_nodes, scan_roots, Finding, FindingView, ScanOutcome, ScanSpec, Scanner, Site,
};
use crate::text::str_eq;
use crate::typed;

pub mod assert_first;
pub mod unused_private;

verus! {

/// The rules that this engine carries.
#[derive(Clone, Copy, Debug, PartialEq, Eq, Structural)]
pub enum Rule {
    /// Parameter checks by assertion that come after other statements.
    AssertFirst,
    /// Assertions whose abort code is the literal zero.
    AssertZeroCode,
    /// Casts of a value to the type it already has.
    UnnecessaryCast,
    /// Private functions that nothing calls.
    UnusedPrivate,
    /// Shifts by a constant at least as wide as the shifted type.
    ShiftOverflow,
    /// Calls of deprecated functions of other modules.
    DeprecatedCall,
    /// Multiplications whose left operand holds a division.
    MulBeforeDiv,
    /// Dependencies pinned to a branch name instead of a version.
    BranchDependency,
}

// ---------------------------------------------------------------------------
// Multiplication before division
// ---------------------------------------------------------------------------

/// Whether `e` is a binary operation with a division at or below it,
/// following binary operations only.
pub open spec fn has_div(e: typed::Exp) -> bool
    decreases e,
{
    match e.kind {
        typed::ExpKind::BinopExp(a, op, b) => op == BinOp::Div || has_div(*a) || has_div(*b),
        _ => false,
    }
}

pub fn has_binop_div_in_exp(e: &typed::Exp) -> (r: bool)
    ensures
        r == has_div(*e),
    decreases e,
{
    match &e.kind {
        typed::ExpKind::BinopExp(a, op, b) => *op == BinOp::Div || has_binop_div_in_exp(a)
            || has_binop_div_in_exp(b),
        _ => false,
    }
}

/// Finds multiplications whose left operand divides: precision is lost.
pub struct Detector7;

impl Scanner<typed::Exp> for Detector7 {
    open spec fn spec_scan(node: typed::Exp) -> ScanSpec {
        match node.kind {
            typed::ExpKind::BinopExp(a, op, _) => if op == BinOp::Mul && has_div(*a) {
                ScanSpec::Hit(FindingView { loc: Site::Source(node.loc), description: None })
            } else {
                ScanSpec::Skip
            },
            _ => ScanSpec::Skip,
        }
    }

    fn scan(&self, node: &typed::Exp) -> (r: ScanOutcome) {
        match &node.kind {
            typed::ExpKind::BinopExp(a, op, _) => {
                if *op == BinOp::Mul && has_binop_div_in_exp(a) {
                    ScanOutcome::Hit(Finding { loc: Site::Source(node.loc), description: None })
                } else {
                    ScanOutcome::Skip
                }
            },
            _ => ScanOutcome::Skip,
        }
    }
}

// ---------------------------------------------------------------------------
// Unnecessary cast
// ---------------------------------------------------------------------------

/// Finds casts of a value to the type it already has.
pub struct Detector3;

impl Scanner<typed::Exp> for Detector3 {
    open spec fn spec_scan(node: typed::Exp) -> ScanSpec {
        match node.kind {
            typed::ExpKind::Cast(e, ty) => if e.ty == ty {
                ScanSpec::Hit(FindingView { loc: Site::Source(node.loc), description: None })
            } else {
                ScanSpec::Skip
            },
            _ => ScanSpec::Skip,
        }
    }

    fn scan(&self, node: &typed::Exp) -> (r: ScanOutcome) {
        match &node.kind {
            typed::ExpKind::Cast(e, ty) => {
                if e.ty == *ty {
                    ScanOutcome::Hit(Finding { loc: Site::Source(node.loc), description: None })
                } else {
                    ScanOutcome::Skip
                }
            },
            _ => ScanOutcome::Skip,
        }
    }
}

// ---------------------------------------------------------------------------
// Shift overflow
// ---------------------------------------------------------------------------

/// Whether a shift of a value of type `t` by the constant `v` loses all bits.
pub open spec fn shift_overflows(t: crate::ast::Type, v: Value) -> bool {
    match (bit_width(t), numeric_value(v)) {
        (Some(w), Some(n)) => n >= w,
        _ => false,
    }
}

/// Finds shifts by a constant no smaller than the width of the shifted type.
pub struct Detector5;

impl Scanner<typed::Exp> for Detector5 {
    open spec fn spec_scan(node: typed::Exp) -> ScanSpec {
        match node.kind {
            typed::ExpKind::BinopExp(a, op, b) => if (op == BinOp::Shl || op == BinOp::Shr) && (
            b.kind matches typed::ExpKind::Value(v) && shift_overflows(a.ty, v)) {
                ScanSpec::Hit(FindingView { loc: Site::Source(node.loc), description: None })
            } else {
                ScanSpec::Skip
            },
            _ => ScanSpec::Skip,
        }
    }

    fn scan(&self, node: &typed::Exp) -> (r: ScanOutcome) {
        if let typed::ExpKind::BinopExp(a, op, b) = &node.kind {
            if *op == BinOp::Shl || *op == BinOp::Shr {
                if let Some(w) = a.ty.bit_width() {
                    if let typed::ExpKind::Value(v) = &b.kind {
                        if v.at_least(w) {
                            return ScanOutcome::Hit(
                                Finding { loc: Site::Source(node.loc), description: None },
                            );
                        }
                    }
                }
            }
        }
        ScanOutcome::Skip
    }
}

// ---------------------------------------------------------------------------
// Deprecated calls
// ---------------------------------------------------------------------------

/// Whether big-endian `bytes` denote the address one.
pub open spec fn is_address_one(bytes: Seq<u8>) -> bool {
    &&& bytes.len() > 0
    &&& bytes.last() == 1u8
    &&& forall|i: int| 0 <= i < bytes.len() - 1 ==> bytes[i] == 0u8
}

fn address_is_one(bytes: &Vec<u8>) -> (r: bool)
    ensures
        r == is_address_one(bytes@),
{
    let n = bytes.len();
    if n == 0 || bytes[n - 1] != 1 {
        return false;
    }
    let mut i: usize = 0;
    while i < n - 1
        invariant
            n == bytes@.len(),
            n > 0,
            i <= n - 1,
            forall|k: int| 0 <= k < i ==> bytes@[k] == 0u8,
        decreases n - 1 - i,
    {
        if bytes[i] != 0 {
            return false;
        }
        i = i + 1;
    }
    true
}

/// Whether a call of `module::name` at address `addr` targets a deprecated
/// function.
pub open spec fn is_deprecated(addr: Seq<u8>, module: Seq<char>, name: Seq<char>) -> bool {
    is_address_one(addr) && module == "NFT"@ && name == "register"@
}

/// The description of a call of the deprecated function `0x1::module::name`.
pub open spec fn deprecated_text(module: Seq<char>, name: Seq<char>) -> Seq<char> {
    "The function '0x1::"@ + module + "::"@ + name
        + "' has been deprecated, and calling it may lead to a logical error"@
}

/// Finds calls of deprecated functions.
pub struct Detector6;

impl Scanner<typed::Exp> for Detector6 {
    open spec fn spec_scan(node: typed::Exp) -> ScanSpec {
        match node.kind {
            typed::ExpKind::ModuleCall { module, name, .. } => if is_deprecated(
                module.address.bytes@,
                module.module@,
                name@,
            ) {
                ScanSpec::Hit(
                    FindingView {
                        loc: Site::Source(node.loc),
                        description: Some(deprecated_text(module.module@, name@)),
                    },
                )
            } else {
                ScanSpec::Skip
            },
            _ => ScanSpec::Skip,
        }
    }

    fn scan(&self, node: &typed::Exp) -> (r: ScanOutcome) {
        if let typed::ExpKind::ModuleCall { module, name, .. } = &node.kind {
            if address_is_one(&module.address.bytes) && str_eq(module.module.as_str(), "NFT")
                && str_eq(name.as_str(), "register") {
                let text = String::from_str("The function '0x1::").concat(
                    module.module.as_str(),
                ).concat("::").concat(name.as_str()).concat(
                    "' has been deprecated, and calling it may lead to a logical error",
                );
                return ScanOutcome::Hit(
                    Finding { loc: Site::Source(node.loc), description: Some(text) },
                );
            }
        }
        ScanOutcome::Skip
    }
}

// ---------------------------------------------------------------------------
// Zero abort codes
// ---------------------------------------------------------------------------

/// Finds assertions whose abort code is the literal zero. An assertion
/// with other than two arguments breaks the language's guarantees.
pub struct Detector2;

impl Scanner<named::Exp> for Detector2 {
    open spec fn spec_scan(node: named::Exp) -> ScanSpec {
        match node.kind {
            named::ExpKind::Builtin(f, es) => if f != BuiltinFunction::Assert {
                ScanSpec::Skip
            } else if es@.len() != 2 {
                ScanSpec::Fail
            } else if es@[1].kind matches named::ExpKind::Value(v) && numeric_value(v) == Some(
                0int,
            ) {
                ScanSpec::Hit(FindingView { loc: Site::Source(node.loc), description: None })
            } else {
                ScanSpec::Skip
            },
            _ => ScanSpec::Skip,
        }
    }

    fn scan(&self, node: &named::Exp) -> (r: ScanOutcome) {
        if let named::ExpKind::Builtin(f, es) = &node.kind {
            if *f == BuiltinFunction::Assert {
                if es.len() != 2 {
                    return ScanOutcome::Fail;
                }
                if let named::ExpKind::Value(v) = &es[1].kind {
                    if v.is_zero() {
                        return ScanOutcome::Hit(
                            Finding { loc: Site::Source(node.loc), description: None },
                        );
                    }
                }
            }
        }
        ScanOutcome::Skip
    }
}

// ---------------------------------------------------------------------------
// Dependencies pinned to a branch
// ---------------------------------------------------------------------------

/// Finds git dependencies pinned to a branch name.
pub struct Detector8;

/// Whether a git revision names one of the usual branches.
pub open spec fn is_branch_name(rev: Seq<char>) -> bool {
    rev == "master"@ || rev == "main"@ || rev == "dev"@ || rev == "develop"@
}

/// The description of a dependency `name` pinned to a branch.
pub open spec fn branch_text(name: Seq<char>) -> Seq<char> {
    "Relying on libraries '"@ + name
        + "' to use branch names instead of versions can result in errors"@
}

/// The findings for `deps[i..]`: one at the manifest for each git
/// dependency pinned to a branch name, in order.
pub open spec fn dependency_findings(deps: Seq<Dependency>, i: int) -> Seq<FindingView>
    decreases deps.len() - i,
{
    if 0 <= i < deps.len() {
        let rest = dependency_findings(deps, i + 1);
        match deps[i].kind {
            DependencyKind::Git { git_rev } => if is_branch_name(git_rev@) {
                seq![
                    FindingView {
                        loc: Site::Manifest,
                        description: Some(branch_text(deps[i].name@)),
                    },
                ] + rest
            } else {
                rest
            },
            _ => rest,
        }
    } else {
        Seq::empty()
    }
}

fn branch_findings(deps: &Vec<Dependency>, out: &mut Vec<Finding>)
    ensures
        final(out)@.map_values(|f: Finding| f@) == old(out)@.map_values(|f: Finding| f@)
            + dependency_findings(deps@, 0),
{
    let ghost start = out@.map_values(|f: Finding| f@);
    let mut i: usize = 0;
    while i < deps.len()
        invariant
            i <= deps@.len(),
            start + dependency_findings(deps@, 0) == out@.map_values(|f: Finding| f@)
                + dependency_findings(deps@, i as int),
        decreases deps@.len() - i,
    {
        let dep = &deps[i];
        let ghost rest = dependency_findings(deps@, i as int + 1);
        let ghost before = out@.map_values(|f: Finding| f@);
        if let DependencyKind::Git { git_rev } = &dep.kind {
            let rev = git_rev.as_str();
            if str_eq(rev, "master") || str_eq(rev, "main") || str_eq(rev, "dev") || str_eq(
                rev,
                "develop",
            ) {
                let text = String::from_str("Relying on libraries '").concat(dep.name.as_str()).concat(
                    "' to use branch names instead of versions can result in errors",
                );
                let f = Finding { loc: Site::Manifest, description: Some(text) };
                let ghost fv = f@;
                out.push(f);
                proof {
                    assert(out@.map_values(|f: Finding| f@) =~= before.push(fv));
                    assert(before + (seq![fv] + rest) =~= before.push(fv) + rest);
                }
            }
        }
        i = i + 1;
    }
    proof {
        let v = out@.map_values(|f: Finding| f@);
        assert(v + Seq::<FindingView>::empty() =~= v);
    }
}

/// Finds assertions on parameters placed after other statements.
pub struct Detector1;

/// Finds private functions that nothing calls.
pub struct Detector4;

// ---------------------------------------------------------------------------
// Dispatch
// ---------------------------------------------------------------------------

/// The nodes of the typed stage, function by function, in pre-order.
pub open spec fn typed_nodes(ast: PackageAst) -> Seq<typed::Exp> {
    roots_nodes(typed::all_functions(ast.typing@, 0), 0)
}

/// The nodes of the name-resolved stage, function by function, in pre-order.
pub open spec fn named_nodes(ast: PackageAst) -> Seq<named::Exp> {
    roots_nodes(named::all_functions(ast.naming@, 0), 0)
}

/// What a rule finds in a package, in order, and whether it hit a node that
/// breaks the language's guarantees.
pub open spec fn rule_findings(rule: Rule, ast: PackageAst) -> (Seq<FindingView>, bool) {
    match rule {
        Rule::MulBeforeDiv => scan_nodes::<typed::Exp, Detector7>(typed_nodes(ast)),
        Rule::UnnecessaryCast => scan_nodes::<typed::Exp, Detector3>(typed_nodes(ast)),
        Rule::ShiftOverflow => scan_nodes::<typed::Exp, Detector5>(typed_nodes(ast)),
        Rule::DeprecatedCall => scan_nodes::<typed::Exp, Detector6>(typed_nodes(ast)),
        Rule::AssertZeroCode => scan_nodes::<named::Exp, Detector2>(named_nodes(ast)),
        Rule::BranchDependency => (
            dependency_findings(ast.manifest.dependencies@, 0) + if ast.dev_mode {
                dependency_findings(ast.manifest.dev_dependencies@, 0)
            } else {
                Seq::empty()
            },
            false,
        ),
        Rule::AssertFirst => (
            assert_first::functions_hits(typed::all_functions(ast.typing@, 0), 0, Seq::empty()).map_values(
                |l: crate::ast::Loc| FindingView { loc: Site::Source(l), description: None },
            ),
            false,
        ),
        Rule::UnusedPrivate => (
            unused_private::unused_private(ast.typing@, unused_private::call_keys(typed_nodes(ast))).map_values(|l: crate::ast::Loc| FindingView { loc: Site::Source(l), description: None }),
            false,
        ),
    }
}

/// The findings at each of `locs`, without refinement.
fn findings_at(locs: &Vec<crate::ast::Loc>) -> (r: Vec<Finding>)
    ensures
        r@.map_values(|f: Finding| f@) == locs@.map_values(
            |l: crate::ast::Loc| FindingView { loc: Site::Source(l), description: None },
        ),
{
    let mut r: Vec<Finding> = Vec::new();
    let mut i: usize = 0;
    while i < locs.len()
        invariant
            i <= locs@.len(),
            r@.map_values(|f: Finding| f@) == locs@.subrange(0, i as int).map_values(
                |l: crate::ast::Loc| FindingView { loc: Site::Source(l), description: None },
            ),
        decreases locs@.len() - i,
    {
        let ghost before = r@.map_values(|f: Finding| f@);
        r.push(Finding { loc: Site::Source(locs[i]), description: None });
        proof {
            assert(r@.map_values(|f: Finding| f@) =~= before.push(
                FindingView { loc: Site::Source(locs@[i as int]), description: None },
            ));
            assert(locs@.subrange(0, i as int + 1) =~= locs@.subrange(0, i as int).push(locs@[i as int]));
            assert(r@.map_values(|f: Finding| f@) =~= locs@.subrange(0, i as int + 1).map_values(
                |l: crate::ast::Loc| FindingView { loc: Site::Source(l), description: None },
            ));
        }
        i = i + 1;
    }
    proof {
        assert(locs@.subrange(0, i as int) =~= locs@);
    }
    r
}

/// Runs `rule` over `ast`.
pub fn find(rule: Rule, ast: &PackageAst) -> (r: (Vec<Finding>, bool))
    ensures
        (r.0@.map_values(|f: Finding| f@), r.1) == rule_findings(rule, *ast),
{
    match rule {
        Rule::MulBeforeDiv => scan_roots(&typed::functions(&ast.typing), Detector7),
        Rule::UnnecessaryCast => scan_roots(&typed::functions(&ast.typing), Detector3),
        Rule::ShiftOverflow => scan_roots(&typed::functions(&ast.typing), Detector5),
        Rule::DeprecatedCall => scan_roots(&typed::functions(&ast.typing), Detector6),
        Rule::AssertZeroCode => scan_roots(&named::functions(&ast.naming), Detector2),
        Rule::AssertFirst => {
            let hits = assert_first::assert_first_hits(&typed::functions(&ast.typing));
            (findings_at(&hits), false)
        },
        Rule::BranchDependency => {
            let mut out: Vec<Finding> = Vec::new();
            proof {
                assert(out@.map_values(|f: Finding| f@) =~= Seq::<FindingView>::empty());
            }
            branch_findings(&ast.manifest.dependencies, &mut out);
            if ast.dev_mode {
                branch_findings(&ast.manifest.dev_dependencies, &mut out);
            }
            proof {
                let d = dependency_findings(ast.manifest.dependencies@, 0);
                assert(Seq::<FindingView>::empty() + d =~= d);
                assert(d + Seq::<FindingView>::empty() =~= d);
            }
            (out, false)
        },
        Rule::UnusedPrivate => {
            let fs = typed::functions(&ast.typing);
            let locs = unused_private::unused_private_functions(&ast.typing, &fs);
            (findings_at(&locs), false)
        },
    }
}

// ---------------------------------------------------------------------------
// Metadata
// ---------------------------------------------------------------------------

/// The metadata of each rule.
pub open spec fn rule_info(rule: Rule) -> DetectorInfoView {
    match rule {
        Rule::AssertFirst => DetectorInfoView {
            no: 1,
            wiki: Seq::empty(),
            title: "parameter validation can be placed in the first line"@,
            verbose: "Parameter validation with assertions can be placed at the beginning of functions. If failed, gas can be saved."@,
            level: DetectorLevel::Warning,
        },
        Rule::AssertZeroCode => DetectorInfoView {
            no: 2,
            wiki: Seq::empty(),
            title: "assert错误码使用"@,
            verbose: "对于assert的错误码未定义，直接使用0"@,
            level: DetectorLevel::Info,
        },
        Rule::UnnecessaryCast => DetectorInfoView {
            no: 3,
            wiki: Seq::empty(),
            title: "unnecessary type conversion"@,
            verbose: "Unnecessary type conversion, for example let a: u64; a as u64;"@,
            level: DetectorLevel::Info,
        },
        Rule::UnusedPrivate => DetectorInfoView {
            no: 4,
            wiki: Seq::empty(),
            title: "未使用的private接口"@,
            verbose: "存在未使用的private接口"@,
            level: DetectorLevel::Info,
        },
        Rule::ShiftOverflow => DetectorInfoView {
            no: 5,
            wiki: Seq::empty(),
            title: "shift operation overflow"@,
            verbose: "Make sure that the second operand is less than the width in bits of the first operand and no overflow during a shift operation."@,
            level: DetectorLevel::Info,
        },
        Rule::DeprecatedCall => DetectorInfoView {
            no: 6,
            wiki: Seq::empty(),
            title: "call deprecated functions of other modules"@,
            verbose: "Call deprecated functions of other modules which may lead to logic errors."@,
            level: DetectorLevel::Info,
        },
        Rule::MulBeforeDiv => DetectorInfoView {
            no: 7,
            wiki: Seq::empty(),
            title: "multiplication comes before division"@,
            verbose: "Multiplication comes before division, otherwise the result precision may be lower."@,
            level: DetectorLevel::Info,
        },
        Rule::BranchDependency => DetectorInfoView {
            no: 8,
            wiki: Seq::empty(),
            title: "inexplicit version of dependent libraries"@,
            verbose: "The version of dependent libraries should be a version number or commit number and avoid to use branch names."@,
            level: DetectorLevel::Info,
        },
    }
}

fn make_info(no: u16, title: &str, verbose: &str, level: DetectorLevel) -> (r: DetectorInfo)
    ensures
        r@ == (DetectorInfoView {
            no,
            wiki: Seq::empty(),
            title: title@,
            verbose: verbose@,
            level,
        }),
{
    DetectorInfo {
        no,
        wiki: String::new(),
        title: String::from_str(title),
        verbose: String::from_str(verbose),
        level,
    }
}

/// The metadata of `rule`.
pub fn info_of_rule(rule: Rule) -> (r: DetectorInfo)
    ensures
        r@ == rule_info(rule),
{
    match rule {
        Rule::AssertFirst => make_info(
            1,
            "parameter validation can be placed in the first line",
            "Parameter validation with assertions can be placed at the beginning of functions. If failed, gas can be saved.",
            DetectorLevel::Warning,
        ),
        Rule::AssertZeroCode => make_info(
            2,
            "assert错误码使用",
            "对于assert的错误码未定义，直接使用0",
            DetectorLevel::Info,
        ),
        Rule::UnnecessaryCast => make_info(
            3,
            "unnecessary type conversion",
            "Unnecessary type conversion, for example let a: u64; a as u64;",
            DetectorLevel::Info,
        ),
        Rule::UnusedPrivate => make_info(
            4,
            "未使用的private接口",
            "存在未使用的private接口",
            DetectorLevel::Info,
        ),
        Rule::ShiftOverflow => make_info(
            5,
            "shift operation overflow",
            "Make sure that the second operand is less than the width in bits of the first operand and no overflow during a shift operation.",
            DetectorLevel::Info,
        ),
        Rule::DeprecatedCall => make_info(
            6,
            "call deprecated functions of other modules",
            "Call deprecated functions of other modules which may lead to logic errors.",
            DetectorLevel::Info,
        ),
        Rule::MulBeforeDiv => make_info(
            7,
            "multiplication comes before division",
            "Multiplication comes before division, otherwise the result precision may be lower.",
            DetectorLevel::Info,
        ),
        Rule::BranchDependency => make_info(
            8,
            "inexplicit version of dependent libraries",
            "The version of dependent libraries should be a version number or commit number and avoid to use branch names.",
            DetectorLevel::Info,
        ),
    }
}

/// A fresh detector of `rule`, with the rule's own metadata.
pub open spec fn fresh(rule: Rule) -> DetectorView {
    DetectorView { info: rule_info(rule), rule, state: DetectorState::Idle }
}

/// A rule type: its metadata and a fresh detector running it.
pub trait AbstractDetector {
    spec fn spec_rule() -> Rule;

    fn info() -> (r: DetectorInfo)
        ensures
            r@ == rule_info(Self::spec_rule()),
    ;

    fn detector() -> (r: Detector)
        ensures
            r@ == fresh(Self::spec_rule()),
    ;
}

impl AbstractDetector for Detector1 {
    open spec fn spec_rule() -> Rule {
        Rule::AssertFirst
    }

    fn info() -> (r: DetectorInfo) {
        info_of_rule(Rule::AssertFirst)
    }

    fn detector() -> (r: Detector) {
        Detector::new(info_of_rule(Rule::AssertFirst), Rule::AssertFirst)
    }
}

impl AbstractDetector for Detector2 {
    open spec fn spec_rule() -> Rule {
        Rule::AssertZeroCode
    }

    fn info() -> (r: DetectorInfo) {
        info_of_rule(Rule::AssertZeroCode)
    }

    fn detector() -> (r: Detector) {
        Detector::new(info_of_rule(Rule::AssertZeroCode), Rule::AssertZeroCode)
    }
}

impl AbstractDetector for Detector3 {
    open spec fn spec_rule() -> Rule {
        Rule::UnnecessaryCast
    }

    fn info() -> (r: DetectorInfo) {
        info_of_rule(Rule::UnnecessaryCast)
    }

    fn detector() -> (r: Detector) {
        Detector::new(info_of_rule(Rule::UnnecessaryCast), Rule::UnnecessaryCast)
    }
}

impl AbstractDetector for Detector4 {
    open spec fn spec_rule() -> Rule {
        Rule::UnusedPrivate
    }

    fn info() -> (r: DetectorInfo) {
        info_of_rule(Rule::UnusedPrivate)
    }

    fn detector() -> (r: Detector) {
        Detector::new(info_of_rule(Rule::UnusedPrivate), Rule::UnusedPrivate)
    }
}

impl AbstractDetector for Detector5 {
    open spec fn spec_rule() -> Rule {
        Rule::ShiftOverflow
    }

    fn info() -> (r: DetectorInfo) {
        info_of_rule(Rule::ShiftOverflow)
    }

    fn detector() -> (r: Detector) {
        Detector::new(info_of_rule(Rule::ShiftOverflow), Rule::ShiftOverflow)
    }
}

impl AbstractDetector for Detector6 {
    open spec fn spec_rule() -> Rule {
        Rule::DeprecatedCall
    }

    fn info() -> (r: DetectorInfo) {
        info_of_rule(Rule::DeprecatedCall)
    }

    fn detector() -> (r: Detector) {
        Detector::new(info_of_rule(Rule::DeprecatedCall), Rule::DeprecatedCall)
    }
}

impl AbstractDetector for Detector7 {
    open spec fn spec_rule() -> Rule {
        Rule::MulBeforeDiv
    }

    fn info() -> (r: DetectorInfo) {
        info_of_rule(Rule::MulBeforeDiv)
    }

    fn detector() -> (r: Detector) {
        Detector::new(info_of_rule(Rule::MulBeforeDiv), Rule::MulBeforeDiv)
    }
}

impl AbstractDetector for Detector8 {
    open spec fn spec_rule() -> Rule {
        Rule::BranchDependency
    }

    fn info() -> (r: DetectorInfo) {
        info_of_rule(Rule::BranchDependency)
    }

    fn detector() -> (r: Detector) {
        Detector::new(info_of_rule(Rule::BranchDependency), Rule::BranchDependency)
    }
}

} // verus!
