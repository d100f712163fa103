use move_lint::ast::{BinOp, BuiltinType, Loc, PackageAst, SourceManifest, Type, Value};
use move_lint::detector::{DetectorInfo, DetectorLevel, DetectorState, LintError};
use move_lint::detectors::Detectors;
use move_lint::file::{FileSource, FileSources};
use move_lint::issue::{Issue, IssueInfo, IssueLoc, Issues};
use move_lint::lint::{Context, LintConfig};
use move_lint::rules::{AbstractDetector, Detector3, Detector7, Rule};
use move_lint::typed::{Exp, ExpKind, Trace, Var, VarUse};
use move_lint::visitor::{visit_item, visit_post, visit_pre};

#[test]
fn line_index_resolves_ranges() {
    let f = FileSource::new("a.move".to_string(), "ab\ncd\nef".to_string());
    assert_eq!(f.get_lines(1..1), vec![1]);
    assert_eq!(f.get_lines(3..4), vec![2]);
    assert_eq!(f.get_lines(0..7), vec![1, 2, 3]);
}

#[test]
fn line_index_range_ending_on_newline() {
    let f = FileSource::new("a.move".to_string(), "ab\ncd\nef".to_string());
    assert_eq!(f.get_lines(0..2), vec![1]);
    assert_eq!(f.get_lines(0..3), vec![1]);
    assert_eq!(f.get_lines(0..4), vec![1, 2]);
    assert_eq!(f.get_lines(2..3), vec![1]);
    assert_eq!(f.get_lines(3..3), vec![2]);
    assert_eq!(f.get_lines(8..8), vec![3]);
    let g = FileSource::new("b.move".to_string(), "ab\n".to_string());
    assert_eq!(g.get_lines(0..3), vec![1]);
}

#[test]
fn line_index_counts_bytes_of_multibyte_text() {
    let f = FileSource::new("a.move".to_string(), "é\nx".to_string());
    assert_eq!(f.get_lines(3..4), vec![2]);
}

fn info() -> DetectorInfo {
    DetectorInfo {
        no: 9,
        wiki: String::new(),
        title: "t".to_string(),
        verbose: "v".to_string(),
        level: DetectorLevel::Warning,
    }
}

fn issue(start: u32) -> Issue {
    Issue::new(
        IssueInfo::from(&info()),
        IssueLoc { file: "a.move".to_string(), start, end: start + 1, lines: vec![1] },
    )
}

#[test]
fn adding_same_issue_twice_keeps_one() {
    let mut issues = Issues::new();
    issues.add(issue(0));
    issues.add(issue(0));
    assert_eq!(issues.len(), 1);
    issues.add(issue(1));
    assert_eq!(issues.len(), 2);
    assert!(issues.contains(&issue(1)));
    assert_eq!(issues.get(1).loc.start, 1);
}

#[test]
fn refined_description_makes_issues_distinct() {
    let mut issues = Issues::new();
    issues.add(issue(0));
    issues.add(Issue::new(
        IssueInfo::from(&info()).description("d".to_string()),
        IssueLoc { file: "a.move".to_string(), start: 0, end: 1, lines: vec![1] },
    ));
    assert_eq!(issues.len(), 2);
}

#[test]
fn empty_location() {
    let l = IssueLoc::empty();
    assert_eq!(l.file, "");
    assert_eq!((l.start, l.end), (0, 0));
    assert!(l.lines.is_empty());
}

#[test]
fn location_in_unknown_file_is_empty() {
    let files = FileSources::new(vec![(1, FileSource::new("a.move".to_string(), "ab\ncd".to_string()))]);
    let l = IssueLoc::from(&files, &Loc { file: 2, start: 0, end: 1 });
    assert_eq!(l.file, "");
    assert!(l.lines.is_empty());
    let l = IssueLoc::from(&files, &Loc { file: 1, start: 3, end: 5 });
    assert_eq!(l.file, "a.move");
    assert_eq!(l.lines, vec![2]);
    let l = IssueLoc::from(&files, &Loc { file: 1, start: 3, end: 9 });
    assert_eq!(l.file, "");
}

#[test]
fn level_names() {
    assert_eq!(DetectorLevel::form_str("Error"), Some(DetectorLevel::Error));
    assert_eq!(DetectorLevel::form_str("Warning"), Some(DetectorLevel::Warning));
    assert_eq!(DetectorLevel::form_str("Info"), Some(DetectorLevel::Info));
    assert_eq!(DetectorLevel::form_str("Unimplemented"), Some(DetectorLevel::Unimplemented));
    assert_eq!(DetectorLevel::form_str("error"), None);
    assert_eq!(DetectorLevel::Info.to_string(), "Info");
}

fn empty_package() -> PackageAst {
    PackageAst {
        files: FileSources::new(vec![]),
        manifest: SourceManifest { dependencies: vec![], dev_dependencies: vec![] },
        naming: vec![],
        typing: vec![],
        dev_mode: false,
    }
}

#[test]
fn detector_runs_once() {
    let ast = empty_package();
    let mut d = Detector3::detector();
    let mut ctx = Context::new(LintConfig::default());
    assert!(!d.detected());
    assert_eq!(d.detect(&mut ctx, &ast), Ok(()));
    assert!(d.detected());
    assert_eq!(d.state(), DetectorState::Ran);
    assert_eq!(d.detect(&mut ctx, &ast), Err(LintError::AlreadyExecuted { no: 3 }));
}

#[test]
fn ran_detector_fails_a_pass() {
    let ast = empty_package();
    let mut d = Detector7::detector();
    let mut ctx = Context::new(LintConfig::default());
    d.detect(&mut ctx, &ast).unwrap();
    let r = ctx.lint(&ast, Some(Detectors::from(vec![d])));
    assert_eq!(r, Err(LintError::AlreadyExecuted { no: 7 }));
}

#[test]
fn registry_keeps_order_and_duplicates() {
    let mut ds = Detectors::new();
    assert!(ds.is_empty());
    ds.add(Detector7::detector());
    ds.add(Detector7::detector());
    ds.add(Detector3::detector());
    assert_eq!(ds.len(), 3);
    assert_eq!(ds.get(0).rule(), Rule::MulBeforeDiv);
    assert_eq!(ds.get(2).info.no, 3);
    let d = Detectors::default();
    let nos: Vec<u16> = d.meta().iter().map(|x| x.info.no).collect();
    assert_eq!(nos, vec![1, 2, 3, 4, 5, 6, 7, 8]);
}

fn leaf(n: u32) -> Exp {
    let loc = Loc { file: 0, start: n, end: n };
    Exp { ty: Type::Builtin(BuiltinType::U64), loc, kind: ExpKind::Var(VarUse::Copy, Var { name: "v".to_string(), loc }) }
}

fn node(n: u32, a: Exp, b: Exp) -> Exp {
    Exp {
        ty: Type::Builtin(BuiltinType::U64),
        loc: Loc { file: 0, start: n, end: n },
        kind: ExpKind::BinopExp(Box::new(a), BinOp::Add, Box::new(b)),
    }
}

/// Depth three: 1 + 2 + 4 = 7 nodes, numbered in pre-order.
fn tree() -> Exp {
    node(0, node(1, leaf(2), leaf(3)), node(4, leaf(5), leaf(6)))
}

#[test]
fn traversal_calls_twice_per_node_in_nesting_order() {
    let t = tree();
    let mut trace = Trace { calls: vec![], stop_at: None };
    assert!(!visit_item(&t, &mut trace));
    let calls: Vec<(bool, u32)> = trace.calls.iter().map(|(l, loc)| (*l, loc.start)).collect();
    assert_eq!(calls.len(), 14);
    assert_eq!(
        calls,
        vec![
            (false, 0), (false, 1), (false, 2), (true, 2), (false, 3), (true, 3), (true, 1),
            (false, 4), (false, 5), (true, 5), (false, 6), (true, 6), (true, 4), (true, 0),
        ]
    );
}

#[test]
fn cancellation_at_root_stops_everything() {
    let t = tree();
    let mut trace = Trace { calls: vec![], stop_at: Some(1) };
    assert!(visit_item(&t, &mut trace));
    assert_eq!(trace.calls.len(), 1);
    assert_eq!(trace.calls[0], (false, Loc { file: 0, start: 0, end: 0 }));
}

#[test]
fn cancellation_midway_skips_pending_leaves() {
    let t = tree();
    let mut trace = Trace { calls: vec![], stop_at: Some(3) };
    assert!(visit_item(&t, &mut trace));
    let starts: Vec<u32> = trace.calls.iter().map(|(_, l)| l.start).collect();
    assert_eq!(starts, vec![0, 1, 2]);
}

fn function_of(body: Exp) -> move_lint::typed::Function {
    move_lint::typed::Function {
        loc: Loc { file: 0, start: 0, end: 0 },
        name: "f".to_string(),
        visibility: move_lint::ast::Visibility::Public,
        parameters: vec![],
        body: move_lint::typed::FunctionBody::Defined(vec![move_lint::typed::SequenceItem::Expr(body)]),
    }
}

#[test]
fn pre_and_post_order_filters() {
    let f = function_of(tree());
    let (pre, stopped) = visit_pre(&f, Trace { calls: vec![], stop_at: None });
    assert!(!stopped);
    let order: Vec<u32> = pre.calls.iter().map(|(_, l)| l.start).collect();
    assert_eq!(order, vec![0, 1, 2, 3, 4, 5, 6]);
    let (post, _) = visit_post(&f, Trace { calls: vec![], stop_at: None });
    let order: Vec<u32> = post.calls.iter().map(|(_, l)| l.start).collect();
    assert_eq!(order, vec![2, 3, 1, 5, 6, 4, 0]);
}

#[test]
fn u256_and_value_comparisons() {
    let big = move_lint::ast::U256 { hi: 1, lo: 0 };
    assert!(!big.is_zero());
    assert!(big.at_least(u128::MAX));
    assert!(Value::U8(0).is_zero());
    assert!(Value::InferredNum(move_lint::ast::U256::from_u128(0)).is_zero());
    assert!(!Value::Bool(false).is_zero());
    assert!(Value::U16(16).at_least(16));
    assert!(!Value::U64(63).at_least(64));
}

#[test]
fn sort_by_orders_and_keeps_findings() {
    let mut issues = Issues::new();
    for s in [5u32, 1, 3, 1, 4] {
        issues.add(issue(s));
    }
    assert_eq!(issues.len(), 4);
    issues.sort_by(|a, b| b.loc.start.cmp(&a.loc.start));
    let starts: Vec<u32> = issues.to_vec().iter().map(|i| i.loc.start).collect();
    assert_eq!(starts, vec![5, 4, 3, 1]);
    issues.sort_by(|a, b| a.loc.start.cmp(&b.loc.start));
    let starts: Vec<u32> = issues.to_vec().iter().map(|i| i.loc.start).collect();
    assert_eq!(starts, vec![1, 3, 4, 5]);
}

#[test]
fn sort_by_is_stable() {
    let mut issues = Issues::new();
    issues.add(issue(2));
    issues.add(Issue::new(
        IssueInfo::from(&info()).description("second".to_string()),
        IssueLoc { file: "a.move".to_string(), start: 2, end: 3, lines: vec![1] },
    ));
    issues.add(issue(1));
    issues.sort_by(|a, b| a.loc.start.cmp(&b.loc.start));
    assert_eq!(issues.get(0).loc.start, 1);
    assert_eq!(issues.get(1).info.description, None);
    assert_eq!(issues.get(2).info.description, Some("second".to_string()));
}

#[test]
fn failed_pass_leaves_findings_as_before() {
    let l = Loc { file: 0, start: 0, end: 0 };
    let ident = move_lint::ast::ModuleIdent { address: move_lint::ast::Address { bytes: vec![1] }, address_name: "0x1".to_string(), module: "m".to_string() };
    let bad = move_lint::named::Exp { loc: l, kind: move_lint::named::ExpKind::Builtin(move_lint::ast::BuiltinFunction::Assert, vec![]) };
    let mut ast = empty_package();
    ast.naming = vec![move_lint::named::Module { ident, functions: vec![move_lint::named::Function { loc: l, name: "f".to_string(), body: vec![bad] }] }];
    ast.manifest = SourceManifest {
        dependencies: vec![move_lint::ast::Dependency {
            name: "Lib".to_string(),
            kind: move_lint::ast::DependencyKind::Git { git_rev: "main".to_string() },
        }],
        dev_dependencies: vec![],
    };
    let mut ctx = Context::new(LintConfig::default());
    ctx.issues.add(issue(4));
    let mut ds = Detectors::new();
    ds.add(<move_lint::rules::Detector8 as AbstractDetector>::detector());
    ds.add(<move_lint::rules::Detector2 as AbstractDetector>::detector());
    ds.add(Detector3::detector());
    assert_eq!(ctx.lint(&ast, Some(ds)), Err(LintError::Malformed { no: 2 }));
    assert_eq!(ctx.issues.len(), 1);
    assert_eq!(ctx.issues.get(0).loc.start, 4);
}
