use move_lint::ast::{
    Address, BinOp, BuiltinFunction, BuiltinType, Dependency, DependencyKind, Loc, ModuleIdent,
    PackageAst, SourceManifest, Type, Value, Visibility,
};
use move_lint::detectors::Detectors;
use move_lint::file::{FileSource, FileSources};
use move_lint::issue::Issues;
use move_lint::lint::{self, LintConfig};
use move_lint::named;
use move_lint::typed::{self, Exp, ExpKind, FunctionBody, LValue, SequenceItem, Var, VarUse};

const FILE: u64 = 7;

const CASE: &str = "module 0x1::m {
    use 0x1::NFT;
    fun helper(x: u64): u64 { x }
    public fun f(a: u64, b: u64): u64 {
        let c = a;
        assert!(b > 0, 0);
        let d = (a as u64) << 64;
        NFT::register();
        (a / b) * c
    }
}
";

fn span(needle: &str) -> Loc {
    let start = CASE.find(needle).expect("needle in case text");
    Loc { file: FILE, start: start as u32, end: (start + needle.len()) as u32 }
}

fn span_in(line: &str, needle: &str) -> Loc {
    let base = CASE.find(line).expect("line in case text");
    let off = CASE[base..].find(needle).expect("needle in line");
    let start = base + off;
    Loc { file: FILE, start: start as u32, end: (start + needle.len()) as u32 }
}

fn u64t() -> Type {
    Type::Builtin(BuiltinType::U64)
}

fn exp(kind: ExpKind, ty: Type, loc: Loc) -> Exp {
    Exp { ty, loc, kind }
}

fn var(name: &str, loc: Loc) -> Exp {
    exp(ExpKind::Var(VarUse::Copy, Var { name: name.to_string(), loc }), u64t(), loc)
}

fn bin(a: Exp, op: BinOp, b: Exp, loc: Loc) -> Exp {
    exp(ExpKind::BinopExp(Box::new(a), op, Box::new(b)), u64t(), loc)
}

fn address(last: u8) -> Address {
    let mut bytes = vec![0u8; 32];
    bytes[31] = last;
    Address { bytes }
}

fn ident(name: &str) -> ModuleIdent {
    ModuleIdent { address: address(1), address_name: "0x1".to_string(), module: name.to_string() }
}

fn function(name: &str, vis: Visibility, params: &[&str], body: Vec<SequenceItem>, loc: Loc) -> typed::Function {
    typed::Function {
        loc,
        name: name.to_string(),
        visibility: vis,
        parameters: params.iter().map(|p| Var { name: p.to_string(), loc }).collect(),
        body: FunctionBody::Defined(body),
    }
}

fn case_typed() -> Vec<typed::Module> {
    let l5 = "let c = a;";
    let l6 = "assert!(b > 0, 0);";
    let l7 = "let d = (a as u64) << 64;";
    let l8 = "NFT::register();";
    let l9 = "(a / b) * c";
    let helper = function(
        "helper",
        Visibility::Internal,
        &["x"],
        vec![SequenceItem::Expr(var("x", span_in("fun helper", "x }")))],
        span("fun helper(x: u64): u64 { x }"),
    );
    let cond = exp(
        ExpKind::BinopExp(
            Box::new(var("b", span_in(l6, "b"))),
            BinOp::Gt,
            Box::new(exp(ExpKind::Value(Value::U64(0)), u64t(), span_in(l6, "0,"))),
        ),
        Type::Builtin(BuiltinType::Bool),
        span_in(l6, "b > 0"),
    );
    let code = exp(ExpKind::Value(Value::U64(0)), u64t(), span_in(l6, "0)"));
    let assert = exp(
        ExpKind::Builtin(
            BuiltinFunction::Assert,
            Box::new(exp(ExpKind::Other(vec![cond, code]), u64t(), span_in(l6, "(b > 0, 0)"))),
        ),
        u64t(),
        span(l6),
    );
    let cast = exp(
        ExpKind::Cast(Box::new(var("a", span_in(l7, "a as"))), u64t()),
        u64t(),
        span_in(l7, "(a as u64)"),
    );
    let shift = bin(
        cast,
        BinOp::Shl,
        exp(ExpKind::Value(Value::U8(64)), Type::Builtin(BuiltinType::U8), span_in(l7, "64;")),
        span_in(l7, "(a as u64) << 64"),
    );
    let call = exp(
        ExpKind::ModuleCall {
            module: ident("NFT"),
            name: "register".to_string(),
            arguments: Box::new(exp(ExpKind::Other(vec![]), u64t(), span_in(l8, "()"))),
        },
        u64t(),
        span(l8),
    );
    let muldiv = bin(
        bin(var("a", span_in(l9, "a")), BinOp::Div, var("b", span_in(l9, "b")), span_in(l9, "a / b")),
        BinOp::Mul,
        var("c", span_in(l9, "c")),
        span(l9),
    );
    let f = function(
        "f",
        Visibility::Public,
        &["a", "b"],
        vec![
            SequenceItem::Bind(
                vec![LValue::Var(Var { name: "c".to_string(), loc: span_in(l5, "c") })],
                var("a", span_in(l5, "a;")),
            ),
            SequenceItem::Expr(assert),
            SequenceItem::Bind(
                vec![LValue::Var(Var { name: "d".to_string(), loc: span_in(l7, "d") })],
                shift,
            ),
            SequenceItem::Expr(call),
            SequenceItem::Expr(muldiv),
        ],
        span("public fun f"),
    );
    vec![typed::Module { ident: ident("m"), functions: vec![helper, f] }]
}

fn case_named(assert_args: usize) -> Vec<named::Module> {
    let l6 = "assert!(b > 0, 0);";
    let mut args = vec![named::Exp {
        loc: span_in(l6, "b > 0"),
        kind: named::ExpKind::Other(vec![]),
    }];
    if assert_args > 1 {
        args.push(named::Exp {
            loc: span_in(l6, "0)"),
            kind: named::ExpKind::Value(Value::InferredNum(move_lint::ast::U256 { hi: 0, lo: 0 })),
        });
    }
    let assert = named::Exp { loc: span(l6), kind: named::ExpKind::Builtin(BuiltinFunction::Assert, args) };
    let f = named::Function { loc: span("public fun f"), name: "f".to_string(), body: vec![assert] };
    vec![named::Module { ident: ident("m"), functions: vec![f] }]
}

fn manifest(rev: &str) -> SourceManifest {
    SourceManifest {
        dependencies: vec![Dependency {
            name: "MoveStdlib".to_string(),
            kind: DependencyKind::Git { git_rev: rev.to_string() },
        }],
        dev_dependencies: vec![],
    }
}

fn package(assert_args: usize, rev: &str) -> PackageAst {
    PackageAst {
        files: FileSources::new(vec![(FILE, FileSource::new("sources/m.move".to_string(), CASE.to_string()))]),
        manifest: manifest(rev),
        naming: case_named(assert_args),
        typing: case_typed(),
        dev_mode: false,
    }
}

fn tags(issues: &Issues) -> Vec<(String, u32, u16)> {
    issues.to_vec().iter().map(|i| (i.loc.file.clone(), i.loc.lines[0], i.info.no)).collect()
}

#[test]
fn test_detectors() {
    let expected: Vec<(u16, String, u32)> = vec![
        (1, "sources/m.move".to_string(), 6),
        (2, "sources/m.move".to_string(), 6),
        (3, "sources/m.move".to_string(), 7),
        (4, "sources/m.move".to_string(), 3),
        (5, "sources/m.move".to_string(), 7),
        (6, "sources/m.move".to_string(), 8),
        (7, "sources/m.move".to_string(), 9),
        (8, "Move.toml".to_string(), 0),
    ];
    for (detector, (no, file, line)) in Detectors::default().meta().into_iter().zip(expected) {
        assert_eq!(detector.info.no, no);
        let ast = package(2, "main");
        let ctx = lint::main(LintConfig::default(), &ast, Some(Detectors::from(vec![detector])))
            .expect("the pass succeeds");
        assert_eq!(tags(&ctx.issues), vec![(file, line, no)], "Detector error: {}", no);
    }
}

#[test]
fn default_pass_reports_every_rule_in_order() {
    let ast = package(2, "main");
    let issues = move_lint::move_lint(LintConfig::default(), &ast).expect("the pass succeeds");
    let nos: Vec<u16> = issues.to_vec().iter().map(|i| i.info.no).collect();
    assert_eq!(nos, vec![1, 2, 3, 4, 5, 6, 7, 8]);
}

#[test]
fn mul_before_div_found_once_at_outer_multiplication() {
    // (x / y) * z
    let text = "fun g(x: u64, y: u64, z: u64): u64 { (x / y) * z }";
    let at = |n: &str| {
        let s = text.find(n).unwrap();
        Loc { file: 1, start: s as u32, end: (s + n.len()) as u32 }
    };
    let e = bin(bin(var("x", at("x /")), BinOp::Div, var("y", at("y)")), at("x / y")), BinOp::Mul, var("z", at("z }")), at("(x / y) * z"));
    let g = function("g", Visibility::Public, &["x", "y", "z"], vec![SequenceItem::Expr(e)], at("fun g"));
    let ast = PackageAst {
        files: FileSources::new(vec![(1, FileSource::new("g.move".to_string(), text.to_string()))]),
        manifest: SourceManifest { dependencies: vec![], dev_dependencies: vec![] },
        naming: vec![],
        typing: vec![typed::Module { ident: ident("g"), functions: vec![g] }],
        dev_mode: false,
    };
    let d = <move_lint::rules::Detector7 as move_lint::rules::AbstractDetector>::detector();
    let ctx = lint::main(LintConfig::default(), &ast, Some(Detectors::from(vec![d]))).unwrap();
    assert_eq!(ctx.issues.len(), 1);
    let issue = ctx.issues.get(0);
    assert_eq!(issue.loc.start, at("(x / y) * z").start);
    assert_eq!(issue.loc.end, at("(x / y) * z").end);
    assert_eq!(issue.loc.lines, vec![1]);
    assert_eq!(issue.info.title, "multiplication comes before division");
}

#[test]
fn div_after_mul_not_found() {
    // (x * y) / z
    let l = Loc { file: 1, start: 0, end: 1 };
    let e = bin(bin(var("x", l), BinOp::Mul, var("y", l), l), BinOp::Div, var("z", l), l);
    let g = function("g", Visibility::Public, &["x", "y", "z"], vec![SequenceItem::Expr(e)], l);
    let ast = PackageAst {
        files: FileSources::new(vec![]),
        manifest: SourceManifest { dependencies: vec![], dev_dependencies: vec![] },
        naming: vec![],
        typing: vec![typed::Module { ident: ident("g"), functions: vec![g] }],
        dev_mode: false,
    };
    let d = <move_lint::rules::Detector7 as move_lint::rules::AbstractDetector>::detector();
    let ctx = lint::main(LintConfig::default(), &ast, Some(Detectors::from(vec![d]))).unwrap();
    assert!(ctx.issues.is_empty());
}

fn manifest_only(rev: &str, dev: bool) -> PackageAst {
    let dep = Dependency { name: "Lib".to_string(), kind: DependencyKind::Git { git_rev: rev.to_string() } };
    let manifest = if dev {
        SourceManifest { dependencies: vec![], dev_dependencies: vec![dep] }
    } else {
        SourceManifest { dependencies: vec![dep], dev_dependencies: vec![] }
    };
    PackageAst {
        files: FileSources::new(vec![]),
        manifest,
        naming: vec![],
        typing: vec![],
        dev_mode: false,
    }
}

fn run_branch_rule(ast: &PackageAst) -> Issues {
    let d = <move_lint::rules::Detector8 as move_lint::rules::AbstractDetector>::detector();
    lint::main(LintConfig::default(), ast, Some(Detectors::from(vec![d]))).unwrap().issues
}

#[test]
fn branch_pinned_dependency_found_at_manifest() {
    let issues = run_branch_rule(&manifest_only("main", false));
    assert_eq!(issues.len(), 1);
    let i = issues.get(0);
    assert_eq!(i.loc.file, "Move.toml");
    assert_eq!((i.loc.start, i.loc.end), (0, 0));
    assert_eq!(i.loc.lines, vec![0]);
    assert_eq!(
        i.info.description,
        Some("Relying on libraries 'Lib' to use branch names instead of versions can result in errors".to_string())
    );
}

#[test]
fn commit_pinned_dependency_not_found() {
    assert!(run_branch_rule(&manifest_only("a1b2c3d", false)).is_empty());
}

#[test]
fn dev_dependency_checked_only_in_dev_mode() {
    assert!(run_branch_rule(&manifest_only("develop", true)).is_empty());
    let mut ast = manifest_only("develop", true);
    ast.dev_mode = true;
    assert_eq!(run_branch_rule(&ast).len(), 1);
}

#[test]
fn pass_aborts_on_malformed_assert() {
    // The first detector finds an issue; the second meets an assertion
    // with one argument; the third never runs.
    let ast = package(1, "main");
    let mut ds = Detectors::new();
    ds.add(<move_lint::rules::Detector7 as move_lint::rules::AbstractDetector>::detector());
    ds.add(<move_lint::rules::Detector2 as move_lint::rules::AbstractDetector>::detector());
    ds.add(<move_lint::rules::Detector3 as move_lint::rules::AbstractDetector>::detector());
    let r = lint::main(LintConfig::default(), &ast, Some(ds));
    assert!(matches!(r, Err(move_lint::detector::LintError::Malformed { no: 2 })));
}

#[test]
fn deprecated_call_carries_description() {
    let ast = package(2, "main");
    let d = <move_lint::rules::Detector6 as move_lint::rules::AbstractDetector>::detector();
    let ctx = lint::main(LintConfig::default(), &ast, Some(Detectors::from(vec![d]))).unwrap();
    assert_eq!(ctx.issues.len(), 1);
    assert_eq!(
        ctx.issues.get(0).info.description,
        Some("The function '0x1::NFT::register' has been deprecated, and calling it may lead to a logical error".to_string())
    );
}

fn run_rule_on(typing: Vec<typed::Module>, detector: move_lint::detector::Detector) -> Issues {
    let ast = PackageAst {
        files: FileSources::new(vec![(FILE, FileSource::new("sources/m.move".to_string(), CASE.to_string()))]),
        manifest: SourceManifest { dependencies: vec![], dev_dependencies: vec![] },
        naming: vec![],
        typing,
        dev_mode: false,
    };
    lint::main(LintConfig::default(), &ast, Some(Detectors::from(vec![detector]))).unwrap().issues
}

fn one_function(params: &[&str], body: Vec<SequenceItem>) -> Vec<typed::Module> {
    vec![typed::Module { ident: ident("m"), functions: vec![function("f", Visibility::Public, params, body, span("public fun f"))] }]
}

#[test]
fn assertion_placed_first_not_found() {
    let l6 = "assert!(b > 0, 0);";
    let assert = exp(
        ExpKind::Builtin(BuiltinFunction::Assert, Box::new(exp(ExpKind::Other(vec![var("b", span_in(l6, "b"))]), u64t(), span(l6)))),
        u64t(),
        span(l6),
    );
    let body = vec![SequenceItem::Expr(assert), SequenceItem::Expr(var("a", span("a;")))];
    let d = <move_lint::rules::Detector1 as move_lint::rules::AbstractDetector>::detector();
    assert!(run_rule_on(one_function(&["a", "b"], body), d).is_empty());
}

#[test]
fn rebound_parameter_not_found() {
    let l6 = "assert!(b > 0, 0);";
    let assert = exp(
        ExpKind::Builtin(BuiltinFunction::Assert, Box::new(exp(ExpKind::Other(vec![var("b", span_in(l6, "b"))]), u64t(), span(l6)))),
        u64t(),
        span(l6),
    );
    let body = vec![
        SequenceItem::Bind(vec![LValue::Var(Var { name: "b".to_string(), loc: span("b:") })], var("a", span("a;"))),
        SequenceItem::Expr(assert),
    ];
    let d = <move_lint::rules::Detector1 as move_lint::rules::AbstractDetector>::detector();
    assert!(run_rule_on(one_function(&["a", "b"], body), d).is_empty());
}

#[test]
fn cast_to_other_type_not_found() {
    let cast = exp(
        ExpKind::Cast(Box::new(var("a", span("a as"))), Type::Builtin(BuiltinType::U128)),
        Type::Builtin(BuiltinType::U128),
        span("(a as u64)"),
    );
    let d = <move_lint::rules::Detector3 as move_lint::rules::AbstractDetector>::detector();
    assert!(run_rule_on(one_function(&["a"], vec![SequenceItem::Expr(cast)]), d).is_empty());
}

#[test]
fn shift_below_width_not_found() {
    let shift = bin(
        var("a", span("a as")),
        BinOp::Shr,
        exp(ExpKind::Value(Value::U8(63)), Type::Builtin(BuiltinType::U8), span("64;")),
        span("(a as u64) << 64"),
    );
    let d = <move_lint::rules::Detector5 as move_lint::rules::AbstractDetector>::detector();
    assert!(run_rule_on(one_function(&["a"], vec![SequenceItem::Expr(shift)]), d).is_empty());
}

#[test]
fn called_private_function_not_found() {
    let mut modules = case_typed();
    let call = exp(
        ExpKind::ModuleCall {
            module: ident("m"),
            name: "helper".to_string(),
            arguments: Box::new(var("a", span("a;"))),
        },
        u64t(),
        span("NFT::register();"),
    );
    if let FunctionBody::Defined(items) = &mut modules[0].functions[1].body {
        items.push(SequenceItem::Expr(call));
    }
    let d = <move_lint::rules::Detector4 as move_lint::rules::AbstractDetector>::detector();
    assert!(run_rule_on(modules, d).is_empty());
}

#[test]
fn call_of_other_address_not_deprecated() {
    let call = exp(
        ExpKind::ModuleCall {
            module: ModuleIdent { address: address(2), address_name: "0x2".to_string(), module: "NFT".to_string() },
            name: "register".to_string(),
            arguments: Box::new(exp(ExpKind::Other(vec![]), u64t(), span("()"))),
        },
        u64t(),
        span("NFT::register();"),
    );
    let d = <move_lint::rules::Detector6 as move_lint::rules::AbstractDetector>::detector();
    assert!(run_rule_on(one_function(&[], vec![SequenceItem::Expr(call)]), d).is_empty());
}

#[test]
fn unused_private_functions_reported_in_key_order() {
    let body = |n: &str| vec![SequenceItem::Expr(var(n, span("x }")))];
    let b = function("b", Visibility::Internal, &["x"], body("x"), Loc { file: FILE, start: 0, end: 1 });
    let a = function("a", Visibility::Internal, &["x"], body("x"), Loc { file: FILE, start: 16, end: 17 });
    let c = function("c", Visibility::Internal, &["x"], body("x"), Loc { file: FILE, start: 2, end: 3 });
    let modules = vec![
        typed::Module { ident: ident("z"), functions: vec![c] },
        typed::Module { ident: ident("m"), functions: vec![b, a] },
    ];
    let d = <move_lint::rules::Detector4 as move_lint::rules::AbstractDetector>::detector();
    let issues = run_rule_on(modules, d);
    let starts: Vec<u32> = issues.to_vec().iter().map(|i| i.loc.start).collect();
    // 0x1::m::a, 0x1::m::b, 0x1::z::c
    assert_eq!(starts, vec![16, 0, 2]);
}
