use rudra::ir::{
    AdtItem, Bounds, Callee, DefId, DefPathData, Definition, Expr, ExprKind, FnItem, ImplHeader,
    ImplItem, ImplOf, Item, Program, Res, Stmt, Ty, TypedBody,
};
use rudra::log::Verbosity;
use rudra::paths::PathMatcher;
use rudra::report::{AnalysisKind, Finding, ReportLevel, Span};
use rudra::sensitive::{
    sensitive_matcher, sensitive_paths, severity_of, COPY, DEALLOC, FROM_RAW, READ, SET_LEN,
    TRANSMUTE, UNCHECKED_INDEX, UNINIT, WRITE,
};
use rudra::{analyze, analyze_with, compile_time_sysroot, run_analysis, BuildEnv, RudraConfig};

fn at(index: usize) -> DefId {
    DefId { index }
}

fn place(lo: u32) -> Span {
    Span { lo, hi: lo + 1 }
}

fn plain(parent: Option<usize>, name: &str, lo: u32, item: Item) -> Definition {
    let data = if parent.is_none() {
        DefPathData::CrateRoot { name: name.to_string() }
    } else {
        DefPathData::Named(name.to_string())
    };
    Definition { parent: parent.map(at), data, span: place(lo), item }
}

fn implementation(parent: usize, lo: u32, self_adt: Option<usize>, item: Item) -> Definition {
    Definition {
        parent: Some(at(parent)),
        data: DefPathData::Impl(ImplHeader {
            self_ty: "Holder<T>".to_string(),
            self_adt: self_adt.map(at),
            self_home: self_adt.map(at),
            trait_ref: None,
        }),
        span: place(lo),
        item,
    }
}

fn step(owner: usize, lo: u32, callee: usize, defines: Option<u32>, uses: Vec<u32>) -> Stmt {
    Stmt {
        expr: Expr {
            owner: at(owner),
            kind: ExprKind::Call(Callee::Path(Res::Def(at(callee)))),
            span: place(lo),
        },
        region: 0,
        defines,
        uses,
        operand: Ty::RawPtr(Box::new(Ty::Param(0))),
    }
}

/// A program in which every detector finds one thing.
fn sample() -> Program {
    let unbounded = Bounds { send: false, sync: false, copy: false };
    let holder = |args: Vec<Ty>| Ty::Adt { def: at(8), args };
    Program {
        defs: vec![
            /* 0 */ plain(None, "core", 0, Item::Other),
            /* 1 */ plain(Some(0), "ptr", 0, Item::Other),
            /* 2 */
            plain(Some(1), "drop_in_place", 0, Item::Fn(FnItem { reachable: true, body: None })),
            /* 3 */ plain(Some(1), "read", 0, Item::Fn(FnItem { reachable: true, body: None })),
            /* 4 */ plain(None, "demo", 0, Item::Other),
            /* 5 */ plain(Some(4), "Hook", 0, Item::Trait),
            /* 6 */ plain(Some(5), "call", 0, Item::Fn(FnItem { reachable: true, body: None })),
            /* 7 */ plain(Some(4), "len", 0, Item::Fn(FnItem { reachable: true, body: None })),
            /* 8 */
            plain(
                Some(4),
                "Holder",
                40,
                Item::Adt(AdtItem {
                    generics: vec![unbounded],
                    fields: vec![Ty::RawPtr(Box::new(Ty::Param(0)))],
                }),
            ),
            /* 9 */
            implementation(
                4,
                90,
                None,
                Item::Impl(ImplItem {
                    of: ImplOf::Send,
                    generics: vec![unbounded],
                    self_ty: holder(vec![Ty::Param(0)]),
                    drop_fn: None,
                }),
            ),
            /* 10 */
            implementation(
                4,
                30,
                None,
                Item::Impl(ImplItem {
                    of: ImplOf::Drop,
                    generics: vec![unbounded],
                    self_ty: holder(vec![Ty::Param(0)]),
                    drop_fn: Some(at(11)),
                }),
            ),
            /* 11 */
            plain(
                Some(10),
                "drop",
                31,
                Item::Fn(FnItem {
                    reachable: false,
                    body: Some(TypedBody { stmts: vec![step(11, 32, 2, None, vec![0])] }),
                }),
            ),
            /* 12 */
            plain(
                Some(4),
                "take",
                50,
                Item::Fn(FnItem {
                    reachable: true,
                    body: Some(TypedBody {
                        stmts: vec![
                            step(12, 51, 7, Some(1), vec![0]),
                            step(12, 52, 6, None, vec![0]),
                            step(12, 53, 3, None, vec![0, 1]),
                        ],
                    }),
                }),
            ),
        ],
    }
}

fn everything() -> RudraConfig {
    RudraConfig {
        verbosity: Verbosity::Normal,
        report_level: ReportLevel::Info,
        unsafe_destructor_enabled: true,
        send_sync_variance_enabled: true,
        unsafe_dataflow_enabled: true,
    }
}

fn send_finding() -> Finding {
    Finding::new(
        AnalysisKind::SendSyncVariance,
        ReportLevel::Error,
        "Suspicious impl of `Send` found",
        place(90),
        vec![],
    )
}

fn read_finding() -> Finding {
    Finding::new(
        AnalysisKind::UnsafeDataflow,
        ReportLevel::Error,
        "Potential unsafe dataflow issue",
        place(53),
        vec![place(52), place(53)],
    )
}

fn drop_finding() -> Finding {
    Finding::new(
        AnalysisKind::UnsafeDestructor,
        ReportLevel::Warning,
        "unsafe block detected in drop",
        place(30),
        vec![place(32)],
    )
}

#[test]
fn the_default_configuration_runs_two_detectors_at_info() {
    let config = RudraConfig::default();
    assert_eq!(config.verbosity, Verbosity::Normal);
    assert_eq!(config.report_level, ReportLevel::Info);
    assert!(!config.unsafe_destructor_enabled);
    assert!(config.send_sync_variance_enabled);
    assert!(config.unsafe_dataflow_enabled);
}

#[test]
fn the_report_is_sorted_over_all_detectors() {
    let found = analyze(&sample(), everything());
    assert_eq!(found, vec![read_finding(), send_finding(), drop_finding()]);
}

#[test]
fn the_default_configuration_leaves_destructors_out() {
    let found = analyze(&sample(), RudraConfig::default());
    assert_eq!(found, vec![read_finding(), send_finding()]);
}

#[test]
fn each_detector_can_be_switched_off() {
    let mut config = everything();
    config.send_sync_variance_enabled = false;
    assert_eq!(analyze(&sample(), config), vec![read_finding(), drop_finding()]);
    config.unsafe_dataflow_enabled = false;
    assert_eq!(analyze(&sample(), config), vec![drop_finding()]);
    config.unsafe_destructor_enabled = false;
    assert!(analyze(&sample(), config).is_empty());
}

#[test]
fn the_report_is_cut_at_the_configured_severity() {
    let mut config = everything();
    config.report_level = ReportLevel::Error;
    assert_eq!(analyze(&sample(), config), vec![read_finding(), send_finding()]);
    config.report_level = ReportLevel::Warning;
    assert_eq!(
        analyze(&sample(), config),
        vec![read_finding(), send_finding(), drop_finding()]
    );
}

#[test]
fn two_runs_over_one_program_give_the_same_report() {
    let program = sample();
    let first = analyze(&program, everything());
    let second = analyze(&program, everything());
    assert_eq!(first, second);
    assert_eq!(first.len(), 3);
}

#[test]
fn two_runs_on_one_context_give_the_same_report() {
    let program = sample();
    let sensitive = sensitive_matcher();
    let mut ctx = rudra::context::AnalysisContext::new(&program, ReportLevel::Info);
    let first = rudra::run_detectors(&mut ctx, everything(), &sensitive);
    let computed = ctx.path_computations();
    let second = rudra::run_detectors(&mut ctx, everything(), &sensitive);
    assert_eq!(first, second);
    assert_eq!(first, vec![read_finding(), send_finding(), drop_finding()]);
    assert_eq!(ctx.path_computations(), computed);
}

#[test]
fn run_detectors_reports_what_the_context_held_before() {
    let program = sample();
    let sensitive = sensitive_matcher();
    let mut ctx = rudra::context::AnalysisContext::new(&program, ReportLevel::Warning);
    let early = Finding::new(AnalysisKind::UnsafeDataflow, ReportLevel::Error, "early", place(1), vec![]);
    let quiet = Finding::new(AnalysisKind::UnsafeDataflow, ReportLevel::Info, "quiet", place(2), vec![]);
    ctx.report(early.clone());
    ctx.report(quiet);
    let mut config = everything();
    config.report_level = ReportLevel::Info;
    config.unsafe_dataflow_enabled = false;
    let found = rudra::run_detectors(&mut ctx, config, &sensitive);
    assert_eq!(found, vec![early, send_finding(), drop_finding()]);
}

#[test]
fn run_detectors_records_the_failures_of_the_enabled_detectors() {
    let program = sample();
    let sensitive = sensitive_matcher();
    let mut ctx = rudra::context::AnalysisContext::new(&program, ReportLevel::Info);
    let mut config = everything();
    config.unsafe_dataflow_enabled = false;
    rudra::run_detectors(&mut ctx, config, &sensitive);
    assert!(ctx.take_failures().is_empty());
    rudra::run_detectors(&mut ctx, everything(), &sensitive);
    // Four reachable functions are declarations without a body.
    assert_eq!(ctx.take_failures(), vec![rudra::analysis::AnalysisError::NoBody; 4]);
}

#[test]
fn an_empty_program_has_no_findings() {
    assert!(analyze(&Program { defs: vec![] }, everything()).is_empty());
}

#[test]
fn analyze_with_takes_its_own_catalog() {
    let none = PathMatcher::build(&[]).unwrap();
    assert_eq!(analyze_with(&sample(), everything(), &none), vec![send_finding()]);
    let custom = PathMatcher::build_grouped(&[("core::ptr::read", TRANSMUTE)]).unwrap();
    let mut info = read_finding();
    info.level = ReportLevel::Info;
    assert_eq!(analyze_with(&sample(), everything(), &custom), vec![send_finding(), info]);
}

#[test]
fn run_analysis_hands_back_what_the_analysis_produced() {
    assert_eq!(run_analysis("answer", || 42), 42);
    let text = String::from("kept");
    assert_eq!(run_analysis("move", move || text), "kept");
}

#[test]
fn the_catalog_knows_the_sensitive_operations() {
    let m = sensitive_matcher();
    assert_eq!(m.match_group("core::ptr::read"), Some(READ));
    assert_eq!(m.match_group("core::ptr::read_unaligned"), Some(READ));
    assert_eq!(m.match_group("core::ptr::read_volatile"), Some(READ));
    assert_eq!(m.match_group("alloc::vec::Vec::from_raw_parts"), Some(FROM_RAW));
    assert_eq!(m.match_group("core::intrinsics::copy"), Some(COPY));
    assert_eq!(m.match_group("core::intrinsics::copy_nonoverlapping"), Some(COPY));
    assert_eq!(m.match_group("alloc::vec::Vec::set_len"), Some(SET_LEN));
    assert_eq!(m.match_group("core::ptr::write"), Some(WRITE));
    assert_eq!(m.match_group("core::slice::<impl [T]>::get_unchecked"), Some(UNCHECKED_INDEX));
    assert_eq!(m.match_group("core::slice::<impl [T]>::get_unchecked_mut"), Some(UNCHECKED_INDEX));
    assert_eq!(m.match_group("core::intrinsics::transmute"), Some(TRANSMUTE));
    assert_eq!(m.match_group("core::ptr::drop_in_place"), Some(DEALLOC));
    assert_eq!(m.match_group("alloc::alloc::dealloc"), Some(DEALLOC));
    assert_eq!(
        m.match_group("core::mem::maybe_uninit::MaybeUninit::assume_init"),
        Some(UNINIT)
    );
    assert_eq!(m.match_group("core::mem::uninitialized"), Some(UNINIT));
    assert_eq!(m.match_group("core::ptr"), None);
    assert_eq!(m.match_group("core::mem::swap"), None);
    assert_eq!(sensitive_paths().len(), 15);
}

#[test]
fn each_group_has_its_severity() {
    assert_eq!(severity_of(READ), ReportLevel::Error);
    assert_eq!(severity_of(FROM_RAW), ReportLevel::Error);
    assert_eq!(severity_of(COPY), ReportLevel::Warning);
    assert_eq!(severity_of(SET_LEN), ReportLevel::Warning);
    assert_eq!(severity_of(WRITE), ReportLevel::Warning);
    assert_eq!(severity_of(UNCHECKED_INDEX), ReportLevel::Info);
    assert_eq!(severity_of(TRANSMUTE), ReportLevel::Info);
    assert_eq!(severity_of(DEALLOC), ReportLevel::Info);
    assert_eq!(severity_of(UNINIT), ReportLevel::Info);
    assert_eq!(severity_of(0), ReportLevel::Info);
    assert_eq!(severity_of(1000), ReportLevel::Info);
}

fn env(values: [Option<&str>; 6]) -> BuildEnv {
    let own = |v: Option<&str>| v.map(|s| s.to_string());
    BuildEnv {
        rustc_stage: own(values[0]),
        rustup_home: own(values[1]),
        multirust_home: own(values[2]),
        rustup_toolchain: own(values[3]),
        multirust_toolchain: own(values[4]),
        rust_sysroot: own(values[5]),
    }
}

#[test]
fn a_build_inside_the_compiler_has_no_default_sysroot() {
    let e = env([Some("1"), Some("/home"), None, Some("nightly"), None, Some("/sys")]);
    assert_eq!(compile_time_sysroot(&e), None);
    let e = env([Some(""), None, None, None, None, None]);
    assert_eq!(compile_time_sysroot(&e), None);
}

#[test]
fn home_and_toolchain_give_the_sysroot() {
    let e = env([None, Some("/home/.rustup"), None, Some("nightly-x86"), None, None]);
    assert_eq!(
        compile_time_sysroot(&e),
        Some("/home/.rustup/toolchains/nightly-x86".to_string())
    );
}

#[test]
fn the_newer_variables_go_first() {
    let e = env([None, Some("/new"), Some("/old"), Some("stable"), Some("beta"), Some("/sys")]);
    assert_eq!(compile_time_sysroot(&e), Some("/new/toolchains/stable".to_string()));
    let e = env([None, None, Some("/old"), None, Some("beta"), Some("/sys")]);
    assert_eq!(compile_time_sysroot(&e), Some("/old/toolchains/beta".to_string()));
    let e = env([None, Some("/new"), None, None, Some("beta"), None]);
    assert_eq!(compile_time_sysroot(&e), Some("/new/toolchains/beta".to_string()));
}

#[test]
fn without_home_or_toolchain_the_sysroot_variable_counts() {
    let e = env([None, Some("/home"), None, None, None, Some("/opt/sysroot")]);
    assert_eq!(compile_time_sysroot(&e), Some("/opt/sysroot".to_string()));
    let e = env([None, None, None, Some("nightly"), None, Some("/opt/sysroot")]);
    assert_eq!(compile_time_sysroot(&e), Some("/opt/sysroot".to_string()));
    let e = env([None, None, None, None, None, Some("")]);
    assert_eq!(compile_time_sysroot(&e), Some(String::new()));
}
