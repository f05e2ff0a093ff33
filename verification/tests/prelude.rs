use rudra::analysis::{AnalysisError, AnalysisErrorKind};
use rudra::ir::{
    Callee, DefId, DefPathData, Definition, Expr, ExprKind, FnItem, ImplHeader, Item, Program,
    Res, TraitRef, Ty, TypedBody, Unsafety,
};
use rudra::log::{LogLevel, Verbosity};
use rudra::prelude::{ExprExt, ExtError, TyCtxtExt};
use rudra::report::Span;

fn id(index: usize) -> DefId {
    DefId { index }
}

fn def(parent: Option<usize>, data: DefPathData, item: Item) -> Definition {
    Definition { parent: parent.map(id), data, span: Span { lo: 0, hi: 0 }, item }
}

fn root(name: &str) -> Definition {
    def(None, DefPathData::CrateRoot { name: name.to_string() }, Item::Other)
}

fn named(parent: usize, name: &str, item: Item) -> Definition {
    def(Some(parent), DefPathData::Named(name.to_string()), item)
}

fn function(parent: usize, name: &str, with_body: bool) -> Definition {
    let body = if with_body { Some(TypedBody { stmts: Vec::new() }) } else { None };
    named(parent, name, Item::Fn(FnItem { reachable: true, body }))
}

fn header(
    self_ty: &str,
    self_adt: Option<usize>,
    self_home: Option<usize>,
    trait_ref: Option<(usize, &str, &str)>,
) -> DefPathData {
    DefPathData::Impl(ImplHeader {
        self_ty: self_ty.to_string(),
        self_adt: self_adt.map(id),
        self_home: self_home.map(id),
        trait_ref: trait_ref.map(|(t, path, debug)| TraitRef {
            def: id(t),
            path: path.to_string(),
            debug: debug.to_string(),
        }),
    })
}

fn path(program: &Program, index: usize) -> Vec<String> {
    program.ext().get_def_path(id(index))
}

fn library() -> Program {
    Program {
        defs: vec![
            /* 0 */ root("alloc"),
            /* 1 */ named(0, "vec", Item::Other),
            /* 2 */ named(1, "Vec", Item::Other),
            /* 3 */ def(Some(1), header("Vec<T>", Some(2), Some(2), None), Item::Other),
            /* 4 */ function(3, "set_len", false),
            /* 5 */ root("core"),
            /* 6 */ named(5, "marker", Item::Other),
            /* 7 */ named(6, "Send", Item::Trait),
            /* 8 */ root("demo"),
            /* 9 */ named(8, "Wrapper", Item::Other),
            /* 10 */
            def(
                Some(8),
                header(
                    "Wrapper<T>",
                    Some(9),
                    Some(9),
                    Some((7, "core::marker::Send", "<Wrapper<T> as core::marker::Send>")),
                ),
                Item::Other,
            ),
            /* 11 */ named(8, "inner", Item::Other),
            /* 12 */
            def(
                Some(11),
                header("Wrapper<T>", Some(9), Some(9), Some((7, "core::marker::Send", "dbg"))),
                Item::Other,
            ),
            /* 13 */ def(Some(11), header("Wrapper<T>", Some(9), Some(9), None), Item::Other),
            /* 14 */ def(Some(8), header("*mut u8", None, None, None), Item::Other),
            /* 15 */ def(Some(8), header("&Wrapper<T>", None, Some(9), None), Item::Other),
            /* 16 */ def(Some(8), DefPathData::ForeignMod, Item::Other),
            /* 17 */ function(16, "memcpy", false),
            /* 18 */ def(Some(9), DefPathData::Ctor, Item::Other),
            /* 19 */ function(10, "method", true),
        ],
    }
}

#[test]
fn a_crate_root_is_its_name() {
    assert_eq!(path(&library(), 0), vec!["alloc"]);
    assert_eq!(path(&library(), 8), vec!["demo"]);
}

#[test]
fn a_named_definition_follows_its_parent() {
    assert_eq!(path(&library(), 1), vec!["alloc", "vec"]);
    assert_eq!(path(&library(), 2), vec!["alloc", "vec", "Vec"]);
    assert_eq!(path(&library(), 7), vec!["core", "marker", "Send"]);
}

#[test]
fn an_inherent_impl_beside_its_type_goes_by_the_type() {
    assert_eq!(path(&library(), 3), vec!["alloc", "vec", "Vec"]);
    assert_eq!(path(&library(), 4), vec!["alloc", "vec", "Vec", "set_len"]);
}

#[test]
fn a_trait_impl_beside_its_type_is_one_component() {
    assert_eq!(path(&library(), 10), vec!["<Wrapper<T> as core::marker::Send>"]);
    assert_eq!(path(&library(), 19), vec!["<Wrapper<T> as core::marker::Send>", "method"]);
}

#[test]
fn an_impl_away_from_type_and_trait_is_named_below_its_module() {
    assert_eq!(
        path(&library(), 12),
        vec!["demo", "inner", "<impl core::marker::Send for Wrapper<T>>"]
    );
    assert_eq!(path(&library(), 13), vec!["demo", "inner", "<impl Wrapper<T>>"]);
    assert_eq!(path(&library(), 14), vec!["demo", "<impl *mut u8>"]);
}

#[test]
fn an_inherent_impl_beside_a_pointee_is_the_type_in_brackets() {
    assert_eq!(path(&library(), 15), vec!["<&Wrapper<T>>"]);
}

#[test]
fn foreign_blocks_and_constructors_add_nothing() {
    assert_eq!(path(&library(), 16), vec!["demo"]);
    assert_eq!(path(&library(), 17), vec!["demo", "memcpy"]);
    assert_eq!(path(&library(), 18), vec!["demo", "Wrapper"]);
}

#[test]
fn an_unknown_definition_has_the_empty_path() {
    assert_eq!(path(&library(), 99), Vec::<String>::new());
    assert_eq!(path(&Program { defs: vec![] }, 0), Vec::<String>::new());
}

#[test]
fn a_definition_without_a_parent_starts_a_path() {
    let program = Program {
        defs: vec![def(None, DefPathData::Named("lost".to_string()), Item::Other)],
    };
    assert_eq!(path(&program, 0), vec!["lost"]);
}

#[test]
fn a_cycle_of_parents_ends() {
    let program = Program { defs: vec![named(1, "a", Item::Other), named(0, "b", Item::Other)] };
    assert_eq!(path(&program, 0), vec!["b", "a"]);
    assert_eq!(path(&program, 1), vec!["a", "b"]);
}

#[test]
fn match_def_path_compares_symbol_for_symbol() {
    let program = library();
    let ext = program.ext();
    assert!(ext.match_def_path(id(4), &["alloc", "vec", "Vec", "set_len"]));
    assert!(!ext.match_def_path(id(4), &["alloc", "vec", "Vec"]));
    assert!(!ext.match_def_path(id(4), &["alloc", "vec", "Vec", "set_len", "x"]));
    assert!(!ext.match_def_path(id(4), &["alloc", "vec", "Vec", "len"]));
    assert!(!ext.match_def_path(id(4), &["alloc::vec::Vec::set_len"]));
    assert!(ext.match_def_path(id(99), &[]));
}

#[test]
fn function_types_have_an_unsafety() {
    let program = library();
    let ext = program.ext();
    assert_eq!(ext.fn_type_unsafety(&Ty::FnDef(Unsafety::Unsafe)), Ok(Unsafety::Unsafe));
    assert_eq!(ext.fn_type_unsafety(&Ty::FnPtr(Unsafety::Normal)), Ok(Unsafety::Normal));
    assert_eq!(ext.fn_type_unsafety(&Ty::Closure(Unsafety::Normal)), Ok(Unsafety::Normal));
}

#[test]
fn other_types_have_no_unsafety() {
    let program = library();
    let ext = program.ext();
    assert_eq!(ext.fn_type_unsafety(&Ty::Other), Err(ExtError::NonFunctionType));
    assert_eq!(ext.fn_type_unsafety(&Ty::Param(0)), Err(ExtError::NonFunctionType));
    assert_eq!(
        ext.fn_type_unsafety(&Ty::RawPtr(Box::new(Ty::FnPtr(Unsafety::Unsafe)))),
        Err(ExtError::NonFunctionType)
    );
    assert_eq!(
        ext.fn_type_unsafety(&Ty::Adt { def: id(2), args: vec![] }),
        Err(ExtError::NonFunctionType)
    );
}

fn expr(owner: usize, kind: ExprKind) -> Expr {
    Expr { owner: id(owner), kind, span: Span { lo: 1, hi: 2 } }
}

#[test]
fn a_call_of_a_path_goes_to_its_definition() {
    let program = library();
    let e = expr(19, ExprKind::Call(Callee::Path(Res::Def(id(4)))));
    assert_eq!(e.ext().as_fn_def_id(&program), Some(id(4)));
    assert_eq!(e.ext().resolve_fn_def(&program), Ok(Some(id(4))));
}

#[test]
fn a_method_call_goes_where_type_checking_says() {
    let program = library();
    let known = expr(19, ExprKind::MethodCall(Some(id(4))));
    assert_eq!(known.ext().as_fn_def_id(&program), Some(id(4)));
    let unknown = expr(19, ExprKind::MethodCall(None));
    assert_eq!(unknown.ext().as_fn_def_id(&program), None);
    assert_eq!(unknown.ext().resolve_fn_def(&program), Ok(None));
}

#[test]
fn an_expression_that_is_no_call_is_silently_none() {
    let program = library();
    assert_eq!(expr(19, ExprKind::Other).ext().resolve_fn_def(&program), Ok(None));
    assert_eq!(expr(19, ExprKind::RawDeref).ext().resolve_fn_def(&program), Ok(None));
    assert_eq!(expr(19, ExprKind::Other).ext().as_fn_def_id(&program), None);
}

#[test]
fn an_owner_without_a_body_is_invalid() {
    let program = library();
    let e = expr(4, ExprKind::Call(Callee::Path(Res::Def(id(4)))));
    assert_eq!(e.ext().resolve_fn_def(&program), Err(ExtError::InvalidOwner));
    assert_eq!(e.ext().as_fn_def_id(&program), None);
    let e = expr(99, ExprKind::Other);
    assert_eq!(e.ext().resolve_fn_def(&program), Err(ExtError::InvalidOwner));
}

#[test]
fn a_call_through_a_field_is_unsupported() {
    let program = library();
    let e = expr(19, ExprKind::Call(Callee::Field));
    assert_eq!(e.ext().resolve_fn_def(&program), Err(ExtError::UnsupportedCall));
    assert_eq!(e.ext().as_fn_def_id(&program), None);
}

#[test]
fn other_callees_are_unhandled() {
    let program = library();
    let local = expr(19, ExprKind::Call(Callee::Path(Res::Other)));
    assert_eq!(local.ext().resolve_fn_def(&program), Err(ExtError::UnhandledCall));
    let other = expr(19, ExprKind::Call(Callee::Other));
    assert_eq!(other.ext().resolve_fn_def(&program), Err(ExtError::UnhandledCall));
    assert_eq!(other.ext().as_fn_def_id(&program), None);
}

#[test]
fn each_error_has_its_class() {
    assert_eq!(ExtError::NonFunctionType.kind(), AnalysisErrorKind::Unreachable);
    assert_eq!(ExtError::InvalidOwner.kind(), AnalysisErrorKind::Unreachable);
    assert_eq!(ExtError::UnsupportedCall.kind(), AnalysisErrorKind::OutOfScope);
    assert_eq!(ExtError::UnhandledCall.kind(), AnalysisErrorKind::Unimplemented);
    assert_eq!(AnalysisError::NoBody.kind(), AnalysisErrorKind::OutOfScope);
    assert_eq!(
        AnalysisError::Ext(ExtError::UnhandledCall).kind(),
        AnalysisErrorKind::Unimplemented
    );
    assert_eq!(
        AnalysisError::Ext(ExtError::InvalidOwner).kind(),
        AnalysisErrorKind::Unreachable
    );
}

#[test]
fn each_class_has_its_log_level() {
    assert_eq!(AnalysisErrorKind::Unreachable.log_level(), LogLevel::Error);
    assert_eq!(AnalysisErrorKind::Unimplemented.log_level(), LogLevel::Info);
    assert_eq!(AnalysisErrorKind::OutOfScope.log_level(), LogLevel::Debug);
}

#[test]
fn out_of_scope_is_silent_at_normal_verbosity() {
    assert!(!AnalysisErrorKind::OutOfScope.is_logged(Verbosity::Normal));
    assert!(AnalysisErrorKind::OutOfScope.is_logged(Verbosity::Verbose));
    assert!(AnalysisErrorKind::OutOfScope.is_logged(Verbosity::Trace));
    assert!(AnalysisErrorKind::Unimplemented.is_logged(Verbosity::Normal));
    assert!(AnalysisErrorKind::Unreachable.is_logged(Verbosity::Normal));
}

#[test]
fn verbosity_sets_the_least_level_shown() {
    assert_eq!(Verbosity::Normal.level_filter(), LogLevel::Info);
    assert_eq!(Verbosity::Verbose.level_filter(), LogLevel::Debug);
    assert_eq!(Verbosity::Trace.level_filter(), LogLevel::Trace);
    assert!(Verbosity::Normal.shows(LogLevel::Warn));
    assert!(Verbosity::Normal.shows(LogLevel::Info));
    assert!(!Verbosity::Normal.shows(LogLevel::Debug));
    assert!(!Verbosity::Verbose.shows(LogLevel::Trace));
    assert!(Verbosity::Trace.shows(LogLevel::Trace));
    assert_eq!(LogLevel::Error.rank_value(), 1);
    assert_eq!(LogLevel::Trace.rank_value(), 5);
}
