//! Destructors whose unsafe operations rely on something that the bounds of
//! the type do not give.
//!
//! A destructor is a candidate if its body holds an unsafe operation: a
//! dereference of a raw pointer, a call that frees or drops by hand, or a
//! call that relies on memory being initialized. A candidate is reported if
//! such an operation works on a type that mentions a generic parameter of
//! the destructor's type, and the type's declared bounds do not make that
//! parameter `Copy`: dropping a value of it may then run code that the
//! destructor knows nothing of. A candidate without such an operation is
//! not reported, which does not say that it is sound.

use crate::analysis::{
    callee_failure, callee_group, first_from, group_of_callee, lemma_first_from,
    lemma_first_from_found, AnalysisError,
};
use crate::context::AnalysisContext;
use crate::ir::{AdtItem, DefId, ExprKind, ImplOf, Item, Program, Stmt, Ty, TypedBody};
use crate::paths::PathMatcher;
use crate::report::{AnalysisKind, Finding, FindingView, ReportLevel, Span};
use crate::sensitive::{DEALLOC, UNINIT};
use vstd::prelude::*;

verus! {

/// Whether `s` is an unsafe operation of the kinds that make a destructor
/// a candidate.
pub open spec fn is_unsafe_op(p: Program, catalog: Map<Seq<Seq<char>>, u32>, s: Stmt) -> bool {
    ||| s.expr.kind == ExprKind::RawDeref
    ||| callee_group(p, catalog, s.expr) == Some(DEALLOC)
    ||| callee_group(p, catalog, s.expr) == Some(UNINIT)
}

/// Whether `operand` mentions a generic parameter of `adt` that the
/// declared bounds do not make `Copy`.
pub open spec fn unguarded(adt: AdtItem, operand: Ty) -> bool {
    exists|k: usize|
        k < adt.generics@.len() && operand.mentions(k) && !(#[trigger] adt.generics@[k as int]).copy
}

/// Whether statement `s` of `body` is an unsafe operation on an unguarded
/// parameter of `adt`.
pub open spec fn gap_at(
    p: Program,
    catalog: Map<Seq<Seq<char>>, u32>,
    adt: AdtItem,
    body: TypedBody,
    s: int,
) -> bool {
    &&& 0 <= s < body.stmts@.len()
    &&& is_unsafe_op(p, catalog, body.stmts@[s])
    &&& unguarded(adt, body.stmts@[s].operand)
}

/// `gap_at` as a predicate on the position.
pub open spec fn gaps(
    p: Program,
    catalog: Map<Seq<Seq<char>>, u32>,
    adt: AdtItem,
    body: TypedBody,
) -> spec_fn(int) -> bool {
    |s: int| gap_at(p, catalog, adt, body, s)
}

/// The type of the destructor at position `d` and its `drop` method, if
/// the definition there is a destructor of a struct, enum or union of the
/// program.
pub open spec fn destructor_target(p: Program, d: int) -> Option<(AdtItem, DefId)> {
    if 0 <= d < p.defs@.len() {
        match p.defs@[d].item {
            Item::Impl(imp) => if imp.of == ImplOf::Drop {
                match (imp.self_ty, imp.drop_fn) {
                    (Ty::Adt { def, args }, Some(f)) => if p.has(def) {
                        match p.def(def).item {
                            Item::Adt(adt) => Some((adt, f)),
                            _ => None,
                        }
                    } else {
                        None
                    },
                    _ => None,
                }
            } else {
                None
            },
            _ => None,
        }
    } else {
        None
    }
}

/// The type and the body of the destructor at position `d`, if there is a
/// destructor whose `drop` method has a body.
pub open spec fn destructor_subject(p: Program, d: int) -> Option<(AdtItem, TypedBody)> {
    match destructor_target(p, d) {
        Some((adt, f)) => match p.body(f) {
            Some(body) => Some((adt, body)),
            None => None,
        },
        None => None,
    }
}

/// The failures met on the first `n` statements of `body`: for each
/// statement but a dereference of a raw pointer, that its callee cannot be
/// told, where that is so.
pub open spec fn scan_failures(p: Program, body: TypedBody, n: int) -> Seq<AnalysisError>
    decreases n,
{
    if n <= 0 {
        Seq::empty()
    } else if n > body.stmts@.len() || body.stmts@[n - 1].expr.kind == ExprKind::RawDeref {
        scan_failures(p, body, n - 1)
    } else {
        scan_failures(p, body, n - 1) + callee_failure(p, body.stmts@[n - 1].expr)
    }
}

/// The number of statements of `body` that are looked at: all up to the
/// first that relies on an unguarded parameter, that one included.
pub open spec fn scanned(
    p: Program,
    catalog: Map<Seq<Seq<char>>, u32>,
    adt: AdtItem,
    body: TypedBody,
) -> int {
    let s = first_from(gaps(p, catalog, adt, body), 0, body.stmts@.len() as int);
    if s < body.stmts@.len() {
        s + 1
    } else {
        s
    }
}

/// The failures met on the destructor at position `d`: that its `drop`
/// method has no body, or what the statements that are looked at fail on.
pub open spec fn destructor_failure(p: Program, catalog: Map<Seq<Seq<char>>, u32>, d: int) -> Seq<
    AnalysisError,
> {
    match destructor_target(p, d) {
        Some((adt, f)) => match p.body(f) {
            Some(body) => scan_failures(p, body, scanned(p, catalog, adt, body)),
            None => seq![AnalysisError::NoBody],
        },
        None => Seq::empty(),
    }
}

/// The failures met on the first `n` definitions of the program, in the
/// order of the definitions.
pub open spec fn destructor_failures(p: Program, catalog: Map<Seq<Seq<char>>, u32>, n: int) -> Seq<
    AnalysisError,
>
    decreases n,
{
    if n <= 0 {
        Seq::empty()
    } else {
        destructor_failures(p, catalog, n - 1) + destructor_failure(p, catalog, n - 1)
    }
}

/// The finding on the destructor at position `d`, if there is one. It is a
/// warning at the destructor, and it names the first of the operations that
/// rely on an unguarded parameter.
pub open spec fn destructor_finding(p: Program, catalog: Map<Seq<Seq<char>>, u32>, d: int) -> Option<
    FindingView,
> {
    match destructor_subject(p, d) {
        Some((adt, body)) => {
            let s = first_from(gaps(p, catalog, adt, body), 0, body.stmts@.len() as int);
            if s < body.stmts@.len() {
                Some(
                    FindingView {
                        kind: AnalysisKind::UnsafeDestructor,
                        level: ReportLevel::Warning,
                        description: "unsafe block detected in drop"@,
                        location: p.defs@[d].span,
                        related: seq![body.stmts@[s].expr.span],
                    },
                )
            } else {
                None
            }
        },
        None => None,
    }
}

/// The findings on the first `n` definitions of the program, in the order
/// of the definitions.
pub open spec fn destructor_findings(p: Program, catalog: Map<Seq<Seq<char>>, u32>, n: int) -> Seq<
    FindingView,
>
    decreases n,
{
    if n <= 0 {
        Seq::empty()
    } else {
        match destructor_finding(p, catalog, n - 1) {
            Some(f) => destructor_findings(p, catalog, n - 1).push(f),
            None => destructor_findings(p, catalog, n - 1),
        }
    }
}

/// A destructor whose body holds no unsafe operation is not reported.
pub proof fn lemma_safe_destructor_is_not_reported(
    p: Program,
    catalog: Map<Seq<Seq<char>>, u32>,
    d: int,
)
    requires
        destructor_subject(p, d) matches Some((adt, body)) && forall|s: int|
            0 <= s < body.stmts@.len() ==> !is_unsafe_op(p, catalog, #[trigger] body.stmts@[s]),
    ensures
        destructor_finding(p, catalog, d) is None,
{
    let (adt, body) = destructor_subject(p, d)->0;
    lemma_first_from_found(gaps(p, catalog, adt, body), 0, body.stmts@.len() as int);
}

/// A destructor with unsafe operations none of which depends on a
/// parameter that the bounds leave unguarded is not reported.
pub proof fn lemma_guarded_destructor_is_not_reported(
    p: Program,
    catalog: Map<Seq<Seq<char>>, u32>,
    d: int,
)
    requires
        destructor_subject(p, d) matches Some((adt, body)) && forall|s: int|
            0 <= s < body.stmts@.len() ==> !unguarded(adt, (#[trigger] body.stmts@[s]).operand),
    ensures
        destructor_finding(p, catalog, d) is None,
{
    let (adt, body) = destructor_subject(p, d)->0;
    lemma_first_from_found(gaps(p, catalog, adt, body), 0, body.stmts@.len() as int);
}

/// A destructor with an unsafe operation that depends on an unguarded
/// parameter is reported once, as a warning at the destructor, and the
/// finding names the first such operation.
pub proof fn lemma_unguarded_destructor_is_reported(
    p: Program,
    catalog: Map<Seq<Seq<char>>, u32>,
    d: int,
    s: int,
)
    requires
        destructor_subject(p, d) matches Some((adt, body)) && gap_at(p, catalog, adt, body, s),
    ensures
        destructor_finding(p, catalog, d) matches Some(f) && f.kind
            == AnalysisKind::UnsafeDestructor && f.level == ReportLevel::Warning && f.location
            == p.defs@[d].span && f.related.len() == 1,
        destructor_subject(p, d) matches Some((adt, body)) && exists|first: int|
            0 <= first <= s && gap_at(p, catalog, adt, body, first) && destructor_finding(
                p,
                catalog,
                d,
            )->0.related[0] == #[trigger] body.stmts@[first].expr.span,
{
    let (adt, body) = destructor_subject(p, d)->0;
    let pred = gaps(p, catalog, adt, body);
    lemma_first_from_found(pred, 0, body.stmts@.len() as int);
    let first = first_from(pred, 0, body.stmts@.len() as int);
    assert(pred(s));
    assert(pred(first));
}

fn is_unguarded(adt: &AdtItem, operand: &Ty) -> (b: bool)
    ensures
        b == unguarded(*adt, *operand),
{
    let mut k: usize = 0;
    while k < adt.generics.len()
        invariant
            k <= adt.generics.len(),
            forall|i: usize|
                i < k ==> !(operand.mentions(i) && !(#[trigger] adt.generics@[i as int]).copy),
        decreases adt.generics.len() - k,
    {
        if !adt.generics[k].copy && operand.has_param(k) {
            return true;
        }
        k += 1;
    }
    false
}

fn target<'p>(program: &'p Program, d: usize) -> (t: Option<(&'p AdtItem, DefId)>)
    ensures
        match t {
            Some((adt, f)) => destructor_target(*program, d as int) == Some((*adt, f)),
            None => destructor_target(*program, d as int) is None,
        },
{
    if d >= program.defs.len() {
        return None;
    }
    match &program.defs[d].item {
        Item::Impl(imp) => {
            match imp.of {
                ImplOf::Drop => {},
                _ => {
                    return None;
                },
            }
            match (&imp.self_ty, imp.drop_fn) {
                (Ty::Adt { def, args }, Some(f)) => match program.get(*def) {
                    Some(found) => match &found.item {
                        Item::Adt(adt) => Some((adt, f)),
                        _ => None,
                    },
                    None => None,
                },
                _ => None,
            }
        },
        _ => None,
    }
}

/// The detector of destructors that rely on unguarded parameters.
pub struct UnsafeDestructorChecker<'m> {
    sensitive: &'m PathMatcher,
}

impl<'m> UnsafeDestructorChecker<'m> {
    /// The catalog by which calls are recognized.
    pub closed spec fn catalog(&self) -> Map<Seq<Seq<char>>, u32> {
        self.sensitive@
    }

    pub fn new(sensitive: &'m PathMatcher) -> (checker: UnsafeDestructorChecker<'m>)
        ensures
            checker.catalog() == sensitive@,
    {
        UnsafeDestructorChecker { sensitive }
    }

    /// The position of the first statement of `body` that is an unsafe
    /// operation on an unguarded parameter of `adt`, or the number of
    /// statements if there is none.
    fn first_gap<'p>(&self, ctx: &mut AnalysisContext<'p>, adt: &AdtItem, body: &TypedBody) -> (s:
        usize)
        requires
            old(ctx).wf(),
        ensures
            final(ctx).wf(),
            s as int == first_from(
                gaps(old(ctx).program(), self.catalog(), *adt, *body),
                0,
                body.stmts@.len() as int,
            ),
            s <= body.stmts@.len(),
            old(ctx).continues_to(final(ctx)),
            final(ctx).findings() == old(ctx).findings(),
            final(ctx).failures() == old(ctx).failures() + scan_failures(
                old(ctx).program(),
                *body,
                scanned(old(ctx).program(), self.catalog(), *adt, *body),
            ),
    {
        let ghost p = ctx.program();
        let ghost pred = gaps(p, self.catalog(), *adt, *body);
        let ghost start = ctx.failures();
        let mut s: usize = 0;
        while s < body.stmts.len()
            invariant
                s <= body.stmts.len(),
                ctx.wf(),
                p == old(ctx).program(),
                old(ctx).continues_to(ctx),
                ctx.findings() == old(ctx).findings(),
                start == old(ctx).failures(),
                ctx.failures() == start + scan_failures(p, *body, s as int),
                pred == gaps(p, self.catalog(), *adt, *body),
                forall|i: int| 0 <= i < s ==> !#[trigger] pred(i),
            decreases body.stmts.len() - s,
        {
            let stmt = &body.stmts[s];
            let raw = match stmt.expr.kind {
                ExprKind::RawDeref => true,
                _ => false,
            };
            let unsafe_op = if raw {
                true
            } else {
                let group = group_of_callee(ctx, self.sensitive, &stmt.expr);
                match group {
                    Some(g) => g == DEALLOC || g == UNINIT,
                    None => false,
                }
            };
            if unsafe_op && is_unguarded(adt, &stmt.operand) {
                proof {
                    lemma_first_from(pred, 0, body.stmts@.len() as int, s as int);
                }
                return s;
            }
            s += 1;
        }
        proof {
            lemma_first_from(pred, 0, body.stmts@.len() as int, s as int);
        }
        s
    }

    /// Reports every destructor of the program that relies on an unguarded
    /// parameter, in the order of the definitions, and records the failures
    /// met on the way.
    pub fn analyze<'p>(&self, ctx: &mut AnalysisContext<'p>)
        requires
            old(ctx).wf(),
        ensures
            final(ctx).wf(),
            final(ctx).findings() == old(ctx).findings() + destructor_findings(
                old(ctx).program(),
                self.catalog(),
                old(ctx).program().defs@.len() as int,
            ),
            final(ctx).failures() == old(ctx).failures() + destructor_failures(
                old(ctx).program(),
                self.catalog(),
                old(ctx).program().defs@.len() as int,
            ),
            old(ctx).continues_to(final(ctx)),
    {
        let program = ctx.tcx();
        let ghost start = ctx.findings();
        let ghost failed = ctx.failures();
        let mut d: usize = 0;
        while d < program.defs.len()
            invariant
                d <= program.defs.len(),
                ctx.wf(),
                *program == ctx.program(),
                old(ctx).continues_to(ctx),
                ctx.findings() == start + destructor_findings(*program, self.catalog(), d as int),
                ctx.failures() == failed + destructor_failures(*program, self.catalog(), d as int),
            decreases program.defs.len() - d,
        {
            match target(program, d) {
                Some((adt, f)) => match ctx.typed_body(f) {
                    Ok(body) => {
                        let s = self.first_gap(ctx, adt, body);
                        if s < body.stmts.len() {
                            let mut related: Vec<Span> = Vec::new();
                            related.push(body.stmts[s].expr.span);
                            let finding = Finding::new(
                                AnalysisKind::UnsafeDestructor,
                                ReportLevel::Warning,
                                "unsafe block detected in drop",
                                program.defs[d].span,
                                related,
                            );
                            ctx.report(finding);
                        }
                    },
                    Err(error) => {
                        ctx.fail(error);
                    },
                },
                None => {},
            }
            d += 1;
        }
    }
}

} // verus!
