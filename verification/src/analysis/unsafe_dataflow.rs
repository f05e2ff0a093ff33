//! Unsafe operations whose precondition a call into foreign code may have
//! broken.
//!
//! In a function that can be called from outside, a sensitive operation is
//! reported if, in its own control-flow region,
//!
//! 1. an earlier statement assigns a local that the operation reads, which
//!    is where the precondition is established, and
//! 2. between that statement and the operation stands a call of a method
//!    that is declared in a trait, and that call reads a local that the
//!    operation reads as well.
//!
//! Whoever implements the trait decides what that call does, so nothing
//! keeps it from changing what the earlier statement has found. Only calls
//! that stand in the function itself count: what the callees call is not
//! followed.

use crate::analysis::{
    callee_failure, callee_group, group_of_callee, last_below, lemma_last_below,
    lemma_last_below_found, AnalysisError,
};
use crate::context::AnalysisContext;
use crate::ir::{DefId, Expr, Item, Program, TypedBody};
use crate::paths::PathMatcher;
use crate::prelude::{fn_def_of, ExprExt};
use crate::report::{AnalysisKind, Finding, FindingView, Span};
use crate::sensitive::{group_severity, severity_of};
use vstd::prelude::*;

verus! {

/// Whether `a` and `b` have a local in common.
pub open spec fn shares(a: Seq<u32>, b: Seq<u32>) -> bool {
    exists|i: int, j: int| 0 <= i < a.len() && 0 <= j < b.len() && a[i] == b[j]
}

/// Whether statement `i` of `body` assigns a local that statement `k`
/// reads, in the region of `k`.
pub open spec fn establishes(body: TypedBody, i: int, k: int) -> bool {
    &&& 0 <= i < body.stmts@.len()
    &&& 0 <= k < body.stmts@.len()
    &&& body.stmts@[i].region == body.stmts@[k].region
    &&& body.stmts@[i].defines matches Some(local)
    &&& body.stmts@[k].uses@.contains(local)
}

/// Whether a statement in front of `j` establishes something for `k`.
pub open spec fn established_before(body: TypedBody, j: int, k: int) -> bool {
    exists|i: int| 0 <= i < j && establishes(body, i, k)
}

/// Whether `e` is a call of a method that is declared in a trait.
pub open spec fn overridable_call(p: Program, e: Expr) -> bool {
    match fn_def_of(p, e) {
        Ok(Some(id)) => p.is_trait_method(id),
        _ => false,
    }
}

/// Whether statement `j` of `body` is a call into foreign code that stands
/// between the operation at `k` and what was established for it.
pub open spec fn intercedes(p: Program, body: TypedBody, j: int, k: int) -> bool {
    &&& 0 <= j < k < body.stmts@.len()
    &&& body.stmts@[j].region == body.stmts@[k].region
    &&& overridable_call(p, body.stmts@[j].expr)
    &&& shares(body.stmts@[j].uses@, body.stmts@[k].uses@)
    &&& established_before(body, j, k)
}

/// `intercedes` as a predicate on the position of the call.
pub open spec fn interceding(p: Program, body: TypedBody, k: int) -> spec_fn(int) -> bool {
    |j: int| intercedes(p, body, j, k)
}

/// The finding on statement `k` of `body`, if there is one: `k` is a call
/// that `catalog` holds, and a call intercedes. Its severity is that of
/// the operation's group. It stands at the operation, and it names the
/// nearest interceding call and the operation.
pub open spec fn flow_finding(
    p: Program,
    catalog: Map<Seq<Seq<char>>, u32>,
    body: TypedBody,
    k: int,
) -> Option<FindingView> {
    if 0 <= k < body.stmts@.len() {
        match callee_group(p, catalog, body.stmts@[k].expr) {
            Some(group) => {
                let j = last_below(interceding(p, body, k), k);
                if j >= 0 {
                    Some(
                        FindingView {
                            kind: AnalysisKind::UnsafeDataflow,
                            level: group_severity(group),
                            description: "Potential unsafe dataflow issue"@,
                            location: body.stmts@[k].expr.span,
                            related: seq![body.stmts@[j].expr.span, body.stmts@[k].expr.span],
                        },
                    )
                } else {
                    None
                }
            },
            None => None,
        }
    } else {
        None
    }
}

/// The findings on the first `n` statements of `body`, in their order.
pub open spec fn body_findings(
    p: Program,
    catalog: Map<Seq<Seq<char>>, u32>,
    body: TypedBody,
    n: int,
) -> Seq<FindingView>
    decreases n,
{
    if n <= 0 {
        Seq::empty()
    } else {
        match flow_finding(p, catalog, body, n - 1) {
            Some(f) => body_findings(p, catalog, body, n - 1).push(f),
            None => body_findings(p, catalog, body, n - 1),
        }
    }
}

/// The body of the function at position `d`, if the definition there is a
/// function that can be called from outside and has a body.
pub open spec fn flow_subject(p: Program, d: int) -> Option<TypedBody> {
    if 0 <= d < p.defs@.len() {
        match p.defs@[d].item {
            Item::Fn(f) => if f.reachable {
                f.body
            } else {
                None
            },
            _ => None,
        }
    } else {
        None
    }
}

/// The findings on the first `n` definitions of the program, in the order
/// of the definitions and, within a function, of its statements.
pub open spec fn dataflow_findings(p: Program, catalog: Map<Seq<Seq<char>>, u32>, n: int) -> Seq<
    FindingView,
>
    decreases n,
{
    if n <= 0 {
        Seq::empty()
    } else {
        match flow_subject(p, n - 1) {
            Some(body) => dataflow_findings(p, catalog, n - 1) + body_findings(
                p,
                catalog,
                body,
                body.stmts@.len() as int,
            ),
            None => dataflow_findings(p, catalog, n - 1),
        }
    }
}

/// A sensitive operation for which a call intercedes is reported. The
/// finding stands at the operation, has the severity of its group, and
/// names an interceding call, none nearer to the operation than which
/// there is, and the operation.
pub proof fn lemma_interceded_operation_is_reported(
    p: Program,
    catalog: Map<Seq<Seq<char>>, u32>,
    body: TypedBody,
    j: int,
    k: int,
)
    requires
        intercedes(p, body, j, k),
        callee_group(p, catalog, body.stmts@[k].expr) is Some,
    ensures
        flow_finding(p, catalog, body, k) matches Some(f) && f.kind
            == AnalysisKind::UnsafeDataflow && f.level == group_severity(
            callee_group(p, catalog, body.stmts@[k].expr)->0,
        ) && f.location == body.stmts@[k].expr.span && f.related.len() == 2 && f.related[1]
            == body.stmts@[k].expr.span,
        exists|nearest: int|
            j <= nearest < k && intercedes(p, body, nearest, k) && flow_finding(
                p,
                catalog,
                body,
                k,
            )->0.related[0] == #[trigger] body.stmts@[nearest].expr.span,
{
    let pred = interceding(p, body, k);
    lemma_last_below_found(pred, k);
    let nearest = last_below(pred, k);
    assert(pred(j));
    assert(pred(nearest));
}

/// An operation that no call of a trait method stands in front of is not
/// reported.
pub proof fn lemma_without_trait_call_nothing_is_reported(
    p: Program,
    catalog: Map<Seq<Seq<char>>, u32>,
    body: TypedBody,
    k: int,
)
    requires
        forall|j: int|
            0 <= j < k && j < body.stmts@.len() ==> !overridable_call(
                p,
                (#[trigger] body.stmts@[j]).expr,
            ),
    ensures
        flow_finding(p, catalog, body, k) is None,
{
    let pred = interceding(p, body, k);
    lemma_last_below_found(pred, k);
    let nearest = last_below(pred, k);
    if nearest >= 0 {
        assert(pred(nearest));
    }
}

/// A body without a call of a trait method has no findings.
pub proof fn lemma_body_without_trait_call(
    p: Program,
    catalog: Map<Seq<Seq<char>>, u32>,
    body: TypedBody,
    n: int,
)
    requires
        forall|j: int|
            0 <= j < body.stmts@.len() ==> !overridable_call(p, (#[trigger] body.stmts@[j]).expr),
    ensures
        body_findings(p, catalog, body, n) == Seq::<FindingView>::empty(),
    decreases n,
{
    if n > 0 {
        lemma_body_without_trait_call(p, catalog, body, n - 1);
        lemma_without_trait_call_nothing_is_reported(p, catalog, body, n - 1);
    }
}

/// An operation that `catalog` does not hold is not reported, whatever
/// stands in front of it.
pub proof fn lemma_outside_the_catalog_nothing_is_reported(
    p: Program,
    catalog: Map<Seq<Seq<char>>, u32>,
    body: TypedBody,
    k: int,
)
    requires
        0 <= k < body.stmts@.len() ==> callee_group(p, catalog, body.stmts@[k].expr) is None,
    ensures
        flow_finding(p, catalog, body, k) is None,
{
}

/// The failures met on the first `n` statements of `body`: for each
/// statement, that its callee cannot be told, where that is so.
pub open spec fn body_failures(p: Program, body: TypedBody, n: int) -> Seq<AnalysisError>
    decreases n,
{
    if n <= 0 {
        Seq::empty()
    } else if n > body.stmts@.len() {
        body_failures(p, body, n - 1)
    } else {
        body_failures(p, body, n - 1) + callee_failure(p, body.stmts@[n - 1].expr)
    }
}

/// The failures met on the definition at position `d`: for a function that
/// can be called from outside, that it has no body, or what its statements
/// fail on.
pub open spec fn flow_failure(p: Program, d: int) -> Seq<AnalysisError> {
    if 0 <= d < p.defs@.len() {
        match p.defs@[d].item {
            Item::Fn(f) => if f.reachable {
                match f.body {
                    Some(body) => body_failures(p, body, body.stmts@.len() as int),
                    None => seq![AnalysisError::NoBody],
                }
            } else {
                Seq::empty()
            },
            _ => Seq::empty(),
        }
    } else {
        Seq::empty()
    }
}

/// The failures met on the first `n` definitions of the program, in the
/// order of the definitions.
pub open spec fn dataflow_failures(p: Program, n: int) -> Seq<AnalysisError>
    decreases n,
{
    if n <= 0 {
        Seq::empty()
    } else {
        dataflow_failures(p, n - 1) + flow_failure(p, n - 1)
    }
}

fn reads(uses: &Vec<u32>, local: u32) -> (b: bool)
    ensures
        b == uses@.contains(local),
{
    let mut i: usize = 0;
    while i < uses.len()
        invariant
            i <= uses.len(),
            forall|k: int| 0 <= k < i ==> uses@[k] != local,
        decreases uses.len() - i,
    {
        if uses[i] == local {
            return true;
        }
        i += 1;
    }
    false
}

fn have_common(a: &Vec<u32>, b: &Vec<u32>) -> (common: bool)
    ensures
        common == shares(a@, b@),
{
    let mut i: usize = 0;
    while i < a.len()
        invariant
            i <= a.len(),
            forall|x: int, y: int| 0 <= x < i && 0 <= y < b@.len() ==> a@[x] != b@[y],
        decreases a.len() - i,
    {
        if reads(b, a[i]) {
            return true;
        }
        assert(forall|y: int| 0 <= y < b@.len() ==> a@[i as int] != b@[y]);
        i += 1;
    }
    false
}

fn is_established(body: &TypedBody, j: usize, k: usize) -> (b: bool)
    requires
        j <= k < body.stmts@.len(),
    ensures
        b == established_before(*body, j as int, k as int),
{
    let mut i: usize = 0;
    while i < j
        invariant
            i <= j <= k < body.stmts@.len(),
            forall|x: int| 0 <= x < i ==> !establishes(*body, x, k as int),
        decreases j - i,
    {
        if body.stmts[i].region == body.stmts[k].region {
            match body.stmts[i].defines {
                Some(local) => {
                    if reads(&body.stmts[k].uses, local) {
                        assert(establishes(*body, i as int, k as int));
                        return true;
                    }
                },
                None => {},
            }
        }
        i += 1;
    }
    false
}

fn is_overridable(program: &Program, e: &Expr) -> (b: bool)
    ensures
        b == overridable_call(*program, *e),
{
    match e.ext().resolve_fn_def(program) {
        Ok(Some(id)) => program.trait_method(id),
        _ => false,
    }
}

fn does_intercede(program: &Program, body: &TypedBody, j: usize, k: usize) -> (b: bool)
    requires
        j < k < body.stmts@.len(),
    ensures
        b == intercedes(*program, *body, j as int, k as int),
{
    body.stmts[j].region == body.stmts[k].region && is_overridable(program, &body.stmts[j].expr)
        && have_common(&body.stmts[j].uses, &body.stmts[k].uses) && is_established(body, j, k)
}

/// The nearest statement in front of `k` that intercedes.
fn nearest_interceding(program: &Program, body: &TypedBody, k: usize) -> (found: Option<usize>)
    requires
        k < body.stmts@.len(),
    ensures
        match found {
            Some(j) => j < k && j as int == last_below(
                interceding(*program, *body, k as int),
                k as int,
            ),
            None => last_below(interceding(*program, *body, k as int), k as int) == -1,
        },
{
    let ghost pred = interceding(*program, *body, k as int);
    let mut j: usize = k;
    while j > 0
        invariant
            j <= k < body.stmts@.len(),
            pred == interceding(*program, *body, k as int),
            forall|i: int| j <= i < k ==> !#[trigger] pred(i),
        decreases j,
    {
        j -= 1;
        if does_intercede(program, body, j, k) {
            proof {
                lemma_last_below(pred, k as int, j as int);
            }
            return Some(j);
        }
    }
    proof {
        lemma_last_below(pred, k as int, -1);
    }
    None
}

/// The detector of operations that rely on what foreign code may change.
pub struct UnsafeDataflowChecker<'m> {
    sensitive: &'m PathMatcher,
}

impl<'m> UnsafeDataflowChecker<'m> {
    /// The catalog by which sensitive operations are recognized.
    pub closed spec fn catalog(&self) -> Map<Seq<Seq<char>>, u32> {
        self.sensitive@
    }

    pub fn new(sensitive: &'m PathMatcher) -> (checker: UnsafeDataflowChecker<'m>)
        ensures
            checker.catalog() == sensitive@,
    {
        UnsafeDataflowChecker { sensitive }
    }

    /// Reports the sensitive operations of `body` that a call intercedes
    /// for, in the order of the statements, and records the failures met
    /// on the way.
    fn analyze_body<'p>(&self, ctx: &mut AnalysisContext<'p>, body: &TypedBody)
        requires
            old(ctx).wf(),
        ensures
            final(ctx).wf(),
            final(ctx).findings() == old(ctx).findings() + body_findings(
                old(ctx).program(),
                self.catalog(),
                *body,
                body.stmts@.len() as int,
            ),
            final(ctx).failures() == old(ctx).failures() + body_failures(
                old(ctx).program(),
                *body,
                body.stmts@.len() as int,
            ),
            old(ctx).continues_to(final(ctx)),
    {
        let program = ctx.tcx();
        let ghost start = ctx.findings();
        let ghost failed = ctx.failures();
        let mut k: usize = 0;
        while k < body.stmts.len()
            invariant
                k <= body.stmts.len(),
                ctx.wf(),
                *program == ctx.program(),
                old(ctx).continues_to(ctx),
                ctx.findings() == start + body_findings(
                    *program,
                    self.catalog(),
                    *body,
                    k as int,
                ),
                ctx.failures() == failed + body_failures(*program, *body, k as int),
            decreases body.stmts.len() - k,
        {
            let group = group_of_callee(ctx, self.sensitive, &body.stmts[k].expr);
            match group {
                Some(group) => match nearest_interceding(program, body, k) {
                    Some(j) => {
                        let mut related: Vec<Span> = Vec::new();
                        related.push(body.stmts[j].expr.span);
                        related.push(body.stmts[k].expr.span);
                        let finding = Finding::new(
                            AnalysisKind::UnsafeDataflow,
                            severity_of(group),
                            "Potential unsafe dataflow issue",
                            body.stmts[k].expr.span,
                            related,
                        );
                        assert(finding@.related =~= seq![
                            body.stmts@[j as int].expr.span,
                            body.stmts@[k as int].expr.span,
                        ]);
                        ctx.report(finding);
                    },
                    None => {},
                },
                None => {},
            }
            k += 1;
        }
    }

    /// Reports, for every function of the program that can be called from
    /// outside, the sensitive operations that a call intercedes for, in the
    /// order of the definitions, and records the failures met on the way.
    pub fn analyze<'p>(&self, ctx: &mut AnalysisContext<'p>)
        requires
            old(ctx).wf(),
        ensures
            final(ctx).wf(),
            final(ctx).findings() == old(ctx).findings() + dataflow_findings(
                old(ctx).program(),
                self.catalog(),
                old(ctx).program().defs@.len() as int,
            ),
            final(ctx).failures() == old(ctx).failures() + dataflow_failures(
                old(ctx).program(),
                old(ctx).program().defs@.len() as int,
            ),
            old(ctx).continues_to(final(ctx)),
    {
        let program = ctx.tcx();
        let ghost start = ctx.findings();
        let ghost failed = ctx.failures();
        let mut d: usize = 0;
        while d < program.defs.len()
            invariant
                d <= program.defs.len(),
                ctx.wf(),
                *program == ctx.program(),
                old(ctx).continues_to(ctx),
                ctx.findings() == start + dataflow_findings(*program, self.catalog(), d as int),
                ctx.failures() == failed + dataflow_failures(*program, d as int),
            decreases program.defs.len() - d,
        {
            let reachable = match &program.defs[d].item {
                Item::Fn(f) => f.reachable,
                _ => false,
            };
            if reachable {
                match ctx.typed_body(DefId { index: d }) {
                    Ok(body) => {
                        self.analyze_body(ctx, body);
                    },
                    Err(error) => {
                        ctx.fail(error);
                    },
                }
            }
            d += 1;
        }
    }
}

} // verus!
