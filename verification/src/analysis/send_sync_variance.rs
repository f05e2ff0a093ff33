//! Manual implementations of `Send` and `Sync` that promise more than the
//! fields of the type give.
//!
//! For each generic parameter that the implementing type stores, the
//! implementation has to ask for `Send`, and an implementation of `Sync`
//! for `Sync` as well. An implementation that asks for less is reported,
//! once, whatever the number of parameters it is too generous with.

use crate::context::AnalysisContext;
use crate::ir::{AdtItem, Bounds, ImplItem, ImplOf, Item, Program, Ty};
use crate::report::{AnalysisKind, Finding, FindingView, ReportLevel};
use vstd::prelude::*;

verus! {

/// Whether a field of `adt` holds, or points to, a value of the type's
/// parameter `k`. Fields of the marker type hold nothing.
pub open spec fn stores(adt: AdtItem, k: usize) -> bool {
    exists|f: int| 0 <= f < adt.fields@.len() && (#[trigger] adt.fields@[f]).mentions(k)
}

/// The bounds that `imp` writes on the type's parameter `k`: those of the
/// implementation's own parameter that it passes to the type in that place.
/// There are none where it passes anything else.
pub open spec fn written(imp: ImplItem, k: usize) -> Option<Bounds> {
    match imp.self_ty {
        Ty::Adt { def, args } => if k < args@.len() {
            match args@[k as int] {
                Ty::Param(j) => if j < imp.generics@.len() {
                    Some(imp.generics@[j as int])
                } else {
                    None
                },
                _ => None,
            }
        } else {
            None
        },
        _ => None,
    }
}

/// Whether `imp` leaves out `Send` on the stored parameter `k`.
pub open spec fn send_gap(imp: ImplItem, adt: AdtItem, k: usize) -> bool {
    &&& stores(adt, k)
    &&& written(imp, k) matches Some(b)
    &&& !b.send
}

/// Whether `imp` implements `Sync` and leaves out `Sync` on the stored
/// parameter `k`.
pub open spec fn sync_gap(imp: ImplItem, adt: AdtItem, k: usize) -> bool {
    &&& imp.of == ImplOf::Sync
    &&& stores(adt, k)
    &&& written(imp, k) matches Some(b)
    &&& !b.sync
}

/// Whether `imp` leaves out `Send` on some parameter that `adt` stores.
pub open spec fn lacks_send(imp: ImplItem, adt: AdtItem) -> bool {
    exists|k: usize| send_gap(imp, adt, k)
}

/// Whether `imp` implements `Sync` and leaves out `Sync` on some parameter
/// that `adt` stores.
pub open spec fn lacks_sync(imp: ImplItem, adt: AdtItem) -> bool {
    exists|k: usize| sync_gap(imp, adt, k)
}

/// The implementation at position `d` with the type it is written for, if
/// it is one that this detector looks at: an implementation of `Send` or
/// `Sync` that has generic parameters, for a struct, enum or union of the
/// program. An implementation for every type is none of these.
pub open spec fn variance_subject(p: Program, d: int) -> Option<(ImplItem, AdtItem)> {
    if 0 <= d < p.defs@.len() {
        match p.defs@[d].item {
            Item::Impl(imp) => if (imp.of == ImplOf::Send || imp.of == ImplOf::Sync)
                && imp.generics@.len() > 0 {
                match imp.self_ty {
                    Ty::Adt { def, args } => if p.has(def) {
                        match p.def(def).item {
                            Item::Adt(adt) => Some((imp, adt)),
                            _ => None,
                        }
                    } else {
                        None
                    },
                    _ => None,
                }
            } else {
                None
            },
            _ => None,
        }
    } else {
        None
    }
}

/// The severity with which the implementation at position `d` is reported:
/// an error where `Send` is left out, a warning where only `Sync` is, and
/// none where it asks for all that the fields need.
pub open spec fn variance_level(p: Program, d: int) -> Option<ReportLevel> {
    match variance_subject(p, d) {
        Some((imp, adt)) => if lacks_send(imp, adt) {
            Some(ReportLevel::Error)
        } else if lacks_sync(imp, adt) {
            Some(ReportLevel::Warning)
        } else {
            None
        },
        None => None,
    }
}

/// The message of a finding on an implementation of `of`.
pub open spec fn variance_message(of: ImplOf) -> Seq<char> {
    if of == ImplOf::Sync {
        "Suspicious impl of `Sync` found"@
    } else {
        "Suspicious impl of `Send` found"@
    }
}

/// The finding on the implementation at position `d`, if there is one.
pub open spec fn variance_finding(p: Program, d: int) -> Option<FindingView> {
    match (variance_subject(p, d), variance_level(p, d)) {
        (Some((imp, adt)), Some(level)) => Some(
            FindingView {
                kind: AnalysisKind::SendSyncVariance,
                level,
                description: variance_message(imp.of),
                location: p.defs@[d].span,
                related: Seq::empty(),
            },
        ),
        _ => None,
    }
}

/// The findings on the first `n` definitions of the program, in the order
/// of the definitions.
pub open spec fn variance_findings(p: Program, n: int) -> Seq<FindingView>
    decreases n,
{
    if n <= 0 {
        Seq::empty()
    } else {
        match variance_finding(p, n - 1) {
            Some(f) => variance_findings(p, n - 1).push(f),
            None => variance_findings(p, n - 1),
        }
    }
}

/// An implementation that leaves out `Send` on a parameter that its type
/// stores is reported as an error, at the implementation.
pub proof fn lemma_missing_send_is_reported(p: Program, d: int, k: usize)
    requires
        variance_subject(p, d) matches Some((imp, adt)) && send_gap(imp, adt, k),
    ensures
        variance_finding(p, d) matches Some(f) && f.kind == AnalysisKind::SendSyncVariance
            && f.level == ReportLevel::Error && f.location == p.defs@[d].span,
{
}

/// An implementation of `Sync` that writes `Send` wherever it has to, and
/// leaves out `Sync` on a parameter that its type stores, is reported as a
/// warning.
pub proof fn lemma_missing_sync_is_reported(p: Program, d: int, k: usize)
    requires
        variance_subject(p, d) matches Some((imp, adt)) && sync_gap(imp, adt, k) && !lacks_send(
            imp,
            adt,
        ),
    ensures
        variance_finding(p, d) matches Some(f) && f.level == ReportLevel::Warning && f.location
            == p.defs@[d].span,
{
}

/// An implementation that writes `Send` on every parameter that it passes
/// to its type, and `Sync` as well if it implements `Sync`, is not
/// reported.
pub proof fn lemma_bounded_impl_is_not_reported(p: Program, d: int)
    requires
        variance_subject(p, d) matches Some((imp, adt)) && forall|k: usize|
            #[trigger] written(imp, k) matches Some(b) ==> b.send && (imp.of == ImplOf::Sync
                ==> b.sync),
    ensures
        variance_finding(p, d) is None,
{
}

/// A type none of whose fields holds a parameter, be it because they hold
/// it in the marker type only, needs no bound: no implementation for it is
/// reported.
pub proof fn lemma_nothing_stored_is_not_reported(p: Program, d: int)
    requires
        variance_subject(p, d) matches Some((imp, adt)) && forall|k: usize| !stores(adt, k),
    ensures
        variance_finding(p, d) is None,
{
}

/// Each implementation is reported at most once, whatever the number of
/// parameters that it is too generous with.
pub proof fn lemma_one_finding_for_each_impl(p: Program, n: int)
    requires
        0 <= n,
    ensures
        variance_findings(p, n).len() <= n,
        variance_findings(p, n + 1).len() <= variance_findings(p, n).len() + 1,
    decreases n,
{
    if n > 0 {
        lemma_one_finding_for_each_impl(p, n - 1);
    }
}

fn stores_param(adt: &AdtItem, k: usize) -> (b: bool)
    ensures
        b == stores(*adt, k),
{
    let mut f: usize = 0;
    while f < adt.fields.len()
        invariant
            f <= adt.fields.len(),
            forall|i: int| 0 <= i < f ==> !(#[trigger] adt.fields@[i]).mentions(k),
        decreases adt.fields.len() - f,
    {
        if adt.fields[f].has_param(k) {
            return true;
        }
        f += 1;
    }
    false
}

fn written_bounds(imp: &ImplItem, k: usize) -> (b: Option<Bounds>)
    ensures
        b == written(*imp, k),
{
    match &imp.self_ty {
        Ty::Adt { def, args } => {
            if k < args.len() {
                match &args[k] {
                    Ty::Param(j) => {
                        if *j < imp.generics.len() {
                            Some(imp.generics[*j])
                        } else {
                            None
                        }
                    },
                    _ => None,
                }
            } else {
                None
            }
        },
        _ => None,
    }
}

/// The number of places in which `imp` passes something to its type.
fn arity(imp: &ImplItem) -> (n: usize)
    ensures
        forall|k: usize| k >= n ==> written(*imp, k) is None,
{
    match &imp.self_ty {
        Ty::Adt { def, args } => args.len(),
        _ => 0,
    }
}

fn subject<'p>(program: &'p Program, d: usize) -> (s: Option<(&'p ImplItem, &'p AdtItem)>)
    ensures
        match s {
            Some((imp, adt)) => variance_subject(*program, d as int) == Some((*imp, *adt)),
            None => variance_subject(*program, d as int) is None,
        },
{
    if d >= program.defs.len() {
        return None;
    }
    match &program.defs[d].item {
        Item::Impl(imp) => {
            let marker = match imp.of {
                ImplOf::Send => true,
                ImplOf::Sync => true,
                _ => false,
            };
            if !marker || imp.generics.len() == 0 {
                return None;
            }
            match &imp.self_ty {
                Ty::Adt { def, args } => match program.get(*def) {
                    Some(target) => match &target.item {
                        Item::Adt(adt) => Some((imp, adt)),
                        _ => None,
                    },
                    None => None,
                },
                _ => None,
            }
        },
        _ => None,
    }
}

fn level_of(program: &Program, d: usize) -> (level: Option<ReportLevel>)
    ensures
        level == variance_level(*program, d as int),
{
    let (imp, adt) = match subject(program, d) {
        Some(s) => s,
        None => {
            return None;
        },
    };
    let n = arity(imp);
    let for_sync = match imp.of {
        ImplOf::Sync => true,
        _ => false,
    };
    let mut no_sync = false;
    let mut k: usize = 0;
    while k < n
        invariant
            k <= n,
            variance_subject(*program, d as int) == Some((*imp, *adt)),
            for_sync == (imp.of == ImplOf::Sync),
            forall|i: usize| i >= n ==> written(*imp, i) is None,
            forall|i: usize| i < k ==> !send_gap(*imp, *adt, i),
            no_sync <==> exists|i: usize| i < k && sync_gap(*imp, *adt, i),
        decreases n - k,
    {
        if stores_param(adt, k) {
            match written_bounds(imp, k) {
                Some(b) => {
                    if !b.send {
                        assert(send_gap(*imp, *adt, k));
                        return Some(ReportLevel::Error);
                    }
                    if for_sync && !b.sync {
                        assert(sync_gap(*imp, *adt, k));
                        no_sync = true;
                    }
                },
                None => {},
            }
        }
        k += 1;
    }
    if no_sync {
        Some(ReportLevel::Warning)
    } else {
        None
    }
}

/// The detector of marker implementations that ask for too little.
pub struct SendSyncVarianceChecker {}

impl SendSyncVarianceChecker {
    pub fn new() -> SendSyncVarianceChecker {
        SendSyncVarianceChecker {  }
    }

    /// Reports every implementation of `Send` or `Sync` in the program that
    /// asks for less than the fields of its type need, in the order of the
    /// definitions.
    pub fn analyze<'p>(&self, ctx: &mut AnalysisContext<'p>)
        requires
            old(ctx).wf(),
        ensures
            final(ctx).wf(),
            final(ctx).findings() == old(ctx).findings() + variance_findings(
                old(ctx).program(),
                old(ctx).program().defs@.len() as int,
            ),
            final(ctx).failures() == old(ctx).failures(),
            final(ctx).memo() == old(ctx).memo(),
            final(ctx).program() == old(ctx).program(),
            final(ctx).report_level() == old(ctx).report_level(),
    {
        let program = ctx.tcx();
        let ghost start = ctx.findings();
        let mut d: usize = 0;
        while d < program.defs.len()
            invariant
                d <= program.defs.len(),
                ctx.wf(),
                *program == ctx.program(),
                ctx.program() == old(ctx).program(),
                ctx.memo() == old(ctx).memo(),
                ctx.failures() == old(ctx).failures(),
                ctx.report_level() == old(ctx).report_level(),
                ctx.findings() == start + variance_findings(*program, d as int),
            decreases program.defs.len() - d,
        {
            match level_of(program, d) {
                Some(level) => {
                    let for_sync = match &program.defs[d].item {
                        Item::Impl(imp) => match imp.of {
                            ImplOf::Sync => true,
                            _ => false,
                        },
                        _ => false,
                    };
                    let message = if for_sync {
                        "Suspicious impl of `Sync` found"
                    } else {
                        "Suspicious impl of `Send` found"
                    };
                    let finding = Finding::new(
                        AnalysisKind::SendSyncVariance,
                        level,
                        message,
                        program.defs[d].span,
                        Vec::new(),
                    );
                    ctx.report(finding);
                },
                None => {},
            }
            d += 1;
        }
    }
}

} // verus!
