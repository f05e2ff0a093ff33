//! The detectors, and the failures that a detector can meet on one item.
//!
//! A failure is no finding. It ends the work on the item it was met on, and
//! the detector goes on with the next item.

use crate::context::AnalysisContext;
use crate::ir::{Expr, Program};
use crate::log::{LogLevel, Verbosity};
use crate::paths::PathMatcher;
use crate::prelude::{def_path, fn_def_of, ExprExt, ExtError};
use vstd::prelude::*;

pub mod send_sync_variance;
pub mod unsafe_dataflow;
pub mod unsafe_destructor;

pub use send_sync_variance::SendSyncVarianceChecker;
pub use unsafe_dataflow::UnsafeDataflowChecker;
pub use unsafe_destructor::UnsafeDestructorChecker;

verus! {

/// The least position from `from` up to `to` at which `pred` holds, or `to`
/// if it holds at none.
pub open spec fn first_from(pred: spec_fn(int) -> bool, from: int, to: int) -> int
    decreases to - from,
{
    if from >= to {
        to
    } else if pred(from) {
        from
    } else {
        first_from(pred, from + 1, to)
    }
}

/// `first_from` is the position before which `pred` holds nowhere and at
/// which it holds.
pub proof fn lemma_first_from(pred: spec_fn(int) -> bool, from: int, to: int, at: int)
    requires
        from <= at <= to,
        forall|i: int| from <= i < at ==> !#[trigger] pred(i),
        at < to ==> pred(at),
    ensures
        first_from(pred, from, to) == at,
    decreases at - from,
{
    if from < at {
        lemma_first_from(pred, from + 1, to, at);
    }
}

/// `first_from` lies between `from` and `to`, `pred` holds nowhere in
/// front of it, and `pred` holds at it unless it is `to`.
pub proof fn lemma_first_from_found(pred: spec_fn(int) -> bool, from: int, to: int)
    requires
        from <= to,
    ensures
        from <= first_from(pred, from, to) <= to,
        forall|i: int| from <= i < first_from(pred, from, to) ==> !#[trigger] pred(i),
        first_from(pred, from, to) < to ==> pred(first_from(pred, from, to)),
    decreases to - from,
{
    if from < to && !pred(from) {
        lemma_first_from_found(pred, from + 1, to);
    }
}

/// The greatest position below `below` at which `pred` holds, or -1 if it
/// holds at none.
pub open spec fn last_below(pred: spec_fn(int) -> bool, below: int) -> int
    decreases below,
{
    if below <= 0 {
        -1
    } else if pred(below - 1) {
        below - 1
    } else {
        last_below(pred, below - 1)
    }
}

/// `last_below` is the position at which `pred` holds and behind which it
/// holds nowhere.
pub proof fn lemma_last_below(pred: spec_fn(int) -> bool, below: int, at: int)
    requires
        -1 <= at < below,
        forall|i: int| at < i < below ==> !#[trigger] pred(i),
        at >= 0 ==> pred(at),
    ensures
        last_below(pred, below) == at,
    decreases below,
{
    if at < below - 1 {
        lemma_last_below(pred, below - 1, at);
    }
}

/// `last_below` lies below `below`, `pred` holds nowhere behind it, and
/// `pred` holds at it unless it is -1.
pub proof fn lemma_last_below_found(pred: spec_fn(int) -> bool, below: int)
    ensures
        -1 <= last_below(pred, below),
        below >= 0 ==> last_below(pred, below) < below,
        forall|i: int| last_below(pred, below) < i < below ==> !#[trigger] pred(i),
        last_below(pred, below) >= 0 ==> pred(last_below(pred, below)),
    decreases below,
{
    if below > 0 && !pred(below - 1) {
        lemma_last_below_found(pred, below - 1);
    }
}

/// The group in which `catalog` holds the callee of the call `e`, if `e`
/// is a call whose callee is known and registered.
pub open spec fn callee_group(p: Program, catalog: Map<Seq<Seq<char>>, u32>, e: Expr) -> Option<
    u32,
> {
    match fn_def_of(p, e) {
        Ok(Some(id)) => if catalog.dom().contains(def_path(p, id)) {
            Some(catalog[def_path(p, id)])
        } else {
            None
        },
        _ => None,
    }
}

/// The failure that looking for the callee of `e` ends in, if it does.
pub open spec fn callee_failure(p: Program, e: Expr) -> Seq<AnalysisError> {
    match fn_def_of(p, e) {
        Err(error) => seq![AnalysisError::Ext(error)],
        Ok(_) => Seq::empty(),
    }
}

/// Looks the callee of `e` up in `sensitive`, by its absolute path. Where
/// the callee cannot be told, that is recorded as a failure, and `e` is in
/// no group.
pub fn group_of_callee<'p>(ctx: &mut AnalysisContext<'p>, sensitive: &PathMatcher, e: &Expr) -> (group:
    Option<u32>)
    requires
        old(ctx).wf(),
    ensures
        final(ctx).wf(),
        group == callee_group(old(ctx).program(), sensitive@, *e),
        old(ctx).continues_to(final(ctx)),
        final(ctx).findings() == old(ctx).findings(),
        final(ctx).failures() == old(ctx).failures() + callee_failure(old(ctx).program(), *e),
{
    match e.ext().resolve_fn_def(ctx.tcx()) {
        Ok(Some(id)) => {
            let path = ctx.absolute_path(id);
            sensitive.group_of(&path)
        },
        Ok(None) => None,
        Err(error) => {
            ctx.fail(AnalysisError::Ext(error));
            None
        },
    }
}

/// The class of a failure, which decides how loudly it is logged.
#[derive(Clone, Copy, Debug, PartialEq, Eq, Structural)]
pub enum AnalysisErrorKind {
    /// An invariant of the detector itself is broken.
    Unreachable,
    /// A known gap of the detector.
    Unimplemented,
    /// A construct that the detector leaves out on purpose.
    OutOfScope,
}

impl AnalysisErrorKind {
    /// `Unreachable` is an error, `Unimplemented` is information, and
    /// `OutOfScope` is for debugging only.
    pub open spec fn level(self) -> LogLevel {
        match self {
            AnalysisErrorKind::Unreachable => LogLevel::Error,
            AnalysisErrorKind::Unimplemented => LogLevel::Info,
            AnalysisErrorKind::OutOfScope => LogLevel::Debug,
        }
    }

    pub fn log_level(self) -> (level: LogLevel)
        ensures
            level == self.level(),
    {
        match self {
            AnalysisErrorKind::Unreachable => LogLevel::Error,
            AnalysisErrorKind::Unimplemented => LogLevel::Info,
            AnalysisErrorKind::OutOfScope => LogLevel::Debug,
        }
    }

    /// Whether a failure of this class is logged at `verbosity`: all but
    /// `OutOfScope` always are, and `OutOfScope` is from `Verbose` on.
    pub fn is_logged(self, verbosity: Verbosity) -> (logged: bool)
        ensures
            logged == (self != AnalysisErrorKind::OutOfScope || verbosity != Verbosity::Normal),
    {
        verbosity.shows(self.log_level())
    }
}

/// A failure met while an item is analyzed.
#[derive(Clone, Copy, Debug, PartialEq, Eq, Structural)]
pub enum AnalysisError {
    /// The definition has no body: a declaration or a foreign item.
    NoBody,
    /// A query on the typed program failed.
    Ext(ExtError),
}

impl AnalysisError {
    pub open spec fn class(self) -> AnalysisErrorKind {
        match self {
            AnalysisError::NoBody => AnalysisErrorKind::OutOfScope,
            AnalysisError::Ext(e) => e.class(),
        }
    }

    pub fn kind(&self) -> (kind: AnalysisErrorKind)
        ensures
            kind == self.class(),
    {
        match self {
            AnalysisError::NoBody => AnalysisErrorKind::OutOfScope,
            AnalysisError::Ext(e) => e.kind(),
        }
    }
}

} // verus!
