//! The state of one analysis run: the program under analysis, the cache of
//! absolute paths, the sink that the detectors report into, and the record
//! of the failures that they met.

use crate::analysis::AnalysisError;
use crate::ir::{DefId, Program, TypedBody};
use crate::paths::symbols;
use crate::prelude::{def_path, TyCtxtExt};
use crate::report::{drained, views, Finding, FindingView, ReportLevel, ReportSink};
use std::collections::HashMap;
use vstd::prelude::*;

verus! {

/// What can be told of the path cache from outside: for which definitions
/// it holds the path, and how often a path has been computed.
pub struct Memo {
    pub cached: Set<DefId>,
    pub computations: nat,
}

impl Memo {
    /// The cache at the start of a run.
    pub open spec fn fresh() -> Memo {
        Memo { cached: Set::empty(), computations: 0 }
    }

    /// The cache after the path of `id` was asked for: a path that is held
    /// is handed out as it is, and one that is not is computed and kept.
    pub open spec fn lookup(self, id: DefId) -> Memo {
        if self.cached.contains(id) {
            self
        } else {
            Memo { cached: self.cached.insert(id), computations: self.computations + 1 }
        }
    }

    /// The cache after the paths of `ids` were asked for in turn, from the
    /// start of a run.
    pub open spec fn after(ids: Seq<DefId>) -> Memo
        decreases ids.len(),
    {
        if ids.len() == 0 {
            Memo::fresh()
        } else {
            Memo::after(ids.drop_last()).lookup(ids.last())
        }
    }
}

/// Asking again for the path of the same definition computes nothing
/// and changes nothing.
pub proof fn lemma_second_lookup_is_free(m: Memo, id: DefId)
    ensures
        m.lookup(id).lookup(id) == m.lookup(id),
        m.lookup(id).cached.contains(id),
{
}

/// A path is computed at most once for each definition in a run. After
/// any sequence of requests the number of computations is the number of
/// distinct definitions asked for.
pub proof fn lemma_one_computation_per_id(ids: Seq<DefId>)
    ensures
        Memo::after(ids).cached == ids.to_set(),
        Memo::after(ids).computations == ids.to_set().len(),
    decreases ids.len(),
{
    if ids.len() > 0 {
        let front = ids.drop_last();
        let last = ids.last();
        lemma_one_computation_per_id(front);
        assert(ids =~= front.push(last));
        front.lemma_push_to_set_commute(last);
        vstd::seq_lib::seq_to_set_is_finite(front);
    }
}

/// A copy of a path.
fn clone_symbols(path: &Vec<String>) -> (copy: Vec<String>)
    ensures
        symbols(copy@) == symbols(path@),
{
    let mut copy: Vec<String> = Vec::new();
    let mut i: usize = 0;
    while i < path.len()
        invariant
            i <= path.len(),
            copy.len() == i,
            forall|k: int| 0 <= k < i ==> copy@[k]@ == path@[k]@,
        decreases path.len() - i,
    {
        copy.push(path[i].clone());
        i += 1;
    }
    copy
}

/// The state that the detectors of one run share.
pub struct AnalysisContext<'p> {
    program: &'p Program,
    report_level: ReportLevel,
    paths: HashMap<usize, Vec<String>>,
    misses: usize,
    sink: ReportSink,
    failures: Vec<AnalysisError>,
}

impl<'p> AnalysisContext<'p> {
    /// The program under analysis.
    pub closed spec fn program(&self) -> Program {
        *self.program
    }

    /// The least severity that the run reports.
    pub closed spec fn report_level(&self) -> ReportLevel {
        self.report_level
    }

    /// The findings reported so far, oldest first.
    pub closed spec fn findings(&self) -> Seq<FindingView> {
        self.sink@
    }

    /// The failures met so far and not yet handed out, oldest first.
    pub closed spec fn failures(&self) -> Seq<AnalysisError> {
        self.failures@
    }

    /// The state of the path cache.
    pub closed spec fn memo(&self) -> Memo {
        Memo {
            cached: Set::new(|id: DefId| self.paths@.dom().contains(id.index)),
            computations: self.misses as nat,
        }
    }

    /// Every path that the cache holds is the path of its definition.
    pub closed spec fn wf(&self) -> bool {
        &&& forall|k: usize| #[trigger]
            self.paths@.dom().contains(k) ==> symbols(self.paths@[k]@) == def_path(
                *self.program,
                DefId { index: k },
            )
        &&& self.misses == self.paths@.dom().len()
    }

    /// Whether `next` is a later state of the run that `self` is a state
    /// of: the same program and threshold, and a cache that has lost
    /// nothing.
    pub open spec fn continues_to(&self, next: &AnalysisContext<'p>) -> bool {
        &&& next.program() == self.program()
        &&& next.report_level() == self.report_level()
        &&& self.memo().cached.subset_of(next.memo().cached)
        &&& self.memo().computations <= next.memo().computations
    }

    pub fn new(program: &'p Program, report_level: ReportLevel) -> (ctx: AnalysisContext<'p>)
        ensures
            ctx.wf(),
            ctx.program() == *program,
            ctx.report_level() == report_level,
            ctx.findings() == Seq::<FindingView>::empty(),
            ctx.failures() == Seq::<AnalysisError>::empty(),
            ctx.memo() == Memo::fresh(),
    {
        let ctx = AnalysisContext {
            program,
            report_level,
            paths: HashMap::new(),
            misses: 0,
            sink: ReportSink::new(),
            failures: Vec::new(),
        };
        assert(ctx.memo().cached =~= Set::<DefId>::empty());
        ctx
    }

    /// The program under analysis.
    pub fn tcx(&self) -> (program: &'p Program)
        ensures
            *program == self.program(),
    {
        self.program
    }

    /// The least severity that the run reports.
    pub fn threshold(&self) -> (level: ReportLevel)
        ensures
            level == self.report_level(),
    {
        self.report_level
    }

    /// How often the path of a definition has been computed in this run.
    pub fn path_computations(&self) -> (n: usize)
        ensures
            n == self.memo().computations,
    {
        self.misses
    }

    /// The absolute path of `id`. It is computed when it is first asked
    /// for, and handed out from the cache from then on.
    pub fn absolute_path(&mut self, id: DefId) -> (path: Vec<String>)
        requires
            old(self).wf(),
        ensures
            final(self).wf(),
            symbols(path@) == def_path(old(self).program(), id),
            final(self).memo() == old(self).memo().lookup(id),
            final(self).program() == old(self).program(),
            final(self).report_level() == old(self).report_level(),
            final(self).findings() == old(self).findings(),
            final(self).failures() == old(self).failures(),
    {
        broadcast use vstd::std_specs::hash::group_hash_axioms;

        match self.paths.get(&id.index) {
            Some(path) => clone_symbols(path),
            None => {
                let path = self.program.ext().get_def_path(id);
                let copy = clone_symbols(&path);
                self.paths.insert(id.index, path);
                // The cache holds no more paths than a `usize` counts.
                let held = self.paths.len();
                self.misses = self.misses + 1;
                assert(self.memo().cached =~= old(self).memo().cached.insert(id));
                copy
            },
        }
    }

    /// The body of the function `id`, or `NoBody` where `id` names nothing
    /// that has one.
    pub fn typed_body(&self, id: DefId) -> (r: Result<&'p TypedBody, AnalysisError>)
        ensures
            match r {
                Ok(body) => self.program().body(id) == Some(*body),
                Err(e) => e == AnalysisError::NoBody && self.program().body(id) is None,
            },
    {
        let program: &'p Program = self.program;
        match program.body_of(id) {
            Some(body) => Ok(body),
            None => Err(AnalysisError::NoBody),
        }
    }

    /// Adds `finding` to the findings of this run.
    pub fn report(&mut self, finding: Finding)
        requires
            old(self).wf(),
        ensures
            final(self).wf(),
            final(self).findings() == old(self).findings().push(finding@),
            final(self).failures() == old(self).failures(),
            final(self).memo() == old(self).memo(),
            final(self).program() == old(self).program(),
            final(self).report_level() == old(self).report_level(),
    {
        self.sink.collect(finding);
    }

    /// Records that `error` was met. A failure is no finding: it is kept
    /// apart, for the log.
    pub fn fail(&mut self, error: AnalysisError)
        requires
            old(self).wf(),
        ensures
            final(self).wf(),
            final(self).failures() == old(self).failures().push(error),
            final(self).findings() == old(self).findings(),
            final(self).memo() == old(self).memo(),
            final(self).program() == old(self).program(),
            final(self).report_level() == old(self).report_level(),
    {
        self.failures.push(error);
    }

    /// Hands out the failures met so far, oldest first, and leaves none
    /// behind.
    pub fn take_failures(&mut self) -> (out: Vec<AnalysisError>)
        requires
            old(self).wf(),
        ensures
            final(self).wf(),
            out@ == old(self).failures(),
            final(self).failures() == Seq::<AnalysisError>::empty(),
            final(self).findings() == old(self).findings(),
            final(self).memo() == old(self).memo(),
            final(self).program() == old(self).program(),
            final(self).report_level() == old(self).report_level(),
    {
        let mut out: Vec<AnalysisError> = Vec::new();
        std::mem::swap(&mut out, &mut self.failures);
        out
    }

    /// Hands out the findings of this run that reach its threshold, in
    /// report order, and leaves none behind.
    pub fn drain(&mut self) -> (out: Vec<Finding>)
        requires
            old(self).wf(),
        ensures
            final(self).wf(),
            views(out@) == drained(old(self).findings(), old(self).report_level()),
            final(self).findings() == Seq::<FindingView>::empty(),
            final(self).failures() == old(self).failures(),
            final(self).memo() == old(self).memo(),
            final(self).program() == old(self).program(),
            final(self).report_level() == old(self).report_level(),
    {
        self.sink.drain(self.report_level)
    }
}

} // verus!
