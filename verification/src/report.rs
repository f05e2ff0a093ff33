//! Findings, their severities, and the sink that collects and orders them.

use vstd::prelude::*;
use vstd::seq_lib::*;

verus! {

/// Severity of a finding.
#[derive(Clone, Copy, Debug, PartialEq, Eq, Structural)]
pub enum ReportLevel {
    Info,
    Warning,
    Error,
}

impl ReportLevel {
    /// Numeric rank of a severity: `Info` is 0, `Warning` is 1, `Error` is 2.
    pub open spec fn rank(self) -> int {
        match self {
            ReportLevel::Info => 0,
            ReportLevel::Warning => 1,
            ReportLevel::Error => 2,
        }
    }

    /// The rank as a machine integer.
    pub fn rank_value(self) -> (r: u8)
        ensures
            r as int == self.rank(),
    {
        match self {
            ReportLevel::Info => 0,
            ReportLevel::Warning => 1,
            ReportLevel::Error => 2,
        }
    }

    /// Whether this severity reaches the threshold `min`.
    pub fn at_least(self, min: ReportLevel) -> (b: bool)
        ensures
            b == (self.rank() >= min.rank()),
    {
        self.rank_value() >= min.rank_value()
    }
}

/// Which detector produced a finding.
#[derive(Clone, Copy, Debug, PartialEq, Eq, Structural)]
pub enum AnalysisKind {
    UnsafeDestructor,
    SendSyncVariance,
    UnsafeDataflow,
}

/// A source location: a half-open range of byte positions in the analyzed
/// program's source map.
#[derive(Clone, Copy, Debug, PartialEq, Eq, Structural)]
pub struct Span {
    pub lo: u32,
    pub hi: u32,
}

impl Span {
    /// Strict order of locations: by start, then by end.
    pub open spec fn precedes(self, other: Span) -> bool {
        self.lo < other.lo || (self.lo == other.lo && self.hi < other.hi)
    }

    pub fn is_before(&self, other: &Span) -> (b: bool)
        ensures
            b == self.precedes(*other),
    {
        self.lo < other.lo || (self.lo == other.lo && self.hi < other.hi)
    }
}

/// One diagnostic emitted by a detector.
#[derive(Clone, Debug, PartialEq, Eq)]
pub struct Finding {
    pub kind: AnalysisKind,
    pub level: ReportLevel,
    pub description: String,
    /// Primary source location.
    pub location: Span,
    /// Secondary locations, such as the two call sites of a dataflow finding.
    pub related: Vec<Span>,
}

/// The mathematical value of a [`Finding`].
pub struct FindingView {
    pub kind: AnalysisKind,
    pub level: ReportLevel,
    pub description: Seq<char>,
    pub location: Span,
    pub related: Seq<Span>,
}

impl View for Finding {
    type V = FindingView;

    open spec fn view(&self) -> FindingView {
        FindingView {
            kind: self.kind,
            level: self.level,
            description: self.description@,
            location: self.location,
            related: self.related@,
        }
    }
}

impl Finding {
    pub fn new(
        kind: AnalysisKind,
        level: ReportLevel,
        description: &str,
        location: Span,
        related: Vec<Span>,
    ) -> (f: Finding)
        ensures
            f@ == (FindingView {
                kind,
                level,
                description: description@,
                location,
                related: related@,
            }),
    {
        Finding { kind, level, description: description.to_owned(), location, related }
    }

    /// Whether this finding comes strictly before `other` in a report.
    pub fn comes_before(&self, other: &Finding) -> (b: bool)
        ensures
            b == sorts_before(self@, other@),
    {
        let mine: u8 = self.level.rank_value();
        let theirs: u8 = other.level.rank_value();
        mine > theirs || (mine == theirs && self.location.is_before(&other.location))
    }
}

/// The values of a sequence of findings.
pub open spec fn views(s: Seq<Finding>) -> Seq<FindingView> {
    s.map_values(|f: Finding| f@)
}

/// The report order: higher severity first, then earlier location first.
/// Two findings of one severity at one location are tied.
pub open spec fn sorts_before(a: FindingView, b: FindingView) -> bool {
    a.level.rank() > b.level.rank() || (a.level == b.level && a.location.precedes(b.location))
}

/// Whether two findings are tied in the report order.
pub open spec fn tied(a: FindingView, b: FindingView) -> bool {
    a.level == b.level && a.location == b.location
}

/// The number of leading elements of `s` that sort strictly before `x`.
/// In a sorted `s` this is where `x` goes so that it stands before every
/// element it is tied with.
pub open spec fn insertion_point(x: FindingView, s: Seq<FindingView>) -> int
    decreases s.len(),
{
    if s.len() == 0 || !sorts_before(s[0], x) {
        0
    } else {
        1 + insertion_point(x, s.skip(1))
    }
}

/// `s` in report order, ties kept in the order in which they stand in `s`.
pub open spec fn ordered(s: Seq<FindingView>) -> Seq<FindingView>
    decreases s.len(),
{
    if s.len() == 0 {
        s
    } else {
        let rest = ordered(s.skip(1));
        rest.insert(insertion_point(s[0], rest), s[0])
    }
}

/// The predicate "has at least severity `min`".
pub open spec fn reaches(min: ReportLevel) -> spec_fn(FindingView) -> bool {
    |f: FindingView| f.level.rank() >= min.rank()
}

/// The predicate "is tied with `x`".
pub open spec fn tied_with(x: FindingView) -> spec_fn(FindingView) -> bool {
    |f: FindingView| tied(f, x)
}

/// What draining at threshold `min` hands out of the collected findings `s`.
pub open spec fn drained(s: Seq<FindingView>, min: ReportLevel) -> Seq<FindingView> {
    ordered(s.filter(reaches(min)))
}

/// Whether no element of `s` sorts strictly before an earlier one.
pub open spec fn is_sorted(s: Seq<FindingView>) -> bool {
    forall|i: int, j: int| 0 <= i < j < s.len() ==> !sorts_before(s[j], s[i])
}

/// The insertion point lies within the sequence, everything in front of it
/// sorts before `x`, and the element at it does not.
pub proof fn lemma_insertion_point(x: FindingView, s: Seq<FindingView>)
    ensures
        0 <= insertion_point(x, s) <= s.len(),
        forall|j: int| 0 <= j < insertion_point(x, s) ==> sorts_before(#[trigger] s[j], x),
        insertion_point(x, s) < s.len() ==> !sorts_before(s[insertion_point(x, s)], x),
    decreases s.len(),
{
    if s.len() > 0 && sorts_before(s[0], x) {
        let t = s.skip(1);
        lemma_insertion_point(x, t);
        assert forall|j: int| 0 <= j < insertion_point(x, t) + 1 implies sorts_before(
            #[trigger] s[j],
            x,
        ) by {
            if j > 0 {
                assert(s[j] == t[j - 1]);
            }
        }
    }
}

/// The report order is sorted. No finding of `ordered(s)` sorts strictly
/// before one that stands in front of it.
pub proof fn lemma_ordered_is_sorted(s: Seq<FindingView>)
    ensures
        is_sorted(ordered(s)),
        ordered(s).len() == s.len(),
    decreases s.len(),
{
    if s.len() > 0 {
        let x = s[0];
        let rest = ordered(s.skip(1));
        lemma_ordered_is_sorted(s.skip(1));
        lemma_insertion_point(x, rest);
        let p = insertion_point(x, rest);
        let out = rest.insert(p, x);
        assert forall|i: int, j: int| 0 <= i < j < out.len() implies !sorts_before(
            out[j],
            out[i],
        ) by {
            // Behind `x` stands `rest[p]`, which does not sort before `x`,
            // and nothing further back sorts before `rest[p]`.
            if i == p && j - 1 > p {
                assert(!sorts_before(rest[j - 1], rest[p]));
            }
        }
    }
}

/// Ordering neither drops nor invents a finding. `ordered(s)` holds
/// each finding as often as `s` does.
pub proof fn lemma_ordered_is_permutation(s: Seq<FindingView>)
    ensures
        ordered(s).to_multiset() == s.to_multiset(),
    decreases s.len(),
{
    broadcast use {to_multiset_insert, to_multiset_build};

    if s.len() > 0 {
        lemma_ordered_is_permutation(s.skip(1));
        lemma_insertion_point(s[0], ordered(s.skip(1)));
        assert(s =~= s.skip(1).insert(0, s[0]));
    }
}

/// Inserting `x` at position `p` puts it into the filtered sequence where the
/// filtered prefix ends, if `pred` holds of it, and leaves the filtered
/// sequence alone otherwise.
proof fn lemma_filter_insert(
    s: Seq<FindingView>,
    p: int,
    x: FindingView,
    pred: spec_fn(FindingView) -> bool,
)
    requires
        0 <= p <= s.len(),
    ensures
        s.insert(p, x).filter(pred) == if pred(x) {
            s.take(p).filter(pred) + seq![x] + s.skip(p).filter(pred)
        } else {
            s.filter(pred)
        },
        s.filter(pred) == s.take(p).filter(pred) + s.skip(p).filter(pred),
{
    let a = s.take(p);
    let b = s.skip(p);
    let one = seq![x];
    assert(s =~= a + b);
    assert(s.insert(p, x) =~= (a + one) + b);
    Seq::filter_distributes_over_add(a, b, pred);
    Seq::filter_distributes_over_add(a + one, b, pred);
    Seq::filter_distributes_over_add(a, one, pred);
    assert(one.filter(pred) == if pred(x) {
        one
    } else {
        Seq::<FindingView>::empty()
    }) by {
        reveal_with_fuel(Seq::filter, 2);
    }
}

/// A sequence none of whose elements satisfies `pred` filters to nothing.
proof fn lemma_filter_none(s: Seq<FindingView>, pred: spec_fn(FindingView) -> bool)
    requires
        forall|j: int| 0 <= j < s.len() ==> !pred(#[trigger] s[j]),
    ensures
        s.filter(pred) == Seq::<FindingView>::empty(),
    decreases s.len(),
{
    reveal(Seq::filter);
    if s.len() > 0 {
        let t = s.drop_last();
        assert(forall|j: int| 0 <= j < t.len() ==> !pred(#[trigger] t[j]));
        lemma_filter_none(t, pred);
    }
}

/// The report order is stable. The findings tied with `x` stand in
/// `ordered(s)` in the same order as in `s`.
pub proof fn lemma_ordered_is_stable(s: Seq<FindingView>, x: FindingView)
    ensures
        ordered(s).filter(tied_with(x)) == s.filter(tied_with(x)),
    decreases s.len(),
{
    let pred = tied_with(x);
    if s.len() > 0 {
        let y = s[0];
        let tail = s.skip(1);
        let rest = ordered(tail);
        lemma_ordered_is_stable(tail, x);
        lemma_insertion_point(y, rest);
        let p = insertion_point(y, rest);
        lemma_filter_insert(rest, p, y, pred);
        lemma_filter_insert(tail, 0, y, pred);
        assert(tail.insert(0, y) =~= s);
        lemma_filter_none(tail.take(0), pred);
        if pred(y) {
            // Everything in front of the insertion point sorts strictly
            // before `y`, so none of it is tied with `y`, nor with `x`.
            let front = rest.take(p);
            assert(forall|j: int| 0 <= j < front.len() ==> !pred(#[trigger] front[j]));
            lemma_filter_none(front, pred);
        }
    }
}

/// Draining hands out exactly the findings at or above the threshold,
/// each as often as it was collected, in sorted order.
pub proof fn lemma_drained(s: Seq<FindingView>, min: ReportLevel)
    ensures
        is_sorted(drained(s, min)),
        drained(s, min).to_multiset() == s.filter(reaches(min)).to_multiset(),
        forall|i: int|
            0 <= i < drained(s, min).len() ==> (#[trigger] drained(s, min)[i]).level.rank()
                >= min.rank(),
        forall|i: int|
            0 <= i < s.len() && s[i].level.rank() >= min.rank() ==> drained(s, min).contains(
                #[trigger] s[i],
            ),
{
    broadcast use {to_multiset_contains, group_filter_ensures};

    let kept = s.filter(reaches(min));
    lemma_ordered_is_sorted(kept);
    lemma_ordered_is_permutation(kept);
    let out = drained(s, min);
    assert forall|i: int| 0 <= i < out.len() implies (#[trigger] out[i]).level.rank()
        >= min.rank() by {
        assert(out.to_multiset().count(out[i]) > 0);
    }
    assert forall|i: int| 0 <= i < s.len() && s[i].level.rank() >= min.rank() implies out.contains(
        #[trigger] s[i],
    ) by {
        assert(kept.to_multiset().count(s[i]) > 0);
    }
}

/// Accumulates findings in the order of their discovery.
pub struct ReportSink {
    findings: Vec<Finding>,
}

impl View for ReportSink {
    type V = Seq<FindingView>;

    /// The collected findings, oldest first.
    closed spec fn view(&self) -> Seq<FindingView> {
        views(self.findings@)
    }
}

impl ReportSink {
    pub fn new() -> (sink: ReportSink)
        ensures
            sink@ == Seq::<FindingView>::empty(),
    {
        ReportSink { findings: Vec::new() }
    }

    /// The number of findings collected and not yet drained.
    pub fn len(&self) -> (n: usize)
        ensures
            n == self@.len(),
    {
        self.findings.len()
    }

    /// Appends `finding` behind everything collected so far.
    pub fn collect(&mut self, finding: Finding)
        ensures
            final(self)@ == old(self)@.push(finding@),
    {
        self.findings.push(finding);
    }

    /// Empties the sink and returns the findings at or above `min_level`,
    /// highest severity first, then by location, ties in the order of their
    /// collection.
    pub fn drain(&mut self, min_level: ReportLevel) -> (out: Vec<Finding>)
        ensures
            views(out@) == drained(old(self)@, min_level),
            final(self)@ == Seq::<FindingView>::empty(),
    {
        let ghost all = self@;
        let mut out: Vec<Finding> = Vec::new();
        proof {
            assert(all.skip(all.len() as int) =~= Seq::<FindingView>::empty());
            lemma_filter_none(Seq::<FindingView>::empty(), reaches(min_level));
        }
        while self.findings.len() > 0
            invariant
                self.findings.len() <= all.len(),
                views(self.findings@) == all.take(self.findings.len() as int),
                views(out@) == drained(all.skip(self.findings.len() as int), min_level),
            decreases self.findings.len(),
        {
            let ghost n = self.findings.len() as int;
            let ghost before = self.findings@;
            let f = self.findings.pop().unwrap();
            proof {
                let tail = all.skip(n);
                let now = all.skip(n - 1);
                let pred = reaches(min_level);
                assert(views(before)[n - 1] == f@);
                assert(views(self.findings@) =~= all.take(n - 1));
                lemma_filter_insert(tail, 0, f@, pred);
                assert(tail.insert(0, f@) =~= now);
                lemma_filter_none(tail.take(0), pred);
                if pred(f@) {
                    assert(now.filter(pred).skip(1) =~= tail.filter(pred));
                }
            }
            if f.level.at_least(min_level) {
                let pos = Self::position_for(&out, &f);
                out.insert(pos, f);
            }
        }
        out
    }

    /// Where `f` goes in the sorted `out`: behind everything that sorts
    /// strictly before it.
    fn position_for(out: &Vec<Finding>, f: &Finding) -> (pos: usize)
        ensures
            pos as int == insertion_point(f@, views(out@)),
            pos <= out.len(),
    {
        let ghost s = views(out@);
        let mut pos: usize = 0;
        assert(s.skip(0) =~= s);
        while pos < out.len() && out[pos].comes_before(f)
            invariant
                pos <= out.len(),
                s == views(out@),
                insertion_point(f@, s) == pos + insertion_point(f@, s.skip(pos as int)),
            decreases out.len() - pos,
        {
            assert(s.skip(pos as int).skip(1) =~= s.skip(pos + 1));
            pos += 1;
        }
        pos
    }
}

} // verus!
