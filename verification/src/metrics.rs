//! The metrics aggregator: raw extents to resolved rows, and the rollup.
//!
//! Each extent the visitor emitted is resolved at both endpoints, the line
//! difference is floored at one — a region that starts and ends on the same
//! line still counts as one line — and the rows are packaged, in visitor
//! order, with the unit's total line count.
use vstd::prelude::*;

use crate::resolve::{count_le, LocModel, Location, Resolver};
use crate::resolve::{lemma_count_le_bounds, lemma_count_le_mono, lemma_covering_file_unique};
use crate::tree::{unsafe_extents, Node, SourceExtent};

verus! {

/// One unsafe region, resolved: its start and end positions and the
/// number of lines it is charged with, never less than one.
#[derive(Clone, Debug, PartialEq, Eq)]
pub struct Row {
    pub start: Location,
    pub end: Location,
    pub num_lines: usize,
}

/// The mathematical model of a `Row`.
pub struct RowModel {
    pub start: LocModel,
    pub end: LocModel,
    pub num_lines: int,
}

impl View for Row {
    type V = RowModel;

    open spec fn view(&self) -> RowModel {
        RowModel { start: self.start@, end: self.end@, num_lines: self.num_lines as int }
    }
}

/// The final report data: one row per unsafe region, in pre-order, and
/// the unit's total line count.
#[derive(Clone, Debug, PartialEq, Eq)]
pub struct Metrics {
    pub spans: Vec<Row>,
    pub total_lines: usize,
}

/// The mathematical model of a `Metrics` value.
pub struct MetricsModel {
    pub spans: Seq<RowModel>,
    pub total_lines: int,
}

impl View for Metrics {
    type V = MetricsModel;

    open spec fn view(&self) -> MetricsModel {
        MetricsModel {
            spans: self.spans@.map_values(|r: Row| r@),
            total_lines: self.total_lines as int,
        }
    }
}

/// An extent the aggregator can resolve: a nonempty-to-forward byte range
/// whose two endpoints fall inside one and the same source file.
pub open spec fn extent_valid(r: Resolver, e: SourceExtent) -> bool {
    &&& e.lo <= e.hi
    &&& exists|i: int|
        0 <= i < r.files@.len() && (#[trigger] r.files@[i]).covers(e.lo as int)
            && r.files@[i].covers(e.hi as int)
}

/// The row one extent yields: both endpoints resolved independently, and
/// the line difference floored at one.
pub open spec fn row_model(r: Resolver, e: SourceExtent) -> RowModel {
    let start = r.resolved(e.lo as int);
    let end = r.resolved(e.hi as int);
    let diff = end.line - start.line;
    RowModel { start: start, end: end, num_lines: if diff == 0 { 1 } else { diff } }
}

/// The metrics the aggregator produces for a sequence of extents: one row
/// per extent, in order, plus the unit's total line count.
pub open spec fn metrics_model(r: Resolver, es: Seq<SourceExtent>) -> MetricsModel {
    MetricsModel {
        spans: Seq::new(es.len(), |i: int| row_model(r, es[i])),
        total_lines: r.spec_total_lines(),
    }
}

/// A valid extent never resolves backwards: the end line is at least the
/// start line, so the floored difference is well defined.
pub proof fn lemma_lines_ordered(r: Resolver, e: SourceExtent)
    requires
        r.wf(),
        extent_valid(r, e),
    ensures
        r.covers(e.lo as int),
        r.covers(e.hi as int),
        r.resolved(e.lo as int).line <= r.resolved(e.hi as int).line,
        1 <= r.resolved(e.lo as int).line,
        r.resolved(e.hi as int).line <= r.files@[file_index_of(r, e.hi as int)].line_starts@.len(),
        r.resolved(e.lo as int).filename == r.resolved(e.hi as int).filename,
{
    let i = choose|i: int|
        0 <= i < r.files@.len() && (#[trigger] r.files@[i]).covers(e.lo as int)
            && r.files@[i].covers(e.hi as int);
    lemma_covering_file_unique(r, e.lo as int, i);
    lemma_covering_file_unique(r, e.hi as int, i);
    let f = r.files@[i];
    lemma_count_le_mono(f.line_starts@, e.lo as int, e.hi as int);
    lemma_count_le_bounds(f.line_starts@, e.hi as int);
    assert(f.line_starts@[0] <= e.lo as int);
    lemma_count_le_bounds(f.line_starts@.subrange(1, f.line_starts@.len() as int), e.lo as int);
    assert(count_le(f.line_starts@, e.lo as int) >= 1);
}

/// The index of the file that resolution of `off` reads.
pub open spec fn file_index_of(r: Resolver, off: int) -> int {
    crate::resolve::file_index_from(r.files@, off, 0)
}

/// Resolves every extent into a row — `lo` to the start, `hi` to the end,
/// line difference floored at one — preserving visitor order, and attaches
/// the unit's total line count.
pub fn aggregate(extents: &Vec<SourceExtent>, resolver: &Resolver) -> (m: Metrics)
    requires
        resolver.wf(),
        resolver.spec_total_lines() <= usize::MAX,
        forall|k: int| 0 <= k < extents@.len() ==> extent_valid(*resolver, #[trigger] extents@[k]),
    ensures
        m@ == metrics_model(*resolver, extents@),
{
    let mut rows: Vec<Row> = Vec::new();
    let mut i: usize = 0;
    while i < extents.len()
        invariant
            resolver.wf(),
            resolver.spec_total_lines() <= usize::MAX,
            forall|k: int|
                0 <= k < extents@.len() ==> extent_valid(*resolver, #[trigger] extents@[k]),
            i <= extents@.len(),
            rows@.len() == i,
            forall|k: int| 0 <= k < i ==> (#[trigger] rows@[k])@ == row_model(*resolver, extents@[k]),
        decreases extents@.len() - i,
    {
        let e = extents[i];
        proof {
            lemma_lines_ordered(*resolver, e);
        }
        let start = resolver.resolve(e.lo);
        let end = resolver.resolve(e.hi);
        let diff = end.line - start.line;
        let num_lines: usize = if diff == 0 {
            1
        } else {
            diff
        };
        rows.push(Row { start: start, end: end, num_lines: num_lines });
        i = i + 1;
    }
    let total_lines = resolver.total_line_count();
    let m = Metrics { spans: rows, total_lines: total_lines };
    proof {
        assert(m@.spans =~= metrics_model(*resolver, extents@).spans);
    }
    m
}

/// The whole pipeline over one compilation unit: walk the tree, resolve
/// every unsafe region's extent, and roll the rows up with the unit's
/// total line count.
pub fn analyse_ast(ast: &Node, resolver: &Resolver) -> (m: Metrics)
    requires
        resolver.wf(),
        resolver.spec_total_lines() <= usize::MAX,
        forall|k: int|
            0 <= k < unsafe_extents(*ast).len() ==> extent_valid(
                *resolver,
                #[trigger] unsafe_extents(*ast)[k],
            ),
    ensures
        m@ == metrics_model(*resolver, unsafe_extents(*ast)),
{
    let extents = crate::tree::visit_unit(ast);
    aggregate(&extents, resolver)
}

} // verus!
