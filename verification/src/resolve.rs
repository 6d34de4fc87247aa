//! The position-resolution service: byte offset to file, line and column.
//!
//! A `Resolver` is the unit's combined source map: the source files in
//! offset order, each with the byte offset at which every one of its lines
//! starts. Resolving an offset finds the file that covers it, then the last
//! line start at or before it; the line number is 1-based, the column is
//! the 0-based distance from that line start. Lookups are pure: the same
//! offset always resolves to the same location.
use vstd::prelude::*;

verus! {

/// A resolved position: file name, 1-based line, 0-based column.
#[derive(Clone, Debug, PartialEq, Eq)]
pub struct Location {
    pub filename: String,
    pub line: usize,
    pub col: usize,
}

/// The mathematical model of a `Location`: the file name as a character
/// sequence and the two coordinates as unbounded integers.
pub struct LocModel {
    pub filename: Seq<char>,
    pub line: int,
    pub col: int,
}

impl View for Location {
    type V = LocModel;

    open spec fn view(&self) -> LocModel {
        LocModel { filename: self.filename@, line: self.line as int, col: self.col as int }
    }
}

/// One source file of the unit: its name, the byte offset of each line
/// start in ascending order, and the offset one past its last byte.
pub struct SourceFile {
    pub name: String,
    pub line_starts: Vec<usize>,
    pub end: usize,
}

impl SourceFile {
    /// The offset at which the file begins: the start of its first line.
    pub open spec fn start(self) -> int {
        self.line_starts@[0] as int
    }

    /// A file is well formed when it has at least one line, its line
    /// starts strictly ascend, and none lies past its end.
    pub open spec fn wf(self) -> bool {
        &&& self.line_starts@.len() >= 1
        &&& forall|i: int, j: int|
            0 <= i < j < self.line_starts@.len() ==> self.line_starts@[i] < self.line_starts@[j]
        &&& self.line_starts@[self.line_starts@.len() - 1] <= self.end
    }

    /// Whether an offset falls inside this file.
    pub open spec fn covers(self, off: int) -> bool {
        self.start() <= off <= self.end
    }
}

/// The position-resolution service for one compilation unit.
pub struct Resolver {
    pub files: Vec<SourceFile>,
}

/// How many entries of `s` are at or before `off`. Over ascending line
/// starts this is the 1-based number of the line containing `off`.
pub open spec fn count_le(s: Seq<usize>, off: int) -> int
    decreases s,
{
    if s.len() == 0 {
        0
    } else {
        (if s[0] <= off {
            1int
        } else {
            0int
        }) + count_le(s.subrange(1, s.len() as int), off)
    }
}

/// The index of the first file of `files`, at or after position `i`, that
/// covers `off`; `files.len()` when none does.
pub open spec fn file_index_from(files: Seq<SourceFile>, off: int, i: int) -> int
    decreases files.len() - i,
{
    if i < 0 || i >= files.len() {
        files.len() as int
    } else if files[i].covers(off) {
        i
    } else {
        file_index_from(files, off, i + 1)
    }
}

impl Resolver {
    /// The resolver is well formed when every file is and the files sit at
    /// disjoint, ascending offset ranges.
    pub open spec fn wf(self) -> bool {
        &&& forall|i: int| 0 <= i < self.files@.len() ==> (#[trigger] self.files@[i]).wf()
        &&& forall|i: int, j: int|
            0 <= i < j < self.files@.len() ==> self.files@[i].end < self.files@[j].start()
    }

    /// Whether some file of the unit covers `off`.
    pub open spec fn covers(self, off: int) -> bool {
        exists|i: int| 0 <= i < self.files@.len() && (#[trigger] self.files@[i]).covers(off)
    }

    /// What resolving `off` yields: the covering file's name, the count of
    /// its line starts at or before `off` as the 1-based line, and the
    /// distance from the last such line start as the 0-based column.
    pub open spec fn resolved(self, off: int) -> LocModel {
        let f = self.files@[file_index_from(self.files@, off, 0)];
        let line = count_le(f.line_starts@, off);
        LocModel { filename: f.name@, line: line, col: off - f.line_starts@[line - 1] }
    }

    /// The unit's total line count: each file contributes one line per
    /// line start.
    pub open spec fn spec_total_lines(self) -> int {
        total_lines_of(self.files@)
    }
}

/// The sum of the line counts of the files of `s`.
pub open spec fn total_lines_of(s: Seq<SourceFile>) -> int
    decreases s,
{
    if s.len() == 0 {
        0
    } else {
        s[0].line_starts@.len() + total_lines_of(s.subrange(1, s.len() as int))
    }
}

/// A file contributes at least nothing to the total.
proof fn lemma_total_lines_nonneg(s: Seq<SourceFile>)
    ensures
        total_lines_of(s) >= 0,
    decreases s,
{
    if s.len() > 0 {
        lemma_total_lines_nonneg(s.subrange(1, s.len() as int));
    }
}

/// `count_le` counts a subset of the entries.
pub proof fn lemma_count_le_bounds(s: Seq<usize>, off: int)
    ensures
        0 <= count_le(s, off) <= s.len(),
    decreases s,
{
    if s.len() > 0 {
        lemma_count_le_bounds(s.subrange(1, s.len() as int), off);
    }
}

/// A larger offset has at least as many line starts at or before it: the
/// line number never falls as the offset grows.
pub proof fn lemma_count_le_mono(s: Seq<usize>, lo: int, hi: int)
    requires
        lo <= hi,
    ensures
        count_le(s, lo) <= count_le(s, hi),
    decreases s,
{
    if s.len() > 0 {
        lemma_count_le_mono(s.subrange(1, s.len() as int), lo, hi);
    }
}

/// Over ascending entries, the entries at or before `off` form a prefix:
/// a scan that stops at the first entry past `off` has counted them all.
proof fn lemma_count_le_prefix(s: Seq<usize>, off: int, j: int)
    requires
        forall|a: int, b: int| 0 <= a < b < s.len() ==> s[a] < s[b],
        0 <= j <= s.len(),
        forall|k: int| 0 <= k < j ==> s[k] <= off,
        j == s.len() || s[j as int] > off,
    ensures
        count_le(s, off) == j,
    decreases s,
{
    if s.len() > 0 {
        let rest = s.subrange(1, s.len() as int);
        if j == 0 {
            assert(s[0] > off);
            assert(forall|k: int| 0 <= k < rest.len() ==> rest[k] == s[k + 1] && rest[k] > off);
            lemma_count_le_prefix(rest, off, 0);
        } else {
            assert(s[0] <= off);
            assert(forall|a: int, b: int| 0 <= a < b < rest.len() ==> rest[a] < rest[b]);
            assert(forall|k: int| 0 <= k < j - 1 ==> rest[k] == s[k + 1] && rest[k] <= off);
            assert(j - 1 == rest.len() || rest[j - 1] > off);
            lemma_count_le_prefix(rest, off, j - 1);
        }
    }
}

/// Under disjoint, ascending file ranges, a file that covers an offset is
/// the one the search from position `k` finds.
proof fn lemma_file_index_found(files: Seq<SourceFile>, off: int, i: int, k: int)
    requires
        forall|a: int, b: int| 0 <= a < b < files.len() ==> files[a].end < files[b].start(),
        0 <= k <= i < files.len(),
        files[i as int].covers(off),
    ensures
        file_index_from(files, off, k) == i,
    decreases i - k,
{
    if k < i {
        assert(files[k as int].end < files[i as int].start());
        lemma_file_index_found(files, off, i, k + 1);
    }
}

/// The covering file is unique, so resolution does not depend on the
/// order of the search.
pub proof fn lemma_covering_file_unique(r: Resolver, off: int, i: int)
    requires
        r.wf(),
        0 <= i < r.files@.len(),
        r.files@[i].covers(off),
    ensures
        file_index_from(r.files@, off, 0) == i,
{
    lemma_file_index_found(r.files@, off, i, 0);
}

/// Whether `f` covers the offset.
fn file_covers(f: &SourceFile, off: usize) -> (r: bool)
    requires
        f.wf(),
    ensures
        r == f.covers(off as int),
{
    f.line_starts[0] <= off && off <= f.end
}

impl Resolver {
    /// Resolves a byte offset to its file, 1-based line and 0-based
    /// column. A pure lookup: equal offsets resolve to equal locations.
    pub fn resolve(&self, off: usize) -> (loc: Location)
        requires
            self.wf(),
            self.covers(off as int),
        ensures
            loc@ == self.resolved(off as int),
    {
        proof {
            let w = choose|w: int|
                0 <= w < self.files@.len() && (#[trigger] self.files@[w]).covers(off as int);
            assert(self.files@.len() > 0);
        }
        let mut i: usize = 0;
        while !file_covers(&self.files[i], off)
            invariant
                self.wf(),
                self.covers(off as int),
                i < self.files.len(),
                forall|k: int| 0 <= k < i ==> !(#[trigger] self.files@[k]).covers(off as int),
            decreases self.files@.len() - i,
        {
            proof {
                let w = choose|w: int|
                    0 <= w < self.files@.len() && (#[trigger] self.files@[w]).covers(off as int);
                assert(w > i);
            }
            i = i + 1;
        }
        proof {
            lemma_covering_file_unique(*self, off as int, i as int);
        }
        let f = &self.files[i];
        let mut j: usize = 0;
        while j < f.line_starts.len() && f.line_starts[j] <= off
            invariant
                f.wf(),
                f == self.files@[i as int],
                i < self.files@.len(),
                j <= f.line_starts@.len(),
                forall|k: int| 0 <= k < j ==> f.line_starts@[k] <= off as int,
            decreases f.line_starts@.len() - j,
        {
            j = j + 1;
        }
        proof {
            lemma_count_le_prefix(f.line_starts@, off as int, j as int);
            assert(f.line_starts@[0] <= off as int);
        }
        Location { filename: f.name.clone(), line: j, col: off - f.line_starts[j - 1] }
    }

    /// The unit's total line count, summed over its files.
    pub fn total_line_count(&self) -> (n: usize)
        requires
            self.wf(),
            self.spec_total_lines() <= usize::MAX,
        ensures
            n == self.spec_total_lines(),
    {
        let ghost whole: Seq<SourceFile> = self.files@;
        proof {
            assert(whole.subrange(0, whole.len() as int) =~= whole);
        }
        let mut n: usize = 0;
        let mut i: usize = 0;
        while i < self.files.len()
            invariant
                self.spec_total_lines() <= usize::MAX,
                whole == self.files@,
                i <= self.files@.len(),
                n + total_lines_of(self.files@.subrange(i as int, self.files@.len() as int))
                    == self.spec_total_lines(),
            decreases self.files@.len() - i,
        {
            let ghost tail = self.files@.subrange(i as int, self.files@.len() as int);
            proof {
                assert(tail[0] == self.files@[i as int]);
                assert(tail.subrange(1, tail.len() as int) =~= self.files@.subrange(
                    i + 1,
                    self.files@.len() as int,
                ));
                lemma_total_lines_nonneg(self.files@.subrange(i + 1, self.files@.len() as int));
            }
            n = n + self.files[i].line_starts.len();
            i = i + 1;
        }
        proof {
            assert(self.files@.subrange(
                self.files@.len() as int,
                self.files@.len() as int,
            ) =~= Seq::<SourceFile>::empty());
        }
        n
    }
}

} // verus!
