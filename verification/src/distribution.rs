//! Histogramming of particles over the sampling grid.
//!
//! A particle's continuous coordinate is reduced to a grid cell by the
//! caller; this module counts how many particles fall into each cell and
//! guarantees that no particle is lost or counted twice: the bin counts sum
//! to the number of particles. Scaling the counts by the cell hypervolume
//! and the box volume, which turns counts into a sampled density, is left to
//! the caller because it acts on every bin alike.

use crate::mesh::{CellIndex, GridSize};
use vstd::prelude::*;

verus! {

/// Number of cells of `cells` that fall into the flat bin `bin` of grid `g`.
pub open spec fn count_hits(cells: Seq<CellIndex>, g: GridSize, bin: int) -> int
    decreases cells.len(),
{
    if cells.len() == 0 {
        0
    } else {
        count_hits(cells.drop_last(), g, bin)
            + if cells.last().flatten_spec(g) == bin { 1int } else { 0int }
    }
}

/// Sum of all bin counts.
pub open spec fn sum_counts(s: Seq<u64>) -> int
    decreases s.len(),
{
    if s.len() == 0 {
        0
    } else {
        sum_counts(s.drop_last()) + s.last()
    }
}

/// Replacing one entry of a sequence changes its sum by the difference at
/// that entry.
proof fn lemma_sum_update(s: Seq<u64>, i: int, v: u64)
    requires
        0 <= i < s.len(),
    ensures
        sum_counts(s.update(i, v)) == sum_counts(s) - s[i] + v,
    decreases s.len(),
{
    if i == s.len() - 1 {
        assert(s.update(i, v).drop_last() =~= s.drop_last());
    } else {
        assert(s.update(i, v).drop_last() =~= s.drop_last().update(i, v));
        lemma_sum_update(s.drop_last(), i, v);
    }
}

/// The grid's cell count factors into the spatial cells times the angular
/// cells per spatial cell.
proof fn lemma_total_factoring(g: GridSize)
    requires
        g.wf(),
    ensures
        g.total() == g.spatial_total() * (g.phi * g.theta),
        1 <= g.phi * g.theta,
        1 <= g.spatial_total(),
        g.wf() && g.total() <= usize::MAX ==> g.spatial_total() <= usize::MAX
            && g.phi * g.theta <= usize::MAX,
{
    assert(g.total() == (g.x * g.y * g.z) * (g.phi * g.theta)
        && 1 <= g.phi * g.theta && 1 <= g.x * g.y * g.z
        && g.x * g.y * g.z <= g.total() && g.phi * g.theta <= g.total()) by (nonlinear_arith)
        requires g.x >= 1 && g.y >= 1 && g.z >= 1 && g.phi >= 1 && g.theta >= 1;
}

/// The sum of the bin counts is nonnegative.
proof fn lemma_sum_nonneg(s: Seq<u64>)
    ensures
        sum_counts(s) >= 0,
    decreases s.len(),
{
    if s.len() > 0 {
        lemma_sum_nonneg(s.drop_last());
    }
}

/// Summing adjacent blocks of bins sums their bins.
proof fn lemma_sum_split(s: Seq<u64>, a: int, b: int, c: int)
    requires
        0 <= a <= b <= c <= s.len(),
    ensures
        sum_counts(s.subrange(a, c)) == sum_counts(s.subrange(a, b)) + sum_counts(s.subrange(b, c)),
    decreases c - b,
{
    if b == c {
        assert(s.subrange(b, c) =~= Seq::<u64>::empty());
        assert(s.subrange(a, c) =~= s.subrange(a, b));
    } else {
        lemma_sum_split(s, a, b, c - 1);
        assert(s.subrange(a, c).drop_last() =~= s.subrange(a, c - 1));
        assert(s.subrange(b, c).drop_last() =~= s.subrange(b, c - 1));
        assert(s.subrange(a, c).last() == s[c - 1]);
        assert(s.subrange(b, c).last() == s[c - 1]);
    }
}

/// A block of bins cannot out-sum the whole array.
proof fn lemma_sum_subrange_le(s: Seq<u64>, a: int, b: int)
    requires
        0 <= a <= b <= s.len(),
    ensures
        0 <= sum_counts(s.subrange(a, b)) <= sum_counts(s),
{
    lemma_sum_split(s, 0, a, b);
    lemma_sum_split(s, 0, b, s.len() as int);
    lemma_sum_nonneg(s.subrange(0, a));
    lemma_sum_nonneg(s.subrange(a, b));
    lemma_sum_nonneg(s.subrange(b, s.len() as int));
    assert(s.subrange(0, s.len() as int) =~= s);
}

/// Histogramming is additive in the ensemble: the bin counts of two
/// ensembles taken together are the sums of their separate bin counts. This
/// is the sampling stage's share of the solvers' linearity in the sampled
/// distribution.
pub proof fn lemma_count_hits_additive(a: Seq<CellIndex>, b: Seq<CellIndex>, g: GridSize, bin: int)
    ensures
        count_hits(a + b, g, bin) == count_hits(a, g, bin) + count_hits(b, g, bin),
    decreases b.len(),
{
    if b.len() == 0 {
        assert(a + b =~= a);
    } else {
        assert((a + b).drop_last() =~= a + b.drop_last());
        assert((a + b).last() == b.last());
        lemma_count_hits_additive(a, b.drop_last(), g, bin);
    }
}

/// Counts per grid cell of a sampled particle ensemble.
#[derive(Clone, Debug)]
pub struct Histogram {
    grid: GridSize,
    counts: Vec<u64>,
}

impl Histogram {
    /// The bins cover the grid exactly.
    pub closed spec fn wf(self) -> bool {
        &&& self.grid.wf()
        &&& self.grid.total() <= usize::MAX
        &&& self.counts@.len() == self.grid.total()
    }

    /// The grid the histogram bins cover.
    pub closed spec fn spec_grid(self) -> GridSize {
        self.grid
    }

    /// Flat bin counts, with the angular axes varying fastest.
    pub closed spec fn spec_counts(self) -> Seq<u64> {
        self.counts@
    }

    /// Returns a zeroed histogram over `grid`, or `None` when the grid has
    /// more cells than a flat array can hold.
    pub fn new(grid: GridSize) -> (r: Option<Histogram>)
        requires
            grid.wf(),
        ensures
            r is Some <==> grid.total() <= usize::MAX,
            r matches Some(h) ==> h.wf() && h.spec_grid() == grid
                && h.spec_counts() =~= Seq::new(grid.total() as nat, |i: int| 0u64),
    {
        let total = match grid.checked_total() {
            Some(t) => t,
            None => {
                return None;
            },
        };
        let mut counts: Vec<u64> = Vec::new();
        let mut i: usize = 0;
        while i < total
            invariant
                i <= total,
                counts@.len() == i,
                forall|j: int| 0 <= j < i ==> counts@[j] == 0u64,
            decreases total - i,
        {
            counts.push(0);
            i = i + 1;
        }
        assert(counts@ =~= Seq::new(grid.total() as nat, |i: int| 0u64));
        Some(Histogram { grid, counts })
    }

    /// Number of bins.
    pub fn len(&self) -> (r: usize)
        requires
            self.wf(),
        ensures
            r == self.spec_grid().total(),
    {
        self.counts.len()
    }

    /// The grid the histogram covers.
    pub fn grid(&self) -> (r: GridSize)
        ensures
            r == self.spec_grid(),
    {
        self.grid
    }

    /// Read access to the flat bin counts.
    pub fn counts(&self) -> (r: &Vec<u64>)
        ensures
            r@ == self.spec_counts(),
    {
        &self.counts
    }

    /// The count of the bin holding cell `c`.
    pub fn count_at(&self, c: &CellIndex) -> (r: u64)
        requires
            self.wf(),
            c.in_bounds(self.spec_grid()),
        ensures
            r == self.spec_counts()[c.flatten_spec(self.spec_grid())],
    {
        let idx = c.flatten(&self.grid);
        self.counts[idx]
    }

    /// Counts per spatial cell, the angular axes summed out: the integer
    /// core of the marginal density read by the integrator. Entry `x` sums
    /// the block of angular bins belonging to the spatial cell at flat
    /// position `x`.
    pub fn spatial_counts(&self) -> (r: Vec<u64>)
        requires
            self.wf(),
            sum_counts(self.spec_counts()) <= u64::MAX,
        ensures
            r@.len() == self.spec_grid().spatial_total(),
            forall|x: int| 0 <= x < r@.len()
                ==> r@[x] == sum_counts(self.spec_counts().subrange(
                    x * (self.spec_grid().phi * self.spec_grid().theta),
                    (x + 1) * (self.spec_grid().phi * self.spec_grid().theta),
                )),
    {
        proof {
            lemma_total_factoring(self.grid);
        }
        let na = self.grid.phi * self.grid.theta;
        let nspat = match self.grid.checked_spatial_total() {
            Some(n) => n,
            None => {
                proof {
                    assert(false);
                }
                0
            },
        };
        let ghost g = self.grid;
        let ghost whole = self.counts@;
        let mut r: Vec<u64> = Vec::new();
        let mut x: usize = 0;
        while x < nspat
            invariant
                x <= nspat,
                r@.len() == x,
                g == self.grid,
                whole == self.counts@,
                self.wf(),
                sum_counts(whole) <= u64::MAX,
                na == g.phi * g.theta,
                nspat == g.spatial_total(),
                nspat * na == g.total(),
                1 <= na,
                forall|i: int| 0 <= i < x
                    ==> r@[i] == sum_counts(whole.subrange(i * na, (i + 1) * na)),
            decreases nspat - x,
        {
            proof {
                assert(x * na + na <= nspat * na) by (nonlinear_arith)
                    requires x < nspat && 1 <= na;
                assert(0 <= x * na) by (nonlinear_arith)
                    requires 0 <= x && 0 <= na;
            }
            let base = x * na;
            let mut acc: u64 = 0;
            let mut j: usize = 0;
            proof {
                assert(whole.subrange(base as int, base as int) =~= Seq::<u64>::empty());
            }
            while j < na
                invariant
                    j <= na,
                    whole == self.counts@,
                    self.wf(),
                    sum_counts(whole) <= u64::MAX,
                    base + na <= whole.len(),
                    acc == sum_counts(whole.subrange(base as int, base + j)),
                decreases na - j,
            {
                proof {
                    assert(whole.subrange(base as int, base + j + 1).drop_last()
                        =~= whole.subrange(base as int, base + j));
                    assert(whole.subrange(base as int, base + j + 1).last()
                        == whole[base + j]);
                    lemma_sum_subrange_le(whole, base as int, base + j + 1);
                }
                acc = acc + self.counts[base + j];
                j = j + 1;
            }
            proof {
                assert((x as int + 1) * (na as int) == (x as int) * (na as int) + na)
                    by (nonlinear_arith);
            }
            r.push(acc);
            x = x + 1;
        }
        r
    }

    /// Zeroes the bins, then counts every cell of `cells` into its bin.
    /// Afterwards each bin holds the number of particles that fell into it,
    /// and the bins sum to the number of particles: sampling conserves the
    /// particle count.
    pub fn sample_from(&mut self, cells: &Vec<CellIndex>)
        requires
            old(self).wf(),
            forall|i: int| 0 <= i < cells@.len()
                ==> (#[trigger] cells@[i]).in_bounds(old(self).spec_grid()),
        ensures
            final(self).wf(),
            final(self).spec_grid() == old(self).spec_grid(),
            forall|b: int| 0 <= b < final(self).spec_grid().total()
                ==> final(self).spec_counts()[b] == count_hits(cells@, final(self).spec_grid(), b),
            sum_counts(final(self).spec_counts()) == cells@.len(),
    {
        let ghost g = self.grid;
        let n = self.counts.len();
        let mut i: usize = 0;
        while i < n
            invariant
                i <= n,
                self.counts@.len() == n,
                self.grid == g,
                forall|j: int| 0 <= j < i ==> self.counts@[j] == 0u64,
            decreases n - i,
        {
            self.counts.set(i, 0);
            i = i + 1;
        }
        proof {
            lemma_sum_of_zeros(self.counts@);
            assert(cells@.take(0) =~= Seq::<CellIndex>::empty());
        }
        let m = cells.len();
        let mut t: usize = 0;
        while t < m
            invariant
                t <= m,
                m == cells@.len(),
                self.grid == g,
                g.wf(),
                g.total() <= usize::MAX,
                self.counts@.len() == g.total(),
                forall|i: int| 0 <= i < cells@.len()
                    ==> (#[trigger] cells@[i]).in_bounds(g),
                forall|b: int| 0 <= b < g.total()
                    ==> self.counts@[b] == count_hits(cells@.take(t as int), g, b),
                forall|b: int| 0 <= b < g.total() ==> self.counts@[b] <= t,
                sum_counts(self.counts@) == t,
            decreases m - t,
        {
            let c = cells[t];
            let idx = c.flatten(&self.grid);
            let cur = self.counts[idx];
            proof {
                lemma_sum_update(self.counts@, idx as int, (cur + 1) as u64);
                assert(cells@.take(t + 1).drop_last() =~= cells@.take(t as int));
                assert(cells@.take(t + 1).last() == cells@[t as int]);
            }
            self.counts.set(idx, cur + 1);
            t = t + 1;
        }
        proof {
            assert(cells@.take(m as int) =~= cells@);
        }
    }
}

/// A sequence of zeroed bins sums to zero.
proof fn lemma_sum_of_zeros(s: Seq<u64>)
    requires
        forall|j: int| 0 <= j < s.len() ==> s[j] == 0u64,
    ensures
        sum_counts(s) == 0,
    decreases s.len(),
{
    if s.len() > 0 {
        lemma_sum_of_zeros(s.drop_last());
    }
}

} // verus!
