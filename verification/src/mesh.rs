//! Grid geometry: cell counts of the five-dimensional sampling grid
//! (three spatial axes and two angular axes) and periodic index arithmetic.

use vstd::prelude::*;

verus! {

/// Number of cells along each axis of the sampling grid: three spatial axes
/// and the two angles of the orientation sphere.
#[derive(Clone, Copy, Debug, PartialEq, Eq, Structural)]
pub struct GridSize {
    pub x: usize,
    pub y: usize,
    pub z: usize,
    pub phi: usize,
    pub theta: usize,
}

/// Discrete cell coordinate on the five-dimensional grid.
#[derive(Clone, Copy, Debug, PartialEq, Eq, Structural)]
pub struct CellIndex {
    pub x: usize,
    pub y: usize,
    pub z: usize,
    pub phi: usize,
    pub theta: usize,
}

impl GridSize {
    /// Every axis holds at least one cell.
    pub open spec fn wf(self) -> bool {
        self.x >= 1 && self.y >= 1 && self.z >= 1 && self.phi >= 1 && self.theta >= 1
    }

    /// Total number of grid cells.
    pub open spec fn total(self) -> int {
        self.x * self.y * self.z * self.phi * self.theta
    }

    /// Number of spatial grid cells; also the normalization factor of an
    /// unnormalized forward-then-backward Fourier transform pair.
    pub open spec fn spatial_total(self) -> int {
        self.x * self.y * self.z
    }

    /// Total number of cells, or `None` when it does not fit in `usize`.
    pub fn checked_total(&self) -> (r: Option<usize>)
        requires
            self.wf(),
        ensures
            r is Some <==> self.total() <= usize::MAX,
            r is Some ==> r->0 == self.total(),
    {
        proof {
            lemma_partial_products_bound(*self);
        }
        let xy = self.x.checked_mul(self.y)?;
        let xyz = xy.checked_mul(self.z)?;
        let xyzp = xyz.checked_mul(self.phi)?;
        xyzp.checked_mul(self.theta)
    }

    /// Number of spatial cells, or `None` when it does not fit in `usize`.
    pub fn checked_spatial_total(&self) -> (r: Option<usize>)
        requires
            self.wf(),
        ensures
            r is Some <==> self.spatial_total() <= usize::MAX,
            r is Some ==> r->0 == self.spatial_total(),
    {
        proof {
            lemma_partial_products_bound(*self);
        }
        let xy = self.x.checked_mul(self.y)?;
        xy.checked_mul(self.z)
    }
}

/// Each partial product of the axis sizes is bounded by the next one,
/// because every axis holds at least one cell.
proof fn lemma_partial_products_bound(g: GridSize)
    requires
        g.wf(),
    ensures
        g.x * g.y <= g.x * g.y * g.z,
        g.x * g.y * g.z <= g.x * g.y * g.z * g.phi,
        g.x * g.y * g.z * g.phi <= g.total(),
        g.x * g.y >= 1,
        g.x * g.y * g.z >= 1,
        g.x * g.y * g.z * g.phi >= 1,
{
    assert(g.x * g.y >= 1 && g.x * g.y <= g.x * g.y * g.z) by (nonlinear_arith)
        requires g.x >= 1 && g.y >= 1 && g.z >= 1;
    assert(g.x * g.y * g.z >= 1 ==> g.x * g.y * g.z <= g.x * g.y * g.z * g.phi
        && g.x * g.y * g.z * g.phi >= 1) by (nonlinear_arith)
        requires g.phi >= 1;
    assert(g.x * g.y * g.z * g.phi >= 1 ==> g.x * g.y * g.z * g.phi
        <= g.x * g.y * g.z * g.phi * g.theta) by (nonlinear_arith)
        requires g.theta >= 1;
}

impl CellIndex {
    /// The coordinate addresses a cell of the grid `g`.
    pub open spec fn in_bounds(self, g: GridSize) -> bool {
        self.x < g.x && self.y < g.y && self.z < g.z && self.phi < g.phi && self.theta < g.theta
    }

    /// Row-major position of the cell in a flat array of `g.total()` bins,
    /// with the angular axes varying fastest.
    pub open spec fn flatten_spec(self, g: GridSize) -> int {
        (((self.x * g.y + self.y) * g.z + self.z) * g.phi + self.phi) * g.theta + self.theta
    }

    /// Computes the flat bin position of this cell.
    pub fn flatten(&self, g: &GridSize) -> (r: usize)
        requires
            g.wf(),
            self.in_bounds(*g),
            g.total() <= usize::MAX,
        ensures
            r == self.flatten_spec(*g),
            r < g.total(),
    {
        proof {
            lemma_flatten_in_range(*self, *g);
            lemma_partial_products_bound(*g);
        }
        (((self.x * g.y + self.y) * g.z + self.z) * g.phi + self.phi) * g.theta + self.theta
    }
}

/// A mixed-radix digit expansion stays below the product of its radices.
proof fn lemma_flatten_in_range(c: CellIndex, g: GridSize)
    requires
        g.wf(),
        c.in_bounds(g),
    ensures
        0 <= c.flatten_spec(g) < g.total(),
        0 <= c.x * g.y + c.y < g.x * g.y,
        0 <= (c.x * g.y + c.y) * g.z + c.z < g.x * g.y * g.z,
        0 <= ((c.x * g.y + c.y) * g.z + c.z) * g.phi + c.phi < g.x * g.y * g.z * g.phi,
{
    let a1 = c.x * g.y + c.y;
    let a2 = a1 * g.z + c.z;
    let a3 = a2 * g.phi + c.phi;
    assert(0 <= a1 && a1 < g.x * g.y) by (nonlinear_arith)
        requires c.x < g.x && c.y < g.y && 0 <= c.x && 0 <= c.y && a1 == c.x * g.y + c.y;
    assert(0 <= a2 && a2 < (g.x * g.y) * g.z) by (nonlinear_arith)
        requires 0 <= a1 && a1 < g.x * g.y && c.z < g.z && 0 <= c.z && a2 == a1 * g.z + c.z;
    assert(0 <= a3 && a3 < ((g.x * g.y) * g.z) * g.phi) by (nonlinear_arith)
        requires 0 <= a2 && a2 < (g.x * g.y) * g.z && c.phi < g.phi && 0 <= c.phi
            && a3 == a2 * g.phi + c.phi;
    assert(0 <= a3 * g.theta + c.theta
        && a3 * g.theta + c.theta < (((g.x * g.y) * g.z) * g.phi) * g.theta) by (nonlinear_arith)
        requires 0 <= a3 && a3 < ((g.x * g.y) * g.z) * g.phi && c.theta < g.theta && 0 <= c.theta;
}

/// Wraps a possibly negative index onto `[0, n)`, realizing periodic
/// boundary conditions on an axis with `n` cells.
pub fn wrap_index(i: i64, n: usize) -> (r: usize)
    requires
        1 <= n <= i64::MAX,
    ensures
        r == i as int % n as int,
        r < n,
{
    if i >= 0 {
        let r = (i as u64) % (n as u64);
        proof {
            vstd::arithmetic::div_mod::lemma_mod_division_less_than_divisor(i as int, n as int);
        }
        r as usize
    } else {
        let k = (-(i + 1)) as u64;
        let s = k % (n as u64);
        proof {
            let ki = k as int;
            let ni = n as int;
            vstd::arithmetic::div_mod::lemma_fundamental_div_mod(ki, ni);
            vstd::arithmetic::div_mod::lemma_mod_division_less_than_divisor(ki, ni);
            assert(i as int == ni * (-(ki / ni) - 1) + (ni - 1 - s)) by (nonlinear_arith)
                requires ki == ni * (ki / ni) + s && i as int == -ki - 1;
            vstd::arithmetic::div_mod::lemma_mod_multiples_vanish(
                -(k as int / n as int) - 1,
                n as int - 1 - s,
                n as int,
            );
            vstd::arithmetic::div_mod::lemma_small_mod((n - 1 - s) as nat, n as nat);
        }
        (n - 1) - (s as usize)
    }
}

/// Index of the next cell along a periodic axis of `n` cells.
pub fn periodic_succ(i: usize, n: usize) -> (r: usize)
    requires
        1 <= n,
        i < n,
    ensures
        r == (i + 1) % n as int,
        r < n,
{
    if i + 1 == n {
        proof {
            vstd::arithmetic::div_mod::lemma_mod_self_0(n as int);
        }
        0
    } else {
        proof {
            vstd::arithmetic::div_mod::lemma_small_mod((i + 1) as nat, n as nat);
        }
        i + 1
    }
}

/// Index of the previous cell along a periodic axis of `n` cells.
pub fn periodic_pred(i: usize, n: usize) -> (r: usize)
    requires
        1 <= n,
        i < n,
    ensures
        r == (i + n - 1) % n as int,
        r < n,
{
    if i == 0 {
        proof {
            vstd::arithmetic::div_mod::lemma_small_mod((n - 1) as nat, n as nat);
        }
        n - 1
    } else {
        proof {
            vstd::arithmetic::div_mod::lemma_mod_sub_multiples_vanish((i + n - 1) as int, n as int);
            vstd::arithmetic::div_mod::lemma_small_mod((i - 1) as nat, n as nat);
        }
        i - 1
    }
}

} // verus!
