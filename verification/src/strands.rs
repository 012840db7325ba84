//! Partitioning of the per-particle random-sample buffer over worker
//! strands.
//!
//! Each worker owns one random-number generator, and the buffer is split
//! into contiguous chunks of a fixed size so that the strand that fills a
//! given sample slot is a pure function of the slot position and the worker
//! count. Determinism of the simulation rests on this: reseeding the strand
//! generators and re-running reproduces every sample exactly, whatever order
//! the workers are scheduled in.

use vstd::prelude::*;

verus! {

/// Chunk size used to split `n` sample slots over `w` worker strands.
pub open spec fn chunk_size_spec(n: int, w: int) -> int {
    n / w + 1
}

/// The strand that fills sample slot `i` when chunks have size `c`.
pub open spec fn strand_of_spec(i: int, c: int) -> int {
    i / c
}

/// Computes the chunk size for `n` sample slots over `w` worker strands.
/// Chunks of this size always cover the whole buffer.
pub fn chunk_size(n: usize, w: usize) -> (r: usize)
    requires
        1 <= w,
        n < usize::MAX,
    ensures
        r == chunk_size_spec(n as int, w as int),
        r >= 1,
        r * w >= n,
{
    proof {
        lemma_chunks_cover(n as int, w as int);
    }
    n / w + 1
}

/// Chunks of size `n / w + 1` cover all `n` slots.
proof fn lemma_chunks_cover(n: int, w: int)
    requires
        0 <= n,
        1 <= w,
    ensures
        chunk_size_spec(n, w) * w >= n + 1,
        chunk_size_spec(n, w) >= 1,
{
    vstd::arithmetic::div_mod::lemma_fundamental_div_mod(n, w);
    vstd::arithmetic::div_mod::lemma_mod_division_less_than_divisor(n, w);
    vstd::arithmetic::div_mod::lemma_div_pos_is_pos(n, w);
    assert((n / w + 1) * w == (n / w) * w + w) by (nonlinear_arith);
    assert(n == (n / w) * w + n % w) by (nonlinear_arith)
        requires n == w * (n / w) + n % w;
}

/// Computes the strand that fills sample slot `i`, for chunk size `c`.
pub fn strand_of_sample(i: usize, c: usize) -> (r: usize)
    requires
        1 <= c,
    ensures
        r == strand_of_spec(i as int, c as int),
{
    i / c
}

/// Bounds of the chunk owned by strand `s`: slot positions from `s * c` up
/// to but excluding `min((s + 1) * c, n)`.
pub fn strand_bounds(s: usize, c: usize, n: usize) -> (r: (usize, usize))
    requires
        1 <= c,
        s <= n / c,
        n <= usize::MAX - c,
    ensures
        r.0 == s * c || (r.0 == n && s * c >= n),
        r.0 <= r.1 <= n,
        r.1 == if (s + 1) * c <= n { (s + 1) * c } else { n as int },
        forall|i: int| r.0 <= i < r.1 ==> strand_of_spec(i, c as int) == s,
{
    proof {
        vstd::arithmetic::div_mod::lemma_fundamental_div_mod(n as int, c as int);
        vstd::arithmetic::div_mod::lemma_mod_division_less_than_divisor(n as int, c as int);
        assert(s * c <= (n / c) * c <= n && (s + 1) * c == s * c + c) by (nonlinear_arith)
            requires 1 <= c && 0 <= s <= n / c
                && n == c * (n / c) + n % c && 0 <= n % c;
    }
    let start = s * c;
    let end = if n - start > c { start + c } else { n };
    proof {
        assert forall|i: int| start <= i < end implies strand_of_spec(i, c as int) == s by {
            vstd::arithmetic::div_mod::lemma_fundamental_div_mod_converse(
                i, c as int, s as int, i - s * c);
        }
    }
    (start, end)
}

/// The strand of a covered slot is always one of the `w` strands: slot
/// positions below `n` map to strands below `w`.
pub proof fn lemma_strand_in_range(i: int, n: int, w: int)
    requires
        1 <= w,
        0 <= i < n,
    ensures
        0 <= strand_of_spec(i, chunk_size_spec(n, w)) < w,
{
    let c = chunk_size_spec(n, w);
    lemma_chunks_cover(n, w);
    vstd::arithmetic::div_mod::lemma_div_pos_is_pos(i, c);
    assert(i / c < w) by {
        if i / c >= w {
            vstd::arithmetic::div_mod::lemma_fundamental_div_mod(i, c);
            vstd::arithmetic::div_mod::lemma_mod_division_less_than_divisor(i, c);
            assert((i / c) * c >= w * c) by (nonlinear_arith)
                requires i / c >= w && c >= 1;
            assert(i >= w * c) by (nonlinear_arith)
                requires i == c * (i / c) + i % c && (i / c) * c >= w * c && i % c >= 0;
            assert(w * c == c * w) by (nonlinear_arith);
        }
    }
}

} // verus!
