//! Vocabulary of the discrete Fourier transform: plan directions and planner
//! flags with their FFTW ABI values, the standard ordering of wavenumbers
//! along a periodic axis, and the transverse projector identity behind the
//! incompressibility of the computed flow.

use vstd::prelude::*;

verus! {

/// Direction of a complex-to-complex transform.
#[derive(Clone, Copy, Debug, PartialEq, Eq, Structural)]
pub enum FFTDirection {
    Forward,
    Backward,
}

/// Planner rigor flags of the FFT library.
#[derive(Clone, Copy, Debug, PartialEq, Eq, Structural)]
pub enum FFTFlags {
    Estimate,
    Measure,
    Patient,
    /// Planning without alignment assumptions, at measure rigor.
    Unaligned,
    EstimateUnaligned,
}

impl FFTDirection {
    /// The sign convention of the transform exponent, which is also the
    /// FFTW ABI value of the direction (forward is negative).
    pub fn sign(&self) -> (r: i32)
        ensures
            *self is Forward ==> r == -1,
            *self is Backward ==> r == 1,
    {
        match self {
            FFTDirection::Forward => -1,
            FFTDirection::Backward => 1,
        }
    }
}

impl FFTFlags {
    /// The FFTW ABI bit pattern of the planner flag: measure is the empty
    /// flag word, patient is bit five, estimate bit six, unaligned bit one.
    pub fn bits(&self) -> (r: u32)
        ensures
            *self is Estimate ==> r == 64,
            *self is Measure ==> r == 0,
            *self is Patient ==> r == 32,
            *self is Unaligned ==> r == 2,
            *self is EstimateUnaligned ==> r == 66,
    {
        match self {
            FFTFlags::Estimate => 64,
            FFTFlags::Measure => 0,
            FFTFlags::Patient => 32,
            FFTFlags::Unaligned => 2,
            FFTFlags::EstimateUnaligned => 66,
        }
    }
}

/// Signed wavenumber multiple carried by position `i` of an axis of `n`
/// samples, in the standard output order of the transform: index `0` holds
/// the zero mode, indices up to `n / 2` hold the positive modes, and the
/// remaining indices hold the negative modes. For even `n` the Nyquist
/// index `n / 2` carries the positive mode only.
pub open spec fn k_index_spec(i: int, n: int) -> int {
    if i <= n / 2 {
        i
    } else {
        i - n
    }
}

/// Computes the signed wavenumber multiple at position `i` of an axis of
/// `n` samples. The physical wavenumber is this value times the mode
/// spacing of the axis.
pub fn k_index(i: usize, n: usize) -> (r: i64)
    requires
        1 <= n <= i64::MAX,
        i < n,
    ensures
        r == k_index_spec(i as int, n as int),
        -(n as int) / 2 <= r <= n as int / 2,
        (r as int) % (n as int) == (i as int) % (n as int),
{
    proof {
        vstd::arithmetic::div_mod::lemma_small_mod(i as nat, n as nat);
        if i > n / 2 {
            vstd::arithmetic::div_mod::lemma_mod_sub_multiples_vanish(i as int, n as int);
        }
    }
    if i <= n / 2 {
        i as i64
    } else {
        (i as i64) - (n as i64)
    }
}

/// Signed wavenumber multiples of a whole axis of `n` samples, in
/// transform output order.
pub fn k_values(n: usize) -> (r: Vec<i64>)
    requires
        1 <= n <= i64::MAX,
    ensures
        r@.len() == n,
        forall|i: int| 0 <= i < n ==> r@[i] == k_index_spec(i, n as int),
{
    let mut r: Vec<i64> = Vec::new();
    let mut i: usize = 0;
    while i < n
        invariant
            i <= n,
            1 <= n <= i64::MAX,
            r@.len() == i,
            forall|j: int| 0 <= j < i ==> r@[j] == k_index_spec(j, n as int),
        decreases n - i,
    {
        let k = k_index(i, n);
        r.push(k);
        i = i + 1;
    }
    r
}

/// Apart from the zero mode and an even axis' Nyquist mode, the modes of an
/// axis come in opposite pairs: position `n - i` carries the negative of the
/// wavenumber at position `i`.
pub proof fn lemma_k_index_pairing(i: int, n: int)
    requires
        1 <= n,
        1 <= i < n,
        2 * i != n,
    ensures
        k_index_spec(n - i, n) == -k_index_spec(i, n),
{
    vstd::arithmetic::div_mod::lemma_fundamental_div_mod(n, 2);
    vstd::arithmetic::div_mod::lemma_mod_division_less_than_divisor(n, 2);
}

/// The transverse projector annihilates its own wavenumber: for any integer
/// wavevector `k` and force vector `f`, the vector with components
/// `sum_j (k*k delta_ij - k_i k_j) f_j` is orthogonal to `k`. This is the
/// algebraic core of the incompressibility of the flow solved in Fourier
/// space: every mode of the flow field is divergence-free.
pub proof fn lemma_projector_divergence_free(
    kx: int, ky: int, kz: int, fx: int, fy: int, fz: int,
)
    ensures
        ({
            let k2 = kx * kx + ky * ky + kz * kz;
            let ux = k2 * fx - kx * (kx * fx + ky * fy + kz * fz);
            let uy = k2 * fy - ky * (kx * fx + ky * fy + kz * fz);
            let uz = k2 * fz - kz * (kx * fx + ky * fy + kz * fz);
            kx * ux + ky * uy + kz * uz == 0
        }),
{
    let k2 = kx * kx + ky * ky + kz * kz;
    let kf = kx * fx + ky * fy + kz * fz;
    assert(kx * (k2 * fx - kx * kf) == k2 * (kx * fx) - (kx * kx) * kf) by (nonlinear_arith);
    assert(ky * (k2 * fy - ky * kf) == k2 * (ky * fy) - (ky * ky) * kf) by (nonlinear_arith);
    assert(kz * (k2 * fz - kz * kf) == k2 * (kz * fz) - (kz * kz) * kf) by (nonlinear_arith);
    assert(k2 * (kx * fx) + k2 * (ky * fy) + k2 * (kz * fz) == k2 * kf) by (nonlinear_arith)
        requires kf == kx * fx + ky * fy + kz * fz;
    assert((kx * kx) * kf + (ky * ky) * kf + (kz * kz) * kf == k2 * kf) by (nonlinear_arith)
        requires k2 == kx * kx + ky * ky + kz * kz;
}

} // verus!
