//! Core library for a stochastic simulation of self-propelled magnetic
//! particles coupled through mean flow and dipole fields.
//!
//! The discrete skeleton of the simulation lives here: grid geometry and
//! periodic index arithmetic, Fourier-mode ordering, particle histogramming,
//! worker-strand partitioning, output scheduling, and output-path handling.

pub mod distribution;
pub mod fft;
pub mod mesh;
pub mod path;
pub mod schedule;
pub mod settings;
pub mod strands;

use vstd::prelude::*;

verus! {

/// Version tag of the library, used when labelling simulation output.
pub fn version() -> (r: String)
    ensures
        r@ == "0.1.0"@,
{
    String::from_str("0.1.0")
}

} // verus!
