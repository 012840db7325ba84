//! Output scheduling of the simulation driver.
//!
//! Each output channel (distribution, flow field, magnetic field, particles,
//! snapshot) carries an optional cadence: every how many timesteps it is
//! written. The decisions made each timestep are pure functions of the
//! timestep number, so a resumed run writes exactly what the uninterrupted
//! run would have written.

use vstd::prelude::*;

verus! {

/// Cadences at which the driver emits output, in timesteps. A channel
/// without a cadence is never written.
#[derive(Clone, Copy, Debug, PartialEq, Eq, Structural)]
pub struct OutputCadence {
    pub distribution: Option<usize>,
    pub flowfield: Option<usize>,
    pub magneticfield: Option<usize>,
    pub particles: Option<usize>,
    pub snapshot: Option<usize>,
    /// How many particles to write per particle output; all of them when absent.
    pub particles_head: Option<usize>,
    /// Write the initial condition before the first step.
    pub initial_condition: bool,
    /// Write a snapshot after the last step.
    pub final_snapshot: bool,
}

/// What the driver emits at one timestep.
#[derive(Clone, Copy, Debug, PartialEq, Eq, Structural)]
pub struct OutputSelection {
    pub distribution: bool,
    pub flowfield: bool,
    pub magneticfield: bool,
    pub particles: bool,
    pub snapshot: bool,
}

/// A cadence is meaningful when it asks for output every one or more steps.
pub open spec fn cadence_wf(c: Option<usize>) -> bool {
    c matches Some(x) ==> x >= 1
}

/// Whether a channel with cadence `c` is due at `timestep`.
pub open spec fn due_spec(c: Option<usize>, timestep: int) -> bool {
    c matches Some(x) && timestep % (x as int) == 0
}

/// Decides whether a channel with cadence `cadence` is written at
/// `timestep`: exactly at the multiples of the cadence.
pub fn is_output_due(cadence: Option<usize>, timestep: usize) -> (r: bool)
    requires
        cadence_wf(cadence),
    ensures
        r == due_spec(cadence, timestep as int),
{
    match cadence {
        Some(x) => timestep % x == 0,
        None => false,
    }
}

impl OutputCadence {
    /// Every cadence asks for output every one or more steps.
    pub open spec fn wf(self) -> bool {
        &&& cadence_wf(self.distribution)
        &&& cadence_wf(self.flowfield)
        &&& cadence_wf(self.magneticfield)
        &&& cadence_wf(self.particles)
        &&& cadence_wf(self.snapshot)
    }

    /// The channels due at `timestep`.
    pub open spec fn selection_spec(self, timestep: int) -> OutputSelection {
        OutputSelection {
            distribution: due_spec(self.distribution, timestep),
            flowfield: due_spec(self.flowfield, timestep),
            magneticfield: due_spec(self.magneticfield, timestep),
            particles: due_spec(self.particles, timestep),
            snapshot: due_spec(self.snapshot, timestep),
        }
    }

    /// Decides which channels are written at `timestep`.
    pub fn outputs_due(&self, timestep: usize) -> (r: OutputSelection)
        requires
            self.wf(),
        ensures
            r == self.selection_spec(timestep as int),
    {
        OutputSelection {
            distribution: is_output_due(self.distribution, timestep),
            flowfield: is_output_due(self.flowfield, timestep),
            magneticfield: is_output_due(self.magneticfield, timestep),
            particles: is_output_due(self.particles, timestep),
            snapshot: is_output_due(self.snapshot, timestep),
        }
    }
}

impl OutputSelection {
    /// Whether the selection fills any field of an output entry. The entry
    /// is appended to the output queue only then; a snapshot travels
    /// separately, and the magnetic field alone does not prompt an entry.
    pub fn entry_has_output(&self) -> (r: bool)
        ensures
            r == (self.distribution || self.flowfield || self.particles),
    {
        self.distribution || self.flowfield || self.particles
    }
}

/// How many particles one particle output holds: the configured head of the
/// ensemble, or all `n_particles` when no head is configured.
pub fn particles_output_count(head: Option<usize>, n_particles: usize) -> (r: usize)
    requires
        head matches Some(h) ==> h <= n_particles,
    ensures
        r == if head is Some { head->0 as int } else { n_particles as int },
        r <= n_particles,
{
    match head {
        Some(h) => h,
        None => n_particles,
    }
}

/// The timestep numbers a run produces: starting after `start`, one per
/// step, `count` steps long.
pub open spec fn schedule_spec(start: int, count: nat) -> Seq<int> {
    Seq::new(count, |i: int| start + 1 + i)
}

/// Advances the timestep counter by one step.
pub fn next_timestep(timestep: usize) -> (r: usize)
    requires
        timestep < usize::MAX,
    ensures
        r == timestep + 1,
{
    timestep + 1
}

/// Resuming splits a run without changing it: the timestep numbers of a
/// single run of `a + b` steps are those of a run of `a` steps followed by
/// those of a run of `b` more steps that starts where the first ended. Since
/// every per-step output decision is a pure function of the timestep number
/// (`selection_spec`), a resumed run also writes exactly what the
/// uninterrupted run would have written.
pub proof fn lemma_resume_schedule(start: int, a: nat, b: nat)
    ensures
        schedule_spec(start, a + b) =~= schedule_spec(start, a) + schedule_spec(start + a, b),
{
}

} // verus!
