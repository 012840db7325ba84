use stochasticsampling::schedule::{
    is_output_due, next_timestep, particles_output_count, OutputCadence, OutputSelection,
};
use stochasticsampling::settings::{
    choose_init_type, parse_usize, validate_grid, validate_initial_particle_count,
    validate_particle_head, InitType, SimError,
};
use stochasticsampling::mesh::GridSize;

fn cadence() -> OutputCadence {
    OutputCadence {
        distribution: Some(10),
        flowfield: None,
        magneticfield: Some(3),
        particles: Some(4),
        snapshot: Some(50),
        particles_head: None,
        initial_condition: true,
        final_snapshot: true,
    }
}

#[test]
fn test_is_output_due() {
    assert!(is_output_due(Some(10), 30));
    assert!(!is_output_due(Some(10), 31));
    assert!(!is_output_due(None, 30));
    assert!(is_output_due(Some(1), 7));
}

#[test]
fn test_outputs_due() {
    let c = cadence();
    let sel = c.outputs_due(12);
    assert!(!sel.distribution);
    assert!(!sel.flowfield);
    assert!(sel.magneticfield);
    assert!(sel.particles);
    assert!(!sel.snapshot);
    let sel = c.outputs_due(100);
    assert!(sel.distribution);
    assert!(sel.particles);
    assert!(sel.snapshot);
}

#[test]
fn test_entry_has_output_ignores_magnetic() {
    // an entry is queued for distribution, flow field or particles;
    // the magnetic field alone does not prompt one
    let sel = OutputSelection {
        distribution: false,
        flowfield: false,
        magneticfield: true,
        particles: false,
        snapshot: false,
    };
    assert!(!sel.entry_has_output());
    let sel = OutputSelection { flowfield: true, ..sel };
    assert!(sel.entry_has_output());
}

#[test]
fn test_resume_matches_direct_run() {
    // the per-step output decisions of a split run equal those of the
    // uninterrupted run, step for step
    let c = cadence();
    let mut direct = Vec::new();
    let mut t = 0;
    for _ in 0..100 {
        t = next_timestep(t);
        direct.push(c.outputs_due(t));
    }
    let mut split = Vec::new();
    let mut t = 0;
    for _ in 0..37 {
        t = next_timestep(t);
        split.push(c.outputs_due(t));
    }
    let resumed_at = t;
    let mut t = resumed_at;
    for _ in 0..63 {
        t = next_timestep(t);
        split.push(c.outputs_due(t));
    }
    assert_eq!(direct, split);
}

#[test]
fn test_particles_output_count() {
    assert_eq!(particles_output_count(Some(5), 100), 5);
    assert_eq!(particles_output_count(None, 100), 100);
}

#[test]
fn test_validate_grid() {
    let ok = GridSize { x: 4, y: 4, z: 4, phi: 4, theta: 4 };
    assert!(validate_grid(&ok, false).is_ok());
    let odd_x = GridSize { x: 5, ..ok };
    assert_eq!(validate_grid(&odd_x, false), Err(SimError::ConfigInvalid));
    let zero_axis = GridSize { theta: 0, ..ok };
    assert_eq!(validate_grid(&zero_axis, false), Err(SimError::ConfigInvalid));
    // quasi-two-dimensional mode needs a single cell along z
    assert_eq!(validate_grid(&ok, true), Err(SimError::ConfigInvalid));
    let flat = GridSize { z: 1, ..ok };
    assert!(validate_grid(&flat, true).is_ok());
}

#[test]
fn test_validate_particle_head() {
    assert!(validate_particle_head(None, 10).is_ok());
    assert!(validate_particle_head(Some(10), 10).is_ok());
    assert_eq!(
        validate_particle_head(Some(11), 10),
        Err(SimError::ConfigInvalid)
    );
}

#[test]
fn test_validate_initial_particle_count() {
    assert!(validate_initial_particle_count(8, 8).is_ok());
    assert_eq!(
        validate_initial_particle_count(7, 8),
        Err(SimError::InitialConditionMismatch { given: 7, expected: 8 })
    );
}

#[test]
fn test_choose_init_type() {
    assert_eq!(choose_init_type(true, true, true), Ok(InitType::Stdin));
    assert_eq!(
        choose_init_type(false, false, false),
        Ok(InitType::Distribution)
    );
    assert_eq!(
        choose_init_type(false, false, true),
        Err(SimError::ResumeMissing)
    );
    assert_eq!(choose_init_type(false, true, true), Ok(InitType::Resume));
    assert_eq!(choose_init_type(false, true, false), Ok(InitType::File));
}

#[test]
fn test_error_messages() {
    assert_eq!(SimError::ConfigInvalid.message(), "invalid configuration");
    assert_eq!(
        SimError::ResumeMissing.message(),
        "cannot resume without a snapshot"
    );
    assert_eq!(
        SimError::InitialConditionMismatch { given: 1, expected: 2 }.message(),
        "initial condition mismatch"
    );
    assert_eq!(
        SimError::InitializationFailure.message(),
        "initialization failure"
    );
    assert_eq!(
        SimError::IoBackpressureOverflow.message(),
        "output queue overflowed"
    );
}

#[test]
fn test_parse_usize() {
    assert_eq!(parse_usize("8"), Some(8));
    assert_eq!(parse_usize("+8"), Some(8));
    assert_eq!(parse_usize("0012"), Some(12));
    assert_eq!(parse_usize(""), None);
    assert_eq!(parse_usize("+"), None);
    assert_eq!(parse_usize("x8"), None);
    assert_eq!(parse_usize("8x"), None);
    assert_eq!(parse_usize("-8"), None);
    assert_eq!(parse_usize("18446744073709551615"), Some(usize::MAX));
    assert_eq!(parse_usize("18446744073709551616"), None);
}
