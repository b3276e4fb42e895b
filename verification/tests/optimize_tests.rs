//! The optimization driver and the reference profile.

use fhn::neuron::{FhnParameters, NeuronState};
use fhn::optimize::optimize_control;
use fhn::reference::reference_profile;

fn paper_parameters() -> FhnParameters {
    FhnParameters {
        a: 700_000,
        b: 800_000,
        c: 80_000,
        v_rev: 1_200_000,
        ar: 1_000_000,
        ad: 300_000,
        t_max: 1_000_000,
        lambda: 100_000,
        v_t: 2_000_000,
        j: 460_000,
        i_ext: 500_000,
    }
}

fn initial_state() -> NeuronState {
    NeuronState { v: -1_000_000, w: 0, y: 500_000 }
}

#[test]
fn driver_matches_the_hand_computation() {
    // one deterministic neuron, five steps, five iterations
    let params = paper_parameters();
    let max_iters = 5;
    let noise: Vec<Vec<i64>> = vec![vec![0; 4]; max_iters + 1];
    let out = optimize_control(1, 5, 100_000, &params, 0, initial_state(), [0, 0, 0],
        1_000_000, 10_000, 1_000_000, 5_000, max_iters, &noise);
    assert_eq!(out.cost_trace, vec![1_180_362, 1_172_899, 1_165_493, 1_158_136, 1_150_832]);
    assert_eq!(out.control, vec![543_372, 543_655, 543_595, 543_210, 542_522]);
}

#[test]
fn cost_trace_is_non_increasing_for_a_small_step_size() {
    let params = paper_parameters();
    let max_iters = 8;
    let noise: Vec<Vec<i64>> = vec![vec![0; 6]; max_iters + 1];
    let out = optimize_control(1, 7, 100_000, &params, 0, initial_state(), [0, 0, 0],
        1_000_000, 10_000, 1_000_000, 2_000, max_iters, &noise);
    assert_eq!(out.cost_trace.len(), max_iters);
    for k in 1..max_iters {
        assert!(out.cost_trace[k] <= out.cost_trace[k - 1]);
    }
}

#[test]
fn driver_returns_all_four_artifacts_with_matching_shapes() {
    let params = paper_parameters();
    let l = 2;
    let m = 4;
    let max_iters = 3;
    let noise: Vec<Vec<i64>> = (0..max_iters + 1)
        .map(|k| (0..(m - 1) * l).map(|i| ((k * 7 + i) as i64 - 5) * 123_456).collect())
        .collect();
    let out = optimize_control(l, m, 100_000, &params, 40_000, initial_state(), [0, 0, 0],
        1_000_000, 10_000, 1_000_000, 5_000, max_iters, &noise);
    assert_eq!(out.control.len(), m);
    assert_eq!(out.cost_trace.len(), max_iters);
    assert_eq!(out.last_adjoint.len(), l);
    for trajectory in &out.last_adjoint {
        assert_eq!(trajectory.len(), m);
    }
    assert_eq!(out.final_population.len(), l);
    for trajectory in &out.final_population {
        assert_eq!(trajectory.len(), m);
        assert_eq!(trajectory[0], initial_state());
    }
}

#[test]
fn reference_profile_peaks_at_the_center() {
    // t_final = 10.0: the bump tops out at 1.5 exactly at t = 5.0
    assert_eq!(reference_profile(5_000_000, 10_000_000), 1_500_000);
    assert_eq!(reference_profile(0, 10_000_000), 909_796);
}

#[test]
fn reference_profile_is_symmetric_about_the_center() {
    assert_eq!(reference_profile(3_000_000, 10_000_000), 1_384_675);
    assert_eq!(reference_profile(7_000_000, 10_000_000), 1_384_675);
    assert_eq!(
        reference_profile(1_000_000, 10_000_000),
        reference_profile(9_000_000, 10_000_000)
    );
}
