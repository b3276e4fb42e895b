//! Cost evaluation, the control gradient, and the descent step.

use fhn::adjoint::{compute_adjoint, Costate};
use fhn::forward::simulate_fhn_population;
use fhn::gradient::{compute_control_gradient, evaluate_cost, gradient_step};
use fhn::neuron::{FhnParameters, NeuronState};

fn paper_parameters() -> FhnParameters {
    FhnParameters {
        a: 700_000,
        b: 800_000,
        c: 80_000,
        v_rev: 1_200_000,
        ar: 1_000_000,
        ad: 300_000,
        t_max: 1_000_000,
        lambda: 100_000,
        v_t: 2_000_000,
        j: 460_000,
        i_ext: 500_000,
    }
}

fn initial_state() -> NeuronState {
    NeuronState { v: -1_000_000, w: 0, y: 500_000 }
}

fn hand_checked_run() -> (Vec<Vec<NeuronState>>, Vec<Costate>) {
    let params = paper_parameters();
    let noise: Vec<i64> = vec![0, 0];
    let sim = simulate_fhn_population(1, 3, 100_000, &params, 0, initial_state(), &noise);
    let adj = compute_adjoint(&sim, &params, [0, 0, 0], 1_000_000, 1_000_000, 100_000);
    (sim, adj.into_iter().next().unwrap())
}

#[test]
fn cost_matches_the_hand_computation() {
    // running cost: gamma * mean_v(t)^2 * dt summed over the three steps,
    // control cost: lambda2 * 0.5^2 * dt per step, terminal: mean_v(2)^2
    let (sim, _) = hand_checked_run();
    let control: Vec<i64> = vec![500_000; 3];
    let cost = evaluate_cost(&sim, &control, [0, 0, 0], 1_000_000, 10_000, 1_000_000, 100_000);
    assert_eq!(cost, 1_149_430);
}

#[test]
fn gradient_matches_the_hand_computation() {
    let (_, adj_row) = hand_checked_run();
    let adjoints = vec![adj_row];
    let control: Vec<i64> = vec![500_000; 3];
    let gradient = compute_control_gradient(&adjoints, &control, 10_000, 100_000);
    assert_eq!(gradient, vec![-1_851_201, -1_859_478, -1_853_870]);
}

#[test]
fn gradient_without_regularization_is_the_mean_leading_costate() {
    // with lambda2 = 0 the gradient equals the population mean of the
    // adjoint's first component, whatever the control holds
    let (_, adj_row) = hand_checked_run();
    let adjoints = vec![adj_row.clone()];
    let control_a: Vec<i64> = vec![500_000; 3];
    let control_b: Vec<i64> = vec![-3_000_000, 0, 4_444_444];
    let ga = compute_control_gradient(&adjoints, &control_a, 0, 100_000);
    let gb = compute_control_gradient(&adjoints, &control_b, 0, 100_000);
    for t in 0..3 {
        assert_eq!(ga[t], adj_row[t].p0);
    }
    assert_eq!(ga, gb);
}

#[test]
fn gradient_step_matches_the_hand_computation() {
    let control: Vec<i64> = vec![500_000; 3];
    let gradient: Vec<i64> = vec![-1_851_201, -1_859_478, -1_853_870];
    let updated = gradient_step(&control, &gradient, 5_000);
    assert_eq!(updated, vec![509_256, 509_297, 509_269]);
}

#[test]
fn descent_step_moves_against_the_gradient() {
    let control: Vec<i64> = vec![0, 100_000, -250_000, 7];
    let gradient: Vec<i64> = vec![2_000_000, -1_500_000, 800_000, -3_000_000];
    let updated = gradient_step(&control, &gradient, 50_000);
    for t in 0..4 {
        let moved = updated[t] - control[t];
        assert!(moved != 0);
        assert_eq!(moved > 0, gradient[t] < 0);
    }
}

#[test]
fn gradient_step_leaves_the_control_alone_on_a_zero_gradient() {
    let control: Vec<i64> = vec![11, -22, 33];
    let gradient: Vec<i64> = vec![0, 0, 0];
    assert_eq!(gradient_step(&control, &gradient, 5_000), control);
}
