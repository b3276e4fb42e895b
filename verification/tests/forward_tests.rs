//! The forward simulator: determinism, population shape, and one
//! hand-checked integration step of a single uncoupled neuron.

use fhn::forward::{local_field_potential, simulate_fhn_population, simulate_with_control};
use fhn::neuron::{FhnParameters, NeuronState};

fn paper_parameters() -> FhnParameters {
    // a = 0.7, b = 0.8, c = 0.08, v_rev = 1.2, ar = 1.0, ad = 0.3,
    // t_max = 1.0, lambda = 0.1, v_t = 2.0, j = 0.46, i_ext = 0.5
    FhnParameters {
        a: 700_000,
        b: 800_000,
        c: 80_000,
        v_rev: 1_200_000,
        ar: 1_000_000,
        ad: 300_000,
        t_max: 1_000_000,
        lambda: 100_000,
        v_t: 2_000_000,
        j: 460_000,
        i_ext: 500_000,
    }
}

fn initial_state() -> NeuronState {
    // v = -1.0, w = 0.0, y = 0.5
    NeuronState { v: -1_000_000, w: 0, y: 500_000 }
}

#[test]
fn two_identical_runs_agree_exactly() {
    let params = paper_parameters();
    let noise: Vec<i64> = vec![250_000, -1_300_000, 40_000, 0, 777_777, -2_000_000];
    let a = simulate_fhn_population(2, 4, 100_000, &params, 40_000, initial_state(), &noise);
    let b = simulate_fhn_population(2, 4, 100_000, &params, 40_000, initial_state(), &noise);
    assert_eq!(a, b);
}

#[test]
fn zero_noise_intensity_ignores_the_samples() {
    let params = paper_parameters();
    let noise_a: Vec<i64> = vec![250_000, -1_300_000, 40_000, 0, 777_777, -2_000_000];
    let noise_b: Vec<i64> = vec![0, 0, 0, 0, 0, 0];
    let a = simulate_fhn_population(2, 4, 100_000, &params, 0, initial_state(), &noise_a);
    let b = simulate_fhn_population(2, 4, 100_000, &params, 0, initial_state(), &noise_b);
    assert_eq!(a, b);
}

#[test]
fn population_has_l_trajectories_of_length_m_from_the_initial_state() {
    let params = paper_parameters();
    let l = 3;
    let m = 5;
    let noise: Vec<i64> = (0..(m - 1) * l).map(|k| (k as i64 - 6) * 111_111).collect();
    let sim = simulate_fhn_population(l, m, 100_000, &params, 40_000, initial_state(), &noise);
    assert_eq!(sim.len(), l);
    for trajectory in &sim {
        assert_eq!(trajectory.len(), m);
        assert_eq!(trajectory[0], initial_state());
    }
}

#[test]
fn drift_of_a_single_uncoupled_neuron_matches_the_formula() {
    // with mean_y equal to the neuron's own value of y:
    // input = 0.5 - 0.46 * (-1 - 1.2) * 0.5 = 1.006
    // dv = -1 - (-1/3) - 0 + 1.006 = 0.339333
    // dw = 0.08 * (-1 + 0.7 - 0) = -0.024
    // sigmoid = 1 / (1 + e^0.3) = 0.425557
    // dy = 0.425557 * 0.5 - 0.3 * 0.5 = 0.062778
    let params = paper_parameters();
    let s = initial_state();
    let d = s.drift(s.y, &params);
    assert_eq!(d, NeuronState { v: 339_333, w: -24_000, y: 62_778 });
}

#[test]
fn single_neuron_steps_match_the_hand_computation() {
    // L = 1, M = 3, dt = 0.1, sigma_ext = 0: for one neuron the population
    // mean of y is its own, so step 1 is v += dt * 0.339333, w += dt * (-0.024),
    // y += dt * 0.062778 from the drift above.
    let params = paper_parameters();
    let noise: Vec<i64> = vec![0, 0];
    let sim = simulate_fhn_population(1, 3, 100_000, &params, 0, initial_state(), &noise);
    assert_eq!(sim[0][1], NeuronState { v: -966_067, w: -2_400, y: 506_277 });
    assert_eq!(sim[0][2], NeuronState { v: -931_935, w: -4_513, y: 512_140 });
}

#[test]
fn control_replaces_the_baseline_current() {
    // a control sequence pinned at the baseline reproduces the plain run
    let params = paper_parameters();
    let noise: Vec<i64> = vec![9_999, -77, 0, 345_678];
    let control: Vec<i64> = vec![params.i_ext; 5];
    let a = simulate_fhn_population(1, 5, 100_000, &params, 40_000, initial_state(), &noise);
    let b = simulate_with_control(1, 5, 100_000, &params, 40_000, initial_state(), &control,
        &noise);
    assert_eq!(a, b);

    // a different control changes the trajectory after step 0
    let control_c: Vec<i64> = vec![900_000; 5];
    let c = simulate_with_control(1, 5, 100_000, &params, 40_000, initial_state(), &control_c,
        &noise);
    assert_eq!(c[0][0], initial_state());
    assert_ne!(c[0][1], a[0][1]);
}

#[test]
fn local_field_potential_of_a_single_neuron_is_its_own_potential() {
    let params = paper_parameters();
    let noise: Vec<i64> = vec![120_000, -340_000];
    let sim = simulate_fhn_population(1, 3, 100_000, &params, 40_000, initial_state(), &noise);
    let lfp = local_field_potential(&sim);
    assert_eq!(lfp.len(), 3);
    for t in 0..3 {
        assert_eq!(lfp[t], sim[0][t].v);
    }
}
