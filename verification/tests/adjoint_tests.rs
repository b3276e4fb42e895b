//! The backward adjoint solver: terminal condition, shape, and one
//! hand-checked backward step.

use fhn::adjoint::{compute_adjoint, Costate};
use fhn::forward::simulate_fhn_population;
use fhn::neuron::{FhnParameters, NeuronState};

fn paper_parameters() -> FhnParameters {
    FhnParameters {
        a: 700_000,
        b: 800_000,
        c: 80_000,
        v_rev: 1_200_000,
        ar: 1_000_000,
        ad: 300_000,
        t_max: 1_000_000,
        lambda: 100_000,
        v_t: 2_000_000,
        j: 460_000,
        i_ext: 500_000,
    }
}

fn initial_state() -> NeuronState {
    NeuronState { v: -1_000_000, w: 0, y: 500_000 }
}

#[test]
fn terminal_condition_holds_for_every_neuron() {
    // adjoint[i][M-1] = [2 * c_t * gamma * (v_i(M-1) - target_v), 0, 0];
    // with c_t = gamma = 1 the membrane channel is twice the final
    // deviation, exactly.
    let params = paper_parameters();
    let l = 3;
    let m = 4;
    let noise: Vec<i64> = (0..(m - 1) * l).map(|k| (k as i64 - 4) * 200_000).collect();
    let sim = simulate_fhn_population(l, m, 100_000, &params, 40_000, initial_state(), &noise);
    let target = [250_000, 0, 0];
    let adj = compute_adjoint(&sim, &params, target, 1_000_000, 1_000_000, 100_000);
    assert_eq!(adj.len(), l);
    for i in 0..l {
        assert_eq!(adj[i].len(), m);
        let expected_p0 = 2 * (sim[i][m - 1].v - target[0]);
        assert_eq!(adj[i][m - 1], Costate { p0: expected_p0, p1: 0, p2: 0 });
    }
}

#[test]
fn backward_steps_match_the_hand_computation() {
    // the single-neuron forward run of the hand-checked scenario, target 0,
    // gamma = c_t = 1, lambda2 absent here
    let params = paper_parameters();
    let noise: Vec<i64> = vec![0, 0];
    let sim = simulate_fhn_population(1, 3, 100_000, &params, 0, initial_state(), &noise);
    let adj = compute_adjoint(&sim, &params, [0, 0, 0], 1_000_000, 1_000_000, 100_000);
    assert_eq!(adj[0][2], Costate { p0: -1_863_870, p1: 0, p2: 0 });
    assert_eq!(adj[0][1], Costate { p0: -1_869_478, p1: -14_910, p2: 0 });
    assert_eq!(adj[0][0], Costate { p0: -1_861_201, p1: -29_770, p2: 0 });
}

#[test]
fn y_channel_costate_stays_zero() {
    let params = paper_parameters();
    let l = 2;
    let m = 6;
    let noise: Vec<i64> = (0..(m - 1) * l).map(|k| (k as i64) * 150_000 - 700_000).collect();
    let sim = simulate_fhn_population(l, m, 100_000, &params, 40_000, initial_state(), &noise);
    let adj = compute_adjoint(&sim, &params, [0, 0, 0], 1_000_000, 500_000, 100_000);
    for trajectory in &adj {
        for costate in trajectory {
            assert_eq!(costate.p2, 0);
        }
    }
}
