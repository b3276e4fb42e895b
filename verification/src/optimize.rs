//! The optimization driver: starting from the constant baseline control, it
//! repeatedly simulates the population, records the cost, solves the
//! adjoint, forms the gradient, and takes one descent step, for a fixed
//! iteration budget; it then re-runs the forward simulation once under the
//! optimized control for reporting.

use vstd::prelude::*;
use crate::neuron::{FhnParameters, NeuronState, ParamsModel, StateModel};
use crate::forward::{
    ForwardSpec, forward_matches, fwd_of, int_seq, pop_model, simulate_with_control,
    spec_states_at,
};
use crate::adjoint::{AdjointTrajectory, CostateModel, adj_model, compute_adjoint,
    spec_adjoint_at};
use crate::gradient::{
    compute_control_gradient, evaluate_cost, gradient_step, spec_gradient_at,
    spec_gradient_step_at, spec_total_cost,
};

verus! {

/// The inputs of one optimization run, at the spec level.
pub struct OptSpec {
    /// Shared initial state of every neuron.
    pub init: StateModel,
    /// Model constants; the baseline current also seeds the control.
    pub params: ParamsModel,
    /// Population size.
    pub l: nat,
    /// Number of time steps.
    pub m: nat,
    /// Step size.
    pub dt: int,
    /// Noise intensity of the forward runs.
    pub sigma: int,
    /// Target mean membrane potential.
    pub target_v: int,
    /// Tracking weight.
    pub gamma: int,
    /// Control-effort weight.
    pub lambda2: int,
    /// Terminal weight.
    pub c_t: int,
    /// Descent step size.
    pub step_size: int,
    /// One row of standard-normal samples per iteration, plus one row for
    /// the final reporting run.
    pub noise: Seq<Seq<int>>,
}

/// Integer model of the per-iteration noise table.
pub open spec fn noise_model(n: Seq<Vec<i64>>) -> Seq<Seq<int>> {
    n.map_values(|v: Vec<i64>| int_seq(v@))
}

/// The forward inputs of iteration `k` under control `ctrl`.
pub open spec fn spec_iter_fwd(os: OptSpec, ctrl: Seq<int>, k: int) -> ForwardSpec {
    ForwardSpec {
        init: os.init,
        params: os.params,
        l: os.l,
        m: os.m,
        dt: os.dt,
        sigma: os.sigma,
        ctrl: ctrl,
        noise: os.noise[k],
    }
}

/// The neuron-major forward solution of `fs`.
pub open spec fn spec_population(fs: ForwardSpec) -> Seq<Seq<StateModel>> {
    Seq::new(fs.l, |i: int| Seq::new(fs.m, |t: int| spec_states_at(fs, t as nat)[i]))
}

/// The neuron-major adjoint grid of a forward solution.
pub open spec fn spec_adjoint_grid(
    pop: Seq<Seq<StateModel>>,
    p: ParamsModel,
    target_v: int,
    gamma: int,
    c_t: int,
    dt: int,
    l: nat,
    m: nat,
) -> Seq<Seq<CostateModel>> {
    Seq::new(
        l,
        |i: int| Seq::new(
            m,
            |t: int| spec_adjoint_at(pop, p, target_v, gamma, c_t, dt, m, t as nat)[i],
        ),
    )
}

/// The control signal after `k` descent iterations, starting from the
/// constant baseline `params.i_ext`.
pub open spec fn spec_control_iter(os: OptSpec, k: nat) -> Seq<int>
    decreases k,
{
    if k == 0 {
        Seq::new(os.m, |t: int| os.params.i_ext)
    } else {
        let prev = spec_control_iter(os, (k - 1) as nat);
        let pop = spec_population(spec_iter_fwd(os, prev, k - 1));
        let adj = spec_adjoint_grid(pop, os.params, os.target_v, os.gamma, os.c_t, os.dt, os.l,
            os.m);
        Seq::new(
            os.m,
            |t: int| spec_gradient_step_at(
                prev[t],
                spec_gradient_at(adj, prev, os.lambda2, t),
                os.step_size,
            ),
        )
    }
}

/// The cost recorded at the start of iteration `k`.
pub open spec fn spec_cost_iter(os: OptSpec, k: nat) -> int {
    let ctrl = spec_control_iter(os, k);
    let pop = spec_population(spec_iter_fwd(os, ctrl, k as int));
    spec_total_cost(pop, ctrl, os.target_v, os.gamma, os.lambda2, os.c_t, os.dt, os.m as int)
}

/// The adjoint grid solved in iteration `k`.
pub open spec fn spec_adjoint_iter(os: OptSpec, k: nat) -> Seq<Seq<CostateModel>> {
    let ctrl = spec_control_iter(os, k);
    let pop = spec_population(spec_iter_fwd(os, ctrl, k as int));
    spec_adjoint_grid(pop, os.params, os.target_v, os.gamma, os.c_t, os.dt, os.l, os.m)
}

/// The optimization inputs described by the arguments of
/// [`optimize_control`].
pub open spec fn opt_of(
    l: usize,
    m: usize,
    dt: i64,
    params: ParamsModel,
    sigma_ext: i64,
    initial: StateModel,
    target_v: i64,
    gamma: i64,
    lambda2: i64,
    c_t: i64,
    step_size: i64,
    noise: Seq<Seq<int>>,
) -> OptSpec {
    OptSpec {
        init: initial,
        params: params,
        l: l as nat,
        m: m as nat,
        dt: dt as int,
        sigma: sigma_ext as int,
        target_v: target_v as int,
        gamma: gamma as int,
        lambda2: lambda2 as int,
        c_t: c_t as int,
        step_size: step_size as int,
        noise: noise,
    }
}

/// A grid that matches a forward solution pointwise is that solution.
proof fn lemma_forward_matches_population(fs: ForwardSpec, pm: Seq<Seq<StateModel>>)
    requires
        forward_matches(fs, pm),
    ensures
        pm == spec_population(fs),
{
    assert(pm =~~= spec_population(fs));
}

/// What the optimization driver hands back.
pub struct OptimizationOutcome {
    /// The control signal after the final descent step.
    pub control: Vec<i64>,
    /// The cost recorded at the start of each iteration.
    pub cost_trace: Vec<i64>,
    /// The adjoint grid solved in the last iteration, kept for diagnostics.
    pub last_adjoint: Vec<AdjointTrajectory>,
    /// One more forward run under the optimized control, for reporting.
    pub final_population: Vec<Vec<NeuronState>>,
}

/// Run the fixed-budget gradient-descent loop: simulate under the current
/// control, record the cost, solve the adjoint, form the gradient, and
/// replace the control with one descent step; after `max_iters` iterations,
/// re-run the forward simulation under the optimized control.
///
/// `noise` holds one row of standard-normal samples per iteration and one
/// extra row for the reporting run.
#[verifier::loop_isolation(false)]
#[verifier::rlimit(60)]
pub fn optimize_control(
    l: usize,
    m: usize,
    dt: i64,
    params: &FhnParameters,
    sigma_ext: i64,
    initial: NeuronState,
    y_target: [i64; 3],
    gamma: i64,
    lambda2: i64,
    c_t: i64,
    step_size: i64,
    max_iters: usize,
    noise: &Vec<Vec<i64>>,
) -> (out: OptimizationOutcome)
    requires
        1 <= l,
        2 <= m,
        0 < dt,
        0 <= sigma_ext,
        1 <= max_iters,
        noise.len() == max_iters + 1,
        forall|k: int| 0 <= k < noise.len() ==> (#[trigger] noise[k]@).len() == (m - 1) * l,
    ensures
        ({
            let os = opt_of(l, m, dt, params@, sigma_ext, initial@, y_target[0], gamma, lambda2,
                c_t, step_size, noise_model(noise@));
            &&& out.control@.len() == m
            &&& int_seq(out.control@) == spec_control_iter(os, max_iters as nat)
            &&& out.cost_trace@.len() == max_iters
            &&& forall|k: int|
                0 <= k < max_iters ==> (#[trigger] out.cost_trace@[k]) as int == spec_cost_iter(
                    os,
                    k as nat,
                )
            &&& adj_model(out.last_adjoint@) == spec_adjoint_iter(os, (max_iters - 1) as nat)
            &&& forward_matches(
                spec_iter_fwd(os, spec_control_iter(os, max_iters as nat), max_iters as int),
                pop_model(out.final_population@),
            )
        }),
{
    let ghost os = opt_of(l, m, dt, params@, sigma_ext, initial@, y_target[0], gamma, lambda2,
        c_t, step_size, noise_model(noise@));

    // the control starts at the constant baseline current
    let mut control: Vec<i64> = Vec::new();
    let mut t: usize = 0;
    while t < m
        invariant
            t <= m,
            control@.len() == t,
            forall|r: int| 0 <= r < t ==> control@[r] == params.i_ext,
        decreases m - t,
    {
        control.push(params.i_ext);
        t = t + 1;
    }
    proof {
        assert(int_seq(control@) =~= spec_control_iter(os, 0));
    }

    let mut cost_trace: Vec<i64> = Vec::new();
    let mut last_adjoint: Vec<AdjointTrajectory> = Vec::new();
    let mut k: usize = 0;
    while k < max_iters
        invariant
            k <= max_iters,
            control@.len() == m,
            int_seq(control@) == spec_control_iter(os, k as nat),
            cost_trace@.len() == k,
            forall|q: int|
                0 <= q < k ==> (#[trigger] cost_trace@[q]) as int == spec_cost_iter(os, q as nat),
            k >= 1 ==> adj_model(last_adjoint@) == spec_adjoint_iter(os, (k - 1) as nat),
        decreases max_iters - k,
    {
        let ghost fs = spec_iter_fwd(os, spec_control_iter(os, k as nat), k as int);
        let sim = simulate_with_control(l, m, dt, params, sigma_ext, initial, &control,
            &noise[k]);
        proof {
            assert(fwd_of(l, m, dt, params@, sigma_ext, initial@, int_seq(control@),
                int_seq(noise[k as int]@)) == fs);
            lemma_forward_matches_population(fs, pop_model(sim@));
        }
        let cost = evaluate_cost(&sim, &control, y_target, gamma, lambda2, c_t, dt);
        proof {
            assert(cost as int == spec_cost_iter(os, k as nat));
        }
        cost_trace.push(cost);
        let adj = compute_adjoint(&sim, params, y_target, gamma, c_t, dt);
        proof {
            assert(adj_model(adj@) =~~= spec_adjoint_iter(os, k as nat));
        }
        let grad = compute_control_gradient(&adj, &control, lambda2, dt);
        let updated = gradient_step(&control, &grad, step_size);
        proof {
            assert forall|r: int| 0 <= r < m implies int_seq(updated@)[r] == spec_control_iter(
                os,
                (k + 1) as nat,
            )[r] by {
                assert(grad[r] as int == spec_gradient_at(adj_model(adj@), int_seq(control@),
                    lambda2 as int, r));
            }
            assert(int_seq(updated@) =~= spec_control_iter(os, (k + 1) as nat));
        }
        control = updated;
        last_adjoint = adj;
        k = k + 1;
    }

    let ghost fs_final = spec_iter_fwd(os, spec_control_iter(os, max_iters as nat),
        max_iters as int);
    let final_population = simulate_with_control(l, m, dt, params, sigma_ext, initial, &control,
        &noise[max_iters]);
    proof {
        assert(fwd_of(l, m, dt, params@, sigma_ext, initial@, int_seq(control@),
            int_seq(noise[max_iters as int]@)) == fs_final);
    }
    OptimizationOutcome { control, cost_trace, last_adjoint, final_population }
}

} // verus!
