//! Forward integration of the coupled stochastic population with the
//! explicit Euler–Maruyama scheme: synchronous updates across the
//! population, mean-field coupling read from the previous step, and
//! additive noise on the membrane potential only.
//!
//! Randomness is injected: the caller supplies one standard-normal sample
//! per neuron per step (in fixed point), so the integrator itself is a pure
//! function with an exact contract.

use vstd::prelude::*;
use crate::fixed::{
    FX_ONE, fx_add, fx_div_int, fx_in_range, fx_mul, fx_sqrt, spec_fx_add, spec_fx_mul,
    spec_fx_sqrt, spec_tdiv,
};
use crate::neuron::{FhnParameters, NeuronState, ParamsModel, StateModel, spec_drift,
    state_in_range};

verus! {

/// Integer views of a sequence of fixed-point values.
pub open spec fn int_seq(s: Seq<i64>) -> Seq<int> {
    s.map_values(|x: i64| x as int)
}

/// Model of one trajectory (a row of states).
pub open spec fn row_model(row: Seq<NeuronState>) -> Seq<StateModel> {
    row.map_values(|s: NeuronState| s@)
}

/// Model of a whole population, neuron-major: `pop[i][t]` is neuron `i` at
/// step `t`.
pub open spec fn pop_model(p: Seq<Vec<NeuronState>>) -> Seq<Seq<StateModel>> {
    p.map_values(|row: Vec<NeuronState>| row_model(row@))
}

/// The inputs of one forward integration, at the spec level.
pub struct ForwardSpec {
    /// Shared initial state of every neuron.
    pub init: StateModel,
    /// Model constants.
    pub params: ParamsModel,
    /// Population size.
    pub l: nat,
    /// Number of time steps.
    pub m: nat,
    /// Step size.
    pub dt: int,
    /// Intensity of the additive noise on the membrane potential.
    pub sigma: int,
    /// External current per step; entry `t - 1` overrides the baseline
    /// during the step from `t - 1` to `t`.
    pub ctrl: Seq<int>,
    /// Standard-normal samples, one per neuron per step: the sample for
    /// neuron `i` in the step into index `t` sits at `(t - 1) * l + i`.
    pub noise: Seq<int>,
}

/// Saturating left fold of `y` over the first `i` states.
pub open spec fn spec_sum_y(row: Seq<StateModel>, i: int) -> int
    decreases i,
{
    if i <= 0 {
        0
    } else {
        spec_fx_add(spec_sum_y(row, i - 1), row[i - 1].y)
    }
}

/// Population mean of the gating variable `y`.
pub open spec fn spec_mean_y(row: Seq<StateModel>) -> int {
    spec_tdiv(spec_sum_y(row, row.len() as int), row.len() as int)
}

/// Saturating left fold of the membrane potentials at step `t` of the first
/// `i` neurons of a neuron-major population.
pub open spec fn spec_sum_v_at(pop: Seq<Seq<StateModel>>, t: int, i: int) -> int
    decreases i,
{
    if i <= 0 {
        0
    } else {
        spec_fx_add(spec_sum_v_at(pop, t, i - 1), pop[i - 1][t].v)
    }
}

/// Population mean of the membrane potential at step `t`.
pub open spec fn spec_mean_v_at(pop: Seq<Seq<StateModel>>, t: int) -> int {
    spec_tdiv(spec_sum_v_at(pop, t, pop.len() as int), pop.len() as int)
}

/// One Euler–Maruyama update of a single neuron: the drift scaled by `dt`,
/// plus `sigma * sqrt(dt) * xi` on the membrane potential alone.
pub open spec fn spec_step_neuron(
    prev: StateModel,
    mean_y: int,
    p: ParamsModel,
    dt: int,
    sigma: int,
    sqdt: int,
    xi: int,
) -> StateModel {
    let d = spec_drift(prev, mean_y, p);
    StateModel {
        v: spec_fx_add(
            spec_fx_add(prev.v, spec_fx_mul(dt, d.v)),
            spec_fx_mul(spec_fx_mul(sigma, sqdt), xi),
        ),
        w: spec_fx_add(prev.w, spec_fx_mul(dt, d.w)),
        y: spec_fx_add(prev.y, spec_fx_mul(dt, d.y)),
    }
}

/// Constants in effect during the step into index `t`: the control value at
/// `t - 1` replaces the baseline external current.
pub open spec fn spec_eff_params(fs: ForwardSpec, t: int) -> ParamsModel {
    ParamsModel { i_ext: fs.ctrl[t - 1], ..fs.params }
}

/// The whole population after `t` steps.  Step 0 is the shared initial
/// state; afterwards all neurons advance synchronously, with the population
/// mean of `y` taken from the previous step.
pub open spec fn spec_states_at(fs: ForwardSpec, t: nat) -> Seq<StateModel>
    decreases t,
{
    if t == 0 {
        Seq::new(fs.l, |i: int| fs.init)
    } else {
        let prev = spec_states_at(fs, (t - 1) as nat);
        let my = spec_mean_y(prev);
        let p = spec_eff_params(fs, t as int);
        let sq = spec_fx_sqrt(fs.dt);
        Seq::new(
            fs.l,
            |i: int| spec_step_neuron(
                prev[i],
                my,
                p,
                fs.dt,
                fs.sigma,
                sq,
                fs.noise[(t - 1) * fs.l + i],
            ),
        )
    }
}

/// `pm` is exactly the forward solution of `fs`, as a neuron-major grid.
pub open spec fn forward_matches(fs: ForwardSpec, pm: Seq<Seq<StateModel>>) -> bool {
    &&& pm.len() == fs.l
    &&& forall|i: int| 0 <= i < fs.l ==> (#[trigger] pm[i]).len() == fs.m
    &&& forall|i: int, t: int|
        0 <= i < fs.l && 0 <= t < fs.m ==> #[trigger] pm[i][t] == spec_states_at(fs, t as nat)[i]
}

/// The forward inputs described by the arguments of [`simulate_with_control`].
pub open spec fn fwd_of(
    l: usize,
    m: usize,
    dt: i64,
    params: ParamsModel,
    sigma_ext: i64,
    initial: StateModel,
    ctrl: Seq<int>,
    noise: Seq<int>,
) -> ForwardSpec {
    ForwardSpec {
        init: initial,
        params: params,
        l: l as nat,
        m: m as nat,
        dt: dt as int,
        sigma: sigma_ext as int,
        ctrl: ctrl,
        noise: noise,
    }
}

/// A row of `l` copies of the shared initial state.
fn uniform_row(l: usize, initial: NeuronState) -> (row: Vec<NeuronState>)
    ensures
        row@.len() == l,
        forall|k: int| 0 <= k < l ==> row@[k] == initial,
{
    let mut row: Vec<NeuronState> = Vec::new();
    let mut i: usize = 0;
    while i < l
        invariant
            i <= l,
            row@.len() == i,
            forall|k: int| 0 <= k < i ==> row@[k] == initial,
        decreases l - i,
    {
        row.push(initial);
        i = i + 1;
    }
    row
}

/// Population mean of `y` over one row of states.
fn row_mean_y(row: &Vec<NeuronState>) -> (mean: i64)
    requires
        row.len() >= 1,
    ensures
        mean as int == spec_mean_y(row_model(row@)),
{
    let l: usize = row.len();
    let mut sum: i64 = 0;
    let mut i: usize = 0;
    while i < l
        invariant
            i <= l,
            l == row@.len(),
            sum as int == spec_sum_y(row_model(row@), i as int),
        decreases l - i,
    {
        sum = fx_add(sum, row[i].y);
        i = i + 1;
    }
    fx_div_int(sum, l as u64)
}

/// One synchronous Euler–Maruyama update of the whole population, reading
/// the samples for this step at `noise[offset..offset + l]`.
fn step_population(
    prev: &Vec<NeuronState>,
    mean_y: i64,
    eff: &FhnParameters,
    dt: i64,
    sigma_ext: i64,
    sqdt: i64,
    noise: &Vec<i64>,
    offset: usize,
) -> (next: Vec<NeuronState>)
    requires
        offset + prev.len() <= noise.len(),
    ensures
        next@.len() == prev@.len(),
        forall|k: int|
            0 <= k < prev@.len() ==> (#[trigger] next@[k])@ == spec_step_neuron(
                row_model(prev@)[k],
                mean_y as int,
                eff@,
                dt as int,
                sigma_ext as int,
                sqdt as int,
                noise@[offset + k] as int,
            ),
{
    let l: usize = prev.len();
    let mut next: Vec<NeuronState> = Vec::new();
    let mut i: usize = 0;
    while i < l
        invariant
            i <= l,
            l == prev@.len(),
            offset + l <= noise.len(),
            next@.len() == i,
            forall|k: int|
                0 <= k < i ==> (#[trigger] next@[k])@ == spec_step_neuron(
                    row_model(prev@)[k],
                    mean_y as int,
                    eff@,
                    dt as int,
                    sigma_ext as int,
                    sqdt as int,
                    noise@[offset + k] as int,
                ),
        decreases l - i,
    {
        let prev_s: NeuronState = prev[i];
        let d: NeuronState = prev_s.drift(mean_y, eff);
        let xi: i64 = noise[offset + i];
        let nv: i64 = fx_add(fx_add(prev_s.v, fx_mul(dt, d.v)), fx_mul(
            fx_mul(sigma_ext, sqdt),
            xi,
        ));
        let nw: i64 = fx_add(prev_s.w, fx_mul(dt, d.w));
        let ny: i64 = fx_add(prev_s.y, fx_mul(dt, d.y));
        next.push(NeuronState { v: nv, w: nw, y: ny });
        i = i + 1;
    }
    next
}

/// Turn a step-major grid (one row per time step) into one row per neuron.
pub(crate) fn transpose_grid<T: Copy>(steps: &Vec<Vec<T>>, l: usize, m: usize) -> (sim: Vec<
    Vec<T>,
>)
    requires
        steps.len() == m,
        forall|r: int| 0 <= r < m ==> (#[trigger] steps[r]@).len() == l,
    ensures
        sim@.len() == l,
        forall|q: int| 0 <= q < l ==> (#[trigger] sim@[q])@.len() == m,
        forall|q: int, r: int|
            0 <= q < l && 0 <= r < m ==> (#[trigger] sim@[q]@[r]) == steps@[r]@[q],
{
    let mut sim: Vec<Vec<T>> = Vec::new();
    let mut i: usize = 0;
    while i < l
        invariant
            i <= l,
            m == steps@.len(),
            forall|r: int| 0 <= r < m ==> (#[trigger] steps@[r])@.len() == l,
            sim@.len() == i,
            forall|q: int| 0 <= q < i ==> (#[trigger] sim@[q])@.len() == m,
            forall|q: int, r: int|
                0 <= q < i && 0 <= r < m ==> (#[trigger] sim@[q]@[r]) == steps@[r]@[q],
        decreases l - i,
    {
        let mut tr: Vec<T> = Vec::new();
        let mut t: usize = 0;
        while t < m
            invariant
                t <= m,
                i < l,
                m == steps@.len(),
                forall|r: int| 0 <= r < m ==> (#[trigger] steps@[r])@.len() == l,
                tr@.len() == t,
                forall|r: int| 0 <= r < t ==> (#[trigger] tr@[r]) == steps@[r]@[i as int],
            decreases m - t,
        {
            tr.push(steps[t][i]);
            t = t + 1;
        }
        sim.push(tr);
        i = i + 1;
    }
    sim
}

/// Simulate `l` neurons over `m` steps of size `dt` under the supplied
/// external-current sequence: `control[t - 1]` replaces the baseline
/// `params.i_ext` during the step from `t - 1` to `t`.  `noise` holds one
/// standard-normal sample per neuron per step, laid out step-major.
///
/// The returned population holds `l` trajectories of length `m`; every
/// trajectory starts at `initial`, and every later entry is exactly one
/// Euler–Maruyama update of the previous step.
#[verifier::loop_isolation(false)]
#[verifier::rlimit(100)]
pub fn simulate_with_control(
    l: usize,
    m: usize,
    dt: i64,
    params: &FhnParameters,
    sigma_ext: i64,
    initial: NeuronState,
    control: &Vec<i64>,
    noise: &Vec<i64>,
) -> (sim: Vec<Vec<NeuronState>>)
    requires
        1 <= l,
        2 <= m,
        0 < dt,
        0 <= sigma_ext,
        control.len() == m,
        noise.len() == (m - 1) * l,
    ensures
        ({
            let fs = fwd_of(l, m, dt, params@, sigma_ext, initial@, int_seq(control@),
                int_seq(noise@));
            &&& forward_matches(fs, pop_model(sim@))
            &&& sim.len() == l
            &&& forall|i: int| 0 <= i < l ==> (#[trigger] sim[i]@).len() == m
            &&& forall|i: int| 0 <= i < l ==> (#[trigger] sim[i]@)[0] == initial
        }),
{
    let ghost fs = fwd_of(l, m, dt, params@, sigma_ext, initial@, int_seq(control@),
        int_seq(noise@));
    let sqdt: i64 = fx_sqrt(dt);

    let row0 = uniform_row(l, initial);
    proof {
        assert(row_model(row0@) =~= spec_states_at(fs, 0));
    }

    // step-major integration
    let mut steps: Vec<Vec<NeuronState>> = Vec::new();
    steps.push(row0);
    let mut t: usize = 1;
    while t < m
        invariant
            1 <= t <= m,
            steps@.len() == t,
            forall|r: int| 0 <= r < t ==> (#[trigger] steps@[r])@.len() == l,
            forall|r: int|
                0 <= r < t ==> row_model((#[trigger] steps@[r])@) == spec_states_at(fs, r as nat),
        decreases m - t,
    {
        proof {
            assert((t - 1) * l + l <= (m - 1) * l) by (nonlinear_arith)
                requires
                    1 <= t < m,
                    0 <= l,
            ;
            assert((t - 1) * l >= 0) by (nonlinear_arith)
                requires
                    1 <= t,
                    0 <= l,
            ;
        }
        let mean_y: i64 = row_mean_y(&steps[t - 1]);
        let eff: FhnParameters = FhnParameters { i_ext: control[t - 1], ..*params };
        let offset: usize = (t - 1) * l;
        let next = step_population(&steps[t - 1], mean_y, &eff, dt, sigma_ext, sqdt, noise,
            offset);
        proof {
            assert(eff@ == spec_eff_params(fs, t as int));
            assert(mean_y as int == spec_mean_y(spec_states_at(fs, (t - 1) as nat)));
            assert forall|k: int| 0 <= k < l implies row_model(next@)[k] == spec_states_at(
                fs,
                t as nat,
            )[k] by {
                assert(next@[k]@ == spec_step_neuron(
                    row_model(steps@[t - 1]@)[k],
                    mean_y as int,
                    eff@,
                    dt as int,
                    sigma_ext as int,
                    sqdt as int,
                    noise@[offset + k] as int,
                ));
            }
            assert(row_model(next@) =~= spec_states_at(fs, t as nat));
        }
        steps.push(next);
        t = t + 1;
    }

    let sim = transpose_grid(&steps, l, m);
    proof {
        assert forall|i: int, r: int| 0 <= i < l && 0 <= r < m implies #[trigger] pop_model(
            sim@,
        )[i][r] == spec_states_at(fs, r as nat)[i] by {
            assert(pop_model(sim@)[i][r] == sim@[i]@[r]@);
            assert(sim@[i]@[r] == steps@[r]@[i]);
            assert(row_model(steps@[r]@)[i] == spec_states_at(fs, r as nat)[i]);
        }
        assert forall|i: int| 0 <= i < l implies (#[trigger] sim@[i])@[0] == initial by {
            let s = sim@[i]@[0];
            assert(s == steps@[0]@[i]);
            assert(row_model(steps@[0]@)[i] == spec_states_at(fs, 0)[i]);
            assert(s@ == initial@);
            assert(s.v == initial.v && s.w == initial.w && s.y == initial.y);
        }
    }
    sim
}

/// Simulate the population under the baseline external current alone: the
/// control sequence is the constant `params.i_ext`.
#[verifier::loop_isolation(false)]
pub fn simulate_fhn_population(
    l: usize,
    m: usize,
    dt: i64,
    params: &FhnParameters,
    sigma_ext: i64,
    initial: NeuronState,
    noise: &Vec<i64>,
) -> (sim: Vec<Vec<NeuronState>>)
    requires
        1 <= l,
        2 <= m,
        0 < dt,
        0 <= sigma_ext,
        noise.len() == (m - 1) * l,
    ensures
        ({
            let fs = fwd_of(l, m, dt, params@, sigma_ext, initial@,
                Seq::new(m as nat, |t: int| params@.i_ext), int_seq(noise@));
            &&& forward_matches(fs, pop_model(sim@))
            &&& sim.len() == l
            &&& forall|i: int| 0 <= i < l ==> (#[trigger] sim[i]@).len() == m
            &&& forall|i: int| 0 <= i < l ==> (#[trigger] sim[i]@)[0] == initial
        }),
{
    let mut control: Vec<i64> = Vec::new();
    let mut t: usize = 0;
    while t < m
        invariant
            t <= m,
            control@.len() == t,
            forall|r: int| 0 <= r < t ==> control@[r] == params.i_ext,
        decreases m - t,
    {
        control.push(params.i_ext);
        t = t + 1;
    }
    let sim = simulate_with_control(l, m, dt, params, sigma_ext, initial, &control, noise);
    proof {
        assert(int_seq(control@) =~= Seq::new(m as nat, |t: int| params@.i_ext));
    }
    sim
}

/// Population-mean membrane potential at every time step (the local field
/// potential of the population).
#[verifier::loop_isolation(false)]
pub fn local_field_potential(sim: &Vec<Vec<NeuronState>>) -> (lfp: Vec<i64>)
    requires
        sim.len() >= 1,
        forall|i: int| 0 <= i < sim.len() ==> (#[trigger] sim[i]@).len() == sim[0]@.len(),
    ensures
        lfp.len() == sim[0]@.len(),
        forall|t: int|
            0 <= t < lfp.len() ==> (#[trigger] lfp[t]) as int == spec_mean_v_at(
                pop_model(sim@),
                t,
            ),
{
    let m: usize = sim[0].len();
    let l: usize = sim.len();
    let mut lfp: Vec<i64> = Vec::new();
    let mut t: usize = 0;
    while t < m
        invariant
            t <= m,
            lfp@.len() == t,
            forall|r: int|
                0 <= r < t ==> (#[trigger] lfp@[r]) as int == spec_mean_v_at(pop_model(sim@), r),
        decreases m - t,
    {
        let mut sum: i64 = 0;
        let mut i: usize = 0;
        while i < l
            invariant
                i <= l,
                sum as int == spec_sum_v_at(pop_model(sim@), t as int, i as int),
            decreases l - i,
        {
            sum = fx_add(sum, sim[i][t].v);
            i = i + 1;
        }
        lfp.push(fx_div_int(sum, l as u64));
        t = t + 1;
    }
    lfp
}

/// Population mean of the membrane potential at one time step of a
/// neuron-major population.
#[verifier::loop_isolation(false)]
pub(crate) fn column_mean_v(sim: &Vec<Vec<NeuronState>>, t: usize) -> (mean: i64)
    requires
        sim.len() >= 1,
        forall|i: int| 0 <= i < sim.len() ==> t < (#[trigger] sim[i]@).len(),
    ensures
        mean as int == spec_mean_v_at(pop_model(sim@), t as int),
{
    let l: usize = sim.len();
    let mut sum: i64 = 0;
    let mut i: usize = 0;
    while i < l
        invariant
            i <= l,
            sum as int == spec_sum_v_at(pop_model(sim@), t as int, i as int),
        decreases l - i,
    {
        sum = fx_add(sum, sim[i][t].v);
        i = i + 1;
    }
    fx_div_int(sum, l as u64)
}

/// Every state the forward recursion produces has all components in the
/// `i64` range.
pub proof fn lemma_states_in_range(fs: ForwardSpec, t: nat)
    requires
        state_in_range(fs.init),
    ensures
        forall|i: int|
            0 <= i < fs.l ==> state_in_range(#[trigger] spec_states_at(fs, t)[i]),
    decreases t,
{
    if t > 0 {
        lemma_states_in_range(fs, (t - 1) as nat);
    }
}

/// With zero noise intensity the forward solution does not depend on the
/// injected samples at all: the integrator is deterministic, and two runs
/// on identical inputs agree exactly.
pub proof fn lemma_forward_deterministic(fs1: ForwardSpec, fs2: ForwardSpec, t: nat)
    requires
        fs1.sigma == 0,
        fs2 == (ForwardSpec { noise: fs2.noise, ..fs1 }),
    ensures
        spec_states_at(fs1, t) == spec_states_at(fs2, t),
    decreases t,
{
    if t > 0 {
        lemma_forward_deterministic(fs1, fs2, (t - 1) as nat);
        let prev = spec_states_at(fs1, (t - 1) as nat);
        let my = spec_mean_y(prev);
        let p = spec_eff_params(fs1, t as int);
        let sq = spec_fx_sqrt(fs1.dt);
        assert(spec_eff_params(fs2, t as int) == p);
        assert forall|i: int| 0 <= i < fs1.l implies #[trigger] spec_states_at(fs1, t)[i]
            == spec_states_at(fs2, t)[i] by {
            let xi1 = fs1.noise[(t - 1) * fs1.l + i];
            let xi2 = fs2.noise[(t - 1) * fs1.l + i];
            lemma_step_neuron_zero_sigma(prev[i], my, p, fs1.dt, sq, xi1, xi2);
        }
        assert(spec_states_at(fs1, t) =~= spec_states_at(fs2, t));
    }
}

/// With zero noise intensity the sample value does not enter the update.
proof fn lemma_step_neuron_zero_sigma(
    prev: StateModel,
    mean_y: int,
    p: ParamsModel,
    dt: int,
    sqdt: int,
    xi1: int,
    xi2: int,
)
    ensures
        spec_step_neuron(prev, mean_y, p, dt, 0, sqdt, xi1) == spec_step_neuron(
            prev,
            mean_y,
            p,
            dt,
            0,
            sqdt,
            xi2,
        ),
{
    vstd::arithmetic::div_mod::lemma_div_of0(FX_ONE as int);
    assert(spec_fx_mul(0, sqdt) == 0);
    assert(spec_fx_mul(0, xi1) == 0);
    assert(spec_fx_mul(0, xi2) == 0);
}

/// For a population of one neuron the population mean of `y` is the
/// neuron's own value: the coupled drift reduces to the single-neuron
/// formula.
pub proof fn lemma_single_neuron_mean_is_own_y(row: Seq<StateModel>)
    requires
        row.len() == 1,
        state_in_range(row[0]),
    ensures
        spec_mean_y(row) == row[0].y,
{
    let y = row[0].y;
    assert(spec_sum_y(row, 0) == 0);
    assert(spec_sum_y(row, 1) == spec_fx_add(0, y));
    crate::fixed::lemma_tdiv_in_range(y, 1);
    assert(crate::fixed::iabs(y) / 1 == crate::fixed::iabs(y));
}

/// For a population of one neuron, every step of the forward recursion is
/// exactly the single-neuron Euler–Maruyama update with the neuron's own
/// value of `y` as the mean-field term.
pub proof fn lemma_single_neuron_step(fs: ForwardSpec, t: nat)
    requires
        fs.l == 1,
        state_in_range(fs.init),
        t >= 1,
    ensures
        spec_states_at(fs, t)[0] == spec_step_neuron(
            spec_states_at(fs, (t - 1) as nat)[0],
            spec_states_at(fs, (t - 1) as nat)[0].y,
            spec_eff_params(fs, t as int),
            fs.dt,
            fs.sigma,
            spec_fx_sqrt(fs.dt),
            fs.noise[t - 1],
        ),
{
    lemma_states_in_range(fs, (t - 1) as nat);
    let prev = spec_states_at(fs, (t - 1) as nat);
    lemma_single_neuron_mean_is_own_y(prev);
    assert((t - 1) * fs.l + 0 == t - 1);
}

} // verus!
