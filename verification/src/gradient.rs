//! The cost functional (tracking error, terminal error and control effort),
//! its gradient with respect to the control signal, and one gradient-descent
//! update of the control.

use vstd::prelude::*;
use crate::fixed::{
    FX_TWO, fx_add, fx_div_int, fx_in_range, fx_mul, fx_sub, lemma_tdiv_in_range, spec_fx_add,
    spec_fx_mul, spec_fx_sub, spec_tdiv,
};
use crate::neuron::{NeuronState, StateModel};
use crate::adjoint::{AdjointTrajectory, CostateModel, adj_model};
use crate::forward::{column_mean_v, int_seq, pop_model, spec_mean_v_at};

verus! {

/// Saturating fold of the leading costate components at step `t` over the
/// first `i` neurons.
pub open spec fn spec_sum_p0_at(adj: Seq<Seq<CostateModel>>, t: int, i: int) -> int
    decreases i,
{
    if i <= 0 {
        0
    } else {
        spec_fx_add(spec_sum_p0_at(adj, t, i - 1), adj[i - 1][t].p0)
    }
}

/// Population mean of the leading costate component at step `t`.
pub open spec fn spec_mean_p0_at(adj: Seq<Seq<CostateModel>>, t: int) -> int {
    spec_tdiv(spec_sum_p0_at(adj, t, adj.len() as int), adj.len() as int)
}

/// Gradient of the cost with respect to the control at step `t`: the mean
/// leading costate plus the Tikhonov term `2 * lambda2 * control[t]`.
pub open spec fn spec_gradient_at(
    adj: Seq<Seq<CostateModel>>,
    ctrl: Seq<int>,
    lambda2: int,
    t: int,
) -> int {
    spec_fx_add(
        spec_mean_p0_at(adj, t),
        spec_fx_mul(spec_fx_mul(FX_TWO as int, lambda2), ctrl[t]),
    )
}

/// One descent update of one control entry.
pub open spec fn spec_gradient_step_at(c: int, g: int, step: int) -> int {
    spec_fx_sub(c, spec_fx_mul(step, g))
}

/// Running tracking cost accumulated over steps `0..n`:
/// `gamma * (mean_v(t) - target_v)^2 * dt` per step.
pub open spec fn spec_running_cost(
    pop: Seq<Seq<StateModel>>,
    target_v: int,
    gamma: int,
    dt: int,
    n: int,
) -> int
    decreases n,
{
    if n <= 0 {
        0
    } else {
        let d = spec_fx_sub(spec_mean_v_at(pop, n - 1), target_v);
        spec_fx_add(
            spec_running_cost(pop, target_v, gamma, dt, n - 1),
            spec_fx_mul(spec_fx_mul(gamma, spec_fx_mul(d, d)), dt),
        )
    }
}

/// Control-effort cost accumulated over steps `0..n`:
/// `lambda2 * control(t)^2 * dt` per step.
pub open spec fn spec_control_cost(ctrl: Seq<int>, lambda2: int, dt: int, n: int) -> int
    decreases n,
{
    if n <= 0 {
        0
    } else {
        spec_fx_add(
            spec_control_cost(ctrl, lambda2, dt, n - 1),
            spec_fx_mul(spec_fx_mul(lambda2, spec_fx_mul(ctrl[n - 1], ctrl[n - 1])), dt),
        )
    }
}

/// Terminal cost: `c_t * gamma * (mean_v(m - 1) - target_v)^2`.
pub open spec fn spec_terminal_cost(
    pop: Seq<Seq<StateModel>>,
    m: int,
    target_v: int,
    gamma: int,
    c_t: int,
) -> int {
    let d = spec_fx_sub(spec_mean_v_at(pop, m - 1), target_v);
    spec_fx_mul(spec_fx_mul(c_t, gamma), spec_fx_mul(d, d))
}

/// The scalar objective: running cost plus terminal cost plus
/// control-effort cost.
pub open spec fn spec_total_cost(
    pop: Seq<Seq<StateModel>>,
    ctrl: Seq<int>,
    target_v: int,
    gamma: int,
    lambda2: int,
    c_t: int,
    dt: int,
    m: int,
) -> int {
    spec_fx_add(
        spec_fx_add(
            spec_running_cost(pop, target_v, gamma, dt, m),
            spec_terminal_cost(pop, m, target_v, gamma, c_t),
        ),
        spec_control_cost(ctrl, lambda2, dt, m),
    )
}

/// Gradient of the cost functional with respect to the control: at every
/// step, the population mean of the leading adjoint component plus the
/// Tikhonov regularization term.  The step size `_dt` does not enter.
#[verifier::loop_isolation(false)]
pub fn compute_control_gradient(
    adjoints: &Vec<AdjointTrajectory>,
    control: &Vec<i64>,
    lambda2: i64,
    _dt: i64,
) -> (gradient: Vec<i64>)
    requires
        adjoints.len() >= 1,
        forall|i: int|
            0 <= i < adjoints.len() ==> (#[trigger] adjoints[i]@).len() == adjoints[0]@.len(),
        control.len() == adjoints[0]@.len(),
    ensures
        gradient.len() == control.len(),
        forall|t: int|
            0 <= t < gradient.len() ==> (#[trigger] gradient[t]) as int == spec_gradient_at(
                adj_model(adjoints@),
                int_seq(control@),
                lambda2 as int,
                t,
            ),
{
    let l: usize = adjoints.len();
    let m: usize = adjoints[0].len();
    let mut gradient: Vec<i64> = Vec::new();
    let mut t: usize = 0;
    while t < m
        invariant
            t <= m,
            gradient@.len() == t,
            forall|r: int|
                0 <= r < t ==> (#[trigger] gradient@[r]) as int == spec_gradient_at(
                    adj_model(adjoints@),
                    int_seq(control@),
                    lambda2 as int,
                    r,
                ),
        decreases m - t,
    {
        let mut sum: i64 = 0;
        let mut i: usize = 0;
        while i < l
            invariant
                i <= l,
                t < m,
                sum as int == spec_sum_p0_at(adj_model(adjoints@), t as int, i as int),
            decreases l - i,
        {
            sum = fx_add(sum, adjoints[i][t].p0);
            i = i + 1;
        }
        let mean_p: i64 = fx_div_int(sum, l as u64);
        gradient.push(fx_add(mean_p, fx_mul(fx_mul(FX_TWO, lambda2), control[t])));
        t = t + 1;
    }
    gradient
}

/// One gradient-descent update: `control - step_size * gradient`,
/// elementwise, leaving the inputs untouched.
#[verifier::loop_isolation(false)]
pub fn gradient_step(control: &Vec<i64>, gradient: &Vec<i64>, step_size: i64) -> (updated: Vec<
    i64,
>)
    requires
        gradient.len() == control.len(),
    ensures
        updated.len() == control.len(),
        forall|t: int|
            0 <= t < updated.len() ==> (#[trigger] updated[t]) as int == spec_gradient_step_at(
                control[t] as int,
                gradient[t] as int,
                step_size as int,
            ),
{
    let m: usize = control.len();
    let mut updated: Vec<i64> = Vec::new();
    let mut t: usize = 0;
    while t < m
        invariant
            t <= m,
            updated@.len() == t,
            forall|r: int|
                0 <= r < t ==> (#[trigger] updated@[r]) as int == spec_gradient_step_at(
                    control[r] as int,
                    gradient[r] as int,
                    step_size as int,
                ),
        decreases m - t,
    {
        updated.push(fx_sub(control[t], fx_mul(step_size, gradient[t])));
        t = t + 1;
    }
    updated
}

/// The scalar objective of a forward solution under a control: tracking
/// error and control effort summed over all steps, plus the terminal error.
/// Only the membrane component of `y_target` enters.
#[verifier::loop_isolation(false)]
pub fn evaluate_cost(
    sim: &Vec<Vec<NeuronState>>,
    control: &Vec<i64>,
    y_target: [i64; 3],
    gamma: i64,
    lambda2: i64,
    c_t: i64,
    dt: i64,
) -> (cost: i64)
    requires
        sim.len() >= 1,
        sim[0]@.len() >= 1,
        forall|i: int| 0 <= i < sim.len() ==> (#[trigger] sim[i]@).len() == sim[0]@.len(),
        control.len() == sim[0]@.len(),
    ensures
        cost as int == spec_total_cost(
            pop_model(sim@),
            int_seq(control@),
            y_target[0] as int,
            gamma as int,
            lambda2 as int,
            c_t as int,
            dt as int,
            sim[0]@.len() as int,
        ),
{
    let m: usize = sim[0].len();
    let target_v: i64 = y_target[0];
    let mut running_cost: i64 = 0;
    let mut control_cost: i64 = 0;
    let mut t: usize = 0;
    while t < m
        invariant
            t <= m,
            running_cost as int == spec_running_cost(
                pop_model(sim@),
                target_v as int,
                gamma as int,
                dt as int,
                t as int,
            ),
            control_cost as int == spec_control_cost(
                int_seq(control@),
                lambda2 as int,
                dt as int,
                t as int,
            ),
        decreases m - t,
    {
        let mean_v: i64 = column_mean_v(sim, t);
        let d: i64 = fx_sub(mean_v, target_v);
        running_cost = fx_add(running_cost, fx_mul(fx_mul(gamma, fx_mul(d, d)), dt));
        let c: i64 = control[t];
        control_cost = fx_add(control_cost, fx_mul(fx_mul(lambda2, fx_mul(c, c)), dt));
        t = t + 1;
    }
    let mean_v_final: i64 = column_mean_v(sim, m - 1);
    let d_final: i64 = fx_sub(mean_v_final, target_v);
    let terminal_cost: i64 = fx_mul(fx_mul(c_t, gamma), fx_mul(d_final, d_final));
    fx_add(fx_add(running_cost, terminal_cost), control_cost)
}

/// With no control-effort weight, the gradient at every step is exactly the
/// population mean of the leading adjoint component, independent of the
/// control values.
pub proof fn lemma_gradient_without_regularization(
    adj: Seq<Seq<CostateModel>>,
    c1: Seq<int>,
    c2: Seq<int>,
    t: int,
)
    requires
        adj.len() >= 1,
    ensures
        spec_gradient_at(adj, c1, 0, t) == spec_mean_p0_at(adj, t),
        spec_gradient_at(adj, c2, 0, t) == spec_gradient_at(adj, c1, 0, t),
{
    vstd::arithmetic::div_mod::lemma_div_of0(crate::fixed::FX_ONE as int);
    let s = spec_sum_p0_at(adj, t, adj.len() as int);
    assert(fx_in_range(s));
    lemma_tdiv_in_range(s, adj.len() as int);
    assert(spec_fx_mul(FX_TWO as int, 0) == 0);
    assert(spec_fx_mul(0, c1[t]) == 0);
    assert(spec_fx_mul(0, c2[t]) == 0);
}

/// One descent step moves each control entry against the gradient: wherever
/// the scaled gradient `step_size * g` neither rounds to zero nor saturates
/// the subtraction, the updated entry lies strictly on the opposite side of
/// the old one.
pub proof fn lemma_descent_direction(c: int, g: int, step: int)
    requires
        step > 0,
        spec_fx_mul(step, g) != 0,
        fx_in_range(c - spec_fx_mul(step, g)),
    ensures
        g > 0 ==> spec_gradient_step_at(c, g, step) < c,
        g < 0 ==> spec_gradient_step_at(c, g, step) > c,
{
    vstd::arithmetic::div_mod::lemma_div_of0(crate::fixed::FX_ONE as int);
    let p = step * g;
    let d = spec_fx_mul(step, g);
    vstd::arithmetic::div_mod::lemma_div_pos_is_pos(crate::fixed::iabs(p), crate::fixed::FX_ONE as int);
    if g > 0 {
        assert(p > 0) by (nonlinear_arith)
            requires
                step > 0,
                g > 0,
                p == step * g,
        ;
        assert(d >= 0);
    }
    if g < 0 {
        assert(p < 0) by (nonlinear_arith)
            requires
                step > 0,
                g < 0,
                p == step * g,
        ;
        assert(d <= 0);
    }
}

} // verus!
