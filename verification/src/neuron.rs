//! Per-neuron state, the model-constant bundle, and the deterministic drift
//! of a single FitzHugh–Nagumo neuron under mean-field synaptic coupling.

use vstd::prelude::*;
use crate::fixed::{
    FX_ONE, fx_add, fx_div, fx_div_int, fx_exp, fx_in_range, fx_mul, fx_neg, fx_sub,
    lemma_fx_exp_nonneg, spec_fx_add, spec_fx_div, spec_fx_exp, spec_fx_mul, spec_fx_neg,
    spec_fx_sub, spec_tdiv,
};

verus! {

/// Mathematical model of a neuron state: exact integers in micro-units.
pub struct StateModel {
    pub v: int,
    pub w: int,
    pub y: int,
}

/// All components of the state fit in the `i64` range.
pub open spec fn state_in_range(s: StateModel) -> bool {
    fx_in_range(s.v) && fx_in_range(s.w) && fx_in_range(s.y)
}

/// One neuron's state triple in fixed point: membrane potential `v`,
/// recovery variable `w`, and synaptic gating variable `y` (conceptually a
/// fraction in `[0, 1]`, which is not hard-enforced).
#[derive(Clone, Copy, Debug, PartialEq, Eq, Structural)]
pub struct NeuronState {
    pub v: i64,
    pub w: i64,
    pub y: i64,
}

impl View for NeuronState {
    type V = StateModel;

    open spec fn view(&self) -> StateModel {
        StateModel { v: self.v as int, w: self.w as int, y: self.y as int }
    }
}

/// Mathematical model of the constant bundle.
pub struct ParamsModel {
    pub a: int,
    pub b: int,
    pub c: int,
    pub v_rev: int,
    pub ar: int,
    pub ad: int,
    pub t_max: int,
    pub lambda: int,
    pub v_t: int,
    pub j: int,
    pub i_ext: int,
}

/// The eleven model constants, in fixed point.  Read-only for the lifetime
/// of a simulation run and shared by every neuron and time step.
#[derive(Clone, Copy, Debug, PartialEq, Eq, Structural)]
pub struct FhnParameters {
    /// Recovery offset of the uncoupled model.
    pub a: i64,
    /// Recovery damping of the uncoupled model.
    pub b: i64,
    /// Recovery time-scale of the uncoupled model.
    pub c: i64,
    /// Reversal potential of the synapses.
    pub v_rev: i64,
    /// Opening rate of the synaptic channels.
    pub ar: i64,
    /// Closing rate of the synaptic channels.
    pub ad: i64,
    /// Time constant of neurotransmitter release.
    pub t_max: i64,
    /// Slope of the release sigmoid.
    pub lambda: i64,
    /// Presynaptic threshold potential of the release sigmoid.
    pub v_t: i64,
    /// Mean-field coupling strength.
    pub j: i64,
    /// Baseline external current; a control signal overrides it step by step.
    pub i_ext: i64,
}

impl View for FhnParameters {
    type V = ParamsModel;

    open spec fn view(&self) -> ParamsModel {
        ParamsModel {
            a: self.a as int,
            b: self.b as int,
            c: self.c as int,
            v_rev: self.v_rev as int,
            ar: self.ar as int,
            ad: self.ad as int,
            t_max: self.t_max as int,
            lambda: self.lambda as int,
            v_t: self.v_t as int,
            j: self.j as int,
            i_ext: self.i_ext as int,
        }
    }
}

/// Drift of one neuron: the rate of change of `(v, w, y)` given the
/// population mean of `y` and the model constants, with the synaptic
/// input current `i_ext - j * (v - v_rev) * mean_y`.
pub open spec fn spec_drift(s: StateModel, mean_y: int, p: ParamsModel) -> StateModel {
    let input = spec_fx_sub(
        p.i_ext,
        spec_fx_mul(spec_fx_mul(p.j, spec_fx_sub(s.v, p.v_rev)), mean_y),
    );
    let v_cubed = spec_fx_mul(spec_fx_mul(s.v, s.v), s.v);
    let dv = spec_fx_add(spec_fx_sub(spec_fx_sub(s.v, spec_tdiv(v_cubed, 3)), s.w), input);
    let dw = spec_fx_mul(p.c, spec_fx_sub(spec_fx_add(s.v, p.a), spec_fx_mul(p.b, s.w)));
    let e = spec_fx_exp(spec_fx_mul(spec_fx_neg(p.lambda), spec_fx_sub(s.v, p.v_t)));
    let sigmoid = spec_fx_div(p.t_max, spec_fx_add(FX_ONE as int, e));
    let dy = spec_fx_sub(
        spec_fx_mul(spec_fx_mul(p.ar, sigmoid), spec_fx_sub(FX_ONE as int, s.y)),
        spec_fx_mul(p.ad, s.y),
    );
    StateModel { v: dv, w: dw, y: dy }
}

impl NeuronState {
    /// Deterministic drift of this neuron's state.  `mean_y` is the
    /// population average of the gating variable `y` from the previous step
    /// (the mean-field term); for a single uncoupled neuron it is the
    /// neuron's own value of `y`.
    pub fn drift(&self, mean_y: i64, params: &FhnParameters) -> (d: NeuronState)
        ensures
            d@ == spec_drift(self@, mean_y as int, params@),
    {
        let input: i64 = fx_sub(
            params.i_ext,
            fx_mul(fx_mul(params.j, fx_sub(self.v, params.v_rev)), mean_y),
        );
        let v_cubed: i64 = fx_mul(fx_mul(self.v, self.v), self.v);
        let dv: i64 = fx_add(fx_sub(fx_sub(self.v, fx_div_int(v_cubed, 3)), self.w), input);
        let dw: i64 = fx_mul(params.c, fx_sub(fx_add(self.v, params.a), fx_mul(params.b, self.w)));
        let e: i64 = fx_exp(fx_mul(fx_neg(params.lambda), fx_sub(self.v, params.v_t)));
        proof {
            lemma_fx_exp_nonneg(
                spec_fx_mul(spec_fx_neg(params@.lambda), spec_fx_sub(self@.v, params@.v_t)),
            );
        }
        let denominator: i64 = fx_add(FX_ONE, e);
        let sigmoid: i64 = fx_div(params.t_max, denominator);
        let dy: i64 = fx_sub(
            fx_mul(fx_mul(params.ar, sigmoid), fx_sub(FX_ONE, self.y)),
            fx_mul(params.ad, self.y),
        );
        NeuronState { v: dv, w: dw, y: dy }
    }
}

} // verus!
