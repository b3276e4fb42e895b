//! Backward-in-time adjoint (costate) solver for a completed forward
//! solution: the discrete adjoint of the linearized membrane/recovery
//! subsystem, with the costate of the `y` channel structurally zero.

use vstd::prelude::*;
use crate::fixed::{
    FX_ONE, FX_TWO, fx_add, fx_mul, fx_sub, spec_fx_add, spec_fx_mul, spec_fx_sub,
};
use crate::neuron::{FhnParameters, NeuronState, ParamsModel, StateModel};
use crate::forward::{column_mean_v, pop_model, spec_mean_v_at, transpose_grid};

verus! {

/// Mathematical model of an adjoint 3-vector.
pub struct CostateModel {
    pub p0: int,
    pub p1: int,
    pub p2: int,
}

/// One adjoint 3-vector: the costates conjugate to `v`, `w` and `y`.
#[derive(Clone, Copy, Debug, PartialEq, Eq, Structural)]
pub struct Costate {
    pub p0: i64,
    pub p1: i64,
    pub p2: i64,
}

impl View for Costate {
    type V = CostateModel;

    open spec fn view(&self) -> CostateModel {
        CostateModel { p0: self.p0 as int, p1: self.p1 as int, p2: self.p2 as int }
    }
}

/// One adjoint trajectory: one costate per time step of one neuron.
pub type AdjointTrajectory = Vec<Costate>;

/// Model of a neuron-major adjoint grid.
pub open spec fn adj_model(a: Seq<Vec<Costate>>) -> Seq<Seq<CostateModel>> {
    a.map_values(|row: Vec<Costate>| row@.map_values(|c: Costate| c@))
}

/// Terminal costate of one neuron: `2 * c_t * gamma * (v(M-1) - target_v)`
/// on the membrane channel, zero on the other two.
pub open spec fn spec_adjoint_terminal(
    v_final: int,
    target_v: int,
    gamma: int,
    c_t: int,
) -> CostateModel {
    CostateModel {
        p0: spec_fx_mul(
            spec_fx_mul(spec_fx_mul(FX_TWO as int, c_t), gamma),
            spec_fx_sub(v_final, target_v),
        ),
        p1: 0,
        p2: 0,
    }
}

/// One backward Euler step of one neuron's costate, from the costate at the
/// next step, the forward state at the current step, and the population
/// mean potential at the next step.
pub open spec fn spec_adjoint_step(
    x: StateModel,
    nxt: CostateModel,
    mean_v: int,
    p: ParamsModel,
    gamma: int,
    dt: int,
) -> CostateModel {
    let dp0 = spec_fx_mul(
        dt,
        spec_fx_sub(
            spec_fx_sub(
                spec_fx_mul(spec_fx_sub(FX_ONE as int, spec_fx_mul(x.v, x.v)), nxt.p0),
                nxt.p1,
            ),
            spec_fx_mul(spec_fx_mul(FX_TWO as int, gamma), spec_fx_sub(x.v, mean_v)),
        ),
    );
    let dp1 = spec_fx_mul(
        dt,
        spec_fx_sub(spec_fx_mul(p.c, nxt.p0), spec_fx_mul(spec_fx_mul(p.c, p.b), nxt.p1)),
    );
    CostateModel {
        p0: spec_fx_add(nxt.p0, dp0),
        p1: spec_fx_add(nxt.p1, dp1),
        p2: nxt.p2,
    }
}

/// The adjoint row at step `r` of a forward solution with `m` steps: the
/// terminal condition at `m - 1`, and one backward Euler step at a time
/// below it.
pub open spec fn spec_adjoint_at(
    pop: Seq<Seq<StateModel>>,
    p: ParamsModel,
    target_v: int,
    gamma: int,
    c_t: int,
    dt: int,
    m: nat,
    r: nat,
) -> Seq<CostateModel>
    decreases m - r,
{
    if r + 1 >= m {
        Seq::new(pop.len(), |i: int| spec_adjoint_terminal(pop[i][m - 1].v, target_v, gamma, c_t))
    } else {
        let nxt = spec_adjoint_at(pop, p, target_v, gamma, c_t, dt, m, (r + 1) as nat);
        let mv = spec_mean_v_at(pop, r + 1 as int);
        Seq::new(pop.len(), |i: int| spec_adjoint_step(pop[i][r as int], nxt[i], mv, p, gamma, dt))
    }
}

/// The terminal adjoint row of a forward solution.
fn adjoint_terminal_row(
    sim: &Vec<Vec<NeuronState>>,
    target_v: i64,
    gamma: i64,
    c_t: i64,
) -> (row: Vec<Costate>)
    requires
        sim.len() >= 1,
        forall|i: int| 0 <= i < sim.len() ==> (#[trigger] sim[i]@).len() >= 1,
        forall|i: int| 0 <= i < sim.len() ==> (#[trigger] sim[i]@).len() == sim[0]@.len(),
    ensures
        row@.len() == sim.len(),
        forall|i: int|
            0 <= i < sim.len() ==> (#[trigger] row@[i])@ == spec_adjoint_terminal(
                pop_model(sim@)[i][sim[0]@.len() - 1].v,
                target_v as int,
                gamma as int,
                c_t as int,
            ),
{
    let l: usize = sim.len();
    let m: usize = sim[0].len();
    let mut row: Vec<Costate> = Vec::new();
    let mut i: usize = 0;
    while i < l
        invariant
            i <= l,
            l == sim@.len(),
            m == sim[0]@.len(),
            m >= 1,
            forall|q: int| 0 <= q < l ==> (#[trigger] sim[q]@).len() == m,
            row@.len() == i,
            forall|q: int|
                0 <= q < i ==> (#[trigger] row@[q])@ == spec_adjoint_terminal(
                    pop_model(sim@)[q][m - 1].v,
                    target_v as int,
                    gamma as int,
                    c_t as int,
                ),
        decreases l - i,
    {
        let p0: i64 = fx_mul(
            fx_mul(fx_mul(crate::fixed::FX_TWO, c_t), gamma),
            fx_sub(sim[i][m - 1].v, target_v),
        );
        row.push(Costate { p0: p0, p1: 0, p2: 0 });
        i = i + 1;
    }
    row
}

/// One backward Euler step applied to a whole adjoint row.
fn adjoint_step_row(
    sim: &Vec<Vec<NeuronState>>,
    nxt: &Vec<Costate>,
    r: usize,
    mean_v: i64,
    params: &FhnParameters,
    gamma: i64,
    dt: i64,
) -> (row: Vec<Costate>)
    requires
        sim.len() >= 1,
        nxt.len() == sim.len(),
        forall|i: int| 0 <= i < sim.len() ==> r < (#[trigger] sim[i]@).len(),
    ensures
        row@.len() == sim.len(),
        forall|i: int|
            0 <= i < sim.len() ==> (#[trigger] row@[i])@ == spec_adjoint_step(
                pop_model(sim@)[i][r as int],
                nxt@[i]@,
                mean_v as int,
                params@,
                gamma as int,
                dt as int,
            ),
{
    let l: usize = sim.len();
    let mut row: Vec<Costate> = Vec::new();
    let mut i: usize = 0;
    while i < l
        invariant
            i <= l,
            l == sim@.len(),
            l == nxt@.len(),
            forall|q: int| 0 <= q < l ==> r < (#[trigger] sim[q]@).len(),
            row@.len() == i,
            forall|q: int|
                0 <= q < i ==> (#[trigger] row@[q])@ == spec_adjoint_step(
                    pop_model(sim@)[q][r as int],
                    nxt@[q]@,
                    mean_v as int,
                    params@,
                    gamma as int,
                    dt as int,
                ),
        decreases l - i,
    {
        let x: NeuronState = sim[i][r];
        let pn: Costate = nxt[i];
        let dp0: i64 = fx_mul(
            dt,
            fx_sub(
                fx_sub(fx_mul(fx_sub(FX_ONE, fx_mul(x.v, x.v)), pn.p0), pn.p1),
                fx_mul(fx_mul(FX_TWO, gamma), fx_sub(x.v, mean_v)),
            ),
        );
        let dp1: i64 = fx_mul(
            dt,
            fx_sub(fx_mul(params.c, pn.p0), fx_mul(fx_mul(params.c, params.b), pn.p1)),
        );
        row.push(Costate { p0: fx_add(pn.p0, dp0), p1: fx_add(pn.p1, dp1), p2: pn.p2 });
        i = i + 1;
    }
    row
}

/// Solve the adjoint equation backward in time over a completed forward
/// solution.  Only the membrane component of `y_target` enters.  The result
/// holds one trajectory per neuron, of the same length as the forward
/// solution, and trajectory `i` corresponds to forward trajectory `i`.
///
/// The last row is exactly the terminal condition
/// `[2 * c_t * gamma * (v_i(M-1) - target_v), 0, 0]`, and each earlier row
/// is one backward Euler step of the next.
#[verifier::loop_isolation(false)]
#[verifier::rlimit(60)]
pub fn compute_adjoint(
    sim: &Vec<Vec<NeuronState>>,
    params: &FhnParameters,
    y_target: [i64; 3],
    gamma: i64,
    c_t: i64,
    dt: i64,
) -> (adj: Vec<AdjointTrajectory>)
    requires
        sim.len() >= 1,
        sim[0]@.len() >= 1,
        forall|i: int| 0 <= i < sim.len() ==> (#[trigger] sim[i]@).len() == sim[0]@.len(),
    ensures
        adj.len() == sim.len(),
        forall|i: int| 0 <= i < adj.len() ==> (#[trigger] adj[i]@).len() == sim[0]@.len(),
        forall|i: int, r: int|
            0 <= i < adj.len() && 0 <= r < sim[0]@.len() ==> (#[trigger] adj[i]@[r])@
                == spec_adjoint_at(
                pop_model(sim@),
                params@,
                y_target[0] as int,
                gamma as int,
                c_t as int,
                dt as int,
                sim[0]@.len(),
                r as nat,
            )[i],
        forall|i: int|
            0 <= i < adj.len() ==> (#[trigger] adj[i]@[sim[0]@.len() - 1])@
                == spec_adjoint_terminal(
                pop_model(sim@)[i][sim[0]@.len() - 1].v,
                y_target[0] as int,
                gamma as int,
                c_t as int,
            ),
{
    let l: usize = sim.len();
    let m: usize = sim[0].len();
    let ghost pm = pop_model(sim@);
    let target_v: i64 = y_target[0];

    // rows from the terminal step downward: rows_rev[j] is the adjoint row
    // at step m - 1 - j
    let mut rows_rev: Vec<Vec<Costate>> = Vec::new();
    let terminal = adjoint_terminal_row(sim, target_v, gamma, c_t);
    rows_rev.push(terminal);
    proof {
        assert forall|q: int| 0 <= q < l implies rows_rev@[0]@[q]@ == spec_adjoint_at(
            pm,
            params@,
            target_v as int,
            gamma as int,
            c_t as int,
            dt as int,
            m as nat,
            (m - 1) as nat,
        )[q] by {
            assert(spec_adjoint_at(
                pm,
                params@,
                target_v as int,
                gamma as int,
                c_t as int,
                dt as int,
                m as nat,
                (m - 1) as nat,
            )[q] == spec_adjoint_terminal(pm[q][m - 1].v, target_v as int, gamma as int,
                c_t as int));
        }
    }
    let mut j: usize = 1;
    while j < m
        invariant
            1 <= j <= m,
            rows_rev@.len() == j,
            forall|q: int| 0 <= q < j ==> (#[trigger] rows_rev@[q])@.len() == l,
            forall|q: int, i: int|
                0 <= q < j && 0 <= i < l ==> (#[trigger] rows_rev@[q]@[i])@ == spec_adjoint_at(
                    pm,
                    params@,
                    target_v as int,
                    gamma as int,
                    c_t as int,
                    dt as int,
                    m as nat,
                    (m - 1 - q) as nat,
                )[i],
        decreases m - j,
    {
        let r: usize = m - 1 - j;
        let mean_v: i64 = column_mean_v(sim, r + 1);
        let next_row = adjoint_step_row(sim, &rows_rev[j - 1], r, mean_v, params, gamma, dt);
        proof {
            assert forall|i: int| 0 <= i < l implies next_row@[i]@ == spec_adjoint_at(
                pm,
                params@,
                target_v as int,
                gamma as int,
                c_t as int,
                dt as int,
                m as nat,
                r as nat,
            )[i] by {
                assert(rows_rev@[j - 1]@[i]@ == spec_adjoint_at(
                    pm,
                    params@,
                    target_v as int,
                    gamma as int,
                    c_t as int,
                    dt as int,
                    m as nat,
                    (r + 1) as nat,
                )[i]);
            }
        }
        rows_rev.push(next_row);
        j = j + 1;
    }

    // reorder into step-major rows, then transpose to one row per neuron
    let mut steps: Vec<Vec<Costate>> = Vec::new();
    let mut r: usize = 0;
    while r < m
        invariant
            r <= m,
            steps@.len() == r,
            rows_rev@.len() == m,
            forall|q: int| 0 <= q < m ==> (#[trigger] rows_rev@[q])@.len() == l,
            forall|q: int| 0 <= q < r ==> (#[trigger] steps@[q])@ == rows_rev@[m - 1 - q]@,
        decreases m - r,
    {
        let mut row: Vec<Costate> = Vec::new();
        let mut i: usize = 0;
        while i < l
            invariant
                i <= l,
                r < m,
                rows_rev@.len() == m,
                forall|q: int| 0 <= q < m ==> (#[trigger] rows_rev@[q])@.len() == l,
                row@.len() == i,
                forall|q: int| 0 <= q < i ==> (#[trigger] row@[q]) == rows_rev@[m - 1 - r]@[q],
            decreases l - i,
        {
            row.push(rows_rev[m - 1 - r][i]);
            i = i + 1;
        }
        proof {
            assert(row@ =~= rows_rev@[m - 1 - r]@);
        }
        steps.push(row);
        r = r + 1;
    }
    let adj = transpose_grid(&steps, l, m);
    proof {
        assert forall|i: int, r: int| 0 <= i < l && 0 <= r < m implies (#[trigger] adj@[i]@[r])@
            == spec_adjoint_at(
            pm,
            params@,
            target_v as int,
            gamma as int,
            c_t as int,
            dt as int,
            m as nat,
            r as nat,
        )[i] by {
            assert(adj@[i]@[r] == steps@[r]@[i]);
            assert(steps@[r]@ == rows_rev@[m - 1 - r]@);
            assert(rows_rev@[m - 1 - r]@[i]@ == spec_adjoint_at(
                pm,
                params@,
                target_v as int,
                gamma as int,
                c_t as int,
                dt as int,
                m as nat,
                (m - 1 - (m - 1 - r)) as nat,
            )[i]);
        }
        assert((m - 1 - (m - 1 - (m - 1))) as nat == (m - 1) as nat);
    }
    adj
}

} // verus!
