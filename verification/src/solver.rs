//! The mutating phases of a simulation step: boundary enforcement,
//! semi-Lagrangian advection and pressure projection.

use vstd::prelude::*;

use crate::fixed::{div_int, fp_add, fp_div, fp_mul, fp_sub, in_range, HALF_SCALE, SCALE};
use crate::grid::{
    lemma_cell_decompose, lemma_x_face_decompose, lemma_x_face_index, lemma_y_face_decompose,
    lemma_y_face_index,
};
use crate::model::{
    advect_model, advected_x, advected_y, boundary_model, boundary_vx, boundary_vy,
    constants_model, divergence_constant, gradient_x_value, gradient_y_value, jacobi_iterate,
    jacobi_sweep, jacobi_value, project_model, step_model, JACOBI_ITERATIONS,
};
use crate::simulation::{Simulation, Vec2};

verus! {

impl Simulation {
    /// Zero the normal velocity on every face of the domain's four outer
    /// edges; tangential boundary velocities are left untouched.
    pub fn boundary(&mut self)
        requires
            old(self).wf(),
        ensures
            final(self).wf(),
            final(self)@ == boundary_model(old(self)@),
    {
        let ghost m = old(self)@;
        let mut i: usize = 0;
        while i < self.nx
            invariant
                old(self).wf(),
                m == old(self)@,
                self.wf(),
                self.nx == old(self).nx,
                self.ny == old(self).ny,
                self.cell_size == old(self).cell_size,
                self.time_step == old(self).time_step,
                self.pressures@ == m.pressures,
                self.velocities_x@ == m.velocities_x,
                self.velocities_y@.len() == m.velocities_y.len(),
                i <= self.nx,
                forall|k: int|
                    0 <= k < m.velocities_y.len() ==> #[trigger] self.velocities_y@[k] == (
                    if k / (m.ny + 1) < i && (k % (m.ny + 1) == 0 || k % (m.ny + 1) == m.ny) {
                        0i64
                    } else {
                        m.velocities_y[k]
                    }),
            decreases self.nx - i,
        {
            let bot = self.velocities_y_idx(i, 0);
            let top = self.velocities_y_idx(i, self.ny);
            self.velocities_y[top] = 0;
            self.velocities_y[bot] = 0;
            proof {
                lemma_y_face_index(m.nx, m.ny, i as int, 0);
                lemma_y_face_index(m.nx, m.ny, i as int, m.ny);
                assert forall|k: int| 0 <= k < m.velocities_y.len() implies
                    #[trigger] self.velocities_y@[k] == (
                    if k / (m.ny + 1) < i + 1 && (k % (m.ny + 1) == 0 || k % (m.ny + 1) == m.ny) {
                        0i64
                    } else {
                        m.velocities_y[k]
                    }) by {
                    lemma_y_face_decompose(m.nx, m.ny, k);
                }
            }
            i = i + 1;
        }

        proof {
            assert forall|k: int| 0 <= k < m.velocities_y.len() implies
                self.velocities_y@[k] == boundary_vy(m)[k] by {
                lemma_y_face_decompose(m.nx, m.ny, k);
            }
            assert(self.velocities_y@ =~= boundary_vy(m));
        }

        let mut j: usize = 0;
        while j < self.ny
            invariant
                old(self).wf(),
                m == old(self)@,
                self.wf(),
                self.nx == old(self).nx,
                self.ny == old(self).ny,
                self.cell_size == old(self).cell_size,
                self.time_step == old(self).time_step,
                self.pressures@ == m.pressures,
                self.velocities_x@.len() == m.velocities_x.len(),
                self.velocities_y@ =~= boundary_vy(m),
                j <= self.ny,
                forall|k: int|
                    0 <= k < m.velocities_x.len() ==> #[trigger] self.velocities_x@[k] == (
                    if k / (m.nx + 1) < j && (k % (m.nx + 1) == 0 || k % (m.nx + 1) == m.nx) {
                        0i64
                    } else {
                        m.velocities_x[k]
                    }),
            decreases self.ny - j,
        {
            let left = self.velocities_x_idx(0, j);
            let right = self.velocities_x_idx(self.nx, j);
            self.velocities_x[left] = 0;
            self.velocities_x[right] = 0;
            proof {
                lemma_x_face_index(m.nx, m.ny, 0, j as int);
                lemma_x_face_index(m.nx, m.ny, m.nx, j as int);
                assert forall|k: int| 0 <= k < m.velocities_x.len() implies
                    #[trigger] self.velocities_x@[k] == (
                    if k / (m.nx + 1) < j + 1 && (k % (m.nx + 1) == 0 || k % (m.nx + 1) == m.nx) {
                        0i64
                    } else {
                        m.velocities_x[k]
                    }) by {
                    lemma_x_face_decompose(m.nx, m.ny, k);
                }
            }
            j = j + 1;
        }

        proof {
            assert forall|k: int| 0 <= k < m.velocities_x.len() implies
                self.velocities_x@[k] == boundary_vx(m)[k] by {
                lemma_x_face_decompose(m.nx, m.ny, k);
            }
            assert(self.velocities_x@ =~= boundary_vx(m));
            assert(self@ =~= boundary_model(m));
        }
    }

    /// Semi-Lagrangian advection: every face velocity becomes the prior
    /// field's matching component, interpolated at the point found by
    /// tracing backward through the field. Both new arrays are staged and
    /// committed at the end, so every read observes the pre-phase state.
    pub fn advect(&mut self)
        requires
            old(self).wf(),
        ensures
            final(self).wf(),
            final(self)@ == advect_model(old(self)@),
    {
        let ghost m = old(self)@;
        let x_count = self.velocities_x.len();
        let mut new_vx: Vec<i64> = Vec::new();
        let mut k: usize = 0;
        while k < x_count
            invariant
                old(self).wf(),
                m == old(self)@,
                *self == *old(self),
                x_count == m.velocities_x.len(),
                k <= x_count,
                new_vx@.len() == k,
                forall|t: int|
                    0 <= t < k ==> #[trigger] new_vx@[t] == advected_x(
                        m,
                        t % (m.nx + 1),
                        t / (m.nx + 1),
                    ) as i64,
                forall|t: int| 0 <= t < k ==> in_range(#[trigger] new_vx@[t] as int),
            decreases x_count - k,
        {
            proof {
                lemma_x_face_decompose(m.nx, m.ny, k as int);
            }
            let i = k % (self.nx + 1);
            let j = k / (self.nx + 1);
            let px = (i as i64) * SCALE;
            let py = (j as i64) * SCALE + HALF_SCALE;
            let vel = self.interpolate_velocity_with_normalized(Vec2 { x: px, y: py });
            let lx = fp_sub(px, fp_div(fp_mul(self.time_step, vel.x), self.cell_size));
            let ly = fp_sub(py, fp_div(fp_mul(self.time_step, vel.y), self.cell_size));
            let nv = self.interpolate_velocity_x(lx, ly);
            new_vx.push(nv);
            k = k + 1;
        }

        let y_count = self.velocities_y.len();
        let mut new_vy: Vec<i64> = Vec::new();
        let mut k: usize = 0;
        while k < y_count
            invariant
                old(self).wf(),
                m == old(self)@,
                *self == *old(self),
                y_count == m.velocities_y.len(),
                k <= y_count,
                new_vx@.len() == m.velocities_x.len(),
                forall|t: int|
                    0 <= t < new_vx@.len() ==> #[trigger] new_vx@[t] == advected_x(
                        m,
                        t % (m.nx + 1),
                        t / (m.nx + 1),
                    ) as i64,
                forall|t: int| 0 <= t < new_vx@.len() ==> in_range(#[trigger] new_vx@[t] as int),
                new_vy@.len() == k,
                forall|t: int|
                    0 <= t < k ==> #[trigger] new_vy@[t] == advected_y(
                        m,
                        t / (m.ny + 1),
                        t % (m.ny + 1),
                    ) as i64,
                forall|t: int| 0 <= t < k ==> in_range(#[trigger] new_vy@[t] as int),
            decreases y_count - k,
        {
            proof {
                lemma_y_face_decompose(m.nx, m.ny, k as int);
            }
            let i = k / (self.ny + 1);
            let j = k % (self.ny + 1);
            let px = (i as i64) * SCALE + HALF_SCALE;
            let py = (j as i64) * SCALE;
            let vel = self.interpolate_velocity_with_normalized(Vec2 { x: px, y: py });
            let lx = fp_sub(px, fp_div(fp_mul(self.time_step, vel.x), self.cell_size));
            let ly = fp_sub(py, fp_div(fp_mul(self.time_step, vel.y), self.cell_size));
            let nv = self.interpolate_velocity_y(lx, ly);
            new_vy.push(nv);
            k = k + 1;
        }

        self.velocities_x = new_vx;
        self.velocities_y = new_vy;
        proof {
            assert(self.velocities_x@ =~= advect_model(m).velocities_x);
            assert(self.velocities_y@ =~= advect_model(m).velocities_y);
            assert(self@ =~= advect_model(m));
        }
    }

    /// Pressure projection: compute the per-cell divergence constants, relax
    /// the pressures by `JACOBI_ITERATIONS` synchronous Jacobi sweeps
    /// starting from the current pressures, then subtract the pressure
    /// gradient from every interior face. Boundary faces are untouched; the
    /// boundary phase owns them.
    pub fn project(&mut self)
        requires
            old(self).wf(),
        ensures
            final(self).wf(),
            final(self)@ == project_model(old(self)@),
    {
        let ghost m = old(self)@;

        let cell_count = self.pressures.len();
        let ratio = fp_div(self.cell_size, self.time_step);
        let mut constants: Vec<i64> = Vec::new();
        let mut k: usize = 0;
        while k < cell_count
            invariant
                old(self).wf(),
                m == old(self)@,
                *self == *old(self),
                cell_count == m.pressures.len(),
                ratio as int == crate::fixed::spec_fp_div(m.cell_size, m.time_step),
                in_range(ratio as int),
                k <= cell_count,
                constants@.len() == k,
                forall|t: int|
                    0 <= t < k ==> #[trigger] constants@[t] == divergence_constant(
                        m,
                        t % m.nx,
                        t / m.nx,
                    ) as i64,
                forall|t: int| 0 <= t < k ==> in_range(#[trigger] constants@[t] as int),
            decreases cell_count - k,
        {
            proof {
                lemma_cell_decompose(m.nx, m.ny, k as int);
            }
            let i = k % self.nx;
            let j = k / self.nx;
            let kr = self.velocities_x_idx(i + 1, j);
            let kl = self.velocities_x_idx(i, j);
            let kt = self.velocities_y_idx(i, j + 1);
            let kb = self.velocities_y_idx(i, j);
            let ur = self.velocities_x[kr];
            let ul = self.velocities_x[kl];
            let vt = self.velocities_y[kt];
            let vb = self.velocities_y[kb];
            let sum = fp_sub(fp_add(fp_sub(ur, ul), vt), vb);
            let c = fp_mul(ratio, sum);
            constants.push(c);
            k = k + 1;
        }
        proof {
            assert(constants@ =~= constants_model(m));
        }

        let mut iter: usize = 0;
        while iter < JACOBI_ITERATIONS
            invariant
                old(self).wf(),
                m == old(self)@,
                self.wf(),
                self.nx == old(self).nx,
                self.ny == old(self).ny,
                self.cell_size == old(self).cell_size,
                self.time_step == old(self).time_step,
                self.velocities_x@ == m.velocities_x,
                self.velocities_y@ == m.velocities_y,
                constants@ == constants_model(m),
                constants@.len() == m.pressures.len(),
                forall|t: int| 0 <= t < constants@.len() ==> in_range(#[trigger] constants@[t] as int),
                iter <= JACOBI_ITERATIONS,
                self.pressures@ == jacobi_iterate(m, m.pressures, constants_model(m), iter as nat),
            decreases JACOBI_ITERATIONS - iter,
        {
            let ghost p_prev = self.pressures@;
            let cc = self.pressures.len();
            let mut next: Vec<i64> = Vec::new();
            let mut k: usize = 0;
            while k < cc
                invariant
                    old(self).wf(),
                    m == old(self)@,
                    self.wf(),
                    self.nx == old(self).nx,
                    self.ny == old(self).ny,
                    self.pressures@ == p_prev,
                    cc == m.pressures.len(),
                    p_prev.len() == m.pressures.len(),
                    constants@.len() == m.pressures.len(),
                    forall|t: int|
                        0 <= t < constants@.len() ==> in_range(#[trigger] constants@[t] as int),
                    k <= cc,
                    next@.len() == k,
                    forall|t: int|
                        0 <= t < k ==> #[trigger] next@[t] == jacobi_value(
                            m,
                            p_prev,
                            constants@,
                            t % m.nx,
                            t / m.nx,
                        ) as i64,
                    forall|t: int| 0 <= t < k ==> in_range(#[trigger] next@[t] as int),
                decreases cc - k,
            {
                proof {
                    lemma_cell_decompose(m.nx, m.ny, k as int);
                }
                let i = k % self.nx;
                let j = k / self.nx;
                let mut s: i64 = 0;
                if i + 1 < self.nx {
                    let n = self.pressures_idx(i + 1, j);
                    s = fp_add(s, self.pressures[n]);
                }
                if i >= 1 {
                    let n = self.pressures_idx(i - 1, j);
                    s = fp_add(s, self.pressures[n]);
                }
                if j + 1 < self.ny {
                    let n = self.pressures_idx(i, j + 1);
                    s = fp_add(s, self.pressures[n]);
                }
                if j >= 1 {
                    let n = self.pressures_idx(i, j - 1);
                    s = fp_add(s, self.pressures[n]);
                }
                let num = fp_sub(s, constants[k]);
                let mut cnt: i64 = 0;
                if i + 1 < self.nx {
                    cnt = cnt + 1;
                }
                if i >= 1 {
                    cnt = cnt + 1;
                }
                if j + 1 < self.ny {
                    cnt = cnt + 1;
                }
                if j >= 1 {
                    cnt = cnt + 1;
                }
                let value = if cnt == 0 {
                    0
                } else {
                    div_int(num, cnt)
                };
                next.push(value);
                k = k + 1;
            }
            self.pressures = next;
            proof {
                assert(self.pressures@ =~= jacobi_sweep(m, p_prev, constants_model(m)));
                assert(jacobi_iterate(m, m.pressures, constants_model(m), (iter + 1) as nat)
                    == jacobi_sweep(
                    m,
                    jacobi_iterate(m, m.pressures, constants_model(m), iter as nat),
                    constants_model(m),
                ));
            }
            iter = iter + 1;
        }

        let ghost p10 = self.pressures@;

        let x_count = self.velocities_x.len();
        let mut new_vx: Vec<i64> = Vec::new();
        let mut k: usize = 0;
        while k < x_count
            invariant
                old(self).wf(),
                m == old(self)@,
                self.wf(),
                self.nx == old(self).nx,
                self.ny == old(self).ny,
                self.cell_size == old(self).cell_size,
                self.time_step == old(self).time_step,
                self.velocities_x@ == m.velocities_x,
                self.velocities_y@ == m.velocities_y,
                self.pressures@ == p10,
                x_count == m.velocities_x.len(),
                k <= x_count,
                new_vx@.len() == k,
                forall|t: int|
                    0 <= t < k ==> #[trigger] new_vx@[t] == gradient_x_value(
                        m,
                        p10,
                        t % (m.nx + 1),
                        t / (m.nx + 1),
                    ) as i64,
                forall|t: int| 0 <= t < k ==> in_range(#[trigger] new_vx@[t] as int),
            decreases x_count - k,
        {
            proof {
                lemma_x_face_decompose(m.nx, m.ny, k as int);
            }
            let i = k % (self.nx + 1);
            let j = k / (self.nx + 1);
            let v = self.velocities_x[k];
            if i == 0 || i == self.nx {
                new_vx.push(v);
            } else {
                let nr = self.pressures_idx(i, j);
                let nl = self.pressures_idx(i - 1, j);
                let g = fp_div(fp_sub(self.pressures[nr], self.pressures[nl]), self.cell_size);
                new_vx.push(fp_sub(v, fp_mul(self.time_step, g)));
            }
            k = k + 1;
        }

        let y_count = self.velocities_y.len();
        let mut new_vy: Vec<i64> = Vec::new();
        let mut k: usize = 0;
        while k < y_count
            invariant
                old(self).wf(),
                m == old(self)@,
                self.wf(),
                self.nx == old(self).nx,
                self.ny == old(self).ny,
                self.cell_size == old(self).cell_size,
                self.time_step == old(self).time_step,
                self.velocities_x@ == m.velocities_x,
                self.velocities_y@ == m.velocities_y,
                self.pressures@ == p10,
                new_vx@.len() == m.velocities_x.len(),
                forall|t: int|
                    0 <= t < new_vx@.len() ==> #[trigger] new_vx@[t] == gradient_x_value(
                        m,
                        p10,
                        t % (m.nx + 1),
                        t / (m.nx + 1),
                    ) as i64,
                forall|t: int| 0 <= t < new_vx@.len() ==> in_range(#[trigger] new_vx@[t] as int),
                y_count == m.velocities_y.len(),
                k <= y_count,
                new_vy@.len() == k,
                forall|t: int|
                    0 <= t < k ==> #[trigger] new_vy@[t] == gradient_y_value(
                        m,
                        p10,
                        t / (m.ny + 1),
                        t % (m.ny + 1),
                    ) as i64,
                forall|t: int| 0 <= t < k ==> in_range(#[trigger] new_vy@[t] as int),
            decreases y_count - k,
        {
            proof {
                lemma_y_face_decompose(m.nx, m.ny, k as int);
            }
            let i = k / (self.ny + 1);
            let j = k % (self.ny + 1);
            let v = self.velocities_y[k];
            if j == 0 || j == self.ny {
                new_vy.push(v);
            } else {
                let nt = self.pressures_idx(i, j);
                let nb = self.pressures_idx(i, j - 1);
                let g = fp_div(fp_sub(self.pressures[nt], self.pressures[nb]), self.cell_size);
                new_vy.push(fp_sub(v, fp_mul(self.time_step, g)));
            }
            k = k + 1;
        }

        self.velocities_x = new_vx;
        self.velocities_y = new_vy;
        proof {
            assert(self.velocities_x@ =~= project_model(m).velocities_x);
            assert(self.velocities_y@ =~= project_model(m).velocities_y);
            assert(self@ =~= project_model(m));
        }
    }

    /// One simulation step: boundary enforcement, semi-Lagrangian advection,
    /// boundary enforcement again, then pressure projection, always in that
    /// fixed order. Afterwards no flow crosses the domain boundary.
    pub fn step(&mut self)
        requires
            old(self).wf(),
        ensures
            final(self).wf(),
            final(self)@ == step_model(old(self)@),
            crate::model::no_flow_boundary(final(self)@),
    {
        let ghost m0 = old(self)@;
        self.boundary();
        self.advect();
        self.boundary();
        proof {
            crate::laws::lemma_boundary_no_flow(advect_model(boundary_model(m0)));
        }
        self.project();
        proof {
            crate::laws::lemma_project_preserves_no_flow(
                boundary_model(advect_model(boundary_model(m0))),
            );
        }
    }
}

} // verus!
