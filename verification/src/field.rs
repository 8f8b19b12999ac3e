//! Velocity-field interpolation and the read-only query methods.

use vstd::prelude::*;

use crate::fixed::{
    div_int, floor_div_i128, fp_div, fp_floor, fp_frac, fp_mul, in_range, lemma_mul_magnitude,
    sat64, spec_div_int, spec_fp_div, spec_fp_mul, HALF_SCALE, SAT_LIMIT, SCALE,
};
use crate::grid::{
    cell_index, lemma_cell_decompose, lemma_x_face_decompose, lemma_y_face_decompose,
    x_face_index, y_face_index,
};
use crate::model::{bilinear, interp_x, interp_y, StateModel};
use crate::simulation::{Cell, Simulation, Vec2, Vec3};

verus! {

/// The visualization sample of the cell `(i, j)`: its center in world
/// space, the interpolated velocity there, and a red channel of a
/// thousandth of its pressure.
pub open spec fn spec_cell_at(m: StateModel, i: int, j: int) -> Cell {
    let px = spec_fp_mul(i * SCALE + HALF_SCALE, m.cell_size);
    let py = spec_fp_mul(j * SCALE + HALF_SCALE, m.cell_size);
    let qx = spec_fp_div(px, m.cell_size);
    let qy = spec_fp_div(py, m.cell_size);
    Cell {
        position: Vec2 { x: px as i64, y: py as i64 },
        velocity: Vec2 { x: interp_x(m, qx, qy) as i64, y: interp_y(m, qx, qy) as i64 },
        color: Vec3 {
            x: spec_div_int(m.pressures[cell_index(m.nx, i, j)] as int, 1000) as i64,
            y: 0,
            z: 0,
        },
    }
}

/// The debug sample of the x-face `(i, j)`: its position in world space,
/// its raw stored velocity as an x-component, in red.
pub open spec fn spec_x_face_cell_at(m: StateModel, i: int, j: int) -> Cell {
    Cell {
        position: Vec2 {
            x: spec_fp_mul(i * SCALE, m.cell_size) as i64,
            y: spec_fp_mul(j * SCALE + HALF_SCALE, m.cell_size) as i64,
        },
        velocity: Vec2 { x: m.velocities_x[x_face_index(m.nx, i, j)], y: 0 },
        color: Vec3 { x: SCALE, y: 0, z: 0 },
    }
}

/// The debug sample of the y-face `(i, j)`: its position in world space,
/// its raw stored velocity as a y-component, in green.
pub open spec fn spec_y_face_cell_at(m: StateModel, i: int, j: int) -> Cell {
    Cell {
        position: Vec2 {
            x: spec_fp_mul(i * SCALE + HALF_SCALE, m.cell_size) as i64,
            y: spec_fp_mul(j * SCALE, m.cell_size) as i64,
        },
        velocity: Vec2 { x: 0, y: m.velocities_y[y_face_index(m.ny, i, j)] },
        color: Vec3 { x: 0, y: SCALE, z: 0 },
    }
}

/// One weighted corner term `w * v` of the bilinear blend.
fn weighted(w: i128, v: i64) -> (t: i128)
    requires
        0 <= w <= SCALE,
        in_range(v as int),
    ensures
        t == w * v,
        -(SCALE as int * SAT_LIMIT as int) <= t <= SCALE as int * SAT_LIMIT as int,
{
    proof {
        lemma_mul_magnitude(w as int, v as int, SCALE as int, SAT_LIMIT as int);
    }
    w * (v as i128)
}

/// One row term `w * a` of the bilinear blend, `a` already weighted once.
fn weighted_row(w: i128, a: i128) -> (t: i128)
    requires
        0 <= w <= SCALE,
        -(SCALE as int * SAT_LIMIT as int) <= a <= SCALE as int * SAT_LIMIT as int,
    ensures
        t == w * a,
        -(SCALE as int * (SCALE as int * SAT_LIMIT as int)) <= t <= SCALE as int * (
        SCALE as int * SAT_LIMIT as int),
{
    proof {
        lemma_mul_magnitude(w as int, a as int, SCALE as int, SCALE as int * SAT_LIMIT as int);
    }
    w * a
}

/// Bilinear blend of four corner samples with fractional weights in
/// `[0, SCALE)`.
fn bilerp(v00: i64, v10: i64, v01: i64, v11: i64, dx: i64, dy: i64) -> (r: i64)
    requires
        in_range(v00 as int),
        in_range(v10 as int),
        in_range(v01 as int),
        in_range(v11 as int),
        0 <= dx < SCALE,
        0 <= dy < SCALE,
    ensures
        r as int == bilinear(
            v00 as int,
            v10 as int,
            v01 as int,
            v11 as int,
            dx as int,
            dy as int,
        ),
        in_range(r as int),
{
    let a00 = weighted((SCALE - dy) as i128, v00);
    let a10 = weighted((SCALE - dy) as i128, v10);
    let a01 = weighted(dy as i128, v01);
    let a11 = weighted(dy as i128, v11);
    let b00 = weighted_row((SCALE - dx) as i128, a00);
    let b10 = weighted_row(dx as i128, a10);
    let b01 = weighted_row((SCALE - dx) as i128, a01);
    let b11 = weighted_row(dx as i128, a11);
    let sum = b00 + b10 + b01 + b11;
    proof {
        lemma_mul_magnitude(SCALE as int, SCALE as int, SCALE as int, SCALE as int);
    }
    let q = floor_div_i128(sum, (SCALE as i128) * (SCALE as i128));
    sat64(q)
}

impl Simulation {
    /// Interpolated x-velocity at a normalized fixed-point position: the
    /// bilinear blend of the four surrounding x-face samples, the x-face
    /// grid being offset half a cell in y.
    pub(crate) fn interpolate_velocity_x(&self, px: i64, py: i64) -> (r: i64)
        requires
            self.wf(),
            in_range(px as int),
            in_range(py as int),
        ensures
            r as int == interp_x(self@, px as int, py as int),
            in_range(r as int),
    {
        let sy = py - HALF_SCALE;
        let rx = fp_floor(px);
        let ry = fp_floor(sy);
        let dx = fp_frac(px);
        let dy = fp_frac(sy);
        let v00 = self.velocity_x(rx, ry);
        let v10 = self.velocity_x(rx + 1, ry);
        let v01 = self.velocity_x(rx, ry + 1);
        let v11 = self.velocity_x(rx + 1, ry + 1);
        bilerp(v00, v10, v01, v11, dx, dy)
    }

    /// Interpolated y-velocity at a normalized fixed-point position: the
    /// y-face grid is offset half a cell in x.
    pub(crate) fn interpolate_velocity_y(&self, px: i64, py: i64) -> (r: i64)
        requires
            self.wf(),
            in_range(px as int),
            in_range(py as int),
        ensures
            r as int == interp_y(self@, px as int, py as int),
            in_range(r as int),
    {
        let sx = px - HALF_SCALE;
        let rx = fp_floor(sx);
        let ry = fp_floor(py);
        let dx = fp_frac(sx);
        let dy = fp_frac(py);
        let v00 = self.velocity_y(rx, ry);
        let v10 = self.velocity_y(rx + 1, ry);
        let v01 = self.velocity_y(rx, ry + 1);
        let v11 = self.velocity_y(rx + 1, ry + 1);
        bilerp(v00, v10, v01, v11, dx, dy)
    }

    /// Both interpolated velocity components at a normalized position in
    /// fixed-point grid units.
    pub fn interpolate_velocity_with_normalized(&self, normalized: Vec2) -> (r: Vec2)
        requires
            self.wf(),
            in_range(normalized.x as int),
            in_range(normalized.y as int),
        ensures
            r.x as int == interp_x(self@, normalized.x as int, normalized.y as int),
            r.y as int == interp_y(self@, normalized.x as int, normalized.y as int),
            in_range(r.x as int),
            in_range(r.y as int),
    {
        Vec2 {
            x: self.interpolate_velocity_x(normalized.x, normalized.y),
            y: self.interpolate_velocity_y(normalized.x, normalized.y),
        }
    }

    /// Both interpolated velocity components at a world position: the
    /// position is first normalized by the cell size.
    pub fn interpolate_velocity(&self, position: Vec2) -> (r: Vec2)
        requires
            self.wf(),
            in_range(position.x as int),
            in_range(position.y as int),
        ensures
            r.x as int == interp_x(
                self@,
                spec_fp_div(position.x as int, self@.cell_size),
                spec_fp_div(position.y as int, self@.cell_size),
            ),
            r.y as int == interp_y(
                self@,
                spec_fp_div(position.x as int, self@.cell_size),
                spec_fp_div(position.y as int, self@.cell_size),
            ),
            in_range(r.x as int),
            in_range(r.y as int),
    {
        let normalized = Vec2 {
            x: fp_div(position.x, self.cell_size),
            y: fp_div(position.y, self.cell_size),
        };
        self.interpolate_velocity_with_normalized(normalized)
    }

    /// One visualization sample per cell center, in row-major order.
    pub fn cells(&self) -> (r: Vec<Cell>)
        requires
            self.wf(),
        ensures
            r@.len() == self@.nx * self@.ny,
            forall|k: int|
                0 <= k < r@.len() ==> #[trigger] r@[k] == spec_cell_at(
                    self@,
                    k % self@.nx,
                    k / self@.nx,
                ),
    {
        proof {
            lemma_mul_magnitude(self@.nx, self@.ny, 0x4000, 0x4000);
        }
        let count = self.nx * self.ny;
        let mut r: Vec<Cell> = Vec::new();
        let mut k: usize = 0;
        while k < count
            invariant
                self.wf(),
                count == self@.nx * self@.ny,
                k <= count,
                r@.len() == k,
                forall|t: int|
                    0 <= t < k ==> #[trigger] r@[t] == spec_cell_at(
                        self@,
                        t % self@.nx,
                        t / self@.nx,
                    ),
            decreases count - k,
        {
            proof {
                lemma_cell_decompose(self@.nx, self@.ny, k as int);
            }
            let i = k % self.nx;
            let j = k / self.nx;
            let position = Vec2 {
                x: fp_mul((i as i64) * SCALE + HALF_SCALE, self.cell_size),
                y: fp_mul((j as i64) * SCALE + HALF_SCALE, self.cell_size),
            };
            let velocity = self.interpolate_velocity(position);
            let pk = self.pressures_idx(i, j);
            let color = Vec3 { x: div_int(self.pressures[pk], 1000), y: 0, z: 0 };
            r.push(Cell { position, velocity, color });
            k = k + 1;
        }
        r
    }

    /// One debug sample per x-face, in row-major order over the x-face
    /// layout.
    pub fn velocities_x(&self) -> (r: Vec<Cell>)
        requires
            self.wf(),
        ensures
            r@.len() == self@.velocities_x.len(),
            forall|k: int|
                0 <= k < r@.len() ==> #[trigger] r@[k] == spec_x_face_cell_at(
                    self@,
                    k % (self@.nx + 1),
                    k / (self@.nx + 1),
                ),
    {
        proof {
            lemma_mul_magnitude(self@.nx + 1, self@.ny, 0x4001, 0x4000);
        }
        let count = (self.nx + 1) * self.ny;
        let mut r: Vec<Cell> = Vec::new();
        let mut k: usize = 0;
        while k < count
            invariant
                self.wf(),
                count == (self@.nx + 1) * self@.ny,
                k <= count,
                r@.len() == k,
                forall|t: int|
                    0 <= t < k ==> #[trigger] r@[t] == spec_x_face_cell_at(
                        self@,
                        t % (self@.nx + 1),
                        t / (self@.nx + 1),
                    ),
            decreases count - k,
        {
            proof {
                lemma_x_face_decompose(self@.nx, self@.ny, k as int);
            }
            let i = k % (self.nx + 1);
            let j = k / (self.nx + 1);
            let position = Vec2 {
                x: fp_mul((i as i64) * SCALE, self.cell_size),
                y: fp_mul((j as i64) * SCALE + HALF_SCALE, self.cell_size),
            };
            let vk = self.velocities_x_idx(i, j);
            let velocity = Vec2 { x: self.velocities_x[vk], y: 0 };
            let color = Vec3 { x: SCALE, y: 0, z: 0 };
            r.push(Cell { position, velocity, color });
            k = k + 1;
        }
        r
    }

    /// One debug sample per y-face, in column-major order over the y-face
    /// layout.
    pub fn velocities_y(&self) -> (r: Vec<Cell>)
        requires
            self.wf(),
        ensures
            r@.len() == self@.velocities_y.len(),
            forall|k: int|
                0 <= k < r@.len() ==> #[trigger] r@[k] == spec_y_face_cell_at(
                    self@,
                    k / (self@.ny + 1),
                    k % (self@.ny + 1),
                ),
    {
        proof {
            lemma_mul_magnitude(self@.nx, self@.ny + 1, 0x4000, 0x4001);
        }
        let count = self.nx * (self.ny + 1);
        let mut r: Vec<Cell> = Vec::new();
        let mut k: usize = 0;
        while k < count
            invariant
                self.wf(),
                count == self@.nx * (self@.ny + 1),
                k <= count,
                r@.len() == k,
                forall|t: int|
                    0 <= t < k ==> #[trigger] r@[t] == spec_y_face_cell_at(
                        self@,
                        t / (self@.ny + 1),
                        t % (self@.ny + 1),
                    ),
            decreases count - k,
        {
            proof {
                lemma_y_face_decompose(self@.nx, self@.ny, k as int);
            }
            let i = k / (self.ny + 1);
            let j = k % (self.ny + 1);
            let position = Vec2 {
                x: fp_mul((i as i64) * SCALE + HALF_SCALE, self.cell_size),
                y: fp_mul((j as i64) * SCALE, self.cell_size),
            };
            let vk = self.velocities_y_idx(i, j);
            let velocity = Vec2 { x: 0, y: self.velocities_y[vk] };
            let color = Vec3 { x: 0, y: SCALE, z: 0 };
            r.push(Cell { position, velocity, color });
            k = k + 1;
        }
        r
    }
}

} // verus!
