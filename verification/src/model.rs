//! The mathematical model of the simulation state and of each phase.
//!
//! `StateModel` is the ghost view of a simulation: the grid extents, the two
//! configuration scalars and the three flat arrays as sequences. Each phase
//! of a step (boundary enforcement, semi-Lagrangian advection, pressure
//! projection) has a spec-level transformer here, and the executable code is
//! proved to realize these transformers exactly.

use vstd::prelude::*;

use crate::fixed::{
    in_range, sat_i, spec_fp_add, spec_fp_div, spec_fp_floor, spec_fp_frac, spec_fp_mul,
    spec_fp_sub, HALF_SCALE, SCALE,
};
use crate::grid::{cell_index, spec_clamp, x_face_index, y_face_index, MAX_DIM};

verus! {

/// Number of Jacobi relaxation sweeps run by one projection.
pub const JACOBI_ITERATIONS: usize = 10;

/// The ghost view of a simulation: extents, configuration and the three
/// staggered arrays.
#[verifier::ext_equal]
pub ghost struct StateModel {
    /// Number of cells along x.
    pub nx: int,
    /// Number of cells along y.
    pub ny: int,
    /// Edge length of one cell (fixed point), positive.
    pub cell_size: int,
    /// Duration advanced by one step (fixed point), positive.
    pub time_step: int,
    /// Cell-centered pressures, row-major, `nx * ny` entries.
    pub pressures: Seq<i64>,
    /// X-velocities on vertical faces, row-major, `(nx + 1) * ny` entries.
    pub velocities_x: Seq<i64>,
    /// Y-velocities on horizontal faces, column-major, `nx * (ny + 1)`
    /// entries.
    pub velocities_y: Seq<i64>,
}

impl StateModel {
    /// Well-formedness: positive extents within the accepted maximum,
    /// positive in-range configuration scalars, the three arrays at their
    /// layout sizes, and every stored scalar in range.
    pub open spec fn wf(self) -> bool {
        &&& 1 <= self.nx <= MAX_DIM
        &&& 1 <= self.ny <= MAX_DIM
        &&& 0 < self.cell_size <= crate::fixed::SAT_LIMIT
        &&& 0 < self.time_step <= crate::fixed::SAT_LIMIT
        &&& self.pressures.len() == self.nx * self.ny
        &&& self.velocities_x.len() == (self.nx + 1) * self.ny
        &&& self.velocities_y.len() == self.nx * (self.ny + 1)
        &&& forall|k: int|
            0 <= k < self.pressures.len() ==> in_range(#[trigger] self.pressures[k] as int)
        &&& forall|k: int|
            0 <= k < self.velocities_x.len() ==> in_range(#[trigger] self.velocities_x[k] as int)
        &&& forall|k: int|
            0 <= k < self.velocities_y.len() ==> in_range(#[trigger] self.velocities_y[k] as int)
    }

    /// A cell lies inside the fluid domain. Every in-bounds cell is fluid:
    /// the domain has an open boundary and no inner solid cells.
    pub open spec fn is_fluid(self, x: int, y: int) -> bool {
        0 <= x < self.nx && 0 <= y < self.ny
    }
}

/// The stored x-velocity at integer face coordinates, clamped to the edge of
/// the x-face layout.
pub open spec fn sample_x(m: StateModel, cx: int, cy: int) -> int {
    m.velocities_x[x_face_index(m.nx, spec_clamp(cx, m.nx), spec_clamp(cy, m.ny - 1))] as int
}

/// The stored y-velocity at integer face coordinates, clamped to the edge of
/// the y-face layout.
pub open spec fn sample_y(m: StateModel, cx: int, cy: int) -> int {
    m.velocities_y[y_face_index(m.ny, spec_clamp(cx, m.nx - 1), spec_clamp(cy, m.ny))] as int
}

/// Bilinear blend of four corner samples with fractional weights
/// `dx, dy` in `[0, SCALE)`.
pub open spec fn bilinear(v00: int, v10: int, v01: int, v11: int, dx: int, dy: int) -> int {
    sat_i(
        ((SCALE - dx) * ((SCALE - dy) * v00) + dx * ((SCALE - dy) * v10) + (SCALE - dx) * (dy
            * v01) + dx * (dy * v11)) / ((SCALE * SCALE) as int),
    )
}

/// Interpolated x-velocity at a normalized fixed-point position. The x-face
/// grid is offset half a cell in y relative to cell corners.
pub open spec fn interp_x(m: StateModel, px: int, py: int) -> int {
    let sy = py - HALF_SCALE;
    let rx = spec_fp_floor(px);
    let ry = spec_fp_floor(sy);
    let dx = spec_fp_frac(px);
    let dy = spec_fp_frac(sy);
    bilinear(
        sample_x(m, rx, ry),
        sample_x(m, rx + 1, ry),
        sample_x(m, rx, ry + 1),
        sample_x(m, rx + 1, ry + 1),
        dx,
        dy,
    )
}

/// Interpolated y-velocity at a normalized fixed-point position. The y-face
/// grid is offset half a cell in x relative to cell corners.
pub open spec fn interp_y(m: StateModel, px: int, py: int) -> int {
    let sx = px - HALF_SCALE;
    let rx = spec_fp_floor(sx);
    let ry = spec_fp_floor(py);
    let dx = spec_fp_frac(sx);
    let dy = spec_fp_frac(py);
    bilinear(
        sample_y(m, rx, ry),
        sample_y(m, rx + 1, ry),
        sample_y(m, rx, ry + 1),
        sample_y(m, rx + 1, ry + 1),
        dx,
        dy,
    )
}

/// Boundary enforcement on the x-velocities: the two boundary columns are
/// zeroed, interior faces keep their values.
pub open spec fn boundary_vx(m: StateModel) -> Seq<i64> {
    Seq::new(
        m.velocities_x.len(),
        |k: int|
            if k % (m.nx + 1) == 0 || k % (m.nx + 1) == m.nx {
                0i64
            } else {
                m.velocities_x[k]
            },
    )
}

/// Boundary enforcement on the y-velocities: the two boundary rows are
/// zeroed, interior faces keep their values.
pub open spec fn boundary_vy(m: StateModel) -> Seq<i64> {
    Seq::new(
        m.velocities_y.len(),
        |k: int|
            if k % (m.ny + 1) == 0 || k % (m.ny + 1) == m.ny {
                0i64
            } else {
                m.velocities_y[k]
            },
    )
}

/// One boundary-enforcement phase: normal velocities on the domain edge
/// become exactly zero; tangential velocities and pressures are untouched.
pub open spec fn boundary_model(m: StateModel) -> StateModel {
    StateModel { velocities_x: boundary_vx(m), velocities_y: boundary_vy(m), ..m }
}

/// The advected x-velocity for the face `(i, j)`: sample the velocity at the
/// face, trace backward through it, and gather the x-component there.
pub open spec fn advected_x(m: StateModel, i: int, j: int) -> int {
    let px = i * SCALE;
    let py = j * SCALE + HALF_SCALE;
    let ux = interp_x(m, px, py);
    let uy = interp_y(m, px, py);
    let lx = spec_fp_sub(px, spec_fp_div(spec_fp_mul(m.time_step, ux), m.cell_size));
    let ly = spec_fp_sub(py, spec_fp_div(spec_fp_mul(m.time_step, uy), m.cell_size));
    interp_x(m, lx, ly)
}

/// The advected y-velocity for the face `(i, j)`.
pub open spec fn advected_y(m: StateModel, i: int, j: int) -> int {
    let px = i * SCALE + HALF_SCALE;
    let py = j * SCALE;
    let ux = interp_x(m, px, py);
    let uy = interp_y(m, px, py);
    let lx = spec_fp_sub(px, spec_fp_div(spec_fp_mul(m.time_step, ux), m.cell_size));
    let ly = spec_fp_sub(py, spec_fp_div(spec_fp_mul(m.time_step, uy), m.cell_size));
    interp_y(m, lx, ly)
}

/// One advection phase: a pure gather over the prior field state.
pub open spec fn advect_model(m: StateModel) -> StateModel {
    StateModel {
        velocities_x: Seq::new(
            m.velocities_x.len(),
            |k: int| advected_x(m, k % (m.nx + 1), k / (m.nx + 1)) as i64,
        ),
        velocities_y: Seq::new(
            m.velocities_y.len(),
            |k: int| advected_y(m, k / (m.ny + 1), k % (m.ny + 1)) as i64,
        ),
        ..m
    }
}

/// The discrete divergence of the cell `(i, j)`: net outflow through its
/// four bounding faces, accumulated left to right.
pub open spec fn divergence_sum(m: StateModel, i: int, j: int) -> int {
    let ur = m.velocities_x[x_face_index(m.nx, i + 1, j)] as int;
    let ul = m.velocities_x[x_face_index(m.nx, i, j)] as int;
    let vt = m.velocities_y[y_face_index(m.ny, i, j + 1)] as int;
    let vb = m.velocities_y[y_face_index(m.ny, i, j)] as int;
    spec_fp_sub(spec_fp_add(spec_fp_sub(ur, ul), vt), vb)
}

/// The right-hand-side constant of the pressure equation for the cell
/// `(i, j)`: the divergence scaled by `cell_size / time_step`.
pub open spec fn divergence_constant(m: StateModel, i: int, j: int) -> int {
    spec_fp_mul(spec_fp_div(m.cell_size, m.time_step), divergence_sum(m, i, j))
}

/// The per-cell constants, fixed for the whole pressure solve.
pub open spec fn constants_model(m: StateModel) -> Seq<i64> {
    Seq::new((m.nx * m.ny) as nat, |k: int| divergence_constant(m, k % m.nx, k / m.nx) as i64)
}

/// Sum of the pressures of the in-domain neighbors of the cell `(i, j)`,
/// accumulated in the order right, left, top, bottom.
pub open spec fn neighbor_sum(m: StateModel, p: Seq<i64>, i: int, j: int) -> int {
    let s1 = if m.is_fluid(i + 1, j) {
        spec_fp_add(0, p[cell_index(m.nx, i + 1, j)] as int)
    } else {
        0
    };
    let s2 = if m.is_fluid(i - 1, j) {
        spec_fp_add(s1, p[cell_index(m.nx, i - 1, j)] as int)
    } else {
        s1
    };
    let s3 = if m.is_fluid(i, j + 1) {
        spec_fp_add(s2, p[cell_index(m.nx, i, j + 1)] as int)
    } else {
        s2
    };
    if m.is_fluid(i, j - 1) {
        spec_fp_add(s3, p[cell_index(m.nx, i, j - 1)] as int)
    } else {
        s3
    }
}

/// Number of in-domain neighbors of the cell `(i, j)`.
pub open spec fn neighbor_count(m: StateModel, i: int, j: int) -> int {
    (if m.is_fluid(i + 1, j) {
        1int
    } else {
        0int
    }) + (if m.is_fluid(i - 1, j) {
        1int
    } else {
        0int
    }) + (if m.is_fluid(i, j + 1) {
        1int
    } else {
        0int
    }) + (if m.is_fluid(i, j - 1) {
        1int
    } else {
        0int
    })
}

/// The relaxed pressure of the cell `(i, j)`: neighbor pressures of the
/// previous sweep, less the cell's constant, averaged over the neighbor
/// count. A cell with no neighbor (a single-cell grid) relaxes to zero.
pub open spec fn jacobi_value(m: StateModel, p: Seq<i64>, c: Seq<i64>, i: int, j: int) -> int {
    let num = spec_fp_sub(neighbor_sum(m, p, i, j), c[cell_index(m.nx, i, j)] as int);
    let cnt = neighbor_count(m, i, j);
    if cnt == 0 {
        0
    } else {
        num / cnt
    }
}

/// One synchronous Jacobi sweep: every cell is recomputed from the previous
/// sweep's pressures alone.
pub open spec fn jacobi_sweep(m: StateModel, p: Seq<i64>, c: Seq<i64>) -> Seq<i64> {
    Seq::new((m.nx * m.ny) as nat, |k: int| jacobi_value(m, p, c, k % m.nx, k / m.nx) as i64)
}

/// `n` Jacobi sweeps from the pressures `p`.
pub open spec fn jacobi_iterate(m: StateModel, p: Seq<i64>, c: Seq<i64>, n: nat) -> Seq<i64>
    decreases n,
{
    if n == 0 {
        p
    } else {
        jacobi_sweep(m, jacobi_iterate(m, p, c, (n - 1) as nat), c)
    }
}

/// The projected x-velocity of the face `(i, j)`: interior faces have the
/// pressure gradient subtracted; boundary faces are untouched, the boundary
/// phase owns them.
pub open spec fn gradient_x_value(m: StateModel, p: Seq<i64>, i: int, j: int) -> int {
    let v = m.velocities_x[x_face_index(m.nx, i, j)] as int;
    if i == 0 || i == m.nx {
        v
    } else {
        let g = spec_fp_div(
            spec_fp_sub(
                p[cell_index(m.nx, i, j)] as int,
                p[cell_index(m.nx, i - 1, j)] as int,
            ),
            m.cell_size,
        );
        spec_fp_sub(v, spec_fp_mul(m.time_step, g))
    }
}

/// The projected y-velocity of the face `(i, j)`.
pub open spec fn gradient_y_value(m: StateModel, p: Seq<i64>, i: int, j: int) -> int {
    let v = m.velocities_y[y_face_index(m.ny, i, j)] as int;
    if j == 0 || j == m.ny {
        v
    } else {
        let g = spec_fp_div(
            spec_fp_sub(
                p[cell_index(m.nx, i, j)] as int,
                p[cell_index(m.nx, i, j - 1)] as int,
            ),
            m.cell_size,
        );
        spec_fp_sub(v, spec_fp_mul(m.time_step, g))
    }
}

/// One projection phase: compute the divergence constants, relax the
/// pressures by `JACOBI_ITERATIONS` synchronous sweeps starting from the
/// current pressures, then subtract the pressure gradient on interior faces.
pub open spec fn project_model(m: StateModel) -> StateModel {
    let c = constants_model(m);
    let p = jacobi_iterate(m, m.pressures, c, JACOBI_ITERATIONS as nat);
    StateModel {
        pressures: p,
        velocities_x: Seq::new(
            m.velocities_x.len(),
            |k: int| gradient_x_value(m, p, k % (m.nx + 1), k / (m.nx + 1)) as i64,
        ),
        velocities_y: Seq::new(
            m.velocities_y.len(),
            |k: int| gradient_y_value(m, p, k / (m.ny + 1), k % (m.ny + 1)) as i64,
        ),
        ..m
    }
}

/// One whole step: boundary, advection, boundary again, projection, in that
/// fixed order.
pub open spec fn step_model(m: StateModel) -> StateModel {
    project_model(boundary_model(advect_model(boundary_model(m))))
}

/// The state after `n` whole steps.
pub open spec fn steps_model(m: StateModel, n: nat) -> StateModel
    decreases n,
{
    if n == 0 {
        m
    } else {
        step_model(steps_model(m, (n - 1) as nat))
    }
}

/// No flow crosses the domain edge: every boundary face's normal velocity
/// is exactly zero.
pub open spec fn no_flow_boundary(m: StateModel) -> bool {
    &&& forall|j: int| 0 <= j < m.ny ==> m.velocities_x[#[trigger] x_face_index(m.nx, 0, j)] == 0
    &&& forall|j: int|
        0 <= j < m.ny ==> m.velocities_x[#[trigger] x_face_index(m.nx, m.nx, j)] == 0
    &&& forall|i: int| 0 <= i < m.nx ==> m.velocities_y[#[trigger] y_face_index(m.ny, i, 0)] == 0
    &&& forall|i: int|
        0 <= i < m.nx ==> m.velocities_y[#[trigger] y_face_index(m.ny, i, m.ny)] == 0
}

/// The field is discretely divergence-free: every cell's net outflow
/// through its four bounding faces is zero.
pub open spec fn divergence_free(m: StateModel) -> bool {
    forall|i: int, j: int|
        0 <= i < m.nx && 0 <= j < m.ny ==> #[trigger] divergence_sum(m, i, j) == 0
}

/// Every velocity of the field is zero.
pub open spec fn zero_velocities(m: StateModel) -> bool {
    &&& forall|k: int| 0 <= k < m.velocities_x.len() ==> #[trigger] m.velocities_x[k] == 0
    &&& forall|k: int| 0 <= k < m.velocities_y.len() ==> #[trigger] m.velocities_y[k] == 0
}

/// Every pressure of the field is zero.
pub open spec fn zero_pressures(m: StateModel) -> bool {
    forall|k: int| 0 <= k < m.pressures.len() ==> #[trigger] m.pressures[k] == 0
}

/// Every x-velocity equals `a` and every y-velocity equals `b`.
pub open spec fn uniform_velocities(m: StateModel, a: i64, b: i64) -> bool {
    &&& forall|k: int| 0 <= k < m.velocities_x.len() ==> #[trigger] m.velocities_x[k] == a
    &&& forall|k: int| 0 <= k < m.velocities_y.len() ==> #[trigger] m.velocities_y[k] == b
}

} // verus!
