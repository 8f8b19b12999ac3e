//! Proved laws of the simulation: boundary enforcement, interpolation
//! exactness, clamp-to-edge sampling, and preservation of zero and uniform
//! fields.

use vstd::prelude::*;

use crate::fixed::{in_range, spec_fp_div, spec_fp_sub, HALF_SCALE, SCALE};
use crate::grid::{
    lemma_cell_decompose, lemma_cell_index, lemma_x_face_decompose, lemma_x_face_index,
    lemma_y_face_decompose, lemma_y_face_index, spec_clamp, x_face_index, y_face_index,
};
use crate::model::{
    advect_model, boundary_model, interp_x, interp_y, no_flow_boundary, project_model, sample_x,
    sample_y, step_model, StateModel,
};

verus! {

/// After a boundary phase, every boundary face's normal velocity is exactly
/// zero.
pub proof fn lemma_boundary_no_flow(m: StateModel)
    requires
        m.wf(),
    ensures
        no_flow_boundary(boundary_model(m)),
{
    let b = boundary_model(m);
    assert forall|j: int| 0 <= j < b.ny implies b.velocities_x[#[trigger] x_face_index(
        b.nx,
        0,
        j,
    )] == 0 by {
        lemma_x_face_index(m.nx, m.ny, 0, j);
    }
    assert forall|j: int| 0 <= j < b.ny implies b.velocities_x[#[trigger] x_face_index(
        b.nx,
        b.nx,
        j,
    )] == 0 by {
        lemma_x_face_index(m.nx, m.ny, m.nx, j);
    }
    assert forall|i: int| 0 <= i < b.nx implies b.velocities_y[#[trigger] y_face_index(
        b.ny,
        i,
        0,
    )] == 0 by {
        lemma_y_face_index(m.nx, m.ny, i, 0);
    }
    assert forall|i: int| 0 <= i < b.nx implies b.velocities_y[#[trigger] y_face_index(
        b.ny,
        i,
        b.ny,
    )] == 0 by {
        lemma_y_face_index(m.nx, m.ny, i, m.ny);
    }
}

/// Projection never touches a boundary face: a field with no flow across
/// the boundary keeps that property through a projection.
pub proof fn lemma_project_preserves_no_flow(m: StateModel)
    requires
        m.wf(),
        no_flow_boundary(m),
    ensures
        no_flow_boundary(project_model(m)),
{
    let p = project_model(m);
    assert forall|j: int| 0 <= j < p.ny implies p.velocities_x[#[trigger] x_face_index(
        p.nx,
        0,
        j,
    )] == 0 by {
        lemma_x_face_index(m.nx, m.ny, 0, j);
    }
    assert forall|j: int| 0 <= j < p.ny implies p.velocities_x[#[trigger] x_face_index(
        p.nx,
        p.nx,
        j,
    )] == 0 by {
        lemma_x_face_index(m.nx, m.ny, m.nx, j);
    }
    assert forall|i: int| 0 <= i < p.nx implies p.velocities_y[#[trigger] y_face_index(
        p.ny,
        i,
        0,
    )] == 0 by {
        lemma_y_face_index(m.nx, m.ny, i, 0);
    }
    assert forall|i: int| 0 <= i < p.nx implies p.velocities_y[#[trigger] y_face_index(
        p.ny,
        i,
        p.ny,
    )] == 0 by {
        lemma_y_face_index(m.nx, m.ny, i, m.ny);
    }
}

/// The bilinear blend at a corner reduces to that corner's sample.
proof fn lemma_bilinear_at_corner(v00: int, v10: int, v01: int, v11: int)
    requires
        in_range(v00),
    ensures
        crate::model::bilinear(v00, v10, v01, v11, 0, 0) == v00,
{
    broadcast use vstd::arithmetic::mul::lemma_mul_by_zero_is_zero;

    let s = SCALE as int;
    assert(s * (s * v00) == (s * s) * v00) by {
        vstd::arithmetic::mul::lemma_mul_is_associative(s, s, v00);
    }
    assert(((s * s) * v00) / (s * s) == v00) by {
        vstd::arithmetic::div_mod::lemma_div_multiples_vanish(v00, s * s);
    }
}

/// Interpolation is exact at grid points: at the canonical position of the
/// x-face `(i, j)`, which is `(i, j + 1/2)` in grid units, the interpolated
/// x-velocity equals that face's raw stored value.
pub proof fn lemma_interpolation_exact_at_x_face(m: StateModel, i: int, j: int)
    requires
        m.wf(),
        0 <= i <= m.nx,
        0 <= j < m.ny,
    ensures
        interp_x(m, i * SCALE, j * SCALE + HALF_SCALE) == m.velocities_x[x_face_index(
            m.nx,
            i,
            j,
        )],
{
    broadcast use vstd::arithmetic::mul::lemma_mul_is_commutative;

    let px = i * SCALE;
    let sy = (j * SCALE + HALF_SCALE) - HALF_SCALE;
    crate::fixed::lemma_euclid_unique(px, SCALE as int, i, 0);
    crate::fixed::lemma_euclid_unique(sy, SCALE as int, j, 0);
    lemma_x_face_index(m.nx, m.ny, i, j);
    lemma_bilinear_at_corner(
        sample_x(m, i, j),
        sample_x(m, i + 1, j),
        sample_x(m, i, j + 1),
        sample_x(m, i + 1, j + 1),
    );
}

/// Interpolation is exact at grid points: at the canonical position of the
/// y-face `(i, j)`, which is `(i + 1/2, j)` in grid units, the interpolated
/// y-velocity equals that face's raw stored value.
pub proof fn lemma_interpolation_exact_at_y_face(m: StateModel, i: int, j: int)
    requires
        m.wf(),
        0 <= i < m.nx,
        0 <= j <= m.ny,
    ensures
        interp_y(m, i * SCALE + HALF_SCALE, j * SCALE) == m.velocities_y[y_face_index(
            m.ny,
            i,
            j,
        )],
{
    broadcast use vstd::arithmetic::mul::lemma_mul_is_commutative;

    let sx = (i * SCALE + HALF_SCALE) - HALF_SCALE;
    let py = j * SCALE;
    crate::fixed::lemma_euclid_unique(sx, SCALE as int, i, 0);
    crate::fixed::lemma_euclid_unique(py, SCALE as int, j, 0);
    lemma_y_face_index(m.nx, m.ny, i, j);
    lemma_bilinear_at_corner(
        sample_y(m, i, j),
        sample_y(m, i + 1, j),
        sample_y(m, i, j + 1),
        sample_y(m, i + 1, j + 1),
    );
}

/// Clamp-to-edge sampling: the raw sample at any out-of-range integer
/// coordinate equals the sample at the nearest in-range coordinate.
pub proof fn lemma_clamped_sampling_x(m: StateModel, cx: int, cy: int)
    requires
        m.wf(),
    ensures
        sample_x(m, cx, cy) == sample_x(m, spec_clamp(cx, m.nx), spec_clamp(cy, m.ny - 1)),
{
}

/// Clamp-to-edge sampling for the y-velocity layout.
pub proof fn lemma_clamped_sampling_y(m: StateModel, cx: int, cy: int)
    requires
        m.wf(),
    ensures
        sample_y(m, cx, cy) == sample_y(m, spec_clamp(cx, m.nx - 1), spec_clamp(cy, m.ny)),
{
}

/// Every clamped sample of an all-zero field is zero.
proof fn lemma_sample_zero(m: StateModel, cx: int, cy: int)
    requires
        m.wf(),
        crate::model::zero_velocities(m),
    ensures
        sample_x(m, cx, cy) == 0,
        sample_y(m, cx, cy) == 0,
{
    lemma_x_face_index(m.nx, m.ny, spec_clamp(cx, m.nx), spec_clamp(cy, m.ny - 1));
    lemma_y_face_index(m.nx, m.ny, spec_clamp(cx, m.nx - 1), spec_clamp(cy, m.ny));
}

/// The bilinear blend of four zero samples is zero, whatever the weights.
proof fn lemma_bilinear_zero(dx: int, dy: int)
    ensures
        crate::model::bilinear(0, 0, 0, 0, dx, dy) == 0,
{
    broadcast use vstd::arithmetic::mul::lemma_mul_by_zero_is_zero;

    crate::fixed::lemma_div_zero(SCALE as int * SCALE as int);
}

/// Interpolating an all-zero field gives zero everywhere.
proof fn lemma_interp_zero(m: StateModel, px: int, py: int)
    requires
        m.wf(),
        crate::model::zero_velocities(m),
    ensures
        interp_x(m, px, py) == 0,
        interp_y(m, px, py) == 0,
{
    let sy = py - HALF_SCALE;
    let sx = px - HALF_SCALE;
    lemma_sample_zero(m, crate::fixed::spec_fp_floor(px), crate::fixed::spec_fp_floor(sy));
    lemma_sample_zero(m, crate::fixed::spec_fp_floor(px) + 1, crate::fixed::spec_fp_floor(sy));
    lemma_sample_zero(m, crate::fixed::spec_fp_floor(px), crate::fixed::spec_fp_floor(sy) + 1);
    lemma_sample_zero(
        m,
        crate::fixed::spec_fp_floor(px) + 1,
        crate::fixed::spec_fp_floor(sy) + 1,
    );
    lemma_sample_zero(m, crate::fixed::spec_fp_floor(sx), crate::fixed::spec_fp_floor(py));
    lemma_sample_zero(m, crate::fixed::spec_fp_floor(sx) + 1, crate::fixed::spec_fp_floor(py));
    lemma_sample_zero(m, crate::fixed::spec_fp_floor(sx), crate::fixed::spec_fp_floor(py) + 1);
    lemma_sample_zero(
        m,
        crate::fixed::spec_fp_floor(sx) + 1,
        crate::fixed::spec_fp_floor(py) + 1,
    );
    lemma_bilinear_zero(crate::fixed::spec_fp_frac(px), crate::fixed::spec_fp_frac(sy));
    lemma_bilinear_zero(crate::fixed::spec_fp_frac(sx), crate::fixed::spec_fp_frac(py));
}

/// Advecting an all-zero field leaves every face at zero.
proof fn lemma_advected_zero(m: StateModel, i: int, j: int)
    requires
        m.wf(),
        crate::model::zero_velocities(m),
    ensures
        crate::model::advected_x(m, i, j) == 0,
        crate::model::advected_y(m, i, j) == 0,
{
    let pxx = i * SCALE;
    let pxy = j * SCALE + HALF_SCALE;
    let pyx = i * SCALE + HALF_SCALE;
    let pyy = j * SCALE;
    lemma_interp_zero(m, pxx, pxy);
    lemma_interp_zero(m, pyx, pyy);
    crate::fixed::lemma_fp_zero(m.time_step, m.cell_size);
    lemma_interp_zero(
        m,
        spec_fp_sub(pxx, 0),
        spec_fp_sub(pxy, 0),
    );
    lemma_interp_zero(
        m,
        spec_fp_sub(pyx, 0),
        spec_fp_sub(pyy, 0),
    );
}

/// The boundary phase preserves well-formedness and an all-zero field.
proof fn lemma_boundary_zero(m: StateModel)
    requires
        m.wf(),
        crate::model::zero_velocities(m),
        crate::model::zero_pressures(m),
    ensures
        boundary_model(m).wf(),
        crate::model::zero_velocities(boundary_model(m)),
        crate::model::zero_pressures(boundary_model(m)),
{
    let b = boundary_model(m);
    assert forall|k: int| 0 <= k < b.velocities_x.len() implies #[trigger] b.velocities_x[k]
        == 0 by {}
    assert forall|k: int| 0 <= k < b.velocities_y.len() implies #[trigger] b.velocities_y[k]
        == 0 by {}
}

/// The advection phase preserves well-formedness and an all-zero field.
proof fn lemma_advect_zero(m: StateModel)
    requires
        m.wf(),
        crate::model::zero_velocities(m),
        crate::model::zero_pressures(m),
    ensures
        advect_model(m).wf(),
        crate::model::zero_velocities(advect_model(m)),
        crate::model::zero_pressures(advect_model(m)),
{
    let a = advect_model(m);
    assert forall|k: int| 0 <= k < a.velocities_x.len() implies #[trigger] a.velocities_x[k]
        == 0 by {
        lemma_advected_zero(m, k % (m.nx + 1), k / (m.nx + 1));
    }
    assert forall|k: int| 0 <= k < a.velocities_y.len() implies #[trigger] a.velocities_y[k]
        == 0 by {
        lemma_advected_zero(m, k / (m.ny + 1), k % (m.ny + 1));
    }
}

/// One relaxed pressure of an all-zero system is zero.
proof fn lemma_jacobi_value_zero(m: StateModel, p: Seq<i64>, c: Seq<i64>, i: int, j: int)
    requires
        1 <= m.nx,
        1 <= m.ny,
        p.len() == m.nx * m.ny,
        c.len() == m.nx * m.ny,
        forall|k: int| 0 <= k < p.len() ==> #[trigger] p[k] == 0,
        forall|k: int| 0 <= k < c.len() ==> #[trigger] c[k] == 0,
        0 <= i < m.nx,
        0 <= j < m.ny,
    ensures
        crate::model::jacobi_value(m, p, c, i, j) == 0,
{
    if m.is_fluid(i + 1, j) {
        lemma_cell_index(m.nx, m.ny, i + 1, j);
    }
    if m.is_fluid(i - 1, j) {
        lemma_cell_index(m.nx, m.ny, i - 1, j);
    }
    if m.is_fluid(i, j + 1) {
        lemma_cell_index(m.nx, m.ny, i, j + 1);
    }
    if m.is_fluid(i, j - 1) {
        lemma_cell_index(m.nx, m.ny, i, j - 1);
    }
    lemma_cell_index(m.nx, m.ny, i, j);
    let cnt = crate::model::neighbor_count(m, i, j);
    if cnt != 0 {
        crate::fixed::lemma_div_zero(cnt);
    }
}

/// Jacobi relaxation of zero pressures with zero constants stays at zero.
proof fn lemma_jacobi_zero(m: StateModel, p: Seq<i64>, c: Seq<i64>, n: nat)
    requires
        1 <= m.nx,
        1 <= m.ny,
        p.len() == m.nx * m.ny,
        c.len() == m.nx * m.ny,
        forall|k: int| 0 <= k < p.len() ==> #[trigger] p[k] == 0,
        forall|k: int| 0 <= k < c.len() ==> #[trigger] c[k] == 0,
    ensures
        crate::model::jacobi_iterate(m, p, c, n).len() == m.nx * m.ny,
        forall|k: int|
            0 <= k < m.nx * m.ny ==> #[trigger] crate::model::jacobi_iterate(m, p, c, n)[k] == 0,
    decreases n,
{
    if n > 0 {
        lemma_jacobi_zero(m, p, c, (n - 1) as nat);
        let prev = crate::model::jacobi_iterate(m, p, c, (n - 1) as nat);
        assert forall|k: int| 0 <= k < m.nx * m.ny implies #[trigger] crate::model::jacobi_sweep(
            m,
            prev,
            c,
        )[k] == 0 by {
            lemma_cell_decompose(m.nx, m.ny, k);
            lemma_jacobi_value_zero(m, prev, c, k % m.nx, k / m.nx);
        }
    }
}

/// The divergence of an all-zero field is zero in every cell.
proof fn lemma_divergence_zero(m: StateModel, i: int, j: int)
    requires
        m.wf(),
        crate::model::zero_velocities(m),
        0 <= i < m.nx,
        0 <= j < m.ny,
    ensures
        crate::model::divergence_sum(m, i, j) == 0,
        crate::model::divergence_constant(m, i, j) == 0,
{
    lemma_x_face_index(m.nx, m.ny, i + 1, j);
    lemma_x_face_index(m.nx, m.ny, i, j);
    lemma_y_face_index(m.nx, m.ny, i, j + 1);
    lemma_y_face_index(m.nx, m.ny, i, j);
    crate::fixed::lemma_fp_zero(spec_fp_div(m.cell_size, m.time_step), m.cell_size);
}

/// The projection phase preserves well-formedness and an all-zero field.
proof fn lemma_project_zero(m: StateModel)
    requires
        m.wf(),
        crate::model::zero_velocities(m),
        crate::model::zero_pressures(m),
    ensures
        project_model(m).wf(),
        crate::model::zero_velocities(project_model(m)),
        crate::model::zero_pressures(project_model(m)),
{
    let c = crate::model::constants_model(m);
    assert forall|k: int| 0 <= k < c.len() implies #[trigger] c[k] == 0 by {
        lemma_cell_decompose(m.nx, m.ny, k);
        lemma_divergence_zero(m, k % m.nx, k / m.nx);
    }
    lemma_jacobi_zero(m, m.pressures, c, crate::model::JACOBI_ITERATIONS as nat);
    let p10 = crate::model::jacobi_iterate(
        m,
        m.pressures,
        c,
        crate::model::JACOBI_ITERATIONS as nat,
    );
    let pm = project_model(m);
    assert forall|k: int| 0 <= k < pm.velocities_x.len() implies #[trigger] pm.velocities_x[k]
        == 0 by {
        lemma_x_face_decompose(m.nx, m.ny, k);
        let i = k % (m.nx + 1);
        let j = k / (m.nx + 1);
        if i != 0 && i != m.nx {
            lemma_cell_index(m.nx, m.ny, i, j);
            lemma_cell_index(m.nx, m.ny, i - 1, j);
            crate::fixed::lemma_fp_zero(m.time_step, m.cell_size);
        }
    }
    assert forall|k: int| 0 <= k < pm.velocities_y.len() implies #[trigger] pm.velocities_y[k]
        == 0 by {
        lemma_y_face_decompose(m.nx, m.ny, k);
        let i = k / (m.ny + 1);
        let j = k % (m.ny + 1);
        if j != 0 && j != m.ny {
            lemma_cell_index(m.nx, m.ny, i, j);
            lemma_cell_index(m.nx, m.ny, i, j - 1);
            crate::fixed::lemma_fp_zero(m.time_step, m.cell_size);
        }
    }
}

/// A zero field is a fixed point of one whole step: a simulation whose
/// velocities and pressures are all zero still has them all zero after the
/// step.
pub proof fn lemma_step_preserves_zero_field(m: StateModel)
    requires
        m.wf(),
        crate::model::zero_velocities(m),
        crate::model::zero_pressures(m),
    ensures
        step_model(m).wf(),
        crate::model::zero_velocities(step_model(m)),
        crate::model::zero_pressures(step_model(m)),
{
    lemma_boundary_zero(m);
    lemma_advect_zero(boundary_model(m));
    lemma_boundary_zero(advect_model(boundary_model(m)));
    lemma_project_zero(boundary_model(advect_model(boundary_model(m))));
}

/// A zero field stays identically zero after any number of steps.
pub proof fn lemma_steps_preserve_zero_field(m: StateModel, n: nat)
    requires
        m.wf(),
        crate::model::zero_velocities(m),
        crate::model::zero_pressures(m),
    ensures
        crate::model::steps_model(m, n).wf(),
        crate::model::zero_velocities(crate::model::steps_model(m, n)),
        crate::model::zero_pressures(crate::model::steps_model(m, n)),
    decreases n,
{
    if n > 0 {
        lemma_steps_preserve_zero_field(m, (n - 1) as nat);
        lemma_step_preserves_zero_field(crate::model::steps_model(m, (n - 1) as nat));
    }
}

/// A uniform velocity field (every x-velocity `a`, every y-velocity `b`)
/// is divergence-free in every cell.
pub proof fn lemma_uniform_field_divergence_free(m: StateModel, a: i64, b: i64, i: int, j: int)
    requires
        m.wf(),
        crate::model::uniform_velocities(m, a, b),
        0 <= i < m.nx,
        0 <= j < m.ny,
    ensures
        crate::model::divergence_sum(m, i, j) == 0,
        crate::model::divergence_constant(m, i, j) == 0,
{
    lemma_x_face_index(m.nx, m.ny, i + 1, j);
    lemma_x_face_index(m.nx, m.ny, i, j);
    lemma_y_face_index(m.nx, m.ny, i, j + 1);
    lemma_y_face_index(m.nx, m.ny, i, j);
    crate::fixed::lemma_fp_zero(spec_fp_div(m.cell_size, m.time_step), m.cell_size);
}

/// A discretely divergence-free field with zero pressures is a fixed point
/// of the projection: every divergence constant is zero, the Jacobi sweeps
/// keep the pressures at the uniform constant zero, and every velocity is
/// exactly unchanged.
pub proof fn lemma_project_divergence_free_field(m: StateModel)
    requires
        m.wf(),
        crate::model::divergence_free(m),
        crate::model::zero_pressures(m),
    ensures
        project_model(m).velocities_x == m.velocities_x,
        project_model(m).velocities_y == m.velocities_y,
        crate::model::zero_pressures(project_model(m)),
{
    let c = crate::model::constants_model(m);
    assert forall|k: int| 0 <= k < c.len() implies #[trigger] c[k] == 0 by {
        lemma_cell_decompose(m.nx, m.ny, k);
        crate::fixed::lemma_fp_zero(spec_fp_div(m.cell_size, m.time_step), m.cell_size);
    }
    lemma_jacobi_zero(m, m.pressures, c, crate::model::JACOBI_ITERATIONS as nat);
    let pm = project_model(m);
    assert forall|k: int| 0 <= k < pm.velocities_x.len() implies #[trigger] pm.velocities_x[k]
        == m.velocities_x[k] by {
        lemma_x_face_decompose(m.nx, m.ny, k);
        let i = k % (m.nx + 1);
        let j = k / (m.nx + 1);
        if i != 0 && i != m.nx {
            lemma_cell_index(m.nx, m.ny, i, j);
            lemma_cell_index(m.nx, m.ny, i - 1, j);
            crate::fixed::lemma_fp_zero(m.time_step, m.cell_size);
        }
    }
    assert forall|k: int| 0 <= k < pm.velocities_y.len() implies #[trigger] pm.velocities_y[k]
        == m.velocities_y[k] by {
        lemma_y_face_decompose(m.nx, m.ny, k);
        let i = k / (m.ny + 1);
        let j = k % (m.ny + 1);
        if j != 0 && j != m.ny {
            lemma_cell_index(m.nx, m.ny, i, j);
            lemma_cell_index(m.nx, m.ny, i, j - 1);
            crate::fixed::lemma_fp_zero(m.time_step, m.cell_size);
        }
    }
    assert(pm.velocities_x =~= m.velocities_x);
    assert(pm.velocities_y =~= m.velocities_y);
}

/// A uniform velocity field is divergence-free, so projecting it with zero
/// pressures changes nothing: the pressures stay at the uniform constant
/// zero and every velocity is exactly unchanged.
pub proof fn lemma_project_uniform_field(m: StateModel, a: i64, b: i64)
    requires
        m.wf(),
        crate::model::uniform_velocities(m, a, b),
        crate::model::zero_pressures(m),
    ensures
        project_model(m).velocities_x == m.velocities_x,
        project_model(m).velocities_y == m.velocities_y,
        crate::model::zero_pressures(project_model(m)),
{
    assert forall|i: int, j: int| 0 <= i < m.nx && 0 <= j < m.ny implies
        #[trigger] crate::model::divergence_sum(m, i, j) == 0 by {
        lemma_uniform_field_divergence_free(m, a, b, i, j);
    }
    lemma_project_divergence_free_field(m);
}

} // verus!
