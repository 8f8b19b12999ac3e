//! Index arithmetic for the three staggered grid layouts.
//!
//! A grid of `nx` by `ny` cells stores pressures at cell centers (row-major),
//! x-velocities on vertical faces (an `(nx+1)` by `ny` layout, row-major) and
//! y-velocities on horizontal faces (an `nx` by `(ny+1)` layout,
//! column-major). These functions are the sole authority for the offset
//! arithmetic; callers clamp before indexing.

use vstd::prelude::*;

use crate::fixed::lemma_euclid_unique;

verus! {

broadcast use vstd::arithmetic::mul::lemma_mul_is_commutative;

/// Largest accepted grid extent along either axis.
pub const MAX_DIM: usize = 16384;

/// Flat offset of cell `(x, y)` in the pressure layout.
pub open spec fn cell_index(nx: int, x: int, y: int) -> int {
    x + y * nx
}

/// Flat offset of the vertical face `(x, y)` in the x-velocity layout.
pub open spec fn x_face_index(nx: int, x: int, y: int) -> int {
    x + y * (nx + 1)
}

/// Flat offset of the horizontal face `(x, y)` in the y-velocity layout.
pub open spec fn y_face_index(ny: int, x: int, y: int) -> int {
    x * (ny + 1) + y
}

/// Clamp a coordinate into `[0, hi]`.
pub open spec fn spec_clamp(c: int, hi: int) -> int {
    if c < 0 {
        0
    } else if c > hi {
        hi
    } else {
        c
    }
}

/// In-bounds cell coordinates give offsets inside the pressure array, and
/// the offset determines the coordinates.
pub proof fn lemma_cell_index(nx: int, ny: int, x: int, y: int)
    requires
        1 <= nx,
        1 <= ny,
        0 <= x < nx,
        0 <= y < ny,
    ensures
        0 <= cell_index(nx, x, y) < nx * ny,
        cell_index(nx, x, y) % nx == x,
        cell_index(nx, x, y) / nx == y,
{
    assert(0 <= x + y * nx && x + y * nx < nx * ny) by (nonlinear_arith)
        requires
            1 <= nx,
            0 <= x < nx,
            0 <= y < ny,
    ;
    lemma_euclid_unique(cell_index(nx, x, y), nx, y, x);
}

/// In-bounds x-face coordinates give offsets inside the x-velocity array,
/// and the offset determines the coordinates.
pub proof fn lemma_x_face_index(nx: int, ny: int, x: int, y: int)
    requires
        1 <= nx,
        1 <= ny,
        0 <= x <= nx,
        0 <= y < ny,
    ensures
        0 <= x_face_index(nx, x, y) < (nx + 1) * ny,
        x_face_index(nx, x, y) % (nx + 1) == x,
        x_face_index(nx, x, y) / (nx + 1) == y,
{
    assert(0 <= x + y * (nx + 1) && x + y * (nx + 1) < (nx + 1) * ny) by (nonlinear_arith)
        requires
            1 <= nx,
            0 <= x <= nx,
            0 <= y < ny,
    ;
    lemma_euclid_unique(x_face_index(nx, x, y), nx + 1, y, x);
}

/// In-bounds y-face coordinates give offsets inside the y-velocity array,
/// and the offset determines the coordinates.
pub proof fn lemma_y_face_index(nx: int, ny: int, x: int, y: int)
    requires
        1 <= nx,
        1 <= ny,
        0 <= x < nx,
        0 <= y <= ny,
    ensures
        0 <= y_face_index(ny, x, y) < nx * (ny + 1),
        y_face_index(ny, x, y) % (ny + 1) == y,
        y_face_index(ny, x, y) / (ny + 1) == x,
{
    assert(0 <= x * (ny + 1) + y && x * (ny + 1) + y < nx * (ny + 1)) by (nonlinear_arith)
        requires
            1 <= ny,
            0 <= x < nx,
            0 <= y <= ny,
    ;
    lemma_euclid_unique(y_face_index(ny, x, y), ny + 1, x, y);
}

/// Every offset inside the pressure array decomposes into in-bounds cell
/// coordinates.
pub proof fn lemma_cell_decompose(nx: int, ny: int, k: int)
    requires
        1 <= nx,
        1 <= ny,
        0 <= k < nx * ny,
    ensures
        0 <= k % nx < nx,
        0 <= k / nx < ny,
        k == cell_index(nx, k % nx, k / nx),
{
    vstd::arithmetic::div_mod::lemma_fundamental_div_mod(k, nx);
    assert(0 <= k % nx < nx);
    assert(0 <= k / nx < ny) by (nonlinear_arith)
        requires
            1 <= nx,
            0 <= k < nx * ny,
            k == nx * (k / nx) + k % nx,
            0 <= k % nx < nx,
    ;
}

/// Every offset inside the x-velocity array decomposes into in-bounds x-face
/// coordinates.
pub proof fn lemma_x_face_decompose(nx: int, ny: int, k: int)
    requires
        1 <= nx,
        1 <= ny,
        0 <= k < (nx + 1) * ny,
    ensures
        0 <= k % (nx + 1) <= nx,
        0 <= k / (nx + 1) < ny,
        k == x_face_index(nx, k % (nx + 1), k / (nx + 1)),
{
    vstd::arithmetic::div_mod::lemma_fundamental_div_mod(k, nx + 1);
    assert(0 <= k % (nx + 1) <= nx);
    assert(0 <= k / (nx + 1) < ny) by (nonlinear_arith)
        requires
            1 <= nx,
            0 <= k < (nx + 1) * ny,
            k == (nx + 1) * (k / (nx + 1)) + k % (nx + 1),
            0 <= k % (nx + 1) <= nx,
    ;
}

/// Every offset inside the y-velocity array decomposes into in-bounds y-face
/// coordinates.
pub proof fn lemma_y_face_decompose(nx: int, ny: int, k: int)
    requires
        1 <= nx,
        1 <= ny,
        0 <= k < nx * (ny + 1),
    ensures
        0 <= k % (ny + 1) <= ny,
        0 <= k / (ny + 1) < nx,
        k == y_face_index(ny, k / (ny + 1), k % (ny + 1)),
{
    vstd::arithmetic::div_mod::lemma_fundamental_div_mod(k, ny + 1);
    assert(0 <= k % (ny + 1) <= ny);
    assert(0 <= k / (ny + 1) < nx) by (nonlinear_arith)
        requires
            1 <= ny,
            0 <= k < nx * (ny + 1),
            k == (ny + 1) * (k / (ny + 1)) + k % (ny + 1),
            0 <= k % (ny + 1) <= ny,
    ;
}

} // verus!
