//! The simulation state: construction, index arithmetic, clamped sampling,
//! bilinear interpolation and the read-only query methods.

use vstd::prelude::*;

use crate::fixed::{in_range, lemma_mul_magnitude, SAT_LIMIT, SCALE};
use crate::grid::{
    cell_index, lemma_cell_index, lemma_x_face_index, lemma_y_face_index, spec_clamp,
    x_face_index, y_face_index, MAX_DIM,
};
use crate::model::{
    sample_x, sample_y, uniform_velocities, zero_pressures, zero_velocities, StateModel,
};

verus! {

/// A two-component fixed-point vector: a position or a velocity.
#[derive(Clone, Copy, Debug, PartialEq, Eq, Structural)]
pub struct Vec2 {
    pub x: i64,
    pub y: i64,
}

/// A three-component fixed-point vector: a color.
#[derive(Clone, Copy, Debug, PartialEq, Eq, Structural)]
pub struct Vec3 {
    pub x: i64,
    pub y: i64,
    pub z: i64,
}

/// One visualization sample: a world position, the velocity there and a
/// derived color.
#[derive(Clone, Copy, Debug, PartialEq, Eq, Structural)]
pub struct Cell {
    pub position: Vec2,
    pub velocity: Vec2,
    pub color: Vec3,
}

/// How the velocity arrays are filled at construction.
#[derive(Clone, Copy, Debug, PartialEq, Eq, Structural)]
pub enum InitialCondition {
    /// Every velocity is zero.
    Zero,
    /// Every velocity is one.
    One,
    /// Every velocity is drawn uniformly from `[-1, 1)`.
    Random,
}

/// The simulation: grid extents, configuration scalars and the three
/// staggered arrays. `step` advances it; the query methods never mutate it.
pub struct Simulation {
    /// Number of cells along x, positive.
    pub nx: usize,
    /// Number of cells along y, positive.
    pub ny: usize,
    /// Edge length of one cell (fixed point), positive.
    pub cell_size: i64,
    /// Duration advanced by one step (fixed point), positive.
    pub time_step: i64,
    /// Cell-centered pressures, row-major.
    pub pressures: Vec<i64>,
    /// X-velocities on vertical faces, row-major over an `(nx + 1)` by `ny`
    /// layout.
    pub velocities_x: Vec<i64>,
    /// Y-velocities on horizontal faces, column-major over an `nx` by
    /// `(ny + 1)` layout.
    pub velocities_y: Vec<i64>,
}

impl View for Simulation {
    type V = StateModel;

    open spec fn view(&self) -> StateModel {
        StateModel {
            nx: self.nx as int,
            ny: self.ny as int,
            cell_size: self.cell_size as int,
            time_step: self.time_step as int,
            pressures: self.pressures@,
            velocities_x: self.velocities_x@,
            velocities_y: self.velocities_y@,
        }
    }
}

/// Relies on rand's `thread_rng` and `Rng::gen_range`: a sample drawn from a
/// non-empty half-open integer range lies in that range.
#[verifier::external_body]
fn random_velocity() -> (r: i64)
    ensures
        -SCALE <= r < SCALE,
{
    rand::Rng::gen_range(&mut rand::thread_rng(), -SCALE..SCALE)
}

/// A velocity array of `count` entries filled per the initial condition.
fn fill_velocities(count: usize, initial: InitialCondition) -> (v: Vec<i64>)
    ensures
        v@.len() == count,
        forall|k: int| 0 <= k < count ==> -SCALE <= #[trigger] v@[k] <= SCALE,
        initial == InitialCondition::Zero ==> forall|k: int|
            0 <= k < count ==> #[trigger] v@[k] == 0,
        initial == InitialCondition::One ==> forall|k: int|
            0 <= k < count ==> #[trigger] v@[k] == SCALE,
        initial == InitialCondition::Random ==> forall|k: int|
            0 <= k < count ==> #[trigger] v@[k] < SCALE,
{
    let mut v: Vec<i64> = Vec::new();
    let mut n: usize = 0;
    while n < count
        invariant
            n <= count,
            v@.len() == n,
            forall|k: int| 0 <= k < n ==> -SCALE <= #[trigger] v@[k] <= SCALE,
            initial == InitialCondition::Zero ==> forall|k: int|
                0 <= k < n ==> #[trigger] v@[k] == 0,
            initial == InitialCondition::One ==> forall|k: int|
                0 <= k < n ==> #[trigger] v@[k] == SCALE,
            initial == InitialCondition::Random ==> forall|k: int|
                0 <= k < n ==> #[trigger] v@[k] < SCALE,
        decreases count - n,
    {
        let value = match initial {
            InitialCondition::Zero => 0,
            InitialCondition::One => SCALE,
            InitialCondition::Random => random_velocity(),
        };
        v.push(value);
        n = n + 1;
    }
    v
}

impl Simulation {
    /// The state is well formed: extents and configuration in range, arrays
    /// at their layout sizes, every stored scalar in range.
    pub open spec fn wf(&self) -> bool {
        self@.wf()
    }

    /// Build a simulation over an `nx` by `ny` grid with the given cell
    /// size, time step and initial velocities. Pressures start at zero.
    pub fn new(
        nx: usize,
        ny: usize,
        cell_size: i64,
        time_step: i64,
        initial: InitialCondition,
    ) -> (s: Simulation)
        requires
            1 <= nx <= MAX_DIM,
            1 <= ny <= MAX_DIM,
            0 < cell_size <= SAT_LIMIT,
            0 < time_step <= SAT_LIMIT,
        ensures
            s.wf(),
            s.nx == nx,
            s.ny == ny,
            s.cell_size == cell_size,
            s.time_step == time_step,
            zero_pressures(s@),
            forall|k: int|
                0 <= k < s@.velocities_x.len() ==> -SCALE <= #[trigger] s@.velocities_x[k]
                    <= SCALE,
            forall|k: int|
                0 <= k < s@.velocities_y.len() ==> -SCALE <= #[trigger] s@.velocities_y[k]
                    <= SCALE,
            initial == InitialCondition::Zero ==> zero_velocities(s@),
            initial == InitialCondition::One ==> uniform_velocities(s@, SCALE, SCALE),
            initial == InitialCondition::Random ==> forall|k: int|
                0 <= k < s@.velocities_x.len() ==> #[trigger] s@.velocities_x[k] < SCALE,
            initial == InitialCondition::Random ==> forall|k: int|
                0 <= k < s@.velocities_y.len() ==> #[trigger] s@.velocities_y[k] < SCALE,
    {
        proof {
            lemma_mul_magnitude(nx as int, ny as int, MAX_DIM as int, MAX_DIM as int);
            lemma_mul_magnitude(nx + 1 as int, ny as int, MAX_DIM as int + 1, MAX_DIM as int);
            lemma_mul_magnitude(nx as int, ny + 1 as int, MAX_DIM as int, MAX_DIM as int + 1);
        }
        let cell_count = nx * ny;
        let x_face_count = (nx + 1) * ny;
        let y_face_count = nx * (ny + 1);

        let mut pressures: Vec<i64> = Vec::new();
        let mut n: usize = 0;
        while n < cell_count
            invariant
                n <= cell_count,
                pressures@.len() == n,
                forall|k: int| 0 <= k < n ==> #[trigger] pressures@[k] == 0,
            decreases cell_count - n,
        {
            pressures.push(0);
            n = n + 1;
        }

        let velocities_x = fill_velocities(x_face_count, initial);
        let velocities_y = fill_velocities(y_face_count, initial);

        Simulation { nx, ny, cell_size, time_step, pressures, velocities_x, velocities_y }
    }

    /// Flat offset of cell `(x, y)` in the pressure array.
    pub fn pressures_idx(&self, x: usize, y: usize) -> (k: usize)
        requires
            self.wf(),
            x < self.nx,
            y < self.ny,
        ensures
            k == cell_index(self@.nx, x as int, y as int),
            k < self@.pressures.len(),
    {
        proof {
            lemma_cell_index(self@.nx, self@.ny, x as int, y as int);
            lemma_mul_magnitude(self@.nx, self@.ny, MAX_DIM as int, MAX_DIM as int);
        }
        x + y * self.nx
    }

    /// Flat offset of the vertical face `(x, y)` in the x-velocity array.
    pub fn velocities_x_idx(&self, x: usize, y: usize) -> (k: usize)
        requires
            self.wf(),
            x < self.nx + 1,
            y < self.ny,
        ensures
            k == x_face_index(self@.nx, x as int, y as int),
            k < self@.velocities_x.len(),
    {
        proof {
            lemma_x_face_index(self@.nx, self@.ny, x as int, y as int);
            lemma_mul_magnitude(self@.nx + 1, self@.ny, MAX_DIM as int + 1, MAX_DIM as int);
        }
        x + y * (self.nx + 1)
    }

    /// Flat offset of the horizontal face `(x, y)` in the y-velocity array.
    pub fn velocities_y_idx(&self, x: usize, y: usize) -> (k: usize)
        requires
            self.wf(),
            x < self.nx,
            y < self.ny + 1,
        ensures
            k == y_face_index(self@.ny, x as int, y as int),
            k < self@.velocities_y.len(),
    {
        proof {
            lemma_y_face_index(self@.nx, self@.ny, x as int, y as int);
            lemma_mul_magnitude(self@.nx, self@.ny + 1, MAX_DIM as int, MAX_DIM as int + 1);
        }
        x * (self.ny + 1) + y
    }

    /// A cell lies inside the fluid domain. Every in-bounds cell is fluid:
    /// the boundary is open and there are no inner solid cells.
    pub fn is_fluid(&self, x: i64, y: i64) -> (r: bool)
        requires
            self.wf(),
        ensures
            r == self@.is_fluid(x as int, y as int),
    {
        x >= 0 && y >= 0 && x < self.nx as i64 && y < self.ny as i64
    }

    /// The stored x-velocity at integer face coordinates, clamped
    /// component-wise to the nearest valid face (clamp-to-edge sampling).
    pub fn velocity_x(&self, cx: i64, cy: i64) -> (r: i64)
        requires
            self.wf(),
        ensures
            r as int == sample_x(self@, cx as int, cy as int),
            in_range(r as int),
    {
        let x = clamp_coord(cx, self.nx);
        let y = clamp_coord(cy, self.ny - 1);
        let k = self.velocities_x_idx(x, y);
        self.velocities_x[k]
    }

    /// The stored y-velocity at integer face coordinates, clamped
    /// component-wise to the nearest valid face (clamp-to-edge sampling).
    pub fn velocity_y(&self, cx: i64, cy: i64) -> (r: i64)
        requires
            self.wf(),
        ensures
            r as int == sample_y(self@, cx as int, cy as int),
            in_range(r as int),
    {
        let x = clamp_coord(cx, self.nx - 1);
        let y = clamp_coord(cy, self.ny);
        let k = self.velocities_y_idx(x, y);
        self.velocities_y[k]
    }
}

/// Clamp an integer coordinate into `[0, hi]`.
fn clamp_coord(c: i64, hi: usize) -> (r: usize)
    requires
        hi <= MAX_DIM,
    ensures
        r as int == spec_clamp(c as int, hi as int),
        r <= hi,
{
    if c < 0 {
        0
    } else if c > hi as i64 {
        hi
    } else {
        c as usize
    }
}

} // verus!
