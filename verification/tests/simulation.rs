use mac_fluid::fixed::{HALF_SCALE, SCALE};
use mac_fluid::simulation::{InitialCondition, Simulation, Vec2};

fn divergence(sim: &Simulation, i: usize, j: usize) -> i64 {
    let ur = sim.velocities_x[sim.velocities_x_idx(i + 1, j)];
    let ul = sim.velocities_x[sim.velocities_x_idx(i, j)];
    let vt = sim.velocities_y[sim.velocities_y_idx(i, j + 1)];
    let vb = sim.velocities_y[sim.velocities_y_idx(i, j)];
    (ur - ul) + (vt - vb)
}

#[test]
fn construction_zero() {
    let sim = Simulation::new(3, 2, SCALE, SCALE, InitialCondition::Zero);
    assert_eq!(sim.pressures.len(), 6);
    assert_eq!(sim.velocities_x.len(), 8);
    assert_eq!(sim.velocities_y.len(), 9);
    assert!(sim.pressures.iter().all(|&p| p == 0));
    assert!(sim.velocities_x.iter().all(|&v| v == 0));
    assert!(sim.velocities_y.iter().all(|&v| v == 0));
}

#[test]
fn construction_one() {
    let sim = Simulation::new(2, 2, SCALE, SCALE, InitialCondition::One);
    assert!(sim.velocities_x.iter().all(|&v| v == SCALE));
    assert!(sim.velocities_y.iter().all(|&v| v == SCALE));
    assert!(sim.pressures.iter().all(|&p| p == 0));
}

#[test]
fn construction_random_within_unit_range() {
    let sim = Simulation::new(10, 10, SCALE, SCALE, InitialCondition::Random);
    assert!(sim.velocities_x.iter().all(|&v| -SCALE <= v && v < SCALE));
    assert!(sim.velocities_y.iter().all(|&v| -SCALE <= v && v < SCALE));
}

#[test]
fn indexers_follow_the_three_layouts() {
    let sim = Simulation::new(4, 3, SCALE, SCALE, InitialCondition::Zero);
    assert_eq!(sim.pressures_idx(1, 2), 1 + 2 * 4);
    assert_eq!(sim.velocities_x_idx(4, 2), 4 + 2 * 5);
    assert_eq!(sim.velocities_y_idx(3, 3), 3 * 4 + 3);
}

#[test]
fn boundary_two_by_two() {
    // A 2x2 grid, unit cell and unit time step, every x-velocity one and
    // every y-velocity zero.
    let mut sim = Simulation::new(2, 2, SCALE, SCALE, InitialCondition::One);
    sim.velocities_y = vec![0; 6];
    sim.boundary();
    // x-velocities: faces at x = 0 and x = 2 are zeroed in both rows, the
    // interior column x = 1 is untouched.
    for j in 0..2 {
        assert_eq!(sim.velocities_x[sim.velocities_x_idx(0, j)], 0);
        assert_eq!(sim.velocities_x[sim.velocities_x_idx(2, j)], 0);
        assert_eq!(sim.velocities_x[sim.velocities_x_idx(1, j)], SCALE);
    }
    // y-velocities: faces at y = 0 and y = 2 are zero (they already were).
    for i in 0..2 {
        assert_eq!(sim.velocities_y[sim.velocities_y_idx(i, 0)], 0);
        assert_eq!(sim.velocities_y[sim.velocities_y_idx(i, 2)], 0);
    }
}

#[test]
fn boundary_faces_zero_after_any_step() {
    let mut sim = Simulation::new(5, 4, 2 * SCALE, HALF_SCALE, InitialCondition::Random);
    for _ in 0..3 {
        sim.step();
        for j in 0..4 {
            assert_eq!(sim.velocities_x[sim.velocities_x_idx(0, j)], 0);
            assert_eq!(sim.velocities_x[sim.velocities_x_idx(5, j)], 0);
        }
        for i in 0..5 {
            assert_eq!(sim.velocities_y[sim.velocities_y_idx(i, 0)], 0);
            assert_eq!(sim.velocities_y[sim.velocities_y_idx(i, 4)], 0);
        }
    }
}

#[test]
fn raw_sampling_clamps_to_edge() {
    let mut sim = Simulation::new(3, 2, SCALE, SCALE, InitialCondition::Zero);
    for (k, v) in sim.velocities_x.iter_mut().enumerate() {
        *v = (k as i64 + 1) * 100;
    }
    for (k, v) in sim.velocities_y.iter_mut().enumerate() {
        *v = -(k as i64 + 1) * 100;
    }
    // Far out of range in every direction: the nearest in-range face wins.
    assert_eq!(sim.velocity_x(-9, -9), sim.velocity_x(0, 0));
    assert_eq!(sim.velocity_x(99, 99), sim.velocity_x(3, 1));
    assert_eq!(sim.velocity_x(-9, 99), sim.velocity_x(0, 1));
    assert_eq!(sim.velocity_y(-9, -9), sim.velocity_y(0, 0));
    assert_eq!(sim.velocity_y(99, 99), sim.velocity_y(2, 2));
    assert_eq!(sim.velocity_y(99, -9), sim.velocity_y(2, 0));
}

#[test]
fn interpolation_exact_at_face_positions() {
    let mut sim = Simulation::new(3, 2, SCALE, SCALE, InitialCondition::Zero);
    for (k, v) in sim.velocities_x.iter_mut().enumerate() {
        *v = (k as i64) * 1000 - 3000;
    }
    for (k, v) in sim.velocities_y.iter_mut().enumerate() {
        *v = (k as i64) * 700 - 2000;
    }
    // The canonical position of the x-face (i, j) is (i, j + 1/2) in grid
    // units; interpolation there returns the raw stored value.
    for i in 0..4i64 {
        for j in 0..2i64 {
            let at = Vec2 { x: i * SCALE, y: j * SCALE + HALF_SCALE };
            let got = sim.interpolate_velocity_with_normalized(at);
            assert_eq!(got.x, sim.velocity_x(i, j));
        }
    }
    // The canonical position of the y-face (i, j) is (i + 1/2, j).
    for i in 0..3i64 {
        for j in 0..3i64 {
            let at = Vec2 { x: i * SCALE + HALF_SCALE, y: j * SCALE };
            let got = sim.interpolate_velocity_with_normalized(at);
            assert_eq!(got.y, sim.velocity_y(i, j));
        }
    }
}

#[test]
fn interpolation_of_uniform_field_is_uniform() {
    let sim = Simulation::new(3, 3, SCALE, SCALE, InitialCondition::One);
    let probe = Vec2 { x: SCALE + SCALE / 4, y: 2 * SCALE - SCALE / 3 };
    let got = sim.interpolate_velocity_with_normalized(probe);
    assert_eq!(got.x, SCALE);
    assert_eq!(got.y, SCALE);
    // The world-space probe normalizes first; with a unit cell both agree.
    let world = sim.interpolate_velocity(probe);
    assert_eq!(world.x, SCALE);
    assert_eq!(world.y, SCALE);
}

#[test]
fn zero_field_stays_zero() {
    let mut sim = Simulation::new(4, 3, 2 * SCALE, HALF_SCALE, InitialCondition::Zero);
    for _ in 0..5 {
        sim.step();
        assert!(sim.velocities_x.iter().all(|&v| v == 0));
        assert!(sim.velocities_y.iter().all(|&v| v == 0));
        assert!(sim.pressures.iter().all(|&p| p == 0));
    }
}

#[test]
fn uniform_field_unchanged_by_projection() {
    // Every x-velocity one, every y-velocity zero: divergence-free, so the
    // projection leaves the velocities exactly unchanged and the pressures
    // at the uniform constant zero.
    let mut sim = Simulation::new(4, 4, SCALE, SCALE, InitialCondition::One);
    sim.velocities_y = vec![0; 4 * 5];
    for i in 0..4 {
        for j in 0..4 {
            assert_eq!(divergence(&sim, i, j), 0);
        }
    }
    let vx_before = sim.velocities_x.clone();
    let vy_before = sim.velocities_y.clone();
    sim.project();
    assert_eq!(sim.velocities_x, vx_before);
    assert_eq!(sim.velocities_y, vy_before);
    assert!(sim.pressures.iter().all(|&p| p == 0));
}

#[test]
fn projection_reduces_divergence() {
    // A single interior face pushed to one: the two cells it bounds start
    // with divergence of the largest magnitude; ten Jacobi sweeps drive
    // every interior divergence strictly down.
    let mut sim = Simulation::new(4, 4, SCALE, SCALE, InitialCondition::Zero);
    let k = sim.velocities_x_idx(2, 1);
    sim.velocities_x[k] = SCALE;
    let before_max = (0..4)
        .flat_map(|i| (0..4).map(move |j| (i, j)))
        .map(|(i, j)| divergence(&sim, i, j).abs())
        .max()
        .unwrap();
    assert_eq!(before_max, SCALE);
    let d11_before = divergence(&sim, 1, 1).abs();
    let d21_before = divergence(&sim, 2, 1).abs();
    sim.project();
    let after_max = (0..4)
        .flat_map(|i| (0..4).map(move |j| (i, j)))
        .map(|(i, j)| divergence(&sim, i, j).abs())
        .max()
        .unwrap();
    assert!(after_max < before_max);
    assert!(divergence(&sim, 1, 1).abs() < d11_before);
    assert!(divergence(&sim, 2, 1).abs() < d21_before);
}
