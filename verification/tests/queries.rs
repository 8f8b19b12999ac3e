use mac_fluid::fixed::SCALE;
use mac_fluid::simulation::{InitialCondition, Simulation};

#[test]
fn cells_report_centers_velocities_and_colors() {
    // A 2x1 grid with cells two units wide.
    let mut sim = Simulation::new(2, 1, 2 * SCALE, SCALE, InitialCondition::One);
    sim.pressures = vec![5000, -3000];
    let cells = sim.cells();
    assert_eq!(cells.len(), 2);
    // Cell centers in world space: (1, 1) and (3, 1).
    assert_eq!(cells[0].position.x, SCALE);
    assert_eq!(cells[0].position.y, SCALE);
    assert_eq!(cells[1].position.x, 3 * SCALE);
    assert_eq!(cells[1].position.y, SCALE);
    // The red channel is a thousandth of the cell's pressure; green and
    // blue are zero.
    assert_eq!(cells[0].color.x, 5);
    assert_eq!(cells[1].color.x, -3);
    assert_eq!(cells[0].color.y, 0);
    assert_eq!(cells[0].color.z, 0);
    // A uniform field interpolates to itself at every center.
    assert_eq!(cells[0].velocity.x, SCALE);
    assert_eq!(cells[0].velocity.y, SCALE);
}

#[test]
fn velocities_x_query_reports_faces() {
    let mut sim = Simulation::new(2, 1, 2 * SCALE, SCALE, InitialCondition::Zero);
    for (k, v) in sim.velocities_x.iter_mut().enumerate() {
        *v = (k as i64 + 1) * 100;
    }
    let faces = sim.velocities_x();
    assert_eq!(faces.len(), 3);
    for (k, face) in faces.iter().enumerate() {
        // The x-face (i, j) sits at ((i) * h, (j + 1/2) * h) in world space.
        assert_eq!(face.position.x, (k as i64) * 2 * SCALE);
        assert_eq!(face.position.y, SCALE);
        assert_eq!(face.velocity.x, (k as i64 + 1) * 100);
        assert_eq!(face.velocity.y, 0);
        assert_eq!(face.color.x, SCALE);
        assert_eq!(face.color.y, 0);
    }
}

#[test]
fn velocities_y_query_reports_faces() {
    let mut sim = Simulation::new(1, 2, 2 * SCALE, SCALE, InitialCondition::Zero);
    for (k, v) in sim.velocities_y.iter_mut().enumerate() {
        *v = -(k as i64 + 1) * 100;
    }
    let faces = sim.velocities_y();
    assert_eq!(faces.len(), 3);
    for (k, face) in faces.iter().enumerate() {
        // The y-face (i, j) sits at ((i + 1/2) * h, j * h) in world space.
        assert_eq!(face.position.x, SCALE);
        assert_eq!(face.position.y, (k as i64) * 2 * SCALE);
        assert_eq!(face.velocity.x, 0);
        assert_eq!(face.velocity.y, -(k as i64 + 1) * 100);
        assert_eq!(face.color.x, 0);
        assert_eq!(face.color.y, SCALE);
    }
}

#[test]
fn is_fluid_covers_the_domain_only() {
    let sim = Simulation::new(3, 2, SCALE, SCALE, InitialCondition::Zero);
    assert!(sim.is_fluid(0, 0));
    assert!(sim.is_fluid(2, 1));
    assert!(!sim.is_fluid(3, 0));
    assert!(!sim.is_fluid(0, 2));
    assert!(!sim.is_fluid(-1, 0));
    assert!(!sim.is_fluid(0, -1));
}
