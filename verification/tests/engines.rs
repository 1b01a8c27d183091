use toy_physics::particle::{Particle, Simulation};
use toy_physics::rigid::{RigidBody, Square};
use toy_physics::vec2::{vec2, Vec2, WorldSpace};
use toy_physics::FP;

fn wv(x: i64, y: i64) -> Vec2<i64, WorldSpace> {
    vec2(x, y)
}

#[test]
fn two_particles_attract_along_their_axis() {
    // Two unit masses (one unit stands for 1e20 kg) at (100, 100) and
    // (200, 100): after one tick both move toward each other on x alone.
    let mut sim = Simulation::new();
    sim.spawn_particle_with_mass(wv(100 * FP, 100 * FP), wv(0, 0), 1, 2 * FP);
    sim.spawn_particle_with_mass(wv(200 * FP, 100 * FP), wv(0, 0), 1, 2 * FP);
    sim.update(FP);
    let ps = sim.get_particles();
    assert_eq!(ps.len(), 2);
    let (p1, p2) = (ps[0], ps[1]);
    assert!(p1.vel.x > 0, "left particle pulled right");
    assert!(p2.vel.x < 0, "right particle pulled left");
    assert_eq!(p1.vel.y, 0);
    assert_eq!(p2.vel.y, 0);
    // Equal masses: the pulls mirror exactly.
    assert_eq!(p1.vel.x, -p2.vel.x);
}

#[test]
fn momentum_is_conserved_within_tolerance() {
    let mut sim = Simulation::new();
    sim.spawn_particle_with_mass(wv(0, 0), wv(0, 0), 2, 2 * FP);
    sim.spawn_particle_with_mass(wv(50 * FP, 30 * FP), wv(0, 0), 3, 2 * FP);
    sim.update(FP);
    let ps = sim.get_particles();
    let px = 2 * ps[0].vel.x + 3 * ps[1].vel.x;
    let py = 2 * ps[0].vel.y + 3 * ps[1].vel.y;
    // Total momentum starts at zero and may drift by less than one
    // fixed-point unit per unit of mass in the kick, shaved further by the
    // uniform damping.
    assert!(px.abs() <= 10, "x momentum drift {px}");
    assert!(py.abs() <= 10, "y momentum drift {py}");
}

#[test]
fn overlapping_particles_merge_with_mass_and_area_conserved() {
    let mut sim = Simulation::new();
    sim.spawn_particle_with_mass(wv(0, 0), wv(0, 0), 5, 2 * FP);
    sim.spawn_particle_with_mass(wv(FP, 0), wv(0, 0), 3, 2 * FP);
    sim.update(FP);
    let ps = sim.get_particles();
    // The absorbed particle is dead and culled; one survivor remains.
    assert_eq!(ps.len(), 1);
    let p = ps[0];
    assert_eq!(p.mass, 8);
    // Area conservation: radius = floor(sqrt(r1^2 + r2^2)).
    let r = 2 * FP as i128;
    let expect = (2.0f64 * (r as f64) * (r as f64)).sqrt() as i64;
    assert!((p.radius - expect).abs() <= 1, "radius {} vs {}", p.radius, expect);
    // The heavier particle kept its position.
    assert_eq!(p.pos.x, 0);
    assert_eq!(p.pos.y, 0);
}

#[test]
fn merge_keeps_momentum_weighted_velocity() {
    let mut sim = Simulation::new();
    sim.spawn_particle_with_mass(wv(0, 0), wv(1000, 0), 5, 2 * FP);
    sim.spawn_particle_with_mass(wv(FP, 0), wv(-200, 0), 3, 2 * FP);
    sim.update(FP);
    let ps = sim.get_particles();
    assert_eq!(ps.len(), 1);
    // Momentum-weighted average (5*1000 - 3*200) / 8 = 550, then the
    // merge's force pass and damping act on the survivor.
    assert!(ps[0].vel.x > 0);
    assert!(ps[0].vel.x <= 550);
}

#[test]
fn separated_squares_do_not_collide() {
    // Unit squares of side 10, centred at (0, 0) and (1000, 1000): no
    // contact.
    let a = Square::new(wv(0, 0), 10 * FP);
    let b = Square::new(wv(1000 * FP, 1000 * FP), 10 * FP);
    assert!(a.does_collide(&b).is_none());
    assert!(b.does_collide(&a).is_none());
}

#[test]
fn touching_squares_collide_with_positive_penetration() {
    // Moved to (0, 0) and (5, 5) the same squares overlap by 5 pixels of
    // world depth on each coordinate axis.
    let a = Square::new(wv(0, 0), 10 * FP);
    let b = Square::new(wv(5 * FP, 5 * FP), 10 * FP);
    let hit = a.does_collide(&b).expect("squares overlap");
    assert_eq!(hit.penetration, 5 * FP);
    // The reported normal is the first least-overlap axis at fixed-point
    // unit length, pointing from a towards b.
    assert_eq!((hit.normal.x, hit.normal.y), (0, FP));
    assert!(hit.normal.x * (5 * FP) + hit.normal.y * (5 * FP) >= 0);
}

#[test]
fn sat_verdict_and_penetration_are_symmetric() {
    let a = Square::new(wv(0, 0), 10 * FP);
    let mut b = Square::new(wv(6 * FP, 2 * FP), 8 * FP);
    // Rotate the second square by a 3-4-5 angle; the pair stays truthful
    // in both argument orders.
    let s = 3 * FP / 5;
    let c = 4 * FP / 5;
    b.rotate(s, c);
    let ab = a.does_collide(&b);
    let ba = b.does_collide(&a);
    assert_eq!(ab.is_some(), ba.is_some());
    if let (Some(x), Some(y)) = (ab, ba) {
        assert_eq!(x.penetration, y.penetration);
    }
    // And a clearly separated pair stays separated both ways.
    let far = Square::new(wv(100 * FP, 0), 8 * FP);
    assert!(a.does_collide(&far).is_none());
    assert!(far.does_collide(&a).is_none());
}

#[test]
fn rotation_preserves_the_square_footprint() {
    let mut sq = Square::new(wv(0, 0), 10 * FP);
    // A quarter turn maps the vertex set onto itself.
    sq.rotate(FP, 0);
    let half = 5 * FP;
    let mut seen: Vec<(i64, i64)> = sq.local_vertices.iter().map(|v| (v.x, v.y)).collect();
    seen.sort();
    let mut expect = vec![(-half, -half), (-half, half), (half, -half), (half, half)];
    expect.sort();
    assert_eq!(seen, expect);
}

#[test]
fn rigid_body_integrates_force_and_resets_accumulators() {
    let sq = Square::new(wv(0, 0), 10 * FP);
    let body0 = RigidBody::new(sq, 2, 1, wv(0, 0), wv(0, 0));
    let mut body = body0;
    body.apply_force(wv(4 * FP, 0), wv(0, 0));
    assert_eq!(body.force.x, 4 * FP);
    assert_eq!(body.torque, 0);
    // One second: velocity takes force/mass; the centre follows.
    body.update(FP, 0, FP);
    assert_eq!(body.velocity.x, 2 * FP);
    assert_eq!(body.velocity.y, 0);
    assert_eq!(body.object.centre.x, 2 * FP);
    assert_eq!(body.force.x, 0);
    assert_eq!(body.torque, 0);
}

#[test]
fn off_centre_impulse_adds_torque() {
    let sq = Square::new(wv(0, 0), 10 * FP);
    let mut body = RigidBody::new(sq, 2, 1, wv(0, 0), wv(0, 0));
    // A push along +x applied below the centre spins the body.
    body.apply_force(wv(1000, 0), wv(0, 2 * FP));
    assert!(body.torque != 0);
    body.update(FP, 0, FP);
    assert!(body.angular_velocity != 0);
}

#[test]
fn rect_inertia_is_the_plate_formula() {
    let sq = Square::new(wv(0, 0), 12 * FP);
    let body = RigidBody::new_rect(sq, 6, vec2(4, 2), wv(0, 0), wv(0, 0));
    assert_eq!(body.inertia, 6 * 4 * 2 / 12);
    assert_eq!(body.mass, 6);
}

#[test]
fn simulation_reset_and_clear() {
    let mut sim = Simulation::new();
    sim.reset();
    assert_eq!(sim.get_particles().len(), 2);
    sim.clear();
    assert_eq!(sim.get_particles().len(), 0);
    // The default spawn derives mass from the radius by the engine density.
    sim.spawn_particle(wv(0, 0), wv(0, 0), wv(0, 0), 8 * FP);
    let p = sim.get_particles()[0];
    // 277/1000 mass units per cubic pixel of radius: 8^3 * 0.277 = 141.8.
    assert_eq!(p.mass, 141);
    assert_eq!(p.radius, 8 * FP);
}

#[test]
fn dead_particles_are_culled_before_the_next_pass() {
    let mut sim = Simulation::new();
    sim.particles.push(Particle {
        pos: wv(0, 0),
        vel: wv(0, 0),
        force: wv(0, 0),
        mass: 0,
        radius: 0,
    });
    sim.spawn_particle_with_mass(wv(10 * FP, 0), wv(0, 0), 4, 2 * FP);
    sim.update(FP);
    let ps = sim.get_particles();
    assert_eq!(ps.len(), 1);
    assert_eq!(ps[0].mass, 4);
}
