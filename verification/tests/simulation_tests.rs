use cloth_sim::grid::init_particles;
use cloth_sim::math::LIMIT;
use cloth_sim::runner::ClothRunner;
use cloth_sim::solver::step;
use cloth_sim::topology::build_topology;
use cloth_sim::types::{ConfigError, SimParams, Vec3};

const S: i64 = 1_000_000; // one world unit in raw units

fn vec3(x: i64, y: i64, z: i64) -> Vec3 {
    Vec3 { x, y, z }
}

fn params(dt: i64, gravity: Vec3, mass: i64, center: Vec3, radius: i64) -> SimParams {
    SimParams::new(
        dt,
        gravity,
        mass,
        center,
        radius,
        100 * S, // structural stiffness 100
        100 * S,
        100 * S,
        S, // damping 1
        S,
        S,
    )
    .unwrap()
}

fn dist_sq(a: Vec3, b: Vec3) -> i128 {
    let dx = (a.x - b.x) as i128;
    let dy = (a.y - b.y) as i128;
    let dz = (a.z - b.z) as i128;
    dx * dx + dy * dy + dz * dz
}

#[test]
fn params_validation_names_each_rejection() {
    let g = vec3(0, -9_800_000, 0);
    let o = vec3(0, 0, 0);
    let bad = |r: Result<SimParams, ConfigError>| r.unwrap_err();
    assert_eq!(
        bad(SimParams::new(1000, g, 0, o, 0, S, S, S, 0, 0, 0)),
        ConfigError::NonPositiveMass
    );
    assert_eq!(
        bad(SimParams::new(1000, g, S, o, 0, 0, S, S, 0, 0, 0)),
        ConfigError::NonPositiveStiffness
    );
    assert_eq!(
        bad(SimParams::new(1000, g, S, o, 0, S, S, S, -1, 0, 0)),
        ConfigError::NegativeDamping
    );
    assert_eq!(
        bad(SimParams::new(-1, g, S, o, 0, S, S, S, 0, 0, 0)),
        ConfigError::NegativeDeltaTime
    );
    assert_eq!(
        bad(SimParams::new(1000, g, S, o, -5, S, S, S, 0, 0, 0)),
        ConfigError::NegativeRadius
    );
    assert_eq!(
        bad(SimParams::new(LIMIT + 1, g, S, o, 0, S, S, S, 0, 0, 0)),
        ConfigError::OutOfRange
    );
    // a sphere poking out of the representable range
    assert_eq!(
        bad(SimParams::new(1000, g, S, vec3(LIMIT, 0, 0), 1, S, S, S, 0, 0, 0)),
        ConfigError::OutOfRange
    );
    assert!(SimParams::new(1000, g, S, o, 0, S, S, S, 0, 0, 0).is_ok());
}

#[test]
fn runner_rejects_zero_substep_count() {
    let c = params(1000, vec3(0, 0, 0), S, vec3(0, 0, 0), 0);
    match ClothRunner::new(3, 3, S, c, 0) {
        Ok(_) => panic!("a zero substep count must be rejected"),
        Err(e) => assert_eq!(e, ConfigError::ZeroSubstepCount),
    }
}

#[test]
fn one_substep_under_gravity_falls_straight_down() {
    // a 3 by 3 rest grid, spacing one, gravity (0, -9.8, 0), mass one,
    // dt 0.001: after one substep the centre particle falls straight
    // down, its lateral velocity exactly zero
    let mut particles = init_particles(3, 3, S).unwrap();
    let springs = build_topology(3, 3, S).unwrap();
    let c = params(1000, vec3(0, -9_800_000, 0), S, vec3(0, 0, 0), 0);
    step(&mut particles, &springs, &c, 1);
    let center = particles[4];
    assert!(center.velocity.y < 0);
    assert_eq!(center.velocity.y, -9_800); // -9.8 * 0.001
    assert_eq!(center.velocity.x, 0);
    assert_eq!(center.velocity.z, 0);
    assert_eq!(center.position.x, S);
    assert_eq!(center.position.y, S - 9); // truncated -9.8 raw units
    assert_eq!(center.position.z, 0);
}

#[test]
fn rest_grid_without_gravity_stays_put() {
    // zero velocity, rest-length spacing, no gravity: the spring network
    // is in exact equilibrium, so many substeps move nothing at all
    let mut particles = init_particles(4, 4, S).unwrap();
    let initial = particles.clone();
    let springs = build_topology(4, 4, S).unwrap();
    let c = params(1000, vec3(0, 0, 0), S, vec3(0, 0, -50 * S), 0);
    step(&mut particles, &springs, &c, 100);
    assert_eq!(particles, initial);
}

#[test]
fn step_is_deterministic() {
    let c = params(1000, vec3(0, -9_800_000, 0), S, vec3(0, 0, 0), 0);
    let mut a = init_particles(3, 3, S).unwrap();
    let mut b = init_particles(3, 3, S).unwrap();
    let springs = build_topology(3, 3, S).unwrap();
    step(&mut a, &springs, &c, 7);
    step(&mut b, &springs, &c, 7);
    assert_eq!(a, b);
    // and bit-for-bit across separate topology builds
    let springs2 = build_topology(3, 3, S).unwrap();
    let mut d = init_particles(3, 3, S).unwrap();
    step(&mut d, &springs2, &c, 7);
    assert_eq!(a, d);
}

#[test]
fn collision_projects_particles_back_to_the_surface() {
    // a 2 by 2 rest grid entirely inside a sphere of radius 3 centred on
    // the origin: one substep must push every particle out to the surface
    let radius = 3 * S;
    let mut particles = init_particles(2, 2, S).unwrap();
    let springs = build_topology(2, 2, S).unwrap();
    let c = params(1000, vec3(0, 0, 0), S, vec3(0, 0, 0), radius);
    step(&mut particles, &springs, &c, 1);
    // the particle at the exact centre goes to the surface along +x
    assert_eq!(particles[0].position.x, radius);
    assert_eq!(particles[0].position.y, 0);
    assert_eq!(particles[0].position.z, 0);
    // axis-aligned particles are scaled exactly onto the surface
    assert_eq!(particles[1].position.y, radius); // was (0, 1, 0)
    assert_eq!(particles[2].position.x, radius); // was (1, 0, 0)
    // every particle ends at squared distance at least (radius - 4)^2
    let center = vec3(0, 0, 0);
    let floor = (radius as i128 - 4) * (radius as i128 - 4);
    for p in particles.iter() {
        assert!(dist_sq(p.position, center) >= floor);
        // and lands within a few raw units of the surface
        assert!(dist_sq(p.position, center) <= (radius as i128 + 4) * (radius as i128 + 4));
        // the resting particles gained no velocity from the projection
        assert_eq!(p.velocity.x, 0);
        assert_eq!(p.velocity.y, 0);
        assert_eq!(p.velocity.z, 0);
    }
}

#[test]
fn falling_cloth_never_sinks_into_the_sphere() {
    // a 3 by 3 cloth falls under gravity onto a sphere placed below it;
    // after every frame, no particle is more than four raw units inside
    let radius = 3 * S;
    let center = vec3(S, -4 * S, 0);
    let c = params(0, vec3(0, -9_800_000, 0), S, center, radius);
    let mut runner = ClothRunner::new(3, 3, S, c, 100).unwrap();
    let floor = (radius as i128 - 4) * (radius as i128 - 4);
    let near = (radius as i128 + S as i128) * (radius as i128 + S as i128);
    let mut touched = false;
    for _ in 0..30 {
        runner.update(16_667);
        for p in runner.particles.iter() {
            assert!(dist_sq(p.position, center) >= floor);
        }
        if runner.particles.iter().any(|p| dist_sq(p.position, center) <= near) {
            touched = true;
        }
    }
    // the cloth really did reach the sphere at some point
    assert!(touched);
}

#[test]
fn saturation_defends_against_blowup() {
    // an absurd delta-time and a tiny mass drive the update far past the
    // representable range: the solver clamps instead of overflowing
    let g = vec3(0, -LIMIT, 0);
    let c = SimParams::new(LIMIT, g, 1, vec3(0, 0, 0), 0, S, S, S, 0, 0, 0).unwrap();
    let mut particles = init_particles(2, 2, S).unwrap();
    let springs = build_topology(2, 2, S).unwrap();
    step(&mut particles, &springs, &c, 1);
    for p in particles.iter() {
        assert_eq!(p.velocity.y, -LIMIT);
        assert_eq!(p.position.y, -LIMIT);
    }
}

#[test]
fn runner_splits_the_frame_into_substeps() {
    let c = params(0, vec3(0, -9_800_000, 0), S, vec3(0, 0, 0), 0);
    let mut runner = ClothRunner::new(3, 3, S, c, 500).unwrap();
    runner.update(16_667); // one 60 Hz frame, in raw seconds
    assert_eq!(runner.params.dt, 33); // 16667 / 500, truncated
    let center = runner.particles[4];
    // uniform free fall: every substep adds -9.8 * 0.000033
    assert_eq!(center.velocity.y, -323 * 500);
    assert_eq!(center.velocity.x, 0);
    assert_eq!(center.velocity.z, 0);
    assert!(center.position.y < S);
}
