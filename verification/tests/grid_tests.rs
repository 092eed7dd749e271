use cloth_sim::grid::{generate_cloth, init_particles};
use cloth_sim::types::ConfigError;

const S: i64 = 1_000_000;

#[test]
fn generate_cloth_lays_out_a_flat_grid() {
    let particles = generate_cloth(2, 3, S);
    assert_eq!(particles.len(), 6);
    for row in 0..2usize {
        for col in 0..3usize {
            let p = particles[row * 3 + col];
            assert_eq!(p.position.x, row as i64 * S);
            assert_eq!(p.position.y, col as i64 * S);
            assert_eq!(p.position.z, 0);
            assert_eq!(p.velocity.x, 0);
            assert_eq!(p.velocity.y, 0);
            assert_eq!(p.velocity.z, 0);
        }
    }
}

#[test]
fn init_particles_matches_generate_cloth() {
    let a = init_particles(3, 2, S).unwrap();
    let b = generate_cloth(2, 3, S);
    assert_eq!(a, b);
}

#[test]
fn init_particles_rejects_bad_grids() {
    assert_eq!(init_particles(1, 2, S).unwrap_err(), ConfigError::BadDimensions);
    assert_eq!(init_particles(2, 2, 0).unwrap_err(), ConfigError::NonPositiveSpacing);
    assert_eq!(
        init_particles(2, 2, 2_000_000_000_000).unwrap_err(),
        ConfigError::OutOfRange
    );
    assert_eq!(init_particles(2, 17_000, S).unwrap_err(), ConfigError::OutOfRange);
}
