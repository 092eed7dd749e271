use cloth_sim::topology::build_topology;
use cloth_sim::types::{ConfigError, Spring, SpringKind};

const S: i64 = 1_000_000; // spacing of one world unit, in raw units

#[test]
fn fixed_fanout_twelve_slots_per_particle() {
    for (w, h) in [(2usize, 2usize), (3, 3), (4, 2), (5, 7)] {
        let springs = build_topology(w, h, S).unwrap();
        assert_eq!(springs.len(), 12 * w * h);
        for i in 0..w * h {
            for t in 0..12 {
                assert_eq!(springs[12 * i + t].index1, i);
            }
        }
    }
}

#[test]
fn symmetry_every_edge_from_both_endpoints() {
    let (w, h) = (4usize, 3usize);
    let n = w * h;
    let springs = build_topology(w, h, S).unwrap();
    for sp in springs.iter() {
        if sp.index2 < n {
            let twin = springs.iter().find(|o| {
                o.index1 == sp.index2 && o.index2 == sp.index1 && o.kind == sp.kind
                    && o.rest_length == sp.rest_length
            });
            assert!(twin.is_some());
        }
    }
}

#[test]
fn rest_lengths_of_interior_springs() {
    let springs = build_topology(3, 3, S).unwrap();
    // particle 0 sits at grid position (0, 0); slots 1, 7 and 9 reach the
    // right, lower-right and right-by-two neighbours.
    let right: Spring = springs[12 * 0 + 1];
    assert_eq!(right.kind, SpringKind::Stretch);
    assert_eq!(right.index2, 1);
    assert_eq!(right.rest_length, 1_000_000);
    let diagonal: Spring = springs[12 * 0 + 7];
    assert_eq!(diagonal.kind, SpringKind::Shear);
    assert_eq!(diagonal.index2, 4);
    assert_eq!(diagonal.rest_length, 1_414_213); // floor(10^6 * sqrt(2))
    let bend: Spring = springs[12 * 0 + 9];
    assert_eq!(bend.kind, SpringKind::Bend);
    assert_eq!(bend.index2, 2);
    assert_eq!(bend.rest_length, 2_000_000);
}

#[test]
fn sentinel_pads_the_boundary() {
    let springs = build_topology(2, 2, S).unwrap();
    let sentinel = 4usize; // one past the last valid particle index
    // the corner particle 0 has two real stretch neighbours, one real
    // shear neighbour, and no bend neighbour at all on a 2 by 2 grid
    let mine: Vec<Spring> = springs[0..12].to_vec();
    let real = mine.iter().filter(|sp| sp.index2 < 4).count();
    let padded = mine.iter().filter(|sp| sp.index2 == sentinel).count();
    assert_eq!(real, 3);
    assert_eq!(padded, 9);
    // no slot ever points past the sentinel
    for sp in springs.iter() {
        assert!(sp.index2 <= sentinel);
    }
}

#[test]
fn topology_rejects_bad_grids() {
    assert_eq!(build_topology(1, 5, S).unwrap_err(), ConfigError::BadDimensions);
    assert_eq!(build_topology(5, 0, S).unwrap_err(), ConfigError::BadDimensions);
    assert_eq!(build_topology(3, 3, 0).unwrap_err(), ConfigError::NonPositiveSpacing);
    assert_eq!(build_topology(3, 3, -7).unwrap_err(), ConfigError::NonPositiveSpacing);
    assert_eq!(build_topology(20_000, 3, S).unwrap_err(), ConfigError::OutOfRange);
    assert_eq!(
        build_topology(3, 3, 600_000_000_000).unwrap_err(),
        ConfigError::OutOfRange
    );
}
