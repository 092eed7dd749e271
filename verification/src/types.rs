//! The simulation's data model: vectors, particles, springs and the shared
//! simulation parameters, with their validity predicates.

use vstd::prelude::*;
use crate::math::{iabs, LIMIT};

verus! {

/// A three-component fixed-point vector.
#[derive(Clone, Copy, Debug, PartialEq, Eq, Structural)]
pub struct Vec3 {
    pub x: i64,
    pub y: i64,
    pub z: i64,
}

/// One point mass of the cloth grid.
#[derive(Clone, Copy, Debug, PartialEq, Eq, Structural)]
pub struct Particle {
    pub position: Vec3,
    pub velocity: Vec3,
}

/// The three families of constraints of a mass-spring cloth.
#[derive(Clone, Copy, Debug, PartialEq, Eq, Structural)]
pub enum SpringKind {
    /// Axis-adjacent neighbours at grid distance one (also called
    /// structural springs).
    Stretch,
    /// Diagonal neighbours.
    Shear,
    /// Second axis neighbours at grid distance two.
    Bend,
}

/// A constraint between two particles. `index2` set to the particle count
/// (one past the last valid index) is the sentinel for "no neighbour in this
/// direction"; such a spring contributes no force.
#[derive(Clone, Copy, Debug, PartialEq, Eq, Structural)]
pub struct Spring {
    pub index1: usize,
    pub index2: usize,
    pub rest_length: i64,
    pub kind: SpringKind,
}

/// The shared, read-only parameters of one frame's substeps.
#[derive(Clone, Copy, Debug, PartialEq, Eq, Structural)]
pub struct SimParams {
    /// Per-substep time delta.
    pub dt: i64,
    /// Gravitational acceleration.
    pub gravity: Vec3,
    /// Mass of a single particle.
    pub mass: i64,
    pub sphere_center: Vec3,
    pub sphere_radius: i64,
    pub structural_stiffness: i64,
    pub shear_stiffness: i64,
    pub bend_stiffness: i64,
    pub structural_damping: i64,
    pub shear_damping: i64,
    pub bend_damping: i64,
}

/// The conditions a configuration is rejected for at setup.
#[derive(Clone, Copy, Debug, PartialEq, Eq, Structural)]
pub enum ConfigError {
    /// Grid dimensions below two by two.
    BadDimensions,
    NonPositiveSpacing,
    NonPositiveMass,
    NonPositiveStiffness,
    NegativeDamping,
    NegativeDeltaTime,
    NegativeRadius,
    ZeroSubstepCount,
    /// A magnitude beyond the representable fixed-point range.
    OutOfRange,
}

impl Particle {
    pub fn new(x: i64, y: i64, z: i64, vx: i64, vy: i64, vz: i64) -> (p: Particle)
        ensures
            p == (Particle {
                position: Vec3 { x, y, z },
                velocity: Vec3 { x: vx, y: vy, z: vz },
            }),
    {
        Particle { position: Vec3 { x, y, z }, velocity: Vec3 { x: vx, y: vy, z: vz } }
    }
}

/// The components of a vector as unbounded integers.
pub open spec fn v3(v: Vec3) -> (int, int, int) {
    (v.x as int, v.y as int, v.z as int)
}

pub open spec fn add3(a: (int, int, int), b: (int, int, int)) -> (int, int, int) {
    (a.0 + b.0, a.1 + b.1, a.2 + b.2)
}

pub open spec fn sub3(a: (int, int, int), b: (int, int, int)) -> (int, int, int) {
    (a.0 - b.0, a.1 - b.1, a.2 - b.2)
}

pub open spec fn dot3(a: (int, int, int), b: (int, int, int)) -> int {
    a.0 * b.0 + a.1 * b.1 + a.2 * b.2
}

/// Squared Euclidean norm.
pub open spec fn norm2(d: (int, int, int)) -> int {
    dot3(d, d)
}

pub open spec fn coord_ok(x: i64) -> bool {
    -(LIMIT as int) <= x as int <= LIMIT as int
}

pub open spec fn vec3_ok(v: Vec3) -> bool {
    coord_ok(v.x) && coord_ok(v.y) && coord_ok(v.z)
}

/// Positions and velocities within the representable range.
pub open spec fn particle_ok(p: Particle) -> bool {
    vec3_ok(p.position) && vec3_ok(p.velocity)
}

pub open spec fn particles_ok(ps: Seq<Particle>) -> bool {
    forall|i: int| 0 <= i < ps.len() ==> particle_ok(#[trigger] ps[i])
}

/// A spring list usable with a buffer of `n` particles: twelve spring slots
/// per particle, every rest length in range.
pub open spec fn springs_wf(springs: Seq<Spring>, n: int) -> bool {
    &&& springs.len() == 12 * n
    &&& forall|k: int|
        0 <= k < springs.len() ==> 0 <= (#[trigger] springs[k]).rest_length as int <= LIMIT as int
}

/// The validity of a parameter record: positive mass and stiffness, small
/// enough magnitudes, and a sphere that fits inside the coordinate range.
pub open spec fn params_ok(c: SimParams) -> bool {
    &&& 0 <= c.dt as int <= LIMIT as int
    &&& vec3_ok(c.gravity)
    &&& 1 <= c.mass as int <= LIMIT as int
    &&& 1 <= c.structural_stiffness as int <= LIMIT as int
    &&& 1 <= c.shear_stiffness as int <= LIMIT as int
    &&& 1 <= c.bend_stiffness as int <= LIMIT as int
    &&& 0 <= c.structural_damping as int <= LIMIT as int
    &&& 0 <= c.shear_damping as int <= LIMIT as int
    &&& 0 <= c.bend_damping as int <= LIMIT as int
    &&& 0 <= c.sphere_radius as int
    &&& iabs(c.sphere_center.x as int) + c.sphere_radius as int <= LIMIT as int
    &&& iabs(c.sphere_center.y as int) + c.sphere_radius as int <= LIMIT as int
    &&& iabs(c.sphere_center.z as int) + c.sphere_radius as int <= LIMIT as int
}

/// The first reason a parameter record is rejected for, if any.
pub open spec fn params_error(c: SimParams) -> Option<ConfigError> {
    if c.mass <= 0 {
        Some(ConfigError::NonPositiveMass)
    } else if c.structural_stiffness <= 0 || c.shear_stiffness <= 0 || c.bend_stiffness <= 0 {
        Some(ConfigError::NonPositiveStiffness)
    } else if c.structural_damping < 0 || c.shear_damping < 0 || c.bend_damping < 0 {
        Some(ConfigError::NegativeDamping)
    } else if c.dt < 0 {
        Some(ConfigError::NegativeDeltaTime)
    } else if c.sphere_radius < 0 {
        Some(ConfigError::NegativeRadius)
    } else if !params_ok(c) {
        Some(ConfigError::OutOfRange)
    } else {
        None
    }
}

impl SimParams {
    /// Validate and build a parameter record; every rejection is named by
    /// the error, and a returned record is valid.
    pub fn new(
        dt: i64,
        gravity: Vec3,
        mass: i64,
        sphere_center: Vec3,
        sphere_radius: i64,
        structural_stiffness: i64,
        shear_stiffness: i64,
        bend_stiffness: i64,
        structural_damping: i64,
        shear_damping: i64,
        bend_damping: i64,
    ) -> (r: Result<SimParams, ConfigError>)
        ensures
            ({
                let c = SimParams {
                    dt,
                    gravity,
                    mass,
                    sphere_center,
                    sphere_radius,
                    structural_stiffness,
                    shear_stiffness,
                    bend_stiffness,
                    structural_damping,
                    shear_damping,
                    bend_damping,
                };
                match r {
                    Ok(q) => q == c && params_error(c) is None && params_ok(c),
                    Err(e) => params_error(c) == Some(e),
                }
            }),
    {
        let c = SimParams {
            dt,
            gravity,
            mass,
            sphere_center,
            sphere_radius,
            structural_stiffness,
            shear_stiffness,
            bend_stiffness,
            structural_damping,
            shear_damping,
            bend_damping,
        };
        if mass <= 0 {
            return Err(ConfigError::NonPositiveMass);
        }
        if structural_stiffness <= 0 || shear_stiffness <= 0 || bend_stiffness <= 0 {
            return Err(ConfigError::NonPositiveStiffness);
        }
        if structural_damping < 0 || shear_damping < 0 || bend_damping < 0 {
            return Err(ConfigError::NegativeDamping);
        }
        if dt < 0 {
            return Err(ConfigError::NegativeDeltaTime);
        }
        if sphere_radius < 0 {
            return Err(ConfigError::NegativeRadius);
        }
        if dt > LIMIT || mass > LIMIT {
            return Err(ConfigError::OutOfRange);
        }
        if gravity.x < -LIMIT || gravity.x > LIMIT || gravity.y < -LIMIT || gravity.y > LIMIT
            || gravity.z < -LIMIT || gravity.z > LIMIT {
            return Err(ConfigError::OutOfRange);
        }
        if structural_stiffness > LIMIT || shear_stiffness > LIMIT || bend_stiffness > LIMIT {
            return Err(ConfigError::OutOfRange);
        }
        if structural_damping > LIMIT || shear_damping > LIMIT || bend_damping > LIMIT {
            return Err(ConfigError::OutOfRange);
        }
        if sphere_radius > LIMIT {
            return Err(ConfigError::OutOfRange);
        }
        if sphere_center.x < -LIMIT || sphere_center.x > LIMIT || sphere_center.y < -LIMIT
            || sphere_center.y > LIMIT || sphere_center.z < -LIMIT || sphere_center.z > LIMIT {
            return Err(ConfigError::OutOfRange);
        }
        let cx: i64 = if sphere_center.x >= 0 {
            sphere_center.x
        } else {
            -sphere_center.x
        };
        let cy: i64 = if sphere_center.y >= 0 {
            sphere_center.y
        } else {
            -sphere_center.y
        };
        let cz: i64 = if sphere_center.z >= 0 {
            sphere_center.z
        } else {
            -sphere_center.z
        };
        if cx > LIMIT - sphere_radius || cy > LIMIT - sphere_radius || cz > LIMIT - sphere_radius {
            return Err(ConfigError::OutOfRange);
        }
        Ok(c)
    }
}

} // verus!
