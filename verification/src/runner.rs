//! The frame driver: owns the particle buffer, the spring topology and the
//! shared parameters, and advances the cloth by one rendered frame at a
//! time — the frame's elapsed time divided into a fixed number of small
//! substeps, for numerical stability.

use vstd::prelude::*;
use crate::grid::{check_grid, grid_error, grid_seq, init_particles, lemma_grid_particles_ok};
use crate::math::LIMIT;
use crate::solver::{run_substeps, step};
use crate::topology::{build_topology, lemma_topology_wf, topology_seq};
use crate::types::{
    params_error, params_ok, particles_ok, springs_wf, ConfigError, Particle, SimParams, Spring,
};

verus! {

/// The parameter record of the next frame: the same configuration with a
/// new per-substep time delta.
pub open spec fn with_dt(c: SimParams, dt: i64) -> SimParams {
    SimParams { dt, ..c }
}

/// The first reason a whole simulation setup is rejected for, if any:
/// the grid, then the parameters, then the substep count.
pub open spec fn runner_error(
    width: int,
    height: int,
    spacing: int,
    params: SimParams,
    substep_count: u32,
) -> Option<ConfigError> {
    if grid_error(width, height, spacing) is Some {
        grid_error(width, height, spacing)
    } else if params_error(params) is Some {
        params_error(params)
    } else if substep_count == 0 {
        Some(ConfigError::ZeroSubstepCount)
    } else {
        None
    }
}

/// The simulation driver: particle buffer, immutable spring topology,
/// shared parameters and the fixed per-frame substep count.
pub struct ClothRunner {
    pub particles: Vec<Particle>,
    pub springs: Vec<Spring>,
    pub params: SimParams,
    pub substep_count: u32,
}

impl ClothRunner {
    /// The driver's invariant: valid parameters, a spring list shaped for
    /// the particle buffer, every particle in range, and at least one
    /// substep per frame.
    pub open spec fn wf(self) -> bool {
        &&& params_ok(self.params)
        &&& springs_wf(self.springs@, self.particles@.len() as int)
        &&& particles_ok(self.particles@)
        &&& self.substep_count >= 1
    }

    /// Validate a whole setup and build the driver: the rest grid, its
    /// spring topology, and the frame parameters. Every rejection is
    /// named by the error; a returned driver satisfies the invariant.
    pub fn new(
        width: usize,
        height: usize,
        spacing: i64,
        params: SimParams,
        substep_count: u32,
    ) -> (r: Result<ClothRunner, ConfigError>)
        ensures
            ({
                match r {
                    Ok(runner) => {
                        &&& runner_error(
                            width as int,
                            height as int,
                            spacing as int,
                            params,
                            substep_count,
                        ) is None
                        &&& runner.wf()
                        &&& runner.particles@ == grid_seq(
                            width as int,
                            height as int,
                            spacing as int,
                        )
                        &&& runner.springs@ == topology_seq(
                            width as int,
                            height as int,
                            spacing as int,
                        )
                        &&& runner.params == params
                        &&& runner.substep_count == substep_count
                    },
                    Err(e) => runner_error(
                        width as int,
                        height as int,
                        spacing as int,
                        params,
                        substep_count,
                    ) == Some(e),
                }
            }),
    {
        if let Some(e) = check_grid(width, height, spacing) {
            return Err(e);
        }
        let checked = SimParams::new(
            params.dt,
            params.gravity,
            params.mass,
            params.sphere_center,
            params.sphere_radius,
            params.structural_stiffness,
            params.shear_stiffness,
            params.bend_stiffness,
            params.structural_damping,
            params.shear_damping,
            params.bend_damping,
        );
        if let Err(e) = checked {
            return Err(e);
        }
        if substep_count == 0 {
            return Err(ConfigError::ZeroSubstepCount);
        }
        let particles = match init_particles(width, height, spacing) {
            Ok(v) => v,
            Err(e) => {
                return Err(e);
            },
        };
        let springs = match build_topology(width, height, spacing) {
            Ok(v) => v,
            Err(e) => {
                return Err(e);
            },
        };
        proof {
            lemma_grid_particles_ok(width as int, height as int, spacing as int);
            lemma_topology_wf(width as int, height as int, spacing as int);
        }
        Ok(ClothRunner { particles, springs, params, substep_count })
    }

    /// Advance the simulation by one rendered frame: the frame's elapsed
    /// time is split into `substep_count` equal substeps, the shared
    /// parameters are refreshed with that per-substep delta, and the
    /// substeps run strictly in sequence on the particle buffer.
    pub fn update(&mut self, frame_dt: i64)
        requires
            old(self).wf(),
            0 <= frame_dt <= LIMIT,
        ensures
            final(self).wf(),
            final(self).springs == old(self).springs,
            final(self).substep_count == old(self).substep_count,
            final(self).params == with_dt(
                old(self).params,
                ((frame_dt as int) / (old(self).substep_count as int)) as i64,
            ),
            final(self).particles@ == run_substeps(
                old(self).particles@,
                old(self).springs@,
                final(self).params,
                old(self).substep_count as nat,
            ),
    {
        let dt: i64 = ((frame_dt as u64) / (self.substep_count as u64)) as i64;
        self.params.dt = dt;
        step(&mut self.particles, &self.springs, &self.params, self.substep_count);
    }
}

} // verus!
