//! The force accumulator: per substep, the net force on every particle
//! from gravity plus the elastic and damping contribution of its twelve
//! spring slots.

use vstd::prelude::*;
use crate::math::{
    div_trunc, iabs, isqrt, lemma_abs_mul_le, lemma_component_le_norm, lemma_quotient_bound,
    mul_div, sqrt_floor, tdiv, LIMIT, SCALE,
};
use crate::types::{
    dot3, norm2, params_ok, particle_ok, particles_ok, springs_wf, sub3, v3, Particle, SimParams,
    Spring, SpringKind,
};

verus! {

/// Magnitude bound on a single spring's force contribution.
pub const SPRING_FORCE_MAX: i128 = 11_000_000_000_000_000_000;

/// Magnitude bound on the gravity term.
pub const GRAVITY_FORCE_MAX: i128 = 1_000_000_000_000_000_000;

/// Magnitude bound on the net force of a particle: gravity plus twelve
/// spring contributions.
pub const FORCE_MAX: i128 = 200_000_000_000_000_000_000;

pub open spec fn stiffness_of(c: SimParams, k: SpringKind) -> int {
    match k {
        SpringKind::Stretch => c.structural_stiffness as int,
        SpringKind::Shear => c.shear_stiffness as int,
        SpringKind::Bend => c.bend_stiffness as int,
    }
}

pub open spec fn damping_of(c: SimParams, k: SpringKind) -> int {
    match k {
        SpringKind::Stretch => c.structural_damping as int,
        SpringKind::Shear => c.shear_damping as int,
        SpringKind::Bend => c.bend_damping as int,
    }
}

/// The force a spring exerts on particle `pi` toward (or away from) its
/// neighbour `pj`: Hooke's elastic term `stiff * (len - rest)` along the
/// spring axis, minus axial damping `damp` times the relative velocity of
/// `pi` with respect to `pj` projected on the axis. A spring of zero
/// length contributes nothing.
pub open spec fn spring_force(pi: Particle, pj: Particle, rest: int, stiff: int, damp: int) -> (
    int,
    int,
    int,
) {
    let d = sub3(v3(pj.position), v3(pi.position));
    let len = sqrt_floor(norm2(d) as nat) as int;
    if len == 0 {
        (0, 0, 0)
    } else {
        let ce = tdiv(stiff * (len - rest), SCALE as int);
        let rel = sub3(v3(pi.velocity), v3(pj.velocity));
        let rs = tdiv(dot3(rel, d), len);
        let cd = tdiv(damp * rs, SCALE as int);
        let co = ce - cd;
        (tdiv(co * d.0, len), tdiv(co * d.1, len), tdiv(co * d.2, len))
    }
}

/// The gravity term of the net force: particle mass times the
/// gravitational acceleration.
pub open spec fn gravity_force(c: SimParams) -> (int, int, int) {
    (
        tdiv(c.mass * c.gravity.x, SCALE as int),
        tdiv(c.mass * c.gravity.y, SCALE as int),
        tdiv(c.mass * c.gravity.z, SCALE as int),
    )
}

/// The contribution of spring slot `t` of particle `i`: zero for a
/// sentinel slot, the spring force toward the stored neighbour otherwise.
pub open spec fn slot_force(
    ps: Seq<Particle>,
    springs: Seq<Spring>,
    c: SimParams,
    i: int,
    t: int,
) -> (int, int, int) {
    let sp = springs[12 * i + t];
    if (sp.index2 as int) < ps.len() {
        spring_force(
            ps[i],
            ps[sp.index2 as int],
            sp.rest_length as int,
            stiffness_of(c, sp.kind),
            damping_of(c, sp.kind),
        )
    } else {
        (0, 0, 0)
    }
}

/// Gravity plus the contributions of the first `t` spring slots of
/// particle `i`.
pub open spec fn force_prefix(
    ps: Seq<Particle>,
    springs: Seq<Spring>,
    c: SimParams,
    i: int,
    t: int,
) -> (int, int, int)
    decreases t,
{
    if t <= 0 {
        gravity_force(c)
    } else {
        let f = force_prefix(ps, springs, c, i, t - 1);
        let g = slot_force(ps, springs, c, i, t - 1);
        (f.0 + g.0, f.1 + g.1, f.2 + g.2)
    }
}

/// The net force on particle `i`: gravity plus all twelve spring slots.
pub open spec fn net_force(ps: Seq<Particle>, springs: Seq<Spring>, c: SimParams, i: int) -> (
    int,
    int,
    int,
) {
    force_prefix(ps, springs, c, i, 12)
}

/// One spring's force contribution on `pi`, exactly as `spring_force`
/// states it, with its magnitude bounded.
fn eval_spring(pi: &Particle, pj: &Particle, rest: i64, stiff: i64, damp: i64) -> (f: (
    i128,
    i128,
    i128,
))
    requires
        particle_ok(*pi),
        particle_ok(*pj),
        0 <= rest as int <= LIMIT as int,
        0 <= stiff as int <= LIMIT as int,
        0 <= damp as int <= LIMIT as int,
    ensures
        (f.0 as int, f.1 as int, f.2 as int) == spring_force(
            *pi,
            *pj,
            rest as int,
            stiff as int,
            damp as int,
        ),
        iabs(f.0 as int) <= SPRING_FORCE_MAX as int,
        iabs(f.1 as int) <= SPRING_FORCE_MAX as int,
        iabs(f.2 as int) <= SPRING_FORCE_MAX as int,
{
    let dx: i64 = pj.position.x - pi.position.x;
    let dy: i64 = pj.position.y - pi.position.y;
    let dz: i64 = pj.position.z - pi.position.z;
    proof {
        lemma_abs_mul_le(dx as int, dx as int, 2 * LIMIT as int, 2 * LIMIT as int);
        lemma_abs_mul_le(dy as int, dy as int, 2 * LIMIT as int, 2 * LIMIT as int);
        lemma_abs_mul_le(dz as int, dz as int, 2 * LIMIT as int, 2 * LIMIT as int);
        assert((dx as int) * (dx as int) >= 0 && (dy as int) * (dy as int) >= 0 && (dz as int)
            * (dz as int) >= 0) by (nonlinear_arith);
    }
    let qx: i128 = (dx as i128) * (dx as i128);
    let qy: i128 = (dy as i128) * (dy as i128);
    let qz: i128 = (dz as i128) * (dz as i128);
    let q: i128 = qx + qy + qz;
    let lenw: u128 = isqrt(q as u128);
    proof {
        if lenw as int > 4 * LIMIT as int {
            assert(false) by (nonlinear_arith)
                requires
                    (lenw as int) * (lenw as int) <= q as int,
                    q as int <= 12_000_000_000_000_000_000_000_000int,
                    lenw as int > 4_000_000_000_000int,
            ;
        }
    }
    let len: i128 = lenw as i128;
    let ghost d = sub3(v3(pj.position), v3(pi.position));
    proof {
        assert(norm2(d) == q as int);
        lemma_component_le_norm(d.0, q as int, len as int);
        lemma_component_le_norm(d.1, q as int, len as int);
        lemma_component_le_norm(d.2, q as int, len as int);
    }
    if len == 0 {
        return (0, 0, 0);
    }
    let diff: i128 = len - (rest as i128);
    proof {
        lemma_abs_mul_le(stiff as int, diff as int, LIMIT as int, 5 * LIMIT as int);
    }
    let ce: i128 = mul_div(stiff as i128, diff, SCALE as i128);
    proof {
        lemma_quotient_bound(
            ce as int,
            (stiff as int) * (diff as int),
            SCALE as int,
            5_000_000_000_000_000_000int,
        );
    }
    let rx: i64 = pi.velocity.x - pj.velocity.x;
    let ry: i64 = pi.velocity.y - pj.velocity.y;
    let rz: i64 = pi.velocity.z - pj.velocity.z;
    proof {
        lemma_abs_mul_le(rx as int, d.0, 2 * LIMIT as int, len as int);
        lemma_abs_mul_le(ry as int, d.1, 2 * LIMIT as int, len as int);
        lemma_abs_mul_le(rz as int, d.2, 2 * LIMIT as int, len as int);
    }
    let dot: i128 = (rx as i128) * (dx as i128) + (ry as i128) * (dy as i128) + (rz as i128)
        * (dz as i128);
    let rs: i128 = div_trunc(dot, len);
    proof {
        lemma_quotient_bound(rs as int, dot as int, len as int, 6 * LIMIT as int);
        lemma_abs_mul_le(damp as int, rs as int, LIMIT as int, 6 * LIMIT as int);
    }
    let cd: i128 = mul_div(damp as i128, rs, SCALE as i128);
    proof {
        lemma_quotient_bound(
            cd as int,
            (damp as int) * (rs as int),
            SCALE as int,
            6_000_000_000_000_000_000int,
        );
    }
    let co: i128 = ce - cd;
    proof {
        lemma_abs_mul_le(co as int, d.0, SPRING_FORCE_MAX as int, len as int);
        lemma_abs_mul_le(co as int, d.1, SPRING_FORCE_MAX as int, len as int);
        lemma_abs_mul_le(co as int, d.2, SPRING_FORCE_MAX as int, len as int);
    }
    let fx: i128 = mul_div(co, dx as i128, len);
    let fy: i128 = mul_div(co, dy as i128, len);
    let fz: i128 = mul_div(co, dz as i128, len);
    proof {
        lemma_quotient_bound(
            fx as int,
            (co as int) * (d.0),
            len as int,
            SPRING_FORCE_MAX as int,
        );
        lemma_quotient_bound(
            fy as int,
            (co as int) * (d.1),
            len as int,
            SPRING_FORCE_MAX as int,
        );
        lemma_quotient_bound(
            fz as int,
            (co as int) * (d.2),
            len as int,
            SPRING_FORCE_MAX as int,
        );
    }
    (fx, fy, fz)
}

/// The net force on particle `i` of the buffer: gravity plus the twelve
/// spring slots of `i`, exactly as `net_force` states it, with its
/// magnitude bounded.
pub fn compute_force(
    particles: &Vec<Particle>,
    springs: &Vec<Spring>,
    params: &SimParams,
    i: usize,
) -> (f: (i128, i128, i128))
    requires
        particles_ok(particles@),
        springs_wf(springs@, particles@.len() as int),
        params_ok(*params),
        i < particles@.len(),
    ensures
        (f.0 as int, f.1 as int, f.2 as int) == net_force(particles@, springs@, *params, i as int),
        iabs(f.0 as int) <= FORCE_MAX as int,
        iabs(f.1 as int) <= FORCE_MAX as int,
        iabs(f.2 as int) <= FORCE_MAX as int,
{
    proof {
        lemma_abs_mul_le(params.mass as int, params.gravity.x as int, LIMIT as int, LIMIT as int);
        lemma_abs_mul_le(params.mass as int, params.gravity.y as int, LIMIT as int, LIMIT as int);
        lemma_abs_mul_le(params.mass as int, params.gravity.z as int, LIMIT as int, LIMIT as int);
    }
    let mut fx: i128 = mul_div(params.mass as i128, params.gravity.x as i128, SCALE as i128);
    let mut fy: i128 = mul_div(params.mass as i128, params.gravity.y as i128, SCALE as i128);
    let mut fz: i128 = mul_div(params.mass as i128, params.gravity.z as i128, SCALE as i128);
    proof {
        lemma_quotient_bound(
            fx as int,
            (params.mass as int) * (params.gravity.x as int),
            SCALE as int,
            GRAVITY_FORCE_MAX as int,
        );
        lemma_quotient_bound(
            fy as int,
            (params.mass as int) * (params.gravity.y as int),
            SCALE as int,
            GRAVITY_FORCE_MAX as int,
        );
        lemma_quotient_bound(
            fz as int,
            (params.mass as int) * (params.gravity.z as int),
            SCALE as int,
            GRAVITY_FORCE_MAX as int,
        );
    }
    let mut t: usize = 0;
    while t < 12
        invariant
            t <= 12,
            i < particles@.len(),
            particles_ok(particles@),
            springs_wf(springs@, particles@.len() as int),
            params_ok(*params),
            (fx as int, fy as int, fz as int) == force_prefix(
                particles@,
                springs@,
                *params,
                i as int,
                t as int,
            ),
            iabs(fx as int) <= GRAVITY_FORCE_MAX as int + t * SPRING_FORCE_MAX as int,
            iabs(fy as int) <= GRAVITY_FORCE_MAX as int + t * SPRING_FORCE_MAX as int,
            iabs(fz as int) <= GRAVITY_FORCE_MAX as int + t * SPRING_FORCE_MAX as int,
        decreases 12 - t,
    {
        let slen: usize = springs.len();
        proof {
            assert(12 * (i as int) + (t as int) < 12 * (particles@.len() as int))
                by (nonlinear_arith)
                requires
                    0 <= (i as int) < (particles@.len() as int),
                    0 <= (t as int) < 12,
            ;
            assert(slen as int == 12 * (particles@.len() as int));
        }
        let k: usize = 12 * i + t;
        let sp = springs[k];
        if sp.index2 < particles.len() {
            let (stiff, damp) = match sp.kind {
                SpringKind::Stretch => (params.structural_stiffness, params.structural_damping),
                SpringKind::Shear => (params.shear_stiffness, params.shear_damping),
                SpringKind::Bend => (params.bend_stiffness, params.bend_damping),
            };
            let g = eval_spring(&particles[i], &particles[sp.index2], sp.rest_length, stiff, damp);
            fx = fx + g.0;
            fy = fy + g.1;
            fz = fz + g.2;
        }
        t = t + 1;
    }
    (fx, fy, fz)
}

} // verus!
