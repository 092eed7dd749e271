//! The substep driver: one substep is a full force-accumulation pass over
//! every particle followed by a full integration pass — the integrator
//! only ever reads forces computed from the previous state — and one
//! frame's step is a fixed number of substeps run back to back.

use vstd::prelude::*;
use vstd::arithmetic::div_mod::{lemma_div_of0, lemma_fundamental_div_mod_converse};
use vstd::arithmetic::mul::lemma_mul_nonnegative;
use crate::math::{
    iabs, lemma_sqrt_floor_bounds, lemma_sqrt_of_four_squares, lemma_sqrt_of_square, sqrt_floor,
    SCALE,
};
use crate::forces::{
    compute_force, damping_of, force_prefix, net_force, slot_force, spring_force, stiffness_of,
    FORCE_MAX,
};
use crate::grid::{grid_error, grid_particle, grid_seq, lemma_grid_particle_coords};
use crate::integrate::{integrate_particle, integrate_step, resolve_collision};
use crate::topology::{
    lemma_shear_rest_range, lemma_slot_offset_norm, rest_of, slot_kind, slot_offset, spring_at,
    topology_seq,
};
use crate::types::{
    norm2, params_ok, particle_ok, particles_ok, springs_wf, sub3, v3, Particle, SimParams, Spring,
    SpringKind, Vec3,
};

verus! {

/// One substep of the whole buffer: every particle is integrated under
/// the net force computed from the previous state — the two passes are
/// barrier-separated, no particle ever sees a neighbour's new state.
pub open spec fn substep_state(ps: Seq<Particle>, springs: Seq<Spring>, c: SimParams) -> Seq<
    Particle,
> {
    Seq::new(ps.len(), |i: int| integrate_particle(ps[i], net_force(ps, springs, c, i), c))
}

/// `n` substeps run strictly in sequence.
pub open spec fn run_substeps(ps: Seq<Particle>, springs: Seq<Spring>, c: SimParams, n: nat) -> Seq<
    Particle,
>
    decreases n,
{
    if n == 0 {
        ps
    } else {
        substep_state(run_substeps(ps, springs, c, (n - 1) as nat), springs, c)
    }
}

/// One exec substep: force pass, then integration pass, in place.
pub fn substep(particles: &mut Vec<Particle>, springs: &Vec<Spring>, params: &SimParams)
    requires
        params_ok(*params),
        springs_wf(springs@, old(particles)@.len() as int),
        particles_ok(old(particles)@),
    ensures
        final(particles)@ == substep_state(old(particles)@, springs@, *params),
        final(particles)@.len() == old(particles)@.len(),
        particles_ok(final(particles)@),
{
    let n: usize = particles.len();
    let mut forces: Vec<(i128, i128, i128)> = Vec::new();
    let mut i: usize = 0;
    while i < n
        invariant
            i <= n,
            n == particles@.len(),
            particles@ == old(particles)@,
            params_ok(*params),
            springs_wf(springs@, particles@.len() as int),
            particles_ok(particles@),
            forces@.len() == i,
            forall|j: int|
                0 <= j < i ==> {
                    let f = #[trigger] forces@[j];
                    &&& (f.0 as int, f.1 as int, f.2 as int) == net_force(
                        particles@,
                        springs@,
                        *params,
                        j,
                    )
                    &&& iabs(f.0 as int) <= FORCE_MAX as int
                    &&& iabs(f.1 as int) <= FORCE_MAX as int
                    &&& iabs(f.2 as int) <= FORCE_MAX as int
                },
        decreases n - i,
    {
        let f = compute_force(particles, springs, params, i);
        forces.push(f);
        i = i + 1;
    }
    let mut k: usize = 0;
    while k < n
        invariant
            k <= n,
            n == old(particles)@.len(),
            particles@.len() == n,
            forces@.len() == n,
            params_ok(*params),
            forall|j: int|
                0 <= j < n ==> {
                    let f = #[trigger] forces@[j];
                    &&& (f.0 as int, f.1 as int, f.2 as int) == net_force(
                        old(particles)@,
                        springs@,
                        *params,
                        j,
                    )
                    &&& iabs(f.0 as int) <= FORCE_MAX as int
                    &&& iabs(f.1 as int) <= FORCE_MAX as int
                    &&& iabs(f.2 as int) <= FORCE_MAX as int
                },
            forall|j: int|
                0 <= j < k ==> #[trigger] particles@[j] == substep_state(
                    old(particles)@,
                    springs@,
                    *params,
                )[j] && particle_ok(particles@[j]),
            forall|j: int| k <= j < n ==> #[trigger] particles@[j] == old(particles)@[j],
            particles_ok(old(particles)@),
        decreases n - k,
    {
        let p = particles[k];
        let f = forces[k];
        let newp = integrate_step(p, f, params);
        particles.set(k, newp);
        k = k + 1;
    }
    proof {
        assert(particles@ =~= substep_state(old(particles)@, springs@, *params));
    }
}

/// Advance the simulation by one frame's worth of substeps: exactly
/// `substep_count` substeps of `substep_state`, run strictly in sequence
/// on the buffer in place.
pub fn step(
    particles: &mut Vec<Particle>,
    springs: &Vec<Spring>,
    params: &SimParams,
    substep_count: u32,
)
    requires
        params_ok(*params),
        springs_wf(springs@, old(particles)@.len() as int),
        particles_ok(old(particles)@),
    ensures
        final(particles)@ == run_substeps(old(particles)@, springs@, *params, substep_count as nat),
        final(particles)@.len() == old(particles)@.len(),
        particles_ok(final(particles)@),
{
    let mut k: u32 = 0;
    while k < substep_count
        invariant
            k <= substep_count,
            particles@ == run_substeps(old(particles)@, springs@, *params, k as nat),
            particles@.len() == old(particles)@.len(),
            particles_ok(particles@),
            params_ok(*params),
            springs_wf(springs@, old(particles)@.len() as int),
        decreases substep_count - k,
    {
        substep(particles, springs, params);
        k = k + 1;
    }
}

/// On the rest grid every spring slot contributes no force: a real
/// neighbour sits at exactly the slot's rest length and at the same
/// velocity, and a sentinel slot is skipped.
proof fn lemma_grid_slot_force_zero(w: int, h: int, s: int, c: SimParams, i: int, t: int)
    requires
        grid_error(w, h, s) is None,
        params_ok(c),
        0 <= i < w * h,
        0 <= t < 12,
    ensures
        slot_force(grid_seq(w, h, s), topology_seq(w, h, s), c, i, t) == (0int, 0int, 0int),
{
    let ps = grid_seq(w, h, s);
    let springs = topology_seq(w, h, s);
    lemma_mul_nonnegative(w, h);
    assert(w * h <= 268_435_456) by (nonlinear_arith)
        requires
            0 <= w <= 16_384,
            0 <= h <= 16_384,
    ;
    assert(0 <= 12 * i + t < 12 * (w * h)) by (nonlinear_arith)
        requires
            0 <= i < w * h,
            0 <= t < 12,
    ;
    let k = 12 * i + t;
    lemma_fundamental_div_mod_converse(k, 12, i, t);
    let sp = springs[k];
    assert(sp == spring_at(w, h, s, k));
    lemma_grid_particle_coords(w, h, s, i);
    let r0 = i / w;
    let c0 = i % w;
    let dr = slot_offset(t).0;
    let dc = slot_offset(t).1;
    let rr = r0 + dr;
    let cc = c0 + dc;
    if 0 <= rr && rr < h && 0 <= cc && cc < w {
        assert(0 <= rr * w + cc < w * h) by (nonlinear_arith)
            requires
                0 <= rr < h,
                0 <= cc < w,
        ;
        let j = rr * w + cc;
        lemma_fundamental_div_mod_converse(j, w, rr, cc);
        assert(sp.index2 as int == j);
        lemma_grid_particle_coords(w, h, s, j);
        let pi = ps[i];
        let pj = ps[j];
        let d = sub3(v3(pj.position), v3(pi.position));
        assert((r0 + dr) * s - r0 * s == dr * s) by (nonlinear_arith);
        assert((c0 + dc) * s - c0 * s == dc * s) by (nonlinear_arith);
        assert(d.0 == dr * s && d.1 == dc * s && d.2 == 0);
        assert((dr * s) * (dr * s) + (dc * s) * (dc * s) + 0 * 0 == (dr * dr + dc * dc) * (s * s))
            by (nonlinear_arith);
        lemma_slot_offset_norm(t);
        let len = sqrt_floor(norm2(d) as nat) as int;
        let rest = sp.rest_length as int;
        if t < 4 {
            assert(norm2(d) == 1 * (s * s));
            assert(1 * (s * s) == s * s) by (nonlinear_arith);
            lemma_sqrt_of_square(s);
            assert(len == s && rest == s);
        } else if t < 8 {
            assert(norm2(d) == 2 * (s * s));
            lemma_shear_rest_range(s);
            assert(len == rest_of(SpringKind::Shear, s) && rest == rest_of(SpringKind::Shear, s));
        } else {
            assert(norm2(d) == 4 * (s * s));
            lemma_sqrt_of_four_squares(s);
            assert(len == 2 * s && rest == 2 * s);
        }
        assert(len >= 1);
        let stiff = stiffness_of(c, sp.kind);
        let damp = damping_of(c, sp.kind);
        lemma_div_of0(SCALE as int);
        lemma_div_of0(len);
        assert(stiff * (len - rest) == 0) by (nonlinear_arith)
            requires
                len == rest,
        ;
        assert(sub3(v3(pi.velocity), v3(pj.velocity)) == (0int, 0int, 0int));
        assert(0 * d.0 + 0 * d.1 + 0 * d.2 == 0) by (nonlinear_arith);
        assert(damp * 0 == 0) by (nonlinear_arith);
        assert(0 * d.0 == 0 && 0 * d.1 == 0 && 0 * d.2 == 0) by (nonlinear_arith);
        assert(spring_force(pi, pj, rest, stiff, damp) == (0int, 0int, 0int));
    } else {
        assert(sp.index2 as int == w * h);
        assert(ps.len() == w * h);
    }
}

/// On the rest grid with zero gravity, the accumulated force of the first
/// `t` slots is zero.
proof fn lemma_grid_force_prefix_zero(w: int, h: int, s: int, c: SimParams, i: int, t: int)
    requires
        grid_error(w, h, s) is None,
        params_ok(c),
        c.gravity == (Vec3 { x: 0i64, y: 0i64, z: 0i64 }),
        0 <= i < w * h,
        0 <= t <= 12,
    ensures
        force_prefix(grid_seq(w, h, s), topology_seq(w, h, s), c, i, t) == (0int, 0int, 0int),
    decreases t,
{
    if t <= 0 {
        lemma_div_of0(SCALE as int);
        assert(c.mass * 0 == 0) by (nonlinear_arith);
    } else {
        lemma_grid_force_prefix_zero(w, h, s, c, i, t - 1);
        lemma_grid_slot_force_zero(w, h, s, c, i, t - 1);
    }
}

/// The rest grid is a fixed point of one substep when gravity is off and
/// the sphere is clear of every particle.
proof fn lemma_grid_fixed_point(w: int, h: int, s: int, c: SimParams)
    requires
        grid_error(w, h, s) is None,
        params_ok(c),
        c.gravity == (Vec3 { x: 0i64, y: 0i64, z: 0i64 }),
        forall|i: int|
            0 <= i < w * h ==> norm2(
                sub3(v3((#[trigger] grid_particle(w, s, i)).position), v3(c.sphere_center)),
            ) >= (c.sphere_radius as int) * (c.sphere_radius as int),
    ensures
        substep_state(grid_seq(w, h, s), topology_seq(w, h, s), c) == grid_seq(w, h, s),
{
    let ps = grid_seq(w, h, s);
    let springs = topology_seq(w, h, s);
    lemma_mul_nonnegative(w, h);
    assert forall|i: int| 0 <= i < ps.len() implies substep_state(ps, springs, c)[i] == ps[i] by {
        lemma_grid_force_prefix_zero(w, h, s, c, i, 12);
        assert(net_force(ps, springs, c, i) == (0int, 0int, 0int));
        lemma_grid_particle_coords(w, h, s, i);
        let p = ps[i];
        lemma_div_of0(c.mass as int);
        lemma_div_of0(SCALE as int);
        assert(0 * (c.dt as int) == 0) by (nonlinear_arith);
        let out = integrate_particle(p, (0int, 0int, 0int), c);
        assert(out == resolve_collision(p.position, p.velocity, c)) by {
            assert((Vec3 { x: p.position.x, y: p.position.y, z: p.position.z }) == p.position);
            assert((Vec3 { x: p.velocity.x, y: p.velocity.y, z: p.velocity.z }) == p.velocity);
        }
        let d = sub3(v3(p.position), v3(c.sphere_center));
        let r = c.sphere_radius as int;
        assert(norm2(d) >= r * r);
        assert(r * r >= 0) by (nonlinear_arith);
        lemma_sqrt_floor_bounds(norm2(d) as nat);
        let len = sqrt_floor(norm2(d) as nat) as int;
        if len < r {
            assert((len + 1) * (len + 1) <= r * r) by (nonlinear_arith)
                requires
                    len + 1 <= r,
                    0 <= len + 1,
            ;
        }
        assert(resolve_collision(p.position, p.velocity, c) == p);
    }
    assert(substep_state(ps, springs, c) =~= ps);
}

/// Energy non-explosion at equilibrium: starting from the rest grid with
/// zero velocity, no gravity, and the sphere clear of every particle, any
/// number of substeps leaves the particle buffer exactly unchanged — the
/// displacement is zero, not merely bounded.
pub proof fn lemma_rest_equilibrium(w: int, h: int, s: int, c: SimParams, n: nat)
    requires
        grid_error(w, h, s) is None,
        params_ok(c),
        c.gravity == (Vec3 { x: 0i64, y: 0i64, z: 0i64 }),
        forall|i: int|
            0 <= i < w * h ==> norm2(
                sub3(v3((#[trigger] grid_particle(w, s, i)).position), v3(c.sphere_center)),
            ) >= (c.sphere_radius as int) * (c.sphere_radius as int),
    ensures
        run_substeps(grid_seq(w, h, s), topology_seq(w, h, s), c, n) == grid_seq(w, h, s),
    decreases n,
{
    if n > 0 {
        lemma_rest_equilibrium(w, h, s, c, (n - 1) as nat);
        lemma_grid_fixed_point(w, h, s, c);
    }
}

/// Collision containment holds of the whole solver: whatever forces act
/// on it, every particle of every substep's output ends at squared
/// distance at least `(radius - 4)^2` from the sphere's centre.
pub proof fn lemma_substep_containment(
    ps: Seq<Particle>,
    springs: Seq<Spring>,
    c: SimParams,
    i: int,
)
    requires
        params_ok(c),
        c.sphere_radius >= 8,
        0 <= i < ps.len(),
    ensures
        norm2(sub3(v3(substep_state(ps, springs, c)[i].position), v3(c.sphere_center))) >= (
        c.sphere_radius as int - 4) * (c.sphere_radius as int - 4),
{
    let p = ps[i];
    let f = net_force(ps, springs, c, i);
    let m = c.mass as int;
    let dt = c.dt as int;
    let vel = Vec3 {
        x: crate::math::saturate(p.velocity.x + crate::math::tdiv(f.0 * dt, m)),
        y: crate::math::saturate(p.velocity.y + crate::math::tdiv(f.1 * dt, m)),
        z: crate::math::saturate(p.velocity.z + crate::math::tdiv(f.2 * dt, m)),
    };
    let pos = Vec3 {
        x: crate::math::saturate(
            p.position.x + crate::math::tdiv(vel.x * dt, SCALE as int),
        ),
        y: crate::math::saturate(
            p.position.y + crate::math::tdiv(vel.y * dt, SCALE as int),
        ),
        z: crate::math::saturate(
            p.position.z + crate::math::tdiv(vel.z * dt, SCALE as int),
        ),
    };
    assert(substep_state(ps, springs, c)[i] == resolve_collision(pos, vel, c));
    crate::integrate::lemma_collision_containment(pos, vel, c);
}

/// Determinism: the buffer after `n` substeps is a pure function of the
/// initial buffer, the spring topology and the parameters — two runs from
/// equal inputs give exactly equal buffers.
pub proof fn lemma_step_deterministic(
    ps1: Seq<Particle>,
    ps2: Seq<Particle>,
    springs: Seq<Spring>,
    c: SimParams,
    n: nat,
)
    requires
        ps1 == ps2,
    ensures
        run_substeps(ps1, springs, c, n) == run_substeps(ps2, springs, c, n),
{
}

} // verus!
