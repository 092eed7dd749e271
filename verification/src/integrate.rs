//! The integrator and collision resolver: per substep, semi-implicit Euler
//! from the accumulated force, then positional projection out of the
//! static sphere with the inward velocity component cancelled.

use vstd::prelude::*;
use vstd::arithmetic::div_mod::{
    lemma_div_pos_is_pos, lemma_fundamental_div_mod, lemma_mod_division_less_than_divisor,
};
use vstd::arithmetic::mul::lemma_mul_inequality;
use crate::math::{
    iabs, isqrt, lemma_abs_mul_le, lemma_component_le_norm, lemma_quotient_abs_le,
    lemma_sqrt_floor_bounds, mul_div, saturate, saturate_i128, sqrt_floor, tdiv, LIMIT, SCALE,
};
use crate::forces::FORCE_MAX;
use crate::types::{
    dot3, norm2, params_ok, particle_ok, sub3, v3, vec3_ok, Particle, SimParams, Vec3,
};

verus! {

/// Collision response for a particle at `pos` moving with `vel`: a
/// particle strictly inside the sphere is projected back onto the surface
/// along the line from the sphere's centre, and the velocity component
/// directed into the sphere is cancelled. A particle sitting exactly on
/// the centre, where that line is undefined, is placed on the surface in
/// the positive x direction.
pub open spec fn resolve_collision(pos: Vec3, vel: Vec3, c: SimParams) -> Particle {
    let d = sub3(v3(pos), v3(c.sphere_center));
    let q = norm2(d);
    let len = sqrt_floor(q as nat) as int;
    let r = c.sphere_radius as int;
    if len >= r {
        Particle { position: pos, velocity: vel }
    } else if len == 0 {
        Particle {
            position: Vec3 {
                x: saturate(c.sphere_center.x + r),
                y: c.sphere_center.y,
                z: c.sphere_center.z,
            },
            velocity: vel,
        }
    } else {
        let npos = Vec3 {
            x: saturate(c.sphere_center.x + tdiv(d.0 * r, len)),
            y: saturate(c.sphere_center.y + tdiv(d.1 * r, len)),
            z: saturate(c.sphere_center.z + tdiv(d.2 * r, len)),
        };
        let vd = dot3(v3(vel), d);
        let nvel = if vd < 0 {
            Vec3 {
                x: saturate(vel.x - tdiv(vd * d.0, q)),
                y: saturate(vel.y - tdiv(vd * d.1, q)),
                z: saturate(vel.z - tdiv(vd * d.2, q)),
            }
        } else {
            vel
        };
        Particle { position: npos, velocity: nvel }
    }
}

/// Pure algebra: a floor quotient `u` of `p` by `len` (with remainder
/// `e`), once rescaled by `len`, is within one `len` of `p`, so its
/// weighted square is within `len^2` of `(p - len)^2`; and `p` at most
/// `len * r` caps `u` at `r`.
proof fn lemma_truncated_square(len: int, u: int, e: int, p: int, r: int)
    requires
        p == len * u + e,
        0 <= e,
        e < len,
        0 <= u,
        1 <= len,
        p <= len * r,
    ensures
        len * len * (u * u) + len * len >= (p - len) * (p - len),
        u <= r,
{
    assert(len * len * (u * u) + len * len - (len * u + e - len) * (len * u + e - len) == e * (2
        * len - e) + 2 * ((len * u) * (len - e))) by (nonlinear_arith);
    assert(e * (2 * len - e) >= 0 && (len * u) * (len - e) >= 0) by (nonlinear_arith)
        requires
            0 <= e,
            e < len,
            0 <= u,
            1 <= len,
    ;
    assert(u <= r) by (nonlinear_arith)
        requires
            p == len * u + e,
            0 <= e,
            p <= len * r,
            1 <= len,
            0 <= u,
    ;
}

/// Sign does not matter for the square of equal-magnitude values.
proof fn lemma_square_sign(t: int, u: int)
    requires
        t == u || t == -u,
    ensures
        t * t == u * u,
{
    if t == -u {
        assert((-u) * (-u) == u * u) by (nonlinear_arith);
    }
}

/// The projection of one coordinate of the centre-to-particle vector onto
/// the sphere surface loses less than one raw unit to truncation: the
/// scaled component `tdiv(dk * r, len)` is at most `r` in magnitude, and
/// its square, weighted by `len^2`, is within `len^2` of the square of the
/// exactly scaled component.
proof fn lemma_project_component(dk: int, r: int, len: int)
    requires
        1 <= len,
        iabs(dk) <= len,
        0 <= r,
    ensures
        iabs(tdiv(dk * r, len)) <= r,
        len * len * (tdiv(dk * r, len) * tdiv(dk * r, len)) + len * len >= (iabs(dk) * r - len) * (
        iabs(dk) * r - len),
{
    let a = iabs(dk);
    let p = a * r;
    if dk < 0 {
        vstd::arithmetic::mul::lemma_mul_unary_negation(dk, r);
        assert(a * r == (-dk) * r);
        assert(dk * r == -(a * r));
    }
    vstd::arithmetic::mul::lemma_mul_nonnegative(a, r);
    let u = p / len;
    lemma_fundamental_div_mod(p, len);
    lemma_mod_division_less_than_divisor(p, len);
    lemma_div_pos_is_pos(p, len);
    let e = p % len;
    let t = tdiv(dk * r, len);
    assert(t == u || t == -u);
    assert(iabs(t) == u);
    lemma_square_sign(t, u);
    lemma_mul_inequality(a, len, r);
    lemma_truncated_square(len, u, e, p, r);
}

/// Pure algebra of the containment bound: if each rescaled component
/// `u_k` satisfies the truncation bound against the exactly scaled
/// component, the component magnitudes `a_k` are no longer than `len`,
/// and the squared norm `q` is at least `len^2`, then the rescaled
/// vector's squared norm is at least `(r - 4)^2`.
proof fn lemma_containment_sum(
    len: int,
    r: int,
    q: int,
    u0: int,
    u1: int,
    u2: int,
    a0: int,
    a1: int,
    a2: int,
)
    requires
        1 <= len,
        8 <= r,
        len * len <= q,
        q == a0 * a0 + a1 * a1 + a2 * a2,
        0 <= a0 <= len,
        0 <= a1 <= len,
        0 <= a2 <= len,
        len * len * (u0 * u0) + len * len >= (a0 * r - len) * (a0 * r - len),
        len * len * (u1 * u1) + len * len >= (a1 * r - len) * (a1 * r - len),
        len * len * (u2 * u2) + len * len >= (a2 * r - len) * (a2 * r - len),
    ensures
        u0 * u0 + u1 * u1 + u2 * u2 >= (r - 4) * (r - 4),
{
    assert((a0 * r - len) * (a0 * r - len) == (a0 * a0) * (r * r) - 2 * ((a0 * r) * len) + len
        * len) by (nonlinear_arith);
    assert((a1 * r - len) * (a1 * r - len) == (a1 * a1) * (r * r) - 2 * ((a1 * r) * len) + len
        * len) by (nonlinear_arith);
    assert((a2 * r - len) * (a2 * r - len) == (a2 * a2) * (r * r) - 2 * ((a2 * r) * len) + len
        * len) by (nonlinear_arith);
    assert((a0 * a0) * (r * r) + (a1 * a1) * (r * r) + (a2 * a2) * (r * r) == q * (r * r))
        by (nonlinear_arith)
        requires
            q == a0 * a0 + a1 * a1 + a2 * a2,
    ;
    assert((len * len) * (r * r) <= q * (r * r)) by (nonlinear_arith)
        requires
            len * len <= q,
            0 <= r,
    ;
    lemma_mul_inequality(a0, len, r);
    lemma_mul_inequality(a1, len, r);
    lemma_mul_inequality(a2, len, r);
    lemma_mul_inequality(a0 * r, len * r, len);
    lemma_mul_inequality(a1 * r, len * r, len);
    lemma_mul_inequality(a2 * r, len * r, len);
    assert(len * len * (u0 * u0) + len * len * (u1 * u1) + len * len * (u2 * u2) == (len * len) * (
    u0 * u0 + u1 * u1 + u2 * u2)) by (nonlinear_arith);
    assert((len * r) * len == (len * len) * r) by (nonlinear_arith);
    assert((len * len) * (r * r) - 6 * ((len * len) * r) == (len * len) * (r * r - 6 * r))
        by (nonlinear_arith);
    assert((len * len) * (u0 * u0 + u1 * u1 + u2 * u2) >= (len * len) * (r * r - 6 * r));
    assert(u0 * u0 + u1 * u1 + u2 * u2 >= r * r - 6 * r) by (nonlinear_arith)
        requires
            (len * len) * (u0 * u0 + u1 * u1 + u2 * u2) >= (len * len) * (r * r - 6 * r),
            1 <= len,
    ;
    assert(r * r - 6 * r >= (r - 4) * (r - 4)) by (nonlinear_arith)
        requires
            r >= 8,
    ;
}

/// Collision containment: whatever position the integrator produced, the
/// resolved particle is never left more than four raw units (four
/// millionths of a world unit) inside the sphere: the squared distance of
/// the resolved position from the centre is at least `(radius - 4)^2`.
pub proof fn lemma_collision_containment(pos: Vec3, vel: Vec3, c: SimParams)
    requires
        vec3_ok(pos),
        params_ok(c),
        c.sphere_radius >= 8,
    ensures
        ({
            let out = resolve_collision(pos, vel, c);
            norm2(sub3(v3(out.position), v3(c.sphere_center))) >= (c.sphere_radius as int - 4) * (
            c.sphere_radius as int - 4)
        }),
{
    let d = sub3(v3(pos), v3(c.sphere_center));
    let q = norm2(d);
    assert(d.0 * d.0 >= 0 && d.1 * d.1 >= 0 && d.2 * d.2 >= 0) by (nonlinear_arith);
    lemma_sqrt_floor_bounds(q as nat);
    let len = sqrt_floor(q as nat) as int;
    let r = c.sphere_radius as int;
    if len >= r {
        assert(len * len >= r * r) by (nonlinear_arith)
            requires
                len >= r,
                r >= 0,
        ;
        assert(r * r >= (r - 4) * (r - 4)) by (nonlinear_arith)
            requires
                r >= 4,
        ;
    } else if len == 0 {
        assert((0int + 1) * (0int + 1) == 1) by (nonlinear_arith);
        assert(q == 0);
        assert(d.0 == 0 && d.1 == 0 && d.2 == 0) by (nonlinear_arith)
            requires
                d.0 * d.0 + d.1 * d.1 + d.2 * d.2 == 0,
        ;
        let out = resolve_collision(pos, vel, c);
        assert(out.position.x as int == c.sphere_center.x + r);
        assert(norm2(sub3(v3(out.position), v3(c.sphere_center))) == r * r + 0 * 0 + 0 * 0);
        assert(r * r >= (r - 4) * (r - 4)) by (nonlinear_arith)
            requires
                r >= 4,
        ;
    } else {
        lemma_component_le_norm(d.0, q, len);
        lemma_component_le_norm(d.1, q, len);
        lemma_component_le_norm(d.2, q, len);
        lemma_project_component(d.0, r, len);
        lemma_project_component(d.1, r, len);
        lemma_project_component(d.2, r, len);
        crate::math::lemma_abs_square(d.0);
        crate::math::lemma_abs_square(d.1);
        crate::math::lemma_abs_square(d.2);
        let u0 = tdiv(d.0 * r, len);
        let u1 = tdiv(d.1 * r, len);
        let u2 = tdiv(d.2 * r, len);
        lemma_containment_sum(
            len,
            r,
            q,
            u0,
            u1,
            u2,
            iabs(d.0),
            iabs(d.1),
            iabs(d.2),
        );
        let out = resolve_collision(pos, vel, c);
        assert(out.position.x as int == c.sphere_center.x + u0);
        assert(out.position.y as int == c.sphere_center.y + u1);
        assert(out.position.z as int == c.sphere_center.z + u2);
        assert(norm2(sub3(v3(out.position), v3(c.sphere_center))) == u0 * u0 + u1 * u1 + u2 * u2);
    }
}

/// One semi-implicit Euler update of a particle under net force `f`:
/// velocity first, from the force, then position, from the new velocity,
/// each saturated into the representable range, then collision response.
pub open spec fn integrate_particle(p: Particle, f: (int, int, int), c: SimParams) -> Particle {
    let m = c.mass as int;
    let dt = c.dt as int;
    let vx = saturate(p.velocity.x + tdiv(f.0 * dt, m));
    let vy = saturate(p.velocity.y + tdiv(f.1 * dt, m));
    let vz = saturate(p.velocity.z + tdiv(f.2 * dt, m));
    let px = saturate(p.position.x + tdiv(vx * dt, SCALE as int));
    let py = saturate(p.position.y + tdiv(vy * dt, SCALE as int));
    let pz = saturate(p.position.z + tdiv(vz * dt, SCALE as int));
    resolve_collision(Vec3 { x: px, y: py, z: pz }, Vec3 { x: vx, y: vy, z: vz }, c)
}

/// Exec collision response, exactly as `resolve_collision` states it.
fn collide(pos: Vec3, vel: Vec3, c: &SimParams) -> (r: Particle)
    requires
        vec3_ok(pos),
        vec3_ok(vel),
        params_ok(*c),
    ensures
        r == resolve_collision(pos, vel, *c),
        particle_ok(r),
{
    let dx: i64 = pos.x - c.sphere_center.x;
    let dy: i64 = pos.y - c.sphere_center.y;
    let dz: i64 = pos.z - c.sphere_center.z;
    proof {
        lemma_abs_mul_le(dx as int, dx as int, 2 * LIMIT as int, 2 * LIMIT as int);
        lemma_abs_mul_le(dy as int, dy as int, 2 * LIMIT as int, 2 * LIMIT as int);
        lemma_abs_mul_le(dz as int, dz as int, 2 * LIMIT as int, 2 * LIMIT as int);
        assert((dx as int) * (dx as int) >= 0 && (dy as int) * (dy as int) >= 0 && (dz as int)
            * (dz as int) >= 0) by (nonlinear_arith);
    }
    let q: i128 = (dx as i128) * (dx as i128) + (dy as i128) * (dy as i128) + (dz as i128)
        * (dz as i128);
    let lenw: u128 = isqrt(q as u128);
    proof {
        if lenw as int > 4 * LIMIT as int {
            assert(false) by (nonlinear_arith)
                requires
                    (lenw as int) * (lenw as int) <= q as int,
                    q as int <= 12_000_000_000_000_000_000_000_000int,
                    lenw as int > 4_000_000_000_000int,
            ;
        }
    }
    let len: i128 = lenw as i128;
    let ghost d = sub3(v3(pos), v3(c.sphere_center));
    proof {
        assert(norm2(d) == q as int);
        lemma_component_le_norm(d.0, q as int, len as int);
        lemma_component_le_norm(d.1, q as int, len as int);
        lemma_component_le_norm(d.2, q as int, len as int);
    }
    if len >= c.sphere_radius as i128 {
        return Particle { position: pos, velocity: vel };
    }
    if len == 0 {
        return Particle {
            position: Vec3 {
                x: c.sphere_center.x + c.sphere_radius,
                y: c.sphere_center.y,
                z: c.sphere_center.z,
            },
            velocity: vel,
        };
    }
    proof {
        lemma_abs_mul_le(d.0, c.sphere_radius as int, 2 * LIMIT as int, LIMIT as int);
        lemma_abs_mul_le(d.1, c.sphere_radius as int, 2 * LIMIT as int, LIMIT as int);
        lemma_abs_mul_le(d.2, c.sphere_radius as int, 2 * LIMIT as int, LIMIT as int);
    }
    let prx: i128 = mul_div(dx as i128, c.sphere_radius as i128, len);
    let pry: i128 = mul_div(dy as i128, c.sphere_radius as i128, len);
    let prz: i128 = mul_div(dz as i128, c.sphere_radius as i128, len);
    proof {
        lemma_quotient_abs_le(prx as int, (d.0) * (c.sphere_radius as int), len as int);
        lemma_quotient_abs_le(pry as int, (d.1) * (c.sphere_radius as int), len as int);
        lemma_quotient_abs_le(prz as int, (d.2) * (c.sphere_radius as int), len as int);
    }
    let npx: i64 = saturate_i128((c.sphere_center.x as i128) + prx);
    let npy: i64 = saturate_i128((c.sphere_center.y as i128) + pry);
    let npz: i64 = saturate_i128((c.sphere_center.z as i128) + prz);
    proof {
        lemma_abs_mul_le(vel.x as int, d.0, LIMIT as int, 2 * LIMIT as int);
        lemma_abs_mul_le(vel.y as int, d.1, LIMIT as int, 2 * LIMIT as int);
        lemma_abs_mul_le(vel.z as int, d.2, LIMIT as int, 2 * LIMIT as int);
    }
    let vd: i128 = (vel.x as i128) * (dx as i128) + (vel.y as i128) * (dy as i128) + (vel.z
        as i128) * (dz as i128);
    let nvel: Vec3 = if vd < 0 {
        proof {
            assert(1 <= q as int) by (nonlinear_arith)
                requires
                    1 <= len as int,
                    (len as int) * (len as int) <= q as int,
            ;
            lemma_abs_mul_le(
                vd as int,
                d.0,
                6_000_000_000_000_000_000_000_000int,
                2 * LIMIT as int,
            );
            lemma_abs_mul_le(
                vd as int,
                d.1,
                6_000_000_000_000_000_000_000_000int,
                2 * LIMIT as int,
            );
            lemma_abs_mul_le(
                vd as int,
                d.2,
                6_000_000_000_000_000_000_000_000int,
                2 * LIMIT as int,
            );
        }
        let cx: i128 = mul_div(vd, dx as i128, q);
        let cy: i128 = mul_div(vd, dy as i128, q);
        let cz: i128 = mul_div(vd, dz as i128, q);
        proof {
            lemma_quotient_abs_le(cx as int, (vd as int) * (d.0), q as int);
            lemma_quotient_abs_le(cy as int, (vd as int) * (d.1), q as int);
            lemma_quotient_abs_le(cz as int, (vd as int) * (d.2), q as int);
        }
        Vec3 {
            x: saturate_i128((vel.x as i128) - cx),
            y: saturate_i128((vel.y as i128) - cy),
            z: saturate_i128((vel.z as i128) - cz),
        }
    } else {
        vel
    };
    Particle { position: Vec3 { x: npx, y: npy, z: npz }, velocity: nvel }
}

/// One exec Euler update of a single particle, exactly as
/// `integrate_particle` states it.
pub fn integrate_step(p: Particle, f: (i128, i128, i128), params: &SimParams) -> (r: Particle)
    requires
        particle_ok(p),
        params_ok(*params),
        iabs(f.0 as int) <= FORCE_MAX as int,
        iabs(f.1 as int) <= FORCE_MAX as int,
        iabs(f.2 as int) <= FORCE_MAX as int,
    ensures
        r == integrate_particle(p, (f.0 as int, f.1 as int, f.2 as int), *params),
        particle_ok(r),
{
    let dt: i128 = params.dt as i128;
    let m: i128 = params.mass as i128;
    proof {
        lemma_abs_mul_le(f.0 as int, dt as int, FORCE_MAX as int, LIMIT as int);
        lemma_abs_mul_le(f.1 as int, dt as int, FORCE_MAX as int, LIMIT as int);
        lemma_abs_mul_le(f.2 as int, dt as int, FORCE_MAX as int, LIMIT as int);
    }
    let dvx: i128 = mul_div(f.0, dt, m);
    let dvy: i128 = mul_div(f.1, dt, m);
    let dvz: i128 = mul_div(f.2, dt, m);
    proof {
        lemma_quotient_abs_le(dvx as int, (f.0 as int) * (dt as int), m as int);
        lemma_quotient_abs_le(dvy as int, (f.1 as int) * (dt as int), m as int);
        lemma_quotient_abs_le(dvz as int, (f.2 as int) * (dt as int), m as int);
    }
    let vx: i64 = saturate_i128((p.velocity.x as i128) + dvx);
    let vy: i64 = saturate_i128((p.velocity.y as i128) + dvy);
    let vz: i64 = saturate_i128((p.velocity.z as i128) + dvz);
    proof {
        lemma_abs_mul_le(vx as int, dt as int, LIMIT as int, LIMIT as int);
        lemma_abs_mul_le(vy as int, dt as int, LIMIT as int, LIMIT as int);
        lemma_abs_mul_le(vz as int, dt as int, LIMIT as int, LIMIT as int);
    }
    let dpx: i128 = mul_div(vx as i128, dt, SCALE as i128);
    let dpy: i128 = mul_div(vy as i128, dt, SCALE as i128);
    let dpz: i128 = mul_div(vz as i128, dt, SCALE as i128);
    proof {
        lemma_quotient_abs_le(dpx as int, (vx as int) * (dt as int), SCALE as int);
        lemma_quotient_abs_le(dpy as int, (vy as int) * (dt as int), SCALE as int);
        lemma_quotient_abs_le(dpz as int, (vz as int) * (dt as int), SCALE as int);
    }
    let px: i64 = saturate_i128((p.position.x as i128) + dpx);
    let py: i64 = saturate_i128((p.position.y as i128) + dpy);
    let pz: i64 = saturate_i128((p.position.z as i128) + dpz);
    collide(Vec3 { x: px, y: py, z: pz }, Vec3 { x: vx, y: vy, z: vz }, params)
}

} // verus!
