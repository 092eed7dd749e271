//! Spring topology generation: twelve spring slots for every particle of
//! the grid — four stretch, four shear and four bend neighbours — padded
//! with sentinel springs at the boundary so that the per-particle slot
//! count is uniform.

use vstd::prelude::*;
use vstd::arithmetic::div_mod::{
    lemma_div_pos_is_pos, lemma_fundamental_div_mod, lemma_fundamental_div_mod_converse,
    lemma_mod_division_less_than_divisor, lemma_multiply_divide_lt,
};
use vstd::arithmetic::mul::{lemma_mul_inequality, lemma_mul_nonnegative};
use crate::math::{isqrt, lemma_sqrt_floor_unique, sqrt_floor, LIMIT};
use crate::grid::{check_grid, grid_error, GRID_MAX};
use crate::types::{springs_wf, ConfigError, Spring, SpringKind};

verus! {

/// The grid offset `(delta_row, delta_col)` of spring slot `t` of a
/// particle: slots 0 to 3 are the stretch neighbours, 4 to 7 the shear
/// neighbours, 8 to 11 the bend neighbours.
pub open spec fn slot_offset(t: int) -> (int, int) {
    if t == 0 {
        (0, -1)
    } else if t == 1 {
        (0, 1)
    } else if t == 2 {
        (-1, 0)
    } else if t == 3 {
        (1, 0)
    } else if t == 4 {
        (-1, -1)
    } else if t == 5 {
        (-1, 1)
    } else if t == 6 {
        (1, -1)
    } else if t == 7 {
        (1, 1)
    } else if t == 8 {
        (0, -2)
    } else if t == 9 {
        (0, 2)
    } else if t == 10 {
        (-2, 0)
    } else {
        (2, 0)
    }
}

pub open spec fn slot_kind(t: int) -> SpringKind {
    if t < 4 {
        SpringKind::Stretch
    } else if t < 8 {
        SpringKind::Shear
    } else {
        SpringKind::Bend
    }
}

/// The slot of the same spring as seen from the other endpoint: the slot
/// whose offset is the negation of slot `t`'s.
pub open spec fn partner_slot(t: int) -> int {
    if t == 0 {
        1
    } else if t == 1 {
        0
    } else if t == 2 {
        3
    } else if t == 3 {
        2
    } else if t == 4 {
        7
    } else if t == 5 {
        6
    } else if t == 6 {
        5
    } else if t == 7 {
        4
    } else if t == 8 {
        9
    } else if t == 9 {
        8
    } else if t == 10 {
        11
    } else {
        10
    }
}

/// The rest length of a spring of the given kind on a grid with spacing
/// `s`: the integer length of the grid offset it spans — `s` for stretch,
/// the integer square root of `2 s^2` for shear, `2 s` for bend.
pub open spec fn rest_of(kind: SpringKind, s: int) -> int {
    match kind {
        SpringKind::Stretch => s,
        SpringKind::Shear => sqrt_floor((2 * (s * s)) as nat) as int,
        SpringKind::Bend => 2 * s,
    }
}

/// Spring slot `k` of the topology of a `w` by `h` grid: slot `k % 12` of
/// particle `k / 12`, with the sentinel index `w * h` when the neighbour
/// falls outside the grid.
pub open spec fn spring_at(w: int, h: int, s: int, k: int) -> Spring {
    let i = k / 12;
    let t = k % 12;
    let r = i / w;
    let c = i % w;
    let rr = r + slot_offset(t).0;
    let cc = c + slot_offset(t).1;
    let j = if 0 <= rr < h && 0 <= cc < w {
        rr * w + cc
    } else {
        w * h
    };
    Spring {
        index1: i as usize,
        index2: j as usize,
        rest_length: rest_of(slot_kind(t), s) as i64,
        kind: slot_kind(t),
    }
}

/// The full spring list of a `w` by `h` grid with spacing `s`, grouped by
/// particle: slots `12 i .. 12 i + 12` belong to particle `i`.
pub open spec fn topology_seq(w: int, h: int, s: int) -> Seq<Spring> {
    Seq::new((12 * (w * h)) as nat, |k: int| spring_at(w, h, s, k))
}

/// The rest length of each spring kind, as stored in the list.
fn rest_length_for(kind: SpringKind, spacing: i64) -> (r: i64)
    requires
        1 <= spacing,
        2 * (spacing as int) <= LIMIT as int,
    ensures
        r as int == rest_of(kind, spacing as int),
        0 <= r as int <= LIMIT as int,
{
    match kind {
        SpringKind::Stretch => spacing,
        SpringKind::Shear => {
            proof {
                let s = spacing as int;
                assert((2 * s) * s == 2 * (s * s)) by (nonlinear_arith);
                assert(2 * (s * s) < 1_267_650_600_228_229_401_496_703_205_376int)
                    by (nonlinear_arith)
                    requires
                        1 <= s <= 500_000_000_000int,
                ;
                assert(2 * (s * s) < (2 * s + 1) * (2 * s + 1)) by (nonlinear_arith)
                    requires
                        1 <= s,
                ;
            }
            let s2: u128 = 2 * (spacing as u128) * (spacing as u128);
            let root: u128 = isqrt(s2);
            proof {
                let s = spacing as int;
                if root as int > 2 * s {
                    assert((2 * s + 1) * (2 * s + 1) <= (root as int) * (root as int))
                        by (nonlinear_arith)
                        requires
                            2 * s + 1 <= root as int,
                            s >= 1,
                    ;
                }
            }
            root as i64
        },
        SpringKind::Bend => 2 * spacing,
    }
}

/// The twelve grid offsets, by slot.
fn offset_for(t: usize) -> (r: (i64, i64))
    requires
        t < 12,
    ensures
        (r.0 as int, r.1 as int) == slot_offset(t as int),
{
    if t == 0 {
        (0, -1)
    } else if t == 1 {
        (0, 1)
    } else if t == 2 {
        (-1, 0)
    } else if t == 3 {
        (1, 0)
    } else if t == 4 {
        (-1, -1)
    } else if t == 5 {
        (-1, 1)
    } else if t == 6 {
        (1, -1)
    } else if t == 7 {
        (1, 1)
    } else if t == 8 {
        (0, -2)
    } else if t == 9 {
        (0, 2)
    } else if t == 10 {
        (-2, 0)
    } else {
        (2, 0)
    }
}

fn kind_for(t: usize) -> (r: SpringKind)
    requires
        t < 12,
    ensures
        r == slot_kind(t as int),
{
    if t < 4 {
        SpringKind::Stretch
    } else if t < 8 {
        SpringKind::Shear
    } else {
        SpringKind::Bend
    }
}

/// Build the spring list of a `width` by `height` grid, or name the reason
/// the configuration is rejected. The list is grouped by particle with
/// exactly twelve slots each; boundary slots carry the sentinel index
/// `width * height`.
pub fn build_topology(width: usize, height: usize, spacing: i64) -> (res: Result<
    Vec<Spring>,
    ConfigError,
>)
    ensures
        ({
            match res {
                Ok(v) => grid_error(width as int, height as int, spacing as int) is None && v@
                    == topology_seq(width as int, height as int, spacing as int),
                Err(e) => grid_error(width as int, height as int, spacing as int) == Some(e),
            }
        }),
{
    if let Some(e) = check_grid(width, height, spacing) {
        return Err(e);
    }
    proof {
        assert(width as int * height as int <= 268_435_456int) by (nonlinear_arith)
            requires
                0 <= width as int <= 16_384,
                0 <= height as int <= 16_384,
        ;
        lemma_mul_nonnegative(width as int, height as int);
    }
    let n: usize = width * height;
    let rest_stretch: i64 = rest_length_for(SpringKind::Stretch, spacing);
    let rest_shear: i64 = rest_length_for(SpringKind::Shear, spacing);
    let rest_bend: i64 = rest_length_for(SpringKind::Bend, spacing);
    let mut v: Vec<Spring> = Vec::new();
    let mut i: usize = 0;
    while i < n
        invariant
            i <= n,
            n == width * height,
            2 <= width <= GRID_MAX,
            2 <= height <= GRID_MAX,
            n <= 268_435_456,
            1 <= spacing,
            2 * (spacing as int) <= LIMIT as int,
            rest_stretch as int == rest_of(SpringKind::Stretch, spacing as int),
            rest_shear as int == rest_of(SpringKind::Shear, spacing as int),
            rest_bend as int == rest_of(SpringKind::Bend, spacing as int),
            v@.len() == 12 * i,
            forall|k: int|
                0 <= k < v@.len() ==> v@[k] == spring_at(
                    width as int,
                    height as int,
                    spacing as int,
                    k,
                ),
        decreases n - i,
    {
        let r: usize = i / width;
        let c: usize = i % width;
        proof {
            lemma_multiply_divide_lt(i as int, width as int, height as int);
            lemma_mod_division_less_than_divisor(i as int, width as int);
        }
        let mut t: usize = 0;
        while t < 12
            invariant
                t <= 12,
                i < n,
                n == width * height,
                2 <= width <= GRID_MAX,
                2 <= height <= GRID_MAX,
                n <= 268_435_456,
                1 <= spacing,
                2 * (spacing as int) <= LIMIT as int,
                rest_stretch as int == rest_of(SpringKind::Stretch, spacing as int),
                rest_shear as int == rest_of(SpringKind::Shear, spacing as int),
                rest_bend as int == rest_of(SpringKind::Bend, spacing as int),
                r == i as int / width as int,
                c == i as int % width as int,
                r < height,
                c < width,
                v@.len() == 12 * i + t,
                forall|k: int|
                    0 <= k < v@.len() ==> v@[k] == spring_at(
                        width as int,
                        height as int,
                        spacing as int,
                        k,
                    ),
            decreases 12 - t,
        {
            let (dr, dc) = offset_for(t);
            let kind = kind_for(t);
            let rest: i64 = match kind {
                SpringKind::Stretch => rest_stretch,
                SpringKind::Shear => rest_shear,
                SpringKind::Bend => rest_bend,
            };
            let rr: i64 = (r as i64) + dr;
            let cc: i64 = (c as i64) + dc;
            let index2: usize = if 0 <= rr && rr < height as i64 && 0 <= cc && cc < width as i64 {
                proof {
                    lemma_mul_nonnegative(rr as int, width as int);
                    assert((rr as int) * (width as int) + (cc as int) < (width as int)
                        * (height as int)) by (nonlinear_arith)
                        requires
                            0 <= (rr as int) < (height as int),
                            0 <= (cc as int) < (width as int),
                    ;
                }
                (rr as usize) * width + (cc as usize)
            } else {
                n
            };
            let sp = Spring { index1: i, index2, rest_length: rest, kind };
            proof {
                let k = 12 * (i as int) + t as int;
                lemma_fundamental_div_mod_converse(k, 12, i as int, t as int);
                assert(width as int * height as int == height as int * width as int)
                    by (nonlinear_arith);
                assert(sp == spring_at(width as int, height as int, spacing as int, k));
            }
            v.push(sp);
            t = t + 1;
        }
        i = i + 1;
    }
    proof {
        assert(v@ =~= topology_seq(width as int, height as int, spacing as int));
    }
    Ok(v)
}

/// The squared grid distance a slot's offset spans: one for stretch
/// slots, two for shear, four for bend.
pub proof fn lemma_slot_offset_norm(t: int)
    requires
        0 <= t < 12,
    ensures
        slot_offset(t).0 * slot_offset(t).0 + slot_offset(t).1 * slot_offset(t).1 == (
        if t < 4 {
            1int
        } else if t < 8 {
            2int
        } else {
            4int
        }),
{
    let dr = slot_offset(t).0;
    let dc = slot_offset(t).1;
    assert(-2 <= dr <= 2 && -2 <= dc <= 2);
    assert(dr * dr == (if dr == 0 {
        0int
    } else if dr == 1 || dr == -1 {
        1int
    } else {
        4int
    })) by (nonlinear_arith)
        requires
            -2 <= dr <= 2,
    ;
    assert(dc * dc == (if dc == 0 {
        0int
    } else if dc == 1 || dc == -1 {
        1int
    } else {
        4int
    })) by (nonlinear_arith)
        requires
            -2 <= dc <= 2,
    ;
}

/// The shear rest length is the integer square root of `2 s^2`: between
/// `s` and `2 s`.
pub proof fn lemma_shear_rest_range(s: int)
    requires
        1 <= s,
    ensures
        s <= rest_of(SpringKind::Shear, s) <= 2 * s,
{
    assert(0 <= s * s && s * s <= 2 * (s * s)) by (nonlinear_arith);
    crate::math::lemma_sqrt_floor_bounds((2 * (s * s)) as nat);
    let root = rest_of(SpringKind::Shear, s);
    if root > 2 * s {
        assert((2 * s + 1) * (2 * s + 1) <= root * root) by (nonlinear_arith)
            requires
                2 * s + 1 <= root,
                s >= 1,
        ;
        assert(2 * (s * s) < (2 * s + 1) * (2 * s + 1)) by (nonlinear_arith)
            requires
                s >= 1,
        ;
    }
    if root < s {
        assert((root + 1) * (root + 1) <= s * s) by (nonlinear_arith)
            requires
                root + 1 <= s,
                0 <= root,
        ;
    }
}

/// The spring list of any accepted grid is well formed for its particle
/// buffer: twelve slots per particle, every rest length in range.
pub proof fn lemma_topology_wf(w: int, h: int, s: int)
    requires
        grid_error(w, h, s) is None,
    ensures
        springs_wf(topology_seq(w, h, s), w * h),
        topology_seq(w, h, s).len() == 12 * (w * h),
{
    lemma_mul_nonnegative(w, h);
    lemma_shear_rest_range(s);
    let springs = topology_seq(w, h, s);
    assert forall|k: int| 0 <= k < springs.len() implies 0 <= (
    #[trigger] springs[k]).rest_length as int <= LIMIT as int by {
        lemma_mod_division_less_than_divisor(k, 12);
        let t = k % 12;
        assert(springs[k].rest_length as int == rest_of(slot_kind(t), s) as i64 as int);
    }
}

/// Fixed fan-out: on any accepted grid, every particle owns exactly twelve
/// spring slots, `12 i` through `12 i + 11`, and each names it as its first
/// endpoint.
pub proof fn lemma_fixed_fanout(w: int, h: int, s: int)
    requires
        grid_error(w, h, s) is None,
    ensures
        topology_seq(w, h, s).len() == 12 * (w * h),
        forall|i: int, t: int|
            0 <= i < w * h && 0 <= t < 12 ==> (#[trigger] topology_seq(w, h, s)[12 * i
                + t]).index1 as int == i,
{
    assert(w * h <= 268_435_456) by (nonlinear_arith)
        requires
            0 <= w <= 16_384,
            0 <= h <= 16_384,
    ;
    assert forall|i: int, t: int| 0 <= i < w * h && 0 <= t < 12 implies (#[trigger] topology_seq(
        w,
        h,
        s,
    )[12 * i + t]).index1 as int == i by {
        lemma_fundamental_div_mod_converse(12 * i + t, 12, i, t);
        assert(12 * i + t < 12 * (w * h)) by (nonlinear_arith)
            requires
                0 <= i < w * h,
                0 <= t < 12,
        ;
    }
}

/// Topology symmetry: every non-sentinel spring from particle `i` to
/// particle `j` has a twin, in `j`'s own slot group, that runs from `j`
/// back to `i` with the same kind and the same rest length.
pub proof fn lemma_topology_symmetry(w: int, h: int, s: int, k: int)
    requires
        grid_error(w, h, s) is None,
        0 <= k < 12 * (w * h),
        topology_seq(w, h, s)[k].index2 as int != w * h,
    ensures
        ({
            let sp = topology_seq(w, h, s)[k];
            let k2 = 12 * (sp.index2 as int) + partner_slot(k % 12);
            &&& 0 <= k2 < 12 * (w * h)
            &&& topology_seq(w, h, s)[k2].index1 == sp.index2
            &&& topology_seq(w, h, s)[k2].index2 == sp.index1
            &&& topology_seq(w, h, s)[k2].kind == sp.kind
            &&& topology_seq(w, h, s)[k2].rest_length == sp.rest_length
        }),
{
    assert(w * h <= 268_435_456) by (nonlinear_arith)
        requires
            0 <= w <= 16_384,
            0 <= h <= 16_384,
    ;
    let i = k / 12;
    let t = k % 12;
    lemma_fundamental_div_mod(k, 12);
    lemma_mod_division_less_than_divisor(k, 12);
    lemma_div_pos_is_pos(k, 12);
    lemma_multiply_divide_lt(k, 12, w * h);
    let r = i / w;
    let c = i % w;
    lemma_fundamental_div_mod(i, w);
    lemma_mod_division_less_than_divisor(i, w);
    lemma_div_pos_is_pos(i, w);
    lemma_multiply_divide_lt(i, w, h);
    assert(r * w + c == i) by (nonlinear_arith)
        requires
            i == w * r + c,
    ;
    let dr = slot_offset(t).0;
    let dc = slot_offset(t).1;
    let rr = r + dr;
    let cc = c + dc;
    assert(0 <= rr < h && 0 <= cc < w);
    let j = rr * w + cc;
    assert(0 <= rr * w + cc < w * h) by (nonlinear_arith)
        requires
            0 <= rr < h,
            0 <= cc < w,
    ;
    lemma_fundamental_div_mod_converse(j, w, rr, cc);
    let sp = topology_seq(w, h, s)[k];
    assert(sp.index2 as int == j);
    let t2 = partner_slot(t);
    let k2 = 12 * j + t2;
    lemma_fundamental_div_mod_converse(k2, 12, j, t2);
    assert(0 <= 12 * j + t2 < 12 * (w * h)) by (nonlinear_arith)
        requires
            0 <= j < w * h,
            0 <= t2 < 12,
    ;
    assert(slot_offset(t2).0 == -dr && slot_offset(t2).1 == -dc);
    assert(slot_kind(t2) == slot_kind(t));
    assert(topology_seq(w, h, s)[k2] == spring_at(w, h, s, k2));
}

/// Rest lengths of an interior particle's springs: the stretch spring to
/// the right-hand neighbour has rest length `s`; the shear spring to the
/// lower-right neighbour has the integer square root of `2 s^2` (the
/// fixed-point value of `s` times the square root of two); the bend spring
/// two columns over has `2 s`.
pub proof fn lemma_rest_lengths(w: int, h: int, s: int, r: int, c: int)
    requires
        grid_error(w, h, s) is None,
        0 <= r,
        r + 1 < h,
        0 <= c,
        c + 2 < w,
    ensures
        ({
            let sp = topology_seq(w, h, s)[12 * (r * w + c) + 1];
            &&& sp.kind == SpringKind::Stretch
            &&& sp.index2 as int == r * w + c + 1
            &&& sp.rest_length as int == s
        }),
        ({
            let sp = topology_seq(w, h, s)[12 * (r * w + c) + 7];
            &&& sp.kind == SpringKind::Shear
            &&& sp.index2 as int == (r + 1) * w + (c + 1)
            &&& (sp.rest_length as int) * (sp.rest_length as int) <= 2 * (s * s)
            &&& 2 * (s * s) < (sp.rest_length as int + 1) * (sp.rest_length as int + 1)
        }),
        ({
            let sp = topology_seq(w, h, s)[12 * (r * w + c) + 9];
            &&& sp.kind == SpringKind::Bend
            &&& sp.index2 as int == r * w + c + 2
            &&& sp.rest_length as int == 2 * s
        }),
{
    assert(w * h <= 268_435_456) by (nonlinear_arith)
        requires
            0 <= w <= 16_384,
            0 <= h <= 16_384,
    ;
    let i = r * w + c;
    assert(0 <= r * w + c && r * w + c + 2 < w * h && (r + 1) * w + (c + 1) < w * h)
        by (nonlinear_arith)
        requires
            0 <= r,
            r + 1 < h,
            0 <= c,
            c + 2 < w,
            2 <= w,
            2 <= h,
    ;
    lemma_fundamental_div_mod_converse(i, w, r, c);
    lemma_fundamental_div_mod_converse(12 * i + 1, 12, i, 1);
    lemma_fundamental_div_mod_converse(12 * i + 7, 12, i, 7);
    lemma_fundamental_div_mod_converse(12 * i + 9, 12, i, 9);
    assert(12 * (r * w + c) + 9 < 12 * (w * h)) by (nonlinear_arith)
        requires
            0 <= r * w + c,
            r * w + c < w * h,
    ;
    assert((r + 1) * w + (c + 1) == r * w + c + w + 1) by (nonlinear_arith);
    let q = rest_of(SpringKind::Shear, s);
    crate::math::lemma_sqrt_floor_bounds((2 * (s * s)) as nat);
    assert(2 * (s * s) >= 0) by (nonlinear_arith)
        requires
            s >= 1,
    ;
    if q > 2 * s {
        assert((2 * s + 1) * (2 * s + 1) <= q * q) by (nonlinear_arith)
            requires
                2 * s + 1 <= q,
                s >= 1,
        ;
        assert(2 * (s * s) < (2 * s + 1) * (2 * s + 1)) by (nonlinear_arith)
            requires
                s >= 1,
        ;
    }
}

} // verus!
