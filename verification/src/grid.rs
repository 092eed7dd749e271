//! Initial particle layout: a flat rectangular grid at rest spacing with
//! zero velocity.

use vstd::prelude::*;
use vstd::arithmetic::div_mod::{
    lemma_div_pos_is_pos, lemma_fundamental_div_mod_converse,
    lemma_mod_division_less_than_divisor, lemma_multiply_divide_lt,
};
use vstd::arithmetic::mul::{lemma_mul_inequality, lemma_mul_nonnegative};
use crate::math::LIMIT;
use crate::types::{particle_ok, particles_ok, ConfigError, Particle, Vec3};

verus! {

/// Largest accepted number of rows or columns of the particle grid.
pub const GRID_MAX: usize = 16_384;

/// The particle at flat index `i` of a grid with `w` columns and spacing
/// `s`: laid out row-major in the plane, at rest, with zero velocity.
pub open spec fn grid_particle(w: int, s: int, i: int) -> Particle {
    let r = i / w;
    let c = i % w;
    Particle {
        position: Vec3 { x: (r * s) as i64, y: (c * s) as i64, z: 0 },
        velocity: Vec3 { x: 0, y: 0, z: 0 },
    }
}

/// The whole initial grid of `w` columns by `h` rows.
pub open spec fn grid_seq(w: int, h: int, s: int) -> Seq<Particle> {
    Seq::new((w * h) as nat, |i: int| grid_particle(w, s, i))
}

/// The first reason a grid configuration is rejected for, if any.
pub open spec fn grid_error(width: int, height: int, spacing: int) -> Option<ConfigError> {
    if width < 2 || height < 2 {
        Some(ConfigError::BadDimensions)
    } else if spacing <= 0 {
        Some(ConfigError::NonPositiveSpacing)
    } else if width > GRID_MAX as int || height > GRID_MAX as int || spacing > LIMIT as int
        || (width - 1) * spacing > LIMIT as int || (height - 1) * spacing > LIMIT as int
        || 2 * spacing > LIMIT as int {
        Some(ConfigError::OutOfRange)
    } else {
        None
    }
}

/// Build the flat particle grid: `rows * cols` particles at rest, spaced by
/// `spacing`, row-major, with zero velocity.
pub fn generate_cloth(rows: usize, cols: usize, spacing: i64) -> (v: Vec<Particle>)
    requires
        0 <= spacing,
        rows <= GRID_MAX,
        cols <= GRID_MAX,
        (rows as int - 1) * (spacing as int) <= LIMIT as int,
        (cols as int - 1) * (spacing as int) <= LIMIT as int,
    ensures
        v@ == grid_seq(cols as int, rows as int, spacing as int),
{
    let mut v: Vec<Particle> = Vec::new();
    let mut row: usize = 0;
    while row < rows
        invariant
            row <= rows,
            rows <= GRID_MAX,
            cols <= GRID_MAX,
            0 <= spacing,
            (rows as int - 1) * (spacing as int) <= LIMIT as int,
            (cols as int - 1) * (spacing as int) <= LIMIT as int,
            v@.len() == row * cols,
            forall|i: int|
                0 <= i < v@.len() ==> v@[i] == grid_particle(cols as int, spacing as int, i),
        decreases rows - row,
    {
        let mut col: usize = 0;
        while col < cols
            invariant
                row < rows,
                col <= cols,
                rows <= GRID_MAX,
                cols <= GRID_MAX,
                0 <= spacing,
                (rows as int - 1) * (spacing as int) <= LIMIT as int,
                (cols as int - 1) * (spacing as int) <= LIMIT as int,
                v@.len() == row * cols + col,
                forall|i: int|
                    0 <= i < v@.len() ==> v@[i] == grid_particle(cols as int, spacing as int, i),
            decreases cols - col,
        {
            proof {
                lemma_mul_inequality(row as int, rows as int - 1, spacing as int);
                lemma_mul_inequality(col as int, cols as int - 1, spacing as int);
                lemma_mul_nonnegative(row as int, spacing as int);
                lemma_mul_nonnegative(col as int, spacing as int);
                lemma_fundamental_div_mod_converse(
                    row as int * cols as int + col as int,
                    cols as int,
                    row as int,
                    col as int,
                );
                lemma_mul_inequality(row as int, rows as int, cols as int);
            }
            let x: i64 = (row as i64) * spacing;
            let y: i64 = (col as i64) * spacing;
            v.push(Particle::new(x, y, 0, 0, 0, 0));
            col = col + 1;
        }
        row = row + 1;
        proof {
            assert(row as int * cols as int == (row as int - 1) * cols as int + cols as int)
                by (nonlinear_arith);
        }
    }
    proof {
        assert(rows as int * cols as int == cols as int * rows as int) by (nonlinear_arith);
        assert(v@ =~= grid_seq(cols as int, rows as int, spacing as int));
    }
    v
}

/// The coordinates of a grid particle, read back as integers: row times
/// spacing, column times spacing, zero — all within the representable
/// range, with zero velocity.
pub proof fn lemma_grid_particle_coords(w: int, h: int, s: int, i: int)
    requires
        grid_error(w, h, s) is None,
        0 <= i < w * h,
    ensures
        ({
            let p = grid_particle(w, s, i);
            &&& p.position.x as int == (i / w) * s
            &&& p.position.y as int == (i % w) * s
            &&& p.position.z == 0
            &&& p.velocity == (Vec3 { x: 0i64, y: 0i64, z: 0i64 })
            &&& 0 <= (i / w) * s <= LIMIT as int
            &&& 0 <= (i % w) * s <= LIMIT as int
            &&& 0 <= i / w < h
            &&& 0 <= i % w < w
            &&& particle_ok(p)
        }),
{
    lemma_multiply_divide_lt(i, w, h);
    lemma_div_pos_is_pos(i, w);
    lemma_mod_division_less_than_divisor(i, w);
    lemma_mul_inequality(i / w, h - 1, s);
    lemma_mul_nonnegative(i / w, s);
    lemma_mul_inequality(i % w, w - 1, s);
    lemma_mul_nonnegative(i % w, s);
}

/// Every particle of the initial grid is within the representable range.
pub proof fn lemma_grid_particles_ok(w: int, h: int, s: int)
    requires
        grid_error(w, h, s) is None,
    ensures
        particles_ok(grid_seq(w, h, s)),
        grid_seq(w, h, s).len() == w * h,
{
    lemma_mul_nonnegative(w, h);
    assert forall|i: int| 0 <= i < grid_seq(w, h, s).len() implies particle_ok(
        #[trigger] grid_seq(w, h, s)[i],
    ) by {
        lemma_grid_particle_coords(w, h, s, i);
    }
}

/// Test a grid configuration, naming the first reason it is rejected for.
pub fn check_grid(width: usize, height: usize, spacing: i64) -> (r: Option<ConfigError>)
    ensures
        r == grid_error(width as int, height as int, spacing as int),
{
    if width < 2 || height < 2 {
        return Some(ConfigError::BadDimensions);
    }
    if spacing <= 0 {
        return Some(ConfigError::NonPositiveSpacing);
    }
    if width > GRID_MAX || height > GRID_MAX || spacing > LIMIT {
        return Some(ConfigError::OutOfRange);
    }
    proof {
        lemma_mul_inequality(width as int - 1, GRID_MAX as int, spacing as int);
        lemma_mul_inequality(height as int - 1, GRID_MAX as int, spacing as int);
        assert(GRID_MAX as int * spacing as int <= 1_000_000_000_000_000_000int)
            by (nonlinear_arith)
            requires
                spacing as int <= LIMIT as int,
                LIMIT == 1_000_000_000_000i64,
                GRID_MAX == 16_384usize,
        ;
        lemma_mul_nonnegative(width as int - 1, spacing as int);
        lemma_mul_nonnegative(height as int - 1, spacing as int);
    }
    if ((width - 1) as i64) * spacing > LIMIT || ((height - 1) as i64) * spacing > LIMIT
        || 2 * spacing > LIMIT {
        return Some(ConfigError::OutOfRange);
    }
    None
}

/// Validated setup entry: the initial particle buffer of a `width` by
/// `height` grid, or the reason the configuration is rejected.
pub fn init_particles(width: usize, height: usize, spacing: i64) -> (r: Result<
    Vec<Particle>,
    ConfigError,
>)
    ensures
        ({
            match r {
                Ok(v) => grid_error(width as int, height as int, spacing as int) is None && v@
                    == grid_seq(width as int, height as int, spacing as int),
                Err(e) => grid_error(width as int, height as int, spacing as int) == Some(e),
            }
        }),
{
    match check_grid(width, height, spacing) {
        Some(e) => Err(e),
        None => Ok(generate_cloth(height, width, spacing)),
    }
}

} // verus!
