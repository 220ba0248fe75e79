//! Decoding of single coordinate deltas.
//!
//! A geometry stores each coordinate as the zigzag code of its signed
//! distance from the previous one, counted in the layer's own grid of
//! `extent` cells a side. Decoding undoes the zigzag code and rescales the
//! distance to the logical tile.

use vstd::prelude::*;
use vstd::arithmetic::div_mod::{
    lemma_div_denominator, lemma_div_multiples_vanish, lemma_div_nonincreasing,
    lemma_div_pos_is_pos, lemma_fundamental_div_mod,
};
use crate::error::TileError;
use crate::units::{Delta, DELTA_LIMIT, STEPS_PER_UNIT, TILE_SIZE};

verus! {

/// The signed integer that the zigzag code `raw` stands for: even codes are
/// the non-negative integers, odd codes the negative ones.
pub open spec fn zigzag_value(raw: u32) -> int {
    if raw % 2 == 0 {
        (raw / 2) as int
    } else {
        -((raw / 2) as int) - 1
    }
}

/// The zigzag code of `value`.
pub open spec fn zigzag_code(value: i32) -> int {
    if value >= 0 {
        2 * value
    } else {
        -2 * value - 1
    }
}

/// `signed` cells of a grid of `extent` cells a side, in steps of the logical
/// tile, rounded toward zero.
pub open spec fn scale_to_tile(signed: int, extent: int) -> int {
    if signed >= 0 {
        (signed * TILE_SIZE) / extent
    } else {
        -((-signed * TILE_SIZE) / extent)
    }
}

/// What decoding `raw` in a layer of the given extent yields.
pub open spec fn decoded(raw: u32, extent: u32) -> Result<int, TileError> {
    if extent == 0 {
        Err(TileError::InvalidExtent)
    } else {
        Ok(scale_to_tile(zigzag_value(raw), extent as int))
    }
}

/// Undoes the zigzag code. The result is what `(raw >> 1) ^ -(raw & 1)`
/// comes to in 32-bit two's complement.
pub fn zigzag_decode(raw: u32) -> (signed: i32)
    ensures
        signed == zigzag_value(raw),
{
    let half: u32 = raw >> 1;
    let low: u32 = raw & 1;
    assert(half == raw / 2 && low == raw % 2 && half <= 0x7fff_ffff) by (bit_vector)
        requires
            half == raw >> 1,
            low == raw & 1,
    ;
    if low == 0 {
        half as i32
    } else {
        -(half as i32) - 1
    }
}

/// The zigzag code of `value`: what `(value << 1) ^ (value >> 31)` comes to
/// in 32-bit two's complement.
pub fn zigzag_encode(value: i32) -> (raw: u32)
    ensures
        raw == zigzag_code(value),
        zigzag_value(raw) == value,
{
    if value >= 0 {
        2 * (value as u32)
    } else {
        let below: u32 = (-(value + 1)) as u32;
        2 * below + 1
    }
}

/// Decodes one raw geometry parameter of a layer with the given extent into
/// a signed distance on the logical tile.
///
/// Fails with `InvalidExtent` exactly when `extent` is zero. Otherwise the
/// result is the distance that `raw` encodes, times the 2048 units of the
/// tile, divided by `extent` and rounded toward zero.
pub fn de_zig_zag(extent: u32, raw: u32) -> (res: Result<Delta, TileError>)
    ensures
        match res {
            Ok(d) => decoded(raw, extent) == Ok::<int, TileError>(d as int),
            Err(e) => decoded(raw, extent) == Err::<int, TileError>(e),
        },
        res is Err <==> extent == 0,
        res matches Err(e) ==> e == TileError::InvalidExtent,
        res matches Ok(d) ==> -DELTA_LIMIT <= d <= DELTA_LIMIT,
        raw == 0 && extent > 0 ==> res == Ok::<Delta, TileError>(0),
{
    if extent == 0 {
        return Err(TileError::InvalidExtent);
    }
    let signed: i32 = zigzag_decode(raw);
    assert(TILE_SIZE == 134_217_728 && DELTA_LIMIT == 0x400_0000_0000_0000);
    proof {
        lemma_scale_bound(signed as int, extent as int);
    }
    let cells: i64 = (signed as i64) * TILE_SIZE;
    Ok(cells / (extent as i64))
}

/// A decoded delta is never longer than the raw distance would be in a grid
/// of a single cell: at most 2^31 tiles.
pub proof fn lemma_scale_bound(signed: int, extent: int)
    requires
        extent > 0,
    ensures
        signed >= 0 ==> 0 <= scale_to_tile(signed, extent) <= signed * TILE_SIZE,
        signed <= 0 ==> signed * TILE_SIZE <= scale_to_tile(signed, extent) <= 0,
{
    if signed >= 0 {
        lemma_div_pos_is_pos(signed * TILE_SIZE, extent);
        lemma_div_nonincreasing(signed * TILE_SIZE, extent);
    } else {
        lemma_div_pos_is_pos(-signed * TILE_SIZE, extent);
        lemma_div_nonincreasing(-signed * TILE_SIZE, extent);
    }
}

/// Zigzag decoding undoes zigzag encoding, for every 32-bit integer.
pub proof fn lemma_zigzag_round_trip(value: i32)
    ensures
        0 <= zigzag_code(value) <= u32::MAX,
        zigzag_value(zigzag_code(value) as u32) == value,
{
}

/// Zigzag encoding undoes zigzag decoding, for every code.
pub proof fn lemma_zigzag_code_of_value(raw: u32)
    ensures
        i32::MIN <= zigzag_value(raw) <= i32::MAX,
        zigzag_code(zigzag_value(raw) as i32) == raw,
{
}

/// The code zero decodes to the distance zero, whatever the extent.
pub proof fn lemma_decode_zero(extent: u32)
    requires
        extent > 0,
    ensures
        decoded(0, extent) == Ok::<int, TileError>(0),
{
    lemma_scale_bound(0, extent as int);
}

/// In a layer whose grid is the logical tile's own, 2048 cells a side,
/// decoding the zigzag code of `x` gives `x` whole units; and zero decodes
/// to zero in every grid.
pub proof fn lemma_decode_round_trip(x: i32, extent: u32)
    requires
        extent == 2048 || (x == 0 && extent > 0),
    ensures
        decoded(zigzag_code(x) as u32, extent) == Ok::<int, TileError>(x * STEPS_PER_UNIT),
{
    lemma_zigzag_round_trip(x);
    if x == 0 {
        lemma_scale_bound(0, extent as int);
    } else if x > 0 {
        assert(x * TILE_SIZE == 2048 * (x * STEPS_PER_UNIT));
        lemma_div_multiples_vanish(x * STEPS_PER_UNIT, 2048);
    } else {
        assert(-x * TILE_SIZE == 2048 * (-x * STEPS_PER_UNIT));
        lemma_div_multiples_vanish(-x * STEPS_PER_UNIT, 2048);
    }
}

/// In any grid, a whole number `x` of logical units that falls on a grid
/// line survives encoding and decoding: if `x` units are `cells` cells of a
/// grid of `extent` cells a side, the code of `cells` decodes to `x` units.
pub proof fn lemma_decode_round_trip_scaled(x: int, cells: i32, extent: u32)
    requires
        extent > 0,
        cells * 2048 == x * extent,
    ensures
        decoded(zigzag_code(cells) as u32, extent) == Ok::<int, TileError>(x * STEPS_PER_UNIT),
{
    lemma_zigzag_round_trip(cells);
    let e = extent as int;
    if cells >= 0 {
        assert(x >= 0) by (nonlinear_arith)
            requires
                cells * 2048 == x * e,
                cells >= 0,
                e > 0,
        ;
        assert(cells * TILE_SIZE == e * (x * STEPS_PER_UNIT)) by (nonlinear_arith)
            requires
                cells * 2048 == x * e,
                TILE_SIZE == 2048 * STEPS_PER_UNIT,
        ;
        lemma_div_multiples_vanish(x * STEPS_PER_UNIT, e);
    } else {
        assert(-cells * TILE_SIZE == e * (-x * STEPS_PER_UNIT)) by (nonlinear_arith)
            requires
                cells * 2048 == x * e,
                TILE_SIZE == 2048 * STEPS_PER_UNIT,
        ;
        lemma_div_multiples_vanish(-x * STEPS_PER_UNIT, e);
    }
}

/// Decoding does not round in a grid whose extent divides the steps of the
/// tile, as every power of two up to 2^27 does: the decoded length is then
/// the very fraction `signed / extent` of the tile's side.
pub proof fn lemma_scale_exact(signed: int, extent: int)
    requires
        extent > 0,
        TILE_SIZE as int % extent == 0,
    ensures
        scale_to_tile(signed, extent) * extent == signed * TILE_SIZE,
{
    let per_cell = TILE_SIZE as int / extent;
    lemma_fundamental_div_mod(TILE_SIZE as int, extent);
    assert(TILE_SIZE == extent * per_cell);
    if signed >= 0 {
        assert(signed * TILE_SIZE == extent * (signed * per_cell)) by (nonlinear_arith)
            requires
                TILE_SIZE == extent * per_cell,
        ;
        lemma_div_multiples_vanish(signed * per_cell, extent);
        assert((signed * per_cell) * extent == signed * TILE_SIZE) by (nonlinear_arith)
            requires
                TILE_SIZE == extent * per_cell,
        ;
    } else {
        assert(-signed * TILE_SIZE == extent * (-signed * per_cell)) by (nonlinear_arith)
            requires
                TILE_SIZE == extent * per_cell,
        ;
        lemma_div_multiples_vanish(-signed * per_cell, extent);
        assert(-(-signed * per_cell) * extent == signed * TILE_SIZE) by (nonlinear_arith)
            requires
                TILE_SIZE == extent * per_cell,
        ;
    }
}

/// The logical tile does not depend on the grid: a distance of all `extent`
/// cells is the side of the tile, 2048 units, whatever `extent` is.
pub proof fn lemma_full_extent_is_tile(extent: int)
    requires
        extent > 0,
    ensures
        scale_to_tile(extent, extent) == TILE_SIZE,
        scale_to_tile(-extent, extent) == -TILE_SIZE,
{
    lemma_div_multiples_vanish(TILE_SIZE as int, extent);
}

/// A distance keeps its logical length when the grid is refined: `signed`
/// cells of a grid of `extent` cells are as long as `factor * signed` cells
/// of a grid of `factor * extent` cells.
pub proof fn lemma_scale_refines(signed: int, extent: int, factor: int)
    requires
        extent > 0,
        factor > 0,
    ensures
        scale_to_tile(factor * signed, factor * extent) == scale_to_tile(signed, extent),
{
    let cells = if signed >= 0 { signed * TILE_SIZE } else { -signed * TILE_SIZE };
    assert(cells >= 0);
    assert(factor * cells >= 0) by (nonlinear_arith)
        requires
            factor > 0,
            cells >= 0,
    ;
    lemma_div_denominator(factor * cells, factor, extent);
    lemma_div_multiples_vanish(cells, factor);
    if signed >= 0 {
        assert(factor * signed >= 0) by (nonlinear_arith)
            requires
                factor > 0,
                signed >= 0,
        ;
        assert((factor * signed) * TILE_SIZE == factor * cells) by (nonlinear_arith)
            requires
                cells == signed * TILE_SIZE,
        ;
    } else {
        assert(factor * signed < 0) by (nonlinear_arith)
            requires
                factor > 0,
                signed < 0,
        ;
        assert(-(factor * signed) * TILE_SIZE == factor * cells) by (nonlinear_arith)
            requires
                cells == -signed * TILE_SIZE,
        ;
    }
}

} // verus!
