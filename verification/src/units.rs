//! The logical tile space and its fixed-point representation.
//!
//! Whatever extent a layer declares, its coordinates are mapped onto one
//! square of 2048 logical units a side. A logical length is held as a whole
//! number of steps, 65536 steps to the unit, so that halves, quarters and the
//! like of a unit are exact.

use vstd::prelude::*;

verus! {

/// A signed length in steps: one decoded coordinate delta, an anchor, a text
/// width.
pub type Delta = i64;

/// A position in steps. Wide enough for the sum of every delta that a
/// geometry held in memory can encode.
pub type Coord = i128;

/// Steps in one logical unit.
pub const STEPS_PER_UNIT: i64 = 65_536;

/// Side of the logical tile: 2048 units.
pub const TILE_SIZE: i64 = 134_217_728;

/// No decoded delta is longer than this: 2^31 tiles, which is what the
/// longest raw distance comes to in a grid of a single cell.
pub const DELTA_LIMIT: i64 = 288_230_376_151_711_744;

/// Height of label text: 22 units.
pub const FONT_SIZE: i64 = 1_441_792;

/// Width of stroked lines: 5 units.
pub const LINE_WIDTH: i64 = 327_680;

/// Width of the outline drawn behind label text: 8 units.
pub const OUTLINE_WIDTH: i64 = 524_288;

/// What the constants above are in units.
pub proof fn lemma_unit_constants()
    ensures
        TILE_SIZE == 2048 * STEPS_PER_UNIT,
        DELTA_LIMIT == 0x8000_0000 * TILE_SIZE,
        FONT_SIZE == 22 * STEPS_PER_UNIT,
        LINE_WIDTH == 5 * STEPS_PER_UNIT,
        OUTLINE_WIDTH == 8 * STEPS_PER_UNIT,
{
}

} // verus!
