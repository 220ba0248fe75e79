//! Draw operations: what the pipeline hands to whatever paints the tile.

use vstd::prelude::*;
use crate::path::{Path, Segment};
use crate::units::Delta;

verus! {

/// Colours are `0xRRGGBBAA`.
pub type Color = u32;

/// What the canvas is cleared to: black.
pub const BACKGROUND: u32 = 0x0000_00FF;

/// Fill of water polygons: a dark gray.
pub const WATER_FILL: u32 = 0x1111_11FF;

/// Stroke of lines: a mid gray.
pub const LINE_STROKE: u32 = 0x5555_55FF;

/// Fill of building polygons: a mid gray.
pub const BUILDING_FILL: u32 = 0x5555_55FF;

/// Outline of label text: black.
pub const LABEL_OUTLINE: u32 = 0x0000_00FF;

/// Fill of label text: white.
pub const LABEL_FILL: u32 = 0xFFFF_FFFF;

/// One request to the painter. Lengths and positions are in steps of the
/// logical tile; text is anchored at the left end of its baseline.
#[derive(PartialEq, Eq, Debug)]
pub enum DrawOp {
    /// Clear the whole canvas.
    Clear { color: Color },
    /// Fill the inside of a path.
    Fill { path: Path, color: Color },
    /// Stroke a path with a line of the given width.
    Stroke { path: Path, color: Color, width: Delta },
    /// Stroke the outline of the glyphs of a text.
    StrokeText { text: String, x: Delta, y: Delta, color: Color, width: Delta },
    /// Fill the glyphs of a text.
    DrawText { text: String, x: Delta, y: Delta, color: Color },
}

/// A [`DrawOp`] as a mathematical value.
pub enum DrawCall {
    Clear { color: Color },
    Fill { path: Seq<Segment>, color: Color },
    Stroke { path: Seq<Segment>, color: Color, width: int },
    StrokeText { text: Seq<char>, x: int, y: int, color: Color, width: int },
    DrawText { text: Seq<char>, x: int, y: int, color: Color },
}

impl View for DrawOp {
    type V = DrawCall;

    open spec fn view(&self) -> DrawCall {
        match *self {
            DrawOp::Clear { color } => DrawCall::Clear { color },
            DrawOp::Fill { path, color } => DrawCall::Fill { path: path@, color },
            DrawOp::Stroke { path, color, width } => DrawCall::Stroke {
                path: path@,
                color,
                width: width as int,
            },
            DrawOp::StrokeText { text, x, y, color, width } => DrawCall::StrokeText {
                text: text@,
                x: x as int,
                y: y as int,
                color,
                width: width as int,
            },
            DrawOp::DrawText { text, x, y, color } => DrawCall::DrawText {
                text: text@,
                x: x as int,
                y: y as int,
                color,
            },
        }
    }
}

/// The calls that a list of operations stands for.
pub open spec fn calls(ops: Seq<DrawOp>) -> Seq<DrawCall> {
    ops.map_values(|op: DrawOp| op@)
}

/// Appending an operation appends its call.
pub proof fn lemma_calls_push(ops: Seq<DrawOp>, op: DrawOp)
    ensures
        calls(ops.push(op)) == calls(ops).push(op@),
{
    assert(calls(ops.push(op)) =~= calls(ops).push(op@));
}

/// The calls of two lists, one after the other, are the calls of the lists
/// joined.
pub proof fn lemma_calls_concat(first: Seq<DrawOp>, second: Seq<DrawOp>)
    ensures
        calls(first + second) == calls(first) + calls(second),
{
    assert(calls(first + second) =~= calls(first) + calls(second));
}

} // verus!
