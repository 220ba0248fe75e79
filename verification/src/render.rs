//! The whole pipeline: from a tile to the list of what is drawn.
//!
//! The canvas is cleared; then water is filled, lines are stroked and
//! buildings are filled, each in a pass of its own over the whole tile; last
//! the labels are placed. Later passes paint over earlier ones.

use vstd::prelude::*;
use crate::draw::{calls, lemma_calls_concat, DrawCall, DrawOp, BACKGROUND};
use crate::error::RenderError;
use crate::label::{label_calls, place_labels, Label};
use crate::places::{label_candidates, tile_labels};
use crate::shapes::{pass_shapes, shape_pass, Pass};
use crate::tile::Tile;
use crate::units::Delta;

verus! {

/// What is drawn for `tile` when the text of its `i`-th label measures
/// `widths[i]`: the clearing of the canvas, the three shape passes, then the
/// labels; or the error of the first pass that fails.
pub open spec fn rendering(tile: &Tile, widths: Seq<Delta>) -> Result<Seq<DrawCall>, RenderError> {
    match pass_shapes(tile, Pass::Water) {
        Err(e) => Err(e),
        Ok(water) => match pass_shapes(tile, Pass::Lines) {
            Err(e) => Err(e),
            Ok(lines) => match pass_shapes(tile, Pass::Buildings) {
                Err(e) => Err(e),
                Ok(buildings) => match tile_labels(tile) {
                    Err(e) => Err(e),
                    Ok(labels) => Ok(
                        seq![DrawCall::Clear { color: BACKGROUND }] + water + lines + buildings
                            + label_calls(labels, widths, labels.len()),
                    ),
                },
            },
        },
    }
}

/// Lays out everything that is drawn for a tile, in drawing order.
///
/// `widths` holds the measured width of the text of each label that the tile
/// asks for, in the order of [`label_candidates`]; a label for which it holds
/// no width is not drawn. `zoom` is taken for the caller's convenience and
/// has no effect on what is drawn.
///
/// Fails with the place and the error of the first feature, in drawing order,
/// whose geometry cannot be decoded; nothing is to be drawn then.
pub fn render_tile(tile: &Tile, widths: &Vec<Delta>, zoom: u32) -> (res: Result<
    Vec<DrawOp>,
    RenderError,
>)
    ensures
        match res {
            Ok(ops) => rendering(tile, widths@) == Ok::<Seq<DrawCall>, RenderError>(calls(ops@)),
            Err(e) => rendering(tile, widths@) == Err::<Seq<DrawCall>, RenderError>(e),
        },
{
    let mut ops: Vec<DrawOp> = Vec::new();
    ops.push(DrawOp::Clear { color: BACKGROUND });
    assert(calls(ops@) =~= seq![DrawCall::Clear { color: BACKGROUND }]);
    let mut water: Vec<DrawOp> = match shape_pass(tile, Pass::Water) {
        Err(e) => { return Err(e); },
        Ok(drawn) => drawn,
    };
    let mut lines: Vec<DrawOp> = match shape_pass(tile, Pass::Lines) {
        Err(e) => { return Err(e); },
        Ok(drawn) => drawn,
    };
    let mut buildings: Vec<DrawOp> = match shape_pass(tile, Pass::Buildings) {
        Err(e) => { return Err(e); },
        Ok(drawn) => drawn,
    };
    let labels: Vec<Label> = match label_candidates(tile) {
        Err(e) => { return Err(e); },
        Ok(labels) => labels,
    };
    let mut texts: Vec<DrawOp> = place_labels(&labels, widths);
    proof {
        lemma_calls_concat(ops@, water@);
        lemma_calls_concat(ops@ + water@, lines@);
        lemma_calls_concat(ops@ + water@ + lines@, buildings@);
        lemma_calls_concat(ops@ + water@ + lines@ + buildings@, texts@);
    }
    ops.append(&mut water);
    ops.append(&mut lines);
    ops.append(&mut buildings);
    ops.append(&mut texts);
    Ok(ops)
}

} // verus!
