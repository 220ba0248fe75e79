//! What can be wrong with a tile.

use vstd::prelude::*;

verus! {

/// The ways in which tile data can be unusable.
#[derive(Clone, Copy, PartialEq, Eq, Debug, Structural)]
pub enum TileError {
    /// A layer declares an extent of zero, so its coordinates have no scale.
    InvalidExtent,
    /// A geometry command asks for more parameters than the stream holds.
    InvalidGeometry,
    /// A tag names a key that the layer's key table does not have.
    MissingTag,
    /// A tag names a value that the layer's value table does not have, or
    /// one that is not text where text is needed.
    MissingValue,
}

/// A [`TileError`] together with the place in the tile where it was met.
#[derive(Clone, Copy, PartialEq, Eq, Debug, Structural)]
pub struct RenderError {
    /// Index of the layer in the tile.
    pub layer: usize,
    /// Index of the feature in that layer.
    pub feature: usize,
    /// What was wrong with the feature.
    pub kind: TileError,
}

/// The error of kind `kind` met at the feature number `feature` of the layer
/// number `layer`.
pub open spec fn error_at(layer: int, feature: int, kind: TileError) -> RenderError {
    RenderError { layer: layer as usize, feature: feature as usize, kind }
}

} // verus!
