//! The three passes that draw shapes: water, lines, buildings.
//!
//! Each pass walks the layers in tile order and, in every layer it takes, the
//! features in layer order. It draws the features of one kind and passes the
//! others by. A feature whose geometry cannot be decoded ends the pass with
//! that feature's error.

use vstd::prelude::*;
use crate::draw::{
    calls, lemma_calls_push, DrawCall, DrawOp, BUILDING_FILL, LINE_STROKE, WATER_FILL,
};
use crate::error::{error_at, RenderError};
use crate::path::{geom_to_path, path_of, Path, Segment};
use crate::tile::{reads, GeomType, Layer, Tile};
use crate::units::LINE_WIDTH;

verus! {

/// A pass over the tile that draws shapes.
#[derive(Clone, Copy, PartialEq, Eq, Debug, Structural)]
pub enum Pass {
    /// Fills the polygons of the layers named `water`.
    Water,
    /// Strokes the line strings of every layer.
    Lines,
    /// Fills the polygons of the layers named `buildings`.
    Buildings,
}

impl Pass {
    /// Whether the pass draws from a layer of the given name.
    pub open spec fn takes(self, name: Seq<char>) -> bool {
        match self {
            Pass::Water => name == "water"@,
            Pass::Lines => true,
            Pass::Buildings => name == "buildings"@,
        }
    }

    /// The kind of feature that the pass draws.
    pub open spec fn kind(self) -> GeomType {
        match self {
            Pass::Water => GeomType::Polygon,
            Pass::Lines => GeomType::LineString,
            Pass::Buildings => GeomType::Polygon,
        }
    }

    /// The call by which the pass draws a path.
    pub open spec fn call(self, path: Seq<Segment>) -> DrawCall {
        match self {
            Pass::Water => DrawCall::Fill { path, color: WATER_FILL },
            Pass::Lines => DrawCall::Stroke { path, color: LINE_STROKE, width: LINE_WIDTH as int },
            Pass::Buildings => DrawCall::Fill { path, color: BUILDING_FILL },
        }
    }

    /// Whether the pass draws from the layer.
    pub fn takes_layer(self, layer: &Layer) -> (taken: bool)
        ensures
            taken == self.takes(layer.name@),
    {
        match self {
            Pass::Water => reads(&layer.name, "water"),
            Pass::Lines => true,
            Pass::Buildings => reads(&layer.name, "buildings"),
        }
    }

    /// Whether the pass draws the feature kind.
    pub fn takes_kind(self, kind: GeomType) -> (taken: bool)
        ensures
            taken == (kind == self.kind()),
    {
        match self {
            Pass::Water => kind == GeomType::Polygon,
            Pass::Lines => kind == GeomType::LineString,
            Pass::Buildings => kind == GeomType::Polygon,
        }
    }

    /// The operation by which the pass draws a path.
    pub fn draw(self, path: Path) -> (op: DrawOp)
        ensures
            op@ == self.call(path@),
    {
        match self {
            Pass::Water => DrawOp::Fill { path, color: WATER_FILL },
            Pass::Lines => DrawOp::Stroke { path, color: LINE_STROKE, width: LINE_WIDTH },
            Pass::Buildings => DrawOp::Fill { path, color: BUILDING_FILL },
        }
    }
}

/// What `pass` draws from the first `n` features of `layer`, which is the
/// tile's layer number `index`: one call for each feature of the pass's
/// kind, in order, or the error of the first such feature whose geometry
/// does not decode.
pub open spec fn feature_shapes(layer: &Layer, index: int, pass: Pass, n: nat) -> Result<
    Seq<DrawCall>,
    RenderError,
>
    decreases n,
{
    if n == 0 {
        Ok(Seq::empty())
    } else {
        match feature_shapes(layer, index, pass, (n - 1) as nat) {
            Err(e) => Err(e),
            Ok(drawn) => {
                let feature = layer.features@[n - 1];
                if feature.kind != pass.kind() {
                    Ok(drawn)
                } else {
                    match path_of(feature.geometry@, layer.extent) {
                        Err(kind) => Err(error_at(index, n - 1, kind)),
                        Ok(path) => Ok(drawn.push(pass.call(path))),
                    }
                }
            },
        }
    }
}

/// What `pass` draws from the first `n` layers of `tile`.
pub open spec fn layer_shapes(tile: &Tile, pass: Pass, n: nat) -> Result<Seq<DrawCall>, RenderError>
    decreases n,
{
    if n == 0 {
        Ok(Seq::empty())
    } else {
        match layer_shapes(tile, pass, (n - 1) as nat) {
            Err(e) => Err(e),
            Ok(drawn) => {
                let layer = tile.layers@[n - 1];
                if !pass.takes(layer.name@) {
                    Ok(drawn)
                } else {
                    match feature_shapes(&layer, n - 1, pass, layer.features@.len()) {
                        Err(e) => Err(e),
                        Ok(more) => Ok(drawn + more),
                    }
                }
            },
        }
    }
}

/// What `pass` draws from the whole tile.
pub open spec fn pass_shapes(tile: &Tile, pass: Pass) -> Result<Seq<DrawCall>, RenderError> {
    layer_shapes(tile, pass, tile.layers@.len())
}

/// A pass that has failed within a layer's first `n` features fails in the
/// same way on any more of them.
pub proof fn lemma_feature_shapes_fail(layer: &Layer, index: int, pass: Pass, n: nat, m: nat)
    requires
        n <= m,
        feature_shapes(layer, index, pass, n) is Err,
    ensures
        feature_shapes(layer, index, pass, m) == feature_shapes(layer, index, pass, n),
    decreases m,
{
    if n < m {
        lemma_feature_shapes_fail(layer, index, pass, n, (m - 1) as nat);
    }
}

/// A pass that has failed within the first `n` layers fails in the same way
/// on any more of them.
pub proof fn lemma_layer_shapes_fail(tile: &Tile, pass: Pass, n: nat, m: nat)
    requires
        n <= m,
        layer_shapes(tile, pass, n) is Err,
    ensures
        layer_shapes(tile, pass, m) == layer_shapes(tile, pass, n),
    decreases m,
{
    if n < m {
        lemma_layer_shapes_fail(tile, pass, n, (m - 1) as nat);
    }
}

/// Runs one shape pass over the tile: the operations that it draws, in
/// order, or the place and the error of the first feature of its kind, in a
/// layer it takes, whose geometry does not decode.
pub fn shape_pass(tile: &Tile, pass: Pass) -> (res: Result<Vec<DrawOp>, RenderError>)
    ensures
        match res {
            Ok(ops) => pass_shapes(tile, pass) == Ok::<Seq<DrawCall>, RenderError>(calls(ops@)),
            Err(e) => pass_shapes(tile, pass) == Err::<Seq<DrawCall>, RenderError>(e),
        },
{
    let mut ops: Vec<DrawOp> = Vec::new();
    let layers: usize = tile.layers.len();
    let mut li: usize = 0;
    assert(calls(ops@) =~= Seq::<DrawCall>::empty());
    while li < layers
        invariant
            layers == tile.layers@.len(),
            li <= layers,
            layer_shapes(tile, pass, li as nat) == Ok::<Seq<DrawCall>, RenderError>(calls(ops@)),
        decreases layers - li,
    {
        let layer: &Layer = &tile.layers[li];
        if pass.takes_layer(layer) {
            let features: usize = layer.features.len();
            let mut fi: usize = 0;
            let ghost base = calls(ops@);
            assert(base + Seq::<DrawCall>::empty() =~= base);
            while fi < features
                invariant
                    layers == tile.layers@.len(),
                    li < layers,
                    *layer == tile.layers@[li as int],
                    pass.takes(layer.name@),
                    layer_shapes(tile, pass, li as nat) == Ok::<Seq<DrawCall>, RenderError>(base),
                    features == layer.features@.len(),
                    fi <= features,
                    feature_shapes(layer, li as int, pass, fi as nat) matches Ok(more) && calls(
                        ops@,
                    ) == base + more,
                decreases features - fi,
            {
                let ghost more = feature_shapes(layer, li as int, pass, fi as nat)->Ok_0;
                if pass.takes_kind(layer.features[fi].kind) {
                    match geom_to_path(&layer.features[fi].geometry, layer.extent) {
                        Err(kind) => {
                            proof {
                                lemma_feature_shapes_fail(
                                    layer,
                                    li as int,
                                    pass,
                                    (fi + 1) as nat,
                                    features as nat,
                                );
                                lemma_layer_shapes_fail(
                                    tile,
                                    pass,
                                    (li + 1) as nat,
                                    layers as nat,
                                );
                            }
                            return Err(RenderError { layer: li, feature: fi, kind });
                        },
                        Ok(path) => {
                            let op: DrawOp = pass.draw(path);
                            proof {
                                lemma_calls_push(ops@, op);
                                assert(base + more.push(op@) =~= (base + more).push(op@));
                            }
                            ops.push(op);
                        },
                    }
                }
                fi = fi + 1;
            }
        }
        li = li + 1;
    }
    Ok(ops)
}

} // verus!
