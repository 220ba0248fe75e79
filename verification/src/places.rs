//! The label layer: which labels a tile asks for.
//!
//! Labels come from the layers named `places`. Every feature there is
//! anchored at the first coordinate pair of its geometry, whatever follows
//! it, and asks for one label for each of its names. A feature whose tags
//! cannot be resolved asks for none; a feature whose anchor cannot be decoded
//! is an error of the tile.

use vstd::prelude::*;
use crate::delta::{de_zig_zag, scale_to_tile, zigzag_value};
use crate::error::{error_at, RenderError, TileError};
use crate::label::{label_views, Label, LabelView};
use crate::tile::{label_names, names_of, pair_count, reads, texts, Feature, Layer, Tile};
use crate::units::Delta;

verus! {

/// The anchor of a feature with the given geometry, in a layer of the given
/// extent: the second and third integer of the geometry, decoded. The first,
/// the command integer, is not looked at.
///
/// A geometry of fewer than three integers is `InvalidGeometry`; an extent of
/// zero is then `InvalidExtent`.
pub open spec fn anchor_of(geometry: Seq<u32>, extent: u32) -> Result<(int, int), TileError> {
    if geometry.len() < 3 {
        Err(TileError::InvalidGeometry)
    } else if extent == 0 {
        Err(TileError::InvalidExtent)
    } else {
        Ok(
            (
                scale_to_tile(zigzag_value(geometry[1]), extent as int),
                scale_to_tile(zigzag_value(geometry[2]), extent as int),
            ),
        )
    }
}

/// One label at `(x, y)` for each of `names`.
pub open spec fn labels_at(x: int, y: int, names: Seq<Seq<char>>) -> Seq<LabelView> {
    names.map_values(|text: Seq<char>| LabelView { x, y, text })
}

/// The labels that a feature of `layer` asks for.
pub open spec fn feature_labels(layer: &Layer, feature: &Feature) -> Result<
    Seq<LabelView>,
    TileError,
> {
    match anchor_of(feature.geometry@, layer.extent) {
        Err(e) => Err(e),
        Ok((x, y)) => match names_of(layer, feature.tags@, pair_count(feature.tags@)) {
            Err(_) => Ok(Seq::empty()),
            Ok(names) => Ok(labels_at(x, y, names)),
        },
    }
}

/// The labels that the first `n` features of `layer` ask for, where `layer`
/// is the tile's layer number `index`.
pub open spec fn labels_in(layer: &Layer, index: int, n: nat) -> Result<
    Seq<LabelView>,
    RenderError,
>
    decreases n,
{
    if n == 0 {
        Ok(Seq::empty())
    } else {
        match labels_in(layer, index, (n - 1) as nat) {
            Err(e) => Err(e),
            Ok(labels) => match feature_labels(layer, &layer.features@[n - 1]) {
                Err(kind) => Err(error_at(index, n - 1, kind)),
                Ok(more) => Ok(labels + more),
            },
        }
    }
}

/// The labels that the first `n` layers of `tile` ask for.
pub open spec fn labels_upto(tile: &Tile, n: nat) -> Result<Seq<LabelView>, RenderError>
    decreases n,
{
    if n == 0 {
        Ok(Seq::empty())
    } else {
        match labels_upto(tile, (n - 1) as nat) {
            Err(e) => Err(e),
            Ok(labels) => {
                let layer = tile.layers@[n - 1];
                if layer.name@ != "places"@ {
                    Ok(labels)
                } else {
                    match labels_in(&layer, n - 1, layer.features@.len()) {
                        Err(e) => Err(e),
                        Ok(more) => Ok(labels + more),
                    }
                }
            },
        }
    }
}

/// The labels that the whole tile asks for, in tile order.
pub open spec fn tile_labels(tile: &Tile) -> Result<Seq<LabelView>, RenderError> {
    labels_upto(tile, tile.layers@.len())
}

/// Once a feature's anchor has failed, so have the labels of every longer
/// run of the layer's features.
pub proof fn lemma_labels_in_fail(layer: &Layer, index: int, n: nat, m: nat)
    requires
        n <= m,
        labels_in(layer, index, n) is Err,
    ensures
        labels_in(layer, index, m) == labels_in(layer, index, n),
    decreases m,
{
    if n < m {
        lemma_labels_in_fail(layer, index, n, (m - 1) as nat);
    }
}

/// Once a layer's labels have failed, so have the labels of every longer
/// run of the tile's layers.
pub proof fn lemma_labels_upto_fail(tile: &Tile, n: nat, m: nat)
    requires
        n <= m,
        labels_upto(tile, n) is Err,
    ensures
        labels_upto(tile, m) == labels_upto(tile, n),
    decreases m,
{
    if n < m {
        lemma_labels_upto_fail(tile, n, (m - 1) as nat);
    }
}

/// Decodes the anchor of a feature.
pub fn label_anchor(geometry: &Vec<u32>, extent: u32) -> (res: Result<(Delta, Delta), TileError>)
    ensures
        match res {
            Ok(at) => anchor_of(geometry@, extent) == Ok::<(int, int), TileError>(
                (at.0 as int, at.1 as int),
            ),
            Err(e) => anchor_of(geometry@, extent) == Err::<(int, int), TileError>(e),
        },
{
    if geometry.len() < 3 {
        return Err(TileError::InvalidGeometry);
    }
    let x: Delta = match de_zig_zag(extent, geometry[1]) {
        Ok(d) => d,
        Err(e) => { return Err(e); },
    };
    let y: Delta = match de_zig_zag(extent, geometry[2]) {
        Ok(d) => d,
        Err(e) => { return Err(e); },
    };
    Ok((x, y))
}

/// Appends to `labels` the labels that a feature of `layer` asks for.
///
/// Fails, and leaves `labels` as it was, where the feature has no anchor.
pub fn feature_candidates(layer: &Layer, feature: &Feature, labels: &mut Vec<Label>) -> (res:
    Result<(), TileError>)
    ensures
        match res {
            Ok(()) => feature_labels(layer, feature) matches Ok(more) && label_views(
                final(labels)@,
            ) == label_views(old(labels)@) + more,
            Err(e) => feature_labels(layer, feature) == Err::<Seq<LabelView>, TileError>(e)
                && final(labels)@ == old(labels)@,
        },
{
    let (x, y) = match label_anchor(&feature.geometry, layer.extent) {
        Ok(at) => at,
        Err(e) => { return Err(e); },
    };
    assert(label_views(labels@) + Seq::<LabelView>::empty() =~= label_views(labels@));
    match label_names(layer, feature) {
        Err(_) => {},
        Ok(names) => {
            let count: usize = names.len();
            let mut i: usize = 0;
            let ghost all = labels_at(x as int, y as int, texts(names@));
            while i < count
                invariant
                    count == names@.len(),
                    i <= count,
                    all == labels_at(x as int, y as int, texts(names@)),
                    label_views(labels@) == label_views(old(labels)@) + all.take(i as int),
                decreases count - i,
            {
                let label: Label = Label { x, y, text: names[i].clone() };
                let ghost so_far = label_views(labels@);
                labels.push(label);
                assert(label_views(labels@) =~= so_far.push(label@));
                assert(all.take(i + 1) =~= all.take(i as int).push(label@));
                assert(label_views(old(labels)@) + all.take(i + 1) =~= (label_views(
                    old(labels)@,
                ) + all.take(i as int)).push(label@));
                i = i + 1;
            }
            assert(all.take(count as int) =~= all);
        },
    }
    Ok(())
}

/// The labels that the tile asks for, in tile order: the texts to measure
/// and the anchors at which they would be drawn.
///
/// Fails with the place and the error of the first feature of a `places`
/// layer that has no anchor.
pub fn label_candidates(tile: &Tile) -> (res: Result<Vec<Label>, RenderError>)
    ensures
        match res {
            Ok(labels) => tile_labels(tile) == Ok::<Seq<LabelView>, RenderError>(
                label_views(labels@),
            ),
            Err(e) => tile_labels(tile) == Err::<Seq<LabelView>, RenderError>(e),
        },
{
    let mut labels: Vec<Label> = Vec::new();
    let layers: usize = tile.layers.len();
    let mut li: usize = 0;
    assert(label_views(labels@) =~= Seq::<LabelView>::empty());
    while li < layers
        invariant
            layers == tile.layers@.len(),
            li <= layers,
            labels_upto(tile, li as nat) == Ok::<Seq<LabelView>, RenderError>(
                label_views(labels@),
            ),
        decreases layers - li,
    {
        let layer: &Layer = &tile.layers[li];
        if reads(&layer.name, "places") {
            let features: usize = layer.features.len();
            let mut fi: usize = 0;
            let ghost base = label_views(labels@);
            assert(base + Seq::<LabelView>::empty() =~= base);
            while fi < features
                invariant
                    layers == tile.layers@.len(),
                    li < layers,
                    *layer == tile.layers@[li as int],
                    layer.name@ == "places"@,
                    labels_upto(tile, li as nat) == Ok::<Seq<LabelView>, RenderError>(base),
                    features == layer.features@.len(),
                    fi <= features,
                    labels_in(layer, li as int, fi as nat) matches Ok(more) && label_views(
                        labels@,
                    ) == base + more,
                decreases features - fi,
            {
                let ghost more = labels_in(layer, li as int, fi as nat)->Ok_0;
                match feature_candidates(layer, &layer.features[fi], &mut labels) {
                    Err(kind) => {
                        proof {
                            lemma_labels_in_fail(
                                layer,
                                li as int,
                                (fi + 1) as nat,
                                features as nat,
                            );
                            lemma_labels_upto_fail(tile, (li + 1) as nat, layers as nat);
                        }
                        return Err(RenderError { layer: li, feature: fi, kind });
                    },
                    Ok(()) => {
                        proof {
                            let added = feature_labels(layer, &layer.features@[fi as int])->Ok_0;
                            assert(base + (more + added) =~= (base + more) + added);
                        }
                    },
                }
                fi = fi + 1;
            }
        }
        li = li + 1;
    }
    Ok(labels)
}

} // verus!
