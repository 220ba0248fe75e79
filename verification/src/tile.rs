//! The contents of one tile, as the drawing code reads them.
//!
//! A tile is a list of layers. A layer has a name, the extent of its
//! coordinate grid, two tables of keys and values, and its features. A
//! feature has a geometry, a kind, and tags: indices into the two tables of
//! its layer, taken in pairs of key and value.

use vstd::prelude::*;
use crate::error::TileError;

verus! {

/// What a feature's geometry describes.
#[derive(Clone, Copy, PartialEq, Eq, Debug, Structural)]
pub enum GeomType {
    Unknown,
    Point,
    LineString,
    Polygon,
}

/// An entry of a layer's value table. The two floating-point kinds are held
/// by their bit patterns, which nothing here interprets.
#[derive(PartialEq, Eq, Debug)]
pub enum Value {
    Text(String),
    Float(u32),
    Double(u64),
    Int(i64),
    Uint(u64),
    Sint(i64),
    Bool(bool),
}

/// One feature of a layer.
#[derive(PartialEq, Eq, Debug)]
pub struct Feature {
    /// Command integers and their parameters.
    pub geometry: Vec<u32>,
    /// Key index, value index, key index, value index, ...
    pub tags: Vec<u32>,
    pub kind: GeomType,
}

/// One layer of a tile.
#[derive(PartialEq, Eq, Debug)]
pub struct Layer {
    pub name: String,
    /// Cells along one side of the layer's coordinate grid.
    pub extent: u32,
    pub keys: Vec<String>,
    pub values: Vec<Value>,
    pub features: Vec<Feature>,
}

/// A whole tile: its layers in drawing order.
#[derive(PartialEq, Eq, Debug)]
pub struct Tile {
    pub layers: Vec<Layer>,
}

/// The key under which a feature carries the text of its label.
pub open spec fn name_key() -> Seq<char> {
    "name"@
}

/// The number of tags pairs of `tags`; a last key without a value counts.
pub open spec fn pair_count(tags: Seq<u32>) -> nat {
    ((tags.len() + 1) / 2) as nat
}

/// What the `pair`-th tag pair of `tags` adds to the names of a feature of
/// `layer`: nothing where its key is not the name key, the text that its
/// value index selects where it is.
///
/// A key index outside the key table is `MissingTag`. Under the name key, a
/// value index that is absent or outside the value table, or that selects a
/// value that is not text, is `MissingValue`.
pub open spec fn name_of_pair(layer: &Layer, tags: Seq<u32>, pair: int) -> Result<
    Option<Seq<char>>,
    TileError,
> {
    let key = tags[2 * pair] as int;
    if key >= layer.keys@.len() {
        Err(TileError::MissingTag)
    } else if layer.keys@[key]@ != name_key() {
        Ok(None)
    } else if 2 * pair + 1 >= tags.len() {
        Err(TileError::MissingValue)
    } else {
        let value = tags[2 * pair + 1] as int;
        if value >= layer.values@.len() {
            Err(TileError::MissingValue)
        } else {
            match layer.values@[value] {
                Value::Text(text) => Ok(Some(text@)),
                _ => Err(TileError::MissingValue),
            }
        }
    }
}

/// The names that the first `pairs` tag pairs of `tags` give a feature of
/// `layer`, in the order of the tags, or the error of the first pair that
/// has one.
pub open spec fn names_of(layer: &Layer, tags: Seq<u32>, pairs: nat) -> Result<
    Seq<Seq<char>>,
    TileError,
>
    decreases pairs,
{
    if pairs == 0 {
        Ok(Seq::empty())
    } else {
        match names_of(layer, tags, (pairs - 1) as nat) {
            Err(e) => Err(e),
            Ok(names) => match name_of_pair(layer, tags, pairs - 1) {
                Err(e) => Err(e),
                Ok(None) => Ok(names),
                Ok(Some(name)) => Ok(names.push(name)),
            },
        }
    }
}

/// The views of a list of strings.
pub open spec fn texts(strings: Seq<String>) -> Seq<Seq<char>> {
    strings.map_values(|s: String| s@)
}

/// Whether `text` reads exactly as `literal`.
pub fn reads(text: &String, literal: &str) -> (same: bool)
    ensures
        same == (text@ == literal@),
{
    let owned: String = literal.to_owned();
    *text == owned
}

/// The key that a tag's key index selects, or `MissingTag` where the layer
/// has no such key.
pub fn key_at(layer: &Layer, index: u32) -> (res: Result<&String, TileError>)
    ensures
        match res {
            Ok(key) => index < layer.keys@.len() && *key == layer.keys@[index as int],
            Err(e) => index >= layer.keys@.len() && e == TileError::MissingTag,
        },
{
    if (index as usize) < layer.keys.len() {
        Ok(&layer.keys[index as usize])
    } else {
        Err(TileError::MissingTag)
    }
}

/// The text that a tag's value index selects, or `MissingValue` where the
/// layer has no such value or the value is not text.
pub fn text_at(layer: &Layer, index: u32) -> (res: Result<&String, TileError>)
    ensures
        match res {
            Ok(text) => index < layer.values@.len() && layer.values@[index as int]
                == Value::Text(*text),
            Err(e) => e == TileError::MissingValue && (index < layer.values@.len()
                ==> !(layer.values@[index as int] is Text)),
        },
{
    if (index as usize) < layer.values.len() {
        match &layer.values[index as usize] {
            Value::Text(text) => Ok(text),
            _ => Err(TileError::MissingValue),
        }
    } else {
        Err(TileError::MissingValue)
    }
}

/// The names under which a feature asks to be labelled: the text of every tag
/// whose key is `name`, in the order of the tags.
///
/// Fails with the error of the first tag pair that cannot be resolved; such
/// a feature is to get no label at all.
pub fn label_names(layer: &Layer, feature: &Feature) -> (res: Result<Vec<String>, TileError>)
    ensures
        match res {
            Ok(names) => names_of(layer, feature.tags@, pair_count(feature.tags@)) == Ok::<
                Seq<Seq<char>>,
                TileError,
            >(texts(names@)),
            Err(e) => names_of(layer, feature.tags@, pair_count(feature.tags@)) == Err::<
                Seq<Seq<char>>,
                TileError,
            >(e),
        },
{
    let len: usize = feature.tags.len();
    let pairs: usize = len / 2 + len % 2;
    let mut names: Vec<String> = Vec::new();
    let mut pair: usize = 0;
    assert(texts(names@) =~= Seq::<Seq<char>>::empty());
    while pair < pairs
        invariant
            len == feature.tags@.len(),
            pairs == pair_count(feature.tags@),
            pair <= pairs,
            names_of(layer, feature.tags@, pair as nat) == Ok::<Seq<Seq<char>>, TileError>(
                texts(names@),
            ),
        decreases pairs - pair,
    {
        let at: usize = 2 * pair;
        let ghost so_far = texts(names@);
        match key_at(layer, feature.tags[at]) {
            Err(e) => {
                proof {
                    lemma_names_fail(layer, feature.tags@, pair as nat, pairs as nat);
                }
                return Err(e);
            },
            Ok(key) => {
                if reads(key, "name") {
                    if at + 1 >= len {
                        proof {
                            lemma_names_fail(layer, feature.tags@, pair as nat, pairs as nat);
                        }
                        return Err(TileError::MissingValue);
                    }
                    match text_at(layer, feature.tags[at + 1]) {
                        Err(e) => {
                            proof {
                                lemma_names_fail(layer, feature.tags@, pair as nat, pairs as nat);
                            }
                            return Err(e);
                        },
                        Ok(text) => {
                            names.push(text.clone());
                            assert(texts(names@) =~= so_far.push(text@));
                        },
                    }
                }
            },
        }
        pair = pair + 1;
    }
    Ok(names)
}

/// Once a tag pair has failed, the names of every longer run of pairs fail
/// in the same way.
pub proof fn lemma_names_fail(layer: &Layer, tags: Seq<u32>, pair: nat, pairs: nat)
    requires
        pair < pairs,
        names_of(layer, tags, pair) is Ok,
        name_of_pair(layer, tags, pair as int) is Err,
    ensures
        names_of(layer, tags, pairs) == Err::<Seq<Seq<char>>, TileError>(
            name_of_pair(layer, tags, pair as int)->Err_0,
        ),
    decreases pairs,
{
    if pairs > pair + 1 {
        lemma_names_fail(layer, tags, pair, (pairs - 1) as nat);
    }
}

} // verus!
