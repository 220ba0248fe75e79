use protomaps_alpha::delta::zigzag_encode;
use protomaps_alpha::draw::{
    DrawOp, BACKGROUND, BUILDING_FILL, LABEL_FILL, LABEL_OUTLINE, LINE_STROKE, WATER_FILL,
};
use protomaps_alpha::error::{RenderError, TileError};
use protomaps_alpha::label::Label;
use protomaps_alpha::path::{geom_to_path, Path, PathOp};
use protomaps_alpha::places::{feature_candidates, label_anchor, label_candidates};
use protomaps_alpha::render_tile;
use protomaps_alpha::shapes::{shape_pass, Pass};
use protomaps_alpha::tile::{Feature, GeomType, Layer, Tile, Value};
use protomaps_alpha::units::{LINE_WIDTH, OUTLINE_WIDTH, STEPS_PER_UNIT};

fn units(n: i64) -> i64 {
    n * STEPS_PER_UNIT
}

fn square(x: i32, y: i32, side: i32) -> Vec<u32> {
    vec![
        9,
        zigzag_encode(x),
        zigzag_encode(y),
        26,
        zigzag_encode(side),
        zigzag_encode(0),
        zigzag_encode(0),
        zigzag_encode(side),
        zigzag_encode(-side),
        zigzag_encode(0),
        15,
    ]
}

fn line(x: i32, y: i32, dx: i32, dy: i32) -> Vec<u32> {
    vec![9, zigzag_encode(x), zigzag_encode(y), 10, zigzag_encode(dx), zigzag_encode(dy)]
}

fn point(x: i32, y: i32) -> Vec<u32> {
    vec![9, zigzag_encode(x), zigzag_encode(y)]
}

fn shape(kind: GeomType, geometry: Vec<u32>) -> Feature {
    Feature { geometry, tags: vec![], kind }
}

fn layer(name: &str, features: Vec<Feature>) -> Layer {
    Layer { name: String::from(name), extent: 2048, keys: vec![], values: vec![], features }
}

fn places(names: &[(&str, i32, i32)]) -> Layer {
    let mut l = layer("places", vec![]);
    l.keys.push(String::from("name"));
    for (i, (name, x, y)) in names.iter().enumerate() {
        l.values.push(Value::Text(String::from(*name)));
        l.features.push(Feature {
            geometry: point(*x, *y),
            tags: vec![0, i as u32],
            kind: GeomType::Point,
        });
    }
    l
}

fn path(geometry: &Vec<u32>) -> Path {
    geom_to_path(geometry, 2048).unwrap()
}

fn text_ops(text: &str, x: i64, y: i64) -> Vec<DrawOp> {
    vec![
        DrawOp::StrokeText {
            text: String::from(text),
            x: units(x),
            y: units(y),
            color: LABEL_OUTLINE,
            width: OUTLINE_WIDTH,
        },
        DrawOp::DrawText { text: String::from(text), x: units(x), y: units(y), color: LABEL_FILL },
    ]
}

fn synthetic_tile() -> Tile {
    Tile {
        layers: vec![
            layer("water", vec![shape(GeomType::Polygon, square(0, 0, 100))]),
            layer("roads", vec![shape(GeomType::LineString, line(10, 10, 500, 20))]),
            layer("buildings", vec![shape(GeomType::Polygon, square(300, 300, 40))]),
            places(&[("X", 1000, 1000)]),
        ],
    }
}

#[test]
fn end_to_end_one_of_each() {
    let ops = render_tile(&synthetic_tile(), &vec![units(12)], 0).unwrap();
    assert_eq!(
        ops,
        vec![
            DrawOp::Clear { color: BACKGROUND },
            DrawOp::Fill { path: path(&square(0, 0, 100)), color: WATER_FILL },
            DrawOp::Stroke {
                path: path(&line(10, 10, 500, 20)),
                color: LINE_STROKE,
                width: LINE_WIDTH,
            },
            DrawOp::Fill { path: path(&square(300, 300, 40)), color: BUILDING_FILL },
            DrawOp::StrokeText {
                text: String::from("X"),
                x: units(1000),
                y: units(1000),
                color: LABEL_OUTLINE,
                width: OUTLINE_WIDTH,
            },
            DrawOp::DrawText {
                text: String::from("X"),
                x: units(1000),
                y: units(1000),
                color: LABEL_FILL,
            },
        ]
    );
    assert_eq!(LINE_WIDTH as f64 / STEPS_PER_UNIT as f64, 5.0);
}

#[test]
fn end_to_end_paths_hold_the_decoded_outline() {
    let ops = render_tile(&synthetic_tile(), &vec![units(12)], 0).unwrap();
    match &ops[1] {
        DrawOp::Fill { path, .. } => assert_eq!(
            path.ops,
            vec![
                PathOp::MoveTo(0, 0),
                PathOp::LineTo(units(100) as i128, 0),
                PathOp::LineTo(units(100) as i128, units(100) as i128),
                PathOp::LineTo(0, units(100) as i128),
                PathOp::ClosePath,
            ]
        ),
        _ => panic!("not a fill"),
    }
}

#[test]
fn passes_run_in_their_own_order_whatever_the_layer_order() {
    let mut tile = synthetic_tile();
    tile.layers.reverse();
    let ops = render_tile(&tile, &vec![units(12)], 0).unwrap();
    assert_eq!(ops.len(), 6);
    assert_eq!(ops[0], DrawOp::Clear { color: BACKGROUND });
    assert_eq!(ops[1], DrawOp::Fill { path: path(&square(0, 0, 100)), color: WATER_FILL });
    assert!(matches!(ops[2], DrawOp::Stroke { .. }));
    assert_eq!(ops[3], DrawOp::Fill { path: path(&square(300, 300, 40)), color: BUILDING_FILL });
    assert!(matches!(ops[4], DrawOp::StrokeText { .. }));
    assert!(matches!(ops[5], DrawOp::DrawText { .. }));
}

#[test]
fn a_label_below_the_tile_draws_no_text() {
    let tile = Tile { layers: vec![places(&[("X", 1000, 2049)])] };
    assert_eq!(
        render_tile(&tile, &vec![units(12)], 0),
        Ok(vec![DrawOp::Clear { color: BACKGROUND }])
    );
    // On the edge it is drawn.
    let tile = Tile { layers: vec![places(&[("X", 1000, 2048)])] };
    assert_eq!(render_tile(&tile, &vec![units(12)], 0).unwrap().len(), 3);
}

#[test]
fn a_dropped_label_does_not_block_a_later_one() {
    let tile = Tile { layers: vec![places(&[("Low", 1000, 2050), ("Fits", 1000, 2040)])] };
    let mut expected = vec![DrawOp::Clear { color: BACKGROUND }];
    expected.extend(text_ops("Fits", 1000, 2040));
    assert_eq!(render_tile(&tile, &vec![units(30), units(30)], 0), Ok(expected));
}

#[test]
fn an_empty_tile_is_only_cleared() {
    let tile = Tile { layers: vec![] };
    assert_eq!(render_tile(&tile, &vec![], 0), Ok(vec![DrawOp::Clear { color: BACKGROUND }]));
}

#[test]
fn zoom_changes_nothing() {
    let tile = synthetic_tile();
    let at_zero = render_tile(&tile, &vec![units(12)], 0);
    for zoom in [1u32, 14, u32::MAX] {
        assert_eq!(render_tile(&tile, &vec![units(12)], zoom), at_zero);
    }
}

#[test]
fn only_the_kind_of_the_pass_is_drawn() {
    let tile = Tile {
        layers: vec![
            layer(
                "water",
                vec![
                    shape(GeomType::Point, point(5, 5)),
                    shape(GeomType::Unknown, square(0, 0, 10)),
                    shape(GeomType::Polygon, square(0, 0, 20)),
                    shape(GeomType::LineString, line(0, 0, 30, 30)),
                ],
            ),
        ],
    };
    assert_eq!(
        render_tile(&tile, &vec![], 0),
        Ok(vec![
            DrawOp::Clear { color: BACKGROUND },
            DrawOp::Fill { path: path(&square(0, 0, 20)), color: WATER_FILL },
            DrawOp::Stroke {
                path: path(&line(0, 0, 30, 30)),
                color: LINE_STROKE,
                width: LINE_WIDTH,
            },
        ])
    );
}

#[test]
fn polygons_of_other_layers_are_not_filled() {
    let tile = Tile {
        layers: vec![
            layer("landuse", vec![shape(GeomType::Polygon, square(0, 0, 20))]),
            layer("Water", vec![shape(GeomType::Polygon, square(0, 0, 20))]),
            layer("building", vec![shape(GeomType::Polygon, square(0, 0, 20))]),
        ],
    };
    assert_eq!(render_tile(&tile, &vec![], 0), Ok(vec![DrawOp::Clear { color: BACKGROUND }]));
}

#[test]
fn lines_of_every_layer_are_stroked_in_tile_order() {
    let tile = Tile {
        layers: vec![
            layer("buildings", vec![shape(GeomType::LineString, line(1, 1, 2, 2))]),
            layer("water", vec![shape(GeomType::LineString, line(3, 3, 4, 4))]),
            layer("places", vec![shape(GeomType::LineString, line(5, 50, 6, 6))]),
        ],
    };
    let ops = render_tile(&tile, &vec![], 0).unwrap();
    assert_eq!(
        ops,
        vec![
            DrawOp::Clear { color: BACKGROUND },
            DrawOp::Stroke { path: path(&line(1, 1, 2, 2)), color: LINE_STROKE, width: LINE_WIDTH },
            DrawOp::Stroke { path: path(&line(3, 3, 4, 4)), color: LINE_STROKE, width: LINE_WIDTH },
            DrawOp::Stroke {
                path: path(&line(5, 50, 6, 6)),
                color: LINE_STROKE,
                width: LINE_WIDTH,
            },
        ]
    );
}

#[test]
fn the_extent_of_the_layer_scales_its_shapes() {
    let mut coarse = layer("water", vec![shape(GeomType::Polygon, square(10, 10, 100))]);
    coarse.extent = 1024;
    let fine = layer("water", vec![shape(GeomType::Polygon, square(20, 20, 200))]);
    assert_eq!(
        render_tile(&Tile { layers: vec![coarse] }, &vec![], 0),
        render_tile(&Tile { layers: vec![fine] }, &vec![], 0)
    );
}

#[test]
fn a_bad_geometry_fails_with_its_place() {
    let mut tile = synthetic_tile();
    tile.layers[1].features.insert(0, shape(GeomType::Polygon, vec![25, 2, 2, 4, 4]));
    // A polygon in a layer that no fill pass takes is never decoded.
    assert_eq!(render_tile(&tile, &vec![units(12)], 0).unwrap().len(), 6);
    tile.layers[1].features.push(shape(GeomType::LineString, vec![9, 2, 2, 26, 4, 4]));
    assert_eq!(
        render_tile(&tile, &vec![units(12)], 0),
        Err(RenderError { layer: 1, feature: 2, kind: TileError::InvalidGeometry })
    );
}

#[test]
fn the_first_failing_pass_decides_the_error() {
    let mut roads = layer("roads", vec![shape(GeomType::LineString, vec![9, 2])]);
    roads.extent = 4096;
    let mut water = layer("water", vec![shape(GeomType::Polygon, square(0, 0, 10))]);
    water.extent = 0;
    let tile = Tile { layers: vec![roads, water] };
    assert_eq!(
        render_tile(&tile, &vec![], 0),
        Err(RenderError { layer: 1, feature: 0, kind: TileError::InvalidExtent })
    );
    assert_eq!(
        shape_pass(&tile, Pass::Water),
        Err(RenderError { layer: 1, feature: 0, kind: TileError::InvalidExtent })
    );
    assert_eq!(
        shape_pass(&tile, Pass::Lines),
        Err(RenderError { layer: 0, feature: 0, kind: TileError::InvalidGeometry })
    );
    assert_eq!(shape_pass(&tile, Pass::Buildings), Ok(vec![]));
}

#[test]
fn each_pass_draws_its_own_shapes() {
    let tile = synthetic_tile();
    assert_eq!(
        shape_pass(&tile, Pass::Water),
        Ok(vec![DrawOp::Fill { path: path(&square(0, 0, 100)), color: WATER_FILL }])
    );
    assert_eq!(
        shape_pass(&tile, Pass::Lines),
        Ok(vec![DrawOp::Stroke {
            path: path(&line(10, 10, 500, 20)),
            color: LINE_STROKE,
            width: LINE_WIDTH,
        }])
    );
    assert_eq!(
        shape_pass(&tile, Pass::Buildings),
        Ok(vec![DrawOp::Fill { path: path(&square(300, 300, 40)), color: BUILDING_FILL }])
    );
}

#[test]
fn a_place_without_an_anchor_fails_the_tile() {
    let mut l = places(&[("Oslo", 100, 100)]);
    l.features.push(Feature { geometry: vec![9, 4], tags: vec![], kind: GeomType::Point });
    let tile = Tile { layers: vec![layer("water", vec![]), l] };
    let expected = RenderError { layer: 1, feature: 1, kind: TileError::InvalidGeometry };
    assert_eq!(label_candidates(&tile), Err(expected));
    assert_eq!(render_tile(&tile, &vec![units(10)], 0), Err(expected));
}

#[test]
fn a_place_in_a_layer_of_extent_zero_fails_the_tile() {
    let mut l = places(&[("Oslo", 100, 100)]);
    l.extent = 0;
    let tile = Tile { layers: vec![l] };
    let expected = RenderError { layer: 0, feature: 0, kind: TileError::InvalidExtent };
    assert_eq!(label_candidates(&tile), Err(expected));
    assert_eq!(render_tile(&tile, &vec![], 0), Err(expected));
}

#[test]
fn label_anchor_reads_the_first_pair_only() {
    assert_eq!(label_anchor(&point(7, 9), 2048), Ok((units(7), units(9))));
    assert_eq!(label_anchor(&line(7, 9, 100, 100), 2048), Ok((units(7), units(9))));
    assert_eq!(label_anchor(&vec![0, 10, 10], 4096), Ok((163_840, 163_840)));
    assert_eq!(label_anchor(&vec![9, 10], 4096), Err(TileError::InvalidGeometry));
    assert_eq!(label_anchor(&vec![], 4096), Err(TileError::InvalidGeometry));
    assert_eq!(label_anchor(&vec![9, 10, 10], 0), Err(TileError::InvalidExtent));
    assert_eq!(label_anchor(&vec![9, 10], 0), Err(TileError::InvalidGeometry));
}

#[test]
fn candidates_come_from_places_layers_in_tile_order() {
    let tile = Tile {
        layers: vec![
            places(&[("Oslo", 100, 100), ("Bergen", 200, 200)]),
            layer("water", vec![shape(GeomType::Point, point(1, 1))]),
            places(&[("Tromso", 300, 300)]),
        ],
    };
    assert_eq!(
        label_candidates(&tile),
        Ok(vec![
            Label { x: units(100), y: units(100), text: String::from("Oslo") },
            Label { x: units(200), y: units(200), text: String::from("Bergen") },
            Label { x: units(300), y: units(300), text: String::from("Tromso") },
        ])
    );
}

#[test]
fn features_of_any_kind_in_places_are_labelled() {
    let mut l = places(&[("Oslo", 100, 100)]);
    l.features[0].kind = GeomType::Polygon;
    l.features[0].geometry = square(100, 100, 10);
    let tile = Tile { layers: vec![l] };
    let mut expected = vec![DrawOp::Clear { color: BACKGROUND }];
    expected.extend(text_ops("Oslo", 100, 100));
    assert_eq!(render_tile(&tile, &vec![units(10)], 0), Ok(expected));
}

#[test]
fn a_place_without_a_name_is_passed_by() {
    let mut l = places(&[("Oslo", 100, 100), ("Bergen", 500, 500)]);
    l.keys.push(String::from("kind"));
    l.features[0].tags = vec![1, 0];
    let tile = Tile { layers: vec![l] };
    assert_eq!(
        label_candidates(&tile),
        Ok(vec![Label { x: units(500), y: units(500), text: String::from("Bergen") }])
    );
    let mut expected = vec![DrawOp::Clear { color: BACKGROUND }];
    expected.extend(text_ops("Bergen", 500, 500));
    assert_eq!(render_tile(&tile, &vec![units(10)], 0), Ok(expected));
}

#[test]
fn a_place_with_unreadable_tags_is_passed_by() {
    let mut l = places(&[("Oslo", 100, 100), ("Bergen", 500, 500), ("Tromso", 900, 900)]);
    l.values.push(Value::Int(5));
    l.features[0].tags = vec![0, 0, 7, 0];
    l.features[1].tags = vec![0, 3];
    let tile = Tile { layers: vec![l] };
    assert_eq!(
        label_candidates(&tile),
        Ok(vec![Label { x: units(900), y: units(900), text: String::from("Tromso") }])
    );
}

#[test]
fn labels_that_collide_are_decided_in_tile_order() {
    let tile = Tile { layers: vec![places(&[("Oslo", 100, 100), ("Bergen", 120, 110)])] };
    let mut expected = vec![DrawOp::Clear { color: BACKGROUND }];
    expected.extend(text_ops("Oslo", 100, 100));
    assert_eq!(render_tile(&tile, &vec![units(50), units(50)], 0), Ok(expected));

    let tile = Tile { layers: vec![places(&[("Bergen", 120, 110), ("Oslo", 100, 100)])] };
    let mut expected = vec![DrawOp::Clear { color: BACKGROUND }];
    expected.extend(text_ops("Bergen", 120, 110));
    assert_eq!(render_tile(&tile, &vec![units(50), units(50)], 0), Ok(expected));
}

#[test]
fn widths_are_matched_to_candidates_by_position() {
    let tile = Tile { layers: vec![places(&[("Oslo", 100, 100), ("Bergen", 160, 100)])] };
    assert_eq!(render_tile(&tile, &vec![units(50), units(50)], 0).unwrap().len(), 5);
    assert_eq!(render_tile(&tile, &vec![units(70), units(50)], 0).unwrap().len(), 3);
    assert_eq!(render_tile(&tile, &vec![units(50)], 0).unwrap().len(), 3);
    assert_eq!(render_tile(&tile, &vec![], 0).unwrap().len(), 1);
}

#[test]
fn colours_are_the_fixed_ones() {
    assert_eq!(BACKGROUND, 0x0000_00FF);
    assert_eq!(LABEL_OUTLINE, 0x0000_00FF);
    assert_eq!(LABEL_FILL, 0xFFFF_FFFF);
    assert_eq!(WATER_FILL, 0x1111_11FF);
    assert_eq!(LINE_STROKE, 0x5555_55FF);
    assert_eq!(BUILDING_FILL, 0x5555_55FF);
    assert_ne!(WATER_FILL, BUILDING_FILL);
}

#[test]
fn passes_take_their_layers_and_kinds() {
    let water = layer("water", vec![]);
    let buildings = layer("buildings", vec![]);
    let roads = layer("roads", vec![]);
    assert!(Pass::Water.takes_layer(&water));
    assert!(!Pass::Water.takes_layer(&buildings));
    assert!(!Pass::Water.takes_layer(&roads));
    assert!(Pass::Buildings.takes_layer(&buildings));
    assert!(!Pass::Buildings.takes_layer(&water));
    assert!(Pass::Lines.takes_layer(&water));
    assert!(Pass::Lines.takes_layer(&buildings));
    assert!(Pass::Lines.takes_layer(&roads));
    for kind in [GeomType::Unknown, GeomType::Point, GeomType::LineString, GeomType::Polygon] {
        assert_eq!(Pass::Water.takes_kind(kind), kind == GeomType::Polygon);
        assert_eq!(Pass::Buildings.takes_kind(kind), kind == GeomType::Polygon);
        assert_eq!(Pass::Lines.takes_kind(kind), kind == GeomType::LineString);
    }
}

#[test]
fn passes_draw_with_their_own_colours() {
    let outline = square(0, 0, 10);
    assert_eq!(
        Pass::Water.draw(path(&outline)),
        DrawOp::Fill { path: path(&outline), color: WATER_FILL }
    );
    assert_eq!(
        Pass::Buildings.draw(path(&outline)),
        DrawOp::Fill { path: path(&outline), color: BUILDING_FILL }
    );
    assert_eq!(
        Pass::Lines.draw(path(&outline)),
        DrawOp::Stroke { path: path(&outline), color: LINE_STROKE, width: LINE_WIDTH }
    );
}

#[test]
fn a_feature_asks_for_one_label_for_each_name() {
    let mut l = places(&[("Oslo", 100, 100)]);
    l.values.push(Value::Text(String::from("Christiania")));
    l.features[0].tags = vec![0, 0, 0, 1];
    let mut labels = vec![Label { x: 1, y: 2, text: String::from("kept") }];
    assert_eq!(feature_candidates(&l, &l.features[0], &mut labels), Ok(()));
    assert_eq!(
        labels,
        vec![
            Label { x: 1, y: 2, text: String::from("kept") },
            Label { x: units(100), y: units(100), text: String::from("Oslo") },
            Label { x: units(100), y: units(100), text: String::from("Christiania") },
        ]
    );
}

#[test]
fn a_feature_without_an_anchor_adds_no_label() {
    let mut l = places(&[("Oslo", 100, 100)]);
    l.features[0].geometry = vec![9];
    let mut labels = vec![];
    assert_eq!(
        feature_candidates(&l, &l.features[0], &mut labels),
        Err(TileError::InvalidGeometry)
    );
    assert_eq!(labels, vec![]);
}

#[test]
fn two_names_at_one_anchor_collide() {
    let mut l = places(&[("Oslo", 100, 100)]);
    l.values.push(Value::Text(String::from("Christiania")));
    l.features[0].tags = vec![0, 0, 0, 1];
    let tile = Tile { layers: vec![l] };
    let mut expected = vec![DrawOp::Clear { color: BACKGROUND }];
    expected.extend(text_ops("Oslo", 100, 100));
    assert_eq!(render_tile(&tile, &vec![units(40), units(90)], 0), Ok(expected));
    // Where the first name does not fit the tile, the second gets its turn.
    let mut expected = vec![DrawOp::Clear { color: BACKGROUND }];
    expected.extend(text_ops("Christiania", 100, 100));
    assert_eq!(render_tile(&tile, &vec![units(2000), units(90)], 0), Ok(expected));
}
