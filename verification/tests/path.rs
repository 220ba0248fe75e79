use protomaps_alpha::delta::zigzag_encode;
use protomaps_alpha::error::TileError;
use protomaps_alpha::path::{geom_to_path, split_command, Path, PathOp};
use protomaps_alpha::units::{STEPS_PER_UNIT, TILE_SIZE};

const MOVE_TO: u32 = 1;
const LINE_TO: u32 = 2;
const CLOSE_PATH: u32 = 7;

fn command(id: u32, count: u32) -> u32 {
    (count << 3) | id
}

fn units(n: i128) -> i128 {
    n * STEPS_PER_UNIT as i128
}

#[test]
fn split_command_takes_low_three_bits_as_id() {
    assert_eq!(split_command(9), (1, 1));
    assert_eq!(split_command(18), (2, 2));
    assert_eq!(split_command(15), (7, 1));
    assert_eq!(split_command(0), (0, 0));
    assert_eq!(split_command(u32::MAX), (7, 0x1fff_ffff));
}

#[test]
fn single_move_to_at_extent_4096() {
    let path = geom_to_path(&vec![9, 10, 10], 4096).unwrap();
    assert_eq!(path, Path { ops: vec![PathOp::MoveTo(163_840, 163_840)] });
    match path.ops[0] {
        PathOp::MoveTo(x, y) => {
            assert_eq!(x as f64 / 65536.0, 2.5);
            assert_eq!(y as f64 / 65536.0, 2.5);
        },
        _ => panic!("not a MoveTo"),
    }
}

#[test]
fn count_three_with_two_pairs_is_invalid() {
    let geometry = vec![command(MOVE_TO, 3), 2, 2, 4, 4];
    assert_eq!(geom_to_path(&geometry, 4096), Err(TileError::InvalidGeometry));
    let geometry = vec![command(LINE_TO, 3), 2, 2, 4, 4];
    assert_eq!(geom_to_path(&geometry, 4096), Err(TileError::InvalidGeometry));
}

#[test]
fn half_a_pair_is_invalid() {
    assert_eq!(geom_to_path(&vec![command(MOVE_TO, 1), 2], 4096), Err(TileError::InvalidGeometry));
    assert_eq!(geom_to_path(&vec![command(MOVE_TO, 1)], 4096), Err(TileError::InvalidGeometry));
}

#[test]
fn short_command_after_good_ones_is_invalid() {
    let geometry = vec![command(MOVE_TO, 1), 2, 2, command(LINE_TO, 2), 2, 2, 2];
    assert_eq!(geom_to_path(&geometry, 4096), Err(TileError::InvalidGeometry));
}

#[test]
fn largest_count_is_invalid_not_a_crash() {
    assert_eq!(geom_to_path(&vec![u32::MAX - 6, 0, 0], 4096), Err(TileError::InvalidGeometry));
    assert_eq!(geom_to_path(&vec![u32::MAX - 5, 0, 0], 4096), Err(TileError::InvalidGeometry));
}

#[test]
fn empty_geometry_is_an_empty_path() {
    assert_eq!(geom_to_path(&vec![], 4096), Ok(Path { ops: vec![] }));
    assert_eq!(geom_to_path(&vec![], 0), Ok(Path { ops: vec![] }));
}

#[test]
fn polygon_with_cursor_carried_between_commands() {
    // MoveTo(3,6), LineTo(+5,+6), LineTo(+12,+22), ClosePath, in a grid of 2048.
    let geometry = vec![9, 6, 12, 18, 10, 12, 24, 44, 15];
    let path = geom_to_path(&geometry, 2048).unwrap();
    assert_eq!(
        path.ops,
        vec![
            PathOp::MoveTo(units(3), units(6)),
            PathOp::LineTo(units(8), units(12)),
            PathOp::LineTo(units(20), units(34)),
            PathOp::ClosePath,
        ]
    );
}

#[test]
fn cursor_survives_close_path_and_move_to() {
    let geometry = vec![
        command(MOVE_TO, 1),
        zigzag_encode(10),
        zigzag_encode(10),
        command(LINE_TO, 1),
        zigzag_encode(5),
        zigzag_encode(0),
        command(CLOSE_PATH, 1),
        command(MOVE_TO, 1),
        zigzag_encode(-3),
        zigzag_encode(4),
        command(LINE_TO, 1),
        zigzag_encode(0),
        zigzag_encode(-14),
    ];
    let path = geom_to_path(&geometry, 2048).unwrap();
    assert_eq!(
        path.ops,
        vec![
            PathOp::MoveTo(units(10), units(10)),
            PathOp::LineTo(units(15), units(10)),
            PathOp::ClosePath,
            PathOp::MoveTo(units(12), units(14)),
            PathOp::LineTo(units(12), units(0)),
        ]
    );
}

#[test]
fn move_to_with_several_pairs_yields_one_move_each() {
    let geometry = vec![command(MOVE_TO, 2), 2, 4, 6, 8];
    let path = geom_to_path(&geometry, 2048).unwrap();
    assert_eq!(
        path.ops,
        vec![PathOp::MoveTo(units(1), units(2)), PathOp::MoveTo(units(4), units(6))]
    );
}

#[test]
fn every_other_id_closes_and_takes_no_parameters() {
    for id in [0u32, 3, 4, 5, 6, 7] {
        for count in [0u32, 1, 5] {
            let path = geom_to_path(&vec![command(id, count)], 4096).unwrap();
            assert_eq!(path.ops, vec![PathOp::ClosePath]);
        }
    }
    // What follows a close is read as a command, not as a parameter.
    let path = geom_to_path(&vec![command(CLOSE_PATH, 3), 15, 15], 4096).unwrap();
    assert_eq!(path.ops, vec![PathOp::ClosePath, PathOp::ClosePath, PathOp::ClosePath]);
}

#[test]
fn count_zero_yields_nothing() {
    let path = geom_to_path(&vec![command(MOVE_TO, 0), command(LINE_TO, 0)], 4096).unwrap();
    assert_eq!(path.ops, vec![]);
    let path = geom_to_path(&vec![command(MOVE_TO, 0), command(LINE_TO, 0)], 0).unwrap();
    assert_eq!(path.ops, vec![]);
}

#[test]
fn extent_zero_fails_where_a_pair_is_decoded() {
    assert_eq!(geom_to_path(&vec![9, 10, 10], 0), Err(TileError::InvalidExtent));
    assert_eq!(geom_to_path(&vec![15, 9, 10, 10], 0), Err(TileError::InvalidExtent));
    assert_eq!(geom_to_path(&vec![15], 0), Ok(Path { ops: vec![PathOp::ClosePath] }));
}

#[test]
fn short_command_is_reported_before_extent_zero() {
    assert_eq!(geom_to_path(&vec![command(MOVE_TO, 2), 2, 2], 0), Err(TileError::InvalidGeometry));
}

#[test]
fn first_command_in_error_decides() {
    let geometry = vec![command(MOVE_TO, 1), 2, 2, command(LINE_TO, 4), 2, 2];
    assert_eq!(geom_to_path(&geometry, 0), Err(TileError::InvalidExtent));
}

#[test]
fn path_is_the_same_on_a_finer_grid() {
    let coarse = geom_to_path(&vec![9, 6, 12, 18, 10, 12, 24, 44, 15], 1024).unwrap();
    let fine = geom_to_path(&vec![9, 12, 24, 18, 20, 24, 48, 88, 15], 2048).unwrap();
    assert_eq!(coarse, fine);
}

#[test]
fn long_runs_of_the_longest_delta_do_not_overflow() {
    let mut geometry = vec![command(LINE_TO, 100)];
    for _ in 0..200 {
        geometry.push(u32::MAX);
    }
    let path = geom_to_path(&geometry, 1).unwrap();
    assert_eq!(path.ops.len(), 100);
    let step = -(0x8000_0000i128 * TILE_SIZE as i128);
    assert_eq!(path.ops[0], PathOp::LineTo(step, step));
    assert_eq!(path.ops[99], PathOp::LineTo(100 * step, 100 * step));
}
