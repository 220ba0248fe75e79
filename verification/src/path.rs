//! Paths, and the decoding of geometry command streams into them.
//!
//! A geometry is a sequence of 32-bit integers. A command integer holds a
//! command id in its low three bits and a repeat count in the rest. `MoveTo`
//! (id 1) and `LineTo` (id 2) are followed by `count` pairs of zigzag deltas;
//! every pair moves the cursor and yields one segment at the new position.
//! Every other id closes the current subpath and takes no parameters. The
//! cursor starts at the origin and is carried from command to command.

use vstd::prelude::*;
use crate::delta::{de_zig_zag, lemma_scale_bound, scale_to_tile, zigzag_value};
use crate::error::TileError;
use crate::units::{Coord, Delta, DELTA_LIMIT, TILE_SIZE};

verus! {

/// One step of a path, in steps of the logical tile.
#[derive(Clone, Copy, PartialEq, Eq, Debug)]
pub enum PathOp {
    /// Starts a new subpath at the given point.
    MoveTo(Coord, Coord),
    /// Draws a straight line from the current point to the given point.
    LineTo(Coord, Coord),
    /// Closes the current subpath.
    ClosePath,
}

/// A [`PathOp`] over the mathematical integers.
pub enum Segment {
    MoveTo(int, int),
    LineTo(int, int),
    ClosePath,
}

impl View for PathOp {
    type V = Segment;

    open spec fn view(&self) -> Segment {
        match *self {
            PathOp::MoveTo(x, y) => Segment::MoveTo(x as int, y as int),
            PathOp::LineTo(x, y) => Segment::LineTo(x as int, y as int),
            PathOp::ClosePath => Segment::ClosePath,
        }
    }
}

/// The outline of one feature: its steps in drawing order.
#[derive(PartialEq, Eq, Debug)]
pub struct Path {
    pub ops: Vec<PathOp>,
}

impl View for Path {
    type V = Seq<Segment>;

    open spec fn view(&self) -> Seq<Segment> {
        self.ops@.map_values(|op: PathOp| op@)
    }
}

/// The command id of a command integer.
pub open spec fn command_id(command: u32) -> int {
    command as int % 8
}

/// The repeat count of a command integer.
pub open spec fn command_count(command: u32) -> nat {
    (command as int / 8) as nat
}

/// Whether a command id takes coordinate pairs.
pub open spec fn takes_points(id: int) -> bool {
    id == 1 || id == 2
}

/// The sum of the first `n` deltas of one axis, where the deltas of that axis
/// stand at `first`, `first + 2`, `first + 4`, ... in `geometry`.
pub open spec fn delta_sum(geometry: Seq<u32>, extent: int, first: int, n: nat) -> int
    decreases n,
{
    if n == 0 {
        0
    } else {
        delta_sum(geometry, extent, first, (n - 1) as nat) + scale_to_tile(
            zigzag_value(geometry[first + 2 * (n - 1)]),
            extent,
        )
    }
}

/// The segment that a command with the given id yields at `(x, y)`.
pub open spec fn point_segment(id: int, x: int, y: int) -> Segment {
    if id == 1 {
        Segment::MoveTo(x, y)
    } else {
        Segment::LineTo(x, y)
    }
}

/// The segments of one `MoveTo` or `LineTo` command whose `count` pairs start
/// at `first`, with the cursor at `(x, y)` before it: the `i`-th lies at the
/// cursor moved by the first `i + 1` pairs.
pub open spec fn run_segments(
    geometry: Seq<u32>,
    extent: int,
    first: int,
    count: nat,
    id: int,
    x: int,
    y: int,
) -> Seq<Segment> {
    Seq::new(
        count,
        |i: int|
            point_segment(
                id,
                x + delta_sum(geometry, extent, first, (i + 1) as nat),
                y + delta_sum(geometry, extent, first + 1, (i + 1) as nat),
            ),
    )
}

/// `head` followed by the segments of `tail`, or the error of `tail`.
pub open spec fn after(head: Seq<Segment>, tail: Result<Seq<Segment>, TileError>) -> Result<
    Seq<Segment>,
    TileError,
> {
    match tail {
        Ok(rest) => Ok(head + rest),
        Err(e) => Err(e),
    }
}

/// What the commands from position `pos` on decode to, with the cursor at
/// `(x, y)`.
///
/// A command that declares more pairs than the stream still holds is
/// `InvalidGeometry`. A command that has pairs to decode in a layer of extent
/// zero is `InvalidExtent`. The first command in error decides.
pub open spec fn segments_from(geometry: Seq<u32>, extent: u32, pos: int, x: int, y: int) -> Result<
    Seq<Segment>,
    TileError,
>
    decreases geometry.len() - pos,
{
    if pos < 0 || pos >= geometry.len() {
        Ok(Seq::empty())
    } else {
        let id = command_id(geometry[pos]);
        let count = command_count(geometry[pos]);
        if !takes_points(id) {
            after(seq![Segment::ClosePath], segments_from(geometry, extent, pos + 1, x, y))
        } else if pos + 1 + 2 * count > geometry.len() {
            Err(TileError::InvalidGeometry)
        } else if count > 0 && extent == 0 {
            Err(TileError::InvalidExtent)
        } else {
            after(
                run_segments(geometry, extent as int, pos + 1, count, id, x, y),
                segments_from(
                    geometry,
                    extent,
                    pos + 1 + 2 * count,
                    x + delta_sum(geometry, extent as int, pos + 1, count),
                    y + delta_sum(geometry, extent as int, pos + 2, count),
                ),
            )
        }
    }
}

/// The path that a whole geometry decodes to: all of its commands, with the
/// cursor starting at the origin.
pub open spec fn path_of(geometry: Seq<u32>, extent: u32) -> Result<Seq<Segment>, TileError> {
    segments_from(geometry, extent, 0, 0, 0)
}

/// A `MoveTo` or `LineTo` command that declares more coordinate pairs than
/// the geometry holds after it is `InvalidGeometry`, wherever the cursor is
/// and whatever the extent.
pub proof fn lemma_short_command_fails(geometry: Seq<u32>, extent: u32, pos: int, x: int, y: int)
    requires
        0 <= pos < geometry.len(),
        takes_points(command_id(geometry[pos])),
        2 * command_count(geometry[pos]) > geometry.len() - pos - 1,
    ensures
        segments_from(geometry, extent, pos, x, y) == Err::<Seq<Segment>, TileError>(
            TileError::InvalidGeometry,
        ),
        pos == 0 ==> path_of(geometry, extent) == Err::<Seq<Segment>, TileError>(
            TileError::InvalidGeometry,
        ),
{
}

/// A geometry decodes, in a layer whose extent is not zero, unless one of its
/// commands is short of parameters: `InvalidGeometry` is the only error.
pub proof fn lemma_only_short_commands_fail(
    geometry: Seq<u32>,
    extent: u32,
    pos: int,
    x: int,
    y: int,
)
    requires
        extent > 0,
    ensures
        segments_from(geometry, extent, pos, x, y) matches Err(e) ==> e
            == TileError::InvalidGeometry,
    decreases geometry.len() - pos,
{
    if 0 <= pos < geometry.len() {
        let id = command_id(geometry[pos]);
        let count = command_count(geometry[pos]);
        if !takes_points(id) {
            lemma_only_short_commands_fail(geometry, extent, pos + 1, x, y);
        } else if pos + 1 + 2 * count <= geometry.len() {
            lemma_only_short_commands_fail(
                geometry,
                extent,
                pos + 1 + 2 * count,
                x + delta_sum(geometry, extent as int, pos + 1, count),
                y + delta_sum(geometry, extent as int, pos + 2, count),
            );
        }
    }
}

/// Splits a command integer into its id and its repeat count.
pub fn split_command(command: u32) -> (parts: (u32, u32))
    ensures
        parts.0 == command_id(command),
        parts.1 == command_count(command),
{
    let id: u32 = command & 0x7;
    let count: u32 = command >> 3;
    assert(id == command % 8 && count == command / 8) by (bit_vector)
        requires
            id == command & 0x7,
            count == command >> 3,
    ;
    (id, count)
}

/// Decodes a feature's geometry into its path.
///
/// Succeeds exactly when every command has its parameters and, where there
/// are parameters to decode, the extent is not zero; the path then holds the
/// segments of all commands in order.
pub fn geom_to_path(geometry: &Vec<u32>, extent: u32) -> (res: Result<Path, TileError>)
    ensures
        match res {
            Ok(path) => path_of(geometry@, extent) == Ok::<Seq<Segment>, TileError>(path@),
            Err(e) => path_of(geometry@, extent) == Err::<Seq<Segment>, TileError>(e),
        },
{
    let len: usize = geometry.len();
    let mut ops: Vec<PathOp> = Vec::new();
    let mut pos: usize = 0;
    let mut cursor_x: Coord = 0;
    let mut cursor_y: Coord = 0;
    assert(ops@.map_values(|op: PathOp| op@) + Seq::<Segment>::empty() =~= Seq::<Segment>::empty());
    assert(TILE_SIZE == 134_217_728 && DELTA_LIMIT == 0x400_0000_0000_0000);
    while pos < len
        invariant
            TILE_SIZE == 134_217_728,
            DELTA_LIMIT == 0x400_0000_0000_0000,
            len == geometry@.len(),
            pos <= len,
            -pos * DELTA_LIMIT <= cursor_x <= pos * DELTA_LIMIT,
            -pos * DELTA_LIMIT <= cursor_y <= pos * DELTA_LIMIT,
            path_of(geometry@, extent) == after(
                ops@.map_values(|op: PathOp| op@),
                segments_from(geometry@, extent, pos as int, cursor_x as int, cursor_y as int),
            ),
        decreases len - pos,
    {
        let (id, count) = split_command(geometry[pos]);
        let ghost before = ops@.map_values(|op: PathOp| op@);
        if id == 1 || id == 2 {
            if count as usize > (len - pos - 1) / 2 {
                return Err(TileError::InvalidGeometry);
            }
            if count > 0 && extent == 0 {
                return Err(TileError::InvalidExtent);
            }
            let ghost start_x = cursor_x as int;
            let ghost start_y = cursor_y as int;
            let first: usize = pos + 1;
            let mut done: u32 = 0;
            let mut at: usize = first;
            assert(before + run_segments(
                geometry@,
                extent as int,
                first as int,
                0,
                id as int,
                start_x,
                start_y,
            ) =~= before);
            while done < count
                invariant
                    len == geometry@.len(),
                    done <= count,
                    count > 0 ==> extent > 0,
                    first + 2 * count <= len,
                    at == first + 2 * done,
                    takes_points(id as int),
                    TILE_SIZE == 134_217_728,
                    DELTA_LIMIT == 0x400_0000_0000_0000,
                    -at * DELTA_LIMIT <= cursor_x <= at * DELTA_LIMIT,
                    -at * DELTA_LIMIT <= cursor_y <= at * DELTA_LIMIT,
                    cursor_x == start_x + delta_sum(
                        geometry@,
                        extent as int,
                        first as int,
                        done as nat,
                    ),
                    cursor_y == start_y + delta_sum(
                        geometry@,
                        extent as int,
                        first + 1,
                        done as nat,
                    ),
                    ops@.map_values(|op: PathOp| op@) == before + run_segments(
                        geometry@,
                        extent as int,
                        first as int,
                        done as nat,
                        id as int,
                        start_x,
                        start_y,
                    ),
                decreases count - done,
            {
                let dx: Delta = match de_zig_zag(extent, geometry[at]) {
                    Ok(d) => d,
                    Err(e) => { return Err(e); },
                };
                let dy: Delta = match de_zig_zag(extent, geometry[at + 1]) {
                    Ok(d) => d,
                    Err(e) => { return Err(e); },
                };
                proof {
                    lemma_scale_bound(zigzag_value(geometry@[at as int]), extent as int);
                    lemma_scale_bound(zigzag_value(geometry@[at + 1]), extent as int);
                }
                cursor_x = cursor_x + dx as Coord;
                cursor_y = cursor_y + dy as Coord;
                let op: PathOp = if id == 1 {
                    PathOp::MoveTo(cursor_x, cursor_y)
                } else {
                    PathOp::LineTo(cursor_x, cursor_y)
                };
                let ghost so_far = ops@.map_values(|op: PathOp| op@);
                ops.push(op);
                done = done + 1;
                at = at + 2;
                assert(ops@.map_values(|op: PathOp| op@) =~= so_far.push(op@));
                assert(before + run_segments(
                    geometry@,
                    extent as int,
                    first as int,
                    done as nat,
                    id as int,
                    start_x,
                    start_y,
                ) =~= (before + run_segments(
                    geometry@,
                    extent as int,
                    first as int,
                    (done - 1) as nat,
                    id as int,
                    start_x,
                    start_y,
                )).push(op@));
            }
            proof {
                let run = run_segments(
                    geometry@,
                    extent as int,
                    first as int,
                    count as nat,
                    id as int,
                    start_x,
                    start_y,
                );
                let tail = segments_from(
                    geometry@,
                    extent,
                    at as int,
                    cursor_x as int,
                    cursor_y as int,
                );
                assert(after(before, after(run, tail)) == after(before + run, tail)) by {
                    if let Ok(rest) = tail {
                        assert(before + (run + rest) =~= (before + run) + rest);
                    }
                }
            }
            pos = at;
        } else {
            let ghost tail = segments_from(
                geometry@,
                extent,
                pos + 1,
                cursor_x as int,
                cursor_y as int,
            );
            ops.push(PathOp::ClosePath);
            proof {
                let closed = ops@.map_values(|op: PathOp| op@);
                assert(closed =~= before + seq![Segment::ClosePath]);
                assert(after(before, after(seq![Segment::ClosePath], tail)) == after(
                    closed,
                    tail,
                )) by {
                    if let Ok(rest) = tail {
                        assert(before + (seq![Segment::ClosePath] + rest) =~= closed + rest);
                    }
                }
            }
            pos = pos + 1;
        }
    }
    proof {
        let all = ops@.map_values(|op: PathOp| op@);
        assert(all + Seq::<Segment>::empty() =~= all);
    }
    Ok(Path { ops })
}

} // verus!
