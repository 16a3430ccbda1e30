//! Where the squares of the board lie: three concentric rings around the
//! centre of the board, each ring starting where the one outside it ended,
//! turned on by a fixed offset.
//!
//! Angles are whole degrees and radii whole hundredths of half the board's
//! size, so every value here is exact. A square of index `i` is the track
//! position `i + 1`.

use vstd::prelude::*;
use crate::state::GameState;

verus! {

/// Number of squares on the board.
pub const BOARD_SQUARES: usize = 36;

/// Number of squares in the outer ring, those of index 0 to 17.
pub const OUTER_SQUARES: u16 = 18;

/// Number of squares in the middle ring, those of index 18 to 29.
pub const MIDDLE_SQUARES: u16 = 12;

/// Number of squares in the inner ring, those of index 30 to 35.
pub const INNER_SQUARES: u16 = 6;

/// Radius of the outer ring, in hundredths of half the board's size.
pub const OUTER_RADIUS: u8 = 85;

/// Radius of the middle ring, in hundredths of half the board's size.
pub const MIDDLE_RADIUS: u8 = 55;

/// Radius of the inner ring, in hundredths of half the board's size.
pub const INNER_RADIUS: u8 = 25;

/// Degrees by which the middle ring starts past the last outer square.
pub const MIDDLE_OFFSET: u16 = 15;

/// Degrees by which the inner ring starts past the last middle square.
pub const INNER_OFFSET: u16 = 30;

/// The place of one square in polar form, seen from the centre of the
/// board.
#[derive(Debug, Clone, Copy, PartialEq, Eq, Structural)]
pub struct SquarePosition {
    /// Direction of the square in degrees, at least 0 and under 360.
    pub angle: u16,
    /// Radius of the square's ring, in hundredths of half the board's size.
    pub radius: u8,
}

/// The angle of square `k` of a ring of `count` squares, spread evenly over
/// the full circle from `start` on.
pub open spec fn ring_angle(start: int, count: int, k: int) -> int {
    (start + k * (360int / count)) % 360
}

/// The angle of square `k` of the outer ring, which starts at 0 degrees.
pub open spec fn outer_angle(k: int) -> int {
    ring_angle(0, OUTER_SQUARES as int, k)
}

/// The angle at which the middle ring starts.
pub open spec fn middle_start() -> int {
    (outer_angle(OUTER_SQUARES - 1) + MIDDLE_OFFSET) % 360
}

/// The angle of square `k` of the middle ring.
pub open spec fn middle_angle(k: int) -> int {
    ring_angle(middle_start(), MIDDLE_SQUARES as int, k)
}

/// The angle at which the inner ring starts.
pub open spec fn inner_start() -> int {
    (middle_angle(MIDDLE_SQUARES - 1) + INNER_OFFSET) % 360
}

/// The angle of square `k` of the inner ring.
pub open spec fn inner_angle(k: int) -> int {
    ring_angle(inner_start(), INNER_SQUARES as int, k)
}

/// The place of the square of index `i`.
pub open spec fn square_at(i: int) -> SquarePosition {
    if i < OUTER_SQUARES {
        SquarePosition { angle: outer_angle(i) as u16, radius: OUTER_RADIUS }
    } else if i < OUTER_SQUARES + MIDDLE_SQUARES {
        SquarePosition { angle: middle_angle(i - OUTER_SQUARES) as u16, radius: MIDDLE_RADIUS }
    } else {
        SquarePosition {
            angle: inner_angle(i - OUTER_SQUARES - MIDDLE_SQUARES) as u16,
            radius: INNER_RADIUS,
        }
    }
}

/// The places of all squares, by index.
pub open spec fn layout() -> Seq<SquarePosition> {
    Seq::new(BOARD_SQUARES as nat, |i: int| square_at(i))
}

/// Appends to `positions` a ring of `count` squares of radius `radius`
/// that starts at the angle `start`.
fn push_ring(positions: &mut Vec<SquarePosition>, start: u16, count: u16, radius: u8)
    requires
        start < 360,
        0 < count <= 360,
    ensures
        final(positions)@ == old(positions)@ + Seq::new(
            count as nat,
            |k: int| (SquarePosition { angle: ring_angle(start as int, count as int, k) as u16, radius }),
        ),
{
    let step: u16 = 360 / count;
    let ghost before = positions@;
    let mut k: u16 = 0;
    while k < count
        invariant
            k <= count <= 360,
            start < 360,
            step == 360int / (count as int),
            step <= 360,
            positions@ == before + Seq::new(
                k as nat,
                |j: int| (SquarePosition { angle: ring_angle(start as int, count as int, j) as u16, radius }),
            ),
        decreases count - k,
    {
        assert(k * step <= 360 * 360) by (nonlinear_arith)
            requires
                k <= 360,
                step <= 360,
        ;
        let turned: u32 = start as u32 + k as u32 * step as u32;
        let angle: u16 = (turned % 360) as u16;
        positions.push(SquarePosition { angle, radius });
        k += 1;
        assert(positions@ =~= before + Seq::new(
            k as nat,
            |j: int| (SquarePosition { angle: ring_angle(start as int, count as int, j) as u16, radius }),
        ));
    }
}

/// The places of the 36 squares of the board, by index: 18 in the outer
/// ring from 0 degrees on, 12 in the middle ring from 15 degrees past the
/// last outer square on, and 6 in the inner ring from 30 degrees past the
/// last middle square on.
pub fn ring_layout() -> (positions: Vec<SquarePosition>)
    ensures
        positions@ == layout(),
{
    let mut positions: Vec<SquarePosition> = Vec::new();
    push_ring(&mut positions, 0, OUTER_SQUARES, OUTER_RADIUS);
    let last_outer = positions[OUTER_SQUARES as usize - 1].angle;
    let middle_start = (last_outer + MIDDLE_OFFSET) % 360;
    push_ring(&mut positions, middle_start, MIDDLE_SQUARES, MIDDLE_RADIUS);
    let last_middle = positions[(OUTER_SQUARES + MIDDLE_SQUARES) as usize - 1].angle;
    let inner_start = (last_middle + INNER_OFFSET) % 360;
    push_ring(&mut positions, inner_start, INNER_SQUARES, INNER_RADIUS);
    assert(positions@ =~= layout());
    positions
}

impl GameState {
    /// The places of the squares of the board, which do not depend on the
    /// state of the game.
    pub fn get_spiral_positions(&self) -> (positions: Vec<SquarePosition>)
        ensures
            positions@ == layout(),
    {
        ring_layout()
    }
}

} // verus!
