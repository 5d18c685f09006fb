//! Pure coordinate geometry for the board-plus-reserves composition.
//!
//! The drawing surface works in fractional pixels, but every multiplier the
//! layout uses (1.125, 1.5, 3.25, 5.25, 6.25, 1/16, 1/32, 1/48, 1/72, 1/4,
//! and the piece radii 0.35/2, 0.60/2, 0.85/2) is an integer number of
//! 1/1440ths of a unit.  All geometry here is therefore exact integer
//! arithmetic over "subunits": one unit of board scale is `SUBUNITS`
//! subunits.  The host converts pixels to subunits at the boundary.

use vstd::prelude::*;

verus! {

/// Subunits per unit of board scale.
pub const SUBUNITS: u64 = 1440;

/// Side of one board cell, in subunits (1 unit).
pub const CELL_SIDE: u64 = 1440;

/// Horizontal offset of the leftmost board column, in subunits (1.5 units).
pub const CELL_BASE_X: u64 = 2160;

/// Pitch between neighbouring cells or reserve tiers, in subunits (1.125 units).
pub const CELL_STEP: u64 = 1620;

/// Horizontal offset of the right player's reserve column (5.25 units).
pub const RESERVE_RIGHT_X: u64 = 7560;

/// Width of the whole composed region, in subunits (6.25 units).
pub const REGION_W: u64 = 9000;

/// Height of the whole composed region, in subunits (3.25 units).
pub const REGION_H: u64 = 4680;

/// Largest unit size the geometry accepts; keeps every subunit coordinate
/// comfortably inside `u64`/`i64`.
pub const MAX_UNIT: u64 = 1_000_000_000;

/// Largest pixel dimension `compute_layout` accepts.
pub const MAX_DIM: u64 = 1_000_000_000;

/// Horizontal position (subunits) of the top-left corner of board cell `index`.
pub open spec fn cell_x(unit: int, index: int) -> int {
    2160 * unit + (index % 3) * 1620 * unit
}

/// Vertical position (subunits) of the top-left corner of board cell `index`.
pub open spec fn cell_y(unit: int, index: int) -> int {
    (index / 3) * 1620 * unit
}

/// Horizontal position (subunits) of a player's reserve column.
pub open spec fn slot_x(unit: int, player: int) -> int {
    if player == 0 {
        0
    } else {
        7560 * unit
    }
}

/// Vertical position (subunits) of a reserve pile for size tier `size`.
pub open spec fn slot_y(unit: int, size: int) -> int {
    size * 1620 * unit
}

/// Closed containment of a point in an axis-aligned square of side `side`
/// whose top-left corner is `(x, y)`.  Both borders count as inside, as the
/// click test of the interactive layer does.
pub open spec fn in_square(x: int, y: int, side: int, px: int, py: int) -> bool {
    x <= px <= x + side && y <= py <= y + side
}

/// Strict containment: the point lies inside the square, not on its border.
pub open spec fn strictly_in_square(x: int, y: int, side: int, px: int, py: int) -> bool {
    x < px < x + side && y < py < y + side
}

/// Top-left corner of board cell `index` (row-major, 3 columns), in subunits.
pub fn board_cell_rect(unit: u64, index: usize) -> (r: (u64, u64))
    requires
        unit <= MAX_UNIT,
        index < 9,
    ensures
        r.0 == cell_x(unit as int, index as int),
        r.1 == cell_y(unit as int, index as int),
{
    let col = (index % 3) as u64;
    let row = (index / 3) as u64;
    let cs = col * CELL_STEP;
    let rs = row * CELL_STEP;
    proof {
        assert(cs * unit <= 3240 * unit) by (nonlinear_arith)
            requires cs <= 3240 && 0 <= unit;
        assert(rs * unit <= 3240 * unit) by (nonlinear_arith)
            requires rs <= 3240 && 0 <= unit;
    }
    (CELL_BASE_X * unit + cs * unit, rs * unit)
}

/// Top-left corner of the reserve pile of `player` (0 = left, 1 = right)
/// for size tier `size`, in subunits.
pub fn reserve_slot_origin(unit: u64, player: u8, size: u8) -> (r: (u64, u64))
    requires
        unit <= MAX_UNIT,
        player < 2,
        size < 3,
    ensures
        r.0 == slot_x(unit as int, player as int),
        r.1 == slot_y(unit as int, size as int),
{
    let x = if player == 0 {
        0
    } else {
        RESERVE_RIGHT_X * unit
    };
    let ts = (size as u64) * CELL_STEP;
    proof {
        assert(ts * unit <= 3240 * unit) by (nonlinear_arith)
            requires ts <= 3240 && 0 <= unit;
    }
    (x, ts * unit)
}

/// Unit size chosen for a drawing area of `width` by `height` pixels:
/// `min(width / 6.25, height / 3.25)` floored to whole pixels.
pub open spec fn unit_for(width: int, height: int) -> int {
    let by_w = width * 4 / 25;
    let by_h = height * 4 / 13;
    if by_w <= by_h {
        by_w
    } else {
        by_h
    }
}

/// Unit size and centring translation for a drawing area, computed together
/// so that a repaint never mixes a stale unit with a fresh origin.  The
/// translation is in subunits, measured from the area's top-left corner.
pub fn compute_layout(width: u64, height: u64) -> (r: (u64, u64, u64))
    requires
        width <= MAX_DIM,
        height <= MAX_DIM,
    ensures
        r.0 == unit_for(width as int, height as int),
        r.0 <= MAX_UNIT,
        9000 * r.0 <= 1440 * width,
        4680 * r.0 <= 1440 * height,
        r.1 == (1440 * width - 9000 * r.0) / 2,
        r.2 == (1440 * height - 4680 * r.0) / 2,
{
    let by_w = width * 4 / 25;
    let by_h = height * 4 / 13;
    let unit = if by_w <= by_h {
        by_w
    } else {
        by_h
    };
    proof {
        assert(25 * ((width * 4) / 25) <= width * 4) by (nonlinear_arith);
        assert(13 * ((height * 4) / 13) <= height * 4) by (nonlinear_arith);
    }
    let ox = (SUBUNITS * width - REGION_W * unit) / 2;
    let oy = (SUBUNITS * height - REGION_H * unit) / 2;
    (unit, ox, oy)
}

/// Every board cell's square lies inside the composed region
/// `[0, 6.25 units] x [0, 3.25 units]`.
pub proof fn lemma_cell_in_region(unit: int, index: int)
    requires
        1 <= unit,
        0 <= index < 9,
    ensures
        0 <= cell_x(unit, index),
        cell_x(unit, index) + 1440 * unit <= 9000 * unit,
        0 <= cell_y(unit, index),
        cell_y(unit, index) + 1440 * unit <= 4680 * unit,
{
    let t = (index % 3) * 1620;
    let s = (index / 3) * 1620;
    assert(0 <= t <= 3240);
    assert(0 <= s <= 3240);
    assert(0 <= t * unit <= 3240 * unit) by (nonlinear_arith)
        requires 0 <= t <= 3240 && 1 <= unit;
    assert(0 <= s * unit <= 3240 * unit) by (nonlinear_arith)
        requires 0 <= s <= 3240 && 1 <= unit;
    assert(cell_x(unit, index) == 2160 * unit + t * unit);
    assert(cell_y(unit, index) == s * unit);
}

/// Every reserve pile's square lies inside the composed region as well.
pub proof fn lemma_slot_in_region(unit: int, player: int, size: int)
    requires
        1 <= unit,
        0 <= player < 2,
        0 <= size < 3,
    ensures
        0 <= slot_x(unit, player),
        slot_x(unit, player) + 1440 * unit <= 9000 * unit,
        0 <= slot_y(unit, size),
        slot_y(unit, size) + 1440 * unit <= 4680 * unit,
{
    let t = size * 1620;
    assert(0 <= t <= 3240);
    assert(0 <= t * unit <= 3240 * unit) by (nonlinear_arith)
        requires 0 <= t <= 3240 && 1 <= unit;
    assert(slot_y(unit, size) == t * unit);
}

/// The squares of two distinct board cells are disjoint, even with borders
/// counted as inside: no point lies in both.
pub proof fn lemma_cells_disjoint(unit: int, i: int, j: int, px: int, py: int)
    requires
        1 <= unit,
        0 <= i < 9,
        0 <= j < 9,
        i != j,
        in_square(cell_x(unit, i), cell_y(unit, i), 1440 * unit, px, py),
    ensures
        !in_square(cell_x(unit, j), cell_y(unit, j), 1440 * unit, px, py),
{
    let ti = (i % 3) * 1620;
    let tj = (j % 3) * 1620;
    let si = (i / 3) * 1620;
    let sj = (j / 3) * 1620;
    assert(i == 3 * (i / 3) + i % 3);
    assert(j == 3 * (j / 3) + j % 3);
    assert(cell_x(unit, i) == 2160 * unit + ti * unit);
    assert(cell_x(unit, j) == 2160 * unit + tj * unit);
    assert(cell_y(unit, i) == si * unit);
    assert(cell_y(unit, j) == sj * unit);
    if ti != tj {
        if ti < tj {
            assert(ti * unit + 1620 * unit <= tj * unit) by (nonlinear_arith)
                requires ti + 1620 <= tj && 0 <= unit;
        } else {
            assert(tj * unit + 1620 * unit <= ti * unit) by (nonlinear_arith)
                requires tj + 1620 <= ti && 0 <= unit;
        }
    } else {
        assert(si != sj);
        if si < sj {
            assert(si * unit + 1620 * unit <= sj * unit) by (nonlinear_arith)
                requires si + 1620 <= sj && 0 <= unit;
        } else {
            assert(sj * unit + 1620 * unit <= si * unit) by (nonlinear_arith)
                requires sj + 1620 <= si && 0 <= unit;
        }
    }
}

} // verus!
