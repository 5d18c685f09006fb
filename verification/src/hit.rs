//! Pointer hit-testing: resolving a pointer position to at most one logical
//! target — one of the mover's three reserve piles, or one of the nine board
//! cells — under the current unit size and centring translation.
//!
//! Positions are in subunits (see `geometry`); the host converts pixels at
//! the boundary.  Containment counts a square's border as inside, exactly as
//! the click test of the interactive layer does; the reserve piles of the
//! player to move are tested first, then the board cells, in ascending
//! order, and the first containing square wins.

use vstd::prelude::*;
use crate::geometry::CELL_SIDE;
use crate::geometry::MAX_UNIT;
use crate::geometry::board_cell_rect;
use crate::geometry::cell_x;
use crate::geometry::cell_y;
use crate::geometry::in_square;
use crate::geometry::lemma_cells_disjoint;
use crate::geometry::reserve_slot_origin;
use crate::geometry::slot_x;
use crate::geometry::slot_y;
use crate::geometry::strictly_in_square;

verus! {

/// Largest absolute pointer or origin coordinate `resolve` accepts, in
/// subunits; keeps the translation into board-local coordinates in `i64`.
pub const MAX_COORD: i64 = 1_000_000_000_000_000;

/// A discrete interaction target: a reserve pile of a player, by size tier,
/// or a board cell by row-major index.
#[derive(Clone, Copy, PartialEq, Eq, Structural, Debug)]
pub enum LogicalTarget {
    ReserveSlot { player: u8, size: u8 },
    BoardCell { index: u8 },
}

/// The target's coordinates are in range.
pub open spec fn target_wf(t: LogicalTarget) -> bool {
    match t {
        LogicalTarget::ReserveSlot { player, size } => player < 2 && size < 3,
        LogicalTarget::BoardCell { index } => index < 9,
    }
}

/// First size tier at or after `n` whose reserve square of `player`
/// contains the board-local point, if any.
pub open spec fn first_slot_from(unit: int, player: int, lx: int, ly: int, n: int) -> Option<int>
    decreases 3 - n,
{
    if n < 0 || n >= 3 {
        None
    } else if in_square(slot_x(unit, player), slot_y(unit, n), 1440 * unit, lx, ly) {
        Some(n)
    } else {
        first_slot_from(unit, player, lx, ly, n + 1)
    }
}

/// First board cell at or after `n` whose square contains the board-local
/// point, if any.
pub open spec fn first_cell_from(unit: int, lx: int, ly: int, n: int) -> Option<int>
    decreases 9 - n,
{
    if n < 0 || n >= 9 {
        None
    } else if in_square(cell_x(unit, n), cell_y(unit, n), 1440 * unit, lx, ly) {
        Some(n)
    } else {
        first_cell_from(unit, lx, ly, n + 1)
    }
}

/// What pointer resolution returns for a board-local point: the first
/// containing reserve square of the player to move, else the first
/// containing board cell, else nothing.
pub open spec fn resolve_spec(unit: int, player: int, lx: int, ly: int) -> Option<LogicalTarget> {
    match first_slot_from(unit, player, lx, ly, 0) {
        Some(s) => Some(LogicalTarget::ReserveSlot { player: player as u8, size: s as u8 }),
        None => match first_cell_from(unit, lx, ly, 0) {
            Some(c) => Some(LogicalTarget::BoardCell { index: c as u8 }),
            None => None,
        },
    }
}

/// Resolves an absolute pointer position against the current unit size and
/// centring origin, for the given player to move.  Returns the mover's
/// first containing reserve pile, else the first containing board cell,
/// else `None` (which the caller treats as "clear the selection").
pub fn resolve(px: i64, py: i64, ox: i64, oy: i64, unit: u64, player: u8) -> (r: Option<
    LogicalTarget,
>)
    requires
        unit <= MAX_UNIT,
        player < 2,
        -MAX_COORD <= px <= MAX_COORD,
        -MAX_COORD <= py <= MAX_COORD,
        -MAX_COORD <= ox <= MAX_COORD,
        -MAX_COORD <= oy <= MAX_COORD,
    ensures
        r == resolve_spec(unit as int, player as int, px - ox, py - oy),
        r matches Some(t) ==> target_wf(t),
{
    let lx = px - ox;
    let ly = py - oy;
    let side = (CELL_SIDE * unit) as i64;
    let mut k: u8 = 0;
    while k < 3
        invariant
            k <= 3,
            unit <= MAX_UNIT,
            player < 2,
            side == 1440 * unit,
            lx == px - ox,
            ly == py - oy,
            first_slot_from(unit as int, player as int, lx as int, ly as int, 0)
                == first_slot_from(unit as int, player as int, lx as int, ly as int, k as int),
        decreases 3 - k,
    {
        let (sx, sy) = reserve_slot_origin(unit, player, k);
        proof {
            let t = (k as int) * 1620;
            assert(slot_y(unit as int, k as int) == t * (unit as int));
            assert(0 <= t * (unit as int) <= 3240 * (unit as int)) by (nonlinear_arith)
                requires 0 <= t <= 3240 && 0 <= unit;
        }
        let sxi = sx as i64;
        let syi = sy as i64;
        if sxi <= lx && lx <= sxi + side && syi <= ly && ly <= syi + side {
            return Some(LogicalTarget::ReserveSlot { player, size: k });
        }
        k = k + 1;
    }
    let mut c: u8 = 0;
    while c < 9
        invariant
            c <= 9,
            unit <= MAX_UNIT,
            player < 2,
            side == 1440 * unit,
            lx == px - ox,
            ly == py - oy,
            first_slot_from(unit as int, player as int, lx as int, ly as int, 0) is None,
            first_cell_from(unit as int, lx as int, ly as int, 0)
                == first_cell_from(unit as int, lx as int, ly as int, c as int),
        decreases 9 - c,
    {
        let (bx, by) = board_cell_rect(unit, c as usize);
        proof {
            let t = ((c as int) % 3) * 1620;
            let s = ((c as int) / 3) * 1620;
            assert(cell_x(unit as int, c as int) == 2160 * (unit as int) + t * (unit as int));
            assert(cell_y(unit as int, c as int) == s * (unit as int));
            assert(0 <= t * (unit as int) <= 3240 * (unit as int)) by (nonlinear_arith)
                requires 0 <= t <= 3240 && 0 <= unit;
            assert(0 <= s * (unit as int) <= 3240 * (unit as int)) by (nonlinear_arith)
                requires 0 <= s <= 3240 && 0 <= unit;
        }
        let bxi = bx as i64;
        let byi = by as i64;
        if bxi <= lx && lx <= bxi + side && byi <= ly && ly <= byi + side {
            return Some(LogicalTarget::BoardCell { index: c });
        }
        c = c + 1;
    }
    None
}

/// Helper: if every reserve square of `player` from tier `n` on misses the
/// point, the scan from `n` finds nothing.
proof fn lemma_first_slot_none(unit: int, player: int, lx: int, ly: int, n: int)
    requires
        0 <= n,
        forall|m: int|
            n <= m < 3 ==> !#[trigger] in_square(
                slot_x(unit, player),
                slot_y(unit, m),
                1440 * unit,
                lx,
                ly,
            ),
    ensures
        first_slot_from(unit, player, lx, ly, n) is None,
    decreases 3 - n,
{
    if n < 3 {
        lemma_first_slot_none(unit, player, lx, ly, n + 1);
    }
}

/// Helper: if every cell from `n` up to (excluding) `index` misses the
/// point and cell `index` contains it, the scan from `n` stops at `index`.
proof fn lemma_first_cell_reaches(unit: int, lx: int, ly: int, n: int, index: int)
    requires
        0 <= n <= index < 9,
        forall|m: int|
            n <= m < index ==> !#[trigger] in_square(
                cell_x(unit, m),
                cell_y(unit, m),
                1440 * unit,
                lx,
                ly,
            ),
        in_square(cell_x(unit, index), cell_y(unit, index), 1440 * unit, lx, ly),
    ensures
        first_cell_from(unit, lx, ly, n) == Some(index),
    decreases index - n,
{
    if n < index {
        lemma_first_cell_reaches(unit, lx, ly, n + 1, index);
    }
}

/// Helper: if every cell from `n` on misses the point, the scan from `n`
/// finds nothing.
proof fn lemma_first_cell_none(unit: int, lx: int, ly: int, n: int)
    requires
        0 <= n,
        forall|m: int|
            n <= m < 9 ==> !#[trigger] in_square(
                cell_x(unit, m),
                cell_y(unit, m),
                1440 * unit,
                lx,
                ly,
            ),
    ensures
        first_cell_from(unit, lx, ly, n) is None,
    decreases 9 - n,
{
    if n < 9 {
        lemma_first_cell_none(unit, lx, ly, n + 1);
    }
}

/// Helper: bounds on a cell's horizontal position.
proof fn lemma_cell_x_bounds(unit: int, index: int)
    requires
        1 <= unit,
        0 <= index < 9,
    ensures
        2160 * unit <= cell_x(unit, index),
        cell_x(unit, index) <= 5400 * unit,
{
    let t = (index % 3) * 1620;
    assert(0 <= t <= 3240);
    assert(0 <= t * unit <= 3240 * unit) by (nonlinear_arith)
        requires 0 <= t <= 3240 && 1 <= unit;
    assert(cell_x(unit, index) == 2160 * unit + t * unit);
}

/// A pointer strictly inside a board cell's square resolves to exactly that
/// cell: it can touch no reserve square of either player, and no other cell
/// contains it.
pub proof fn lemma_resolve_strictly_inside_cell(
    unit: int,
    player: int,
    lx: int,
    ly: int,
    index: int,
)
    requires
        1 <= unit,
        0 <= player < 2,
        0 <= index < 9,
        strictly_in_square(cell_x(unit, index), cell_y(unit, index), 1440 * unit, lx, ly),
    ensures
        resolve_spec(unit, player, lx, ly) == Some(
            LogicalTarget::BoardCell { index: index as u8 },
        ),
{
    lemma_cell_x_bounds(unit, index);
    assert forall|n: int| 0 <= n < 3 implies !#[trigger] in_square(
        slot_x(unit, player),
        slot_y(unit, n),
        1440 * unit,
        lx,
        ly,
    ) by {
        if player == 0 {
            assert(lx > 2160 * unit > 1440 * unit + 0);
        } else {
            assert(lx < cell_x(unit, index) + 1440 * unit <= 5400 * unit + 1440 * unit);
            assert(6840 * unit < 7560 * unit);
        }
    }
    lemma_first_slot_none(unit, player, lx, ly, 0);
    assert forall|m: int| 0 <= m < index implies !#[trigger] in_square(
        cell_x(unit, m),
        cell_y(unit, m),
        1440 * unit,
        lx,
        ly,
    ) by {
        lemma_cells_disjoint(unit, index, m, lx, ly);
    }
    lemma_first_cell_reaches(unit, lx, ly, 0, index);
}

/// Top-left corner of the square a logical target occupies.
pub open spec fn target_box(unit: int, t: LogicalTarget) -> (int, int) {
    match t {
        LogicalTarget::ReserveSlot { player, size } => (
            slot_x(unit, player as int),
            slot_y(unit, size as int),
        ),
        LogicalTarget::BoardCell { index } => (
            cell_x(unit, index as int),
            cell_y(unit, index as int),
        ),
    }
}

/// The target is one of those pointer resolution tests for `player` to
/// move: one of that player's own reserve piles, or any board cell.
pub open spec fn tested_target(t: LogicalTarget, player: int) -> bool {
    target_wf(t) && (t matches LogicalTarget::ReserveSlot { player: p, .. } ==> p == player)
}

/// Under a valid unit size, the tested squares never overlap: a pointer
/// inside one target's square lies in no other tested square, so at most
/// one target can match and the ascending scan order is only a safeguard.
pub proof fn lemma_at_most_one_target(
    unit: int,
    player: int,
    lx: int,
    ly: int,
    t1: LogicalTarget,
    t2: LogicalTarget,
)
    requires
        1 <= unit,
        0 <= player < 2,
        tested_target(t1, player),
        tested_target(t2, player),
        t1 != t2,
        in_square(target_box(unit, t1).0, target_box(unit, t1).1, 1440 * unit, lx, ly),
    ensures
        !in_square(target_box(unit, t2).0, target_box(unit, t2).1, 1440 * unit, lx, ly),
{
    match (t1, t2) {
        (
            LogicalTarget::ReserveSlot { player: _, size: s1 },
            LogicalTarget::ReserveSlot { player: _, size: s2 },
        ) => {
            let a = (s1 as int) * 1620;
            let b = (s2 as int) * 1620;
            assert(slot_y(unit, s1 as int) == a * unit);
            assert(slot_y(unit, s2 as int) == b * unit);
            if a < b {
                assert(a * unit + 1620 * unit <= b * unit) by (nonlinear_arith)
                    requires a + 1620 <= b && 0 <= unit;
            } else {
                assert(b * unit + 1620 * unit <= a * unit) by (nonlinear_arith)
                    requires b + 1620 <= a && 0 <= unit;
            }
        },
        (
            LogicalTarget::BoardCell { index: i1 },
            LogicalTarget::BoardCell { index: i2 },
        ) => {
            lemma_cells_disjoint(unit, i1 as int, i2 as int, lx, ly);
        },
        (
            LogicalTarget::ReserveSlot { player: _, size: _ },
            LogicalTarget::BoardCell { index },
        ) => {
            lemma_cell_x_bounds(unit, index as int);
            if player == 0 {
                assert(lx <= 0 + 1440 * unit);
                assert(1440 * unit < 2160 * unit);
            } else {
                assert(lx >= 7560 * unit);
                assert(cell_x(unit, index as int) + 1440 * unit <= 6840 * unit < 7560 * unit);
            }
        },
        (
            LogicalTarget::BoardCell { index },
            LogicalTarget::ReserveSlot { player: _, size: _ },
        ) => {
            lemma_cell_x_bounds(unit, index as int);
            if player == 0 {
                assert(lx >= cell_x(unit, index as int) >= 2160 * unit);
                assert(1440 * unit < 2160 * unit);
            } else {
                assert(lx <= cell_x(unit, index as int) + 1440 * unit <= 6840 * unit);
                assert(6840 * unit < 7560 * unit);
            }
        },
    }
}

/// A pointer in no tested square at all — none of the mover's three reserve
/// squares and none of the nine cells — resolves to nothing.
pub proof fn lemma_resolve_outside_all(unit: int, player: int, lx: int, ly: int)
    requires
        forall|n: int|
            0 <= n < 3 ==> !#[trigger] in_square(
                slot_x(unit, player),
                slot_y(unit, n),
                1440 * unit,
                lx,
                ly,
            ),
        forall|m: int|
            0 <= m < 9 ==> !#[trigger] in_square(
                cell_x(unit, m),
                cell_y(unit, m),
                1440 * unit,
                lx,
                ly,
            ),
    ensures
        resolve_spec(unit, player, lx, ly) is None,
{
    lemma_first_slot_none(unit, player, lx, ly, 0);
    lemma_first_cell_none(unit, lx, ly, 0);
}

} // verus!
