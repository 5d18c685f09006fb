//! The game-state snapshot the rendering layer reads: what the external
//! rules engine reports for one repaint, held as plain values so that a
//! render pass observes a single consistent state.

use vstd::prelude::*;
use crate::hit::LogicalTarget;
use crate::hit::target_wf;

verus! {

/// A piece: its owning player and its size tier (0 small, 1 medium,
/// 2 large).
#[derive(Clone, Copy, PartialEq, Eq, Structural, Debug)]
pub struct Piece {
    pub player: u8,
    pub size: u8,
}

/// The piece's coordinates are in range.
pub open spec fn piece_wf(p: Piece) -> bool {
    p.player < 2 && p.size < 3
}

/// A consistent snapshot of the visible game state: the topmost piece per
/// board cell, the reserve counts per player and size tier, the player to
/// move, and the active selection, if any.
#[derive(Clone, Copy, PartialEq, Eq, Debug)]
pub struct BoardView {
    /// Topmost piece per cell, row-major; covered pieces are not drawn.
    pub tops: [Option<Piece>; 9],
    /// Remaining reserve pieces, indexed `player * 3 + size`.
    pub reserve: [u8; 6],
    /// Player to move.
    pub player: u8,
    /// The selection marked active, if any; scoped to the player to move.
    pub selection: Option<LogicalTarget>,
}

/// The snapshot is well formed: indices in range on every field.
pub open spec fn view_wf(v: BoardView) -> bool {
    &&& v.player < 2
    &&& forall|i: int|
        0 <= i < 9 ==> (#[trigger] v.tops[i] matches Some(p) ==> piece_wf(p))
    &&& (v.selection matches Some(t) ==> target_wf(t))
}

/// Reserve count of `player` at size tier `size`.
pub open spec fn reserve_count_spec(v: BoardView, player: int, size: int) -> u8 {
    v.reserve[player * 3 + size]
}

/// A board cell's topmost piece is drawn highlighted exactly when that
/// cell is the active selection and the piece belongs to the player to
/// move; a non-mover's piece is never highlighted.
pub open spec fn board_highlight_spec(v: BoardView, pos: int, p: Piece) -> bool {
    v.selection == Some(LogicalTarget::BoardCell { index: pos as u8 }) && p.player == v.player
}

/// A reserve pile's top piece is drawn highlighted exactly when that pile
/// is the active selection and the pile belongs to the player to move.
pub open spec fn reserve_highlight_spec(v: BoardView, player: int, size: int) -> bool {
    v.selection == Some(
        LogicalTarget::ReserveSlot { player: player as u8, size: size as u8 },
    ) && v.player == player
}

impl BoardView {
    /// Topmost piece at board cell `pos`, if any.
    pub fn top_at(&self, pos: usize) -> (r: Option<Piece>)
        requires
            pos < 9,
        ensures
            r == self.tops[pos as int],
    {
        self.tops[pos]
    }

    /// Remaining reserve pieces of `player` at size tier `size`.
    pub fn reserve_count(&self, player: u8, size: u8) -> (r: u8)
        requires
            player < 2,
            size < 3,
        ensures
            r == reserve_count_spec(*self, player as int, size as int),
    {
        self.reserve[(player as usize) * 3 + (size as usize)]
    }
}

} // verus!
