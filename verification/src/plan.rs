//! The render plan: the exact sequence of drawing commands one repaint
//! issues for a game-state snapshot — board cell borders, reserve
//! containers, pile-depth shadows, topmost pieces, and selection
//! highlights — in the order the surface receives them.
//!
//! All coordinates are board-local subunits (see `geometry`); the host
//! translates by the centring origin and maps the commands onto its
//! vector-graphics surface.

use vstd::prelude::*;
use crate::board::BoardView;
use crate::board::Piece;
use crate::board::board_highlight_spec;
use crate::board::piece_wf;
use crate::board::reserve_count_spec;
use crate::board::reserve_highlight_spec;
use crate::board::view_wf;
use crate::geometry::MAX_UNIT;
use crate::geometry::board_cell_rect;
use crate::geometry::cell_x;
use crate::geometry::cell_y;
use crate::geometry::reserve_slot_origin;
use crate::geometry::slot_x;
use crate::geometry::slot_y;
use crate::hit::LogicalTarget;

verus! {

/// One drawing command, in board-local subunits.  `Border` is a stroked
/// rounded rectangle; the three circle commands draw a piece: its colour
/// fill, its thin dark outline, and — only for the selected piece of the
/// player to move — a translucent highlight ring.
#[derive(Clone, Copy, PartialEq, Eq, Structural, Debug)]
pub enum DrawCmd {
    Border { x: i64, y: i64, w: u64, h: u64, corner: u64, stroke: u64 },
    PieceFill { cx: i64, cy: i64, radius: u64, player: u8 },
    PieceOutline { cx: i64, cy: i64, radius: u64, stroke: u64 },
    Highlight { cx: i64, cy: i64, radius: u64, stroke: u64 },
}

/// Visual radius of a piece by size tier: {0.35, 0.60, 0.85} of half a
/// unit, a frozen design constant.
pub open spec fn radius_spec(unit: int, size: int) -> int {
    if size == 0 {
        252 * unit
    } else if size == 1 {
        432 * unit
    } else {
        612 * unit
    }
}

/// The commands that draw one piece whose square's top-left corner is
/// `(x, y)`: colour fill, outline, and the highlight ring only when the
/// piece is marked hovered.
pub open spec fn piece_cmds_spec(unit: int, x: int, y: int, p: Piece, hovered: bool) -> Seq<
    DrawCmd,
> {
    let cx = (x + 720 * unit) as i64;
    let cy = (y + 720 * unit) as i64;
    let rad = radius_spec(unit, p.size as int) as u64;
    let base = seq![
        DrawCmd::PieceFill { cx, cy, radius: rad, player: p.player },
        DrawCmd::PieceOutline { cx, cy, radius: rad, stroke: (20 * unit) as u64 },
    ];
    if hovered {
        base.push(DrawCmd::Highlight { cx, cy, radius: rad, stroke: (30 * unit) as u64 })
    } else {
        base
    }
}

/// The commands for one board cell: its rounded border, then its topmost
/// piece if the rules engine reports one, highlighted exactly when the
/// cell is selected and the piece belongs to the player to move.
pub open spec fn cell_cmds_spec(unit: int, v: BoardView, pos: int) -> Seq<DrawCmd> {
    let x = cell_x(unit, pos);
    let y = cell_y(unit, pos);
    let border = seq![
        DrawCmd::Border {
            x: x as i64,
            y: y as i64,
            w: (1440 * unit) as u64,
            h: (1440 * unit) as u64,
            corner: (360 * unit) as u64,
            stroke: (45 * unit) as u64,
        },
    ];
    match v.tops[pos] {
        Some(p) => border + piece_cmds_spec(unit, x, y, p, board_highlight_spec(v, pos, p)),
        None => border,
    }
}

/// The commands for board cells `0 .. n`, in ascending order.
pub open spec fn board_cmds_upto(unit: int, v: BoardView, n: int) -> Seq<DrawCmd>
    decreases n,
{
    if n <= 0 {
        Seq::empty()
    } else {
        board_cmds_upto(unit, v, n - 1) + cell_cmds_spec(unit, v, n - 1)
    }
}

/// The commands for one reserve pile: a shadow piece at the base position
/// when at least two pieces remain (to convey pile depth), then the top
/// piece — lifted by 1/16 unit above the shadow — when any remain,
/// highlighted exactly when the pile is selected and belongs to the
/// player to move.
pub open spec fn tier_cmds_spec(unit: int, v: BoardView, player: int, size: int) -> Seq<DrawCmd> {
    let x = slot_x(unit, player);
    let y = slot_y(unit, size);
    let count = reserve_count_spec(v, player, size);
    let p = Piece { player: player as u8, size: size as u8 };
    let shadow = if count > 1 {
        piece_cmds_spec(unit, x, y, p, false)
    } else {
        Seq::empty()
    };
    let top_y = if count > 1 {
        y - 90 * unit
    } else {
        y
    };
    let top = if count > 0 {
        piece_cmds_spec(unit, x, top_y, p, reserve_highlight_spec(v, player, size))
    } else {
        Seq::empty()
    };
    shadow + top
}

/// The commands for a player's reserve piles of tiers `0 .. n`.
pub open spec fn tiers_upto(unit: int, v: BoardView, player: int, n: int) -> Seq<DrawCmd>
    decreases n,
{
    if n <= 0 {
        Seq::empty()
    } else {
        tiers_upto(unit, v, player, n - 1) + tier_cmds_spec(unit, v, player, n - 1)
    }
}

/// The commands for a player's whole reserve column: a bordered container
/// spanning all three tiers, then the piles bottom tier first.
pub open spec fn reserve_cmds_spec(unit: int, v: BoardView, player: int) -> Seq<DrawCmd> {
    seq![
        DrawCmd::Border {
            x: slot_x(unit, player) as i64,
            y: 0,
            w: (1440 * unit) as u64,
            h: (4680 * unit) as u64,
            corner: (360 * unit) as u64,
            stroke: (45 * unit) as u64,
        },
    ] + tiers_upto(unit, v, player, 3)
}

/// Everything one repaint draws, in issue order: the left player's
/// reserve column, the right player's, then the nine board cells.
pub open spec fn render_plan_spec(unit: int, v: BoardView) -> Seq<DrawCmd> {
    reserve_cmds_spec(unit, v, 0) + reserve_cmds_spec(unit, v, 1) + board_cmds_upto(unit, v, 9)
}

/// Appends the commands for one piece.
fn push_piece_cmds(out: &mut Vec<DrawCmd>, unit: u64, x: i64, y: i64, piece: Piece, hovered: bool)
    requires
        unit <= MAX_UNIT,
        piece_wf(piece),
        -10_000_000_000_000 <= x <= 10_000_000_000_000,
        -10_000_000_000_000 <= y <= 10_000_000_000_000,
    ensures
        final(out)@ == old(out)@ + piece_cmds_spec(unit as int, x as int, y as int, piece, hovered),
{
    let cx = x + (720 * unit) as i64;
    let cy = y + (720 * unit) as i64;
    let rad = if piece.size == 0 {
        252 * unit
    } else if piece.size == 1 {
        432 * unit
    } else {
        612 * unit
    };
    out.push(DrawCmd::PieceFill { cx, cy, radius: rad, player: piece.player });
    out.push(DrawCmd::PieceOutline { cx, cy, radius: rad, stroke: 20 * unit });
    if hovered {
        out.push(DrawCmd::Highlight { cx, cy, radius: rad, stroke: 30 * unit });
    }
    proof {
        assert(out@ =~= old(out)@ + piece_cmds_spec(
            unit as int,
            x as int,
            y as int,
            piece,
            hovered,
        ));
    }
}

/// Appends the commands for one reserve column.
fn push_reserve_cmds(out: &mut Vec<DrawCmd>, unit: u64, v: &BoardView, player: u8)
    requires
        unit <= MAX_UNIT,
        view_wf(*v),
        player < 2,
    ensures
        final(out)@ == old(out)@ + reserve_cmds_spec(unit as int, *v, player as int),
{
    let (sx, _) = reserve_slot_origin(unit, player, 0);
    out.push(
        DrawCmd::Border {
            x: sx as i64,
            y: 0,
            w: 1440 * unit,
            h: 4680 * unit,
            corner: 360 * unit,
            stroke: 45 * unit,
        },
    );
    proof {
        assert(out@ =~= old(out)@ + reserve_cmds_spec(unit as int, *v, player as int).subrange(
            0,
            1,
        ));
        assert(out@ =~= old(out)@ + seq![
            reserve_cmds_spec(unit as int, *v, player as int)[0],
        ] + tiers_upto(unit as int, *v, player as int, 0));
    }
    let ghost header = out@;
    let mut size: u8 = 0;
    while size < 3
        invariant
            size <= 3,
            unit <= MAX_UNIT,
            view_wf(*v),
            player < 2,
            out@ == header + tiers_upto(unit as int, *v, player as int, size as int),
            header == old(out)@ + seq![
                reserve_cmds_spec(unit as int, *v, player as int)[0],
            ],
        decreases 3 - size,
    {
        let (sx, sy) = reserve_slot_origin(unit, player, size);
        proof {
            let t = (size as int) * 1620;
            assert(slot_y(unit as int, size as int) == t * (unit as int));
            assert(0 <= t * (unit as int) <= 3240 * (unit as int)) by (nonlinear_arith)
                requires 0 <= t <= 3240 && 0 <= unit;
        }
        let count = v.reserve_count(player, size);
        let piece = Piece { player, size };
        let ghost entered = out@;
        if count > 1 {
            push_piece_cmds(out, unit, sx as i64, sy as i64, piece, false);
        }
        let top_y = if count > 1 {
            (sy as i64) - (90 * unit) as i64
        } else {
            sy as i64
        };
        if count > 0 {
            let hovered = match v.selection {
                Some(LogicalTarget::ReserveSlot { player: sp, size: ss }) => sp == player && ss
                    == size && v.player == player,
                _ => false,
            };
            proof {
                assert(hovered == reserve_highlight_spec(*v, player as int, size as int));
            }
            push_piece_cmds(out, unit, sx as i64, top_y, piece, hovered);
        }
        proof {
            assert(out@ =~= entered + tier_cmds_spec(unit as int, *v, player as int, size as int));
            assert(out@ =~= header + tiers_upto(unit as int, *v, player as int, size as int + 1));
        }
        size = size + 1;
    }
    proof {
        assert(out@ =~= old(out)@ + reserve_cmds_spec(unit as int, *v, player as int));
    }
}

/// Appends the commands for the nine board cells.
fn push_board_cmds(out: &mut Vec<DrawCmd>, unit: u64, v: &BoardView)
    requires
        unit <= MAX_UNIT,
        view_wf(*v),
    ensures
        final(out)@ == old(out)@ + board_cmds_upto(unit as int, *v, 9),
{
    let mut pos: usize = 0;
    while pos < 9
        invariant
            pos <= 9,
            unit <= MAX_UNIT,
            view_wf(*v),
            out@ == old(out)@ + board_cmds_upto(unit as int, *v, pos as int),
        decreases 9 - pos,
    {
        let (bx, by) = board_cell_rect(unit, pos);
        proof {
            let t = ((pos as int) % 3) * 1620;
            let s = ((pos as int) / 3) * 1620;
            assert(cell_x(unit as int, pos as int) == 2160 * (unit as int) + t * (unit as int));
            assert(cell_y(unit as int, pos as int) == s * (unit as int));
            assert(0 <= t * (unit as int) <= 3240 * (unit as int)) by (nonlinear_arith)
                requires 0 <= t <= 3240 && 0 <= unit;
            assert(0 <= s * (unit as int) <= 3240 * (unit as int)) by (nonlinear_arith)
                requires 0 <= s <= 3240 && 0 <= unit;
        }
        let ghost entered = out@;
        out.push(
            DrawCmd::Border {
                x: bx as i64,
                y: by as i64,
                w: 1440 * unit,
                h: 1440 * unit,
                corner: 360 * unit,
                stroke: 45 * unit,
            },
        );
        match v.top_at(pos) {
            Some(p) => {
                let hovered = match v.selection {
                    Some(LogicalTarget::BoardCell { index }) => index == pos as u8 && p.player
                        == v.player,
                    _ => false,
                };
                proof {
                    assert(hovered == board_highlight_spec(*v, pos as int, p));
                }
                push_piece_cmds(out, unit, bx as i64, by as i64, p, hovered);
            },
            None => {},
        }
        proof {
            assert(out@ =~= entered + cell_cmds_spec(unit as int, *v, pos as int));
            assert(out@ =~= old(out)@ + board_cmds_upto(unit as int, *v, pos as int + 1));
        }
        pos = pos + 1;
    }
}

/// The full render plan for one repaint of the snapshot `v` at the given
/// unit size: both reserve columns, then the board, exactly as
/// `render_plan_spec` lays them out.
pub fn render_plan(unit: u64, v: &BoardView) -> (r: Vec<DrawCmd>)
    requires
        unit <= MAX_UNIT,
        view_wf(*v),
    ensures
        r@ == render_plan_spec(unit as int, *v),
{
    let mut out: Vec<DrawCmd> = Vec::new();
    push_reserve_cmds(&mut out, unit, v, 0);
    push_reserve_cmds(&mut out, unit, v, 1);
    push_board_cmds(&mut out, unit, v);
    proof {
        assert(out@ =~= render_plan_spec(unit as int, *v));
    }
    out
}

} // verus!
