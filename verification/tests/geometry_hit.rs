use gob_ui::geometry::board_cell_rect;
use gob_ui::geometry::compute_layout;
use gob_ui::geometry::reserve_slot_origin;
use gob_ui::hit::resolve;
use gob_ui::hit::LogicalTarget;

#[test]
fn cell_rect_exact_values() {
    // unit 16: origin of the first column is 1.5 units = 2160 subunits/unit.
    assert_eq!(board_cell_rect(16, 0), (34560, 0));
    assert_eq!(board_cell_rect(16, 4), (60480, 25920));
    assert_eq!(board_cell_rect(16, 8), (86400, 51840));
}

#[test]
fn reserve_slot_exact_values() {
    assert_eq!(reserve_slot_origin(16, 0, 0), (0, 0));
    assert_eq!(reserve_slot_origin(16, 0, 1), (0, 25920));
    assert_eq!(reserve_slot_origin(16, 1, 2), (120960, 51840));
}

#[test]
fn cells_inside_region_and_disjoint() {
    let unit: u64 = 16;
    let side = 1440 * unit;
    let mut rects = Vec::new();
    for i in 0..9 {
        let (x, y) = board_cell_rect(unit, i);
        assert!(x + side <= 9000 * unit);
        assert!(y + side <= 4680 * unit);
        rects.push((x, y));
    }
    for i in 0..9 {
        for j in 0..9 {
            if i != j {
                let (xi, yi) = rects[i];
                let (xj, yj) = rects[j];
                let overlap =
                    xi <= xj + side && xj <= xi + side && yi <= yj + side && yj <= yi + side;
                assert!(!overlap, "cells {} and {} overlap", i, j);
            }
        }
    }
}

#[test]
fn layout_exact_values() {
    // 1000x1000 px: unit = min(1000/6.25, 1000/3.25) floored = 160.
    assert_eq!(compute_layout(1000, 1000), (160, 0, 345600));
    // A wide area: height is the constraint.
    assert_eq!(compute_layout(2500, 325), (100, 1350000, 0));
}

#[test]
fn resolve_inside_board_cell() {
    // unit 16, no translation: cell 0 spans x 34560..57600, y 0..23040.
    let r = resolve(34600, 50, 0, 0, 16, 0);
    assert_eq!(r, Some(LogicalTarget::BoardCell { index: 0 }));
    let r = resolve(60500, 25930, 0, 0, 16, 1);
    assert_eq!(r, Some(LogicalTarget::BoardCell { index: 4 }));
}

#[test]
fn resolve_respects_origin_translation() {
    let r = resolve(1_000_100 + 34600, 2000 + 50, 1_000_100, 2000, 16, 0);
    assert_eq!(r, Some(LogicalTarget::BoardCell { index: 0 }));
}

#[test]
fn resolve_inside_reserve_slot() {
    // The mover's own reserve column is tested, by ascending tier.
    let r = resolve(10, 25930, 0, 0, 16, 0);
    assert_eq!(r, Some(LogicalTarget::ReserveSlot { player: 0, size: 1 }));
    let r = resolve(120970, 10, 0, 0, 16, 1);
    assert_eq!(r, Some(LogicalTarget::ReserveSlot { player: 1, size: 0 }));
}

#[test]
fn resolve_opponent_reserve_is_none() {
    // A click on the right column while player 0 moves hits nothing.
    let r = resolve(120970, 10, 0, 0, 16, 0);
    assert_eq!(r, None);
}

#[test]
fn resolve_outside_everything_is_none() {
    assert_eq!(resolve(200000, 200000, 0, 0, 16, 0), None);
    assert_eq!(resolve(-50, -50, 0, 0, 16, 1), None);
    // The gap between cell columns belongs to no target.
    let gap_x = 34560 + 23040 + 100; // past cell 0, before cell 1
    assert_eq!(resolve(gap_x, 50, 0, 0, 16, 0), None);
}
