use gob_ui::board::BoardView;
use gob_ui::board::Piece;
use gob_ui::hit::LogicalTarget;
use gob_ui::plan::render_plan;
use gob_ui::plan::DrawCmd;
use gob_ui::transition::slide_offset;
use gob_ui::transition::transition_for;
use gob_ui::transition::Route;
use gob_ui::transition::TransitionController;
use gob_ui::transition::TransitionState;

#[test]
fn table_covers_the_six_sibling_pairs() {
    assert_eq!(transition_for(Route::Home, Route::Gob), Some((Route::Home, true)));
    assert_eq!(transition_for(Route::Home, Route::Crab), Some((Route::Home, true)));
    assert_eq!(transition_for(Route::Gob, Route::Home), Some((Route::Gob, false)));
    assert_eq!(transition_for(Route::Gob, Route::Crab), Some((Route::Gob, true)));
    assert_eq!(transition_for(Route::Crab, Route::Home), Some((Route::Crab, false)));
    assert_eq!(transition_for(Route::Crab, Route::Gob), Some((Route::Crab, false)));
    assert_eq!(transition_for(Route::PageNotFound, Route::Home), None);
    assert_eq!(transition_for(Route::Home, Route::Home), None);
}

#[test]
fn animation_runs_and_settles_on_destination() {
    let mut c = TransitionController::new();
    assert_eq!(c.mounted(), Vec::new());
    c.on_route_change(Route::Home, Route::Gob);
    assert_eq!(
        c.state,
        TransitionState::Animating { from: Route::Home, to: Route::Gob, upwards: true, progress: 0 }
    );
    assert_eq!(c.mounted(), vec![Route::Home, Route::Gob]);
    c.tick(500, false);
    assert_eq!(
        c.state,
        TransitionState::Animating {
            from: Route::Home,
            to: Route::Gob,
            upwards: true,
            progress: 500
        }
    );
    // Progress complete and the clock stopped: only the Gob view stays.
    c.tick(1000, true);
    assert_eq!(c.state, TransitionState::Settled { route: Route::Gob });
    assert_eq!(c.mounted(), vec![Route::Gob]);
}

#[test]
fn unrecognized_pair_swaps_without_animation() {
    let mut c = TransitionController::new();
    c.on_route_change(Route::PageNotFound, Route::Crab);
    assert_eq!(c.state, TransitionState::Settled { route: Route::Crab });
    assert_eq!(c.mounted(), vec![Route::Crab]);
}

#[test]
fn newest_event_wins_over_a_running_animation() {
    let mut c = TransitionController::new();
    c.on_route_change(Route::Home, Route::Gob);
    c.tick(700, false);
    c.on_route_change(Route::Gob, Route::Crab);
    assert_eq!(
        c.state,
        TransitionState::Animating { from: Route::Gob, to: Route::Crab, upwards: true, progress: 0 }
    );
}

#[test]
fn slide_offset_values() {
    // Upward: the stack starts fully displaced and reaches rest.
    assert_eq!(slide_offset(1000, 0, true), 1000);
    assert_eq!(slide_offset(1000, 500, true), 500);
    assert_eq!(slide_offset(1000, 1000, true), 0);
    // Downward inverts the sign.
    assert_eq!(slide_offset(1000, 250, false), -750);
    // Zero measured height (first paint before layout): no slide at all.
    assert_eq!(slide_offset(0, 500, true), 0);
}

#[test]
fn controller_offset_follows_progress() {
    let mut c = TransitionController::new();
    c.on_route_change(Route::Home, Route::Gob);
    c.tick(500, false);
    assert_eq!(c.offset(1000), 500);
    assert_eq!(c.offset(0), 0);
    c.tick(1000, true);
    assert_eq!(c.offset(1000), 0);
}

fn empty_view() -> BoardView {
    BoardView { tops: [None; 9], reserve: [0; 6], player: 0, selection: None }
}

#[test]
fn plan_for_empty_view_is_borders_only() {
    let plan = render_plan(16, &empty_view());
    // Two reserve containers and nine cell borders.
    assert_eq!(plan.len(), 11);
    assert_eq!(
        plan[0],
        DrawCmd::Border { x: 0, y: 0, w: 23040, h: 74880, corner: 5760, stroke: 720 }
    );
    assert_eq!(
        plan[1],
        DrawCmd::Border { x: 120960, y: 0, w: 23040, h: 74880, corner: 5760, stroke: 720 }
    );
    assert_eq!(
        plan[2],
        DrawCmd::Border { x: 34560, y: 0, w: 23040, h: 23040, corner: 5760, stroke: 720 }
    );
}

#[test]
fn plan_draws_pile_shadow_and_lifted_top() {
    let mut v = empty_view();
    v.reserve[0] = 2; // player 0, smallest tier: two pieces left
    let plan = render_plan(16, &v);
    // Container, shadow fill+outline at the base, top fill+outline lifted
    // by a 16th of a unit, second container, nine cell borders.
    assert_eq!(plan.len(), 15);
    assert_eq!(plan[1], DrawCmd::PieceFill { cx: 11520, cy: 11520, radius: 4032, player: 0 });
    assert_eq!(plan[2], DrawCmd::PieceOutline { cx: 11520, cy: 11520, radius: 4032, stroke: 320 });
    assert_eq!(plan[3], DrawCmd::PieceFill { cx: 11520, cy: 10080, radius: 4032, player: 0 });
    assert_eq!(plan[4], DrawCmd::PieceOutline { cx: 11520, cy: 10080, radius: 4032, stroke: 320 });
}

#[test]
fn plan_highlights_only_the_movers_selection() {
    let mut v = empty_view();
    v.tops[4] = Some(Piece { player: 1, size: 2 });
    v.selection = Some(LogicalTarget::BoardCell { index: 4 });
    v.player = 1;
    let plan = render_plan(16, &v);
    // 2 containers + 9 borders + fill + outline + highlight ring.
    assert_eq!(plan.len(), 14);
    assert_eq!(plan[7], DrawCmd::PieceFill { cx: 72000, cy: 37440, radius: 9792, player: 1 });
    assert_eq!(plan[8], DrawCmd::PieceOutline { cx: 72000, cy: 37440, radius: 9792, stroke: 320 });
    assert_eq!(plan[9], DrawCmd::Highlight { cx: 72000, cy: 37440, radius: 9792, stroke: 480 });
    // The same selection is never highlighted for the non-mover's piece.
    v.player = 0;
    let plan = render_plan(16, &v);
    assert_eq!(plan.len(), 13);
}

#[test]
fn plan_highlights_selected_reserve_pile() {
    let mut v = empty_view();
    v.reserve[5] = 1; // player 1, largest tier
    v.player = 1;
    v.selection = Some(LogicalTarget::ReserveSlot { player: 1, size: 2 });
    let plan = render_plan(16, &v);
    // Container 0, container 1, top piece (fill+outline+highlight), borders.
    assert_eq!(plan.len(), 14);
    assert_eq!(plan[2], DrawCmd::PieceFill { cx: 132480, cy: 63360, radius: 9792, player: 1 });
    assert_eq!(plan[4], DrawCmd::Highlight { cx: 132480, cy: 63360, radius: 9792, stroke: 480 });
}
