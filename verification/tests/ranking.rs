use gob_ui::ranker::adjust_evaluation;
use gob_ui::ranker::kind_tint;
use gob_ui::ranker::rank;
use gob_ui::ranker::score;
use gob_ui::ranker::EvalKind;
use gob_ui::ranker::Evaluation;
use gob_ui::ranker::GameStatus;
use gob_ui::ranker::LabelTint;
use gob_ui::ranker::Move;
use gob_ui::ranker::MoveRanker;
use gob_ui::ranker::RankedMove;

fn entry(to: u8, kind: EvalKind, depth: u32, nodes: u64) -> RankedMove {
    RankedMove {
        mv: Move { is_new: true, size: 0, from: 0, to },
        eval: Evaluation { kind, depth, time_ms: 5, nodes },
    }
}

#[test]
fn score_exact_values() {
    let e = |kind, depth| Evaluation { kind, depth, time_ms: 0, nodes: 0 };
    assert_eq!(score(&e(EvalKind::Win, 2)), 98);
    assert_eq!(score(&e(EvalKind::Win, 4)), 96);
    assert_eq!(score(&e(EvalKind::Loss, 3)), -97);
    assert_eq!(score(&e(EvalKind::TooFar, 5)), -45);
    assert_eq!(score(&e(EvalKind::Draw, 4)), -4);
    assert_eq!(score(&e(EvalKind::Unknown, 0)), 0);
}

#[test]
fn quicker_win_ranks_first() {
    // Win at depth 2 scores 98, Win at depth 4 scores 96.
    let a = entry(1, EvalKind::Win, 4, 10);
    let b = entry(2, EvalKind::Win, 2, 10);
    let ranked = rank(&vec![a, b]);
    assert_eq!(ranked, vec![b, a]);
}

#[test]
fn node_count_breaks_ties() {
    // Equal scores: the entry with more search effort ranks first.
    let a = entry(1, EvalKind::Loss, 3, 500);
    let b = entry(2, EvalKind::Loss, 3, 900);
    let ranked = rank(&vec![a, b]);
    assert_eq!(ranked, vec![b, a]);
}

#[test]
fn rank_is_idempotent_and_permutes() {
    let input = vec![
        entry(0, EvalKind::Draw, 4, 50),
        entry(1, EvalKind::Win, 2, 10),
        entry(2, EvalKind::Loss, 3, 900),
        entry(3, EvalKind::Win, 4, 70),
        entry(4, EvalKind::TooFar, 5, 40),
    ];
    let once = rank(&input);
    let twice = rank(&once);
    assert_eq!(once, twice);
    assert_eq!(once.len(), input.len());
    for e in &input {
        assert!(once.contains(e));
    }
    // Untouched input.
    assert_eq!(input[0], entry(0, EvalKind::Draw, 4, 50));
}

#[test]
fn rank_is_stable_for_indistinguishable_entries() {
    // Same kind, depth and nodes: input order is kept.
    let a = entry(7, EvalKind::Draw, 2, 33);
    let b = entry(8, EvalKind::Draw, 2, 33);
    let ranked = rank(&vec![a, b]);
    assert_eq!(ranked, vec![a, b]);
}

#[test]
fn rank_of_empty_is_empty() {
    assert_eq!(rank(&Vec::new()), Vec::new());
}

#[test]
fn perspective_flip_win_to_loss() {
    // The oracle's Win for the post-move position displays as Loss one
    // ply deeper.
    let e = Evaluation { kind: EvalKind::Win, depth: 3, time_ms: 12, nodes: 420 };
    let adjusted = adjust_evaluation(&e);
    assert_eq!(adjusted.kind, EvalKind::Loss);
    assert_eq!(adjusted.depth, 4);
    assert_eq!(adjusted.time_ms, 12);
    assert_eq!(adjusted.nodes, 420);
}

#[test]
fn perspective_flip_loss_and_passthrough() {
    let e = Evaluation { kind: EvalKind::Loss, depth: 1, time_ms: 0, nodes: 1 };
    assert_eq!(adjust_evaluation(&e).kind, EvalKind::Win);
    let e = Evaluation { kind: EvalKind::Draw, depth: 1, time_ms: 0, nodes: 1 };
    assert_eq!(adjust_evaluation(&e).kind, EvalKind::Draw);
    let e = Evaluation { kind: EvalKind::TooFar, depth: 1, time_ms: 0, nodes: 1 };
    assert_eq!(adjust_evaluation(&e).kind, EvalKind::TooFar);
}

#[test]
fn refresh_adjusts_and_ranked_orders() {
    let mut ranker = MoveRanker::new();
    assert!(ranker.needs_refresh(7));
    let raw = vec![entry(0, EvalKind::Win, 2, 10), entry(1, EvalKind::Loss, 2, 10)];
    ranker.refresh(7, GameStatus::InProgress, &raw);
    assert!(!ranker.needs_refresh(7));
    assert!(ranker.needs_refresh(8));
    let ranked = ranker.ranked();
    // The oracle's Loss became the mover's Win and now ranks first.
    assert_eq!(ranked.len(), 2);
    assert_eq!(ranked[0].mv.to, 1);
    assert_eq!(ranked[0].eval.kind, EvalKind::Win);
    assert_eq!(ranked[0].eval.depth, 3);
    assert_eq!(ranked[1].eval.kind, EvalKind::Loss);
}

#[test]
fn terminal_status_clears_ranked_list() {
    let mut ranker = MoveRanker::new();
    let raw = vec![entry(0, EvalKind::Win, 2, 10), entry(1, EvalKind::Draw, 2, 10)];
    ranker.refresh(1, GameStatus::InProgress, &raw);
    assert_eq!(ranker.ranked().len(), 2);
    // A finished game shows no candidate moves, whatever was held.
    ranker.refresh(2, GameStatus::Terminal, &raw);
    assert_eq!(ranker.ranked(), Vec::new());
}

#[test]
fn tint_per_kind() {
    assert_eq!(kind_tint(EvalKind::Win), LabelTint::Yellow);
    assert_eq!(kind_tint(EvalKind::Loss), LabelTint::Orange);
    assert_eq!(kind_tint(EvalKind::Draw), LabelTint::Gray);
    assert_eq!(kind_tint(EvalKind::TooFar), LabelTint::White);
    assert_eq!(kind_tint(EvalKind::Unknown), LabelTint::White);
}
