//! Verified core of a small board-game front end: board geometry and
//! hit-testing under dynamic scaling, a deterministic move-ranking layer
//! over an external search oracle, a render-plan builder, and the
//! finite-state controller for directional page transitions.

pub mod board;
pub mod geometry;
pub mod hit;
pub mod plan;
pub mod ranker;
pub mod transition;
