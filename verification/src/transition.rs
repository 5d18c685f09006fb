//! The animated page-transition controller: a small state machine that, on
//! a route change between recognized sibling pages, slides a two-frame
//! stack of the outgoing and incoming views over a fixed duration, and
//! settles on the destination once the clock reports the animation done.
//!
//! The clock and the easing curve live in the host; the controller consumes
//! the clock's progress as a value in thousandths (0 ..= 1000).

use vstd::prelude::*;

verus! {

/// Progress value meaning "animation complete", in thousandths.
pub const PROGRESS_FULL: u16 = 1000;

/// Fixed animation duration, in host clock time units.
pub const DURATION: u64 = 300;

/// Largest measured stack height `slide_offset` accepts, in subunits.
pub const MAX_HEIGHT: u64 = 1_000_000_000_000;

/// The application's routes.
#[derive(Clone, Copy, PartialEq, Eq, Structural, Debug)]
pub enum Route {
    Home,
    Gob,
    Crab,
    PageNotFound,
}

/// Phase of the transition controller.  While `Animating`, both the
/// outgoing (`from`) and destination (`to`) views are mounted as a
/// two-frame stack; `progress` is in thousandths.
#[derive(Clone, Copy, PartialEq, Eq, Structural, Debug)]
pub enum TransitionState {
    Idle,
    Animating { from: Route, to: Route, upwards: bool, progress: u16 },
    Settled { route: Route },
}

/// Per-pair static table: for a recognized pair of sibling routes, which
/// view slides out and in which direction; unrecognized pairs get no
/// animation.
pub open spec fn transition_for_spec(from: Route, to: Route) -> Option<(Route, bool)> {
    match (from, to) {
        (Route::Home, Route::Gob) => Some((Route::Home, true)),
        (Route::Home, Route::Crab) => Some((Route::Home, true)),
        (Route::Gob, Route::Home) => Some((Route::Gob, false)),
        (Route::Gob, Route::Crab) => Some((Route::Gob, true)),
        (Route::Crab, Route::Home) => Some((Route::Crab, false)),
        (Route::Crab, Route::Gob) => Some((Route::Crab, false)),
        _ => None,
    }
}

/// State entered when a route-change event arrives, whatever the state
/// before: a recognized pair starts a fresh animation at progress 0; an
/// unrecognized pair shows the destination immediately.
pub open spec fn route_change_spec(from: Route, to: Route) -> TransitionState {
    match transition_for_spec(from, to) {
        Some(p) => TransitionState::Animating { from: p.0, to, upwards: p.1, progress: 0 },
        None => TransitionState::Settled { route: to },
    }
}

/// Progress clamped to the complete value.
pub open spec fn clamp_progress(p: u16) -> u16 {
    if p > 1000 {
        1000
    } else {
        p
    }
}

/// State after one clock tick: only an animation reacts; it settles on
/// the destination once progress has reached the full value and the clock
/// reports the animation stopped, and otherwise just takes the new
/// progress.
pub open spec fn tick_spec(st: TransitionState, progress: u16, stopped: bool) -> TransitionState {
    match st {
        TransitionState::Animating { from, to, upwards, progress: _ } => {
            if progress >= 1000 && stopped {
                TransitionState::Settled { route: to }
            } else {
                TransitionState::Animating { from, to, upwards, progress: clamp_progress(progress) }
            }
        },
        _ => st,
    }
}

/// The views a state keeps mounted, top frame first: none before the
/// first route, both frames of the stack while animating, and only the
/// destination once settled.
pub open spec fn mounted_spec(st: TransitionState) -> Seq<Route> {
    match st {
        TransitionState::Idle => Seq::empty(),
        TransitionState::Animating { from, to, upwards, .. } => {
            if upwards {
                seq![from, to]
            } else {
                seq![to, from]
            }
        },
        TransitionState::Settled { route } => seq![route],
    }
}

/// The stack offset a state asks for at a measured height: zero unless an
/// animation with a nonzero height is running.
pub open spec fn offset_spec(st: TransitionState, height: int) -> int {
    match st {
        TransitionState::Animating { upwards, progress, .. } => {
            if height == 0 {
                0
            } else if upwards {
                height - progress * height / 1000
            } else {
                -(height - progress * height / 1000)
            }
        },
        _ => 0,
    }
}

/// Controller state is well formed: progress never exceeds the full value.
pub open spec fn state_wf(st: TransitionState) -> bool {
    match st {
        TransitionState::Animating { progress, .. } => progress <= 1000,
        _ => true,
    }
}

/// Table lookup for a route-change event; matches `transition_for_spec`
/// exactly.
pub fn transition_for(from: Route, to: Route) -> (r: Option<(Route, bool)>)
    ensures
        r == transition_for_spec(from, to),
{
    match (from, to) {
        (Route::Home, Route::Gob) => Some((Route::Home, true)),
        (Route::Home, Route::Crab) => Some((Route::Home, true)),
        (Route::Gob, Route::Home) => Some((Route::Gob, false)),
        (Route::Gob, Route::Crab) => Some((Route::Gob, true)),
        (Route::Crab, Route::Home) => Some((Route::Crab, false)),
        (Route::Crab, Route::Gob) => Some((Route::Crab, false)),
        _ => None,
    }
}

/// Vertical offset of the two-frame stack for a measured height and an
/// animation progress in thousandths: the stack starts fully displaced
/// and reaches rest as progress completes, with the sign inverted for a
/// downward transition.  A zero measured height (first paint before
/// layout) skips the slide entirely.
pub fn slide_offset(height: u64, progress: u16, upwards: bool) -> (r: i64)
    requires
        height <= MAX_HEIGHT,
        progress <= 1000,
    ensures
        height == 0 ==> r == 0,
        height > 0 && upwards ==> r == height - progress * height / 1000,
        height > 0 && !upwards ==> r == -(height - progress * height / 1000),
{
    if height == 0 {
        return 0;
    }
    proof {
        assert((progress as int) * (height as int) <= 1000 * (height as int)) by (nonlinear_arith)
            requires progress <= 1000 && 0 <= height;
    }
    let scaled = (progress as u64) * height;
    proof {
        assert(scaled / 1000 <= height) by (nonlinear_arith)
            requires scaled <= 1000 * height && 0 <= height;
    }
    let rem = height - scaled / 1000;
    if upwards {
        rem as i64
    } else {
        -(rem as i64)
    }
}

/// The transition controller itself; a thin state holder driven by route
/// events and clock ticks.
pub struct TransitionController {
    pub state: TransitionState,
}

impl TransitionController {
    /// A controller that has seen no route yet.
    pub fn new() -> (r: TransitionController)
        ensures
            r.state is Idle,
            state_wf(r.state),
    {
        TransitionController { state: TransitionState::Idle }
    }

    /// Takes a "route changed from X to Y" event.  The most recent event
    /// wins: a recognized pair restarts the animation from progress 0
    /// whatever was running; an unrecognized pair settles on the
    /// destination immediately.
    pub fn on_route_change(&mut self, from: Route, to: Route)
        ensures
            final(self).state == route_change_spec(from, to),
            state_wf(final(self).state),
    {
        self.state = match transition_for(from, to) {
            Some((view, upwards)) => TransitionState::Animating {
                from: view,
                to,
                upwards,
                progress: 0,
            },
            None => TransitionState::Settled { route: to },
        };
    }

    /// Takes one tick of the host clock: the clock's progress in
    /// thousandths and whether it reports the animation stopped.  Settles
    /// on the destination — releasing the outgoing view — exactly when
    /// progress is complete and the clock has stopped.
    pub fn tick(&mut self, progress: u16, stopped: bool)
        ensures
            final(self).state == tick_spec(old(self).state, progress, stopped),
            state_wf(old(self).state) ==> state_wf(final(self).state),
    {
        match self.state {
            TransitionState::Animating { from, to, upwards, progress: _ } => {
                if progress >= 1000 && stopped {
                    self.state = TransitionState::Settled { route: to };
                } else {
                    let p = if progress > 1000 {
                        1000
                    } else {
                        progress
                    };
                    self.state = TransitionState::Animating { from, to, upwards, progress: p };
                }
            },
            _ => {},
        }
    }

    /// The currently mounted views, top frame first.
    pub fn mounted(&self) -> (r: Vec<Route>)
        ensures
            r@ == mounted_spec(self.state),
    {
        match self.state {
            TransitionState::Idle => Vec::new(),
            TransitionState::Animating { from, to, upwards, progress: _ } => {
                let mut v = Vec::new();
                if upwards {
                    v.push(from);
                    v.push(to);
                } else {
                    v.push(to);
                    v.push(from);
                }
                proof {
                    assert(v@ =~= mounted_spec(self.state));
                }
                v
            },
            TransitionState::Settled { route } => {
                let mut v = Vec::new();
                v.push(route);
                proof {
                    assert(v@ =~= mounted_spec(self.state));
                }
                v
            },
        }
    }

    /// The stack offset to apply this frame, for a measured height in
    /// subunits: zero unless an animation with a nonzero height is
    /// running.
    pub fn offset(&self, height: u64) -> (r: i64)
        requires
            height <= MAX_HEIGHT,
            state_wf(self.state),
        ensures
            r == offset_spec(self.state, height as int),
    {
        match self.state {
            TransitionState::Animating { from: _, to: _, upwards, progress } => slide_offset(
                height,
                progress,
                upwards,
            ),
            _ => 0,
        }
    }
}

} // verus!
