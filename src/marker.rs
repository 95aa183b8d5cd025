use vstd::prelude::*;
use std::collections::HashMap;
use crate::geometry::{mul_div, mul_div_i128, Point};

verus! {

broadcast use vstd::std_specs::hash::group_hash_axioms;

/// How long a released marker takes to glide back to its live position, in milliseconds.
pub const RESUME_MS: u64 = 1000;

/// A marker is under the pointer when the pointer is closer than this, in
/// screen units, whatever the zoom.
pub const HOVER_RADIUS: i64 = 50;

/// Eased progress 1.0, in the billionths that `ease_out_cubic` returns.
pub const EASE_ONE: u64 = 1_000_000_000;

/// What a marker is doing between frames.
#[derive(Clone, Copy, Debug, PartialEq, Eq, Structural)]
pub enum MarkerState {
    /// Moving along its wave.
    Animated,
    /// Stopped at `at` by a click.
    Frozen { at: Point },
    /// Gliding from `from` back to its live position since time `start` (milliseconds).
    Resuming { from: Point, start: u64 },
}

impl MarkerState {
    /// Stopped by a click and not yet resuming.
    pub open spec fn is_frozen(self) -> bool {
        self is Frozen
    }

    /// Whether the marker is stopped by a click and not yet resuming.
    pub fn is_frozen_exec(&self) -> (r: bool)
        ensures
            r == self.is_frozen(),
    {
        match self {
            MarkerState::Frozen { .. } => true,
            _ => false,
        }
    }
}

/// The pointer as this frame sees it.
#[derive(Clone, Copy, Debug)]
pub struct PointerInput {
    /// Where the pointer is, if it is over the drawing surface.
    pub hover: Option<Point>,
    /// The primary button is held.
    pub primary_down: bool,
    /// The delete modifier (ctrl or command) is held.
    pub delete_modifier: bool,
}

/// The outcome of one frame for one marker.
#[derive(Clone, Copy, Debug, PartialEq, Eq, Structural)]
pub struct MarkerStep {
    /// Where the marker is drawn.
    pub position: Point,
    /// The pointer is over it.
    pub hovered: bool,
    /// Its state for the next frame.
    pub state: MarkerState,
}

/// Milliseconds of the resume window that have passed at `now`, held within `0..=RESUME_MS`.
pub open spec fn resume_progress(start: u64, now: u64) -> int {
    if now <= start {
        0
    } else if now - start >= RESUME_MS {
        RESUME_MS as int
    } else {
        now - start
    }
}

/// Ease-out cubic of progress `p` (in thousandths), in billionths:
/// `1 - (1 - p)^3`.
pub open spec fn ease_out_cubic(p: int) -> int {
    EASE_ONE - (RESUME_MS - p) * (RESUME_MS - p) * (RESUME_MS - p)
}

/// The value a fraction `e` (in billionths) of the way from `a` to `b`, rounded toward `a`.
pub open spec fn lerp(a: int, b: int, e: int) -> int {
    a + mul_div(b - a, e, EASE_ONE as int)
}

/// Where a marker is drawn and the state it is in once the clock reads `now`,
/// before the pointer is considered: a resume that has run its full window ends.
pub open spec fn resolve(state: MarkerState, live: Point, now: u64) -> (Point, MarkerState) {
    match state {
        MarkerState::Animated => (live, MarkerState::Animated),
        MarkerState::Frozen { at } => (at, state),
        MarkerState::Resuming { from, start } => {
            if now >= start + RESUME_MS {
                (live, MarkerState::Animated)
            } else {
                let e = ease_out_cubic(resume_progress(start, now));
                (
                    Point {
                        x: lerp(from.x as int, live.x as int, e) as i64,
                        y: lerp(from.y as int, live.y as int, e) as i64,
                    },
                    state,
                )
            }
        },
    }
}

/// The pointer is over a marker drawn at `p`.
pub open spec fn within_reach(pointer: Option<Point>, p: Point) -> bool {
    match pointer {
        Some(q) => (q.x - p.x) * (q.x - p.x) + (q.y - p.y) * (q.y - p.y) < HOVER_RADIUS
            * HOVER_RADIUS,
        None => false,
    }
}

/// The state a marker passes to the next frame.
///
/// A plain click on a marker under the pointer that is not already frozen
/// freezes it where it is drawn, ending any resume; a click with the delete
/// modifier changes nothing. Releasing the button over or away from the marker
/// that was clicked last frame starts the resume of a frozen marker. Anything
/// else leaves the state as it is: a frozen marker stays frozen until it is
/// released.
pub open spec fn react(
    state: MarkerState,
    pos: Point,
    hovered: bool,
    input: PointerInput,
    was_clicked: bool,
    now: u64,
) -> MarkerState {
    if hovered && input.primary_down {
        if !input.delete_modifier && !(state is Frozen) {
            MarkerState::Frozen { at: pos }
        } else {
            state
        }
    } else if was_clicked && !input.primary_down {
        match state {
            MarkerState::Frozen { at } => MarkerState::Resuming { from: at, start: now },
            _ => state,
        }
    } else {
        state
    }
}

/// One frame of one marker: where it is drawn, whether the pointer is over it,
/// and its next state. `live` is where it would be drawn moving freely, and
/// `was_clicked` says it was clicked in the previous frame.
pub open spec fn marker_step(
    state: MarkerState,
    live: Point,
    input: PointerInput,
    was_clicked: bool,
    now: u64,
) -> MarkerStep {
    let (pos, resolved) = resolve(state, live, now);
    let hovered = within_reach(input.hover, pos);
    MarkerStep { position: pos, hovered, state: react(resolved, pos, hovered, input, was_clicked, now) }
}

/// A plain click on a moving marker under the pointer freezes it exactly where
/// it is drawn.
pub proof fn lemma_click_freezes(live: Point, input: PointerInput, was_clicked: bool, now: u64)
    requires
        within_reach(input.hover, live),
        input.primary_down,
        !input.delete_modifier,
    ensures
        marker_step(MarkerState::Animated, live, input, was_clicked, now) == (MarkerStep {
            position: live,
            hovered: true,
            state: MarkerState::Frozen { at: live },
        }),
{
}

/// A plain click on a resuming marker under the pointer freezes it where it is
/// drawn at that moment, ending the resume.
pub proof fn lemma_click_stops_resume(
    from: Point,
    start: u64,
    live: Point,
    input: PointerInput,
    was_clicked: bool,
    now: u64,
)
    requires
        input.primary_down,
        !input.delete_modifier,
        now < start + RESUME_MS,
        within_reach(input.hover, resolve((MarkerState::Resuming { from, start }), live, now).0),
    ensures
        marker_step((MarkerState::Resuming { from, start }), live, input, was_clicked, now).state
            == (MarkerState::Frozen {
            at: resolve((MarkerState::Resuming { from, start }), live, now).0,
        }),
{
}

/// While the button stays down, a frozen marker keeps its place and its state,
/// whether or not the pointer is still over it and whatever the clock reads.
pub proof fn lemma_held_marker_stays(
    at: Point,
    live: Point,
    input: PointerInput,
    was_clicked: bool,
    now: u64,
)
    requires
        input.primary_down,
    ensures
        marker_step((MarkerState::Frozen { at }), live, input, was_clicked, now).position == at,
        marker_step((MarkerState::Frozen { at }), live, input, was_clicked, now).state
            == (MarkerState::Frozen { at }),
{
}

/// Releasing the button after a frame in which the marker was clicked starts
/// its resume at the time of release, from where it was frozen.
pub proof fn lemma_release_starts_resume(at: Point, live: Point, input: PointerInput, now: u64)
    requires
        !input.primary_down,
    ensures
        marker_step((MarkerState::Frozen { at }), live, input, true, now) == (MarkerStep {
            position: at,
            hovered: within_reach(input.hover, at),
            state: MarkerState::Resuming { from: at, start: now },
        }),
{
}

/// With the button up, a resume starts at the frozen point, goes on until one
/// full window has passed, and from then on the marker is drawn at its live
/// position and is no longer frozen or resuming.
pub proof fn lemma_resume_completes(
    from: Point,
    start: u64,
    live: Point,
    input: PointerInput,
    was_clicked: bool,
    now: u64,
)
    requires
        !input.primary_down,
    ensures
        now <= start ==> marker_step(
            (MarkerState::Resuming { from, start }),
            live,
            input,
            was_clicked,
            now,
        ).position == from,
        now < start + RESUME_MS ==> marker_step(
            (MarkerState::Resuming { from, start }),
            live,
            input,
            was_clicked,
            now,
        ).state == (MarkerState::Resuming { from, start }),
        now >= start + RESUME_MS ==> marker_step(
            (MarkerState::Resuming { from, start }),
            live,
            input,
            was_clicked,
            now,
        ) == (MarkerStep {
            position: live,
            hovered: within_reach(input.hover, live),
            state: MarkerState::Animated,
        }),
{
    if now <= start {
        assert(ease_out_cubic(0) == 0);
        assert(mul_div(live.x - from.x, 0, EASE_ONE as int) == 0);
        assert(mul_div(live.y - from.y, 0, EASE_ONE as int) == 0);
    }
}

/// A click with the delete modifier never freezes a marker: its next state is
/// the one it has once the clock is applied, so a marker that was not frozen
/// does not become frozen.
pub proof fn lemma_delete_click_never_freezes(
    state: MarkerState,
    live: Point,
    input: PointerInput,
    was_clicked: bool,
    now: u64,
)
    requires
        input.primary_down,
        input.delete_modifier,
    ensures
        marker_step(state, live, input, was_clicked, now).state == resolve(state, live, now).1,
        !state.is_frozen() ==> !marker_step(state, live, input, was_clicked, now).state.is_frozen(),
{
}

fn eased_progress(start: u64, now: u64) -> (e: u64)
    requires
        now < start + RESUME_MS,
    ensures
        e == ease_out_cubic(resume_progress(start, now)),
        e <= EASE_ONE,
{
    let p: u64 = if now <= start {
        0
    } else {
        now - start
    };
    let q: u64 = RESUME_MS - p;
    assert(q * q <= 1_000_000 && q * q * q <= 1_000_000_000) by (nonlinear_arith)
        requires
            q <= 1000,
    ;
    EASE_ONE - q * q * q
}

fn lerp_coord(a: i64, b: i64, e: u64) -> (r: i64)
    requires
        e <= EASE_ONE,
    ensures
        r == lerp(a as int, b as int, e as int),
{
    let d: i128 = b as i128 - a as i128;
    let m = mul_div_i128(d, e, EASE_ONE);
    proof {
        if d >= 0 {
            assert((d * e) / 1_000_000_000 <= d) by (nonlinear_arith)
                requires
                    d >= 0,
                    0 <= e <= 1_000_000_000,
            ;
            assert((d * e) / 1_000_000_000 >= 0) by (nonlinear_arith)
                requires
                    d >= 0,
                    0 <= e,
            ;
        } else {
            let nd = -d;
            assert((nd * e) / 1_000_000_000 <= nd) by (nonlinear_arith)
                requires
                    nd >= 0,
                    0 <= e <= 1_000_000_000,
            ;
            assert((nd * e) / 1_000_000_000 >= 0) by (nonlinear_arith)
                requires
                    nd >= 0,
                    0 <= e,
            ;
        }
    }
    (a as i128 + m) as i64
}

fn resolve_exec(state: MarkerState, live: Point, now: u64) -> (r: (Point, MarkerState))
    ensures
        r == resolve(state, live, now),
{
    match state {
        MarkerState::Animated => (live, MarkerState::Animated),
        MarkerState::Frozen { at } => (at, state),
        MarkerState::Resuming { from, start } => {
            if now >= start && now - start >= RESUME_MS {
                (live, MarkerState::Animated)
            } else {
                let e = eased_progress(start, now);
                let x = lerp_coord(from.x, live.x, e);
                let y = lerp_coord(from.y, live.y, e);
                (Point { x, y }, state)
            }
        },
    }
}

/// Whether the pointer is over a marker drawn at `p`.
pub fn is_within_reach(pointer: Option<Point>, p: Point) -> (r: bool)
    ensures
        r == within_reach(pointer, p),
{
    match pointer {
        None => false,
        Some(q) => {
            let dx: i128 = q.x as i128 - p.x as i128;
            let dy: i128 = q.y as i128 - p.y as i128;
            if dx <= -50 || dx >= 50 || dy <= -50 || dy >= 50 {
                assert(dx * dx + dy * dy >= 2500) by (nonlinear_arith)
                    requires
                        dx <= -50 || dx >= 50 || dy <= -50 || dy >= 50,
                ;
                false
            } else {
                let a = dx as i64;
                let b = dy as i64;
                assert(0 <= a * a < 2500 && 0 <= b * b < 2500) by (nonlinear_arith)
                    requires
                        -50 < a < 50,
                        -50 < b < 50,
                ;
                a * a + b * b < 2500
            }
        },
    }
}

/// One frame of one marker (see `marker_step`).
pub fn step_marker(
    state: MarkerState,
    live: Point,
    input: &PointerInput,
    was_clicked: bool,
    now: u64,
) -> (r: MarkerStep)
    ensures
        r == marker_step(state, live, *input, was_clicked, now),
{
    let (pos, resolved) = resolve_exec(state, live, now);
    let hovered = is_within_reach(input.hover, pos);
    let next = if hovered && input.primary_down {
        if !input.delete_modifier && !resolved.is_frozen_exec() {
            MarkerState::Frozen { at: pos }
        } else {
            resolved
        }
    } else if was_clicked && !input.primary_down {
        match resolved {
            MarkerState::Frozen { at } => MarkerState::Resuming { from: at, start: now },
            _ => resolved,
        }
    } else {
        resolved
    };
    MarkerStep { position: pos, hovered, state: next }
}

/// The state of every marker that is not simply moving, by event id.
pub struct MarkerStates {
    states: HashMap<u64, MarkerState>,
}

impl View for MarkerStates {
    type V = Map<u64, MarkerState>;

    closed spec fn view(&self) -> Map<u64, MarkerState> {
        self.states@
    }
}

impl MarkerStates {
    /// Only markers that are frozen or resuming are recorded.
    pub open spec fn wf(&self) -> bool {
        forall|id: u64| #[trigger] self@.contains_key(id) ==> !(self@[id] is Animated)
    }

    /// The state of the marker of event `id`.
    pub open spec fn state_spec(&self, id: u64) -> MarkerState {
        if self@.contains_key(id) {
            self@[id]
        } else {
            MarkerState::Animated
        }
    }

    /// No marker frozen or resuming.
    pub fn new() -> (r: MarkerStates)
        ensures
            r.wf(),
            r@ == Map::<u64, MarkerState>::empty(),
    {
        MarkerStates { states: HashMap::new() }
    }

    /// The state of the marker of event `id`.
    pub fn state_of(&self, id: u64) -> (r: MarkerState)
        ensures
            r == self.state_spec(id),
    {
        match self.states.get(&id) {
            Some(s) => *s,
            None => MarkerState::Animated,
        }
    }

    /// The marker of event `id` is frozen or resuming.
    pub fn contains(&self, id: u64) -> (r: bool)
        ensures
            r == self@.contains_key(id),
    {
        self.states.contains_key(&id)
    }

    /// Sets the state of the marker of event `id`.
    pub fn set(&mut self, id: u64, state: MarkerState)
        requires
            old(self).wf(),
        ensures
            final(self).wf(),
            final(self)@ == if state is Animated {
                old(self)@.remove(id)
            } else {
                old(self)@.insert(id, state)
            },
    {
        if state == MarkerState::Animated {
            self.states.remove(&id);
        } else {
            self.states.insert(id, state);
        }
    }
}

} // verus!
