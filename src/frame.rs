use vstd::prelude::*;
use crate::geometry::Point;
use crate::marker::{
    lemma_delete_click_never_freezes,
    lemma_resume_completes,
    marker_step,
    step_marker,
    MarkerState,
    MarkerStates,
    MarkerStep,
    PointerInput,
    RESUME_MS,
};
use crate::timeline::{ids_distinct, Event, Timeline};

verus! {

/// What the pointer did to the markers this frame.
#[derive(Clone, Copy, Debug, PartialEq, Eq, Structural)]
pub struct EventInteraction {
    /// The marker that a plain click holds, if any.
    pub clicked_index: Option<usize>,
    /// The marker that a click with the delete modifier asks to remove, if any.
    pub delete_index: Option<usize>,
}

/// Everything one frame decides about the markers.
pub struct FrameReport {
    /// Where each marker is drawn.
    pub positions: Vec<Point>,
    /// Whether the pointer is over each marker.
    pub hovered: Vec<bool>,
    /// The marker whose details are shown, if any.
    pub tooltip_index: Option<usize>,
    pub interaction: EventInteraction,
}

/// Applies what a frame reported to the timeline: removes the event that a
/// delete click asked for (a stale index past the end removes nothing) and
/// returns the index the next frame receives as the previously clicked one.
pub fn apply_interaction(timeline: &mut Timeline, interaction: &EventInteraction) -> (previous: Option<
    usize,
>)
    requires
        old(timeline).wf(),
    ensures
        final(timeline).wf(),
        final(timeline).next_id_spec() == old(timeline).next_id_spec(),
        final(timeline)@ == match interaction.delete_index {
            Some(d) => if d < old(timeline)@.len() {
                old(timeline)@.remove(d as int)
            } else {
                old(timeline)@
            },
            None => old(timeline)@,
        },
        previous == interaction.clicked_index,
{
    if let Some(d) = interaction.delete_index {
        timeline.remove_event(d);
    }
    interaction.clicked_index
}

/// The last index at which `flags` is set.
pub open spec fn last_set(flags: Seq<bool>) -> Option<usize>
    decreases flags.len(),
{
    if flags.len() == 0 {
        None
    } else if flags.last() {
        Some((flags.len() - 1) as usize)
    } else {
        last_set(flags.drop_last())
    }
}

/// `last_set` names the last set flag: when it is `Some(k)`, flag `k` is set and
/// no later one is; when it is `None`, no flag is set.
pub proof fn lemma_last_set(flags: Seq<bool>)
    requires
        flags.len() <= usize::MAX,
    ensures
        match last_set(flags) {
            Some(k) => k < flags.len() && flags[k as int] && forall|j: int|
                k < j < flags.len() ==> !flags[j],
            None => forall|j: int| 0 <= j < flags.len() ==> !flags[j],
        },
    decreases flags.len(),
{
    if flags.len() > 0 && !flags.last() {
        let rest = flags.drop_last();
        lemma_last_set(rest);
        assert forall|j: int| 0 <= j < rest.len() implies rest[j] == flags[j] by {}
    }
}

/// Some event of `s` has id `id`.
pub open spec fn holds_id(s: Seq<Event>, id: u64) -> bool {
    exists|i: int| 0 <= i < s.len() && s[i].id == id
}

/// The step of the marker at `i` of `s`, from the states before the frame.
pub open spec fn step_at(
    states: MarkerStates,
    s: Seq<Event>,
    live: Seq<Point>,
    input: PointerInput,
    previous_clicked: Option<usize>,
    now: u64,
    i: int,
) -> MarkerStep {
    marker_step(
        states.state_spec(s[i].id),
        live[i],
        input,
        previous_clicked == Some(i as usize),
        now,
    )
}

/// A marker that is neither frozen nor resuming is drawn at its live position,
/// whatever the pointer does and whichever marker the previous frame clicked:
/// two frames over the same events, live positions and clock place it alike.
pub proof fn lemma_moving_marker_placement(
    states1: MarkerStates,
    states2: MarkerStates,
    s: Seq<Event>,
    live: Seq<Point>,
    input1: PointerInput,
    input2: PointerInput,
    previous1: Option<usize>,
    previous2: Option<usize>,
    now: u64,
    i: int,
)
    requires
        0 <= i < s.len(),
        live.len() == s.len(),
        states1.state_spec(s[i].id) is Animated,
        states2.state_spec(s[i].id) is Animated,
    ensures
        step_at(states1, s, live, input1, previous1, now, i).position == live[i],
        step_at(states1, s, live, input1, previous1, now, i).position == step_at(
            states2,
            s,
            live,
            input2,
            previous2,
            now,
            i,
        ).position,
{
}

/// In a frame that `resolve_frame` ran (its steps, hover flags and new states
/// given by `hovered` and `after`), a click with the delete modifier on the
/// marker at `i`, the last one under the pointer, reports `i` for deletion, and
/// that marker is not frozen afterwards unless it was frozen before.
pub proof fn lemma_frame_delete_click(
    before: MarkerStates,
    after: MarkerStates,
    s: Seq<Event>,
    live: Seq<Point>,
    input: PointerInput,
    previous_clicked: Option<usize>,
    now: u64,
    hovered: Seq<bool>,
    i: int,
)
    requires
        input.primary_down,
        input.delete_modifier,
        s.len() <= usize::MAX,
        live.len() == s.len(),
        hovered.len() == s.len(),
        0 <= i < s.len(),
        forall|j: int|
            0 <= j < s.len() ==> #[trigger] step_at(
                before,
                s,
                live,
                input,
                previous_clicked,
                now,
                j,
            ).hovered == hovered[j] && step_at(before, s, live, input, previous_clicked, now, j).state
                == after.state_spec(s[j].id),
        hovered[i],
        forall|j: int| i < j < s.len() ==> !hovered[j],
    ensures
        last_set(hovered) == Some(i as usize),
        !before.state_spec(s[i].id).is_frozen() ==> !after.state_spec(s[i].id).is_frozen(),
{
    lemma_last_set(hovered);
    let was_clicked = previous_clicked == Some(i as usize);
    lemma_delete_click_never_freezes(before.state_spec(s[i].id), live[i], input, was_clicked, now);
    assert(step_at(before, s, live, input, previous_clicked, now, i).hovered == hovered[i]);
    assert(step_at(before, s, live, input, previous_clicked, now, i).state == after.state_spec(
        s[i].id,
    ));
}

/// In a frame that `resolve_frame` ran with the button up, a marker whose resume
/// began at least one full window earlier is drawn at its live position and is
/// no longer recorded in the states.
pub proof fn lemma_frame_resume_completes(
    before: MarkerStates,
    after: MarkerStates,
    s: Seq<Event>,
    live: Seq<Point>,
    input: PointerInput,
    previous_clicked: Option<usize>,
    now: u64,
    position: Point,
    i: int,
    from: Point,
    start: u64,
)
    requires
        !input.primary_down,
        after.wf(),
        live.len() == s.len(),
        0 <= i < s.len(),
        before.state_spec(s[i].id) == (MarkerState::Resuming { from, start }),
        now >= start + RESUME_MS,
        step_at(before, s, live, input, previous_clicked, now, i).position == position,
        step_at(before, s, live, input, previous_clicked, now, i).state == after.state_spec(s[i].id),
    ensures
        position == live[i],
        !after@.contains_key(s[i].id),
{
    lemma_resume_completes(from, start, live[i], input, previous_clicked == Some(i as usize), now);
}

/// Runs one frame over every marker of `timeline`, in order.
///
/// `live[i]` is where the marker of the event at `i` would be drawn moving
/// freely, `previous_clicked` the `clicked_index` of the previous frame, and
/// `now` the animation clock in milliseconds. Each marker takes one step of
/// `marker_step`; the states of other ids are left alone. When several markers
/// are under the pointer, the last of them gets the tooltip and the click.
pub fn resolve_frame(
    timeline: &Timeline,
    live: &Vec<Point>,
    input: &PointerInput,
    previous_clicked: Option<usize>,
    now: u64,
    states: &mut MarkerStates,
) -> (r: FrameReport)
    requires
        timeline.wf(),
        old(states).wf(),
        live@.len() == timeline@.len(),
    ensures
        final(states).wf(),
        r.positions@.len() == timeline@.len(),
        r.hovered@.len() == timeline@.len(),
        forall|i: int|
            0 <= i < timeline@.len() ==> #[trigger] step_at(
                *old(states),
                timeline@,
                live@,
                *input,
                previous_clicked,
                now,
                i,
            ) == (MarkerStep {
                position: r.positions@[i],
                hovered: r.hovered@[i],
                state: final(states).state_spec(timeline@[i].id),
            }),
        forall|id: u64|
            !holds_id(timeline@, id) ==> #[trigger] final(states).state_spec(id) == old(
                states,
            ).state_spec(id),
        r.tooltip_index == last_set(r.hovered@),
        r.interaction.clicked_index == if input.primary_down && !input.delete_modifier {
            last_set(r.hovered@)
        } else {
            None
        },
        r.interaction.delete_index == if input.primary_down && input.delete_modifier {
            last_set(r.hovered@)
        } else {
            None
        },
{
    let ghost before = *states;
    let events = timeline.events();
    let n = events.len();
    let mut positions: Vec<Point> = Vec::new();
    let mut hovered: Vec<bool> = Vec::new();
    let mut tooltip_index: Option<usize> = None;
    let mut clicked_index: Option<usize> = None;
    let mut delete_index: Option<usize> = None;
    let mut i: usize = 0;
    while i < n
        invariant
            n == events@.len(),
            events@ == timeline@,
            ids_distinct(events@),
            live@.len() == n,
            i <= n,
            states.wf(),
            positions@.len() == i,
            hovered@.len() == i,
            forall|j: int|
                0 <= j < i ==> #[trigger] step_at(
                    before,
                    timeline@,
                    live@,
                    *input,
                    previous_clicked,
                    now,
                    j,
                ) == (MarkerStep {
                    position: positions@[j],
                    hovered: hovered@[j],
                    state: states.state_spec(timeline@[j].id),
                }),
            forall|id: u64|
                !(exists|j: int| 0 <= j < i && timeline@[j].id == id) ==> #[trigger] states.state_spec(
                    id,
                ) == before.state_spec(id),
            tooltip_index == last_set(hovered@),
            clicked_index == if input.primary_down && !input.delete_modifier {
                last_set(hovered@)
            } else {
                None
            },
            delete_index == if input.primary_down && input.delete_modifier {
                last_set(hovered@)
            } else {
                None
            },
        decreases n - i,
    {
        let id = events[i].id;
        proof {
            assert forall|j: int| 0 <= j < i implies timeline@[j].id != id by {
                assert(events@[j].id != events@[i as int].id);
            }
        }
        let current = states.state_of(id);
        let was_clicked = match previous_clicked {
            Some(k) => k == i,
            None => false,
        };
        let step = step_marker(current, live[i], input, was_clicked, now);
        let ghost mid = *states;
        assert(forall|k: u64|
            !(exists|j: int| 0 <= j < i && timeline@[j].id == k) ==> #[trigger] mid.state_spec(k)
                == before.state_spec(k));
        states.set(id, step.state);
        let ghost old_hovered = hovered@;
        positions.push(step.position);
        hovered.push(step.hovered);
        if step.hovered {
            tooltip_index = Some(i);
            if input.primary_down {
                if input.delete_modifier {
                    delete_index = Some(i);
                } else {
                    clicked_index = Some(i);
                }
            }
        }
        proof {
            assert(hovered@.drop_last() =~= old_hovered);
            assert forall|j: int| 0 <= j < i + 1 implies #[trigger] step_at(
                before,
                timeline@,
                live@,
                *input,
                previous_clicked,
                now,
                j,
            ) == (MarkerStep {
                position: positions@[j],
                hovered: hovered@[j],
                state: states.state_spec(timeline@[j].id),
            }) by {
                if j < i {
                    assert(timeline@[j].id != id);
                    assert(states.state_spec(timeline@[j].id) == mid.state_spec(timeline@[j].id));
                }
            }
            assert forall|k: u64|
                !(exists|j: int| 0 <= j < i + 1 && timeline@[j].id == k) implies #[trigger] states.state_spec(
                k,
            ) == before.state_spec(k) by {
                assert(timeline@[i as int].id == id);
                assert(k != id);
                assert(states.state_spec(k) == mid.state_spec(k));
                if exists|j: int| 0 <= j < i && timeline@[j].id == k {
                    let j = choose|j: int| 0 <= j < i && timeline@[j].id == k;
                    assert(0 <= j < i + 1 && timeline@[j].id == k);
                }
                assert(mid.state_spec(k) == before.state_spec(k));
            }
        }
        i = i + 1;
    }
    proof {
        assert forall|k: u64| !holds_id(timeline@, k) implies #[trigger] states.state_spec(k)
            == before.state_spec(k) by {
            if exists|j: int| 0 <= j < n && timeline@[j].id == k {
                let j = choose|j: int| 0 <= j < n && timeline@[j].id == k;
                assert(holds_id(timeline@, k));
            }
        }
    }
    FrameReport {
        positions,
        hovered,
        tooltip_index,
        interaction: EventInteraction { clicked_index, delete_index },
    }
}

} // verus!
