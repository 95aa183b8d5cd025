use lifeline::frame::{apply_interaction, resolve_frame, EventInteraction};
use lifeline::geometry::Point;
use lifeline::marker::{MarkerState, MarkerStates, PointerInput};
use lifeline::timeline::{Event, Timeline};

fn p(x: i64, y: i64) -> Point {
    Point { x, y }
}

fn three_events() -> Timeline {
    let mut t = Timeline::new();
    for (k, y) in [1990, 2000, 2010].iter().enumerate() {
        t.add_event(Event::new(format!("e{}", k), String::new(), 1, 1, *y, None));
    }
    t
}

fn pointer(at: Option<Point>, down: bool, modifier: bool) -> PointerInput {
    PointerInput { hover: at, primary_down: down, delete_modifier: modifier }
}

#[test]
fn scenario_c_freeze_then_resume_to_live_position() {
    let t = three_events();
    let id2 = t.events()[2].id;
    let mut states = MarkerStates::new();

    // Frame at t = 5.0: plain click on marker 2.
    let live = vec![p(0, 0), p(100, 0), p(200, 0)];
    let r = resolve_frame(&t, &live, &pointer(Some(p(205, 3)), true, false), None, 5000, &mut states);
    assert_eq!(r.positions[2], p(200, 0));
    assert_eq!(r.interaction.clicked_index, Some(2));
    assert_eq!(r.interaction.delete_index, None);
    assert_eq!(r.tooltip_index, Some(2));
    assert_eq!(states.state_of(id2), MarkerState::Frozen { at: p(200, 0) });

    // Next frame, still at t = 5.0: released; marker 2 was clicked last frame.
    let live = vec![p(0, 10), p(100, 10), p(200, 40)];
    let r = resolve_frame(&t, &live, &pointer(Some(p(205, 3)), false, false), Some(2), 5000, &mut states);
    assert_eq!(r.positions[2], p(200, 0));
    assert_eq!(r.interaction.clicked_index, None);
    assert_eq!(
        states.state_of(id2),
        MarkerState::Resuming { from: p(200, 0), start: 5000 }
    );

    // Half way through the window the ease-out has covered 87.5%.
    let live = vec![p(0, 0), p(100, 0), p(200, -30)];
    let r = resolve_frame(&t, &live, &pointer(None, false, false), None, 5500, &mut states);
    assert_eq!(r.positions[2], p(200, -26));
    assert!(states.contains(id2));

    // At t = 6.0 the marker is exactly on its live position and forgotten.
    let live = vec![p(0, 0), p(100, 0), p(230, -30)];
    let r = resolve_frame(&t, &live, &pointer(None, false, false), None, 6000, &mut states);
    assert_eq!(r.positions[2], p(230, -30));
    assert!(!states.contains(id2));
    assert_eq!(states.state_of(id2), MarkerState::Animated);
}

#[test]
fn held_click_keeps_frozen_position() {
    let t = three_events();
    let id0 = t.events()[0].id;
    let mut states = MarkerStates::new();
    let live = vec![p(0, 0), p(100, 0), p(200, 0)];
    resolve_frame(&t, &live, &pointer(Some(p(1, 1)), true, false), None, 1000, &mut states);
    assert_eq!(states.state_of(id0), MarkerState::Frozen { at: p(0, 0) });
    for (k, dy) in [5i64, 17, -12, 40].iter().enumerate() {
        let live = vec![p(0, *dy), p(100, 0), p(200, 0)];
        let r = resolve_frame(&t, &live, &pointer(Some(p(1, 1)), true, false), Some(0), 1100 + k as u64, &mut states);
        assert_eq!(r.positions[0], p(0, 0));
        assert_eq!(r.interaction.clicked_index, Some(0));
        assert_eq!(states.state_of(id0), MarkerState::Frozen { at: p(0, 0) });
    }
    // Dragging away with the button down keeps it frozen as well.
    let r = resolve_frame(&t, &live, &pointer(Some(p(500, 500)), true, false), Some(0), 1200, &mut states);
    assert_eq!(r.positions[0], p(0, 0));
    assert_eq!(r.interaction.clicked_index, None);
    assert_eq!(states.state_of(id0), MarkerState::Frozen { at: p(0, 0) });
}

#[test]
fn frozen_marker_not_clicked_last_frame_stays_frozen() {
    let t = three_events();
    let id1 = t.events()[1].id;
    let mut states = MarkerStates::new();
    states.set(id1, MarkerState::Frozen { at: p(7, 7) });
    let live = vec![p(0, 0), p(100, 0), p(200, 0)];
    let r = resolve_frame(&t, &live, &pointer(None, false, false), None, 9000, &mut states);
    assert_eq!(r.positions[1], p(7, 7));
    assert_eq!(states.state_of(id1), MarkerState::Frozen { at: p(7, 7) });
}

#[test]
fn resume_completes_exactly_after_one_second() {
    let t = three_events();
    let id1 = t.events()[1].id;
    let mut states = MarkerStates::new();
    states.set(id1, MarkerState::Resuming { from: p(0, 0), start: 2000 });
    let live = vec![p(0, 0), p(1000, 1000), p(200, 0)];
    let r = resolve_frame(&t, &live, &pointer(None, false, false), None, 2999, &mut states);
    assert_ne!(r.positions[1], p(1000, 1000));
    assert!(states.contains(id1));
    let r = resolve_frame(&t, &live, &pointer(None, false, false), None, 3000, &mut states);
    assert_eq!(r.positions[1], p(1000, 1000));
    assert!(!states.contains(id1));
}

#[test]
fn resume_starts_at_frozen_point() {
    let t = three_events();
    let id1 = t.events()[1].id;
    let mut states = MarkerStates::new();
    states.set(id1, MarkerState::Resuming { from: p(-40, 60), start: 2000 });
    let live = vec![p(0, 0), p(1000, 1000), p(200, 0)];
    let r = resolve_frame(&t, &live, &pointer(None, false, false), None, 2000, &mut states);
    assert_eq!(r.positions[1], p(-40, 60));
    // A clock that reads earlier than the start counts as no progress.
    let r = resolve_frame(&t, &live, &pointer(None, false, false), None, 1500, &mut states);
    assert_eq!(r.positions[1], p(-40, 60));
    // One tenth of the window: 1 - 0.9^3 = 0.271 of the way.
    let r = resolve_frame(&t, &live, &pointer(None, false, false), None, 2100, &mut states);
    assert_eq!(r.positions[1], p(-40 + 281, 60 + 254));
}

#[test]
fn ctrl_click_requests_delete_and_never_freezes() {
    let t = three_events();
    let id1 = t.events()[1].id;
    let mut states = MarkerStates::new();
    let live = vec![p(0, 0), p(100, 0), p(200, 0)];
    let r = resolve_frame(&t, &live, &pointer(Some(p(100, 10)), true, true), None, 100, &mut states);
    assert_eq!(
        r.interaction,
        EventInteraction { clicked_index: None, delete_index: Some(1) }
    );
    assert_eq!(r.tooltip_index, Some(1));
    assert!(!states.contains(id1));
    assert_eq!(states.state_of(id1), MarkerState::Animated);
}

#[test]
fn scenario_d_delete_removes_one_and_keeps_order() {
    let mut t = three_events();
    let mut states = MarkerStates::new();
    let live = vec![p(0, 0), p(100, 0), p(200, 0)];
    let r = resolve_frame(&t, &live, &pointer(Some(p(98, -2)), true, true), None, 100, &mut states);
    assert_eq!(r.interaction.delete_index, Some(1));
    let before: Vec<String> = t.events().iter().map(|e| e.title.clone()).collect();
    t.remove_event(r.interaction.delete_index.unwrap());
    let after: Vec<String> = t.events().iter().map(|e| e.title.clone()).collect();
    assert_eq!(after.len(), before.len() - 1);
    assert_eq!(after, vec![before[0].clone(), before[2].clone()]);
}

#[test]
fn placement_of_moving_markers_ignores_pointer() {
    let t = three_events();
    let live = vec![p(0, 5), p(100, 6), p(200, 7)];
    let mut s1 = MarkerStates::new();
    let mut s2 = MarkerStates::new();
    let a = resolve_frame(&t, &live, &pointer(Some(p(100, 6)), true, false), Some(2), 4242, &mut s1);
    let b = resolve_frame(&t, &live, &pointer(None, false, true), None, 4242, &mut s2);
    assert_eq!(a.positions[0], b.positions[0]);
    assert_eq!(a.positions[2], b.positions[2]);
    assert_eq!(a.positions, live);
    assert_eq!(b.positions, live);
}

#[test]
fn overlapping_markers_last_one_wins() {
    let t = three_events();
    let mut states = MarkerStates::new();
    let live = vec![p(0, 0), p(10, 0), p(500, 0)];
    let r = resolve_frame(&t, &live, &pointer(Some(p(5, 0)), true, false), None, 0, &mut states);
    assert_eq!(r.hovered, vec![true, true, false]);
    assert_eq!(r.tooltip_index, Some(1));
    assert_eq!(r.interaction.clicked_index, Some(1));
    // Both hovered markers freeze.
    assert!(states.contains(t.events()[0].id));
    assert!(states.contains(t.events()[1].id));
}

#[test]
fn absent_pointer_reports_nothing() {
    let t = three_events();
    let mut states = MarkerStates::new();
    let live = vec![p(0, 0), p(100, 0), p(200, 0)];
    let r = resolve_frame(&t, &live, &pointer(None, true, true), Some(1), 10, &mut states);
    assert_eq!(r.hovered, vec![false, false, false]);
    assert_eq!(r.tooltip_index, None);
    assert_eq!(r.interaction, EventInteraction { clicked_index: None, delete_index: None });
    assert_eq!(r.positions, live);
}

#[test]
fn empty_timeline_reports_nothing() {
    let t = Timeline::new();
    let mut states = MarkerStates::new();
    states.set(77, MarkerState::Frozen { at: p(1, 2) });
    let r = resolve_frame(&t, &Vec::new(), &pointer(Some(p(0, 0)), true, false), None, 10, &mut states);
    assert!(r.positions.is_empty());
    assert_eq!(r.tooltip_index, None);
    assert_eq!(r.interaction, EventInteraction { clicked_index: None, delete_index: None });
    assert_eq!(states.state_of(77), MarkerState::Frozen { at: p(1, 2) });
}

#[test]
fn state_follows_event_after_deletion() {
    let mut t = three_events();
    let id2 = t.events()[2].id;
    let mut states = MarkerStates::new();
    let live = vec![p(0, 0), p(100, 0), p(200, 0)];
    resolve_frame(&t, &live, &pointer(Some(p(200, 0)), true, false), None, 0, &mut states);
    t.remove_event(0);
    assert_eq!(t.events()[1].id, id2);
    let live = vec![p(100, 50), p(200, 50)];
    let r = resolve_frame(&t, &live, &pointer(None, true, false), None, 10, &mut states);
    assert_eq!(r.positions, vec![p(100, 50), p(200, 0)]);
}

#[test]
fn scenario_d_through_apply_interaction() {
    let mut t = three_events();
    let ids: Vec<u64> = t.events().iter().map(|e| e.id).collect();
    let mut states = MarkerStates::new();
    let live = vec![p(0, 0), p(100, 0), p(200, 0)];
    let r = resolve_frame(&t, &live, &pointer(Some(p(100, 0)), true, true), None, 100, &mut states);
    let previous = apply_interaction(&mut t, &r.interaction);
    assert_eq!(previous, None);
    let left: Vec<u64> = t.events().iter().map(|e| e.id).collect();
    assert_eq!(left, vec![ids[0], ids[2]]);
}

#[test]
fn apply_interaction_keeps_click_and_ignores_stale_delete() {
    let mut t = three_events();
    let kept = apply_interaction(&mut t, &EventInteraction { clicked_index: Some(2), delete_index: None });
    assert_eq!(kept, Some(2));
    assert_eq!(t.events().len(), 3);
    let none = apply_interaction(&mut t, &EventInteraction { clicked_index: None, delete_index: Some(3) });
    assert_eq!(none, None);
    assert_eq!(t.events().len(), 3);
}

#[test]
fn click_during_resume_freezes_where_drawn() {
    let mut t = Timeline::new();
    t.add_event(Event::new("only".to_string(), String::new(), 1, 1, 2000, None));
    let id = t.events()[0].id;
    let mut states = MarkerStates::new();
    states.set(id, MarkerState::Resuming { from: p(0, 0), start: 0 });
    let live = vec![p(0, 40)];
    // At 500 ms the marker is 87.5% of the way: drawn at (0, 35).
    let r = resolve_frame(&t, &live, &pointer(Some(p(0, 35)), true, false), None, 500, &mut states);
    assert_eq!(r.positions[0], p(0, 35));
    assert_eq!(r.interaction.clicked_index, Some(0));
    assert_eq!(states.state_of(id), MarkerState::Frozen { at: p(0, 35) });
    // Held on later frames it stays there.
    let r = resolve_frame(&t, &vec![p(0, -40)], &pointer(Some(p(0, 35)), true, false), Some(0), 2000, &mut states);
    assert_eq!(r.positions[0], p(0, 35));
    assert_eq!(states.state_of(id), MarkerState::Frozen { at: p(0, 35) });
}
