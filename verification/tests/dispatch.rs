use azul_core::dispatch::{
    dispatch_event, frame_redraw, matching_callbacks, CallbackEntry, CallbackOutcome, EventFilter,
    EventKind, InputEvent,
};
use azul_core::timers::UpdateScreen;

type Cb = fn(u64) -> CallbackOutcome<u64>;

fn redraws(state: u64) -> CallbackOutcome<u64> {
    CallbackOutcome { state: state + 1, redraw: UpdateScreen::Redraw }
}

fn silent(state: u64) -> CallbackOutcome<u64> {
    CallbackOutcome { state: state + 1, redraw: UpdateScreen::DontRedraw }
}

fn click_on(node: u64) -> InputEvent {
    InputEvent {
        kind: EventKind::MouseDown,
        hit_nodes: vec![node],
        hovered_nodes: vec![node],
    }
}

#[test]
fn empty_frame_is_dont_redraw() {
    let entries: Vec<CallbackEntry<Cb>> = Vec::new();
    let ev = click_on(1);
    let out = dispatch_event(&entries, &ev, 0u64);
    assert_eq!(out.decisions.len(), 0);
    assert!(!out.redraw);
    assert_eq!(out.state, 0);
    assert_eq!(frame_redraw(out.redraw, false, 0), UpdateScreen::DontRedraw);
}

#[test]
fn any_redraw_makes_aggregate_redraw() {
    let entries: Vec<CallbackEntry<Cb>> = vec![
        CallbackEntry { node: 1, filter: EventFilter::On(EventKind::MouseDown), callback: silent },
        CallbackEntry { node: 1, filter: EventFilter::On(EventKind::MouseDown), callback: redraws },
        CallbackEntry { node: 1, filter: EventFilter::On(EventKind::MouseDown), callback: silent },
    ];
    let ev = click_on(1);
    let out = dispatch_event(&entries, &ev, 0u64);
    assert_eq!(out.decisions.len(), 3);
    assert_eq!(out.state, 3);
    assert!(out.redraw);
    assert_eq!(frame_redraw(out.redraw, false, 0), UpdateScreen::Redraw);
}

#[test]
fn all_silent_is_dont_redraw() {
    let entries: Vec<CallbackEntry<Cb>> = vec![
        CallbackEntry { node: 1, filter: EventFilter::On(EventKind::MouseDown), callback: silent },
        CallbackEntry { node: 1, filter: EventFilter::Hover(EventKind::MouseDown), callback: silent },
    ];
    let ev = click_on(1);
    let out = dispatch_event(&entries, &ev, 0u64);
    assert_eq!(out.decisions.len(), 2);
    assert!(!out.redraw);
}

#[test]
fn specific_filters_run_before_negated_ones() {
    let entries: Vec<CallbackEntry<Cb>> = vec![
        CallbackEntry { node: 9, filter: EventFilter::Not(EventKind::MouseDown), callback: silent },
        CallbackEntry { node: 1, filter: EventFilter::On(EventKind::MouseDown), callback: silent },
        CallbackEntry { node: 8, filter: EventFilter::Not(EventKind::MouseDown), callback: silent },
        CallbackEntry { node: 1, filter: EventFilter::Hover(EventKind::MouseDown), callback: silent },
    ];
    let ev = click_on(1);
    let order = matching_callbacks(&entries, &ev);
    // Direct and hover filters first in registration order, then the
    // negated filters in registration order.
    assert_eq!(order, vec![1, 3, 0, 2]);
}

#[test]
fn filters_respect_hit_and_hover_sets() {
    let entries: Vec<CallbackEntry<Cb>> = vec![
        CallbackEntry { node: 1, filter: EventFilter::On(EventKind::MouseDown), callback: silent },
        CallbackEntry { node: 2, filter: EventFilter::On(EventKind::MouseDown), callback: silent },
        CallbackEntry { node: 2, filter: EventFilter::Hover(EventKind::MouseDown), callback: silent },
        CallbackEntry { node: 2, filter: EventFilter::Not(EventKind::MouseDown), callback: silent },
        CallbackEntry { node: 1, filter: EventFilter::On(EventKind::KeyDown), callback: silent },
    ];
    let ev = InputEvent {
        kind: EventKind::MouseDown,
        hit_nodes: vec![1],
        hovered_nodes: vec![1, 2],
    };
    let order = matching_callbacks(&entries, &ev);
    // Node 1 is hit; node 2 is only hovered, so its direct filter does not
    // match but its hover and negated filters do; the key filter's kind
    // does not match at all.
    assert_eq!(order, vec![0, 2, 3]);
}

#[test]
fn completed_tasks_force_redraw() {
    assert_eq!(frame_redraw(false, false, 1), UpdateScreen::Redraw);
    assert_eq!(frame_redraw(false, true, 0), UpdateScreen::Redraw);
    assert_eq!(frame_redraw(false, false, 0), UpdateScreen::DontRedraw);
}
