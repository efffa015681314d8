//! Event-filter matching and callback dispatch.
//!
//! Each registered callback is paired with a filter: a direct event kind on
//! one node, a hover-scoped kind, or a negated kind for nodes outside the
//! hit set. For one incoming event the dispatcher computes which (node,
//! filter) pairs match against the event's hit-test and hover snapshot,
//! invokes the matching callbacks in a deterministic order, and aggregates
//! their repaint decisions: repaint exactly when some callback asked for it.
//!
//! Match order policy: direct and hover filters run before negated filters,
//! so a specific handler can commit its effects before the catch-all ones
//! run; within each class, registration order is kept.

use vstd::prelude::*;
use crate::timers::UpdateScreen;

verus! {

/// The kind of a raw input event.
#[derive(Copy, Clone, Debug, PartialEq, Eq, Structural)]
pub enum EventKind {
    MouseDown,
    MouseUp,
    MouseOver,
    KeyDown,
    KeyUp,
    Scroll,
}

/// What must hold of an event, relative to one node, for a callback to run.
#[derive(Copy, Clone, Debug, PartialEq, Eq, Structural)]
pub enum EventFilter {
    /// The event has this kind and the node is in the hit set.
    On(EventKind),
    /// The event has this kind and the node is hovered.
    Hover(EventKind),
    /// The event has this kind and the node is outside the hit set.
    Not(EventKind),
}

/// One platform event with the per-event snapshot of hit-test and hover
/// state it is matched against.
pub struct InputEvent {
    pub kind: EventKind,
    pub hit_nodes: Vec<u64>,
    pub hovered_nodes: Vec<u64>,
}

/// A registered callback: the node it is scoped to, its filter, and the
/// callback itself.
pub struct CallbackEntry<C> {
    pub node: u64,
    pub filter: EventFilter,
    pub callback: C,
}

/// What a dispatched callback hands back: the mutated application state and
/// its repaint decision.
pub struct CallbackOutcome<S> {
    pub state: S,
    pub redraw: UpdateScreen,
}

pub open spec fn node_in(s: Seq<u64>, node: u64) -> bool {
    exists|i: int| 0 <= i < s.len() && s[i] == node
}

pub open spec fn filter_matches(
    filter: EventFilter,
    node: u64,
    kind: EventKind,
    hit: Seq<u64>,
    hovered: Seq<u64>,
) -> bool {
    match filter {
        EventFilter::On(k) => k == kind && node_in(hit, node),
        EventFilter::Hover(k) => k == kind && node_in(hovered, node),
        EventFilter::Not(k) => k == kind && !node_in(hit, node),
    }
}

pub open spec fn entry_matches<C>(e: CallbackEntry<C>, ev: InputEvent) -> bool {
    filter_matches(e.filter, e.node, ev.kind, ev.hit_nodes@, ev.hovered_nodes@)
}

/// A negated filter; these run after the direct and hover ones.
pub open spec fn is_not_filter(f: EventFilter) -> bool {
    f matches EventFilter::Not(_)
}

/// The order and completeness the matching pass guarantees: every index is a
/// distinct match, every match appears, no negated filter runs before a
/// direct or hover one, and registration order is kept within each class.
pub open spec fn matching_order_ok<C>(
    entries: Seq<CallbackEntry<C>>,
    ev: InputEvent,
    r: Seq<usize>,
) -> bool {
    &&& forall|a: int|
        0 <= a < r.len() ==> (#[trigger] r[a]) < entries.len() && entry_matches(
            entries[r[a] as int],
            ev,
        )
    &&& forall|i: int|
        0 <= i < entries.len() && entry_matches(#[trigger] entries[i], ev) ==> exists|a: int|
            0 <= a < r.len() && (#[trigger] r[a]) == i
    &&& forall|a: int, b: int| 0 <= a < b < r.len() ==> (#[trigger] r[a]) != (#[trigger] r[b])
    &&& forall|a: int, b: int|
        0 <= a < b < r.len() ==> !(is_not_filter(entries[(#[trigger] r[a]) as int].filter)
            && !is_not_filter(entries[(#[trigger] r[b]) as int].filter))
    &&& forall|a: int, b: int|
        0 <= a < b < r.len() && is_not_filter(entries[(#[trigger] r[a]) as int].filter)
            == is_not_filter(entries[(#[trigger] r[b]) as int].filter) ==> r[a] < r[b]
}

fn vec_contains(v: &Vec<u64>, x: u64) -> (r: bool)
    ensures
        r == node_in(v@, x),
{
    let n = v.len();
    let mut i: usize = 0;
    while i < n
        invariant
            n == v@.len(),
            0 <= i <= n,
            forall|j: int| 0 <= j < i ==> v@[j] != x,
        decreases n - i,
    {
        if v[i] == x {
            return true;
        }
        i = i + 1;
    }
    false
}

fn matches_filter<C>(e: &CallbackEntry<C>, ev: &InputEvent) -> (r: bool)
    ensures
        r == entry_matches(*e, *ev),
{
    let kind_ok = match e.filter {
        EventFilter::On(k) => k == ev.kind,
        EventFilter::Hover(k) => k == ev.kind,
        EventFilter::Not(k) => k == ev.kind,
    };
    if !kind_ok {
        return false;
    }
    match e.filter {
        EventFilter::On(_) => vec_contains(&ev.hit_nodes, e.node),
        EventFilter::Hover(_) => vec_contains(&ev.hovered_nodes, e.node),
        EventFilter::Not(_) => !vec_contains(&ev.hit_nodes, e.node),
    }
}

/// The indices of the registered callbacks that match the event, in the
/// order they will be invoked: direct and hover filters first, then negated
/// filters, registration order within each class.
pub fn matching_callbacks<C>(entries: &Vec<CallbackEntry<C>>, ev: &InputEvent) -> (r: Vec<usize>)
    ensures
        matching_order_ok(entries@, *ev, r@),
{
    let n = entries.len();
    let mut r: Vec<usize> = Vec::new();
    let mut i: usize = 0;
    while i < n
        invariant
            n == entries@.len(),
            0 <= i <= n,
            forall|a: int|
                0 <= a < r@.len() ==> (#[trigger] r@[a]) < i && entry_matches(
                    entries@[r@[a] as int],
                    *ev,
                ) && !is_not_filter(entries@[r@[a] as int].filter),
            forall|j: int|
                0 <= j < i && entry_matches(#[trigger] entries@[j], *ev) && !is_not_filter(
                    entries@[j].filter,
                ) ==> exists|a: int| 0 <= a < r@.len() && (#[trigger] r@[a]) == j,
            forall|a: int, b: int| 0 <= a < b < r@.len() ==> (#[trigger] r@[a]) < (#[trigger] r@[b]),
        decreases n - i,
    {
        let is_not = match entries[i].filter {
            EventFilter::Not(_) => true,
            _ => false,
        };
        if !is_not && matches_filter(&entries[i], ev) {
            let ghost r_pre = r@;
            r.push(i);
            proof {
                assert(r@ == r_pre.push(i));
                assert(forall|a: int| 0 <= a < r_pre.len() ==> r@[a] == r_pre[a]);
                assert(r@[r@.len() - 1] == i);
            }
        }
        i = i + 1;
    }
    let ghost len1 = r@.len();
    let ghost r_phase1 = r@;
    let mut i2: usize = 0;
    while i2 < n
        invariant
            n == entries@.len(),
            0 <= i2 <= n,
            len1 <= r@.len(),
            r@.subrange(0, len1 as int) == r_phase1,
            forall|a: int|
                0 <= a < len1 ==> (#[trigger] r@[a]) < n && entry_matches(entries@[r@[a] as int], *ev)
                    && !is_not_filter(entries@[r@[a] as int].filter),
            forall|j: int|
                0 <= j < n && entry_matches(#[trigger] entries@[j], *ev) && !is_not_filter(
                    entries@[j].filter,
                ) ==> exists|a: int| 0 <= a < len1 && (#[trigger] r@[a]) == j,
            forall|a: int, b: int| 0 <= a < b < len1 ==> (#[trigger] r@[a]) < (#[trigger] r@[b]),
            forall|a: int|
                len1 <= a < r@.len() ==> (#[trigger] r@[a]) < i2 && entry_matches(
                    entries@[r@[a] as int],
                    *ev,
                ) && is_not_filter(entries@[r@[a] as int].filter),
            forall|j: int|
                0 <= j < i2 && entry_matches(#[trigger] entries@[j], *ev) && is_not_filter(
                    entries@[j].filter,
                ) ==> exists|a: int| len1 <= a < r@.len() && (#[trigger] r@[a]) == j,
            forall|a: int, b: int|
                len1 <= a < b < r@.len() ==> (#[trigger] r@[a]) < (#[trigger] r@[b]),
        decreases n - i2,
    {
        let is_not = match entries[i2].filter {
            EventFilter::Not(_) => true,
            _ => false,
        };
        if is_not && matches_filter(&entries[i2], ev) {
            let ghost r_pre = r@;
            r.push(i2);
            proof {
                assert(r@ == r_pre.push(i2));
                assert(forall|a: int| 0 <= a < r_pre.len() ==> r@[a] == r_pre[a]);
                assert(r@[r@.len() - 1] == i2);
                assert(r@.subrange(0, len1 as int) =~= r_pre.subrange(0, len1 as int));
            }
        }
        i2 = i2 + 1;
    }
    proof {
        assert forall|a: int, b: int| 0 <= a < b < r@.len() implies (#[trigger] r@[a]) != (
        #[trigger] r@[b]) by {
            if b < len1 {
            } else if a >= len1 {
            } else {
                assert(!is_not_filter(entries@[r@[a] as int].filter));
                assert(is_not_filter(entries@[r@[b] as int].filter));
            }
        }
    }
    r
}

/// Dispatches one event: matches the registered callbacks against it,
/// invokes each match in order — each callback sees the state as the
/// previous one left it — and aggregates the repaint decisions. The
/// reported decisions pair each invoked callback's index with what it
/// returned, and the aggregate is a repaint exactly when some invoked
/// callback chose one.
pub struct DispatchOutcome<S> {
    pub state: S,
    pub redraw: bool,
    pub decisions: Vec<(usize, UpdateScreen)>,
    /// The intermediate states: `trace[b]` is what the `b`-th invoked
    /// callback saw, `trace[b + 1]` what it committed — the callbacks ran
    /// sequentially, never interleaved.
    pub trace: Ghost<Seq<S>>,
}

/// The chaining claim the dispatcher makes for one invoked callback:
/// running it on the state the previous callback committed could return
/// this committed state and this decision.
pub open spec fn decision_chain_ok<S, C: Fn(S) -> CallbackOutcome<S>>(
    cb: C,
    s_in: S,
    s_out: S,
    decision: UpdateScreen,
) -> bool {
    exists|out: CallbackOutcome<S>|
        #[trigger] call_ensures(cb, (s_in,), out) && out.state == s_out && out.redraw == decision
}

/// The claim the dispatcher makes for one invoked callback: some run of it
/// returned this repaint decision.
pub open spec fn decision_ok<S, C: Fn(S) -> CallbackOutcome<S>>(
    cb: C,
    decision: UpdateScreen,
) -> bool {
    exists|s1: S, out: CallbackOutcome<S>|
        #[trigger] call_ensures(cb, (s1,), out) && out.redraw == decision
}

pub fn dispatch_event<S, C: Fn(S) -> CallbackOutcome<S> + Copy>(
    entries: &Vec<CallbackEntry<C>>,
    ev: &InputEvent,
    state: S,
) -> (res: DispatchOutcome<S>)
    requires
        forall|i: int, args: (S,)|
            0 <= i < entries@.len() ==> #[trigger] call_requires(entries@[i].callback, args),
    ensures
        matching_order_ok(entries@, *ev, res.decisions@.map_values(|p: (usize, UpdateScreen)| p.0)),
        forall|b: int|
            0 <= b < res.decisions@.len() ==> decision_ok::<S, C>(
                entries@[(#[trigger] res.decisions@[b]).0 as int].callback,
                res.decisions@[b].1,
            ),
        res.redraw <==> exists|b: int|
            0 <= b < res.decisions@.len() && (#[trigger] res.decisions@[b]).1
                == UpdateScreen::Redraw,
        res.trace@.len() == res.decisions@.len() + 1,
        res.trace@[0] == state,
        res.state == res.trace@[res.decisions@.len() as int],
        forall|b: int|
            0 <= b < res.decisions@.len() ==> decision_chain_ok::<S, C>(
                entries@[(#[trigger] res.decisions@[b]).0 as int].callback,
                res.trace@[b],
                res.trace@[b + 1],
                res.decisions@[b].1,
            ),
        res.decisions@.len() == 0 ==> res.state == state && !res.redraw,
{
    let order = matching_callbacks(entries, ev);
    let m = order.len();
    let mut st = state;
    let mut redraw = false;
    let mut decisions: Vec<(usize, UpdateScreen)> = Vec::new();
    let ghost mut trace: Seq<S> = seq![state];
    let mut a: usize = 0;
    while a < m
        invariant
            m == order@.len(),
            0 <= a <= m,
            matching_order_ok(entries@, *ev, order@),
            forall|i: int, args: (S,)|
                0 <= i < entries@.len() ==> #[trigger] call_requires(entries@[i].callback, args),
            decisions@.len() == a,
            forall|b: int| 0 <= b < a ==> (#[trigger] decisions@[b]).0 == order@[b],
            forall|b: int|
                0 <= b < a ==> decision_ok::<S, C>(
                    entries@[(#[trigger] decisions@[b]).0 as int].callback,
                    decisions@[b].1,
                ),
            redraw <==> exists|b: int|
                0 <= b < decisions@.len() && (#[trigger] decisions@[b]).1 == UpdateScreen::Redraw,
            trace.len() == a + 1,
            trace[0] == state,
            st == trace[a as int],
            forall|b: int|
                0 <= b < a ==> decision_chain_ok::<S, C>(
                    entries@[(#[trigger] decisions@[b]).0 as int].callback,
                    trace[b],
                    trace[b + 1],
                    decisions@[b].1,
                ),
            a == 0 ==> st == state,
        decreases m - a,
    {
        let idx = order[a];
        let cb = entries[idx].callback;
        let ghost st_in = st;
        let out = cb(st);
        let ghost gout = out;
        let decision = out.redraw;
        st = out.state;
        let ghost redraw_pre = redraw;
        if matches!(decision, UpdateScreen::Redraw) {
            redraw = true;
        }
        let ghost decisions_pre = decisions@;
        decisions.push((idx, decision));
        proof {
            let trace_pre = trace;
            trace = trace.push(gout.state);
            assert(trace.len() == trace_pre.len() + 1);
            assert(forall|b: int| 0 <= b < trace_pre.len() ==> trace[b] == trace_pre[b]);
            assert(trace[a as int] == st_in);
            assert(trace[a as int + 1] == gout.state);
            assert(decisions@ == decisions_pre.push((idx, decision)));
            assert(forall|b: int|
                0 <= b < decisions_pre.len() ==> decisions@[b] == decisions_pre[b]);
            assert(call_ensures(entries@[idx as int].callback, (st_in,), gout));
            assert(decision_ok::<S, C>(entries@[idx as int].callback, decision));
            assert forall|b: int| 0 <= b < a + 1 implies decision_chain_ok::<S, C>(
                entries@[(#[trigger] decisions@[b]).0 as int].callback,
                trace[b],
                trace[b + 1],
                decisions@[b].1,
            ) by {
                if b < a {
                    assert(decisions@[b] == decisions_pre[b]);
                    assert(trace[b] == trace_pre[b] && trace[b + 1] == trace_pre[b + 1]);
                    assert(decision_chain_ok::<S, C>(
                        entries@[decisions@[b].0 as int].callback,
                        trace_pre[b],
                        trace_pre[b + 1],
                        decisions@[b].1,
                    ));
                } else {
                    assert(decisions@[b].0 == idx);
                    assert(gout.state == trace[b + 1] && gout.redraw == decisions@[b].1);
                }
            }
            if redraw {
                if redraw_pre {
                    let b0 = choose|b0: int|
                        0 <= b0 < decisions_pre.len() && (#[trigger] decisions_pre[b0]).1
                            == UpdateScreen::Redraw;
                    assert(decisions@[b0].1 == UpdateScreen::Redraw);
                } else {
                    assert(decisions@[a as int].1 == UpdateScreen::Redraw);
                }
            } else {
                assert forall|b: int|
                    0 <= b < decisions@.len() implies (#[trigger] decisions@[b]).1
                        != UpdateScreen::Redraw by {
                    if b < a {
                        assert(decisions@[b] == decisions_pre[b]);
                    }
                }
            }
        }
        a = a + 1;
    }
    proof {
        assert(decisions@.map_values(|p: (usize, UpdateScreen)| p.0) =~= order@);
    }
    DispatchOutcome { state: st, redraw, decisions, trace: Ghost(trace) }
}

/// The frame-level repaint decision: repaint exactly when the event's
/// callbacks asked for one, or the tick's fired timers did, or any
/// background task completed this frame.
pub fn frame_redraw(
    callbacks_redraw: bool,
    timers_redraw: bool,
    completed_tasks: usize,
) -> (r: UpdateScreen)
    ensures
        r == UpdateScreen::Redraw <==> (callbacks_redraw || timers_redraw || completed_tasks > 0),
{
    if callbacks_redraw || timers_redraw || completed_tasks > 0 {
        UpdateScreen::Redraw
    } else {
        UpdateScreen::DontRedraw
    }
}

} // verus!
