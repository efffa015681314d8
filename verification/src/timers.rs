//! Recurring timers, advanced once per frame against a monotonic clock.
//!
//! A timer owns a callback from application state and elapsed time to a
//! decision: whether the screen must repaint, and whether the timer
//! terminates. A tick runs every due timer — one whose interval has passed
//! since it last fired and which is not paused — in registry order, each
//! callback seeing the state as committed by the previous one; a fired
//! timer's `last_fired` moves to the tick time, a terminated one leaves the
//! registry. Time is a millisecond reading of the caller's monotonic clock.

use vstd::prelude::*;
use crate::handles::TimerId;
use crate::uidmap::UidMap;

verus! {

/// A callback's repaint decision.
#[derive(Copy, Clone, Debug, PartialEq, Eq, Structural)]
pub enum UpdateScreen {
    Redraw,
    DontRedraw,
}

/// Whether a timer keeps running after its callback fired.
#[derive(Copy, Clone, Debug, PartialEq, Eq, Structural)]
pub enum TerminateTimer {
    Continue,
    Terminate,
}

/// What a timer callback hands back: the mutated application state and its
/// two decisions.
pub struct TimerOutcome<S> {
    pub state: S,
    pub redraw: UpdateScreen,
    pub terminate: TerminateTimer,
}

/// A recurring timer: its callback, its period, when it last fired, and a
/// paused flag a tick skips over.
#[derive(Clone, Copy)]
pub struct Timer<C> {
    pub callback: C,
    pub interval: u64,
    pub last_fired: u64,
    pub paused: bool,
}

/// A timer is due when it is running and its interval has passed since it
/// last fired.
pub open spec fn timer_due<C>(t: Timer<C>, now: u64) -> bool {
    !t.paused && now >= t.last_fired + t.interval
}

/// The timer as a fire at `now` leaves it: only `last_fired` moves.
pub open spec fn fired_timer<C>(t: Timer<C>, now: u64) -> Timer<C> {
    Timer { callback: t.callback, interval: t.interval, last_fired: now, paused: t.paused }
}

/// The claim a tick makes for one fired timer: some run of its callback with
/// the right elapsed time returned this repaint decision, and the callback's
/// terminate decision is exactly whether the timer was kept.
pub open spec fn fired_entry_ok<S, C: Fn(S, u64) -> TimerOutcome<S>>(
    t: Timer<C>,
    decision: UpdateScreen,
    kept: bool,
    now: u64,
) -> bool {
    exists|s1: S, out: TimerOutcome<S>|
        #[trigger] call_ensures(t.callback, (s1, (now - t.last_fired) as u64), out) && out.redraw
            == decision && ((out.terminate == TerminateTimer::Continue) <==> kept)
}

/// The chaining claim a tick makes for one fired timer: running its
/// callback on the state the previous callback committed, with the right
/// elapsed time, could return this committed state and this decision.
pub open spec fn fired_chain_ok<S, C: Fn(S, u64) -> TimerOutcome<S>>(
    t: Timer<C>,
    s_in: S,
    s_out: S,
    decision: UpdateScreen,
    now: u64,
) -> bool {
    exists|out: TimerOutcome<S>|
        #[trigger] call_ensures(t.callback, (s_in, (now - t.last_fired) as u64), out) && out.state
            == s_out && out.redraw == decision
}

/// What a tick reports: the state as committed by the last fired callback,
/// the aggregated repaint decision, and each fired timer with its own
/// decision, in firing order. The ghost trace holds the intermediate
/// states: `trace[b]` is what the `b`-th fired callback saw, `trace[b + 1]`
/// what it committed — the callbacks ran sequentially, never interleaved.
pub struct TickOutcome<S> {
    pub state: S,
    pub redraw: bool,
    pub fired: Vec<(TimerId, UpdateScreen)>,
    pub trace: Ghost<Seq<S>>,
}

/// All active recurring timers, keyed by handle, in insertion order — the
/// stable order in which a tick evaluates them.
pub struct TimerRegistry<C> {
    pub timers: UidMap<Timer<C>>,
}

impl<C> TimerRegistry<C> {
    pub open spec fn wf(&self) -> bool {
        self.timers.wf()
    }

    pub open spec fn has_timer_spec(&self, id: TimerId) -> bool {
        self.timers.contains_key(id.id)
    }

    pub open spec fn timer_of(&self, id: TimerId) -> Timer<C> {
        self.timers.val(id.id)
    }

    pub fn new() -> (r: TimerRegistry<C>)
        ensures
            r.wf(),
            r.timers@.len() == 0,
    {
        TimerRegistry { timers: UidMap::new() }
    }

    /// Inserts a timer, replacing any existing timer under the same handle.
    pub fn add_timer(&mut self, id: TimerId, timer: Timer<C>)
        requires
            old(self).wf(),
        ensures
            final(self).wf(),
            final(self).has_timer_spec(id),
            final(self).timer_of(id) == timer,
            forall|k2: u64|
                k2 != id.id ==> #[trigger] final(self).timers.contains_key(k2) == old(self).timers.contains_key(k2),
            forall|k2: u64|
                k2 != id.id && old(self).timers.contains_key(k2) ==> #[trigger] final(self).timers.val(k2) == old(self).timers.val(k2),
    {
        self.timers.insert(id.id, timer);
    }

    pub fn has_timer(&self, id: &TimerId) -> (r: bool)
        requires
            self.wf(),
        ensures
            r == self.has_timer_spec(*id),
    {
        self.timers.has(id.id)
    }

    /// Removes a timer and returns it, or `None` for an unknown handle.
    pub fn delete_timer(&mut self, id: &TimerId) -> (r: Option<Timer<C>>)
        requires
            old(self).wf(),
        ensures
            final(self).wf(),
            !final(self).has_timer_spec(*id),
            forall|k2: u64|
                k2 != id.id ==> #[trigger] final(self).timers.contains_key(k2) == old(self).timers.contains_key(k2),
            forall|k2: u64|
                k2 != id.id && old(self).timers.contains_key(k2) ==> #[trigger] final(self).timers.val(k2) == old(self).timers.val(k2),
            match r {
                Some(t) => old(self).has_timer_spec(*id) && t == old(self).timer_of(*id),
                None => !old(self).has_timer_spec(*id) && *final(self) == *old(self),
            },
    {
        self.timers.remove(id.id)
    }
}

impl<C: Copy> TimerRegistry<C> {
    /// A copy of the timer's current state — not a live reference; persist a
    /// change by calling `add_timer` again.
    pub fn get_timer(&self, id: &TimerId) -> (r: Option<Timer<C>>)
        requires
            self.wf(),
        ensures
            match r {
                Some(t) => self.has_timer_spec(*id) && t == self.timer_of(*id),
                None => !self.has_timer_spec(*id),
            },
    {
        match self.timers.get(id.id) {
            Some(t) => Some(*t),
            None => None,
        }
    }

    /// One frame tick at time `now`: fires every due timer in registry
    /// order, threading the state through the callbacks sequentially — each
    /// callback sees the state as committed by the previous one. A fired
    /// timer's `last_fired` becomes `now`; one whose callback chose to
    /// terminate leaves the registry; every other timer is untouched. The
    /// aggregate repaint decision is true exactly when some fired callback
    /// chose to repaint.
    #[verifier::rlimit(50)]
    pub fn tick<S>(&mut self, state: S, now: u64) -> (res: TickOutcome<S>) where
        C: Fn(S, u64) -> TimerOutcome<S>,

        requires
            old(self).wf(),
            forall|k: u64, args: (S, u64)|
                old(self).timers.contains_key(k) ==> #[trigger] call_requires(
                    old(self).timers.val(k).callback,
                    args,
                ),
        ensures
            final(self).wf(),
            // No timer appears out of nowhere.
            forall|k: u64|
                #[trigger] final(self).timers.contains_key(k) ==> old(self).timers.contains_key(k),
            // A timer that was not due is exactly as it was.
            forall|k: u64|
                old(self).timers.contains_key(k) && !timer_due(
                    #[trigger] old(self).timers.val(k),
                    now,
                ) ==> final(self).timers.contains_key(k) && final(self).timers.val(k) == old(self).timers.val(k),
            // A due timer either terminated, or stays with `last_fired == now`.
            forall|k: u64|
                old(self).timers.contains_key(k) && timer_due(
                    #[trigger] old(self).timers.val(k),
                    now,
                ) && final(self).timers.contains_key(k) ==> final(self).timers.val(k)
                    == fired_timer(old(self).timers.val(k), now),
            // The fired list holds exactly the due timers, each once.
            forall|b: int|
                0 <= b < res.fired@.len() ==> old(self).timers.contains_key(
                    (#[trigger] res.fired@[b]).0.id,
                ) && timer_due(old(self).timers.val(res.fired@[b].0.id), now),
            forall|k: u64|
                old(self).timers.contains_key(k) && timer_due(
                    #[trigger] old(self).timers.val(k),
                    now,
                ) ==> exists|b: int| 0 <= b < res.fired@.len() && (#[trigger] res.fired@[b]).0.id
                    == k,
            forall|b1: int, b2: int|
                0 <= b1 < b2 < res.fired@.len() ==> (#[trigger] res.fired@[b1]).0.id != (
                #[trigger] res.fired@[b2]).0.id,
            // Each fired entry reports a decision its callback could return,
            // and the callback's terminate decision is exactly whether the
            // timer left the registry.
            forall|b: int|
                0 <= b < res.fired@.len() ==> fired_entry_ok::<S, C>(
                    old(self).timers.val((#[trigger] res.fired@[b]).0.id),
                    res.fired@[b].1,
                    final(self).timers.contains_key(res.fired@[b].0.id),
                    now,
                ),
            // The callbacks ran sequentially: the trace chains the committed
            // states from the given one to the reported one, one callback
            // run per fired timer.
            res.trace@.len() == res.fired@.len() + 1,
            res.trace@[0] == state,
            res.state == res.trace@[res.fired@.len() as int],
            forall|b: int|
                0 <= b < res.fired@.len() ==> fired_chain_ok::<S, C>(
                    old(self).timers.val((#[trigger] res.fired@[b]).0.id),
                    res.trace@[b],
                    res.trace@[b + 1],
                    res.fired@[b].1,
                    now,
                ),
            // The aggregate repaint decision is an OR over the fired timers.
            res.redraw <==> exists|b: int|
                0 <= b < res.fired@.len() && (#[trigger] res.fired@[b]).1 == UpdateScreen::Redraw,
            // A frame with nothing due reports no fire, no repaint, and
            // leaves the state and the registry untouched.
            (forall|k: u64|
                old(self).timers.contains_key(k) ==> !timer_due(
                    #[trigger] old(self).timers.val(k),
                    now,
                )) ==> res.fired@.len() == 0 && !res.redraw && res.state == state && *final(self)
                == *old(self),
    {
        let n = self.timers.len();
        let mut due: Vec<(u64, u64)> = Vec::new();
        let mut i: usize = 0;
        while i < n
            invariant
                self == old(self),
                self.wf(),
                n == self.timers@.len(),
                0 <= i <= n,
                forall|a: int|
                    0 <= a < due@.len() ==> self.timers.contains_key((#[trigger] due@[a]).0)
                        && timer_due(self.timers.val(due@[a].0), now) && due@[a].1 == now
                        - self.timers.val(due@[a].0).last_fired,
                forall|j: int|
                    0 <= j < i && timer_due((#[trigger] self.timers@[j]).1, now) ==> exists|a: int|
                        0 <= a < due@.len() && (#[trigger] due@[a]).0 == self.timers@[j].0,
                forall|a: int|
                    0 <= a < due@.len() ==> exists|j: int|
                        0 <= j < i && (#[trigger] due@[a]).0 == self.timers@[j].0,
                forall|a1: int, a2: int|
                    0 <= a1 < a2 < due@.len() ==> (#[trigger] due@[a1]).0 != (
                    #[trigger] due@[a2]).0,
            decreases n - i,
        {
            let entry = self.timers.entry_at(i);
            let k = entry.0;
            let t = &entry.1;
            if !t.paused && now >= t.last_fired && now - t.last_fired >= t.interval {
                proof {
                    assert(self.timers.contains_key(k));
                    let j = self.timers.key_at(k);
                    assert(0 <= j < self.timers@.len() && self.timers@[j].0 == k);
                    if j != i {
                        assert(self.timers@[j].0 != self.timers@[i as int].0);
                    }
                    assert(self.timers.val(k) == self.timers@[i as int].1);
                    assert(timer_due(self.timers@[i as int].1, now));
                    assert forall|a: int| 0 <= a < due@.len() implies (#[trigger] due@[a]).0
                        != k by {
                        let j2 = choose|j2: int|
                            0 <= j2 < i && due@[a].0 == self.timers@[j2].0;
                        assert(self.timers@[j2].0 != self.timers@[i as int].0);
                    }
                }
                let ghost due_pre = due@;
                due.push((k, now - t.last_fired));
                proof {
                    let last = due@.len() - 1;
                    assert(due@ == due_pre.push((k, (now - t.last_fired) as u64)));
                    assert(due@[last].0 == k);
                    assert(forall|a: int| 0 <= a < last ==> due@[a] == due_pre[a]);
                    assert forall|j: int|
                        0 <= j < i + 1 && timer_due((#[trigger] self.timers@[j]).1, now) implies
                            exists|a: int|
                                0 <= a < due@.len() && (#[trigger] due@[a]).0
                                    == self.timers@[j].0 by {
                        if j < i {
                            let a0 = choose|a0: int|
                                0 <= a0 < due_pre.len() && (#[trigger] due_pre[a0]).0
                                    == self.timers@[j].0;
                            assert(due@[a0].0 == self.timers@[j].0);
                        } else {
                            assert(due@[last].0 == self.timers@[j].0);
                        }
                    }
                    assert forall|a: int| 0 <= a < due@.len() implies exists|j: int|
                        0 <= j < i + 1 && (#[trigger] due@[a]).0 == self.timers@[j].0 by {
                        if a < last {
                            let j0 = choose|j0: int|
                                0 <= j0 < i && due_pre[a].0 == self.timers@[j0].0;
                            assert(due@[a] == due_pre[a]);
                            assert(0 <= j0 < i + 1 && due@[a].0 == self.timers@[j0].0);
                        } else {
                            assert(due@[a].0 == self.timers@[i as int].0);
                        }
                    }
                }
            } else {
                proof {
                    assert(self.timers.contains_key(k));
                    let j = self.timers.key_at(k);
                    if j != i {
                        assert(self.timers@[j].0 != self.timers@[i as int].0);
                    }
                    assert(self.timers.val(k) == self.timers@[i as int].1);
                    assert(!timer_due(self.timers@[i as int].1, now));
                }
            }
            i = i + 1;
        }
        let m = due.len();
        let mut st = state;
        let mut redraw = false;
        let mut fired: Vec<(TimerId, UpdateScreen)> = Vec::new();
        let ghost mut trace: Seq<S> = seq![state];
        let mut a: usize = 0;
        while a < m
            invariant
                m == due@.len(),
                0 <= a <= m,
                self.wf(),
                forall|k2: u64, args: (S, u64)|
                    old(self).timers.contains_key(k2) ==> #[trigger] call_requires(
                        old(self).timers.val(k2).callback,
                        args,
                    ),
                old(self).wf(),
                // What the scan established, now over the pre-tick registry.
                forall|b: int|
                    0 <= b < due@.len() ==> old(self).timers.contains_key((#[trigger] due@[b]).0)
                        && timer_due(old(self).timers.val(due@[b].0), now) && due@[b].1 == now
                        - old(self).timers.val(due@[b].0).last_fired,
                forall|k: u64|
                    old(self).timers.contains_key(k) && timer_due(
                        #[trigger] old(self).timers.val(k),
                        now,
                    ) ==> exists|b: int| 0 <= b < due@.len() && (#[trigger] due@[b]).0 == k,
                forall|b1: int, b2: int|
                    0 <= b1 < b2 < due@.len() ==> (#[trigger] due@[b1]).0 != (
                    #[trigger] due@[b2]).0,
                // Registry bookkeeping so far.
                forall|k: u64|
                    #[trigger] self.timers.contains_key(k) ==> old(self).timers.contains_key(k),
                forall|k: u64|
                    old(self).timers.contains_key(k) && !timer_due(
                        #[trigger] old(self).timers.val(k),
                        now,
                    ) ==> self.timers.contains_key(k) && self.timers.val(k) == old(self).timers.val(k),
                forall|b: int|
                    a <= b < m ==> self.timers.contains_key((#[trigger] due@[b]).0)
                        && self.timers.val(due@[b].0) == old(self).timers.val(due@[b].0),
                forall|b: int|
                    0 <= b < a && self.timers.contains_key((#[trigger] due@[b]).0)
                        ==> self.timers.val(due@[b].0) == fired_timer(
                        old(self).timers.val(due@[b].0),
                        now,
                    ),
                // The fired list mirrors the processed prefix.
                fired@.len() == a,
                forall|b: int|
                    0 <= b < a ==> (#[trigger] fired@[b]).0.id == due@[b].0,
                forall|b: int|
                    0 <= b < a ==> fired_entry_ok::<S, C>(
                        old(self).timers.val((#[trigger] fired@[b]).0.id),
                        fired@[b].1,
                        self.timers.contains_key(fired@[b].0.id),
                        now,
                    ),
                redraw <==> exists|b: int|
                    0 <= b < fired@.len() && (#[trigger] fired@[b]).1 == UpdateScreen::Redraw,
                trace.len() == a + 1,
                trace[0] == state,
                st == trace[a as int],
                forall|b: int|
                    0 <= b < a ==> fired_chain_ok::<S, C>(
                        old(self).timers.val((#[trigger] fired@[b]).0.id),
                        trace[b],
                        trace[b + 1],
                        fired@[b].1,
                        now,
                    ),
                a == 0 ==> st == state && *self == *old(self),
            decreases m - a,
        {
            let k = due[a].0;
            let elapsed = due[a].1;
            let t: Timer<C> = match self.timers.get(k) {
                Some(tr) => *tr,
                None => vstd::pervasive::unreached(),
            };
            proof {
                assert(old(self).timers.contains_key(k));
                let j = old(self).timers.key_at(k);
                assert(0 <= j < old(self).timers@.len() && old(self).timers@[j].0 == k);
                assert(old(self).timers@[j].1 == old(self).timers.val(k));
                assert(call_requires(old(self).timers.val(k).callback, (st, elapsed)));
            }
            let ghost st_in = st;
            let out = (t.callback)(st, elapsed);
            let ghost gout = out;
            let decision = out.redraw;
            let terminated = match out.terminate {
                TerminateTimer::Terminate => true,
                TerminateTimer::Continue => false,
            };
            st = out.state;
            let ghost mid = *self;
            if terminated {
                let _ = self.timers.remove(k);
            } else {
                self.timers.insert(
                    k,
                    Timer {
                        callback: t.callback,
                        interval: t.interval,
                        last_fired: now,
                        paused: t.paused,
                    },
                );
            }
            let ghost redraw_pre = redraw;
            if matches!(decision, UpdateScreen::Redraw) {
                redraw = true;
            }
            let ghost fired_pre = fired@;
            fired.push((TimerId { id: k }, decision));
            proof {
                let trace_pre = trace;
                trace = trace.push(gout.state);
                assert(trace.len() == trace_pre.len() + 1);
                assert(forall|b: int| 0 <= b < trace_pre.len() ==> trace[b] == trace_pre[b]);
                assert(trace[a as int] == st_in);
                assert(trace[a as int + 1] == gout.state);
                assert(fired@ == fired_pre.push((TimerId { id: k }, decision)));
                assert(forall|b: int| 0 <= b < fired_pre.len() ==> fired@[b] == fired_pre[b]);
                if redraw {
                    if redraw_pre {
                        let b0 = choose|b0: int|
                            0 <= b0 < fired_pre.len() && (#[trigger] fired_pre[b0]).1
                                == UpdateScreen::Redraw;
                        assert(fired@[b0].1 == UpdateScreen::Redraw);
                    } else {
                        assert(fired@[a as int].1 == UpdateScreen::Redraw);
                    }
                } else {
                    assert forall|b: int|
                        0 <= b < fired@.len() implies (#[trigger] fired@[b]).1
                            != UpdateScreen::Redraw by {
                        if b < a {
                            assert(fired@[b] == fired_pre[b]);
                        }
                    }
                }
                let t0 = old(self).timers.val(k);
                assert(t == t0);
                assert(elapsed == (now - t0.last_fired) as u64);
                assert(call_ensures(t0.callback, (st_in, elapsed), gout));
                assert(self.timers.contains_key(k) <==> !terminated);
                assert(fired_entry_ok::<S, C>(t0, decision, self.timers.contains_key(k), now));
                assert(fired@[a as int] == (TimerId { id: k }, decision));
                assert forall|b: int| 0 <= b < a + 1 implies fired_entry_ok::<S, C>(
                    old(self).timers.val((#[trigger] fired@[b]).0.id),
                    fired@[b].1,
                    self.timers.contains_key(fired@[b].0.id),
                    now,
                ) by {
                    if b < a {
                        assert(due@[b].0 != due@[a as int].0);
                        assert(fired@[b].0.id == due@[b].0);
                        assert(self.timers.contains_key(due@[b].0) == mid.timers.contains_key(
                            due@[b].0,
                        ));
                        assert(fired_entry_ok::<S, C>(
                            old(self).timers.val(fired@[b].0.id),
                            fired@[b].1,
                            mid.timers.contains_key(fired@[b].0.id),
                            now,
                        ));
                    }
                }
                assert forall|b: int| 0 <= b < a + 1 implies fired_chain_ok::<S, C>(
                    old(self).timers.val((#[trigger] fired@[b]).0.id),
                    trace[b],
                    trace[b + 1],
                    fired@[b].1,
                    now,
                ) by {
                    if b < a {
                        assert(fired@[b] == fired_pre[b]);
                        assert(trace[b] == trace_pre[b] && trace[b + 1] == trace_pre[b + 1]);
                        assert(fired_chain_ok::<S, C>(
                            old(self).timers.val(fired@[b].0.id),
                            trace_pre[b],
                            trace_pre[b + 1],
                            fired@[b].1,
                            now,
                        ));
                    } else {
                        assert(fired@[b].0.id == k);
                        assert(elapsed == (now - t0.last_fired) as u64);
                        assert(call_ensures(
                            t0.callback,
                            (trace[b], (now - t0.last_fired) as u64),
                            gout,
                        ));
                        assert(gout.state == trace[b + 1] && gout.redraw == fired@[b].1);
                    }
                }
            }
            a = a + 1;
        }
        proof {
            assert forall|k: u64|
                old(self).timers.contains_key(k) && timer_due(
                    #[trigger] old(self).timers.val(k),
                    now,
                ) implies exists|b: int| 0 <= b < fired@.len() && (#[trigger] fired@[b]).0.id
                == k by {
                let b = choose|b: int| 0 <= b < due@.len() && (#[trigger] due@[b]).0 == k;
                assert(fired@[b].0.id == k);
            }
            if due@.len() > 0 {
                assert(timer_due(old(self).timers.val(due@[0].0), now));
            }
        }
        TickOutcome { state: st, redraw, fired, trace: Ghost(trace) }
    }
}

} // verus!
