use azul_core::handles::TimerId;
use azul_core::timers::{
    TerminateTimer, Timer, TimerOutcome, TimerRegistry, UpdateScreen,
};

type Cb = fn(u64, u64) -> TimerOutcome<u64>;

fn increment(state: u64, _elapsed: u64) -> TimerOutcome<u64> {
    TimerOutcome {
        state: state + 1,
        redraw: UpdateScreen::Redraw,
        terminate: TerminateTimer::Continue,
    }
}

fn increment_quiet(state: u64, _elapsed: u64) -> TimerOutcome<u64> {
    TimerOutcome {
        state: state + 1,
        redraw: UpdateScreen::DontRedraw,
        terminate: TerminateTimer::Continue,
    }
}

fn fire_once(state: u64, _elapsed: u64) -> TimerOutcome<u64> {
    TimerOutcome {
        state: state + 100,
        redraw: UpdateScreen::Redraw,
        terminate: TerminateTimer::Terminate,
    }
}

#[test]
fn timer_fires_exactly_at_interval_boundary() {
    let mut reg: TimerRegistry<Cb> = TimerRegistry::new();
    let t1 = TimerId::from_raw(1);
    let d: u64 = 10;
    let t0: u64 = 100;
    reg.add_timer(
        t1,
        Timer { callback: increment, interval: d, last_fired: t0, paused: false },
    );
    // One tick before the interval has passed: no fire.
    let out = reg.tick(0u64, t0 + d - 1);
    assert_eq!(out.fired.len(), 0);
    assert_eq!(out.state, 0);
    assert!(!out.redraw);
    assert_eq!(reg.get_timer(&t1).unwrap().last_fired, t0);
    // Exactly at the interval: fires once and `last_fired` moves to the
    // tick time.
    let out = reg.tick(0u64, t0 + d);
    assert_eq!(out.fired.len(), 1);
    assert_eq!(out.fired[0].0, t1);
    assert_eq!(out.state, 1);
    assert!(out.redraw);
    assert_eq!(reg.get_timer(&t1).unwrap().last_fired, t0 + d);
}

#[test]
fn tick_scenario_increments_once_not_twice() {
    let mut reg: TimerRegistry<Cb> = TimerRegistry::new();
    let t1 = TimerId::from_raw(7);
    reg.add_timer(
        t1,
        Timer { callback: increment, interval: 100, last_fired: 0, paused: false },
    );
    let out = reg.tick(0u64, 50);
    assert_eq!(out.fired.len(), 0);
    assert_eq!(out.state, 0);
    let out = reg.tick(out.state, 120);
    assert_eq!(out.fired.len(), 1);
    assert_eq!(out.state, 1);
    assert_eq!(reg.get_timer(&t1).unwrap().last_fired, 120);
}

#[test]
fn terminated_timer_leaves_registry() {
    let mut reg: TimerRegistry<Cb> = TimerRegistry::new();
    let t1 = TimerId::from_raw(1);
    reg.add_timer(
        t1,
        Timer { callback: fire_once, interval: 5, last_fired: 0, paused: false },
    );
    let out = reg.tick(0u64, 5);
    assert_eq!(out.state, 100);
    assert!(out.redraw);
    assert!(!reg.has_timer(&t1));
    // A later tick finds nothing to fire.
    let out = reg.tick(out.state, 50);
    assert_eq!(out.fired.len(), 0);
    assert_eq!(out.state, 100);
}

#[test]
fn paused_timer_does_not_fire() {
    let mut reg: TimerRegistry<Cb> = TimerRegistry::new();
    let t1 = TimerId::from_raw(3);
    reg.add_timer(
        t1,
        Timer { callback: increment, interval: 1, last_fired: 0, paused: true },
    );
    let out = reg.tick(0u64, 1000);
    assert_eq!(out.fired.len(), 0);
    assert_eq!(out.state, 0);
    assert!(!out.redraw);
}

#[test]
fn timers_fire_sequentially_and_aggregate_redraw() {
    let mut reg: TimerRegistry<Cb> = TimerRegistry::new();
    reg.add_timer(
        TimerId::from_raw(1),
        Timer { callback: increment_quiet, interval: 10, last_fired: 0, paused: false },
    );
    reg.add_timer(
        TimerId::from_raw(2),
        Timer { callback: increment_quiet, interval: 10, last_fired: 0, paused: false },
    );
    let out = reg.tick(0u64, 10);
    // Both fired, each saw the previous one's committed state.
    assert_eq!(out.fired.len(), 2);
    assert_eq!(out.state, 2);
    // Neither asked for a repaint, so the aggregate is no repaint.
    assert!(!out.redraw);
}

#[test]
fn add_timer_replaces_and_get_returns_copy() {
    let mut reg: TimerRegistry<Cb> = TimerRegistry::new();
    let t1 = TimerId::from_raw(4);
    reg.add_timer(
        t1,
        Timer { callback: increment, interval: 10, last_fired: 0, paused: false },
    );
    reg.add_timer(
        t1,
        Timer { callback: increment, interval: 99, last_fired: 5, paused: false },
    );
    let copy = reg.get_timer(&t1).unwrap();
    assert_eq!(copy.interval, 99);
    assert_eq!(copy.last_fired, 5);
    let removed = reg.delete_timer(&t1).unwrap();
    assert_eq!(removed.interval, 99);
    assert!(!reg.has_timer(&t1));
    assert!(reg.delete_timer(&t1).is_none());
}
