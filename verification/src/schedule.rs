//! The orchestration state machine.
//!
//! One long-running cycle: sample pressure, and when it crosses the
//! threshold, dispatch a background load of one randomly chosen item, sleep a
//! short random interval, join the load, play, then cool down for a
//! pressure-derived long interval. The decisions live here, verified; the
//! caller performs the sleeps, the background task and the playback, and
//! feeds each outcome back as an [`Event`].

use crate::pressure::{clamp_permille, clamp_spec};
use vstd::prelude::*;

verus! {

/// Pressure above this per-mille threshold triggers a load/play cycle.
pub const THRESHOLD_PERMILLE: u32 = 800;

/// The short foreground sleep while a load runs, in milliseconds: `[2, 10)` seconds.
pub const SHORT_SLEEP_MIN_MS: u64 = 2000;

pub const SHORT_SLEEP_MAX_MS: u64 = 10000;

/// The cooldown after playback, in milliseconds: `[5, 30)` seconds.
pub const LONG_SLEEP_MIN_MS: u64 = 5000;

pub const LONG_SLEEP_MAX_MS: u64 = 30000;

/// The fixed trailing sleep of every cycle, in milliseconds.
pub const TICK_MS: u64 = 1000;

/// The cooldown after a cycle triggered at clamped pressure `p` (per-mille):
/// the closer the pressure is to full, the sooner the next sample; mild
/// overage waits the longest.
pub open spec fn long_interval_spec(p: int) -> int {
    LONG_SLEEP_MIN_MS + (1000 - (p - THRESHOLD_PERMILLE) * 5) * (LONG_SLEEP_MAX_MS
        - LONG_SLEEP_MIN_MS) / 1000
}

/// Compute the cooldown in milliseconds from the clamped pressure.
pub fn long_interval_ms(p: u32) -> (r: u64)
    requires
        THRESHOLD_PERMILLE <= p <= 1000,
    ensures
        r == long_interval_spec(p as int),
        LONG_SLEEP_MIN_MS <= r <= LONG_SLEEP_MAX_MS,
{
    let over: u64 = p as u64 - THRESHOLD_PERMILLE as u64;
    let until_full: u64 = 1000 - over * 5;
    assert(until_full <= 1000);
    assert(LONG_SLEEP_MAX_MS - LONG_SLEEP_MIN_MS == 25000);
    let scaled: u64 = until_full * 25000;
    LONG_SLEEP_MIN_MS + scaled / 1000
}

/// Relies on rand::random_range: a uniform sample from `[0, n)`; it panics
/// only when the range is empty.
#[verifier::external_body]
fn random_index_below(n: usize) -> (r: usize)
    requires
        n > 0,
    ensures
        r < n,
{
    rand::random_range(0..n)
}

/// Relies on rand::random_range: a uniform sample from `[lo, hi)`; it panics
/// only when the range is empty.
#[verifier::external_body]
fn random_ms_between(lo: u64, hi: u64) -> (r: u64)
    requires
        lo < hi,
    ensures
        lo <= r < hi,
{
    rand::random_range(lo..hi)
}

/// Where the loop stands within one trigger cycle.
#[derive(Clone, Copy, PartialEq, Eq, Structural, Debug)]
pub enum Mode {
    /// Sampling pressure; no load is in flight.
    Idle,
    /// A background load was dispatched at clamped `pressure` and not yet joined.
    Loading { pressure: u32 },
    /// The loaded bytes were handed to the playback sink.
    Playing { pressure: u32 },
    /// Playback ended; the long cooldown is running.
    Cooling,
}

/// What the caller reports back to the machine.
#[derive(Clone, Copy, PartialEq, Eq, Structural, Debug)]
pub enum Event {
    /// A raw pressure sample, in per-mille, possibly out of range.
    Sampled(i64),
    /// The background load was joined; `true` when it yielded the bytes.
    LoadFinished(bool),
    /// The playback sink reported end of playback.
    PlaybackDone,
    /// The long cooldown elapsed.
    SleptLong,
}

/// What the caller must do next.
#[derive(Clone, Copy, PartialEq, Eq, Structural, Debug)]
pub enum Action {
    /// Sleep the fixed trailing tick, then sample again.
    SleepTick,
    /// Dispatch a background load of item `pos` of the startup list, then
    /// sleep `short_sleep_ms` before joining it.
    BeginLoad { pos: usize, short_sleep_ms: u64 },
    /// Hand the loaded bytes to the playback sink and block until it ends.
    Play,
    /// Sleep the long cooldown.
    SleepLong { ms: u64 },
}

/// Which events a mode can take.
pub open spec fn event_fits(m: Mode, e: Event) -> bool {
    match e {
        Event::Sampled(_) => m is Idle,
        Event::LoadFinished(_) => m is Loading,
        Event::PlaybackDone => m is Playing,
        Event::SleptLong => m is Cooling,
    }
}

/// The full transition relation of one step: from mode `pre` over a pool of
/// `n` items, event `e` leads to mode `post` and action `a`. The chosen item
/// and the short sleep are random, so only their ranges are pinned.
pub open spec fn step_spec(pre: Mode, n: usize, e: Event, post: Mode, a: Action) -> bool {
    match (pre, e) {
        (Mode::Idle, Event::Sampled(raw)) => {
            let p = clamp_spec(raw as int);
            if p <= THRESHOLD_PERMILLE {
                post == Mode::Idle && a == Action::SleepTick
            } else {
                &&& post == (Mode::Loading { pressure: p as u32 })
                &&& a matches Action::BeginLoad { pos, short_sleep_ms }
                    && pos < n && SHORT_SLEEP_MIN_MS <= short_sleep_ms < SHORT_SLEEP_MAX_MS
            }
        },
        (Mode::Loading { pressure }, Event::LoadFinished(ok)) => {
            if ok {
                post == (Mode::Playing { pressure }) && a == Action::Play
            } else {
                // A failed load skips the cycle instead of aborting.
                post == Mode::Idle && a == Action::SleepTick
            }
        },
        (Mode::Playing { pressure }, Event::PlaybackDone) => {
            post == Mode::Cooling && a == (Action::SleepLong {
                ms: long_interval_spec(pressure as int) as u64,
            })
        },
        (Mode::Cooling, Event::SleptLong) => post == Mode::Idle && a == Action::SleepTick,
        _ => false,
    }
}

/// Whether mode `m` has a dispatched, not-yet-joined background load.
pub open spec fn load_outstanding(m: Mode) -> bool {
    m is Loading
}

/// The mode a run is in just before its step `i`.
pub open spec fn mode_before(m0: Mode, modes: Seq<Mode>, i: int) -> Mode {
    if i == 0 {
        m0
    } else {
        modes[i - 1]
    }
}

/// A run of the machine: starting from `m0` over a pool of `n` items, step
/// `i` consumed `events[i]`, moved to `modes[i]` and issued `actions[i]`.
pub open spec fn run_spec(
    m0: Mode,
    n: usize,
    events: Seq<Event>,
    modes: Seq<Mode>,
    actions: Seq<Action>,
) -> bool {
    &&& modes.len() == events.len()
    &&& actions.len() == events.len()
    &&& forall|i: int|
        0 <= i < events.len() ==> #[trigger] step_spec(
            mode_before(m0, modes, i),
            n,
            events[i],
            modes[i],
            actions[i],
        )
}

/// A load is dispatched only while no other load is outstanding, and it is
/// outstanding from then on until it is joined.
pub proof fn lemma_dispatch_excludes_outstanding(
    pre: Mode,
    n: usize,
    e: Event,
    post: Mode,
    a: Action,
)
    requires
        step_spec(pre, n, e, post, a),
        a is BeginLoad,
    ensures
        !load_outstanding(pre),
        load_outstanding(post),
{
}

/// While a load is outstanding, the only step the machine takes is the one
/// that joins it.
pub proof fn lemma_outstanding_until_join(
    m0: Mode,
    n: usize,
    events: Seq<Event>,
    modes: Seq<Mode>,
    actions: Seq<Action>,
    i: int,
    m: int,
)
    requires
        run_spec(m0, n, events, modes, actions),
        0 <= i < m < events.len(),
        load_outstanding(modes[i]),
        !load_outstanding(modes[m]),
    ensures
        exists|k: int| i < k <= m && events[k] is LoadFinished,
    decreases m - i,
{
    assert(step_spec(mode_before(m0, modes, m), n, events[m], modes[m], actions[m]));
    if load_outstanding(modes[m - 1]) {
        assert(events[m] is LoadFinished);
    } else {
        lemma_outstanding_until_join(m0, n, events, modes, actions, i, m - 1);
    }
}

/// No two `load` calls on the shared loader ever overlap: between any two
/// load dispatches of a run, the earlier load was joined first.
pub proof fn lemma_loads_never_overlap(
    m0: Mode,
    n: usize,
    events: Seq<Event>,
    modes: Seq<Mode>,
    actions: Seq<Action>,
    i: int,
    j: int,
)
    requires
        run_spec(m0, n, events, modes, actions),
        0 <= i < j < events.len(),
        actions[i] is BeginLoad,
        actions[j] is BeginLoad,
    ensures
        exists|k: int| i < k < j && events[k] is LoadFinished,
{
    assert(step_spec(mode_before(m0, modes, i), n, events[i], modes[i], actions[i]));
    assert(step_spec(mode_before(m0, modes, j), n, events[j], modes[j], actions[j]));
    lemma_dispatch_excludes_outstanding(
        mode_before(m0, modes, i),
        n,
        events[i],
        modes[i],
        actions[i],
    );
    lemma_dispatch_excludes_outstanding(
        mode_before(m0, modes, j),
        n,
        events[j],
        modes[j],
        actions[j],
    );
    lemma_outstanding_until_join(m0, n, events, modes, actions, i, j - 1);
}

/// The foreground control loop's state: the size of the startup item list
/// and the current mode.
pub struct Orchestrator {
    pub n_items: usize,
    pub mode: Mode,
}

/// Raised when the machine cannot start.
#[derive(Clone, Copy, PartialEq, Eq, Structural, Debug)]
pub enum StartupError {
    /// The backend held no eligible item.
    EmptyPool,
}

impl Orchestrator {
    /// A mode only ever carries a clamped, above-threshold pressure, and the
    /// pool is never empty.
    pub open spec fn wf(self) -> bool {
        &&& self.n_items > 0
        &&& self.mode matches Mode::Loading { pressure } ==> THRESHOLD_PERMILLE < pressure <= 1000
        &&& self.mode matches Mode::Playing { pressure } ==> THRESHOLD_PERMILLE < pressure <= 1000
    }

    /// Start the machine over a pool of `n_items` items. A pool with zero
    /// eligible items is rejected, and with it the whole startup.
    pub fn new(n_items: usize) -> (r: Result<Orchestrator, StartupError>)
        ensures
            r is Err <==> n_items == 0,
            r matches Ok(o) ==> o.wf() && o.n_items == n_items && o.mode is Idle,
            r matches Err(e) ==> e is EmptyPool,
    {
        if n_items == 0 {
            Err(StartupError::EmptyPool)
        } else {
            Ok(Orchestrator { n_items, mode: Mode::Idle })
        }
    }

    /// Take one step: consume the event the caller observed and say what to
    /// do next. The transition is exactly [`step_spec`].
    pub fn step(&mut self, event: Event) -> (a: Action)
        requires
            old(self).wf(),
            event_fits(old(self).mode, event),
        ensures
            final(self).wf(),
            final(self).n_items == old(self).n_items,
            step_spec(old(self).mode, old(self).n_items, event, final(self).mode, a),
    {
        match (self.mode, event) {
            (Mode::Idle, Event::Sampled(raw)) => {
                let p = clamp_permille(raw);
                if p <= THRESHOLD_PERMILLE {
                    Action::SleepTick
                } else {
                    let pos = random_index_below(self.n_items);
                    let short_sleep_ms = random_ms_between(SHORT_SLEEP_MIN_MS, SHORT_SLEEP_MAX_MS);
                    self.mode = Mode::Loading { pressure: p };
                    Action::BeginLoad { pos, short_sleep_ms }
                }
            },
            (Mode::Loading { pressure }, Event::LoadFinished(ok)) => {
                if ok {
                    self.mode = Mode::Playing { pressure };
                    Action::Play
                } else {
                    self.mode = Mode::Idle;
                    Action::SleepTick
                }
            },
            (Mode::Playing { pressure }, Event::PlaybackDone) => {
                let ms = long_interval_ms(pressure);
                self.mode = Mode::Cooling;
                Action::SleepLong { ms }
            },
            (Mode::Cooling, Event::SleptLong) => {
                self.mode = Mode::Idle;
                Action::SleepTick
            },
            _ => {
                proof {
                    assert(false);
                }
                Action::SleepTick
            },
        }
    }
}

} // verus!
