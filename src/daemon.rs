use vstd::prelude::*;
use vstd::string::StringExecFns;
use crate::display::DpmsState;

verus! {

/// Settings fixed for the whole run. Durations are in milliseconds.
pub struct Config {
    pub main_display: String,
    pub dummy_plug: String,
    pub poll_interval_ms: u64,
    pub grace_period_ms: u64,
}

impl Config {
    /// The usual desk: main monitor on DP-2, dummy plug on HDMI-A-1, a poll
    /// every five seconds and a ten second grace period.
    pub fn default() -> (r: Config)
        ensures
            r.main_display@ == "DP-2"@,
            r.dummy_plug@ == "HDMI-A-1"@,
            r.poll_interval_ms == 5000,
            r.grace_period_ms == 10000,
    {
        Config {
            main_display: String::from_str("DP-2"),
            dummy_plug: String::from_str("HDMI-A-1"),
            poll_interval_ms: 5000,
            grace_period_ms: 10000,
        }
    }
}

/// Committed presence of the user.
#[derive(Debug, Clone, Copy, PartialEq, Eq, Structural)]
pub enum State {
    AtDesk,
    Away,
}

impl State {
    /// Human-readable label.
    pub fn label(&self) -> (r: &'static str)
        ensures
            *self == State::AtDesk ==> r@ == "AtDesk"@,
            *self == State::Away ==> r@ == "Away"@,
    {
        match self {
            State::AtDesk => "AtDesk",
            State::Away => "Away",
        }
    }
}

/// What one poll decided.
#[derive(Debug, Clone, Copy, PartialEq, Eq, Structural)]
pub enum Action {
    /// The reading was unavailable; nothing changed.
    Hold,
    /// The reading agrees with the committed state; any pending transition is dropped.
    Steady,
    /// A disagreement was first seen; the grace timer started.
    StartedWaiting,
    /// A disagreement is pending; this much of the grace period remains.
    Waiting(u64),
    /// The grace period ran out; the state was committed to this value.
    Commit(State),
}

/// One effect on the outside world.
#[derive(Debug, Clone, Copy, PartialEq, Eq, Structural)]
pub enum Effect {
    EnableOutput,
    StartService,
    StopService,
    DisableOutput,
}

/// The state that a reading asks for, if any.
pub open spec fn desired(reading: DpmsState) -> Option<State> {
    match reading {
        DpmsState::On => Some(State::AtDesk),
        DpmsState::Off => Some(State::Away),
        DpmsState::Unknown => None,
    }
}

/// State at start-up from one reading: only `Off` means away.
pub open spec fn initial_state(reading: DpmsState) -> State {
    if reading == DpmsState::Off { State::Away } else { State::AtDesk }
}

/// Time elapsed from `since` to `now` on a monotonic clock.
pub open spec fn elapsed(since: u64, now: u64) -> int {
    if now >= since { now - since } else { 0 }
}

/// State and pending timestamp after one reading taken at `now`.
pub open spec fn step(
    state: State,
    pending: Option<u64>,
    grace: u64,
    reading: DpmsState,
    now: u64,
) -> (State, Option<u64>) {
    match desired(reading) {
        None => (state, pending),
        Some(want) => if want == state {
            (state, None)
        } else {
            match pending {
                None => (state, Some(now)),
                Some(t) => if elapsed(t, now) >= grace {
                    (want, None)
                } else {
                    (state, pending)
                },
            }
        },
    }
}

/// The action reported for one reading taken at `now`.
pub open spec fn action_of(
    state: State,
    pending: Option<u64>,
    grace: u64,
    reading: DpmsState,
    now: u64,
) -> Action {
    match desired(reading) {
        None => Action::Hold,
        Some(want) => if want == state {
            Action::Steady
        } else {
            match pending {
                None => Action::StartedWaiting,
                Some(t) => if elapsed(t, now) >= grace {
                    Action::Commit(want)
                } else {
                    Action::Waiting((grace - elapsed(t, now)) as u64)
                },
            }
        },
    }
}

/// Effects that bring the outside world in line with `state`, in order.
pub open spec fn plan(state: State, service_running: bool) -> Seq<Effect> {
    match state {
        State::Away => seq![Effect::EnableOutput, Effect::StartService],
        State::AtDesk => if service_running {
            seq![Effect::StopService, Effect::DisableOutput]
        } else {
            seq![Effect::DisableOutput]
        },
    }
}

/// State and pending timestamp after feeding `readings[i]` at `times[i]` in turn.
pub open spec fn feed(
    state: State,
    pending: Option<u64>,
    grace: u64,
    readings: Seq<DpmsState>,
    times: Seq<u64>,
) -> (State, Option<u64>)
    decreases readings.len(),
{
    if readings.len() == 0 || readings.len() != times.len() {
        (state, pending)
    } else {
        let (s, p) = feed(state, pending, grace, readings.drop_last(), times.drop_last());
        step(s, p, grace, readings.last(), times.last())
    }
}

/// The debounced presence tracker.
pub struct Daemon {
    config: Config,
    state: State,
    transition_started: Option<u64>,
}

impl Daemon {
    /// Starts from one reading of the main display's power state.
    pub fn new(config: Config, reading: DpmsState) -> (r: Daemon)
        ensures
            r.state() == initial_state(reading),
            r.pending() == None::<u64>,
            r.grace() == config.grace_period_ms,
    {
        let state = match reading {
            DpmsState::Off => State::Away,
            _ => State::AtDesk,
        };
        Daemon { config, state, transition_started: None }
    }

    pub closed spec fn state(&self) -> State {
        self.state
    }

    pub closed spec fn pending(&self) -> Option<u64> {
        self.transition_started
    }

    pub closed spec fn grace(&self) -> u64 {
        self.config.grace_period_ms
    }

    /// The committed state.
    pub fn current_state(&self) -> (r: State)
        ensures
            r == self.state(),
    {
        self.state
    }

    /// When the pending transition was first seen, if one is pending.
    pub fn pending_since(&self) -> (r: Option<u64>)
        ensures
            r == self.pending(),
    {
        self.transition_started
    }

    /// The settings the tracker runs with.
    pub fn config(&self) -> (r: &Config)
        ensures
            r.grace_period_ms == self.grace(),
    {
        &self.config
    }

    /// Feeds one reading taken at `now` (milliseconds on a monotonic clock).
    pub fn poll(&mut self, reading: DpmsState, now: u64) -> (r: Action)
        ensures
            (final(self).state(), final(self).pending())
                == step(old(self).state(), old(self).pending(), old(self).grace(), reading, now),
            r == action_of(old(self).state(), old(self).pending(), old(self).grace(), reading, now),
            final(self).grace() == old(self).grace(),
    {
        let desired = match reading {
            DpmsState::Off => State::Away,
            DpmsState::On => State::AtDesk,
            DpmsState::Unknown => {
                return Action::Hold;
            },
        };
        if desired == self.state {
            self.transition_started = None;
            return Action::Steady;
        }
        match self.transition_started {
            None => {
                self.transition_started = Some(now);
                Action::StartedWaiting
            },
            Some(started) => {
                let spent = if now >= started { now - started } else { 0 };
                if spent >= self.config.grace_period_ms {
                    self.state = desired;
                    self.transition_started = None;
                    Action::Commit(desired)
                } else {
                    Action::Waiting(self.config.grace_period_ms - spent)
                }
            },
        }
    }

    /// Effects that make the outside world match the committed state, in the
    /// order they must run. `service_running` says whether the streaming
    /// service runs now; it matters only when at the desk.
    pub fn apply_state(&self, service_running: bool) -> (r: Vec<Effect>)
        ensures
            r@ == plan(self.state(), service_running),
    {
        match self.state {
            State::Away => vec![Effect::EnableOutput, Effect::StartService],
            State::AtDesk => if service_running {
                vec![Effect::StopService, Effect::DisableOutput]
            } else {
                vec![Effect::DisableOutput]
            },
        }
    }
}

/// Times that never go backwards, as a monotonic clock reports them.
pub open spec fn nondecreasing(times: Seq<u64>) -> bool {
    forall|i: int, j: int| 0 <= i <= j < times.len() ==> times[i] <= times[j]
}

proof fn lemma_feed_prefix(
    state: State,
    pending: Option<u64>,
    grace: u64,
    readings: Seq<DpmsState>,
    times: Seq<u64>,
    k: int,
)
    requires
        readings.len() == times.len(),
        0 <= k < readings.len(),
    ensures
        feed(state, pending, grace, readings.take(k + 1), times.take(k + 1)) == ({
            let (s, p) = feed(state, pending, grace, readings.take(k), times.take(k));
            step(s, p, grace, readings[k], times[k])
        }),
{
    assert(readings.take(k + 1).drop_last() =~= readings.take(k));
    assert(times.take(k + 1).drop_last() =~= times.take(k));
}

/// Unavailable readings, however many, change neither the committed state nor
/// the pending transition.
pub proof fn lemma_unknown_is_idempotent(
    state: State,
    pending: Option<u64>,
    grace: u64,
    readings: Seq<DpmsState>,
    times: Seq<u64>,
)
    requires
        readings.len() == times.len(),
        forall|i: int| 0 <= i < readings.len() ==> readings[i] == DpmsState::Unknown,
    ensures
        feed(state, pending, grace, readings, times) == (state, pending),
    decreases readings.len(),
{
    if readings.len() > 0 {
        lemma_unknown_is_idempotent(state, pending, grace, readings.drop_last(), times.drop_last());
    }
}

/// A disagreement that turns back to the committed state within the grace
/// period commits nothing, and leaves no transition pending: every reading in
/// the window keeps the committed state, and when the last one agrees with it
/// the pending transition is gone.
pub proof fn lemma_flapping_is_harmless(
    state: State,
    grace: u64,
    readings: Seq<DpmsState>,
    times: Seq<u64>,
)
    requires
        readings.len() == times.len(),
        readings.len() > 0,
        nondecreasing(times),
        forall|i: int| 0 <= i < times.len() ==> #[trigger] times[i] - times[0] < grace,
    ensures
        forall|k: int| 0 <= k <= readings.len()
            ==> (#[trigger] feed(state, None, grace, readings.take(k), times.take(k))).0 == state,
        desired(readings.last()) == Some(state)
            ==> feed(state, None, grace, readings, times) == (state, None::<u64>),
{
    let n = readings.len() as int;
    assert forall|k: int| 0 <= k <= n implies ({
        let (s, p) = #[trigger] feed(state, None, grace, readings.take(k), times.take(k));
        s == state && (p is None || times[0] <= p->0)
    }) by {
        lemma_flapping_window(state, grace, readings, times, k);
    }
    lemma_flapping_window(state, grace, readings, times, n);
    assert(readings.take(n) =~= readings);
    assert(times.take(n) =~= times);
    if desired(readings.last()) == Some(state) {
        lemma_feed_prefix(state, None, grace, readings, times, n - 1);
    }
}

proof fn lemma_flapping_window(
    state: State,
    grace: u64,
    readings: Seq<DpmsState>,
    times: Seq<u64>,
    k: int,
)
    requires
        readings.len() == times.len(),
        readings.len() > 0,
        0 <= k <= readings.len(),
        nondecreasing(times),
        forall|i: int| 0 <= i < times.len() ==> #[trigger] times[i] - times[0] < grace,
    ensures
        ({
            let (s, p) = feed(state, None, grace, readings.take(k), times.take(k));
            s == state && (p is None || times[0] <= p->0)
        }),
    decreases k,
{
    if k > 0 {
        lemma_flapping_window(state, grace, readings, times, k - 1);
        lemma_feed_prefix(state, None, grace, readings, times, k - 1);
    } else {
        assert(readings.take(0).len() == 0);
    }
}

/// Whether some reading after the first among the first `k` came at least
/// `grace` after the first one.
pub open spec fn grace_reached(times: Seq<u64>, grace: u64, k: int) -> bool
    decreases k,
{
    if k <= 1 {
        false
    } else {
        grace_reached(times, grace, k - 1) || elapsed(times[0], times[k - 1]) >= grace
    }
}

proof fn lemma_grace_reached_grows(times: Seq<u64>, grace: u64, j: int, k: int)
    requires
        j <= k,
        grace_reached(times, grace, j),
    ensures
        grace_reached(times, grace, k),
    decreases k - j,
{
    if j < k {
        lemma_grace_reached_grows(times, grace, j, k - 1);
    }
}

proof fn lemma_run_prefix(
    state: State,
    grace: u64,
    reading: DpmsState,
    readings: Seq<DpmsState>,
    times: Seq<u64>,
    k: int,
)
    requires
        readings.len() == times.len(),
        1 <= k <= readings.len(),
        desired(reading) is Some,
        desired(reading) != Some(state),
        forall|i: int| 0 <= i < readings.len() ==> readings[i] == reading,
    ensures
        feed(state, None, grace, readings.take(k), times.take(k)) == (if grace_reached(times, grace, k) {
            (desired(reading)->0, None::<u64>)
        } else {
            (state, Some(times[0]))
        }),
    decreases k,
{
    lemma_feed_prefix(state, None, grace, readings, times, k - 1);
    if k > 1 {
        lemma_run_prefix(state, grace, reading, readings, times, k - 1);
    } else {
        assert(readings.take(0).len() == 0);
    }
}

/// Along a run of identical readings that disagree with the committed state,
/// starting with no transition pending, the state changes at most once, and
/// only at a reading taken at least `grace` after the run began.
pub proof fn lemma_one_commit_per_run(
    state: State,
    grace: u64,
    reading: DpmsState,
    readings: Seq<DpmsState>,
    times: Seq<u64>,
)
    requires
        readings.len() == times.len(),
        nondecreasing(times),
        desired(reading) is Some,
        desired(reading) != Some(state),
        forall|i: int| 0 <= i < readings.len() ==> readings[i] == reading,
    ensures
        forall|i: int| 0 <= i < readings.len()
            && (#[trigger] feed(state, None, grace, readings.take(i + 1), times.take(i + 1))).0
                != feed(state, None, grace, readings.take(i), times.take(i)).0
            ==> times[i] - times[0] >= grace && forall|j: int| 0 <= j < readings.len() && j != i
                ==> (#[trigger] feed(state, None, grace, readings.take(j + 1), times.take(j + 1))).0
                    == feed(state, None, grace, readings.take(j), times.take(j)).0,
{
    let n = readings.len() as int;
    assert(readings.take(0).len() == 0);
    assert forall|k: int| 0 <= k <= n implies (#[trigger] feed(state, None, grace, readings.take(k), times.take(k))).0
        == (if grace_reached(times, grace, k) { desired(reading)->0 } else { state }) by {
        if k >= 1 {
            lemma_run_prefix(state, grace, reading, readings, times, k);
        }
    }
    assert forall|i: int, j: int| 0 <= i < n && 0 <= j < n && j != i
        && (#[trigger] feed(state, None, grace, readings.take(i + 1), times.take(i + 1))).0
            != feed(state, None, grace, readings.take(i), times.take(i)).0
        implies times[i] - times[0] >= grace
            && (#[trigger] feed(state, None, grace, readings.take(j + 1), times.take(j + 1))).0
                == feed(state, None, grace, readings.take(j), times.take(j)).0 by {
        assert(grace_reached(times, grace, i + 1) && !grace_reached(times, grace, i));
        if j < i {
            if grace_reached(times, grace, j + 1) {
                lemma_grace_reached_grows(times, grace, j + 1, i);
            }
            if grace_reached(times, grace, j) {
                lemma_grace_reached_grows(times, grace, j, i);
            }
        } else {
            lemma_grace_reached_grows(times, grace, i + 1, j);
            lemma_grace_reached_grows(times, grace, i + 1, j + 1);
        }
    }
    assert forall|i: int| 0 <= i < n
        && (#[trigger] feed(state, None, grace, readings.take(i + 1), times.take(i + 1))).0
            != feed(state, None, grace, readings.take(i), times.take(i)).0
        implies times[i] - times[0] >= grace by {
        assert(grace_reached(times, grace, i + 1) && !grace_reached(times, grace, i));
    }
}

} // verus!
