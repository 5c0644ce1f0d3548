//! The supervisor of one mount, as a machine that is told what happened and says what to
//! do next: clean up, start rclone, wait until the mount answers, watch it, stop it, wait
//! and start again.

use crate::clock::{current_millis, millis_at};
use crate::config::{Config, HealthConfig};
use crate::logger::{
    entry_view, error_entry, info_entry, warn_entry, EntryView, LogEntry,
};
use crate::text::{decimal, has_text, lemma_has_between, push_decimal};
use std::time::SystemTime;
use vstd::arithmetic::power2::{lemma_pow2_pos, lemma_pow2_unfold, pow2};
use vstd::prelude::*;

verus! {

/// What the supervisor is at. Every phase but the last two names the work to be done, and
/// the outcome of that work is the event that ends the phase.
#[derive(Clone, Copy, Debug, PartialEq, Eq, Structural)]
pub enum RunPhase {
    /// See whether a stop was requested.
    CheckStop,
    /// Remove what an earlier mount left at the mount point.
    CleanUp,
    /// Start rclone.
    Start,
    /// Wait until the mount of this process answers.
    AwaitReady { pid: u32 },
    /// Stop a mount that did not become ready.
    StopUnready,
    /// Start the change feed of a mount that is ready.
    StartFeed { pid: u32 },
    /// Watch the mount until it ends.
    Supervise { pid: u32 },
    /// Stop the change feed of a mount that ended after this many seconds.
    StopFeed { stable_for: u64 },
    /// Stop the mount.
    StopMount { stable_for: u64 },
    /// Remove what the mount left at the mount point, if that can be done.
    CleanUpAfter { stable_for: u64 },
    /// See whether a stop was requested.
    CheckStopAfter { stable_for: u64 },
    /// Wait, with some jitter, for this many seconds.
    Sleep { base: u64 },
    /// A stop was requested and carried out.
    Stopped,
    /// The supervisor cannot go on.
    Failed,
}

/// Where the supervisor stands.
#[derive(Clone, Copy, Debug, PartialEq, Eq, Structural)]
pub struct RunState {
    pub phase: RunPhase,
    /// How many seconds the next failure costs.
    pub backoff: u64,
}

/// What came of the work of a phase.
#[derive(Clone, Debug)]
pub enum RunEvent {
    /// Whether a stop was requested.
    StopRequested(bool),
    /// Whether the mount point is free.
    CleanedUp(bool),
    /// rclone runs as this process.
    Started(u32),
    /// rclone was not started.
    StartFailed(String),
    /// Whether the mount answered in time.
    Ready(bool),
    /// The change feed runs.
    FeedStarted,
    /// The change feed was not started.
    FeedFailed(String),
    /// The mount ended.
    Ended { reason: String, stable_for: u64 },
    /// The work is done, whatever came of it.
    Done,
    /// The state of a process could not be read.
    Failed,
}

/// What came of the work of a phase, by its text.
#[verifier::ext_equal]
pub enum RunEventView {
    StopRequested(bool),
    CleanedUp(bool),
    Started(u32),
    StartFailed(Seq<char>),
    Ready(bool),
    FeedStarted,
    FeedFailed(Seq<char>),
    Ended(Seq<char>, u64),
    Done,
    Failed,
}

impl View for RunEvent {
    type V = RunEventView;

    open spec fn view(&self) -> RunEventView {
        match self {
            RunEvent::StopRequested(yes) => RunEventView::StopRequested(*yes),
            RunEvent::CleanedUp(yes) => RunEventView::CleanedUp(*yes),
            RunEvent::Started(pid) => RunEventView::Started(*pid),
            RunEvent::StartFailed(why) => RunEventView::StartFailed(why@),
            RunEvent::Ready(yes) => RunEventView::Ready(*yes),
            RunEvent::FeedStarted => RunEventView::FeedStarted,
            RunEvent::FeedFailed(why) => RunEventView::FeedFailed(why@),
            RunEvent::Ended { reason, stable_for } => RunEventView::Ended(reason@, *stable_for),
            RunEvent::Done => RunEventView::Done,
            RunEvent::Failed => RunEventView::Failed,
        }
    }
}

/// The wait after one more failure: twice as long, up to a limit.
pub open spec fn doubled(backoff: u64, max: u64) -> u64 {
    if 2 * backoff > max {
        max
    } else {
        (2 * backoff) as u64
    }
}

/// The wait after one more failure: twice as long, up to a limit.
pub fn next_backoff(backoff: u64, max: u64) -> (next: u64)
    ensures
        next == doubled(backoff, max),
{
    if backoff > max / 2 {
        max
    } else {
        2 * backoff
    }
}

/// A wait with jitter taken from the milliseconds of the clock: up to three seconds more,
/// and one second at least.
pub open spec fn jittered(base: u64, millis: u32) -> u64 {
    let wait = base + (millis % 1000) / 250;
    if wait > u64::MAX {
        u64::MAX
    } else if wait < 1 {
        1
    } else {
        wait as u64
    }
}

/// A wait with jitter taken from the milliseconds of the clock: up to three seconds more,
/// and one second at least.
pub fn with_jitter(base: u64, millis: u32) -> (wait: u64)
    ensures
        wait == jittered(base, millis),
{
    let extra: u64 = ((millis % 1000) / 250) as u64;
    if base > u64::MAX - extra {
        u64::MAX
    } else if base + extra < 1 {
        1
    } else {
        base + extra
    }
}

/// A wait with jitter taken from the current time.
pub fn backoff_with_jitter(base: u64) -> (wait: u64)
    ensures
        exists|moment: SystemTime| wait == jittered(base, #[trigger] millis_at(moment)),
        1 <= wait,
        base <= wait <= base + 3 || (base == 0 && wait == 1),
{
    let millis: u32 = current_millis();
    let wait: u64 = with_jitter(base, millis);
    proof {
        let moment = choose|moment: SystemTime| millis == #[trigger] millis_at(moment);
        assert(wait == jittered(base, millis_at(moment)));
    }
    wait
}

/// The state in which a run begins.
pub open spec fn initial_run(health: HealthConfig) -> RunState {
    RunState { phase: RunPhase::CheckStop, backoff: health.backoff_initial_secs }
}

/// Whether the mount has a change feed: it is switched on, and the worker can be told which
/// configuration to read.
pub open spec fn feeds_changes(config: Config, has_config_path: bool) -> bool {
    has_config_path && config.change_feed.enabled
}

/// The state after an event. An event that does not end the phase changes nothing.
pub open spec fn after_run(
    state: RunState,
    config: Config,
    has_config_path: bool,
    event: RunEventView,
) -> RunState {
    let initial = config.health.backoff_initial_secs;
    let longer = doubled(state.backoff, config.health.backoff_max_secs);
    match (state.phase, event) {
        (RunPhase::CheckStop, RunEventView::StopRequested(true)) => RunState {
            phase: RunPhase::Stopped,
            ..state
        },
        (RunPhase::CheckStop, RunEventView::StopRequested(false)) => RunState {
            phase: RunPhase::CleanUp,
            ..state
        },
        (RunPhase::CleanUp, RunEventView::CleanedUp(true)) => RunState {
            phase: RunPhase::Start,
            ..state
        },
        (RunPhase::CleanUp, RunEventView::CleanedUp(false)) => RunState {
            phase: RunPhase::Failed,
            ..state
        },
        (RunPhase::Start, RunEventView::Started(pid)) => RunState {
            phase: RunPhase::AwaitReady { pid },
            ..state
        },
        (RunPhase::Start, RunEventView::StartFailed(_)) => RunState {
            phase: RunPhase::Sleep { base: state.backoff },
            backoff: longer,
        },
        (RunPhase::AwaitReady { pid }, RunEventView::Ready(true)) => RunState {
            phase: if feeds_changes(config, has_config_path) {
                RunPhase::StartFeed { pid }
            } else {
                RunPhase::Supervise { pid }
            },
            ..state
        },
        (RunPhase::AwaitReady { .. }, RunEventView::Ready(false)) => RunState {
            phase: RunPhase::StopUnready,
            ..state
        },
        (RunPhase::AwaitReady { .. }, RunEventView::Failed) => RunState {
            phase: RunPhase::Failed,
            ..state
        },
        (RunPhase::StopUnready, RunEventView::Done) => RunState {
            phase: RunPhase::Sleep { base: state.backoff },
            backoff: longer,
        },
        (RunPhase::StartFeed { pid }, RunEventView::FeedStarted) => RunState {
            phase: RunPhase::Supervise { pid },
            ..state
        },
        (RunPhase::StartFeed { pid }, RunEventView::FeedFailed(_)) => RunState {
            phase: RunPhase::Supervise { pid },
            ..state
        },
        (RunPhase::Supervise { .. }, RunEventView::Ended(_, stable_for)) => RunState {
            phase: RunPhase::StopFeed { stable_for },
            ..state
        },
        (RunPhase::Supervise { .. }, RunEventView::Failed) => RunState {
            phase: RunPhase::Failed,
            ..state
        },
        (RunPhase::StopFeed { stable_for }, RunEventView::Done) => RunState {
            phase: RunPhase::StopMount { stable_for },
            ..state
        },
        (RunPhase::StopMount { stable_for }, RunEventView::Done) => RunState {
            phase: RunPhase::CleanUpAfter { stable_for },
            ..state
        },
        (RunPhase::CleanUpAfter { stable_for }, RunEventView::CleanedUp(_)) => RunState {
            phase: RunPhase::CheckStopAfter { stable_for },
            ..state
        },
        (RunPhase::CheckStopAfter { .. }, RunEventView::StopRequested(true)) => RunState {
            phase: RunPhase::Stopped,
            ..state
        },
        (RunPhase::CheckStopAfter { stable_for }, RunEventView::StopRequested(false)) => {
            let backoff = if stable_for >= config.health.stable_reset_secs {
                initial
            } else {
                longer
            };
            RunState { phase: RunPhase::Sleep { base: backoff }, backoff }
        },
        (RunPhase::Sleep { .. }, RunEventView::Done) => RunState {
            phase: RunPhase::CheckStop,
            ..state
        },
        _ => state,
    }
}

/// What is logged when an event ends a phase.
pub open spec fn run_entry(state: RunState, config: Config, event: RunEventView) -> Option<
    EntryView,
> {
    match (state.phase, event) {
        (RunPhase::CheckStop, RunEventView::StopRequested(true)) => info_entry(
            "service supervisor stopped"@,
        ),
        (RunPhase::CleanUp, RunEventView::CleanedUp(true)) => info_entry(
            "starting rclone mount remote="@ + config.mount.remote@ + " mount_point="@
                + config.mount.mount_point@,
        ),
        (RunPhase::Start, RunEventView::StartFailed(why)) => error_entry(
            "failed to start mount: "@ + why,
        ),
        (RunPhase::AwaitReady { pid }, RunEventView::Ready(true)) => info_entry(
            "mount ready pid="@ + decimal(pid as nat),
        ),
        (RunPhase::AwaitReady { pid }, RunEventView::Ready(false)) => warn_entry(
            "mount pid="@ + decimal(pid as nat) + " did not become ready"@,
        ),
        (RunPhase::StartFeed { .. }, RunEventView::FeedFailed(why)) => warn_entry(
            "change feed did not start: "@ + why,
        ),
        (RunPhase::Supervise { pid }, RunEventView::Ended(reason, stable_for)) => warn_entry(
            "mount ended/recycled pid="@ + decimal(pid as nat) + ": "@ + reason + "; stable_for="@
                + decimal(stable_for as nat) + "s"@,
        ),
        (RunPhase::CheckStopAfter { .. }, RunEventView::StopRequested(true)) => info_entry(
            "service supervisor stopped"@,
        ),
        _ => None,
    }
}

impl RunState {
    /// The state in which a run begins.
    pub fn new(health: &HealthConfig) -> (state: Self)
        ensures
            state == initial_run(*health),
    {
        RunState { phase: RunPhase::CheckStop, backoff: health.backoff_initial_secs }
    }

    /// What follows an event, and what is logged of it.
    pub fn advance(self, config: &Config, has_config_path: bool, event: &RunEvent) -> (next: (
        RunState,
        Option<LogEntry>,
    ))
        ensures
            next.0 == after_run(self, *config, has_config_path, event@),
            entry_view(next.1) == run_entry(self, *config, event@),
    {
        let longer: u64 = next_backoff(self.backoff, config.health.backoff_max_secs);
        let mut backoff: u64 = self.backoff;
        let mut entry: Option<LogEntry> = None;
        let phase = match (self.phase, event) {
            (RunPhase::CheckStop, RunEvent::StopRequested(stop)) => {
                if *stop {
                    entry = Some(LogEntry::info("service supervisor stopped".to_string()));
                    RunPhase::Stopped
                } else {
                    RunPhase::CleanUp
                }
            },
            (RunPhase::CleanUp, RunEvent::CleanedUp(free)) => {
                if *free {
                    let mut message = "starting rclone mount remote=".to_string();
                    message.append(config.mount.remote.as_str());
                    message.append(" mount_point=");
                    message.append(config.mount.mount_point.as_str());
                    entry = Some(LogEntry::info(message));
                    RunPhase::Start
                } else {
                    RunPhase::Failed
                }
            },
            (RunPhase::Start, RunEvent::Started(pid)) => RunPhase::AwaitReady { pid: *pid },
            (RunPhase::Start, RunEvent::StartFailed(why)) => {
                let mut message = "failed to start mount: ".to_string();
                message.append(why.as_str());
                entry = Some(LogEntry::error(message));
                backoff = longer;
                RunPhase::Sleep { base: self.backoff }
            },
            (RunPhase::AwaitReady { pid }, RunEvent::Ready(ready)) => {
                if *ready {
                    let mut message = "mount ready pid=".to_string();
                    push_decimal(&mut message, pid as u64);
                    entry = Some(LogEntry::info(message));
                    if has_config_path && config.change_feed.enabled {
                        RunPhase::StartFeed { pid }
                    } else {
                        RunPhase::Supervise { pid }
                    }
                } else {
                    let mut message = "mount pid=".to_string();
                    push_decimal(&mut message, pid as u64);
                    message.append(" did not become ready");
                    entry = Some(LogEntry::warn(message));
                    RunPhase::StopUnready
                }
            },
            (RunPhase::AwaitReady { .. }, RunEvent::Failed) => RunPhase::Failed,
            (RunPhase::StopUnready, RunEvent::Done) => {
                backoff = longer;
                RunPhase::Sleep { base: self.backoff }
            },
            (RunPhase::StartFeed { pid }, RunEvent::FeedStarted) => RunPhase::Supervise { pid },
            (RunPhase::StartFeed { pid }, RunEvent::FeedFailed(why)) => {
                let mut message = "change feed did not start: ".to_string();
                message.append(why.as_str());
                entry = Some(LogEntry::warn(message));
                RunPhase::Supervise { pid }
            },
            (RunPhase::Supervise { pid }, RunEvent::Ended { reason, stable_for }) => {
                let mut message = "mount ended/recycled pid=".to_string();
                push_decimal(&mut message, pid as u64);
                message.append(": ");
                message.append(reason.as_str());
                message.append("; stable_for=");
                push_decimal(&mut message, *stable_for);
                message.append("s");
                entry = Some(LogEntry::warn(message));
                RunPhase::StopFeed { stable_for: *stable_for }
            },
            (RunPhase::Supervise { .. }, RunEvent::Failed) => RunPhase::Failed,
            (RunPhase::StopFeed { stable_for }, RunEvent::Done) => RunPhase::StopMount {
                stable_for,
            },
            (RunPhase::StopMount { stable_for }, RunEvent::Done) => RunPhase::CleanUpAfter {
                stable_for,
            },
            (RunPhase::CleanUpAfter { stable_for }, RunEvent::CleanedUp(_)) => {
                RunPhase::CheckStopAfter { stable_for }
            },
            (RunPhase::CheckStopAfter { stable_for }, RunEvent::StopRequested(stop)) => {
                if *stop {
                    entry = Some(LogEntry::info("service supervisor stopped".to_string()));
                    RunPhase::Stopped
                } else {
                    backoff = if stable_for >= config.health.stable_reset_secs {
                        config.health.backoff_initial_secs
                    } else {
                        longer
                    };
                    RunPhase::Sleep { base: backoff }
                }
            },
            (RunPhase::Sleep { .. }, RunEvent::Done) => RunPhase::CheckStop,
            (phase, _) => phase,
        };
        (RunState { phase, backoff }, entry)
    }
}

/// Whether a process of rclone runs, as far as the supervisor knows, in a phase.
pub open spec fn holds_mount(phase: RunPhase) -> bool {
    ||| phase is AwaitReady
    ||| phase is StopUnready
    ||| phase is StartFeed
    ||| phase is Supervise
    ||| phase is StopFeed
    ||| phase is StopMount
}

/// A mount is started only at a mount point that was found free, and only while no other
/// process of the supervisor holds it. A mount that was started is stopped before anything
/// else is started and before the supervisor ends, unless the supervisor fails; and the
/// supervisor ends in good order only where a stop was requested.
pub proof fn law_one_mount_at_a_time(
    state: RunState,
    config: Config,
    has_config_path: bool,
    event: RunEventView,
)
    ensures
        ({
            let next = after_run(state, config, has_config_path, event);
            &&& next.phase is Start && !(state.phase is Start) ==> state.phase is CleanUp
                && event == RunEventView::CleanedUp(true)
            &&& !holds_mount(state.phase) && holds_mount(next.phase) ==> state.phase is Start
                && event is Started
            &&& holds_mount(state.phase) && !holds_mount(next.phase) ==> next.phase is Failed || ((
            state.phase is StopUnready || state.phase is StopMount) && event is Done)
            &&& next.phase is Stopped && !(state.phase is Stopped) ==> event
                == RunEventView::StopRequested(true)
        }),
{
}

/// Waits stay between the first wait and the longest, whatever happens.
pub proof fn law_backoff_is_bounded(
    state: RunState,
    config: Config,
    has_config_path: bool,
    event: RunEventView,
)
    requires
        config.health.backoff_initial_secs <= config.health.backoff_max_secs,
        config.health.backoff_initial_secs <= state.backoff <= config.health.backoff_max_secs,
    ensures
        ({
            let next = after_run(state, config, has_config_path, event);
            &&& config.health.backoff_initial_secs <= next.backoff
                <= config.health.backoff_max_secs
            &&& next.phase != state.phase && next.phase is Sleep
                ==> config.health.backoff_initial_secs <= next.phase->base
                <= config.health.backoff_max_secs
        }),
{
}

/// What can keep a mount from running for long.
pub enum Setback {
    /// rclone was not started.
    NotStarted(Seq<char>),
    /// rclone ran as a process, and the mount did not become ready.
    NotReady(u32),
    /// The mount of a process became ready and ended for a reason after so many seconds.
    Ended(u32, Seq<char>, u64),
}

impl Setback {
    /// Whether a mount ended only after it ran long enough.
    pub open spec fn ran_long(self, config: Config) -> bool {
        self matches Setback::Ended(_, _, stable_for) && stable_for
            >= config.health.stable_reset_secs
    }
}

/// Where the supervisor stands when it has dealt with a setback: it is about to wait.
pub open spec fn set_back(
    state: RunState,
    config: Config,
    has_config_path: bool,
    setback: Setback,
) -> RunState {
    let step = |from: RunState, event: RunEventView|
        after_run(from, config, has_config_path, event);
    let going = step(state, RunEventView::StopRequested(false));
    let free = step(going, RunEventView::CleanedUp(true));
    match setback {
        Setback::NotStarted(why) => step(free, RunEventView::StartFailed(why)),
        Setback::NotReady(pid) => {
            let started = step(free, RunEventView::Started(pid));
            step(step(started, RunEventView::Ready(false)), RunEventView::Done)
        },
        Setback::Ended(pid, reason, stable_for) => {
            let started = step(free, RunEventView::Started(pid));
            let ready = step(started, RunEventView::Ready(true));
            let fed = step(ready, RunEventView::FeedStarted);
            let ended = step(fed, RunEventView::Ended(reason, stable_for));
            let stopped = step(step(ended, RunEventView::Done), RunEventView::Done);
            let clean = step(stopped, RunEventView::CleanedUp(true));
            step(clean, RunEventView::StopRequested(false))
        },
    }
}

/// Where the supervisor stands after some setbacks in a row, each followed by its wait.
pub open spec fn after_setbacks(
    config: Config,
    has_config_path: bool,
    setbacks: Seq<Setback>,
) -> RunState
    decreases setbacks.len(),
{
    if setbacks.len() == 0 {
        initial_run(config.health)
    } else {
        let before = after_setbacks(config, has_config_path, setbacks.drop_last());
        after_run(
            set_back(before, config, has_config_path, setbacks.last()),
            config,
            has_config_path,
            RunEventView::Done,
        )
    }
}

/// The first wait, doubled so many times, up to the longest.
pub open spec fn doubled_times(health: HealthConfig, times: nat) -> int {
    if health.backoff_initial_secs * pow2(times) <= health.backoff_max_secs {
        health.backoff_initial_secs * pow2(times)
    } else {
        health.backoff_max_secs as int
    }
}

/// Waits grow exponentially, in whatever order rclone is not started, mounts do not become
/// ready and mounts end too soon: each setback in a row doubles the wait until the limit is
/// reached. A mount that ended too soon is waited for with the wait already doubled.
pub proof fn law_backoff_is_exponential(
    config: Config,
    has_config_path: bool,
    setbacks: Seq<Setback>,
    last: Setback,
)
    requires
        config.health.backoff_initial_secs <= config.health.backoff_max_secs,
        forall|i: int| 0 <= i < setbacks.len() ==> !(#[trigger] setbacks[i]).ran_long(config),
        !last.ran_long(config),
    ensures
        ({
            let state = after_setbacks(config, has_config_path, setbacks);
            let waiting = set_back(state, config, has_config_path, last);
            &&& state.phase is CheckStop
            &&& state.backoff == doubled_times(config.health, setbacks.len())
            &&& waiting.phase is Sleep
            &&& waiting.backoff == doubled_times(config.health, setbacks.len() + 1)
            &&& waiting.phase->base == if last is Ended {
                doubled_times(config.health, setbacks.len() + 1)
            } else {
                doubled_times(config.health, setbacks.len())
            }
        }),
    decreases setbacks.len(),
{
    let n = setbacks.len();
    let initial = config.health.backoff_initial_secs;
    let p = pow2(n) as int;
    lemma_pow2_unfold(n + 1);
    lemma_pow2_pos(n);
    assert(initial * (2 * p) == 2 * (initial * p)) by (nonlinear_arith);
    assert(initial * p >= 0) by (nonlinear_arith)
        requires
            initial >= 0,
            p >= 0,
    ;
    if n == 0 {
        vstd::arithmetic::power2::lemma2_to64();
    } else {
        let before = setbacks.drop_last();
        assert forall|i: int| 0 <= i < before.len() implies !(#[trigger] before[i]).ran_long(
            config,
        ) by {
            assert(before[i] == setbacks[i]);
        }
        law_backoff_is_exponential(config, has_config_path, before, setbacks.last());
    }
}

/// A mount that ran long enough makes the next wait the first one again.
pub proof fn law_stable_mount_resets_backoff(
    state: RunState,
    config: Config,
    has_config_path: bool,
)
    requires
        state.phase is CheckStopAfter,
        state.phase->CheckStopAfter_stable_for >= config.health.stable_reset_secs,
    ensures
        ({
            let next = after_run(
                state,
                config,
                has_config_path,
                RunEventView::StopRequested(false),
            );
            &&& next.backoff == config.health.backoff_initial_secs
            &&& next.phase == RunPhase::Sleep { base: config.health.backoff_initial_secs }
        }),
{
}

/// A stop that was requested is obeyed wherever it is looked for: the supervisor ends there
/// and says so, and nothing is cleaned up or started any more. Only where no stop was
/// requested does the supervisor go round once more.
pub proof fn law_stop_is_obeyed(
    state: RunState,
    config: Config,
    has_config_path: bool,
    event: RunEventView,
)
    ensures
        ({
            let next = after_run(state, config, has_config_path, event);
            let looks = state.phase is CheckStop || state.phase is CheckStopAfter;
            &&& looks && event == RunEventView::StopRequested(true) ==> next == (RunState {
                phase: RunPhase::Stopped,
                backoff: state.backoff,
            }) && run_entry(state, config, event) == info_entry("service supervisor stopped"@)
            &&& state.phase is CheckStop && event == RunEventView::StopRequested(false)
                ==> next.phase is CleanUp
            &&& state.phase is CheckStopAfter && event == RunEventView::StopRequested(false)
                ==> next.phase is Sleep
            &&& next.phase is CleanUp && !(state.phase is CleanUp) ==> state.phase is CheckStop
                && event == RunEventView::StopRequested(false)
            &&& next.phase is Stopped && !(state.phase is Stopped) ==> looks && event
                == RunEventView::StopRequested(true)
            &&& state.phase is Stopped || state.phase is Failed ==> next == state
        }),
{
}

/// A mount that is started is followed through: from the free mount point to the process that
/// is watched, which is the one that was started, and from its end through stopping and
/// cleaning up to the question whether to stop, with the time that it ran. Whether the change
/// feed starts and whether cleaning up succeeds does not matter, and no wait grows on the way.
pub proof fn law_mount_is_followed_through(
    state: RunState,
    config: Config,
    has_config_path: bool,
    pid: u32,
    feed: RunEventView,
    reason: Seq<char>,
    stable_for: u64,
    free: bool,
)
    requires
        state.phase is CheckStop,
        feed is FeedStarted || feed is FeedFailed,
    ensures
        ({
            let step = |from: RunState, event: RunEventView|
                after_run(from, config, has_config_path, event);
            let going = step(state, RunEventView::StopRequested(false));
            let cleaned = step(going, RunEventView::CleanedUp(true));
            let started = step(cleaned, RunEventView::Started(pid));
            let ready = step(started, RunEventView::Ready(true));
            let watched = step(ready, feed);
            let ended = step(watched, RunEventView::Ended(reason, stable_for));
            let unfed = step(ended, RunEventView::Done);
            let stopped = step(unfed, RunEventView::Done);
            let clean = step(stopped, RunEventView::CleanedUp(free));
            &&& cleaned.phase is Start
            &&& started.phase == (RunPhase::AwaitReady { pid })
            &&& ready.phase == if has_config_path && config.change_feed.enabled {
                RunPhase::StartFeed { pid }
            } else {
                RunPhase::Supervise { pid }
            }
            &&& watched == (RunState {
                phase: RunPhase::Supervise { pid },
                backoff: state.backoff,
            })
            &&& ended.phase == (RunPhase::StopFeed { stable_for })
            &&& unfed.phase == (RunPhase::StopMount { stable_for })
            &&& stopped.phase == (RunPhase::CleanUpAfter { stable_for })
            &&& clean == (RunState {
                phase: RunPhase::CheckStopAfter { stable_for },
                backoff: state.backoff,
            })
            &&& step(clean, RunEventView::StopRequested(true)).phase is Stopped
        }),
{
}

/// A mount that does not become ready is stopped and waited for as long as failures cost then,
/// and so is one that could not be started. Behind every wait it is looked again whether to
/// stop.
pub proof fn law_failed_start_is_waited_for(
    state: RunState,
    config: Config,
    has_config_path: bool,
    why: Seq<char>,
)
    ensures
        ({
            let step = |from: RunState, event: RunEventView|
                after_run(from, config, has_config_path, event);
            let unready = step(state, RunEventView::Ready(false));
            &&& state.phase is Start ==> {
                let next = step(state, RunEventView::StartFailed(why));
                &&& next.phase == (RunPhase::Sleep { base: state.backoff })
                &&& next.backoff == config.health.backoff_max_secs || next.backoff == 2
                    * state.backoff
                &&& next.backoff <= config.health.backoff_max_secs
                &&& 2 * state.backoff <= config.health.backoff_max_secs ==> next.backoff == 2
                    * state.backoff
            }
            &&& state.phase is AwaitReady ==> unready == (RunState {
                phase: RunPhase::StopUnready,
                backoff: state.backoff,
            })
            &&& state.phase is AwaitReady ==> step(unready, RunEventView::Done).phase == (
            RunPhase::Sleep { base: state.backoff })
            &&& state.phase is Sleep ==> step(state, RunEventView::Done) == (RunState {
                phase: RunPhase::CheckStop,
                backoff: state.backoff,
            })
        }),
{
}

/// The supervisor fails where the mount point is not free before a start, and where the state
/// of a process cannot be read while it is waited for or watched; nowhere else.
pub proof fn law_supervisor_fails_only_where_it_must(
    state: RunState,
    config: Config,
    has_config_path: bool,
    event: RunEventView,
)
    requires
        !(state.phase is Failed),
    ensures
        after_run(state, config, has_config_path, event).phase is Failed <==> ((state.phase
            is CleanUp && event == RunEventView::CleanedUp(false)) || ((state.phase is AwaitReady
            || state.phase is Supervise) && event is Failed)),
{
}

/// What happens counts only where it was waited for: the supervisor stays as it is where an
/// event is not the outcome of the work at hand.
pub proof fn law_only_awaited_events_count(
    state: RunState,
    config: Config,
    has_config_path: bool,
    event: RunEventView,
)
    ensures
        ({
            let phase = state.phase;
            let awaited = match event {
                RunEventView::StopRequested(_) => phase is CheckStop || phase is CheckStopAfter,
                RunEventView::CleanedUp(_) => phase is CleanUp || phase is CleanUpAfter,
                RunEventView::Started(_) => phase is Start,
                RunEventView::StartFailed(_) => phase is Start,
                RunEventView::Ready(_) => phase is AwaitReady,
                RunEventView::FeedStarted => phase is StartFeed,
                RunEventView::FeedFailed(_) => phase is StartFeed,
                RunEventView::Ended(_, _) => phase is Supervise,
                RunEventView::Done => phase is StopUnready || phase is StopFeed
                    || phase is StopMount || phase is Sleep,
                RunEventView::Failed => phase is AwaitReady || phase is Supervise,
            };
            &&& !awaited ==> after_run(state, config, has_config_path, event) == state
            &&& !awaited ==> run_entry(state, config, event) is None
            &&& awaited ==> after_run(state, config, has_config_path, event).phase != phase
        }),
{
}

/// A mount that ended is waited for with the first wait where it ran long enough, and with
/// twice the last one, up to the longest, where it did not.
pub proof fn law_ended_mount_is_waited_for(
    backoff: u64,
    config: Config,
    has_config_path: bool,
    stable_for: u64,
)
    ensures
        ({
            let state = RunState { phase: RunPhase::CheckStopAfter { stable_for }, backoff };
            let next = after_run(
                state,
                config,
                has_config_path,
                RunEventView::StopRequested(false),
            );
            &&& next.phase == (RunPhase::Sleep { base: next.backoff })
            &&& stable_for >= config.health.stable_reset_secs ==> next.backoff
                == config.health.backoff_initial_secs
            &&& stable_for < config.health.stable_reset_secs ==> next.backoff
                <= config.health.backoff_max_secs && (next.backoff == 2 * backoff || (2 * backoff
                > config.health.backoff_max_secs && next.backoff
                == config.health.backoff_max_secs))
        }),
{
}

/// A wait is never shorter than asked for, and jitter adds a second for each quarter of a
/// second that the clock has gone into the current one: at most three. There is no wait of
/// less than a second.
pub proof fn law_jitter_is_small(base: u64, millis: u32)
    ensures
        1 <= jittered(base, millis),
        base <= jittered(base, millis),
        1 <= base <= u64::MAX - 3 ==> ({
            let extra = jittered(base, millis) - base;
            250 * extra <= millis % 1000 < 250 * (extra + 1)
        }),
        base == 0 ==> jittered(base, millis) <= 3,
{
}

/// What happens to a mount is told: what is mounted where before it is started, which process
/// became ready or did not, why and after how long one ended, and what could not be started.
/// What goes wrong is told as a warning or an error.
pub proof fn law_supervisor_tells_what_happens(
    backoff: u64,
    config: Config,
    pid: u32,
    reason: Seq<char>,
    stable_for: u64,
)
    ensures
        ({
            let told = |phase: RunPhase, event: RunEventView|
                run_entry(RunState { phase, backoff }, config, event);
            let starting = told(RunPhase::CleanUp, RunEventView::CleanedUp(true));
            let refused = told(RunPhase::Start, RunEventView::StartFailed(reason));
            let ready = told(RunPhase::AwaitReady { pid }, RunEventView::Ready(true));
            let unready = told(RunPhase::AwaitReady { pid }, RunEventView::Ready(false));
            let unfed = told(RunPhase::StartFeed { pid }, RunEventView::FeedFailed(reason));
            let ended = told(
                RunPhase::Supervise { pid },
                RunEventView::Ended(reason, stable_for),
            );
            &&& starting is Some && starting->0.level is Info
            &&& has_text(starting->0.message, config.mount.remote@) && has_text(
                starting->0.message,
                config.mount.mount_point@,
            )
            &&& refused is Some && refused->0.level is Error && has_text(refused->0.message, reason)
            &&& ready is Some && ready->0.level is Info && has_text(
                ready->0.message,
                decimal(pid as nat),
            )
            &&& unready is Some && unready->0.level is Warn && has_text(
                unready->0.message,
                decimal(pid as nat),
            )
            &&& unfed is Some && unfed->0.level is Warn && has_text(unfed->0.message, reason)
            &&& ended is Some && ended->0.level is Warn
            &&& has_text(ended->0.message, "pid="@ + decimal(pid as nat) + ": "@ + reason)
            &&& has_text(ended->0.message, "stable_for="@ + decimal(stable_for as nat) + "s"@)
        }),
{
    let none = Seq::<char>::empty();
    let p = decimal(pid as nat);
    let s = decimal(stable_for as nat);
    let remote = config.mount.remote@;
    let point = config.mount.mount_point@;
    let start = "starting rclone mount remote="@;
    let at = " mount_point="@;
    assert(start + remote + at + point =~= start + remote + (at + point));
    lemma_has_between(start, remote, at + point);
    assert(start + remote + at + point =~= (start + remote + at) + point + none);
    lemma_has_between(start + remote + at, point, none);
    assert("failed to start mount: "@ + reason =~= "failed to start mount: "@ + reason + none);
    lemma_has_between("failed to start mount: "@, reason, none);
    assert("mount ready pid="@ + p =~= "mount ready pid="@ + p + none);
    lemma_has_between("mount ready pid="@, p, none);
    lemma_has_between("mount pid="@, p, " did not become ready"@);
    assert("change feed did not start: "@ + reason =~= "change feed did not start: "@ + reason
        + none);
    lemma_has_between("change feed did not start: "@, reason, none);
    reveal_strlit("mount ended/recycled pid=");
    reveal_strlit("mount ended/recycled ");
    reveal_strlit("pid=");
    reveal_strlit("; stable_for=");
    reveal_strlit("; ");
    reveal_strlit("stable_for=");
    let message = "mount ended/recycled pid="@ + p + ": "@ + reason + "; stable_for="@ + s + "s"@;
    let first = "pid="@ + p + ": "@ + reason;
    let last = "stable_for="@ + s + "s"@;
    assert(message =~= "mount ended/recycled "@ + first + ("; stable_for="@ + s + "s"@));
    lemma_has_between("mount ended/recycled "@, first, "; stable_for="@ + s + "s"@);
    let front = "mount ended/recycled pid="@ + p + ": "@ + reason + "; "@;
    assert(message =~= front + last + none);
    lemma_has_between(front, last, none);
}

} // verus!
