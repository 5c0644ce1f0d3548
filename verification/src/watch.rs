//! How a mount that was started is waited for, watched and stopped, as machines that are
//! told what happened and say what to do next.

use crate::config::Config;
use crate::logger::{
    entry_view, error_entry, info_entry, warn_entry, EntryView, LogEntry,
};
use crate::text::{
    all_of_kind, chars_of, decimal, digit_value, find, has_text, law_decimal_reads_back, lemma_find_from,
    lemma_has_between, number, occurs_at, of_kind, position_of, push_decimal, read_number, string_of, to_digit_value,
    trim_start_kind, trimmed_start, CharKind,
};
use vstd::prelude::*;

verus! {

/// What is done while a mount is waited for.
#[derive(Clone, Copy, Debug, PartialEq, Eq, Structural)]
pub enum ReadyPhase {
    /// See whether there is time left and whether a stop was requested.
    Look,
    /// See whether rclone still runs.
    CheckChild,
    /// Probe the mount point.
    Probe,
    /// Wait a second, or until a stop is requested.
    Pause,
    /// The mount answers.
    Ready,
    /// The mount is given up.
    NotReady,
}

/// What was found while a mount was waited for.
#[derive(Clone, Debug)]
pub enum ReadyEvent {
    Looked { in_time: bool, stop: bool },
    ChildRuns,
    ChildExited(String),
    Probed(bool),
    Paused,
}

/// What was found while a mount was waited for, by its text.
#[verifier::ext_equal]
pub enum ReadyEventView {
    Looked(bool, bool),
    ChildRuns,
    ChildExited(Seq<char>),
    Probed(bool),
    Paused,
}

impl View for ReadyEvent {
    type V = ReadyEventView;

    open spec fn view(&self) -> ReadyEventView {
        match self {
            ReadyEvent::Looked { in_time, stop } => ReadyEventView::Looked(*in_time, *stop),
            ReadyEvent::ChildRuns => ReadyEventView::ChildRuns,
            ReadyEvent::ChildExited(status) => ReadyEventView::ChildExited(status@),
            ReadyEvent::Probed(answers) => ReadyEventView::Probed(*answers),
            ReadyEvent::Paused => ReadyEventView::Paused,
        }
    }
}

/// The phase after an event. An event that does not end the phase changes nothing.
pub open spec fn after_waiting(phase: ReadyPhase, event: ReadyEventView) -> ReadyPhase {
    match (phase, event) {
        (ReadyPhase::Look, ReadyEventView::Looked(in_time, stop)) => if in_time && !stop {
            ReadyPhase::CheckChild
        } else {
            ReadyPhase::NotReady
        },
        (ReadyPhase::CheckChild, ReadyEventView::ChildRuns) => ReadyPhase::Probe,
        (ReadyPhase::CheckChild, ReadyEventView::ChildExited(_)) => ReadyPhase::NotReady,
        (ReadyPhase::Probe, ReadyEventView::Probed(answers)) => if answers {
            ReadyPhase::Ready
        } else {
            ReadyPhase::Pause
        },
        (ReadyPhase::Pause, ReadyEventView::Paused) => ReadyPhase::Look,
        _ => phase,
    }
}

/// What is logged when an event ends a phase.
pub open spec fn waiting_entry(phase: ReadyPhase, event: ReadyEventView) -> Option<EntryView> {
    match (phase, event) {
        (ReadyPhase::CheckChild, ReadyEventView::ChildExited(status)) => error_entry(
            "rclone exited during startup: "@ + status,
        ),
        _ => None,
    }
}

impl ReadyPhase {
    /// What follows an event, and what is logged of it.
    pub fn advance(self, event: &ReadyEvent) -> (next: (ReadyPhase, Option<LogEntry>))
        ensures
            next.0 == after_waiting(self, event@),
            entry_view(next.1) == waiting_entry(self, event@),
    {
        match (self, event) {
            (ReadyPhase::Look, ReadyEvent::Looked { in_time, stop }) => if *in_time && !*stop {
                (ReadyPhase::CheckChild, None)
            } else {
                (ReadyPhase::NotReady, None)
            },
            (ReadyPhase::CheckChild, ReadyEvent::ChildRuns) => (ReadyPhase::Probe, None),
            (ReadyPhase::CheckChild, ReadyEvent::ChildExited(status)) => {
                let mut message = "rclone exited during startup: ".to_string();
                message.append(status.as_str());
                (ReadyPhase::NotReady, Some(LogEntry::error(message)))
            },
            (ReadyPhase::Probe, ReadyEvent::Probed(answers)) => if *answers {
                (ReadyPhase::Ready, None)
            } else {
                (ReadyPhase::Pause, None)
            },
            (ReadyPhase::Pause, ReadyEvent::Paused) => (ReadyPhase::Look, None),
            (phase, _) => (phase, None),
        }
    }
}

/// A mount counts as ready only where a probe answered while rclone was running and there
/// was time left.
pub proof fn law_ready_means_probed(phase: ReadyPhase, event: ReadyEventView)
    ensures
        after_waiting(phase, event) is Ready && !(phase is Ready) ==> phase is Probe && event
            == ReadyEventView::Probed(true),
        after_waiting(phase, event) is Probe && !(phase is Probe) ==> phase is CheckChild
            && event is ChildRuns,
        after_waiting(phase, event) is CheckChild && !(phase is CheckChild) ==> event
            == ReadyEventView::Looked(true, false),
{
}

/// What is done while a mount is watched.
#[derive(Clone, Debug)]
pub enum WatchPhase {
    /// See whether a stop was requested.
    CheckStop,
    /// See whether rclone still runs.
    CheckChild,
    /// See whether the change feed still runs.
    CheckFeed,
    /// Start the change feed anew.
    RestartFeed,
    /// Give up the change feed.
    DropFeed,
    /// See whether the next probe is due.
    CheckClock,
    /// Probe the mount point.
    Probe,
    /// Wait a second, or until a stop is requested.
    Pause,
    /// The mount ended, or is to be ended.
    Ended { reason: String },
}

/// What is done while a mount is watched, by its text.
#[verifier::ext_equal]
pub enum WatchPhaseView {
    CheckStop,
    CheckChild,
    CheckFeed,
    RestartFeed,
    DropFeed,
    CheckClock,
    Probe,
    Pause,
    Ended(Seq<char>),
}

impl View for WatchPhase {
    type V = WatchPhaseView;

    open spec fn view(&self) -> WatchPhaseView {
        match self {
            WatchPhase::CheckStop => WatchPhaseView::CheckStop,
            WatchPhase::CheckChild => WatchPhaseView::CheckChild,
            WatchPhase::CheckFeed => WatchPhaseView::CheckFeed,
            WatchPhase::RestartFeed => WatchPhaseView::RestartFeed,
            WatchPhase::DropFeed => WatchPhaseView::DropFeed,
            WatchPhase::CheckClock => WatchPhaseView::CheckClock,
            WatchPhase::Probe => WatchPhaseView::Probe,
            WatchPhase::Pause => WatchPhaseView::Pause,
            WatchPhase::Ended { reason } => WatchPhaseView::Ended(reason@),
        }
    }
}

/// What was found while a mount was watched.
#[derive(Clone, Debug)]
pub enum WatchEvent {
    StopRequested(bool),
    ChildRuns,
    ChildExited(String),
    FeedMissing,
    FeedRuns,
    FeedExited(String),
    FeedStarted,
    FeedFailed(String),
    FeedDropped,
    ProbeDue(bool),
    Probed(bool),
    Paused,
}

/// What was found while a mount was watched, by its text.
#[verifier::ext_equal]
pub enum WatchEventView {
    StopRequested(bool),
    ChildRuns,
    ChildExited(Seq<char>),
    FeedMissing,
    FeedRuns,
    FeedExited(Seq<char>),
    FeedStarted,
    FeedFailed(Seq<char>),
    FeedDropped,
    ProbeDue(bool),
    Probed(bool),
    Paused,
}

impl View for WatchEvent {
    type V = WatchEventView;

    open spec fn view(&self) -> WatchEventView {
        match self {
            WatchEvent::StopRequested(yes) => WatchEventView::StopRequested(*yes),
            WatchEvent::ChildRuns => WatchEventView::ChildRuns,
            WatchEvent::ChildExited(status) => WatchEventView::ChildExited(status@),
            WatchEvent::FeedMissing => WatchEventView::FeedMissing,
            WatchEvent::FeedRuns => WatchEventView::FeedRuns,
            WatchEvent::FeedExited(status) => WatchEventView::FeedExited(status@),
            WatchEvent::FeedStarted => WatchEventView::FeedStarted,
            WatchEvent::FeedFailed(why) => WatchEventView::FeedFailed(why@),
            WatchEvent::FeedDropped => WatchEventView::FeedDropped,
            WatchEvent::ProbeDue(yes) => WatchEventView::ProbeDue(*yes),
            WatchEvent::Probed(answers) => WatchEventView::Probed(*answers),
            WatchEvent::Paused => WatchEventView::Paused,
        }
    }
}

/// A mount under watch: what is done now, and how many probes in a row have failed.
#[derive(Clone, Debug)]
pub struct Watch {
    pub phase: WatchPhase,
    pub failures: u32,
}

/// A mount under watch, by its text.
#[verifier::ext_equal]
pub struct WatchView {
    pub phase: WatchPhaseView,
    pub failures: u32,
}

impl View for Watch {
    type V = WatchView;

    open spec fn view(&self) -> WatchView {
        WatchView { phase: self.phase@, failures: self.failures }
    }
}

/// The state in which a watch begins.
pub open spec fn initial_watch() -> WatchView {
    WatchView { phase: WatchPhaseView::CheckStop, failures: 0 }
}

impl WatchView {
    /// A mount that has not ended has failed fewer probes in a row than it may.
    pub open spec fn well_formed(self, threshold: u32) -> bool {
        self.phase is Ended || self.failures == 0 || self.failures < threshold
    }
}

/// The state after an event. An event that does not end the phase changes nothing.
pub open spec fn after_watching(
    watch: WatchView,
    config: Config,
    has_config_path: bool,
    event: WatchEventView,
) -> WatchView {
    let restart = if has_config_path {
        WatchPhaseView::RestartFeed
    } else {
        WatchPhaseView::DropFeed
    };
    match (watch.phase, event) {
        (WatchPhaseView::CheckStop, WatchEventView::StopRequested(true)) => WatchView {
            phase: WatchPhaseView::Ended("service stop requested"@),
            ..watch
        },
        (WatchPhaseView::CheckStop, WatchEventView::StopRequested(false)) => WatchView {
            phase: WatchPhaseView::CheckChild,
            ..watch
        },
        (WatchPhaseView::CheckChild, WatchEventView::ChildExited(status)) => WatchView {
            phase: WatchPhaseView::Ended("rclone exited with "@ + status),
            ..watch
        },
        (WatchPhaseView::CheckChild, WatchEventView::ChildRuns) => WatchView {
            phase: if config.change_feed.enabled {
                WatchPhaseView::CheckFeed
            } else {
                WatchPhaseView::CheckClock
            },
            ..watch
        },
        (WatchPhaseView::CheckFeed, WatchEventView::FeedRuns) => WatchView {
            phase: WatchPhaseView::CheckClock,
            ..watch
        },
        (WatchPhaseView::CheckFeed, WatchEventView::FeedMissing) => WatchView {
            phase: restart,
            ..watch
        },
        (WatchPhaseView::CheckFeed, WatchEventView::FeedExited(_)) => WatchView {
            phase: restart,
            ..watch
        },
        (WatchPhaseView::RestartFeed, WatchEventView::FeedStarted) => WatchView {
            phase: WatchPhaseView::CheckClock,
            ..watch
        },
        (WatchPhaseView::RestartFeed, WatchEventView::FeedFailed(_)) => WatchView {
            phase: WatchPhaseView::CheckClock,
            ..watch
        },
        (WatchPhaseView::DropFeed, WatchEventView::FeedDropped) => WatchView {
            phase: WatchPhaseView::CheckClock,
            ..watch
        },
        (WatchPhaseView::CheckClock, WatchEventView::ProbeDue(due)) => WatchView {
            phase: if due {
                WatchPhaseView::Probe
            } else {
                WatchPhaseView::Pause
            },
            ..watch
        },
        (WatchPhaseView::Probe, WatchEventView::Probed(true)) => WatchView {
            phase: WatchPhaseView::Pause,
            failures: 0,
        },
        (WatchPhaseView::Probe, WatchEventView::Probed(false)) => {
            let failures = (watch.failures + 1) as u32;
            WatchView {
                phase: if failures >= config.health.failure_threshold {
                    WatchPhaseView::Ended(
                        "health failed "@ + decimal(failures as nat) + " consecutive probes"@,
                    )
                } else {
                    WatchPhaseView::Pause
                },
                failures,
            }
        },
        (WatchPhaseView::Pause, WatchEventView::Paused) => WatchView {
            phase: WatchPhaseView::CheckStop,
            ..watch
        },
        _ => watch,
    }
}

/// What is logged when an event ends a phase.
pub open spec fn watching_entry(watch: WatchView, config: Config, event: WatchEventView) -> Option<
    EntryView,
> {
    match (watch.phase, event) {
        (WatchPhaseView::CheckFeed, WatchEventView::FeedExited(status)) => warn_entry(
            "change feed exited with "@ + status + "; restarting"@,
        ),
        (WatchPhaseView::RestartFeed, WatchEventView::FeedFailed(why)) => warn_entry(
            "change feed restart failed: "@ + why,
        ),
        (WatchPhaseView::Probe, WatchEventView::Probed(true)) => if watch.failures > 0 {
            info_entry(
                "mount health recovered after "@ + decimal(watch.failures as nat)
                    + " failed probe(s)"@,
            )
        } else {
            None
        },
        (WatchPhaseView::Probe, WatchEventView::Probed(false)) => warn_entry(
            "mount health probe failed ("@ + decimal((watch.failures + 1) as nat) + "/"@ + decimal(
                config.health.failure_threshold as nat,
            ) + ")"@,
        ),
        _ => None,
    }
}

impl Watch {
    /// The state in which a watch begins.
    pub fn new() -> (watch: Self)
        ensures
            watch@ == initial_watch(),
    {
        Watch { phase: WatchPhase::CheckStop, failures: 0 }
    }

    /// Goes on to what follows an event, and returns what is logged of it.
    pub fn advance(&mut self, config: &Config, has_config_path: bool, event: &WatchEvent) -> (entry:
        Option<LogEntry>)
        requires
            old(self)@.well_formed(config.health.failure_threshold),
        ensures
            final(self)@ == after_watching(old(self)@, *config, has_config_path, event@),
            final(self)@.well_formed(config.health.failure_threshold),
            entry_view(entry) == watching_entry(old(self)@, *config, event@),
    {
        let mut entry: Option<LogEntry> = None;
        let mut failures: u32 = self.failures;
        let phase = match (&self.phase, event) {
            (WatchPhase::CheckStop, WatchEvent::StopRequested(stop)) => if *stop {
                Some(WatchPhase::Ended { reason: "service stop requested".to_string() })
            } else {
                Some(WatchPhase::CheckChild)
            },
            (WatchPhase::CheckChild, WatchEvent::ChildExited(status)) => {
                let mut reason = "rclone exited with ".to_string();
                reason.append(status.as_str());
                Some(WatchPhase::Ended { reason })
            },
            (WatchPhase::CheckChild, WatchEvent::ChildRuns) => if config.change_feed.enabled {
                Some(WatchPhase::CheckFeed)
            } else {
                Some(WatchPhase::CheckClock)
            },
            (WatchPhase::CheckFeed, WatchEvent::FeedRuns) => Some(WatchPhase::CheckClock),
            (WatchPhase::CheckFeed, WatchEvent::FeedMissing) => if has_config_path {
                Some(WatchPhase::RestartFeed)
            } else {
                Some(WatchPhase::DropFeed)
            },
            (WatchPhase::CheckFeed, WatchEvent::FeedExited(status)) => {
                let mut message = "change feed exited with ".to_string();
                message.append(status.as_str());
                message.append("; restarting");
                entry = Some(LogEntry::warn(message));
                if has_config_path {
                    Some(WatchPhase::RestartFeed)
                } else {
                    Some(WatchPhase::DropFeed)
                }
            },
            (WatchPhase::RestartFeed, WatchEvent::FeedStarted) => Some(WatchPhase::CheckClock),
            (WatchPhase::RestartFeed, WatchEvent::FeedFailed(why)) => {
                let mut message = "change feed restart failed: ".to_string();
                message.append(why.as_str());
                entry = Some(LogEntry::warn(message));
                Some(WatchPhase::CheckClock)
            },
            (WatchPhase::DropFeed, WatchEvent::FeedDropped) => Some(WatchPhase::CheckClock),
            (WatchPhase::CheckClock, WatchEvent::ProbeDue(due)) => if *due {
                Some(WatchPhase::Probe)
            } else {
                Some(WatchPhase::Pause)
            },
            (WatchPhase::Probe, WatchEvent::Probed(answers)) => if *answers {
                if failures > 0 {
                    let mut message = "mount health recovered after ".to_string();
                    push_decimal(&mut message, failures as u64);
                    message.append(" failed probe(s)");
                    entry = Some(LogEntry::info(message));
                }
                failures = 0;
                Some(WatchPhase::Pause)
            } else {
                failures = failures + 1;
                let mut message = "mount health probe failed (".to_string();
                push_decimal(&mut message, failures as u64);
                message.append("/");
                push_decimal(&mut message, config.health.failure_threshold as u64);
                message.append(")");
                entry = Some(LogEntry::warn(message));
                if failures >= config.health.failure_threshold {
                    let mut reason = "health failed ".to_string();
                    push_decimal(&mut reason, failures as u64);
                    reason.append(" consecutive probes");
                    Some(WatchPhase::Ended { reason })
                } else {
                    Some(WatchPhase::Pause)
                }
            },
            (WatchPhase::Pause, WatchEvent::Paused) => Some(WatchPhase::CheckStop),
            _ => None,
        };
        match phase {
            Some(phase) => {
                self.phase = phase;
                self.failures = failures;
            },
            None => {},
        }
        entry
    }
}

/// A mount that stays up is given up for its health exactly when as many probes in a row
/// have failed as the configuration allows; a probe that answers starts the count anew.
pub proof fn law_recycled_at_threshold(
    watch: WatchView,
    config: Config,
    has_config_path: bool,
    answers: bool,
)
    requires
        watch.phase is Probe,
        config.health.failure_threshold > 0,
        watch.well_formed(config.health.failure_threshold),
    ensures
        ({
            let next = after_watching(
                watch,
                config,
                has_config_path,
                WatchEventView::Probed(answers),
            );
            &&& next.failures == if answers {
                0
            } else {
                watch.failures + 1
            }
            &&& next.phase is Ended <==> next.failures == config.health.failure_threshold
        }),
{
}

/// Only a probe changes the number of failed probes.
pub proof fn law_only_probes_count(
    watch: WatchView,
    config: Config,
    has_config_path: bool,
    event: WatchEventView,
)
    requires
        !(watch.phase is Probe && event is Probed),
    ensures
        after_watching(watch, config, has_config_path, event).failures == watch.failures,
{
}

/// What is done to stop a mount.
#[derive(Clone, Copy, Debug, PartialEq, Eq, Structural)]
pub enum StopPhase {
    /// See whether rclone still runs.
    CheckChild,
    /// Ask the control endpoint for the process it belongs to.
    AskPid,
    /// Ask the control endpoint to quit, for three seconds at most.
    RequestQuit,
    /// See whether rclone exited and whether there is time left.
    Look,
    /// Wait for 200 milliseconds.
    Pause,
    /// Kill the process.
    Kill,
    /// The mount is stopped.
    Stopped,
}

/// What was found while a mount was stopped.
#[derive(Clone, Copy, Debug, PartialEq, Eq, Structural)]
pub enum StopEvent {
    ChildExited(bool),
    EndpointPid(Option<u32>),
    QuitAccepted(bool),
    Looked { in_time: bool, exited: bool },
    Paused,
    Killed,
}

/// The phase after an event, for a mount that runs as process `pid`. An event that does not
/// end the phase changes nothing.
pub open spec fn after_stopping(phase: StopPhase, pid: u32, event: StopEvent) -> StopPhase {
    match (phase, event) {
        (StopPhase::CheckChild, StopEvent::ChildExited(exited)) => if exited {
            StopPhase::Stopped
        } else {
            StopPhase::AskPid
        },
        (StopPhase::AskPid, StopEvent::EndpointPid(found)) => if found == Some(pid) {
            StopPhase::RequestQuit
        } else {
            StopPhase::Look
        },
        (StopPhase::RequestQuit, StopEvent::QuitAccepted(_)) => StopPhase::Look,
        (StopPhase::Look, StopEvent::Looked { in_time, exited }) => if !in_time {
            StopPhase::Kill
        } else if exited {
            StopPhase::Stopped
        } else {
            StopPhase::Pause
        },
        (StopPhase::Pause, StopEvent::Paused) => StopPhase::Look,
        (StopPhase::Kill, StopEvent::Killed) => StopPhase::Stopped,
        _ => phase,
    }
}

/// What is logged when an event ends a phase.
pub open spec fn stopping_entry(phase: StopPhase, pid: u32, event: StopEvent) -> Option<EntryView> {
    match (phase, event) {
        (StopPhase::AskPid, StopEvent::EndpointPid(Some(found))) => if found == pid {
            info_entry("requesting graceful rclone shutdown pid="@ + decimal(pid as nat))
        } else {
            warn_entry(
                "RC endpoint PID mismatch: expected="@ + decimal(pid as nat) + " actual="@
                    + decimal(found as nat) + "; refusing core/quit"@,
            )
        },
        (StopPhase::AskPid, StopEvent::EndpointPid(None)) => warn_entry(
            "RC endpoint unavailable for pid="@ + decimal(pid as nat)
                + "; falling back to process termination if needed"@,
        ),
        (StopPhase::RequestQuit, StopEvent::QuitAccepted(false)) => warn_entry(
            "RC core/quit failed or timed out for pid="@ + decimal(pid as nat),
        ),
        (StopPhase::Look, StopEvent::Looked { in_time: false, .. }) => warn_entry(
            "graceful shutdown timed out; killing pid="@ + decimal(pid as nat),
        ),
        _ => None,
    }
}

impl StopPhase {
    /// What follows an event, and what is logged of it.
    pub fn advance(self, pid: u32, event: StopEvent) -> (next: (StopPhase, Option<LogEntry>))
        ensures
            next.0 == after_stopping(self, pid, event),
            entry_view(next.1) == stopping_entry(self, pid, event),
    {
        match (self, event) {
            (StopPhase::CheckChild, StopEvent::ChildExited(exited)) => if exited {
                (StopPhase::Stopped, None)
            } else {
                (StopPhase::AskPid, None)
            },
            (StopPhase::AskPid, StopEvent::EndpointPid(Some(found))) => if found == pid {
                let mut message = "requesting graceful rclone shutdown pid=".to_string();
                push_decimal(&mut message, pid as u64);
                (StopPhase::RequestQuit, Some(LogEntry::info(message)))
            } else {
                let mut message = "RC endpoint PID mismatch: expected=".to_string();
                push_decimal(&mut message, pid as u64);
                message.append(" actual=");
                push_decimal(&mut message, found as u64);
                message.append("; refusing core/quit");
                (StopPhase::Look, Some(LogEntry::warn(message)))
            },
            (StopPhase::AskPid, StopEvent::EndpointPid(None)) => {
                let mut message = "RC endpoint unavailable for pid=".to_string();
                push_decimal(&mut message, pid as u64);
                message.append("; falling back to process termination if needed");
                (StopPhase::Look, Some(LogEntry::warn(message)))
            },
            (StopPhase::RequestQuit, StopEvent::QuitAccepted(accepted)) => if accepted {
                (StopPhase::Look, None)
            } else {
                let mut message = "RC core/quit failed or timed out for pid=".to_string();
                push_decimal(&mut message, pid as u64);
                (StopPhase::Look, Some(LogEntry::warn(message)))
            },
            (StopPhase::Look, StopEvent::Looked { in_time, exited }) => if !in_time {
                let mut message = "graceful shutdown timed out; killing pid=".to_string();
                push_decimal(&mut message, pid as u64);
                (StopPhase::Kill, Some(LogEntry::warn(message)))
            } else if exited {
                (StopPhase::Stopped, None)
            } else {
                (StopPhase::Pause, None)
            },
            (StopPhase::Pause, StopEvent::Paused) => (StopPhase::Look, None),
            (StopPhase::Kill, StopEvent::Killed) => (StopPhase::Stopped, None),
            (phase, _) => (phase, None),
        }
    }
}

/// A control endpoint is asked to quit only after it named the very process that is to be
/// stopped. A mount counts as stopped only once its process was seen to exit or was killed.
pub proof fn law_quit_only_own_process(phase: StopPhase, pid: u32, event: StopEvent)
    ensures
        ({
            let next = after_stopping(phase, pid, event);
            &&& next is RequestQuit && !(phase is RequestQuit) ==> phase is AskPid && event
                == StopEvent::EndpointPid(Some(pid))
            &&& next is Stopped && !(phase is Stopped) ==> event == StopEvent::ChildExited(true)
                || event == (StopEvent::Looked { in_time: true, exited: true }) || event
                == StopEvent::Killed
        }),
{
}

/// What stopping a change feed logs: nothing where its process is gone.
pub open spec fn feed_stop_entry(pid: u32, exited: bool) -> Option<EntryView> {
    if exited {
        None
    } else {
        info_entry("stopping change feed pid="@ + decimal(pid as nat))
    }
}

/// What stopping a change feed logs. Where there is nothing to log there is nothing to stop;
/// otherwise the process is killed.
pub fn stop_change_feed(pid: u32, exited: bool) -> (entry: Option<LogEntry>)
    ensures
        entry_view(entry) == feed_stop_entry(pid, exited),
{
    if exited {
        None
    } else {
        let mut message = "stopping change feed pid=".to_string();
        push_decimal(&mut message, pid as u64);
        Some(LogEntry::info(message))
    }
}

/// What is known of a process that was given a limited time.
#[derive(Clone, Copy, Debug, PartialEq, Eq, Structural)]
pub enum Polled {
    Exited { success: bool },
    Runs,
    Unknown,
}

/// What is done about a process that was given a limited time.
#[derive(Clone, Copy, Debug, PartialEq, Eq, Structural)]
pub enum PollStep {
    /// The process ended by itself.
    Finish { success: bool },
    /// Look again a little later.
    Wait,
    /// Kill the process: it failed.
    Kill,
}

/// What is done about a process that was given a limited time: it may run on while there
/// is time left.
pub open spec fn poll_decision(polled: Polled, in_time: bool) -> PollStep {
    match polled {
        Polled::Exited { success } => PollStep::Finish { success },
        Polled::Runs => if in_time {
            PollStep::Wait
        } else {
            PollStep::Kill
        },
        Polled::Unknown => PollStep::Kill,
    }
}

/// What is done about a process that was given a limited time.
pub fn poll_process(polled: Polled, in_time: bool) -> (step: PollStep)
    ensures
        step == poll_decision(polled, in_time),
{
    match polled {
        Polled::Exited { success } => PollStep::Finish { success },
        Polled::Runs => if in_time {
            PollStep::Wait
        } else {
            PollStep::Kill
        },
        Polled::Unknown => PollStep::Kill,
    }
}

/// The digits at the start of a text.
pub open spec fn leading_digits(text: Seq<char>) -> Seq<char>
    decreases text.len(),
{
    if text.len() == 0 || digit_value(text[0], 10) is None {
        Seq::empty()
    } else {
        seq![text[0]] + leading_digits(text.skip(1))
    }
}

/// The process that a control endpoint names: the number behind the first colon behind the
/// first `"pid"`.
pub open spec fn rc_pid(output: Seq<char>) -> Option<nat> {
    match find(output, "\"pid\""@) {
        None => None,
        Some(key) => {
            let rest = output.skip(key + 5);
            match find(rest, ":"@) {
                None => None,
                Some(colon) => number(
                    leading_digits(trim_start_kind(rest.skip(colon + 1), CharKind::White)),
                    10,
                    u32::MAX as nat,
                ),
            }
        },
    }
}

/// The end of the digits that start at `from`.
fn digits_end(chars: &Vec<char>, from: usize) -> (end: usize)
    requires
        from <= chars.len(),
    ensures
        from <= end <= chars.len(),
        chars@.subrange(from as int, end as int) == leading_digits(chars@.skip(from as int)),
{
    let mut end: usize = from;
    let ghost whole = leading_digits(chars@.skip(from as int));
    assert(whole =~= chars@.subrange(from as int, end as int) + leading_digits(
        chars@.skip(end as int),
    ));
    while end < chars.len() && to_digit_value(chars[end], 10).is_some()
        invariant
            from <= end <= chars.len(),
            whole == chars@.subrange(from as int, end as int) + leading_digits(
                chars@.skip(end as int),
            ),
        decreases chars.len() - end,
    {
        let ghost rest = chars@.skip(end as int);
        assert(rest.skip(1) =~= chars@.skip(end + 1));
        assert(rest[0] == chars@[end as int]);
        assert(chars@.subrange(from as int, end as int) + (seq![rest[0]] + leading_digits(
            rest.skip(1),
        )) =~= chars@.subrange(from as int, end + 1) + leading_digits(chars@.skip(end + 1)));
        end += 1;
    }
    assert(leading_digits(chars@.skip(end as int)) =~= Seq::empty()) by {
        if end < chars.len() {
            assert(chars@.skip(end as int)[0] == chars@[end as int]);
        }
    }
    assert(whole =~= chars@.subrange(from as int, end as int));
    end
}

/// The process that a control endpoint names: the number behind the first colon behind the
/// first `"pid"`.
pub fn parse_rc_pid(output: &str) -> (pid: Option<u32>)
    ensures
        match pid {
            Some(pid) => rc_pid(output@) == Some(pid as nat),
            None => rc_pid(output@) is None,
        },
{
    let chars = chars_of(output);
    let key = chars_of("\"pid\"");
    proof {
        reveal_strlit("\"pid\"");
        reveal_strlit(":");
    }
    let at: usize = match position_of(&chars, &key) {
        None => {
            return None;
        },
        Some(at) => at,
    };
    assert(at + 5 <= chars.len());
    let rest = chars_of(string_of(&chars, at + 5, chars.len()).as_str());
    assert(rest@ =~= output@.skip(at + 5));
    let colon: usize = match position_of(&rest, &chars_of(":")) {
        None => {
            return None;
        },
        Some(colon) => colon,
    };
    let start: usize = trimmed_start(&rest, colon + 1, rest.len(), CharKind::White);
    assert(rest@.subrange(colon + 1, rest.len() as int) =~= rest@.skip(colon + 1));
    assert(rest@.subrange(start as int, rest.len() as int) =~= rest@.skip(start as int));
    let end: usize = digits_end(&rest, start);
    read_number(&rest, start, end, 10, u32::MAX)
}

/// The process that a control endpoint names, as far as it was asked with success.
pub fn endpoint_pid(success: bool, output: &str) -> (pid: Option<u32>)
    ensures
        match pid {
            Some(pid) => success && rc_pid(output@) == Some(pid as nat),
            None => !success || rc_pid(output@) is None,
        },
{
    if success {
        parse_rc_pid(output)
    } else {
        None
    }
}

/// A mount is waited for as long as there is time and no stop is requested: each time it is
/// seen whether rclone runs, and the mount point is probed. A probe that answers makes the
/// mount ready, and one that does not is followed by a pause and another look.
pub proof fn law_mount_is_waited_for(status: Seq<char>, in_time: bool, stop: bool)
    ensures
        ({
            let look = ReadyPhase::Look;
            let seen = after_waiting(look, ReadyEventView::Looked(true, false));
            let running = after_waiting(seen, ReadyEventView::ChildRuns);
            let silent = after_waiting(running, ReadyEventView::Probed(false));
            &&& seen is CheckChild
            &&& running is Probe
            &&& after_waiting(running, ReadyEventView::Probed(true)) is Ready
            &&& silent is Pause
            &&& after_waiting(silent, ReadyEventView::Paused) == look
            &&& !in_time || stop ==> after_waiting(look, ReadyEventView::Looked(in_time, stop))
                is NotReady
            &&& after_waiting(seen, ReadyEventView::ChildExited(status)) is NotReady
            &&& waiting_entry(seen, ReadyEventView::ChildExited(status)) == error_entry(
                "rclone exited during startup: "@ + status,
            )
        }),
{
}

/// A mount is given up only where rclone exited, a stop was requested or the time is over; and
/// what was not waited for changes nothing.
pub proof fn law_mount_is_given_up_only_where_it_must(phase: ReadyPhase, event: ReadyEventView)
    ensures
        after_waiting(phase, event) is NotReady && !(phase is NotReady) ==> (phase is CheckChild
            && event is ChildExited) || (phase is Look && event is Looked && event
            != ReadyEventView::Looked(true, false)),
        phase is Ready || phase is NotReady ==> after_waiting(phase, event) == phase,
        after_waiting(phase, event) != phase ==> (phase is Look && event is Looked) || (phase
            is CheckChild && (event is ChildRuns || event is ChildExited)) || (phase is Probe
            && event is Probed) || (phase is Pause && event is Paused),
{
}

/// A watch ends when a stop is requested and when rclone exits, and says why; in a round in
/// which neither happens it comes back to where it began. Where the change feed is switched on
/// it is looked after on the way; the mount point is probed only where a probe is due.
pub proof fn law_watch_goes_round(
    failures: u32,
    config: Config,
    has_config_path: bool,
    status: Seq<char>,
)
    ensures
        ({
            let step = |from: WatchView, event: WatchEventView|
                after_watching(from, config, has_config_path, event);
            let begun = WatchView { phase: WatchPhaseView::CheckStop, failures };
            let going = step(begun, WatchEventView::StopRequested(false));
            let running = step(going, WatchEventView::ChildRuns);
            let fed = if config.change_feed.enabled {
                step(running, WatchEventView::FeedRuns)
            } else {
                running
            };
            let idle = step(fed, WatchEventView::ProbeDue(false));
            let due = step(fed, WatchEventView::ProbeDue(true));
            let well = step(due, WatchEventView::Probed(true));
            &&& step(begun, WatchEventView::StopRequested(true)).phase == WatchPhaseView::Ended(
                "service stop requested"@,
            )
            &&& going.phase is CheckChild
            &&& step(going, WatchEventView::ChildExited(status)).phase == WatchPhaseView::Ended(
                "rclone exited with "@ + status,
            )
            &&& config.change_feed.enabled <==> running.phase is CheckFeed
            &&& fed == (WatchView { phase: WatchPhaseView::CheckClock, failures })
            &&& step(idle, WatchEventView::Paused) == begun
            &&& due == (WatchView { phase: WatchPhaseView::Probe, failures })
            &&& step(well, WatchEventView::Paused) == initial_watch()
        }),
{
}

/// A change feed that is missing or has ended is started anew where the worker can be told
/// which configuration to read, and is given up otherwise. Whatever comes of it, the mount
/// itself stays under watch.
pub proof fn law_feed_is_brought_back(
    failures: u32,
    config: Config,
    has_config_path: bool,
    status: Seq<char>,
    why: Seq<char>,
)
    ensures
        ({
            let step = |from: WatchView, event: WatchEventView|
                after_watching(from, config, has_config_path, event);
            let look = WatchView { phase: WatchPhaseView::CheckFeed, failures };
            let exited = WatchEventView::FeedExited(status);
            let missing = step(look, WatchEventView::FeedMissing);
            let clock = WatchView { phase: WatchPhaseView::CheckClock, failures };
            &&& missing == step(look, exited)
            &&& has_config_path ==> missing.phase is RestartFeed && step(
                missing,
                WatchEventView::FeedStarted,
            ) == clock && step(missing, WatchEventView::FeedFailed(why)) == clock
            &&& !has_config_path ==> missing.phase is DropFeed && step(
                missing,
                WatchEventView::FeedDropped,
            ) == clock
            &&& watching_entry(look, config, exited) == warn_entry(
                "change feed exited with "@ + status + "; restarting"@,
            )
            &&& has_config_path ==> watching_entry(
                missing,
                config,
                WatchEventView::FeedFailed(why),
            ) == warn_entry("change feed restart failed: "@ + why)
        }),
{
}

/// A watch ends only where a stop was requested, rclone exited or a probe failed; it stays as
/// it is where an event is not what was looked for, and when it has ended.
pub proof fn law_watch_ends_only_where_it_must(
    watch: WatchView,
    config: Config,
    has_config_path: bool,
    event: WatchEventView,
)
    ensures
        ({
            let next = after_watching(watch, config, has_config_path, event);
            &&& next.phase is Ended && !(watch.phase is Ended) ==> (watch.phase is CheckStop && event
                == WatchEventView::StopRequested(true)) || (watch.phase is CheckChild && event
                is ChildExited) || (watch.phase is Probe && event == WatchEventView::Probed(false))
            &&& watch.phase is Ended ==> next == watch
            &&& next != watch ==> match event {
                WatchEventView::StopRequested(_) => watch.phase is CheckStop,
                WatchEventView::ChildRuns => watch.phase is CheckChild,
                WatchEventView::ChildExited(_) => watch.phase is CheckChild,
                WatchEventView::FeedMissing => watch.phase is CheckFeed,
                WatchEventView::FeedRuns => watch.phase is CheckFeed,
                WatchEventView::FeedExited(_) => watch.phase is CheckFeed,
                WatchEventView::FeedStarted => watch.phase is RestartFeed,
                WatchEventView::FeedFailed(_) => watch.phase is RestartFeed,
                WatchEventView::FeedDropped => watch.phase is DropFeed,
                WatchEventView::ProbeDue(_) => watch.phase is CheckClock,
                WatchEventView::Probed(_) => watch.phase is Probe,
                WatchEventView::Paused => watch.phase is Pause,
            }
        }),
{
}

/// One round of a watch in which a probe is due and gets an answer or not.
pub open spec fn probed_round(watch: WatchView, config: Config, answers: bool) -> WatchView {
    let step = |from: WatchView, event: WatchEventView| after_watching(from, config, false, event);
    let running = step(step(watch, WatchEventView::StopRequested(false)), WatchEventView::ChildRuns);
    let fed = step(running, WatchEventView::FeedRuns);
    let probed = step(step(fed, WatchEventView::ProbeDue(true)), WatchEventView::Probed(answers));
    step(probed, WatchEventView::Paused)
}

/// A watch after some rounds in each of which a probe was due.
pub open spec fn after_rounds(config: Config, answers: Seq<bool>) -> WatchView
    decreases answers.len(),
{
    if answers.len() == 0 {
        initial_watch()
    } else {
        probed_round(after_rounds(config, answers.drop_last()), config, answers.last())
    }
}

/// Whether somewhere in a row of probes as many failed one after the other.
pub open spec fn failed_in_a_row(answers: Seq<bool>, times: int) -> bool {
    exists|end: int|
        times <= end <= answers.len() && #[trigger] all_failed(answers, end - times, end)
}

/// Whether the probes from one to another failed.
pub open spec fn all_failed(answers: Seq<bool>, from: int, to: int) -> bool {
    forall|i: int| from <= i < to ==> !#[trigger] answers[i]
}

/// A mount is recycled for its health exactly where as many probes in a row failed as the
/// configuration allows, however many failed before one that answered.
pub proof fn law_recycled_after_failures_in_a_row(config: Config, answers: Seq<bool>)
    requires
        config.health.failure_threshold > 0,
    ensures
        ({
            let watch = after_rounds(config, answers);
            let threshold = config.health.failure_threshold as int;
            &&& watch.phase is Ended <==> failed_in_a_row(answers, threshold)
            &&& !(watch.phase is Ended) ==> watch.phase is CheckStop && watch.failures < threshold
                && watch.failures <= answers.len() && all_failed(
                answers,
                answers.len() - watch.failures,
                answers.len() as int,
            ) && (watch.failures < answers.len() ==> answers[answers.len() - watch.failures - 1])
        }),
    decreases answers.len(),
{
    let threshold = config.health.failure_threshold as int;
    if answers.len() == 0 {
        if failed_in_a_row(answers, threshold) {
            let end = choose|end: int|
                threshold <= end <= answers.len() && #[trigger] all_failed(
                    answers,
                    end - threshold,
                    end,
                );
            assert(end > 0);
        }
    } else {
        let before = answers.drop_last();
        let n = before.len() as int;
        law_recycled_after_failures_in_a_row(config, before);
        let was = after_rounds(config, before);
        let watch = after_rounds(config, answers);
        assert forall|i: int| 0 <= i < n implies #[trigger] answers[i] == before[i] by {}
        assert(answers[n] == answers.last());
        if failed_in_a_row(before, threshold) {
            let end = choose|end: int|
                threshold <= end <= before.len() && #[trigger] all_failed(
                    before,
                    end - threshold,
                    end,
                );
            assert(all_failed(answers, end - threshold, end));
            assert(watch == was);
        } else {
            let failures = was.failures as int;
            if !answers.last() {
                assert(all_failed(answers, n - failures, n + 1));
                if failures + 1 >= threshold {
                    assert(all_failed(answers, n + 1 - threshold, n + 1));
                    assert(failed_in_a_row(answers, threshold));
                }
            }
            if failed_in_a_row(answers, threshold) {
                let end = choose|end: int|
                    threshold <= end <= answers.len() && #[trigger] all_failed(
                        answers,
                        end - threshold,
                        end,
                    );
                if end <= n {
                    assert(all_failed(before, end - threshold, end));
                } else {
                    assert(!answers[n]);
                    if failures + 1 < threshold {
                        assert(!answers[n - failures - 1]);
                    }
                }
            }
        }
    }
}

/// A mount whose process is gone counts as stopped at once. One that runs is asked to quit
/// where its endpoint named it, and then looked at until it is gone; once the time is over it
/// is killed.
pub proof fn law_mount_is_stopped(pid: u32, other: Option<u32>, accepted: bool, exited: bool)
    requires
        other != Some(pid),
    ensures
        ({
            let step = |from: StopPhase, event: StopEvent| after_stopping(from, pid, event);
            let begun = StopPhase::CheckChild;
            let running = step(begun, StopEvent::ChildExited(false));
            let own = step(running, StopEvent::EndpointPid(Some(pid)));
            let looking = step(own, StopEvent::QuitAccepted(accepted));
            let waiting = step(looking, StopEvent::Looked { in_time: true, exited: false });
            let late = step(looking, StopEvent::Looked { in_time: false, exited });
            &&& step(begun, StopEvent::ChildExited(true)) is Stopped
            &&& running is AskPid
            &&& own is RequestQuit
            &&& step(running, StopEvent::EndpointPid(other)) == looking
            &&& looking is Look
            &&& step(looking, StopEvent::Looked { in_time: true, exited: true }) is Stopped
            &&& waiting is Pause
            &&& step(waiting, StopEvent::Paused) == looking
            &&& late is Kill
            &&& step(late, StopEvent::Killed) is Stopped
        }),
{
}

/// A process is killed only once its time is over; a mount that is stopped stays so, and what
/// was not looked for changes nothing.
pub proof fn law_killed_only_in_the_end(phase: StopPhase, pid: u32, event: StopEvent)
    ensures
        ({
            let next = after_stopping(phase, pid, event);
            &&& next is Kill && !(phase is Kill) ==> phase is Look && (event
                == (StopEvent::Looked { in_time: false, exited: true }) || event
                == (StopEvent::Looked { in_time: false, exited: false }))
            &&& phase is Stopped ==> next == phase
            &&& next != phase ==> match event {
                StopEvent::ChildExited(_) => phase is CheckChild,
                StopEvent::EndpointPid(_) => phase is AskPid,
                StopEvent::QuitAccepted(_) => phase is RequestQuit,
                StopEvent::Looked { .. } => phase is Look,
                StopEvent::Paused => phase is Pause,
                StopEvent::Killed => phase is Kill,
            }
        }),
{
}

proof fn lemma_leading_digits(digits: Seq<char>, after: Seq<char>)
    requires
        forall|i: int| 0 <= i < digits.len() ==> digit_value(#[trigger] digits[i], 10) is Some,
        after.len() > 0 ==> digit_value(after[0], 10) is None,
    ensures
        leading_digits(digits + after) == digits,
    decreases digits.len(),
{
    if digits.len() == 0 {
        assert(digits + after =~= after);
        assert(leading_digits(after) =~= digits);
    } else {
        let rest = digits.skip(1);
        assert forall|i: int| 0 <= i < rest.len() implies digit_value(#[trigger] rest[i], 10)
            is Some by {
            assert(rest[i] == digits[i + 1]);
        }
        assert(digit_value(digits[0], 10) is Some);
        assert((digits + after)[0] == digits[0]);
        assert((digits + after).skip(1) =~= rest + after);
        lemma_leading_digits(rest, after);
        assert(seq![digits[0]] + rest =~= digits);
    }
}

proof fn lemma_trim_start_of(space: Seq<char>, text: Seq<char>)
    requires
        all_of_kind(space, CharKind::White),
        text.len() > 0,
        !of_kind(text[0], CharKind::White),
    ensures
        trim_start_kind(space + text, CharKind::White) == text,
    decreases space.len(),
{
    let all = space + text;
    if space.len() == 0 {
        assert(all =~= text);
    } else {
        assert(all.first() == space[0]);
        let rest = space.drop_first();
        assert forall|i: int| 0 <= i < rest.len() implies of_kind(
            #[trigger] rest[i],
            CharKind::White,
        ) by {
            assert(rest[i] == space[i + 1]);
        }
        assert(all.drop_first() =~= rest + text);
        lemma_trim_start_of(rest, text);
    }
}

/// The process that a reply of the control endpoint names is read back, whatever stands behind
/// it, and however much white space stands before the number.
pub proof fn law_named_process_is_read(
    before: Seq<char>,
    pid: u32,
    space: Seq<char>,
    after: Seq<char>,
)
    requires
        !before.contains('"'),
        all_of_kind(space, CharKind::White),
        after.len() > 0 ==> digit_value(after[0], 10) is None,
    ensures
        rc_pid(before + "\"pid\":"@ + space + decimal(pid as nat) + after) == Some(pid as nat),
{
    reveal_strlit("\"pid\"");
    reveal_strlit("\"pid\":");
    reveal_strlit(":");
    let digits = decimal(pid as nat);
    let output = before + "\"pid\":"@ + space + digits + after;
    let key = before.len() as int;
    law_decimal_reads_back(pid as nat);
    assert(output.subrange(key, key + 5) =~= "\"pid\""@);
    assert(occurs_at(output, "\"pid\""@, key));
    assert forall|p: int| 0 <= p < key implies !occurs_at(output, "\"pid\""@, p) by {
        if occurs_at(output, "\"pid\""@, p) {
            assert(output.subrange(p, p + 5)[0] == output[p]);
            assert(before[p] == '"');
            assert(before.contains('"'));
        }
    }
    lemma_find_from(output, "\"pid\""@, 0);
    let rest = output.skip(key + 5);
    assert(rest =~= ":"@ + space + digits + after);
    assert(rest.subrange(0, 1) =~= ":"@);
    assert(occurs_at(rest, ":"@, 0));
    lemma_find_from(rest, ":"@, 0);
    let value = digits + after;
    assert(rest.skip(1) =~= space + value);
    assert(digit_value(digits[0], 10) is Some);
    lemma_trim_start_of(space, value);
    lemma_leading_digits(digits, after);
}

/// A process that was given a limited time is let run while there is time, killed once there
/// is none or nothing is known of it, and otherwise counts by how it ended, however late.
pub proof fn law_process_gets_its_time(success: bool, in_time: bool)
    ensures
        poll_decision(Polled::Exited { success }, in_time) == (PollStep::Finish { success }),
        poll_decision(Polled::Runs, true) is Wait,
        poll_decision(Polled::Runs, false) is Kill,
        poll_decision(Polled::Unknown, in_time) is Kill,
{
}

/// A change feed is stopped, and that is told, exactly where its process has not gone already.
pub proof fn law_running_feed_is_stopped(pid: u32)
    ensures
        feed_stop_entry(pid, true) is None,
        feed_stop_entry(pid, false) == info_entry("stopping change feed pid="@ + decimal(pid as nat)),
{
}

/// What is logged while a mount is watched tells the truth about its probes: how many have
/// failed of how many that may, and after how many it recovered. Nothing is logged of a probe
/// that answered where none had failed.
pub proof fn law_probes_are_told(watch: WatchView, config: Config)
    requires
        watch.phase is Probe,
    ensures
        watching_entry(watch, config, WatchEventView::Probed(false)) == warn_entry(
            "mount health probe failed ("@ + decimal((watch.failures + 1) as nat) + "/"@ + decimal(
                config.health.failure_threshold as nat,
            ) + ")"@,
        ),
        watching_entry(watch, config, WatchEventView::Probed(true)) is Some <==> watch.failures > 0,
        watching_entry(watch, config, WatchEventView::Probed(true)) matches Some(entry) ==> has_text(
            entry.message,
            decimal(watch.failures as nat),
        ),
{
    lemma_has_between(
        "mount health recovered after "@,
        decimal(watch.failures as nat),
        " failed probe(s)"@,
    );
}

/// How a mount is stopped is told: that it is asked to quit, and as a warning whatever keeps it
/// from being asked or from quitting, each with the process that it is about. Nothing else is.
pub proof fn law_stopping_is_told(phase: StopPhase, pid: u32, other: u32, event: StopEvent)
    requires
        other != pid,
    ensures
        ({
            let asked = stopping_entry(StopPhase::AskPid, pid, StopEvent::EndpointPid(Some(pid)));
            let foreign = stopping_entry(
                StopPhase::AskPid,
                pid,
                StopEvent::EndpointPid(Some(other)),
            );
            let silent = stopping_entry(StopPhase::AskPid, pid, StopEvent::EndpointPid(None));
            &&& asked matches Some(entry) && entry.level is Info && has_text(
                entry.message,
                decimal(pid as nat),
            )
            &&& foreign matches Some(entry) && entry.level is Warn && has_text(
                entry.message,
                "expected="@ + decimal(pid as nat) + " actual="@ + decimal(other as nat),
            )
            &&& silent matches Some(entry) && entry.level is Warn && has_text(
                entry.message,
                decimal(pid as nat),
            )
        }),
        stopping_entry(phase, pid, event) is Some <==> (phase is AskPid && event is EndpointPid) || (
        phase is RequestQuit && event == StopEvent::QuitAccepted(false)) || (phase is Look && (event
            == (StopEvent::Looked { in_time: false, exited: true }) || event == (
        StopEvent::Looked { in_time: false, exited: false }))),
        stopping_entry(phase, pid, event) matches Some(entry) ==> has_text(
            entry.message,
            decimal(pid as nat),
        ),
{
    let none = Seq::<char>::empty();
    let p = decimal(pid as nat);
    let a = "requesting graceful rclone shutdown pid="@;
    assert(a + p =~= a + p + none);
    lemma_has_between(a, p, none);
    reveal_strlit("RC endpoint PID mismatch: expected=");
    reveal_strlit("RC endpoint PID mismatch: ");
    reveal_strlit("expected=");
    let b = "RC endpoint PID mismatch: "@;
    let end = "; refusing core/quit"@;
    let both = "expected="@ + p + " actual="@ + decimal(other as nat);
    assert("RC endpoint PID mismatch: expected="@ + p + " actual="@ + decimal(other as nat) + end
        =~= b + both + end);
    lemma_has_between(b, both, end);
    lemma_has_between(
        "RC endpoint unavailable for pid="@,
        p,
        "; falling back to process termination if needed"@,
    );
    let c = "RC core/quit failed or timed out for pid="@;
    assert(c + p =~= c + p + none);
    lemma_has_between(c, p, none);
    let d = "graceful shutdown timed out; killing pid="@;
    assert(d + p =~= d + p + none);
    lemma_has_between(d, p, none);
    match event {
        StopEvent::EndpointPid(Some(found)) => {
            let rest = " actual="@ + decimal(found as nat) + end;
            let head = "RC endpoint PID mismatch: expected="@;
            assert(head + p + " actual="@ + decimal(found as nat) + end =~= head + p + rest);
            lemma_has_between(head, p, rest);
        },
        _ => {},
    }
}

} // verus!
