//! The service program: what its arguments ask for, what it answers to the service manager,
//! and what it reports of itself.

use crate::logger::{error_entry, info_entry, LogEntry};
use crate::mounts::name_view;
use crate::rclone::push_argument;
use crate::text::{same_text, views};
use vstd::prelude::*;

verus! {

/// The service that is run where none is named.
pub const SERVICE_NAME: &'static str = "CloudFolder.Default";

/// The configuration that is read where none is named.
pub const DEFAULT_CONFIG: &'static str = r"C:\ProgramData\CloudFolder\mounts\default\service.toml";

/// What the service program is asked to do.
#[derive(Clone, Debug, PartialEq, Eq)]
pub enum ServiceCommand {
    /// Run as a service.
    Service { name: String, config: String },
    /// Run in a console.
    Console { config: String },
    /// Check that a mount can run and that the remote is reached.
    Check { config: String },
    /// Check that the remote is reached.
    CheckRemote { config: String },
    /// Make the mount point free.
    Cleanup { config: String },
    /// Run the change feed.
    ChangeFeed { config: String },
    /// Look into a directory once.
    ProbePath { path: String },
}

/// What the service program is asked to do, by its text.
#[verifier::ext_equal]
pub enum ServiceCommandView {
    Service(Seq<char>, Seq<char>),
    Console(Seq<char>),
    Check(Seq<char>),
    CheckRemote(Seq<char>),
    Cleanup(Seq<char>),
    ChangeFeed(Seq<char>),
    ProbePath(Seq<char>),
}

impl View for ServiceCommand {
    type V = ServiceCommandView;

    open spec fn view(&self) -> ServiceCommandView {
        match self {
            ServiceCommand::Service { name, config } => ServiceCommandView::Service(name@, config@),
            ServiceCommand::Console { config } => ServiceCommandView::Console(config@),
            ServiceCommand::Check { config } => ServiceCommandView::Check(config@),
            ServiceCommand::CheckRemote { config } => ServiceCommandView::CheckRemote(config@),
            ServiceCommand::Cleanup { config } => ServiceCommandView::Cleanup(config@),
            ServiceCommand::ChangeFeed { config } => ServiceCommandView::ChangeFeed(config@),
            ServiceCommand::ProbePath { path } => ServiceCommandView::ProbePath(path@),
        }
    }
}

/// Why the service program does nothing.
#[derive(Clone, Debug, PartialEq, Eq)]
pub enum ServiceError {
    MissingFeedConfig,
    MissingProbePath,
    Unknown { word: String },
}

/// Why the service program does nothing, by its text.
#[verifier::ext_equal]
pub enum ServiceErrorView {
    MissingFeedConfig,
    MissingProbePath,
    Unknown(Seq<char>),
}

impl View for ServiceError {
    type V = ServiceErrorView;

    open spec fn view(&self) -> ServiceErrorView {
        match self {
            ServiceError::MissingFeedConfig => ServiceErrorView::MissingFeedConfig,
            ServiceError::MissingProbePath => ServiceErrorView::MissingProbePath,
            ServiceError::Unknown { word } => ServiceErrorView::Unknown(word@),
        }
    }
}

impl ServiceErrorView {
    /// What is said where the service program does nothing.
    pub open spec fn spec_message(self) -> Seq<char> {
        match self {
            ServiceErrorView::MissingFeedConfig => "change-feed requires a service config path"@,
            ServiceErrorView::MissingProbePath => "probe-path requires an absolute path argument"@,
            ServiceErrorView::Unknown(word) => "unknown command '"@ + word
                + "'. Use: service [service-name] [config] | console [config] | check [config] | check-remote [config] | cleanup [config] | change-feed <config> | probe-path <path>"@,
        }
    }
}

impl ServiceError {
    /// What is said where the service program does nothing.
    pub fn message(&self) -> (text: String)
        ensures
            text@ == self@.spec_message(),
    {
        match self {
            ServiceError::MissingFeedConfig => {
                "change-feed requires a service config path".to_string()
            },
            ServiceError::MissingProbePath => {
                "probe-path requires an absolute path argument".to_string()
            },
            ServiceError::Unknown { word } => {
                let mut text = "unknown command '".to_string();
                text.append(word.as_str());
                text.append(
                    "'. Use: service [service-name] [config] | console [config] | check [config] | check-remote [config] | cleanup [config] | change-feed <config> | probe-path <path>",
                );
                text
            },
        }
    }
}

/// The configuration that is read where the arguments name none: the one that the
/// environment names, or else the usual one.
pub open spec fn usual_config(configured: Option<Seq<char>>) -> Seq<char> {
    match configured {
        Some(path) => path,
        None => DEFAULT_CONFIG@,
    }
}

/// An argument, or what stands for it where it is missing.
pub open spec fn argument_or(args: Seq<Seq<char>>, index: int, other: Seq<char>) -> Seq<char> {
    if index < args.len() {
        args[index]
    } else {
        other
    }
}

/// What arguments ask the service program to do; without any it runs as a service.
pub open spec fn service_command(args: Seq<Seq<char>>, configured: Option<Seq<char>>) -> Result<
    ServiceCommandView,
    ServiceErrorView,
> {
    let usual = usual_config(configured);
    let config = argument_or(args, 1, usual);
    if args.len() == 0 {
        Ok(ServiceCommandView::Service(SERVICE_NAME@, usual))
    } else if args[0] == "console"@ {
        Ok(ServiceCommandView::Console(config))
    } else if args[0] == "check"@ {
        Ok(ServiceCommandView::Check(config))
    } else if args[0] == "check-remote"@ {
        Ok(ServiceCommandView::CheckRemote(config))
    } else if args[0] == "cleanup"@ {
        Ok(ServiceCommandView::Cleanup(config))
    } else if args[0] == "change-feed"@ {
        if args.len() > 1 {
            Ok(ServiceCommandView::ChangeFeed(args[1]))
        } else {
            Err(ServiceErrorView::MissingFeedConfig)
        }
    } else if args[0] == "probe-path"@ {
        if args.len() > 1 {
            Ok(ServiceCommandView::ProbePath(args[1]))
        } else {
            Err(ServiceErrorView::MissingProbePath)
        }
    } else if args[0] == "service"@ {
        Ok(
            ServiceCommandView::Service(
                argument_or(args, 1, SERVICE_NAME@),
                argument_or(args, 2, usual),
            ),
        )
    } else {
        Err(ServiceErrorView::Unknown(args[0]))
    }
}

/// An argument, or what stands for it where it is missing.
fn get_or(args: &Vec<String>, index: usize, other: &str) -> (text: String)
    ensures
        text@ == argument_or(views(args@), index as int, other@),
{
    if index < args.len() {
        args[index].clone()
    } else {
        other.to_string()
    }
}

/// What arguments ask the service program to do.
pub fn parse_service_command(args: &Vec<String>, configured: Option<&str>) -> (command: Result<
    ServiceCommand,
    ServiceError,
>)
    ensures
        match command {
            Ok(command) => service_command(views(args@), name_view(configured)) == Ok::<
                ServiceCommandView,
                ServiceErrorView,
            >(command@),
            Err(error) => service_command(views(args@), name_view(configured)) == Err::<
                ServiceCommandView,
                ServiceErrorView,
            >(error@),
        },
{
    let usual = match configured {
        Some(path) => path,
        None => DEFAULT_CONFIG,
    };
    assert(views(args@).len() == args.len());
    if args.len() == 0 {
        return Ok(
            ServiceCommand::Service { name: SERVICE_NAME.to_string(), config: usual.to_string() },
        );
    }
    assert(views(args@)[0] == args@[0]@);
    let config = get_or(args, 1, usual);
    let word = args[0].as_str();
    if same_text(word, "console") {
        Ok(ServiceCommand::Console { config })
    } else if same_text(word, "check") {
        Ok(ServiceCommand::Check { config })
    } else if same_text(word, "check-remote") {
        Ok(ServiceCommand::CheckRemote { config })
    } else if same_text(word, "cleanup") {
        Ok(ServiceCommand::Cleanup { config })
    } else if same_text(word, "change-feed") {
        if args.len() > 1 {
            Ok(ServiceCommand::ChangeFeed { config: args[1].clone() })
        } else {
            Err(ServiceError::MissingFeedConfig)
        }
    } else if same_text(word, "probe-path") {
        if args.len() > 1 {
            Ok(ServiceCommand::ProbePath { path: args[1].clone() })
        } else {
            Err(ServiceError::MissingProbePath)
        }
    } else if same_text(word, "service") {
        Ok(
            ServiceCommand::Service {
                name: get_or(args, 1, SERVICE_NAME),
                config: get_or(args, 2, usual),
            },
        )
    } else {
        Err(ServiceError::Unknown { word: word.to_string() })
    }
}

/// What the service manager asks.
#[derive(Clone, Copy, Debug, PartialEq, Eq, Structural)]
pub enum Control {
    Stop,
    Shutdown,
    Interrogate,
    Other,
}

/// What the service answers.
#[derive(Clone, Copy, Debug, PartialEq, Eq, Structural)]
pub struct ControlReply {
    /// Whether the service can do what is asked.
    pub handled: bool,
    /// Whether the supervisor is told to stop.
    pub stop: bool,
}

/// What the service answers: it stops when asked to or when the computer shuts down, and
/// does nothing else.
pub open spec fn control_reply(control: Control) -> ControlReply {
    ControlReply {
        handled: control is Stop || control is Shutdown || control is Interrogate,
        stop: control is Stop || control is Shutdown,
    }
}

/// What the service answers: it stops when asked to or when the computer shuts down, and
/// does nothing else.
pub fn answer_control(control: Control) -> (reply: ControlReply)
    ensures
        reply == control_reply(control),
        reply.stop == (control is Stop || control is Shutdown),
        reply.handled == (control is Stop || control is Shutdown || control is Interrogate),
{
    match control {
        Control::Stop => ControlReply { handled: true, stop: true },
        Control::Shutdown => ControlReply { handled: true, stop: true },
        Control::Interrogate => ControlReply { handled: true, stop: false },
        Control::Other => ControlReply { handled: false, stop: false },
    }
}

/// Where the life of the service stands.
#[derive(Clone, Copy, Debug, PartialEq, Eq, Structural)]
pub enum ServicePhase {
    StartPending,
    Running,
    StopPending { failed: bool },
    Stopped { failed: bool },
}

/// What the service reports of itself.
#[derive(Clone, Copy, Debug, PartialEq, Eq, Structural)]
pub struct StatusReport {
    pub phase: ServicePhase,
    /// Whether the service can be asked to stop, and is told of a shutdown.
    pub accepts_stop: bool,
    /// The code of its own that the service failed with; none where it did not fail.
    pub failure_code: Option<u32>,
    pub checkpoint: u32,
    /// How many seconds the phase may take.
    pub wait_secs: u64,
}

impl ServicePhase {
    /// What the service reports of itself in a phase.
    pub open spec fn spec_report(self) -> StatusReport {
        match self {
            ServicePhase::StartPending => StatusReport {
                phase: self,
                accepts_stop: false,
                failure_code: None,
                checkpoint: 1,
                wait_secs: 30,
            },
            ServicePhase::Running => StatusReport {
                phase: self,
                accepts_stop: true,
                failure_code: None,
                checkpoint: 0,
                wait_secs: 0,
            },
            ServicePhase::StopPending { .. } => StatusReport {
                phase: self,
                accepts_stop: false,
                failure_code: None,
                checkpoint: 1,
                wait_secs: 20,
            },
            ServicePhase::Stopped { failed } => StatusReport {
                phase: self,
                accepts_stop: false,
                failure_code: if failed {
                    Some(1)
                } else {
                    None
                },
                checkpoint: 0,
                wait_secs: 0,
            },
        }
    }

    /// What the service reports of itself in a phase.
    pub fn report(self) -> (report: StatusReport)
        ensures
            report == self.spec_report(),
    {
        match self {
            ServicePhase::StartPending => StatusReport {
                phase: self,
                accepts_stop: false,
                failure_code: None,
                checkpoint: 1,
                wait_secs: 30,
            },
            ServicePhase::Running => StatusReport {
                phase: self,
                accepts_stop: true,
                failure_code: None,
                checkpoint: 0,
                wait_secs: 0,
            },
            ServicePhase::StopPending { .. } => StatusReport {
                phase: self,
                accepts_stop: false,
                failure_code: None,
                checkpoint: 1,
                wait_secs: 20,
            },
            ServicePhase::Stopped { failed } => StatusReport {
                phase: self,
                accepts_stop: false,
                failure_code: if failed {
                    Some(1)
                } else {
                    None
                },
                checkpoint: 0,
                wait_secs: 0,
            },
        }
    }

    /// The phase that follows, given whether the supervisor failed. The supervisor runs
    /// while the service does; nothing follows the end.
    pub open spec fn spec_next(self, failed: bool) -> Option<ServicePhase> {
        match self {
            ServicePhase::StartPending => Some(ServicePhase::Running),
            ServicePhase::Running => Some(ServicePhase::StopPending { failed }),
            ServicePhase::StopPending { failed } => Some(ServicePhase::Stopped { failed }),
            ServicePhase::Stopped { .. } => None,
        }
    }

    /// The phase that follows, given whether the supervisor failed.
    pub fn next(self, failed: bool) -> (next: Option<ServicePhase>)
        ensures
            next == self.spec_next(failed),
    {
        match self {
            ServicePhase::StartPending => Some(ServicePhase::Running),
            ServicePhase::Running => Some(ServicePhase::StopPending { failed }),
            ServicePhase::StopPending { failed } => Some(ServicePhase::Stopped { failed }),
            ServicePhase::Stopped { .. } => None,
        }
    }
}

/// A supervisor that failed makes the service end with a code of its own, which is how the
/// service manager learns that it has to recover it; one that ended in good order does not.
pub proof fn law_failure_is_reported(failed: bool, other: bool)
    ensures
        ServicePhase::Running.spec_next(failed) matches Some(stopping) && stopping.spec_next(
            other,
        ) matches Some(stopped) && (stopped.spec_report().failure_code is Some <==> failed),
{
}

/// What is logged when the service has started.
pub fn started_entry(name: &str, config: &str) -> (entry: LogEntry)
    ensures
        Some(entry@) == info_entry("service started; name="@ + name@ + " config="@ + config@),
{
    let mut message = "service started; name=".to_string();
    message.append(name);
    message.append(" config=");
    message.append(config);
    LogEntry::info(message)
}

/// What is logged when the service runs in a console.
pub fn console_entry() -> (entry: LogEntry)
    ensures
        Some(entry@) == info_entry("starting in console mode"@),
{
    LogEntry::info("starting in console mode".to_string())
}

/// What is logged when the service cannot go on.
pub fn fatal_entry(why: &str) -> (entry: LogEntry)
    ensures
        Some(entry@) == error_entry("fatal service error: "@ + why@),
{
    let mut message = "fatal service error: ".to_string();
    message.append(why);
    LogEntry::error(message)
}

/// The arguments with which the service program is run to look into a directory once.
pub fn probe_arguments(path: &str) -> (arguments: Vec<String>)
    ensures
        views(arguments@) == seq!["probe-path"@, path@],
{
    let mut arguments: Vec<String> = Vec::new();
    assert(views(arguments@) =~= Seq::empty());
    push_argument(&mut arguments, "probe-path");
    push_argument(&mut arguments, path);
    arguments
}

/// The arguments with which the service program is run as the change feed.
pub fn feed_worker_arguments(config: &str) -> (arguments: Vec<String>)
    ensures
        views(arguments@) == seq!["change-feed"@, config@],
{
    let mut arguments: Vec<String> = Vec::new();
    assert(views(arguments@) =~= Seq::empty());
    push_argument(&mut arguments, "change-feed");
    push_argument(&mut arguments, config);
    arguments
}

/// The service program understands the arguments with which it runs itself.
pub proof fn law_workers_are_understood(path: Seq<char>, configured: Option<Seq<char>>)
    ensures
        service_command(seq!["probe-path"@, path], configured) == Ok::<
            ServiceCommandView,
            ServiceErrorView,
        >(ServiceCommandView::ProbePath(path)),
        service_command(seq!["change-feed"@, path], configured) == Ok::<
            ServiceCommandView,
            ServiceErrorView,
        >(ServiceCommandView::ChangeFeed(path)),
{
    reveal_strlit("console");
    reveal_strlit("check");
    reveal_strlit("check-remote");
    reveal_strlit("cleanup");
    reveal_strlit("change-feed");
    reveal_strlit("probe-path");
    let probe = "probe-path"@;
    let feed = "change-feed"@;
    assert(probe[0] != "console"@[0] && probe[0] != "check"@[0] && probe[0] != "check-remote"@[0]
        && probe[0] != "cleanup"@[0] && probe[0] != feed[0]);
    assert(feed[1] == 'h' && "console"@[1] == 'o' && "cleanup"@[1] == 'l');
    assert(feed[2] == 'a' && "check"@[2] == 'e' && "check-remote"@[2] == 'e');
}

proof fn lemma_commands_differ()
    ensures
        seq![
            "console"@,
            "check"@,
            "check-remote"@,
            "cleanup"@,
            "change-feed"@,
            "probe-path"@,
            "service"@,
        ].no_duplicates(),
{
    reveal_strlit("console");
    reveal_strlit("check");
    reveal_strlit("check-remote");
    reveal_strlit("cleanup");
    reveal_strlit("change-feed");
    reveal_strlit("probe-path");
    reveal_strlit("service");
    assert("console"@.len() == 7 && "check"@.len() == 5 && "check-remote"@.len() == 12
        && "cleanup"@.len() == 7 && "change-feed"@.len() == 11 && "probe-path"@.len() == 10
        && "service"@.len() == 7);
    assert("console"@[0] == 'c' && "console"@[1] == 'o');
    assert("cleanup"@[0] == 'c' && "cleanup"@[1] == 'l');
    assert("service"@[0] == 's');
}

/// Each command of the service program is about the configuration that is named behind it; and
/// where none is named, about the one that the environment names, or else the usual one.
pub proof fn law_commands_are_understood(
    path: Seq<char>,
    name: Seq<char>,
    configured: Option<Seq<char>>,
    more: Seq<Seq<char>>,
)
    ensures
        ({
            let usual = if configured is Some {
                configured->0
            } else {
                DEFAULT_CONFIG@
            };
            let of = |args: Seq<Seq<char>>| service_command(args, configured);
            let asked = |command: ServiceCommandView|
                Ok::<ServiceCommandView, ServiceErrorView>(command);
            &&& of(seq!["console"@, path] + more) == asked(ServiceCommandView::Console(path))
            &&& of(seq!["console"@]) == asked(ServiceCommandView::Console(usual))
            &&& of(seq!["check"@, path] + more) == asked(ServiceCommandView::Check(path))
            &&& of(seq!["check"@]) == asked(ServiceCommandView::Check(usual))
            &&& of(seq!["check-remote"@, path] + more) == asked(
                ServiceCommandView::CheckRemote(path),
            )
            &&& of(seq!["check-remote"@]) == asked(ServiceCommandView::CheckRemote(usual))
            &&& of(seq!["cleanup"@, path] + more) == asked(ServiceCommandView::Cleanup(path))
            &&& of(seq!["cleanup"@]) == asked(ServiceCommandView::Cleanup(usual))
            &&& of(seq!["service"@, name, path] + more) == asked(
                ServiceCommandView::Service(name, path),
            )
            &&& of(seq!["service"@, name]) == asked(ServiceCommandView::Service(name, usual))
            &&& of(seq!["service"@]) == asked(ServiceCommandView::Service(SERVICE_NAME@, usual))
            &&& of(Seq::empty()) == of(seq!["service"@])
            &&& of(seq!["change-feed"@]) == Err::<ServiceCommandView, ServiceErrorView>(
                ServiceErrorView::MissingFeedConfig,
            )
            &&& of(seq!["probe-path"@]) == Err::<ServiceCommandView, ServiceErrorView>(
                ServiceErrorView::MissingProbePath,
            )
        }),
{
    lemma_commands_differ();
    let words = seq![
        "console"@,
        "check"@,
        "check-remote"@,
        "cleanup"@,
        "change-feed"@,
        "probe-path"@,
        "service"@,
    ];
    assert forall|i: int, j: int| 0 <= i < 7 && 0 <= j < 7 && i != j implies words[i]
        != words[j] by {}
    assert(words[0] != words[1] && words[0] != words[2] && words[0] != words[3] && words[0]
        != words[4] && words[0] != words[5] && words[0] != words[6]);
    assert(words[1] != words[2] && words[1] != words[3] && words[1] != words[4] && words[1]
        != words[5] && words[1] != words[6]);
    assert(words[2] != words[3] && words[2] != words[4] && words[2] != words[5] && words[2]
        != words[6]);
    assert(words[3] != words[4] && words[3] != words[5] && words[3] != words[6]);
    assert(words[4] != words[5] && words[4] != words[6] && words[5] != words[6]);
}

/// A word that is no command of the service program is refused by its name, whatever follows.
pub proof fn law_other_commands_are_refused(
    word: Seq<char>,
    more: Seq<Seq<char>>,
    configured: Option<Seq<char>>,
)
    requires
        !seq![
            "console"@,
            "check"@,
            "check-remote"@,
            "cleanup"@,
            "change-feed"@,
            "probe-path"@,
            "service"@,
        ].contains(word),
    ensures
        service_command(seq![word] + more, configured) == Err::<
            ServiceCommandView,
            ServiceErrorView,
        >(ServiceErrorView::Unknown(word)),
{
    let words = seq![
        "console"@,
        "check"@,
        "check-remote"@,
        "cleanup"@,
        "change-feed"@,
        "probe-path"@,
        "service"@,
    ];
    assert(words[0] == "console"@ && words[1] == "check"@ && words[2] == "check-remote"@ && words[3]
        == "cleanup"@ && words[4] == "change-feed"@ && words[5] == "probe-path"@ && words[6]
        == "service"@);
}

/// A service starts, runs, stops and is stopped, in this order, and that is its end. It can be
/// asked to stop just while it runs, and says in every phase which one it is in.
pub proof fn law_service_lives_once(failed: bool, other: bool, any: ServicePhase)
    ensures
        ServicePhase::StartPending.spec_next(other) == Some(ServicePhase::Running),
        ServicePhase::Running.spec_next(failed) == Some(ServicePhase::StopPending { failed }),
        (ServicePhase::StopPending { failed }).spec_next(other) == Some(
            ServicePhase::Stopped { failed },
        ),
        (ServicePhase::Stopped { failed }).spec_next(other) is None,
        any.spec_report().phase == any,
        any.spec_report().accepts_stop <==> any is Running,
        any.spec_report().failure_code is Some ==> any is Stopped && any.spec_report().failure_code
            == Some(1u32),
        any.spec_report().wait_secs > 0 <==> any is StartPending || any is StopPending,
        any.spec_report().checkpoint > 0 <==> any is StartPending || any is StopPending,
{
}

/// The supervisor is told to stop exactly where the service is stopped or the computer shuts
/// down; a question is answered without stopping, and whatever makes it stop is answered.
pub proof fn law_service_stops_when_told(control: Control)
    ensures
        control_reply(Control::Stop).stop && control_reply(Control::Shutdown).stop,
        !control_reply(Control::Interrogate).stop && control_reply(Control::Interrogate).handled,
        !control_reply(Control::Other).stop && !control_reply(Control::Other).handled,
        control_reply(control).stop ==> control_reply(control).handled,
{
}

/// A word that is no command is named in the refusal, before the commands that there are.
pub proof fn law_unknown_word_is_named(word: Seq<char>)
    ensures
        ({
            let message = ServiceErrorView::Unknown(word).spec_message();
            let start = "unknown command '"@ + word + "'. Use: "@;
            message.len() > start.len() && message.take(start.len() as int) == start
        }),
{
    reveal_strlit("'. Use: ");
    reveal_strlit(
        "'. Use: service [service-name] [config] | console [config] | check [config] | check-remote [config] | cleanup [config] | change-feed <config> | probe-path <path>",
    );
    let message = ServiceErrorView::Unknown(word).spec_message();
    let start = "unknown command '"@ + word + "'. Use: "@;
    assert(message.take(start.len() as int) =~= start);
}

} // verus!
