//! Work on the server: which directory stands for the current one, what is run there, and
//! what happens to pending writes before and to the local view after.

use crate::environment::{wrap_environment_shell, wrapped, EffectiveEnvironment};
use crate::json::{
    json_contents, json_from_bytes, json_member, json_parsed_bytes, unsigned_member, JsonView,
};
use crate::mounts::{name_view, profile_label, profile_name, MountRecord};
use crate::rclone::{passes, push_argument};
use crate::shell::{
    all_quoted, law_quoted_text_is_one_word, law_quoted_words_read_back, lemma_plain_word, quote_posix, quoted, quoted_words,
    shell_words,
};
use crate::text::{
    all_digits, begins_with, blank, chars_of, contains_text, decimal, decimal_text, digit_value,
    digits_value, has_text, is_blank, is_white_space, join, joined, law_decimal_reads_back,
    law_trim_takes_only_ends, lemma_has_between, of_kind, push_decimal, same_text, starts_with, string_of, trim, trim_end_kind, trimmed,
    trimmed_end_of, truth, views, CharKind,
};
use crate::winpath::{
    components, is_plain_name, join_path, law_joined_name_is_last_name, law_path_lies_at_itself,
    law_relative_names_are_written, relative_components, relative_names, takes_names,
};
use serde_json::Value;
use vstd::prelude::*;

verus! {

/// A directory on the server without slashes at its end; the root keeps its own.
pub open spec fn normalized(path: Seq<char>) -> Seq<char> {
    if path == "/"@ {
        "/"@
    } else {
        trim_end_kind(path, CharKind::Slash)
    }
}

/// A directory on the server without slashes at its end; the root keeps its own.
pub fn normalize_remote_root(value: &str) -> (path: String)
    ensures
        path@ == normalized(value@),
{
    if same_text(value, "/") {
        "/".to_string()
    } else {
        trimmed_end_of(value, CharKind::Slash)
    }
}

/// What is known of the directory that a mount shows.
#[derive(Clone, Debug, PartialEq, Eq)]
pub enum RemoteRoot {
    /// The directory.
    Known(String),
    /// The command that prints the directory on the server.
    Ask(String),
}

/// What is known of the directory that a mount shows, by its text.
#[verifier::ext_equal]
pub enum RemoteRootView {
    Known(Seq<char>),
    Ask(Seq<char>),
}

impl View for RemoteRoot {
    type V = RemoteRootView;

    open spec fn view(&self) -> RemoteRootView {
        match self {
            RemoteRoot::Known(path) => RemoteRootView::Known(path@),
            RemoteRoot::Ask(command) => RemoteRootView::Ask(command@),
        }
    }
}

/// A path without the `~/` that it may begin with.
pub open spec fn without_home(path: Seq<char>) -> Seq<char> {
    if starts_with(path, "~/"@) {
        path.skip(2)
    } else {
        path
    }
}

/// The directory that a mount shows: the one that was recorded, or else the absolute path
/// that was asked for, or else what the server makes of that path.
pub open spec fn remote_root_of(record: MountRecord) -> RemoteRootView {
    if !is_blank(record.remote_root@) {
        RemoteRootView::Known(normalized(record.remote_root@))
    } else if starts_with(record.remote_path@, "/"@) {
        RemoteRootView::Known(normalized(record.remote_path@))
    } else if is_blank(record.remote_path@) || record.remote_path@ == "~"@ {
        RemoteRootView::Ask("pwd -P"@)
    } else {
        RemoteRootView::Ask("cd -- "@ + quoted(without_home(record.remote_path@)) + " && pwd -P"@)
    }
}

/// The directory that a mount shows, or how to ask for it.
pub fn remote_root(record: &MountRecord) -> (root: RemoteRoot)
    ensures
        root@ == remote_root_of(*record),
{
    let path = record.remote_path.as_str();
    if !blank(record.remote_root.as_str()) {
        RemoteRoot::Known(normalize_remote_root(record.remote_root.as_str()))
    } else if begins_with(path, "/") {
        RemoteRoot::Known(normalize_remote_root(path))
    } else if blank(path) || same_text(path, "~") {
        RemoteRoot::Ask("pwd -P".to_string())
    } else {
        let chars = chars_of(path);
        proof {
            reveal_strlit("~/");
        }
        let start: usize = if begins_with(path, "~/") {
            2
        } else {
            0
        };
        let relative = string_of(&chars, start, chars.len());
        assert(relative@ =~= without_home(path@));
        let mut command = "cd -- ".to_string();
        command.append(quote_posix(relative.as_str()).as_str());
        command.append(" && pwd -P");
        RemoteRoot::Ask(command)
    }
}

/// Why the directory that a mount shows is not known.
#[derive(Clone, Debug, PartialEq, Eq)]
pub enum RemoteRootError {
    Unresolved { mount: String, stderr: String },
    NotAbsolute { root: String },
}

/// Why the directory that a mount shows is not known, by its text.
#[verifier::ext_equal]
pub enum RootErrorView {
    Unresolved(Seq<char>, Seq<char>),
    NotAbsolute(Seq<char>),
}

impl View for RemoteRootError {
    type V = RootErrorView;

    open spec fn view(&self) -> RootErrorView {
        match self {
            RemoteRootError::Unresolved { mount, stderr } => RootErrorView::Unresolved(
                mount@,
                stderr@,
            ),
            RemoteRootError::NotAbsolute { root } => RootErrorView::NotAbsolute(root@),
        }
    }
}

impl RootErrorView {
    /// What is said where the directory is not known.
    pub open spec fn spec_message(self) -> Seq<char> {
        match self {
            RootErrorView::Unresolved(mount, stderr) => "could not resolve the remote root for '"@
                + mount + "': "@ + stderr,
            RootErrorView::NotAbsolute(root) => "remote root is not an absolute Linux path: "@
                + root,
        }
    }
}

impl RemoteRootError {
    /// What is said where the directory is not known.
    pub fn message(&self) -> (text: String)
        ensures
            text@ == self@.spec_message(),
    {
        match self {
            RemoteRootError::Unresolved { mount, stderr } => {
                let mut text = "could not resolve the remote root for '".to_string();
                text.append(mount.as_str());
                text.append("': ");
                text.append(stderr.as_str());
                text
            },
            RemoteRootError::NotAbsolute { root } => {
                let mut text = "remote root is not an absolute Linux path: ".to_string();
                text.append(root.as_str());
                text
            },
        }
    }
}

/// The directory that the server named.
pub open spec fn root_from_reply(
    mount: Seq<char>,
    code: i32,
    stdout: Seq<char>,
    stderr: Seq<char>,
) -> Result<Seq<char>, RootErrorView> {
    if code != 0 {
        Err(RootErrorView::Unresolved(mount, trim(stderr)))
    } else if !starts_with(trim(stdout), "/"@) {
        Err(RootErrorView::NotAbsolute(trim(stdout)))
    } else {
        Ok(normalized(trim(stdout)))
    }
}

/// The directory that the server named when it was asked.
pub fn accept_remote_root(mount: &str, code: i32, stdout: &str, stderr: &str) -> (root: Result<
    String,
    RemoteRootError,
>)
    ensures
        match root {
            Ok(root) => root_from_reply(mount@, code, stdout@, stderr@) == Ok::<
                Seq<char>,
                RootErrorView,
            >(root@),
            Err(error) => root_from_reply(mount@, code, stdout@, stderr@) == Err::<
                Seq<char>,
                RootErrorView,
            >(error@),
        },
{
    if code != 0 {
        return Err(
            RemoteRootError::Unresolved { mount: mount.to_string(), stderr: trimmed(stderr) },
        );
    }
    let root = trimmed(stdout);
    if !begins_with(root.as_str(), "/") {
        Err(RemoteRootError::NotAbsolute { root })
    } else {
        Ok(normalize_remote_root(root.as_str()))
    }
}

/// The directory on the server that names lead to from a root. Where none lead there, it is
/// the root.
pub open spec fn directory_below(root: Seq<char>, names: Option<Seq<Seq<char>>>) -> Seq<char> {
    if names is None || names->0.len() == 0 {
        root
    } else if root == "/"@ {
        "/"@ + join(names->0, "/"@)
    } else {
        trim_end_kind(root, CharKind::Slash) + "/"@ + join(names->0, "/"@)
    }
}

/// The directory on the server that stands for a local one.
pub open spec fn remote_directory(
    root: Seq<char>,
    mount_point: Seq<char>,
    directory: Seq<char>,
) -> Seq<char> {
    directory_below(root, relative_names(directory, mount_point))
}

/// The directory on the server that stands for a local one. One that is not below the mount
/// point counts as the mount point.
pub fn remote_working_directory(root: &str, mount_point: &str, directory: &str) -> (remote: String)
    ensures
        remote@ == remote_directory(root@, mount_point@, directory@),
{
    match relative_components(directory, mount_point) {
        None => root.to_string(),
        Some(names) => {
            assert(views(names@).len() == names.len());
            if names.len() == 0 {
                root.to_string()
            } else if same_text(root, "/") {
                let mut remote = "/".to_string();
                remote.append(joined(&names, "/").as_str());
                remote
            } else {
                let mut remote = trimmed_end_of(root, CharKind::Slash);
                remote.append("/");
                remote.append(joined(&names, "/").as_str());
                remote
            }
        },
    }
}

/// The mount point stands for the directory that the mount shows, and so does every
/// directory outside the mount.
pub proof fn law_mount_point_stands_for_root(
    root: Seq<char>,
    mount_point: Seq<char>,
    directory: Seq<char>,
)
    ensures
        remote_directory(root, mount_point, mount_point) == root,
        relative_names(directory, mount_point) is None ==> remote_directory(
            root,
            mount_point,
            directory,
        ) == root,
{
    law_path_lies_at_itself(mount_point);
}

proof fn lemma_join_is_not_empty(names: Seq<Seq<char>>)
    requires
        names.len() > 0,
        forall|i: int| 0 <= i < names.len() ==> (#[trigger] names[i]).len() > 0,
    ensures
        join(names, "/"@).len() > 0,
{
    assert(names[names.len() - 1].len() > 0);
}

/// A directory below the mount point stands for the directory of the same name below the
/// one that its parent stands for.
pub proof fn law_subdirectory_stands_for_subdirectory(
    root: Seq<char>,
    mount_point: Seq<char>,
    directory: Seq<char>,
    name: Seq<char>,
)
    requires
        normalized(root) == root,
        takes_names(directory),
        is_plain_name(name),
        relative_names(directory, mount_point) is Some,
        components(mount_point).len() <= components(directory).len(),
    ensures
        ({
            let outer = remote_directory(root, mount_point, directory);
            remote_directory(root, mount_point, join_path(directory, name)) == if outer == "/"@ {
                "/"@ + name
            } else {
                outer + "/"@ + name
            }
        }),
{
    let names = relative_names(directory, mount_point)->0;
    let all = names.push(name);
    let outer = remote_directory(root, mount_point, directory);
    law_joined_name_is_last_name(mount_point, directory, name);
    law_relative_names_are_written(directory, mount_point);
    assert(all.drop_last() =~= names);
    reveal_strlit("/");
    if names.len() == 0 {
        assert(join(all, "/"@) == name);
    } else {
        lemma_join_is_not_empty(names);
        assert(outer.len() > 1);
        assert(join(all, "/"@) == join(names, "/"@) + "/"@ + name);
        if root == "/"@ {
            assert("/"@ + (join(names, "/"@) + "/"@ + name) =~= outer + "/"@ + name);
        } else {
            let base = trim_end_kind(root, CharKind::Slash) + "/"@;
            assert(base + (join(names, "/"@) + "/"@ + name) =~= outer + "/"@ + name);
        }
    }
}

/// What is run on the server.
#[derive(Clone, Debug, PartialEq, Eq)]
pub enum RemoteTask {
    /// A program with its arguments.
    Program(Vec<String>),
    /// A line for the shell.
    Line(String),
    /// The login shell of the user.
    LoginShell,
    /// A shell by its name.
    NamedShell(String),
}

/// What is run on the server, by its text.
#[verifier::ext_equal]
pub enum TaskView {
    Program(Seq<Seq<char>>),
    Line(Seq<char>),
    LoginShell,
    NamedShell(Seq<char>),
}

impl View for RemoteTask {
    type V = TaskView;

    open spec fn view(&self) -> TaskView {
        match self {
            RemoteTask::Program(arguments) => TaskView::Program(views(arguments@)),
            RemoteTask::Line(line) => TaskView::Line(line@),
            RemoteTask::LoginShell => TaskView::LoginShell,
            RemoteTask::NamedShell(name) => TaskView::NamedShell(name@),
        }
    }
}

/// Each text of a list in single quotes, with a space before it.
pub open spec fn spaced(texts: Seq<Seq<char>>) -> Seq<char>
    decreases texts.len(),
{
    if texts.len() == 0 {
        Seq::empty()
    } else {
        spaced(texts.drop_last()) + " "@ + quoted(texts.last())
    }
}

/// The last line of what is run on the server.
pub open spec fn task_line(task: TaskView) -> Seq<char> {
    match task {
        TaskView::Program(arguments) => "exec"@ + spaced(arguments),
        TaskView::Line(line) => line,
        TaskView::LoginShell => "exec ${SHELL:-/bin/sh} -l"@,
        TaskView::NamedShell(name) => "exec "@ + name + " -l"@,
    }
}

/// How everything that is run on the server begins: in the directory that stands for the
/// current one, prepared as the environment says. A directory that is not there, and a
/// preparation that fails, end it.
pub open spec fn opening(directory: Seq<char>, init: Seq<char>) -> Seq<char> {
    "set -e\ncd -- "@ + quoted(directory) + "\n"@ + (if is_blank(init) {
        ""@
    } else {
        trim_end_kind(init, CharKind::White) + "\n"@
    }) + "set +e\n"@
}

/// How everything that is run on the server begins.
pub fn remote_opening(directory: &str, init: &str) -> (text: String)
    ensures
        text@ == opening(directory@, init@),
{
    let mut text = "set -e\ncd -- ".to_string();
    text.append(quote_posix(directory).as_str());
    text.append("\n");
    let mut prepared = "".to_string();
    if !blank(init) {
        prepared = trimmed_end_of(init, CharKind::White);
        prepared.append("\n");
    }
    text.append(prepared.as_str());
    text.append("set +e\n");
    text
}

/// The last line of what is run on the server.
fn remote_task_line(task: &RemoteTask) -> (line: String)
    ensures
        line@ == task_line(task@),
{
    match task {
        RemoteTask::Program(arguments) => {
            let mut line = "exec".to_string();
            let mut i: usize = 0;
            assert(views(arguments@).take(0) =~= Seq::empty());
            assert("exec"@ + spaced(Seq::empty()) =~= "exec"@);
            while i < arguments.len()
                invariant
                    i <= arguments.len(),
                    line@ == "exec"@ + spaced(views(arguments@).take(i as int)),
                decreases arguments.len() - i,
            {
                let ghost seen = views(arguments@).take(i + 1);
                assert(seen.drop_last() =~= views(arguments@).take(i as int));
                line.append(" ");
                line.append(quote_posix(arguments[i].as_str()).as_str());
                assert(line@ =~= "exec"@ + spaced(seen));
                i += 1;
            }
            assert(views(arguments@).take(i as int) =~= views(arguments@));
            line
        },
        RemoteTask::Line(line) => line.clone(),
        RemoteTask::LoginShell => "exec ${SHELL:-/bin/sh} -l".to_string(),
        RemoteTask::NamedShell(name) => {
            let mut line = "exec ".to_string();
            line.append(name.as_str());
            line.append(" -l");
            line
        },
    }
}

/// The command that is handed to ssh for a task.
pub open spec fn command_for(
    shell: Seq<char>,
    init: Seq<char>,
    directory: Seq<char>,
    task: TaskView,
) -> Seq<char> {
    wrapped(shell, opening(directory, init) + task_line(task))
}

/// The command that is handed to ssh for a task; nothing for a program without a name.
pub fn remote_command(
    environment: &EffectiveEnvironment,
    directory: &str,
    task: &RemoteTask,
) -> (command: Option<String>)
    ensures
        match command {
            Some(command) => !(task@ == TaskView::Program(Seq::empty())) && command@ == command_for(
                environment@.shell,
                environment@.init,
                directory@,
                task@,
            ),
            None => task@ == TaskView::Program(Seq::empty()),
        },
{
    match task {
        RemoteTask::Program(arguments) => {
            assert(views(arguments@).len() == arguments.len());
            if arguments.len() == 0 {
                assert(views(arguments@) =~= Seq::empty());
                return None;
            }
        },
        _ => {},
    }
    let mut body = remote_opening(directory, environment.init.as_str());
    body.append(remote_task_line(task).as_str());
    Some(wrap_environment_shell(environment, body.as_str()))
}

proof fn lemma_spaced(texts: Seq<Seq<char>>)
    requires
        texts.len() > 0,
    ensures
        spaced(texts) == " "@ + quoted_words(texts),
    decreases texts.len(),
{
    let parts = all_quoted(texts);
    let head = texts.drop_last();
    if texts.len() == 1 {
        assert(head =~= Seq::empty());
        assert(spaced(head) =~= Seq::empty());
        assert(parts[0] == quoted(texts.last()));
        assert(spaced(texts) =~= " "@ + quoted_words(texts));
    } else {
        lemma_spaced(head);
        assert(parts.drop_last() =~= all_quoted(head));
        assert(parts.last() == quoted(texts.last()));
        assert(spaced(texts) =~= " "@ + quoted_words(texts));
    }
}

/// A program is run on the server with just the arguments that it was given here, whatever
/// characters they hold.
pub proof fn law_program_keeps_its_arguments(arguments: Seq<Seq<char>>)
    requires
        arguments.len() > 0,
    ensures
        shell_words(task_line(TaskView::Program(arguments))) == Some(seq!["exec"@] + arguments),
{
    reveal_strlit("exec");
    lemma_spaced(arguments);
    law_quoted_words_read_back(arguments);
    assert(task_line(TaskView::Program(arguments)) =~= "exec"@ + " "@ + quoted_words(arguments));
    lemma_plain_word("exec"@, quoted_words(arguments));
}

/// Whether a task needs a terminal.
pub open spec fn wants_terminal(task: TaskView) -> bool {
    task is LoginShell || task is NamedShell
}

/// Whether a task needs a terminal.
pub fn needs_terminal(task: &RemoteTask) -> (yes: bool)
    ensures
        yes == wants_terminal(task@),
{
    match task {
        RemoteTask::LoginShell => true,
        RemoteTask::NamedShell(_) => true,
        _ => false,
    }
}

/// What a routed tool runs on the server: a shell without arguments is one to work in.
pub open spec fn routed_task(tool: Seq<char>, arguments: Seq<Seq<char>>) -> TaskView {
    if (tool == "bash"@ || tool == "sh"@) && arguments.len() == 0 {
        TaskView::NamedShell(tool)
    } else {
        TaskView::Program(seq![tool] + arguments)
    }
}

/// What a routed tool runs on the server.
pub fn routed_tool_task(tool: &str, arguments: &Vec<String>) -> (task: RemoteTask)
    ensures
        task@ == routed_task(tool@, views(arguments@)),
{
    if (same_text(tool, "bash") || same_text(tool, "sh")) && arguments.len() == 0 {
        return RemoteTask::NamedShell(tool.to_string());
    }
    assert(views(arguments@).len() == arguments.len());
    let mut command: Vec<String> = Vec::new();
    assert(views(command@) =~= Seq::empty());
    push_argument(&mut command, tool);
    let mut i: usize = 0;
    assert(views(command@) =~= seq![tool@] + views(arguments@).take(0));
    while i < arguments.len()
        invariant
            i <= arguments.len(),
            views(command@) == seq![tool@] + views(arguments@).take(i as int),
        decreases arguments.len() - i,
    {
        push_argument(&mut command, arguments[i].as_str());
        assert(seq![tool@] + views(arguments@).take(i + 1) =~= (seq![tool@] + views(
            arguments@,
        ).take(i as int)).push(arguments@[i as int]@));
        i += 1;
    }
    assert(views(arguments@).take(i as int) =~= views(arguments@));
    RemoteTask::Program(command)
}

/// The line for the shell that the words of a command line make.
pub fn shell_line_task(words: &Vec<String>) -> (task: RemoteTask)
    ensures
        task@ == TaskView::Line(join(views(words@), " "@)),
{
    RemoteTask::Line(joined(words, " "))
}

/// What is done to run a task on the server.
#[derive(Clone, Copy, Debug, PartialEq, Eq, Structural)]
pub enum TaskPhase {
    /// Wait until pending writes have reached the server.
    Flush,
    /// Run ssh.
    Run,
    /// Make the local view forget what it knows.
    Refresh { code: i32 },
    /// The task ended with this code.
    Done { code: i32 },
    /// The task could not be run.
    Failed,
}

/// What came of it.
#[derive(Clone, Copy, Debug, PartialEq, Eq, Structural)]
pub enum TaskEvent {
    Flushed(bool),
    /// ssh ended with a code, or was not started.
    Ran(Option<i32>),
    /// Whatever came of it.
    Refreshed,
}

/// The phase after an event. An event that does not end the phase changes nothing.
pub open spec fn after_task(phase: TaskPhase, event: TaskEvent) -> TaskPhase {
    match (phase, event) {
        (TaskPhase::Flush, TaskEvent::Flushed(true)) => TaskPhase::Run,
        (TaskPhase::Flush, TaskEvent::Flushed(false)) => TaskPhase::Failed,
        (TaskPhase::Run, TaskEvent::Ran(Some(code))) => TaskPhase::Refresh { code },
        (TaskPhase::Run, TaskEvent::Ran(None)) => TaskPhase::Failed,
        (TaskPhase::Refresh { code }, TaskEvent::Refreshed) => TaskPhase::Done { code },
        _ => phase,
    }
}

impl TaskPhase {
    /// What follows an event.
    pub fn advance(self, event: TaskEvent) -> (next: TaskPhase)
        ensures
            next == after_task(self, event),
    {
        match (self, event) {
            (TaskPhase::Flush, TaskEvent::Flushed(flushed)) => if flushed {
                TaskPhase::Run
            } else {
                TaskPhase::Failed
            },
            (TaskPhase::Run, TaskEvent::Ran(Some(code))) => TaskPhase::Refresh { code },
            (TaskPhase::Run, TaskEvent::Ran(None)) => TaskPhase::Failed,
            (TaskPhase::Refresh { code }, TaskEvent::Refreshed) => TaskPhase::Done { code },
            (phase, _) => phase,
        }
    }
}

/// Nothing is run on the server before pending writes have reached it, and no task is done
/// before the local view was made to forget; a task ends with the code that ssh ended with.
pub proof fn law_flushed_before_and_refreshed_after(phase: TaskPhase, event: TaskEvent)
    ensures
        after_task(phase, event) is Run && !(phase is Run) ==> phase is Flush && event
            == TaskEvent::Flushed(true),
        after_task(phase, event) is Refresh && !(phase is Refresh) ==> phase is Run && event
            == TaskEvent::Ran(Some(after_task(phase, event)->Refresh_code)),
        after_task(phase, event) is Done && !(phase is Done) ==> phase is Refresh && event
            is Refreshed && after_task(phase, event)->Done_code == phase->Refresh_code,
{
}

/// The arguments with which rclone asks the control endpoint of a mount.
pub open spec fn control_arguments(record: MountRecord, method: Seq<char>) -> Seq<Seq<char>> {
    seq![
        "rc"@,
        "--url"@,
        "http://127.0.0.1:"@ + decimal(record.rc_port as nat) + "/"@,
        method,
    ]
}

/// The arguments with which rclone asks the control endpoint of a mount.
pub fn rc_call_arguments(record: &MountRecord, method: &str) -> (arguments: Vec<String>)
    ensures
        views(arguments@) == control_arguments(*record, method@),
{
    let mut url = "http://127.0.0.1:".to_string();
    push_decimal(&mut url, record.rc_port as u64);
    url.append("/");
    let mut arguments: Vec<String> = Vec::new();
    assert(views(arguments@) =~= Seq::empty());
    push_argument(&mut arguments, "rc");
    push_argument(&mut arguments, "--url");
    push_argument(&mut arguments, url.as_str());
    push_argument(&mut arguments, method);
    arguments
}

/// Writes that have not reached the server.
#[derive(Clone, Copy, Debug, PartialEq, Eq, Structural)]
pub struct PendingWrites {
    pub queued: u64,
    pub active: u64,
}

/// The writes that a reply of the control endpoint names; none where it names none.
pub open spec fn pending_in(stats: JsonView) -> PendingWrites {
    match stats.member("diskCache"@) {
        Some(disk) => PendingWrites {
            queued: match disk.unsigned_member("uploadsQueued"@) {
                Some(number) => number,
                None => 0,
            },
            active: match disk.unsigned_member("uploadsInProgress"@) {
                Some(number) => number,
                None => 0,
            },
        },
        None => PendingWrites { queued: 0, active: 0 },
    }
}

/// The writes that a reply of the control endpoint names.
pub fn pending_writes(stats: &Value) -> (pending: PendingWrites)
    ensures
        pending == pending_in(json_contents(*stats)),
{
    match json_member(stats, "diskCache") {
        Some(disk) => PendingWrites {
            queued: match unsigned_member(disk, "uploadsQueued") {
                Some(number) => number,
                None => 0,
            },
            active: match unsigned_member(disk, "uploadsInProgress") {
                Some(number) => number,
                None => 0,
            },
        },
        None => PendingWrites { queued: 0, active: 0 },
    }
}

/// Why the control endpoint gave no reply.
#[derive(Clone, Debug, PartialEq, Eq)]
pub enum ControlError {
    Refused { stderr: String },
    /// The reply is not JSON, and why.
    Unreadable { why: String },
}

impl ControlError {
    /// What is said where the control endpoint gave no reply.
    pub open spec fn spec_message(self, method: Seq<char>) -> Seq<char> {
        match self {
            ControlError::Refused { stderr } => "RC method "@ + method + " failed: "@ + stderr@,
            ControlError::Unreadable { why } => "invalid RC response for "@ + method + ": "@ + why@,
        }
    }

    /// What is said where the control endpoint gave no reply.
    pub fn message(&self, method: &str) -> (text: String)
        ensures
            text@ == self.spec_message(method@),
    {
        match self {
            ControlError::Refused { stderr } => {
                let mut text = "RC method ".to_string();
                text.append(method);
                text.append(" failed: ");
                text.append(stderr.as_str());
                text
            },
            ControlError::Unreadable { why } => {
                let mut text = "invalid RC response for ".to_string();
                text.append(method);
                text.append(": ");
                text.append(why.as_str());
                text
            },
        }
    }
}

/// The writes that rclone reports when it asked the control endpoint: none where it printed
/// nothing.
pub fn read_pending_writes(success: bool, stdout: &Vec<u8>, stderr: &str) -> (pending: Result<
    PendingWrites,
    ControlError,
>)
    ensures
        match pending {
            Ok(pending) => success && (if stdout.len() == 0 {
                pending == (PendingWrites { queued: 0, active: 0 })
            } else {
                json_parsed_bytes(stdout@) is Ok && pending == pending_in(
                    json_parsed_bytes(stdout@)->Ok_0,
                )
            }),
            Err(ControlError::Refused { stderr: shown }) => !success && shown@ == trim(stderr@),
            Err(ControlError::Unreadable { why }) => success && stdout.len() > 0
                && json_parsed_bytes(stdout@) == Err::<JsonView, Seq<char>>(why@),
        },
{
    if !success {
        return Err(ControlError::Refused { stderr: trimmed(stderr) });
    }
    if stdout.len() == 0 {
        return Ok(PendingWrites { queued: 0, active: 0 });
    }
    match json_from_bytes(stdout) {
        Ok(stats) => Ok(pending_writes(&stats)),
        Err(why) => Err(ControlError::Unreadable { why }),
    }
}

/// Checks the reply of the control endpoint to a request that needs no answer.
pub fn check_control_reply(success: bool, stdout: &Vec<u8>, stderr: &str) -> (checked: Result<
    (),
    ControlError,
>)
    ensures
        match checked {
            Ok(()) => success && (stdout.len() == 0 || json_parsed_bytes(stdout@) is Ok),
            Err(ControlError::Refused { stderr: shown }) => !success && shown@ == trim(stderr@),
            Err(ControlError::Unreadable { why }) => success && stdout.len() > 0
                && json_parsed_bytes(stdout@) == Err::<JsonView, Seq<char>>(why@),
        },
{
    match read_pending_writes(success, stdout, stderr) {
        Ok(_) => Ok(()),
        Err(error) => Err(error),
    }
}

/// What is done while pending writes are waited for.
#[derive(Clone, Copy, Debug, PartialEq, Eq, Structural)]
pub enum FlushStep {
    /// Every write has reached the server.
    Flushed,
    /// Ask again a little later.
    Wait,
    /// The time is over.
    TimedOut,
}

/// What is done while pending writes are waited for.
pub open spec fn flush_decision(pending: PendingWrites, in_time: bool) -> FlushStep {
    if pending.queued == 0 && pending.active == 0 {
        FlushStep::Flushed
    } else if in_time {
        FlushStep::Wait
    } else {
        FlushStep::TimedOut
    }
}

/// What is done while pending writes are waited for.
pub fn flush_step(pending: PendingWrites, in_time: bool) -> (step: FlushStep)
    ensures
        step == flush_decision(pending, in_time),
{
    if pending.queued == 0 && pending.active == 0 {
        FlushStep::Flushed
    } else if in_time {
        FlushStep::Wait
    } else {
        FlushStep::TimedOut
    }
}

/// What is said where writes did not reach the server in time.
pub fn flush_timeout(mount: &str, pending: PendingWrites) -> (text: String)
    ensures
        text@ == "timed out waiting for pending writes on '"@ + mount@ + "' (queued="@ + decimal(
            pending.queued as nat,
        ) + ", in_progress="@ + decimal(pending.active as nat) + ")"@,
{
    let mut text = "timed out waiting for pending writes on '".to_string();
    text.append(mount);
    text.append("' (queued=");
    push_decimal(&mut text, pending.queued);
    text.append(", in_progress=");
    push_decimal(&mut text, pending.active);
    text.append(")");
    text
}

/// What `sc.exe` says of a service, in a word.
pub open spec fn service_word(started: bool, success: bool, output: Seq<char>) -> Seq<char> {
    if !started {
        "Unavailable"@
    } else if !success {
        "Missing"@
    } else if has_text(output, "RUNNING"@) {
        "Running"@
    } else if has_text(output, "STOPPED"@) {
        "Stopped"@
    } else if has_text(output, "START_PENDING"@) {
        "Starting"@
    } else if has_text(output, "STOP_PENDING"@) {
        "Stopping"@
    } else {
        "Unknown"@
    }
}

/// What `sc.exe` says of a service, in a word.
pub fn service_state(started: bool, success: bool, output: &str) -> (word: &'static str)
    ensures
        word@ == service_word(started, success, output@),
{
    if !started {
        "Unavailable"
    } else if !success {
        "Missing"
    } else if contains_text(output, "RUNNING") {
        "Running"
    } else if contains_text(output, "STOPPED") {
        "Stopped"
    } else if contains_text(output, "START_PENDING") {
        "Starting"
    } else if contains_text(output, "STOP_PENDING") {
        "Stopping"
    } else {
        "Unknown"
    }
}

/// What is shown as the number of pending writes.
pub open spec fn pending_text(pending: Option<PendingWrites>) -> Seq<char> {
    match pending {
        Some(pending) => decimal((pending.queued + pending.active) as nat),
        None => "RC unavailable"@,
    }
}

/// What is shown as the number of pending writes. Without a reply there is none.
pub fn pending_report(pending: Option<PendingWrites>) -> (text: String)
    requires
        pending matches Some(writes) ==> writes.queued + writes.active <= u64::MAX,
    ensures
        text@ == pending_text(pending),
{
    match pending {
        Some(pending) => decimal_text(pending.queued + pending.active),
        None => "RC unavailable".to_string(),
    }
}

/// The state of a mount, as it is shown. The directory on the server stands last, where it is
/// known.
pub open spec fn status_text(
    record: MountRecord,
    service: Seq<char>,
    mounted: bool,
    pending: Seq<char>,
    root: Option<Seq<char>>,
) -> Seq<char> {
    let local = "Name:           "@ + record.name@ + "\nProfile:        "@ + profile_name(record)
        + "\nService:        "@ + service + "\nMounted:        "@ + truth(mounted)
        + "\nPending writes: "@ + pending + "\nLocal root:     "@ + record.mount_point@;
    match root {
        Some(root) => local + "\nRemote root:    "@ + root,
        None => local,
    }
}

/// The state of a mount, as it is shown. Without a root, the line of the root is left out.
pub fn status_report(
    record: &MountRecord,
    service: &str,
    mounted: bool,
    pending: &str,
    root: Option<&str>,
) -> (text: String)
    ensures
        text@ == status_text(*record, service@, mounted, pending@, name_view(root)),
{
    let mut text = "Name:           ".to_string();
    text.append(record.name.as_str());
    text.append("\nProfile:        ");
    text.append(profile_label(record));
    text.append("\nService:        ");
    text.append(service);
    text.append("\nMounted:        ");
    if mounted {
        text.append("true");
    } else {
        text.append("false");
    }
    text.append("\nPending writes: ");
    text.append(pending);
    text.append("\nLocal root:     ");
    text.append(record.mount_point.as_str());
    if let Some(root) = root {
        text.append("\nRemote root:    ");
        text.append(root);
    }
    text
}

/// The code with which showing the state of a mount ends: zero where it is up.
pub open spec fn state_code(service: Seq<char>, mounted: bool) -> i32 {
    if service == "Running"@ && mounted {
        0
    } else {
        1
    }
}

/// The code with which showing the state of a mount ends: zero where it is up.
pub fn status_code(service: &str, mounted: bool) -> (code: i32)
    ensures
        code == state_code(service@, mounted),
{
    if same_text(service, "Running") && mounted {
        0
    } else {
        1
    }
}

/// Where a command is run, as it is shown.
pub fn here_report(record: &MountRecord, directory: &str, remote: &str) -> (text: String)
    ensures
        text@ == "Mount:      "@ + record.name@ + "\nProfile:    "@ + profile_name(*record)
            + "\nLocal root: "@ + record.mount_point@ + "\nLocal cwd:  "@ + directory@
            + "\nRemote cwd: "@ + remote@,
{
    let mut text = "Mount:      ".to_string();
    text.append(record.name.as_str());
    text.append("\nProfile:    ");
    text.append(profile_label(record));
    text.append("\nLocal root: ");
    text.append(record.mount_point.as_str());
    text.append("\nLocal cwd:  ");
    text.append(directory);
    text.append("\nRemote cwd: ");
    text.append(remote);
    text
}

/// A task that nothing keeps from running is run to its end: behind flushed writes it is run,
/// with whatever code ssh ends the local view is refreshed, and then the task is done with that
/// very code, zero too.
pub proof fn law_task_runs_to_its_end(code: i32)
    ensures
        ({
            let flushed = after_task(TaskPhase::Flush, TaskEvent::Flushed(true));
            let ran = after_task(flushed, TaskEvent::Ran(Some(code)));
            let refreshed = after_task(ran, TaskEvent::Refreshed);
            &&& flushed is Run
            &&& ran == (TaskPhase::Refresh { code })
            &&& refreshed == (TaskPhase::Done { code })
        }),
{
}

/// A task fails where writes did not reach the server or ssh was not started, and nowhere
/// else. What is done or failed stays so, and an event that was not waited for changes nothing.
pub proof fn law_task_fails_only_where_it_must(phase: TaskPhase, event: TaskEvent)
    ensures
        after_task(phase, event) is Failed <==> phase is Failed || (phase is Flush && event
            == TaskEvent::Flushed(false)) || (phase is Run && event == TaskEvent::Ran(None)),
        phase is Done || phase is Failed ==> after_task(phase, event) == phase,
        after_task(phase, event) != phase ==> (phase is Flush && event is Flushed) || (phase is Run
            && event is Ran) || (phase is Refresh && event is Refreshed),
{
}

/// Pending writes count as flushed exactly where none is queued and none is under way, however
/// little time is left; otherwise they are waited for while there is time.
pub proof fn law_flushed_means_nothing_pending(pending: PendingWrites, in_time: bool)
    ensures
        flush_decision(pending, in_time) is Flushed <==> pending.queued + pending.active == 0,
        flush_decision(pending, in_time) is Wait <==> pending.queued + pending.active > 0 && in_time,
        flush_decision(pending, in_time) is TimedOut <==> pending.queued + pending.active > 0
            && !in_time,
{
}

/// The writes that are pending are those that the cache of the mount reports, each number by
/// itself; what it does not report counts as none.
pub proof fn law_pending_writes_are_those_reported(
    stats: JsonView,
    disk: JsonView,
    queued: u64,
    active: u64,
)
    ensures
        stats.member("diskCache"@) == Some(disk) && disk.member("uploadsQueued"@) == Some(
            JsonView::Unsigned(queued),
        ) ==> pending_in(stats).queued == queued,
        stats.member("diskCache"@) == Some(disk) && disk.member("uploadsInProgress"@) == Some(
            JsonView::Unsigned(active),
        ) ==> pending_in(stats).active == active,
        stats.member("diskCache"@) == Some(disk) && !(disk.member("uploadsQueued"@) matches Some(
            JsonView::Unsigned(_),
        )) ==> pending_in(stats).queued == 0,
        stats.member("diskCache"@) == Some(disk) && !(disk.member("uploadsInProgress"@) matches Some(
            JsonView::Unsigned(_),
        )) ==> pending_in(stats).active == 0,
        stats.member("diskCache"@) is None ==> pending_in(stats).queued == 0 && pending_in(
            stats,
        ).active == 0,
{
}

/// How many writes are pending is shown as one number, that of both kinds together.
pub proof fn law_pending_writes_are_counted(pending: PendingWrites)
    ensures
        digits_value(pending_text(Some(pending)), 10) == pending.queued + pending.active,
        all_digits(pending_text(Some(pending)), 10),
        !all_digits(pending_text(None), 10),
{
    law_decimal_reads_back((pending.queued + pending.active) as nat);
    reveal_strlit("RC unavailable");
    assert(digit_value("RC unavailable"@[0], 10) is None);
}

/// A directory on the server loses just the slashes at its end; the root keeps its own.
pub proof fn law_root_ends_without_slash(path: Seq<char>)
    ensures
        path == "/"@ ==> normalized(path) == path,
        path != "/"@ ==> normalized(path).len() <= path.len() && normalized(path) == path.take(
            normalized(path).len() as int,
        ) && (forall|i: int|
            normalized(path).len() <= i < path.len() ==> #[trigger] path[i] == '/') && (normalized(
            path,
        ).len() > 0 ==> normalized(path).last() != '/'),
{
    law_trim_takes_only_ends(path, CharKind::Slash);
    if path != "/"@ {
        assert forall|i: int| normalized(path).len() <= i < path.len() implies #[trigger] path[i]
            == '/' by {
            assert(of_kind(path[i], CharKind::Slash));
        }
    }
}

/// The directory that a mount shows is the one that was recorded, or else the absolute path
/// that was asked for; only where neither is known is the server asked, and then in the
/// directory that was asked for, which a shell reads as one word.
pub proof fn law_known_root_is_not_asked_for(record: MountRecord)
    ensures
        !is_blank(record.remote_root@) ==> remote_root_of(record) == RemoteRootView::Known(
            normalized(record.remote_root@),
        ),
        is_blank(record.remote_root@) && record.remote_path@.len() > 0 && record.remote_path@[0]
            == '/' ==> remote_root_of(record) == RemoteRootView::Known(
            normalized(record.remote_path@),
        ),
        is_blank(record.remote_root@) && (is_blank(record.remote_path@) || record.remote_path@
            == "~"@) ==> remote_root_of(record) == RemoteRootView::Ask("pwd -P"@),
        is_blank(record.remote_root@) && !is_blank(record.remote_path@) && record.remote_path@
            != "~"@ && record.remote_path@[0] != '/' ==> ({
            let asked = if record.remote_path@.len() >= 2 && record.remote_path@[0] == '~'
                && record.remote_path@[1] == '/' {
                record.remote_path@.skip(2)
            } else {
                record.remote_path@
            };
            let going = "cd -- "@ + quoted(asked);
            &&& remote_root_of(record) == RemoteRootView::Ask(going + " && pwd -P"@)
            &&& shell_words(going) == Some(seq!["cd"@, "--"@, asked])
        }),
{
    let path = record.remote_path@;
    reveal_strlit("/");
    reveal_strlit("~");
    reveal_strlit("~/");
    if path.len() > 0 {
        assert(path.subrange(0, 1)[0] == path[0]);
        if path[0] == '/' {
            assert(path.subrange(0, 1) =~= "/"@);
            assert(!is_white_space('/'));
            assert(!of_kind(path[0], CharKind::White));
        }
        if path == "~"@ {
            assert(path[0] == '~');
        }
    }
    if path.len() >= 2 {
        assert(path.subrange(0, 2)[0] == path[0] && path.subrange(0, 2)[1] == path[1]);
        if path[0] == '~' && path[1] == '/' {
            assert(path.subrange(0, 2) =~= "~/"@);
        }
    }
    lemma_cd(without_home(path));
}

proof fn lemma_cd(directory: Seq<char>)
    ensures
        shell_words("cd -- "@ + quoted(directory)) == Some(seq!["cd"@, "--"@, directory]),
{
    reveal_strlit("cd -- ");
    reveal_strlit("cd");
    reveal_strlit("--");
    reveal_strlit(" ");
    law_quoted_text_is_one_word(directory);
    let second = "--"@ + " "@ + quoted(directory);
    assert("cd -- "@ + quoted(directory) =~= "cd"@ + " "@ + second);
    lemma_plain_word("cd"@, second);
    lemma_plain_word("--"@, quoted(directory));
    assert(seq!["cd"@] + (seq!["--"@] + seq![directory]) =~= seq!["cd"@, "--"@, directory]);
}

/// What the server names as the directory is taken exactly where it was asked with success and
/// names an absolute path, without the white space around it.
pub proof fn law_only_absolute_roots_are_taken(
    mount: Seq<char>,
    code: i32,
    stdout: Seq<char>,
    stderr: Seq<char>,
)
    ensures
        match root_from_reply(mount, code, stdout, stderr) {
            Ok(root) => code == 0 && trim(stdout).len() > 0 && trim(stdout)[0] == '/' && root
                == normalized(trim(stdout)),
            Err(RootErrorView::Unresolved(name, why)) => code != 0 && name == mount && why == trim(
                stderr,
            ),
            Err(RootErrorView::NotAbsolute(root)) => code == 0 && root == trim(stdout) && (
            root.len() == 0 || root[0] != '/'),
        },
{
    let root = trim(stdout);
    reveal_strlit("/");
    if root.len() > 0 {
        assert(root.subrange(0, 1)[0] == root[0]);
        if root[0] == '/' {
            assert(root.subrange(0, 1) =~= "/"@);
        }
    }
}

/// Everything that is run on the server begins in the directory that stands for the current
/// one, which a shell reads as one word, and behind the preparation of the environment; where
/// either fails, nothing else is run. What was asked for comes last and as it is.
pub proof fn law_command_runs_in_its_place(
    init: Seq<char>,
    directory: Seq<char>,
    task: TaskView,
)
    ensures
        ({
            let command = command_for(Seq::empty(), init, directory, task);
            let going = "cd -- "@ + quoted(directory);
            let line = task_line(task);
            let start = "set -e\n"@ + going + "\n"@;
            let prepared = trim_end_kind(init, CharKind::White);
            &&& shell_words(going) == Some(seq!["cd"@, "--"@, directory])
            &&& is_blank(init) ==> command == start + "set +e\n"@ + line
            &&& !is_blank(init) ==> command == start + prepared + "\nset +e\n"@ + line
            &&& prepared == init.take(prepared.len() as int)
        }),
{
    let command = command_for(Seq::empty(), init, directory, task);
    let going = "cd -- "@ + quoted(directory);
    let start = "set -e\n"@ + going + "\n"@;
    lemma_cd(directory);
    law_trim_takes_only_ends(init, CharKind::White);
    reveal_strlit("set -e\ncd -- ");
    reveal_strlit("set -e\n");
    reveal_strlit("cd -- ");
    reveal_strlit("");
    reveal_strlit("\n");
    reveal_strlit("set +e\n");
    reveal_strlit("\nset +e\n");
    assert("set -e\ncd -- "@ =~= "set -e\n"@ + "cd -- "@);
    if is_blank(init) {
        assert(command =~= start + "set +e\n"@ + task_line(task));
    } else {
        assert(command =~= start + trim_end_kind(init, CharKind::White) + "\nset +e\n"@ + task_line(
            task,
        ));
    }
}

/// A workspace with a shell of its own has everything run through it: the shell is given all
/// that would be run without it as one word.
pub proof fn law_shell_is_given_everything(
    shell: Seq<char>,
    init: Seq<char>,
    directory: Seq<char>,
    task: TaskView,
)
    requires
        !is_blank(shell),
    ensures
        ({
            let bare = command_for(Seq::empty(), init, directory, task);
            let command = command_for(shell, init, directory, task);
            let front = trim(shell) + " "@;
            &&& command.len() >= front.len()
            &&& command.take(front.len() as int) == front
            &&& shell_words(command.skip(front.len() as int)) == Some(seq![bare])
        }),
{
    let bare = command_for(Seq::empty(), init, directory, task);
    let command = command_for(shell, init, directory, task);
    let front = trim(shell) + " "@;
    law_quoted_text_is_one_word(bare);
    assert(command.take(front.len() as int) =~= front);
    assert(command.skip(front.len() as int) =~= quoted(bare));
}

/// A line for the shell is run as it stands, and a shell is run to be logged in to; just the
/// two kinds of shell need a terminal.
pub proof fn law_shells_are_worked_in(line: Seq<char>, name: Seq<char>, task: TaskView)
    ensures
        task_line(TaskView::Line(line)) == line,
        task_line(TaskView::NamedShell(name)) == "exec "@ + name + " -l"@,
        task_line(TaskView::LoginShell) == "exec ${SHELL:-/bin/sh} -l"@,
        wants_terminal(task) <==> !(task is Program) && !(task is Line),
{
}

/// A routed tool is run on the server with all of its arguments; only a shell without any is
/// one to work in.
pub proof fn law_routed_tool_keeps_its_arguments(tool: Seq<char>, arguments: Seq<Seq<char>>)
    ensures
        routed_task(tool, arguments) matches TaskView::Program(words) ==> words.len()
            == arguments.len() + 1 && words[0] == tool && words.skip(1) == arguments,
        arguments.len() > 0 ==> routed_task(tool, arguments) is Program,
        tool != "bash"@ && tool != "sh"@ ==> routed_task(tool, arguments) is Program,
        routed_task("bash"@, Seq::empty()) == TaskView::NamedShell("bash"@),
        routed_task("sh"@, Seq::empty()) == TaskView::NamedShell("sh"@),
{
    if let TaskView::Program(words) = routed_task(tool, arguments) {
        assert(words.skip(1) =~= arguments);
    }
}

/// The control endpoint of a mount is asked at its own port on this computer.
pub proof fn law_control_is_asked_at_its_port(record: MountRecord, method: Seq<char>)
    ensures
        ({
            let told = control_arguments(record, method);
            &&& told.len() == 4
            &&& told[0] == "rc"@
            &&& passes(
                told,
                "--url"@,
                "http://127.0.0.1:"@ + decimal(record.rc_port as nat) + "/"@,
            )
            &&& told.last() == method
        }),
{
    let told = control_arguments(record, method);
    assert(told[1] == "--url"@);
}

/// A service is told by what was said of it: one that could not be asked for is unavailable,
/// one that is not known is missing, and of several states the one that runs counts first.
pub proof fn law_service_is_told_by_its_state(success: bool, output: Seq<char>)
    ensures
        service_word(false, success, output) == "Unavailable"@,
        service_word(true, false, output) == "Missing"@,
        has_text(output, "RUNNING"@) ==> service_word(true, true, output) == "Running"@,
        !has_text(output, "RUNNING"@) && has_text(output, "STOPPED"@) ==> service_word(
            true,
            true,
            output,
        ) == "Stopped"@,
        !has_text(output, "RUNNING"@) && !has_text(output, "STOPPED"@) && has_text(
            output,
            "START_PENDING"@,
        ) ==> service_word(true, true, output) == "Starting"@,
        !has_text(output, "RUNNING"@) && !has_text(output, "STOPPED"@) && !has_text(
            output,
            "START_PENDING"@,
        ) && has_text(output, "STOP_PENDING"@) ==> service_word(true, true, output) == "Stopping"@,
        state_code(service_word(true, true, output), true) == 0 <==> has_text(output, "RUNNING"@),
        state_code(service_word(true, success, output), false) != 0,
        state_code(service_word(false, success, output), true) != 0,
        state_code(service_word(true, false, output), true) != 0,
{
    reveal_strlit("Unavailable");
    reveal_strlit("Missing");
    reveal_strlit("Running");
    reveal_strlit("Stopped");
    reveal_strlit("Starting");
    reveal_strlit("Stopping");
    reveal_strlit("Unknown");
    assert("Unavailable"@[0] == 'U' && "Missing"@[0] == 'M' && "Running"@[0] == 'R' && "Stopped"@[0]
        == 'S' && "Starting"@[0] == 'S' && "Stopping"@[0] == 'S' && "Unknown"@[0] == 'U');
}

/// The state of a mount is shown line by line: its name, its profile, its service, whether it is
/// mounted, what has not been written yet, and where it lies on either side.
pub proof fn law_state_is_shown(
    record: MountRecord,
    service: Seq<char>,
    mounted: bool,
    pending: Seq<char>,
    root: Seq<char>,
)
    ensures
        ({
            let local = status_text(record, service, mounted, pending, None);
            &&& local.take(("Name:           "@ + record.name@ + "\n"@).len() as int)
                == "Name:           "@ + record.name@ + "\n"@
            &&& has_text(local, "\nProfile:        "@ + profile_name(record) + "\nService:"@)
            &&& has_text(local, "\nService:        "@ + service + "\nMounted:"@)
            &&& has_text(
                local,
                "\nMounted:        "@ + (if mounted {
                    "true"@
                } else {
                    "false"@
                }) + "\nPending writes: "@ + pending + "\n"@,
            )
            &&& ("\nLocal root:     "@ + record.mount_point@).is_suffix_of(local)
            &&& status_text(record, service, mounted, pending, Some(root)) == local
                + "\nRemote root:    "@ + root
        }),
{
    reveal_strlit("\n");
    reveal_strlit("\nProfile:        ");
    reveal_strlit("\nService:        ");
    reveal_strlit("\nService:");
    reveal_strlit("\nMounted:        ");
    reveal_strlit("\nMounted:");
    reveal_strlit("\nLocal root:     ");
    let local = status_text(record, service, mounted, pending, None);
    let name = "Name:           "@ + record.name@;
    let profile = "\nProfile:        "@ + profile_name(record);
    let state = "\nService:        "@ + service;
    let mount = "\nMounted:        "@ + truth(mounted) + "\nPending writes: "@ + pending;
    let place = "\nLocal root:     "@ + record.mount_point@;
    assert(local =~= name + profile + state + mount + place);
    assert(profile.take(1) =~= "\n"@);
    assert(local.take((name + "\n"@).len() as int) =~= name + "\n"@);
    assert(state.take(9) =~= "\nService:"@);
    assert(mount.take(9) =~= "\nMounted:"@);
    assert(place.take(1) =~= "\n"@);
    lemma_has_between(name, profile + "\nService:"@, state.skip(9) + mount + place);
    assert(name + (profile + "\nService:"@) + (state.skip(9) + mount + place) =~= local);
    lemma_has_between(name + profile, state + "\nMounted:"@, mount.skip(9) + place);
    assert(name + profile + (state + "\nMounted:"@) + (mount.skip(9) + place) =~= local);
    lemma_has_between(name + profile + state, mount + "\n"@, place.skip(1));
    assert(name + profile + state + (mount + "\n"@) + place.skip(1) =~= local);
    assert(local.subrange(local.len() - place.len(), local.len() as int) =~= place);
}

/// Why a directory on the server is not known is said with the mount and with what the server
/// wrote, or with the path that was refused.
pub proof fn law_unknown_root_is_explained(mount: Seq<char>, stderr: Seq<char>, root: Seq<char>)
    ensures
        has_text(RootErrorView::Unresolved(mount, stderr).spec_message(), "'"@ + mount + "'"@),
        stderr.is_suffix_of(RootErrorView::Unresolved(mount, stderr).spec_message()),
        root.is_suffix_of(RootErrorView::NotAbsolute(root).spec_message()),
        RootErrorView::NotAbsolute(root).spec_message().len() > root.len(),
{
    reveal_strlit("could not resolve the remote root for '");
    reveal_strlit("could not resolve the remote root for ");
    reveal_strlit("'");
    reveal_strlit("': ");
    reveal_strlit(": ");
    reveal_strlit("remote root is not an absolute Linux path: ");
    let message = RootErrorView::Unresolved(mount, stderr).spec_message();
    let refusal = RootErrorView::NotAbsolute(root).spec_message();
    let named = "'"@ + mount + "'"@;
    lemma_has_between("could not resolve the remote root for "@, named, ": "@ + stderr);
    assert("could not resolve the remote root for "@ + named + (": "@ + stderr) =~= message);
    assert(message.subrange(message.len() - stderr.len(), message.len() as int) =~= stderr);
    assert(refusal.subrange(refusal.len() - root.len(), refusal.len() as int) =~= root);
}

/// Why a call of a running mount came to nothing is said with the method and the reason.
pub proof fn law_failed_call_is_explained(error: ControlError, method: Seq<char>)
    ensures
        ({
            let message = error.spec_message(method);
            let why = match error {
                ControlError::Refused { stderr } => stderr@,
                ControlError::Unreadable { why } => why@,
            };
            &&& has_text(message, method)
            &&& why.is_suffix_of(message)
        }),
{
    let message = error.spec_message(method);
    match error {
        ControlError::Refused { stderr } => {
            lemma_has_between("RC method "@, method, " failed: "@ + stderr@);
            assert("RC method "@ + method + (" failed: "@ + stderr@) =~= message);
            assert(message.subrange(message.len() - stderr@.len(), message.len() as int)
                =~= stderr@);
        },
        ControlError::Unreadable { why } => {
            lemma_has_between("invalid RC response for "@, method, ": "@ + why@);
            assert("invalid RC response for "@ + method + (": "@ + why@) =~= message);
            assert(message.subrange(message.len() - why@.len(), message.len() as int) =~= why@);
        },
    }
}

} // verus!
