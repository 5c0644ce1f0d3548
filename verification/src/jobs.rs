//! Jobs that go on running on the server: how they are named, started, listed, followed and
//! stopped.

use crate::arguments::{
    extract_mount_flag, law_mount_is_named_anywhere, mount_flag, ArgumentError,
};
use crate::clock::{current_nanos, short_nanos_at};
use crate::environment::{wrap_environment_shell, wrapped, EffectiveEnvironment};
use crate::mounts::name_view;
use crate::remote::{opening, remote_opening};
use crate::shell::{
    is_plain, join_quoted, law_quoted_text_is_one_word, law_quoted_words_read_back, quote_posix,
    quoted, quoted_words, shell_words,
};
use crate::text::{
    all_digits, ascii_lower, begins_with, blank, chars_of, digit_value, digits_value, has_text,
    is_blank, join, joined, lemma_has_between, lowered, number, occurs_at, optional, same_text, starts_with, trim,
    trimmed, views,
};
use std::time::SystemTime;
use vstd::arithmetic::power::pow;
use vstd::prelude::*;

verus! {

/// How the command that starts a job begins, up to the directory of the job.
pub const START_DIRECTORY: &'static str = "set -eu; d=";

/// From there to the working directory.
pub const START_CWD: &'static str = "; mkdir -p \"$d\"; printf '%s\\n' ";

/// From there to what was asked for.
pub const START_COMMAND: &'static str = " > \"$d/cwd\"; printf '%s\\n' ";

/// From there to what runs in a session of its own.
pub const START_SESSION: &'static str = " > \"$d/command\"; date +%s > \"$d/started\"; : > \"$d/stdout.log\"; if command -v setsid >/dev/null 2>&1; then nohup setsid sh -lc ";

/// From there to what runs where a session cannot be made.
pub const START_PLAIN: &'static str = " > \"$d/stdout.log\" 2>&1 < /dev/null & printf 'setsid\\n' > \"$d/mode\"; else nohup sh -lc ";

/// From there to the name of the job.
pub const START_RUNNING: &'static str = " > \"$d/stdout.log\" 2>&1 < /dev/null & printf 'plain\\n' > \"$d/mode\"; fi; p=$!; printf '%s\\n' \"$p\" > \"$d/pid\"; printf 'running\\n' > \"$d/state\"; printf '%s\\t%s\\n' ";

/// The end of the command that starts a job.
pub const START_END: &'static str = " \"$p\"";

/// How the command that stops a job begins, up to the directory of the job.
pub const STOP_DIRECTORY: &'static str = "set -eu; d=";

/// From there to the name of the job.
pub const STOP_SIGNAL: &'static str = "; test -d \"$d\"; p=$(cat \"$d/pid\"); mode=$(cat \"$d/mode\" 2>/dev/null || echo plain); if kill -0 \"$p\" 2>/dev/null; then if [ \"$mode\" = setsid ]; then kill -TERM -- -\"$p\" 2>/dev/null || kill -TERM \"$p\"; else kill -TERM \"$p\"; fi; fi; printf 'stopped\\n' > \"$d/state\"; printf 'stopped %s\\n' ";

/// What follows the command of a job, up to the directory of the job.
pub const KEEP_CODE: &'static str = "\nrc=$?\nprintf '%s\\n' \"$rc\" > ";

/// From there to the directory again.
pub const KEEP_STATE: &'static str = "/exit_code\nprintf 'exited\\n' > ";

/// The end of what a job runs.
pub const KEEP_END: &'static str = "/state\nexit \"$rc\"";

/// The command that lists the jobs on the server.
pub const LIST_JOBS: &'static str = r#"root="$HOME/.cloudfolder/jobs"; [ -d "$root" ] || exit 0; find "$root" -mindepth 1 -maxdepth 1 -type d -name 'cf-*' -print 2>/dev/null | while IFS= read -r d; do id=$(basename "$d"); pid=$(cat "$d/pid" 2>/dev/null || true); state=$(cat "$d/state" 2>/dev/null || echo unknown); if [ -n "$pid" ] && kill -0 "$pid" 2>/dev/null; then state=running; elif [ -f "$d/exit_code" ]; then state="exited($(cat "$d/exit_code"))"; elif [ "$state" = running ]; then state=unknown; fi; started=$(cat "$d/started" 2>/dev/null || echo '?'); cmd=$(cat "$d/command" 2>/dev/null || echo '?'); printf '%s\t%s\t%s\t%s\n' "$id" "$state" "$started" "$cmd"; done"#;

/// The directory of jobs on the server.
pub const JOBS_DIR: &'static str = "$HOME/.cloudfolder/jobs/";

/// A digit of a hexadecimal number.
pub open spec fn hex_digit(digit: nat) -> char {
    if digit < 10 {
        (48 + digit) as char
    } else {
        (87 + digit) as char
    }
}

/// A number in so many hexadecimal digits.
pub open spec fn hex(number: nat, digits: nat) -> Seq<char>
    decreases digits,
{
    if digits == 0 {
        Seq::empty()
    } else {
        hex(number / 16, (digits - 1) as nat).push(hex_digit(number % 16))
    }
}

/// Appends a number in so many hexadecimal digits.
fn push_hex(text: &mut String, number: u32, digits: u32)
    ensures
        final(text)@ == old(text)@ + hex(number as nat, digits as nat),
    decreases digits,
{
    if digits > 0 {
        push_hex(text, number / 16, digits - 1);
        let digit: u8 = (number % 16) as u8;
        let c: char = if digit < 10 {
            (48 + digit) as char
        } else {
            (87 + digit) as char
        };
        text.push(c);
    }
    assert(text@ =~= old(text)@ + hex(number as nat, digits as nat));
}

/// The name of a job that is started at a time by a process.
pub open spec fn job_name(nanos: u64, pid: u32) -> Seq<char> {
    "cf-"@ + hex(((nanos ^ ((pid as u64) << 16)) as u32) as nat, 8)
}

/// The name of a job that is started at a time by a process.
pub fn job_id(nanos: u64, pid: u32) -> (id: String)
    ensures
        id@ == job_name(nanos, pid),
{
    let mixed: u64 = nanos ^ ((pid as u64) << 16);
    let mut id = "cf-".to_string();
    push_hex(&mut id, #[verifier::truncate] (mixed as u32), 8);
    id
}

/// The name of a job that a process starts now.
pub fn new_job_id(pid: u32) -> (id: String)
    ensures
        exists|moment: SystemTime| id@ == job_name(#[trigger] short_nanos_at(moment), pid),
{
    let nanos: u64 = current_nanos();
    let id = job_id(nanos, pid);
    proof {
        let moment = choose|moment: SystemTime| nanos == #[trigger] short_nanos_at(moment);
        assert(id@ == job_name(short_nanos_at(moment), pid));
    }
    id
}

/// Whether a character may stand in the name of a job.
pub open spec fn is_job_char(c: char) -> bool {
    ||| 'a' <= c <= 'z'
    ||| 'A' <= c <= 'Z'
    ||| '0' <= c <= '9'
    ||| c == '-'
    ||| c == '_'
}

/// Whether a text can be the name of a job.
pub open spec fn is_job_id(id: Seq<char>) -> bool {
    starts_with(id, "cf-"@) && forall|i: int| 0 <= i < id.len() ==> is_job_char(#[trigger] id[i])
}

/// Whether a text can be the name of a job.
pub fn validate_job_id(id: &str) -> (valid: bool)
    ensures
        valid == is_job_id(id@),
{
    if !begins_with(id, "cf-") {
        return false;
    }
    let chars = chars_of(id);
    let mut i: usize = 0;
    while i < chars.len()
        invariant
            chars@ == id@,
            i <= chars.len(),
            forall|k: int| 0 <= k < i ==> is_job_char(#[trigger] id@[k]),
        decreases chars.len() - i,
    {
        let c: char = chars[i];
        if !(('a' <= c && c <= 'z') || ('A' <= c && c <= 'Z') || ('0' <= c && c <= '9') || c == '-'
            || c == '_') {
            assert(!is_job_char(id@[i as int]));
            return false;
        }
        i += 1;
    }
    true
}

proof fn lemma_hex(number: nat, digits: nat)
    ensures
        hex(number, digits).len() == digits,
        forall|i: int|
            0 <= i < digits ==> is_job_char(#[trigger] hex(number, digits)[i]),
    decreases digits,
{
    if digits > 0 {
        lemma_hex(number / 16, (digits - 1) as nat);
        let before = hex(number / 16, (digits - 1) as nat);
        assert(is_job_char(hex_digit(number % 16)));
        assert forall|i: int| 0 <= i < digits implies is_job_char(
            #[trigger] hex(number, digits)[i],
        ) by {
            if i < digits - 1 {
                assert(hex(number, digits)[i] == before[i]);
            }
        }
    }
}

/// The names that are given to jobs are names that jobs are asked for by.
pub proof fn law_given_names_are_valid(nanos: u64, pid: u32)
    ensures
        is_job_id(job_name(nanos, pid)),
{
    let number = ((nanos ^ ((pid as u64) << 16)) as u32) as nat;
    let id = job_name(nanos, pid);
    reveal_strlit("cf-");
    lemma_hex(number, 8);
    assert(id.subrange(0, 3) =~= "cf-"@);
    assert forall|i: int| 0 <= i < id.len() implies is_job_char(#[trigger] id[i]) by {
        if i >= 3 {
            assert(id[i] == hex(number, 8)[i - 3]);
        }
    }
}

/// The name of a job means nothing to a shell but itself: it can stand in a command without
/// quotes.
pub proof fn law_job_names_are_plain(id: Seq<char>)
    requires
        is_job_id(id),
    ensures
        forall|i: int| 0 <= i < id.len() ==> is_plain(#[trigger] id[i]),
{
    assert forall|i: int| 0 <= i < id.len() implies is_plain(#[trigger] id[i]) by {
        assert(is_job_char(id[i]));
    }
}

/// What is done about jobs.
#[derive(Clone, Copy, Debug, PartialEq, Eq, Structural)]
pub enum JobAction {
    Run,
    List,
    Logs,
    Attach,
    Stop,
}

/// What a word asks to be done about jobs; without a word they are listed.
pub open spec fn action_of(word: Option<Seq<char>>) -> Option<JobAction> {
    match word {
        None => Some(JobAction::List),
        Some(word) => {
            let small = ascii_lower(word);
            if small == "run"@ {
                Some(JobAction::Run)
            } else if small == "list"@ {
                Some(JobAction::List)
            } else if small == "logs"@ {
                Some(JobAction::Logs)
            } else if small == "attach"@ {
                Some(JobAction::Attach)
            } else if small == "stop"@ {
                Some(JobAction::Stop)
            } else {
                None
            }
        },
    }
}

/// What a word asks to be done about jobs.
pub fn job_action(word: Option<&str>) -> (action: Option<JobAction>)
    ensures
        action == action_of(name_view(word)),
{
    match word {
        None => Some(JobAction::List),
        Some(word) => {
            let small = lowered(word);
            let small = small.as_str();
            if same_text(small, "run") {
                Some(JobAction::Run)
            } else if same_text(small, "list") {
                Some(JobAction::List)
            } else if same_text(small, "logs") {
                Some(JobAction::Logs)
            } else if same_text(small, "attach") {
                Some(JobAction::Attach)
            } else if same_text(small, "stop") {
                Some(JobAction::Stop)
            } else {
                None
            }
        },
    }
}

/// Why a request about a job is refused.
#[derive(Clone, Copy, Debug, PartialEq, Eq, Structural)]
pub enum JobError {
    Arguments(ArgumentError),
    LogsUsage,
    StopUsage,
    MissingId,
    InvalidId,
}

impl JobError {
    /// What is said of a request that is refused.
    pub open spec fn spec_message(self) -> Seq<char> {
        match self {
            JobError::Arguments(error) => error.spec_message(),
            JobError::LogsUsage => "usage: cf job logs [-f] <job> [--mount <mount>]"@,
            JobError::StopUsage => "usage: cf job stop <job> [--mount <mount>]"@,
            JobError::MissingId => "a job id is required"@,
            JobError::InvalidId => "invalid CloudFolder job id"@,
        }
    }

    /// What is said of a request that is refused.
    pub fn message(self) -> (text: &'static str)
        ensures
            text@ == self.spec_message(),
    {
        match self {
            JobError::Arguments(error) => error.message(),
            JobError::LogsUsage => "usage: cf job logs [-f] <job> [--mount <mount>]",
            JobError::StopUsage => "usage: cf job stop <job> [--mount <mount>]",
            JobError::MissingId => "a job id is required",
            JobError::InvalidId => "invalid CloudFolder job id",
        }
    }
}

/// A request about one job.
#[derive(Clone, Debug, PartialEq, Eq)]
pub struct JobRequest {
    pub mount: Option<String>,
    pub id: String,
    pub follow: bool,
}

/// A request about one job, by its text.
#[verifier::ext_equal]
pub struct JobRequestView {
    pub mount: Option<Seq<char>>,
    pub id: Seq<char>,
    pub follow: bool,
}

impl View for JobRequest {
    type V = JobRequestView;

    open spec fn view(&self) -> JobRequestView {
        JobRequestView { mount: optional(self.mount), id: self.id@, follow: self.follow }
    }
}

/// Whether a word asks to go on reading.
pub open spec fn is_follow_flag(word: Seq<char>) -> bool {
    word == "-f"@ || word == "--follow"@
}

/// The job that words name, and whether to go on reading; nothing where they name two.
pub open spec fn read_log_words(words: Seq<Seq<char>>, follow: bool, id: Option<Seq<char>>) -> Option<
    (Option<Seq<char>>, bool),
>
    decreases words.len(),
{
    if words.len() == 0 {
        Some((id, follow))
    } else if is_follow_flag(words[0]) {
        read_log_words(words.skip(1), true, id)
    } else if id is None {
        read_log_words(words.skip(1), follow, Some(words[0]))
    } else {
        None
    }
}

/// The request that arguments make for the output of a job.
pub open spec fn logs_request(args: Seq<Seq<char>>, force_follow: bool) -> Result<
    JobRequestView,
    JobError,
> {
    match mount_flag(args, None) {
        Err(error) => Err(JobError::Arguments(error)),
        Ok((mount, rest)) => match read_log_words(rest, force_follow, None) {
            None => Err(JobError::LogsUsage),
            Some((None, _)) => Err(JobError::MissingId),
            Some((Some(id), follow)) => if is_job_id(id) {
                Ok(JobRequestView { mount, id, follow })
            } else {
                Err(JobError::InvalidId)
            },
        },
    }
}

/// The request that arguments make for the output of a job.
pub fn parse_logs_request(args: &Vec<String>, force_follow: bool) -> (request: Result<
    JobRequest,
    JobError,
>)
    ensures
        match request {
            Ok(request) => logs_request(views(args@), force_follow) == Ok::<
                JobRequestView,
                JobError,
            >(request@),
            Err(error) => logs_request(views(args@), force_follow) == Err::<
                JobRequestView,
                JobError,
            >(error),
        },
{
    match extract_mount_flag(args) {
        Err(error) => Err(JobError::Arguments(error)),
        Ok((mount, rest)) => {
            let ghost words = views(rest@);
            let mut follow = force_follow;
            let mut id: Option<String> = None;
            let mut i: usize = 0;
            assert(words.skip(0) =~= words);
            while i < rest.len()
                invariant
                    words == views(rest@),
                    i <= rest.len(),
                    mount_flag(views(args@), None) == Ok::<
                        (Option<Seq<char>>, Seq<Seq<char>>),
                        ArgumentError,
                    >((optional(mount), words)),
                    read_log_words(words, force_follow, None) == read_log_words(
                        words.skip(i as int),
                        follow,
                        optional(id),
                    ),
                decreases rest.len() - i,
            {
                let ghost left = words.skip(i as int);
                assert(left[0] == rest@[i as int]@);
                assert(left.skip(1) =~= words.skip(i + 1));
                let word = rest[i].as_str();
                if same_text(word, "-f") || same_text(word, "--follow") {
                    follow = true;
                } else if id.is_none() {
                    id = Some(rest[i].clone());
                } else {
                    return Err(JobError::LogsUsage);
                }
                i += 1;
            }
            assert(words.skip(i as int).len() == 0);
            match id {
                None => Err(JobError::MissingId),
                Some(id) => if validate_job_id(id.as_str()) {
                    Ok(JobRequest { mount, id, follow })
                } else {
                    Err(JobError::InvalidId)
                },
            }
        },
    }
}

/// The request that arguments make to stop a job.
pub open spec fn stop_request(args: Seq<Seq<char>>) -> Result<JobRequestView, JobError> {
    match mount_flag(args, None) {
        Err(error) => Err(JobError::Arguments(error)),
        Ok((mount, rest)) => if rest.len() != 1 {
            Err(JobError::StopUsage)
        } else if !is_job_id(rest[0]) {
            Err(JobError::InvalidId)
        } else {
            Ok(JobRequestView { mount, id: rest[0], follow: false })
        },
    }
}

/// The request that arguments make to stop a job.
pub fn parse_stop_request(args: &Vec<String>) -> (request: Result<JobRequest, JobError>)
    ensures
        match request {
            Ok(request) => stop_request(views(args@)) == Ok::<JobRequestView, JobError>(request@),
            Err(error) => stop_request(views(args@)) == Err::<JobRequestView, JobError>(error),
        },
{
    match extract_mount_flag(args) {
        Err(error) => Err(JobError::Arguments(error)),
        Ok((mount, rest)) => {
            assert(views(rest@).len() == rest.len());
            if rest.len() != 1 {
                return Err(JobError::StopUsage);
            }
            assert(views(rest@)[0] == rest@[0]@);
            if !validate_job_id(rest[0].as_str()) {
                return Err(JobError::InvalidId);
            }
            Ok(JobRequest { mount, id: rest[0].clone(), follow: false })
        },
    }
}

/// The directory of a job on the server.
pub open spec fn job_directory(id: Seq<char>) -> Seq<char> {
    JOBS_DIR@ + id
}

/// The directory of a job on the server.
pub fn job_dir(id: &str) -> (path: String)
    ensures
        path@ == job_directory(id@),
{
    let mut path = JOBS_DIR.to_string();
    path.append(id);
    path
}

/// What a job runs: the command, then what keeps its code.
pub open spec fn job_body(
    shell: Seq<char>,
    init: Seq<char>,
    directory: Seq<char>,
    id: Seq<char>,
    command: Seq<Seq<char>>,
) -> Seq<char> {
    wrapped(
        shell,
        opening(directory, init) + quoted_words(command) + KEEP_CODE@ + job_directory(id)
            + KEEP_STATE@ + job_directory(id) + KEEP_END@,
    )
}

/// The command that starts a job.
pub open spec fn start_command(
    shell: Seq<char>,
    init: Seq<char>,
    directory: Seq<char>,
    id: Seq<char>,
    command: Seq<Seq<char>>,
) -> Seq<char> {
    let body = job_body(shell, init, directory, id, command);
    START_DIRECTORY@ + job_directory(id) + START_CWD@ + quoted(directory) + START_COMMAND@
        + quoted(join(command, " "@)) + START_SESSION@ + quoted(body) + START_PLAIN@ + quoted(body)
        + START_RUNNING@ + quoted(id) + START_END@
}

/// The command that starts a job.
pub fn job_run_command(
    environment: &EffectiveEnvironment,
    directory: &str,
    id: &str,
    command: &Vec<String>,
) -> (remote: String)
    ensures
        remote@ == start_command(
            environment@.shell,
            environment@.init,
            directory@,
            id@,
            views(command@),
        ),
{
    let path = job_dir(id);
    let mut script = remote_opening(directory, environment.init.as_str());
    script.append(join_quoted(command).as_str());
    script.append(KEEP_CODE);
    script.append(path.as_str());
    script.append(KEEP_STATE);
    script.append(path.as_str());
    script.append(KEEP_END);
    let body = quote_posix(wrap_environment_shell(environment, script.as_str()).as_str());
    let mut remote = START_DIRECTORY.to_string();
    remote.append(path.as_str());
    remote.append(START_CWD);
    remote.append(quote_posix(directory).as_str());
    remote.append(START_COMMAND);
    remote.append(quote_posix(joined(command, " ").as_str()).as_str());
    remote.append(START_SESSION);
    remote.append(body.as_str());
    remote.append(START_PLAIN);
    remote.append(body.as_str());
    remote.append(START_RUNNING);
    remote.append(quote_posix(id).as_str());
    remote.append(START_END);
    remote
}

/// What is said of a job that was not started.
pub fn start_failure(stderr: &str) -> (text: String)
    ensures
        text@ == "could not start persistent job: "@ + trim(stderr@),
{
    let mut text = "could not start persistent job: ".to_string();
    text.append(trimmed(stderr).as_str());
    text
}

/// What is said of a job that was started.
pub fn detached_notice(id: &str) -> (text: String)
    ensures
        text@ == "Job "@ + id@
            + " is detached; it continues if this SSH session or local computer disconnects."@,
{
    let mut text = "Job ".to_string();
    text.append(id);
    text.append(" is detached; it continues if this SSH session or local computer disconnects.");
    text
}

/// The command that prints the output of a job, and goes on printing where asked to.
pub open spec fn logs_text(id: Seq<char>, follow: bool) -> Seq<char> {
    let path = job_directory(id) + "/stdout.log"@;
    if follow {
        "test -f "@ + path + " && exec tail -n 100 -F "@ + path
    } else {
        "test -f "@ + path + " && cat "@ + path
    }
}

/// The command that prints the output of a job.
pub fn job_logs_command(id: &str, follow: bool) -> (command: String)
    ensures
        command@ == logs_text(id@, follow),
{
    let mut path = job_dir(id);
    path.append("/stdout.log");
    let mut command = "test -f ".to_string();
    command.append(path.as_str());
    if follow {
        command.append(" && exec tail -n 100 -F ");
    } else {
        command.append(" && cat ");
    }
    command.append(path.as_str());
    command
}

/// The command that stops a job.
pub open spec fn stop_text(id: Seq<char>) -> Seq<char> {
    STOP_DIRECTORY@ + job_directory(id) + STOP_SIGNAL@ + quoted(id)
}

/// The command that stops a job.
pub fn job_stop_command(id: &str) -> (command: String)
    ensures
        command@ == stop_text(id@),
{
    let mut command = STOP_DIRECTORY.to_string();
    command.append(job_dir(id).as_str());
    command.append(STOP_SIGNAL);
    command.append(quote_posix(id).as_str());
    command
}

/// What is said where jobs could not be listed.
pub fn list_failure(stderr: &str) -> (text: String)
    ensures
        text@ == "could not list jobs: "@ + trim(stderr@),
{
    let mut text = "could not list jobs: ".to_string();
    text.append(trimmed(stderr).as_str());
    text
}

/// The list of jobs, as it is shown.
pub open spec fn list_text(mount: Seq<char>, stdout: Seq<char>) -> Seq<char> {
    if is_blank(stdout) {
        "No CloudFolder jobs on "@ + mount + ".\n"@
    } else {
        "Job\tState\tStarted(epoch)\tCommand\n"@ + stdout
    }
}

/// The list of jobs, as it is shown.
pub fn job_list_report(mount: &str, stdout: &str) -> (text: String)
    ensures
        text@ == list_text(mount@, stdout@),
{
    if blank(stdout) {
        let mut text = "No CloudFolder jobs on ".to_string();
        text.append(mount);
        text.append(".\n");
        text
    } else {
        let mut text = "Job\tState\tStarted(epoch)\tCommand\n".to_string();
        text.append(stdout);
        text
    }
}

proof fn lemma_hex_reads_back(n: nat, digits: nat)
    ensures
        all_digits(hex(n, digits), 16),
        digits_value(hex(n, digits), 16) == n % pow(16, digits) as nat,
        pow(16, digits) > 0,
    decreases digits,
{
    reveal(pow);
    vstd::arithmetic::power::lemma_pow_positive(16, digits);
    let text = hex(n, digits);
    if digits == 0 {
        assert(text.len() == 0);
    } else {
        let less = (digits - 1) as nat;
        lemma_hex_reads_back(n / 16, less);
        lemma_hex(n / 16, less);
        let head = hex(n / 16, less);
        assert(text.drop_last() =~= head);
        let c = hex_digit(n % 16);
        assert(text.last() == c);
        assert(digit_value(c, 16) == Some(n % 16));
        assert forall|i: int| 0 <= i < text.len() implies digit_value(#[trigger] text[i], 16)
            is Some by {
            if i < text.len() - 1 {
                assert(text[i] == head[i]);
            }
        }
        let m = pow(16, less);
        assert(pow(16, digits) == 16 * m);
        vstd::arithmetic::div_mod::lemma_mod_breakdown(n as int, 16, m);
    }
}

/// The name of a job tells when and by which process it was started, as far as 32 bits go: it
/// reads back as the mix of both. So one process gives no name twice while the nanoseconds
/// differ in their low 32 bits.
pub proof fn law_job_names_tell_apart(nanos: u64, other: u64, pid: u32)
    ensures
        starts_with(job_name(nanos, pid), "cf-"@),
        number(job_name(nanos, pid).skip(3), 16, u32::MAX as nat) == Some(
            ((nanos ^ ((pid as u64) << 16)) & 0xFFFF_FFFF) as nat,
        ),
        nanos & 0xFFFF_FFFF != other & 0xFFFF_FFFF ==> job_name(nanos, pid) != job_name(other, pid),
{
    reveal_strlit("cf-");
    let mixed = nanos ^ ((pid as u64) << 16);
    let again = other ^ ((pid as u64) << 16);
    let a = (mixed as u32) as nat;
    let b = (again as u32) as nat;
    assert(mixed as u32 == mixed & 0xFFFF_FFFF) by (bit_vector);
    assert(again as u32 == again & 0xFFFF_FFFF) by (bit_vector);
    assert(((nanos ^ ((pid as u64) << 16)) & 0xFFFF_FFFF) == ((other ^ ((pid as u64) << 16))
        & 0xFFFF_FFFF) ==> nanos & 0xFFFF_FFFF == other & 0xFFFF_FFFF) by (bit_vector);
    lemma_hex_reads_back(a, 8);
    lemma_hex_reads_back(b, 8);
    lemma_hex(a, 8);
    lemma_hex(b, 8);
    assert(pow(16, 8) == 0x1_0000_0000) by {
        reveal_with_fuel(pow, 9);
    }
    assert(a % 0x1_0000_0000 == a && b % 0x1_0000_0000 == b);
    assert(job_name(nanos, pid).skip(3) =~= hex(a, 8));
    assert(job_name(other, pid).skip(3) =~= hex(b, 8));
    assert(job_name(nanos, pid).subrange(0, 3) =~= "cf-"@);
}

/// Each word about jobs asks for one thing, in whatever case, and no other word does.
pub proof fn law_job_words_are_understood(word: Seq<char>)
    ensures
        action_of(None) == Some(JobAction::List),
        action_of(Some(word)) == Some(JobAction::Run) <==> ascii_lower(word) == "run"@,
        action_of(Some(word)) == Some(JobAction::List) <==> ascii_lower(word) == "list"@,
        action_of(Some(word)) == Some(JobAction::Logs) <==> ascii_lower(word) == "logs"@,
        action_of(Some(word)) == Some(JobAction::Attach) <==> ascii_lower(word) == "attach"@,
        action_of(Some(word)) == Some(JobAction::Stop) <==> ascii_lower(word) == "stop"@,
{
    reveal_strlit("run");
    reveal_strlit("list");
    reveal_strlit("logs");
    reveal_strlit("attach");
    reveal_strlit("stop");
    assert("run"@.len() == 3 && "attach"@.len() == 6 && "list"@.len() == 4 && "logs"@.len() == 4
        && "stop"@.len() == 4);
    assert("list"@[1] == 'i' && "logs"@[1] == 'o' && "stop"@[1] == 't');
}

proof fn lemma_job_id_is_no_flag(id: Seq<char>)
    requires
        is_job_id(id),
    ensures
        id != "-f"@,
        id != "--follow"@,
        id != "--mount"@,
{
    reveal_strlit("cf-");
    reveal_strlit("-f");
    reveal_strlit("--follow");
    reveal_strlit("--mount");
    assert(id.subrange(0, 3)[0] == id[0]);
    assert("-f"@[0] == '-' && "--follow"@[0] == '-' && "--mount"@[0] == '-' && "cf-"@[0] == 'c');
}

/// The output of a job is asked for by its name, with or without a word that asks to go on
/// reading, in either order, and with the mount named or not. Nothing else is understood: no
/// name, two names and what cannot be the name of a job are refused.
pub proof fn law_logs_are_asked_for(
    id: Seq<char>,
    other: Seq<char>,
    flag: Seq<char>,
    mount: Seq<char>,
    force: bool,
)
    requires
        is_job_id(id),
        flag == "-f"@ || flag == "--follow"@,
        other != "-f"@ && other != "--follow"@ && other != "--mount"@,
    ensures
        ({
            let asked = |mount: Option<Seq<char>>, follow: bool|
                Ok::<JobRequestView, JobError>(JobRequestView { mount, id, follow });
            let refused = |error: JobError| Err::<JobRequestView, JobError>(error);
            &&& logs_request(seq![id], force) == asked(None, force)
            &&& logs_request(seq![flag, id], force) == asked(None, true)
            &&& logs_request(seq![id, flag], force) == asked(None, true)
            &&& logs_request(seq![id, "--mount"@, mount], force) == asked(Some(mount), force)
            &&& logs_request(seq!["--mount"@, mount, flag, id], force) == asked(Some(mount), true)
            &&& logs_request(Seq::empty(), force) == refused(JobError::MissingId)
            &&& logs_request(seq![flag], force) == refused(JobError::MissingId)
            &&& logs_request(seq![id, other], force) == refused(JobError::LogsUsage)
            &&& !is_job_id(other) ==> logs_request(seq![other], force) == refused(
                JobError::InvalidId,
            )
        }),
{
    lemma_job_id_is_no_flag(id);
    reveal_strlit("-f");
    reveal_strlit("--follow");
    reveal_strlit("--mount");
    assert("-f"@.len() == 2 && "--follow"@.len() == 8 && "--mount"@.len() == 7);
    let none = Seq::<Seq<char>>::empty();
    reveal_with_fuel(read_log_words, 4);
    law_mount_is_named_anywhere(seq![id], mount, none, none);
    assert(seq![id] + none =~= seq![id]);
    assert(seq![id] + seq!["--mount"@, mount] + none =~= seq![id, "--mount"@, mount]);
    law_mount_is_named_anywhere(seq![flag, id], mount, none, none);
    assert(seq![flag, id] + none =~= seq![flag, id]);
    law_mount_is_named_anywhere(none, mount, seq![flag, id], none);
    assert(none + seq!["--mount"@, mount] + seq![flag, id] =~= seq!["--mount"@, mount, flag, id]);
    assert(none + seq![flag, id] =~= seq![flag, id]);
    law_mount_is_named_anywhere(seq![id, flag], mount, none, none);
    assert(seq![id, flag] + none =~= seq![id, flag]);
    law_mount_is_named_anywhere(none, mount, none, none);
    assert(none + none =~= none);
    law_mount_is_named_anywhere(seq![flag], mount, none, none);
    assert(seq![flag] + none =~= seq![flag]);
    law_mount_is_named_anywhere(seq![id, other], mount, none, none);
    assert(seq![id, other] + none =~= seq![id, other]);
    law_mount_is_named_anywhere(seq![other], mount, none, none);
    assert(seq![other] + none =~= seq![other]);
    assert(seq![id].skip(1) =~= none);
    assert(seq![flag, id].skip(1) =~= seq![id]);
    assert(seq![id, flag].skip(1) =~= seq![flag]);
    assert(seq![flag].skip(1) =~= none);
    assert(seq![id, other].skip(1) =~= seq![other]);
    assert(seq![other].skip(1) =~= none);
}

/// One job is stopped by its name, with the mount named or not; no name, two names and what
/// cannot be the name of a job are refused.
pub proof fn law_stop_is_asked_for(id: Seq<char>, other: Seq<char>, mount: Seq<char>)
    requires
        is_job_id(id),
        other != "--mount"@,
    ensures
        stop_request(seq![id]) == Ok::<JobRequestView, JobError>(
            JobRequestView { mount: None, id, follow: false },
        ),
        stop_request(seq![id, "--mount"@, mount]) == Ok::<JobRequestView, JobError>(
            JobRequestView { mount: Some(mount), id, follow: false },
        ),
        stop_request(Seq::empty()) == Err::<JobRequestView, JobError>(JobError::StopUsage),
        stop_request(seq![id, other]) == Err::<JobRequestView, JobError>(JobError::StopUsage),
        !is_job_id(other) ==> stop_request(seq![other]) == Err::<JobRequestView, JobError>(
            JobError::InvalidId,
        ),
{
    lemma_job_id_is_no_flag(id);
    let none = Seq::<Seq<char>>::empty();
    law_mount_is_named_anywhere(seq![id], mount, none, none);
    assert(seq![id] + none =~= seq![id]);
    assert(seq![id] + seq!["--mount"@, mount] + none =~= seq![id, "--mount"@, mount]);
    law_mount_is_named_anywhere(none, mount, none, none);
    assert(none + none =~= none);
    law_mount_is_named_anywhere(seq![id, other], mount, none, none);
    assert(seq![id, other] + none =~= seq![id, other]);
    law_mount_is_named_anywhere(seq![other], mount, none, none);
    assert(seq![other] + none =~= seq![other]);
}

/// The names of jobs are just those that begin with `cf-` and hold letters, digits, hyphens and
/// underscores alone: nothing that leads to another directory or means something to a shell.
pub proof fn law_job_ids_are_harmless(id: Seq<char>)
    ensures
        is_job_id(id) ==> id.len() >= 3 && id[0] == 'c' && id[1] == 'f' && id[2] == '-',
        is_job_id(id) ==> !id.contains('/') && !id.contains('.') && !id.contains(' ')
            && !id.contains('\'') && !id.contains('$') && !id.contains(';') && !id.contains('\n'),
        id.len() >= 3 && id.take(3) == "cf-"@ && (forall|i: int|
            0 <= i < id.len() ==> ('a' <= #[trigger] id[i] <= 'z' || 'A' <= id[i] <= 'Z' || '0'
                <= id[i] <= '9' || id[i] == '-' || id[i] == '_')) ==> is_job_id(id),
{
    reveal_strlit("cf-");
    if is_job_id(id) {
        assert(id.subrange(0, 3)[0] == id[0] && id.subrange(0, 3)[1] == id[1] && id.subrange(
            0,
            3,
        )[2] == id[2]);
        assert forall|i: int| 0 <= i < id.len() implies is_job_char(#[trigger] id[i]) by {}
    }
    if id.len() >= 3 && id.take(3) == "cf-"@ {
        assert(id.subrange(0, 3) =~= id.take(3));
    }
}

/// A job runs what was asked for where it was asked for: in the directory of the caller, behind
/// the preparation of its environment, with each argument as one word; and the code that it
/// ends with, and that it has ended, is kept in the directory of that job.
pub proof fn law_job_runs_its_command(
    init: Seq<char>,
    directory: Seq<char>,
    id: Seq<char>,
    command: Seq<Seq<char>>,
)
    ensures
        ({
            let script = job_body(Seq::empty(), init, directory, id, command);
            let own = "$HOME/.cloudfolder/jobs/"@ + id;
            let start = opening(directory, init);
            let line = quoted_words(command);
            &&& script.take(start.len() as int) == start
            &&& shell_words(line) == Some(command)
            &&& script.skip(start.len() as int) == line + "\nrc=$?\nprintf '%s\\n' \"$rc\" > "@ + own
                + "/exit_code\nprintf 'exited\\n' > "@ + own + "/state\nexit \"$rc\""@
        }),
{
    let script = job_body(Seq::empty(), init, directory, id, command);
    let start = opening(directory, init);
    law_quoted_words_read_back(command);
    assert(script.take(start.len() as int) =~= start);
    assert(script.skip(start.len() as int) =~= quoted_words(command) + KEEP_CODE@ + job_directory(
        id,
    ) + KEEP_STATE@ + job_directory(id) + KEEP_END@);
}

/// A job is started under its own name: its directory, its working directory and its command
/// are noted down, its script is handed to a shell as one word, with and without a session of
/// its own, and its name is printed.
pub proof fn law_job_is_started_under_its_name(
    shell: Seq<char>,
    init: Seq<char>,
    directory: Seq<char>,
    id: Seq<char>,
    command: Seq<Seq<char>>,
)
    ensures
        ({
            let start = start_command(shell, init, directory, id, command);
            let script = job_body(shell, init, directory, id, command);
            &&& has_text(
                start,
                "set -eu; d="@ + ("$HOME/.cloudfolder/jobs/"@ + id)
                    + "; mkdir -p \"$d\"; printf '%s\\n' "@ + quoted(directory)
                    + " > \"$d/cwd\"; printf '%s\\n' "@ + quoted(join(command, " "@)),
            )
            &&& has_text(start, START_SESSION@ + quoted(script) + START_PLAIN@ + quoted(script))
            &&& has_text(start, START_RUNNING@ + quoted(id) + " \"$p\""@)
            &&& shell_words(quoted(script)) == Some(seq![script])
            &&& shell_words(quoted(directory)) == Some(seq![directory])
        }),
{
    let start = start_command(shell, init, directory, id, command);
    let script = job_body(shell, init, directory, id, command);
    let none = Seq::<char>::empty();
    let noted = START_DIRECTORY@ + job_directory(id) + START_CWD@ + quoted(directory)
        + START_COMMAND@ + quoted(join(command, " "@));
    let run = START_SESSION@ + quoted(script) + START_PLAIN@ + quoted(script);
    let told = START_RUNNING@ + quoted(id) + START_END@;
    law_quoted_text_is_one_word(script);
    law_quoted_text_is_one_word(directory);
    assert(start =~= none + noted + (run + told));
    lemma_has_between(none, noted, run + told);
    assert(start =~= noted + run + told);
    lemma_has_between(noted, run, told);
    assert(start =~= (noted + run) + told + none);
    lemma_has_between(noted + run, told, none);
}

/// The output that is shown of a job is that of its own directory, and going on with it differs
/// from printing it once only in the program that prints.
pub proof fn law_logs_are_of_the_job(id: Seq<char>)
    ensures
        ({
            let file = "$HOME/.cloudfolder/jobs/"@ + id + "/stdout.log"@;
            &&& logs_text(id, false) == "test -f "@ + file + " && cat "@ + file
            &&& logs_text(id, true) == "test -f "@ + file + " && exec tail -n 100 -F "@ + file
        }),
{
}

/// A list of jobs is shown behind a heading, unless there is none.
pub proof fn law_jobs_are_shown(mount: Seq<char>, stdout: Seq<char>)
    ensures
        !is_blank(stdout) ==> list_text(mount, stdout).len() > stdout.len() && list_text(
            mount,
            stdout,
        ).skip(list_text(mount, stdout).len() - stdout.len()) == stdout,
        is_blank(stdout) ==> has_text(list_text(mount, stdout), mount) && list_text(mount, stdout)
            == list_text(mount, Seq::empty()),
{
    reveal_strlit("Job\tState\tStarted(epoch)\tCommand\n");
    if is_blank(stdout) {
        lemma_has_between("No CloudFolder jobs on "@, mount, ".\n"@);
    } else {
        let text = list_text(mount, stdout);
        assert(text.skip(text.len() - stdout.len()) =~= stdout);
    }
}

/// The job that is stopped is the one that was asked for: the process that its own directory
/// remembers is ended, and its name is told.
pub proof fn law_stop_is_of_the_job(id: Seq<char>)
    ensures
        ({
            let text = stop_text(id);
            let own = quoted(id);
            let opening = "set -eu; d="@ + ("$HOME/.cloudfolder/jobs/"@ + id)
                + "; test -d \"$d\"; p=$(cat \"$d/pid\"); "@;
            &&& text.len() >= opening.len() + own.len()
            &&& text.take(opening.len() as int) == opening
            &&& text.skip(text.len() - own.len()) == own
            &&& shell_words(own) == Some(seq![id])
        }),
{
    let text = stop_text(id);
    let own = quoted(id);
    law_quoted_text_is_one_word(id);
    reveal_strlit("; test -d \"$d\"; p=$(cat \"$d/pid\"); ");
    reveal_strlit("; test -d \"$d\"; p=$(cat \"$d/pid\"); mode=$(cat \"$d/mode\" 2>/dev/null || echo plain); if kill -0 \"$p\" 2>/dev/null; then if [ \"$mode\" = setsid ]; then kill -TERM -- -\"$p\" 2>/dev/null || kill -TERM \"$p\"; else kill -TERM \"$p\"; fi; fi; printf 'stopped\\n' > \"$d/state\"; printf 'stopped %s\\n' ");
    let start = "; test -d \"$d\"; p=$(cat \"$d/pid\"); "@;
    assert(STOP_SIGNAL@.take(start.len() as int) =~= start);
    let opening = "set -eu; d="@ + ("$HOME/.cloudfolder/jobs/"@ + id) + start;
    assert(text.take(opening.len() as int) =~= opening);
    assert(text.skip(text.len() - own.len()) =~= own);
}

/// Each job has a directory of its own below the one of all jobs.
pub proof fn law_jobs_lie_apart(id: Seq<char>, other: Seq<char>)
    ensures
        job_directory(id) == "$HOME/.cloudfolder/jobs/"@ + id,
        id != other ==> job_directory(id) != job_directory(other),
{
    let jobs = "$HOME/.cloudfolder/jobs/"@;
    assert((jobs + id).skip(jobs.len() as int) =~= id);
    assert((jobs + other).skip(jobs.len() as int) =~= other);
}

} // verus!
