//! The service log: how a line reads, when the file is put aside, and which older files
//! are kept.

use crate::text::{
    decimal, decimal_text, has_text, law_decimal_reads_back, lemma_has_between, lines, optional,
};
use chrono::TimeZone;
use vstd::prelude::*;

verus! {

/// How much a line of the log matters.
#[derive(Clone, Copy, Debug, PartialEq, Eq, Structural)]
pub enum LogLevel {
    Info,
    Warn,
    Error,
}

impl LogLevel {
    /// How a level is written.
    pub open spec fn spec_name(self) -> Seq<char> {
        match self {
            LogLevel::Info => "INFO"@,
            LogLevel::Warn => "WARN"@,
            LogLevel::Error => "ERROR"@,
        }
    }

    /// How a level is written.
    pub fn name(self) -> (text: &'static str)
        ensures
            text@ == self.spec_name(),
    {
        match self {
            LogLevel::Info => "INFO",
            LogLevel::Warn => "WARN",
            LogLevel::Error => "ERROR",
        }
    }
}

/// Something to be logged.
#[derive(Clone, Debug, PartialEq, Eq)]
pub struct LogEntry {
    pub level: LogLevel,
    pub message: String,
}

/// Something to be logged, by its text.
#[verifier::ext_equal]
pub struct EntryView {
    pub level: LogLevel,
    pub message: Seq<char>,
}

impl View for LogEntry {
    type V = EntryView;

    open spec fn view(&self) -> EntryView {
        EntryView { level: self.level, message: self.message@ }
    }
}

/// What there is to log, by its text.
pub open spec fn entry_view(entry: Option<LogEntry>) -> Option<EntryView> {
    match entry {
        Some(entry) => Some(entry@),
        None => None,
    }
}

impl LogEntry {
    /// A message that matters little.
    pub fn info(message: String) -> (entry: Self)
        ensures
            entry@ == (EntryView { level: LogLevel::Info, message: message@ }),
    {
        LogEntry { level: LogLevel::Info, message }
    }

    /// A warning.
    pub fn warn(message: String) -> (entry: Self)
        ensures
            entry@ == (EntryView { level: LogLevel::Warn, message: message@ }),
    {
        LogEntry { level: LogLevel::Warn, message }
    }

    /// An error.
    pub fn error(message: String) -> (entry: Self)
        ensures
            entry@ == (EntryView { level: LogLevel::Error, message: message@ }),
    {
        LogEntry { level: LogLevel::Error, message }
    }
}

/// A message that matters little.
pub open spec fn info_entry(message: Seq<char>) -> Option<EntryView> {
    Some(EntryView { level: LogLevel::Info, message })
}

/// A warning.
pub open spec fn warn_entry(message: Seq<char>) -> Option<EntryView> {
    Some(EntryView { level: LogLevel::Warn, message })
}

/// An error.
pub open spec fn error_entry(message: Seq<char>) -> Option<EntryView> {
    Some(EntryView { level: LogLevel::Error, message })
}

/// The least size at which a log is put aside.
pub const MIN_LOG_BYTES: u64 = 1_048_576;

/// Where the log of a mount goes and how much of it is kept.
#[derive(Debug)]
pub struct Logger {
    path: String,
    max_bytes: u64,
    keep_files: usize,
}

/// One step of putting a log aside.
#[derive(Clone, Debug, PartialEq, Eq)]
pub enum RotationStep {
    /// Delete the file, if it is there.
    Remove { path: String },
    /// Rename the file, if it is there.
    Move { from: String, to: String },
}

/// One step of putting a log aside, by its paths.
#[verifier::ext_equal]
pub enum StepView {
    Remove(Seq<char>),
    Move(Seq<char>, Seq<char>),
}

impl View for RotationStep {
    type V = StepView;

    open spec fn view(&self) -> StepView {
        match self {
            RotationStep::Remove { path } => StepView::Remove(path@),
            RotationStep::Move { from, to } => StepView::Move(from@, to@),
        }
    }
}

/// The steps of a list by their paths.
pub open spec fn step_views(steps: Seq<RotationStep>) -> Seq<StepView> {
    Seq::new(steps.len(), |i: int| steps[i]@)
}

/// The file that a log becomes after it was put aside `index` times.
pub open spec fn rotated(path: Seq<char>, index: nat) -> Seq<char> {
    path + "."@ + decimal(index)
}

/// The steps that make each of the last `upto` files one older, the oldest first.
pub open spec fn aging_steps(path: Seq<char>, upto: nat) -> Seq<StepView>
    decreases upto,
{
    if upto == 0 {
        Seq::empty()
    } else {
        seq![StepView::Move(rotated(path, upto), rotated(path, upto + 1))] + aging_steps(
            path,
            (upto - 1) as nat,
        )
    }
}

/// The steps that put a log aside and keep `keep` older files: the oldest goes, the
/// others become one older, and the log becomes the newest of them.
pub open spec fn rotation(path: Seq<char>, keep: nat) -> Seq<StepView> {
    seq![StepView::Remove(rotated(path, keep))] + aging_steps(path, (keep - 1) as nat) + seq![
        StepView::Move(path, rotated(path, 1)),
    ]
}

/// Whether a file is as large as it may become. A file that is not there has no size.
pub open spec fn is_full(size: Option<u64>, max_bytes: u64) -> bool {
    size matches Some(bytes) && bytes >= max_bytes
}

/// Whether a character is a decimal digit.
pub open spec fn is_digit(c: char) -> bool {
    '0' <= c <= '9'
}

/// Whether a text is a date, a time to the millisecond and an offset from UTC, such as
/// `2026-03-04T05:06:07.089+01:00`. A year of more than four digits has a sign.
pub open spec fn is_timestamp(text: Seq<char>) -> bool {
    let end = text.len() as int;
    &&& end >= 29
    &&& text[end - 25] == '-'
    &&& text[end - 22] == '-'
    &&& text[end - 19] == 'T'
    &&& text[end - 16] == ':'
    &&& text[end - 13] == ':'
    &&& text[end - 10] == '.'
    &&& text[end - 6] == '+' || text[end - 6] == '-'
    &&& text[end - 3] == ':'
    &&& is_digit(text[0]) || (end > 29 && (text[0] == '+' || text[0] == '-'))
    &&& forall|i: int|
        1 <= i < end && i != end - 25 && i != end - 22 && i != end - 19 && i != end - 16 && i != end
            - 13 && i != end - 10 && i != end - 6 && i != end - 3 ==> is_digit(#[trigger] text[i])
}

/// A line of the log.
pub open spec fn line_text(timestamp: Seq<char>, level: LogLevel, message: Seq<char>) -> Seq<char> {
    timestamp + " ["@ + level.spec_name() + "] "@ + message + "\r\n"@
}

/// A line of the log.
pub fn log_line(timestamp: &str, level: LogLevel, message: &str) -> (line: String)
    ensures
        line@ == line_text(timestamp@, level, message@),
{
    let mut line = timestamp.to_string();
    line.append(" [");
    line.append(level.name());
    line.append("] ");
    line.append(message);
    line.append("\r\n");
    line
}

/// A moment as a clock and a time zone show it: seconds and nanoseconds since the beginning of
/// 1970 in UTC, and how many seconds the local time is ahead of UTC. A leap second has a
/// billion nanoseconds more.
#[derive(Clone, Copy, Debug, PartialEq, Eq, Structural)]
pub struct LocalMoment {
    pub secs: i64,
    pub nanos: u32,
    pub offset_secs: i32,
}

impl LocalMoment {
    /// Whether there is such a moment: it lies in the years from -262143 to 262142, only the
    /// last second of a minute is followed by a leap second, and the offset is less than a
    /// day.
    pub open spec fn is_datable(self) -> bool {
        &&& -8_334_601_228_800 <= self.secs <= 8_210_266_876_799
        &&& self.nanos < 1_000_000_000 || (self.nanos < 2_000_000_000 && self.secs % 60 == 59)
        &&& -86_400 < self.offset_secs < 86_400
    }

    /// The local date, time and offset of a moment.
    pub open spec fn spec_timestamp(self) -> Option<Seq<char>> {
        timestamp_text(self.secs, self.nanos, self.offset_secs, TIMESTAMP_FORMAT@)
    }
}

/// How the moment of a line is written: the date, the time to the millisecond and the offset
/// from UTC.
pub const TIMESTAMP_FORMAT: &'static str = "%Y-%m-%dT%H:%M:%S%.3f%:z";

/// What `chrono` writes of a moment in local time by a format; nothing where there is no such
/// moment.
pub uninterp spec fn timestamp_text(
    secs: i64,
    nanos: u32,
    offset_secs: i32,
    format: Seq<char>,
) -> Option<Seq<char>>;

/// `chrono::FixedOffset::east_opt` and `timestamp_opt` make a date and a time out of a moment,
/// or nothing where there is no such moment, and `format` writes them. What is written depends
/// on the moment, the offset and the format alone; that it is a date, a time and an offset is
/// claimed of the one format that is handed in, which ones only by a name.
#[verifier::external_body]
fn local_timestamp(secs: i64, nanos: u32, offset_secs: i32, format: &str) -> (text: Option<String>)
    requires
        format@ == TIMESTAMP_FORMAT@,
    ensures
        optional(text) == timestamp_text(secs, nanos, offset_secs, format@),
        text is Some <==> (LocalMoment { secs, nanos, offset_secs }).is_datable(),
        text matches Some(text) ==> is_timestamp(text@),
{
    let zone = chrono::FixedOffset::east_opt(offset_secs)?;
    let moment = zone.timestamp_opt(secs, nanos).single()?;
    Some(moment.format(format).to_string())
}

/// The line of a message that is logged at a moment; nothing where there is no such moment.
pub open spec fn stamped_line(moment: LocalMoment, level: LogLevel, message: Seq<char>) -> Option<
    Seq<char>,
> {
    match moment.spec_timestamp() {
        Some(timestamp) => Some(line_text(timestamp, level, message)),
        None => None,
    }
}

/// The file that a log becomes after it was put aside `index` times.
pub fn rotated_path(path: &str, index: usize) -> (name: String)
    ensures
        name@ == rotated(path@, index as nat),
{
    let mut name = path.to_string();
    name.append(".");
    name.append(decimal_text(index as u64).as_str());
    name
}

impl Clone for Logger {
    fn clone(&self) -> (logger: Self)
        ensures
            logger.spec_path() == self.spec_path(),
            logger.spec_max_bytes() == self.spec_max_bytes(),
            logger.spec_keep_files() == self.spec_keep_files(),
    {
        proof {
            use_type_invariant(self);
        }
        Logger {
            path: self.path.clone(),
            max_bytes: self.max_bytes,
            keep_files: self.keep_files,
        }
    }
}

impl Logger {
    /// The log file.
    pub closed spec fn spec_path(&self) -> Seq<char> {
        self.path@
    }

    /// The size from which the file is put aside.
    pub closed spec fn spec_max_bytes(&self) -> u64 {
        self.max_bytes
    }

    /// How many older files are kept.
    pub closed spec fn spec_keep_files(&self) -> usize {
        self.keep_files
    }

    #[verifier::type_invariant]
    spec fn keeps_enough(&self) -> bool {
        self.max_bytes >= MIN_LOG_BYTES && self.keep_files >= 1
    }

    /// A log of at least a mebibyte with at least one older file.
    pub fn new(path: &str, max_bytes: u64, keep_files: usize) -> (logger: Self)
        ensures
            logger.spec_path() == path@,
            logger.spec_max_bytes() == if max_bytes < MIN_LOG_BYTES {
                MIN_LOG_BYTES
            } else {
                max_bytes
            },
            logger.spec_keep_files() == if keep_files < 1 {
                1
            } else {
                keep_files
            },
    {
        Logger {
            path: path.to_string(),
            max_bytes: if max_bytes < MIN_LOG_BYTES {
                MIN_LOG_BYTES
            } else {
                max_bytes
            },
            keep_files: if keep_files < 1 {
                1
            } else {
                keep_files
            },
        }
    }

    /// The log of a service that could not read its configuration. Where the directory of
    /// the usual file cannot be made, the file goes to the working directory.
    pub fn fallback(directory_ready: bool) -> (logger: Self)
        ensures
            logger.spec_path() == if directory_ready {
                r"C:\ProgramData\CloudFolder\fatal.log"@
            } else {
                "CloudFolderService-fatal.log"@
            },
            logger.spec_max_bytes() == 10_485_760,
            logger.spec_keep_files() == 2,
    {
        if directory_ready {
            Logger::new(r"C:\ProgramData\CloudFolder\fatal.log", 10_485_760, 2)
        } else {
            Logger::new("CloudFolderService-fatal.log", 10_485_760, 2)
        }
    }

    /// The log file.
    pub fn path(&self) -> (path: &str)
        ensures
            path@ == self.spec_path(),
    {
        self.path.as_str()
    }

    /// The line of a message that matters little that is logged at a moment.
    pub fn info(&self, moment: LocalMoment, message: &str) -> (line: Option<String>)
        ensures
            optional(line) == stamped_line(moment, LogLevel::Info, message@),
            line is Some <==> moment.is_datable(),
            moment.spec_timestamp() matches Some(timestamp) ==> is_timestamp(timestamp),
    {
        self.write(moment, LogLevel::Info, message)
    }

    /// The line of a warning that is logged at a moment.
    pub fn warn(&self, moment: LocalMoment, message: &str) -> (line: Option<String>)
        ensures
            optional(line) == stamped_line(moment, LogLevel::Warn, message@),
            line is Some <==> moment.is_datable(),
            moment.spec_timestamp() matches Some(timestamp) ==> is_timestamp(timestamp),
    {
        self.write(moment, LogLevel::Warn, message)
    }

    /// The line of an error that is logged at a moment.
    pub fn error(&self, moment: LocalMoment, message: &str) -> (line: Option<String>)
        ensures
            optional(line) == stamped_line(moment, LogLevel::Error, message@),
            line is Some <==> moment.is_datable(),
            moment.spec_timestamp() matches Some(timestamp) ==> is_timestamp(timestamp),
    {
        self.write(moment, LogLevel::Error, message)
    }

    /// The line of a message that is logged at a moment; nothing where there is no such moment.
    pub fn write(&self, moment: LocalMoment, level: LogLevel, message: &str) -> (line: Option<
        String,
    >)
        ensures
            optional(line) == stamped_line(moment, level, message@),
            line is Some <==> moment.is_datable(),
            moment.spec_timestamp() matches Some(timestamp) ==> is_timestamp(timestamp),
    {
        match local_timestamp(moment.secs, moment.nanos, moment.offset_secs, TIMESTAMP_FORMAT) {
            Some(timestamp) => Some(log_line(timestamp.as_str(), level, message)),
            None => None,
        }
    }

    /// Whether a file of a size is put aside before the next line. A file that is not
    /// there has no size.
    pub fn should_rotate(&self, size: Option<u64>) -> (yes: bool)
        ensures
            yes == is_full(size, self.spec_max_bytes()),
    {
        match size {
            Some(bytes) => bytes >= self.max_bytes,
            None => false,
        }
    }

    /// The steps that put the log aside. The last one is the only one whose failure
    /// matters.
    pub fn rotation_steps(&self) -> (steps: Vec<RotationStep>)
        ensures
            step_views(steps@) == rotation(self.spec_path(), self.spec_keep_files() as nat),
    {
        proof {
            use_type_invariant(self);
        }
        let path = self.path.as_str();
        let keep = self.keep_files;
        let mut steps: Vec<RotationStep> = Vec::new();
        steps.push(RotationStep::Remove { path: rotated_path(path, keep) });
        let ghost head = step_views(steps@);
        assert(head =~= seq![StepView::Remove(rotated(path@, keep as nat))]);
        let ghost aging = aging_steps(path@, (keep - 1) as nat);
        let mut index: usize = keep - 1;
        assert(head + aging =~= step_views(steps@) + aging_steps(path@, index as nat));
        while index >= 1
            invariant
                index < keep,
                head + aging == step_views(steps@) + aging_steps(path@, index as nat),
            decreases index,
        {
            let ghost before = step_views(steps@);
            let step = RotationStep::Move {
                from: rotated_path(path, index),
                to: rotated_path(path, index + 1),
            };
            let ghost view = step@;
            steps.push(step);
            assert(step_views(steps@) =~= before.push(view));
            assert(before + aging_steps(path@, index as nat) =~= before.push(view) + aging_steps(
                path@,
                (index - 1) as nat,
            ));
            index -= 1;
        }
        assert(head + aging =~= step_views(steps@));
        let ghost before = step_views(steps@);
        let last = RotationStep::Move { from: path.to_string(), to: rotated_path(path, 1) };
        let ghost view = last@;
        steps.push(last);
        assert(step_views(steps@) =~= before.push(view));
        assert(step_views(steps@) =~= rotation(path@, keep as nat));
        steps
    }
}

/// A message of one line is logged as one line: when it was written, how much it matters,
/// and the message.
pub proof fn law_message_is_one_line(timestamp: Seq<char>, level: LogLevel, message: Seq<char>)
    requires
        is_timestamp(timestamp),
        !message.contains('\n'),
    ensures
        lines(line_text(timestamp, level, message)) == seq![
            timestamp + " ["@ + level.spec_name() + "] "@ + message,
        ],
{
    reveal_strlit(" [");
    reveal_strlit("] ");
    reveal_strlit("\r\n");
    reveal_strlit("INFO");
    reveal_strlit("WARN");
    reveal_strlit("ERROR");
    let name = level.spec_name();
    let body = timestamp + " ["@ + name + "] "@ + message;
    let text = line_text(timestamp, level, message);
    let at = body.len() as int + 1;
    assert(text =~= body + "\r\n"@);
    assert forall|i: int| 0 <= i < at implies #[trigger] text[i] != '\n' by {
        let n = timestamp.len() as int;
        if i < n {
            assert(text[i] == timestamp[i]);
        } else if i < n + 2 {
            assert(text[i] == " ["@[i - n]);
        } else if i < n + 2 + name.len() {
            assert(text[i] == name[i - n - 2]);
        } else if i < n + 4 + name.len() {
            assert(text[i] == "] "@[i - n - 2 - name.len()]);
        } else if i < body.len() {
            assert(text[i] == message[i - n - 4 - name.len()]);
        }
    }
    assert(text[at] == '\n');
    assert(text.contains('\n'));
    text.index_of_first_ensures('\n');
    assert(text.index_of_first('\n').unwrap() == at);
    assert(text.subrange(0, at) =~= body.push('\r'));
    assert(body.push('\r').drop_last() =~= body);
    assert(text.subrange(at + 1, text.len() as int) =~= Seq::empty());
    assert(seq![body] + lines(Seq::empty()) =~= seq![body]);
}

/// What is in the files of a directory after one step.
pub open spec fn after_step<C>(files: Map<Seq<char>, C>, step: StepView) -> Map<Seq<char>, C> {
    match step {
        StepView::Remove(path) => files.remove(path),
        StepView::Move(from, to) => if files.dom().contains(from) {
            files.remove(from).insert(to, files[from])
        } else {
            files
        },
    }
}

/// What is in the files of a directory after some steps.
pub open spec fn after_steps<C>(files: Map<Seq<char>, C>, steps: Seq<StepView>) -> Map<Seq<char>, C>
    decreases steps.len(),
{
    if steps.len() == 0 {
        files
    } else {
        after_steps(after_step(files, steps.first()), steps.drop_first())
    }
}

/// Whether a path is that of an older file of a log.
pub open spec fn is_rotated(path: Seq<char>, upto: nat, other: Seq<char>) -> bool {
    exists|index: nat| 1 <= index <= upto && other == #[trigger] rotated(path, index)
}

proof fn lemma_rotated_differ(path: Seq<char>, a: nat, b: nat)
    ensures
        rotated(path, a) == rotated(path, b) ==> a == b,
        rotated(path, a) != path,
{
    reveal_strlit(".");
    law_decimal_reads_back(a);
    law_decimal_reads_back(b);
    let head = path + "."@;
    assert(rotated(path, a).skip(head.len() as int) =~= decimal(a));
    assert(rotated(path, b).skip(head.len() as int) =~= decimal(b));
    assert(rotated(path, a).len() > path.len());
}

proof fn lemma_steps_concat<C>(files: Map<Seq<char>, C>, a: Seq<StepView>, b: Seq<StepView>)
    ensures
        after_steps(files, a + b) == after_steps(after_steps(files, a), b),
    decreases a.len(),
{
    if a.len() == 0 {
        assert(a + b =~= b);
    } else {
        assert((a + b).drop_first() =~= a.drop_first() + b);
        lemma_steps_concat(after_step(files, a.first()), a.drop_first(), b);
    }
}

proof fn lemma_aging<C>(files: Map<Seq<char>, C>, path: Seq<char>, upto: nat)
    requires
        !files.dom().contains(rotated(path, upto + 1)),
    ensures
        ({
            let after = after_steps(files, aging_steps(path, upto));
            &&& !after.dom().contains(rotated(path, 1))
            &&& forall|i: nat|
                1 <= i <= upto ==> #[trigger] after.get(rotated(path, i + 1)) == files.get(
                    rotated(path, i),
                )
            &&& forall|other: Seq<char>|
                !is_rotated(path, upto + 1, other) ==> #[trigger] after.get(other) == files.get(
                    other,
                )
        }),
    decreases upto,
{
    if upto > 0 {
        let from = rotated(path, upto);
        let to = rotated(path, upto + 1);
        let steps = aging_steps(path, upto);
        let next = after_step(files, StepView::Move(from, to));
        let rest = aging_steps(path, (upto - 1) as nat);
        lemma_rotated_differ(path, upto, upto + 1);
        assert(steps.first() == StepView::Move(from, to));
        assert(steps.drop_first() =~= rest);
        assert(!next.dom().contains(from));
        lemma_aging(next, path, (upto - 1) as nat);
        let after = after_steps(files, steps);
        assert(!is_rotated(path, upto, to)) by {
            if is_rotated(path, upto, to) {
                let i = choose|i: nat| 1 <= i <= upto && to == #[trigger] rotated(path, i);
                lemma_rotated_differ(path, i, upto + 1);
            }
        }
        assert(after.get(to) == next.get(to));
        assert forall|i: nat| 1 <= i <= upto implies #[trigger] after.get(rotated(path, i + 1))
            == files.get(rotated(path, i)) by {
            if i < upto {
                lemma_rotated_differ(path, i, upto);
                lemma_rotated_differ(path, i, upto + 1);
                assert(next.get(rotated(path, i)) == files.get(rotated(path, i)));
            }
        }
        assert forall|other: Seq<char>| !is_rotated(path, upto + 1, other) implies
            #[trigger] after.get(other) == files.get(other) by {
            assert(!is_rotated(path, upto, other)) by {
                if is_rotated(path, upto, other) {
                    let i = choose|i: nat| 1 <= i <= upto && other == #[trigger] rotated(path, i);
                    assert(1 <= i <= upto + 1 && other == rotated(path, i));
                }
            }
            assert(other != from && other != to) by {
                if other == from {
                    assert(1 <= upto <= upto + 1 && other == rotated(path, upto));
                }
                if other == to {
                    assert(other == rotated(path, upto + 1));
                }
            }
        }
    }
}

/// Putting a log aside loses nothing but the oldest file: the log becomes the newest
/// older file, each of those becomes one older, and every other file stays as it is.
pub proof fn law_rotation_ages_files<C>(files: Map<Seq<char>, C>, path: Seq<char>, keep: nat)
    requires
        keep >= 1,
    ensures
        ({
            let after = after_steps(files, rotation(path, keep));
            &&& !after.dom().contains(path)
            &&& after.get(rotated(path, 1)) == files.get(path)
            &&& forall|i: nat|
                1 <= i < keep ==> #[trigger] after.get(rotated(path, i + 1)) == files.get(
                    rotated(path, i),
                )
            &&& forall|other: Seq<char>|
                other != path && !is_rotated(path, keep, other) ==> #[trigger] after.get(other)
                    == files.get(other)
        }),
{
    let oldest = rotated(path, keep);
    let cut = after_step(files, StepView::Remove(oldest));
    let aging = aging_steps(path, (keep - 1) as nat);
    let aged = after_steps(cut, aging);
    let last = StepView::Move(path, rotated(path, 1));
    let after = after_steps(files, rotation(path, keep));
    let first = seq![StepView::Remove(oldest)];
    lemma_steps_concat(files, first + aging, seq![last]);
    lemma_steps_concat(files, first, aging);
    assert(first.drop_first() =~= Seq::empty());
    assert(after_steps(files, first) == cut) by {
        assert(after_steps(cut, first.drop_first()) == cut);
    }
    assert(seq![last].drop_first() =~= Seq::empty());
    assert(after_steps(aged, seq![last]) == after_step(aged, last)) by {
        assert(after_steps(after_step(aged, last), seq![last].drop_first()) == after_step(
            aged,
            last,
        ));
    }
    assert(after == after_step(aged, last));
    lemma_aging(cut, path, (keep - 1) as nat);
    assert(!is_rotated(path, keep, path)) by {
        if is_rotated(path, keep, path) {
            let i = choose|i: nat| 1 <= i <= keep && path == #[trigger] rotated(path, i);
            lemma_rotated_differ(path, i, i);
        }
    }
    lemma_rotated_differ(path, 1, keep);
    lemma_rotated_differ(path, keep, keep);
    assert(aged.get(path) == cut.get(path));
    assert(cut.get(path) == files.get(path));
    assert forall|i: nat| 1 <= i < keep implies #[trigger] after.get(rotated(path, i + 1))
        == files.get(rotated(path, i)) by {
        lemma_rotated_differ(path, i, keep);
        lemma_rotated_differ(path, i + 1, 1);
        assert(aged.get(rotated(path, i + 1)) == cut.get(rotated(path, i)));
    }
    assert forall|other: Seq<char>| other != path && !is_rotated(path, keep, other) implies
        #[trigger] after.get(other) == files.get(other) by {
        assert(other != rotated(path, 1)) by {
            if other == rotated(path, 1) {
                assert(1 <= 1nat <= keep && other == rotated(path, 1));
            }
        }
        assert(other != oldest) by {
            if other == oldest {
                assert(1 <= keep <= keep && other == rotated(path, keep));
            }
        }
        assert(aged.get(other) == cut.get(other));
    }
}

/// A log is put aside once it has reached the size that it may have, not before, and not where
/// there is none.
pub proof fn law_log_is_put_aside_when_full(bytes: u64, max_bytes: u64)
    ensures
        is_full(Some(max_bytes), max_bytes),
        is_full(Some(bytes), max_bytes) <==> max_bytes <= bytes,
        !is_full(None, max_bytes),
{
}

/// A line of the log holds when it was written, how much it matters and the message, and each
/// level reads differently.
pub proof fn law_line_says_what_matters(
    timestamp: Seq<char>,
    level: LogLevel,
    message: Seq<char>,
    other: LogLevel,
)
    ensures
        ({
            let line = line_text(timestamp, level, message);
            &&& line.take(timestamp.len() as int) == timestamp
            &&& has_text(line, " ["@ + level.spec_name() + "] "@ + message + "\r\n"@)
        }),
        level.spec_name() == other.spec_name() ==> level == other,
{
    reveal_strlit("INFO");
    reveal_strlit("WARN");
    reveal_strlit("ERROR");
    assert("INFO"@[0] == 'I' && "WARN"@[0] == 'W' && "ERROR"@[0] == 'E');
    let line = line_text(timestamp, level, message);
    let rest = " ["@ + level.spec_name() + "] "@ + message + "\r\n"@;
    let none = Seq::<char>::empty();
    assert(line.take(timestamp.len() as int) =~= timestamp);
    assert(line =~= timestamp + rest + none);
    lemma_has_between(timestamp, rest, none);
}

} // verus!
