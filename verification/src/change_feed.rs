//! The change feed of a mount: the helper that runs on the server, how it is started, and
//! what its lines mean for the local view.

use crate::config::Config;
use crate::json::{
    bool_member, json_contents, json_from_text, json_parsed, text_member, unsigned_member,
    JsonView,
};
use crate::logger::{entry_view, info_entry, warn_entry, EntryView, LogEntry};
use crate::rclone::{passes, push_argument};
use crate::shell::{
    lemma_plain_word, lemma_two_quoted_words, quote_posix, quoted, shell_words,
};
use crate::text::{
    all_digits, decimal, decimal_text, digit_char, digit_value, digits_value, has_text,
    law_decimal_reads_back, lemma_has_between, number, occurs_at, optional, push_decimal, to_digit_char, trim, trim_end_kind,
    trimmed, trimmed_end_of, truth, views, CharKind,
};
use serde_json::Value;
use vstd::prelude::*;

verus! {

/// The start of the helper, up to the line for a kernel that names no limit.
pub const SCRIPT_OPENING: &'static str = r#"import ctypes,ctypes.util,json,os,select,struct,sys,time
root=os.path.realpath(sys.argv[1])
libc=ctypes.CDLL(ctypes.util.find_library('c') or 'libc.so.6',use_errno=True)
fd=libc.inotify_init1(0)
if fd<0: raise OSError(ctypes.get_errno(),'inotify_init1')
MASK=0x00000002|0x00000004|0x00000008|0x00000040|0x00000080|0x00000100|0x00000200|0x00000400|0x00000800
ISDIR=0x40000000
OVERFLOW=0x00004000
STRUCTURE=0x00000040|0x00000080|0x00000100|0x00000200|0x00000400|0x00000800|0x00002000
CONTENT=0x00000002|0x00000004|0x00000008
try:
    kernel_limit=int(open('/proc/sys/fs/inotify/max_user_watches').read().strip())
except Exception:
"#;

/// The limit used where the kernel names none.
pub const SCRIPT_KERNEL: &'static str = r#"    kernel_limit="#;

/// From there to the configured limit.
pub const SCRIPT_LIMIT: &'static str = r#"
limit=max(1024,min("#;

/// From there to the watches held in reserve.
pub const SCRIPT_RESERVE: &'static str = r#",max(1024,kernel_limit//4)))
reserve=min("#;

/// The end of the line of the reserve.
pub const SCRIPT_SHARE: &'static str = r#",max(0,limit//4))
"#;

/// From there to the line that waits for events: how directories are watched.
pub const SCRIPT_WATCHES: &'static str = r#"initial_limit=max(1,limit-reserve)
wd_to_path={}
path_to_wd={}
watch_failures=0
watch_exhausted=False
def add_dir(p):
    global watch_failures,watch_exhausted
    p=os.path.realpath(p)
    if p in path_to_wd: return True
    if watch_exhausted or len(path_to_wd)>=limit: return False
    wd=libc.inotify_add_watch(fd,os.fsencode(p),MASK)
    if wd>=0:
        old=wd_to_path.get(wd)
        if old: path_to_wd.pop(old,None)
        wd_to_path[wd]=p; path_to_wd[p]=wd; return True
    watch_failures+=1
    if ctypes.get_errno()==28: watch_exhausted=True
    return False
def add_tree(p,budget):
    before=len(path_to_wd)
    for base,dirs,files in os.walk(p,followlinks=False):
        if watch_exhausted or len(path_to_wd)>=budget: break
        add_dir(base)
    return len(path_to_wd)-before
PROJECT_MARKERS={'.git','.cloudfolder.toml','pyproject.toml','Cargo.toml','package.json','go.mod'}
DISCOVERY_SKIP={'.cache','.npm','.rustup','.local','.conda','node_modules','target','__pycache__','.venv','venv'}
DISCOVERY_DEPTH=5
add_dir(root)
projects=[]; scanned=0
for base,dirs,files in os.walk(root,topdown=True,followlinks=False):
    scanned+=1
    rel=os.path.relpath(base,root); depth=0 if rel=='.' else rel.count(os.sep)+1
    names=set(dirs)|set(files)
    is_project=bool(PROJECT_MARKERS & names)
    if depth<=2: add_dir(base)
    if is_project:
        projects.append(base); dirs[:]=[]; continue
    dirs[:]=[d for d in dirs if d not in DISCOVERY_SKIP]
    if depth>=DISCOVERY_DEPTH: dirs[:]=[]
for p in sorted(projects,key=len):
    if watch_exhausted or len(path_to_wd)>=initial_limit: break
    add_tree(p,initial_limit)
degraded=watch_failures>0 or len(path_to_wd)>=initial_limit or (scanned>len(path_to_wd) and not projects)
print(json.dumps({'ready_dirs':len(path_to_wd),'scanned_dirs':scanned,'project_roots':len(projects),'watch_limit':limit,'watch_failures':watch_failures,'degraded':degraded}),flush=True)
pending={}
last=time.monotonic()
while True:
"#;

/// The line that waits for events, up to how long.
pub const SCRIPT_SELECT: &'static str = r#"    ready,_,_=select.select([fd],[],[],"#;

/// The end of that line.
pub const SCRIPT_WAITED: &'static str = r#")
"#;

/// From there to the line of the quiet time after the last event: how events are gathered. What is made,
/// deleted or moved changes the directory that it lies in, and is gathered by that directory:
/// a rename within one directory is one change. New contents change the file alone.
pub const SCRIPT_EVENTS: &'static str = r#"    if ready:
        data=os.read(fd,1024*1024); off=0
        while off+16<=len(data):
            wd,mask,cookie,nlen=struct.unpack_from('iIII',data,off); off+=16
            raw=data[off:off+nlen]; off+=nlen
            name=os.fsdecode(raw.split(b'\0',1)[0]) if nlen else ''
            base=wd_to_path.get(wd,root); full=os.path.join(base,name) if name else base
            if mask & OVERFLOW:
                print(json.dumps({'overflow':True}),flush=True); continue
            new_dir=bool(mask & ISDIR and mask & (0x00000100|0x00000080) and os.path.isdir(full))
            if new_dir: add_tree(full,limit)
            if mask & (0x00000400|0x00000800):
                old=wd_to_path.pop(wd,None)
                if old: path_to_wd.pop(old,None)
            rel=os.path.relpath(full,root)
            if rel.startswith('..'): continue
            parent=os.path.dirname(rel) or '.'
            if mask & STRUCTURE: pending[('',parent)]=1
            elif mask & CONTENT: pending[(rel,'')]=1
            if new_dir: pending[('',rel)]=1
        last=time.monotonic()
"#;

/// The line of the quiet time after the last event, up to how long.
pub const SCRIPT_QUIET: &'static str = r#"    elif pending and time.monotonic()-last>="#;

/// The end of that line.
pub const SCRIPT_PASSED: &'static str = r#":
"#;

/// The end of the helper: how gathered events are sent. A burst is sent by directory.
pub const SCRIPT_FLUSH: &'static str = r#"        if len(pending)<=512:
            for rel,parent in pending:
                print(json.dumps({'file':rel.replace(os.sep,'/'),'dir':parent.replace(os.sep,'/')}),flush=True)
        else:
            dirs=sorted({parent or os.path.dirname(rel) or '.' for rel,parent in pending})
            for parent in dirs:
                print(json.dumps({'file':'','dir':parent.replace(os.sep,'/'),'bulk_events':len(pending)}),flush=True)
        pending.clear()
"#;

/// The milliseconds that a debounce time is held to.
pub open spec fn held_millis(debounce_ms: u64) -> nat {
    if debounce_ms < 25 {
        25
    } else if debounce_ms > 5000 {
        5000
    } else {
        debounce_ms as nat
    }
}

/// Thousandths as decimal places, without zeros at the end; nothing where there are none.
pub open spec fn places(thousandths: nat) -> Seq<char> {
    if thousandths == 0 {
        ""@
    } else if thousandths % 100 == 0 {
        "."@ + seq![digit_char(thousandths / 100)]
    } else if thousandths % 10 == 0 {
        "."@ + seq![digit_char(thousandths / 100), digit_char(thousandths / 10 % 10)]
    } else {
        "."@ + seq![
            digit_char(thousandths / 100),
            digit_char(thousandths / 10 % 10),
            digit_char(thousandths % 10),
        ]
    }
}

/// A debounce time in seconds, between a fortieth of a second and five seconds.
pub open spec fn debounce_seconds(debounce_ms: u64) -> Seq<char> {
    let millis = held_millis(debounce_ms);
    decimal(millis / 1000) + places(millis % 1000)
}

/// A debounce time in seconds, between a fortieth of a second and five seconds.
pub fn debounce_text(debounce_ms: u64) -> (text: String)
    ensures
        text@ == debounce_seconds(debounce_ms),
{
    let millis: u64 = if debounce_ms < 25 {
        25
    } else if debounce_ms > 5000 {
        5000
    } else {
        debounce_ms
    };
    let mut text = decimal_text(millis / 1000);
    let rest: u64 = millis % 1000;
    proof {
        reveal_strlit("");
        reveal_strlit(".");
    }
    if rest != 0 {
        text.append(".");
        text.push(to_digit_char((rest / 100) as u8));
        if rest % 100 != 0 {
            text.push(to_digit_char((rest / 10 % 10) as u8));
            if rest % 10 != 0 {
                text.push(to_digit_char((rest % 10) as u8));
            }
        }
    }
    assert(text@ =~= debounce_seconds(debounce_ms));
    text
}

/// The helper that runs on the server: it watches directories for changes, within a budget,
/// and prints a line for each change once a quiet time has passed. A line names the directory
/// whose entries changed or the file whose contents did.
pub open spec fn feed_script(debounce_ms: u64, configured_max: u64, reserve: u64) -> Seq<char> {
    SCRIPT_OPENING@ + SCRIPT_KERNEL@ + decimal(configured_max as nat) + SCRIPT_LIMIT@ + decimal(
        configured_max as nat,
    ) + SCRIPT_RESERVE@ + decimal(reserve as nat) + SCRIPT_SHARE@ + SCRIPT_WATCHES@ + SCRIPT_SELECT@
        + debounce_seconds(debounce_ms) + SCRIPT_WAITED@ + SCRIPT_EVENTS@ + SCRIPT_QUIET@
        + debounce_seconds(debounce_ms) + SCRIPT_PASSED@ + SCRIPT_FLUSH@
}

/// The helper that runs on the server.
pub fn remote_change_feed_script(debounce_ms: u64, configured_max: u64, reserve: u64) -> (script:
    String)
    ensures
        script@ == feed_script(debounce_ms, configured_max, reserve),
{
    let debounce = debounce_text(debounce_ms);
    let mut script = SCRIPT_OPENING.to_string();
    script.append(SCRIPT_KERNEL);
    push_decimal(&mut script, configured_max);
    script.append(SCRIPT_LIMIT);
    push_decimal(&mut script, configured_max);
    script.append(SCRIPT_RESERVE);
    push_decimal(&mut script, reserve);
    script.append(SCRIPT_SHARE);
    script.append(SCRIPT_WATCHES);
    script.append(SCRIPT_SELECT);
    script.append(debounce.as_str());
    script.append(SCRIPT_WAITED);
    script.append(SCRIPT_EVENTS);
    script.append(SCRIPT_QUIET);
    script.append(debounce.as_str());
    script.append(SCRIPT_PASSED);
    script.append(SCRIPT_FLUSH);
    script
}

/// The command that starts the helper on the server.
pub open spec fn feed_command(config: Config) -> Seq<char> {
    "exec python3 -u -c "@ + quoted(
        feed_script(
            config.change_feed.debounce_ms,
            config.change_feed.max_watches,
            config.change_feed.reserve_watches,
        ),
    ) + " "@ + quoted(config.change_feed.remote_root@)
}

/// The command that starts the helper on the server.
pub fn remote_feed_command(config: &Config) -> (command: String)
    ensures
        command@ == feed_command(*config),
{
    let script = remote_change_feed_script(
        config.change_feed.debounce_ms,
        config.change_feed.max_watches,
        config.change_feed.reserve_watches,
    );
    let mut command = "exec python3 -u -c ".to_string();
    command.append(quote_posix(script.as_str()).as_str());
    command.append(" ");
    command.append(quote_posix(config.change_feed.remote_root.as_str()).as_str());
    command
}

/// A shell on the server runs the helper with the configured directory as its one argument,
/// whatever characters either holds.
pub proof fn law_feed_runs_helper(config: Config)
    ensures
        shell_words(feed_command(config)) == Some(
            seq![
                "exec"@,
                "python3"@,
                "-u"@,
                "-c"@,
                feed_script(
                    config.change_feed.debounce_ms,
                    config.change_feed.max_watches,
                    config.change_feed.reserve_watches,
                ),
                config.change_feed.remote_root@,
            ],
        ),
{
    let script = feed_script(
        config.change_feed.debounce_ms,
        config.change_feed.max_watches,
        config.change_feed.reserve_watches,
    );
    let root = config.change_feed.remote_root@;
    let last = seq![script, root];
    reveal_strlit("exec python3 -u -c ");
    reveal_strlit("exec");
    reveal_strlit("python3");
    reveal_strlit("-u");
    reveal_strlit("-c");
    reveal_strlit(" ");
    lemma_two_quoted_words(script, root);
    let third = "-c"@ + " "@ + (quoted(script) + " "@ + quoted(root));
    let second = "-u"@ + " "@ + third;
    let first = "python3"@ + " "@ + second;
    assert(feed_command(config) =~= "exec"@ + " "@ + first);
    lemma_plain_word("exec"@, first);
    lemma_plain_word("python3"@, second);
    lemma_plain_word("-u"@, third);
    lemma_plain_word("-c"@, quoted(script) + " "@ + quoted(root));
    assert(seq!["exec"@] + (seq!["python3"@] + (seq!["-u"@] + (seq!["-c"@] + last))) =~= seq![
        "exec"@,
        "python3"@,
        "-u"@,
        "-c"@,
        script,
        root,
    ]);
}

/// The arguments with which ssh runs the helper.
pub open spec fn feed_argument_texts(config: Config) -> Seq<Seq<char>> {
    seq![
        "-F"@,
        config.change_feed.ssh_config@,
        "-o"@,
        "BatchMode=yes"@,
        "-o"@,
        "ServerAliveInterval=15"@,
        "-o"@,
        "ServerAliveCountMax=3"@,
        config.change_feed.ssh_target@,
        feed_command(config),
    ]
}

/// The arguments with which ssh runs the helper.
pub fn feed_arguments(config: &Config) -> (arguments: Vec<String>)
    ensures
        views(arguments@) == feed_argument_texts(*config),
{
    let mut arguments: Vec<String> = Vec::new();
    assert(views(arguments@) =~= Seq::empty());
    push_argument(&mut arguments, "-F");
    push_argument(&mut arguments, config.change_feed.ssh_config.as_str());
    push_argument(&mut arguments, "-o");
    push_argument(&mut arguments, "BatchMode=yes");
    push_argument(&mut arguments, "-o");
    push_argument(&mut arguments, "ServerAliveInterval=15");
    push_argument(&mut arguments, "-o");
    push_argument(&mut arguments, "ServerAliveCountMax=3");
    push_argument(&mut arguments, config.change_feed.ssh_target.as_str());
    push_argument(&mut arguments, remote_feed_command(config).as_str());
    arguments
}

/// What is logged when ssh was started as process `pid`.
pub fn connected_entry(config: &Config, pid: u32) -> (entry: LogEntry)
    ensures
        Some(entry@) == info_entry(
            "change feed connected target="@ + config.change_feed.ssh_target@ + " root="@
                + config.change_feed.remote_root@ + " pid="@ + decimal(pid as nat),
        ),
{
    let mut message = "change feed connected target=".to_string();
    message.append(config.change_feed.ssh_target.as_str());
    message.append(" root=");
    message.append(config.change_feed.remote_root.as_str());
    message.append(" pid=");
    push_decimal(&mut message, pid as u64);
    LogEntry::info(message)
}

/// What is logged when ssh ended.
pub fn disconnected_entry(status: &str, stderr: &str) -> (entry: LogEntry)
    ensures
        Some(entry@) == warn_entry(
            "change feed disconnected ("@ + status@ + "); "@ + trim(stderr@),
        ),
{
    let mut message = "change feed disconnected (".to_string();
    message.append(status);
    message.append("); ");
    message.append(trimmed(stderr).as_str());
    LogEntry::warn(message)
}

/// What is logged when the local view could not be told of a change.
pub fn forget_failed_entry(file: &str, dir: &str) -> (entry: LogEntry)
    ensures
        Some(entry@) == warn_entry(
            "targeted VFS invalidation failed for file='"@ + file@ + "' dir='"@ + dir@ + "'"@,
        ),
{
    let mut message = "targeted VFS invalidation failed for file='".to_string();
    message.append(file);
    message.append("' dir='");
    message.append(dir);
    message.append("'");
    LogEntry::warn(message)
}

/// What a line of the helper says.
#[derive(Clone, Debug, PartialEq, Eq)]
pub struct FeedFields {
    pub ready_dirs: Option<u64>,
    pub scanned_dirs: Option<u64>,
    pub project_roots: Option<u64>,
    pub watch_failures: Option<u64>,
    pub watch_limit: Option<u64>,
    pub degraded: Option<bool>,
    pub overflow: Option<bool>,
    pub file: Option<String>,
    pub dir: Option<String>,
}

/// What a line of the helper says, by its text.
#[verifier::ext_equal]
pub struct FieldsView {
    pub ready_dirs: Option<u64>,
    pub scanned_dirs: Option<u64>,
    pub project_roots: Option<u64>,
    pub watch_failures: Option<u64>,
    pub watch_limit: Option<u64>,
    pub degraded: Option<bool>,
    pub overflow: Option<bool>,
    pub file: Option<Seq<char>>,
    pub dir: Option<Seq<char>>,
}

impl View for FeedFields {
    type V = FieldsView;

    open spec fn view(&self) -> FieldsView {
        FieldsView {
            ready_dirs: self.ready_dirs,
            scanned_dirs: self.scanned_dirs,
            project_roots: self.project_roots,
            watch_failures: self.watch_failures,
            watch_limit: self.watch_limit,
            degraded: self.degraded,
            overflow: self.overflow,
            file: optional(self.file),
            dir: optional(self.dir),
        }
    }
}

/// What the value of a line says.
pub open spec fn fields_of(value: JsonView) -> FieldsView {
    FieldsView {
        ready_dirs: value.unsigned_member("ready_dirs"@),
        scanned_dirs: value.unsigned_member("scanned_dirs"@),
        project_roots: value.unsigned_member("project_roots"@),
        watch_failures: value.unsigned_member("watch_failures"@),
        watch_limit: value.unsigned_member("watch_limit"@),
        degraded: value.bool_member("degraded"@),
        overflow: value.bool_member("overflow"@),
        file: value.text_member("file"@),
        dir: value.text_member("dir"@),
    }
}

/// What the value of a line says.
pub fn feed_fields(value: &Value) -> (fields: FeedFields)
    ensures
        fields@ == fields_of(json_contents(*value)),
{
    FeedFields {
        ready_dirs: unsigned_member(value, "ready_dirs"),
        scanned_dirs: unsigned_member(value, "scanned_dirs"),
        project_roots: unsigned_member(value, "project_roots"),
        watch_failures: unsigned_member(value, "watch_failures"),
        watch_limit: unsigned_member(value, "watch_limit"),
        degraded: bool_member(value, "degraded"),
        overflow: bool_member(value, "overflow"),
        file: text_member(value, "file"),
        dir: text_member(value, "dir"),
    }
}

/// What is done about a line of the helper.
#[derive(Clone, Debug, PartialEq, Eq)]
pub enum FeedAction {
    Nothing,
    /// Forget the whole local view.
    ForgetAll,
    /// Forget a file, a directory, or both; an empty name names none.
    Forget { file: String, dir: String },
}

/// What is done about a line of the helper, by its text.
#[verifier::ext_equal]
pub enum ActionView {
    Nothing,
    ForgetAll,
    Forget(Seq<char>, Seq<char>),
}

impl View for FeedAction {
    type V = ActionView;

    open spec fn view(&self) -> ActionView {
        match self {
            FeedAction::Nothing => ActionView::Nothing,
            FeedAction::ForgetAll => ActionView::ForgetAll,
            FeedAction::Forget { file, dir } => ActionView::Forget(file@, dir@),
        }
    }
}

/// A number, or zero where there is none.
pub open spec fn or_zero(number: Option<u64>) -> nat {
    match number {
        Some(number) => number as nat,
        None => 0,
    }
}

/// A text, or the empty one where there is none.
pub open spec fn or_empty(text: Option<Seq<char>>) -> Seq<char> {
    match text {
        Some(text) => text,
        None => ""@,
    }
}

/// What is done about what a line says: a report of readiness comes before an overflow, and
/// an overflow before a change.
pub open spec fn feed_action(fields: FieldsView) -> ActionView {
    let file = or_empty(fields.file);
    let dir = or_empty(fields.dir);
    if fields.ready_dirs is Some {
        ActionView::Nothing
    } else if fields.overflow == Some(true) {
        ActionView::ForgetAll
    } else if file.len() > 0 || dir.len() > 0 {
        ActionView::Forget(file, dir)
    } else {
        ActionView::Nothing
    }
}

/// What is logged of what a line says.
pub open spec fn feed_entry(fields: FieldsView) -> Option<EntryView> {
    match fields.ready_dirs {
        Some(ready) => info_entry(
            "change feed ready; watched_dirs="@ + decimal(ready as nat) + " scanned_dirs="@
                + decimal(or_zero(fields.scanned_dirs)) + " project_roots="@ + decimal(
                or_zero(fields.project_roots),
            ) + " watch_limit="@ + decimal(or_zero(fields.watch_limit)) + " watch_failures="@
                + decimal(or_zero(fields.watch_failures)) + " degraded="@ + truth(
                fields.degraded == Some(true),
            ),
        ),
        None => if fields.overflow == Some(true) {
            warn_entry("change feed queue overflow; invalidating the full VFS directory cache"@)
        } else {
            None
        },
    }
}

/// Appends a number, or zero where there is none.
fn push_or_zero(text: &mut String, number: Option<u64>)
    ensures
        final(text)@ == old(text)@ + decimal(or_zero(number)),
{
    match number {
        Some(number) => push_decimal(text, number),
        None => push_decimal(text, 0),
    }
}

/// What is done about what a line says, and what is logged of it.
pub fn decide_feed(fields: &FeedFields) -> (decision: (FeedAction, Option<LogEntry>))
    ensures
        decision.0@ == feed_action(fields@),
        entry_view(decision.1) == feed_entry(fields@),
{
    proof {
        reveal_strlit("");
    }
    let degraded = match fields.degraded {
        Some(yes) => yes,
        None => false,
    };
    let overflow = match fields.overflow {
        Some(yes) => yes,
        None => false,
    };
    match fields.ready_dirs {
        Some(ready) => {
            let mut message = "change feed ready; watched_dirs=".to_string();
            push_decimal(&mut message, ready);
            message.append(" scanned_dirs=");
            push_or_zero(&mut message, fields.scanned_dirs);
            message.append(" project_roots=");
            push_or_zero(&mut message, fields.project_roots);
            message.append(" watch_limit=");
            push_or_zero(&mut message, fields.watch_limit);
            message.append(" watch_failures=");
            push_or_zero(&mut message, fields.watch_failures);
            message.append(" degraded=");
            if degraded {
                message.append("true");
            } else {
                message.append("false");
            }
            (FeedAction::Nothing, Some(LogEntry::info(message)))
        },
        None => if overflow {
            let message = "change feed queue overflow; invalidating the full VFS directory cache";
            (FeedAction::ForgetAll, Some(LogEntry::warn(message.to_string())))
        } else {
            let file = match &fields.file {
                Some(file) => file.clone(),
                None => "".to_string(),
            };
            let dir = match &fields.dir {
                Some(dir) => dir.clone(),
                None => "".to_string(),
            };
            assert(file@ == or_empty(fields@.file));
            assert(dir@ == or_empty(fields@.dir));
            if !file.as_str().is_empty() || !dir.as_str().is_empty() {
                (FeedAction::Forget { file, dir }, None)
            } else {
                (FeedAction::Nothing, None)
            }
        },
    }
}

/// What is done about a line of the helper: nothing where it is not JSON.
pub open spec fn line_action(line: Seq<char>) -> ActionView {
    match json_parsed(trim_end_kind(line, CharKind::LineBreak)) {
        Some(value) => feed_action(fields_of(value)),
        None => ActionView::Nothing,
    }
}

/// What is logged of a line of the helper.
pub open spec fn line_entry(line: Seq<char>) -> Option<EntryView> {
    match json_parsed(trim_end_kind(line, CharKind::LineBreak)) {
        Some(value) => feed_entry(fields_of(value)),
        None => None,
    }
}

/// What is done about a line of the helper, and what is logged of it.
pub fn handle_feed_line(line: &str) -> (decision: (FeedAction, Option<LogEntry>))
    ensures
        decision.0@ == line_action(line@),
        entry_view(decision.1) == line_entry(line@),
{
    let text = trimmed_end_of(line, CharKind::LineBreak);
    match json_from_text(text.as_str()) {
        Some(value) => {
            let fields = feed_fields(&value);
            decide_feed(&fields)
        },
        None => (FeedAction::Nothing, None),
    }
}

/// An overflow makes the whole local view be forgotten, and a change only what it names: no
/// line makes the local view forget anything else.
pub proof fn law_only_named_changes_are_forgotten(line: Seq<char>)
    ensures
        match json_parsed(trim_end_kind(line, CharKind::LineBreak)) {
            None => line_action(line) is Nothing,
            Some(value) => {
                let said = fields_of(value);
                match line_action(line) {
                    ActionView::Nothing => said.ready_dirs is Some || (said.overflow != Some(true)
                        && or_empty(said.file).len() == 0 && or_empty(said.dir).len() == 0),
                    ActionView::ForgetAll => said.ready_dirs is None && said.overflow == Some(true),
                    ActionView::Forget(file, dir) => said.ready_dirs is None && said.overflow
                        != Some(true) && file == or_empty(said.file) && dir == or_empty(said.dir)
                        && (file.len() > 0 || dir.len() > 0),
                }
            },
        },
{
}

/// The helper keeps to what is configured: its budget of watches is capped at the configured
/// limit and at a fourth of what the kernel allows, its reserve at the configured one and at a
/// fourth of the budget, and it waits and gathers for the configured time. A kernel that names
/// no limit counts as one that names the configured one.
pub proof fn law_helper_keeps_to_its_budget(debounce_ms: u64, configured_max: u64, reserve: u64)
    ensures
        ({
            let script = feed_script(debounce_ms, configured_max, reserve);
            let most = decimal(configured_max as nat);
            let kept = decimal(reserve as nat);
            let quiet = debounce_seconds(debounce_ms);
            &&& has_text(
                script,
                "    kernel_limit="@ + most + "\nlimit=max(1024,min("@ + most
                    + ",max(1024,kernel_limit//4)))\nreserve=min("@ + kept + ",max(0,limit//4))\n"@,
            )
            &&& has_text(script, "    ready,_,_=select.select([fd],[],[],"@ + quiet + ")\n"@)
            &&& has_text(script, "    elif pending and time.monotonic()-last>="@ + quiet + ":\n"@)
            &&& number(most, 10, u64::MAX as nat) == Some(configured_max as nat)
            &&& number(kept, 10, u64::MAX as nat) == Some(reserve as nat)
        }),
{
    let script = feed_script(debounce_ms, configured_max, reserve);
    let most = decimal(configured_max as nat);
    let kept = decimal(reserve as nat);
    let quiet = debounce_seconds(debounce_ms);
    let budget = SCRIPT_KERNEL@ + most + SCRIPT_LIMIT@ + most + SCRIPT_RESERVE@ + kept
        + SCRIPT_SHARE@;
    let wait = SCRIPT_SELECT@ + quiet + SCRIPT_WAITED@;
    let pause = SCRIPT_QUIET@ + quiet + SCRIPT_PASSED@;
    law_decimal_reads_back(configured_max as nat);
    law_decimal_reads_back(reserve as nat);
    let after_budget = SCRIPT_WATCHES@ + wait + SCRIPT_EVENTS@ + pause + SCRIPT_FLUSH@;
    assert(script =~= SCRIPT_OPENING@ + budget + after_budget);
    lemma_has_between(SCRIPT_OPENING@, budget, after_budget);
    let before_wait = SCRIPT_OPENING@ + budget + SCRIPT_WATCHES@;
    let after_wait = SCRIPT_EVENTS@ + pause + SCRIPT_FLUSH@;
    assert(script =~= before_wait + wait + after_wait);
    lemma_has_between(before_wait, wait, after_wait);
    let before_pause = before_wait + wait + SCRIPT_EVENTS@;
    assert(script =~= before_pause + pause + SCRIPT_FLUSH@);
    lemma_has_between(before_pause, pause, SCRIPT_FLUSH@);
}

/// The milliseconds that a number of seconds with up to three decimal places writes.
pub open spec fn read_seconds(text: Seq<char>) -> Option<nat> {
    if !text.contains('.') {
        match number(text, 10, u64::MAX as nat) {
            Some(whole) => Some(1000 * whole),
            None => None,
        }
    } else {
        let at = text.index_of_first('.').unwrap();
        let part = text.skip(at + 1);
        match (number(text.take(at), 10, u64::MAX as nat), number(part, 10, 999)) {
            (Some(whole), Some(rest)) => if part.len() == 1 {
                Some(1000 * whole + 100 * rest)
            } else if part.len() == 2 {
                Some(1000 * whole + 10 * rest)
            } else if part.len() == 3 {
                Some(1000 * whole + rest)
            } else {
                None
            },
            _ => None,
        }
    }
}

proof fn lemma_places(rest: nat)
    requires
        0 < rest < 1000,
    ensures
        ({
            let part = places(rest).skip(1);
            &&& places(rest).len() >= 2
            &&& places(rest)[0] == '.'
            &&& all_digits(part, 10)
            &&& part.len() == 1 ==> 100 * digits_value(part, 10) == rest
            &&& part.len() == 2 ==> 10 * digits_value(part, 10) == rest
            &&& part.len() == 3 ==> digits_value(part, 10) == rest
            &&& part.len() <= 3
            &&& digits_value(part, 10) <= 999
            &&& part.last() != '0'
        }),
{
    reveal_strlit(".");
    reveal_with_fuel(digits_value, 4);
    let part = places(rest).skip(1);
    let a = rest / 100;
    let b = rest / 10 % 10;
    let c = rest % 10;
    assert(rest == 100 * a + 10 * b + c);
    if rest % 100 == 0 {
        assert(part =~= seq![digit_char(a)]);
        assert(part.drop_last() =~= Seq::empty());
    } else if rest % 10 == 0 {
        assert(part =~= seq![digit_char(a), digit_char(b)]);
        assert(part.drop_last() =~= seq![digit_char(a)]);
        assert(part.drop_last().drop_last() =~= Seq::empty());
    } else {
        assert(part =~= seq![digit_char(a), digit_char(b), digit_char(c)]);
        assert(part.drop_last() =~= seq![digit_char(a), digit_char(b)]);
        assert(part.drop_last().drop_last() =~= seq![digit_char(a)]);
        assert(part.drop_last().drop_last().drop_last() =~= Seq::empty());
    }
}

/// The debounce time that the helper is given is the configured one, held between 25 and 5000
/// milliseconds, exactly and without idle zeros.
pub proof fn law_debounce_is_exact(debounce_ms: u64)
    ensures
        read_seconds(debounce_seconds(debounce_ms)) == Some(
            if debounce_ms < 25 {
                25nat
            } else if debounce_ms > 5000 {
                5000nat
            } else {
                debounce_ms as nat
            },
        ),
        debounce_seconds(debounce_ms).contains('.') ==> debounce_seconds(debounce_ms).last() != '0',
{
    let millis = held_millis(debounce_ms);
    let whole = decimal(millis / 1000);
    let rest = millis % 1000;
    let text = debounce_seconds(debounce_ms);
    law_decimal_reads_back(millis / 1000);
    assert(!whole.contains('.')) by {
        if whole.contains('.') {
            let i = choose|i: int| 0 <= i < whole.len() && whole[i] == '.';
            assert(digit_value(whole[i], 10) is Some);
        }
    }
    if rest == 0 {
        reveal_strlit("");
        assert(text =~= whole);
    } else {
        lemma_places(rest);
        let at = whole.len() as int;
        assert(text[at] == '.');
        assert(text.contains('.'));
        text.index_of_first_ensures('.');
        assert(text.index_of_first('.').unwrap() == at) by {
            let found = text.index_of_first('.').unwrap();
            if found < at {
                assert(whole[found] == text[found]);
                assert(whole.contains('.'));
            }
        }
        assert(text.take(at) =~= whole);
        assert(text.skip(at + 1) =~= places(rest).skip(1));
        assert(text.last() == places(rest).skip(1).last());
    }
}

/// What a line of the helper makes the local view forget: all of it where the helper lost track,
/// otherwise the file and the directory that the line names. A line that reports readiness
/// makes it forget nothing, and so does one that names nothing.
pub proof fn law_changes_reach_the_local_view(line: Seq<char>, value: JsonView, file: Seq<char>, dir: Seq<char>)
    requires
        json_parsed(trim_end_kind(line, CharKind::LineBreak)) == Some(value),
    ensures
        ({
            let ready = value.member("ready_dirs"@) matches Some(JsonView::Unsigned(_));
            let lost = value.member("overflow"@) == Some(JsonView::Bool(true));
            let names_file = value.member("file"@) == Some(JsonView::Text(file)) && file.len() > 0;
            let names_dir = value.member("dir"@) == Some(JsonView::Text(dir)) && dir.len() > 0;
            let no_file = value.member("file"@) is None || value.member("file"@) == Some(
                JsonView::Text(Seq::empty()),
            );
            let no_dir = value.member("dir"@) is None || value.member("dir"@) == Some(
                JsonView::Text(Seq::empty()),
            );
            &&& ready ==> line_action(line) is Nothing && line_entry(line) is Some
            &&& !ready && lost ==> line_action(line) is ForgetAll && line_entry(line) is Some
            &&& !ready && !lost && names_file && names_dir ==> line_action(line)
                == ActionView::Forget(file, dir)
            &&& !ready && !lost && names_file && no_dir ==> line_action(line) == ActionView::Forget(
                file,
                Seq::empty(),
            )
            &&& !ready && !lost && no_file && names_dir ==> line_action(line) == ActionView::Forget(
                Seq::empty(),
                dir,
            )
            &&& !ready && !lost && no_file && no_dir ==> line_action(line) is Nothing
            &&& !ready && !lost ==> line_entry(line) is None
        }),
{
    reveal_strlit("");
    assert(""@ =~= Seq::empty());
}

/// A line is the same with and without its end.
pub proof fn law_line_end_does_not_matter(line: Seq<char>, end: Seq<char>)
    requires
        forall|i: int| 0 <= i < end.len() ==> #[trigger] end[i] == '\r' || end[i] == '\n',
    ensures
        line_action(line + end) == line_action(line),
        line_entry(line + end) == line_entry(line),
    decreases end.len(),
{
    let all = line + end;
    if end.len() == 0 {
        assert(all =~= line);
    } else {
        let less = end.drop_last();
        assert(all.last() == end[end.len() - 1]);
        assert(all.drop_last() =~= line + less);
        assert forall|i: int| 0 <= i < less.len() implies #[trigger] less[i] == '\r' || less[i]
            == '\n' by {
            assert(less[i] == end[i]);
        }
        law_line_end_does_not_matter(line, less);
        assert(trim_end_kind(all, CharKind::LineBreak) == trim_end_kind(
            line + less,
            CharKind::LineBreak,
        ));
    }
}

/// The helper is run over ssh by the configuration of the mount: with its own file, against its
/// own target, without a question, and as the last argument.
pub proof fn law_feed_connects_as_configured(config: Config)
    ensures
        ({
            let told = feed_argument_texts(config);
            let n = told.len() as int;
            &&& n >= 2
            &&& told[n - 1] == feed_command(config)
            &&& told[n - 2] == config.change_feed.ssh_target@
            &&& passes(told, "-F"@, config.change_feed.ssh_config@)
            &&& passes(told, "-o"@, "BatchMode=yes"@)
            &&& passes(told, "-o"@, "ServerAliveInterval=15"@)
            &&& passes(told, "-o"@, "ServerAliveCountMax=3"@)
        }),
{
    let told = feed_argument_texts(config);
    assert(told[0] == "-F"@ && told[2] == "-o"@ && told[4] == "-o"@ && told[6] == "-o"@);
}

/// What the helper reports when it is ready is told with every number that it reports, each
/// behind its own word; one that it does not report is told as zero.
pub proof fn law_readiness_is_told(fields: FieldsView, ready: u64)
    requires
        fields.ready_dirs == Some(ready),
    ensures
        ({
            let entry = feed_entry(fields);
            let said = |number: Option<u64>|
                decimal(
                    if number is Some {
                        number->0 as nat
                    } else {
                        0
                    },
                );
            &&& entry is Some
            &&& entry->0.level is Info
            &&& has_text(
                entry->0.message,
                "watched_dirs="@ + decimal(ready as nat) + " scanned_dirs="@ + said(
                    fields.scanned_dirs,
                ) + " project_roots="@ + said(fields.project_roots) + " watch_limit="@ + said(
                    fields.watch_limit,
                ) + " watch_failures="@ + said(fields.watch_failures) + " degraded="@,
            )
            &&& fields.degraded == Some(true) ==> entry->0.message.last() == 'e'
                && entry->0.message[entry->0.message.len() - 2] == 'u'
            &&& fields.degraded != Some(true) ==> entry->0.message[entry->0.message.len() - 2]
                == 's'
        }),
{
    reveal_strlit("true");
    reveal_strlit("false");
    reveal_strlit("change feed ready; watched_dirs=");
    reveal_strlit("change feed ready; ");
    reveal_strlit("watched_dirs=");
    let a = "change feed ready; "@;
    let middle = "watched_dirs="@ + decimal(ready as nat) + " scanned_dirs="@ + decimal(
        or_zero(fields.scanned_dirs),
    ) + " project_roots="@ + decimal(or_zero(fields.project_roots)) + " watch_limit="@ + decimal(
        or_zero(fields.watch_limit),
    ) + " watch_failures="@ + decimal(or_zero(fields.watch_failures)) + " degraded="@;
    let end = truth(fields.degraded == Some(true));
    let message = feed_entry(fields)->0.message;
    assert(message =~= a + middle + end);
    lemma_has_between(a, middle, end);
    assert(message.last() == end.last());
    assert(message[message.len() - 2] == end[end.len() - 2]);
}

/// What the helper reports is read under the names by which it reports it.
pub proof fn law_reports_are_read_by_name(value: JsonView)
    ensures
        ({
            let fields = fields_of(value);
            &&& fields.ready_dirs == value.unsigned_member("ready_dirs"@)
            &&& fields.scanned_dirs == value.unsigned_member("scanned_dirs"@)
            &&& fields.project_roots == value.unsigned_member("project_roots"@)
            &&& fields.watch_failures == value.unsigned_member("watch_failures"@)
            &&& fields.watch_limit == value.unsigned_member("watch_limit"@)
            &&& fields.degraded == value.bool_member("degraded"@)
            &&& fields.overflow == value.bool_member("overflow"@)
            &&& fields.file == value.text_member("file"@)
            &&& fields.dir == value.text_member("dir"@)
        }),
{
}

/// A report that is not one of readiness is told exactly where changes were lost, as a warning.
pub proof fn law_lost_changes_are_told(fields: FieldsView)
    requires
        fields.ready_dirs is None,
    ensures
        feed_entry(fields) is Some <==> fields.overflow == Some(true),
        feed_entry(fields) matches Some(entry) ==> entry.level is Warn && entry.message
            == "change feed queue overflow; invalidating the full VFS directory cache"@,
{
}

} // verus!
