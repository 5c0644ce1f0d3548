//! The guidance that CloudFolder keeps for coding agents: a marked block in a file that
//! belongs to the user, which is put in, brought up to date and taken out again without
//! touching the rest of the file.

use crate::text::{
    all_of_kind, chars_of, contains_text, find, has_text, join, joined, law_trim_takes_only_ends,
    lemma_find_from, occurs_at, of_kind, position_of, replace_char, replaced_char, string_of, trim_end_kind, trim_start_kind,
    trimmed_end, trimmed_end_of, trimmed_start, views, CharKind,
};
use crate::winpath::{join_path, path_join};
use vstd::prelude::*;
use vstd::utf8::{decode_utf8, valid_utf8};

verus! {

/// The first line of the block.
pub const AGENT_BEGIN: &'static str = "<!-- CloudFolder agent instructions: begin -->";

/// The last line of the block.
pub const AGENT_END: &'static str = "<!-- CloudFolder agent instructions: end -->";

/// What the block says.
pub const AGENT_INSTRUCTIONS: &'static str = r#"## CloudFolder remote workspaces

When the current working directory is inside a CloudFolder mount:

- Use normal local filesystem tools to read, edit, search, create, rename, and delete workspace files.
- If unsure whether the current directory is a CloudFolder workspace, run `cf here`.
- Prefer starting the agent from `cf enter <mount>` (or run `cf enter` while already inside the mount). In that session Git, Python, tests, package managers, compilers, and common Linux tooling are transparently routed to the matching remote runtime, so plain commands such as `git status`, `pytest`, and `python train.py` are correct.
- For repository-wide grep/find/search operations that touch many cold files, use the routed remote tools; targeted file reads and edits stay local through the mounted Windows path.
- If a command must explicitly bypass routing and target the Windows machine, invoke the Windows executable by absolute path or start it outside `cf enter`.
- Legacy `cf run` / `cf sh` remain available for scripts and explicit automation, but normal interactive and agent workflows should not need them after `cf enter`.
- Workspace runtime state from `.cloudfolder.toml` is applied automatically to routed commands, explicit remote commands, and persistent jobs.
- Do not run a second coding agent on the remote host just to work on this workspace. The coding agent stays local; CloudFolder bridges files and remote execution.
- Keep commands intentionally targeting the local Windows machine local.

Outside a `cf enter` session, direct local Git operations against a CloudFolder mount may still be slow because Git performs many small random accesses inside `.git`; enter the routed runtime before repository-wide CLI work.
"#;

/// A file in which a marker of the block stands without the other, or the last before the
/// first.
#[derive(Clone, Copy, Debug, PartialEq, Eq, Structural)]
pub struct IncompleteBlock;

impl IncompleteBlock {
    /// What is said of such a file.
    pub fn message(self) -> (text: &'static str)
        ensures
            text@
                == "found an incomplete CloudFolder managed instruction block; repair the markers manually before retrying"@,
    {
        "found an incomplete CloudFolder managed instruction block; repair the markers manually before retrying"
    }
}

/// How lines end in a text.
pub open spec fn newline_of(text: Seq<char>) -> Seq<char> {
    if has_text(text, "\r\n"@) {
        "\r\n"@
    } else {
        "\n"@
    }
}

/// How lines end in a text.
fn newline_in(text: &str) -> (newline: &'static str)
    ensures
        newline@ == newline_of(text@),
{
    if contains_text(text, "\r\n") {
        "\r\n"
    } else {
        "\n"
    }
}

/// What the block says, with the given line ends.
pub open spec fn block_body(newline: Seq<char>) -> Seq<char> {
    replace_char(trim_end_kind(AGENT_INSTRUCTIONS@, CharKind::White), '\n', newline)
}

/// The block, with the given line ends.
pub open spec fn managed_block(newline: Seq<char>) -> Seq<char> {
    AGENT_BEGIN@ + newline + block_body(newline) + newline + AGENT_END@
}

/// The block, with the given line ends.
pub fn managed_agent_block(newline: &str) -> (block: String)
    ensures
        block@ == managed_block(newline@),
{
    let instructions = trimmed_end_of(AGENT_INSTRUCTIONS, CharKind::White);
    let mut block = AGENT_BEGIN.to_string();
    block.append(newline);
    block.append(replaced_char(instructions.as_str(), '\n', newline).as_str());
    block.append(newline);
    block.append(AGENT_END);
    block
}

/// Where the block of a text begins and ends.
pub enum Place {
    Absent,
    Between(int, int),
    Incomplete,
}

/// Where the block of a text begins and ends: from the first marker that begins one to the
/// end of the first marker that ends one.
pub open spec fn block_place(text: Seq<char>) -> Place {
    match (find(text, AGENT_BEGIN@), find(text, AGENT_END@)) {
        (None, None) => Place::Absent,
        (Some(start), Some(end)) => if end >= start {
            Place::Between(start, end + AGENT_END@.len())
        } else {
            Place::Incomplete
        },
        _ => Place::Incomplete,
    }
}

/// Where the block of a text begins and ends.
fn block_bounds(chars: &Vec<char>) -> (bounds: Result<Option<(usize, usize)>, IncompleteBlock>)
    ensures
        match bounds {
            Ok(None) => block_place(chars@) is Absent,
            Ok(Some((start, end))) => block_place(chars@) == Place::Between(
                start as int,
                end as int,
            ) && start <= end <= chars.len(),
            Err(_) => block_place(chars@) is Incomplete,
        },
{
    let begin = chars_of(AGENT_BEGIN);
    let finish = chars_of(AGENT_END);
    match (position_of(chars, &begin), position_of(chars, &finish)) {
        (None, None) => Ok(None),
        (Some(start), Some(end)) => if end >= start {
            assert(end + finish.len() <= chars.len());
            Ok(Some((start, end + finish.len())))
        } else {
            Err(IncompleteBlock)
        },
        _ => Err(IncompleteBlock),
    }
}

/// A text with the block in it: in place of the block that it has, or behind an empty line
/// at its end.
pub open spec fn upserted(text: Seq<char>) -> Option<Seq<char>> {
    let newline = newline_of(text);
    let block = managed_block(newline);
    match block_place(text) {
        Place::Between(start, end) => Some(
            text.subrange(0, start) + block + text.subrange(end, text.len() as int),
        ),
        Place::Absent => Some(
            if text.len() == 0 {
                block + newline
            } else {
                trim_end_kind(text, CharKind::LineBreak) + newline + newline + block + newline
            },
        ),
        Place::Incomplete => None,
    }
}

/// A text with the block in it.
pub fn upsert_managed_block(text: &str) -> (updated: Result<String, IncompleteBlock>)
    ensures
        match updated {
            Ok(updated) => upserted(text@) == Some(updated@),
            Err(_) => upserted(text@) is None,
        },
{
    let newline = newline_in(text);
    let block = managed_agent_block(newline);
    let chars = chars_of(text);
    match block_bounds(&chars) {
        Err(error) => Err(error),
        Ok(Some((start, end))) => {
            let mut updated = string_of(&chars, 0, start);
            updated.append(block.as_str());
            updated.append(string_of(&chars, end, chars.len()).as_str());
            Ok(updated)
        },
        Ok(None) => {
            let mut updated;
            if chars.len() == 0 {
                updated = block;
            } else {
                updated = trimmed_end_of(text, CharKind::LineBreak);
                updated.append(newline);
                updated.append(newline);
                updated.append(block.as_str());
            }
            updated.append(newline);
            Ok(updated)
        },
    }
}

/// A text without the block: what stands before and behind it keeps an empty line between.
pub open spec fn removed(text: Seq<char>) -> Option<Seq<char>> {
    let newline = newline_of(text);
    match block_place(text) {
        Place::Absent => Some(text),
        Place::Between(start, end) => {
            let before = trim_end_kind(text.subrange(0, start), CharKind::LineBreak);
            let after = trim_start_kind(
                text.subrange(end, text.len() as int),
                CharKind::LineBreak,
            );
            Some(
                if after.len() == 0 {
                    if before.len() == 0 {
                        Seq::empty()
                    } else {
                        before + newline
                    }
                } else if before.len() == 0 {
                    after
                } else {
                    before + newline + newline + after
                },
            )
        },
        Place::Incomplete => None,
    }
}

/// A text without the block.
pub fn remove_managed_block_text(text: &str) -> (updated: Result<String, IncompleteBlock>)
    ensures
        match updated {
            Ok(updated) => removed(text@) == Some(updated@),
            Err(_) => removed(text@) is None,
        },
{
    let newline = newline_in(text);
    let chars = chars_of(text);
    match block_bounds(&chars) {
        Err(error) => Err(error),
        Ok(None) => Ok(text.to_string()),
        Ok(Some((start, end))) => {
            let before_end: usize = trimmed_end(&chars, 0, start, CharKind::LineBreak);
            let after_start: usize = trimmed_start(&chars, end, chars.len(), CharKind::LineBreak);
            let before = string_of(&chars, 0, before_end);
            let after = string_of(&chars, after_start, chars.len());
            assert(before@.len() == before_end);
            assert(after@.len() == chars.len() - after_start);
            if after_start == chars.len() {
                if before_end == 0 {
                    let empty = String::new();
                    assert(empty@ =~= Seq::empty());
                    Ok(empty)
                } else {
                    let mut updated = before;
                    updated.append(newline);
                    Ok(updated)
                }
            } else if before_end == 0 {
                Ok(after)
            } else {
                let mut updated = before;
                updated.append(newline);
                updated.append(newline);
                updated.append(after.as_str());
                Ok(updated)
            }
        },
    }
}

/// Whether a text has both markers of the block.
pub fn has_agent_block(text: &str) -> (yes: bool)
    ensures
        yes == (has_text(text@, AGENT_BEGIN@) && has_text(text@, AGENT_END@)),
{
    contains_text(text, AGENT_BEGIN) && contains_text(text, AGENT_END)
}

/// The bytes of a file without a byte order mark.
pub open spec fn without_mark(bytes: Seq<u8>) -> Seq<u8> {
    if bytes.len() >= 3 && bytes[0] == 0xEF && bytes[1] == 0xBB && bytes[2] == 0xBF {
        bytes.skip(3)
    } else {
        bytes
    }
}

/// What the error of `String::from_utf8` says of bytes that are not UTF-8.
pub uninterp spec fn utf8_fault(bytes: Seq<u8>) -> Seq<char>;

/// `String::from_utf8` gives the text that bytes encode in UTF-8, and an error where they are
/// not UTF-8. What the error says depends on the bytes alone.
#[verifier::external_body]
pub(crate) fn utf8_text(bytes: Vec<u8>) -> (text: Result<String, String>)
    ensures
        match text {
            Ok(text) => valid_utf8(bytes@) && text@ == decode_utf8(bytes@),
            Err(why) => !valid_utf8(bytes@) && why@ == utf8_fault(bytes@),
        },
{
    match String::from_utf8(bytes) {
        Ok(text) => Ok(text),
        Err(error) => Err(error.to_string()),
    }
}

/// The text of a file that is in UTF-8, with or without a byte order mark; or why it is not.
pub fn read_text_utf8(bytes: &Vec<u8>) -> (text: Result<String, String>)
    ensures
        match text {
            Ok(text) => valid_utf8(without_mark(bytes@)) && text@ == decode_utf8(
                without_mark(bytes@),
            ),
            Err(why) => !valid_utf8(without_mark(bytes@)) && why@ == utf8_fault(
                without_mark(bytes@),
            ),
        },
{
    let start: usize = if bytes.len() >= 3 && bytes[0] == 0xEF && bytes[1] == 0xBB && bytes[2]
        == 0xBF {
        3
    } else {
        0
    };
    let mut rest: Vec<u8> = Vec::new();
    let mut i: usize = start;
    while i < bytes.len()
        invariant
            start <= i <= bytes.len(),
            rest@ == bytes@.subrange(start as int, i as int),
        decreases bytes.len() - i,
    {
        rest.push(bytes[i]);
        i += 1;
    }
    assert(rest@ =~= without_mark(bytes@));
    utf8_text(rest)
}

/// What is said of an instruction file that is not UTF-8, and why it is not.
pub fn unknown_encoding(path: &str, why: &str) -> (text: String)
    ensures
        text@ == path@
            + " is not UTF-8; CloudFolder will not rewrite an instruction file with an unknown encoding: "@
            + why@,
{
    let mut text = path.to_string();
    text.append(
        " is not UTF-8; CloudFolder will not rewrite an instruction file with an unknown encoding: ",
    );
    text.append(why);
    text
}

/// A coding agent that reads an instruction file below the directory of its user.
#[derive(Clone, Debug, PartialEq, Eq)]
pub struct CodingAgent {
    pub label: String,
    /// The directory of the agent below that of the user.
    pub directory: String,
    /// The instruction file in that directory.
    pub file: String,
}

/// The coding agents that are given guidance: those that the installation lists, and Codex
/// behind them.
pub fn guided_agents(listed: Vec<CodingAgent>) -> (agents: Vec<CodingAgent>)
    ensures
        agents.len() == listed.len() + 1,
        agents@.drop_last() == listed@,
        agents@.last().label@ == "Codex"@,
        agents@.last().directory@ == ".codex"@,
        agents@.last().file@ == "AGENTS.md"@,
{
    let mut agents = listed;
    agents.push(
        CodingAgent {
            label: "Codex".to_string(),
            directory: ".codex".to_string(),
            file: "AGENTS.md".to_string(),
        },
    );
    assert(agents@.drop_last() =~= listed@);
    agents
}

/// An instruction file of a coding agent.
#[derive(Clone, Debug, PartialEq, Eq)]
pub struct InstructionFile {
    pub label: String,
    pub path: String,
}

/// The instruction files of coding agents below the directory of a user.
pub fn agent_instruction_files(home: &str, agents: &Vec<CodingAgent>) -> (files: Vec<
    InstructionFile,
>)
    ensures
        files.len() == agents.len(),
        forall|i: int|
            0 <= i < files.len() ==> (#[trigger] files@[i]).label@ == agents@[i].label@
                && files@[i].path@ == join_path(
                join_path(home@, agents@[i].directory@),
                agents@[i].file@,
            ),
{
    let mut files: Vec<InstructionFile> = Vec::new();
    let mut i: usize = 0;
    while i < agents.len()
        invariant
            i <= agents.len(),
            files.len() == i,
            forall|k: int|
                0 <= k < i ==> (#[trigger] files@[k]).label@ == agents@[k].label@ && files@[k].path@
                    == join_path(join_path(home@, agents@[k].directory@), agents@[k].file@),
        decreases agents.len() - i,
    {
        let directory = path_join(home, agents[i].directory.as_str());
        files.push(
            InstructionFile {
                label: agents[i].label.clone(),
                path: path_join(directory.as_str(), agents[i].file.as_str()),
            },
        );
        i += 1;
    }
    files
}

/// The labels of instruction files.
pub open spec fn labels_of(files: Seq<InstructionFile>) -> Seq<Seq<char>> {
    Seq::new(files.len(), |i: int| files[i].label@)
}

/// What is said once the block was put into instruction files.
pub fn setup_notice(files: &Vec<InstructionFile>) -> (text: String)
    ensures
        text@ == "CloudFolder agent guidance is enabled. Start a new "@ + join(
            labels_of(files@),
            " or "@,
        ) + " session inside the mounted workspace."@,
{
    let mut labels: Vec<String> = Vec::new();
    let mut i: usize = 0;
    while i < files.len()
        invariant
            i <= files.len(),
            views(labels@) == labels_of(files@).take(i as int),
        decreases files.len() - i,
    {
        let ghost before = views(labels@);
        labels.push(files[i].label.clone());
        assert(views(labels@) =~= before.push(files@[i as int].label@));
        assert(labels_of(files@).take(i + 1) =~= before.push(labels_of(files@)[i as int]));
        i += 1;
    }
    assert(labels_of(files@).take(i as int) =~= labels_of(files@));
    let mut text = "CloudFolder agent guidance is enabled. Start a new ".to_string();
    text.append(joined(&labels, " or ").as_str());
    text.append(" session inside the mounted workspace.");
    text
}

/// Whether a character is nowhere in a text.
pub open spec fn lacks(text: Seq<char>, c: char) -> bool {
    forall|i: int| 0 <= i < text.len() ==> #[trigger] text[i] != c
}

/// Whether a text is one of the two line ends.
pub open spec fn is_newline(text: Seq<char>) -> bool {
    text == "\n"@ || text == "\r\n"@
}

proof fn lemma_newlines(newline: Seq<char>)
    requires
        is_newline(newline),
    ensures
        newline.len() > 0,
        lacks(newline, '!'),
        newline == "\n"@ ==> lacks(newline, '\r'),
        forall|i: int|
            0 <= i < newline.len() ==> #[trigger] newline[i] == '\r' || newline[i] == '\n',
        "\r\n"@.len() == 2,
        "\r\n"@[0] == '\r',
        "\r\n"@[1] == '\n',
        "\n"@ != "\r\n"@,
{
    reveal_strlit("\n");
    reveal_strlit("\r\n");
}

proof fn lemma_markers()
    ensures
        AGENT_BEGIN@.len() == 46,
        AGENT_END@.len() == 44,
        AGENT_BEGIN@[0] == '<',
        AGENT_BEGIN@[1] == '!',
        AGENT_END@[0] == '<',
        AGENT_END@[1] == '!',
        AGENT_END@[43] == '>',
        forall|i: int| 0 <= i < 46 && #[trigger] AGENT_BEGIN@[i] == '!' ==> i == 1,
        forall|i: int| 0 <= i < 44 && #[trigger] AGENT_END@[i] == '!' ==> i == 1,
        AGENT_BEGIN@[37] != AGENT_END@[37],
        lacks(AGENT_BEGIN@, '\r') && lacks(AGENT_BEGIN@, '\n'),
        lacks(AGENT_END@, '\r') && lacks(AGENT_END@, '\n'),
{
    reveal_strlit("<!-- CloudFolder agent instructions: begin -->");
    reveal_strlit("<!-- CloudFolder agent instructions: end -->");
}

#[verifier::rlimit(60)]
proof fn lemma_instructions()
    ensures
        lacks(AGENT_INSTRUCTIONS@, '!'),
        lacks(AGENT_INSTRUCTIONS@, '\r'),
{
    reveal_strlit(r#"## CloudFolder remote workspaces

When the current working directory is inside a CloudFolder mount:

- Use normal local filesystem tools to read, edit, search, create, rename, and delete workspace files.
- If unsure whether the current directory is a CloudFolder workspace, run `cf here`.
- Prefer starting the agent from `cf enter <mount>` (or run `cf enter` while already inside the mount). In that session Git, Python, tests, package managers, compilers, and common Linux tooling are transparently routed to the matching remote runtime, so plain commands such as `git status`, `pytest`, and `python train.py` are correct.
- For repository-wide grep/find/search operations that touch many cold files, use the routed remote tools; targeted file reads and edits stay local through the mounted Windows path.
- If a command must explicitly bypass routing and target the Windows machine, invoke the Windows executable by absolute path or start it outside `cf enter`.
- Legacy `cf run` / `cf sh` remain available for scripts and explicit automation, but normal interactive and agent workflows should not need them after `cf enter`.
- Workspace runtime state from `.cloudfolder.toml` is applied automatically to routed commands, explicit remote commands, and persistent jobs.
- Do not run a second coding agent on the remote host just to work on this workspace. The coding agent stays local; CloudFolder bridges files and remote execution.
- Keep commands intentionally targeting the local Windows machine local.

Outside a `cf enter` session, direct local Git operations against a CloudFolder mount may still be slow because Git performs many small random accesses inside `.git`; enter the routed runtime before repository-wide CLI work.
"#);
}

proof fn lemma_trim_end_lacks(text: Seq<char>, kind: CharKind, c: char)
    requires
        lacks(text, c),
    ensures
        lacks(trim_end_kind(text, kind), c),
    decreases text.len(),
{
    if text.len() > 0 && of_kind(text.last(), kind) {
        assert forall|i: int| 0 <= i < text.drop_last().len() implies #[trigger] text.drop_last()[i]
            != c by {
            assert(text.drop_last()[i] == text[i]);
        }
        lemma_trim_end_lacks(text.drop_last(), kind, c);
    }
}

proof fn lemma_replace_lacks(text: Seq<char>, from: char, with: Seq<char>, c: char)
    requires
        lacks(text, c),
        lacks(with, c),
    ensures
        lacks(replace_char(text, from, with), c),
    decreases text.len(),
{
    if text.len() > 0 {
        assert forall|i: int| 0 <= i < text.drop_last().len() implies #[trigger] text.drop_last()[i]
            != c by {
            assert(text.drop_last()[i] == text[i]);
        }
        lemma_replace_lacks(text.drop_last(), from, with, c);
        assert(text.last() == text[text.len() - 1]);
    }
}

/// The block begins and ends with its markers, and holds an exclamation mark only there.
proof fn lemma_block(newline: Seq<char>)
    requires
        is_newline(newline),
    ensures
        ({
            let block = managed_block(newline);
            let last = block.len() - 44;
            &&& block.len() >= 46 + newline.len() + 44
            &&& block.subrange(0, 46) == AGENT_BEGIN@
            &&& block.subrange(46, (46 + newline.len()) as int) == newline
            &&& block.subrange(last, block.len() as int) == AGENT_END@
            &&& forall|i: int|
                0 <= i < block.len() && #[trigger] block[i] == '!' ==> i == 1 || i == last + 1
            &&& newline == "\n"@ ==> lacks(block, '\r')
        }),
{
    lemma_newlines(newline);
    lemma_markers();
    lemma_instructions();
    let body = block_body(newline);
    let block = managed_block(newline);
    let trimmed = trim_end_kind(AGENT_INSTRUCTIONS@, CharKind::White);
    lemma_trim_end_lacks(AGENT_INSTRUCTIONS@, CharKind::White, '!');
    lemma_trim_end_lacks(AGENT_INSTRUCTIONS@, CharKind::White, '\r');
    lemma_replace_lacks(trimmed, '\n', newline, '!');
    if newline == "\n"@ {
        lemma_replace_lacks(trimmed, '\n', newline, '\r');
    }
    let n = newline.len() as int;
    let m = 46 + n + body.len();
    let last = block.len() - 44;
    assert(last == m + n);
    assert(block.subrange(0, 46) =~= AGENT_BEGIN@);
    assert(block.subrange(46, 46 + n) =~= newline);
    assert(block.subrange(last, block.len() as int) =~= AGENT_END@);
    assert forall|i: int| 0 <= i < block.len() implies (#[trigger] block[i] == '!' ==> i == 1 || i
        == last + 1) && (newline == "\n"@ ==> block[i] != '\r') by {
        if i < 46 {
            assert(block[i] == AGENT_BEGIN@[i]);
        } else if i < 46 + n {
            assert(block[i] == newline[i - 46]);
        } else if i < m {
            assert(block[i] == body[i - 46 - n]);
        } else if i < last {
            assert(block[i] == newline[i - m]);
        } else {
            assert(block[i] == AGENT_END@[i - last]);
        }
    }
}

/// Markers at both ends of a block are found there, where they stand nowhere before it and
/// the block holds an exclamation mark only in them.
proof fn lemma_markers_are_found(
    before: Seq<char>,
    block: Seq<char>,
    after: Seq<char>,
    begin: Seq<char>,
    end: Seq<char>,
)
    requires
        begin.len() == 46,
        end.len() == 44,
        end[1] == '!',
        begin[37] != end[37],
        block.len() >= 90,
        block.subrange(0, 46) == begin,
        block.subrange(block.len() - 44, block.len() as int) == end,
        forall|i: int|
            0 <= i < block.len() && #[trigger] block[i] == '!' ==> i == 1 || i == block.len() - 43,
        forall|p: int|
            0 <= p < before.len() ==> !occurs_at(before + block + after, begin, p) && !occurs_at(
                before + block + after,
                end,
                p,
            ),
    ensures
        find(before + block + after, begin) == Some(before.len() as int),
        find(before + block + after, end) == Some(before.len() + block.len() - 44),
{
    let text = before + block + after;
    let start = before.len() as int;
    let last = block.len() - 44;
    assert(occurs_at(text, begin, start)) by {
        assert(text.subrange(start, start + 46) =~= block.subrange(0, 46));
    }
    assert(find(text, begin) == Some(start)) by {
        lemma_find_from(text, begin, 0);
    }
    assert(occurs_at(text, end, start + last)) by {
        assert(text.subrange(start + last, start + last + 44) =~= block.subrange(
            last,
            block.len() as int,
        ));
    }
    assert forall|p: int| 0 <= p < start + last implies !occurs_at(text, end, p) by {
        if p >= start && occurs_at(text, end, p) {
            let found = text.subrange(p, p + 44);
            assert(found[1] == text[p + 1]);
            assert(text[p + 1] == block[p + 1 - start]);
            assert(p == start);
            assert(found[37] == text[p + 37]);
            assert(text[start + 37] == block[37]);
            assert(block.subrange(0, 46)[37] == block[37]);
        }
    }
    assert(find(text, end) == Some(start + last)) by {
        lemma_find_from(text, end, 0);
    }
}

/// A block whose markers stand nowhere before it is found just where it is.
proof fn lemma_block_is_found(before: Seq<char>, newline: Seq<char>, after: Seq<char>)
    requires
        is_newline(newline),
        ({
            let text = before + managed_block(newline) + after;
            forall|p: int|
                0 <= p < before.len() ==> !occurs_at(text, AGENT_BEGIN@, p) && !occurs_at(
                    text,
                    AGENT_END@,
                    p,
                )
        }),
    ensures
        block_place(before + managed_block(newline) + after) == Place::Between(
            before.len() as int,
            (before.len() + managed_block(newline).len()) as int,
        ),
{
    lemma_markers();
    lemma_block(newline);
    lemma_markers_are_found(before, managed_block(newline), after, AGENT_BEGIN@, AGENT_END@);
}

proof fn lemma_trim_end(text: Seq<char>, kind: CharKind)
    ensures
        ({
            let short = trim_end_kind(text, kind);
            &&& short.len() <= text.len()
            &&& short == text.subrange(0, short.len() as int)
            &&& short.len() > 0 ==> !of_kind(short.last(), kind)
        }),
    decreases text.len(),
{
    if text.len() > 0 && of_kind(text.last(), kind) {
        lemma_trim_end(text.drop_last(), kind);
        let short = trim_end_kind(text, kind);
        assert(text.drop_last().subrange(0, short.len() as int) =~= text.subrange(
            0,
            short.len() as int,
        ));
    } else {
        assert(text.subrange(0, text.len() as int) =~= text);
    }
}

proof fn lemma_trim_end_appended(text: Seq<char>, tail: Seq<char>, kind: CharKind)
    requires
        all_of_kind(tail, kind),
    ensures
        trim_end_kind(text + tail, kind) == trim_end_kind(text, kind),
    decreases tail.len(),
{
    if tail.len() == 0 {
        assert(text + tail =~= text);
    } else {
        assert((text + tail).last() == tail[tail.len() - 1]);
        assert((text + tail).drop_last() =~= text + tail.drop_last());
        assert forall|i: int| 0 <= i < tail.drop_last().len() implies of_kind(
            #[trigger] tail.drop_last()[i],
            kind,
        ) by {
            assert(tail.drop_last()[i] == tail[i]);
        }
        lemma_trim_end_appended(text, tail.drop_last(), kind);
    }
}

proof fn lemma_trim_start_all(text: Seq<char>, kind: CharKind)
    requires
        all_of_kind(text, kind),
    ensures
        trim_start_kind(text, kind) == Seq::<char>::empty(),
    decreases text.len(),
{
    if text.len() > 0 {
        assert(text.first() == text[0]);
        assert forall|i: int| 0 <= i < text.drop_first().len() implies of_kind(
            #[trigger] text.drop_first()[i],
            kind,
        ) by {
            assert(text.drop_first()[i] == text[i + 1]);
        }
        lemma_trim_start_all(text.drop_first(), kind);
    } else {
        assert(text =~= Seq::empty());
    }
}

/// A text that got the block behind it holds the block just there and keeps its line ends.
proof fn lemma_appended(text: Seq<char>)
    requires
        block_place(text) is Absent,
    ensures
        ({
            let newline = newline_of(text);
            let block = managed_block(newline);
            let updated = upserted(text)->0;
            let before = if text.len() == 0 {
                Seq::empty()
            } else {
                trim_end_kind(text, CharKind::LineBreak) + newline + newline
            };
            &&& updated == before + block + newline
            &&& block_place(updated) == Place::Between(
                before.len() as int,
                (before.len() + block.len()) as int,
            )
            &&& newline_of(updated) == newline
        }),
{
    let newline = newline_of(text);
    let block = managed_block(newline);
    let short = trim_end_kind(text, CharKind::LineBreak);
    let before = if text.len() == 0 {
        Seq::empty()
    } else {
        short + newline + newline
    };
    let updated = upserted(text)->0;
    lemma_newlines(newline);
    lemma_markers();
    lemma_block(newline);
    lemma_trim_end(text, CharKind::LineBreak);
    lemma_find_from(text, AGENT_BEGIN@, 0);
    lemma_find_from(text, AGENT_END@, 0);
    assert(updated =~= before + block + newline);
    assert forall|p: int, marker: Seq<char>|
        0 <= p < before.len() && (marker == AGENT_BEGIN@ || marker == AGENT_END@) implies !(
    #[trigger] occurs_at(updated, marker, p)) by {
        if occurs_at(updated, marker, p) {
            let found = updated.subrange(p, p + marker.len());
            if p + marker.len() <= short.len() {
                assert(text.subrange(p, p + marker.len()) =~= found);
                assert(occurs_at(text, marker, p));
            } else {
                let k = if p < short.len() {
                    short.len() as int
                } else {
                    p
                };
                assert(found[k - p] == updated[k]);
                assert(updated[k] == before[k]);
                if k < short.len() + newline.len() {
                    assert(before[k] == newline[k - short.len()]);
                } else {
                    assert(before[k] == newline[k - short.len() - newline.len()]);
                }
            }
        }
    }
    lemma_block_is_found(before, newline, newline);
    if has_text(text, "\r\n"@) {
        let at = before.len() as int + 46;
        assert(updated.subrange(at, at + 2) =~= block.subrange(46, 48));
        assert(occurs_at(updated, "\r\n"@, at));
    } else {
        assert forall|p: int| !occurs_at(updated, "\r\n"@, p) by {
            if occurs_at(updated, "\r\n"@, p) {
                let found = updated.subrange(p, p + 2);
                assert(found[0] == updated[p] && found[1] == updated[p + 1]);
                if p < before.len() {
                    assert(updated[p] == before[p]);
                    if p + 1 < short.len() {
                        assert(text.subrange(p, p + 2) =~= found);
                        assert(occurs_at(text, "\r\n"@, p));
                    } else if p < short.len() {
                        assert(before[p] == short.last());
                    } else if p < short.len() + newline.len() {
                        assert(before[p] == newline[p - short.len()]);
                    } else {
                        assert(before[p] == newline[p - short.len() - newline.len()]);
                    }
                } else if p < before.len() + block.len() {
                    assert(updated[p] == block[p - before.len()]);
                } else {
                    assert(updated[p] == newline[p - before.len() - block.len()]);
                }
            }
        }
    }
}

/// A text whose block was brought up to date holds the block at the same place.
proof fn lemma_replaced(text: Seq<char>, start: int, end: int)
    requires
        block_place(text) == Place::Between(start, end),
    ensures
        ({
            let block = managed_block(newline_of(text));
            &&& 0 <= start <= end <= text.len()
            &&& block_place(upserted(text)->0) == Place::Between(start, start + block.len())
        }),
{
    let newline = newline_of(text);
    let block = managed_block(newline);
    let updated = upserted(text)->0;
    lemma_newlines(newline);
    lemma_markers();
    lemma_block(newline);
    lemma_find_from(text, AGENT_BEGIN@, 0);
    lemma_find_from(text, AGENT_END@, 0);
    let before = text.subrange(0, start);
    let after = text.subrange(end, text.len() as int);
    assert(occurs_at(text, AGENT_BEGIN@, start));
    assert forall|i: int| 0 <= i < start + 46 implies #[trigger] updated[i] == text[i] by {
        if i >= start {
            assert(updated[i] == block[i - start]);
            assert(block.subrange(0, 46)[i - start] == block[i - start]);
            assert(text.subrange(start, start + 46)[i - start] == text[i]);
        }
    }
    assert forall|p: int| 0 <= p < start implies !occurs_at(updated, AGENT_BEGIN@, p)
        && !occurs_at(updated, AGENT_END@, p) by {
        assert(!occurs_at(text, AGENT_BEGIN@, p));
        assert(!occurs_at(text, AGENT_END@, p));
        assert(updated.subrange(p, p + 46) =~= text.subrange(p, p + 46));
        assert(updated.subrange(p, p + 44) =~= text.subrange(p, p + 44));
    }
    lemma_block_is_found(before, newline, after);
}

/// Putting the block in once more changes nothing: there is never a second block.
pub proof fn law_upsert_is_idempotent(text: Seq<char>)
    requires
        upserted(text) is Some,
    ensures
        upserted(upserted(text)->0) == upserted(text),
{
    let newline = newline_of(text);
    let block = managed_block(newline);
    let updated = upserted(text)->0;
    lemma_newlines(newline);
    lemma_markers();
    lemma_block(newline);
    match block_place(text) {
        Place::Absent => {
            lemma_appended(text);
            let before = if text.len() == 0 {
                Seq::empty()
            } else {
                trim_end_kind(text, CharKind::LineBreak) + newline + newline
            };
            let start = before.len() as int;
            let end = start + block.len();
            assert(updated.subrange(0, start) =~= before);
            assert(updated.subrange(end, updated.len() as int) =~= newline);
        },
        Place::Between(start, end) => {
            lemma_replaced(text, start, end);
            let before = text.subrange(0, start);
            let after = text.subrange(end, text.len() as int);
            let finish = start + block.len();
            assert(updated.subrange(0, start) =~= before);
            assert(updated.subrange(finish, updated.len() as int) =~= after);
            if has_text(text, "\r\n"@) {
                let at = start + 46;
                assert(updated.subrange(at, at + 2) =~= block.subrange(46, 48));
                assert(occurs_at(updated, "\r\n"@, at));
            } else {
                assert forall|p: int| !occurs_at(updated, "\r\n"@, p) by {
                    if occurs_at(updated, "\r\n"@, p) {
                        let found = updated.subrange(p, p + 2);
                        assert(found[0] == updated[p] && found[1] == updated[p + 1]);
                        if p + 1 < start {
                            assert(text.subrange(p, p + 2) =~= found);
                            assert(occurs_at(text, "\r\n"@, p));
                        } else if p < start {
                            assert(updated[start] == block[0]);
                            assert(block.subrange(0, 46)[0] == block[0]);
                        } else if p < finish {
                            assert(updated[p] == block[p - start]);
                        } else {
                            let at = end + p - finish;
                            assert(text.subrange(at, at + 2) =~= found);
                            assert(occurs_at(text, "\r\n"@, at));
                        }
                    }
                }
            }
        },
        Place::Incomplete => {},
    }
}

/// Markers at both ends of a block stand nowhere else, where they stand neither before nor
/// behind it and the block holds an exclamation mark only in them.
proof fn lemma_markers_stand_once(
    before: Seq<char>,
    block: Seq<char>,
    after: Seq<char>,
    begin: Seq<char>,
    end: Seq<char>,
)
    requires
        begin.len() == 46,
        end.len() == 44,
        begin[0] == '<' && begin[1] == '!',
        end[0] == '<' && end[1] == '!' && end[43] == '>',
        begin[37] != end[37],
        block.len() >= 90,
        block.subrange(0, 46) == begin,
        block.subrange(block.len() - 44, block.len() as int) == end,
        forall|i: int|
            0 <= i < block.len() && #[trigger] block[i] == '!' ==> i == 1 || i == block.len() - 43,
        find(before + block + after, begin) == Some(before.len() as int),
        find(before + block + after, end) == Some(before.len() + block.len() - 44),
        forall|p: int| !occurs_at(after, begin, p) && !occurs_at(after, end, p),
    ensures
        forall|p: int| #[trigger]
            occurs_at(before + block + after, begin, p) ==> p == before.len(),
        forall|p: int| #[trigger]
            occurs_at(before + block + after, end, p) ==> p == before.len() + block.len() - 44,
{
    let text = before + block + after;
    let start = before.len() as int;
    let last = block.len() - 44;
    lemma_find_from(text, begin, 0);
    lemma_find_from(text, end, 0);
    assert(block[37] == begin[37]) by {
        assert(block.subrange(0, 46)[37] == block[37]);
    }
    assert(block[last + 37] == end[37]) by {
        assert(block.subrange(last, block.len() as int)[37] == block[last + 37]);
    }
    assert(block[last + 43] == '>') by {
        assert(block.subrange(last, block.len() as int)[43] == block[last + 43]);
    }
    assert forall|p: int, marker: Seq<char>|
        p >= start && (marker == begin || marker == end) && #[trigger] occurs_at(
            text,
            marker,
            p,
        ) implies p == (if marker == begin {
        start
    } else {
        start + last
    }) by {
        let found = text.subrange(p, p + marker.len());
        assert(found[0] == text[p] && found[1] == text[p + 1] && found[37] == text[p + 37]);
        if p >= start + block.len() {
            let at = p - start - block.len();
            assert(after.subrange(at, at + marker.len()) =~= found);
            assert(occurs_at(after, marker, at));
        } else {
            assert(text[p] == block[p - start]);
            assert(p - start != block.len() - 1);
            assert(text[p + 1] == block[p + 1 - start]);
            assert(p == start || p == start + last);
            assert(text[p + 37] == block[p + 37 - start]);
        }
    }
}

/// Whether a pattern stands at no two positions of a text.
pub open spec fn at_most_once(text: Seq<char>, pattern: Seq<char>) -> bool {
    forall|p: int, q: int|
        #[trigger] occurs_at(text, pattern, p) && #[trigger] occurs_at(text, pattern, q) ==> p == q
}

/// Where neither marker stands twice in a text, each of them stands just once after the block
/// was put in: a first block is the only one, and one that was there is not doubled.
pub proof fn law_markers_stand_once(text: Seq<char>)
    requires
        upserted(text) is Some,
        at_most_once(text, AGENT_BEGIN@),
        at_most_once(text, AGENT_END@),
    ensures
        has_text(upserted(text)->0, AGENT_BEGIN@),
        has_text(upserted(text)->0, AGENT_END@),
        at_most_once(upserted(text)->0, AGENT_BEGIN@),
        at_most_once(upserted(text)->0, AGENT_END@),
{
    let newline = newline_of(text);
    let block = managed_block(newline);
    let updated = upserted(text)->0;
    lemma_newlines(newline);
    lemma_markers();
    lemma_block(newline);
    lemma_find_from(text, AGENT_BEGIN@, 0);
    lemma_find_from(text, AGENT_END@, 0);
    match block_place(text) {
        Place::Absent => {
            lemma_appended(text);
            let before = if text.len() == 0 {
                Seq::empty()
            } else {
                trim_end_kind(text, CharKind::LineBreak) + newline + newline
            };
            lemma_newline_lacks_markers(newline);
            lemma_markers_stand_once(before, block, newline, AGENT_BEGIN@, AGENT_END@);
        },
        Place::Between(start, end) => {
            lemma_replaced(text, start, end);
            let before = text.subrange(0, start);
            let after = text.subrange(end, text.len() as int);
            assert forall|p: int| !occurs_at(after, AGENT_BEGIN@, p) && !occurs_at(
                after,
                AGENT_END@,
                p,
            ) by {
                if occurs_at(after, AGENT_BEGIN@, p) {
                    assert(text.subrange(end + p, end + p + 46) =~= after.subrange(p, p + 46));
                    assert(occurs_at(text, AGENT_BEGIN@, end + p));
                }
                if occurs_at(after, AGENT_END@, p) {
                    assert(text.subrange(end + p, end + p + 44) =~= after.subrange(p, p + 44));
                    assert(occurs_at(text, AGENT_END@, end + p));
                }
            }
            lemma_markers_stand_once(before, block, after, AGENT_BEGIN@, AGENT_END@);
        },
        Place::Incomplete => {},
    }
    lemma_find_from(updated, AGENT_BEGIN@, 0);
    lemma_find_from(updated, AGENT_END@, 0);
}

/// No marker stands in the end of a line.
proof fn lemma_newline_lacks_markers(newline: Seq<char>)
    requires
        is_newline(newline),
    ensures
        forall|p: int| !occurs_at(newline, AGENT_BEGIN@, p) && !occurs_at(newline, AGENT_END@, p),
{
    lemma_markers();
    reveal_strlit("\n");
    reveal_strlit("\r\n");
}

/// Taking out the block that was put into a text without one gives the text back, up to the
/// line breaks at its end: a text that is not empty ends with one line break then.
pub proof fn law_removing_restores_text(text: Seq<char>)
    requires
        block_place(text) is Absent,
    ensures
        ({
            let short = trim_end_kind(text, CharKind::LineBreak);
            removed(upserted(text)->0) == Some(
                if short.len() == 0 {
                    Seq::empty()
                } else {
                    short + newline_of(text)
                },
            )
        }),
{
    let newline = newline_of(text);
    let block = managed_block(newline);
    let short = trim_end_kind(text, CharKind::LineBreak);
    let updated = upserted(text)->0;
    let before = if text.len() == 0 {
        Seq::empty()
    } else {
        short + newline + newline
    };
    lemma_newlines(newline);
    lemma_appended(text);
    lemma_trim_end(text, CharKind::LineBreak);
    let start = before.len() as int;
    let end = start + block.len();
    assert(updated.subrange(0, start) =~= before);
    assert(updated.subrange(end, updated.len() as int) =~= newline);
    lemma_trim_start_all(newline, CharKind::LineBreak);
    lemma_trim_end_appended(short + newline, newline, CharKind::LineBreak);
    lemma_trim_end_appended(short, newline, CharKind::LineBreak);
    assert(trim_end_kind(short, CharKind::LineBreak) == short);
    assert(trim_end_kind(before, CharKind::LineBreak) == short);
}

/// What is said of an instruction file that the block was put into.
pub fn configured_notice(file: &InstructionFile) -> (text: String)
    ensures
        text@ == "Configured "@ + file.label@ + ": "@ + file.path@,
{
    let mut text = "Configured ".to_string();
    text.append(file.label.as_str());
    text.append(": ");
    text.append(file.path.as_str());
    text
}

/// What is said of an instruction file that the block was taken out of.
pub fn removed_notice(file: &InstructionFile) -> (text: String)
    ensures
        text@ == "Removed CloudFolder guidance from "@ + file.label@ + ": "@ + file.path@,
{
    let mut text = "Removed CloudFolder guidance from ".to_string();
    text.append(file.label.as_str());
    text.append(": ");
    text.append(file.path.as_str());
    text
}

/// The line of an instruction file in a listing. A file that cannot be read has no block.
pub fn status_line(file: &InstructionFile, text: Option<&str>) -> (line: String)
    ensures
        line@ == file.label@ + ": "@ + file.path@ + " ("@ + (if text matches Some(text)
            && has_text(text@, AGENT_BEGIN@) && has_text(text@, AGENT_END@) {
            "enabled"@
        } else {
            "not configured"@
        }) + ")"@,
{
    let enabled = match text {
        Some(text) => has_agent_block(text),
        None => false,
    };
    let mut line = file.label.clone();
    line.append(": ");
    line.append(file.path.as_str());
    line.append(" (");
    if enabled {
        line.append("enabled");
    } else {
        line.append("not configured");
    }
    line.append(")");
    line
}

/// Putting the block in leaves the text of the user as it is: all that stands before and behind
/// a block that is there, and everything but the line breaks at the end where there is none. A
/// file with half a block is not touched.
pub proof fn law_text_of_the_user_is_kept(text: Seq<char>)
    ensures
        match block_place(text) {
            Place::Absent => upserted(text) matches Some(updated) && ({
                let kept = trim_end_kind(text, CharKind::LineBreak);
                &&& updated.len() >= kept.len()
                &&& updated.take(kept.len() as int) == kept
                &&& kept == text.take(kept.len() as int)
                &&& forall|i: int|
                    kept.len() <= i < text.len() ==> #[trigger] text[i] == '\r' || text[i] == '\n'
            }),
            Place::Between(start, end) => upserted(text) matches Some(updated) && ({
                let behind = text.len() - end;
                &&& 0 <= start <= end <= text.len()
                &&& text.subrange(start, start + AGENT_BEGIN@.len()) == AGENT_BEGIN@
                &&& text.subrange(end - AGENT_END@.len(), end) == AGENT_END@
                &&& updated.len() >= start + behind
                &&& updated.take(start) == text.take(start)
                &&& updated.skip(updated.len() - behind) == text.skip(end)
                &&& updated.subrange(start, updated.len() - behind) == managed_block(
                    newline_of(text),
                )
            }),
            Place::Incomplete => upserted(text) is None && removed(text) is None,
        },
        block_place(text) is Incomplete <==> has_text(text, AGENT_BEGIN@) != has_text(
            text,
            AGENT_END@,
        ) || (has_text(text, AGENT_BEGIN@) && has_text(text, AGENT_END@) && find(text, AGENT_END@)->0
            < find(text, AGENT_BEGIN@)->0),
{
    lemma_markers();
    lemma_find_from(text, AGENT_BEGIN@, 0);
    lemma_find_from(text, AGENT_END@, 0);
    assert(has_text(text, AGENT_BEGIN@) <==> find(text, AGENT_BEGIN@) is Some) by {
        if has_text(text, AGENT_BEGIN@) {
            let p = choose|p: int| occurs_at(text, AGENT_BEGIN@, p);
            assert(0 <= p);
        }
    }
    assert(has_text(text, AGENT_END@) <==> find(text, AGENT_END@) is Some) by {
        if has_text(text, AGENT_END@) {
            let p = choose|p: int| occurs_at(text, AGENT_END@, p);
            assert(0 <= p);
        }
    }
    match block_place(text) {
        Place::Absent => {
            let kept = trim_end_kind(text, CharKind::LineBreak);
            let updated = upserted(text)->0;
            law_trim_takes_only_ends(text, CharKind::LineBreak);
            assert forall|i: int| kept.len() <= i < text.len() implies #[trigger] text[i] == '\r'
                || text[i] == '\n' by {
                assert(of_kind(text[i], CharKind::LineBreak));
            }
            assert(updated.take(kept.len() as int) =~= kept);
        },
        Place::Between(start, end) => {
            let block = managed_block(newline_of(text));
            let updated = upserted(text)->0;
            let behind = text.len() - end;
            assert(updated.take(start) =~= text.take(start));
            assert(updated.skip(updated.len() - behind) =~= text.skip(end));
            assert(updated.subrange(start, updated.len() - behind) =~= block);
        },
        Place::Incomplete => {},
    }
}

/// Taking the block out leaves what stands before and behind it, but for line breaks next to
/// the block: those two stay apart by one empty line, and a text without a block stays as it is.
pub proof fn law_removal_keeps_the_rest(text: Seq<char>)
    ensures
        match block_place(text) {
            Place::Absent => removed(text) == Some(text),
            Place::Between(start, end) => removed(text) matches Some(updated) && ({
                let before = trim_end_kind(text.take(start), CharKind::LineBreak);
                let after = trim_start_kind(text.skip(end), CharKind::LineBreak);
                let newline = newline_of(text);
                &&& updated.len() >= before.len() && updated.take(before.len() as int) == before
                &&& updated.len() >= after.len() && (after.len() > 0 ==> updated.skip(
                    updated.len() - after.len(),
                ) == after)
                &&& before.len() > 0 && after.len() > 0 ==> updated.len() == before.len()
                    + after.len() + 2 * newline.len()
                &&& before.len() > 0 && after.len() == 0 ==> updated == before + newline
                &&& before.len() == 0 ==> updated == after
            }),
            Place::Incomplete => removed(text) is None,
        },
{
    lemma_find_from(text, AGENT_BEGIN@, 0);
    lemma_find_from(text, AGENT_END@, 0);
    lemma_markers();
    match block_place(text) {
        Place::Between(start, end) => {
            assert(text.take(start) =~= text.subrange(0, start));
            assert(text.skip(end) =~= text.subrange(end, text.len() as int));
            let before = trim_end_kind(text.take(start), CharKind::LineBreak);
            let after = trim_start_kind(text.skip(end), CharKind::LineBreak);
            let updated = removed(text)->0;
            assert(updated.take(before.len() as int) =~= before);
            if after.len() > 0 {
                assert(updated.skip(updated.len() - after.len()) =~= after);
            } else if before.len() == 0 {
                assert(updated =~= after);
            }
        },
        _ => {},
    }
}

/// The block is the guidance between its markers, each of the three on lines of its own; with
/// plain line feeds the guidance stands there as it is written.
pub proof fn law_block_holds_the_guidance(newline: Seq<char>)
    requires
        is_newline(newline),
    ensures
        ({
            let block = managed_block(newline);
            let start = AGENT_BEGIN@ + newline;
            let end = newline + AGENT_END@;
            &&& block.len() >= start.len() + end.len()
            &&& block.take(start.len() as int) == start
            &&& block.skip(block.len() - end.len()) == end
        }),
        ({
            let guidance = trim_end_kind(AGENT_INSTRUCTIONS@, CharKind::White);
            managed_block("\n"@) == AGENT_BEGIN@ + "\n"@ + guidance + "\n"@ + AGENT_END@
        }),
{
    let block = managed_block(newline);
    let start = AGENT_BEGIN@ + newline;
    let end = newline + AGENT_END@;
    assert(block.take(start.len() as int) =~= start);
    assert(block.skip(block.len() - end.len()) =~= end);
    lemma_replaced_by_itself(trim_end_kind(AGENT_INSTRUCTIONS@, CharKind::White));
}

proof fn lemma_replaced_by_itself(text: Seq<char>)
    ensures
        replace_char(text, '\n', "\n"@) == text,
    decreases text.len(),
{
    reveal_strlit("\n");
    if text.len() > 0 {
        lemma_replaced_by_itself(text.drop_last());
        assert(text.drop_last().push(text.last()) =~= text);
        if text.last() == '\n' {
            assert(text.drop_last() + "\n"@ =~= text);
        }
    } else {
        assert(text =~= Seq::empty());
    }
}

/// Lines keep the ends that the text has: those of a text that holds a carriage return before a
/// line feed anywhere, and plain line feeds otherwise.
pub proof fn law_line_ends_are_those_of_the_text(text: Seq<char>)
    ensures
        newline_of(text) == "\r\n"@ <==> has_text(text, "\r\n"@),
        newline_of(text) == "\n"@ <==> !has_text(text, "\r\n"@),
{
    reveal_strlit("\n");
    reveal_strlit("\r\n");
    assert("\n"@.len() == 1 && "\r\n"@.len() == 2);
}

/// A byte order mark is no part of a text, and nothing else is taken away.
pub proof fn law_mark_is_no_text(bytes: Seq<u8>)
    ensures
        without_mark(seq![0xEFu8, 0xBB, 0xBF] + bytes) == bytes,
        bytes.len() < 3 || bytes.take(3) != seq![0xEFu8, 0xBB, 0xBF] ==> without_mark(bytes)
            == bytes,
{
    let mark = seq![0xEFu8, 0xBB, 0xBF];
    assert((mark + bytes).skip(3) =~= bytes);
    if bytes.len() >= 3 && bytes[0] == 0xEF && bytes[1] == 0xBB && bytes[2] == 0xBF {
        assert(bytes.take(3) =~= mark);
    }
}

} // verus!
