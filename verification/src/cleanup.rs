//! How a mount point is made free: what may be removed there and what is never touched.

use crate::logger::{entry_view, warn_entry, EntryView, LogEntry};
use crate::rclone::push_argument;
use crate::text::{has_text, lemma_has_between, views};
use vstd::prelude::*;

verus! {

/// The attribute bit of a reparse point, which is what a mount leaves behind.
pub const FILE_ATTRIBUTE_REPARSE_POINT: u32 = 0x0000_0400;

/// Whether attributes are those of a reparse point.
pub open spec fn is_reparse(attributes: u32) -> bool {
    (attributes & FILE_ATTRIBUTE_REPARSE_POINT) != 0
}

/// Whether attributes are those of a reparse point.
pub fn has_reparse_attribute(attributes: u32) -> (yes: bool)
    ensures
        yes == is_reparse(attributes),
{
    (attributes & FILE_ATTRIBUTE_REPARSE_POINT) != 0
}

/// What is done at the mount point.
#[derive(Clone, Copy, Debug, PartialEq, Eq, Structural)]
pub enum CleanupPhase {
    /// See what is there.
    Stat,
    /// Detach a reparse point with `mountvol.exe`.
    Detach,
    /// See whether the reparse point is still there.
    CheckDetached,
    /// Remove the reparse point as a directory.
    RemoveReparse,
    /// See whether the reparse point is gone now.
    CheckRemoved,
    /// See whether a normal directory has an entry.
    List,
    /// Remove a normal directory that has none.
    RemoveEmpty,
    /// Nothing is there.
    Free,
    /// The mount point cannot be used.
    Refused(CleanupError),
}

/// Why a mount point cannot be used.
#[derive(Clone, Copy, Debug, PartialEq, Eq, Structural)]
pub enum CleanupError {
    StatFailed,
    ReparseRemains,
    ListFailed,
    RemoveFailed,
    NotEmpty,
    NotDirectory,
}

/// What was found at the mount point.
#[derive(Clone, Copy, Debug, PartialEq, Eq, Structural)]
pub enum CleanupEvent {
    Absent,
    StatFailed,
    Found { attributes: u32, directory: bool },
    Detached,
    Present(bool),
    Removed(bool),
    Listed { empty: bool },
    ListFailed,
}

impl CleanupError {
    /// What is said of a mount point that cannot be used. Of a removal that failed nothing is
    /// said beyond the error of the system.
    pub open spec fn spec_message(self, path: Seq<char>) -> Seq<char> {
        match self {
            CleanupError::StatFailed => "stat mount point "@ + path,
            CleanupError::ReparseRemains => "unable to remove stale reparse mount point "@ + path,
            CleanupError::ListFailed => "reading existing mount directory "@ + path,
            CleanupError::RemoveFailed => ""@,
            CleanupError::NotEmpty => "mount point "@ + path
                + " is a non-empty normal directory; refusing to hide or delete user data"@,
            CleanupError::NotDirectory => "mount point "@ + path
                + " exists and is not a directory"@,
        }
    }

    /// What is said of a mount point that cannot be used. Of a removal that failed nothing is
    /// said beyond the error of the system.
    pub fn message(self, path: &str) -> (text: String)
        ensures
            text@ == self.spec_message(path@),
    {
        let mut text = match self {
            CleanupError::StatFailed => "stat mount point ".to_string(),
            CleanupError::ReparseRemains => {
                "unable to remove stale reparse mount point ".to_string()
            },
            CleanupError::ListFailed => "reading existing mount directory ".to_string(),
            CleanupError::RemoveFailed => {
                return "".to_string();
            },
            CleanupError::NotEmpty => "mount point ".to_string(),
            CleanupError::NotDirectory => "mount point ".to_string(),
        };
        text.append(path);
        match self {
            CleanupError::NotEmpty => {
                text.append(
                    " is a non-empty normal directory; refusing to hide or delete user data",
                );
            },
            CleanupError::NotDirectory => {
                text.append(" exists and is not a directory");
            },
            _ => {},
        }
        text
    }
}

/// The phase after an event. An event that does not end the phase changes nothing.
pub open spec fn after_cleanup(phase: CleanupPhase, event: CleanupEvent) -> CleanupPhase {
    match (phase, event) {
        (CleanupPhase::Stat, CleanupEvent::Absent) => CleanupPhase::Free,
        (CleanupPhase::Stat, CleanupEvent::StatFailed) => CleanupPhase::Refused(
            CleanupError::StatFailed,
        ),
        (CleanupPhase::Stat, CleanupEvent::Found { attributes, directory }) => if is_reparse(
            attributes,
        ) {
            CleanupPhase::Detach
        } else if directory {
            CleanupPhase::List
        } else {
            CleanupPhase::Refused(CleanupError::NotDirectory)
        },
        (CleanupPhase::Detach, CleanupEvent::Detached) => CleanupPhase::CheckDetached,
        (CleanupPhase::CheckDetached, CleanupEvent::Present(present)) => if present {
            CleanupPhase::RemoveReparse
        } else {
            CleanupPhase::CheckRemoved
        },
        (CleanupPhase::RemoveReparse, CleanupEvent::Removed(_)) => CleanupPhase::CheckRemoved,
        (CleanupPhase::CheckRemoved, CleanupEvent::Present(present)) => if present {
            CleanupPhase::Refused(CleanupError::ReparseRemains)
        } else {
            CleanupPhase::Free
        },
        (CleanupPhase::List, CleanupEvent::ListFailed) => CleanupPhase::Refused(
            CleanupError::ListFailed,
        ),
        (CleanupPhase::List, CleanupEvent::Listed { empty }) => if empty {
            CleanupPhase::RemoveEmpty
        } else {
            CleanupPhase::Refused(CleanupError::NotEmpty)
        },
        (CleanupPhase::RemoveEmpty, CleanupEvent::Removed(removed)) => if removed {
            CleanupPhase::Free
        } else {
            CleanupPhase::Refused(CleanupError::RemoveFailed)
        },
        _ => phase,
    }
}

/// What is logged when an event ends a phase.
pub open spec fn cleanup_entry(phase: CleanupPhase, event: CleanupEvent, path: Seq<char>) -> Option<
    EntryView,
> {
    match (phase, event) {
        (CleanupPhase::Stat, CleanupEvent::Found { attributes, .. }) => if is_reparse(attributes) {
            warn_entry("stale reparse mount point detected: "@ + path)
        } else {
            None
        },
        (CleanupPhase::List, CleanupEvent::Listed { empty: true }) => warn_entry(
            "removing empty leftover mount directory "@ + path,
        ),
        _ => None,
    }
}

impl CleanupPhase {
    /// What follows an event at a mount point, and what is logged of it.
    pub fn advance(self, event: CleanupEvent, path: &str) -> (next: (
        CleanupPhase,
        Option<LogEntry>,
    ))
        ensures
            next.0 == after_cleanup(self, event),
            entry_view(next.1) == cleanup_entry(self, event, path@),
    {
        match (self, event) {
            (CleanupPhase::Stat, CleanupEvent::Absent) => (CleanupPhase::Free, None),
            (CleanupPhase::Stat, CleanupEvent::StatFailed) => (
                CleanupPhase::Refused(CleanupError::StatFailed),
                None,
            ),
            (CleanupPhase::Stat, CleanupEvent::Found { attributes, directory }) => {
                if has_reparse_attribute(attributes) {
                    let mut message = "stale reparse mount point detected: ".to_string();
                    message.append(path);
                    (CleanupPhase::Detach, Some(LogEntry::warn(message)))
                } else if directory {
                    (CleanupPhase::List, None)
                } else {
                    (CleanupPhase::Refused(CleanupError::NotDirectory), None)
                }
            },
            (CleanupPhase::Detach, CleanupEvent::Detached) => (CleanupPhase::CheckDetached, None),
            (CleanupPhase::CheckDetached, CleanupEvent::Present(present)) => if present {
                (CleanupPhase::RemoveReparse, None)
            } else {
                (CleanupPhase::CheckRemoved, None)
            },
            (CleanupPhase::RemoveReparse, CleanupEvent::Removed(_)) => (
                CleanupPhase::CheckRemoved,
                None,
            ),
            (CleanupPhase::CheckRemoved, CleanupEvent::Present(present)) => if present {
                (CleanupPhase::Refused(CleanupError::ReparseRemains), None)
            } else {
                (CleanupPhase::Free, None)
            },
            (CleanupPhase::List, CleanupEvent::ListFailed) => (
                CleanupPhase::Refused(CleanupError::ListFailed),
                None,
            ),
            (CleanupPhase::List, CleanupEvent::Listed { empty }) => if empty {
                let mut message = "removing empty leftover mount directory ".to_string();
                message.append(path);
                (CleanupPhase::RemoveEmpty, Some(LogEntry::warn(message)))
            } else {
                (CleanupPhase::Refused(CleanupError::NotEmpty), None)
            },
            (CleanupPhase::RemoveEmpty, CleanupEvent::Removed(removed)) => if removed {
                (CleanupPhase::Free, None)
            } else {
                (CleanupPhase::Refused(CleanupError::RemoveFailed), None)
            },
            (phase, _) => (phase, None),
        }
    }
}

/// The phase after some events.
pub open spec fn after_events(phase: CleanupPhase, events: Seq<CleanupEvent>) -> CleanupPhase
    decreases events.len(),
{
    if events.len() == 0 {
        phase
    } else {
        after_cleanup(after_events(phase, events.drop_last()), events.last())
    }
}

/// Whether an event is the sight of a reparse point.
pub open spec fn sees_reparse(event: CleanupEvent) -> bool {
    event matches CleanupEvent::Found { attributes, .. } && is_reparse(attributes)
}

/// Whether an event is the sight of a normal directory.
pub open spec fn sees_directory(event: CleanupEvent) -> bool {
    event matches CleanupEvent::Found { attributes, directory } && !is_reparse(attributes)
        && directory
}

/// Whether events hold the sight of a reparse point.
pub open spec fn saw_reparse(events: Seq<CleanupEvent>) -> bool {
    exists|i: int| 0 <= i < events.len() && sees_reparse(#[trigger] events[i])
}

/// Whether events hold the sight of a normal directory.
pub open spec fn saw_directory(events: Seq<CleanupEvent>) -> bool {
    exists|i: int| 0 <= i < events.len() && sees_directory(#[trigger] events[i])
}

/// Whether events hold the sight of a normal directory and then of no entry in it.
pub open spec fn saw_empty_directory(events: Seq<CleanupEvent>) -> bool {
    exists|i: int, j: int|
        0 <= i < j < events.len() && sees_directory(#[trigger] events[i]) && #[trigger] events[j]
            == (CleanupEvent::Listed { empty: true })
}

/// User data is never touched: something is detached or removed only where a reparse point
/// was found, and removed as a normal directory only where such a directory was found
/// without an entry.
pub proof fn law_only_leftovers_are_removed(events: Seq<CleanupEvent>)
    ensures
        ({
            let phase = after_events(CleanupPhase::Stat, events);
            &&& phase is Detach || phase is CheckDetached || phase is RemoveReparse
                || phase is CheckRemoved ==> saw_reparse(events)
            &&& phase is List ==> saw_directory(events)
            &&& phase is RemoveEmpty ==> saw_empty_directory(events)
        }),
    decreases events.len(),
{
    if events.len() > 0 {
        let before = events.drop_last();
        let last = events.last();
        law_only_leftovers_are_removed(before);
        let phase = after_events(CleanupPhase::Stat, before);
        assert(events[events.len() - 1] == last);
        assert(saw_reparse(before) ==> saw_reparse(events)) by {
            if saw_reparse(before) {
                let i = choose|i: int| 0 <= i < before.len() && sees_reparse(#[trigger] before[i]);
                assert(events[i] == before[i]);
            }
        }
        assert(saw_directory(before) ==> saw_directory(events)) by {
            if saw_directory(before) {
                let i = choose|i: int|
                    0 <= i < before.len() && sees_directory(#[trigger] before[i]);
                assert(events[i] == before[i]);
            }
        }
        assert(saw_empty_directory(before) ==> saw_empty_directory(events)) by {
            if saw_empty_directory(before) {
                let (i, j) = choose|i: int, j: int|
                    0 <= i < j < before.len() && sees_directory(#[trigger] before[i])
                        && #[trigger] before[j] == (CleanupEvent::Listed { empty: true });
                assert(events[i] == before[i]);
                assert(events[j] == before[j]);
            }
        }
        if phase is List && after_cleanup(phase, last) is RemoveEmpty {
            let i = choose|i: int| 0 <= i < before.len() && sees_directory(#[trigger] before[i]);
            assert(events[i] == before[i]);
        }
    }
}

/// A mount point counts as free only where nothing was found there, or where what was left
/// there was seen to be gone.
pub proof fn law_free_means_gone(phase: CleanupPhase, event: CleanupEvent)
    ensures
        after_cleanup(phase, event) is Free && !(phase is Free) ==> event == CleanupEvent::Absent
            || event == CleanupEvent::Present(false) || event == CleanupEvent::Removed(true),
        phase is List && event == (CleanupEvent::Listed { empty: false }) ==> after_cleanup(
            phase,
            event,
        ) == CleanupPhase::Refused(CleanupError::NotEmpty),
{
}

/// The arguments with which `mountvol.exe` detaches a reparse point.
pub fn detach_arguments(path: &str) -> (arguments: Vec<String>)
    ensures
        views(arguments@) == seq![path@, "/D"@],
{
    let mut arguments: Vec<String> = Vec::new();
    assert(views(arguments@) =~= Seq::empty());
    push_argument(&mut arguments, path);
    push_argument(&mut arguments, "/D");
    arguments
}

/// What a mount left behind is got rid of: a reparse point is detached, then removed as a
/// directory where that did not do, and an empty directory is removed. The mount point is free
/// where nothing is left, and refused where something is.
pub proof fn law_leftovers_are_got_rid_of(attributes: u32, directory: bool, removed: bool)
    ensures
        ({
            let found = after_cleanup(
                CleanupPhase::Stat,
                CleanupEvent::Found { attributes, directory },
            );
            let detached = after_cleanup(found, CleanupEvent::Detached);
            let gone = after_cleanup(detached, CleanupEvent::Present(false));
            let stays = after_cleanup(detached, CleanupEvent::Present(true));
            let taken = after_cleanup(stays, CleanupEvent::Removed(removed));
            let empty = after_cleanup(found, CleanupEvent::Listed { empty: true });
            let reparse = (attributes / 0x400) % 2 == 1;
            &&& reparse ==> {
                &&& found is Detach
                &&& detached is CheckDetached
                &&& gone is CheckRemoved
                &&& stays is RemoveReparse
                &&& taken is CheckRemoved
                &&& after_cleanup(taken, CleanupEvent::Present(false)) is Free
                &&& after_cleanup(taken, CleanupEvent::Present(true)) == CleanupPhase::Refused(
                    CleanupError::ReparseRemains,
                )
            }
            &&& !reparse && directory ==> {
                &&& found is List
                &&& empty is RemoveEmpty
                &&& after_cleanup(empty, CleanupEvent::Removed(true)) is Free
                &&& after_cleanup(empty, CleanupEvent::Removed(false)) == CleanupPhase::Refused(
                    CleanupError::RemoveFailed,
                )
                &&& after_cleanup(found, CleanupEvent::Listed { empty: false })
                    == CleanupPhase::Refused(CleanupError::NotEmpty)
                &&& after_cleanup(found, CleanupEvent::ListFailed) == CleanupPhase::Refused(
                    CleanupError::ListFailed,
                )
            }
            &&& !reparse && !directory ==> found == CleanupPhase::Refused(
                CleanupError::NotDirectory,
            )
            &&& after_cleanup(CleanupPhase::Stat, CleanupEvent::Absent) is Free
            &&& after_cleanup(CleanupPhase::Stat, CleanupEvent::StatFailed)
                == CleanupPhase::Refused(CleanupError::StatFailed)
        }),
{
    assert(((attributes & 0x400u32) != 0) == ((attributes / 0x400) % 2 == 1)) by (bit_vector);
}

/// A mount point that is free or refused stays so, and what was not looked for changes nothing.
pub proof fn law_cleanup_keeps_its_verdict(phase: CleanupPhase, event: CleanupEvent)
    ensures
        phase is Free || phase is Refused ==> after_cleanup(phase, event) == phase,
        after_cleanup(phase, event) != phase ==> match event {
            CleanupEvent::Absent => phase is Stat,
            CleanupEvent::StatFailed => phase is Stat,
            CleanupEvent::Found { .. } => phase is Stat,
            CleanupEvent::Detached => phase is Detach,
            CleanupEvent::Present(_) => phase is CheckDetached || phase is CheckRemoved,
            CleanupEvent::Removed(_) => phase is RemoveReparse || phase is RemoveEmpty,
            CleanupEvent::Listed { .. } => phase is List,
            CleanupEvent::ListFailed => phase is List,
        },
{
}

/// What is taken away at a mount point is told as a warning with its path, just before it is:
/// a reparse point, and a directory without an entry. Nothing else is told.
pub proof fn law_removal_is_told(phase: CleanupPhase, event: CleanupEvent, path: Seq<char>)
    ensures
        cleanup_entry(phase, event, path) is Some <==> !(phase is Detach) && after_cleanup(
            phase,
            event,
        ) is Detach || !(phase is RemoveEmpty) && after_cleanup(phase, event) is RemoveEmpty,
        cleanup_entry(phase, event, path) matches Some(entry) ==> entry.level is Warn && has_text(
            entry.message,
            path,
        ),
{
    let none = Seq::<char>::empty();
    let a = "stale reparse mount point detected: "@;
    let b = "removing empty leftover mount directory "@;
    assert(a + path =~= a + path + none);
    assert(b + path =~= b + path + none);
    lemma_has_between(a, path, none);
    lemma_has_between(b, path, none);
}

/// A mount point that cannot be used is named in what is said of it, and a directory with
/// entries is not taken for anything else.
pub proof fn law_refusal_names_the_mount_point(error: CleanupError, path: Seq<char>)
    ensures
        !(error is RemoveFailed) ==> has_text(error.spec_message(path), path),
        has_text(
            CleanupError::NotEmpty.spec_message(path),
            "refusing to hide or delete user data"@,
        ),
{
    let none = Seq::<char>::empty();
    let a = "stat mount point "@;
    assert(a + path =~= a + path + none);
    lemma_has_between(a, path, none);
    let b = "unable to remove stale reparse mount point "@;
    assert(b + path =~= b + path + none);
    lemma_has_between(b, path, none);
    let c = "reading existing mount directory "@;
    assert(c + path =~= c + path + none);
    lemma_has_between(c, path, none);
    let d = " is a non-empty normal directory; refusing to hide or delete user data"@;
    lemma_has_between("mount point "@, path, d);
    lemma_has_between("mount point "@, path, " exists and is not a directory"@);
    reveal_strlit(" is a non-empty normal directory; refusing to hide or delete user data");
    reveal_strlit(" is a non-empty normal directory; ");
    reveal_strlit("refusing to hide or delete user data");
    let head = "mount point "@ + path + " is a non-empty normal directory; "@;
    let last = "refusing to hide or delete user data"@;
    assert("mount point "@ + path + d =~= head + last + none);
    lemma_has_between(head, last, none);
}

/// One attribute alone tells a reparse point, whatever the others are.
pub proof fn law_one_attribute_tells(attributes: u32)
    ensures
        is_reparse(attributes) <==> attributes / 0x400 % 2 == 1,
{
    assert((attributes & 0x0000_0400) != 0 <==> attributes / 0x400 % 2 == 1) by (bit_vector);
}

} // verus!
