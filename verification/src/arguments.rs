//! The arguments of a command line: where they are split, and how a mount is named among
//! them.

use crate::text::{optional, same_text, views};
use vstd::prelude::*;

verus! {

/// Why arguments are refused.
#[derive(Clone, Copy, Debug, PartialEq, Eq, Structural)]
pub enum ArgumentError {
    MissingDelimiter,
    TooManyNamesBefore,
    MissingCommand,
    TooManyNames,
    RepeatedMount,
    MissingMountName,
}

impl ArgumentError {
    /// What is said of arguments that are refused.
    pub open spec fn spec_message(self) -> Seq<char> {
        match self {
            ArgumentError::MissingDelimiter => "expected -- before the remote command"@,
            ArgumentError::TooManyNamesBefore => "pass at most one mount name before --"@,
            ArgumentError::MissingCommand => "a remote command is required after --"@,
            ArgumentError::TooManyNames => "pass at most one mount name"@,
            ArgumentError::RepeatedMount => "--mount may be specified only once"@,
            ArgumentError::MissingMountName => "--mount requires a mount name"@,
        }
    }

    /// What is said of arguments that are refused.
    pub fn message(self) -> (text: &'static str)
        ensures
            text@ == self.spec_message(),
    {
        match self {
            ArgumentError::MissingDelimiter => "expected -- before the remote command",
            ArgumentError::TooManyNamesBefore => "pass at most one mount name before --",
            ArgumentError::MissingCommand => "a remote command is required after --",
            ArgumentError::TooManyNames => "pass at most one mount name",
            ArgumentError::RepeatedMount => "--mount may be specified only once",
            ArgumentError::MissingMountName => "--mount requires a mount name",
        }
    }
}

/// The first place not before `from` at which a text stands among arguments.
pub open spec fn place_from(args: Seq<Seq<char>>, text: Seq<char>, from: int) -> Option<int>
    decreases args.len() - from,
{
    if from < 0 || from >= args.len() {
        None
    } else if args[from] == text {
        Some(from)
    } else {
        place_from(args, text, from + 1)
    }
}

/// The first place at which a text stands among arguments.
pub open spec fn place_of(args: Seq<Seq<char>>, text: Seq<char>) -> Option<int> {
    place_from(args, text, 0)
}

/// The first place at which a text stands among arguments.
pub fn find_argument(args: &Vec<String>, text: &str) -> (place: Option<usize>)
    ensures
        match place {
            Some(place) => place_of(views(args@), text@) == Some(place as int) && place
                < args.len(),
            None => place_of(views(args@), text@) is None,
        },
{
    let mut i: usize = 0;
    while i < args.len()
        invariant
            i <= args.len(),
            place_from(views(args@), text@, i as int) == place_of(views(args@), text@),
        decreases args.len() - i,
    {
        if same_text(args[i].as_str(), text) {
            return Some(i);
        }
        i += 1;
    }
    None
}

/// The arguments of a stretch.
pub fn copy_arguments(args: &Vec<String>, from: usize, to: usize) -> (copy: Vec<String>)
    requires
        from <= to <= args.len(),
    ensures
        views(copy@) == views(args@).subrange(from as int, to as int),
{
    let mut copy: Vec<String> = Vec::new();
    let mut i: usize = from;
    assert(views(copy@) =~= views(args@).subrange(from as int, from as int));
    while i < to
        invariant
            from <= i <= to <= args.len(),
            views(copy@) == views(args@).subrange(from as int, i as int),
        decreases to - i,
    {
        let ghost before = views(copy@);
        copy.push(args[i].clone());
        assert(views(copy@) =~= before.push(args@[i as int]@));
        assert(views(args@).subrange(from as int, i + 1) =~= before.push(views(args@)[i as int]));
        i += 1;
    }
    copy
}

/// A mount that may be named, and a command behind `--`.
pub open spec fn split_command(args: Seq<Seq<char>>) -> Result<
    (Option<Seq<char>>, Seq<Seq<char>>),
    ArgumentError,
> {
    match place_of(args, "--"@) {
        None => Err(ArgumentError::MissingDelimiter),
        Some(at) => if at > 1 {
            Err(ArgumentError::TooManyNamesBefore)
        } else if at + 1 >= args.len() {
            Err(ArgumentError::MissingCommand)
        } else {
            Ok(
                (
                    if at == 1 {
                        Some(args[0])
                    } else {
                        None
                    },
                    args.subrange(at + 1, args.len() as int),
                ),
            )
        },
    }
}

/// A mount that may be named, and a command behind `--`.
pub fn split_remote_command(args: &Vec<String>) -> (split: Result<
    (Option<String>, Vec<String>),
    ArgumentError,
>)
    ensures
        match split {
            Ok((name, command)) => split_command(views(args@)) == Ok::<
                (Option<Seq<char>>, Seq<Seq<char>>),
                ArgumentError,
            >((optional(name), views(command@))),
            Err(error) => split_command(views(args@)) == Err::<
                (Option<Seq<char>>, Seq<Seq<char>>),
                ArgumentError,
            >(error),
        },
{
    match find_argument(args, "--") {
        None => Err(ArgumentError::MissingDelimiter),
        Some(at) => {
            if at > 1 {
                return Err(ArgumentError::TooManyNamesBefore);
            }
            if at + 1 >= args.len() {
                return Err(ArgumentError::MissingCommand);
            }
            let name = if at == 1 {
                Some(args[0].clone())
            } else {
                None
            };
            Ok((name, copy_arguments(args, at + 1, args.len())))
        },
    }
}

/// The one name that may stand alone as an argument.
pub open spec fn optional_name(args: Seq<Seq<char>>) -> Result<Option<Seq<char>>, ArgumentError> {
    if args.len() > 1 {
        Err(ArgumentError::TooManyNames)
    } else if args.len() == 1 {
        Ok(Some(args[0]))
    } else {
        Ok(None)
    }
}

/// The one name that may stand alone as an argument.
pub fn single_optional_name(args: &Vec<String>) -> (name: Result<Option<String>, ArgumentError>)
    ensures
        match name {
            Ok(name) => optional_name(views(args@)) == Ok::<Option<Seq<char>>, ArgumentError>(
                optional(name),
            ),
            Err(error) => optional_name(views(args@)) == Err::<Option<Seq<char>>, ArgumentError>(
                error,
            ),
        },
{
    if args.len() > 1 {
        Err(ArgumentError::TooManyNames)
    } else if args.len() == 1 {
        Ok(Some(args[0].clone()))
    } else {
        Ok(None)
    }
}

/// The mount named by `--mount`, and the other arguments in their order.
pub open spec fn mount_flag(args: Seq<Seq<char>>, requested: Option<Seq<char>>) -> Result<
    (Option<Seq<char>>, Seq<Seq<char>>),
    ArgumentError,
>
    decreases args.len(),
{
    if args.len() == 0 {
        Ok((requested, Seq::empty()))
    } else if args[0] == "--mount"@ {
        if requested is Some {
            Err(ArgumentError::RepeatedMount)
        } else if args.len() < 2 {
            Err(ArgumentError::MissingMountName)
        } else {
            mount_flag(args.skip(2), Some(args[1]))
        }
    } else {
        behind(seq![args[0]], mount_flag(args.skip(1), requested))
    }
}

/// Arguments before those that are left.
pub open spec fn behind(
    args: Seq<Seq<char>>,
    left: Result<(Option<Seq<char>>, Seq<Seq<char>>), ArgumentError>,
) -> Result<(Option<Seq<char>>, Seq<Seq<char>>), ArgumentError> {
    match left {
        Ok((requested, rest)) => Ok((requested, args + rest)),
        Err(error) => Err(error),
    }
}

/// The mount named by `--mount`, and the other arguments in their order.
pub fn extract_mount_flag(args: &Vec<String>) -> (extracted: Result<
    (Option<String>, Vec<String>),
    ArgumentError,
>)
    ensures
        match extracted {
            Ok((requested, rest)) => mount_flag(views(args@), None) == Ok::<
                (Option<Seq<char>>, Seq<Seq<char>>),
                ArgumentError,
            >((optional(requested), views(rest@))),
            Err(error) => mount_flag(views(args@), None) == Err::<
                (Option<Seq<char>>, Seq<Seq<char>>),
                ArgumentError,
            >(error),
        },
{
    let ghost all = views(args@);
    let mut requested: Option<String> = None;
    let mut rest: Vec<String> = Vec::new();
    let mut i: usize = 0;
    proof {
        assert(all.skip(0) =~= all);
        let left = mount_flag(all, None);
        if left is Ok {
            assert(views(rest@) + left->Ok_0.1 =~= left->Ok_0.1);
        }
    }
    while i < args.len()
        invariant
            all == views(args@),
            i <= args.len(),
            mount_flag(all, None) == behind(
                views(rest@),
                mount_flag(all.skip(i as int), optional(requested)),
            ),
        decreases args.len() - i,
    {
        let ghost left = all.skip(i as int);
        assert(left[0] == args@[i as int]@);
        if same_text(args[i].as_str(), "--mount") {
            if requested.is_some() {
                return Err(ArgumentError::RepeatedMount);
            }
            if i + 1 >= args.len() {
                return Err(ArgumentError::MissingMountName);
            }
            assert(left[1] == args@[i + 1]@);
            assert(left.skip(2) =~= all.skip(i + 2));
            requested = Some(args[i + 1].clone());
            i += 2;
        } else {
            let ghost before = views(rest@);
            let ghost next = mount_flag(all.skip(i + 1), optional(requested));
            rest.push(args[i].clone());
            assert(views(rest@) =~= before.push(args@[i as int]@));
            assert(left.skip(1) =~= all.skip(i + 1));
            proof {
                if next is Ok {
                    assert(before + (seq![left[0]] + next->Ok_0.1) =~= views(rest@)
                        + next->Ok_0.1);
                }
            }
            i += 1;
        }
    }
    assert(all.skip(i as int) =~= Seq::empty());
    assert(views(rest@) + Seq::<Seq<char>>::empty() =~= views(rest@));
    Ok((requested, rest))
}

/// Taking a mount out of arguments keeps all others, in their order: without `--mount` they
/// are as they were, and with it they lack just that word and the name behind it.
pub proof fn law_mount_flag_keeps_others(args: Seq<Seq<char>>)
    requires
        mount_flag(args, None) is Ok,
    ensures
        match mount_flag(args, None)->Ok_0 {
            (None, rest) => rest == args,
            (Some(name), rest) => exists|at: int|
                0 <= at <= rest.len() && args == #[trigger] rest.take(at) + seq![
                    "--mount"@,
                    name,
                ] + rest.skip(at),
        },
    decreases args.len(),
{
    let (requested, rest) = mount_flag(args, None)->Ok_0;
    if args.len() == 0 {
        assert(args =~= Seq::empty());
    } else if args[0] == "--mount"@ {
        let name = args[1];
        lemma_named_once(args.skip(2), name);
        assert(args =~= rest.take(0) + seq!["--mount"@, name] + rest.skip(0));
    } else {
        law_mount_flag_keeps_others(args.skip(1));
        let left = mount_flag(args.skip(1), None)->Ok_0;
        let tail = left.1;
        assert(rest =~= seq![args[0]] + tail);
        match left.0 {
            None => {
                assert(seq![args[0]] + args.skip(1) =~= args);
            },
            Some(name) => {
                let at = choose|at: int|
                    0 <= at <= tail.len() && args.skip(1) == #[trigger] tail.take(at) + seq![
                        "--mount"@,
                        name,
                    ] + tail.skip(at);
                assert(rest.take(at + 1) =~= seq![args[0]] + tail.take(at));
                assert(rest.skip(at + 1) =~= tail.skip(at));
                assert(args =~= seq![args[0]] + args.skip(1));
                assert(args =~= rest.take(at + 1) + seq!["--mount"@, name] + rest.skip(at + 1));
            },
        }
    }
}

proof fn lemma_named_once(args: Seq<Seq<char>>, name: Seq<char>)
    requires
        mount_flag(args, Some(name)) is Ok,
    ensures
        mount_flag(args, Some(name))->Ok_0 == (Some(name), args),
    decreases args.len(),
{
    if args.len() == 0 {
        assert(args =~= Seq::empty());
    } else {
        lemma_named_once(args.skip(1), name);
        assert(seq![args[0]] + args.skip(1) =~= args);
    }
}

proof fn lemma_place_from(args: Seq<Seq<char>>, text: Seq<char>, from: int)
    requires
        0 <= from,
    ensures
        match place_from(args, text, from) {
            Some(at) => from <= at < args.len() && args[at] == text && forall|i: int|
                from <= i < at ==> #[trigger] args[i] != text,
            None => forall|i: int| from <= i < args.len() ==> #[trigger] args[i] != text,
        },
    decreases args.len() - from,
{
    if from < args.len() && args[from] != text {
        lemma_place_from(args, text, from + 1);
    }
}

/// The first place of a text among arguments is one at which it stands, and it stands nowhere
/// before.
pub proof fn law_first_place_is_found(args: Seq<Seq<char>>, text: Seq<char>)
    ensures
        match place_of(args, text) {
            Some(at) => 0 <= at < args.len() && args[at] == text && forall|i: int|
                0 <= i < at ==> #[trigger] args[i] != text,
            None => !args.contains(text),
        },
{
    lemma_place_from(args, text, 0);
}

/// A command behind the first `--` is taken whole, whatever words it holds, and the one word
/// that may stand before is the name of the mount.
pub proof fn law_command_is_split_off(name: Seq<char>, command: Seq<Seq<char>>)
    requires
        name != "--"@,
        command.len() > 0,
    ensures
        split_command(seq!["--"@] + command) == Ok::<
            (Option<Seq<char>>, Seq<Seq<char>>),
            ArgumentError,
        >((None, command)),
        split_command(seq![name, "--"@] + command) == Ok::<
            (Option<Seq<char>>, Seq<Seq<char>>),
            ArgumentError,
        >((Some(name), command)),
{
    let bare = seq!["--"@] + command;
    let named = seq![name, "--"@] + command;
    lemma_place_from(bare, "--"@, 0);
    lemma_place_from(named, "--"@, 0);
    assert(bare[0] == "--"@);
    assert(named[0] == name && named[1] == "--"@);
    assert(place_of(bare, "--"@) == Some(0int));
    assert(place_of(named, "--"@) == Some(1int));
    assert(bare.subrange(1, bare.len() as int) =~= command);
    assert(named.subrange(2, named.len() as int) =~= command);
}

/// Arguments are refused exactly where there is no `--`, more than one word before it or
/// nothing behind it, and for that reason.
pub proof fn law_split_is_refused_where_it_must(args: Seq<Seq<char>>)
    ensures
        match split_command(args) {
            Err(ArgumentError::MissingDelimiter) => !args.contains("--"@),
            Err(ArgumentError::TooManyNamesBefore) => args.len() > 2 && args[0] != "--"@ && args[1]
                != "--"@ && args.contains("--"@),
            Err(ArgumentError::MissingCommand) => (args.len() == 1 && args[0] == "--"@) || (
            args.len() == 2 && args[0] != "--"@ && args[1] == "--"@),
            Err(_) => false,
            Ok((name, command)) => command.len() > 0 && (args == seq!["--"@] + command && name
                is None || (name is Some && name->0 != "--"@ && args == seq![name->0, "--"@]
                + command)),
        },
{
    lemma_place_from(args, "--"@, 0);
    match place_of(args, "--"@) {
        None => {},
        Some(at) => {
            assert(args.contains("--"@));
            if at <= 1 && at + 1 < args.len() {
                let command = args.subrange(at + 1, args.len() as int);
                if at == 0 {
                    assert(args =~= seq!["--"@] + command);
                } else {
                    assert(args =~= seq![args[0], "--"@] + command);
                }
            }
        },
    }
}

/// At most one name stands alone, and it is taken as it is.
pub proof fn law_one_name_is_taken(name: Seq<char>, args: Seq<Seq<char>>)
    ensures
        optional_name(Seq::empty()) == Ok::<Option<Seq<char>>, ArgumentError>(None),
        optional_name(seq![name]) == Ok::<Option<Seq<char>>, ArgumentError>(Some(name)),
        args.len() > 1 <==> optional_name(args) == Err::<Option<Seq<char>>, ArgumentError>(
            ArgumentError::TooManyNames,
        ),
{
}

proof fn lemma_mount_flag_passes(
    front: Seq<Seq<char>>,
    back: Seq<Seq<char>>,
    requested: Option<Seq<char>>,
)
    requires
        !front.contains("--mount"@),
    ensures
        mount_flag(front + back, requested) == behind(front, mount_flag(back, requested)),
    decreases front.len(),
{
    let left = mount_flag(back, requested);
    if front.len() == 0 {
        assert(front + back =~= back);
        if left is Ok {
            assert(front + left->Ok_0.1 =~= left->Ok_0.1);
        }
    } else {
        let tail = front.skip(1);
        assert(front[0] != "--mount"@) by {
            assert(front.contains(front[0]));
        }
        assert(!tail.contains("--mount"@)) by {
            if tail.contains("--mount"@) {
                let i = tail.index_of("--mount"@);
                assert(front[i + 1] == "--mount"@);
            }
        }
        assert((front + back)[0] == front[0]);
        assert((front + back).skip(1) =~= tail + back);
        lemma_mount_flag_passes(tail, back, requested);
        if left is Ok {
            assert(seq![front[0]] + (tail + left->Ok_0.1) =~= front + left->Ok_0.1);
        }
    }
}

/// A mount may be named by `--mount` anywhere among other arguments, with whatever name: it is
/// found, and the others are left as they were. Without it no mount is named; given twice, or
/// without a name, it is refused.
pub proof fn law_mount_is_named_anywhere(
    front: Seq<Seq<char>>,
    name: Seq<char>,
    back: Seq<Seq<char>>,
    more: Seq<Seq<char>>,
)
    requires
        !front.contains("--mount"@),
        !back.contains("--mount"@),
    ensures
        mount_flag(front + back, None) == Ok::<
            (Option<Seq<char>>, Seq<Seq<char>>),
            ArgumentError,
        >((None, front + back)),
        mount_flag(front + seq!["--mount"@, name] + back, None) == Ok::<
            (Option<Seq<char>>, Seq<Seq<char>>),
            ArgumentError,
        >((Some(name), front + back)),
        mount_flag(front + seq!["--mount"@], None) == Err::<
            (Option<Seq<char>>, Seq<Seq<char>>),
            ArgumentError,
        >(ArgumentError::MissingMountName),
        mount_flag(front + seq!["--mount"@, name] + back + seq!["--mount"@] + more, None) == Err::<
            (Option<Seq<char>>, Seq<Seq<char>>),
            ArgumentError,
        >(ArgumentError::RepeatedMount),
{
    let none = Seq::<Seq<char>>::empty();
    let flag = seq!["--mount"@];
    lemma_mount_flag_passes(front, back, None);
    lemma_mount_flag_passes(back, none, None);
    assert(back + none =~= back);
    let named = seq!["--mount"@, name] + back;
    assert(front + seq!["--mount"@, name] + back =~= front + named);
    lemma_mount_flag_passes(front, named, None);
    assert(named[0] == "--mount"@ && named[1] == name);
    assert(named.skip(2) =~= back);
    lemma_mount_flag_passes(back, none, Some(name));
    lemma_mount_flag_passes(front, flag, None);
    assert(mount_flag(flag, None) is Err);
    let again = flag + more;
    let twice = named + again;
    assert(front + seq!["--mount"@, name] + back + flag + more =~= front + twice);
    lemma_mount_flag_passes(front, twice, None);
    assert(twice[0] == "--mount"@ && twice[1] == name);
    assert(twice.skip(2) =~= back + again);
    lemma_mount_flag_passes(back, again, Some(name));
    assert(again[0] == "--mount"@);
}

} // verus!
