//! The mounts that are set up on this computer: their records, their order, and which of
//! them a command is about.

use crate::text::{
    ascii_lower, blank, comes_before, decimal, equal_ignoring_case, is_before, is_blank,
    is_white_space, lemma_order_is_total, of_kind, push_decimal, same_ignoring_case, CharKind,
};
use crate::winpath::{
    drive_at, is_plain_name, join_front, join_path, law_joined_name_is_last_component,
    law_joined_names_stay_apart, law_parent_undoes_join, lemma_join_plain_name, opens_with, parent,
    path_join, path_parent, relative_components, relative_names, takes_names,
};
use vstd::prelude::*;

verus! {

/// The directory in which mounts keep their metadata.
pub const MOUNTS_DIR: &'static str = r"C:\ProgramData\CloudFolder\mounts";

/// The directory in which CloudFolder keeps its data.
pub const DATA_DIR: &'static str = r"C:\ProgramData\CloudFolder";

/// What is known of one mount.
#[derive(Clone, Debug, PartialEq, Eq)]
pub struct MountRecord {
    pub name: String,
    pub slug: String,
    pub service_name: String,
    pub host: String,
    pub port: u16,
    pub user: String,
    pub remote_path: String,
    pub remote_root: String,
    pub mount_point: String,
    pub profile: String,
    pub rclone_config: String,
    pub key_file: String,
    pub known_hosts: String,
    pub ssh_alias: String,
    pub ssh_config: String,
    pub rc_port: u16,
}

/// `str::to_lowercase` of a text, by the tables of Unicode.
pub uninterp spec fn unicode_lowercase(text: Seq<char>) -> Seq<char>;

/// `str::to_lowercase` makes a text small by the tables of Unicode. What comes out depends on
/// the text alone.
#[verifier::external_body]
fn lowercase(text: &str) -> (small: String)
    ensures
        small@ == unicode_lowercase(text@),
{
    text.to_lowercase()
}

/// What a mount is ordered by.
pub open spec fn order_key(record: MountRecord) -> Seq<char> {
    unicode_lowercase(record.name@)
}

/// Where a mount with a key goes in a list: behind the last one that it does not come
/// before.
pub open spec fn slot(records: Seq<MountRecord>, key: Seq<char>) -> int
    decreases records.len(),
{
    if records.len() == 0 {
        0
    } else if comes_before(key, order_key(records.last())) {
        slot(records.drop_last(), key)
    } else {
        records.len() as int
    }
}

/// Mounts in the order of their names, whatever their case; those of one name stay in the
/// order in which they came.
pub open spec fn in_name_order(records: Seq<MountRecord>) -> Seq<MountRecord>
    decreases records.len(),
{
    if records.len() == 0 {
        records
    } else {
        let sorted = in_name_order(records.drop_last());
        sorted.insert(slot(sorted, order_key(records.last())), records.last())
    }
}

proof fn lemma_slot(records: Seq<MountRecord>, key: Seq<char>)
    ensures
        0 <= slot(records, key) <= records.len(),
        forall|i: int|
            slot(records, key) <= i < records.len() ==> comes_before(
                key,
                order_key(#[trigger] records[i]),
            ),
        slot(records, key) > 0 ==> !comes_before(
            key,
            order_key(records[slot(records, key) - 1]),
        ),
    decreases records.len(),
{
    if records.len() > 0 && comes_before(key, order_key(records.last())) {
        lemma_slot(records.drop_last(), key);
        assert forall|i: int| slot(records, key) <= i < records.len() implies comes_before(
            key,
            order_key(#[trigger] records[i]),
        ) by {
            if i < records.len() - 1 {
                assert(records.drop_last()[i] == records[i]);
            }
        }
    }
}

/// Mounts in the order of their names.
pub fn sort_mounts(records: Vec<MountRecord>) -> (sorted: Vec<MountRecord>)
    ensures
        sorted@ == in_name_order(records@),
{
    let ghost all = records@;
    let mut rest = records;
    let mut sorted: Vec<MountRecord> = Vec::new();
    let ghost mut done: int = 0;
    assert(all.take(0) =~= Seq::empty());
    assert(all.skip(0) =~= all);
    while rest.len() > 0
        invariant
            0 <= done <= all.len(),
            rest@ == all.skip(done),
            sorted@ == in_name_order(all.take(done)),
        decreases rest.len(),
    {
        let ghost before = sorted@;
        let record = rest.remove(0);
        let key = lowercase(record.name.as_str());
        proof {
            assert(record == all[done]);
            assert(all.skip(done).remove(0) =~= all.skip(done + 1));
            assert(all.take(done + 1).drop_last() =~= all.take(done));
        }
        let mut at: usize = sorted.len();
        assert(before.take(at as int) =~= before);
        while at > 0 && is_before(
            key.as_str(),
            lowercase(sorted[at - 1].name.as_str()).as_str(),
        )
            invariant
                at <= sorted.len(),
                sorted@ == before,
                slot(before, key@) == slot(before.take(at as int), key@),
            decreases at,
        {
            assert(before.take(at as int).drop_last() =~= before.take(at - 1));
            assert(before.take(at as int).last() == before[at - 1]);
            at -= 1;
        }
        proof {
            if at > 0 {
                assert(before.take(at as int).last() == before[at - 1]);
            }
            assert(slot(before, key@) == at);
            done = done + 1;
        }
        sorted.insert(at, record);
    }
    assert(all.take(done) =~= all);
    sorted
}

/// Ordering loses and invents no mount, and none of them comes before one that stands
/// ahead of it.
pub proof fn law_mounts_are_ordered(records: Seq<MountRecord>)
    ensures
        in_name_order(records).to_multiset() =~= records.to_multiset(),
        forall|i: int, j: int|
            0 <= i < j < records.len() ==> !comes_before(
                order_key(#[trigger] in_name_order(records)[j]),
                order_key(#[trigger] in_name_order(records)[i]),
            ),
        in_name_order(records).len() == records.len(),
    decreases records.len(),
{
    broadcast use vstd::seq_lib::group_to_multiset_ensures;

    if records.len() > 0 {
        let head = records.drop_last();
        law_mounts_are_ordered(head);
        let sorted = in_name_order(head);
        let key = order_key(records.last());
        let at = slot(sorted, key);
        lemma_slot(sorted, key);
        let all = in_name_order(records);
        assert(all == sorted.insert(at, records.last()));
        assert(all.to_multiset() =~= records.to_multiset()) by {
            assert(records =~= head.push(records.last()));
            let x = records.last();
            let front = sorted.subrange(0, at);
            let back = sorted.subrange(at, sorted.len() as int);
            assert(all =~= front.push(x) + back);
            assert(sorted =~= front + back);
            vstd::seq_lib::lemma_multiset_commutative(front, back);
            vstd::seq_lib::lemma_multiset_commutative(front.push(x), back);
        }
        assert forall|i: int, j: int| 0 <= i < j < records.len() implies !comes_before(
            order_key(#[trigger] all[j]),
            order_key(#[trigger] all[i]),
        ) by {
            let a = if i < at {
                i
            } else {
                i - 1
            };
            let b = if j < at {
                j
            } else {
                j - 1
            };
            if i != at {
                assert(all[i] == sorted[a]);
            }
            if j != at {
                assert(all[j] == sorted[b]);
            }
            if i == at {
                lemma_order_is_total(key, order_key(sorted[b]), key);
            } else if j == at {
                let last = order_key(sorted[at - 1]);
                if i < at - 1 {
                    assert(!comes_before(order_key(sorted[at - 1]), order_key(sorted[i])));
                }
                lemma_order_is_total(order_key(sorted[i]), last, key);
            }
        }
    }
}

/// Whether a mount goes by a name.
pub open spec fn goes_by(record: MountRecord, name: Seq<char>) -> bool {
    same_ignoring_case(record.name@, name) || same_ignoring_case(record.slug@, name)
        || same_ignoring_case(record.service_name@, name)
}

/// The places of the mounts that go by a name.
pub open spec fn places_of(records: Seq<MountRecord>, name: Seq<char>) -> Seq<int>
    decreases records.len(),
{
    if records.len() == 0 {
        Seq::empty()
    } else if goes_by(records.last(), name) {
        places_of(records.drop_last(), name).push(records.len() - 1)
    } else {
        places_of(records.drop_last(), name)
    }
}

/// How deep below the mount point of a mount a directory is; nothing where it is not.
pub open spec fn depth_below(record: MountRecord, directory: Seq<char>) -> Option<nat> {
    match relative_names(directory, record.mount_point@) {
        Some(names) => Some(names.len()),
        None => None,
    }
}

/// The first of the mounts that a directory is deepest below.
pub open spec fn deepest(records: Seq<MountRecord>, directory: Seq<char>) -> Option<int>
    decreases records.len(),
{
    if records.len() == 0 {
        None
    } else {
        let before = deepest(records.drop_last(), directory);
        match (depth_below(records.last(), directory), before) {
            (None, _) => before,
            (Some(_), None) => Some(records.len() - 1),
            (Some(depth), Some(place)) => if depth > depth_below(
                records[place],
                directory,
            ).unwrap() {
                Some(records.len() - 1)
            } else {
                before
            },
        }
    }
}

/// Why no mount was found.
#[derive(Clone, Debug, PartialEq, Eq)]
pub enum ResolveError {
    NoMounts,
    Unknown { name: String },
    Ambiguous { name: String },
    OutsideMounts,
}

/// Why no mount was found, by its text.
#[verifier::ext_equal]
pub enum ResolveErrorView {
    NoMounts,
    Unknown(Seq<char>),
    Ambiguous(Seq<char>),
    OutsideMounts,
}

impl View for ResolveError {
    type V = ResolveErrorView;

    open spec fn view(&self) -> ResolveErrorView {
        match self {
            ResolveError::NoMounts => ResolveErrorView::NoMounts,
            ResolveError::Unknown { name } => ResolveErrorView::Unknown(name@),
            ResolveError::Ambiguous { name } => ResolveErrorView::Ambiguous(name@),
            ResolveError::OutsideMounts => ResolveErrorView::OutsideMounts,
        }
    }
}

impl ResolveError {
    /// What is said where no mount was found.
    pub open spec fn spec_message(self) -> Seq<char> {
        match self {
            ResolveError::NoMounts => "no CloudFolder mounts are configured"@,
            ResolveError::Unknown { name } => "could not find CloudFolder mount '"@ + name@ + "'"@,
            ResolveError::Ambiguous { name } => "mount name '"@ + name@ + "' is ambiguous"@,
            ResolveError::OutsideMounts => "the current directory is not inside a CloudFolder mount; pass the mount name explicitly"@,
        }
    }

    /// What is said where no mount was found.
    pub fn message(&self) -> (text: String)
        ensures
            text@ == self.spec_message(),
    {
        match self {
            ResolveError::NoMounts => "no CloudFolder mounts are configured".to_string(),
            ResolveError::Unknown { name } => {
                let mut text = "could not find CloudFolder mount '".to_string();
                text.append(name.as_str());
                text.append("'");
                text
            },
            ResolveError::Ambiguous { name } => {
                let mut text = "mount name '".to_string();
                text.append(name.as_str());
                text.append("' is ambiguous");
                text
            },
            ResolveError::OutsideMounts => {
                "the current directory is not inside a CloudFolder mount; pass the mount name explicitly".to_string()
            },
        }
    }
}

/// Whether a mount was asked for by name.
pub open spec fn asks_by_name(requested: Option<Seq<char>>) -> bool {
    requested matches Some(name) && !is_blank(name)
}

/// The mount that a command is about: the one that was asked for by name; or the one that
/// the current directory is deepest below; or the only one there is.
pub open spec fn resolution(
    records: Seq<MountRecord>,
    requested: Option<Seq<char>>,
    directory: Option<Seq<char>>,
) -> Result<int, ResolveErrorView> {
    if records.len() == 0 {
        Err(ResolveErrorView::NoMounts)
    } else if asks_by_name(requested) {
        let places = places_of(records, requested->0);
        if places.len() == 0 {
            Err(ResolveErrorView::Unknown(requested->0))
        } else if places.len() == 1 {
            Ok(places[0])
        } else {
            Err(ResolveErrorView::Ambiguous(requested->0))
        }
    } else if directory is Some && deepest(records, directory->0) is Some {
        Ok(deepest(records, directory->0)->0)
    } else if records.len() == 1 {
        Ok(0)
    } else {
        Err(ResolveErrorView::OutsideMounts)
    }
}

/// Whether a mount goes by a name.
fn is_named(record: &MountRecord, name: &str) -> (yes: bool)
    ensures
        yes == goes_by(*record, name@),
{
    equal_ignoring_case(record.name.as_str(), name) || equal_ignoring_case(
        record.slug.as_str(),
        name,
    ) || equal_ignoring_case(record.service_name.as_str(), name)
}

/// The places of the mounts that go by a name.
fn find_named(records: &Vec<MountRecord>, name: &str) -> (places: Vec<usize>)
    ensures
        places@.len() == places_of(records@, name@).len(),
        forall|i: int|
            0 <= i < places@.len() ==> #[trigger] places@[i] == places_of(records@, name@)[i]
                && places@[i] < records.len(),
{
    let mut places: Vec<usize> = Vec::new();
    let mut i: usize = 0;
    assert(records@.take(0) =~= Seq::empty());
    while i < records.len()
        invariant
            i <= records.len(),
            places@.len() == places_of(records@.take(i as int), name@).len(),
            forall|k: int|
                0 <= k < places@.len() ==> #[trigger] places@[k] == places_of(
                    records@.take(i as int),
                    name@,
                )[k] && places@[k] < records.len(),
        decreases records.len() - i,
    {
        assert(records@.take(i + 1).drop_last() =~= records@.take(i as int));
        assert(records@.take(i + 1).last() == records@[i as int]);
        if is_named(&records[i], name) {
            places.push(i);
        }
        i += 1;
    }
    assert(records@.take(i as int) =~= records@);
    places
}

/// The first of the mounts that a directory is deepest below.
fn find_deepest(records: &Vec<MountRecord>, directory: &str) -> (found: Option<usize>)
    ensures
        match found {
            Some(place) => deepest(records@, directory@) == Some(place as int) && place
                < records.len(),
            None => deepest(records@, directory@) is None,
        },
{
    let mut found: Option<usize> = None;
    let mut best: usize = 0;
    let mut i: usize = 0;
    assert(records@.take(0) =~= Seq::empty());
    while i < records.len()
        invariant
            i <= records.len(),
            match found {
                Some(place) => deepest(records@.take(i as int), directory@) == Some(place as int)
                    && place < i && depth_below(records@[place as int], directory@) == Some(
                    best as nat,
                ),
                None => deepest(records@.take(i as int), directory@) is None,
            },
        decreases records.len() - i,
    {
        let ghost seen = records@.take(i + 1);
        assert(seen.drop_last() =~= records@.take(i as int));
        assert(seen.last() == records@[i as int]);
        match relative_components(directory, records[i].mount_point.as_str()) {
            Some(names) => {
                let depth: usize = names.len();
                assert(depth_below(records@[i as int], directory@) == Some(depth as nat));
                match found {
                    Some(place) => {
                        assert(seen.drop_last()[place as int] == records@[place as int]);
                        assert(seen[place as int] == records@[place as int]);
                        if depth > best {
                            found = Some(i);
                            best = depth;
                        }
                    },
                    None => {
                        found = Some(i);
                        best = depth;
                    },
                }
            },
            None => {},
        }
        i += 1;
    }
    assert(records@.take(i as int) =~= records@);
    found
}

/// What was asked for, by its text.
pub open spec fn name_view(name: Option<&str>) -> Option<Seq<char>> {
    match name {
        Some(name) => Some(name@),
        None => None,
    }
}

/// Whether a mount is asked for by name. Where it is, the current directory does not matter.
pub fn names_mount(requested: Option<&str>) -> (yes: bool)
    ensures
        yes == asks_by_name(name_view(requested)),
{
    match requested {
        Some(name) => !blank(name),
        None => false,
    }
}

/// The place of the mount that a command is about. Without a directory only the name counts.
pub fn resolve_mount(
    records: &Vec<MountRecord>,
    requested: Option<&str>,
    directory: Option<&str>,
) -> (found: Result<usize, ResolveError>)
    ensures
        match found {
            Ok(place) => place < records.len() && resolution(
                records@,
                name_view(requested),
                name_view(directory),
            ) == Ok::<int, ResolveErrorView>(place as int),
            Err(error) => resolution(records@, name_view(requested), name_view(directory)) == Err::<
                int,
                ResolveErrorView,
            >(error@),
        },
{
    if records.len() == 0 {
        return Err(ResolveError::NoMounts);
    }
    match requested {
        Some(name) => {
            if !blank(name) {
                let places = find_named(records, name);
                return if places.len() == 0 {
                    Err(ResolveError::Unknown { name: name.to_string() })
                } else if places.len() == 1 {
                    Ok(places[0])
                } else {
                    Err(ResolveError::Ambiguous { name: name.to_string() })
                };
            }
        },
        None => {},
    }
    match directory {
        Some(directory) => match find_deepest(records, directory) {
            Some(place) => {
                return Ok(place);
            },
            None => {},
        },
        None => {},
    }
    if records.len() == 1 {
        Ok(0)
    } else {
        Err(ResolveError::OutsideMounts)
    }
}

/// Of the mounts that a directory lies below, the one is taken that it lies deepest below,
/// and none is taken only where it lies below none.
pub proof fn law_deepest_is_taken(records: Seq<MountRecord>, directory: Seq<char>)
    ensures
        match deepest(records, directory) {
            Some(place) => {
                &&& 0 <= place < records.len()
                &&& depth_below(records[place], directory) is Some
                &&& forall|j: int|
                    0 <= j < records.len() && depth_below(
                        #[trigger] records[j],
                        directory,
                    ) is Some ==> depth_below(records[j], directory)->0 <= depth_below(
                        records[place],
                        directory,
                    )->0
            },
            None => forall|j: int|
                0 <= j < records.len() ==> depth_below(#[trigger] records[j], directory) is None,
        },
    decreases records.len(),
{
    if records.len() > 0 {
        let head = records.drop_last();
        law_deepest_is_taken(head, directory);
        assert forall|j: int| 0 <= j < records.len() - 1 implies #[trigger] records[j]
            == head[j] by {}
    }
}

/// The places found for a name are those of the mounts that go by it, each of them once. So
/// a mount is taken by name only where it is the only one that goes by that name.
pub proof fn law_named_mount_is_the_only_one(records: Seq<MountRecord>, name: Seq<char>)
    ensures
        forall|i: int|
            0 <= i < records.len() && goes_by(#[trigger] records[i], name) ==> places_of(
                records,
                name,
            ).contains(i),
        forall|k: int|
            0 <= k < places_of(records, name).len() ==> 0 <= #[trigger] places_of(records, name)[k]
                < records.len() && goes_by(records[places_of(records, name)[k]], name),
        places_of(records, name).no_duplicates(),
    decreases records.len(),
{
    if records.len() > 0 {
        let head = records.drop_last();
        let before = places_of(head, name);
        let places = places_of(records, name);
        law_named_mount_is_the_only_one(head, name);
        let last = records.len() - 1;
        assert forall|i: int| 0 <= i < records.len() && goes_by(#[trigger] records[i], name) implies
            places.contains(i) by {
            if i < last {
                assert(head[i] == records[i]);
                let k = before.index_of(i);
                assert(places[k] == i);
            } else {
                assert(places[before.len() as int] == last);
            }
        }
        assert forall|k: int| 0 <= k < places.len() implies 0 <= #[trigger] places[k]
            < records.len() && goes_by(records[places[k]], name) by {
            if k < before.len() {
                assert(places[k] == before[k]);
                assert(head[before[k]] == records[before[k]]);
            }
        }
        assert forall|a: int, b: int|
            0 <= a < places.len() && 0 <= b < places.len() && a != b implies places[a]
            != places[b] by {
            if a < before.len() && b < before.len() {
                assert(before[a] != before[b]);
            } else if a < before.len() {
                assert(before[a] < last);
            } else if b < before.len() {
                assert(before[b] < last);
            }
        }
    }
}

/// Whether the name, the slug or the service of a mount is a name, but for ASCII case.
pub open spec fn bears(record: MountRecord, name: Seq<char>) -> bool {
    exists|own: Seq<char>|
        (own == record.name@ || own == record.slug@ || own == record.service_name@)
            && #[trigger] ascii_lower(own) == ascii_lower(name)
}

proof fn lemma_bears(record: MountRecord, name: Seq<char>)
    ensures
        bears(record, name) == goes_by(record, name),
{
    if goes_by(record, name) {
        assert(ascii_lower(record.name@) == ascii_lower(name) || ascii_lower(record.slug@)
            == ascii_lower(name) || ascii_lower(record.service_name@) == ascii_lower(name));
    }
}

/// A mount that is asked for by name is the one that bears that name, or none: it is the only
/// one that does, however many there are and wherever the command is run. Where none bears the
/// name, none is taken, and where several do, none either.
pub proof fn law_name_decides(
    records: Seq<MountRecord>,
    name: Seq<char>,
    directory: Option<Seq<char>>,
)
    requires
        !is_blank(name),
    ensures
        match resolution(records, Some(name), directory) {
            Ok(place) => {
                &&& 0 <= place < records.len()
                &&& bears(records[place], name)
                &&& forall|j: int|
                    0 <= j < records.len() && bears(#[trigger] records[j], name) ==> j == place
            },
            Err(ResolveErrorView::NoMounts) => records.len() == 0,
            Err(ResolveErrorView::Unknown(told)) => {
                &&& told == name
                &&& records.len() > 0
                &&& forall|j: int| 0 <= j < records.len() ==> !bears(#[trigger] records[j], name)
            },
            Err(ResolveErrorView::Ambiguous(told)) => {
                &&& told == name
                &&& exists|i: int, j: int|
                    0 <= i < j < records.len() && bears(#[trigger] records[i], name) && bears(
                        #[trigger] records[j],
                        name,
                    )
            },
            Err(ResolveErrorView::OutsideMounts) => false,
        },
{
    let places = places_of(records, name);
    law_named_mount_is_the_only_one(records, name);
    assert forall|j: int| 0 <= j < records.len() implies bears(#[trigger] records[j], name)
        == goes_by(records[j], name) by {
        lemma_bears(records[j], name);
    }
    if places.len() == 1 {
        assert(goes_by(records[places[0]], name));
        assert forall|j: int| 0 <= j < records.len() && bears(#[trigger] records[j], name) implies j
            == places[0] by {
            assert(places.contains(j));
        }
    } else if places.len() > 1 {
        let a = places[0];
        let b = places[1];
        assert(a != b);
        assert(goes_by(records[a], name) && goes_by(records[b], name));
        assert(bears(records[a], name) && bears(records[b], name));
    }
}

proof fn lemma_deepest_is_first(records: Seq<MountRecord>, directory: Seq<char>)
    ensures
        deepest(records, directory) matches Some(place) ==> 0 <= place < records.len() && forall|
            j: int,
        |
            0 <= j < place && depth_below(#[trigger] records[j], directory) is Some ==> depth_below(
                records[j],
                directory,
            )->0 < depth_below(records[place], directory)->0,
    decreases records.len(),
{
    if records.len() > 0 {
        let head = records.drop_last();
        lemma_deepest_is_first(head, directory);
        law_deepest_is_taken(head, directory);
        assert forall|j: int| 0 <= j < records.len() - 1 implies #[trigger] records[j]
            == head[j] by {}
    }
}

/// Where no mount is asked for by name, the current directory decides: the mount is taken that
/// it lies below by the most names, the first of those that it lies equally far below. A
/// directory that lies below none leaves the only mount, if there is only one.
pub proof fn law_directory_decides(
    records: Seq<MountRecord>,
    requested: Option<Seq<char>>,
    directory: Seq<char>,
)
    requires
        requested is None || is_blank(requested->0),
    ensures
        match resolution(records, requested, Some(directory)) {
            Ok(place) => {
                let own = relative_names(directory, records[place].mount_point@);
                &&& 0 <= place < records.len()
                &&& own is Some ==> forall|j: int|
                    0 <= j < records.len() && #[trigger] relative_names(
                        directory,
                        records[j].mount_point@,
                    ) is Some ==> {
                        let other = relative_names(directory, records[j].mount_point@)->0;
                        other.len() < own->0.len() || (other.len() == own->0.len() && place <= j)
                    }
                &&& own is None ==> records.len() == 1
            },
            Err(ResolveErrorView::NoMounts) => records.len() == 0,
            Err(ResolveErrorView::OutsideMounts) => {
                &&& records.len() > 1
                &&& forall|j: int|
                    0 <= j < records.len() ==> #[trigger] relative_names(
                        directory,
                        records[j].mount_point@,
                    ) is None
            },
            Err(_) => false,
        },
        match resolution(records, requested, None) {
            Ok(place) => place == 0 && records.len() == 1,
            Err(ResolveErrorView::NoMounts) => records.len() == 0,
            Err(error) => error is OutsideMounts && records.len() > 1,
        },
{
    law_deepest_is_taken(records, directory);
    lemma_deepest_is_first(records, directory);
    match deepest(records, directory) {
        Some(place) => {
            let own = relative_names(directory, records[place].mount_point@)->0;
            assert forall|j: int|
                0 <= j < records.len() && #[trigger] relative_names(
                    directory,
                    records[j].mount_point@,
                ) is Some implies {
                let other = relative_names(directory, records[j].mount_point@)->0;
                other.len() < own.len() || (other.len() == own.len() && place <= j)
            } by {
                assert(depth_below(records[j], directory) is Some);
            }
        },
        None => {
            assert forall|j: int| 0 <= j < records.len() implies #[trigger] relative_names(
                directory,
                records[j].mount_point@,
            ) is None by {
                assert(depth_below(records[j], directory) is None);
            }
        },
    }
}

/// The directory in which a mount keeps its data: next to its rclone configuration, or else
/// under its slug in the directory of all mounts.
pub open spec fn data_directory(record: MountRecord, mounts_dir: Seq<char>) -> Seq<char> {
    if !is_blank(record.rclone_config@) && parent(record.rclone_config@) is Some {
        parent(record.rclone_config@)->0
    } else {
        join_path(mounts_dir, record.slug@)
    }
}

/// The directory in which a mount keeps its data.
pub fn mount_data_dir(record: &MountRecord, mounts_dir: &str) -> (path: String)
    ensures
        path@ == data_directory(*record, mounts_dir@),
{
    if !blank(record.rclone_config.as_str()) {
        match path_parent(record.rclone_config.as_str()) {
            Some(path) => {
                return path;
            },
            None => {},
        }
    }
    path_join(mounts_dir, record.slug.as_str())
}

/// How the profile of a mount is called.
pub open spec fn profile_name(record: MountRecord) -> Seq<char> {
    if is_blank(record.profile@) {
        "Legacy"@
    } else {
        record.profile@
    }
}

/// How the profile of a mount is called.
pub fn profile_label(record: &MountRecord) -> (label: &str)
    ensures
        label@ == profile_name(*record),
{
    if blank(record.profile.as_str()) {
        "Legacy"
    } else {
        record.profile.as_str()
    }
}

/// The line of a mount in a listing.
pub fn listing_line(record: &MountRecord) -> (line: String)
    ensures
        line@ == record.name@ + "\t"@ + record.mount_point@ + "\t"@ + profile_name(*record) + "\t"@
            + record.user@ + "@"@ + record.host@ + ":"@ + decimal(record.port as nat),
{
    let mut line = record.name.clone();
    line.append("\t");
    line.append(record.mount_point.as_str());
    line.append("\t");
    line.append(profile_label(record));
    line.append("\t");
    line.append(record.user.as_str());
    line.append("@");
    line.append(record.host.as_str());
    line.append(":");
    push_decimal(&mut line, record.port as u64);
    line
}

/// A mount keeps its data next to its rclone configuration, where that lies in a directory, and
/// otherwise under its slug: so mounts of other slugs keep theirs apart.
pub proof fn law_mounts_keep_their_data_apart(
    record: MountRecord,
    other: MountRecord,
    mounts_dir: Seq<char>,
    directory: Seq<char>,
    name: Seq<char>,
)
    requires
        takes_names(mounts_dir),
        is_plain_name(directory),
        is_plain_name(name),
    ensures
        record.rclone_config@ == join_path(join_path(mounts_dir, directory), name)
            ==> data_directory(record, mounts_dir) == join_path(mounts_dir, directory),
        is_blank(record.rclone_config@) ==> data_directory(record, mounts_dir) == join_path(
            mounts_dir,
            record.slug@,
        ),
        is_blank(record.rclone_config@) && is_blank(other.rclone_config@) && is_plain_name(
            record.slug@,
        ) && is_plain_name(other.slug@) && record.slug@ != other.slug@ ==> data_directory(
            record,
            mounts_dir,
        ) != data_directory(other, mounts_dir),
{
    law_parent_undoes_join(mounts_dir, directory, name);
    let path = join_path(join_path(mounts_dir, directory), name);
    law_joined_name_is_last_component(mounts_dir, directory);
    lemma_join_plain_name(join_path(mounts_dir, directory), name);
    assert(!is_blank(path)) by {
        if is_blank(path) {
            let outer = join_path(mounts_dir, directory);
            lemma_absolute_is_not_blank(outer);
            let front = join_front(outer);
            assert(path =~= front + name);
            let i = choose|i: int| 0 <= i < outer.len() && !is_white_space(#[trigger] outer[i]);
            assert(path[i] == outer[i]);
            assert(of_kind(path[i], CharKind::White));
        }
    }
    if is_plain_name(record.slug@) && is_plain_name(other.slug@) && record.slug@ != other.slug@
        && join_path(mounts_dir, record.slug@) == join_path(mounts_dir, other.slug@) {
        law_joined_names_stay_apart(mounts_dir, record.slug@, other.slug@);
    }
}

proof fn lemma_absolute_is_not_blank(path: Seq<char>)
    requires
        takes_names(path),
    ensures
        exists|i: int| 0 <= i < path.len() && !is_white_space(#[trigger] path[i]),
{
    let two = seq!['\\', '\\'];
    if opens_with(path, two) {
        assert(path[0] == two[0] || (two[0] == '\\' && path[0] == '/'));
        assert(!is_white_space(path[0]));
    } else {
        assert(drive_at(path, 0));
        assert(!is_white_space(path[1]));
    }
}

/// A mount is called by its profile, and one without a profile by a word of its own.
pub proof fn law_profile_is_shown(record: MountRecord)
    ensures
        !is_blank(record.profile@) ==> profile_name(record) == record.profile@,
        is_blank(record.profile@) ==> profile_name(record) == "Legacy"@,
{
}

/// The mounts of a list that are ordered by a key.
pub open spec fn with_key(records: Seq<MountRecord>, key: Seq<char>) -> Seq<MountRecord>
    decreases records.len(),
{
    if records.len() == 0 {
        Seq::empty()
    } else if order_key(records.last()) == key {
        with_key(records.drop_last(), key).push(records.last())
    } else {
        with_key(records.drop_last(), key)
    }
}

proof fn lemma_with_key_joined(a: Seq<MountRecord>, b: Seq<MountRecord>, key: Seq<char>)
    ensures
        with_key(a + b, key) == with_key(a, key) + with_key(b, key),
    decreases b.len(),
{
    if b.len() == 0 {
        assert(a + b =~= a);
        assert(with_key(a, key) + with_key(b, key) =~= with_key(a, key));
    } else {
        assert((a + b).drop_last() =~= a + b.drop_last());
        assert((a + b).last() == b.last());
        lemma_with_key_joined(a, b.drop_last(), key);
        assert(with_key(a + b, key) =~= with_key(a, key) + with_key(b, key));
    }
}

proof fn lemma_with_key_absent(records: Seq<MountRecord>, key: Seq<char>)
    requires
        forall|i: int| 0 <= i < records.len() ==> order_key(#[trigger] records[i]) != key,
    ensures
        with_key(records, key) == Seq::<MountRecord>::empty(),
    decreases records.len(),
{
    if records.len() > 0 {
        assert(records.last() == records[records.len() - 1]);
        let head = records.drop_last();
        assert forall|i: int| 0 <= i < head.len() implies order_key(#[trigger] head[i]) != key by {
            assert(head[i] == records[i]);
        }
        lemma_with_key_absent(head, key);
    }
}

/// Mounts of one name stay in the order in which they came.
pub proof fn law_order_is_stable(records: Seq<MountRecord>, key: Seq<char>)
    ensures
        with_key(in_name_order(records), key) == with_key(records, key),
    decreases records.len(),
{
    if records.len() > 0 {
        let head = records.drop_last();
        let last = records.last();
        let sorted = in_name_order(head);
        let own = order_key(last);
        let at = slot(sorted, own);
        law_order_is_stable(head, key);
        lemma_slot(sorted, own);
        let front = sorted.subrange(0, at);
        let back = sorted.subrange(at, sorted.len() as int);
        assert(sorted =~= front + back);
        assert(in_name_order(records) =~= front.push(last) + back);
        lemma_with_key_joined(front, back, key);
        lemma_with_key_joined(front.push(last), back, key);
        assert(front.push(last).drop_last() =~= front);
        if own == key {
            assert forall|i: int| 0 <= i < back.len() implies order_key(#[trigger] back[i])
                != key by {
                assert(back[i] == sorted[at + i]);
                lemma_order_is_total(own, own, own);
            }
            lemma_with_key_absent(back, key);
            assert(with_key(front.push(last), key) + with_key(back, key) =~= (with_key(front, key)
                + with_key(back, key)).push(last));
        }
    }
}

} // verus!
