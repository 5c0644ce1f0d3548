//! Socket addresses as they are written: an IPv4 address or an IPv6 address in brackets,
//! a colon and a port.

use crate::text::{
    all_digits, chars_of, decimal, digit_char, digit_value, digits_value, find, join,
    law_decimal_reads_back, lemma_find_from, number, occurs_at, position_of, read_number, string_of,
};
use vstd::prelude::*;

verus! {

/// A host by its number.
#[verifier::ext_equal]
pub enum HostView {
    /// Four octets.
    V4(Seq<nat>),
    /// Eight groups of sixteen bits.
    V6(Seq<nat>),
}

/// A host and a port on it.
#[verifier::ext_equal]
pub struct SocketView {
    pub host: HostView,
    pub port: nat,
}

/// The pieces of a text between separators.
pub open spec fn split(text: Seq<char>, separator: char) -> Seq<Seq<char>>
    decreases text.len(),
{
    if text.len() == 0 {
        seq![Seq::empty()]
    } else {
        let before = split(text.drop_last(), separator);
        if text.last() == separator {
            before.push(Seq::empty())
        } else {
            before.drop_last().push(before.last().push(text.last()))
        }
    }
}

/// An octet in decimal: at most three digits, and no zero in front of others.
pub open spec fn octet(text: Seq<char>) -> Option<nat> {
    if text.len() <= 3 && !(text.len() > 1 && text[0] == '0') {
        number(text, 10, 255)
    } else {
        None
    }
}

/// The four octets of an IPv4 address.
pub open spec fn ipv4(text: Seq<char>) -> Option<Seq<nat>> {
    let pieces = split(text, '.');
    if pieces.len() == 4 && octet(pieces[0]) is Some && octet(pieces[1]) is Some && octet(pieces[2])
        is Some && octet(pieces[3]) is Some {
        Some(
            seq![
                octet(pieces[0]).unwrap(),
                octet(pieces[1]).unwrap(),
                octet(pieces[2]).unwrap(),
                octet(pieces[3]).unwrap(),
            ],
        )
    } else {
        None
    }
}

/// One group of an IPv6 address: at most four hexadecimal digits.
pub open spec fn hex_group(text: Seq<char>) -> Option<nat> {
    if text.len() <= 4 {
        number(text, 16, 0xffff)
    } else {
        None
    }
}

/// The groups that pieces write, if each writes one.
pub open spec fn hex_groups(pieces: Seq<Seq<char>>) -> Option<Seq<nat>>
    decreases pieces.len(),
{
    if pieces.len() == 0 {
        Some(Seq::empty())
    } else {
        match (hex_groups(pieces.drop_last()), hex_group(pieces.last())) {
            (Some(groups), Some(group)) => Some(groups.push(group)),
            _ => None,
        }
    }
}

/// The groups that a text writes, with colons between them. No text writes no group.
pub open spec fn plain_groups(text: Seq<char>) -> Option<Seq<nat>> {
    if text.len() == 0 {
        Some(Seq::empty())
    } else {
        hex_groups(split(text, ':'))
    }
}

/// The groups that a text writes, where the last two may be written as an IPv4 address.
pub open spec fn mixed_groups(text: Seq<char>) -> Option<Seq<nat>> {
    let pieces = split(text, ':');
    match ipv4(pieces.last()) {
        Some(octets) => match hex_groups(pieces.drop_last()) {
            Some(groups) => Some(
                groups.push(octets[0] * 256 + octets[1]).push(octets[2] * 256 + octets[3]),
            ),
            None => None,
        },
        None => plain_groups(text),
    }
}

/// The eight groups of an IPv6 address. `::` stands for one or more groups of zero.
pub open spec fn ipv6(text: Seq<char>) -> Option<Seq<nat>> {
    match find(text, seq![':', ':']) {
        Some(at) => match (
            plain_groups(text.subrange(0, at)),
            mixed_groups(text.subrange(at + 2, text.len() as int)),
        ) {
            (Some(head), Some(tail)) => if head.len() + tail.len() <= 7 {
                Some(head + Seq::new((8 - head.len() - tail.len()) as nat, |i: int| 0nat) + tail)
            } else {
                None
            },
            _ => None,
        },
        None => match mixed_groups(text) {
            Some(groups) => if groups.len() == 8 {
                Some(groups)
            } else {
                None
            },
            None => None,
        },
    }
}

/// What stands between the brackets: an IPv6 address and, after `%`, the number of a
/// scope.
pub open spec fn scoped_ipv6(text: Seq<char>) -> Option<Seq<nat>> {
    match find(text, seq!['%']) {
        Some(at) => if number(text.subrange(at + 1, text.len() as int), 10, 0xffff_ffff) is Some {
            ipv6(text.subrange(0, at))
        } else {
            None
        },
        None => ipv6(text),
    }
}

/// The port that a text writes.
pub open spec fn port(text: Seq<char>) -> Option<nat> {
    number(text, 10, 0xffff)
}

/// The socket address that a text writes.
pub open spec fn socket_address(text: Seq<char>) -> Option<SocketView> {
    if text.len() > 0 && text[0] == '[' {
        match find(text, seq![']', ':']) {
            Some(at) => match (
                scoped_ipv6(text.subrange(1, at)),
                port(text.subrange(at + 2, text.len() as int)),
            ) {
                (Some(groups), Some(port)) => Some(
                    SocketView { host: HostView::V6(groups), port },
                ),
                _ => None,
            },
            None => None,
        }
    } else {
        match find(text, seq![':']) {
            Some(at) => match (
                ipv4(text.subrange(0, at)),
                port(text.subrange(at + 1, text.len() as int)),
            ) {
                (Some(octets), Some(port)) => Some(
                    SocketView { host: HostView::V4(octets), port },
                ),
                _ => None,
            },
            None => None,
        }
    }
}

/// Whether a host is this machine itself: `127.x.x.x` or `::1`.
pub open spec fn is_loopback(host: HostView) -> bool {
    match host {
        HostView::V4(octets) => octets.len() == 4 && octets[0] == 127,
        HostView::V6(groups) => groups == seq![0nat, 0, 0, 0, 0, 0, 0, 1],
    }
}

/// A host by its number.
#[derive(Clone, PartialEq, Eq, Debug)]
pub enum Host {
    V4(Vec<u32>),
    V6(Vec<u32>),
}

/// A host and a port on it.
#[derive(Clone, PartialEq, Eq, Debug)]
pub struct SocketAddress {
    pub host: Host,
    pub port: u32,
}

/// Machine integers as numbers.
pub open spec fn numbers(list: Seq<u32>) -> Seq<nat> {
    Seq::new(list.len(), |i: int| list[i] as nat)
}

impl View for Host {
    type V = HostView;

    open spec fn view(&self) -> HostView {
        match self {
            Host::V4(octets) => HostView::V4(numbers(octets@)),
            Host::V6(groups) => HostView::V6(numbers(groups@)),
        }
    }
}

impl View for SocketAddress {
    type V = SocketView;

    open spec fn view(&self) -> SocketView {
        SocketView { host: self.host@, port: self.port as nat }
    }
}

spec fn piece_views(pieces: Seq<Vec<char>>) -> Seq<Seq<char>> {
    Seq::new(pieces.len(), |i: int| pieces[i]@)
}

/// The pieces of a stretch between separators.
fn split_stretch(text: &Vec<char>, from: usize, to: usize, separator: char) -> (pieces: Vec<
    Vec<char>,
>)
    requires
        from <= to <= text.len(),
    ensures
        piece_views(pieces@) == split(text@.subrange(from as int, to as int), separator),
        pieces.len() > 0,
{
    let ghost whole = text@.subrange(from as int, to as int);
    let mut pieces: Vec<Vec<char>> = Vec::new();
    let mut piece: Vec<char> = Vec::new();
    let mut i: usize = from;
    assert(piece_views(pieces@).push(piece@) =~= split(whole.take(0), separator));
    while i < to
        invariant
            from <= i <= to <= text.len(),
            whole == text@.subrange(from as int, to as int),
            piece_views(pieces@).push(piece@) == split(whole.take(i - from), separator),
        decreases to - i,
    {
        let ghost before = piece_views(pieces@);
        let ghost old_piece = piece@;
        assert(whole.take(i + 1 - from).drop_last() =~= whole.take(i - from));
        assert(whole.take(i + 1 - from).last() == text@[i as int]);
        assert(before.push(old_piece).drop_last() =~= before);
        if text[i] == separator {
            pieces.push(piece);
            piece = Vec::new();
            assert(piece_views(pieces@) =~= before.push(old_piece));
            assert(piece@ =~= Seq::empty());
        } else {
            piece.push(text[i]);
        }
        i += 1;
    }
    assert(whole.take(i - from) =~= whole);
    let ghost before = piece_views(pieces@);
    let ghost last = piece@;
    pieces.push(piece);
    assert(piece_views(pieces@) =~= before.push(last));
    pieces
}

/// An octet in decimal.
fn read_octet(text: &Vec<char>) -> (found: Option<u32>)
    ensures
        match found {
            Some(n) => octet(text@) == Some(n as nat) && n <= 255,
            None => octet(text@) is None,
        },
{
    assert(text@.subrange(0, text.len() as int) =~= text@);
    if text.len() <= 3 && !(text.len() > 1 && text[0] == '0') {
        read_number(text, 0, text.len(), 10, 255)
    } else {
        None
    }
}

/// The four octets of an IPv4 address.
fn read_ipv4(text: &Vec<char>, from: usize, to: usize) -> (found: Option<Vec<u32>>)
    requires
        from <= to <= text.len(),
    ensures
        match found {
            Some(octets) => {
                &&& ipv4(text@.subrange(from as int, to as int)) == Some(numbers(octets@))
                &&& octets.len() == 4
                &&& forall|i: int| 0 <= i < 4 ==> #[trigger] octets[i] <= 255
            },
            None => ipv4(text@.subrange(from as int, to as int)) is None,
        },
{
    let pieces = split_stretch(text, from, to, '.');
    let ghost views = split(text@.subrange(from as int, to as int), '.');
    assert(views.len() == pieces.len());
    if pieces.len() != 4 {
        return None;
    }
    let mut octets: Vec<u32> = Vec::new();
    let mut i: usize = 0;
    while i < 4
        invariant
            i <= 4,
            pieces.len() == 4,
            views == split(text@.subrange(from as int, to as int), '.'),
            piece_views(pieces@) == views,
            octets.len() == i,
            forall|j: int|
                0 <= j < i ==> octet(views[j]) == Some(#[trigger] octets[j] as nat) && octets[j]
                    <= 255,
        decreases 4 - i,
    {
        assert(views[i as int] == pieces@[i as int]@);
        match read_octet(&pieces[i]) {
            Some(n) => octets.push(n),
            None => {
                return None;
            },
        }
        i += 1;
    }
    assert(views.len() == 4);
    assert(octet(views[0]) == Some(octets[0] as nat));
    assert(octet(views[1]) == Some(octets[1] as nat));
    assert(octet(views[2]) == Some(octets[2] as nat));
    assert(octet(views[3]) == Some(octets[3] as nat));
    assert(numbers(octets@) =~= ipv4(text@.subrange(from as int, to as int)).unwrap());
    Some(octets)
}

/// The groups that the first pieces of a list write.
fn read_hex_groups(pieces: &Vec<Vec<char>>, count: usize) -> (found: Option<Vec<u32>>)
    requires
        count <= pieces.len(),
    ensures
        match found {
            Some(groups) => hex_groups(piece_views(pieces@).take(count as int)) == Some(
                numbers(groups@),
            ),
            None => hex_groups(piece_views(pieces@).take(count as int)) is None,
        },
{
    let ghost all = piece_views(pieces@);
    let mut groups: Vec<u32> = Vec::new();
    let mut i: usize = 0;
    assert(numbers(groups@) =~= Seq::empty());
    while i < count
        invariant
            i <= count <= pieces.len(),
            all == piece_views(pieces@),
            hex_groups(all.take(i as int)) == Some(numbers(groups@)),
        decreases count - i,
    {
        let ghost before = numbers(groups@);
        let piece = &pieces[i];
        assert(piece@.subrange(0, piece.len() as int) =~= piece@);
        assert(all.take(i + 1).drop_last() =~= all.take(i as int));
        assert(all.take(i + 1).last() == piece@);
        let group: Option<u32> = if piece.len() <= 4 {
            read_number(piece, 0, piece.len(), 16, 0xffff)
        } else {
            None
        };
        match group {
            Some(n) => {
                groups.push(n);
                assert(numbers(groups@) =~= before.push(n as nat));
            },
            None => {
                proof {
                    lemma_no_groups(all, i + 1, count as int);
                }
                return None;
            },
        }
        i += 1;
    }
    Some(groups)
}

proof fn lemma_no_groups(pieces: Seq<Seq<char>>, some: int, all: int)
    requires
        0 <= some <= all <= pieces.len(),
        hex_groups(pieces.take(some)) is None,
    ensures
        hex_groups(pieces.take(all)) is None,
    decreases all - some,
{
    if some < all {
        assert(pieces.take(all).drop_last() =~= pieces.take(all - 1));
        lemma_no_groups(pieces, some, all - 1);
    }
}

/// The groups that a stretch writes, with colons between them.
fn read_groups(text: &Vec<char>, from: usize, to: usize, mixed: bool) -> (found: Option<Vec<u32>>)
    requires
        from <= to <= text.len(),
    ensures
        match found {
            Some(groups) => Some(numbers(groups@)) == if mixed {
                mixed_groups(text@.subrange(from as int, to as int))
            } else {
                plain_groups(text@.subrange(from as int, to as int))
            },
            None => if mixed {
                mixed_groups(text@.subrange(from as int, to as int)) is None
            } else {
                plain_groups(text@.subrange(from as int, to as int)) is None
            },
        },
{
    let ghost whole = text@.subrange(from as int, to as int);
    let pieces = split_stretch(text, from, to, ':');
    let ghost views = split(whole, ':');
    let count = pieces.len();
    assert(views.last() == pieces@.last()@);
    assert(views.drop_last() =~= views.take(count - 1));
    if mixed {
        let last = &pieces[count - 1];
        assert(last@.subrange(0, last.len() as int) =~= last@);
        match read_ipv4(last, 0, last.len()) {
            Some(octets) => {
                return match read_hex_groups(&pieces, count - 1) {
                    Some(head) => {
                        let mut groups = head;
                        let ghost before = numbers(groups@);
                        assert(octets[0] <= 255 && octets[1] <= 255 && octets[2] <= 255
                            && octets[3] <= 255);
                        groups.push(octets[0] * 256 + octets[1]);
                        groups.push(octets[2] * 256 + octets[3]);
                        assert(numbers(groups@) =~= before.push(
                            numbers(octets@)[0] * 256 + numbers(octets@)[1],
                        ).push(numbers(octets@)[2] * 256 + numbers(octets@)[3]));
                        Some(groups)
                    },
                    None => None,
                };
            },
            None => {},
        }
    }
    if from == to {
        let none: Vec<u32> = Vec::new();
        assert(numbers(none@) =~= Seq::empty());
        Some(none)
    } else {
        assert(views.take(count as int) =~= views);
        read_hex_groups(&pieces, count)
    }
}

/// The string that a stretch is, as characters of its own.
fn stretch(text: &Vec<char>, from: usize, to: usize) -> (part: Vec<char>)
    requires
        from <= to <= text.len(),
    ensures
        part@ == text@.subrange(from as int, to as int),
{
    chars_of(string_of(text, from, to).as_str())
}

/// The eight groups of an IPv6 address.
fn read_ipv6(text: &Vec<char>) -> (found: Option<Vec<u32>>)
    ensures
        match found {
            Some(groups) => ipv6(text@) == Some(numbers(groups@)) && groups.len() == 8,
            None => ipv6(text@) is None,
        },
{
    let gap = vec![':', ':'];
    assert(gap@ =~= seq![':', ':']);
    match position_of(text, &gap) {
        Some(at) => {
            match (read_groups(text, 0, at, false), read_groups(text, at + 2, text.len(), true)) {
                (Some(head), Some(tail)) => {
                    if head.len() > 7 || tail.len() > 7 - head.len() {
                        return None;
                    }
                    let ghost front = numbers(head@);
                    let ghost back = numbers(tail@);
                    let zeros: usize = 8 - head.len() - tail.len();
                    let mut groups = head;
                    let mut i: usize = 0;
                    while i < zeros
                        invariant
                            i <= zeros,
                            numbers(groups@) == front + Seq::new(i as nat, |k: int| 0nat),
                        decreases zeros - i,
                    {
                        let ghost before = numbers(groups@);
                        groups.push(0);
                        i += 1;
                        assert(numbers(groups@) =~= before.push(0));
                        assert(numbers(groups@) =~= front + Seq::new(i as nat, |k: int| 0nat));
                    }
                    let ghost filled = numbers(groups@);
                    let mut j: usize = 0;
                    while j < tail.len()
                        invariant
                            j <= tail.len(),
                            back == numbers(tail@),
                            numbers(groups@) == filled + back.take(j as int),
                        decreases tail.len() - j,
                    {
                        let ghost before = numbers(groups@);
                        groups.push(tail[j]);
                        j += 1;
                        assert(numbers(groups@) =~= before.push(back[j - 1]));
                        assert(numbers(groups@) =~= filled + back.take(j as int));
                    }
                    assert(back.take(j as int) =~= back);
                    assert(numbers(groups@) =~= ipv6(text@).unwrap());
                    assert(groups.len() == numbers(groups@).len());
                    Some(groups)
                },
                _ => None,
            }
        },
        None => {
            assert(text@.subrange(0, text.len() as int) =~= text@);
            match read_groups(text, 0, text.len(), true) {
                Some(groups) => {
                    assert(numbers(groups@).len() == groups.len());
                    if groups.len() == 8 {
                        Some(groups)
                    } else {
                        None
                    }
                },
                None => None,
            }
        },
    }
}

/// The socket address that a string writes.
pub fn parse_socket_address(address: &str) -> (found: Option<SocketAddress>)
    ensures
        match found {
            Some(socket) => socket_address(address@) == Some(socket@),
            None => socket_address(address@) is None,
        },
{
    let text = chars_of(address);
    let len = text.len();
    if len > 0 && text[0] == '[' {
        let closing = vec![']', ':'];
        assert(closing@ =~= seq![']', ':']);
        let at = match position_of(&text, &closing) {
            Some(at) => at,
            None => {
                return None;
            },
        };
        proof {
            lemma_find_from(text@, closing@, 0);
            assert(text@.subrange(at as int, at + 2)[0] == text@[at as int]);
        }
        let inner = stretch(&text, 1, at);
        let percent = vec!['%'];
        assert(percent@ =~= seq!['%']);
        let groups = match position_of(&inner, &percent) {
            Some(mark) => {
                if read_number(&inner, mark + 1, inner.len(), 10, 0xffff_ffff).is_none() {
                    return None;
                }
                read_ipv6(&stretch(&inner, 0, mark))
            },
            None => read_ipv6(&inner),
        };
        match (groups, read_number(&text, at + 2, len, 10, 0xffff)) {
            (Some(groups), Some(port)) => Some(SocketAddress { host: Host::V6(groups), port }),
            _ => None,
        }
    } else {
        let colon = vec![':'];
        assert(colon@ =~= seq![':']);
        let at = match position_of(&text, &colon) {
            Some(at) => at,
            None => {
                return None;
            },
        };
        match (read_ipv4(&text, 0, at), read_number(&text, at + 1, len, 10, 0xffff)) {
            (Some(octets), Some(port)) => Some(SocketAddress { host: Host::V4(octets), port }),
            _ => None,
        }
    }
}

impl SocketAddress {
    /// Whether the host is this machine itself.
    pub fn is_loopback(&self) -> (yes: bool)
        ensures
            yes == is_loopback(self@.host),
    {
        match &self.host {
            Host::V4(octets) => octets.len() == 4 && octets[0] == 127,
            Host::V6(groups) => {
                let ghost view = numbers(groups@);
                let ghost one = seq![0nat, 0, 0, 0, 0, 0, 0, 1];
                if groups.len() != 8 {
                    assert(view.len() != one.len());
                    return false;
                }
                let yes = groups[0] == 0 && groups[1] == 0 && groups[2] == 0 && groups[3] == 0
                    && groups[4] == 0 && groups[5] == 0 && groups[6] == 0 && groups[7] == 1;
                assert(yes ==> view =~= one);
                assert(view == one ==> view[0] == 0 && view[1] == 0 && view[2] == 0 && view[3] == 0
                    && view[4] == 0 && view[5] == 0 && view[6] == 0 && view[7] == 1);
                yes
            },
        }
    }
}

proof fn lemma_split_piece(piece: Seq<char>, separator: char)
    requires
        !piece.contains(separator),
    ensures
        split(piece, separator) == seq![piece],
    decreases piece.len(),
{
    if piece.len() == 0 {
        assert(piece =~= Seq::empty());
    } else {
        let head = piece.drop_last();
        assert(piece.last() == piece[piece.len() - 1]);
        assert(!head.contains(separator)) by {
            if head.contains(separator) {
                let i = head.index_of(separator);
                assert(piece[i] == separator);
            }
        }
        lemma_split_piece(head, separator);
        assert(head.push(piece.last()) =~= piece);
        assert(split(piece, separator) =~= seq![piece]);
    }
}

proof fn lemma_split_more(text: Seq<char>, piece: Seq<char>, separator: char)
    requires
        !piece.contains(separator),
    ensures
        split(text + seq![separator] + piece, separator) == split(text, separator).push(piece),
    decreases piece.len(),
{
    let all = text + seq![separator] + piece;
    if piece.len() == 0 {
        assert(all.drop_last() =~= text);
        assert(all.last() == separator);
        assert(piece =~= Seq::empty());
    } else {
        let head = piece.drop_last();
        assert(piece.last() == piece[piece.len() - 1]);
        assert(!head.contains(separator)) by {
            if head.contains(separator) {
                let i = head.index_of(separator);
                assert(piece[i] == separator);
            }
        }
        lemma_split_more(text, head, separator);
        assert(all.drop_last() =~= text + seq![separator] + head);
        assert(all.last() == piece.last());
        assert(all.last() != separator);
        let before = split(text, separator).push(head);
        assert(before.drop_last() =~= split(text, separator));
        assert(head.push(piece.last()) =~= piece);
    }
}

proof fn lemma_digits_lack(n: nat, c: char)
    requires
        digit_value(c, 10) is None,
    ensures
        !decimal(n).contains(c),
{
    law_decimal_reads_back(n);
    if decimal(n).contains(c) {
        let i = decimal(n).index_of(c);
        assert(digit_value(decimal(n)[i], 10) is Some);
    }
}

proof fn lemma_octet(n: nat)
    requires
        n <= 255,
    ensures
        octet(decimal(n)) == Some(n),
{
    law_decimal_reads_back(n);
    reveal_with_fuel(decimal, 4);
    let text = decimal(n);
    if n >= 100 {
        assert(text.len() == 3);
        assert(text[0] == digit_char(n / 10 / 10));
    } else if n >= 10 {
        assert(text.len() == 2);
        assert(text[0] == digit_char(n / 10));
    }
}

/// The text of an address of four numbers and a port.
pub open spec fn dotted(a: nat, b: nat, c: nat, d: nat, port: nat) -> Seq<char> {
    decimal(a) + seq!['.'] + decimal(b) + seq!['.'] + decimal(c) + seq!['.'] + decimal(d) + seq![':']
        + decimal(port)
}

/// An address of four numbers and a port is read back, and is one of this machine exactly where
/// it begins with 127.
pub proof fn law_address_is_read(a: u8, b: u8, c: u8, d: u8, port_number: u16)
    ensures
        socket_address(
            dotted(a as nat, b as nat, c as nat, d as nat, port_number as nat),
        ) == Some(
            SocketView {
                host: HostView::V4(seq![a as nat, b as nat, c as nat, d as nat]),
                port: port_number as nat,
            },
        ),
        is_loopback(HostView::V4(seq![a as nat, b as nat, c as nat, d as nat])) <==> a == 127,
{
    let (wa, wb, wc, wd) = (
        decimal(a as nat),
        decimal(b as nat),
        decimal(c as nat),
        decimal(d as nat),
    );
    let wp = decimal(port_number as nat);
    let dot = seq!['.'];
    let host = wa + dot + wb + dot + wc + dot + wd;
    let text = dotted(a as nat, b as nat, c as nat, d as nat, port_number as nat);
    assert(text =~= host + seq![':'] + wp);
    lemma_digits_lack(a as nat, '.');
    lemma_digits_lack(b as nat, '.');
    lemma_digits_lack(c as nat, '.');
    lemma_digits_lack(d as nat, '.');
    lemma_digits_lack(a as nat, ':');
    lemma_digits_lack(b as nat, ':');
    lemma_digits_lack(c as nat, ':');
    lemma_digits_lack(d as nat, ':');
    lemma_octet(a as nat);
    lemma_octet(b as nat);
    lemma_octet(c as nat);
    lemma_octet(d as nat);
    lemma_split_piece(wa, '.');
    lemma_split_more(wa, wb, '.');
    lemma_split_more(wa + dot + wb, wc, '.');
    lemma_split_more(wa + dot + wb + dot + wc, wd, '.');
    let pieces = split(host, '.');
    assert(pieces =~= seq![wa, wb, wc, wd]);
    assert(ipv4(host) =~= Some(seq![a as nat, b as nat, c as nat, d as nat]));
    law_decimal_reads_back(a as nat);
    law_decimal_reads_back(port_number as nat);
    assert(text[0] == wa[0]);
    assert(digit_value(wa[0], 10) is Some);
    let at = host.len() as int;
    assert(text.subrange(at, at + 1) =~= seq![':']);
    assert(occurs_at(text, seq![':'], at));
    assert forall|p: int| 0 <= p < at implies !occurs_at(text, seq![':'], p) by {
        if occurs_at(text, seq![':'], p) {
            assert(text.subrange(p, p + 1)[0] == text[p]);
            assert(host[p] == ':');
            let (la, lb, lc) = (wa.len() as int, wb.len() as int, wc.len() as int);
            if p < la {
                assert(wa[p] == ':');
            } else if p == la || p == la + 1 + lb || p == la + 2 + lb + lc {
                assert(host[p] == '.');
            } else if p < la + 1 + lb {
                assert(wb[p - la - 1] == ':');
            } else if p < la + 2 + lb + lc {
                assert(wc[p - la - lb - 2] == ':');
            } else {
                assert(wd[p - la - lb - lc - 3] == ':');
            }
        }
    }
    lemma_find_from(text, seq![':'], 0);
    assert(text.subrange(0, at) =~= host);
    assert(text.subrange(at + 1, text.len() as int) =~= wp);
    assert(number(wp, 10, 0xffff) == Some(port_number as nat));
}

proof fn lemma_one_group()
    ensures
        mixed_groups(seq!['1']) == Some(seq![1nat]),
{
    let tail = seq!['1'];
    lemma_split_piece(tail, ':');
    lemma_split_piece(tail, '.');
    assert(split(tail, ':').last() == tail);
    assert(ipv4(tail) is None);
    assert(tail.drop_last() =~= Seq::empty());
    assert(digits_value(tail.drop_last(), 16) == 0);
    assert(digit_value(tail.last(), 16) == Some(1nat));
    assert(digits_value(tail, 16) == 1);
    assert(hex_group(tail) == Some(1nat));
    let pieces = seq![tail];
    assert(pieces.drop_last() =~= Seq::empty());
    assert(hex_groups(pieces.drop_last()) == Some(Seq::<nat>::empty()));
    assert(Seq::<nat>::empty().push(1) =~= seq![1nat]);
    assert(hex_groups(pieces) == Some(seq![1nat]));
}

proof fn lemma_own_ipv6()
    ensures
        scoped_ipv6(seq![':', ':', '1']) == Some(seq![0nat, 0, 0, 0, 0, 0, 0, 1]),
{
    let inside = seq![':', ':', '1'];
    let percent = seq!['%'];
    assert forall|p: int| !occurs_at(inside, percent, p) by {
        if occurs_at(inside, percent, p) {
            assert(inside.subrange(p, p + 1)[0] == inside[p]);
        }
    }
    lemma_find_from(inside, percent, 0);
    let colons = seq![':', ':'];
    assert(inside.subrange(0, 2) =~= colons);
    assert(occurs_at(inside, colons, 0));
    lemma_find_from(inside, colons, 0);
    assert(inside.subrange(0, 0).len() == 0);
    assert(inside.subrange(2, 3) =~= seq!['1']);
    lemma_one_group();
    let groups = Seq::<nat>::empty() + Seq::new(7, |i: int| 0nat) + seq![1nat];
    assert(groups =~= seq![0nat, 0, 0, 0, 0, 0, 0, 1]);
}

/// The short form of the address of this machine is read, with whatever port.
pub proof fn law_own_address_is_read(port_number: u16)
    ensures
        ({
            let text = seq!['[', ':', ':', '1', ']', ':'] + decimal(port_number as nat);
            socket_address(text) matches Some(socket) && socket.port == port_number && is_loopback(
                socket.host,
            )
        }),
{
    let wp = decimal(port_number as nat);
    let text = seq!['[', ':', ':', '1', ']', ':'] + wp;
    law_decimal_reads_back(port_number as nat);
    let close = seq![']', ':'];
    assert(text.subrange(4, 6) =~= close);
    assert(occurs_at(text, close, 4));
    assert forall|p: int| 0 <= p < 4 implies !occurs_at(text, close, p) by {
        if occurs_at(text, close, p) {
            assert(text.subrange(p, p + 2)[0] == text[p]);
        }
    }
    lemma_find_from(text, close, 0);
    assert(text.subrange(1, 4) =~= seq![':', ':', '1']);
    lemma_own_ipv6();
    assert(text.subrange(6, text.len() as int) =~= wp);
}

/// An address without a port is none, and neither is one whose port is no number up to 65535.
pub proof fn law_address_needs_a_port(text: Seq<char>)
    ensures
        !text.contains(':') ==> socket_address(text) is None,
        socket_address(text) matches Some(socket) ==> socket.port <= 65535,
        socket_address(text) matches Some(socket) ==> match socket.host {
            HostView::V4(octets) => octets.len() == 4,
            HostView::V6(groups) => groups.len() == 8,
        },
{
    if !text.contains(':') {
        lemma_find_from(text, seq![':'], 0);
        lemma_find_from(text, seq![']', ':'], 0);
        match find(text, seq![':']) {
            Some(at) => {
                assert(text.subrange(at, at + 1)[0] == text[at]);
                assert(text[at] == ':');
            },
            None => {},
        }
        match find(text, seq![']', ':']) {
            Some(at) => {
                assert(text.subrange(at, at + 2)[1] == text[at + 1]);
                assert(text[at + 1] == ':');
            },
            None => {},
        }
    }
}

/// Whether each text of a list is one to four hexadecimal digits.
pub open spec fn are_groups(pieces: Seq<Seq<char>>) -> bool {
    forall|i: int|
        0 <= i < pieces.len() ==> 1 <= (#[trigger] pieces[i]).len() <= 4 && all_digits(pieces[i], 16)
}

/// The numbers that texts of hexadecimal digits write.
pub open spec fn group_values(pieces: Seq<Seq<char>>) -> Seq<nat> {
    Seq::new(pieces.len(), |i: int| digits_value(pieces[i], 16))
}

proof fn lemma_group_fits(piece: Seq<char>)
    requires
        1 <= piece.len() <= 4,
        all_digits(piece, 16),
    ensures
        hex_group(piece) == Some(digits_value(piece, 16)),
{
    reveal_with_fuel(digits_value, 5);
    assert(digit_value(piece[piece.len() - 1], 16) is Some);
    if piece.len() > 1 {
        let a = piece.drop_last();
        assert(a.last() == piece[piece.len() - 2]);
        assert(digit_value(piece[piece.len() - 2], 16) is Some);
        if piece.len() > 2 {
            let b = a.drop_last();
            assert(b.last() == piece[piece.len() - 3]);
            assert(digit_value(piece[piece.len() - 3], 16) is Some);
            if piece.len() > 3 {
                let c = b.drop_last();
                assert(c.last() == piece[0]);
                assert(digit_value(piece[0], 16) is Some);
                assert(c.drop_last().len() == 0);
            } else {
                assert(b.drop_last().len() == 0);
            }
        } else {
            assert(a.drop_last().len() == 0);
        }
    } else {
        assert(piece.drop_last().len() == 0);
    }
}

proof fn lemma_groups_of(pieces: Seq<Seq<char>>)
    requires
        are_groups(pieces),
    ensures
        hex_groups(pieces) == Some(group_values(pieces)),
    decreases pieces.len(),
{
    if pieces.len() == 0 {
        assert(group_values(pieces) =~= Seq::empty());
    } else {
        let head = pieces.drop_last();
        assert(pieces.last() == pieces[pieces.len() - 1]);
        assert forall|i: int| 0 <= i < head.len() implies 1 <= (#[trigger] head[i]).len() <= 4
            && all_digits(head[i], 16) by {
            assert(head[i] == pieces[i]);
        }
        lemma_groups_of(head);
        lemma_group_fits(pieces.last());
        assert(group_values(head).push(digits_value(pieces.last(), 16)) =~= group_values(pieces));
    }
}

/// What groups with colons between them look like: hexadecimal digits and single colons, with a
/// digit at either end, and the groups between the colons.
proof fn lemma_joined_groups(pieces: Seq<Seq<char>>)
    requires
        are_groups(pieces),
        pieces.len() > 0,
    ensures
        ({
            let text = join(pieces, seq![':']);
            &&& text.len() > 0
            &&& digit_value(text[0], 16) is Some
            &&& digit_value(text.last(), 16) is Some
            &&& forall|i: int|
                0 <= i < text.len() ==> #[trigger] text[i] == ':' || digit_value(text[i], 16) is Some
            &&& forall|p: int| !occurs_at(text, seq![':', ':'], p)
            &&& split(text, ':') == pieces
        }),
    decreases pieces.len(),
{
    let colon = seq![':'];
    let two = seq![':', ':'];
    let text = join(pieces, colon);
    let last = pieces.last();
    assert(last == pieces[pieces.len() - 1]);
    assert(!last.contains(':')) by {
        if last.contains(':') {
            let i = last.index_of(':');
            assert(digit_value(last[i], 16) is Some);
        }
    }
    assert(digit_value(last[0], 16) is Some);
    assert(digit_value(last[last.len() - 1], 16) is Some);
    if pieces.len() == 1 {
        assert(text == last);
        lemma_split_piece(last, ':');
        assert(pieces =~= seq![last]);
        assert forall|i: int| 0 <= i < text.len() implies #[trigger] text[i] == ':' || digit_value(
            text[i],
            16,
        ) is Some by {
            assert(digit_value(last[i], 16) is Some);
        }
        assert forall|p: int| !occurs_at(text, two, p) by {
            if occurs_at(text, two, p) {
                assert(text.subrange(p, p + 2)[0] == last[p]);
                assert(digit_value(last[p], 16) is Some);
            }
        }
    } else {
        let head = pieces.drop_last();
        assert forall|i: int| 0 <= i < head.len() implies 1 <= (#[trigger] head[i]).len() <= 4
            && all_digits(head[i], 16) by {
            assert(head[i] == pieces[i]);
        }
        lemma_joined_groups(head);
        let front = join(head, colon);
        let n = front.len() as int;
        assert(text == front + colon + last);
        lemma_split_more(front, last, ':');
        assert(head.push(last) =~= pieces);
        assert(text[0] == front[0]);
        assert(text.last() == last[last.len() - 1]);
        assert forall|i: int| 0 <= i < text.len() implies #[trigger] text[i] == ':' || digit_value(
            text[i],
            16,
        ) is Some by {
            if i < n {
                assert(text[i] == front[i]);
            } else if i > n {
                assert(text[i] == last[i - n - 1]);
                assert(digit_value(last[i - n - 1], 16) is Some);
            }
        }
        assert forall|p: int| !occurs_at(text, two, p) by {
            if occurs_at(text, two, p) {
                let found = text.subrange(p, p + 2);
                assert(found[0] == text[p] && found[1] == text[p + 1]);
                if p < n - 1 {
                    assert(front.subrange(p, p + 2) =~= found);
                    assert(occurs_at(front, two, p));
                } else if p == n - 1 {
                    assert(text[p] == front.last());
                } else {
                    assert(text[p + 1] == last[p - n]);
                    assert(digit_value(last[p - n], 16) is Some);
                }
            }
        }
    }
}

proof fn lemma_mixed(pieces: Seq<Seq<char>>)
    requires
        are_groups(pieces),
    ensures
        mixed_groups(join(pieces, seq![':'])) == Some(group_values(pieces)),
        plain_groups(join(pieces, seq![':'])) == Some(group_values(pieces)),
{
    let text = join(pieces, seq![':']);
    if pieces.len() == 0 {
        assert(text.len() == 0);
        assert(group_values(pieces) =~= Seq::empty());
        let none = Seq::<char>::empty();
        assert(text =~= none);
        assert(split(none, ':') == seq![none]);
        assert(split(none, '.') == seq![none]);
        assert(split(none, ':').last() == none);
        assert(ipv4(none) is None);
    } else {
        lemma_joined_groups(pieces);
        lemma_groups_of(pieces);
        let last = pieces.last();
        assert(last == pieces[pieces.len() - 1]);
        assert(!last.contains('.')) by {
            if last.contains('.') {
                let i = last.index_of('.');
                assert(digit_value(last[i], 16) is Some);
            }
        }
        lemma_split_piece(last, '.');
        assert(ipv4(last) is None);
    }
}

proof fn lemma_scope_free(text: Seq<char>)
    requires
        forall|i: int|
            0 <= i < text.len() ==> #[trigger] text[i] == ':' || digit_value(text[i], 16) is Some,
    ensures
        scoped_ipv6(text) == ipv6(text),
        forall|p: int| !occurs_at(text, seq![']', ':'], p),
{
    let percent = seq!['%'];
    assert forall|p: int| !occurs_at(text, percent, p) by {
        if occurs_at(text, percent, p) {
            assert(text.subrange(p, p + 1)[0] == text[p]);
        }
    }
    lemma_find_from(text, percent, 0);
    assert forall|p: int| !occurs_at(text, seq![']', ':'], p) by {
        if occurs_at(text, seq![']', ':'], p) {
            assert(text.subrange(p, p + 2)[0] == text[p]);
        }
    }
}

proof fn lemma_found_at(text: Seq<char>, close: Seq<char>, at: int)
    requires
        close.len() == 2,
        0 <= at <= text.len() - 2,
        text[at] == close[0],
        text[at + 1] == close[1],
        forall|i: int| 0 <= i < at ==> #[trigger] text[i] != close[0],
    ensures
        find(text, close) == Some(at),
{
    assert(occurs_at(text, close, at)) by {
        assert(text.subrange(at, at + 2) =~= close);
    }
    assert forall|p: int| 0 <= p < at implies !occurs_at(text, close, p) by {
        if occurs_at(text, close, p) {
            assert(text.subrange(p, p + 2)[0] == text[p]);
        }
    }
    lemma_find_from(text, close, 0);
}

proof fn lemma_bracket_parts(text: Seq<char>, inside: Seq<char>, rest: Seq<char>)
    requires
        text == seq!['['] + inside + seq![']', ':'] + rest,
        forall|i: int| 0 <= i < inside.len() ==> #[trigger] inside[i] != ']',
    ensures
        text.len() > 0,
        text[0] == '[',
        text[inside.len() as int + 1] == ']',
        text[inside.len() as int + 2] == ':',
        forall|i: int| 0 <= i < inside.len() + 1 ==> #[trigger] text[i] != ']',
        text.subrange(1, inside.len() as int + 1) == inside,
        text.subrange(inside.len() as int + 3, text.len() as int) == rest,
{
    let at = inside.len() as int + 1;
    assert forall|i: int| 0 <= i < at implies #[trigger] text[i] != ']' by {
        if i > 0 {
            assert(text[i] == inside[i - 1]);
        }
    }
    assert(text.subrange(1, at) =~= inside);
    assert(text.subrange(at + 2, text.len() as int) =~= rest);
}

/// An address in brackets is read by what stands between them, and its port by what follows.
proof fn lemma_bracketed(inside: Seq<char>, port_number: u16)
    requires
        forall|i: int|
            0 <= i < inside.len() ==> #[trigger] inside[i] == ':' || digit_value(inside[i], 16)
                is Some,
    ensures
        socket_address(
            seq!['['] + inside + seq![']', ':'] + decimal(port_number as nat),
        ) == match ipv6(inside) {
            Some(groups) => Some(
                SocketView { host: HostView::V6(groups), port: port_number as nat },
            ),
            None => None,
        },
{
    law_decimal_reads_back(port_number as nat);
    lemma_scope_free(inside);
    let rest = decimal(port_number as nat);
    let text = seq!['['] + inside + seq![']', ':'] + rest;
    lemma_bracket_parts(text, inside, rest);
    lemma_found_at(text, seq![']', ':'], inside.len() as int + 1);
    assert(port(decimal(port_number as nat)) == Some(port_number as nat));
}

proof fn lemma_full_groups(pieces: Seq<Seq<char>>)
    requires
        are_groups(pieces),
    ensures
        ipv6(join(pieces, seq![':'])) == if pieces.len() == 8 {
            Some(group_values(pieces))
        } else {
            None
        },
        forall|i: int|
            0 <= i < join(pieces, seq![':']).len() ==> #[trigger] join(pieces, seq![':'])[i] == ':'
                || digit_value(join(pieces, seq![':'])[i], 16) is Some,
{
    let text = join(pieces, seq![':']);
    let two = seq![':', ':'];
    lemma_mixed(pieces);
    if pieces.len() > 0 {
        lemma_joined_groups(pieces);
    } else {
        assert(text.len() == 0);
        assert forall|p: int| !occurs_at(text, two, p) by {}
    }
    lemma_find_from(text, two, 0);
    assert(find(text, two) is None);
}

proof fn lemma_short_groups(head: Seq<Seq<char>>, tail: Seq<Seq<char>>)
    requires
        are_groups(head),
        are_groups(tail),
    ensures
        ({
            let short = join(head, seq![':']) + seq![':', ':'] + join(tail, seq![':']);
            let zeros = (8 - head.len() - tail.len()) as nat;
            &&& ipv6(short) == if head.len() + tail.len() <= 7 {
                Some(group_values(head) + Seq::new(zeros, |i: int| 0nat) + group_values(tail))
            } else {
                None
            }
            &&& forall|i: int|
                0 <= i < short.len() ==> #[trigger] short[i] == ':' || digit_value(short[i], 16)
                    is Some
        }),
{
    let two = seq![':', ':'];
    let left = join(head, seq![':']);
    let right = join(tail, seq![':']);
    let short = left + two + right;
    let at = left.len() as int;
    lemma_mixed(head);
    lemma_mixed(tail);
    lemma_full_groups(head);
    lemma_full_groups(tail);
    if head.len() > 0 {
        lemma_joined_groups(head);
    } else {
        assert(left.len() == 0);
    }
    assert forall|i: int| 0 <= i < short.len() implies #[trigger] short[i] == ':' || digit_value(
        short[i],
        16,
    ) is Some by {
        if i < at {
            assert(short[i] == left[i]);
        } else if i >= at + 2 {
            assert(short[i] == right[i - at - 2]);
        }
    }
    assert(short.subrange(at, at + 2) =~= two);
    assert(occurs_at(short, two, at));
    assert forall|p: int| 0 <= p < at implies !occurs_at(short, two, p) by {
        if occurs_at(short, two, p) {
            let found = short.subrange(p, p + 2);
            assert(found[0] == short[p]);
            assert(short[p] == left[p]);
            if p < at - 1 {
                assert(left.subrange(p, p + 2) =~= found);
                assert(occurs_at(left, two, p));
            } else {
                assert(left[p] == left.last());
            }
        }
    }
    lemma_find_from(short, two, 0);
    assert(short.subrange(0, at) =~= left);
    assert(short.subrange(at + 2, short.len() as int) =~= right);
    assert(group_values(head).len() == head.len() && group_values(tail).len() == tail.len());
}

/// An address in brackets is read where eight groups stand in them, and then as those groups.
pub proof fn law_bracketed_address_is_read(pieces: Seq<Seq<char>>, port_number: u16)
    requires
        are_groups(pieces),
    ensures
        socket_address(
            seq!['['] + join(pieces, seq![':']) + seq![']', ':'] + decimal(port_number as nat),
        ) == if pieces.len() == 8 {
            Some(
                SocketView {
                    host: HostView::V6(group_values(pieces)),
                    port: port_number as nat,
                },
            )
        } else {
            None
        },
{
    lemma_full_groups(pieces);
    lemma_bracketed(join(pieces, seq![':']), port_number);
}

/// Two colons stand for the groups of zero that are left out, wherever they stand: the groups
/// before them come first and those after them last. At least one group has to be left out.
pub proof fn law_shortened_address_is_read(
    head: Seq<Seq<char>>,
    tail: Seq<Seq<char>>,
    port_number: u16,
)
    requires
        are_groups(head),
        are_groups(tail),
    ensures
        socket_address(
            seq!['['] + (join(head, seq![':']) + seq![':', ':'] + join(tail, seq![':'])) + seq![
                ']',
                ':',
            ] + decimal(port_number as nat),
        ) == if head.len() + tail.len() <= 7 {
            Some(
                SocketView {
                    host: HostView::V6(
                        group_values(head) + Seq::new(
                            (8 - head.len() - tail.len()) as nat,
                            |i: int| 0nat,
                        ) + group_values(tail),
                    ),
                    port: port_number as nat,
                },
            )
        } else {
            None
        },
{
    lemma_short_groups(head, tail);
    lemma_bracketed(
        join(head, seq![':']) + seq![':', ':'] + join(tail, seq![':']),
        port_number,
    );
}

/// An IPv6 address is that of this machine exactly where its last group is one and all others
/// are zero, an IPv4 address exactly where it begins with 127.
pub proof fn law_own_addresses_are_known(groups: Seq<nat>, octets: Seq<nat>)
    requires
        groups.len() == 8,
        octets.len() == 4,
    ensures
        is_loopback(HostView::V6(groups)) <==> groups[7] == 1 && forall|i: int|
            0 <= i < 7 ==> #[trigger] groups[i] == 0,
        is_loopback(HostView::V4(octets)) <==> octets[0] == 127,
{
    let own = seq![0nat, 0, 0, 0, 0, 0, 0, 1];
    if groups[7] == 1 && forall|i: int| 0 <= i < 7 ==> #[trigger] groups[i] == 0 {
        assert(groups =~= own);
    }
}

} // verus!
