//! Text as a sequence of characters: searching, trimming, splitting, comparing without
//! regard to ASCII case, and writing and reading numbers.

use vstd::prelude::*;

verus! {

/// The text of each string of a list.
pub open spec fn views(list: Seq<String>) -> Seq<Seq<char>> {
    Seq::new(list.len(), |i: int| list[i]@)
}

/// `String::push` appends one character.
pub assume_specification[ String::push ](text: &mut String, c: char)
    ensures
        final(text)@ == old(text)@.push(c),
;

/// The characters with the Unicode property `White_Space`.
pub open spec fn is_white_space(c: char) -> bool {
    ||| '\u{9}' <= c <= '\u{d}'
    ||| c == '\u{20}'
    ||| c == '\u{85}'
    ||| c == '\u{a0}'
    ||| c == '\u{1680}'
    ||| '\u{2000}' <= c <= '\u{200a}'
    ||| c == '\u{2028}'
    ||| c == '\u{2029}'
    ||| c == '\u{202f}'
    ||| c == '\u{205f}'
    ||| c == '\u{3000}'
}

/// `char::is_whitespace` tells whether a character has the Unicode property
/// `White_Space`.
pub assume_specification[ char::is_whitespace ](c: char) -> (yes: bool)
    ensures
        yes == is_white_space(c),
;

/// The kinds of character that text is trimmed of.
#[derive(Clone, Copy, PartialEq, Eq, Structural, Debug)]
pub enum CharKind {
    /// White space as Unicode defines it.
    White,
    /// `\r` and `\n`.
    LineBreak,
    /// `/`.
    Slash,
}

/// Whether a character is of a kind.
pub open spec fn of_kind(c: char, kind: CharKind) -> bool {
    match kind {
        CharKind::White => is_white_space(c),
        CharKind::LineBreak => c == '\r' || c == '\n',
        CharKind::Slash => c == '/',
    }
}

/// Whether every character is of a kind.
pub open spec fn all_of_kind(text: Seq<char>, kind: CharKind) -> bool {
    forall|i: int| 0 <= i < text.len() ==> of_kind(#[trigger] text[i], kind)
}

/// Whether a text has nothing but white space in it.
pub open spec fn is_blank(text: Seq<char>) -> bool {
    all_of_kind(text, CharKind::White)
}

/// A text without the characters of a kind at its start.
pub open spec fn trim_start_kind(text: Seq<char>, kind: CharKind) -> Seq<char>
    decreases text.len(),
{
    if text.len() > 0 && of_kind(text.first(), kind) {
        trim_start_kind(text.drop_first(), kind)
    } else {
        text
    }
}

/// A text without the characters of a kind at its end.
pub open spec fn trim_end_kind(text: Seq<char>, kind: CharKind) -> Seq<char>
    decreases text.len(),
{
    if text.len() > 0 && of_kind(text.last(), kind) {
        trim_end_kind(text.drop_last(), kind)
    } else {
        text
    }
}

/// A text without white space at either end.
pub open spec fn trim(text: Seq<char>) -> Seq<char> {
    trim_end_kind(trim_start_kind(text, CharKind::White), CharKind::White)
}

/// How true and false are written.
pub open spec fn truth(value: bool) -> Seq<char> {
    if value {
        "true"@
    } else {
        "false"@
    }
}

/// Whether a pattern stands at a position of a text.
pub open spec fn occurs_at(text: Seq<char>, pattern: Seq<char>, at: int) -> bool {
    &&& 0 <= at <= text.len() - pattern.len()
    &&& text.subrange(at, at + pattern.len()) == pattern
}

/// Whether a text comes before another in the order of their characters.
pub open spec fn comes_before(a: Seq<char>, b: Seq<char>) -> bool
    decreases a.len(),
{
    if b.len() == 0 {
        false
    } else if a.len() == 0 {
        true
    } else if a[0] != b[0] {
        a[0] < b[0]
    } else {
        comes_before(a.skip(1), b.skip(1))
    }
}

/// The first position not before `from` at which a pattern stands.
pub open spec fn find_from(text: Seq<char>, pattern: Seq<char>, from: int) -> Option<int>
    decreases text.len() + 1 - from,
{
    if from < 0 || from + pattern.len() > text.len() {
        None
    } else if occurs_at(text, pattern, from) {
        Some(from)
    } else {
        find_from(text, pattern, from + 1)
    }
}

/// The first position at which a pattern stands.
pub open spec fn find(text: Seq<char>, pattern: Seq<char>) -> Option<int> {
    find_from(text, pattern, 0)
}

/// Whether a pattern stands anywhere in a text.
pub open spec fn has_text(text: Seq<char>, pattern: Seq<char>) -> bool {
    exists|at: int| occurs_at(text, pattern, at)
}

/// Whether a text begins with a prefix.
pub open spec fn starts_with(text: Seq<char>, prefix: Seq<char>) -> bool {
    occurs_at(text, prefix, 0)
}

/// A character with an ASCII capital made small.
pub open spec fn lower_char(c: char) -> char {
    if 'A' <= c <= 'Z' {
        (c as int + 32) as char
    } else {
        c
    }
}

/// A text with its ASCII capitals made small.
pub open spec fn ascii_lower(text: Seq<char>) -> Seq<char> {
    Seq::new(text.len(), |i: int| lower_char(text[i]))
}

/// Whether two texts are the same but for ASCII case.
pub open spec fn same_ignoring_case(a: Seq<char>, b: Seq<char>) -> bool {
    ascii_lower(a) == ascii_lower(b)
}

/// A text with each `from` replaced by `with`.
pub open spec fn replace_char(text: Seq<char>, from: char, with: Seq<char>) -> Seq<char>
    decreases text.len(),
{
    if text.len() == 0 {
        Seq::empty()
    } else if text.last() == from {
        replace_char(text.drop_last(), from, with) + with
    } else {
        replace_char(text.drop_last(), from, with).push(text.last())
    }
}

/// A line without the carriage return before its line feed.
pub open spec fn without_return(line: Seq<char>) -> Seq<char> {
    if line.len() > 0 && line.last() == '\r' {
        line.drop_last()
    } else {
        line
    }
}

/// The lines of a text. A line ends with a line feed, or a carriage return and a line
/// feed, which are not part of it; the last line needs no ending.
pub open spec fn lines(text: Seq<char>) -> Seq<Seq<char>>
    decreases text.len(),
{
    if text.len() == 0 {
        Seq::empty()
    } else if text.contains('\n') {
        let at = text.index_of_first('\n').unwrap();
        if 0 <= at < text.len() {
            seq![without_return(text.subrange(0, at))] + lines(text.subrange(at + 1, text.len() as int))
        } else {
            Seq::empty()
        }
    } else {
        seq![text]
    }
}

/// A string that may be missing, by its text.
pub open spec fn optional(text: Option<String>) -> Option<Seq<char>> {
    match text {
        Some(text) => Some(text@),
        None => None,
    }
}

/// The texts of a list with a separator between each two.
pub open spec fn join(parts: Seq<Seq<char>>, separator: Seq<char>) -> Seq<char>
    decreases parts.len(),
{
    if parts.len() == 0 {
        Seq::empty()
    } else if parts.len() == 1 {
        parts[0]
    } else {
        join(parts.drop_last(), separator) + separator + parts.last()
    }
}

/// The decimal digit of a number below ten.
pub open spec fn digit_char(digit: nat) -> char {
    (48 + digit) as char
}

/// A number in decimal.
pub open spec fn decimal(number: nat) -> Seq<char>
    decreases number,
{
    if number < 10 {
        seq![digit_char(number)]
    } else {
        decimal(number / 10).push(digit_char(number % 10))
    }
}

/// What a character is worth as a digit of a radix of at most 16.
pub open spec fn digit_value(c: char, radix: nat) -> Option<nat> {
    let worth: int = if '0' <= c <= '9' {
        c as int - 48
    } else if 'a' <= c <= 'f' {
        c as int - 87
    } else if 'A' <= c <= 'F' {
        c as int - 55
    } else {
        16
    };
    if worth < radix && worth < 16 {
        Some(worth as nat)
    } else {
        None
    }
}

/// Whether a text is made of digits of a radix alone.
pub open spec fn all_digits(text: Seq<char>, radix: nat) -> bool {
    forall|i: int| 0 <= i < text.len() ==> digit_value(#[trigger] text[i], radix) is Some
}

/// The number that a row of digits writes.
pub open spec fn digits_value(text: Seq<char>, radix: nat) -> nat
    decreases text.len(),
{
    if text.len() == 0 {
        0
    } else {
        digits_value(text.drop_last(), radix) * radix + digit_value(text.last(), radix).unwrap()
    }
}

/// The number that a text writes: at least one digit, nothing else, and at most `max`.
pub open spec fn number(text: Seq<char>, radix: nat, max: nat) -> Option<nat> {
    if text.len() > 0 && all_digits(text, radix) && digits_value(text, radix) <= max {
        Some(digits_value(text, radix))
    } else {
        None
    }
}

/// The characters of a string.
pub fn chars_of(text: &str) -> (chars: Vec<char>)
    ensures
        chars@ == text@,
{
    let mut chars: Vec<char> = Vec::new();
    for c in it: text.chars()
        invariant
            it.seq() == text@,
            chars@ == it.seq().take(it.index() as int),
    {
        chars.push(c);
    }
    chars
}

/// The string that a stretch of characters makes.
pub fn string_of(chars: &Vec<char>, from: usize, to: usize) -> (text: String)
    requires
        from <= to <= chars.len(),
    ensures
        text@ == chars@.subrange(from as int, to as int),
{
    let mut text = String::new();
    let mut i: usize = from;
    while i < to
        invariant
            from <= i <= to <= chars.len(),
            text@ == chars@.subrange(from as int, i as int),
        decreases to - i,
    {
        text.push(chars[i]);
        i += 1;
        assert(text@ =~= chars@.subrange(from as int, i as int));
    }
    text
}

/// Whether two strings have the same text.
pub fn same_text(a: &str, b: &str) -> (same: bool)
    ensures
        same == (a@ == b@),
{
    let left = chars_of(a);
    let right = chars_of(b);
    if left.len() != right.len() {
        return false;
    }
    let mut i: usize = 0;
    while i < left.len()
        invariant
            left@ == a@,
            right@ == b@,
            left.len() == right.len(),
            i <= left.len(),
            left@.subrange(0, i as int) == right@.subrange(0, i as int),
        decreases left.len() - i,
    {
        if left[i] != right[i] {
            return false;
        }
        i += 1;
        assert(left@.subrange(0, i as int) =~= left@.subrange(0, i - 1).push(left@[i - 1]));
        assert(right@.subrange(0, i as int) =~= right@.subrange(0, i - 1).push(right@[i - 1]));
    }
    assert(left@.subrange(0, i as int) =~= left@);
    assert(right@.subrange(0, i as int) =~= right@);
    true
}

/// Whether a character is of a kind.
pub fn is_of_kind(c: char, kind: CharKind) -> (yes: bool)
    ensures
        yes == of_kind(c, kind),
{
    match kind {
        CharKind::White => c.is_whitespace(),
        CharKind::LineBreak => c == '\r' || c == '\n',
        CharKind::Slash => c == '/',
    }
}

/// Whether a string has nothing but white space in it.
pub fn blank(text: &str) -> (yes: bool)
    ensures
        yes == is_blank(text@),
{
    let chars = chars_of(text);
    let mut i: usize = 0;
    while i < chars.len()
        invariant
            chars@ == text@,
            i <= chars.len(),
            forall|j: int| 0 <= j < i ==> is_white_space(#[trigger] text@[j]),
        decreases chars.len() - i,
    {
        if !chars[i].is_whitespace() {
            assert(!of_kind(text@[i as int], CharKind::White));
            return false;
        }
        i += 1;
    }
    true
}

/// Whether a string comes before another in the order of their characters.
pub fn is_before(a: &str, b: &str) -> (yes: bool)
    ensures
        yes == comes_before(a@, b@),
{
    let left = chars_of(a);
    let right = chars_of(b);
    let mut i: usize = 0;
    assert(left@.skip(0) =~= a@);
    assert(right@.skip(0) =~= b@);
    while i < left.len() && i < right.len()
        invariant
            i <= left.len(),
            i <= right.len(),
            comes_before(a@, b@) == comes_before(left@.skip(i as int), right@.skip(i as int)),
        decreases left.len() - i,
    {
        assert(left@.skip(i as int)[0] == left@[i as int]);
        assert(right@.skip(i as int)[0] == right@[i as int]);
        if left[i] != right[i] {
            return left[i] < right[i];
        }
        assert(left@.skip(i as int).skip(1) =~= left@.skip(i + 1));
        assert(right@.skip(i as int).skip(1) =~= right@.skip(i + 1));
        i += 1;
    }
    i < right.len()
}

/// The order of texts is total.
pub proof fn lemma_order_is_total(a: Seq<char>, b: Seq<char>, c: Seq<char>)
    ensures
        !(comes_before(a, b) && comes_before(b, a)),
        !comes_before(b, a) && !comes_before(c, b) ==> !comes_before(c, a),
    decreases a.len(),
{
    if a.len() > 0 && b.len() > 0 {
        if c.len() > 0 {
            lemma_order_is_total(a.skip(1), b.skip(1), c.skip(1));
        } else {
            lemma_order_is_total(a.skip(1), b.skip(1), c);
        }
    }
}

/// Where the text without the characters of a kind at the start of a stretch begins.
pub fn trimmed_start(chars: &Vec<char>, from: usize, to: usize, kind: CharKind) -> (start: usize)
    requires
        from <= to <= chars.len(),
    ensures
        from <= start <= to,
        chars@.subrange(start as int, to as int) == trim_start_kind(
            chars@.subrange(from as int, to as int),
            kind,
        ),
{
    let mut start: usize = from;
    while start < to && is_of_kind(chars[start], kind)
        invariant
            from <= start <= to <= chars.len(),
            trim_start_kind(chars@.subrange(start as int, to as int), kind) == trim_start_kind(
                chars@.subrange(from as int, to as int),
                kind,
            ),
        decreases to - start,
    {
        assert(chars@.subrange(start as int, to as int).drop_first() =~= chars@.subrange(
            start + 1,
            to as int,
        ));
        start += 1;
    }
    start
}

/// Where the text without the characters of a kind at the end of a stretch ends.
pub fn trimmed_end(chars: &Vec<char>, from: usize, to: usize, kind: CharKind) -> (end: usize)
    requires
        from <= to <= chars.len(),
    ensures
        from <= end <= to,
        chars@.subrange(from as int, end as int) == trim_end_kind(
            chars@.subrange(from as int, to as int),
            kind,
        ),
{
    let mut end: usize = to;
    while from < end && is_of_kind(chars[end - 1], kind)
        invariant
            from <= end <= to <= chars.len(),
            trim_end_kind(chars@.subrange(from as int, end as int), kind) == trim_end_kind(
                chars@.subrange(from as int, to as int),
                kind,
            ),
        decreases end - from,
    {
        assert(chars@.subrange(from as int, end as int).drop_last() =~= chars@.subrange(
            from as int,
            end - 1,
        ));
        end -= 1;
    }
    end
}

/// A string without white space at either end.
pub fn trimmed(text: &str) -> (short: String)
    ensures
        short@ == trim(text@),
{
    let chars = chars_of(text);
    assert(chars@.subrange(0, chars.len() as int) =~= text@);
    let start = trimmed_start(&chars, 0, chars.len(), CharKind::White);
    let end = trimmed_end(&chars, start, chars.len(), CharKind::White);
    string_of(&chars, start, end)
}

/// A string without the characters of a kind at its end.
pub fn trimmed_end_of(text: &str, kind: CharKind) -> (short: String)
    ensures
        short@ == trim_end_kind(text@, kind),
{
    let chars = chars_of(text);
    assert(chars@.subrange(0, chars.len() as int) =~= text@);
    let end = trimmed_end(&chars, 0, chars.len(), kind);
    string_of(&chars, 0, end)
}

/// Whether a pattern stands at a position.
pub fn stands_at(text: &Vec<char>, pattern: &Vec<char>, at: usize) -> (yes: bool)
    requires
        at <= text.len(),
    ensures
        yes == occurs_at(text@, pattern@, at as int),
{
    if pattern.len() > text.len() - at {
        return false;
    }
    let mut i: usize = 0;
    while i < pattern.len()
        invariant
            i <= pattern.len(),
            at + pattern.len() <= text.len(),
            text@.subrange(at as int, at + i) == pattern@.subrange(0, i as int),
        decreases pattern.len() - i,
    {
        if text[at + i] != pattern[i] {
            assert(text@.subrange(at as int, at + pattern.len())[i as int] != pattern@[i as int]);
            return false;
        }
        i += 1;
        assert(text@.subrange(at as int, at + i) =~= text@.subrange(at as int, at + i - 1).push(
            text@[at + i - 1],
        ));
        assert(pattern@.subrange(0, i as int) =~= pattern@.subrange(0, i - 1).push(
            pattern@[i - 1],
        ));
    }
    assert(pattern@.subrange(0, i as int) =~= pattern@);
    true
}

/// The first position at which a pattern stands.
pub fn position_of(text: &Vec<char>, pattern: &Vec<char>) -> (at: Option<usize>)
    ensures
        match at {
            Some(i) => find(text@, pattern@) == Some(i as int) && i + pattern@.len() <= text@.len(),
            None => find(text@, pattern@) is None,
        },
{
    let mut i: usize = 0;
    loop
        invariant
            i <= text.len(),
            find_from(text@, pattern@, i as int) == find(text@, pattern@),
        decreases text.len() - i,
    {
        if pattern.len() > text.len() - i {
            return None;
        }
        if stands_at(text, pattern, i) {
            return Some(i);
        }
        if i == text.len() {
            assert(text@.subrange(i as int, i as int) =~= pattern@);
            return None;
        }
        i += 1;
    }
}

/// Whether a pattern stands anywhere in a string.
pub fn contains_text(text: &str, pattern: &str) -> (yes: bool)
    ensures
        yes == has_text(text@, pattern@),
{
    let found = position_of(&chars_of(text), &chars_of(pattern));
    proof {
        lemma_find_from(text@, pattern@, 0);
    }
    found.is_some()
}

/// Whether a string begins with a prefix.
pub fn begins_with(text: &str, prefix: &str) -> (yes: bool)
    ensures
        yes == starts_with(text@, prefix@),
{
    stands_at(&chars_of(text), &chars_of(prefix), 0)
}

/// Whether a character occurs in a string.
pub fn contains_char(text: &str, c: char) -> (yes: bool)
    ensures
        yes == text@.contains(c),
{
    let chars = chars_of(text);
    let mut i: usize = 0;
    while i < chars.len()
        invariant
            chars@ == text@,
            i <= chars.len(),
            forall|j: int| 0 <= j < i ==> text@[j] != c,
        decreases chars.len() - i,
    {
        if chars[i] == c {
            assert(text@[i as int] == c);
            return true;
        }
        i += 1;
    }
    false
}

/// A character with an ASCII capital made small.
pub fn to_lower_char(c: char) -> (small: char)
    ensures
        small == lower_char(c),
{
    if 'A' <= c && c <= 'Z' {
        let code: u8 = c as u8;
        (code + 32) as char
    } else {
        c
    }
}

/// A string with its ASCII capitals made small.
pub fn lowered(text: &str) -> (small: String)
    ensures
        small@ == ascii_lower(text@),
{
    let chars = chars_of(text);
    let mut small = String::new();
    let mut i: usize = 0;
    while i < chars.len()
        invariant
            chars@ == text@,
            i <= chars.len(),
            small@ == ascii_lower(text@).take(i as int),
        decreases chars.len() - i,
    {
        small.push(to_lower_char(chars[i]));
        i += 1;
        assert(small@ =~= ascii_lower(text@).take(i as int));
    }
    assert(small@ =~= ascii_lower(text@));
    small
}

/// Whether two strings are the same but for ASCII case.
pub fn equal_ignoring_case(a: &str, b: &str) -> (same: bool)
    ensures
        same == same_ignoring_case(a@, b@),
{
    same_text(lowered(a).as_str(), lowered(b).as_str())
}

/// A string with each `from` replaced by `with`.
pub fn replaced_char(text: &str, from: char, with: &str) -> (changed: String)
    ensures
        changed@ == replace_char(text@, from, with@),
{
    let chars = chars_of(text);
    let mut changed = String::new();
    let mut i: usize = 0;
    while i < chars.len()
        invariant
            chars@ == text@,
            i <= chars.len(),
            changed@ == replace_char(text@.take(i as int), from, with@),
        decreases chars.len() - i,
    {
        assert(text@.take(i + 1).drop_last() =~= text@.take(i as int));
        if chars[i] == from {
            changed.append(with);
        } else {
            changed.push(chars[i]);
        }
        i += 1;
    }
    assert(text@.take(i as int) =~= text@);
    changed
}

/// The lines of a string.
pub fn lines_of(text: &str) -> (found: Vec<String>)
    ensures
        views(found@) == lines(text@),
{
    let chars = chars_of(text);
    let mut found: Vec<String> = Vec::new();
    let mut start: usize = 0;
    let mut i: usize = 0;
    assert(text@.subrange(0, text@.len() as int) =~= text@);
    while i < chars.len()
        invariant
            chars@ == text@,
            start <= i <= chars.len(),
            forall|j: int| start <= j < i ==> text@[j] != '\n',
            views(found@) + lines(text@.subrange(start as int, text@.len() as int)) == lines(text@),
        decreases chars.len() - i,
    {
        if chars[i] == '\n' {
            let ghost rest = text@.subrange(start as int, text@.len() as int);
            let ghost before = views(found@);
            let end: usize = if start < i && chars[i - 1] == '\r' {
                i - 1
            } else {
                i
            };
            let line = string_of(&chars, start, end);
            proof {
                let at = i - start;
                assert(rest[at] == '\n');
                assert(rest.contains('\n'));
                rest.index_of_first_ensures('\n');
                assert(rest.index_of_first('\n') == Some(at));
                assert(rest.subrange(0, at) =~= text@.subrange(start as int, i as int));
                assert(without_return(rest.subrange(0, at)) =~= line@);
                assert(rest.subrange(at + 1, rest.len() as int) =~= text@.subrange(
                    i + 1,
                    text@.len() as int,
                ));
            }
            found.push(line);
            assert(views(found@) =~= before.push(line@));
            assert(before + (seq![line@] + lines(text@.subrange(i + 1, text@.len() as int)))
                =~= before.push(line@) + lines(text@.subrange(i + 1, text@.len() as int)));
            start = i + 1;
        }
        i += 1;
    }
    let ghost rest = text@.subrange(start as int, text@.len() as int);
    if start < chars.len() {
        let ghost before = views(found@);
        let line = string_of(&chars, start, chars.len());
        assert(!rest.contains('\n'));
        assert(line@ =~= rest);
        found.push(line);
        assert(views(found@) =~= before + seq![rest]);
    } else {
        assert(lines(rest) =~= Seq::empty());
        assert(views(found@) + lines(rest) =~= views(found@));
    }
    found
}

/// The strings of a list with a separator between each two.
pub fn joined(parts: &Vec<String>, separator: &str) -> (text: String)
    ensures
        text@ == join(views(parts@), separator@),
{
    let mut text = String::new();
    let mut i: usize = 0;
    while i < parts.len()
        invariant
            i <= parts.len(),
            text@ == join(views(parts@).take(i as int), separator@),
        decreases parts.len() - i,
    {
        let ghost before = views(parts@).take(i as int);
        let ghost after = views(parts@).take(i + 1);
        assert(after.drop_last() =~= before);
        assert(after.last() == parts@[i as int]@);
        if i > 0 {
            text.append(separator);
        }
        text.append(parts[i].as_str());
        i += 1;
        assert(text@ =~= join(after, separator@));
    }
    assert(views(parts@).take(i as int) =~= views(parts@));
    text
}

/// The decimal digit of a number below ten.
pub fn to_digit_char(digit: u8) -> (c: char)
    requires
        digit < 10,
    ensures
        c == digit_char(digit as nat),
{
    (48 + digit) as char
}

/// Appends a number in decimal.
pub fn push_decimal(text: &mut String, number: u64)
    ensures
        final(text)@ == old(text)@ + decimal(number as nat),
    decreases number,
{
    if number >= 10 {
        push_decimal(text, number / 10);
    }
    text.push(to_digit_char((number % 10) as u8));
    assert(text@ =~= old(text)@ + decimal(number as nat));
}

/// A number in decimal.
pub fn decimal_text(number: u64) -> (text: String)
    ensures
        text@ == decimal(number as nat),
{
    let mut text = String::new();
    push_decimal(&mut text, number);
    assert(text@ =~= decimal(number as nat));
    text
}

/// What a character is worth as a digit.
pub fn to_digit_value(c: char, radix: u32) -> (worth: Option<u32>)
    requires
        radix <= 16,
    ensures
        match worth {
            Some(d) => digit_value(c, radix as nat) == Some(d as nat) && d < radix,
            None => digit_value(c, radix as nat) is None,
        },
{
    let worth: u32 = if '0' <= c && c <= '9' {
        c as u32 - 48
    } else if 'a' <= c && c <= 'f' {
        c as u32 - 87
    } else if 'A' <= c && c <= 'F' {
        c as u32 - 55
    } else {
        16
    };
    if worth < radix {
        Some(worth)
    } else {
        None
    }
}

/// The number that a stretch of characters writes.
pub fn read_number(chars: &Vec<char>, from: usize, to: usize, radix: u32, max: u32) -> (found:
    Option<u32>)
    requires
        from <= to <= chars.len(),
        2 <= radix <= 16,
    ensures
        match found {
            Some(n) => number(chars@.subrange(from as int, to as int), radix as nat, max as nat)
                == Some(n as nat),
            None => number(chars@.subrange(from as int, to as int), radix as nat, max as nat)
                is None,
        },
{
    let ghost whole = chars@.subrange(from as int, to as int);
    if from == to {
        return None;
    }
    let mut value: u64 = 0;
    let mut i: usize = from;
    while i < to
        invariant
            from <= i <= to <= chars.len(),
            from < to,
            2 <= radix <= 16,
            whole == chars@.subrange(from as int, to as int),
            all_digits(whole.take(i - from), radix as nat),
            value == digits_value(whole.take(i - from), radix as nat),
            value <= max,
        decreases to - i,
    {
        let ghost read = whole.take(i - from);
        let ghost more = whole.take(i + 1 - from);
        assert(more.drop_last() =~= read);
        assert(more.last() == chars@[i as int]);
        match to_digit_value(chars[i], radix) {
            Some(digit) => {
                assert(0 <= value * radix <= 0xffff_ffff * 16) by (nonlinear_arith)
                    requires
                        0 <= value <= 0xffff_ffff,
                        0 <= radix <= 16,
                ;
                value = value * (radix as u64) + digit as u64;
                assert(all_digits(more, radix as nat)) by {
                    assert forall|j: int| 0 <= j < more.len() implies digit_value(
                        #[trigger] more[j],
                        radix as nat,
                    ) is Some by {
                        if j < read.len() {
                            assert(more[j] == read[j]);
                        }
                    }
                }
                if value > max as u64 {
                    proof {
                        if all_digits(whole, radix as nat) {
                            lemma_digits_grow(whole, radix as nat, i + 1 - from);
                        }
                    }
                    return None;
                }
            },
            None => {
                assert(whole[i - from] == chars@[i as int]);
                return None;
            },
        }
        i += 1;
    }
    assert(whole.take(i - from) =~= whole);
    Some(value as u32)
}

/// A search from a position finds the first place from there on, if there is one.
pub proof fn lemma_find_from(text: Seq<char>, pattern: Seq<char>, from: int)
    requires
        0 <= from,
    ensures
        match find_from(text, pattern, from) {
            Some(at) => {
                &&& from <= at
                &&& occurs_at(text, pattern, at)
                &&& forall|j: int| from <= j < at ==> !occurs_at(text, pattern, j)
            },
            None => forall|j: int| from <= j ==> !occurs_at(text, pattern, j),
        },
    decreases text.len() + 1 - from,
{
    if from + pattern.len() <= text.len() && !occurs_at(text, pattern, from) {
        lemma_find_from(text, pattern, from + 1);
    }
}

/// A number written in decimal reads back as itself.
pub proof fn law_decimal_reads_back(value: nat)
    ensures
        decimal(value).len() > 0,
        all_digits(decimal(value), 10),
        digits_value(decimal(value), 10) == value,
        number(decimal(value), 10, value) == Some(value),
    decreases value,
{
    let text = decimal(value);
    if value < 10 {
        assert(text.drop_last() =~= Seq::empty());
        assert(digits_value(text.drop_last(), 10) == 0);
        assert(digit_value(text.last(), 10) == Some(value));
    } else {
        law_decimal_reads_back(value / 10);
        assert(text.drop_last() =~= decimal(value / 10));
        assert(digit_value(text.last(), 10) == Some(value % 10));
        assert forall|i: int| 0 <= i < text.len() implies digit_value(#[trigger] text[i], 10)
            is Some by {
            if i < text.len() - 1 {
                assert(text[i] == decimal(value / 10)[i]);
            }
        }
    }
}

/// Digits that follow do not make a number smaller.
proof fn lemma_digits_grow(text: Seq<char>, radix: nat, upto: int)
    requires
        1 <= radix,
        0 <= upto <= text.len(),
    ensures
        digits_value(text.take(upto), radix) <= digits_value(text, radix),
    decreases text.len(),
{
    if upto == text.len() {
        assert(text.take(upto) =~= text);
    } else {
        assert(text.drop_last().take(upto) =~= text.take(upto));
        lemma_digits_grow(text.drop_last(), radix, upto);
        assert(digits_value(text.drop_last(), radix) <= digits_value(text.drop_last(), radix)
            * radix) by (nonlinear_arith)
            requires
                1 <= radix,
                0 <= digits_value(text.drop_last(), radix),
        ;
    }
}

/// Trimming takes characters of the kind from an end, all of them that stand there, and
/// nothing else.
pub proof fn law_trim_takes_only_ends(text: Seq<char>, kind: CharKind)
    ensures
        ({
            let short = trim_end_kind(text, kind);
            &&& short.len() <= text.len()
            &&& short == text.take(short.len() as int)
            &&& forall|i: int| short.len() <= i < text.len() ==> of_kind(#[trigger] text[i], kind)
            &&& short.len() > 0 ==> !of_kind(short.last(), kind)
        }),
        ({
            let short = trim_start_kind(text, kind);
            &&& short.len() <= text.len()
            &&& short == text.skip(text.len() - short.len())
            &&& forall|i: int|
                0 <= i < text.len() - short.len() ==> of_kind(#[trigger] text[i], kind)
            &&& short.len() > 0 ==> !of_kind(short[0], kind)
        }),
    decreases text.len(),
{
    if text.len() > 0 && of_kind(text.last(), kind) {
        let head = text.drop_last();
        law_trim_takes_only_ends(head, kind);
        let short = trim_end_kind(text, kind);
        assert(text.take(short.len() as int) =~= head.take(short.len() as int));
        assert forall|i: int| short.len() <= i < text.len() implies of_kind(
            #[trigger] text[i],
            kind,
        ) by {
            if i < head.len() {
                assert(head[i] == text[i]);
            }
        }
    } else {
        assert(text.take(text.len() as int) =~= text);
    }
    if text.len() > 0 && of_kind(text.first(), kind) {
        let tail = text.drop_first();
        law_trim_takes_only_ends(tail, kind);
        let short = trim_start_kind(text, kind);
        assert(text.skip(text.len() - short.len()) =~= tail.skip(tail.len() - short.len()));
        assert forall|i: int| 0 <= i < text.len() - short.len() implies of_kind(
            #[trigger] text[i],
            kind,
        ) by {
            if i > 0 {
                assert(tail[i - 1] == text[i]);
            }
        }
    } else {
        assert(text.skip(0) =~= text);
    }
}

/// Nothing is left of a text without white space at its ends exactly where it is blank.
pub proof fn law_blank_trims_to_nothing(text: Seq<char>)
    ensures
        is_blank(text) <==> trim(text).len() == 0,
        trim(text).len() > 0 ==> !is_white_space(trim(text)[0]) && !is_white_space(
            trim(text).last(),
        ),
{
    let short = trim_start_kind(text, CharKind::White);
    law_trim_takes_only_ends(text, CharKind::White);
    law_trim_takes_only_ends(short, CharKind::White);
    let both = trim(text);
    if both.len() > 0 {
        assert(both[0] == short[0]);
        assert(short[0] == text[text.len() - short.len()]);
        assert(!of_kind(text[text.len() - short.len()], CharKind::White));
    } else {
        assert forall|i: int| 0 <= i < text.len() implies of_kind(
            #[trigger] text[i],
            CharKind::White,
        ) by {
            if i >= text.len() - short.len() {
                assert(short[i - (text.len() - short.len())] == text[i]);
            }
        }
    }
}

/// A text that neither begins nor ends with white space is what it is trimmed to, whatever
/// white space stands around it.
pub proof fn law_trim_restores_text(before: Seq<char>, text: Seq<char>, after: Seq<char>)
    requires
        is_blank(before),
        is_blank(after),
        text.len() > 0,
        !is_white_space(text[0]),
        !is_white_space(text.last()),
    ensures
        trim(before + text + after) == text,
{
    let whole = before + text + after;
    let rest = trim_start_kind(whole, CharKind::White);
    law_trim_takes_only_ends(whole, CharKind::White);
    let gone = whole.len() - rest.len();
    assert(gone == before.len()) by {
        if gone < before.len() {
            assert(rest[0] == whole[gone]);
            assert(whole[gone] == before[gone]);
            assert(of_kind(before[gone], CharKind::White));
        } else if gone > before.len() {
            assert(whole[before.len() as int] == text[0]);
        }
    }
    assert(rest =~= text + after);
    let short = trim_end_kind(rest, CharKind::White);
    law_trim_takes_only_ends(rest, CharKind::White);
    assert(short.len() == text.len()) by {
        if short.len() > text.len() {
            assert(short.last() == rest[short.len() - 1]);
            assert(rest[short.len() - 1] == after[short.len() - 1 - text.len()]);
            assert(of_kind(after[short.len() - 1 - text.len()], CharKind::White));
        } else if short.len() < text.len() {
            assert(rest[text.len() - 1] == text.last());
            assert(of_kind(rest[text.len() - 1], CharKind::White));
        }
    }
    assert(short =~= text);
}

/// Only ASCII letters count as the same in either case: a text is the same as another but for
/// case exactly where each of its characters is that of the other, or the small one of a
/// capital, or the capital of a small one.
pub proof fn law_case_is_that_of_ascii(a: Seq<char>, b: Seq<char>)
    ensures
        same_ignoring_case(a, b) <==> a.len() == b.len() && forall|i: int|
            0 <= i < a.len() ==> {
                ||| #[trigger] a[i] == b[i]
                ||| 'A' <= a[i] <= 'Z' && b[i] as int == a[i] as int + 32
                ||| 'A' <= b[i] <= 'Z' && a[i] as int == b[i] as int + 32
            },
        ascii_lower(ascii_lower(a)) == ascii_lower(a),
        same_ignoring_case(a, ascii_lower(a)),
{
    let x = ascii_lower(a);
    let y = ascii_lower(b);
    assert(ascii_lower(x) =~= x);
    assert forall|c: char, d: char| #[trigger]
        lower_char(c) == #[trigger] lower_char(d) implies (c == d || ('A' <= c <= 'Z' && d as int
        == c as int + 32) || ('A' <= d <= 'Z' && c as int == d as int + 32)) by {}
    if same_ignoring_case(a, b) {
        assert(x.len() == y.len());
        assert forall|i: int| 0 <= i < a.len() implies {
            ||| #[trigger] a[i] == b[i]
            ||| 'A' <= a[i] <= 'Z' && b[i] as int == a[i] as int + 32
            ||| 'A' <= b[i] <= 'Z' && a[i] as int == b[i] as int + 32
        } by {
            assert(x[i] == y[i]);
            assert(lower_char(a[i]) == lower_char(b[i]));
        }
    }
    if a.len() == b.len() && forall|i: int|
        0 <= i < a.len() ==> {
            ||| #[trigger] a[i] == b[i]
            ||| 'A' <= a[i] <= 'Z' && b[i] as int == a[i] as int + 32
            ||| 'A' <= b[i] <= 'Z' && a[i] as int == b[i] as int + 32
        } {
        assert forall|i: int| 0 <= i < a.len() implies x[i] == y[i] by {
            assert(a[i] == a[i]);
        }
        assert(x =~= y);
    }
}

/// A text that stands between two others stands in all three together.
pub proof fn lemma_has_between(before: Seq<char>, middle: Seq<char>, after: Seq<char>)
    ensures
        has_text(before + middle + after, middle),
{
    let text = before + middle + after;
    assert(text.subrange(before.len() as int, (before.len() + middle.len()) as int) =~= middle);
    assert(occurs_at(text, middle, before.len() as int));
}

/// Each text of a list stands in what they are joined to.
pub proof fn law_joined_texts_are_kept(parts: Seq<Seq<char>>, separator: Seq<char>, at: int)
    requires
        0 <= at < parts.len(),
    ensures
        has_text(join(parts, separator), parts[at]),
        parts.len() > 1 ==> join(parts, separator) == join(parts.drop_last(), separator) + separator
            + parts.last(),
        parts.len() == 1 ==> join(parts, separator) == parts[0],
    decreases parts.len(),
{
    let none = Seq::<char>::empty();
    if parts.len() == 1 {
        assert(none + parts[0] + none =~= parts[0]);
        lemma_has_between(none, parts[0], none);
    } else {
        let head = join(parts.drop_last(), separator);
        if at == parts.len() - 1 {
            assert(head + separator + parts[at] + none =~= join(parts, separator));
            lemma_has_between(head + separator, parts[at], none);
        } else {
            assert(parts.drop_last()[at] == parts[at]);
            law_joined_texts_are_kept(parts.drop_last(), separator, at);
            let p = choose|p: int| occurs_at(head, parts[at], p);
            let whole = join(parts, separator);
            assert(whole.subrange(p, p + parts[at].len()) =~= head.subrange(
                p,
                p + parts[at].len(),
            ));
            assert(occurs_at(whole, parts[at], p));
        }
    }
}

/// A text comes before another exactly where it is the beginning of it, or where the first
/// character in which they differ is the smaller one.
pub proof fn law_first_difference_decides(
    common: Seq<char>,
    a: char,
    b: char,
    x: Seq<char>,
    y: Seq<char>,
)
    ensures
        a != b ==> comes_before(common + seq![a] + x, common + seq![b] + y) == (a < b),
        comes_before(common, common + seq![a] + x),
        !comes_before(common + seq![a] + x, common),
        !comes_before(common, common),
    decreases common.len(),
{
    let left = common + seq![a] + x;
    let right = common + seq![b] + y;
    if common.len() == 0 {
        assert(left[0] == a && right[0] == b);
    } else {
        let rest = common.skip(1);
        assert(left[0] == common[0] && right[0] == common[0]);
        assert(left.skip(1) =~= rest + seq![a] + x);
        assert(right.skip(1) =~= rest + seq![b] + y);
        law_first_difference_decides(rest, a, b, x, y);
    }
}

/// A line ends with a line feed, with or without a carriage return before it, and neither is
/// part of it; what follows are the other lines, and a last line needs no end.
pub proof fn law_lines_are_split(line: Seq<char>, rest: Seq<char>)
    requires
        !line.contains('\n'),
        line.len() > 0 ==> line.last() != '\r',
    ensures
        lines(line + seq!['\n'] + rest) == seq![line] + lines(rest),
        lines(line + seq!['\r', '\n'] + rest) == seq![line] + lines(rest),
        line.len() > 0 ==> lines(line) == seq![line],
        lines(Seq::empty()) == Seq::<Seq<char>>::empty(),
{
    lemma_line_ends_at(line, rest, line + seq!['\n'] + rest, line.len() as int);
    lemma_line_ends_at(line, rest, line + seq!['\r', '\n'] + rest, line.len() as int + 1);
}

proof fn lemma_line_ends_at(line: Seq<char>, rest: Seq<char>, text: Seq<char>, at: int)
    requires
        !line.contains('\n'),
        line.len() > 0 ==> line.last() != '\r',
        (at == line.len() && text == line + seq!['\n'] + rest) || (at == line.len() + 1 && text
            == line + seq!['\r', '\n'] + rest),
    ensures
        lines(text) == seq![line] + lines(rest),
{
    assert(text[at] == '\n');
    assert(text.contains('\n'));
    text.index_of_first_ensures('\n');
    let found = text.index_of_first('\n').unwrap();
    assert(found == at) by {
        if found < at {
            if found < line.len() {
                assert(line[found] == text[found]);
                assert(line.contains('\n'));
            } else {
                assert(text[found] == '\r');
            }
        }
    }
    assert(text.subrange(at + 1, text.len() as int) =~= rest);
    if at == line.len() {
        assert(text.subrange(0, at) =~= line);
    } else {
        assert(text.subrange(0, at) =~= line.push('\r'));
        assert(line.push('\r').drop_last() =~= line);
    }
}

/// Replacing a character changes nothing else: what stands before and behind it stays where it
/// was.
pub proof fn law_other_characters_are_kept(
    before: Seq<char>,
    c: char,
    after: Seq<char>,
    from: char,
    with: Seq<char>,
)
    ensures
        replace_char(before + seq![c] + after, from, with) == replace_char(before, from, with) + (
        if c == from {
            with
        } else {
            seq![c]
        }) + replace_char(after, from, with),
        replace_char(Seq::empty(), from, with) == Seq::<char>::empty(),
    decreases after.len(),
{
    let all = before + seq![c] + after;
    let middle = if c == from {
        with
    } else {
        seq![c]
    };
    if after.len() == 0 {
        assert(all.drop_last() =~= before);
        assert(all.last() == c);
        assert(after =~= Seq::empty());
        assert(replace_char(all, from, with) =~= replace_char(before, from, with) + middle
            + replace_char(after, from, with));
    } else {
        let less = after.drop_last();
        law_other_characters_are_kept(before, c, less, from, with);
        assert(all.drop_last() =~= before + seq![c] + less);
        assert(all.last() == after.last());
        assert(replace_char(all, from, with) =~= replace_char(before, from, with) + middle
            + replace_char(after, from, with));
    }
}

/// A pattern is found where it stands first, and nowhere exactly where it does not stand.
pub proof fn law_first_place_counts(text: Seq<char>, pattern: Seq<char>, at: int)
    requires
        occurs_at(text, pattern, at),
    ensures
        match find(text, pattern) {
            Some(first) => 0 <= first <= at && text.subrange(
                first,
                first + pattern.len() as int,
            ) == pattern && forall|j: int| 0 <= j < first ==> !occurs_at(text, pattern, j),
            None => false,
        },
{
    lemma_find_from(text, pattern, 0);
}

/// Line ends at the end of a text are taken away, and only those.
pub proof fn law_last_line_ends_are_cut(text: Seq<char>)
    ensures
        trim_end_kind(text.push('\n'), CharKind::LineBreak) == trim_end_kind(
            text,
            CharKind::LineBreak,
        ),
        trim_end_kind(text.push('\r'), CharKind::LineBreak) == trim_end_kind(
            text,
            CharKind::LineBreak,
        ),
        text.len() > 0 && text.last() != '\n' && text.last() != '\r' ==> trim_end_kind(
            text,
            CharKind::LineBreak,
        ) == text,
{
    assert(text.push('\n').drop_last() =~= text);
    assert(text.push('\r').drop_last() =~= text);
}

} // verus!
