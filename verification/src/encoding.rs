//! How the bytes of a metadata file are read: by their byte order mark.

use vstd::prelude::*;
use vstd::utf8::{
    char_is_scalar, char_u32_cast, codepoint_width_3, decode_utf8, encode_utf8,
    encode_utf8_decode_utf8, encode_utf8_first_scalar, encode_utf8_valid_utf8, valid_utf8,
};

verus! {

/// `char::from_u32` gives the character of a code point, and nothing for a number that is a
/// surrogate or above the last code point.
pub assume_specification[ char::from_u32 ](i: u32) -> (found: Option<char>)
    ensures
        found == if i < 0xD800 || 0xE000 <= i <= 0x10FFFF {
            Some(i as char)
        } else {
            None
        },
;

/// Whether a unit of UTF-16 is the first of a pair.
pub open spec fn is_high(unit: u16) -> bool {
    0xD800 <= unit < 0xDC00
}

/// Whether a unit of UTF-16 is the second of a pair.
pub open spec fn is_low(unit: u16) -> bool {
    0xDC00 <= unit < 0xE000
}

/// The code point of a pair of UTF-16.
pub open spec fn paired(high: u16, low: u16) -> int {
    0x10000 + (high - 0xD800) * 0x400 + (low - 0xDC00)
}

/// The text that units encode in UTF-16; nothing where a unit of a pair stands alone.
pub open spec fn utf16(units: Seq<u16>) -> Option<Seq<char>>
    decreases units.len(),
{
    if units.len() == 0 {
        Some(Seq::empty())
    } else if is_high(units[0]) {
        if units.len() >= 2 && is_low(units[1]) {
            match utf16(units.skip(2)) {
                Some(rest) => Some(seq![paired(units[0], units[1]) as char] + rest),
                None => None,
            }
        } else {
            None
        }
    } else if is_low(units[0]) {
        None
    } else {
        match utf16(units.skip(1)) {
            Some(rest) => Some(seq![units[0] as char] + rest),
            None => None,
        }
    }
}

/// A text before what is left of it.
pub open spec fn before_rest(text: Seq<char>, rest: Option<Seq<char>>) -> Option<Seq<char>> {
    match rest {
        Some(rest) => Some(text + rest),
        None => None,
    }
}

/// The text that units encode in UTF-16.
pub fn utf16_text(units: &Vec<u16>) -> (text: Option<String>)
    ensures
        match text {
            Some(text) => utf16(units@) == Some(text@),
            None => utf16(units@) is None,
        },
{
    let mut text = String::new();
    let mut i: usize = 0;
    assert(units@.skip(0) =~= units@);
    assert(utf16(units@) == before_rest(text@, utf16(units@.skip(i as int)))) by {
        if utf16(units@) is Some {
            assert(text@ + utf16(units@)->0 =~= utf16(units@)->0);
        }
    }
    while i < units.len()
        invariant
            i <= units.len(),
            utf16(units@) == before_rest(text@, utf16(units@.skip(i as int))),
        decreases units.len() - i,
    {
        let ghost left = units@.skip(i as int);
        let ghost before = text@;
        let unit: u16 = units[i];
        assert(left[0] == unit);
        if 0xD800 <= unit && unit < 0xDC00 {
            if i + 1 >= units.len() {
                return None;
            }
            let second: u16 = units[i + 1];
            assert(left[1] == second);
            if second < 0xDC00 || second >= 0xE000 {
                return None;
            }
            let point: u32 = 0x10000 + (unit as u32 - 0xD800) * 0x400 + (second as u32 - 0xDC00);
            assert(left.skip(2) =~= units@.skip(i + 2));
            match char::from_u32(point) {
                Some(c) => {
                    assert(c == paired(unit, second) as char);
                    text.push(c);
                    proof {
                        let rest = utf16(units@.skip(i + 2));
                        if rest is Some {
                            assert(before + (seq![c] + rest->0) =~= text@ + rest->0);
                        }
                    }
                },
                None => {
                    return None;
                },
            }
            i += 2;
        } else {
            assert(left.skip(1) =~= units@.skip(i + 1));
            match char::from_u32(unit as u32) {
                Some(c) => {
                    assert(c == unit as char);
                    text.push(c);
                    proof {
                        let rest = utf16(units@.skip(i + 1));
                        if rest is Some {
                            assert(before + (seq![c] + rest->0) =~= text@ + rest->0);
                        }
                    }
                },
                None => {
                    return None;
                },
            }
            i += 1;
        }
    }
    assert(units@.skip(i as int) =~= Seq::empty());
    assert(text@ + Seq::<char>::empty() =~= text@);
    Some(text)
}

/// The units that pairs of bytes make.
pub open spec fn units_of(bytes: Seq<u8>, big_endian: bool) -> Seq<u16> {
    Seq::new(
        bytes.len() / 2,
        |i: int|
            if big_endian {
                (bytes[2 * i] * 256 + bytes[2 * i + 1]) as u16
            } else {
                (bytes[2 * i] + bytes[2 * i + 1] * 256) as u16
            },
    )
}

/// The units that pairs of bytes behind `from` make.
fn read_units(bytes: &Vec<u8>, from: usize, big_endian: bool) -> (units: Vec<u16>)
    requires
        from <= bytes.len(),
        (bytes.len() - from) % 2 == 0,
    ensures
        units@ == units_of(bytes@.skip(from as int), big_endian),
{
    let ghost rest = bytes@.skip(from as int);
    let mut units: Vec<u16> = Vec::new();
    let mut i: usize = from;
    while i < bytes.len()
        invariant
            rest == bytes@.skip(from as int),
            from <= i <= bytes.len(),
            (bytes.len() - from) % 2 == 0,
            i - from == 2 * units.len(),
            units@ == units_of(rest, big_endian).take(units.len() as int),
        decreases bytes.len() - i,
    {
        let first: u16 = bytes[i] as u16;
        let second: u16 = bytes[i + 1] as u16;
        let ghost k = units.len() as int;
        assert(rest[2 * k] == bytes@[i as int]);
        assert(rest[2 * k + 1] == bytes@[i + 1]);
        let unit: u16 = if big_endian {
            first * 256 + second
        } else {
            first + second * 256
        };
        assert(unit == units_of(rest, big_endian)[k]);
        units.push(unit);
        assert(units@ =~= units_of(rest, big_endian).take(k + 1));
        i += 2;
    }
    assert(units@ =~= units_of(rest, big_endian));
    units
}

/// The JSON of a metadata file, to be parsed as bytes or as a text.
#[derive(Clone, Debug, PartialEq, Eq)]
pub enum MountJson {
    Utf8(Vec<u8>),
    Utf16Le(String),
    Utf16Be(String),
}

impl MountJson {
    /// What is said of JSON that cannot be parsed.
    pub fn invalid(&self) -> (text: &'static str)
        ensures
            text@ == match self {
                MountJson::Utf8(_) => "invalid UTF-8 JSON"@,
                MountJson::Utf16Le(_) => "invalid UTF-16LE JSON"@,
                MountJson::Utf16Be(_) => "invalid UTF-16BE JSON"@,
            },
    {
        match self {
            MountJson::Utf8(_) => "invalid UTF-8 JSON",
            MountJson::Utf16Le(_) => "invalid UTF-16LE JSON",
            MountJson::Utf16Be(_) => "invalid UTF-16BE JSON",
        }
    }
}

/// Why a metadata file cannot be read.
#[derive(Clone, Copy, Debug, PartialEq, Eq, Structural)]
pub enum MountJsonError {
    LittleEndianLength,
    LittleEndianText,
    BigEndianLength,
    BigEndianText,
}

impl MountJsonError {
    /// What is said of a metadata file that cannot be read.
    pub fn message(self) -> (text: &'static str)
        ensures
            text@ == match self {
                MountJsonError::LittleEndianLength => "invalid UTF-16LE JSON length"@,
                MountJsonError::LittleEndianText => {
                    "invalid UTF-16LE JSON: invalid utf-16: lone surrogate found"@
                },
                MountJsonError::BigEndianLength => "invalid UTF-16BE JSON length"@,
                MountJsonError::BigEndianText => {
                    "invalid UTF-16BE JSON: invalid utf-16: lone surrogate found"@
                },
            },
    {
        match self {
            MountJsonError::LittleEndianLength => "invalid UTF-16LE JSON length",
            MountJsonError::LittleEndianText => {
                "invalid UTF-16LE JSON: invalid utf-16: lone surrogate found"
            },
            MountJsonError::BigEndianLength => "invalid UTF-16BE JSON length",
            MountJsonError::BigEndianText => {
                "invalid UTF-16BE JSON: invalid utf-16: lone surrogate found"
            },
        }
    }
}

/// The JSON of a metadata file, by what it holds.
#[verifier::ext_equal]
pub enum MountJsonView {
    Utf8(Seq<u8>),
    Utf16Le(Seq<char>),
    Utf16Be(Seq<char>),
}

impl View for MountJson {
    type V = MountJsonView;

    open spec fn view(&self) -> MountJsonView {
        match self {
            MountJson::Utf8(bytes) => MountJsonView::Utf8(bytes@),
            MountJson::Utf16Le(text) => MountJsonView::Utf16Le(text@),
            MountJson::Utf16Be(text) => MountJsonView::Utf16Be(text@),
        }
    }
}

/// How the bytes of a metadata file are read: behind the mark of UTF-8 or without a mark
/// they are UTF-8, and behind a mark of UTF-16 they are units in the order it tells.
pub open spec fn mount_json(bytes: Seq<u8>) -> Result<MountJsonView, MountJsonError> {
    if bytes.len() >= 3 && bytes[0] == 0xEF && bytes[1] == 0xBB && bytes[2] == 0xBF {
        Ok(MountJsonView::Utf8(bytes.skip(3)))
    } else if bytes.len() >= 2 && bytes[0] == 0xFF && bytes[1] == 0xFE {
        if bytes.len() % 2 != 0 {
            Err(MountJsonError::LittleEndianLength)
        } else {
            match utf16(units_of(bytes.skip(2), false)) {
                Some(text) => Ok(MountJsonView::Utf16Le(text)),
                None => Err(MountJsonError::LittleEndianText),
            }
        }
    } else if bytes.len() >= 2 && bytes[0] == 0xFE && bytes[1] == 0xFF {
        if bytes.len() % 2 != 0 {
            Err(MountJsonError::BigEndianLength)
        } else {
            match utf16(units_of(bytes.skip(2), true)) {
                Some(text) => Ok(MountJsonView::Utf16Be(text)),
                None => Err(MountJsonError::BigEndianText),
            }
        }
    } else {
        Ok(MountJsonView::Utf8(bytes))
    }
}

/// The bytes behind a position.
fn bytes_behind(bytes: &Vec<u8>, from: usize) -> (rest: Vec<u8>)
    requires
        from <= bytes.len(),
    ensures
        rest@ == bytes@.skip(from as int),
{
    let mut rest: Vec<u8> = Vec::new();
    let mut i: usize = from;
    while i < bytes.len()
        invariant
            from <= i <= bytes.len(),
            rest@ == bytes@.subrange(from as int, i as int),
        decreases bytes.len() - i,
    {
        rest.push(bytes[i]);
        i += 1;
    }
    assert(rest@ =~= bytes@.skip(from as int));
    rest
}

/// How the bytes of a metadata file are read.
pub fn decode_mount_json(bytes: &Vec<u8>) -> (json: Result<MountJson, MountJsonError>)
    ensures
        match json {
            Ok(json) => mount_json(bytes@) == Ok::<MountJsonView, MountJsonError>(json@),
            Err(error) => mount_json(bytes@) == Err::<MountJsonView, MountJsonError>(error),
        },
{
    let length: usize = bytes.len();
    if length >= 3 && bytes[0] == 0xEF && bytes[1] == 0xBB && bytes[2] == 0xBF {
        return Ok(MountJson::Utf8(bytes_behind(bytes, 3)));
    }
    if length >= 2 && bytes[0] == 0xFF && bytes[1] == 0xFE {
        if length % 2 != 0 {
            return Err(MountJsonError::LittleEndianLength);
        }
        return match utf16_text(&read_units(bytes, 2, false)) {
            Some(text) => Ok(MountJson::Utf16Le(text)),
            None => Err(MountJsonError::LittleEndianText),
        };
    }
    if length >= 2 && bytes[0] == 0xFE && bytes[1] == 0xFF {
        if length % 2 != 0 {
            return Err(MountJsonError::BigEndianLength);
        }
        return match utf16_text(&read_units(bytes, 2, true)) {
            Some(text) => Ok(MountJson::Utf16Be(text)),
            None => Err(MountJsonError::BigEndianText),
        };
    }
    let rest = bytes_behind(bytes, 0);
    assert(rest@ =~= bytes@);
    Ok(MountJson::Utf8(rest))
}

/// The units that encode a character in UTF-16: one, or a pair.
pub open spec fn char_units(c: char) -> Seq<u16> {
    let point = c as int;
    if point < 0x10000 {
        seq![point as u16]
    } else {
        seq![
            (0xD800 + (point - 0x10000) / 0x400) as u16,
            (0xDC00 + (point - 0x10000) % 0x400) as u16,
        ]
    }
}

/// The units that encode a text in UTF-16.
pub open spec fn encode_utf16(text: Seq<char>) -> Seq<u16>
    decreases text.len(),
{
    if text.len() == 0 {
        Seq::empty()
    } else {
        char_units(text[0]) + encode_utf16(text.skip(1))
    }
}

/// The bytes of units, either the high or the low half of each first.
pub open spec fn unit_bytes(units: Seq<u16>, big_endian: bool) -> Seq<u8> {
    Seq::new(
        2 * units.len(),
        |i: int|
            if big_endian == (i % 2 == 0) {
                (units[i / 2] / 256) as u8
            } else {
                (units[i / 2] % 256) as u8
            },
    )
}

proof fn lemma_utf16_reads_back(text: Seq<char>)
    ensures
        utf16(encode_utf16(text)) == Some(text),
    decreases text.len(),
{
    if text.len() == 0 {
        assert(text =~= Seq::empty());
    } else {
        let c = text[0];
        let rest = text.skip(1);
        let units = encode_utf16(text);
        let first = char_units(c);
        lemma_utf16_reads_back(rest);
        char_is_scalar(c);
        char_u32_cast(c, c as u32);
        assert(units[0] == first[0]);
        assert(seq![c] + rest =~= text);
        if (c as int) < 0x10000 {
            assert(!is_high(units[0]) && !is_low(units[0]));
            assert(units.skip(1) =~= encode_utf16(rest));
            assert(units[0] as char == c);
        } else {
            assert(units[1] == first[1]);
            assert(is_high(units[0]) && is_low(units[1]));
            assert(units.skip(2) =~= encode_utf16(rest));
            assert(paired(units[0], units[1]) == c as int);
        }
    }
}

proof fn lemma_units_read_back(units: Seq<u16>, big_endian: bool)
    ensures
        units_of(unit_bytes(units, big_endian), big_endian) == units,
{
    let bytes = unit_bytes(units, big_endian);
    let read = units_of(bytes, big_endian);
    assert forall|i: int| 0 <= i < units.len() implies #[trigger] read[i] == units[i] by {
        assert((2 * i) / 2 == i && (2 * i) % 2 == 0);
        assert((2 * i + 1) / 2 == i && (2 * i + 1) % 2 == 1);
    }
    assert(read =~= units);
}

proof fn lemma_no_mark_in_utf8(text: Seq<char>)
    requires
        text.len() > 0 ==> text[0] != '\u{feff}',
    ensures
        ({
            let bytes = encode_utf8(text);
            &&& !(bytes.len() >= 3 && bytes[0] == 0xEF && bytes[1] == 0xBB && bytes[2] == 0xBF)
            &&& bytes.len() > 0 ==> bytes[0] != 0xFE && bytes[0] != 0xFF
        }),
{
    let bytes = encode_utf8(text);
    if text.len() > 0 {
        encode_utf8_first_scalar(text);
        if bytes.len() >= 3 && bytes[0] == 0xEF && bytes[1] == 0xBB && bytes[2] == 0xBF {
            assert(codepoint_width_3(0xEF, 0xBB, 0xBF) == 0xFEFFu32) by (bit_vector);
            char_u32_cast(text[0], 0xFEFF);
            char_u32_cast('\u{feff}', 0xFEFF);
        }
    }
}

/// However the JSON of a metadata file is encoded, it reads alike: a text in UTF-8 with or
/// without its mark gives the bytes of that text in UTF-8, and in UTF-16 behind either mark
/// the text itself.
pub proof fn law_encodings_read_alike(text: Seq<char>)
    requires
        text.len() > 0 ==> text[0] != '\u{feff}',
    ensures
        mount_json(encode_utf8(text)) == Ok::<MountJsonView, MountJsonError>(
            MountJsonView::Utf8(encode_utf8(text)),
        ),
        mount_json(seq![0xEFu8, 0xBB, 0xBF] + encode_utf8(text)) == Ok::<
            MountJsonView,
            MountJsonError,
        >(MountJsonView::Utf8(encode_utf8(text))),
        mount_json(seq![0xFFu8, 0xFE] + unit_bytes(encode_utf16(text), false)) == Ok::<
            MountJsonView,
            MountJsonError,
        >(MountJsonView::Utf16Le(text)),
        mount_json(seq![0xFEu8, 0xFF] + unit_bytes(encode_utf16(text), true)) == Ok::<
            MountJsonView,
            MountJsonError,
        >(MountJsonView::Utf16Be(text)),
        valid_utf8(encode_utf8(text)),
        decode_utf8(encode_utf8(text)) == text,
{
    let plain = encode_utf8(text);
    let units = encode_utf16(text);
    lemma_no_mark_in_utf8(text);
    encode_utf8_valid_utf8(text);
    encode_utf8_decode_utf8(text);
    lemma_utf16_reads_back(text);
    lemma_units_read_back(units, false);
    lemma_units_read_back(units, true);
    assert((seq![0xEFu8, 0xBB, 0xBF] + plain).skip(3) =~= plain);
    let little = seq![0xFFu8, 0xFE] + unit_bytes(units, false);
    let big = seq![0xFEu8, 0xFF] + unit_bytes(units, true);
    assert(little.skip(2) =~= unit_bytes(units, false));
    assert(big.skip(2) =~= unit_bytes(units, true));
    assert(little[0] == 0xFF && little[1] == 0xFE);
    assert(big[0] == 0xFE && big[1] == 0xFF);
}

/// Half a unit behind a mark of UTF-16 is refused.
pub proof fn law_half_units_are_refused(rest: Seq<u8>)
    requires
        rest.len() % 2 == 1,
    ensures
        mount_json(seq![0xFFu8, 0xFE] + rest) == Err::<MountJsonView, MountJsonError>(
            MountJsonError::LittleEndianLength,
        ),
        mount_json(seq![0xFEu8, 0xFF] + rest) == Err::<MountJsonView, MountJsonError>(
            MountJsonError::BigEndianLength,
        ),
{
    let little = seq![0xFFu8, 0xFE] + rest;
    let big = seq![0xFEu8, 0xFF] + rest;
    assert(little[0] == 0xFF && little[1] == 0xFE);
    assert(big[0] == 0xFE && big[1] == 0xFF);
}

/// A unit of a pair that stands alone makes the text behind a mark of UTF-16 unreadable,
/// whatever stands before it that can be read, and whatever follows it.
pub proof fn law_lone_units_are_refused(text: Seq<char>, unit: u16, rest: Seq<u16>)
    requires
        0xD800 <= unit < 0xE000,
        unit < 0xDC00 ==> rest.len() == 0 || !(0xDC00 <= rest[0] < 0xE000),
    ensures
        utf16(encode_utf16(text) + (seq![unit] + rest)) is None,
    decreases text.len(),
{
    if text.len() == 0 {
        let units = encode_utf16(text) + (seq![unit] + rest);
        assert(units =~= seq![unit] + rest);
        if rest.len() > 0 {
            assert(units[1] == rest[0]);
        }
    } else {
        law_lone_units_are_refused(text.skip(1), unit, rest);
        let first = char_units(text[0]);
        let left = encode_utf16(text.skip(1)) + (seq![unit] + rest);
        let units = encode_utf16(text) + (seq![unit] + rest);
        assert(units =~= first + left);
        assert(units.skip(first.len() as int) =~= left);
        char_is_scalar(text[0]);
        char_u32_cast(text[0], text[0] as u32);
        assert(units[0] == first[0]);
        if (text[0] as int) < 0x10000 {
            assert(!is_high(units[0]) && !is_low(units[0]));
        } else {
            assert(units[1] == first[1]);
            assert(is_high(units[0]) && is_low(units[1]));
        }
    }
}

} // verus!
