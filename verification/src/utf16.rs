//! UTF-16: encoding a text, decoding units with replacement of what is not UTF-16,
//! and units as bytes.

use vstd::prelude::*;

verus! {

/// The replacement for a unit that is no part of a character.
pub const REPLACEMENT: char = '\u{FFFD}';

/// The units of one character: one, or a pair of surrogates.
pub open spec fn char_units(c: char) -> Seq<u16> {
    let n = c as int;
    if n < 0x10000 {
        seq![n as u16]
    } else {
        seq![
            (0xD800 + (n - 0x10000) / 0x400) as u16,
            (0xDC00 + (n - 0x10000) % 0x400) as u16,
        ]
    }
}

/// The units of a text.
pub open spec fn encoded(s: Seq<char>) -> Seq<u16>
    decreases s.len(),
{
    if s.len() == 0 {
        Seq::empty()
    } else {
        encoded(s.drop_last()) + char_units(s.last())
    }
}

/// Whether `u` is the first unit of a pair.
pub open spec fn leads(u: u16) -> bool {
    0xD800 <= u < 0xDC00
}

/// Whether `u` is the second unit of a pair.
pub open spec fn trails(u: u16) -> bool {
    0xDC00 <= u < 0xE000
}

/// The character of a pair.
pub open spec fn pair_char(lead: u16, trail: u16) -> char {
    (0x10000 + (lead - 0xD800) * 0x400 + (trail - 0xDC00)) as char
}

/// The text that `units` stand for; each unit that is no part of a character stands
/// for [`REPLACEMENT`].
pub open spec fn decoded(units: Seq<u16>) -> Seq<char>
    decreases units.len(),
{
    if units.len() == 0 {
        Seq::empty()
    } else if leads(units[0]) && units.len() > 1 && trails(units[1]) {
        seq![pair_char(units[0], units[1])] + decoded(units.skip(2))
    } else if leads(units[0]) || trails(units[0]) {
        seq![REPLACEMENT] + decoded(units.skip(1))
    } else {
        seq![units[0] as char] + decoded(units.skip(1))
    }
}

/// Appends the units of one character.
fn push_char(units: &mut Vec<u16>, c: char)
    ensures
        final(units)@ == old(units)@ + char_units(c),
{
    let n: u32 = c as u32;
    if n < 0x10000 {
        units.push(n as u16);
    } else {
        units.push((0xD800 + (n - 0x10000) / 0x400) as u16);
        units.push((0xDC00 + (n - 0x10000) % 0x400) as u16);
    }
    assert(units@ =~= old(units)@ + char_units(c));
}

/// Encodes a text.
pub fn encode(s: &str) -> (units: Vec<u16>)
    ensures
        units@ == encoded(s@),
{
    let mut units: Vec<u16> = Vec::new();
    for c in it: s.chars()
        invariant
            it.seq() == s@,
            units@ == encoded(s@.take(it.index() as int)),
    {
        let ghost i = it.index() as int;
        assert(s@.take(i + 1).drop_last() =~= s@.take(i));
        assert(s@.take(i + 1).last() == c);
        push_char(&mut units, c);
    }
    assert(s@.take(s@.len() as int) =~= s@);
    units
}

/// `char::from_u32`: the character with this number. There is none for the surrogates
/// and above the last code point.
pub assume_specification[ char::from_u32 ](n: u32) -> (r: Option<char>)
    ensures
        r == (if n < 0xD800 || 0xE000 <= n <= 0x10FFFF {
            Some(n as char)
        } else {
            None
        }),
;

/// The character with number `n`.
fn char_of(n: u32) -> (r: char)
    requires
        n < 0xD800 || 0xE000 <= n <= 0x10FFFF,
    ensures
        r == n as char,
{
    match char::from_u32(n) {
        Some(c) => c,
        None => REPLACEMENT,
    }
}

/// Decodes units.
pub fn decode(units: &[u16]) -> (r: String)
    ensures
        r@ == decoded(units@),
{
    let mut r = String::new();
    let mut i: usize = 0;
    assert(units@.skip(0) =~= units@);
    while i < units.len()
        invariant
            i <= units@.len(),
            decoded(units@) == r@ + decoded(units@.skip(i as int)),
        decreases units@.len() - i,
    {
        let u: u16 = units[i];
        let ghost rest = units@.skip(i as int);
        assert(rest[0] == u);
        if u >= 0xD800 && u < 0xDC00 && i + 1 < units.len() && units[i + 1] >= 0xDC00 && units[i
            + 1] < 0xE000 {
            let trail: u16 = units[i + 1];
            let n: u32 = 0x10000 + (u as u32 - 0xD800) * 0x400 + (trail as u32 - 0xDC00);
            let ghost before = r@;
            r.push(char_of(n));
            assert(rest[1] == trail);
            assert(rest.skip(2) =~= units@.skip(i + 2));
            assert(r@ + decoded(units@.skip(i + 2)) =~= before + (seq![pair_char(u, trail)]
                + decoded(units@.skip(i + 2))));
            i = i + 2;
        } else if u >= 0xD800 && u < 0xE000 {
            let ghost before = r@;
            r.push(REPLACEMENT);
            assert(rest.len() > 1 ==> rest[1] == units@[i + 1]);
            assert(rest.skip(1) =~= units@.skip(i + 1));
            assert(r@ + decoded(units@.skip(i + 1)) =~= before + (seq![REPLACEMENT] + decoded(
                units@.skip(i + 1),
            )));
            i = i + 1;
        } else {
            let ghost before = r@;
            r.push(char_of(u as u32));
            assert(rest.skip(1) =~= units@.skip(i + 1));
            assert(r@ + decoded(units@.skip(i + 1)) =~= before + (seq![u as char] + decoded(
                units@.skip(i + 1),
            )));
            i = i + 1;
        }
    }
    assert(r@ + decoded(units@.skip(i as int)) =~= r@);
    r
}

// ---------------------------------------------------------------------------
// Bytes
// ---------------------------------------------------------------------------

/// The bytes of `units`, the low byte of each first.
pub open spec fn bytes_of(units: Seq<u16>) -> Seq<u8> {
    Seq::new(
        units.len() * 2,
        |i: int|
            if i % 2 == 0 {
                (units[i / 2] % 256) as u8
            } else {
                (units[i / 2] / 256) as u8
            },
    )
}

/// The units that `bytes` hold, the low byte of each first; an odd byte at the end is
/// left out.
pub open spec fn units_of(bytes: Seq<u8>) -> Seq<u16> {
    Seq::new(bytes.len() / 2, |i: int| (bytes[2 * i] + 256 * bytes[2 * i + 1]) as u16)
}

/// The bytes of `units`, the low byte of each first.
pub fn units_to_bytes(units: &[u16]) -> (r: Vec<u8>)
    ensures
        r@ == bytes_of(units@),
{
    let mut r: Vec<u8> = Vec::new();
    let mut i: usize = 0;
    while i < units.len()
        invariant
            i <= units@.len(),
            r@ == bytes_of(units@.take(i as int)),
        decreases units@.len() - i,
    {
        let u: u16 = units[i];
        r.push((u % 256) as u8);
        r.push((u / 256) as u8);
        i = i + 1;
        assert(r@ =~= bytes_of(units@.take(i as int)));
    }
    assert(units@.take(i as int) =~= units@);
    r
}

/// The units that `bytes` hold, the low byte of each first.
pub fn bytes_to_units(bytes: &[u8]) -> (r: Vec<u16>)
    ensures
        r@ == units_of(bytes@),
{
    let mut r: Vec<u16> = Vec::new();
    let count: usize = bytes.len() / 2;
    let mut i: usize = 0;
    while i < count
        invariant
            i <= count,
            count == bytes@.len() / 2,
            r@ == units_of(bytes@).take(i as int),
        decreases count - i,
    {
        let length: usize = bytes.len();
        assert(length == bytes@.len());
        r.push(bytes[2 * i] as u16 + 256 * (bytes[2 * i + 1] as u16));
        i = i + 1;
        assert(r@ =~= units_of(bytes@).take(i as int));
    }
    assert(units_of(bytes@).take(i as int) =~= units_of(bytes@));
    r
}

/// The units of a text with a zero after them.
pub fn to_wide_units(s: &str) -> (r: Vec<u16>)
    ensures
        r@ == encoded(s@).push(0),
{
    let mut r = encode(s);
    r.push(0);
    r
}

// ---------------------------------------------------------------------------
// Laws
// ---------------------------------------------------------------------------

/// Units written as bytes are read back.
pub proof fn law_bytes_roundtrip(units: Seq<u16>)
    ensures
        units_of(bytes_of(units)) == units,
{
    let bytes = bytes_of(units);
    assert forall|i: int| 0 <= i < units.len() implies units_of(bytes)[i] == units[i] by {
        assert((2 * i) / 2 == i && (2 * i) % 2 == 0);
        assert((2 * i + 1) / 2 == i && (2 * i + 1) % 2 == 1);
        assert(bytes[2 * i] == (units[i] % 256) as u8);
        assert(bytes[2 * i + 1] == (units[i] / 256) as u8);
    }
    assert(units_of(bytes) =~= units);
}

/// An encoded text is decoded to what it was.
pub proof fn law_text_roundtrip(s: Seq<char>)
    ensures
        decoded(encoded(s)) == s,
{
    lemma_decode_encoded(s, Seq::empty());
    assert(encoded(s) + Seq::<u16>::empty() =~= encoded(s));
    assert(s + Seq::<char>::empty() =~= s);
}

/// Decoding the units of a text and what follows them gives the text first.
proof fn lemma_decode_encoded(s: Seq<char>, rest: Seq<u16>)
    ensures
        decoded(encoded(s) + rest) == s + decoded(rest),
    decreases s.len(),
{
    if s.len() == 0 {
        assert(encoded(s) + rest =~= rest);
        assert(s + decoded(rest) =~= decoded(rest));
    } else {
        let c = s.last();
        let tail = char_units(c) + rest;
        assert(encoded(s) + rest =~= encoded(s.drop_last()) + tail);
        lemma_decode_encoded(s.drop_last(), tail);
        lemma_decode_char(c, rest);
        assert(s.drop_last() + (seq![c] + decoded(rest)) =~= s + decoded(rest));
    }
}

/// Decoding the units of a character and what follows them gives the character first.
proof fn lemma_decode_char(c: char, rest: Seq<u16>)
    ensures
        decoded(char_units(c) + rest) == seq![c] + decoded(rest),
{
    let units = char_units(c);
    let all = units + rest;
    let n = c as int;
    if n < 0x10000 {
        assert(all.skip(1) =~= rest);
        assert(all[0] == n as u16);
        assert(!leads(all[0]) && !trails(all[0]));
    } else {
        let high = (n - 0x10000) / 0x400;
        let low = (n - 0x10000) % 0x400;
        assert(all[0] == (0xD800 + high) as u16);
        assert(all[1] == (0xDC00 + low) as u16);
        assert(all.skip(2) =~= rest);
        assert(leads(all[0]) && trails(all[1]));
        assert(pair_char(all[0], all[1]) == c);
    }
}

/// A character below U+10000 is its own unit; another is a leading and a trailing unit,
/// which carry ten bits each of what it has above U+10000.
pub proof fn law_units_of_a_character(c: char)
    ensures
        (c as int) < 0x10000 ==> char_units(c) == seq![c as u16],
        (c as int) >= 0x10000 ==> {
            let units = char_units(c);
            &&& units.len() == 2
            &&& 0xD800 <= units[0] < 0xDC00
            &&& 0xDC00 <= units[1] < 0xE000
            &&& c as int == 0x10000 + 0x400 * (units[0] - 0xD800) + (units[1] - 0xDC00)
        },
{
}

/// A text is encoded character by character.
pub proof fn law_encoding_goes_by_characters(a: Seq<char>, c: char)
    ensures
        encoded(Seq::empty()).len() == 0,
        encoded(a.push(c)) == encoded(a) + char_units(c),
{
    assert(a.push(c).drop_last() =~= a);
}

/// A unit that is no half of a pair is decoded to its own character; half a pair without
/// the other half to the replacement character, and what follows is not affected.
pub proof fn law_lone_halves_are_replaced(unit: u16, rest: Seq<u16>)
    ensures
        decoded(Seq::empty()).len() == 0,
        !(0xD800 <= unit < 0xE000) ==> decoded(seq![unit] + rest) == seq![unit as char] + decoded(
            rest,
        ),
        0xDC00 <= unit < 0xE000 ==> decoded(seq![unit] + rest) == seq!['\u{FFFD}'] + decoded(rest),
        0xD800 <= unit < 0xDC00 && (rest.len() == 0 || !(0xDC00 <= rest[0] < 0xE000)) ==> decoded(
            seq![unit] + rest,
        ) == seq!['\u{FFFD}'] + decoded(rest),
{
    let all = seq![unit] + rest;
    assert(all.skip(1) =~= rest);
    assert(all[0] == unit);
    if rest.len() > 0 {
        assert(all[1] == rest[0]);
    }
}

/// The low byte of a unit comes first.
pub proof fn law_low_byte_first(units: Seq<u16>, i: int)
    requires
        0 <= i < units.len(),
    ensures
        bytes_of(units).len() == 2 * units.len(),
        bytes_of(units)[2 * i] + 256 * bytes_of(units)[2 * i + 1] == units[i],
{
    assert((2 * i) % 2 == 0 && (2 * i) / 2 == i);
    assert((2 * i + 1) % 2 == 1 && (2 * i + 1) / 2 == i);
}

/// Bytes are read in pairs, the low one first, and an odd one at the end is left out.
pub proof fn law_bytes_are_read_in_pairs(bytes: Seq<u8>, i: int)
    requires
        0 <= 2 * i,
        2 * i + 1 < bytes.len(),
    ensures
        units_of(bytes).len() == bytes.len() / 2,
        units_of(bytes)[i] == bytes[2 * i] + 256 * bytes[2 * i + 1],
{
}

} // verus!
