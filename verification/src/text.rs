//! Character-level helpers: lowercase hex formatting and comparisons with
//! string slices.

use vstd::prelude::*;

verus! {

/// The lowercase hex digit for a value below 16.
pub open spec fn hex_digit(n: int) -> char {
    if n < 10 {
        (48 + n) as char
    } else {
        (87 + n) as char
    }
}

/// The two lowercase hex digits of a byte (`{:02x}`).
pub open spec fn hex_byte(b: u8) -> Seq<char> {
    seq![hex_digit(b as int / 16), hex_digit(b as int % 16)]
}

/// Lowercase hex of each byte in order.
pub open spec fn hex_bytes(s: Seq<u8>) -> Seq<char>
    decreases s.len(),
{
    if s.len() == 0 {
        Seq::empty()
    } else {
        hex_bytes(s.drop_last()) + hex_byte(s.last())
    }
}

pub fn hex_digit_exec(n: u8) -> (c: char)
    requires
        n < 16,
    ensures
        c == hex_digit(n as int),
{
    if n < 10 {
        (48 + n) as char
    } else {
        (87 + n) as char
    }
}

/// Appends the lowercase hex of `bytes[from..to]` to `out`.
pub fn push_hex(out: &mut Vec<char>, bytes: &[u8], from: usize, to: usize)
    requires
        from <= to <= bytes@.len(),
    ensures
        final(out)@ == old(out)@ + hex_bytes(bytes@.subrange(from as int, to as int)),
{
    let ghost start = out@;
    let mut i = from;
    assert(bytes@.subrange(from as int, from as int) =~= Seq::<u8>::empty());
    assert(start + hex_bytes(Seq::<u8>::empty()) =~= start);
    while i < to
        invariant
            from <= i <= to <= bytes@.len(),
            out@ == start + hex_bytes(bytes@.subrange(from as int, i as int)),
        decreases to - i,
    {
        let b = bytes[i];
        out.push(hex_digit_exec(b / 16));
        out.push(hex_digit_exec(b % 16));
        proof {
            let s = bytes@.subrange(from as int, i + 1);
            assert(s.drop_last() =~= bytes@.subrange(from as int, i as int));
            assert(s.last() == b);
        }
        i = i + 1;
        assert(out@ =~= start + hex_bytes(bytes@.subrange(from as int, i as int)));
    }
}

/// Whether the characters `a` spell out the string slice `s`.
pub fn chars_eq_str(a: &[char], s: &str) -> (eq: bool)
    ensures
        eq == (a@ == s@),
{
    let n = s.unicode_len();
    if a.len() != n {
        return false;
    }
    let mut i: usize = 0;
    while i < n
        invariant
            i <= n,
            n == s@.len(),
            a@.len() == n,
            forall|j: int| 0 <= j < i ==> a@[j] == s@[j],
        decreases n - i,
    {
        if a[i] != s.get_char(i) {
            return false;
        }
        i = i + 1;
    }
    assert(a@ =~= s@);
    true
}

/// Whether two string slices hold the same characters.
pub fn str_eq(a: &str, b: &str) -> (eq: bool)
    ensures
        eq == (a@ == b@),
{
    let n = a.unicode_len();
    if b.unicode_len() != n {
        return false;
    }
    let mut i: usize = 0;
    while i < n
        invariant
            i <= n,
            n == a@.len(),
            b@.len() == n,
            forall|j: int| 0 <= j < i ==> a@[j] == b@[j],
        decreases n - i,
    {
        if a.get_char(i) != b.get_char(i) {
            return false;
        }
        i = i + 1;
    }
    assert(a@ =~= b@);
    true
}

/// `String: FromIterator<char>`: the string of the given characters.
#[verifier::external_body]
pub(crate) fn string_from_chars(chars: &[char]) -> (s: String)
    ensures
        s@ == chars@,
{
    chars.iter().collect()
}

/// The UTF-16 code units of one character.
pub open spec fn utf16_of_char(c: char) -> Seq<u16> {
    let v = c as u32;
    if v < 0x1_0000 {
        seq![v as u16]
    } else {
        seq![(0xD800 + (v - 0x1_0000) / 0x400) as u16, (0xDC00 + (v - 0x1_0000) % 0x400) as u16]
    }
}

/// The UTF-16 encoding of a character sequence (`str::encode_utf16`).
pub open spec fn utf16_units(chars: Seq<char>) -> Seq<u16>
    decreases chars.len(),
{
    if chars.len() == 0 {
        Seq::empty()
    } else {
        utf16_units(chars.drop_last()) + utf16_of_char(chars.last())
    }
}

/// The little-endian bytes of a sequence of UTF-16 code units.
pub open spec fn utf16_le_bytes(units: Seq<u16>) -> Seq<u8>
    decreases units.len(),
{
    if units.len() == 0 {
        Seq::empty()
    } else {
        utf16_le_bytes(units.drop_last()) + seq![
            (units.last() % 0x100) as u8,
            (units.last() / 0x100) as u8,
        ]
    }
}

/// The characters of a string slice.
pub fn str_chars(s: &str) -> (chars: Vec<char>)
    ensures
        chars@ == s@,
{
    let n = s.unicode_len();
    let mut out: Vec<char> = Vec::new();
    let mut i: usize = 0;
    while i < n
        invariant
            i <= n,
            n == s@.len(),
            out@ == s@.subrange(0, i as int),
        decreases n - i,
    {
        out.push(s.get_char(i));
        i = i + 1;
        assert(out@ =~= s@.subrange(0, i as int));
    }
    assert(s@.subrange(0, n as int) =~= s@);
    out
}

/// Encodes characters as UTF-16 code units.
pub fn encode_utf16(chars: &[char]) -> (units: Vec<u16>)
    ensures
        units@ == utf16_units(chars@),
{
    let mut out: Vec<u16> = Vec::new();
    let mut i: usize = 0;
    while i < chars.len()
        invariant
            i <= chars@.len(),
            out@ == utf16_units(chars@.subrange(0, i as int)),
        decreases chars@.len() - i,
    {
        let c = chars[i];
        let v = c as u32;
        if v < 0x1_0000 {
            out.push(v as u16);
        } else {
            out.push((0xD800 + (v - 0x1_0000) / 0x400) as u16);
            out.push((0xDC00 + (v - 0x1_0000) % 0x400) as u16);
        }
        proof {
            let pre = chars@.subrange(0, i + 1);
            assert(pre.drop_last() =~= chars@.subrange(0, i as int));
            assert(pre.last() == c);
        }
        i = i + 1;
        assert(out@ =~= utf16_units(chars@.subrange(0, i as int)));
    }
    assert(chars@.subrange(0, chars@.len() as int) =~= chars@);
    out
}

/// Appends the little-endian bytes of UTF-16 code units to `out`.
pub fn push_utf16_le(out: &mut Vec<u8>, units: &[u16])
    ensures
        final(out)@ == old(out)@ + utf16_le_bytes(units@),
{
    let ghost start = out@;
    let mut i: usize = 0;
    while i < units.len()
        invariant
            i <= units@.len(),
            out@ == start + utf16_le_bytes(units@.subrange(0, i as int)),
        decreases units@.len() - i,
    {
        let u = units[i];
        out.push((u % 0x100) as u8);
        out.push((u / 0x100) as u8);
        proof {
            let pre = units@.subrange(0, i + 1);
            assert(pre.drop_last() =~= units@.subrange(0, i as int));
            assert(pre.last() == u);
        }
        i = i + 1;
        assert(out@ =~= start + utf16_le_bytes(units@.subrange(0, i as int)));
    }
    assert(units@.subrange(0, units@.len() as int) =~= units@);
}

} // verus!
