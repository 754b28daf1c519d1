//! Unified kernel images: PE section table, per-section digests, Authenticode
//! digests, and the disk images a UKI may be shipped in.

use std::io::Read;

use object::{Object, ObjectSection};
use sha2::Digest;
use vstd::prelude::*;
use vstd::utf8::{decode_first_scalar, decode_utf8, encode_utf8, pop_first_scalar, valid_utf8};

use crate::bytes::{le_u64, push_bytes, read_u64_le, to_vec};
use crate::dcap::gpt::{disk_guid_hash_from_header, gpt_event_digest_of};
use crate::esp::{check_esp, esp_walk_safe};
use crate::hash::{sha256, sha256_of, sha384, sha384_of};
use crate::text::{encode_utf16, str_eq, utf16_le_bytes, utf16_units};

verus! {

#[verifier::external_type_specification]
#[verifier::external_body]
pub struct ExObjectError(object::read::Error);

#[verifier::external_type_specification]
#[verifier::external_body]
pub struct ExPeOffsetError(authenticode::PeOffsetError);

#[derive(Debug)]
pub enum UkiError {
    Pe(object::read::Error),
    Authenticode(authenticode::PeOffsetError),
    Disk(&'static str),
}

/// Parsed UKI with pre-computed digests.
pub struct Uki {
    pub size: u64,
    pub sections: Vec<UkiSection>,
    pub authenticode_sha384: [u8; 48],
    pub authenticode_sha256: [u8; 32],
    pub kernel_authenticode_sha384: [u8; 48],
    pub kernel_authenticode_sha256: [u8; 32],
    pub cmdline: Vec<u8>,
    /// Only present when the UKI is embedded in a disk image with a rootfs.
    pub disk_guid_hash: Option<[u8; 48]>,
}

pub struct UkiSection {
    pub name: String,
    pub size: u32,
    pub digest_sha256: [u8; 32],
    pub digest_sha384: [u8; 48],
    pub measured: bool,
    pub measure_order: i32,
}

/// What a section is, as plain values.
pub ghost struct SectionView {
    pub name: Seq<char>,
    pub size: u32,
    pub digest_sha256: Seq<u8>,
    pub digest_sha384: Seq<u8>,
    pub measured: bool,
    pub measure_order: i32,
}

impl View for UkiSection {
    type V = SectionView;

    open spec fn view(&self) -> SectionView {
        SectionView {
            name: self.name@,
            size: self.size,
            digest_sha256: self.digest_sha256@,
            digest_sha384: self.digest_sha384@,
            measured: self.measured,
            measure_order: self.measure_order,
        }
    }
}

/// What a parsed UKI is, as plain values.
pub ghost struct UkiView {
    pub size: u64,
    pub sections: Seq<SectionView>,
    pub authenticode_sha384: Seq<u8>,
    pub authenticode_sha256: Seq<u8>,
    pub kernel_authenticode_sha384: Seq<u8>,
    pub kernel_authenticode_sha256: Seq<u8>,
    pub cmdline: Seq<u8>,
    pub disk_guid_hash: Option<Seq<u8>>,
}

pub open spec fn opt_bytes48(o: Option<[u8; 48]>) -> Option<Seq<u8>> {
    match o {
        Some(a) => Some(a@),
        None => None,
    }
}

impl View for Uki {
    type V = UkiView;

    open spec fn view(&self) -> UkiView {
        UkiView {
            size: self.size,
            sections: self.sections@.map_values(|s: UkiSection| s@),
            authenticode_sha384: self.authenticode_sha384@,
            authenticode_sha256: self.authenticode_sha256@,
            kernel_authenticode_sha384: self.kernel_authenticode_sha384@,
            kernel_authenticode_sha256: self.kernel_authenticode_sha256@,
            cmdline: self.cmdline@,
            disk_guid_hash: opt_bytes48(self.disk_guid_hash),
        }
    }
}

// ---------------------------------------------------------------------------
// Which sections systemd-stub measures, and in which order
// ---------------------------------------------------------------------------

/// Position of a section name in the list of sections systemd-stub measures:
/// `.linux .osrel .cmdline .initrd .splash .dtb .uname .sbat .pcrkey`.
pub open spec fn measure_position(name: Seq<char>) -> Option<int> {
    if name == ".linux"@ {
        Some(0)
    } else if name == ".osrel"@ {
        Some(1)
    } else if name == ".cmdline"@ {
        Some(2)
    } else if name == ".initrd"@ {
        Some(3)
    } else if name == ".splash"@ {
        Some(4)
    } else if name == ".dtb"@ {
        Some(5)
    } else if name == ".uname"@ {
        Some(6)
    } else if name == ".sbat"@ {
        Some(7)
    } else if name == ".pcrkey"@ {
        Some(8)
    } else {
        None
    }
}

/// Whether systemd-stub measures a section of this name.
pub open spec fn spec_should_measure(name: Seq<char>) -> bool {
    measure_position(name) is Some && name != ".pcrsig"@
}

/// Position of `name` among the measured sections, if it is one of them.
pub fn section_measure_order(name: &str) -> (r: Option<usize>)
    ensures
        match measure_position(name@) {
            Some(i) => r == Some(i as usize),
            None => r is None,
        },
{
    if str_eq(name, ".linux") {
        Some(0)
    } else if str_eq(name, ".osrel") {
        Some(1)
    } else if str_eq(name, ".cmdline") {
        Some(2)
    } else if str_eq(name, ".initrd") {
        Some(3)
    } else if str_eq(name, ".splash") {
        Some(4)
    } else if str_eq(name, ".dtb") {
        Some(5)
    } else if str_eq(name, ".uname") {
        Some(6)
    } else if str_eq(name, ".sbat") {
        Some(7)
    } else if str_eq(name, ".pcrkey") {
        Some(8)
    } else {
        None
    }
}

/// Whether systemd-stub measures a section of this name.
pub fn should_measure(name: &str) -> (r: bool)
    ensures
        r == spec_should_measure(name@),
{
    section_measure_order(name).is_some() && !str_eq(name, ".pcrsig")
}

// ---------------------------------------------------------------------------
// Section lookup and the encodings systemd-stub measures
// ---------------------------------------------------------------------------

/// Index of the first section called `name`.
pub open spec fn first_named(sections: Seq<SectionView>, name: Seq<char>) -> Option<int>
    decreases sections.len(),
{
    if sections.len() == 0 {
        None
    } else {
        match first_named(sections.drop_last(), name) {
            Some(i) => Some(i),
            None => if sections.last().name == name {
                Some(sections.len() - 1)
            } else {
                None
            },
        }
    }
}

pub proof fn lemma_first_named(sections: Seq<SectionView>, name: Seq<char>)
    ensures
        match first_named(sections, name) {
            Some(i) => 0 <= i < sections.len() && sections[i].name == name && forall|j: int|
                0 <= j < i ==> sections[j].name != name,
            None => forall|j: int| 0 <= j < sections.len() ==> sections[j].name != name,
        },
    decreases sections.len(),
{
    if sections.len() > 0 {
        let init = sections.drop_last();
        lemma_first_named(init, name);
        assert(forall|j: int| 0 <= j < init.len() ==> init[j] == sections[j]);
    }
}

impl Uki {
    /// The first section called `name`.
    pub fn section(&self, name: &str) -> (r: Option<&UkiSection>)
        ensures
            match first_named(self@.sections, name@) {
                Some(i) => r == Some(&self.sections@[i]),
                None => r is None,
            },
    {
        proof {
            lemma_first_named(self@.sections, name@);
        }
        let mut i: usize = 0;
        while i < self.sections.len()
            invariant
                i <= self.sections@.len(),
                forall|j: int| 0 <= j < i ==> self@.sections[j].name != name@,
            decreases self.sections@.len() - i,
        {
            if str_eq(self.sections[i].name.as_str(), name) {
                proof {
                    lemma_first_named(self@.sections, name@);
                    let f = first_named(self@.sections, name@);
                    assert(self@.sections[i as int] == self.sections@[i as int]@);
                    assert(self@.sections[i as int].name == name@);
                    if f is Some {
                        assert(f->0 == i);
                    }
                }
                return Some(&self.sections[i]);
            }
            assert(self@.sections[i as int] == self.sections@[i as int]@);
            i = i + 1;
        }
        proof {
            if first_named(self@.sections, name@) is Some {
                let k = first_named(self@.sections, name@)->0;
                assert(self@.sections[k].name == name@);
            }
        }
        None
    }
}

/// `bytes`, followed by a zero byte unless it already ends in one.
pub open spec fn null_terminated(bytes: Seq<u8>) -> Seq<u8> {
    if bytes.len() > 0 && bytes.last() == 0 {
        bytes
    } else {
        bytes.push(0)
    }
}

impl UkiSection {
    /// Section name as null-terminated bytes (for PCR11 measurement).
    pub fn null_terminated_name(&self) -> (v: Vec<u8>)
        ensures
            v@ == null_terminated(encode_utf8(self.name@)),
    {
        let mut v = to_vec(self.name.as_str().as_bytes());
        let n = v.len();
        if n == 0 || v[n - 1] != 0 {
            v.push(0);
        }
        v
    }
}

/// `String::from_utf8_lossy`: the text of `bytes` with each invalid UTF-8
/// sequence replaced by U+FFFD.
pub uninterp spec fn utf8_lossy(bytes: Seq<u8>) -> Seq<char>;

/// `String::from_utf8_lossy`, which std documents as the decoding of
/// `bytes` when they are valid UTF-8, and as replacing each invalid sequence
/// with U+FFFD otherwise (the latter is left to the name).
#[verifier::external_body]
fn from_utf8_lossy(bytes: &[u8]) -> (text: Vec<char>)
    ensures
        text@ == utf8_lossy(bytes@),
        valid_utf8(bytes@) ==> text@ == decode_utf8(bytes@),
{
    String::from_utf8_lossy(bytes).chars().collect()
}

/// `input` without one trailing zero byte.
pub open spec fn strip_nul(input: Seq<u8>) -> Seq<u8> {
    if input.len() > 0 && input.last() == 0 {
        input.drop_last()
    } else {
        input
    }
}

/// The UTF-16LE, null-terminated encoding of a command line, as
/// systemd-stub measures it.
pub open spec fn spec_utf16le_null_terminated(input: Seq<u8>) -> Seq<u8> {
    utf16_le_bytes(utf16_units(utf8_lossy(strip_nul(input)))) + seq![0u8, 0u8]
}

proof fn lemma_utf16_le_len(units: Seq<u16>)
    ensures
        utf16_le_bytes(units).len() == 2 * units.len(),
    decreases units.len(),
{
    if units.len() > 0 {
        lemma_utf16_le_len(units.drop_last());
    }
}

/// The command-line encoding always ends in a two-byte null terminator and
/// is made of whole UTF-16 code units.
pub proof fn law_utf16le_terminated(input: Seq<u8>)
    ensures
        spec_utf16le_null_terminated(input).len() % 2 == 0,
        spec_utf16le_null_terminated(input).len() >= 2,
        spec_utf16le_null_terminated(input).last() == 0,
        spec_utf16le_null_terminated(input)[spec_utf16le_null_terminated(input).len() - 2] == 0,
{
    lemma_utf16_le_len(utf16_units(utf8_lossy(strip_nul(input))));
}

/// A command line may or may not carry its own null terminator: adding one
/// to a command line without it changes nothing.
pub proof fn law_utf16le_terminator_optional(input: Seq<u8>)
    requires
        input.len() == 0 || input.last() != 0,
    ensures
        spec_utf16le_null_terminated(input.push(0)) == spec_utf16le_null_terminated(input),
{
    assert(input.push(0).drop_last() =~= input);
}

/// ASCII bytes are valid UTF-8 and decode to as many characters, each below
/// 0x80.
proof fn lemma_ascii_decodes(b: Seq<u8>)
    requires
        forall|i: int| 0 <= i < b.len() ==> b[i] < 0x80,
    ensures
        valid_utf8(b),
        decode_utf8(b).len() == b.len(),
        forall|i: int| 0 <= i < b.len() ==> (decode_utf8(b)[i] as u32) < 0x80,
    decreases b.len(),
{
    if b.len() > 0 {
        let first = b[0];
        assert(first & 0x7f <= 0x7f) by (bit_vector);
        let rest = b.subrange(1, b.len() as int);
        assert(pop_first_scalar(b) == rest);
        lemma_ascii_decodes(rest);
        let c = decode_first_scalar(b) as char;
        assert(decode_utf8(b) == seq![c] + decode_utf8(rest));
        assert forall|i: int| 0 <= i < b.len() implies (decode_utf8(b)[i] as u32) < 0x80 by {
            if i > 0 {
                assert(decode_utf8(b)[i] == decode_utf8(rest)[i - 1]);
            }
        }
    }
}

/// Characters below 0x10000 take one UTF-16 unit each.
proof fn lemma_bmp_units_len(chars: Seq<char>)
    requires
        forall|i: int| 0 <= i < chars.len() ==> (chars[i] as u32) < 0x1_0000,
    ensures
        utf16_units(chars).len() == chars.len(),
    decreases chars.len(),
{
    if chars.len() > 0 {
        lemma_bmp_units_len(chars.drop_last());
    }
}

/// An ASCII command line without its own terminator is valid UTF-8, and its
/// encoding takes two bytes per character plus the two-byte terminator.
pub proof fn law_utf16le_ascii_len(input: Seq<u8>)
    requires
        forall|i: int| 0 <= i < input.len() ==> input[i] < 0x80,
        input.len() == 0 || input.last() != 0,
    ensures
        valid_utf8(strip_nul(input)),
        (utf16_le_bytes(utf16_units(decode_utf8(strip_nul(input)))) + seq![0u8, 0u8]).len() == 2
            * input.len() + 2,
{
    assert(strip_nul(input) == input);
    lemma_ascii_decodes(input);
    let chars = decode_utf8(input);
    lemma_bmp_units_len(chars);
    lemma_utf16_le_len(utf16_units(chars));
}

/// A section name for measurement ends in exactly the one null byte it
/// needs: the name's bytes, with a zero appended unless already there.
pub proof fn law_null_terminated(bytes: Seq<u8>)
    ensures
        null_terminated(bytes).len() > 0,
        null_terminated(bytes).last() == 0,
        bytes.is_prefix_of(null_terminated(bytes)),
        null_terminated(bytes).len() <= bytes.len() + 1,
{
    assert(bytes.is_prefix_of(bytes.push(0))) by {
        assert(bytes.push(0).subrange(0, bytes.len() as int) =~= bytes);
    }
    assert(bytes.is_prefix_of(bytes)) by {
        assert(bytes.subrange(0, bytes.len() as int) =~= bytes);
    }
}

/// Re-encodes a (possibly null-terminated) UTF-8 string as UTF-16LE with a
/// two-byte null terminator.
pub fn to_utf16le_null_terminated(input: &[u8]) -> (out: Vec<u8>)
    ensures
        out@ == spec_utf16le_null_terminated(input@),
        valid_utf8(strip_nul(input@)) ==> out@ == utf16_le_bytes(
            utf16_units(decode_utf8(strip_nul(input@))),
        ) + seq![0u8, 0u8],
{
    let n = input.len();
    let s = if n > 0 && input[n - 1] == 0 {
        vstd::slice::slice_subrange(input, 0, n - 1)
    } else {
        input
    };
    assert(n > 0 && input@.last() == 0 ==> s@ =~= input@.drop_last());
    let text = from_utf8_lossy(s);
    let units = encode_utf16(text.as_slice());
    let mut out: Vec<u8> = Vec::new();
    crate::text::push_utf16_le(&mut out, units.as_slice());
    out.push(0);
    out.push(0);
    out
}

// ---------------------------------------------------------------------------
// The PE image: section table and Authenticode digests
// ---------------------------------------------------------------------------

/// A PE section as the `object` crate reads it: its name (empty where the
/// name cannot be read) and its raw data (empty where it cannot be read).
struct RawSection {
    name: String,
    data: Vec<u8>,
}

/// The sections of a PE32+ image in table order, as `(name, data)`; `None`
/// where `object` cannot parse the image.
pub uninterp spec fn pe_section_table(data: Seq<u8>) -> Option<Seq<(Seq<char>, Seq<u8>)>>;

spec fn raw_sections_view(v: Seq<RawSection>) -> Seq<(Seq<char>, Seq<u8>)> {
    v.map_values(|s: RawSection| (s.name@, s.data@))
}

/// `object::read::pe::PeFile64::parse`, then each section's `name()` and
/// `data()`; the contract names the outcome and says that a parse error is
/// what `None` stands for.
#[verifier::external_body]
fn pe_sections(data: &[u8]) -> (r: Result<Vec<RawSection>, object::read::Error>)
    ensures
        match r {
            Ok(v) => pe_section_table(data@) == Some(raw_sections_view(v@)),
            Err(_) => pe_section_table(data@) is None,
        },
{
    let pe = object::read::pe::PeFile64::parse(data)?;
    let mut out = Vec::new();
    for s in pe.sections() {
        let name = s.name().unwrap_or("").to_string();
        let data = s.data().unwrap_or(&[]).to_vec();
        out.push(RawSection { name, data });
    }
    Ok(out)
}

/// The SHA-384 Authenticode digest of a PE32+ image; `None` where `object`
/// cannot parse it or `authenticode` finds its offsets inconsistent.
pub uninterp spec fn authenticode_sha384_of(data: Seq<u8>) -> Option<Seq<u8>>;

/// The SHA-256 Authenticode digest of a PE32+ image, with `None` as above.
pub uninterp spec fn authenticode_sha256_of(data: Seq<u8>) -> Option<Seq<u8>>;

/// `authenticode::authenticode_digest` over `PeFile64::parse(data)` with a
/// SHA-384 hasher: the parse error where `PeFile64::parse` fails (the same
/// call `pe_sections` makes), the offset error otherwise.
#[verifier::external_body]
fn pe_authenticode_sha384(data: &[u8]) -> (r: Result<[u8; 48], UkiError>)
    ensures
        match r {
            Ok(d) => authenticode_sha384_of(data@) == Some(d@),
            Err(e) => authenticode_sha384_of(data@) is None && (e is Pe || e is Authenticode) && (e
                is Pe <==> pe_section_table(data@) is None),
        },
{
    let pe = object::read::pe::PeFile64::parse(data).map_err(UkiError::Pe)?;
    let mut h = sha2::Sha384::new();
    authenticode::authenticode_digest(&pe, &mut h).map_err(UkiError::Authenticode)?;
    Ok(h.finalize().into())
}

/// As `pe_authenticode_sha384`, with a SHA-256 hasher.
#[verifier::external_body]
fn pe_authenticode_sha256(data: &[u8]) -> (r: Result<[u8; 32], UkiError>)
    ensures
        match r {
            Ok(d) => authenticode_sha256_of(data@) == Some(d@),
            Err(e) => authenticode_sha256_of(data@) is None && (e is Pe || e is Authenticode) && (e
                is Pe <==> pe_section_table(data@) is None),
        },
{
    let pe = object::read::pe::PeFile64::parse(data).map_err(UkiError::Pe)?;
    let mut h = sha2::Sha256::new();
    authenticode::authenticode_digest(&pe, &mut h).map_err(UkiError::Authenticode)?;
    Ok(h.finalize().into())
}

/// The section record built from one PE section.
pub open spec fn section_view(name: Seq<char>, data: Seq<u8>) -> SectionView {
    SectionView {
        name,
        size: data.len() as u32,
        digest_sha256: sha256_of(data),
        digest_sha384: sha384_of(data),
        measured: spec_should_measure(name),
        measure_order: match measure_position(name) {
            Some(i) => i as i32,
            None => -1i32,
        },
    }
}

pub open spec fn table_views(table: Seq<(Seq<char>, Seq<u8>)>) -> Seq<SectionView> {
    table.map_values(|e: (Seq<char>, Seq<u8>)| section_view(e.0, e.1))
}

/// The data of the last section called `name`.
pub open spec fn last_data(table: Seq<(Seq<char>, Seq<u8>)>, name: Seq<char>) -> Option<Seq<u8>>
    decreases table.len(),
{
    if table.len() == 0 {
        None
    } else if table.last().0 == name {
        Some(table.last().1)
    } else {
        last_data(table.drop_last(), name)
    }
}

/// A `.linux` section whose two Authenticode digests cannot both be had.
pub open spec fn bad_kernel(t: (Seq<char>, Seq<u8>)) -> bool {
    t.0 == ".linux"@ && !(authenticode_sha384_of(t.1) is Some && authenticode_sha256_of(t.1) is Some)
}

/// A PE image fails to parse as a UKI with a parse error (rather than an
/// offset error): `object` cannot read it, or the first `.linux` section
/// without both Authenticode digests is one `object` cannot read.
pub open spec fn pe_parse_fails(data: Seq<u8>) -> bool {
    match pe_section_table(data) {
        None => true,
        Some(table) => exists|j: int|
            0 <= j < table.len() && #[trigger] bad_kernel(table[j]) && (forall|j2: int|
                0 <= j2 < j ==> !bad_kernel(table[j2])) && pe_section_table(table[j].1) is None,
    }
}

/// Every `.linux` section has both Authenticode digests.
pub open spec fn kernels_ok(table: Seq<(Seq<char>, Seq<u8>)>) -> bool {
    forall|i: int|
        0 <= i < table.len() && #[trigger] table[i].0 == ".linux"@ ==> authenticode_sha384_of(
            table[i].1,
        ) is Some && authenticode_sha256_of(table[i].1) is Some
}

/// Whether a PE image yields a UKI: it parses, and every kernel and the
/// image itself have Authenticode digests.
pub open spec fn pe_image_ok(data: Seq<u8>) -> bool {
    &&& pe_section_table(data) is Some
    &&& kernels_ok(pe_section_table(data)->0)
    &&& authenticode_sha384_of(data) is Some
    &&& authenticode_sha256_of(data) is Some
}

pub open spec fn kernel_sha384(table: Seq<(Seq<char>, Seq<u8>)>) -> Seq<u8> {
    match last_data(table, ".linux"@) {
        Some(k) => authenticode_sha384_of(k)->0,
        None => Seq::new(48, |i: int| 0u8),
    }
}

pub open spec fn kernel_sha256(table: Seq<(Seq<char>, Seq<u8>)>) -> Seq<u8> {
    match last_data(table, ".linux"@) {
        Some(k) => authenticode_sha256_of(k)->0,
        None => Seq::new(32, |i: int| 0u8),
    }
}

pub open spec fn cmdline_of(table: Seq<(Seq<char>, Seq<u8>)>) -> Seq<u8> {
    match last_data(table, ".cmdline"@) {
        Some(c) => c,
        None => Seq::empty(),
    }
}

/// The UKI a PE image yields (meaningful where `pe_image_ok(data)`).
pub open spec fn spec_uki(data: Seq<u8>, disk_guid_hash: Option<Seq<u8>>) -> UkiView {
    let table = pe_section_table(data)->0;
    UkiView {
        size: data.len() as u64,
        sections: sorted_sections(table_views(table)),
        authenticode_sha384: authenticode_sha384_of(data)->0,
        authenticode_sha256: authenticode_sha256_of(data)->0,
        kernel_authenticode_sha384: kernel_sha384(table),
        kernel_authenticode_sha256: kernel_sha256(table),
        cmdline: cmdline_of(table),
        disk_guid_hash,
    }
}

// ---------------------------------------------------------------------------
// Measurement order
// ---------------------------------------------------------------------------

/// The key sections are ordered by: their position when measured, last
/// otherwise.
pub open spec fn sort_key(s: SectionView) -> int {
    if s.measured {
        s.measure_order as int
    } else {
        i32::MAX as int
    }
}

/// The sections with key `k`, in their original order.
pub open spec fn with_key(s: Seq<SectionView>, k: int) -> Seq<SectionView> {
    s.filter(|x: SectionView| sort_key(x) == k)
}

/// The sections with keys `k`, `k + 1`, ..., 8, then the unmeasured ones.
pub open spec fn keys_from(s: Seq<SectionView>, k: int) -> Seq<SectionView>
    decreases 9 - k,
{
    if k >= 9 {
        with_key(s, i32::MAX as int)
    } else {
        with_key(s, k) + keys_from(s, k + 1)
    }
}

/// A stable sort of the sections by `sort_key` (measured sections take
/// keys 0 to 8 only).
pub open spec fn sorted_sections(s: Seq<SectionView>) -> Seq<SectionView> {
    keys_from(s, 0)
}

// ---------------------------------------------------------------------------
// The measurement order is a stable sort
// ---------------------------------------------------------------------------

/// The sections whose key is at least `k`, in their original order.
pub open spec fn from_key(s: Seq<SectionView>, k: int) -> Seq<SectionView> {
    s.filter(|x: SectionView| sort_key(x) >= k)
}

proof fn lemma_filter_agree(s: Seq<SectionView>, p: spec_fn(SectionView) -> bool, q: spec_fn(SectionView) -> bool)
    requires
        forall|i: int| 0 <= i < s.len() ==> p(s[i]) == q(s[i]),
    ensures
        s.filter(p) == s.filter(q),
    decreases s.len(),
{
    if s.len() > 0 {
        let init = s.drop_last();
        assert forall|i: int| 0 <= i < init.len() implies p(init[i]) == q(init[i]) by {
            assert(init[i] == s[i]);
        }
        lemma_filter_agree(init, p, q);
        assert(s =~= init.push(s.last()));
        init.lemma_filter_push(s.last(), p);
        init.lemma_filter_push(s.last(), q);
    } else {
        reveal(Seq::filter);
    }
}

proof fn lemma_split_key(s: Seq<SectionView>, k: int)
    ensures
        from_key(s, k).to_multiset() =~= with_key(s, k).to_multiset().add(
            from_key(s, k + 1).to_multiset(),
        ),
    decreases s.len(),
{
    broadcast use vstd::seq_lib::group_to_multiset_ensures;
    broadcast use vstd::multiset::group_multiset_axioms;

    let ge = |x: SectionView| sort_key(x) >= k;
    let eq = |x: SectionView| sort_key(x) == k;
    let gt = |x: SectionView| sort_key(x) >= k + 1;
    if s.len() == 0 {
        reveal(Seq::filter);
        assert(s.filter(ge) =~= Seq::<SectionView>::empty());
        assert(s.filter(eq) =~= Seq::<SectionView>::empty());
        assert(s.filter(gt) =~= Seq::<SectionView>::empty());
    } else {
        let init = s.drop_last();
        let x = s.last();
        lemma_split_key(init, k);
        assert(s =~= init.push(x));
        init.lemma_filter_push(x, ge);
        init.lemma_filter_push(x, eq);
        init.lemma_filter_push(x, gt);
    }
}

proof fn lemma_keys_from_multiset(s: Seq<SectionView>, k: int)
    requires
        0 <= k <= 9,
        orders_ok(s),
    ensures
        keys_from(s, k).to_multiset() =~= from_key(s, k).to_multiset(),
    decreases 9 - k,
{
    broadcast use vstd::seq_lib::group_to_multiset_ensures;
    broadcast use vstd::multiset::group_multiset_axioms;

    if k >= 9 {
        lemma_filter_agree(
            s,
            |x: SectionView| sort_key(x) == i32::MAX as int,
            |x: SectionView| sort_key(x) >= k,
        );
    } else {
        lemma_keys_from_multiset(s, k + 1);
        lemma_split_key(s, k);
        vstd::seq_lib::lemma_multiset_commutative(with_key(s, k), keys_from(s, k + 1));
    }
}

/// Every section has a key from 0 on.
proof fn lemma_from_zero(s: Seq<SectionView>)
    requires
        orders_ok(s),
    ensures
        from_key(s, 0) == s,
{
    lemma_filter_agree(s, |x: SectionView| sort_key(x) >= 0, |x: SectionView| true);
    lemma_filter_all(s);
}

proof fn lemma_filter_all(s: Seq<SectionView>)
    ensures
        s.filter(|x: SectionView| true) == s,
    decreases s.len(),
{
    if s.len() > 0 {
        lemma_filter_all(s.drop_last());
        assert(s =~= s.drop_last().push(s.last()));
        s.drop_last().lemma_filter_push(s.last(), |x: SectionView| true);
    } else {
        reveal(Seq::filter);
    }
}

proof fn lemma_keys_from_sorted(s: Seq<SectionView>, k: int)
    requires
        0 <= k <= 9,
    ensures
        forall|i: int| 0 <= i < keys_from(s, k).len() ==> sort_key(#[trigger] keys_from(s, k)[i]) >= k,
        forall|i: int, j: int|
            0 <= i <= j < keys_from(s, k).len() ==> sort_key(#[trigger] keys_from(s, k)[i]) <= sort_key(
                #[trigger] keys_from(s, k)[j],
            ),
    decreases 9 - k,
{
    let w = if k >= 9 {
        with_key(s, i32::MAX as int)
    } else {
        with_key(s, k)
    };
    let key_k = if k >= 9 {
        i32::MAX as int
    } else {
        k
    };
    assert forall|i: int| 0 <= i < w.len() implies sort_key(#[trigger] w[i]) == key_k by {
        s.lemma_filter_pred(|x: SectionView| sort_key(x) == key_k, i);
    }
    if k < 9 {
        lemma_keys_from_sorted(s, k + 1);
        let rest = keys_from(s, k + 1);
        let all = keys_from(s, k);
        assert(all == w + rest);
        assert forall|i: int| 0 <= i < all.len() implies sort_key(#[trigger] all[i]) >= k by {
            if i >= w.len() {
                assert(all[i] == rest[i - w.len()]);
            }
        }
        assert forall|i: int, j: int| 0 <= i <= j < all.len() implies sort_key(#[trigger] all[i])
            <= sort_key(#[trigger] all[j]) by {
            if i >= w.len() {
                assert(all[i] == rest[i - w.len()]);
                assert(all[j] == rest[j - w.len()]);
            } else if j >= w.len() {
                assert(all[j] == rest[j - w.len()]);
            }
        }
    }
}

/// The measurement order puts sections in order of their key, and keeps
/// every section: it is a sort.
pub proof fn law_sorted_sections(s: Seq<SectionView>)
    requires
        orders_ok(s),
    ensures
        forall|i: int, j: int|
            0 <= i <= j < sorted_sections(s).len() ==> sort_key(#[trigger] sorted_sections(s)[i])
                <= sort_key(#[trigger] sorted_sections(s)[j]),
        sorted_sections(s).to_multiset() == s.to_multiset(),
{
    lemma_keys_from_sorted(s, 0);
    lemma_keys_from_multiset(s, 0);
    lemma_from_zero(s);
}

proof fn lemma_filter_none(s: Seq<SectionView>, p: spec_fn(SectionView) -> bool)
    requires
        forall|i: int| 0 <= i < s.len() ==> !p(s[i]),
    ensures
        s.filter(p) == Seq::<SectionView>::empty(),
{
    lemma_filter_agree(s, p, |x: SectionView| false);
    lemma_filter_nothing(s);
}

proof fn lemma_filter_nothing(s: Seq<SectionView>)
    ensures
        s.filter(|x: SectionView| false) == Seq::<SectionView>::empty(),
    decreases s.len(),
{
    if s.len() > 0 {
        lemma_filter_nothing(s.drop_last());
        assert(s =~= s.drop_last().push(s.last()));
        s.drop_last().lemma_filter_push(s.last(), |x: SectionView| false);
    } else {
        reveal(Seq::filter);
    }
}

/// Selecting key `k` from a bucket of key `key`.
proof fn lemma_bucket_select(s: Seq<SectionView>, key: int, k: int)
    ensures
        with_key(s, key).filter(|x: SectionView| sort_key(x) == k) == (if key == k {
            with_key(s, key)
        } else {
            Seq::<SectionView>::empty()
        }),
{
    let w = with_key(s, key);
    assert forall|i: int| 0 <= i < w.len() implies sort_key(#[trigger] w[i]) == key by {
        s.lemma_filter_pred(|x: SectionView| sort_key(x) == key, i);
    }
    if key == k {
        lemma_filter_agree(w, |x: SectionView| sort_key(x) == k, |x: SectionView| true);
        lemma_filter_all(w);
    } else {
        lemma_filter_none(w, |x: SectionView| sort_key(x) == k);
    }
}

proof fn lemma_keys_from_select(s: Seq<SectionView>, j: int, k: int)
    requires
        0 <= j <= 9,
        0 <= k < 9 || k == i32::MAX as int,
    ensures
        keys_from(s, j).filter(|x: SectionView| sort_key(x) == k) == (if j <= k {
            with_key(s, k)
        } else {
            Seq::<SectionView>::empty()
        }),
    decreases 9 - j,
{
    let p = |x: SectionView| sort_key(x) == k;
    if j >= 9 {
        lemma_bucket_select(s, i32::MAX as int, k);
    } else {
        lemma_keys_from_select(s, j + 1, k);
        lemma_bucket_select(s, j, k);
        Seq::filter_distributes_over_add(with_key(s, j), keys_from(s, j + 1), p);
        if j == k {
            assert(with_key(s, k) + Seq::<SectionView>::empty() =~= with_key(s, k));
        } else {
            assert(Seq::<SectionView>::empty() + keys_from(s, j + 1).filter(p) =~= keys_from(
                s,
                j + 1,
            ).filter(p));
        }
    }
}

/// Sections that share a key keep their relative order: the sort is
/// stable.
pub proof fn law_sorted_sections_stable(s: Seq<SectionView>, k: int)
    requires
        0 <= k < 9 || k == i32::MAX as int,
    ensures
        sorted_sections(s).filter(|x: SectionView| sort_key(x) == k) == with_key(s, k),
{
    lemma_keys_from_select(s, 0, k);
}

fn copy_section(s: &UkiSection) -> (c: UkiSection)
    ensures
        c@ == s@,
{
    UkiSection {
        name: s.name.clone(),
        size: s.size,
        digest_sha256: s.digest_sha256,
        digest_sha384: s.digest_sha384,
        measured: s.measured,
        measure_order: s.measure_order,
    }
}

pub open spec fn views(v: Seq<UkiSection>) -> Seq<SectionView> {
    v.map_values(|s: UkiSection| s@)
}

/// Measured sections carry one of the nine measurement positions.
pub open spec fn orders_ok(v: Seq<SectionView>) -> bool {
    forall|j: int| 0 <= j < v.len() && #[trigger] v[j].measured ==> 0 <= v[j].measure_order < 9
}

/// Appends the sections whose key is `k`, in order.
fn push_with_key(
    out: &mut Vec<UkiSection>,
    sections: &Vec<UkiSection>,
    Ghost(k): Ghost<int>,
    measured: bool,
    order: i32,
)
    requires
        measured ==> k == order as int && 0 <= order < 9,
        !measured ==> k == i32::MAX as int,
        orders_ok(views(sections@)),
    ensures
        views(final(out)@) == views(old(out)@) + with_key(views(sections@), k),
{
    let ghost start = views(out@);
    let ghost all = views(sections@);
    let ghost pred = |x: SectionView| sort_key(x) == k;
    let mut i: usize = 0;
    assert(all.take(0).filter(pred) =~= Seq::<SectionView>::empty()) by {
        reveal(Seq::filter);
    }
    while i < sections.len()
        invariant
            i <= sections@.len(),
            all == views(sections@),
            pred == (|x: SectionView| sort_key(x) == k),
            measured ==> k == order as int && 0 <= order < 9,
            !measured ==> k == i32::MAX as int,
            orders_ok(all),
            views(out@) == start + all.take(i as int).filter(pred),
        decreases sections@.len() - i,
    {
        let s = &sections[i];
        let take = if measured {
            s.measured && s.measure_order == order
        } else {
            !s.measured
        };
        proof {
            assert(all[i as int] == s@);
            assert(take == pred(s@));
            let next = all.take(i + 1);
            assert(next.drop_last() =~= all.take(i as int));
            assert(next.last() == s@);
            assert(next.filter(pred) == (if pred(s@) {
                all.take(i as int).filter(pred).push(s@)
            } else {
                all.take(i as int).filter(pred)
            })) by {
                reveal(Seq::filter);
            }
        }
        let ghost before = views(out@);
        if take {
            out.push(copy_section(s));
            assert(views(out@) =~= before.push(s@));
        } else {
            assert(views(out@) =~= before);
        }
        i = i + 1;
        assert(views(out@) =~= start + all.take(i as int).filter(pred));
    }
    assert(all.take(sections@.len() as int) =~= all);
}

/// Sorts sections into the order systemd-stub measures them (stable).
fn sort_sections(sections: &Vec<UkiSection>) -> (out: Vec<UkiSection>)
    requires
        orders_ok(views(sections@)),
    ensures
        views(out@) == sorted_sections(views(sections@)),
{
    let ghost all = views(sections@);
    let mut out: Vec<UkiSection> = Vec::new();
    let mut k: i32 = 0;
    while k < 9
        invariant
            0 <= k <= 9,
            all == views(sections@),
            orders_ok(all),
            views(out@) + keys_from(all, k as int) == sorted_sections(all),
        decreases 9 - k,
    {
        let ghost before = views(out@);
        push_with_key(&mut out, sections, Ghost(k as int), true, k);
        assert(keys_from(all, k as int) == with_key(all, k as int) + keys_from(all, k + 1));
        assert(before + keys_from(all, k as int) =~= views(out@) + keys_from(all, k + 1));
        k = k + 1;
    }
    let ghost before = views(out@);
    push_with_key(&mut out, sections, Ghost(i32::MAX as int), false, 0);
    assert(views(out@) =~= before + keys_from(all, 9));
    out
}

proof fn lemma_last_data_push(
    table: Seq<(Seq<char>, Seq<u8>)>,
    i: int,
    name: Seq<char>,
)
    requires
        0 <= i < table.len(),
    ensures
        last_data(table.take(i + 1), name) == (if table[i].0 == name {
            Some(table[i].1)
        } else {
            last_data(table.take(i), name)
        }),
{
    assert(table.take(i + 1).drop_last() =~= table.take(i));
}

/// Where the sections before `i` are good and section `i` is a bad kernel,
/// the image fails with a parse error exactly where `object` cannot read
/// that kernel.
proof fn lemma_first_bad_kernel(data: Seq<u8>, table: Seq<(Seq<char>, Seq<u8>)>, i: int)
    requires
        pe_section_table(data) == Some(table),
        0 <= i < table.len(),
        kernels_ok(table.take(i)),
        bad_kernel(table[i]),
    ensures
        pe_parse_fails(data) <==> pe_section_table(table[i].1) is None,
{
    assert forall|j2: int| 0 <= j2 < i implies !bad_kernel(table[j2]) by {
        assert(table.take(i)[j2] == table[j2]);
    }
    if pe_parse_fails(data) {
        let j = choose|j: int|
            0 <= j < table.len() && #[trigger] bad_kernel(table[j]) && (forall|j2: int|
                0 <= j2 < j ==> !bad_kernel(table[j2])) && pe_section_table(table[j].1) is None;
        if j < i {
            assert(!bad_kernel(table[j]));
        } else if j > i {
            assert(!bad_kernel(table[i]));
        }
    }
}

proof fn lemma_orders_ok(table: Seq<(Seq<char>, Seq<u8>)>)
    ensures
        orders_ok(table_views(table)),
{
}

impl Uki {
    /// Parses a bare PE image into a UKI.
    fn parse_pe(data: &[u8], disk_guid_hash: Option<[u8; 48]>) -> (r: Result<Uki, UkiError>)
        ensures
            r is Ok <==> pe_image_ok(data@),
            r is Ok ==> r->Ok_0@ == spec_uki(data@, opt_bytes48(disk_guid_hash)),
            r is Err ==> (r->Err_0 is Pe || r->Err_0 is Authenticode) && (r->Err_0 is Pe
                <==> pe_parse_fails(data@)),
    {
        let raw = match pe_sections(data) {
            Ok(v) => v,
            Err(e) => {
                return Err(UkiError::Pe(e));
            },
        };
        let ghost table = raw_sections_view(raw@);
        let mut sections: Vec<UkiSection> = Vec::new();
        let mut cmdline: Vec<u8> = Vec::new();
        let mut k384 = [0u8; 48];
        let mut k256 = [0u8; 32];
        assert(k384@ =~= Seq::new(48, |i: int| 0u8));
        assert(k256@ =~= Seq::new(32, |i: int| 0u8));
        let mut i: usize = 0;
        while i < raw.len()
            invariant
                i <= raw@.len(),
                table == raw_sections_view(raw@),
                pe_section_table(data@) == Some(table),
                views(sections@) == table_views(table.take(i as int)),
                cmdline@ == cmdline_of(table.take(i as int)),
                k384@ == kernel_sha384(table.take(i as int)),
                k256@ == kernel_sha256(table.take(i as int)),
                kernels_ok(table.take(i as int)),
            decreases raw@.len() - i,
        {
            let s = &raw[i];
            let name = s.name.as_str();
            let ghost before = views(sections@);
            proof {
                reveal_strlit(".cmdline");
                reveal_strlit(".linux");
                assert(".cmdline"@[1] != ".linux"@[1]);
                assert(".cmdline"@ != ".linux"@);
                assert(table[i as int] == (s.name@, s.data@));
                lemma_last_data_push(table, i as int, ".cmdline"@);
                lemma_last_data_push(table, i as int, ".linux"@);
                assert(table.take(i + 1).drop_last() =~= table.take(i as int));
            }
            if str_eq(name, ".cmdline") {
                cmdline = to_vec(s.data.as_slice());
            } else if str_eq(name, ".linux") {
                k384 = match pe_authenticode_sha384(s.data.as_slice()) {
                    Ok(d) => d,
                    Err(e) => {
                        assert(!kernels_ok(table)) by {
                            assert(table[i as int].0 == ".linux"@);
                        }
                        proof {
                            lemma_first_bad_kernel(data@, table, i as int);
                        }
                        return Err(e);
                    },
                };
                k256 = match pe_authenticode_sha256(s.data.as_slice()) {
                    Ok(d) => d,
                    Err(e) => {
                        assert(!kernels_ok(table)) by {
                            assert(table[i as int].0 == ".linux"@);
                        }
                        proof {
                            lemma_first_bad_kernel(data@, table, i as int);
                        }
                        return Err(e);
                    },
                };
            }
            let measured = should_measure(name);
            let order: i32 = match section_measure_order(name) {
                Some(p) => p as i32,
                None => -1,
            };
            let section = UkiSection {
                name: s.name.clone(),
                size: s.data.len() as u32,
                digest_sha256: sha256(s.data.as_slice()),
                digest_sha384: sha384(s.data.as_slice()),
                measured,
                measure_order: order,
            };
            assert(section@ == section_view(s.name@, s.data@));
            sections.push(section);
            proof {
                if table[i as int].0 == ".linux"@ {
                    assert(authenticode_sha384_of(table[i as int].1) is Some);
                    assert(authenticode_sha256_of(table[i as int].1) is Some);
                }
                assert(views(sections@) =~= before.push(section_view(s.name@, s.data@)));
                assert(table_views(table.take(i + 1)) =~= table_views(table.take(i as int)).push(
                    section_view(s.name@, s.data@),
                ));
            }
            i = i + 1;
            proof {
                let t = table.take(i as int);
                assert(views(sections@) =~= table_views(t));
                assert forall|j: int|
                    0 <= j < t.len() && #[trigger] t[j].0 == ".linux"@ implies authenticode_sha384_of(
                    t[j].1,
                ) is Some && authenticode_sha256_of(t[j].1) is Some by {
                    if j < i - 1 {
                        assert(t[j] == table.take(i - 1)[j]);
                    }
                }
            }
        }
        proof {
            assert(table.take(raw@.len() as int) =~= table);
            lemma_orders_ok(table);
        }
        let sorted = sort_sections(&sections);
        let authenticode_sha384 = match pe_authenticode_sha384(data) {
            Ok(d) => d,
            Err(e) => {
                return Err(e);
            },
        };
        let authenticode_sha256 = match pe_authenticode_sha256(data) {
            Ok(d) => d,
            Err(e) => {
                return Err(e);
            },
        };
        let uki = Uki {
            size: data.len() as u64,
            sections: sorted,
            authenticode_sha384,
            authenticode_sha256,
            kernel_authenticode_sha384: k384,
            kernel_authenticode_sha256: k256,
            cmdline,
            disk_guid_hash,
        };
        assert(uki@.sections == views(uki.sections@));
        Ok(uki)
    }
}

// ---------------------------------------------------------------------------
// Disk images
// ---------------------------------------------------------------------------

/// The first entry of a gzip-compressed tar archive: `None` where the
/// archive cannot be read, `Some(None)` where it holds no entry.
pub uninterp spec fn tar_gz_first_entry(targz: Seq<u8>) -> Option<Option<Seq<u8>>>;

/// `tar::Archive::new(flate2::read::GzDecoder::new(targz))`, its first entry
/// and `read_to_end` of it; every error of those calls stands as `None`.
#[verifier::external_body]
fn read_tar_gz_first_entry(targz: &[u8]) -> (r: Option<Option<Vec<u8>>>)
    ensures
        match r {
            None => tar_gz_first_entry(targz@) is None,
            Some(None) => tar_gz_first_entry(targz@) == Some(None::<Seq<u8>>),
            Some(Some(v)) => tar_gz_first_entry(targz@) == Some(Some(v@)),
        },
{
    let mut archive = tar::Archive::new(flate2::read::GzDecoder::new(targz));
    let mut entries = match archive.entries() {
        Ok(e) => e,
        Err(_) => return None,
    };
    let mut entry = match entries.next() {
        None => return Some(None),
        Some(Ok(e)) => e,
        Some(Err(_)) => return None,
    };
    let mut raw = Vec::new();
    entry.read_to_end(&mut raw).ok()?;
    Some(Some(raw))
}

/// The contents of the file at `path` in a FAT filesystem image: `None`
/// where the image is not a FAT filesystem, `Some(None)` where the file
/// cannot be opened or read.
pub uninterp spec fn fat_file(image: Seq<u8>, path: Seq<char>) -> Option<Option<Seq<u8>>>;

/// `fatfs::FileSystem::new` over a copy of `image`, then `open_file(path)` in
/// its root directory and `read_to_end`. `fatfs` follows cluster chains
/// without detecting cycles and does unchecked `u32` arithmetic on boot
/// sector fields and cluster numbers, so the image must be one it walks
/// safely to `path`, the boot path (`esp_walk_safe`).
#[verifier::external_body]
fn read_fat_file(image: &[u8], path: &str) -> (r: Option<Option<Vec<u8>>>)
    requires
        esp_walk_safe(image@),
        path@ == boot_path(),
    ensures
        match r {
            None => fat_file(image@, path@) is None,
            Some(None) => fat_file(image@, path@) == Some(None::<Seq<u8>>),
            Some(Some(v)) => fat_file(image@, path@) == Some(Some(v@)),
        },
{
    let cursor = std::io::Cursor::new(image.to_vec());
    let fs = match fatfs::FileSystem::new(cursor, fatfs::FsOptions::new()) {
        Ok(fs) => fs,
        Err(_) => return None,
    };
    let mut contents = Vec::new();
    let read = fs.root_dir().open_file(path).and_then(|mut f| f.read_to_end(&mut contents));
    Some(read.ok().map(|_| contents))
}

/// The disk image inside a `.tar.gz`, or the message it fails with.
pub open spec fn spec_untar(targz: Seq<u8>) -> Result<Seq<u8>, &'static str> {
    match tar_gz_first_entry(targz) {
        None => Err("invalid tar.gz"),
        Some(None) => Err("empty tar.gz"),
        Some(Some(raw)) => Ok(raw),
    }
}

/// Extracts `disk.raw` (the first entry) from a GCP `.tar.gz`.
fn untar_disk_raw(targz: &[u8]) -> (r: Result<Vec<u8>, UkiError>)
    ensures
        match spec_untar(targz@) {
            Ok(raw) => r is Ok && r->Ok_0@ == raw,
            Err(m) => r == Err::<Vec<u8>, UkiError>(UkiError::Disk(m)),
        },
{
    match read_tar_gz_first_entry(targz) {
        None => Err(UkiError::Disk("invalid tar.gz")),
        Some(None) => Err(UkiError::Disk("empty tar.gz")),
        Some(Some(raw)) => Ok(raw),
    }
}

/// Where the UKI lives on the EFI system partition.
pub open spec fn boot_path() -> Seq<char> {
    "EFI/BOOT/BOOTX64.EFI"@
}

/// The UKI on a disk image's EFI system partition (the first partition
/// entry, at block 2), or the message it fails with.
pub open spec fn spec_extract_uki(disk: Seq<u8>) -> Result<Seq<u8>, &'static str> {
    if disk.len() < 1152 {
        Err("no partition table")
    } else {
        let first = le_u64(disk, 1056int) * 512;
        let past = (le_u64(disk, 1064int) + 1) * 512;
        if !(first <= past <= disk.len()) {
            Err("bad ESP bounds")
        } else {
            match fat_file(disk.subrange(first, past), boot_path()) {
                None => Err("invalid ESP filesystem"),
                Some(None) => Err("could not read UKI from ESP"),
                Some(Some(uki)) => Ok(uki),
            }
        }
    }
}

/// The EFI system partition of a disk image (the first partition entry, at
/// block 2); `None` where the image has no partition table or the bounds do
/// not lie inside it.
pub open spec fn esp_bytes(disk: Seq<u8>) -> Option<Seq<u8>> {
    if disk.len() < 1152 {
        None
    } else {
        let first = le_u64(disk, 1056int) * 512;
        let past = (le_u64(disk, 1064int) + 1) * 512;
        if !(first <= past <= disk.len()) {
            None
        } else {
            Some(disk.subrange(first, past))
        }
    }
}

/// A disk image whose EFI system partition, if it has one, `fatfs` walks
/// safely.
pub open spec fn disk_esp_safe(disk: Seq<u8>) -> bool {
    match esp_bytes(disk) {
        None => true,
        Some(esp) => esp_walk_safe(esp),
    }
}

/// The bounds of the EFI system partition, where they lie inside the image.
fn esp_bounds(disk: &[u8]) -> (r: Option<(usize, usize)>)
    ensures
        match esp_bytes(disk@) {
            None => r is None,
            Some(esp) => r matches Some((a, b)) && a <= b <= disk@.len() && esp == disk@.subrange(
                a as int,
                b as int,
            ),
        },
{
    if disk.len() < 1152 {
        return None;
    }
    let start = read_u64_le(disk, 1024 + 32);
    let end = read_u64_le(disk, 1024 + 40);
    let len = disk.len() as u64;
    let first = match start.checked_mul(512) {
        Some(v) => v,
        None => {
            return None;
        },
    };
    let past = match end.checked_add(1) {
        Some(e) => match e.checked_mul(512) {
            Some(v) => v,
            None => {
                return None;
            },
        },
        None => {
            return None;
        },
    };
    if !(first <= past && past <= len) {
        return None;
    }
    Some((first as usize, past as usize))
}

/// Decides `disk_esp_safe`.
fn check_disk_esp(disk: &[u8]) -> (r: bool)
    ensures
        r == disk_esp_safe(disk@),
{
    match esp_bounds(disk) {
        None => true,
        Some((a, b)) => check_esp(vstd::slice::slice_subrange(disk, a, b)),
    }
}

/// Extracts the UKI from a disk image.
fn extract_uki(disk: &[u8]) -> (r: Result<Vec<u8>, UkiError>)
    requires
        disk_esp_safe(disk@),
    ensures
        match spec_extract_uki(disk@) {
            Ok(uki) => r is Ok && r->Ok_0@ == uki,
            Err(m) => r == Err::<Vec<u8>, UkiError>(UkiError::Disk(m)),
        },
{
    if disk.len() < 1152 {
        return Err(UkiError::Disk("no partition table"));
    }
    let start = read_u64_le(disk, 1024 + 32);
    let end = read_u64_le(disk, 1024 + 40);
    let len = disk.len() as u64;
    let first = match start.checked_mul(512) {
        Some(v) => v,
        None => {
            return Err(UkiError::Disk("bad ESP bounds"));
        },
    };
    let past = match end.checked_add(1) {
        Some(e) => match e.checked_mul(512) {
            Some(v) => v,
            None => {
                return Err(UkiError::Disk("bad ESP bounds"));
            },
        },
        None => {
            return Err(UkiError::Disk("bad ESP bounds"));
        },
    };
    if !(first <= past && past <= len) {
        return Err(UkiError::Disk("bad ESP bounds"));
    }
    let esp = vstd::slice::slice_subrange(disk, first as usize, past as usize);
    let path = "EFI/BOOT/BOOTX64.EFI";
    assert(esp@ == esp_bytes(disk@)->0);
    match read_fat_file(esp, path) {
        None => Err(UkiError::Disk("invalid ESP filesystem")),
        Some(None) => Err(UkiError::Disk("could not read UKI from ESP")),
        Some(Some(uki)) => Ok(uki),
    }
}

/// gzip magic.
pub open spec fn is_gzip(data: Seq<u8>) -> bool {
    data.len() >= 2 && data[0] == 0x1f && data[1] == 0x8b
}

/// `EFI PART` at block 1: a disk image with a GUID partition table.
pub open spec fn is_gpt_disk(data: Seq<u8>) -> bool {
    data.len() >= 520 && data.subrange(512, 520) == seq![
        0x45u8,
        0x46u8,
        0x49u8,
        0x20u8,
        0x50u8,
        0x41u8,
        0x52u8,
        0x54u8,
    ]
}

/// How many `.tar.gz` layers `parse` unwraps at most.
pub open spec fn max_layers() -> nat {
    u64::MAX as nat
}

/// Unwraps `.tar.gz` layers, allowing `layers` more.
pub open spec fn spec_unwrap(data: Seq<u8>, layers: nat) -> Result<Seq<u8>, &'static str>
    decreases layers,
{
    if !is_gzip(data) {
        Ok(data)
    } else if layers == 0 {
        Err("nested archives")
    } else {
        match spec_untar(data) {
            Err(m) => Err(m),
            Ok(raw) => spec_unwrap(raw, (layers - 1) as nat),
        }
    }
}

/// The PE image inside an input and, for a disk image, the digest of its
/// partition table event; or the message the input fails with.
pub open spec fn spec_image(data: Seq<u8>) -> Result<(Seq<u8>, Option<Seq<u8>>), &'static str> {
    match spec_unwrap(data, max_layers()) {
        Err(m) => Err(m),
        Ok(d) => if is_gpt_disk(d) {
            match spec_extract_uki(d) {
                Err(m) => Err(m),
                Ok(pe) => Ok((pe, gpt_event_digest_of(d))),
            }
        } else {
            Ok((d, None))
        },
    }
}

/// A GCP `.tar.gz` measures as the disk image (or UKI) it holds: unwrapping
/// the archive changes nothing else.
pub proof fn law_archive_transparent(targz: Seq<u8>, inner: Seq<u8>)
    requires
        is_gzip(targz),
        spec_untar(targz) == Ok::<Seq<u8>, &'static str>(inner),
        !is_gzip(inner),
    ensures
        spec_image(targz) == spec_image(inner),
{
    assert(spec_unwrap(inner, (max_layers() - 1) as nat) == Ok::<Seq<u8>, &'static str>(inner));
    assert(spec_unwrap(inner, max_layers()) == Ok::<Seq<u8>, &'static str>(inner));
}

fn check_gzip(data: &[u8]) -> (r: bool)
    ensures
        r == is_gzip(data@),
{
    data.len() >= 2 && data[0] == 0x1f && data[1] == 0x8b
}

fn check_gpt(data: &[u8]) -> (r: bool)
    ensures
        r == is_gpt_disk(data@),
{
    if data.len() < 520 {
        return false;
    }
    let magic: [u8; 8] = [0x45, 0x46, 0x49, 0x20, 0x50, 0x41, 0x52, 0x54];
    let ghost want = seq![0x45u8, 0x46u8, 0x49u8, 0x20u8, 0x50u8, 0x41u8, 0x52u8, 0x54u8];
    assert(magic@ =~= want);
    let mut i: usize = 0;
    while i < 8
        invariant
            i <= 8,
            data@.len() >= 520,
            magic@ == want,
            want == seq![0x45u8, 0x46u8, 0x49u8, 0x20u8, 0x50u8, 0x41u8, 0x52u8, 0x54u8],
            forall|j: int| 0 <= j < i ==> #[trigger] data@[512 + j] == want[j],
        decreases 8 - i,
    {
        if data[512 + i] != magic[i] {
            assert(data@.subrange(512, 520)[i as int] == data@[512 + i]);
            assert(data@.subrange(512, 520)[i as int] != want[i as int]);
            assert(data@.subrange(512, 520) != want);
            return false;
        }
        i = i + 1;
    }
    assert(data@.subrange(512, 520) =~= want) by {
        assert forall|j: int| 0 <= j < 8 implies data@.subrange(512, 520)[j] == want[j] by {
            assert(data@[512 + j] == want[j]);
        }
    }
    true
}

/// An input whose EFI system partition, where it is a disk image, `fatfs`
/// walks safely.
pub open spec fn image_safe(data: Seq<u8>) -> bool {
    match spec_unwrap(data, max_layers()) {
        Err(_) => true,
        Ok(d) => is_gpt_disk(d) ==> disk_esp_safe(d),
    }
}

/// What `Uki::parse` gives for an input.
pub open spec fn parse_result(data: Seq<u8>, r: Result<Uki, UkiError>) -> bool {
    match spec_image(data) {
        Err(m) => r == Err::<Uki, UkiError>(UkiError::Disk(m)),
        Ok((pe, disk_guid_hash)) => {
            &&& r is Ok <==> pe_image_ok(pe)
            &&& r is Ok ==> r->Ok_0@ == spec_uki(pe, disk_guid_hash)
            &&& r is Err ==> r->Err_0 is Pe || r->Err_0 is Authenticode
            &&& r is Err ==> (r->Err_0 is Pe <==> pe_parse_fails(pe))
        },
    }
}

impl Uki {
    /// Parses a UKI file (`.efi`) or a disk image holding one (`.raw`, or a
    /// GCP `.tar.gz` around a `.raw`). Disk images are only needed where
    /// there is a separate rootfs.
    pub fn parse(data: &[u8]) -> (r: Result<Uki, UkiError>)
        requires
            image_safe(data@),
        ensures
            parse_result(data@, r),
    {
        match Self::parse_checked(data) {
            Some(r) => r,
            None => {
                proof {
                    assert(false);
                }
                Err(UkiError::Disk("invalid ESP filesystem"))
            },
        }
    }

    /// `parse`, on any input: `None` where the input is a disk image whose
    /// EFI system partition `fatfs` could not be trusted to walk.
    pub fn parse_checked(data: &[u8]) -> (r: Option<Result<Uki, UkiError>>)
        ensures
            r is None <==> !image_safe(data@),
            r matches Some(res) ==> parse_result(data@, res),
    {
        let mut current: Vec<u8> = to_vec(data);
        let mut layers: u64 = u64::MAX;
        while check_gzip(current.as_slice())
            invariant
                spec_unwrap(data@, max_layers()) == spec_unwrap(current@, layers as nat),
            decreases layers,
        {
            if layers == 0 {
                return Some(Err(UkiError::Disk("nested archives")));
            }
            current = match untar_disk_raw(current.as_slice()) {
                Ok(raw) => raw,
                Err(e) => {
                    return Some(Err(e));
                },
            };
            layers = layers - 1;
        }
        if check_gpt(current.as_slice()) {
            if !check_disk_esp(current.as_slice()) {
                return None;
            }
            let disk_guid_hash = disk_guid_hash_from_header(current.as_slice());
            let pe = match extract_uki(current.as_slice()) {
                Ok(pe) => pe,
                Err(e) => {
                    return Some(Err(e));
                },
            };
            assert(opt_bytes48(disk_guid_hash) == gpt_event_digest_of(current@));
            Some(Self::parse_pe(pe.as_slice(), disk_guid_hash))
        } else {
            Some(Self::parse_pe(current.as_slice(), None))
        }
    }
}

} // verus!
