//! Platform detection and hardware metadata, from values read off the
//! running system: DMI strings, block device names, SMBIOS memory device
//! records and the CCEL summary.

use vstd::prelude::*;

use crate::bytes::{le_u16, le_u32, read_u16_le, read_u32_le};
use crate::ccel::{CcelError, CcelInfo};
use crate::types::{AttestationType, PlatformMetadata};

verus! {

#[derive(Debug)]
pub enum PlatformError {
    Io(std::io::Error),
    Ccel(CcelError),
    TooFewDisks { detected_disks: u32, extra_disks: u32 },
}

/// `p` is a prefix of `s`.
pub open spec fn has_prefix(s: Seq<char>, p: Seq<char>) -> bool {
    p.len() <= s.len() && s.subrange(0, p.len() as int) == p
}

/// Whether the characters of `s` begin with those of `prefix`.
pub fn starts_with(s: &str, prefix: &str) -> (r: bool)
    ensures
        r == has_prefix(s@, prefix@),
{
    let n = prefix.unicode_len();
    if s.unicode_len() < n {
        return false;
    }
    let mut i: usize = 0;
    while i < n
        invariant
            i <= n,
            n == prefix@.len(),
            n <= s@.len(),
            forall|j: int| 0 <= j < i ==> s@[j] == prefix@[j],
        decreases n - i,
    {
        if s.get_char(i) != prefix.get_char(i) {
            assert(s@.subrange(0, n as int)[i as int] != prefix@[i as int]);
            return false;
        }
        i = i + 1;
    }
    assert(s@.subrange(0, n as int) =~= prefix@);
    true
}

/// Name prefixes of virtual block devices.
pub open spec fn virtual_prefixes() -> Seq<Seq<char>> {
    seq!["dm-"@, "loop"@, "md"@, "ram"@, "zram"@]
}

/// A block device name that stands for a virtual device.
pub open spec fn is_virtual_name(name: Seq<char>) -> bool {
    exists|i: int| 0 <= i < virtual_prefixes().len() && has_prefix(name, #[trigger] virtual_prefixes()[i])
}

/// Excludes virtual devices when counting the number of disks.
pub fn is_virtual_block_device(name: &str) -> (r: bool)
    ensures
        r == is_virtual_name(name@),
{
    let r = starts_with(name, "dm-") || starts_with(name, "loop") || starts_with(name, "md")
        || starts_with(name, "ram") || starts_with(name, "zram");
    proof {
        let p = virtual_prefixes();
        if r {
            if has_prefix(name@, "dm-"@) {
                assert(has_prefix(name@, p[0]));
            } else if has_prefix(name@, "loop"@) {
                assert(has_prefix(name@, p[1]));
            } else if has_prefix(name@, "md"@) {
                assert(has_prefix(name@, p[2]));
            } else if has_prefix(name@, "ram"@) {
                assert(has_prefix(name@, p[3]));
            } else {
                assert(has_prefix(name@, p[4]));
            }
        } else {
            assert forall|i: int| 0 <= i < p.len() implies !has_prefix(name@, #[trigger] p[i]) by {
                if i == 0 {
                } else if i == 1 {
                } else if i == 2 {
                } else if i == 3 {
                } else {
                }
            }
        }
    }
    r
}

/// The number of names that are not those of virtual devices.
pub open spec fn physical_count(names: Seq<Seq<char>>) -> nat
    decreases names.len(),
{
    if names.len() == 0 {
        0
    } else {
        physical_count(names.drop_last()) + if is_virtual_name(names.last()) {
            0nat
        } else {
            1nat
        }
    }
}

proof fn lemma_physical_count_bound(names: Seq<Seq<char>>)
    ensures
        physical_count(names) <= names.len(),
    decreases names.len(),
{
    if names.len() > 0 {
        lemma_physical_count_bound(names.drop_last());
    }
}

pub open spec fn names_view(names: Seq<String>) -> Seq<Seq<char>> {
    names.map_values(|n: String| n@)
}

/// Counts the disks among the entries of `/sys/block`.
pub fn count_disks(names: &[String]) -> (n: u32)
    requires
        names@.len() <= u32::MAX,
    ensures
        n == physical_count(names_view(names@)),
{
    let ghost all = names_view(names@);
    let mut n: u32 = 0;
    let mut i: usize = 0;
    while i < names.len()
        invariant
            i <= names@.len() <= u32::MAX,
            all == names_view(names@),
            n == physical_count(all.take(i as int)),
        decreases names@.len() - i,
    {
        proof {
            assert(all.take(i + 1).drop_last() =~= all.take(i as int));
            assert(all[i as int] == names@[i as int]@);
            lemma_physical_count_bound(all.take(i as int));
        }
        if !is_virtual_block_device(names[i].as_str()) {
            n = n + 1;
        }
        i = i + 1;
    }
    assert(all.take(names@.len() as int) =~= all);
    n
}

/// Name prefixes of the loop and RAM block devices that evidence generation
/// leaves out of the disk count.
pub open spec fn loop_or_ram_name(name: Seq<char>) -> bool {
    has_prefix(name, "loop"@) || has_prefix(name, "ram"@) || has_prefix(name, "zram"@)
}

/// The number of names that are not loop or RAM devices.
pub open spec fn non_loop_count(names: Seq<Seq<char>>) -> nat
    decreases names.len(),
{
    if names.len() == 0 {
        0
    } else {
        non_loop_count(names.drop_last()) + if loop_or_ram_name(names.last()) {
            0nat
        } else {
            1nat
        }
    }
}

proof fn lemma_non_loop_count_bound(names: Seq<Seq<char>>)
    ensures
        non_loop_count(names) <= names.len(),
    decreases names.len(),
{
    if names.len() > 0 {
        lemma_non_loop_count_bound(names.drop_last());
    }
}

/// Counts the disks among the entries of `/sys/block` as evidence
/// generation does: everything but loop and RAM devices.
pub fn count_evidence_disks(names: &[String]) -> (n: u32)
    requires
        names@.len() <= u32::MAX,
    ensures
        n == non_loop_count(names_view(names@)),
{
    let ghost all = names_view(names@);
    let mut n: u32 = 0;
    let mut i: usize = 0;
    while i < names.len()
        invariant
            i <= names@.len() <= u32::MAX,
            all == names_view(names@),
            n == non_loop_count(all.take(i as int)),
        decreases names@.len() - i,
    {
        proof {
            assert(all.take(i + 1).drop_last() =~= all.take(i as int));
            assert(all[i as int] == names@[i as int]@);
            lemma_non_loop_count_bound(all.take(i as int));
        }
        let name = names[i].as_str();
        if !(starts_with(name, "loop") || starts_with(name, "ram") || starts_with(name, "zram")) {
            n = n + 1;
        }
        i = i + 1;
    }
    assert(all.take(names@.len() as int) =~= all);
    n
}

/// An SMBIOS memory device (type 17) record, read from
/// `/sys/firmware/dmi/entries/<name>/raw`.
pub struct MemoryEntry {
    pub name: String,
    pub raw: Vec<u8>,
}

/// A DMI entry of type 17.
pub open spec fn is_memory_device(name: Seq<char>) -> bool {
    has_prefix(name, "17-"@)
}

/// Whether a memory device record holds its size fields.
pub open spec fn record_complete(raw: Seq<u8>) -> bool {
    raw.len() >= 0x0E && (le_u16(raw, 0x0C) == 0x7FFF ==> raw.len() >= 0x20)
}

/// The size of a memory device in MiB: the 16-bit size field, or the 32-bit
/// extended size where the former reads 0x7FFF (over 32 GiB).
pub open spec fn device_mib(raw: Seq<u8>) -> int {
    if le_u16(raw, 0x0C) == 0x7FFF {
        le_u32(raw, 0x1C)
    } else {
        le_u16(raw, 0x0C)
    }
}

pub open spec fn mib() -> int {
    1048576int
}

/// Total RAM, in bytes, of the memory devices among `entries`.
pub open spec fn total_ram(entries: Seq<(Seq<char>, Seq<u8>)>) -> int
    decreases entries.len(),
{
    if entries.len() == 0 {
        0
    } else {
        let e = entries.last();
        total_ram(entries.drop_last()) + if is_memory_device(e.0) {
            device_mib(e.1) * mib()
        } else {
            0
        }
    }
}

/// The memory device records are complete where they are read.
pub open spec fn entries_readable(entries: Seq<(Seq<char>, Seq<u8>)>) -> bool {
    forall|i: int|
        0 <= i < entries.len() && is_memory_device(#[trigger] entries[i].0) ==> record_complete(
            entries[i].1,
        )
}

pub open spec fn entries_view(entries: Seq<MemoryEntry>) -> Seq<(Seq<char>, Seq<u8>)> {
    entries.map_values(|e: MemoryEntry| (e.name@, e.raw@))
}

proof fn lemma_total_ram_monotone(entries: Seq<(Seq<char>, Seq<u8>)>, i: int)
    requires
        0 <= i <= entries.len(),
    ensures
        0 <= total_ram(entries.take(i)) <= total_ram(entries),
    decreases entries.len() - i,
{
    if i < entries.len() {
        lemma_total_ram_monotone(entries, i + 1);
        assert(entries.take(i + 1).drop_last() =~= entries.take(i));
    } else {
        assert(entries.take(i) =~= entries);
    }
    lemma_total_ram_nonneg(entries.take(i));
}

proof fn lemma_total_ram_nonneg(entries: Seq<(Seq<char>, Seq<u8>)>)
    ensures
        total_ram(entries) >= 0,
    decreases entries.len(),
{
    if entries.len() > 0 {
        lemma_total_ram_nonneg(entries.drop_last());
    }
}

/// Reads the total RAM size from the SMBIOS memory device entries; `None`
/// where the total does not fit in 64 bits.
pub fn ram_bytes(entries: &[MemoryEntry]) -> (total: Option<u64>)
    requires
        entries_readable(entries_view(entries@)),
    ensures
        total_ram(entries_view(entries@)) <= u64::MAX ==> total == Some(
            total_ram(entries_view(entries@)) as u64,
        ),
        total_ram(entries_view(entries@)) > u64::MAX ==> total is None,
{
    let ghost all = entries_view(entries@);
    let mut total: u64 = 0;
    let mut i: usize = 0;
    while i < entries.len()
        invariant
            i <= entries@.len(),
            all == entries_view(entries@),
            entries_readable(all),
            total == total_ram(all.take(i as int)),
        decreases entries@.len() - i,
    {
        let e = &entries[i];
        proof {
            assert(all[i as int] == (e.name@, e.raw@));
            assert(all.take(i + 1).drop_last() =~= all.take(i as int));
            lemma_total_ram_monotone(all, i + 1);
        }
        if starts_with(e.name.as_str(), "17-") {
            let size = read_u16_le(e.raw.as_slice(), 0x0C);
            let mb: u64 = if size == 0x7FFF {
                read_u32_le(e.raw.as_slice(), 0x1C) as u64
            } else {
                size as u64
            };
            let add = mb * 1024 * 1024;
            total = match total.checked_add(add) {
                Some(t) => t,
                None => {
                    proof {
                        lemma_total_ram_monotone(all, i + 1);
                    }
                    return None;
                },
            };
        }
        i = i + 1;
    }
    assert(all.take(entries@.len() as int) =~= all);
    Some(total)
}

/// The first DMI identification string that names a known cloud.
pub open spec fn spec_detect(values: Seq<Option<Seq<char>>>) -> AttestationType
    decreases values.len(),
{
    if values.len() == 0 {
        AttestationType::SelfHostedTdx
    } else {
        match values[0] {
            Some(s) => if has_prefix(s, "Google Compute Engine"@) {
                AttestationType::GcpTdx
            } else if has_prefix(s, "Hyper-V"@) {
                AttestationType::AzureTdx
            } else {
                spec_detect(values.drop_first())
            },
            None => spec_detect(values.drop_first()),
        }
    }
}

pub open spec fn dmi_view(values: Seq<Option<String>>) -> Seq<Option<Seq<char>>> {
    values.map_values(
        |v: Option<String>|
            match v {
                Some(s) => Some(s@),
                None => None,
            },
    )
}

/// Identifies the platform from the trimmed DMI strings `product_name`,
/// `sys_vendor`, `board_vendor`, `bios_vendor` and `product_version`, in
/// that order (`None` where one cannot be read).
pub fn detect_from_dmi(values: &[Option<String>]) -> (t: AttestationType)
    ensures
        t == spec_detect(dmi_view(values@)),
{
    let ghost all = dmi_view(values@);
    assert(all.skip(0) =~= all);
    let mut i: usize = 0;
    while i < values.len()
        invariant
            i <= values@.len(),
            all == dmi_view(values@),
            spec_detect(all) == spec_detect(all.skip(i as int)),
        decreases values@.len() - i,
    {
        let ghost rest = all.skip(i as int);
        assert(rest.drop_first() =~= all.skip(i + 1));
        assert(rest[0] == all[i as int]);
        match &values[i] {
            Some(s) => {
                if starts_with(s.as_str(), "Google Compute Engine") {
                    return AttestationType::GcpTdx;
                }
                if starts_with(s.as_str(), "Hyper-V") {
                    return AttestationType::AzureTdx;
                }
            },
            None => {},
        }
        i = i + 1;
    }
    assert(all.skip(values@.len() as int) =~= Seq::<Option<Seq<char>>>::empty());
    AttestationType::SelfHostedTdx
}

/// Whether the platform's metadata includes the CCEL summary.
pub open spec fn spec_uses_ccel(t: AttestationType) -> bool {
    t == AttestationType::GcpTdx || t == AttestationType::SelfHostedTdx
}

/// Whether metadata for this platform reads the CCEL.
pub fn uses_ccel(t: AttestationType) -> (r: bool)
    ensures
        r == spec_uses_ccel(t),
{
    match t {
        AttestationType::GcpTdx | AttestationType::SelfHostedTdx => true,
        AttestationType::AzureTdx => false,
    }
}

/// Disks the platform itself attaches beyond the image's own.
pub open spec fn spec_extra_disks(t: AttestationType) -> u32 {
    match t {
        AttestationType::GcpTdx => 2,
        AttestationType::AzureTdx => 1,
        AttestationType::SelfHostedTdx => 0,
    }
}

/// The disks a platform attaches besides the image's own: GCP attaches
/// two, Azure one, and a self-hosted TD none, so a self-hosted TD's disk
/// count is every disk detected.
pub proof fn law_platform_disks(d: u32)
    ensures
        spec_extra_disks(AttestationType::SelfHostedTdx) == 0,
        spec_extra_disks(AttestationType::GcpTdx) == 2,
        spec_extra_disks(AttestationType::AzureTdx) == 1,
        d >= spec_extra_disks(AttestationType::SelfHostedTdx) && d - spec_extra_disks(
            AttestationType::SelfHostedTdx,
        ) == d,
{
}

/// The platform metadata from what was read off the system: the CCEL
/// summary (read only where `uses_ccel`), the number of disks detected and
/// the RAM size.
pub fn metadata_from(
    attestation_type: AttestationType,
    ccel: Option<CcelInfo>,
    detected_disks: u32,
    ram_bytes: u64,
) -> (r: Result<PlatformMetadata, PlatformError>)
    requires
        spec_uses_ccel(attestation_type) <==> ccel is Some,
    ensures
        detected_disks < spec_extra_disks(attestation_type) ==> r == Err::<
            PlatformMetadata,
            PlatformError,
        >(
            PlatformError::TooFewDisks {
                detected_disks,
                extra_disks: spec_extra_disks(attestation_type),
            },
        ),
        detected_disks >= spec_extra_disks(attestation_type) ==> r == Ok::<
            PlatformMetadata,
            PlatformError,
        >(
            PlatformMetadata {
                attestation_type,
                ram_bytes,
                num_disks: (detected_disks - spec_extra_disks(attestation_type)) as u32,
                acpi: match ccel {
                    Some(info) => Some(info.acpi),
                    None => None,
                },
                smbios_handoff: match ccel {
                    Some(info) => info.smbios_handoff,
                    None => None,
                },
                dm_verity_boot: match ccel {
                    Some(info) => info.dm_verity_boot,
                    None => false,
                },
            },
        ),
        attestation_type == AttestationType::SelfHostedTdx ==> r is Ok && r->Ok_0.num_disks
            == detected_disks,
        attestation_type == AttestationType::GcpTdx && detected_disks >= 2 ==> r is Ok
            && r->Ok_0.num_disks == detected_disks - 2,
        attestation_type == AttestationType::AzureTdx && detected_disks >= 1 ==> r is Ok
            && r->Ok_0.num_disks == detected_disks - 1,
{
    let (acpi, smbios_handoff, dm_verity_boot) = match ccel {
        Some(info) => (Some(info.acpi), info.smbios_handoff, info.dm_verity_boot),
        None => (None, None, false),
    };
    let extra_disks: u32 = match attestation_type {
        AttestationType::GcpTdx => 2,
        AttestationType::AzureTdx => 1,
        AttestationType::SelfHostedTdx => 0,
    };
    let num_disks = match detected_disks.checked_sub(extra_disks) {
        Some(n) => n,
        None => {
            return Err(PlatformError::TooFewDisks { detected_disks, extra_disks });
        },
    };
    Ok(PlatformMetadata { attestation_type, ram_bytes, num_disks, acpi, smbios_handoff, dm_verity_boot })
}

// ---------------------------------------------------------------------------
// /proc/meminfo
// ---------------------------------------------------------------------------

/// `char::is_whitespace`: the Unicode White_Space property.
pub open spec fn is_white_space(c: char) -> bool {
    let v = c as u32;
    (0x09 <= v <= 0x0D) || v == 0x20 || v == 0x85 || v == 0xA0 || v == 0x1680 || (0x2000 <= v
        <= 0x200A) || v == 0x2028 || v == 0x2029 || v == 0x202F || v == 0x205F || v == 0x3000
}

fn white_space(c: char) -> (r: bool)
    ensures
        r == is_white_space(c),
{
    let v = c as u32;
    (0x09 <= v && v <= 0x0D) || v == 0x20 || v == 0x85 || v == 0xA0 || v == 0x1680 || (0x2000 <= v
        && v <= 0x200A) || v == 0x2028 || v == 0x2029 || v == 0x202F || v == 0x205F || v == 0x3000
}

/// Index of the first character of `s[from..to]` that is not white space
/// (`to` if none).
pub open spec fn skip_ws(s: Seq<char>, from: int, to: int) -> int
    decreases to - from,
{
    if from < to && is_white_space(s[from]) {
        skip_ws(s, from + 1, to)
    } else {
        from
    }
}

/// One past the last character of `s[from..to]` that is not white space
/// (`from` if none).
pub open spec fn skip_ws_back(s: Seq<char>, from: int, to: int) -> int
    decreases to - from,
{
    if from < to && is_white_space(s[to - 1]) {
        skip_ws_back(s, from, to - 1)
    } else {
        to
    }
}

/// `str::trim` of `s[from..to]`, as a range.
pub open spec fn trimmed(s: Seq<char>, from: int, to: int) -> (int, int) {
    let a = skip_ws(s, from, to);
    (a, skip_ws_back(s, a, to))
}

/// The end of the line that starts at `from`: the next `\n`, or the end.
pub open spec fn line_end(s: Seq<char>, from: int) -> int
    decreases s.len() - from,
{
    if from >= s.len() || s[from] == '\n' {
        from
    } else {
        line_end(s, from + 1)
    }
}

/// The decimal value of `s[from..to]`, all ASCII digits.
pub open spec fn decimal(s: Seq<char>, from: int, to: int) -> int
    decreases to - from,
{
    if to <= from {
        0
    } else {
        decimal(s, from, to - 1) * 10 + (s[to - 1] as int - 0x30)
    }
}

pub open spec fn is_digit(c: char) -> bool {
    '0' <= c <= '9'
}

/// `u64::from_str` of `s[from..to]`: an optional `+`, then one or more
/// ASCII digits, of a value that fits.
pub open spec fn parse_u64(s: Seq<char>, from: int, to: int) -> Option<u64> {
    let d = if from < to && s[from] == '+' {
        from + 1
    } else {
        from
    };
    if d >= to || exists|i: int| d <= i < to && !is_digit(#[trigger] s[i]) {
        None
    } else if decimal(s, d, to) > u64::MAX {
        None
    } else {
        Some(decimal(s, d, to) as u64)
    }
}

/// What a `MemTotal:` line (the characters after the prefix, the line end
/// and a trailing `\r` removed) gives: the number before `kB`.
pub open spec fn mem_total_value(s: Seq<char>, from: int, to: int) -> Option<u64> {
    let (a, b) = trimmed(s, from, to);
    if b - a >= 2 && s[b - 2] == 'k' && s[b - 1] == 'B' {
        let (c, d) = trimmed(s, a, b - 2);
        parse_u64(s, c, d)
    } else {
        None
    }
}

/// The end of a line's content: a `\r` before the line end is not part of
/// it.
pub open spec fn content_end(s: Seq<char>, from: int, end: int) -> int {
    if end > from && s[end - 1] == '\r' {
        end - 1
    } else {
        end
    }
}

/// The total memory in kB that `/proc/meminfo` reports: the first line
/// starting `MemTotal:` (lines split as `str::lines` does), then its value.
pub open spec fn meminfo_kb(s: Seq<char>, from: int) -> Option<u64>
    decreases s.len() - from,
{
    if from >= s.len() {
        None
    } else {
        let end = line_end(s, from);
        proof {
            lemma_line_end(s, from);
        }
        let content = content_end(s, from, end);
        if content - from >= 9 && s.subrange(from, from + 9) == "MemTotal:"@ {
            mem_total_value(s, from + 9, content)
        } else if end >= s.len() {
            None
        } else {
            meminfo_kb(s, end + 1)
        }
    }
}

pub proof fn lemma_line_end(s: Seq<char>, from: int)
    ensures
        from <= line_end(s, from),
        from <= s.len() ==> line_end(s, from) <= s.len(),
        line_end(s, from) < s.len() ==> s[line_end(s, from)] == '\n',
        forall|i: int| from <= i < line_end(s, from) ==> s[i] != '\n',
    decreases s.len() - from,
{
    if !(from >= s.len() || s[from] == '\n') {
        lemma_line_end(s, from + 1);
    }
}

fn skip_ws_exec(s: &[char], from: usize, to: usize) -> (r: usize)
    requires
        from <= to <= s@.len(),
    ensures
        r == skip_ws(s@, from as int, to as int),
        from <= r <= to,
{
    let mut i = from;
    while i < to && white_space(s[i])
        invariant
            from <= i <= to <= s@.len(),
            skip_ws(s@, from as int, to as int) == skip_ws(s@, i as int, to as int),
        decreases to - i,
    {
        i = i + 1;
    }
    i
}

fn skip_ws_back_exec(s: &[char], from: usize, to: usize) -> (r: usize)
    requires
        from <= to <= s@.len(),
    ensures
        r == skip_ws_back(s@, from as int, to as int),
        from <= r <= to,
{
    let mut j = to;
    while from < j && white_space(s[j - 1])
        invariant
            from <= j <= to <= s@.len(),
            skip_ws_back(s@, from as int, to as int) == skip_ws_back(s@, from as int, j as int),
        decreases j - from,
    {
        j = j - 1;
    }
    j
}

fn parse_u64_exec(s: &[char], from: usize, to: usize) -> (r: Option<u64>)
    requires
        from <= to <= s@.len(),
    ensures
        r == parse_u64(s@, from as int, to as int),
{
    let d = if from < to && s[from] == '+' {
        from + 1
    } else {
        from
    };
    if d >= to {
        return None;
    }
    let mut value: u64 = 0;
    let mut i = d;
    while i < to
        invariant
            d <= i <= to <= s@.len(),
            d < to,
            d == (if from < to && s@[from as int] == '+' {
                from + 1
            } else {
                from as int
            }),
            forall|k: int| d <= k < i ==> is_digit(#[trigger] s@[k]),
            value == decimal(s@, d as int, i as int),
        decreases to - i,
    {
        let c = s[i];
        if !('0' <= c && c <= '9') {
            assert(!is_digit(s@[i as int]));
            assert(d <= i < to);
            assert(exists|k: int| d <= k < to && !is_digit(#[trigger] s@[k]));
            return None;
        }
        let digit = (c as u32 - 0x30) as u64;
        if value > (u64::MAX - digit) / 10 {
            proof {
                assert(is_digit(s@[i as int]));
                assert(decimal(s@, d as int, i + 1) == value * 10 + digit);
                assert(value * 10 + digit > u64::MAX) by (nonlinear_arith)
                    requires
                        value > (u64::MAX - digit) / 10,
                        digit <= 9,
                ;
                if forall|k: int| d <= k < to ==> is_digit(#[trigger] s@[k]) {
                    lemma_decimal_monotone(s@, d as int, i + 1, to as int);
                }
            }
            return None;
        }
        assert(value * 10 + digit <= u64::MAX) by (nonlinear_arith)
            requires
                value <= (u64::MAX - digit) / 10,
                digit <= 9,
        ;
        value = value * 10 + digit;
        i = i + 1;
    }
    Some(value)
}

proof fn lemma_decimal_monotone(s: Seq<char>, from: int, mid: int, to: int)
    requires
        from <= mid <= to <= s.len(),
        forall|k: int| from <= k < to ==> is_digit(#[trigger] s[k]),
    ensures
        decimal(s, from, mid) <= decimal(s, from, to),
    decreases to - mid,
{
    if mid < to {
        lemma_decimal_monotone(s, from, mid, to - 1);
        lemma_decimal_nonneg(s, from, to - 1);
        assert(is_digit(s[to - 1]));
        assert(decimal(s, from, to - 1) <= decimal(s, from, to - 1) * 10) by (nonlinear_arith)
            requires
                decimal(s, from, to - 1) >= 0,
        ;
    }
}

proof fn lemma_decimal_nonneg(s: Seq<char>, from: int, to: int)
    requires
        from <= to <= s.len(),
        forall|k: int| from <= k < to ==> is_digit(#[trigger] s[k]),
    ensures
        decimal(s, from, to) >= 0,
    decreases to - from,
{
    if from < to {
        lemma_decimal_nonneg(s, from, to - 1);
        assert(is_digit(s[to - 1]));
        assert(decimal(s, from, to - 1) * 10 >= 0) by (nonlinear_arith)
            requires
                decimal(s, from, to - 1) >= 0,
        ;
    }
}

fn mem_total_value_exec(s: &[char], from: usize, to: usize) -> (r: Option<u64>)
    requires
        from <= to <= s@.len(),
    ensures
        r == mem_total_value(s@, from as int, to as int),
{
    let a = skip_ws_exec(s, from, to);
    let b = skip_ws_back_exec(s, a, to);
    if b - a >= 2 && s[b - 2] == 'k' && s[b - 1] == 'B' {
        let c = skip_ws_exec(s, a, b - 2);
        let d = skip_ws_back_exec(s, c, b - 2);
        parse_u64_exec(s, c, d)
    } else {
        None
    }
}

/// The total memory, in kB, that the text of `/proc/meminfo` reports.
pub fn meminfo_total_kb(text: &str) -> (kb: Option<u64>)
    ensures
        kb == meminfo_kb(text@, 0),
{
    let s = crate::text::str_chars(text);
    let prefix = crate::text::str_chars("MemTotal:");
    proof {
        reveal_strlit("MemTotal:");
    }
    let n = s.len();
    let mut from: usize = 0;
    while from < n
        invariant
            n == s@.len(),
            s@ == text@,
            prefix@ == "MemTotal:"@,
            from <= n,
            meminfo_kb(text@, 0) == meminfo_kb(s@, from as int),
        decreases n - from,
    {
        let mut end = from;
        while end < n && s[end] != '\n'
            invariant
                from <= end <= n,
                n == s@.len(),
                line_end(s@, from as int) == line_end(s@, end as int),
            decreases n - end,
        {
            end = end + 1;
        }
        let content = if end > from && s[end - 1] == '\r' {
            end - 1
        } else {
            end
        };
        proof {
            reveal_strlit("MemTotal:");
        }
        if content - from >= 9 {
            let mut matches = true;
            let mut k: usize = 0;
            while k < 9
                invariant
                    k <= 9,
                    from + 9 <= n,
                    n == s@.len(),
                    prefix@ == "MemTotal:"@,
                    prefix@.len() == 9,
                    matches == (forall|j: int| 0 <= j < k ==> s@[from + j] == prefix@[j]),
                decreases 9 - k,
            {
                if s[from + k] != prefix[k] {
                    matches = false;
                }
                k = k + 1;
            }
            proof {
                if matches {
                    assert(s@.subrange(from as int, from + 9) =~= "MemTotal:"@);
                } else {
                    let j = choose|j: int| 0 <= j < 9 && s@[from + j] != prefix@[j];
                    assert(s@.subrange(from as int, from + 9)[j] != "MemTotal:"@[j]);
                }
            }
            if matches {
                return mem_total_value_exec(s.as_slice(), from + 9, content);
            }
        }
        if end >= n {
            proof {
                assert(meminfo_kb(s@, end + 1) == None::<u64>);
            }
            return None;
        }
        from = end + 1;
    }
    None
}

} // verus!
