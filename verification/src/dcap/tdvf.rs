//! TDX Virtual Firmware (TDVF) metadata parsing.
//!
//! The GUID table at the end of an OVMF blob is scanned backward to find the
//! TDX metadata descriptor, which gives the firmware sections (their image
//! offsets, guest-physical addresses and attributes). From those the MRTD and
//! the Configuration Firmware Volume (CFV) digest are computed.

use vstd::prelude::*;

use crate::bytes::{
    le_bytes_u64, le_u16, le_u32, le_u64, push_bytes, push_u64_le, push_zeros, read_u16_le,
    read_u32_le, read_u64_le, to_vec, zeros,
};
use crate::hash::{sha384, sha384_of};
use crate::text::{chars_eq_str, hex_byte, hex_bytes, push_hex, string_from_chars};

verus! {

pub const FW_GUID_TABLE_OFFSET_FROM_END: usize = 0x20;

/// A GUID table entry ends with a `u16` size and a 16-byte GUID.
pub const FW_GUID_ENTRY_SIZE: usize = 18;

/// GUID identifying the TDX metadata offset entry in the firmware footer table.
pub const TDX_METADATA_OFFSET_GUID: &'static str = "e47a6535-984a-4798-865e-4685a7bf8ec2";

pub const SECTION_TYPE_CFV: u32 = 1;

pub const SECTION_TYPE_TD_HOB: u32 = 2;

pub const SECTION_TYPE_TEMP_MEM: u32 = 3;

pub const PAGE_SIZE: u64 = 0x1000;

pub const MR_EXTEND_GRANULARITY: usize = 0x100;

pub const ATTRIBUTE_MR_EXTEND: u32 = 0x01;

pub const ATTRIBUTE_PAGE_AUG: u32 = 0x02;

#[derive(Debug)]
pub enum TdvfError {
    Truncated { what: &'static str, len: usize, expected: usize },
    OutOfBounds { what: &'static str, start: u64, end: u64, len: u64 },
    TDXMetadataMissing,
    CfvMissing,
}

/// One section of the TDX metadata descriptor.
#[derive(Debug, Clone, Copy)]
pub struct Section {
    pub image_offset: u32,
    pub raw_data_size: u32,
    pub memory_address: u64,
    pub memory_data_size: u64,
    pub kind: u32,
    pub attributes: u32,
}

// ---------------------------------------------------------------------------
// GUID footer table
// ---------------------------------------------------------------------------

/// The trailing `(size, guid)` of a GUID table.
pub open spec fn spec_last_entry(table: Seq<u8>) -> Result<(int, Seq<u8>), TdvfError> {
    if table.len() < FW_GUID_ENTRY_SIZE {
        Err(
            TdvfError::Truncated {
                what: "GUID table entry",
                len: table.len() as usize,
                expected: FW_GUID_ENTRY_SIZE,
            },
        )
    } else {
        let at = table.len() - FW_GUID_ENTRY_SIZE;
        Ok((le_u16(table, at), table.subrange(at + 2, table.len() as int)))
    }
}

/// The GUID table: the bytes before the anchor entry that sits
/// `FW_GUID_TABLE_OFFSET_FROM_END` bytes before the end of the firmware.
pub open spec fn spec_guid_table(fw: Seq<u8>) -> Result<Seq<u8>, TdvfError> {
    if fw.len() < FW_GUID_TABLE_OFFSET_FROM_END {
        Err(
            TdvfError::Truncated {
                what: "firmware GUID footer",
                len: fw.len() as usize,
                expected: FW_GUID_TABLE_OFFSET_FROM_END,
            },
        )
    } else {
        let trimmed = fw.subrange(0, fw.len() - FW_GUID_TABLE_OFFSET_FROM_END);
        match spec_last_entry(trimmed) {
            Err(e) => Err(e),
            Ok((size, _)) => if trimmed.len() < size {
                Err(
                    TdvfError::OutOfBounds {
                        what: "GUID table",
                        start: 0,
                        end: size as u64,
                        len: trimmed.len() as u64,
                    },
                )
            } else {
                Ok(trimmed.subrange(trimmed.len() - size, trimmed.len() - FW_GUID_ENTRY_SIZE))
            },
        }
    }
}

/// The anchor entry's size covers at least the anchor itself (otherwise the
/// bounds of the table would cross).
pub open spec fn guid_table_sound(fw: Seq<u8>) -> bool {
    fw.len() >= FW_GUID_TABLE_OFFSET_FROM_END ==> {
        let trimmed = fw.subrange(0, fw.len() - FW_GUID_TABLE_OFFSET_FROM_END);
        match spec_last_entry(trimmed) {
            Ok((size, _)) => size <= trimmed.len() ==> size >= FW_GUID_ENTRY_SIZE,
            Err(_) => true,
        }
    }
}

/// The `(guid, data)` entries of a GUID table, in backward scan order (the
/// entry at the end of the table first).
pub open spec fn spec_guid_entries(table: Seq<u8>) -> Result<Seq<(Seq<u8>, Seq<u8>)>, TdvfError>
    decreases table.len(),
{
    if table.len() == 0 {
        Ok(Seq::empty())
    } else {
        match spec_last_entry(table) {
            Err(e) => Err(e),
            Ok((size, guid)) => if table.len() < size {
                Err(
                    TdvfError::OutOfBounds {
                        what: "GUID table entry",
                        start: 0,
                        end: size as u64,
                        len: table.len() as u64,
                    },
                )
            } else if size < FW_GUID_ENTRY_SIZE {
                Ok(Seq::empty())
            } else {
                let entry_start = table.len() - size;
                let data = table.subrange(entry_start, table.len() - FW_GUID_ENTRY_SIZE);
                match spec_guid_entries(table.subrange(0, entry_start)) {
                    Err(e) => Err(e),
                    Ok(rest) => Ok(seq![(guid, data)] + rest),
                }
            },
        }
    }
}

/// Every entry that the backward scan reaches covers at least its own
/// trailer (otherwise the bounds of its data would cross).
pub open spec fn guid_entries_sound(table: Seq<u8>) -> bool
    decreases table.len(),
{
    table.len() > 0 ==> match spec_last_entry(table) {
        Err(_) => true,
        Ok((size, _)) => size <= table.len() ==> size >= FW_GUID_ENTRY_SIZE && guid_entries_sound(
            table.subrange(0, table.len() - size),
        ),
    }
}

/// The firmware footer can be scanned without crossing bounds.
pub open spec fn footer_sound(fw: Seq<u8>) -> bool {
    &&& guid_table_sound(fw)
    &&& spec_guid_table(fw) matches Ok(t) ==> guid_entries_sound(t)
}

/// The GUID table entries of the firmware footer.
pub open spec fn spec_guid_map(fw: Seq<u8>) -> Result<Seq<(Seq<u8>, Seq<u8>)>, TdvfError> {
    match spec_guid_table(fw) {
        Err(e) => Err(e),
        Ok(t) => spec_guid_entries(t),
    }
}

/// The standard mixed-endian text of a 16-byte GUID.
pub open spec fn guid_text(g: Seq<u8>) -> Seq<char> {
    hex_byte(g[3]) + hex_byte(g[2]) + hex_byte(g[1]) + hex_byte(g[0]) + seq!['-'] + hex_byte(g[5])
        + hex_byte(g[4]) + seq!['-'] + hex_byte(g[7]) + hex_byte(g[6]) + seq!['-']
        + hex_bytes(g.subrange(8, 10)) + seq!['-'] + hex_bytes(g.subrange(10, 16))
}

/// The data of the entry with the given GUID text that was scanned last
/// (later entries of the scan overwrite earlier ones with the same GUID).
pub open spec fn lookup_guid(entries: Seq<(Seq<u8>, Seq<u8>)>, key: Seq<char>) -> Option<Seq<u8>>
    decreases entries.len(),
{
    if entries.len() == 0 {
        None
    } else if guid_text(entries.last().0) == key {
        Some(entries.last().1)
    } else {
        lookup_guid(entries.drop_last(), key)
    }
}

/// The TDX metadata offset recorded in the firmware footer.
pub open spec fn spec_tdx_metadata_offset(fw: Seq<u8>) -> Result<int, TdvfError> {
    match spec_guid_map(fw) {
        Err(e) => Err(e),
        Ok(entries) => match lookup_guid(entries, TDX_METADATA_OFFSET_GUID@) {
            None => Err(TdvfError::TDXMetadataMissing),
            Some(entry) => if entry.len() < 4 {
                Err(
                    TdvfError::Truncated {
                        what: "TDX metadata offset entry",
                        len: entry.len() as usize,
                        expected: 4,
                    },
                )
            } else {
                Ok(le_u32(entry, 0))
            },
        },
    }
}

/// The section descriptor encoded at `s[at..at + 32]`.
pub open spec fn section_at(s: Seq<u8>, at: int) -> Section {
    Section {
        image_offset: le_u32(s, at) as u32,
        raw_data_size: le_u32(s, at + 4) as u32,
        memory_address: le_u64(s, at + 8) as u64,
        memory_data_size: le_u64(s, at + 16) as u64,
        kind: le_u32(s, at + 24) as u32,
        attributes: le_u32(s, at + 28) as u32,
    }
}

/// The sections of the TDX metadata descriptor.
#[verifier::opaque]
pub open spec fn spec_tdx_metadata_sections(fw: Seq<u8>) -> Result<Seq<Section>, TdvfError> {
    match spec_tdx_metadata_offset(fw) {
        Err(e) => Err(e),
        Ok(offset) => if offset > fw.len() {
            Err(
                TdvfError::OutOfBounds {
                    what: "TDX metadata offset",
                    start: 0,
                    end: offset as u64,
                    len: fw.len() as u64,
                },
            )
        } else {
            let cursor = fw.subrange(fw.len() - offset, fw.len() as int);
            if cursor.len() < 16 {
                Err(
                    TdvfError::Truncated {
                        what: "TDX metadata descriptor",
                        len: cursor.len() as usize,
                        expected: 16,
                    },
                )
            } else {
                let n = le_u32(cursor, 12);
                if 16 + 32 * n <= cursor.len() {
                    Ok(Seq::new(n as nat, |i: int| section_at(cursor, 16 + 32 * i)))
                } else {
                    Err(
                        TdvfError::Truncated {
                            what: "TDX metadata section",
                            len: ((cursor.len() - 16) % 32) as usize,
                            expected: 32,
                        },
                    )
                }
            }
        },
    }
}

// ---------------------------------------------------------------------------
// Executable parsing
// ---------------------------------------------------------------------------

struct Entry {
    size: u16,
    guid: Vec<u8>,
}

impl Entry {
    /// Characters of the standard mixed-endian GUID string.
    fn guid_chars(&self) -> (text: Vec<char>)
        requires
            self.guid@.len() == 16,
        ensures
            text@ == guid_text(self.guid@),
    {
        let g = self.guid.as_slice();
        let mut out: Vec<char> = Vec::new();
        push_hex(&mut out, g, 3, 4);
        push_hex(&mut out, g, 2, 3);
        push_hex(&mut out, g, 1, 2);
        push_hex(&mut out, g, 0, 1);
        out.push('-');
        push_hex(&mut out, g, 5, 6);
        push_hex(&mut out, g, 4, 5);
        out.push('-');
        push_hex(&mut out, g, 7, 8);
        push_hex(&mut out, g, 6, 7);
        out.push('-');
        push_hex(&mut out, g, 8, 10);
        out.push('-');
        push_hex(&mut out, g, 10, 16);
        proof {
            reveal_with_fuel(hex_bytes, 2);
            assert(g@.subrange(3, 4).drop_last() =~= Seq::<u8>::empty());
            assert(g@.subrange(2, 3).drop_last() =~= Seq::<u8>::empty());
            assert(g@.subrange(1, 2).drop_last() =~= Seq::<u8>::empty());
            assert(g@.subrange(0, 1).drop_last() =~= Seq::<u8>::empty());
            assert(g@.subrange(5, 6).drop_last() =~= Seq::<u8>::empty());
            assert(g@.subrange(4, 5).drop_last() =~= Seq::<u8>::empty());
            assert(g@.subrange(7, 8).drop_last() =~= Seq::<u8>::empty());
            assert(g@.subrange(6, 7).drop_last() =~= Seq::<u8>::empty());
            assert(out@ =~= guid_text(self.guid@));
        }
        out
    }

    /// Standard mixed-endian GUID string.
    fn guid_string(&self) -> (text: String)
        requires
            self.guid@.len() == 16,
        ensures
            text@ == guid_text(self.guid@),
    {
        let chars = self.guid_chars();
        string_from_chars(chars.as_slice())
    }
}

/// The text of a 16-byte GUID, as used for the keys of the footer table.
pub fn guid_string(guid: &[u8]) -> (text: String)
    requires
        guid@.len() == 16,
    ensures
        text@ == guid_text(guid@),
{
    let entry = Entry { size: 0, guid: to_vec(guid) };
    entry.guid_string()
}

fn last_entry(table: &[u8]) -> (r: Result<Entry, TdvfError>)
    ensures
        match r {
            Ok(e) => spec_last_entry(table@) == Ok::<(int, Seq<u8>), TdvfError>(
                (e.size as int, e.guid@),
            ) && e.guid@.len() == 16,
            Err(e) => spec_last_entry(table@) == Err::<(int, Seq<u8>), TdvfError>(e),
        },
{
    if table.len() < FW_GUID_ENTRY_SIZE {
        return Err(
            TdvfError::Truncated {
                what: "GUID table entry",
                len: table.len(),
                expected: FW_GUID_ENTRY_SIZE,
            },
        );
    }
    let entry_start = table.len() - FW_GUID_ENTRY_SIZE;
    let size = read_u16_le(table, entry_start);
    let guid = to_vec(&table[entry_start + 2..table.len()]);
    Ok(Entry { size, guid })
}

fn parse_guid_table(fw: &[u8]) -> (r: Result<&[u8], TdvfError>)
    requires
        guid_table_sound(fw@),
    ensures
        match r {
            Ok(t) => spec_guid_table(fw@) == Ok::<Seq<u8>, TdvfError>(t@),
            Err(e) => spec_guid_table(fw@) == Err::<Seq<u8>, TdvfError>(e),
        },
{
    if fw.len() < FW_GUID_TABLE_OFFSET_FROM_END {
        return Err(
            TdvfError::Truncated {
                what: "firmware GUID footer",
                len: fw.len(),
                expected: FW_GUID_TABLE_OFFSET_FROM_END,
            },
        );
    }
    let trimmed = &fw[0..fw.len() - FW_GUID_TABLE_OFFSET_FROM_END];
    let anchor = last_entry(trimmed)?;
    let table_size = anchor.size as usize;
    if trimmed.len() < table_size {
        return Err(
            TdvfError::OutOfBounds {
                what: "GUID table",
                start: 0,
                end: table_size as u64,
                len: trimmed.len() as u64,
            },
        );
    }
    let start = trimmed.len() - table_size;
    let end = trimmed.len() - FW_GUID_ENTRY_SIZE;
    Ok(&trimmed[start..end])
}

/// One `(guid, data)` entry of the firmware footer table.
pub struct GuidEntry {
    pub guid: Vec<u8>,
    pub data: Vec<u8>,
}

pub open spec fn guid_entries_view(entries: Seq<GuidEntry>) -> Seq<(Seq<u8>, Seq<u8>)> {
    entries.map_values(|e: GuidEntry| (e.guid@, e.data@))
}

/// Scans the firmware footer GUID table backward, collecting its entries in
/// scan order.
#[verifier::loop_isolation(false)]
fn parse_guid_map(fw: &[u8]) -> (r: Result<Vec<GuidEntry>, TdvfError>)
    requires
        footer_sound(fw@),
    ensures
        match r {
            Ok(m) => spec_guid_map(fw@) == Ok::<Seq<(Seq<u8>, Seq<u8>)>, TdvfError>(
                guid_entries_view(m@),
            ) && forall|i: int| 0 <= i < m@.len() ==> (#[trigger] m@[i]).guid@.len() == 16,
            Err(e) => spec_guid_map(fw@) == Err::<Seq<(Seq<u8>, Seq<u8>)>, TdvfError>(e),
        },
{
    let table = parse_guid_table(fw)?;
    let mut map: Vec<GuidEntry> = Vec::new();
    let mut remaining = table;
    while remaining.len() > 0
        invariant
            guid_entries_sound(remaining@),
            forall|i: int| 0 <= i < map@.len() ==> (#[trigger] map@[i]).guid@.len() == 16,
            spec_guid_entries(table@) == match spec_guid_entries(remaining@) {
                Ok(rest) => Ok(guid_entries_view(map@) + rest),
                Err(e) => Err(e),
            },
        decreases remaining@.len(),
    {
        let entry = match last_entry(remaining) {
            Ok(e) => e,
            Err(e) => {
                assert(spec_guid_entries(remaining@) == Err::<Seq<(Seq<u8>, Seq<u8>)>, TdvfError>(e));
                return Err(e);
            },
        };
        let entry_size = entry.size as usize;
        if remaining.len() < entry_size {
            assert(spec_guid_entries(remaining@) is Err);
            return Err(
                TdvfError::OutOfBounds {
                    what: "GUID table entry",
                    start: 0,
                    end: entry_size as u64,
                    len: remaining.len() as u64,
                },
            );
        }
        let entry_start = remaining.len() - entry_size;
        let data_end = remaining.len() - FW_GUID_ENTRY_SIZE;
        let ghost old_map = map@;
        let ghost old_remaining = remaining@;
        map.push(GuidEntry { guid: entry.guid, data: to_vec(&remaining[entry_start..data_end]) });
        remaining = &remaining[0..entry_start];
        proof {
            let entry_view = (entry.guid@, old_remaining.subrange(entry_start as int, data_end as int));
            assert(guid_entries_view(map@) =~= guid_entries_view(old_map).push(entry_view));
            match spec_guid_entries(remaining@) {
                Ok(rest) => {
                    assert(guid_entries_view(old_map) + (seq![entry_view] + rest)
                        =~= guid_entries_view(map@) + rest);
                },
                Err(e) => {},
            }
        }
    }
    proof {
        assert(guid_entries_view(map@) + Seq::<(Seq<u8>, Seq<u8>)>::empty() =~= guid_entries_view(
            map@,
        ));
    }
    Ok(map)
}

/// The position of the last entry (in scan order) whose GUID text is `key`.
fn find_guid(map: &Vec<GuidEntry>, key: &str) -> (r: Option<usize>)
    requires
        forall|i: int| 0 <= i < map@.len() ==> (#[trigger] map@[i]).guid@.len() == 16,
    ensures
        match r {
            Some(i) => i < map@.len() && lookup_guid(guid_entries_view(map@), key@) == Some(
                map@[i as int].data@,
            ),
            None => lookup_guid(guid_entries_view(map@), key@) is None,
        },
{
    let mut found: Option<usize> = None;
    let mut i: usize = 0;
    while i < map.len()
        invariant
            i <= map@.len(),
            forall|j: int| 0 <= j < map@.len() ==> (#[trigger] map@[j]).guid@.len() == 16,
            match found {
                Some(k) => k < i && lookup_guid(guid_entries_view(map@.take(i as int)), key@)
                    == Some(map@[k as int].data@),
                None => lookup_guid(guid_entries_view(map@.take(i as int)), key@) is None,
            },
        decreases map@.len() - i,
    {
        let entry = Entry { size: 0, guid: to_vec(map[i].guid.as_slice()) };
        let text = entry.guid_chars();
        proof {
            let prefix = guid_entries_view(map@.take(i + 1));
            assert(prefix.drop_last() =~= guid_entries_view(map@.take(i as int)));
            assert(prefix.last() == (map@[i as int].guid@, map@[i as int].data@));
        }
        if chars_eq_str(text.as_slice(), key) {
            found = Some(i);
        }
        i = i + 1;
    }
    assert(map@.take(map@.len() as int) =~= map@);
    found
}

fn tdx_metadata_offset(fw: &[u8]) -> (r: Result<usize, TdvfError>)
    requires
        footer_sound(fw@),
    ensures
        match r {
            Ok(off) => spec_tdx_metadata_offset(fw@) == Ok::<int, TdvfError>(off as int),
            Err(e) => spec_tdx_metadata_offset(fw@) == Err::<int, TdvfError>(e),
        },
{
    let guid_map = parse_guid_map(fw)?;
    let found = find_guid(&guid_map, TDX_METADATA_OFFSET_GUID);
    let idx = match found {
        Some(i) => i,
        None => {
            return Err(TdvfError::TDXMetadataMissing);
        },
    };
    let entry = guid_map[idx].data.as_slice();
    if entry.len() < 4 {
        return Err(
            TdvfError::Truncated { what: "TDX metadata offset entry", len: entry.len(), expected: 4 },
        );
    }
    Ok(read_u32_le(entry, 0) as usize)
}

/// Parses the TDX metadata descriptor's section table.
#[verifier::loop_isolation(false)]
pub fn tdx_metadata_sections(fw: &[u8]) -> (r: Result<Vec<Section>, TdvfError>)
    requires
        footer_sound(fw@),
    ensures
        match r {
            Ok(secs) => spec_tdx_metadata_sections(fw@) == Ok::<Seq<Section>, TdvfError>(secs@),
            Err(e) => spec_tdx_metadata_sections(fw@) == Err::<Seq<Section>, TdvfError>(e),
        },
{
    proof {
        reveal(spec_tdx_metadata_sections);
    }
    let offset = tdx_metadata_offset(fw)?;
    if offset > fw.len() {
        return Err(
            TdvfError::OutOfBounds {
                what: "TDX metadata offset",
                start: 0,
                end: offset as u64,
                len: fw.len() as u64,
            },
        );
    }
    let cursor = &fw[fw.len() - offset..fw.len()];
    if cursor.len() < 16 {
        return Err(
            TdvfError::Truncated { what: "TDX metadata descriptor", len: cursor.len(), expected: 16 },
        );
    }
    let num_sections = read_u32_le(cursor, 12);
    let mut sections: Vec<Section> = Vec::new();
    let mut i: u32 = 0;
    let mut at: usize = 16;
    while i < num_sections
        invariant
            i <= num_sections,
            num_sections == le_u32(cursor@, 12),
            at == 16 + 32 * i,
            at <= cursor@.len(),
            sections@ == Seq::new(i as nat, |k: int| section_at(cursor@, 16 + 32 * k)),
        decreases num_sections - i,
    {
        if cursor.len() - at < 32 {
            proof {
                assert(16 + 32 * (num_sections as int) > cursor@.len());
                assert(cursor@ == fw@.subrange(fw@.len() - offset, fw@.len() as int));
                assert(spec_tdx_metadata_offset(fw@) == Ok::<int, TdvfError>(offset as int));
                assert((cursor@.len() - 16) % 32 == cursor@.len() - at) by (nonlinear_arith)
                    requires
                        at == 16 + 32 * i,
                        0 <= cursor@.len() - at < 32,
                ;
            }
            return Err(
                TdvfError::Truncated {
                    what: "TDX metadata section",
                    len: cursor.len() - at,
                    expected: 32,
                },
            );
        }
        let s = Section {
            image_offset: read_u32_le(cursor, at),
            raw_data_size: read_u32_le(cursor, at + 4),
            memory_address: read_u64_le(cursor, at + 8),
            memory_data_size: read_u64_le(cursor, at + 16),
            kind: read_u32_le(cursor, at + 24),
            attributes: read_u32_le(cursor, at + 28),
        };
        sections.push(s);
        i = i + 1;
        at = at + 32;
        assert(sections@ =~= Seq::new(i as nat, |k: int| section_at(cursor@, 16 + 32 * k)));
    }
    Ok(sections)
}

// ---------------------------------------------------------------------------
// Configuration Firmware Volume
// ---------------------------------------------------------------------------

/// The index of the first section of the given kind.
pub open spec fn first_of_kind(secs: Seq<Section>, kind: u32) -> Option<int>
    decreases secs.len(),
{
    if secs.len() == 0 {
        None
    } else if secs.last().kind == kind && first_of_kind(secs.drop_last(), kind) is None {
        Some(secs.len() - 1)
    } else {
        first_of_kind(secs.drop_last(), kind)
    }
}

/// The bytes of the Configuration Firmware Volume.
#[verifier::opaque]
pub open spec fn spec_cfv(fw: Seq<u8>) -> Result<Seq<u8>, TdvfError> {
    match spec_tdx_metadata_sections(fw) {
        Err(e) => Err(e),
        Ok(secs) => match first_of_kind(secs, SECTION_TYPE_CFV) {
            None => Err(TdvfError::CfvMissing),
            Some(i) => {
                let base = secs[i].image_offset as int;
                let end = base + secs[i].raw_data_size;
                if end > fw.len() {
                    Err(
                        TdvfError::OutOfBounds {
                            what: "CFV section",
                            start: base as u64,
                            end: end as u64,
                            len: fw.len() as u64,
                        },
                    )
                } else {
                    Ok(fw.subrange(base, end))
                }
            },
        },
    }
}

fn find_kind(secs: &Vec<Section>, kind: u32) -> (r: Option<usize>)
    ensures
        match r {
            Some(i) => first_of_kind(secs@, kind) == Some(i as int) && i < secs@.len(),
            None => first_of_kind(secs@, kind) is None,
        },
{
    let mut i: usize = 0;
    while i < secs.len()
        invariant
            i <= secs@.len(),
            first_of_kind(secs@.take(i as int), kind) is None,
        decreases secs@.len() - i,
    {
        assert(secs@.take(i + 1).drop_last() =~= secs@.take(i as int));
        if secs[i].kind == kind {
            proof {
                lemma_first_of_kind_prefix(secs@, kind, i as int);
            }
            return Some(i);
        }
        i = i + 1;
    }
    assert(secs@.take(secs@.len() as int) =~= secs@);
    None
}

/// The first section of a kind found in a prefix stays the first one.
proof fn lemma_first_of_kind_prefix(secs: Seq<Section>, kind: u32, i: int)
    requires
        0 <= i < secs.len(),
        secs[i].kind == kind,
        first_of_kind(secs.take(i), kind) is None,
    ensures
        first_of_kind(secs, kind) == Some(i),
    decreases secs.len(),
{
    if secs.len() == i + 1 {
        assert(secs.drop_last() =~= secs.take(i));
    } else {
        assert(secs.drop_last().take(i) =~= secs.take(i));
        lemma_first_of_kind_prefix(secs.drop_last(), kind, i);
    }
}

/// The bytes of the Configuration Firmware Volume section.
pub fn configuration_firmware_volume(fw: &[u8]) -> (r: Result<&[u8], TdvfError>)
    requires
        footer_sound(fw@),
    ensures
        match r {
            Ok(cfv) => spec_cfv(fw@) == Ok::<Seq<u8>, TdvfError>(cfv@),
            Err(e) => spec_cfv(fw@) == Err::<Seq<u8>, TdvfError>(e),
        },
{
    proof {
        reveal(spec_cfv);
    }
    let sections = tdx_metadata_sections(fw)?;
    let idx = match find_kind(&sections, SECTION_TYPE_CFV) {
        Some(i) => i,
        None => {
            return Err(TdvfError::CfvMissing);
        },
    };
    let cfv = sections[idx];
    let base = cfv.image_offset as u64;
    let end = base + cfv.raw_data_size as u64;
    if end > fw.len() as u64 {
        return Err(
            TdvfError::OutOfBounds { what: "CFV section", start: base, end, len: fw.len() as u64 },
        );
    }
    Ok(&fw[base as usize..end as usize])
}

/// SHA-384 of the Configuration Firmware Volume section of an OVMF blob,
/// the value measured into RTMR0 as EV_EFI_PLATFORM_FIRMWARE_BLOB2.
pub fn cfv_sha384(fw: &[u8]) -> (r: Result<[u8; 48], TdvfError>)
    requires
        footer_sound(fw@),
    ensures
        match r {
            Ok(d) => spec_cfv(fw@) is Ok && d@ == sha384_of(spec_cfv(fw@)->Ok_0),
            Err(e) => spec_cfv(fw@) == Err::<Seq<u8>, TdvfError>(e),
        },
{
    let cfv = configuration_firmware_volume(fw)?;
    Ok(sha384(cfv))
}

// ---------------------------------------------------------------------------
// MRTD
// ---------------------------------------------------------------------------

/// `x + y` modulo 2^64.
pub open spec fn wrap_add(x: u64, y: int) -> u64 {
    if x + y > u64::MAX {
        (x + y - 0x1_0000_0000_0000_0000) as u64
    } else {
        (x + y) as u64
    }
}

/// The `MEM.PAGE.ADD` operation name.
pub open spec fn page_add_op() -> Seq<u8> {
    seq![0x4d, 0x45, 0x4d, 0x2e, 0x50, 0x41, 0x47, 0x45, 0x2e, 0x41, 0x44, 0x44]
}

/// The `MR.EXTEND` operation name.
pub open spec fn mr_extend_op() -> Seq<u8> {
    seq![0x4d, 0x52, 0x2e, 0x45, 0x58, 0x54, 0x45, 0x4e, 0x44]
}

/// The 128-byte record hashed for one TDX build operation: the operation
/// name zero-padded to 16 bytes, the little-endian GPA, then zeros.
pub open spec fn op_record(op: Seq<u8>, gpa: u64) -> Seq<u8> {
    op + zeros((16 - op.len()) as nat) + le_bytes_u64(gpa) + zeros(104)
}

/// Guest-physical address of a page of a section.
pub open spec fn page_gpa(s: Section, page: int) -> u64 {
    wrap_add(s.memory_address, page * PAGE_SIZE)
}

/// Firmware offset of a 256-byte chunk of a page of a section.
pub open spec fn chunk_start(s: Section, page: int, chunk: int) -> int {
    s.image_offset + page * PAGE_SIZE + chunk * MR_EXTEND_GRANULARITY
}

/// The bytes hashed for the first `n` MR.EXTEND chunks of a page, or the
/// bounds of the first chunk that lies outside the firmware.
pub open spec fn extend_stream(fw: Seq<u8>, s: Section, page: int, n: nat) -> Result<
    Seq<u8>,
    (int, int),
>
    decreases n,
{
    if n == 0 {
        Ok(Seq::empty())
    } else {
        match extend_stream(fw, s, page, (n - 1) as nat) {
            Err(e) => Err(e),
            Ok(prev) => {
                let start = chunk_start(s, page, n - 1);
                let end = start + MR_EXTEND_GRANULARITY;
                if end > fw.len() {
                    Err((start, end))
                } else {
                    Ok(
                        prev + op_record(
                            mr_extend_op(),
                            wrap_add(page_gpa(s, page), (n - 1) * MR_EXTEND_GRANULARITY),
                        ) + fw.subrange(start, end),
                    )
                }
            },
        }
    }
}

/// The bytes hashed for one page: `MEM.PAGE.ADD` unless the section is
/// PAGE_AUG, then its MR.EXTEND chunks if the section is MR_EXTEND.
pub open spec fn page_stream(fw: Seq<u8>, s: Section, page: int) -> Result<Seq<u8>, (int, int)> {
    let add = if s.attributes & ATTRIBUTE_PAGE_AUG == 0 {
        op_record(page_add_op(), page_gpa(s, page))
    } else {
        Seq::empty()
    };
    if s.attributes & ATTRIBUTE_MR_EXTEND != 0 {
        match extend_stream(fw, s, page, (PAGE_SIZE / MR_EXTEND_GRANULARITY as u64) as nat) {
            Err(e) => Err(e),
            Ok(chunks) => Ok(add + chunks),
        }
    } else {
        Ok(add)
    }
}

/// The bytes hashed for the first `n` pages of a section.
pub open spec fn pages_stream(fw: Seq<u8>, s: Section, n: nat) -> Result<Seq<u8>, (int, int)>
    decreases n,
{
    if n == 0 {
        Ok(Seq::empty())
    } else {
        match pages_stream(fw, s, (n - 1) as nat) {
            Err(e) => Err(e),
            Ok(prev) => match page_stream(fw, s, n - 1) {
                Err(e) => Err(e),
                Ok(p) => Ok(prev + p),
            },
        }
    }
}

/// The number of pages a section covers.
pub open spec fn section_pages(s: Section) -> nat {
    (s.memory_data_size / PAGE_SIZE) as nat
}

/// The bytes hashed for the first `n` sections.
pub open spec fn sections_stream(fw: Seq<u8>, secs: Seq<Section>, n: nat) -> Result<
    Seq<u8>,
    (int, int),
>
    decreases n,
{
    if n == 0 {
        Ok(Seq::empty())
    } else {
        match sections_stream(fw, secs, (n - 1) as nat) {
            Err(e) => Err(e),
            Ok(prev) => match pages_stream(fw, secs[n - 1], section_pages(secs[n - 1])) {
                Err(e) => Err(e),
                Ok(p) => Ok(prev + p),
            },
        }
    }
}

/// The MRTD of a TD built from this firmware: the SHA-384 of the build
/// operations for every section, in order.
#[verifier::opaque]
pub open spec fn spec_mrtd(fw: Seq<u8>) -> Result<Seq<u8>, TdvfError> {
    match spec_tdx_metadata_sections(fw) {
        Err(e) => Err(e),
        Ok(secs) => match sections_stream(fw, secs, secs.len()) {
            Err((start, end)) => Err(
                TdvfError::OutOfBounds {
                    what: "section data",
                    start: start as u64,
                    end: end as u64,
                    len: fw.len() as u64,
                },
            ),
            Ok(stream) => Ok(sha384_of(stream)),
        },
    }
}

proof fn lemma_op_record_len(op: Seq<u8>, gpa: u64)
    requires
        op.len() <= 16,
    ensures
        op_record(op, gpa).len() == 128,
{
}

/// The MR.EXTEND stream of a page: for each 256-byte chunk `c`, the
/// 128-byte MR.EXTEND record for the chunk's guest-physical address, then
/// the chunk's firmware bytes, taken from the section's image offset plus
/// one 4 KiB step per page and one 256-byte step per chunk. So distinct
/// pages of a section contribute distinct firmware bytes.
pub proof fn law_extend_chunk_data(fw: Seq<u8>, s: Section, page: int, n: nat)
    requires
        0 <= page,
        extend_stream(fw, s, page, n) is Ok,
    ensures
        extend_stream(fw, s, page, n)->Ok_0.len() == 384 * n,
        forall|c: int|
            0 <= c < n ==> #[trigger] extend_stream(fw, s, page, n)->Ok_0.subrange(
                384 * c,
                384 * c + 128,
            ) == op_record(mr_extend_op(), wrap_add(page_gpa(s, page), c * 0x100)),
        forall|c: int|
            0 <= c < n ==> #[trigger] extend_stream(fw, s, page, n)->Ok_0.subrange(
                384 * c + 128,
                384 * c + 384,
            ) == fw.subrange(
                s.image_offset + page * 0x1000 + c * 0x100,
                s.image_offset + page * 0x1000 + c * 0x100 + 0x100,
            ),
    decreases n,
{
    if n > 0 {
        let m = (n - 1) as nat;
        law_extend_chunk_data(fw, s, page, m);
        let prev = extend_stream(fw, s, page, m)->Ok_0;
        let st = extend_stream(fw, s, page, n)->Ok_0;
        let start = chunk_start(s, page, m as int);
        let rec = op_record(mr_extend_op(), wrap_add(page_gpa(s, page), m * MR_EXTEND_GRANULARITY));
        lemma_op_record_len(mr_extend_op(), wrap_add(page_gpa(s, page), m * MR_EXTEND_GRANULARITY));
        assert(start >= 0 && start + 0x100 <= fw.len());
        assert(st == prev + rec + fw.subrange(start, start + 0x100));
        assert(st.len() == 384 * n);
        assert forall|c: int| 0 <= c < n implies #[trigger] st.subrange(384 * c, 384 * c + 128)
            == op_record(mr_extend_op(), wrap_add(page_gpa(s, page), c * 0x100)) by {
            if c < m {
                assert(prev.subrange(384 * c, 384 * c + 128) == op_record(
                    mr_extend_op(),
                    wrap_add(page_gpa(s, page), c * 0x100),
                ));
                assert(st.subrange(384 * c, 384 * c + 128) =~= prev.subrange(384 * c, 384 * c + 128));
            } else {
                assert(m * MR_EXTEND_GRANULARITY == c * 0x100);
                assert(st.subrange(384 * c, 384 * c + 128) =~= rec);
            }
        }
        assert forall|c: int| 0 <= c < n implies #[trigger] st.subrange(384 * c + 128, 384 * c + 384)
            == fw.subrange(
            s.image_offset + page * 0x1000 + c * 0x100,
            s.image_offset + page * 0x1000 + c * 0x100 + 0x100,
        ) by {
            if c < m {
                assert(prev.subrange(384 * c + 128, 384 * c + 384) == fw.subrange(
                    s.image_offset + page * 0x1000 + c * 0x100,
                    s.image_offset + page * 0x1000 + c * 0x100 + 0x100,
                ));
                assert(st.subrange(384 * c + 128, 384 * c + 384) =~= prev.subrange(
                    384 * c + 128,
                    384 * c + 384,
                ));
            } else {
                assert(st.subrange(384 * c + 128, 384 * c + 384) =~= fw.subrange(start, start + 0x100));
            }
        }
    }
}

proof fn lemma_extend_err(fw: Seq<u8>, s: Section, page: int, m: nat, n: nat)
    requires
        m <= n,
        extend_stream(fw, s, page, m) is Err,
    ensures
        extend_stream(fw, s, page, n) == extend_stream(fw, s, page, m),
    decreases n,
{
    if m < n {
        lemma_extend_err(fw, s, page, m, (n - 1) as nat);
    }
}

proof fn lemma_pages_err(fw: Seq<u8>, s: Section, m: nat, n: nat)
    requires
        m <= n,
        pages_stream(fw, s, m) is Err,
    ensures
        pages_stream(fw, s, n) == pages_stream(fw, s, m),
    decreases n,
{
    if m < n {
        lemma_pages_err(fw, s, m, (n - 1) as nat);
    }
}

proof fn lemma_sections_err(fw: Seq<u8>, secs: Seq<Section>, m: nat, n: nat)
    requires
        m <= n,
        sections_stream(fw, secs, m) is Err,
    ensures
        sections_stream(fw, secs, n) == sections_stream(fw, secs, m),
    decreases n,
{
    if m < n {
        lemma_sections_err(fw, secs, m, (n - 1) as nat);
    }
}

fn page_add_op_bytes() -> (op: Vec<u8>)
    ensures
        op@ == page_add_op(),
{
    let op = vec![0x4du8, 0x45, 0x4d, 0x2e, 0x50, 0x41, 0x47, 0x45, 0x2e, 0x41, 0x44, 0x44];
    assert(op@ =~= page_add_op());
    op
}

fn mr_extend_op_bytes() -> (op: Vec<u8>)
    ensures
        op@ == mr_extend_op(),
{
    let op = vec![0x4du8, 0x52, 0x2e, 0x45, 0x58, 0x54, 0x45, 0x4e, 0x44];
    assert(op@ =~= mr_extend_op());
    op
}

/// Feeds the 128-byte record of one TDX build operation into `h`.
fn extend_tdx_op(h: &mut Vec<u8>, op: &[u8], gpa: u64)
    requires
        op@.len() <= 16,
    ensures
        final(h)@ == old(h)@ + op_record(op@, gpa),
{
    let mut buf: Vec<u8> = Vec::new();
    push_bytes(&mut buf, op);
    push_zeros(&mut buf, 16 - op.len());
    push_u64_le(&mut buf, gpa);
    push_zeros(&mut buf, 104);
    assert(buf@ =~= op_record(op@, gpa));
    push_bytes(h, buf.as_slice());
}

/// Feeds the MR.EXTEND chunks of one page into `h`.
#[verifier::loop_isolation(false)]
fn extend_page_chunks(
    h: &mut Vec<u8>,
    fw: &[u8],
    s: &Section,
    page: u64,
    page_gpa_value: u64,
    mr_extend: &[u8],
) -> (r: Result<(), TdvfError>)
    requires
        mr_extend@ == mr_extend_op(),
        page < 0x10_0000_0000_0000,
        page_gpa_value == page_gpa(*s, page as int),
    ensures
        match extend_stream(fw@, *s, page as int, 16) {
            Ok(c) => r is Ok && final(h)@ == old(h)@ + c,
            Err((start, end)) => r == Err::<(), TdvfError>(
                TdvfError::OutOfBounds {
                    what: "section data",
                    start: start as u64,
                    end: end as u64,
                    len: fw@.len() as u64,
                },
            ),
        },
{
    let ghost base = h@;
    let mut chunk: u64 = 0;
    while chunk < 16
        invariant
            chunk <= 16,
            extend_stream(fw@, *s, page as int, chunk as nat) is Ok,
            h@ == base + extend_stream(fw@, *s, page as int, chunk as nat)->Ok_0,
        decreases 16 - chunk,
    {
        let gpa = page_gpa_value.wrapping_add(chunk * 0x100);
        extend_tdx_op(h, mr_extend, gpa);
        let start: u128 = s.image_offset as u128 + (page as u128) * 0x1000 + (chunk as u128) * 0x100;
        let end: u128 = start + 0x100;
        if end > fw.len() as u128 {
            proof {
                lemma_extend_err(fw@, *s, page as int, (chunk + 1) as nat, 16);
            }
            return Err(
                TdvfError::OutOfBounds {
                    what: "section data",
                    start: start as u64,
                    end: end as u64,
                    len: fw.len() as u64,
                },
            );
        }
        push_bytes(h, &fw[start as usize..end as usize]);
        chunk = chunk + 1;
    }
    Ok(())
}

/// The error reported for a chunk that lies outside the firmware.
pub open spec fn chunk_error(fw: Seq<u8>, bounds: (int, int)) -> TdvfError {
    TdvfError::OutOfBounds {
        what: "section data",
        start: bounds.0 as u64,
        end: bounds.1 as u64,
        len: fw.len() as u64,
    }
}

/// Feeds the build operations of one page into `h`.
fn measure_page(
    h: &mut Vec<u8>,
    fw: &[u8],
    s: &Section,
    page: u64,
    page_add: &[u8],
    mr_extend: &[u8],
) -> (r: Result<(), TdvfError>)
    requires
        page_add@ == page_add_op(),
        mr_extend@ == mr_extend_op(),
        page < s.memory_data_size / PAGE_SIZE,
    ensures
        match page_stream(fw@, *s, page as int) {
            Ok(p) => r is Ok && final(h)@ == old(h)@ + p,
            Err(b) => r == Err::<(), TdvfError>(chunk_error(fw@, b)),
        },
{
    proof {
        assert(page * PAGE_SIZE <= s.memory_data_size) by (nonlinear_arith)
            requires
                page < s.memory_data_size / PAGE_SIZE,
        ;
    }
    let gpa = s.memory_address.wrapping_add(page * 0x1000);
    let aug = s.attributes & ATTRIBUTE_PAGE_AUG;
    let ext = s.attributes & ATTRIBUTE_MR_EXTEND;
    let ghost add = if aug == 0 {
        op_record(page_add_op(), page_gpa(*s, page as int))
    } else {
        Seq::<u8>::empty()
    };
    let ghost before = h@;
    if aug == 0 {
        extend_tdx_op(h, page_add, gpa);
    }
    assert(h@ =~= before + add);
    if ext != 0 {
        let res = extend_page_chunks(h, fw, s, page, gpa, mr_extend);
        match res {
            Ok(()) => {
                let ghost c = extend_stream(fw@, *s, page as int, 16)->Ok_0;
                assert(h@ =~= before + (add + c));
            },
            Err(e) => {
                return Err(e);
            },
        }
    }
    Ok(())
}

/// Feeds the build operations of every page of one section into `h`.
fn measure_section(
    h: &mut Vec<u8>,
    fw: &[u8],
    s: &Section,
    page_add: &[u8],
    mr_extend: &[u8],
) -> (r: Result<(), TdvfError>)
    requires
        page_add@ == page_add_op(),
        mr_extend@ == mr_extend_op(),
    ensures
        match pages_stream(fw@, *s, section_pages(*s)) {
            Ok(p) => r is Ok && final(h)@ == old(h)@ + p,
            Err(b) => r == Err::<(), TdvfError>(chunk_error(fw@, b)),
        },
{
    let ghost before = h@;
    let num_pages = s.memory_data_size / 0x1000;
    let mut page: u64 = 0;
    while page < num_pages
        invariant
            page <= num_pages,
            num_pages == section_pages(*s),
            page_add@ == page_add_op(),
            mr_extend@ == mr_extend_op(),
            pages_stream(fw@, *s, page as nat) is Ok,
            h@ == before + pages_stream(fw@, *s, page as nat)->Ok_0,
        decreases num_pages - page,
    {
        let res = measure_page(h, fw, s, page, page_add, mr_extend);
        if let Err(e) = res {
            proof {
                lemma_pages_err(fw@, *s, (page + 1) as nat, section_pages(*s));
            }
            return Err(e);
        }
        assert(h@ =~= before + pages_stream(fw@, *s, (page + 1) as nat)->Ok_0);
        page = page + 1;
    }
    Ok(())
}

/// MRTD value for a TD built from this firmware (single-pass page ordering,
/// QEMU >= 9.0).
pub fn mrtd_sha384(fw: &[u8]) -> (r: Result<[u8; 48], TdvfError>)
    requires
        footer_sound(fw@),
    ensures
        match r {
            Ok(d) => spec_mrtd(fw@) is Ok && d@ == spec_mrtd(fw@)->Ok_0,
            Err(e) => spec_mrtd(fw@) == Err::<Seq<u8>, TdvfError>(e),
        },
{
    proof {
        reveal(spec_mrtd);
    }
    let page_add = page_add_op_bytes();
    let mr_extend = mr_extend_op_bytes();
    let mut h: Vec<u8> = Vec::new();
    let sections = tdx_metadata_sections(fw)?;
    let ghost secs = sections@;
    let mut i: usize = 0;
    while i < sections.len()
        invariant
            i <= secs.len(),
            secs == sections@,
            spec_tdx_metadata_sections(fw@) == Ok::<Seq<Section>, TdvfError>(secs),
            page_add@ == page_add_op(),
            mr_extend@ == mr_extend_op(),
            sections_stream(fw@, secs, i as nat) is Ok,
            h@ == sections_stream(fw@, secs, i as nat)->Ok_0,
        decreases secs.len() - i,
    {
        let res = measure_section(&mut h, fw, &sections[i], page_add.as_slice(), mr_extend.as_slice());
        if let Err(e) = res {
            proof {
                assert(sections_stream(fw@, secs, (i + 1) as nat) == pages_stream(
                    fw@,
                    secs[i as int],
                    section_pages(secs[i as int]),
                ));
                lemma_sections_err(fw@, secs, (i + 1) as nat, secs.len());
                reveal(spec_mrtd);
            }
            return Err(e);
        }
        i = i + 1;
    }
    assert(sections_stream(fw@, secs, secs.len()) is Ok);
    Ok(sha384(h.as_slice()))
}

/// Whether the backward scan of every reachable GUID table entry stays in
/// bounds.
fn entries_sound(table: &[u8]) -> (b: bool)
    ensures
        b == guid_entries_sound(table@),
{
    let mut remaining = table;
    while remaining.len() > 0
        invariant
            guid_entries_sound(table@) == guid_entries_sound(remaining@),
        decreases remaining@.len(),
    {
        let entry = match last_entry(remaining) {
            Ok(e) => e,
            Err(_) => {
                return true;
            },
        };
        let size = entry.size as usize;
        if size > remaining.len() {
            return true;
        }
        if size < FW_GUID_ENTRY_SIZE {
            return false;
        }
        remaining = &remaining[0..remaining.len() - size];
    }
    true
}

/// Whether the firmware footer can be scanned without crossing bounds:
/// the precondition of the firmware parsers.
pub fn footer_is_sound(fw: &[u8]) -> (b: bool)
    ensures
        b == footer_sound(fw@),
{
    if fw.len() >= FW_GUID_TABLE_OFFSET_FROM_END {
        let trimmed = &fw[0..fw.len() - FW_GUID_TABLE_OFFSET_FROM_END];
        if let Ok(anchor) = last_entry(trimmed) {
            let size = anchor.size as usize;
            if size <= trimmed.len() && size < FW_GUID_ENTRY_SIZE {
                return false;
            }
        }
    }
    match parse_guid_table(fw) {
        Ok(t) => entries_sound(t),
        Err(_) => true,
    }
}

} // verus!
