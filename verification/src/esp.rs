//! Which EFI system partition images `fatfs` can be handed safely.
//!
//! Reading `EFI/BOOT/BOOTX64.EFI` with `fatfs` walks the boot sector, the
//! FAT and the directories on the path. `fatfs` detects no cycle in a
//! cluster chain and does unchecked `u32` arithmetic on boot sector fields
//! and on cluster numbers. The condition `esp_walk_safe` below rules out
//! both: the boot sector arithmetic fits in 32 bits, the chains of the
//! directories the lookup searches end inside the data region, and so does
//! the chain of every entry the lookup could follow. An entry can only be
//! followed where its name can match the path component: its short name is
//! the component (ignoring case), or a long-name part precedes it.

use vstd::prelude::*;

use crate::bytes::{le_u16, le_u32, read_u16_le, read_u32_le};

verus! {

/// The boot sector fields `fatfs` reads, as they stand in the image.
#[derive(Clone, Copy)]
pub struct BootFields {
    pub bps: u64,
    pub spc: u64,
    pub rsvd: u64,
    pub fats: u64,
    pub root_entries: u64,
    pub tot16: u64,
    pub spf16: u64,
    pub tot32: u64,
    pub spf32: u64,
    pub ext_flags: u64,
    pub root_cluster: u64,
}

pub open spec fn spec_boot_fields(e: Seq<u8>) -> BootFields {
    BootFields {
        bps: le_u16(e, 11) as u64,
        spc: e[13] as u64,
        rsvd: le_u16(e, 14) as u64,
        fats: e[16] as u64,
        root_entries: le_u16(e, 17) as u64,
        tot16: le_u16(e, 19) as u64,
        spf16: le_u16(e, 22) as u64,
        tot32: le_u32(e, 32) as u64,
        spf32: le_u32(e, 36) as u64,
        ext_flags: le_u16(e, 40) as u64,
        root_cluster: le_u32(e, 44) as u64,
    }
}

pub open spec fn is_fat32_bpb(b: BootFields) -> bool {
    b.spf16 == 0
}

pub open spec fn sectors_per_fat(b: BootFields) -> int {
    if is_fat32_bpb(b) {
        b.spf32 as int
    } else {
        b.spf16 as int
    }
}

pub open spec fn total_sectors(b: BootFields) -> int {
    if b.tot16 == 0 {
        b.tot32 as int
    } else {
        b.tot16 as int
    }
}

pub open spec fn root_dir_sectors(b: BootFields) -> int {
    (b.root_entries * 32 + b.bps - 1) / (b.bps as int)
}

pub open spec fn first_data_sector(b: BootFields) -> int {
    b.rsvd + b.fats * sectors_per_fat(b) + root_dir_sectors(b)
}

pub open spec fn cluster_count(b: BootFields) -> int {
    (total_sectors(b) - first_data_sector(b)) / (b.spc as int)
}

/// 12, 16 or 32, by the cluster count, as `fatfs` decides it.
pub open spec fn fat_kind(b: BootFields) -> int {
    if cluster_count(b) < 4085 {
        12
    } else if cluster_count(b) < 65525 {
        16
    } else {
        32
    }
}

pub open spec fn mirroring_disabled(b: BootFields) -> bool {
    is_fat32_bpb(b) && (b.ext_flags / 0x80) % 2 == 1
}

pub open spec fn active_fat_sector(b: BootFields) -> int {
    if mirroring_disabled(b) {
        b.rsvd + (b.ext_flags % 16) * sectors_per_fat(b)
    } else {
        b.rsvd as int
    }
}

/// `fatfs` refuses the image before any arithmetic on its fields: too
/// short, no boot signature, or a sector size, cluster size, reserved area,
/// FAT count or FAT size that cannot be.
pub open spec fn early_reject(e: Seq<u8>) -> bool {
    e.len() < 512 || e[510] != 0x55 || e[511] != 0xAA || {
        let b = spec_boot_fields(e);
        ||| !(b.bps == 512 || b.bps == 1024 || b.bps == 2048 || b.bps == 4096)
        ||| !(b.spc == 1 || b.spc == 2 || b.spc == 4 || b.spc == 8 || b.spc == 16 || b.spc == 32
            || b.spc == 64 || b.spc == 128)
        ||| b.rsvd == 0
        ||| b.fats == 0
        ||| sectors_per_fat(b) == 0
    }
}

/// The first data sector fits in 32 bits.
pub open spec fn data_start_fits(b: BootFields) -> bool {
    first_data_sector(b) <= 0xFFFF_FFFF
}

/// `fatfs` refuses the image once it knows the first data sector: no data
/// region, a FAT type that disagrees with the boot sector, or too many
/// clusters.
pub open spec fn late_reject(b: BootFields) -> bool {
    ||| total_sectors(b) <= first_data_sector(b)
    ||| is_fat32_bpb(b) != (fat_kind(b) == 32)
    ||| fat_kind(b) == 32 && cluster_count(b) > 0x0FFF_FFFF
}

/// The remaining boot sector arithmetic fits in 32 bits: the FAT size in
/// bits and the sector of the active FAT.
pub open spec fn rest_fits(b: BootFields) -> bool {
    &&& sectors_per_fat(b) * b.bps * 8 <= 0xFFFF_FFFF
    &&& active_fat_sector(b) <= 0xFFFF_FFFF
}

/// The layout of a FAT volume as `fatfs` derives it.
#[derive(Clone, Copy)]
pub struct FatLayout {
    pub kind: u64,
    pub bps: u64,
    pub spc: u64,
    pub fat_start: u64,
    pub fat_size: u64,
    pub data_start: u64,
    pub clusters: u64,
    pub root_cluster: u64,
    pub root_start: u64,
    pub root_size: u64,
}

pub open spec fn spec_layout(b: BootFields) -> FatLayout {
    FatLayout {
        kind: fat_kind(b) as u64,
        bps: b.bps,
        spc: b.spc,
        fat_start: (active_fat_sector(b) * b.bps) as u64,
        fat_size: (sectors_per_fat(b) * b.bps) as u64,
        data_start: first_data_sector(b) as u64,
        clusters: cluster_count(b) as u64,
        root_cluster: b.root_cluster,
        root_start: ((b.rsvd + b.fats * sectors_per_fat(b)) * b.bps) as u64,
        root_size: (root_dir_sectors(b) * b.bps) as u64,
    }
}

/// What the checks below rely on of a layout.
pub open spec fn layout_sane(g: FatLayout) -> bool {
    &&& 512 <= g.bps <= 4096
    &&& 1 <= g.spc <= 128
    &&& g.kind == 12 || g.kind == 16 || g.kind == 32
    &&& g.kind == 12 ==> g.clusters < 4085
    &&& g.kind == 16 ==> g.clusters < 65525
    &&& g.clusters <= 0x0FFF_FFFF
    &&& g.data_start + g.clusters * g.spc <= 0xFFFF_FFFF
    &&& g.fat_start <= 0x1_0000_0000 * 4096
    &&& g.fat_size <= 0x1_0000_0000
    &&& g.root_start <= 0x1_0000_0000 * 4096
    &&& g.root_size <= 0x1_0000_0000
}

/// A cluster number inside the data region.
pub open spec fn in_range(g: FatLayout, c: u64) -> bool {
    2 <= c && c < g.clusters + 2
}

/// The byte offset of a cluster in the image.
pub open spec fn cluster_offset(g: FatLayout, c: u64) -> int {
    (g.data_start + (c - 2) * g.spc) * g.bps
}

pub open spec fn cluster_bytes(g: FatLayout) -> int {
    g.spc * g.bps
}

/// The cluster that follows `c` in its chain, as `fatfs` decodes the FAT
/// entry; `None` for a free, bad or end-of-chain entry and where the entry
/// lies outside the FAT or the image (which `fatfs` reports as an error).
pub open spec fn fat_next(e: Seq<u8>, g: FatLayout, c: u64) -> Option<u64> {
    if g.kind == 12 {
        let off = c + c / 2;
        if off + 2 > g.fat_size || g.fat_start + off + 2 > e.len() {
            None
        } else {
            let raw = le_u16(e, g.fat_start + off);
            let v = if c % 2 == 0 {
                raw % 0x1000
            } else {
                raw / 16
            };
            if v == 0 || v >= 0xFF7 {
                None
            } else {
                Some(v as u64)
            }
        }
    } else if g.kind == 16 {
        let off = 2 * c;
        if off + 2 > g.fat_size || g.fat_start + off + 2 > e.len() {
            None
        } else {
            let v = le_u16(e, g.fat_start + off);
            if v == 0 || v >= 0xFFF7 {
                None
            } else {
                Some(v as u64)
            }
        }
    } else {
        let off = 4 * c;
        if off + 4 > g.fat_size || g.fat_start + off + 4 > e.len() {
            None
        } else {
            let v = le_u32(e, g.fat_start + off) % 0x1000_0000;
            if v == 0 || v >= 0x0FFF_FFF7 || (0x0FFF_FFF7 <= c && c <= 0x0FFF_FFFF) {
                None
            } else {
                Some(v as u64)
            }
        }
    }
}

/// The chain from `c` ends within `fuel` clusters, all inside the data
/// region.
pub open spec fn chain_ends(e: Seq<u8>, g: FatLayout, c: u64, fuel: nat) -> bool
    decreases fuel,
{
    fuel > 0 && in_range(g, c) && match fat_next(e, g, c) {
        None => true,
        Some(n) => chain_ends(e, g, n, (fuel - 1) as nat),
    }
}

/// The clusters of the chain from `c`, at most `fuel` of them.
pub open spec fn chain_of(e: Seq<u8>, g: FatLayout, c: u64, fuel: nat) -> Seq<u64>
    decreases fuel,
{
    if fuel == 0 {
        Seq::empty()
    } else {
        seq![c] + match fat_next(e, g, c) {
            None => Seq::empty(),
            Some(n) => chain_of(e, g, n, (fuel - 1) as nat),
        }
    }
}

/// How many clusters a directory may span: no more than the volume holds,
/// and few enough that its byte offset fits in 32 bits.
pub open spec fn dir_fuel(g: FatLayout) -> nat {
    let by_size = 0xFFFF_FFFFint / cluster_bytes(g);
    if g.clusters < by_size {
        g.clusters as nat
    } else {
        by_size as nat
    }
}

/// The cluster a directory entry at byte `p` starts at.
pub open spec fn entry_cluster(e: Seq<u8>, g: FatLayout, p: int) -> u64 {
    ((if g.kind == 32 {
        le_u16(e, p + 20) * 0x1_0000
    } else {
        0
    }) + le_u16(e, p + 26)) as u64
}

pub open spec fn entry_is_lfn(e: Seq<u8>, p: int) -> bool {
    e[p + 11] % 16 == 15
}

pub open spec fn entry_is_dir(e: Seq<u8>, p: int) -> bool {
    (e[p + 11] / 16) % 2 == 1
}

/// The raw short name (8 name bytes, 3 extension bytes, space-padded) of
/// the path component looked up `level` levels above the file:
/// `EFI`, `BOOT`, `BOOTX64.EFI`.
pub open spec fn component_raw(level: u64) -> Seq<u8> {
    if level == 2 {
        seq![0x45u8, 0x46, 0x49, 0x20, 0x20, 0x20, 0x20, 0x20, 0x20, 0x20, 0x20]
    } else if level == 1 {
        seq![0x42u8, 0x4F, 0x4F, 0x54, 0x20, 0x20, 0x20, 0x20, 0x20, 0x20, 0x20]
    } else {
        seq![0x42u8, 0x4F, 0x4F, 0x54, 0x58, 0x36, 0x34, 0x20, 0x45, 0x46, 0x49]
    }
}

/// A name byte equal to `want` ignoring ASCII case.
pub open spec fn byte_matches(b: u8, want: u8) -> bool {
    b == want || (0x41 <= want <= 0x5A && b == want + 0x20)
}

/// The short name of the entry at byte `p` is the path component, ignoring
/// case (which is how `fatfs` compares short names).
pub open spec fn short_name_is(e: Seq<u8>, p: int, level: u64) -> bool {
    forall|i: int| 0 <= i < 11 ==> #[trigger] byte_matches(e[p + i], component_raw(level)[i])
}

/// A long-name part lies at byte `p`.
pub open spec fn lfn_at(e: Seq<u8>, p: int) -> bool {
    p + 32 <= e.len() && entry_is_lfn(e, p)
}

/// The directory entry at byte `p`, whose previous slot is a long-name part
/// where `prev_lfn` holds, is safe for the lookup of the path component
/// `level` levels above the file. `fatfs` follows only an entry whose name
/// matches the component: by its short name, or by a long name, which needs
/// a long-name part just before it. So the entry is safe where it is past
/// the image's end, a long-name part, deleted or the end marker, cannot
/// match, starts at no cluster, or is of the wrong kind to be followed;
/// otherwise a directory must satisfy `deeper` and the file's chain must
/// end inside the data region.
pub open spec fn slot_ok(
    e: Seq<u8>,
    g: FatLayout,
    p: int,
    prev_lfn: bool,
    level: u64,
    deeper: spec_fn(u64) -> bool,
) -> bool {
    p + 32 > e.len() || entry_is_lfn(e, p) || e[p] == 0xE5 || e[p] == 0 || !(prev_lfn
        || short_name_is(e, p, level)) || {
        let c = entry_cluster(e, g, p);
        c == 0 || if level > 0 {
            entry_is_dir(e, p) ==> deeper(c)
        } else {
            !entry_is_dir(e, p) ==> chain_ends(e, g, c, g.clusters as nat)
        }
    }
}

/// Whether the slot before slot `k` of cluster `i` of a directory's chain
/// is a long-name part.
pub open spec fn dir_prev_lfn(e: Seq<u8>, g: FatLayout, ch: Seq<u64>, i: int, k: int) -> bool {
    if k > 0 {
        lfn_at(e, cluster_offset(g, ch[i]) + 32 * (k - 1))
    } else if i > 0 {
        lfn_at(e, cluster_offset(g, ch[i - 1]) + 32 * (cluster_bytes(g) / 32 - 1))
    } else {
        false
    }
}

/// The directory whose chain starts at `c` is safe to search for the path
/// component `level` levels above the file: its chain ends inside the data
/// region and every entry in its clusters is safe.
pub open spec fn dir_ok(
    e: Seq<u8>,
    g: FatLayout,
    c: u64,
    level: u64,
    deeper: spec_fn(u64) -> bool,
) -> bool {
    chain_ends(e, g, c, dir_fuel(g)) && forall|i: int, k: int|
        0 <= i < chain_of(e, g, c, dir_fuel(g)).len() && 0 <= k < cluster_bytes(g) / 32
            ==> #[trigger] slot_ok(
            e,
            g,
            cluster_offset(g, chain_of(e, g, c, dir_fuel(g))[i]) + 32 * k,
            dir_prev_lfn(e, g, chain_of(e, g, c, dir_fuel(g)), i, k),
            level,
            deeper,
        )
}

pub open spec fn no_deeper() -> spec_fn(u64) -> bool {
    |x: u64| true
}

/// A `BOOT` directory is safe to search for the file.
pub open spec fn dir_level0(e: Seq<u8>, g: FatLayout, c: u64) -> bool {
    dir_ok(e, g, c, 0, no_deeper())
}

/// An `EFI` directory is safe to search, and so is every `BOOT` directory
/// the lookup could enter from it.
pub open spec fn dir_level1(e: Seq<u8>, g: FatLayout, c: u64) -> bool {
    dir_ok(e, g, c, 1, |x: u64| dir_level0(e, g, x))
}

/// What must hold of a directory the lookup enters from a directory
/// `level` levels above the file.
pub open spec fn deeper(e: Seq<u8>, g: FatLayout, level: u64) -> spec_fn(u64) -> bool {
    if level == 0 {
        no_deeper()
    } else if level == 1 {
        |x: u64| dir_level0(e, g, x)
    } else {
        |x: u64| dir_level1(e, g, x)
    }
}

/// Whether the slot before slot `k` of the FAT12/16 root region is a
/// long-name part.
pub open spec fn root_prev_lfn(e: Seq<u8>, g: FatLayout, k: int) -> bool {
    k > 0 && lfn_at(e, g.root_start + 32 * (k - 1))
}

/// The root directory is safe to search for `EFI`, and the directories the
/// lookup could enter below it are safe in turn.
pub open spec fn tree_ok(e: Seq<u8>, g: FatLayout) -> bool {
    if g.kind == 32 {
        dir_ok(e, g, g.root_cluster, 2, deeper(e, g, 2))
    } else {
        forall|k: int|
            0 <= k < g.root_size / 32 ==> #[trigger] slot_ok(
                e,
                g,
                g.root_start + 32 * k,
                root_prev_lfn(e, g, k),
                2,
                deeper(e, g, 2),
            )
    }
}

/// `fatfs` returns on this partition image when asked for a file two
/// directories down: it refuses the boot sector before any arithmetic, or
/// the arithmetic fits and it refuses the boot sector later, or every chain
/// the walk can follow ends inside the data region.
pub open spec fn esp_walk_safe(e: Seq<u8>) -> bool {
    early_reject(e) || {
        let b = spec_boot_fields(e);
        data_start_fits(b) && (late_reject(b) || (rest_fits(b) && tree_ok(e, spec_layout(b))))
    }
}

fn read_boot_fields(e: &[u8]) -> (b: BootFields)
    requires
        e@.len() >= 512,
    ensures
        b == spec_boot_fields(e@),
{
    BootFields {
        bps: read_u16_le(e, 11) as u64,
        spc: e[13] as u64,
        rsvd: read_u16_le(e, 14) as u64,
        fats: e[16] as u64,
        root_entries: read_u16_le(e, 17) as u64,
        tot16: read_u16_le(e, 19) as u64,
        spf16: read_u16_le(e, 22) as u64,
        tot32: read_u32_le(e, 32) as u64,
        spf32: read_u32_le(e, 36) as u64,
        ext_flags: read_u16_le(e, 40) as u64,
        root_cluster: read_u32_le(e, 44) as u64,
    }
}

fn check_early_reject(e: &[u8]) -> (r: bool)
    ensures
        r == early_reject(e@),
{
    if e.len() < 512 || e[510] != 0x55 || e[511] != 0xAA {
        return true;
    }
    let b = read_boot_fields(e);
    let spf = if b.spf16 == 0 {
        b.spf32
    } else {
        b.spf16
    };
    !(b.bps == 512 || b.bps == 1024 || b.bps == 2048 || b.bps == 4096) || !(b.spc == 1 || b.spc
        == 2 || b.spc == 4 || b.spc == 8 || b.spc == 16 || b.spc == 32 || b.spc == 64 || b.spc
        == 128) || b.rsvd == 0 || b.fats == 0 || spf == 0
}

/// The boot sector fields of an image that `early_reject` lets through.
pub open spec fn fields_bounded(b: BootFields) -> bool {
    &&& 512 <= b.bps <= 4096
    &&& 1 <= b.spc <= 128
    &&& 1 <= b.rsvd <= 0xFFFF
    &&& 1 <= b.fats <= 0xFF
    &&& b.root_entries <= 0xFFFF
    &&& b.tot16 <= 0xFFFF
    &&& b.spf16 <= 0xFFFF
    &&& b.tot32 <= 0xFFFF_FFFF
    &&& b.spf32 <= 0xFFFF_FFFF
    &&& b.ext_flags <= 0xFFFF
    &&& 1 <= sectors_per_fat(b) <= 0xFFFF_FFFF
}

proof fn lemma_fields_bounded(e: Seq<u8>)
    requires
        !early_reject(e),
    ensures
        fields_bounded(spec_boot_fields(e)),
{
    let b = spec_boot_fields(e);
    assert(0 <= le_u16(e, 11) <= 0xFFFF);
    assert(0 <= le_u16(e, 14) <= 0xFFFF);
    assert(0 <= le_u16(e, 17) <= 0xFFFF);
    assert(0 <= le_u16(e, 19) <= 0xFFFF);
    assert(0 <= le_u16(e, 22) <= 0xFFFF);
    assert(0 <= le_u16(e, 40) <= 0xFFFF);
    assert(0 <= le_u32(e, 32) <= 0xFFFF_FFFF);
    assert(0 <= le_u32(e, 36) <= 0xFFFF_FFFF);
}

/// The first data sector, computed where the fields are bounded.
fn data_start_of(b: &BootFields) -> (r: u64)
    requires
        fields_bounded(*b),
    ensures
        r == first_data_sector(*b),
        r <= 0x100_0000_0000 + 0x3_0000,
{
    let spf = if b.spf16 == 0 {
        b.spf32
    } else {
        b.spf16
    };
    assert(b.fats * spf <= 0xFF * 0xFFFF_FFFF) by (nonlinear_arith)
        requires
            b.fats <= 0xFF,
            spf <= 0xFFFF_FFFF,
    ;
    let rds = (b.root_entries * 32 + b.bps - 1) / b.bps;
    assert(rds <= b.root_entries * 32 + b.bps) by (nonlinear_arith)
        requires
            rds == (b.root_entries * 32 + b.bps - 1) / (b.bps as int),
            b.bps >= 1,
    ;
    b.rsvd + b.fats * spf + rds
}

fn layout_of(b: &BootFields) -> (g: FatLayout)
    requires
        fields_bounded(*b),
        data_start_fits(*b),
        !late_reject(*b),
        rest_fits(*b),
    ensures
        g == spec_layout(*b),
        layout_sane(g),
{
    let fds = data_start_of(b);
    let spf = if b.spf16 == 0 {
        b.spf32
    } else {
        b.spf16
    };
    let tot = if b.tot16 == 0 {
        b.tot32
    } else {
        b.tot16
    };
    let clusters = (tot - fds) / b.spc;
    let kind: u64 = if clusters < 4085 {
        12
    } else if clusters < 65525 {
        16
    } else {
        32
    };
    let active = if b.spf16 == 0 && (b.ext_flags / 0x80) % 2 == 1 {
        b.rsvd + (b.ext_flags % 16) * spf
    } else {
        b.rsvd
    };
    let rds = (b.root_entries * 32 + b.bps - 1) / b.bps;
    assert(clusters * b.spc <= tot - fds) by (nonlinear_arith)
        requires
            clusters == (tot - fds) / (b.spc as int),
            b.spc >= 1,
            tot >= fds,
    ;
    assert(active * b.bps <= 0xFFFF_FFFF * 4096) by (nonlinear_arith)
        requires
            active <= 0xFFFF_FFFF,
            b.bps <= 4096,
    ;
    assert(spf * b.bps <= 0xFFFF_FFFF) by (nonlinear_arith)
        requires
            spf * b.bps * 8 <= 0xFFFF_FFFF,
    ;
    assert((b.rsvd + b.fats * spf) * b.bps <= 0xFFFF_FFFF * 4096) by (nonlinear_arith)
        requires
            b.rsvd + b.fats * spf <= 0xFFFF_FFFF,
            b.bps <= 4096,
    ;
    assert(rds * b.bps <= 0x1_0000_0000) by (nonlinear_arith)
        requires
            rds == (b.root_entries * 32 + b.bps - 1) / (b.bps as int),
            b.root_entries <= 0xFFFF,
            512 <= b.bps <= 4096,
    ;
    FatLayout {
        kind,
        bps: b.bps,
        spc: b.spc,
        fat_start: active * b.bps,
        fat_size: spf * b.bps,
        data_start: fds,
        clusters,
        root_cluster: b.root_cluster,
        root_start: (b.rsvd + b.fats * spf) * b.bps,
        root_size: rds * b.bps,
    }
}

fn fat_next_exec(e: &[u8], g: &FatLayout, c: u64) -> (r: Option<u64>)
    requires
        layout_sane(*g),
        in_range(*g, c),
    ensures
        r == fat_next(e@, *g, c),
        r matches Some(n) ==> n <= 0x0FFF_FFFF,
{
    let len = e.len() as u64;
    if g.kind == 12 {
        let off = c + c / 2;
        if off + 2 > g.fat_size || g.fat_start + off + 2 > len {
            None
        } else {
            let raw = read_u16_le(e, (g.fat_start + off) as usize) as u64;
            let v = if c % 2 == 0 {
                raw % 0x1000
            } else {
                raw / 16
            };
            if v == 0 || v >= 0xFF7 {
                None
            } else {
                Some(v)
            }
        }
    } else if g.kind == 16 {
        let off = 2 * c;
        if off + 2 > g.fat_size || g.fat_start + off + 2 > len {
            None
        } else {
            let v = read_u16_le(e, (g.fat_start + off) as usize) as u64;
            if v == 0 || v >= 0xFFF7 {
                None
            } else {
                Some(v)
            }
        }
    } else {
        let off = 4 * c;
        if off + 4 > g.fat_size || g.fat_start + off + 4 > len {
            None
        } else {
            let v = (read_u32_le(e, (g.fat_start + off) as usize) as u64) % 0x1000_0000;
            if v == 0 || v >= 0x0FFF_FFF7 || (0x0FFF_FFF7 <= c && c <= 0x0FFF_FFFF) {
                None
            } else {
                Some(v)
            }
        }
    }
}

proof fn lemma_chain_in_range(e: Seq<u8>, g: FatLayout, c: u64, fuel: nat)
    requires
        chain_ends(e, g, c, fuel),
    ensures
        forall|i: int|
            0 <= i < chain_of(e, g, c, fuel).len() ==> #[trigger] in_range(
                g,
                chain_of(e, g, c, fuel)[i],
            ),
        chain_of(e, g, c, fuel).len() <= fuel,
    decreases fuel,
{
    match fat_next(e, g, c) {
        None => {},
        Some(n) => {
            lemma_chain_in_range(e, g, n, (fuel - 1) as nat);
            let rest = chain_of(e, g, n, (fuel - 1) as nat);
            assert forall|i: int| 0 <= i < chain_of(e, g, c, fuel).len() implies #[trigger] in_range(
                g,
                chain_of(e, g, c, fuel)[i],
            ) by {
                if i > 0 {
                    assert(chain_of(e, g, c, fuel)[i] == rest[i - 1]);
                }
            }
        },
    }
}

/// The chain from `c`, where it ends within `fuel` clusters inside the data
/// region.
fn chain_exec(e: &[u8], g: &FatLayout, c: u64, fuel: u64) -> (r: Option<Vec<u64>>)
    requires
        layout_sane(*g),
    ensures
        r is Some <==> chain_ends(e@, *g, c, fuel as nat),
        r matches Some(v) ==> v@ == chain_of(e@, *g, c, fuel as nat),
{
    let mut out: Vec<u64> = Vec::new();
    let mut cur = c;
    let mut left = fuel;
    while left > 0 && in_range_exec(g, cur)
        invariant
            layout_sane(*g),
            left <= fuel,
            chain_ends(e@, *g, c, fuel as nat) == chain_ends(e@, *g, cur, left as nat),
            chain_of(e@, *g, c, fuel as nat) == out@ + chain_of(e@, *g, cur, left as nat),
        decreases left,
    {
        let next = fat_next_exec(e, g, cur);
        proof {
            let tail = match fat_next(e@, *g, cur) {
                None => Seq::<u64>::empty(),
                Some(n) => chain_of(e@, *g, n, (left - 1) as nat),
            };
            assert(chain_of(e@, *g, cur, left as nat) == seq![cur] + tail);
            assert(out@ + chain_of(e@, *g, cur, left as nat) =~= out@.push(cur) + tail);
        }
        out.push(cur);
        match next {
            None => {
                assert(out@ + Seq::<u64>::empty() =~= out@);
                return Some(out);
            },
            Some(n) => {
                cur = n;
                left = left - 1;
            },
        }
    }
    None
}

fn in_range_exec(g: &FatLayout, c: u64) -> (r: bool)
    requires
        layout_sane(*g),
    ensures
        r == in_range(*g, c),
{
    2 <= c && c < g.clusters + 2
}

fn dir_fuel_exec(g: &FatLayout) -> (r: u64)
    requires
        layout_sane(*g),
    ensures
        r == dir_fuel(*g),
{
    assert(g.spc * g.bps >= 512) by (nonlinear_arith)
        requires
            g.spc >= 1,
            g.bps >= 512,
    ;
    assert(g.spc * g.bps <= 128 * 4096) by (nonlinear_arith)
        requires
            g.spc <= 128,
            g.bps <= 4096,
    ;
    let by_size = 0xFFFF_FFFFu64 / (g.spc * g.bps);
    if g.clusters < by_size {
        g.clusters
    } else {
        by_size
    }
}

fn component_bytes(level: u64) -> (r: [u8; 11])
    ensures
        r@ == component_raw(level),
{
    if level == 2 {
        let r: [u8; 11] = [0x45, 0x46, 0x49, 0x20, 0x20, 0x20, 0x20, 0x20, 0x20, 0x20, 0x20];
        assert(r@ =~= component_raw(level));
        r
    } else if level == 1 {
        let r: [u8; 11] = [0x42, 0x4F, 0x4F, 0x54, 0x20, 0x20, 0x20, 0x20, 0x20, 0x20, 0x20];
        assert(r@ =~= component_raw(level));
        r
    } else {
        let r: [u8; 11] = [0x42, 0x4F, 0x4F, 0x54, 0x58, 0x36, 0x34, 0x20, 0x45, 0x46, 0x49];
        assert(r@ =~= component_raw(level));
        r
    }
}

fn short_name_matches(e: &[u8], p: usize, level: u64) -> (r: bool)
    requires
        p + 32 <= e@.len(),
    ensures
        r == short_name_is(e@, p as int, level),
{
    let want = component_bytes(level);
    let len = e.len();
    let mut i: usize = 0;
    while i < 11
        invariant
            i <= 11,
            len == e@.len(),
            p + 32 <= e@.len(),
            want@ == component_raw(level),
            forall|j: int| 0 <= j < i ==> #[trigger] byte_matches(e@[p + j], component_raw(level)[j]),
        decreases 11 - i,
    {
        let b = e[p + i];
        let w = want[i];
        if !(b == w || (0x41 <= w && w <= 0x5A && b as u16 == w as u16 + 0x20)) {
            assert(!byte_matches(e@[p + i as int], component_raw(level)[i as int]));
            return false;
        }
        i = i + 1;
    }
    true
}

fn lfn_at_exec(e: &[u8], p: u64) -> (r: bool)
    requires
        p <= 0x1_0000_0000 * 8192,
    ensures
        r == lfn_at(e@, p as int),
{
    p + 32 <= e.len() as u64 && e[p as usize + 11] % 16 == 15
}

fn slot_ok_exec(e: &[u8], g: &FatLayout, p: u64, prev_lfn: bool, levels: u64) -> (r: bool)
    requires
        layout_sane(*g),
        levels <= 2,
        p <= 0x1_0000_0000 * 8192,
    ensures
        r == slot_ok(e@, *g, p as int, prev_lfn, levels, deeper(e@, *g, levels)),
    decreases levels, 0nat,
{
    if p + 32 > e.len() as u64 {
        return true;
    }
    let at = p as usize;
    let attr = e[at + 11];
    if attr % 16 == 15 || e[at] == 0xE5 || e[at] == 0 {
        return true;
    }
    if !prev_lfn && !short_name_matches(e, at, levels) {
        return true;
    }
    let lo = read_u16_le(e, at + 26) as u64;
    let hi: u64 = if g.kind == 32 {
        read_u16_le(e, at + 20) as u64 * 0x1_0000
    } else {
        0
    };
    let c = hi + lo;
    assert(c == entry_cluster(e@, *g, p as int));
    if c == 0 {
        return true;
    }
    let is_dir = (attr / 16) % 2 == 1;
    if levels > 0 {
        if !is_dir {
            return true;
        }
        let r = dir_ok_exec(e, g, c, levels - 1);
        proof {
            if levels == 2 {
                assert(deeper(e@, *g, 1) =~= (|x: u64| dir_level0(e@, *g, x)));
            }
        }
        r
    } else {
        if is_dir {
            return true;
        }
        match chain_exec(e, g, c, g.clusters) {
            None => false,
            Some(_) => true,
        }
    }
}

fn dir_ok_exec(e: &[u8], g: &FatLayout, c: u64, levels: u64) -> (r: bool)
    requires
        layout_sane(*g),
        levels <= 2,
    ensures
        r == dir_ok(e@, *g, c, levels, deeper(e@, *g, levels)),
    decreases levels, 1nat,
{
    let fuel = dir_fuel_exec(g);
    let chain = match chain_exec(e, g, c, fuel) {
        None => {
            return false;
        },
        Some(v) => v,
    };
    let ghost ch = chain_of(e@, *g, c, dir_fuel(*g));
    let ghost dp = deeper(e@, *g, levels);
    proof {
        lemma_chain_in_range(e@, *g, c, dir_fuel(*g));
    }
    assert(g.spc * g.bps <= 128 * 4096) by (nonlinear_arith)
        requires
            g.spc <= 128,
            g.bps <= 4096,
    ;
    assert(g.spc * g.bps >= 512) by (nonlinear_arith)
        requires
            g.spc >= 1,
            g.bps >= 512,
    ;
    let per = g.spc * g.bps / 32;
    assert(per == cluster_bytes(*g) / 32);
    let mut prev = false;
    let mut i: usize = 0;
    while i < chain.len()
        invariant
            layout_sane(*g),
            levels <= 2,
            chain@ == ch,
            ch == chain_of(e@, *g, c, dir_fuel(*g)),
            chain_ends(e@, *g, c, dir_fuel(*g)),
            dp == deeper(e@, *g, levels),
            forall|j: int| 0 <= j < ch.len() ==> #[trigger] in_range(*g, ch[j]),
            per == cluster_bytes(*g) / 32,
            16 <= per <= 128 * 4096 / 32,
            i <= chain@.len(),
            i < chain@.len() ==> prev == dir_prev_lfn(e@, *g, ch, i as int, 0),
            forall|i2: int, k: int|
                0 <= i2 < i && 0 <= k < per ==> #[trigger] slot_ok(
                    e@,
                    *g,
                    cluster_offset(*g, ch[i2]) + 32 * k,
                    dir_prev_lfn(e@, *g, ch, i2, k),
                    levels,
                    dp,
                ),
        decreases chain@.len() - i,
    {
        let x = chain[i];
        assert(in_range(*g, ch[i as int]));
        assert((x - 2) * g.spc <= g.clusters * g.spc) by (nonlinear_arith)
            requires
                2 <= x < g.clusters + 2,
        ;
        assert((g.data_start + (x - 2) * g.spc) * g.bps <= 0xFFFF_FFFF * 4096) by (nonlinear_arith)
            requires
                g.data_start + (x - 2) * g.spc <= 0xFFFF_FFFF,
                g.bps <= 4096,
        ;
        let base = (g.data_start + (x - 2) * g.spc) * g.bps;
        assert(base == cluster_offset(*g, ch[i as int]));
        let mut k: u64 = 0;
        while k < per
            invariant
                layout_sane(*g),
                levels <= 2,
                i < chain@.len(),
                chain@ == ch,
                ch == chain_of(e@, *g, c, dir_fuel(*g)),
                chain_ends(e@, *g, c, dir_fuel(*g)),
                dp == deeper(e@, *g, levels),
                per == cluster_bytes(*g) / 32,
                forall|i2: int, k2: int|
                    0 <= i2 < i && 0 <= k2 < per ==> #[trigger] slot_ok(
                        e@,
                        *g,
                        cluster_offset(*g, ch[i2]) + 32 * k2,
                        dir_prev_lfn(e@, *g, ch, i2, k2),
                        levels,
                        dp,
                    ),
                base == cluster_offset(*g, ch[i as int]),
                base <= 0xFFFF_FFFF * 4096,
                16 <= per <= 128 * 4096 / 32,
                k <= per,
                prev == dir_prev_lfn(e@, *g, ch, i as int, k as int),
                forall|k2: int|
                    0 <= k2 < k ==> #[trigger] slot_ok(
                        e@,
                        *g,
                        cluster_offset(*g, ch[i as int]) + 32 * k2,
                        dir_prev_lfn(e@, *g, ch, i as int, k2),
                        levels,
                        dp,
                    ),
            decreases per - k,
        {
            if !slot_ok_exec(e, g, base + 32 * k, prev, levels) {
                proof {
                    let ii = i as int;
                    let kk = k as int;
                    assert(!slot_ok(
                        e@,
                        *g,
                        cluster_offset(*g, ch[ii]) + 32 * kk,
                        dir_prev_lfn(e@, *g, ch, ii, kk),
                        levels,
                        dp,
                    ));
                    assert(0 <= ii < chain_of(e@, *g, c, dir_fuel(*g)).len() && 0 <= kk
                        < cluster_bytes(*g) / 32);
                    assert(!dir_ok(e@, *g, c, levels, deeper(e@, *g, levels)));
                }
                return false;
            }
            prev = lfn_at_exec(e, base + 32 * k);
            k = k + 1;
        }
        proof {
            if i + 1 < chain@.len() {
                assert(dir_prev_lfn(e@, *g, ch, i + 1, 0) == dir_prev_lfn(e@, *g, ch, i as int, per as int));
            }
        }
        i = i + 1;
    }
    assert forall|i2: int, k: int|
        0 <= i2 < chain_of(e@, *g, c, dir_fuel(*g)).len() && 0 <= k < cluster_bytes(*g) / 32
            implies #[trigger] slot_ok(
        e@,
        *g,
        cluster_offset(*g, chain_of(e@, *g, c, dir_fuel(*g))[i2]) + 32 * k,
        dir_prev_lfn(e@, *g, chain_of(e@, *g, c, dir_fuel(*g)), i2, k),
        levels,
        deeper(e@, *g, levels),
    ) by {
        assert(slot_ok(
            e@,
            *g,
            cluster_offset(*g, ch[i2]) + 32 * k,
            dir_prev_lfn(e@, *g, ch, i2, k),
            levels,
            dp,
        ));
    }
    true
}

fn tree_ok_exec(e: &[u8], g: &FatLayout) -> (r: bool)
    requires
        layout_sane(*g),
    ensures
        r == tree_ok(e@, *g),
{
    if g.kind == 32 {
        return dir_ok_exec(e, g, g.root_cluster, 2);
    }
    let n = g.root_size / 32;
    let mut prev = false;
    let mut k: u64 = 0;
    while k < n
        invariant
            layout_sane(*g),
            g.kind != 32,
            n == g.root_size / 32,
            k <= n,
            prev == root_prev_lfn(e@, *g, k as int),
            forall|k2: int|
                0 <= k2 < k ==> #[trigger] slot_ok(
                    e@,
                    *g,
                    g.root_start + 32 * k2,
                    root_prev_lfn(e@, *g, k2),
                    2,
                    deeper(e@, *g, 2),
                ),
        decreases n - k,
    {
        if !slot_ok_exec(e, g, g.root_start + 32 * k, prev, 2) {
            assert(!slot_ok(
                e@,
                *g,
                g.root_start + 32 * (k as int),
                root_prev_lfn(e@, *g, k as int),
                2,
                deeper(e@, *g, 2),
            ));
            proof {
                let kk = k as int;
                assert(0 <= kk < g.root_size / 32);
                if tree_ok(e@, *g) {
                    assert(slot_ok(
                        e@,
                        *g,
                        g.root_start + 32 * kk,
                        root_prev_lfn(e@, *g, kk),
                        2,
                        deeper(e@, *g, 2),
                    ));
                }
            }
            return false;
        }
        prev = lfn_at_exec(e, g.root_start + 32 * k);
        k = k + 1;
    }
    true
}

/// Decides `esp_walk_safe`.
pub fn check_esp(e: &[u8]) -> (r: bool)
    ensures
        r == esp_walk_safe(e@),
{
    if check_early_reject(e) {
        return true;
    }
    proof {
        lemma_fields_bounded(e@);
    }
    let b = read_boot_fields(e);
    let fds = data_start_of(&b);
    if fds > 0xFFFF_FFFF {
        return false;
    }
    let spf = if b.spf16 == 0 {
        b.spf32
    } else {
        b.spf16
    };
    let tot = if b.tot16 == 0 {
        b.tot32
    } else {
        b.tot16
    };
    if tot <= fds {
        return true;
    }
    let clusters = (tot - fds) / b.spc;
    let kind: u64 = if clusters < 4085 {
        12
    } else if clusters < 65525 {
        16
    } else {
        32
    };
    if (b.spf16 == 0) != (kind == 32) || (kind == 32 && clusters > 0x0FFF_FFFF) {
        return true;
    }
    assert(spf * b.bps * 8 <= 0xFFFF_FFFF * 4096 * 8) by (nonlinear_arith)
        requires
            spf <= 0xFFFF_FFFF,
            b.bps <= 4096,
    ;
    if spf * b.bps * 8 > 0xFFFF_FFFF {
        return false;
    }
    assert((b.ext_flags % 16) * spf <= 15 * 0xFFFF_FFFF) by (nonlinear_arith)
        requires
            b.ext_flags % 16 <= 15,
            spf <= 0xFFFF_FFFF,
    ;
    let active = if b.spf16 == 0 && (b.ext_flags / 0x80) % 2 == 1 {
        b.rsvd + (b.ext_flags % 16) * spf
    } else {
        b.rsvd
    };
    if active > 0xFFFF_FFFF {
        return false;
    }
    let g = layout_of(&b);
    tree_ok_exec(e, &g)
}

} // verus!
