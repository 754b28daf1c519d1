//! Firmware-based inputs for rebuilding MRTD and RTMR0: the firmware
//! digests and the TD HOB template derived from the TDX metadata.

use vstd::prelude::*;

use crate::bytes::{
    le_bytes_u16, le_bytes_u32, le_bytes_u64, push_u16_le, push_u32_le, push_u64_le, push_zeros,
    zeros,
};
use crate::dcap::tdvf::{
    cfv_sha384, footer_sound, mrtd_sha384, spec_cfv, spec_mrtd, spec_tdx_metadata_sections,
    tdx_metadata_sections, wrap_add, Section, TdvfError, SECTION_TYPE_TD_HOB,
    SECTION_TYPE_TEMP_MEM,
};
use crate::hash::{sha384, sha384_of};
use crate::order::{sort_ranges, sorted_ranges};

verus! {

pub const LOW_MEM_TOP: u64 = 0x8000_0000;

pub const LOW_MEM_TOP_GCP: u64 = 0xC000_0000;

pub const HIGH_MEM_START: u64 = 0x1_0000_0000;

pub const DEFAULT_TD_HOB_BASE: u64 = 0x80_9000;

/// Size of the EFI_HOB_HANDOFF_INFO_TABLE header.
pub const HANDOFF_HOB_SIZE: usize = 56;

/// Size of one EFI_HOB_RESOURCE_DESCRIPTOR.
pub const RESOURCE_HOB_SIZE: usize = 48;

/// Firmware-based inputs needed to rebuild MRTD and RTMR0.
#[derive(Debug, Clone)]
pub struct DcapFirmware {
    pub mrtd: [u8; 48],
    pub cfv: [u8; 48],
    pub hob: HobTemplate,
}

/// HOB list bytes with a placeholder for the amount of RAM.
#[derive(Debug, Clone)]
pub struct HobTemplate {
    pub bytes: Vec<u8>,
    pub length_offset: usize,
    pub ram_threshold: u64,
}

#[derive(Debug)]
pub enum FirmwareError {
    RamBelowThreshold { ram_bytes: u64, threshold: u64 },
    Tdvf(TdvfError),
    AcceptedExceedsLowMem { cursor: u64, limit: u64 },
}

// ---------------------------------------------------------------------------
// HOB digest
// ---------------------------------------------------------------------------


/// Writing the RAM amount into the template changes only the eight bytes of
/// the placeholder, which then read back as that amount.
pub proof fn law_hob_placeholder(bytes: Seq<u8>, offset: int, value: u64)
    requires
        0 <= offset,
        offset + 8 <= bytes.len(),
    ensures
        hob_with_ram(bytes, offset, value).len() == bytes.len(),
        forall|i: int|
            0 <= i < bytes.len() && !(offset <= i < offset + 8) ==> #[trigger] hob_with_ram(
                bytes,
                offset,
                value,
            )[i] == bytes[i],
        hob_with_ram(bytes, offset, value).subrange(offset, offset + 8) == le_bytes_u64(value),
{
    let h = hob_with_ram(bytes, offset, value);
    assert(h.subrange(offset, offset + 8) =~= le_bytes_u64(value));
}

/// The HOB list with the RAM amount above the threshold written over the
/// placeholder.
pub open spec fn hob_with_ram(bytes: Seq<u8>, offset: int, value: u64) -> Seq<u8> {
    bytes.subrange(0, offset) + le_bytes_u64(value) + bytes.subrange(offset + 8, bytes.len() as int)
}

impl HobTemplate {
    /// The placeholder lies inside the HOB bytes.
    pub open spec fn well_formed(&self) -> bool {
        self.length_offset + 8 <= self.bytes@.len()
    }

    /// The HOB list digest for a RAM size at or above the threshold.
    pub open spec fn digest_for(&self, ram_bytes: u64) -> Seq<u8> {
        sha384_of(
            hob_with_ram(
                self.bytes@,
                self.length_offset as int,
                (ram_bytes - self.ram_threshold) as u64,
            ),
        )
    }

    /// SHA-384 of the HOB list for the given RAM size.
    pub fn digest(&self, ram_bytes: u64) -> (r: Result<[u8; 48], FirmwareError>)
        requires
            self.well_formed(),
        ensures
            ram_bytes < self.ram_threshold ==> r == Err::<[u8; 48], FirmwareError>(
                FirmwareError::RamBelowThreshold { ram_bytes, threshold: self.ram_threshold },
            ),
            ram_bytes >= self.ram_threshold ==> r is Ok && r->Ok_0@ == sha384_of(
                hob_with_ram(
                    self.bytes@,
                    self.length_offset as int,
                    (ram_bytes - self.ram_threshold) as u64,
                ),
            ),
    {
        let value = match ram_bytes.checked_sub(self.ram_threshold) {
            Some(v) => v,
            None => {
                return Err(
                    FirmwareError::RamBelowThreshold { ram_bytes, threshold: self.ram_threshold },
                );
            },
        };
        let off = self.length_offset;
        let mut buf: Vec<u8> = Vec::new();
        let mut i: usize = 0;
        while i < self.bytes.len()
            invariant
                i <= self.bytes@.len(),
                off + 8 <= self.bytes@.len(),
                buf@ == hob_with_ram(self.bytes@, off as int, value).subrange(0, i as int),
            decreases self.bytes@.len() - i,
        {
            let b = if off <= i && i < off + 8 {
                le_byte(value, i - off)
            } else {
                self.bytes[i]
            };
            buf.push(b);
            i = i + 1;
            assert(buf@ =~= hob_with_ram(self.bytes@, off as int, value).subrange(0, i as int));
        }
        assert(buf@ =~= hob_with_ram(self.bytes@, off as int, value));
        Ok(sha384(buf.as_slice()))
    }
}

/// Byte `k` of the little-endian encoding of `v`.
fn le_byte(v: u64, k: usize) -> (b: u8)
    requires
        k < 8,
    ensures
        b == le_bytes_u64(v)[k as int],
{
    let lo = v % 0x1_0000_0000;
    let hi = v / 0x1_0000_0000;
    let half = if k < 4 { lo } else { hi };
    let kk = if k < 4 { k } else { k - 4 };
    let part = if kk < 2 { half % 0x1_0000 } else { half / 0x1_0000 };
    let byte = if kk % 2 == 0 { part % 0x100 } else { part / 0x100 };
    byte as u8
}

// ---------------------------------------------------------------------------
// HOB template
// ---------------------------------------------------------------------------

/// One EFI_HOB_RESOURCE_DESCRIPTOR for a physical memory range. GCP sets
/// bit 28 of the attributes on unaccepted memory.
#[verifier::opaque]
pub open spec fn resource_hob(accepted: bool, gcp: bool, start: u64, length: u64) -> Seq<u8> {
    let attribute: u32 = if !accepted && gcp {
        0x1000_0007
    } else {
        0x07
    };
    seq![0x03u8, 0x00u8] + le_bytes_u16(48) + zeros(4) + zeros(16) + seq![
        if accepted {
            0x00u8
        } else {
            0x07u8
        },
    ] + zeros(3) + le_bytes_u32(attribute) + le_bytes_u64(start) + le_bytes_u64(length)
}

/// The EFI_HOB_HANDOFF_INFO_TABLE header ending at `end_of_hob_list`.
#[verifier::opaque]
pub open spec fn handoff_hob(end_of_hob_list: u64) -> Seq<u8> {
    seq![0x01u8, 0x00u8] + le_bytes_u16(56) + zeros(4) + le_bytes_u32(9) + zeros(36) + le_bytes_u64(
        end_of_hob_list,
    )
}

/// `x - y` modulo 2^64.
pub open spec fn wrap_sub(x: u64, y: u64) -> u64 {
    if x >= y {
        (x - y) as u64
    } else {
        (x - y + 0x1_0000_0000_0000_0000) as u64
    }
}

/// The memory range `[start, end)` of each accepted section: every section
/// on GCP, only TD_HOB and TEMP_MEM sections for QEMU.
pub open spec fn accepted_ranges(secs: Seq<Section>, gcp: bool) -> Seq<(u64, u64)>
    decreases secs.len(),
{
    if secs.len() == 0 {
        Seq::empty()
    } else {
        let s = secs.last();
        let rest = accepted_ranges(secs.drop_last(), gcp);
        if gcp || s.kind == SECTION_TYPE_TD_HOB || s.kind == SECTION_TYPE_TEMP_MEM {
            rest.push((s.memory_address, wrap_add(s.memory_address, s.memory_data_size as int)))
        } else {
            rest
        }
    }
}

/// The address of the last TD_HOB section, or the default HOB base.
pub open spec fn td_hob_base(secs: Seq<Section>) -> u64
    decreases secs.len(),
{
    if secs.len() == 0 {
        DEFAULT_TD_HOB_BASE
    } else if secs.last().kind == SECTION_TYPE_TD_HOB {
        secs.last().memory_address
    } else {
        td_hob_base(secs.drop_last())
    }
}

/// GCP: one accepted descriptor per accepted range, in section order.
pub open spec fn gcp_accepted_hobs(ranges: Seq<(u64, u64)>) -> Seq<u8>
    decreases ranges.len(),
{
    if ranges.len() == 0 {
        Seq::empty()
    } else {
        let (start, end) = ranges.last();
        gcp_accepted_hobs(ranges.drop_last()) + resource_hob(true, true, start, wrap_sub(end, start))
    }
}

/// GCP: the unaccepted gaps below the sorted low ranges, and the cursor
/// after the first `n` of them.
pub open spec fn gcp_gap_hobs(low: Seq<(u64, u64)>, n: nat) -> (Seq<u8>, u64)
    decreases n,
{
    if n == 0 || n > low.len() {
        (Seq::empty(), 0)
    } else {
        let (bytes, cursor) = gcp_gap_hobs(low, (n - 1) as nat);
        let (start, end) = low[n - 1];
        let gap = if start > cursor {
            resource_hob(false, true, cursor, (start - cursor) as u64)
        } else {
            Seq::empty()
        };
        (
            bytes + gap,
            if cursor >= end {
                cursor
            } else {
                end
            },
        )
    }
}

/// QEMU: over the sorted ranges, the unaccepted gap before each range and
/// the range itself, and the cursor after the first `n` of them.
pub open spec fn qemu_hobs(sorted: Seq<(u64, u64)>, n: nat) -> (Seq<u8>, u64)
    decreases n,
{
    if n == 0 || n > sorted.len() {
        (Seq::empty(), 0)
    } else {
        let (bytes, cursor) = qemu_hobs(sorted, (n - 1) as nat);
        let (start, end) = sorted[n - 1];
        let gap = if cursor < start {
            resource_hob(false, false, cursor, (start - cursor) as u64)
        } else {
            Seq::empty()
        };
        (bytes + gap + resource_hob(true, false, start, wrap_sub(end, start)), end)
    }
}

/// Whether a range starts below `top`.
pub open spec fn starts_below(top: u64) -> spec_fn((u64, u64)) -> bool {
    |x: (u64, u64)| x.0 < top
}

/// The resource descriptors before the trailing ones, and the cursor.
#[verifier::opaque]
pub open spec fn range_hobs(secs: Seq<Section>, gcp: bool) -> (Seq<u8>, u64) {
    let low_top = if gcp {
        LOW_MEM_TOP_GCP
    } else {
        LOW_MEM_TOP
    };
    let accepted = accepted_ranges(secs, gcp);
    if gcp {
        let low = sorted_ranges(accepted.filter(starts_below(low_top)));
        let (gaps, cursor) = gcp_gap_hobs(low, low.len());
        (gcp_accepted_hobs(accepted) + gaps, cursor)
    } else {
        let sorted = sorted_ranges(accepted);
        qemu_hobs(sorted, sorted.len())
    }
}

/// The HOB template for the given sections, as `(bytes, length_offset,
/// ram_threshold)`.
#[verifier::opaque]
pub open spec fn spec_hob_from_sections(secs: Seq<Section>, gcp: bool) -> Result<
    (Seq<u8>, int, u64),
    FirmwareError,
> {
    let low_top = if gcp {
        LOW_MEM_TOP_GCP
    } else {
        LOW_MEM_TOP
    };
    let (ranges, cursor) = range_hobs(secs, gcp);
    if cursor > low_top {
        Err(FirmwareError::AcceptedExceedsLowMem { cursor, limit: low_top })
    } else {
        let tail = if cursor < low_top {
            resource_hob(false, gcp, cursor, (low_top - cursor) as u64)
        } else {
            Seq::empty()
        };
        let body = ranges + tail + resource_hob(false, gcp, HIGH_MEM_START, 0);
        let len = HANDOFF_HOB_SIZE + body.len();
        let end = wrap_add(td_hob_base(secs), len);
        let end = if gcp {
            end
        } else {
            wrap_add(end, 8)
        };
        Ok((handoff_hob(end) + body, len - 8, low_top))
    }
}

/// The top of low memory a HOB template covers.
pub open spec fn low_mem_top(gcp: bool) -> u64 {
    if gcp {
        LOW_MEM_TOP_GCP
    } else {
        LOW_MEM_TOP
    }
}

proof fn lemma_resource_hob_len(accepted: bool, gcp: bool, start: u64, length: u64)
    ensures
        resource_hob(accepted, gcp, start, length).len() == 48,
{
    reveal(resource_hob);
}

proof fn lemma_gcp_accepted_len(ranges: Seq<(u64, u64)>)
    ensures
        gcp_accepted_hobs(ranges).len() % 48 == 0,
    decreases ranges.len(),
{
    if ranges.len() > 0 {
        let (start, end) = ranges.last();
        lemma_gcp_accepted_len(ranges.drop_last());
        lemma_resource_hob_len(true, true, start, wrap_sub(end, start));
    }
}

proof fn lemma_gcp_gap_len(low: Seq<(u64, u64)>, n: nat)
    ensures
        gcp_gap_hobs(low, n).0.len() % 48 == 0,
    decreases n,
{
    if n > 0 && n <= low.len() {
        lemma_gcp_gap_len(low, (n - 1) as nat);
        let (bytes, cursor) = gcp_gap_hobs(low, (n - 1) as nat);
        let (start, end) = low[n - 1];
        if start > cursor {
            lemma_resource_hob_len(false, true, cursor, (start - cursor) as u64);
        }
    }
}

proof fn lemma_qemu_len(sorted: Seq<(u64, u64)>, n: nat)
    ensures
        qemu_hobs(sorted, n).0.len() % 48 == 0,
    decreases n,
{
    if n > 0 && n <= sorted.len() {
        lemma_qemu_len(sorted, (n - 1) as nat);
        let (bytes, cursor) = qemu_hobs(sorted, (n - 1) as nat);
        let (start, end) = sorted[n - 1];
        if cursor < start {
            lemma_resource_hob_len(false, false, cursor, (start - cursor) as u64);
        }
        lemma_resource_hob_len(true, false, start, wrap_sub(end, start));
    }
}

proof fn lemma_range_hobs_len(secs: Seq<Section>, gcp: bool)
    ensures
        range_hobs(secs, gcp).0.len() % 48 == 0,
{
    reveal(range_hobs);
    let accepted = accepted_ranges(secs, gcp);
    if gcp {
        let low = sorted_ranges(accepted.filter(starts_below(LOW_MEM_TOP_GCP)));
        lemma_gcp_accepted_len(accepted);
        lemma_gcp_gap_len(low, low.len());
    } else {
        let sorted = sorted_ranges(accepted);
        lemma_qemu_len(sorted, sorted.len());
    }
}

/// The layout of a HOB template: the handoff header (type 1, length 56,
/// version 9), then 48-byte resource descriptors, the last of which
/// describes the memory from 4 GiB with length zero, the placeholder that
/// `length_offset` points at; the RAM threshold is the top of low memory.
/// The template is refused, with the cursor and that limit, exactly when
/// the accepted ranges reach past the top of low memory.
pub proof fn law_hob_layout(secs: Seq<Section>, gcp: bool)
    ensures
        match spec_hob_from_sections(secs, gcp) {
            Ok((t, length_offset, threshold)) => {
                &&& t.len() >= 56 + 48
                &&& t[0] == 1 && t[1] == 0
                &&& t.subrange(2, 4) == le_bytes_u16(56)
                &&& t.subrange(8, 12) == le_bytes_u32(9)
                &&& (t.len() - 56) % 48 == 0
                &&& t.subrange(t.len() - 48, t.len() as int) == resource_hob(false, gcp, HIGH_MEM_START, 0)
                &&& t.subrange(t.len() - 16, t.len() - 8) == le_bytes_u64(HIGH_MEM_START)
                &&& t.subrange(t.len() - 8, t.len() as int) == le_bytes_u64(0)
                &&& length_offset == t.len() - 8
                &&& threshold == low_mem_top(gcp)
            },
            Err(e) => e == FirmwareError::AcceptedExceedsLowMem {
                cursor: range_hobs(secs, gcp).1,
                limit: low_mem_top(gcp),
            },
        },
        spec_hob_from_sections(secs, gcp) is Err <==> range_hobs(secs, gcp).1 > low_mem_top(gcp),
{
    reveal(spec_hob_from_sections);
    let low_top = low_mem_top(gcp);
    let (ranges, cursor) = range_hobs(secs, gcp);
    if cursor <= low_top {
        lemma_range_hobs_len(secs, gcp);
        let tail = if cursor < low_top {
            resource_hob(false, gcp, cursor, (low_top - cursor) as u64)
        } else {
            Seq::empty()
        };
        if cursor < low_top {
            lemma_resource_hob_len(false, gcp, cursor, (low_top - cursor) as u64);
        }
        let last = resource_hob(false, gcp, HIGH_MEM_START, 0);
        lemma_resource_hob_len(false, gcp, HIGH_MEM_START, 0);
        let body = ranges + tail + last;
        let len = HANDOFF_HOB_SIZE + body.len();
        let end0 = wrap_add(td_hob_base(secs), len);
        let end = if gcp {
            end0
        } else {
            wrap_add(end0, 8)
        };
        let h = handoff_hob(end);
        lemma_handoff_fields(end);
        lemma_last_hob_fields(gcp);
        let t = h + body;
        assert(t[0] == h[0] && t[1] == h[1]);
        assert(t.subrange(2, 4) =~= h.subrange(2, 4));
        assert(t.subrange(8, 12) =~= h.subrange(8, 12));
        assert(t.subrange(t.len() - 48, t.len() as int) =~= last);
        assert(t.subrange(t.len() - 16, t.len() - 8) =~= last.subrange(32, 40));
        assert(t.subrange(t.len() - 8, t.len() as int) =~= last.subrange(40, 48));
    }
}

/// A firmware blob's HOB template is the template of its TDX metadata
/// sections, so `law_hob_layout` describes it; a blob whose metadata cannot
/// be read has none.
pub proof fn law_hob_template_from_sections(fw: Seq<u8>, gcp: bool)
    ensures
        match spec_tdx_metadata_sections(fw) {
            Err(e) => spec_hob_template(fw, gcp) == Err::<(Seq<u8>, int, u64), FirmwareError>(
                FirmwareError::Tdvf(e),
            ),
            Ok(secs) => spec_hob_template(fw, gcp) == spec_hob_from_sections(secs, gcp),
        },
{
    reveal(spec_hob_template);
}

proof fn lemma_handoff_fields(end: u64)
    ensures
        handoff_hob(end).len() == 56,
        handoff_hob(end)[0] == 1 && handoff_hob(end)[1] == 0,
        handoff_hob(end).subrange(2, 4) == le_bytes_u16(56),
        handoff_hob(end).subrange(8, 12) == le_bytes_u32(9),
{
    reveal(handoff_hob);
    let h = handoff_hob(end);
    assert(h.subrange(2, 4) =~= le_bytes_u16(56));
    assert(h.subrange(8, 12) =~= le_bytes_u32(9));
}

proof fn lemma_last_hob_fields(gcp: bool)
    ensures
        resource_hob(false, gcp, HIGH_MEM_START, 0).len() == 48,
        resource_hob(false, gcp, HIGH_MEM_START, 0).subrange(32, 40) == le_bytes_u64(HIGH_MEM_START),
        resource_hob(false, gcp, HIGH_MEM_START, 0).subrange(40, 48) == le_bytes_u64(0),
{
    reveal(resource_hob);
    let r = resource_hob(false, gcp, HIGH_MEM_START, 0);
    assert(r.subrange(32, 40) =~= le_bytes_u64(HIGH_MEM_START));
    assert(r.subrange(40, 48) =~= le_bytes_u64(0));
}

/// The HOB template derived from a firmware blob.
#[verifier::opaque]
pub open spec fn spec_hob_template(fw: Seq<u8>, gcp: bool) -> Result<
    (Seq<u8>, int, u64),
    FirmwareError,
> {
    match spec_tdx_metadata_sections(fw) {
        Err(e) => Err(FirmwareError::Tdvf(e)),
        Ok(secs) => spec_hob_from_sections(secs, gcp),
    }
}

/// Appends an EFI_HOB_RESOURCE_DESCRIPTOR for one physical memory range.
fn push_memory_range(hob: &mut Vec<u8>, accepted: bool, gcp: bool, start: u64, length: u64)
    ensures
        final(hob)@ == old(hob)@ + resource_hob(accepted, gcp, start, length),
{
    let attribute: u32 = if !accepted && gcp {
        0x1000_0007
    } else {
        0x07
    };
    proof {
        reveal(resource_hob);
    }
    hob.push(0x03);
    hob.push(0x00);
    push_u16_le(hob, 48);
    push_zeros(hob, 4);
    push_zeros(hob, 16);
    hob.push(if accepted { 0x00 } else { 0x07 });
    push_zeros(hob, 3);
    push_u32_le(hob, attribute);
    push_u64_le(hob, start);
    push_u64_le(hob, length);
    assert(final(hob)@ =~= old(hob)@ + resource_hob(accepted, gcp, start, length));
}

/// The accepted ranges and the TD HOB base of the sections.
fn collect_ranges(secs: &Vec<Section>, gcp: bool) -> (r: (Vec<(u64, u64)>, u64))
    ensures
        r.0@ == accepted_ranges(secs@, gcp),
        r.1 == td_hob_base(secs@),
{
    let mut accepted: Vec<(u64, u64)> = Vec::new();
    let mut base = DEFAULT_TD_HOB_BASE;
    let mut i: usize = 0;
    while i < secs.len()
        invariant
            i <= secs@.len(),
            accepted@ == accepted_ranges(secs@.take(i as int), gcp),
            base == td_hob_base(secs@.take(i as int)),
        decreases secs@.len() - i,
    {
        let s = secs[i];
        assert(secs@.take(i + 1).drop_last() =~= secs@.take(i as int));
        if gcp || s.kind == SECTION_TYPE_TD_HOB || s.kind == SECTION_TYPE_TEMP_MEM {
            accepted.push((s.memory_address, s.memory_address.wrapping_add(s.memory_data_size)));
        }
        if s.kind == SECTION_TYPE_TD_HOB {
            base = s.memory_address;
        }
        i = i + 1;
    }
    assert(secs@.take(secs@.len() as int) =~= secs@);
    (accepted, base)
}

/// The ranges that start below `low_top`, in order.
fn low_ranges(ranges: &Vec<(u64, u64)>, low_top: u64) -> (r: Vec<(u64, u64)>)
    ensures
        r@ == ranges@.filter(starts_below(low_top)),
{
    let ghost pred = starts_below(low_top);
    let mut out: Vec<(u64, u64)> = Vec::new();
    let mut i: usize = 0;
    assert(ranges@.take(0).filter(pred) =~= Seq::<(u64, u64)>::empty()) by {
        reveal(Seq::filter);
    }
    while i < ranges.len()
        invariant
            i <= ranges@.len(),
            pred == starts_below(low_top),
            out@ == ranges@.take(i as int).filter(pred),
        decreases ranges@.len() - i,
    {
        let r = ranges[i];
        proof {
            assert(ranges@.take(i + 1) =~= ranges@.take(i as int).push(r));
            ranges@.take(i as int).lemma_filter_push(r, pred);
            assert(pred(r) == (r.0 < low_top));
        }
        if r.0 < low_top {
            out.push(r);
        }
        i = i + 1;
    }
    assert(ranges@.take(ranges@.len() as int) =~= ranges@);
    out
}

/// GCP: the accepted descriptors in section order, then the unaccepted gaps
/// below the sorted low ranges.
fn gcp_range_hobs(accepted: &Vec<(u64, u64)>) -> (r: (Vec<u8>, u64))
    ensures
        ({
            let low = sorted_ranges(accepted@.filter(starts_below(LOW_MEM_TOP_GCP)));
            let (gaps, cursor) = gcp_gap_hobs(low, low.len());
            r.0@ == gcp_accepted_hobs(accepted@) + gaps && r.1 == cursor
        }),
{
    let mut body: Vec<u8> = Vec::new();
    let mut i: usize = 0;
    while i < accepted.len()
        invariant
            i <= accepted@.len(),
            body@ == gcp_accepted_hobs(accepted@.take(i as int)),
        decreases accepted@.len() - i,
    {
        let (start, end) = accepted[i];
        assert(accepted@.take(i + 1).drop_last() =~= accepted@.take(i as int));
        push_memory_range(&mut body, true, true, start, end.wrapping_sub(start));
        i = i + 1;
    }
    assert(accepted@.take(accepted@.len() as int) =~= accepted@);
    let ghost accepted_bytes = body@;
    let low_unsorted = low_ranges(accepted, LOW_MEM_TOP_GCP);
    let low = sort_ranges(&low_unsorted);
    let mut cursor: u64 = 0;
    let mut k: usize = 0;
    while k < low.len()
        invariant
            k <= low@.len(),
            body@ == accepted_bytes + gcp_gap_hobs(low@, k as nat).0,
            cursor == gcp_gap_hobs(low@, k as nat).1,
        decreases low@.len() - k,
    {
        let (start, end) = low[k];
        if start > cursor {
            push_memory_range(&mut body, false, true, cursor, start - cursor);
        }
        cursor = if cursor >= end {
            cursor
        } else {
            end
        };
        k = k + 1;
        assert(body@ =~= accepted_bytes + gcp_gap_hobs(low@, k as nat).0);
    }
    (body, cursor)
}

/// QEMU: over the sorted ranges, each unaccepted gap and accepted range.
fn qemu_range_hobs(accepted: &Vec<(u64, u64)>) -> (r: (Vec<u8>, u64))
    ensures
        ({
            let sorted = sorted_ranges(accepted@);
            r == (r.0, qemu_hobs(sorted, sorted.len()).1) && r.0@ == qemu_hobs(
                sorted,
                sorted.len(),
            ).0
        }),
{
    let sorted = sort_ranges(accepted);
    let mut body: Vec<u8> = Vec::new();
    let mut cursor: u64 = 0;
    let mut k: usize = 0;
    while k < sorted.len()
        invariant
            k <= sorted@.len(),
            body@ == qemu_hobs(sorted@, k as nat).0,
            cursor == qemu_hobs(sorted@, k as nat).1,
        decreases sorted@.len() - k,
    {
        let (start, end) = sorted[k];
        if cursor < start {
            push_memory_range(&mut body, false, false, cursor, start - cursor);
        }
        push_memory_range(&mut body, true, false, start, end.wrapping_sub(start));
        cursor = end;
        k = k + 1;
        assert(body@ =~= qemu_hobs(sorted@, k as nat).0);
    }
    (body, cursor)
}

/// Prepends the handoff header to the descriptors, pointing its end of the
/// HOB list past the whole list.
fn finish_hob(body: Vec<u8>, base: u64, gcp: bool) -> (hob: Vec<u8>)
    ensures
        ({
            let len = HANDOFF_HOB_SIZE + body@.len();
            let end = wrap_add(base, len);
            let end = if gcp {
                end
            } else {
                wrap_add(end, 8)
            };
            hob@ == handoff_hob(end) + body@
        }),
        hob@.len() == HANDOFF_HOB_SIZE + body@.len(),
{
    proof {
        reveal(handoff_hob);
    }
    let mut body = body;
    let mut hob: Vec<u8> = Vec::new();
    hob.push(0x01);
    hob.push(0x00);
    push_u16_le(&mut hob, 56);
    push_zeros(&mut hob, 4);
    push_u32_le(&mut hob, 9);
    push_zeros(&mut hob, 44);
    let ghost body_bytes = body@;
    hob.append(&mut body);
    let len = hob.len();
    let mut end_of_hob_list = base.wrapping_add(len as u64);
    // QEMU ends the HOB list with an 8-byte EndOfHobList terminator
    if !gcp {
        end_of_hob_list = end_of_hob_list.wrapping_add(8);
    }
    let ghost header = handoff_hob(end_of_hob_list);
    assert(hob@.subrange(0, 48) =~= header.subrange(0, 48));
    assert(hob@.subrange(56, len as int) =~= body_bytes);
    let mut k: usize = 0;
    while k < 8
        invariant
            k <= 8,
            hob@.len() == len,
            len == HANDOFF_HOB_SIZE + body_bytes.len(),
            header == handoff_hob(end_of_hob_list),
            hob@.subrange(0, 48) == header.subrange(0, 48),
            hob@.subrange(48, 48 + k as int) == le_bytes_u64(end_of_hob_list).subrange(0, k as int),
            hob@.subrange(56, len as int) == body_bytes,
        decreases 8 - k,
    {
        let b = le_byte(end_of_hob_list, k);
        let ghost before = hob@;
        hob.set(48 + k, b);
        k = k + 1;
        assert(hob@.subrange(48, 48 + k as int) =~= le_bytes_u64(end_of_hob_list).subrange(
            0,
            k as int,
        ));
        assert(hob@.subrange(0, 48) =~= before.subrange(0, 48));
        assert(hob@.subrange(56, len as int) =~= before.subrange(56, len as int));
    }
    assert(hob@ =~= header + body_bytes) by {
        assert(hob@ =~= hob@.subrange(0, 48) + hob@.subrange(48, 56) + hob@.subrange(56, len as int));
        assert(header.subrange(48, 56) =~= le_bytes_u64(end_of_hob_list));
        assert(header =~= header.subrange(0, 48) + header.subrange(48, 56));
    }
    hob
}

/// Builds the TD HOB template from the TDX metadata sections.
pub fn hob_from_sections(secs: &Vec<Section>, gcp: bool) -> (r: Result<HobTemplate, FirmwareError>)
    ensures
        match r {
            Ok(h) => spec_hob_from_sections(secs@, gcp) == Ok::<
                (Seq<u8>, int, u64),
                FirmwareError,
            >((h.bytes@, h.length_offset as int, h.ram_threshold)) && h.well_formed(),
            Err(e) => spec_hob_from_sections(secs@, gcp) == Err::<
                (Seq<u8>, int, u64),
                FirmwareError,
            >(e),
        },
{
    let low_top = if gcp {
        LOW_MEM_TOP_GCP
    } else {
        LOW_MEM_TOP
    };
    let (accepted, base) = collect_ranges(secs, gcp);
    let (mut body, cursor) = if gcp {
        gcp_range_hobs(&accepted)
    } else {
        qemu_range_hobs(&accepted)
    };
    proof {
        reveal(range_hobs);
        reveal(spec_hob_from_sections);
    }
    assert(body@ == range_hobs(secs@, gcp).0 && cursor == range_hobs(secs@, gcp).1);
    if cursor > low_top {
        return Err(FirmwareError::AcceptedExceedsLowMem { cursor, limit: low_top });
    }
    if cursor < low_top {
        push_memory_range(&mut body, false, gcp, cursor, low_top - cursor);
    }
    push_memory_range(&mut body, false, gcp, HIGH_MEM_START, 0);
    let ghost body_bytes = body@;
    let hob = finish_hob(body, base, gcp);
    let len = hob.len();
    Ok(HobTemplate { bytes: hob, length_offset: len - 8, ram_threshold: low_top })
}

/// The firmware inputs derived from a blob, as `(mrtd, cfv digest, hob)`.
pub open spec fn spec_from_blob(fw: Seq<u8>, gcp: bool) -> Result<
    (Seq<u8>, Seq<u8>, (Seq<u8>, int, u64)),
    FirmwareError,
> {
    match spec_mrtd(fw) {
        Err(e) => Err(FirmwareError::Tdvf(e)),
        Ok(mrtd) => match spec_cfv(fw) {
            Err(e) => Err(FirmwareError::Tdvf(e)),
            Ok(cfv) => match spec_hob_template(fw, gcp) {
                Err(e) => Err(e),
                Ok(hob) => Ok((mrtd, sha384_of(cfv), hob)),
            },
        },
    }
}

impl DcapFirmware {
    /// The view `(mrtd, cfv, (hob bytes, length offset, ram threshold))`.
    pub open spec fn view_tuple(&self) -> (Seq<u8>, Seq<u8>, (Seq<u8>, int, u64)) {
        (
            self.mrtd@,
            self.cfv@,
            (self.hob.bytes@, self.hob.length_offset as int, self.hob.ram_threshold),
        )
    }

    /// Derives the firmware inputs by parsing a firmware blob.
    pub fn from_blob(fw: &[u8], gcp: bool) -> (r: Result<Self, FirmwareError>)
        requires
            footer_sound(fw@),
        ensures
            match r {
                Ok(f) => spec_from_blob(fw@, gcp) == Ok::<
                    (Seq<u8>, Seq<u8>, (Seq<u8>, int, u64)),
                    FirmwareError,
                >(f.view_tuple()) && f.hob.well_formed(),
                Err(e) => spec_from_blob(fw@, gcp) == Err::<
                    (Seq<u8>, Seq<u8>, (Seq<u8>, int, u64)),
                    FirmwareError,
                >(e),
            },
    {
        let mrtd = match mrtd_sha384(fw) {
            Ok(d) => d,
            Err(e) => {
                return Err(FirmwareError::Tdvf(e));
            },
        };
        let cfv = match cfv_sha384(fw) {
            Ok(d) => d,
            Err(e) => {
                return Err(FirmwareError::Tdvf(e));
            },
        };
        let hob = match build_hob_template_from_blob(fw, gcp) {
            Ok(h) => h,
            Err(e) => {
                return Err(e);
            },
        };
        Ok(DcapFirmware { mrtd, cfv, hob })
    }
}

/// Builds the TD HOB template from the TDX metadata of a firmware blob.
pub fn build_hob_template_from_blob(fw: &[u8], gcp: bool) -> (r: Result<HobTemplate, FirmwareError>)
    requires
        footer_sound(fw@),
    ensures
        match r {
            Ok(h) => spec_hob_template(fw@, gcp) == Ok::<(Seq<u8>, int, u64), FirmwareError>(
                (h.bytes@, h.length_offset as int, h.ram_threshold),
            ) && h.well_formed(),
            Err(e) => spec_hob_template(fw@, gcp) == Err::<(Seq<u8>, int, u64), FirmwareError>(e),
        },
{
    proof {
        reveal(spec_hob_template);
    }
    let sections = match tdx_metadata_sections(fw) {
        Ok(s) => s,
        Err(e) => {
            return Err(FirmwareError::Tdvf(e));
        },
    };
    hob_from_sections(&sections, gcp)
}

} // verus!
