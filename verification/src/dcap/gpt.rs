//! The GUID partition table event: the data firmware measures for the boot
//! disk's partition table (the partition table header, the number of
//! partition entries in use, and those entries).

use vstd::prelude::*;

use crate::bytes::{le_bytes_u64, le_u32, le_u64, push_bytes, push_u64_le, read_u32_le, read_u64_le};
use crate::hash::{sha384, sha384_of};

verus! {

/// Size of a logical block.
pub const BLOCK_SIZE: u64 = 512;

/// Size of the partition table header that the event records.
pub const HEADER_SIZE: usize = 92;

/// A partition entry is unused when its partition type GUID is zero.
pub open spec fn entry_unused(entry: Seq<u8>) -> bool {
    forall|i: int| 0 <= i < 16 ==> entry[i] == 0
}

/// The `k`-th entry of an entry array starting at byte `start`.
pub open spec fn entry_at(disk: Seq<u8>, start: int, size: int, k: int) -> Seq<u8> {
    disk.subrange(start + k * size, start + k * size + size)
}

/// The number of used entries among the first `k`, and their bytes in order.
pub open spec fn used_entries(disk: Seq<u8>, start: int, size: int, k: nat) -> (nat, Seq<u8>)
    decreases k,
{
    if k == 0 {
        (0, Seq::empty())
    } else {
        let prev = used_entries(disk, start, size, (k - 1) as nat);
        let e = entry_at(disk, start, size, k - 1);
        if entry_unused(e) {
            prev
        } else {
            ((prev.0 + 1) as nat, prev.1 + e)
        }
    }
}

/// The event data for the partition table of `disk` (whose primary header
/// is at block 1): the header, the used-entry count as a little-endian u64,
/// and the used entries; `None` where the entry array does not lie within
/// the disk or its entries are too short to hold a type GUID.
pub open spec fn gpt_event_data(disk: Seq<u8>) -> Option<Seq<u8>> {
    if disk.len() < 512 + HEADER_SIZE {
        None
    } else {
        let start = le_u64(disk, 584int) * 512;
        let count = le_u32(disk, 592int);
        let size = le_u32(disk, 596int);
        if size < 16 || start + count * size > disk.len() {
            None
        } else {
            let used = used_entries(disk, start, size, count as nat);
            Some(disk.subrange(512, 512 + HEADER_SIZE) + crate::bytes::le_bytes_u64(used.0 as u64)
                + used.1)
        }
    }
}

proof fn lemma_used_entries_len(disk: Seq<u8>, start: int, size: int, k: nat)
    requires
        size >= 0,
        start >= 0,
        start + k * size <= disk.len(),
    ensures
        used_entries(disk, start, size, k).0 <= k,
        used_entries(disk, start, size, k).1.len() == used_entries(disk, start, size, k).0 * size,
    decreases k,
{
    if k > 0 {
        assert(start + (k - 1) * size + size == start + k * size) by (nonlinear_arith);
        assert(start + (k - 1) * size <= start + k * size) by (nonlinear_arith)
            requires
                size >= 0,
                k >= 1,
        ;
        lemma_used_entries_len(disk, start, size, (k - 1) as nat);
        let prev = used_entries(disk, start, size, (k - 1) as nat);
        let e = entry_at(disk, start, size, k - 1);
        assert(0 <= start + (k - 1) * size) by (nonlinear_arith)
            requires
                start >= 0,
                size >= 0,
                k >= 1,
        ;
        assert(e.len() == size);
        if entry_unused(e) {
            assert(used_entries(disk, start, size, k) == prev);
        } else {
            let cur = used_entries(disk, start, size, k);
            assert(cur == ((prev.0 + 1) as nat, prev.1 + e));
            assert(cur.1.len() == cur.0 * size) by (nonlinear_arith)
                requires
                    cur.1.len() == prev.1.len() + size,
                    cur.0 == prev.0 + 1,
                    prev.1.len() == prev.0 * size,
            ;
        }
    } else {
        let cur = used_entries(disk, start, size, k);
        assert(cur.0 == 0 && cur.1.len() == 0);
        assert(cur.0 * size == 0) by (nonlinear_arith)
            requires
                cur.0 == 0,
        ;
    }
}

/// The event data is the 92-byte header, the 8-byte count of used entries,
/// and that many entries of the recorded entry size.
pub proof fn law_gpt_event_layout(disk: Seq<u8>)
    requires
        gpt_event_data(disk) is Some,
    ensures
        gpt_event_data(disk)->0.subrange(0, HEADER_SIZE as int) == disk.subrange(
            512,
            512 + HEADER_SIZE,
        ),
        (gpt_event_data(disk)->0.len() - HEADER_SIZE - 8) % (le_u32(disk, 596int) as int) == 0,
        gpt_event_data(disk)->0.len() - HEADER_SIZE - 8 <= le_u32(disk, 592int) * le_u32(
            disk,
            596int,
        ),
{
    let start = le_u64(disk, 584int) * 512;
    let count = le_u32(disk, 592int);
    let size = le_u32(disk, 596int);
    assert(le_u64(disk, 584int) >= 0 && count >= 0 && size >= 0) by {
        assert(disk[584] >= 0);
    }
    assert(start >= 0) by (nonlinear_arith)
        requires
            start == le_u64(disk, 584int) * 512,
            le_u64(disk, 584int) >= 0,
    ;
    lemma_used_entries_len(disk, start, size, count as nat);
    let used = used_entries(disk, start, size, count as nat);
    let d = gpt_event_data(disk)->0;
    assert(d == disk.subrange(512, 512 + HEADER_SIZE) + le_bytes_u64(used.0 as u64) + used.1);
    assert(d.subrange(0, HEADER_SIZE as int) =~= disk.subrange(512, 512 + HEADER_SIZE));
    assert(d.len() - HEADER_SIZE - 8 == used.0 * size);
    assert((used.0 * size) % size == 0) by (nonlinear_arith)
        requires
            size >= 16,
    ;
    assert(used.0 * size <= count * size) by (nonlinear_arith)
        requires
            used.0 <= count,
            size >= 0,
    ;
}

/// The digest of the partition table event of a disk image.
pub open spec fn gpt_event_digest_of(disk: Seq<u8>) -> Option<Seq<u8>> {
    match gpt_event_data(disk) {
        Some(d) => Some(sha384_of(d)),
        None => None,
    }
}

fn is_unused(disk: &[u8], at: usize) -> (r: bool)
    requires
        at + 16 <= disk@.len(),
    ensures
        r == entry_unused(disk@.subrange(at as int, disk@.len() as int)),
{
    let ghost tail = disk@.subrange(at as int, disk@.len() as int);
    let n = disk.len();
    let mut i: usize = 0;
    while i < 16
        invariant
            i <= 16,
            n == disk@.len(),
            at + 16 <= disk@.len(),
            tail == disk@.subrange(at as int, disk@.len() as int),
            forall|j: int| 0 <= j < i ==> #[trigger] tail[j] == 0,
        decreases 16 - i,
    {
        assert(tail[i as int] == disk@[at + i]);
        if disk[at + i] != 0 {
            return false;
        }
        i = i + 1;
    }
    true
}

/// The SHA-384 digest of the partition table event of a disk image.
pub fn disk_guid_hash_from_header(disk: &[u8]) -> (r: Option<[u8; 48]>)
    ensures
        match gpt_event_digest_of(disk@) {
            Some(d) => r is Some && r->0@ == d,
            None => r is None,
        },
{
    if disk.len() < 512 + HEADER_SIZE {
        return None;
    }
    let lba = read_u64_le(disk, 584);
    let count = read_u32_le(disk, 592);
    let size = read_u32_le(disk, 596);
    let ghost g_start = le_u64(disk@, 584int) * 512;
    let ghost g_total = count as int * size as int;
    if size < 16 {
        return None;
    }
    let start = match lba.checked_mul(BLOCK_SIZE) {
        Some(s) => s,
        None => {
            return None;
        },
    };
    assert(count as u64 * size as u64 <= u64::MAX) by (nonlinear_arith)
        requires
            count <= u32::MAX,
            size <= u32::MAX,
    ;
    let total = (count as u64) * (size as u64);
    assert(total == g_total) by (nonlinear_arith)
        requires
            total == count as u64 * size as u64,
            g_total == count as int * size as int,
    ;
    if start > disk.len() as u64 || total > disk.len() as u64 - start {
        return None;
    }
    let start = start as usize;
    let size = size as usize;
    let mut data: Vec<u8> = Vec::new();
    push_bytes(&mut data, vstd::slice::slice_subrange(disk, 512, 512 + HEADER_SIZE));
    let mut used_bytes: Vec<u8> = Vec::new();
    let mut used: u64 = 0;
    let mut k: u32 = 0;
    let mut pos: usize = start;
    let n = disk.len();
    while k < count
        invariant
            n == disk@.len(),
            k <= count,
            size >= 16,
            start + count * size <= disk@.len(),
            pos == start + k * size,
            used <= k,
            (used as nat, used_bytes@) == used_entries(disk@, start as int, size as int, k as nat),
        decreases count - k,
    {
        assert(pos + size <= disk@.len()) by (nonlinear_arith)
            requires
                pos == start + k * size,
                k < count,
                start + count * size <= disk@.len(),
        ;
        let ghost e = entry_at(disk@, start as int, size as int, k as int);
        assert(e =~= disk@.subrange(pos as int, pos + size));
        let unused = is_unused(disk, pos);
        assert(unused == entry_unused(e)) by {
            assert forall|j: int| 0 <= j < 16 implies disk@.subrange(pos as int, disk@.len() as int)[j]
                == e[j] by {}
        }
        if !unused {
            push_bytes(&mut used_bytes, vstd::slice::slice_subrange(disk, pos, pos + size));
            used = used + 1;
        }
        assert(pos + size == start + (k + 1) * size) by (nonlinear_arith)
            requires
                pos == start + k * size,
        ;
        pos = pos + size;
        k = k + 1;
    }
    push_u64_le(&mut data, used);
    push_bytes(&mut data, used_bytes.as_slice());
    proof {
        assert(start == g_start);
        assert(data@ =~= disk@.subrange(512, 512 + HEADER_SIZE) + le_bytes_u64(used) + used_bytes@);
    }
    Some(sha384(data.as_slice()))
}

} // verus!
