//! Little-endian integer encoding and decoding on byte strings.

use vstd::prelude::*;

verus! {

/// The little-endian 16-bit value at `s[at..at + 2]`.
pub open spec fn le_u16(s: Seq<u8>, at: int) -> int {
    s[at] + 0x100 * s[at + 1]
}

/// The little-endian 32-bit value at `s[at..at + 4]`.
pub open spec fn le_u32(s: Seq<u8>, at: int) -> int {
    le_u16(s, at) + 0x1_0000 * le_u16(s, at + 2)
}

/// The little-endian 64-bit value at `s[at..at + 8]`.
pub open spec fn le_u64(s: Seq<u8>, at: int) -> int {
    le_u32(s, at) + 0x1_0000_0000 * le_u32(s, at + 4)
}

/// The 2-byte little-endian encoding of `v`.
pub open spec fn le_bytes_u16(v: u16) -> Seq<u8> {
    seq![(v % 0x100) as u8, (v / 0x100) as u8]
}

/// The 4-byte little-endian encoding of `v`.
pub open spec fn le_bytes_u32(v: u32) -> Seq<u8> {
    le_bytes_u16((v % 0x1_0000) as u16) + le_bytes_u16((v / 0x1_0000) as u16)
}

/// The 8-byte little-endian encoding of `v`.
pub open spec fn le_bytes_u64(v: u64) -> Seq<u8> {
    le_bytes_u32((v % 0x1_0000_0000) as u32) + le_bytes_u32((v / 0x1_0000_0000) as u32)
}

/// `n` zero bytes.
pub open spec fn zeros(n: nat) -> Seq<u8> {
    Seq::new(n, |i: int| 0u8)
}

pub fn read_u16_le(data: &[u8], at: usize) -> (v: u16)
    requires
        at + 2 <= data@.len(),
    ensures
        v == le_u16(data@, at as int),
{
    data[at] as u16 + 0x100 * (data[at + 1] as u16)
}

pub fn read_u32_le(data: &[u8], at: usize) -> (v: u32)
    requires
        at + 4 <= data@.len(),
    ensures
        v == le_u32(data@, at as int),
{
    let _len = data.len();
    read_u16_le(data, at) as u32 + 0x1_0000 * (read_u16_le(data, at + 2) as u32)
}

pub fn read_u64_le(data: &[u8], at: usize) -> (v: u64)
    requires
        at + 8 <= data@.len(),
    ensures
        v == le_u64(data@, at as int),
{
    let _len = data.len();
    read_u32_le(data, at) as u64 + 0x1_0000_0000 * (read_u32_le(data, at + 4) as u64)
}

/// Appends the little-endian encoding of `v` to `out`.
pub fn push_u16_le(out: &mut Vec<u8>, v: u16)
    ensures
        final(out)@ == old(out)@ + le_bytes_u16(v),
{
    out.push((v % 0x100) as u8);
    out.push((v / 0x100) as u8);
    assert(final(out)@ =~= old(out)@ + le_bytes_u16(v));
}

/// Appends the little-endian encoding of `v` to `out`.
pub fn push_u32_le(out: &mut Vec<u8>, v: u32)
    ensures
        final(out)@ == old(out)@ + le_bytes_u32(v),
{
    push_u16_le(out, (v % 0x1_0000) as u16);
    push_u16_le(out, (v / 0x1_0000) as u16);
    assert(final(out)@ =~= old(out)@ + le_bytes_u32(v));
}

/// Appends the little-endian encoding of `v` to `out`.
pub fn push_u64_le(out: &mut Vec<u8>, v: u64)
    ensures
        final(out)@ == old(out)@ + le_bytes_u64(v),
{
    push_u32_le(out, (v % 0x1_0000_0000) as u32);
    push_u32_le(out, (v / 0x1_0000_0000) as u32);
    assert(final(out)@ =~= old(out)@ + le_bytes_u64(v));
}

/// Appends `n` zero bytes to `out`.
pub fn push_zeros(out: &mut Vec<u8>, n: usize)
    ensures
        final(out)@ == old(out)@ + zeros(n as nat),
{
    let ghost start = out@;
    let mut i: usize = 0;
    while i < n
        invariant
            i <= n,
            out@ =~= start + zeros(i as nat),
        decreases n - i,
    {
        out.push(0);
        i = i + 1;
    }
}

/// Appends the bytes of `data` to `out`.
pub fn push_bytes(out: &mut Vec<u8>, data: &[u8])
    ensures
        final(out)@ == old(out)@ + data@,
{
    let ghost start = out@;
    let mut i: usize = 0;
    while i < data.len()
        invariant
            i <= data@.len(),
            out@ =~= start + data@.subrange(0, i as int),
        decreases data@.len() - i,
    {
        out.push(data[i]);
        i = i + 1;
    }
    assert(data@.subrange(0, data@.len() as int) =~= data@);
}

/// Copies `data` into a fresh vector.
pub fn to_vec(data: &[u8]) -> (v: Vec<u8>)
    ensures
        v@ == data@,
{
    let mut v = Vec::new();
    push_bytes(&mut v, data);
    v
}

/// The bytes of `data` as a fixed-size array.
pub fn to_array<const N: usize>(data: &[u8]) -> (a: [u8; N])
    requires
        data@.len() == N,
    ensures
        a@ == data@,
{
    let mut a = [0u8; N];
    let mut i: usize = 0;
    while i < N
        invariant
            i <= N,
            data@.len() == N,
            a@.len() == N,
            forall|k: int| 0 <= k < i ==> a@[k] == data@[k],
        decreases N - i,
    {
        a.set(i, data[i]);
        i = i + 1;
    }
    assert(a@ =~= data@);
    a
}

} // verus!
