//! CCEL (Confidential Computing Event Log) parser: extracts the ACPI hashes
//! and boot-configuration facts measured into RTMR0.

use vstd::prelude::*;

use crate::bytes::{le_u16, le_u32, read_u16_le, read_u32_le, to_array, to_vec};
use crate::types::AcpiHashes;

verus! {

#[verifier::external_type_specification]
#[verifier::external_body]
pub struct ExIoError(std::io::Error);

pub const CCEL_PATH: &'static str = "/sys/firmware/acpi/tables/data/CCEL";

pub const EV_PLATFORM_CONFIG_FLAGS: u32 = 0x0000_000a;

/// EV_EFI_HANDOFF_TABLES (SMBIOS)
pub const EV_EFI_HANDOFF_TABLES: u32 = 0x8000_0009;

pub const RTMR0_PCR_INDEX: u32 = 1;

pub const TPM_ALG_SHA1: u16 = 0x0004;

pub const TPM_ALG_SHA256: u16 = 0x000b;

pub const TPM_ALG_SHA384: u16 = 0x000c;

pub const TPM_ALG_SHA512: u16 = 0x000d;

#[derive(Debug)]
pub enum CcelError {
    Io(std::io::Error),
    UnexpectedEof,
    UnknownHashAlgorithm(u16),
    MissingSha384,
    BadEventCount(usize),
}

/// RTMR0 data parsed from the CCEL.
#[derive(Debug, Clone, Copy)]
pub struct CcelInfo {
    pub acpi: AcpiHashes,
    /// Only used on VMs booted with recent OVMF versions
    pub smbios_handoff: Option<[u8; 48]>,
    /// True when booting from a .raw image with disk rather than UKI
    pub dm_verity_boot: bool,
}

/// The event data of the ACPI tables events: `ACPI DATA`.
pub open spec fn acpi_data() -> Seq<u8> {
    seq![0x41u8, 0x43, 0x50, 0x49, 0x20, 0x44, 0x41, 0x54, 0x41]
}

/// The prefix of the QEMU fw_cfg boot order event data:
/// `QEMU FW CFG\0bootorder`.
pub open spec fn fw_cfg_bootorder() -> Seq<u8> {
    seq![
        0x51u8, 0x45, 0x4d, 0x55, 0x20, 0x46, 0x57, 0x20, 0x43, 0x46, 0x47, 0x00, 0x62, 0x6f, 0x6f,
        0x74, 0x6f, 0x72, 0x64, 0x65, 0x72,
    ]
}

pub open spec fn opt_view(o: Option<[u8; 48]>) -> Option<Seq<u8>> {
    match o {
        Some(a) => Some(a@),
        None => None,
    }
}

/// The length of `raw` without its trailing 0xff padding.
pub open spec fn trimmed_len(raw: Seq<u8>) -> int
    decreases raw.len(),
{
    if raw.len() == 0 {
        0
    } else if raw.last() != 0xff {
        raw.len() as int
    } else {
        trimmed_len(raw.drop_last())
    }
}

/// Digest size of a TPM hash algorithm.
pub open spec fn spec_digest_size(alg: u16) -> Result<int, CcelError> {
    if alg == TPM_ALG_SHA1 {
        Ok(20)
    } else if alg == TPM_ALG_SHA256 {
        Ok(32)
    } else if alg == TPM_ALG_SHA384 {
        Ok(48)
    } else if alg == TPM_ALG_SHA512 {
        Ok(64)
    } else {
        Err(CcelError::UnknownHashAlgorithm(alg))
    }
}

/// The position after the legacy SpecID event at `pos`: pcr index, event
/// type, SHA-1 digest, event size and event data.
pub open spec fn spec_skip_spec_id(data: Seq<u8>, pos: int) -> Result<int, CcelError> {
    if pos + 32 > data.len() {
        Err(CcelError::UnexpectedEof)
    } else {
        let size = le_u32(data, pos + 28);
        if pos + 32 + size > data.len() {
            Err(CcelError::UnexpectedEof)
        } else {
            Ok(pos + 32 + size)
        }
    }
}

/// After the first `k` digests starting at `pos`: the last SHA-384 digest
/// seen and the position after them.
pub open spec fn spec_digests(data: Seq<u8>, pos: int, k: nat) -> Result<
    (Option<Seq<u8>>, int),
    CcelError,
>
    decreases k,
{
    if k == 0 {
        Ok((None, pos))
    } else {
        match spec_digests(data, pos, (k - 1) as nat) {
            Err(e) => Err(e),
            Ok((sha, p)) => if p + 2 > data.len() {
                Err(CcelError::UnexpectedEof)
            } else {
                let alg = le_u16(data, p) as u16;
                match spec_digest_size(alg) {
                    Err(e) => Err(e),
                    Ok(size) => if p + 2 + size > data.len() {
                        Err(CcelError::UnexpectedEof)
                    } else {
                        let digest = data.subrange(p + 2, p + 2 + size);
                        Ok(
                            (
                                if alg == TPM_ALG_SHA384 {
                                    Some(digest)
                                } else {
                                    sha
                                },
                                p + 2 + size,
                            ),
                        )
                    },
                }
            },
        }
    }
}

/// The event at `pos` as `(pcr_index, event_type, sha384, data)`, and the
/// position after it.
pub open spec fn spec_read_event(data: Seq<u8>, pos: int) -> Result<
    ((u32, u32, Option<Seq<u8>>, Seq<u8>), int),
    CcelError,
> {
    if pos + 12 > data.len() {
        Err(CcelError::UnexpectedEof)
    } else {
        let pcr = le_u32(data, pos) as u32;
        let kind = le_u32(data, pos + 4) as u32;
        let count = le_u32(data, pos + 8);
        match spec_digests(data, pos + 12, count as nat) {
            Err(e) => Err(e),
            Ok((sha, p)) => if p + 4 > data.len() {
                Err(CcelError::UnexpectedEof)
            } else {
                let size = le_u32(data, p);
                if p + 4 + size > data.len() {
                    Err(CcelError::UnexpectedEof)
                } else {
                    Ok(((pcr, kind, sha, data.subrange(p + 4, p + 4 + size)), p + 4 + size))
                }
            },
        }
    }
}

/// The RTMR0 facts gathered so far: ACPI digests, SMBIOS hand-off digest,
/// and whether the boot is a dm-verity disk boot.
pub open spec fn spec_apply_event(
    st: (Seq<Seq<u8>>, Option<Seq<u8>>, bool),
    ev: (u32, u32, Option<Seq<u8>>, Seq<u8>),
) -> Result<(Seq<Seq<u8>>, Option<Seq<u8>>, bool), CcelError> {
    let (pcr, kind, sha, data) = ev;
    if pcr != RTMR0_PCR_INDEX {
        Ok(st)
    } else if kind == EV_PLATFORM_CONFIG_FLAGS && data == acpi_data() {
        match sha {
            None => Err(CcelError::MissingSha384),
            Some(d) => Ok((st.0.push(d), st.1, st.2)),
        }
    } else if kind == EV_PLATFORM_CONFIG_FLAGS && data.len() >= fw_cfg_bootorder().len()
        && data.subrange(0, fw_cfg_bootorder().len() as int) == fw_cfg_bootorder() {
        Ok((st.0, st.1, false))
    } else if kind == EV_EFI_HANDOFF_TABLES {
        Ok((st.0, sha, st.2))
    } else {
        Ok(st)
    }
}

/// Reading an event always moves forward.
pub proof fn lemma_read_event_advances(data: Seq<u8>, pos: int)
    ensures
        spec_read_event(data, pos) matches Ok((_, p)) ==> p >= pos + 16,
{
    if pos + 12 <= data.len() {
        lemma_digests_advance(data, pos + 12, le_u32(data, pos + 8) as nat);
    }
}

proof fn lemma_digests_advance(data: Seq<u8>, pos: int, k: nat)
    ensures
        spec_digests(data, pos, k) matches Ok((_, p)) ==> p >= pos,
    decreases k,
{
    if k > 0 {
        lemma_digests_advance(data, pos, (k - 1) as nat);
    }
}

/// The facts gathered from the events from `pos` to the end.
pub open spec fn spec_scan(
    data: Seq<u8>,
    pos: int,
    st: (Seq<Seq<u8>>, Option<Seq<u8>>, bool),
) -> Result<(Seq<Seq<u8>>, Option<Seq<u8>>, bool), CcelError>
    decreases data.len() - pos,
{
    if pos >= data.len() {
        Ok(st)
    } else {
        match spec_read_event(data, pos) {
            Err(e) => Err(e),
            Ok((ev, next)) => match spec_apply_event(st, ev) {
                Err(e) => Err(e),
                Ok(st2) => {
                    proof {
                        lemma_read_event_advances(data, pos);
                    }
                    spec_scan(data, next, st2)
                },
            },
        }
    }
}

/// The CCEL contents as `(loader, rsdp, tables, smbios_handoff,
/// dm_verity_boot)`.
pub open spec fn spec_parse_ccel(raw: Seq<u8>) -> Result<
    (Seq<u8>, Seq<u8>, Seq<u8>, Option<Seq<u8>>, bool),
    CcelError,
> {
    let data = raw.subrange(0, trimmed_len(raw));
    match spec_skip_spec_id(data, 0) {
        Err(e) => Err(e),
        Ok(p) => match spec_scan(data, p, (Seq::empty(), None, true)) {
            Err(e) => Err(e),
            Ok((acpi, smbios, dm)) => if acpi.len() != 3 {
                Err(CcelError::BadEventCount(acpi.len() as usize))
            } else {
                Ok((acpi[0], acpi[1], acpi[2], smbios, dm))
            },
        },
    }
}

proof fn lemma_trimmed_len(raw: Seq<u8>)
    ensures
        0 <= trimmed_len(raw) <= raw.len(),
        trimmed_len(raw.push(0xff)) == trimmed_len(raw),
    decreases raw.len(),
{
    assert(raw.push(0xff).drop_last() =~= raw);
    if raw.len() > 0 && raw.last() == 0xff {
        lemma_trimmed_len(raw.drop_last());
    }
}

/// Trailing 0xff padding of the log is ignored.
pub proof fn law_ccel_padding_ignored(raw: Seq<u8>)
    ensures
        spec_parse_ccel(raw.push(0xff)) == spec_parse_ccel(raw),
{
    lemma_trimmed_len(raw);
    assert(raw.push(0xff).subrange(0, trimmed_len(raw)) =~= raw.subrange(0, trimmed_len(raw)));
}

impl CcelInfo {
    pub open spec fn view_tuple(&self) -> (Seq<u8>, Seq<u8>, Seq<u8>, Option<Seq<u8>>, bool) {
        (
            self.acpi.loader@,
            self.acpi.rsdp@,
            self.acpi.tables@,
            opt_view(self.smbios_handoff),
            self.dm_verity_boot,
        )
    }
}

struct Event {
    pcr_index: u32,
    event_type: u32,
    sha384: Option<[u8; 48]>,
    data: Vec<u8>,
}

impl Event {
    spec fn view_tuple(&self) -> (u32, u32, Option<Seq<u8>>, Seq<u8>) {
        (self.pcr_index, self.event_type, opt_view(self.sha384), self.data@)
    }
}

struct Cursor<'a> {
    data: &'a [u8],
    pos: usize,
}

impl<'a> Cursor<'a> {
    fn new(data: &'a [u8]) -> (c: Self)
        ensures
            c.data@ == data@,
            c.pos == 0,
    {
        Cursor { data, pos: 0 }
    }

    fn has_remaining(&self) -> (b: bool)
        ensures
            b == (self.pos < self.data@.len()),
    {
        self.pos < self.data.len()
    }

    fn read_bytes(&mut self, n: usize) -> (r: Result<&'a [u8], CcelError>)
        requires
            old(self).pos <= old(self).data@.len(),
        ensures
            final(self).data@ == old(self).data@,
            final(self).pos <= final(self).data@.len(),
            old(self).pos + n > old(self).data@.len() ==> r is Err && r->Err_0 is UnexpectedEof
                && final(self).pos == old(self).pos,
            old(self).pos + n <= old(self).data@.len() ==> r is Ok && r->Ok_0@
                == old(self).data@.subrange(old(self).pos as int, old(self).pos + n)
                && final(self).pos == old(self).pos + n,
    {
        if n > self.data.len() - self.pos {
            return Err(CcelError::UnexpectedEof);
        }
        let s = &self.data[self.pos..self.pos + n];
        self.pos = self.pos + n;
        Ok(s)
    }

    fn read_u16(&mut self) -> (r: Result<u16, CcelError>)
        requires
            old(self).pos <= old(self).data@.len(),
        ensures
            final(self).data@ == old(self).data@,
            final(self).pos <= final(self).data@.len(),
            old(self).pos + 2 > old(self).data@.len() ==> r is Err && r->Err_0 is UnexpectedEof
                && final(self).pos == old(self).pos,
            old(self).pos + 2 <= old(self).data@.len() ==> r is Ok && r->Ok_0 == le_u16(
                old(self).data@,
                old(self).pos as int,
            ) && final(self).pos == old(self).pos + 2,
    {
        let b = self.read_bytes(2)?;
        Ok(read_u16_le(b, 0))
    }

    fn read_u32(&mut self) -> (r: Result<u32, CcelError>)
        requires
            old(self).pos <= old(self).data@.len(),
        ensures
            final(self).data@ == old(self).data@,
            final(self).pos <= final(self).data@.len(),
            old(self).pos + 4 > old(self).data@.len() ==> r is Err && r->Err_0 is UnexpectedEof
                && final(self).pos == old(self).pos,
            old(self).pos + 4 <= old(self).data@.len() ==> r is Ok && r->Ok_0 == le_u32(
                old(self).data@,
                old(self).pos as int,
            ) && final(self).pos == old(self).pos + 4,
    {
        let b = self.read_bytes(4)?;
        Ok(read_u32_le(b, 0))
    }
}

fn digest_size(alg: u16) -> (r: Result<usize, CcelError>)
    ensures
        match r {
            Ok(n) => spec_digest_size(alg) == Ok::<int, CcelError>(n as int),
            Err(e) => spec_digest_size(alg) == Err::<int, CcelError>(e),
        },
{
    if alg == TPM_ALG_SHA1 {
        Ok(20)
    } else if alg == TPM_ALG_SHA256 {
        Ok(32)
    } else if alg == TPM_ALG_SHA384 {
        Ok(48)
    } else if alg == TPM_ALG_SHA512 {
        Ok(64)
    } else {
        Err(CcelError::UnknownHashAlgorithm(alg))
    }
}

/// Skips the legacy SpecID event.
fn skip_spec_id_event(c: &mut Cursor) -> (r: Result<(), CcelError>)
    requires
        old(c).pos <= old(c).data@.len(),
    ensures
        final(c).data@ == old(c).data@,
        final(c).pos <= final(c).data@.len(),
        match spec_skip_spec_id(old(c).data@, old(c).pos as int) {
            Ok(p) => r is Ok && final(c).pos == p,
            Err(e) => r is Err && e is UnexpectedEof && r->Err_0 is UnexpectedEof,
        },
{
    c.read_u32()?;  // pcr_index
    c.read_u32()?;  // event_type
    c.read_bytes(20)?;  // SHA-1 digest
    let size = c.read_u32()? as usize;
    c.read_bytes(size)?;
    Ok(())
}

fn read_event(c: &mut Cursor) -> (r: Result<Event, CcelError>)
    requires
        old(c).pos <= old(c).data@.len(),
    ensures
        final(c).data@ == old(c).data@,
        final(c).pos <= final(c).data@.len(),
        match spec_read_event(old(c).data@, old(c).pos as int) {
            Ok((ev, p)) => r is Ok && r->Ok_0.view_tuple() == ev && final(c).pos == p,
            Err(e) => r is Err && spec_read_event(old(c).data@, old(c).pos as int) == Err::<
                ((u32, u32, Option<Seq<u8>>, Seq<u8>), int),
                CcelError,
            >(r->Err_0),
        },
{
    let ghost data = c.data@;
    let ghost pos0 = c.pos as int;
    let pcr_index = c.read_u32()?;
    let event_type = c.read_u32()?;
    let count = c.read_u32()?;
    let mut sha384: Option<[u8; 48]> = None;
    let mut i: u32 = 0;
    while i < count
        invariant
            c.data@ == data,
            data == old(c).data@,
            pos0 == old(c).pos,
            c.pos <= data.len(),
            i <= count,
            pos0 + 12 <= data.len(),
            count == le_u32(data, pos0 + 8),
            spec_digests(data, pos0 + 12, i as nat) == Ok::<(Option<Seq<u8>>, int), CcelError>(
                (opt_view(sha384), c.pos as int),
            ),
        decreases count - i,
    {
        let alg = match c.read_u16() {
            Ok(a) => a,
            Err(e) => {
                proof {
                    lemma_digests_err(data, pos0 + 12, (i + 1) as nat, count as nat);
                }
                return Err(e);
            },
        };
        let size = match digest_size(alg) {
            Ok(n) => n,
            Err(e) => {
                proof {
                    lemma_digests_err(data, pos0 + 12, (i + 1) as nat, count as nat);
                }
                return Err(e);
            },
        };
        let digest = match c.read_bytes(size) {
            Ok(d) => d,
            Err(e) => {
                proof {
                    lemma_digests_err(data, pos0 + 12, (i + 1) as nat, count as nat);
                }
                return Err(e);
            },
        };
        if alg == TPM_ALG_SHA384 {
            sha384 = Some(to_array::<48>(digest));
        }
        i = i + 1;
    }
    let event_size = c.read_u32()? as usize;
    let data_bytes = c.read_bytes(event_size)?;
    let data_vec = to_vec(data_bytes);
    Ok(Event { pcr_index, event_type, sha384, data: data_vec })
}

proof fn lemma_digests_err(data: Seq<u8>, pos: int, m: nat, n: nat)
    requires
        m <= n,
        spec_digests(data, pos, m) is Err,
    ensures
        spec_digests(data, pos, n) == spec_digests(data, pos, m),
    decreases n,
{
    if m < n {
        lemma_digests_err(data, pos, m, (n - 1) as nat);
    }
}

/// Whether `data` starts with `QEMU FW CFG\0bootorder`.
fn starts_with_fw_cfg_bootorder(data: &[u8]) -> (b: bool)
    ensures
        b == (data@.len() >= fw_cfg_bootorder().len() && data@.subrange(
            0,
            fw_cfg_bootorder().len() as int,
        ) == fw_cfg_bootorder()),
{
    let prefix: [u8; 21] = [
        0x51, 0x45, 0x4d, 0x55, 0x20, 0x46, 0x57, 0x20, 0x43, 0x46, 0x47, 0x00, 0x62, 0x6f, 0x6f,
        0x74, 0x6f, 0x72, 0x64, 0x65, 0x72,
    ];
    assert(prefix@ =~= fw_cfg_bootorder());
    if data.len() < 21 {
        return false;
    }
    let mut i: usize = 0;
    while i < 21
        invariant
            i <= 21,
            data@.len() >= 21,
            prefix@ == fw_cfg_bootorder(),
            forall|k: int| 0 <= k < i ==> data@[k] == prefix@[k],
        decreases 21 - i,
    {
        if data[i] != prefix[i] {
            return false;
        }
        i = i + 1;
    }
    assert(data@.subrange(0, 21) =~= fw_cfg_bootorder());
    true
}

/// Whether `data` is exactly `ACPI DATA`.
fn is_acpi_data(data: &[u8]) -> (b: bool)
    ensures
        b == (data@ == acpi_data()),
{
    let expected: [u8; 9] = [0x41, 0x43, 0x50, 0x49, 0x20, 0x44, 0x41, 0x54, 0x41];
    assert(expected@ =~= acpi_data());
    if data.len() != 9 {
        return false;
    }
    let mut i: usize = 0;
    while i < 9
        invariant
            i <= 9,
            data@.len() == 9,
            expected@ == acpi_data(),
            forall|k: int| 0 <= k < i ==> data@[k] == expected@[k],
        decreases 9 - i,
    {
        if data[i] != expected[i] {
            return false;
        }
        i = i + 1;
    }
    assert(data@ =~= acpi_data());
    true
}

/// The length of `raw` without its trailing 0xff padding.
fn trim_padding(raw: &[u8]) -> (end: usize)
    ensures
        end == trimmed_len(raw@),
        end <= raw@.len(),
{
    let mut end = raw.len();
    assert(raw@.subrange(0, end as int) =~= raw@);
    while end > 0 && raw[end - 1] == 0xff
        invariant
            end <= raw@.len(),
            trimmed_len(raw@) == trimmed_len(raw@.subrange(0, end as int)),
        decreases end,
    {
        assert(raw@.subrange(0, end as int).drop_last() =~= raw@.subrange(0, end - 1));
        end = end - 1;
    }
    if end > 0 {
        assert(raw@.subrange(0, end as int).last() == raw@[end - 1]);
    }
    end
}

/// Parses the RTMR0 facts from raw CCEL bytes.
pub fn parse_ccel(raw: &[u8]) -> (r: Result<CcelInfo, CcelError>)
    ensures
        match r {
            Ok(info) => spec_parse_ccel(raw@) == Ok::<
                (Seq<u8>, Seq<u8>, Seq<u8>, Option<Seq<u8>>, bool),
                CcelError,
            >(info.view_tuple()),
            Err(e) => spec_parse_ccel(raw@) == Err::<
                (Seq<u8>, Seq<u8>, Seq<u8>, Option<Seq<u8>>, bool),
                CcelError,
            >(e),
        },
{
    let end = trim_padding(raw);
    let data = &raw[0..end];
    let mut cur = Cursor::new(data);
    match skip_spec_id_event(&mut cur) {
        Ok(()) => {},
        Err(_) => {
            return Err(CcelError::UnexpectedEof);
        },
    }
    let ghost start = cur.pos as int;
    let mut acpi: Vec<[u8; 48]> = Vec::new();
    let mut smbios_handoff: Option<[u8; 48]> = None;
    let mut dm_verity_boot = true;
    assert(acpi@.map_values(|a: [u8; 48]| a@) =~= Seq::<Seq<u8>>::empty());
    while cur.has_remaining()
        invariant
            cur.data@ == data@,
            cur.pos <= data@.len(),
            data@ == raw@.subrange(0, trimmed_len(raw@)),
            spec_skip_spec_id(data@, 0) == Ok::<int, CcelError>(start),
            spec_scan(data@, start, (Seq::empty(), None, true)) == spec_scan(
                data@,
                cur.pos as int,
                (acpi@.map_values(|a: [u8; 48]| a@), opt_view(smbios_handoff), dm_verity_boot),
            ),
        decreases data@.len() - cur.pos,
    {
        let ghost pos = cur.pos as int;
        let ghost st = (
            acpi@.map_values(|a: [u8; 48]| a@),
            opt_view(smbios_handoff),
            dm_verity_boot,
        );
        let event = read_event(&mut cur)?;
        proof {
            lemma_read_event_advances(data@, pos);
        }
        if event.pcr_index != RTMR0_PCR_INDEX {
            continue;
        }
        if event.event_type == EV_PLATFORM_CONFIG_FLAGS && is_acpi_data(event.data.as_slice()) {
            match event.sha384 {
                Some(d) => {
                    acpi.push(d);
                },
                None => {
                    return Err(CcelError::MissingSha384);
                },
            }
        } else if event.event_type == EV_PLATFORM_CONFIG_FLAGS && starts_with_fw_cfg_bootorder(
            event.data.as_slice(),
        ) {
            dm_verity_boot = false;
        } else if event.event_type == EV_EFI_HANDOFF_TABLES {
            smbios_handoff = event.sha384;
        }
        assert(acpi@.map_values(|a: [u8; 48]| a@) =~= spec_apply_event(
            st,
            event.view_tuple(),
        )->Ok_0.0);
    }
    let ghost acpi_view = acpi@.map_values(|a: [u8; 48]| a@);
    if acpi.len() != 3 {
        return Err(CcelError::BadEventCount(acpi.len()));
    }
    Ok(
        CcelInfo {
            acpi: AcpiHashes { loader: acpi[0], rsdp: acpi[1], tables: acpi[2] },
            smbios_handoff,
            dm_verity_boot,
        },
    )
}

} // verus!
