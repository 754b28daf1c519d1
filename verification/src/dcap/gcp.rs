//! GCP TDX measurement.

use vstd::prelude::*;

use crate::bytes::{le_bytes_u16, push_u16_le};
use crate::dcap::firmware::{DcapFirmware, FirmwareError};
use crate::dcap::secure_boot::{
    db, db_digest, dbx, dbx_digest, kek, kek_digest, pk, pk_digest, secureboot_off,
    secureboot_off_digest,
};
use crate::dcap::{build_rtmr2, rtmr2_digests, DcapRegisters, ReconstructError};
use crate::hash::sha384_of;
use crate::register::{
    zero_value, Register, CALLING_EFI_APP, EXIT_BOOT_SERVICES, EXIT_BOOT_SERVICES_SUCCESS,
    SEPARATOR,
};
use crate::types::{AcpiHashes, DcapImageHashes};

verus! {

/// GCP TDX firmware MRTD. A pinned value; to be replaced with a verified
/// GCE endorsement lookup when one is available.
pub const KNOWN_MRTD: [u8; 48] = [
    0xfe, 0xb7, 0x48, 0x66, 0x08, 0x38, 0x2c, 0x1f, 0xf0, 0xe1, 0x5b, 0x46, 0x48, 0xdd, 0xc0, 0xac,
    0xea, 0x6c, 0xa9, 0x74, 0xeb, 0x53, 0xe3, 0x52, 0x9f, 0x4c, 0x4b, 0xd5, 0xff, 0xba, 0xa2, 0x0b,
    0xf3, 0x35, 0xcb, 0x75, 0x96, 0x5c, 0xea, 0x65, 0xfe, 0x47, 0x3a, 0xed, 0x96, 0x47, 0xc1, 0x62,
];

/// GCP TDX firmware CFV digest, pinned alongside `KNOWN_MRTD`.
pub const KNOWN_CFV: [u8; 48] = [
    0x9c, 0xb6, 0xbf, 0x09, 0xae, 0xa7, 0xb4, 0xac, 0xb8, 0x54, 0x9e, 0x32, 0x8d, 0x0e, 0xdd, 0x6f,
    0x15, 0xde, 0xfc, 0x0b, 0x00, 0xd7, 0x44, 0xbb, 0x9f, 0xb5, 0xba, 0xb0, 0x96, 0x2b, 0xc5, 0xc7,
    0x0f, 0x69, 0xd2, 0x33, 0xe9, 0x6d, 0xbc, 0x7c, 0x11, 0x05, 0xba, 0x08, 0x57, 0x81, 0xdc, 0x88,
];

/// EFI Boot0001 variable digest.
pub const BOOT_0001_HASH: [u8; 48] = [
    0xa2, 0x53, 0x33, 0xc7, 0xae, 0xc2, 0xe0, 0x99, 0x30, 0x34, 0x93, 0x8c, 0x7f, 0x11, 0x89, 0x3b,
    0x3c, 0x2b, 0xca, 0xf6, 0x7e, 0x88, 0xc3, 0x42, 0xa3, 0xd5, 0x86, 0xf6, 0xf7, 0xfa, 0xe2, 0xc6,
    0xa1, 0x24, 0x7a, 0x9e, 0xd8, 0x69, 0x88, 0x08, 0x0a, 0x6d, 0x4b, 0xe4, 0x97, 0xd4, 0xfb, 0xb6,
];

/// EFI Boot0002 variable digest.
pub const BOOT_0002_HASH: [u8; 48] = [
    0x90, 0x68, 0x06, 0x57, 0x54, 0xff, 0x3a, 0xe3, 0xdd, 0x58, 0xa5, 0x89, 0x75, 0x35, 0xee, 0xaf,
    0x62, 0xa1, 0x9a, 0x67, 0x57, 0xd8, 0x2d, 0xd9, 0x13, 0x49, 0xc4, 0x1b, 0xae, 0x2e, 0x3f, 0x20,
    0x8e, 0x26, 0x8a, 0xbb, 0xa2, 0xa4, 0x37, 0x8b, 0xc5, 0xc8, 0xd1, 0xac, 0xf2, 0xfd, 0x26, 0x0f,
];

/// EFI Boot0000 variable digest.
pub const BOOT_0000_HASH: [u8; 48] = [
    0x23, 0xad, 0xa0, 0x7f, 0x52, 0x61, 0xf1, 0x2f, 0x34, 0xa0, 0xbd, 0x8e, 0x46, 0x76, 0x09, 0x62,
    0xd6, 0xb4, 0xd5, 0x76, 0xa4, 0x16, 0xf1, 0xfe, 0xa1, 0xc6, 0x4b, 0xc6, 0x56, 0xb1, 0xd2, 0x8e,
    0xac, 0xf7, 0x04, 0x7a, 0xe6, 0xe9, 0x67, 0xc5, 0x8f, 0xd2, 0xa9, 0x8b, 0xfa, 0x74, 0xc2, 0x98,
];

/// The BootOrder entries: 0001, then 0002 ..= (1 + num_disks), then 0000.
pub open spec fn boot_order_entries(num_disks: nat) -> Seq<u16> {
    seq![1u16] + Seq::new(num_disks, |i: int| (2 + i) as u16) + seq![0u16]
}

/// The little-endian bytes of each entry.
pub open spec fn u16_le_seq(entries: Seq<u16>) -> Seq<u8>
    decreases entries.len(),
{
    if entries.len() == 0 {
        Seq::empty()
    } else {
        u16_le_seq(entries.drop_last()) + le_bytes_u16(entries.last())
    }
}

proof fn lemma_u16_le_seq(entries: Seq<u16>)
    ensures
        u16_le_seq(entries).len() == 2 * entries.len(),
        forall|i: int|
            0 <= i < entries.len() ==> #[trigger] u16_le_seq(entries).subrange(2 * i, 2 * i + 2)
                == le_bytes_u16(entries[i]),
    decreases entries.len(),
{
    if entries.len() > 0 {
        let init = entries.drop_last();
        lemma_u16_le_seq(init);
        let b = u16_le_seq(entries);
        assert forall|i: int| 0 <= i < entries.len() implies #[trigger] b.subrange(2 * i, 2 * i + 2)
            == le_bytes_u16(entries[i]) by {
            if i < init.len() {
                assert(b.subrange(2 * i, 2 * i + 2) =~= u16_le_seq(init).subrange(2 * i, 2 * i + 2));
                assert(init[i] == entries[i]);
            } else {
                assert(b.subrange(2 * i, 2 * i + 2) =~= le_bytes_u16(entries.last()));
            }
        }
    }
}

/// The BootOrder variable lists Boot0001, then one entry per extra disk,
/// then Boot0000: two bytes per entry, starting `01 00` and ending `00 00`.
pub proof fn law_boot_order_layout(num_disks: nat)
    ensures
        u16_le_seq(boot_order_entries(num_disks)).len() == 2 * (num_disks + 2),
        u16_le_seq(boot_order_entries(num_disks)).subrange(0, 2) == seq![1u8, 0u8],
        u16_le_seq(boot_order_entries(num_disks)).subrange(
            2 * num_disks + 2 as int,
            2 * num_disks + 4 as int,
        ) == seq![0u8, 0u8],
{
    let e = boot_order_entries(num_disks);
    let last: int = num_disks as int + 1;
    lemma_u16_le_seq(e);
    assert(e[0] == 1u16);
    assert(e[last] == 0u16);
    assert(u16_le_seq(e).subrange(2 * 0int, 2 * 0int + 2) == le_bytes_u16(e[0]));
    assert(u16_le_seq(e).subrange(2 * last, 2 * last + 2) == le_bytes_u16(e[last]));
    assert(le_bytes_u16(1u16) =~= seq![1u8, 0u8]);
    assert(le_bytes_u16(0u16) =~= seq![0u8, 0u8]);
}

/// BootOrder event bytes: 0001, 0002..=(1+num_disks), 0000 (u16 LE).
pub fn boot_order_bytes(num_disks: u32) -> (bytes: Vec<u8>)
    requires
        num_disks <= 0xfffe,
    ensures
        bytes@ == u16_le_seq(boot_order_entries(num_disks as nat)),
{
    let ghost entries = boot_order_entries(num_disks as nat);
    let mut out: Vec<u8> = Vec::new();
    push_u16_le(&mut out, 0x0001);
    assert(entries.take(1) =~= seq![1u16]);
    assert(entries.take(1).drop_last() =~= Seq::<u16>::empty());
    assert(u16_le_seq(entries.take(1)) == u16_le_seq(Seq::<u16>::empty()) + le_bytes_u16(1u16));
    assert(out@ =~= u16_le_seq(entries.take(1)));
    let mut i: u32 = 0;
    while i < num_disks
        invariant
            i <= num_disks <= 0xfffe,
            entries == boot_order_entries(num_disks as nat),
            out@ == u16_le_seq(entries.take(1 + i)),
        decreases num_disks - i,
    {
        push_u16_le(&mut out, 0x0002 + i as u16);
        assert(entries.take(2 + i).drop_last() =~= entries.take(1 + i));
        assert(entries.take(2 + i).last() == (2 + i) as u16);
        i = i + 1;
    }
    push_u16_le(&mut out, 0x0000);
    assert(entries.drop_last() =~= entries.take(1 + num_disks));
    out
}

/// GCP RTMR1 and RTMR2 measurements.
pub fn measure(hashes: &DcapImageHashes) -> (regs: DcapRegisters)
    ensures
        regs.rtmr1.initial() == zero_value(),
        regs.rtmr1.digests() == rtmr1_digests(*hashes),
        regs.rtmr2.initial() == (match hashes.pe_sections {
            Some(v) => v@,
            None => zero_value(),
        }),
        regs.rtmr2.digests() == rtmr2_digests(*hashes),
{
    DcapRegisters { rtmr1: build_rtmr1(hashes), rtmr2: build_rtmr2(hashes) }
}

/// The digests GCP measures into RTMR0.
pub open spec fn rtmr0_digests(
    hob: Seq<u8>,
    cfv: Seq<u8>,
    acpi: AcpiHashes,
    num_disks: u32,
) -> Seq<Seq<u8>> {
    seq![
        hob,
        cfv,
        secureboot_off_digest(),
        pk_digest(),
        kek_digest(),
        db_digest(),
        dbx_digest(),
        sha384_of(SEPARATOR@),
        acpi.loader@,
        acpi.rsdp@,
        acpi.tables@,
        sha384_of(u16_le_seq(boot_order_entries(num_disks as nat))),
        BOOT_0001_HASH@,
    ] + (if num_disks >= 1 {
        seq![BOOT_0002_HASH@]
    } else {
        Seq::empty()
    }) + seq![BOOT_0000_HASH@]
}

/// RTMR0: GCP-specific platform measurements (independent of the image).
pub fn build_rtmr0(
    firmware: &DcapFirmware,
    ram_bytes: u64,
    acpi: &AcpiHashes,
    num_disks: u32,
) -> (r: Result<Register, ReconstructError>)
    requires
        firmware.hob.well_formed(),
    ensures
        num_disks > 1 ==> r == Err::<Register, ReconstructError>(
            ReconstructError::UnsupportedDiskCount(num_disks),
        ),
        num_disks <= 1 && ram_bytes < firmware.hob.ram_threshold ==> r == Err::<
            Register,
            ReconstructError,
        >(
            ReconstructError::Firmware(
                FirmwareError::RamBelowThreshold {
                    ram_bytes,
                    threshold: firmware.hob.ram_threshold,
                },
            ),
        ),
        num_disks <= 1 && ram_bytes >= firmware.hob.ram_threshold ==> r is Ok
            && r->Ok_0.initial() == zero_value() && r->Ok_0.digests() == rtmr0_digests(
            firmware.hob.digest_for(ram_bytes),
            firmware.cfv@,
            *acpi,
            num_disks,
        ),
{
    if num_disks > 1 {
        return Err(ReconstructError::UnsupportedDiskCount(num_disks));
    }
    let hob = match firmware.hob.digest(ram_bytes) {
        Ok(d) => d,
        Err(e) => {
            return Err(ReconstructError::Firmware(e));
        },
    };
    let mut mr = Register::new();
    mr.extend_raw(hob, "TD HOB");
    mr.extend_raw(firmware.cfv, "CFV image");
    mr.extend_raw(secureboot_off(), "secure boot");
    mr.extend_raw(pk(), "PK");
    mr.extend_raw(kek(), "KEK");
    mr.extend_raw(db(), "db");
    mr.extend_raw(dbx(), "dbx");
    mr.extend(SEPARATOR.as_slice(), "separator");
    mr.extend_raw(acpi.loader, "ACPI loader");
    mr.extend_raw(acpi.rsdp, "ACPI RSDP");
    mr.extend_raw(acpi.tables, "ACPI tables");
    let order = boot_order_bytes(num_disks);
    mr.extend(order.as_slice(), "boot order");
    mr.extend_raw(BOOT_0001_HASH, "boot 0001");
    if num_disks >= 1 {
        mr.extend_raw(BOOT_0002_HASH, "boot 0002");
    }
    mr.extend_raw(BOOT_0000_HASH, "boot 0000");
    assert(mr.digests() =~= rtmr0_digests(
        firmware.hob.digest_for(ram_bytes),
        firmware.cfv@,
        *acpi,
        num_disks,
    ));
    Ok(mr)
}

/// The digests GCP measures into RTMR1.
pub open spec fn rtmr1_digests(hashes: DcapImageHashes) -> Seq<Seq<u8>> {
    seq![
        sha384_of(CALLING_EFI_APP@),
        sha384_of(SEPARATOR@),
        hashes.gpt_disk_guid_hash@,
        hashes.uki_authenticode@,
        hashes.kernel_authenticode@,
        sha384_of(EXIT_BOOT_SERVICES@),
        sha384_of(EXIT_BOOT_SERVICES_SUCCESS@),
    ]
}

/// RTMR1: GCP-specific image measurements (depends on the image).
pub fn build_rtmr1(hashes: &DcapImageHashes) -> (r: Register)
    ensures
        r.initial() == zero_value(),
        r.digests() == rtmr1_digests(*hashes),
        r.digests().len() == 7,
        r.digests()[2] == hashes.gpt_disk_guid_hash@,
        r.digests()[3] == hashes.uki_authenticode@,
        r.digests()[4] == hashes.kernel_authenticode@,
{
    let mut mr = Register::new();
    mr.extend(CALLING_EFI_APP.as_slice(), "calling EFI app");
    mr.extend(SEPARATOR.as_slice(), "separator");
    mr.extend_raw(hashes.gpt_disk_guid_hash, "GPT disk GUID");
    mr.extend_raw(hashes.uki_authenticode, "UKI authenticode");
    mr.extend_raw(hashes.kernel_authenticode, "kernel authenticode");
    mr.extend(EXIT_BOOT_SERVICES.as_slice(), "exit boot services");
    mr.extend(EXIT_BOOT_SERVICES_SUCCESS.as_slice(), "exit boot services success");
    assert(mr.digests() =~= rtmr1_digests(*hashes));
    mr
}

/// On GCP, RTMR1 measures, in order: the EFI action "Calling EFI
/// Application from Boot Option", the separator, the GPT event, the UKI's
/// Authenticode digest, the embedded kernel's Authenticode digest, then the
/// two Exit Boot Services actions. Each image hash lands at its own index.
pub proof fn law_gcp_rtmr1_order(hashes: DcapImageHashes)
    ensures
        rtmr1_digests(hashes) == seq![
            sha384_of(CALLING_EFI_APP@),
            sha384_of(SEPARATOR@),
            hashes.gpt_disk_guid_hash@,
            hashes.uki_authenticode@,
            hashes.kernel_authenticode@,
            sha384_of(EXIT_BOOT_SERVICES@),
            sha384_of(EXIT_BOOT_SERVICES_SUCCESS@),
        ],
        rtmr1_digests(hashes)[3] == hashes.uki_authenticode@,
        rtmr1_digests(hashes)[4] == hashes.kernel_authenticode@,
{
}

/// Changing only the UKI's Authenticode digest changes only the fourth
/// RTMR1 event; changing only the kernel's changes only the fifth.
pub proof fn law_gcp_rtmr1_authenticode_slots(a: DcapImageHashes, b: DcapImageHashes)
    requires
        a.gpt_disk_guid_hash == b.gpt_disk_guid_hash,
    ensures
        rtmr1_digests(a).len() == rtmr1_digests(b).len(),
        forall|i: int|
            0 <= i < rtmr1_digests(a).len() && i != 3 && i != 4 ==> rtmr1_digests(a)[i]
                == rtmr1_digests(b)[i],
        rtmr1_digests(a)[3] == rtmr1_digests(b)[3] <==> a.uki_authenticode@ == b.uki_authenticode@,
        rtmr1_digests(a)[4] == rtmr1_digests(b)[4] <==> a.kernel_authenticode@
            == b.kernel_authenticode@,
{
}

/// On GCP, RTMR0 measures the TD HOB and the CFV first, the Secure Boot
/// variables and the separator next, then the three ACPI digests, the
/// BootOrder variable and Boot0001; a second disk adds Boot0002 before the
/// closing Boot0000.
pub proof fn law_gcp_rtmr0_layout(hob: Seq<u8>, cfv: Seq<u8>, acpi: AcpiHashes, num_disks: u32)
    ensures
        rtmr0_digests(hob, cfv, acpi, num_disks)[0] == hob,
        rtmr0_digests(hob, cfv, acpi, num_disks)[1] == cfv,
        rtmr0_digests(hob, cfv, acpi, num_disks)[7] == sha384_of(SEPARATOR@),
        rtmr0_digests(hob, cfv, acpi, num_disks)[8] == acpi.loader@,
        rtmr0_digests(hob, cfv, acpi, num_disks)[9] == acpi.rsdp@,
        rtmr0_digests(hob, cfv, acpi, num_disks)[10] == acpi.tables@,
        rtmr0_digests(hob, cfv, acpi, num_disks).len() == if num_disks >= 1 {
            15int
        } else {
            14int
        },
        rtmr0_digests(hob, cfv, acpi, num_disks).last() == BOOT_0000_HASH@,
{
}

} // verus!
