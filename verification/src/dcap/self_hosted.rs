//! Self-hosted TDX measurement (QEMU with OVMF).

use vstd::prelude::*;

use crate::dcap::firmware::{DcapFirmware, FirmwareError};
use crate::dcap::gcp::BOOT_0000_HASH;
use crate::dcap::secure_boot::{
    secure_boot_hash, variable_digest, EFI_GLOBAL_VARIABLE_GUID, EFI_IMAGE_SECURITY_DATABASE_GUID,
};
use crate::dcap::{build_rtmr2, rtmr2_digests, DcapRegisters};
use crate::hash::{sha384, sha384_of};
use crate::register::{
    zero_value, Register, CALLING_EFI_APP, EXIT_BOOT_SERVICES, EXIT_BOOT_SERVICES_SUCCESS,
    SEPARATOR,
};
use crate::types::{AcpiHashes, DcapImageHashes};

verus! {

/// Boot path used by QEMU via fw_cfg when booting a UKI via -kernel.
pub const UKI_BOOT_PATH: [u8; 31] = [
    0x2f, 0x72, 0x6f, 0x6d, 0x40, 0x67, 0x65, 0x6e, 0x72, 0x6f, 0x6d, 0x73, 0x2f, 0x6c, 0x69, 0x6e,
    0x75, 0x78, 0x62, 0x6f, 0x6f, 0x74, 0x5f, 0x64, 0x6d, 0x61, 0x2e, 0x62, 0x69, 0x6e, 0x00,
];

pub const NEW_BOOT_0000_HASH: [u8; 48] = [
    0x50, 0x68, 0xe6, 0xa9, 0xde, 0xd2, 0xa1, 0xc3, 0xa8, 0xeb, 0xb5, 0xd2, 0x60, 0x04, 0x41, 0x0e,
    0xa8, 0x67, 0x07, 0x42, 0xd8, 0xf4, 0x44, 0xc5, 0xc3, 0xd1, 0x61, 0xb7, 0x6c, 0x66, 0xfa, 0x23,
    0xa7, 0xb1, 0xd2, 0xfb, 0x3f, 0x98, 0x40, 0x57, 0x0b, 0x67, 0x53, 0x84, 0xb5, 0x81, 0x8f, 0x2d,
];

pub const EFI_FIRMWARE_BOOT_HASH: [u8; 48] = [
    0xdd, 0x42, 0x4f, 0x2e, 0xeb, 0x35, 0xf3, 0xe8, 0xa2, 0xc2, 0xf5, 0x0f, 0x6c, 0xc8, 0x7f, 0xf9,
    0x0b, 0x75, 0x77, 0xe9, 0x2c, 0xe6, 0x3e, 0x13, 0xa2, 0x28, 0x69, 0xd0, 0x7d, 0x10, 0x4f, 0xd5,
    0xea, 0x98, 0x00, 0xe6, 0xe4, 0xf1, 0x2c, 0x50, 0x58, 0xfc, 0x4e, 0xaa, 0x78, 0x37, 0x4f, 0x20,
];

pub const OS_DISK_BOOT_HASH: [u8; 48] = [
    0x1f, 0x88, 0x00, 0x24, 0xa6, 0xbe, 0x9e, 0x72, 0x65, 0x79, 0xb3, 0x03, 0x22, 0xf5, 0x5e, 0xdd,
    0x04, 0x2d, 0xa0, 0xfd, 0x83, 0xcb, 0x0a, 0x70, 0xf7, 0x66, 0x52, 0x60, 0x3d, 0xe5, 0xb6, 0xab,
    0x42, 0xec, 0x32, 0x76, 0x54, 0x38, 0x21, 0x14, 0xba, 0x78, 0x32, 0x77, 0x8b, 0x4d, 0x71, 0xd6,
];

/// Self-hosted RTMR1 and RTMR2 measurements.
pub fn measure(hashes: &DcapImageHashes) -> (regs: DcapRegisters)
    ensures
        regs.rtmr1.initial() == zero_value(),
        regs.rtmr1.digests() == rtmr1_digests(*hashes),
        regs.rtmr2.initial() == (match hashes.pe_sections {
            Some(v) => v@,
            None => zero_value(),
        }),
        regs.rtmr2.digests() == rtmr2_digests(*hashes),
{
    DcapRegisters { rtmr1: build_rtmr1(hashes), rtmr2: build_rtmr2(hashes) }
}

/// The digests measured into RTMR0 on a self-hosted TD.
pub open spec fn rtmr0_digests(
    hob: Seq<u8>,
    cfv: Seq<u8>,
    acpi: AcpiHashes,
    smbios_handoff: Option<Seq<u8>>,
    dm_verity_boot: bool,
) -> Seq<Seq<u8>> {
    let empty = Seq::<u8>::empty();
    let fw_cfg = if smbios_handoff is Some {
        seq![sha384_of(seq![0u8, 0u8])] + if !dm_verity_boot {
            seq![sha384_of(UKI_BOOT_PATH@)]
        } else {
            Seq::empty()
        }
    } else {
        Seq::empty()
    };
    let boot = match smbios_handoff {
        None => seq![sha384_of(seq![0u8, 0u8]), BOOT_0000_HASH@],
        Some(smbios) => seq![
            smbios,
            sha384_of(
                if dm_verity_boot {
                    seq![0u8, 0, 1, 0, 2, 0]
                } else {
                    seq![0u8, 0, 1, 0]
                },
            ),
            NEW_BOOT_0000_HASH@,
            EFI_FIRMWARE_BOOT_HASH@,
        ] + if dm_verity_boot {
            seq![OS_DISK_BOOT_HASH@]
        } else {
            Seq::empty()
        },
    };
    seq![hob, cfv] + fw_cfg + seq![
        variable_digest(EFI_GLOBAL_VARIABLE_GUID@, "SecureBoot"@, empty),
        variable_digest(EFI_GLOBAL_VARIABLE_GUID@, "PK"@, empty),
        variable_digest(EFI_GLOBAL_VARIABLE_GUID@, "KEK"@, empty),
        variable_digest(EFI_IMAGE_SECURITY_DATABASE_GUID@, "db"@, empty),
        variable_digest(EFI_IMAGE_SECURITY_DATABASE_GUID@, "dbx"@, empty),
        sha384_of(SEPARATOR@),
        acpi.loader@,
        acpi.rsdp@,
        acpi.tables@,
    ] + boot
}

pub open spec fn opt_ref_view(o: Option<&[u8; 48]>) -> Option<Seq<u8>> {
    match o {
        Some(a) => Some(a@),
        None => None,
    }
}

/// RTMR0 rebuilt from the firmware and the platform metadata.
pub fn build_rtmr0(
    firmware: &DcapFirmware,
    ram_bytes: u64,
    acpi: &AcpiHashes,
    smbios_handoff: Option<&[u8; 48]>,
    dm_verity_boot: bool,
) -> (r: Result<Register, FirmwareError>)
    requires
        firmware.hob.well_formed(),
    ensures
        ram_bytes < firmware.hob.ram_threshold ==> r == Err::<Register, FirmwareError>(
            FirmwareError::RamBelowThreshold {
                ram_bytes,
                threshold: firmware.hob.ram_threshold,
            },
        ),
        ram_bytes >= firmware.hob.ram_threshold ==> r is Ok && r->Ok_0.initial() == zero_value()
            && r->Ok_0.digests() == rtmr0_digests(
            firmware.hob.digest_for(ram_bytes),
            firmware.cfv@,
            *acpi,
            opt_ref_view(smbios_handoff),
            dm_verity_boot,
        ),
        ram_bytes >= firmware.hob.ram_threshold && smbios_handoff is Some ==> r->Ok_0.digests()[2]
            == sha384_of(seq![0u8, 0u8]),
        ram_bytes >= firmware.hob.ram_threshold && smbios_handoff is Some && !dm_verity_boot
            ==> r->Ok_0.digests()[3] == sha384_of(UKI_BOOT_PATH@),
        ram_bytes >= firmware.hob.ram_threshold && smbios_handoff is Some && dm_verity_boot
            ==> r->Ok_0.digests()[3] == variable_digest(
            EFI_GLOBAL_VARIABLE_GUID@,
            "SecureBoot"@,
            Seq::<u8>::empty(),
        ),
{
    let global = &EFI_GLOBAL_VARIABLE_GUID;
    let db = &EFI_IMAGE_SECURITY_DATABASE_GUID;
    let no_data: [u8; 0] = [];
    assert(no_data@ =~= Seq::<u8>::empty());
    let boot_menu: [u8; 2] = [0, 0];
    assert(boot_menu@ =~= seq![0u8, 0u8]);
    let hob = firmware.hob.digest(ram_bytes)?;
    let mut mr = Register::new();
    mr.extend_raw(hob, "TD HOB");
    mr.extend_raw(firmware.cfv, "CFV image");
    // New OVMF versions measure fw_cfg events
    if smbios_handoff.is_some() {
        mr.extend_raw(sha384(boot_menu.as_slice()), "fw_cfg BootMenu");
        if !dm_verity_boot {
            mr.extend_raw(sha384(UKI_BOOT_PATH.as_slice()), "fw_cfg bootorder");
        }
    }
    mr.extend_raw(secure_boot_hash(global, "SecureBoot", no_data.as_slice()), "SecureBoot");
    mr.extend_raw(secure_boot_hash(global, "PK", no_data.as_slice()), "PK");
    mr.extend_raw(secure_boot_hash(global, "KEK", no_data.as_slice()), "KEK");
    mr.extend_raw(secure_boot_hash(db, "db", no_data.as_slice()), "db");
    mr.extend_raw(secure_boot_hash(db, "dbx", no_data.as_slice()), "dbx");
    mr.extend(SEPARATOR.as_slice(), "separator");
    mr.extend_raw(acpi.loader, "ACPI loader");
    mr.extend_raw(acpi.rsdp, "ACPI RSDP");
    mr.extend_raw(acpi.tables, "ACPI tables");
    match smbios_handoff {
        None => {
            // Older OVMF versions have a single default boot entry
            mr.extend(boot_menu.as_slice(), "boot order");
            mr.extend_raw(BOOT_0000_HASH, "boot 0000");
        },
        Some(smbios) => {
            // Newer OVMF versions have additional events
            mr.extend_raw(*smbios, "SMBIOS handoff");
            if dm_verity_boot {
                let order: [u8; 6] = [0, 0, 1, 0, 2, 0];
                assert(order@ =~= seq![0u8, 0, 1, 0, 2, 0]);
                mr.extend(order.as_slice(), "BootOrder");
            } else {
                let order: [u8; 4] = [0, 0, 1, 0];
                assert(order@ =~= seq![0u8, 0, 1, 0]);
                mr.extend(order.as_slice(), "BootOrder");
            }
            mr.extend_raw(NEW_BOOT_0000_HASH, "Boot0000");
            mr.extend_raw(EFI_FIRMWARE_BOOT_HASH, "Boot0001");
            if dm_verity_boot {
                mr.extend_raw(OS_DISK_BOOT_HASH, "Boot0002");
            }
        },
    }
    assert(mr.digests() =~= rtmr0_digests(
        firmware.hob.digest_for(ram_bytes),
        firmware.cfv@,
        *acpi,
        opt_ref_view(smbios_handoff),
        dm_verity_boot,
    ));
    Ok(mr)
}

/// The digests measured into RTMR1 for a self-hosted image.
pub open spec fn rtmr1_digests(hashes: DcapImageHashes) -> Seq<Seq<u8>> {
    seq![
        hashes.uki_authenticode@,
        sha384_of(CALLING_EFI_APP@),
        sha384_of(SEPARATOR@),
        hashes.kernel_authenticode@,
        sha384_of(EXIT_BOOT_SERVICES@),
        sha384_of(EXIT_BOOT_SERVICES_SUCCESS@),
    ]
}

/// RTMR1 for a self-hosted TDX image.
pub fn build_rtmr1(hashes: &DcapImageHashes) -> (r: Register)
    ensures
        r.initial() == zero_value(),
        r.digests() == rtmr1_digests(*hashes),
{
    let mut mr = Register::new();
    mr.extend_raw(hashes.uki_authenticode, "UKI authenticode");
    mr.extend(CALLING_EFI_APP.as_slice(), "calling EFI app");
    mr.extend(SEPARATOR.as_slice(), "separator");
    mr.extend_raw(hashes.kernel_authenticode, "kernel authenticode");
    mr.extend(EXIT_BOOT_SERVICES.as_slice(), "exit boot services");
    mr.extend(EXIT_BOOT_SERVICES_SUCCESS.as_slice(), "exit boot services success");
    assert(mr.digests() =~= rtmr1_digests(*hashes));
    mr
}

/// On a self-hosted TD with recent OVMF (an SMBIOS hand-off), RTMR0 holds
/// the fw_cfg BootMenu event (`sha384([0, 0])`) right after the HOB and CFV
/// events; a UKI booted via `-kernel` (no dm-verity boot) then has the
/// fw_cfg bootorder event for `/rom@genroms/linuxboot_dma.bin`, while a
/// dm-verity boot goes straight on to the Secure Boot variables. Without a
/// hand-off there are no fw_cfg events at all.
pub proof fn law_self_hosted_fw_cfg_events(
    hob: Seq<u8>,
    cfv: Seq<u8>,
    acpi: AcpiHashes,
    smbios_handoff: Option<Seq<u8>>,
    dm_verity_boot: bool,
)
    ensures
        rtmr0_digests(hob, cfv, acpi, smbios_handoff, dm_verity_boot)[0] == hob,
        rtmr0_digests(hob, cfv, acpi, smbios_handoff, dm_verity_boot)[1] == cfv,
        smbios_handoff is Some ==> rtmr0_digests(hob, cfv, acpi, smbios_handoff, dm_verity_boot)[2]
            == sha384_of(seq![0u8, 0u8]),
        smbios_handoff is Some && !dm_verity_boot ==> rtmr0_digests(
            hob,
            cfv,
            acpi,
            smbios_handoff,
            dm_verity_boot,
        )[3] == sha384_of(UKI_BOOT_PATH@),
        smbios_handoff is Some && dm_verity_boot ==> rtmr0_digests(
            hob,
            cfv,
            acpi,
            smbios_handoff,
            dm_verity_boot,
        )[3] == variable_digest(EFI_GLOBAL_VARIABLE_GUID@, "SecureBoot"@, Seq::<u8>::empty()),
        smbios_handoff is None ==> rtmr0_digests(hob, cfv, acpi, smbios_handoff, dm_verity_boot)[2]
            == variable_digest(EFI_GLOBAL_VARIABLE_GUID@, "SecureBoot"@, Seq::<u8>::empty()),
        UKI_BOOT_PATH@ == seq![
            0x2fu8, 0x72, 0x6f, 0x6d, 0x40, 0x67, 0x65, 0x6e, 0x72, 0x6f, 0x6d, 0x73, 0x2f, 0x6c,
            0x69, 0x6e, 0x75, 0x78, 0x62, 0x6f, 0x6f, 0x74, 0x5f, 0x64, 0x6d, 0x61, 0x2e, 0x62,
            0x69, 0x6e, 0x00,
        ],
{
    assert(UKI_BOOT_PATH@ =~= seq![
        0x2fu8, 0x72, 0x6f, 0x6d, 0x40, 0x67, 0x65, 0x6e, 0x72, 0x6f, 0x6d, 0x73, 0x2f, 0x6c,
        0x69, 0x6e, 0x75, 0x78, 0x62, 0x6f, 0x6f, 0x74, 0x5f, 0x64, 0x6d, 0x61, 0x2e, 0x62,
        0x69, 0x6e, 0x00,
    ]);
}

} // verus!
