//! Values exchanged between measurement, evidence generation and
//! verification: platform metadata, portable image hashes and register sets.

use vstd::prelude::*;

verus! {

/// The confidential-VM platform that produced an attestation.
#[derive(Debug, Clone, Copy, PartialEq, Eq, Structural)]
pub enum AttestationType {
    GcpTdx,
    AzureTdx,
    SelfHostedTdx,
}

/// The three ACPI digests measured into RTMR0 by the firmware.
#[derive(Debug, Clone, Copy)]
pub struct AcpiHashes {
    pub loader: [u8; 48],
    pub rsdp: [u8; 48],
    pub tables: [u8; 48],
}

/// Hardware metadata of the platform that produced an attestation.
#[derive(Debug, Clone, Copy)]
pub struct PlatformMetadata {
    pub attestation_type: AttestationType,
    pub ram_bytes: u64,
    pub num_disks: u32,
    pub acpi: Option<AcpiHashes>,
    /// Only present on VMs booted with recent OVMF versions
    pub smbios_handoff: Option<[u8; 48]>,
    /// True when booting from a disk image with a dm-verity rootfs
    pub dm_verity_boot: bool,
}

/// Platform-independent digests of a boot image.
#[derive(Debug, Clone, Copy)]
pub struct DcapImageHashes {
    pub uki_authenticode: [u8; 48],
    pub kernel_authenticode: [u8; 48],
    pub cmdline_hash: [u8; 48],
    pub initrd_hash: [u8; 48],
    pub gpt_disk_guid_hash: [u8; 48],
    pub pe_sections: Option<[u8; 48]>,
}

/// Image-dependent DCAP register values.
#[derive(Debug, Clone, Copy)]
pub struct DcapRegisters {
    pub rtmr1: [u8; 48],
    pub rtmr2: [u8; 48],
}

/// Image-dependent Azure vTPM PCR values.
#[derive(Debug, Clone, Copy)]
pub struct AzureRegisters {
    pub pcr4: [u8; 32],
    pub pcr9: [u8; 32],
    pub pcr11: [u8; 32],
}

} // verus!
