//! Register reconstruction for DCAP-based platforms (GCP and self-hosted).

pub mod firmware;
pub mod gcp;
pub mod google;
pub mod gpt;
pub mod secure_boot;
pub mod self_hosted;
pub mod tdvf;

use vstd::prelude::*;

use crate::dcap::firmware::{DcapFirmware, FirmwareError};
use crate::register::{
    replay, zero_value, Register, CALLING_EFI_APP, EXIT_BOOT_SERVICES, EXIT_BOOT_SERVICES_SUCCESS,
    SEPARATOR,
};
use crate::types::{AttestationType, DcapImageHashes, PlatformMetadata};
use crate::hash::{sha384, sha384_of};
use crate::uki::{
    first_named, lemma_first_named, null_terminated, spec_utf16le_null_terminated, to_utf16le_null_terminated,
    SectionView, Uki,
};
use vstd::utf8::encode_utf8;

verus! {

/// Image-dependent DCAP registers, with their event logs.
#[derive(Debug)]
pub struct DcapRegisters {
    pub rtmr1: Register,
    pub rtmr2: Register,
}

impl DcapRegisters {
    /// The final register values.
    pub fn finalize(&self) -> (wire: crate::types::DcapRegisters)
        ensures
            wire.rtmr1@ == replay(self.rtmr1.initial(), self.rtmr1.digests()),
            wire.rtmr2@ == replay(self.rtmr2.initial(), self.rtmr2.digests()),
    {
        crate::types::DcapRegisters { rtmr1: self.rtmr1.value(), rtmr2: self.rtmr2.value() }
    }
}

/// The digests measured into RTMR2: the command line, then the initrd.
pub open spec fn rtmr2_digests(hashes: DcapImageHashes) -> Seq<Seq<u8>> {
    seq![hashes.cmdline_hash@, hashes.initrd_hash@]
}

/// The value RTMR2 starts from: the PE sections measurement where the stub
/// records one, zeros otherwise.
pub open spec fn rtmr2_initial(hashes: DcapImageHashes) -> Seq<u8> {
    match hashes.pe_sections {
        Some(v) => v@,
        None => zero_value(),
    }
}

/// RTMR2 from portable image hashes (identical on GCP and self-hosted).
pub fn build_rtmr2(hashes: &DcapImageHashes) -> (r: Register)
    ensures
        r.initial() == rtmr2_initial(*hashes),
        r.digests() == rtmr2_digests(*hashes),
        r.digests() == seq![hashes.cmdline_hash@, hashes.initrd_hash@],
        hashes.pe_sections is None ==> r.initial() == zero_value(),
{
    let mut mr = match hashes.pe_sections {
        Some(v) => Register::from_value(v),
        None => Register::new(),
    };
    mr.extend_raw(hashes.cmdline_hash, "cmdline (UTF-16LE)");
    mr.extend_raw(hashes.initrd_hash, "initrd");
    assert(mr.digests() =~= rtmr2_digests(*hashes));
    mr
}

/// Reconstructed DCAP register values. Some are absent when the
/// reconstruction lacks firmware or platform metadata.
#[derive(Debug, Clone, Copy)]
pub struct ExpectedDcapRegisters {
    pub mrtd: Option<[u8; 48]>,
    pub rtmr0: Option<[u8; 48]>,
    pub rtmr1: [u8; 48],
    pub rtmr2: [u8; 48],
}

#[derive(Debug)]
pub enum ReconstructError {
    NotDcap,
    MissingAcpi,
    MissingFirmware,
    Firmware(FirmwareError),
    UnsupportedDiskCount(u32),
}

pub open spec fn opt48(o: Option<[u8; 48]>) -> Option<Seq<u8>> {
    match o {
        Some(a) => Some(a@),
        None => None,
    }
}

impl ExpectedDcapRegisters {
    pub open spec fn view_tuple(&self) -> (Option<Seq<u8>>, Option<Seq<u8>>, Seq<u8>, Seq<u8>) {
        (opt48(self.mrtd), opt48(self.rtmr0), self.rtmr1@, self.rtmr2@)
    }
}

/// The expected DCAP registers as `(mrtd, rtmr0, rtmr1, rtmr2)`.
pub open spec fn spec_expected_registers(
    image: DcapImageHashes,
    platform: PlatformMetadata,
    firmware: Option<DcapFirmware>,
) -> Result<(Option<Seq<u8>>, Option<Seq<u8>>, Seq<u8>, Seq<u8>), ReconstructError> {
    let rtmr2 = replay(rtmr2_initial(image), rtmr2_digests(image));
    match platform.attestation_type {
        AttestationType::GcpTdx => match platform.acpi {
            None => Err(ReconstructError::MissingAcpi),
            Some(acpi) => match firmware {
                None => Err(ReconstructError::MissingFirmware),
                Some(fw) => if platform.num_disks > 1 {
                    Err(ReconstructError::UnsupportedDiskCount(platform.num_disks))
                } else if platform.ram_bytes < fw.hob.ram_threshold {
                    Err(
                        ReconstructError::Firmware(
                            FirmwareError::RamBelowThreshold {
                                ram_bytes: platform.ram_bytes,
                                threshold: fw.hob.ram_threshold,
                            },
                        ),
                    )
                } else {
                    Ok(
                        (
                            Some(fw.mrtd@),
                            Some(
                                replay(
                                    zero_value(),
                                    gcp::rtmr0_digests(
                                        fw.hob.digest_for(platform.ram_bytes),
                                        fw.cfv@,
                                        acpi,
                                        platform.num_disks,
                                    ),
                                ),
                            ),
                            replay(zero_value(), gcp::rtmr1_digests(image)),
                            rtmr2,
                        ),
                    )
                },
            },
        },
        AttestationType::SelfHostedTdx => {
            let rtmr1 = replay(zero_value(), self_hosted::rtmr1_digests(image));
            match firmware {
                None => Ok((None, None, rtmr1, rtmr2)),
                Some(fw) => match platform.acpi {
                    None => Err(ReconstructError::MissingAcpi),
                    Some(acpi) => if platform.ram_bytes < fw.hob.ram_threshold {
                        Err(
                            ReconstructError::Firmware(
                                FirmwareError::RamBelowThreshold {
                                    ram_bytes: platform.ram_bytes,
                                    threshold: fw.hob.ram_threshold,
                                },
                            ),
                        )
                    } else {
                        Ok(
                            (
                                Some(fw.mrtd@),
                                Some(
                                    replay(
                                        zero_value(),
                                        self_hosted::rtmr0_digests(
                                            fw.hob.digest_for(platform.ram_bytes),
                                            fw.cfv@,
                                            acpi,
                                            opt48(platform.smbios_handoff),
                                            platform.dm_verity_boot,
                                        ),
                                    ),
                                ),
                                rtmr1,
                                rtmr2,
                            ),
                        )
                    },
                },
            }
        },
        AttestationType::AzureTdx => Err(ReconstructError::NotDcap),
    }
}

pub open spec fn firmware_ready(firmware: Option<&DcapFirmware>) -> bool {
    match firmware {
        Some(fw) => fw.hob.well_formed(),
        None => true,
    }
}

pub open spec fn firmware_value(firmware: Option<&DcapFirmware>) -> Option<DcapFirmware> {
    match firmware {
        Some(fw) => Some(*fw),
        None => None,
    }
}

/// Reconstructs the expected DCAP registers from image hashes, platform
/// metadata and, where available, the firmware.
pub fn expected_dcap_registers(
    image: &DcapImageHashes,
    platform: &PlatformMetadata,
    firmware: Option<&DcapFirmware>,
) -> (r: Result<ExpectedDcapRegisters, ReconstructError>)
    requires
        firmware_ready(firmware),
    ensures
        match r {
            Ok(regs) => spec_expected_registers(*image, *platform, firmware_value(firmware))
                == Ok::<(Option<Seq<u8>>, Option<Seq<u8>>, Seq<u8>, Seq<u8>), ReconstructError>(
                regs.view_tuple(),
            ),
            Err(e) => spec_expected_registers(*image, *platform, firmware_value(firmware)) == Err::<
                (Option<Seq<u8>>, Option<Seq<u8>>, Seq<u8>, Seq<u8>),
                ReconstructError,
            >(e),
        },
{
    let rtmr2 = build_rtmr2(image).value();
    match platform.attestation_type {
        AttestationType::GcpTdx => {
            let acpi = match &platform.acpi {
                Some(a) => a,
                None => {
                    return Err(ReconstructError::MissingAcpi);
                },
            };
            let fw = match firmware {
                Some(f) => f,
                None => {
                    return Err(ReconstructError::MissingFirmware);
                },
            };
            let rtmr0 = match gcp::build_rtmr0(fw, platform.ram_bytes, acpi, platform.num_disks) {
                Ok(reg) => reg.value(),
                Err(e) => {
                    return Err(e);
                },
            };
            let rtmr1 = gcp::build_rtmr1(image).value();
            Ok(ExpectedDcapRegisters { mrtd: Some(fw.mrtd), rtmr0: Some(rtmr0), rtmr1, rtmr2 })
        },
        AttestationType::SelfHostedTdx => {
            let rtmr1 = self_hosted::build_rtmr1(image).value();
            let (mrtd, rtmr0) = match firmware {
                Some(fw) => {
                    let acpi = match &platform.acpi {
                        Some(a) => a,
                        None => {
                            return Err(ReconstructError::MissingAcpi);
                        },
                    };
                    let reg = match self_hosted::build_rtmr0(
                        fw,
                        platform.ram_bytes,
                        acpi,
                        platform.smbios_handoff.as_ref(),
                        platform.dm_verity_boot,
                    ) {
                        Ok(reg) => reg,
                        Err(e) => {
                            return Err(ReconstructError::Firmware(e));
                        },
                    };
                    (Some(fw.mrtd), Some(reg.value()))
                },
                None => (None, None),
            };
            Ok(ExpectedDcapRegisters { mrtd, rtmr0, rtmr1, rtmr2 })
        },
        AttestationType::AzureTdx => Err(ReconstructError::NotDcap),
    }
}


/// RTMR2 depends on the image alone: wherever the DCAP registers can be
/// reconstructed, on GCP or self-hosted, with or without firmware, RTMR2 is
/// the same value.
pub proof fn law_rtmr2_platform_independent(
    image: DcapImageHashes,
    p1: PlatformMetadata,
    f1: Option<DcapFirmware>,
    p2: PlatformMetadata,
    f2: Option<DcapFirmware>,
)
    requires
        spec_expected_registers(image, p1, f1) is Ok,
        spec_expected_registers(image, p2, f2) is Ok,
    ensures
        spec_expected_registers(image, p1, f1)->Ok_0.3 == spec_expected_registers(
            image,
            p2,
            f2,
        )->Ok_0.3,
        spec_expected_registers(image, p1, f1)->Ok_0.3 == replay(
            rtmr2_initial(image),
            rtmr2_digests(image),
        ),
{
}

/// RTMR1 depends on the image and the kind of platform only: the RAM size,
/// disks, ACPI tables and firmware do not enter it.
pub proof fn law_rtmr1_image_only(
    image: DcapImageHashes,
    p1: PlatformMetadata,
    f1: Option<DcapFirmware>,
    p2: PlatformMetadata,
    f2: Option<DcapFirmware>,
)
    requires
        p1.attestation_type == p2.attestation_type,
        spec_expected_registers(image, p1, f1) is Ok,
        spec_expected_registers(image, p2, f2) is Ok,
    ensures
        spec_expected_registers(image, p1, f1)->Ok_0.2 == spec_expected_registers(
            image,
            p2,
            f2,
        )->Ok_0.2,
{
}

/// The RTMR1 rebuilt for a GCP platform is the replay, from zeros, of the
/// EFI action "Calling EFI Application from Boot Option", the separator, the
/// GPT event, the UKI's Authenticode digest, the kernel's Authenticode
/// digest and the two Exit Boot Services actions.
pub proof fn law_gcp_rtmr1_reconstruction(
    image: DcapImageHashes,
    platform: PlatformMetadata,
    firmware: Option<DcapFirmware>,
)
    requires
        platform.attestation_type == AttestationType::GcpTdx,
        spec_expected_registers(image, platform, firmware) is Ok,
    ensures
        spec_expected_registers(image, platform, firmware)->Ok_0.2 == replay(
            zero_value(),
            seq![
                sha384_of(CALLING_EFI_APP@),
                sha384_of(SEPARATOR@),
                image.gpt_disk_guid_hash@,
                image.uki_authenticode@,
                image.kernel_authenticode@,
                sha384_of(EXIT_BOOT_SERVICES@),
                sha384_of(EXIT_BOOT_SERVICES_SUCCESS@),
            ],
        ),
{
    gcp::law_gcp_rtmr1_order(image);
}

/// RTMR2 starts from the PE sections measurement where the stub records
/// one (zeros otherwise) and measures the command line, then the initrd.
pub proof fn law_rtmr2_order(hashes: DcapImageHashes)
    ensures
        rtmr2_digests(hashes) == seq![hashes.cmdline_hash@, hashes.initrd_hash@],
        hashes.pe_sections matches Some(v) ==> rtmr2_initial(hashes) == v@,
        hashes.pe_sections is None ==> rtmr2_initial(hashes) == zero_value(),
{
}

/// Azure attestations have no DCAP registers.
pub proof fn law_azure_not_dcap(
    image: DcapImageHashes,
    platform: PlatformMetadata,
    firmware: Option<DcapFirmware>,
)
    requires
        platform.attestation_type == AttestationType::AzureTdx,
    ensures
        spec_expected_registers(image, platform, firmware) == Err::<
            (Option<Seq<u8>>, Option<Seq<u8>>, Seq<u8>, Seq<u8>),
            ReconstructError,
        >(ReconstructError::NotDcap),
{
}

/// Without firmware, a self-hosted reconstruction is incomplete but still
/// succeeds: MRTD and RTMR0 are absent, RTMR1 and RTMR2 present.
pub proof fn law_self_hosted_without_firmware(image: DcapImageHashes, platform: PlatformMetadata)
    requires
        platform.attestation_type == AttestationType::SelfHostedTdx,
    ensures
        spec_expected_registers(image, platform, None) is Ok,
        spec_expected_registers(image, platform, None)->Ok_0.0 is None,
        spec_expected_registers(image, platform, None)->Ok_0.1 is None,
{
}

/// With firmware, a successful reconstruction is complete, and its MRTD is
/// the firmware's.
pub proof fn law_firmware_gives_mrtd(
    image: DcapImageHashes,
    platform: PlatformMetadata,
    firmware: DcapFirmware,
)
    requires
        spec_expected_registers(image, platform, Some(firmware)) is Ok,
    ensures
        spec_expected_registers(image, platform, Some(firmware))->Ok_0.0 == Some(firmware.mrtd@),
        spec_expected_registers(image, platform, Some(firmware))->Ok_0.1 is Some,
{
}

/// The events systemd-stub measures for the PE sections: for each measured
/// section in order, its null-terminated name, then its data digest.
pub open spec fn pe_section_digests(sections: Seq<SectionView>) -> Seq<Seq<u8>>
    decreases sections.len(),
{
    if sections.len() == 0 {
        Seq::empty()
    } else {
        let prev = pe_section_digests(sections.drop_last());
        let s = sections.last();
        if s.measured {
            prev + seq![sha384_of(null_terminated(encode_utf8(s.name))), s.digest_sha384]
        } else {
            prev
        }
    }
}

/// The register value systemd-stub's PE section measurements produce.
pub fn pe_sections_hash(uki: &Uki) -> (v: [u8; 48])
    ensures
        v@ == replay(zero_value(), pe_section_digests(uki@.sections)),
{
    let ghost all = uki@.sections;
    let mut mr = Register::new();
    let mut i: usize = 0;
    while i < uki.sections.len()
        invariant
            i <= uki.sections@.len(),
            all == uki@.sections,
            mr.initial() == zero_value(),
            mr.digests() == pe_section_digests(all.take(i as int)),
        decreases uki.sections@.len() - i,
    {
        let section = &uki.sections[i];
        proof {
            assert(all[i as int] == section@);
            assert(all.take(i + 1).drop_last() =~= all.take(i as int));
        }
        if section.measured {
            let name = section.null_terminated_name();
            mr.extend(name.as_slice(), "section name");
            mr.extend_raw(section.digest_sha384, "section data");
            assert(mr.digests() =~= pe_section_digests(all.take(i + 1)));
        }
        i = i + 1;
    }
    assert(all.take(uki.sections@.len() as int) =~= all);
    mr.value()
}

/// The portable image hashes of a UKI: the SHA-384 of its command line
/// re-encoded as null-terminated UTF-16LE, the digest of its `.initrd`
/// section, its two Authenticode digests, the disk GUID hash it carries (or
/// `gpt_fallback` where it carries none) and the PE sections measurement the
/// caller chose to record. `None` where the image has no `.initrd` section.
pub fn dcap_image_hashes(uki: &Uki, pe_sections: Option<[u8; 48]>, gpt_fallback: [u8; 48]) -> (r:
    Option<DcapImageHashes>)
    ensures
        match first_named(uki@.sections, ".initrd"@) {
            None => r is None,
            Some(i) => r matches Some(h) && h.cmdline_hash@ == sha384_of(
                spec_utf16le_null_terminated(uki.cmdline@),
            ) && h.initrd_hash@ == uki@.sections[i].digest_sha384 && h.uki_authenticode
                == uki.authenticode_sha384 && h.kernel_authenticode
                == uki.kernel_authenticode_sha384 && h.pe_sections == pe_sections
                && h.gpt_disk_guid_hash == (match uki.disk_guid_hash {
                Some(g) => g,
                None => gpt_fallback,
            }),
        },
{
    let initrd = match uki.section(".initrd") {
        Some(s) => s,
        None => {
            return None;
        },
    };
    proof {
        lemma_first_named(uki@.sections, ".initrd"@);
        let i = first_named(uki@.sections, ".initrd"@)->0;
        assert(uki@.sections[i] == uki.sections@[i]@);
    }
    let cmdline = to_utf16le_null_terminated(uki.cmdline.as_slice());
    let gpt_disk_guid_hash = match uki.disk_guid_hash {
        Some(g) => g,
        None => gpt_fallback,
    };
    Some(
        DcapImageHashes {
            uki_authenticode: uki.authenticode_sha384,
            kernel_authenticode: uki.kernel_authenticode_sha384,
            cmdline_hash: sha384(cmdline.as_slice()),
            initrd_hash: initrd.digest_sha384,
            gpt_disk_guid_hash,
            pe_sections,
        },
    )
}

} // verus!
