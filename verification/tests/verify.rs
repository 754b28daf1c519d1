use attest::dcap::firmware::DcapFirmware;
use attest::dcap::google::GoogleError;
use attest::dcap::{expected_dcap_registers, ExpectedDcapRegisters};
use attest::types::{
    AcpiHashes, AttestationType, AzureRegisters, DcapImageHashes, DcapRegisters, PlatformMetadata,
};
use attest::verify::{
    check_portable_dcap, compare_azure, compare_dcap, compare_portable, select_check, self_hosted_firmware, verify_portable_dcap, Check,
    MeasurementOutput, PortableMeasurements, QuoteRegisters, VerifyError, VtpmRegisters,
};

fn quote() -> QuoteRegisters {
    QuoteRegisters { mrtd: [1; 48], rtmr0: [2; 48], rtmr1: [3; 48], rtmr2: [4; 48], report_data: [9; 64] }
}

fn expected() -> ExpectedDcapRegisters {
    ExpectedDcapRegisters { mrtd: Some([1; 48]), rtmr0: Some([2; 48]), rtmr1: [3; 48], rtmr2: [4; 48] }
}

fn image() -> DcapImageHashes {
    DcapImageHashes {
        uki_authenticode: [0; 48],
        kernel_authenticode: [0; 48],
        cmdline_hash: [0; 48],
        initrd_hash: [0; 48],
        gpt_disk_guid_hash: [0; 48],
        pe_sections: None,
    }
}

fn azure() -> AzureRegisters {
    AzureRegisters { pcr4: [4; 32], pcr9: [9; 32], pcr11: [11; 32] }
}

#[test]
fn matching_quote_returns_report_data() {
    assert_eq!(compare_portable(&quote(), &expected()).unwrap(), [9; 64]);
}

#[test]
fn every_mismatch_is_reported_in_order() {
    let mut e = expected();
    e.rtmr2 = [0; 48];
    e.mrtd = Some([0; 48]);
    match compare_portable(&quote(), &e) {
        Err(VerifyError::RegisterMismatch(names)) => assert_eq!(names, vec!["MRTD", "RTMR2"]),
        other => panic!("unexpected: {other:?}"),
    }
}

#[test]
fn incomplete_reconstruction_is_an_error() {
    let mut e = expected();
    e.rtmr0 = None;
    assert!(matches!(
        compare_portable(&quote(), &e),
        Err(VerifyError::IncompleteReconstruction("RTMR0"))
    ));
    e.mrtd = None;
    assert!(matches!(
        compare_portable(&quote(), &e),
        Err(VerifyError::IncompleteReconstruction("MRTD"))
    ));
}

#[test]
fn dcap_registers_compare_rtmr1_and_rtmr2() {
    let ok = DcapRegisters { rtmr1: [3; 48], rtmr2: [4; 48] };
    assert_eq!(compare_dcap(&quote(), &ok).unwrap(), [9; 64]);
    let bad = DcapRegisters { rtmr1: [0; 48], rtmr2: [0; 48] };
    match compare_dcap(&quote(), &bad) {
        Err(VerifyError::RegisterMismatch(names)) => assert_eq!(names, vec!["RTMR1", "RTMR2"]),
        other => panic!("unexpected: {other:?}"),
    }
}

#[test]
fn azure_pcrs_compare() {
    let raw = VtpmRegisters { pcr4: [4; 32], pcr9: [9; 32], pcr11: [0; 32], report_data: [5; 64] };
    match compare_azure(&raw, &azure()) {
        Err(VerifyError::RegisterMismatch(names)) => assert_eq!(names, vec!["PCR11"]),
        other => panic!("unexpected: {other:?}"),
    }
    let good = VtpmRegisters { pcr11: [11; 32], ..raw };
    assert_eq!(compare_azure(&good, &azure()).unwrap(), [5; 64]);
}

#[test]
fn check_follows_platform() {
    let portable = MeasurementOutput::Portable(PortableMeasurements { azure: Some(azure()), dcap: image() });
    assert!(matches!(select_check(&portable, AttestationType::GcpTdx, true), Ok(Check::PortableDcap(_))));
    assert!(matches!(select_check(&portable, AttestationType::AzureTdx, true), Ok(Check::Azure(_))));
    let no_azure = MeasurementOutput::Portable(PortableMeasurements { azure: None, dcap: image() });
    assert!(matches!(
        select_check(&no_azure, AttestationType::AzureTdx, true),
        Err(VerifyError::PlatformMismatch)
    ));
    let dcap = MeasurementOutput::Dcap(DcapRegisters { rtmr1: [0; 48], rtmr2: [0; 48] });
    assert!(matches!(select_check(&dcap, AttestationType::SelfHostedTdx, true), Ok(Check::Dcap(_))));
    assert!(matches!(
        select_check(&dcap, AttestationType::AzureTdx, true),
        Err(VerifyError::PlatformMismatch)
    ));
    let az = MeasurementOutput::Azure(azure());
    assert!(matches!(
        select_check(&az, AttestationType::GcpTdx, true),
        Err(VerifyError::PlatformMismatch)
    ));
}

#[test]
fn azure_disabled_is_reported_first() {
    let az = MeasurementOutput::Azure(azure());
    assert!(matches!(
        select_check(&az, AttestationType::GcpTdx, false),
        Err(VerifyError::AzureFeatureDisabled)
    ));
    let dcap = MeasurementOutput::Dcap(DcapRegisters { rtmr1: [0; 48], rtmr2: [0; 48] });
    assert!(matches!(
        select_check(&dcap, AttestationType::AzureTdx, false),
        Err(VerifyError::AzureFeatureDisabled)
    ));
    assert!(matches!(select_check(&dcap, AttestationType::GcpTdx, false), Ok(Check::Dcap(_))));
}

#[test]
fn self_hosted_needs_a_firmware_blob() {
    assert!(matches!(self_hosted_firmware(None), Err(VerifyError::MissingFirmware)));
    assert!(matches!(
        self_hosted_firmware(Some(&[0u8; 8])),
        Err(VerifyError::Reconstruct(_))
    ));
}

const METADATA_GUID: [u8; 16] = [
    0x35, 0x65, 0x7a, 0xe4, 0x4a, 0x98, 0x98, 0x47, 0x86, 0x5e, 0x46, 0x85, 0xa7, 0xbf, 0x8e, 0xc2,
];

fn put_u32(v: &mut Vec<u8>, x: u32) {
    v.extend_from_slice(&x.to_le_bytes());
}

fn put_u64(v: &mut Vec<u8>, x: u64) {
    v.extend_from_slice(&x.to_le_bytes());
}

/// A firmware image: a CFV of one page, the TDX metadata, the GUID table and
/// the footer.
fn firmware() -> Vec<u8> {
    let mut fw: Vec<u8> = (0..0x1000u32).map(|i| (i % 251) as u8).collect();
    let descriptor_at = fw.len();
    fw.extend_from_slice(b"TDXV");
    put_u32(&mut fw, 16 + 2 * 32);
    put_u32(&mut fw, 1);
    put_u32(&mut fw, 2);
    // CFV: image 0..0x1000 at 0xFFC0_0000, measured
    put_u32(&mut fw, 0);
    put_u32(&mut fw, 0x1000);
    put_u64(&mut fw, 0xFFC0_0000);
    put_u64(&mut fw, 0x1000);
    put_u32(&mut fw, 1);
    put_u32(&mut fw, 1);
    // TD HOB: two pages at 0x80_9000, not measured
    put_u32(&mut fw, 0);
    put_u32(&mut fw, 0);
    put_u64(&mut fw, 0x80_9000);
    put_u64(&mut fw, 0x2000);
    put_u32(&mut fw, 2);
    put_u32(&mut fw, 0);
    // GUID table: the metadata offset entry, then the anchor
    let total = fw.len() + 22 + 18 + 0x20;
    put_u32(&mut fw, (total - descriptor_at) as u32);
    fw.extend_from_slice(&22u16.to_le_bytes());
    fw.extend_from_slice(&METADATA_GUID);
    fw.extend_from_slice(&40u16.to_le_bytes());
    fw.extend_from_slice(&[0xAA; 16]);
    fw.extend_from_slice(&[0; 0x20]);
    assert_eq!(fw.len(), total);
    fw
}


#[test]
fn portable_check_rebuilds_registers_from_firmware() {
    let fw = DcapFirmware::from_blob(&firmware(), false).unwrap();
    let platform = PlatformMetadata {
        attestation_type: AttestationType::SelfHostedTdx,
        ram_bytes: 1 << 33,
        num_disks: 0,
        acpi: Some(AcpiHashes { loader: [1; 48], rsdp: [2; 48], tables: [3; 48] }),
        smbios_handoff: Some([4; 48]),
        dm_verity_boot: true,
    };
    let expected = expected_dcap_registers(&image(), &platform, Some(&fw)).unwrap();
    let raw = QuoteRegisters {
        mrtd: expected.mrtd.unwrap(),
        rtmr0: expected.rtmr0.unwrap(),
        rtmr1: expected.rtmr1,
        rtmr2: expected.rtmr2,
        report_data: [7; 64],
    };
    assert_eq!(check_portable_dcap(&image(), &platform, &fw, &raw).unwrap(), [7; 64]);
    let other = PlatformMetadata { ram_bytes: 1 << 34, ..platform };
    match check_portable_dcap(&image(), &other, &fw, &raw) {
        Err(VerifyError::RegisterMismatch(names)) => assert_eq!(names, vec!["RTMR0"]),
        r => panic!("unexpected: {r:?}"),
    }
    let low = PlatformMetadata { ram_bytes: 1 << 20, ..platform };
    assert!(matches!(
        check_portable_dcap(&image(), &low, &fw, &raw),
        Err(VerifyError::Reconstruct(_))
    ));
}

#[test]
fn portable_check_refuses_azure_evidence() {
    let blob = firmware();
    let fw = DcapFirmware::from_blob(&blob, false).unwrap();
    let platform = PlatformMetadata {
        attestation_type: AttestationType::AzureTdx,
        ram_bytes: 1 << 33,
        num_disks: 0,
        acpi: None,
        smbios_handoff: None,
        dm_verity_boot: false,
    };
    let raw = QuoteRegisters { mrtd: [0; 48], rtmr0: [0; 48], rtmr1: [0; 48], rtmr2: [0; 48], report_data: [7; 64] };
    assert!(matches!(
        check_portable_dcap(&image(), &platform, &fw, &raw),
        Err(VerifyError::PlatformMismatch)
    ));
    assert!(matches!(
        verify_portable_dcap(&image(), &platform, Some(&blob), None, &raw),
        Err(VerifyError::PlatformMismatch)
    ));
}

#[test]
fn portable_check_takes_the_platform_firmware() {
    let blob = firmware();
    let fw = DcapFirmware::from_blob(&blob, false).unwrap();
    let platform = PlatformMetadata {
        attestation_type: AttestationType::SelfHostedTdx,
        ram_bytes: 1 << 33,
        num_disks: 0,
        acpi: Some(AcpiHashes { loader: [1; 48], rsdp: [2; 48], tables: [3; 48] }),
        smbios_handoff: Some([4; 48]),
        dm_verity_boot: true,
    };
    let expected = expected_dcap_registers(&image(), &platform, Some(&fw)).unwrap();
    let raw = QuoteRegisters {
        mrtd: expected.mrtd.unwrap(),
        rtmr0: expected.rtmr0.unwrap(),
        rtmr1: expected.rtmr1,
        rtmr2: expected.rtmr2,
        report_data: [7; 64],
    };
    assert_eq!(verify_portable_dcap(&image(), &platform, Some(&blob), None, &raw).unwrap(), [7; 64]);
    assert!(matches!(
        verify_portable_dcap(&image(), &platform, None, None, &raw),
        Err(VerifyError::MissingFirmware)
    ));
    let gcp = PlatformMetadata { attestation_type: AttestationType::GcpTdx, ..platform };
    assert!(matches!(
        verify_portable_dcap(&image(), &gcp, None, Some(Err(GoogleError::Endorsement)), &raw),
        Err(VerifyError::Google(GoogleError::Endorsement))
    ));
}
