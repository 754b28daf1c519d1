use attest::dcap::firmware::{build_hob_template_from_blob, hob_from_sections, DcapFirmware, FirmwareError};
use attest::dcap::gcp::boot_order_bytes;
use attest::dcap::gpt::disk_guid_hash_from_header;
use attest::dcap::tdvf::{
    footer_is_sound, guid_string, mrtd_sha384, tdx_metadata_sections, Section, TdvfError,
};
use attest::dcap::{build_rtmr2, expected_dcap_registers, ReconstructError};
use attest::register::Register;
use attest::types::{AcpiHashes, AttestationType, DcapImageHashes, PlatformMetadata};
use sha2::{Digest, Sha384};

fn sha384(data: &[u8]) -> [u8; 48] {
    Sha384::digest(data).into()
}

fn extend(value: [u8; 48], digest: [u8; 48]) -> [u8; 48] {
    let mut buf = value.to_vec();
    buf.extend_from_slice(&digest);
    sha384(&buf)
}

#[test]
fn register_starts_at_zero_and_extends() {
    let mut r = Register::new();
    assert_eq!(r.value(), [0; 48]);
    r.extend_raw([7; 48], "seven");
    assert_eq!(r.value(), extend([0; 48], [7; 48]));
    r.extend(b"data", "data");
    assert_eq!(r.value(), extend(extend([0; 48], [7; 48]), sha384(b"data")));
    assert_eq!(r.events().len(), 2);
    assert_eq!(r.events()[0].digest, [7; 48]);
    let s = Register::from_value([9; 48]);
    assert_eq!(s.value(), [9; 48]);
}

#[test]
fn boot_order_lists_boot_entries() {
    assert_eq!(boot_order_bytes(0), vec![1, 0, 0, 0]);
    assert_eq!(boot_order_bytes(1), vec![1, 0, 2, 0, 0, 0]);
    assert_eq!(boot_order_bytes(3), vec![1, 0, 2, 0, 3, 0, 4, 0, 0, 0]);
}

fn image() -> DcapImageHashes {
    DcapImageHashes {
        uki_authenticode: [1; 48],
        kernel_authenticode: [2; 48],
        cmdline_hash: [3; 48],
        initrd_hash: [4; 48],
        gpt_disk_guid_hash: [5; 48],
        pe_sections: None,
    }
}

fn platform(t: AttestationType, acpi: bool) -> PlatformMetadata {
    PlatformMetadata {
        attestation_type: t,
        ram_bytes: 1 << 34,
        num_disks: 0,
        acpi: if acpi {
            Some(AcpiHashes { loader: [6; 48], rsdp: [7; 48], tables: [8; 48] })
        } else {
            None
        },
        smbios_handoff: None,
        dm_verity_boot: false,
    }
}

#[test]
fn rtmr2_measures_cmdline_then_initrd() {
    let r = build_rtmr2(&image()).value();
    assert_eq!(r, extend(extend([0; 48], [3; 48]), [4; 48]));
    let mut with_stub = image();
    with_stub.pe_sections = Some([9; 48]);
    let r2 = build_rtmr2(&with_stub).value();
    assert_eq!(r2, extend(extend([9; 48], [3; 48]), [4; 48]));
}

#[test]
fn reconstruction_errors() {
    let img = image();
    assert!(matches!(
        expected_dcap_registers(&img, &platform(AttestationType::AzureTdx, true), None),
        Err(ReconstructError::NotDcap)
    ));
    assert!(matches!(
        expected_dcap_registers(&img, &platform(AttestationType::GcpTdx, false), None),
        Err(ReconstructError::MissingAcpi)
    ));
    assert!(matches!(
        expected_dcap_registers(&img, &platform(AttestationType::GcpTdx, true), None),
        Err(ReconstructError::MissingFirmware)
    ));
}

#[test]
fn self_hosted_without_firmware_is_partial() {
    let regs =
        expected_dcap_registers(&image(), &platform(AttestationType::SelfHostedTdx, false), None)
            .unwrap();
    assert!(regs.mrtd.is_none());
    assert!(regs.rtmr0.is_none());
    assert_eq!(regs.rtmr2, build_rtmr2(&image()).value());
}

const METADATA_GUID: [u8; 16] = [
    0x35, 0x65, 0x7a, 0xe4, 0x4a, 0x98, 0x98, 0x47, 0x86, 0x5e, 0x46, 0x85, 0xa7, 0xbf, 0x8e, 0xc2,
];

#[test]
fn guid_text_is_mixed_endian() {
    assert_eq!(guid_string(&METADATA_GUID), "e47a6535-984a-4798-865e-4685a7bf8ec2");
}

fn put_u32(v: &mut Vec<u8>, x: u32) {
    v.extend_from_slice(&x.to_le_bytes());
}

fn put_u64(v: &mut Vec<u8>, x: u64) {
    v.extend_from_slice(&x.to_le_bytes());
}

/// A firmware image: a CFV of one page, the TDX metadata, the GUID table and
/// the footer.
fn firmware() -> Vec<u8> {
    let mut fw: Vec<u8> = (0..0x1000u32).map(|i| (i % 251) as u8).collect();
    let descriptor_at = fw.len();
    fw.extend_from_slice(b"TDXV");
    put_u32(&mut fw, 16 + 2 * 32);
    put_u32(&mut fw, 1);
    put_u32(&mut fw, 2);
    // CFV: image 0..0x1000 at 0xFFC0_0000, measured
    put_u32(&mut fw, 0);
    put_u32(&mut fw, 0x1000);
    put_u64(&mut fw, 0xFFC0_0000);
    put_u64(&mut fw, 0x1000);
    put_u32(&mut fw, 1);
    put_u32(&mut fw, 1);
    // TD HOB: two pages at 0x80_9000, not measured
    put_u32(&mut fw, 0);
    put_u32(&mut fw, 0);
    put_u64(&mut fw, 0x80_9000);
    put_u64(&mut fw, 0x2000);
    put_u32(&mut fw, 2);
    put_u32(&mut fw, 0);
    // GUID table: the metadata offset entry, then the anchor
    let total = fw.len() + 22 + 18 + 0x20;
    put_u32(&mut fw, (total - descriptor_at) as u32);
    fw.extend_from_slice(&22u16.to_le_bytes());
    fw.extend_from_slice(&METADATA_GUID);
    fw.extend_from_slice(&40u16.to_le_bytes());
    fw.extend_from_slice(&[0xAA; 16]);
    fw.extend_from_slice(&[0; 0x20]);
    assert_eq!(fw.len(), total);
    fw
}

fn tdx_op(op: &[u8], gpa: u64) -> [u8; 128] {
    let mut buf = [0u8; 128];
    buf[..op.len()].copy_from_slice(op);
    buf[16..24].copy_from_slice(&gpa.to_le_bytes());
    buf
}

#[test]
fn metadata_sections_are_read_from_the_footer() {
    let fw = firmware();
    assert!(footer_is_sound(&fw));
    let sections = tdx_metadata_sections(&fw).unwrap();
    assert_eq!(sections.len(), 2);
    assert_eq!(sections[0].memory_address, 0xFFC0_0000);
    assert_eq!(sections[1].kind, 2);
}

#[test]
fn mrtd_adds_and_extends_pages() {
    let fw = firmware();
    let mut h = Sha384::new();
    h.update(tdx_op(b"MEM.PAGE.ADD", 0xFFC0_0000));
    for chunk in 0..16u64 {
        h.update(tdx_op(b"MR.EXTEND", 0xFFC0_0000 + chunk * 0x100));
        let start = (chunk * 0x100) as usize;
        h.update(&fw[start..start + 0x100]);
    }
    h.update(tdx_op(b"MEM.PAGE.ADD", 0x80_9000));
    h.update(tdx_op(b"MEM.PAGE.ADD", 0x80_A000));
    let expected: [u8; 48] = h.finalize().into();
    assert_eq!(mrtd_sha384(&fw).unwrap(), expected);
}

#[test]
fn firmware_from_blob_builds_hob_template() {
    let fw = firmware();
    let f = DcapFirmware::from_blob(&fw, false).unwrap();
    assert_eq!(f.mrtd, mrtd_sha384(&fw).unwrap());
    assert_eq!(f.cfv, sha384(&fw[..0x1000]));
    // handoff + unaccepted low + accepted HOB + unaccepted rest + high memory
    assert_eq!(f.hob.bytes.len(), 56 + 4 * 48);
    assert_eq!(f.hob.length_offset, 56 + 4 * 48 - 8);
    assert_eq!(f.hob.ram_threshold, 0x8000_0000);
    assert_eq!(f.hob.bytes[0], 0x01);
    let end_of_list = u64::from_le_bytes(f.hob.bytes[48..56].try_into().unwrap());
    assert_eq!(end_of_list, 0x80_9000 + 248 + 8);
    // the accepted TD HOB range
    let accepted = &f.hob.bytes[56 + 48..56 + 96];
    assert_eq!(accepted[8], 0x00);
    assert_eq!(u64::from_le_bytes(accepted[32..40].try_into().unwrap()), 0x80_9000);
    assert_eq!(u64::from_le_bytes(accepted[40..48].try_into().unwrap()), 0x2000);

    let ram = 0x8000_0000u64 + 0x1234_5000;
    let mut with_ram = f.hob.bytes.clone();
    with_ram[240..248].copy_from_slice(&0x1234_5000u64.to_le_bytes());
    assert_eq!(f.hob.digest(ram).unwrap(), sha384(&with_ram));
    match f.hob.digest(0x1000) {
        Err(FirmwareError::RamBelowThreshold { ram_bytes: 0x1000, threshold: 0x8000_0000 }) => {}
        other => panic!("unexpected: {other:?}"),
    }
}

#[test]
fn self_hosted_with_firmware_is_complete() {
    let fw = firmware();
    let f = DcapFirmware::from_blob(&fw, false).unwrap();
    let regs = expected_dcap_registers(
        &image(),
        &platform(AttestationType::SelfHostedTdx, true),
        Some(&f),
    )
    .unwrap();
    assert_eq!(regs.mrtd, Some(f.mrtd));
    assert!(regs.rtmr0.is_some());
}

#[test]
fn short_firmware_is_truncated() {
    let fw = [0u8; 16];
    assert!(footer_is_sound(&fw));
    match tdx_metadata_sections(&fw) {
        Err(TdvfError::Truncated { expected: 0x20, len: 16, .. }) => {}
        other => panic!("unexpected: {other:?}"),
    }
}

#[test]
fn gpt_event_covers_header_and_used_entries() {
    let mut disk = vec![0u8; 4096];
    disk[512..520].copy_from_slice(b"EFI PART");
    disk[512 + 72..512 + 80].copy_from_slice(&2u64.to_le_bytes());
    disk[512 + 80..512 + 84].copy_from_slice(&4u32.to_le_bytes());
    disk[512 + 84..512 + 88].copy_from_slice(&128u32.to_le_bytes());
    // entries 0 and 2 in use
    disk[1024] = 0xC1;
    disk[1024 + 2 * 128 + 15] = 0x01;
    let mut event = disk[512..512 + 92].to_vec();
    event.extend_from_slice(&2u64.to_le_bytes());
    event.extend_from_slice(&disk[1024..1024 + 128]);
    event.extend_from_slice(&disk[1024 + 256..1024 + 384]);
    assert_eq!(disk_guid_hash_from_header(&disk), Some(sha384(&event)));
    // an entry array beyond the disk
    disk[512 + 80..512 + 84].copy_from_slice(&100u32.to_le_bytes());
    assert_eq!(disk_guid_hash_from_header(&disk), None);
}

#[test]
fn rtmr2_is_the_same_on_every_dcap_platform() {
    let fw_gcp = DcapFirmware::from_blob(&firmware(), true).unwrap();
    let fw_qemu = DcapFirmware::from_blob(&firmware(), false).unwrap();
    let mut gcp = platform(AttestationType::GcpTdx, true);
    gcp.ram_bytes = 1 << 35;
    let a = expected_dcap_registers(&image(), &gcp, Some(&fw_gcp)).unwrap();
    let b = expected_dcap_registers(&image(), &platform(AttestationType::SelfHostedTdx, true), Some(&fw_qemu))
        .unwrap();
    let c = expected_dcap_registers(&image(), &platform(AttestationType::SelfHostedTdx, false), None).unwrap();
    assert_eq!(a.rtmr2, b.rtmr2);
    assert_eq!(b.rtmr2, c.rtmr2);
    assert_ne!(a.rtmr1, b.rtmr1);
}

#[test]
fn measuring_in_two_stages_is_measuring_once() {
    let mut first = Register::new();
    first.extend_raw([1; 48], "a");
    first.extend_raw([2; 48], "b");
    let mut second = Register::from_value(first.value());
    second.extend_raw([3; 48], "c");
    let mut all = Register::new();
    all.extend_raw([1; 48], "a");
    all.extend_raw([2; 48], "b");
    all.extend_raw([3; 48], "c");
    assert_eq!(second.value(), all.value());
}

#[test]
fn boot_order_for_the_most_disks() {
    let b = boot_order_bytes(0xfffe);
    assert_eq!(b.len(), 2 * (0xfffe + 2));
    assert_eq!(&b[..2], &[1, 0]);
    assert_eq!(&b[b.len() - 4..b.len() - 2], &[0xff, 0xff]);
    assert_eq!(&b[b.len() - 2..], &[0, 0]);
}

#[test]
fn hob_template_layout() {
    for gcp in [false, true] {
        let f = DcapFirmware::from_blob(&firmware(), gcp).unwrap();
        let t = &f.hob.bytes;
        assert_eq!(t[0], 1);
        assert_eq!(&t[2..4], &56u16.to_le_bytes());
        assert_eq!(&t[8..12], &9u32.to_le_bytes());
        assert_eq!((t.len() - 56) % 48, 0);
        assert_eq!(f.hob.length_offset, t.len() - 8);
        assert_eq!(&t[t.len() - 16..t.len() - 8], &0x1_0000_0000u64.to_le_bytes());
        assert_eq!(&t[t.len() - 8..], &0u64.to_le_bytes());
        assert_eq!(f.hob.ram_threshold, if gcp { 0xC000_0000 } else { 0x8000_0000 });
    }
}

#[test]
fn hob_template_from_sections() {
    let td_hob = Section {
        image_offset: 0,
        raw_data_size: 0,
        memory_address: 0x80_9000,
        memory_data_size: 0x2000,
        kind: 2,
        attributes: 0,
    };
    let t = hob_from_sections(&vec![td_hob], false).unwrap();
    assert_eq!(t.bytes.len(), 56 + 4 * 48);
    assert_eq!(t.bytes[0], 1);
    assert_eq!(&t.bytes[2..4], &56u16.to_le_bytes());
    assert_eq!(&t.bytes[8..12], &9u32.to_le_bytes());
    assert_eq!(t.length_offset, t.bytes.len() - 8);
    assert_eq!(&t.bytes[t.bytes.len() - 16..t.bytes.len() - 8], &0x1_0000_0000u64.to_le_bytes());
    assert_eq!(t.ram_threshold, 0x8000_0000);
    // a range reaching past low memory is refused, with the cursor it reached
    let high = Section { memory_address: 0x7FFF_F000, memory_data_size: 0x2000, ..td_hob };
    match hob_from_sections(&vec![high], false) {
        Err(FirmwareError::AcceptedExceedsLowMem { cursor: 0x8000_1000, limit: 0x8000_0000 }) => {}
        other => panic!("unexpected: {other:?}"),
    }
    // the blob's template is the one from_blob holds
    let fw = firmware();
    let from_blob = DcapFirmware::from_blob(&fw, true).unwrap();
    let built = build_hob_template_from_blob(&fw, true).unwrap();
    assert_eq!(built.bytes, from_blob.hob.bytes);
    assert_eq!(built.length_offset, from_blob.hob.length_offset);
}
