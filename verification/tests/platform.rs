use attest::ccel::CcelInfo;
use attest::platform::{
    count_disks, count_evidence_disks, detect_from_dmi, meminfo_total_kb, is_virtual_block_device, metadata_from, ram_bytes, uses_ccel,
    MemoryEntry, PlatformError,
};
use attest::types::{AcpiHashes, AttestationType};

#[test]
fn identifies_virtual_block_devices() {
    for name in ["dm-0", "loop0", "md0", "ram0", "zram0"] {
        assert!(is_virtual_block_device(name), "{name}");
    }
}

#[test]
fn identifies_physical_block_devices() {
    for name in ["nvme0n1", "sda", "vda"] {
        assert!(!is_virtual_block_device(name), "{name}");
    }
}

#[test]
fn prefix_must_be_at_the_start() {
    assert!(!is_virtual_block_device("xloop0"));
    assert!(!is_virtual_block_device(""));
    assert!(!is_virtual_block_device("dm"));
    assert!(is_virtual_block_device("md"));
}

#[test]
fn counts_only_physical_disks() {
    let names: Vec<String> =
        ["sda", "loop0", "nvme0n1", "dm-1", "vdb"].iter().map(|s| s.to_string()).collect();
    assert_eq!(count_disks(&names), 3);
    assert_eq!(count_disks(&[]), 0);
}

fn memory_record(size: u16, extended: u32) -> Vec<u8> {
    let mut raw = vec![0u8; 0x20];
    raw[0x0C..0x0E].copy_from_slice(&size.to_le_bytes());
    raw[0x1C..0x20].copy_from_slice(&extended.to_le_bytes());
    raw
}

#[test]
fn sums_memory_devices_in_mib() {
    let entries = vec![
        MemoryEntry { name: "17-0".to_string(), raw: memory_record(2048, 0) },
        MemoryEntry { name: "17-1".to_string(), raw: memory_record(0x7FFF, 65536) },
        MemoryEntry { name: "16-0".to_string(), raw: memory_record(4096, 0) },
    ];
    assert_eq!(ram_bytes(&entries), Some((2048 + 65536) * 1024 * 1024));
}

#[test]
fn short_records_of_other_types_are_not_read() {
    let entries = vec![
        MemoryEntry { name: "0-0".to_string(), raw: vec![1, 2, 3] },
        MemoryEntry { name: "17-0".to_string(), raw: memory_record(512, 0) },
    ];
    assert_eq!(ram_bytes(&entries), Some(512 * 1024 * 1024));
}

#[test]
fn detects_platform_from_first_matching_dmi_string() {
    let gcp = vec![None, Some("Google Compute Engine".to_string())];
    assert_eq!(detect_from_dmi(&gcp), AttestationType::GcpTdx);
    let azure = vec![Some("Virtual Machine".to_string()), Some("Hyper-V UEFI".to_string())];
    assert_eq!(detect_from_dmi(&azure), AttestationType::AzureTdx);
    let first_wins =
        vec![Some("Hyper-V".to_string()), Some("Google Compute Engine".to_string())];
    assert_eq!(detect_from_dmi(&first_wins), AttestationType::AzureTdx);
    let other = vec![Some("QEMU".to_string()), None, Some("Google".to_string())];
    assert_eq!(detect_from_dmi(&other), AttestationType::SelfHostedTdx);
    assert_eq!(detect_from_dmi(&[]), AttestationType::SelfHostedTdx);
}

fn info() -> CcelInfo {
    CcelInfo {
        acpi: AcpiHashes { loader: [1; 48], rsdp: [2; 48], tables: [3; 48] },
        smbios_handoff: Some([4; 48]),
        dm_verity_boot: true,
    }
}

#[test]
fn gcp_metadata_subtracts_platform_disks() {
    assert!(uses_ccel(AttestationType::GcpTdx));
    let m = metadata_from(AttestationType::GcpTdx, Some(info()), 3, 1 << 34).unwrap();
    assert_eq!(m.num_disks, 1);
    assert_eq!(m.ram_bytes, 1 << 34);
    assert_eq!(m.acpi.unwrap().rsdp, [2; 48]);
    assert_eq!(m.smbios_handoff, Some([4; 48]));
    assert!(m.dm_verity_boot);
}

#[test]
fn azure_metadata_has_no_ccel() {
    assert!(!uses_ccel(AttestationType::AzureTdx));
    let m = metadata_from(AttestationType::AzureTdx, None, 1, 8).unwrap();
    assert_eq!(m.num_disks, 0);
    assert!(m.acpi.is_none());
    assert!(m.smbios_handoff.is_none());
    assert!(!m.dm_verity_boot);
}

#[test]
fn too_few_disks_is_an_error() {
    match metadata_from(AttestationType::GcpTdx, Some(info()), 1, 8) {
        Err(PlatformError::TooFewDisks { detected_disks: 1, extra_disks: 2 }) => {}
        other => panic!("unexpected: {other:?}"),
    }
}

#[test]
fn evidence_counts_md_and_dm_devices() {
    let names: Vec<String> =
        ["sda", "loop0", "md0", "dm-1", "ram0", "zram0"].iter().map(|s| s.to_string()).collect();
    assert_eq!(count_evidence_disks(&names), 3);
}

#[test]
fn reads_mem_total_from_meminfo() {
    let text = "MemFree:    100 kB\nMemTotal:       16384256 kB\nMemTotal: 5 kB\n";
    assert_eq!(meminfo_total_kb(text), Some(16384256));
    assert_eq!(meminfo_total_kb("MemTotal:\t+42kB \r\nx"), Some(42));
    assert_eq!(meminfo_total_kb("MemTotal: 42 MB\n"), None);
    assert_eq!(meminfo_total_kb("MemTotal: 4 2 kB\n"), None);
    assert_eq!(meminfo_total_kb("MemTotal: -1 kB\nMemTotal: 2 kB"), None);
    assert_eq!(meminfo_total_kb("MemTotal: 18446744073709551616 kB"), None);
    assert_eq!(meminfo_total_kb("MemTotal: 18446744073709551615 kB"), Some(u64::MAX));
    assert_eq!(meminfo_total_kb(" MemTotal: 1 kB"), None);
    assert_eq!(meminfo_total_kb(""), None);
    assert_eq!(meminfo_total_kb("SwapTotal: 1 kB\n\nMemTotal:  7kB"), Some(7));
}

#[test]
fn total_ram_overflow_is_reported() {
    let entries: Vec<MemoryEntry> = (0..5000)
        .map(|i| MemoryEntry { name: format!("17-{i}"), raw: memory_record(0x7FFF, u32::MAX) })
        .collect();
    assert_eq!(ram_bytes(&entries), None);
    assert_eq!(ram_bytes(&[]), Some(0));
}
