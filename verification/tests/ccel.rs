use attest::ccel::{parse_ccel, CcelError};

fn spec_id_event() -> Vec<u8> {
    let mut v = Vec::new();
    v.extend_from_slice(&0u32.to_le_bytes());
    v.extend_from_slice(&3u32.to_le_bytes());
    v.extend_from_slice(&[0; 20]);
    v.extend_from_slice(&4u32.to_le_bytes());
    v.extend_from_slice(b"spec");
    v
}

fn event(pcr: u32, kind: u32, digests: &[(u16, u8)], data: &[u8]) -> Vec<u8> {
    let mut v = Vec::new();
    v.extend_from_slice(&pcr.to_le_bytes());
    v.extend_from_slice(&kind.to_le_bytes());
    v.extend_from_slice(&(digests.len() as u32).to_le_bytes());
    for &(alg, fill) in digests {
        v.extend_from_slice(&alg.to_le_bytes());
        let size = match alg {
            0x0004 => 20,
            0x000b => 32,
            0x000c => 48,
            _ => 64,
        };
        v.extend(std::iter::repeat(fill).take(size));
    }
    v.extend_from_slice(&(data.len() as u32).to_le_bytes());
    v.extend_from_slice(data);
    v
}

fn acpi(fill: u8) -> Vec<u8> {
    event(1, 0x0a, &[(0x000b, 0), (0x000c, fill)], b"ACPI DATA")
}

#[test]
fn reads_acpi_hashes_from_rtmr0() {
    let mut log = spec_id_event();
    log.extend(acpi(1));
    log.extend(event(2, 0x0a, &[(0x000c, 9)], b"ACPI DATA"));
    log.extend(acpi(2));
    log.extend(acpi(3));
    log.extend([0xff; 64]);
    let info = parse_ccel(&log).unwrap();
    assert_eq!(info.acpi.loader, [1; 48]);
    assert_eq!(info.acpi.rsdp, [2; 48]);
    assert_eq!(info.acpi.tables, [3; 48]);
    assert_eq!(info.smbios_handoff, None);
    assert!(info.dm_verity_boot);
}

#[test]
fn records_smbios_handoff_and_boot_order() {
    let mut log = spec_id_event();
    log.extend(acpi(1));
    log.extend(event(1, 0x8000_0009, &[(0x000c, 7)], b"smbios"));
    log.extend(acpi(2));
    log.extend(event(1, 0x0a, &[(0x000c, 0)], b"QEMU FW CFG\0bootorder and more"));
    log.extend(acpi(3));
    let info = parse_ccel(&log).unwrap();
    assert_eq!(info.smbios_handoff, Some([7; 48]));
    assert!(!info.dm_verity_boot);
}

#[test]
fn counts_acpi_events() {
    let mut log = spec_id_event();
    log.extend(acpi(1));
    log.extend(acpi(2));
    assert!(matches!(parse_ccel(&log), Err(CcelError::BadEventCount(2))));
}

#[test]
fn acpi_event_needs_sha384() {
    let mut log = spec_id_event();
    log.extend(event(1, 0x0a, &[(0x000b, 0)], b"ACPI DATA"));
    assert!(matches!(parse_ccel(&log), Err(CcelError::MissingSha384)));
}

#[test]
fn unknown_algorithm_and_truncation() {
    let mut log = spec_id_event();
    log.extend(event(1, 0x0a, &[(0x0099, 0)], b""));
    assert!(matches!(parse_ccel(&log), Err(CcelError::UnknownHashAlgorithm(0x0099))));
    let mut short = spec_id_event();
    short.extend(&acpi(1)[..30]);
    assert!(matches!(parse_ccel(&short), Err(CcelError::UnexpectedEof)));
    assert!(matches!(parse_ccel(&[]), Err(CcelError::UnexpectedEof)));
}
