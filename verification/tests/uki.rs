use attest::uki::{
    section_measure_order, should_measure, to_utf16le_null_terminated, Uki, UkiError, UkiSection,
};

fn section(name: &str, order: i32) -> UkiSection {
    UkiSection {
        name: name.to_string(),
        size: 0,
        digest_sha256: [0; 32],
        digest_sha384: [order as u8; 48],
        measured: order >= 0,
        measure_order: order,
    }
}

#[test]
fn cmdline_is_utf16le_with_terminator() {
    assert_eq!(to_utf16le_null_terminated(b"ab"), vec![b'a', 0, b'b', 0, 0, 0]);
    assert_eq!(to_utf16le_null_terminated(b"ab\0"), vec![b'a', 0, b'b', 0, 0, 0]);
    assert_eq!(to_utf16le_null_terminated(b""), vec![0, 0]);
    assert_eq!(to_utf16le_null_terminated(b"\0"), vec![0, 0]);
}

#[test]
fn cmdline_strips_only_one_terminator() {
    assert_eq!(to_utf16le_null_terminated(b"a\0\0"), vec![b'a', 0, 0, 0, 0, 0]);
}

#[test]
fn cmdline_encodes_non_ascii_and_replaces_invalid_utf8() {
    // U+00E9 and U+1F600 (a surrogate pair in UTF-16)
    let text = "é😀".as_bytes();
    assert_eq!(
        to_utf16le_null_terminated(text),
        vec![0xE9, 0x00, 0x3D, 0xD8, 0x00, 0xDE, 0x00, 0x00],
    );
    // an invalid byte becomes U+FFFD
    assert_eq!(to_utf16le_null_terminated(&[b'x', 0xFF]), vec![b'x', 0, 0xFD, 0xFF, 0, 0]);
}

#[test]
fn section_names_are_null_terminated_once() {
    assert_eq!(section(".linux", 0).null_terminated_name(), b".linux\0".to_vec());
    assert_eq!(section("abc\0", -1).null_terminated_name(), b"abc\0".to_vec());
    assert_eq!(section("", -1).null_terminated_name(), vec![0]);
}

#[test]
fn measured_sections_in_stub_order() {
    let names = [".linux", ".osrel", ".cmdline", ".initrd", ".splash", ".dtb", ".uname", ".sbat", ".pcrkey"];
    for (i, name) in names.iter().enumerate() {
        assert_eq!(section_measure_order(name), Some(i));
        assert!(should_measure(name));
    }
    for name in [".pcrsig", ".text", ".data", "", ".linuxx"] {
        assert_eq!(section_measure_order(name), None);
        assert!(!should_measure(name));
    }
}

#[test]
fn section_finds_the_first_of_a_name() {
    let uki = Uki {
        size: 0,
        sections: vec![section(".linux", 0), section(".initrd", 3), section(".initrd", 7)],
        authenticode_sha384: [0; 48],
        authenticode_sha256: [0; 32],
        kernel_authenticode_sha384: [0; 48],
        kernel_authenticode_sha256: [0; 32],
        cmdline: vec![],
        disk_guid_hash: None,
    };
    assert_eq!(uki.section(".initrd").unwrap().digest_sha384, [3; 48]);
    assert!(uki.section(".cmdline").is_none());
}

#[test]
fn garbage_is_not_a_pe_image() {
    match Uki::parse(b"not a PE file") {
        Err(UkiError::Pe(_)) => {}
        Err(e) => panic!("unexpected error: {e:?}"),
        Ok(_) => panic!("parsed garbage"),
    }
}

#[test]
fn truncated_gzip_is_an_invalid_archive() {
    match Uki::parse(&[0x1f, 0x8b, 0x08]) {
        Err(UkiError::Disk(m)) => assert_eq!(m, "invalid tar.gz"),
        _ => panic!("expected a disk error"),
    }
}

fn tar_gz(entries: &[(&str, &[u8])]) -> Vec<u8> {
    let gz = flate2::write::GzEncoder::new(Vec::new(), flate2::Compression::default());
    let mut builder = tar::Builder::new(gz);
    for (name, data) in entries {
        let mut header = tar::Header::new_gnu();
        header.set_size(data.len() as u64);
        header.set_mode(0o644);
        header.set_cksum();
        builder.append_data(&mut header, name, *data).unwrap();
    }
    builder.into_inner().unwrap().finish().unwrap()
}

#[test]
fn empty_archive_is_reported() {
    match Uki::parse(&tar_gz(&[])) {
        Err(UkiError::Disk(m)) => assert_eq!(m, "empty tar.gz"),
        _ => panic!("expected a disk error"),
    }
}

#[test]
fn archive_contents_are_parsed_in_turn() {
    // the first entry is not a PE image
    match Uki::parse(&tar_gz(&[("disk.raw", b"plain bytes")])) {
        Err(UkiError::Pe(_)) => {}
        _ => panic!("expected a PE error"),
    }
    // an archive inside an archive is unwrapped too
    let inner = tar_gz(&[]);
    match Uki::parse(&tar_gz(&[("disk.raw", &inner)])) {
        Err(UkiError::Disk(m)) => assert_eq!(m, "empty tar.gz"),
        _ => panic!("expected a disk error"),
    }
}

fn gpt_disk(len: usize) -> Vec<u8> {
    let mut disk = vec![0u8; len];
    disk[512..520].copy_from_slice(b"EFI PART");
    disk
}

#[test]
fn disk_without_partition_entries() {
    match Uki::parse(&gpt_disk(1024)) {
        Err(UkiError::Disk(m)) => assert_eq!(m, "no partition table"),
        _ => panic!("expected a disk error"),
    }
}

#[test]
fn disk_with_esp_outside_the_image() {
    let mut disk = gpt_disk(4096);
    disk[1024 + 32..1024 + 40].copy_from_slice(&6u64.to_le_bytes());
    disk[1024 + 40..1024 + 48].copy_from_slice(&100u64.to_le_bytes());
    match Uki::parse(&disk) {
        Err(UkiError::Disk(m)) => assert_eq!(m, "bad ESP bounds"),
        _ => panic!("expected a disk error"),
    }
    let mut overflow = gpt_disk(4096);
    overflow[1024 + 40..1024 + 48].copy_from_slice(&u64::MAX.to_le_bytes());
    match Uki::parse(&overflow) {
        Err(UkiError::Disk(m)) => assert_eq!(m, "bad ESP bounds"),
        _ => panic!("expected a disk error"),
    }
}

#[test]
fn disk_with_esp_that_is_not_fat() {
    let mut disk = gpt_disk(4096);
    disk[1024 + 32..1024 + 40].copy_from_slice(&4u64.to_le_bytes());
    disk[1024 + 40..1024 + 48].copy_from_slice(&7u64.to_le_bytes());
    match Uki::parse(&disk) {
        Err(UkiError::Disk(m)) => assert_eq!(m, "invalid ESP filesystem"),
        _ => panic!("expected a disk error"),
    }
}

#[test]
fn ascii_cmdline_doubles_in_length() {
    let text = b"root=/dev/vda1 quiet";
    assert_eq!(to_utf16le_null_terminated(text).len(), 2 * text.len() + 2);
}

#[test]
fn short_esp_is_left_to_fatfs() {
    assert!(attest::esp::check_esp(&[0u8; 100]));
    assert!(attest::esp::check_esp(&[0u8; 4096]));
}
