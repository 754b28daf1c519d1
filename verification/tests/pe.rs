use std::io::Write;

use attest::dcap::pe_sections_hash;
use attest::uki::{Uki, UkiError};
use sha2::{Digest, Sha256, Sha384};

fn align(n: usize, a: usize) -> usize {
    n.div_ceil(a) * a
}

fn put16(f: &mut [u8], at: usize, v: u16) {
    f[at..at + 2].copy_from_slice(&v.to_le_bytes());
}

fn put32(f: &mut [u8], at: usize, v: u32) {
    f[at..at + 4].copy_from_slice(&v.to_le_bytes());
}

/// A PE32+ image with the given sections.
fn pe(sections: &[(&str, Vec<u8>)]) -> Vec<u8> {
    let n = sections.len();
    let table = 0x58 + 240;
    let size_of_headers = align(table + 40 * n, 0x200);
    let mut offsets = Vec::new();
    let mut end = size_of_headers;
    for (_, data) in sections {
        offsets.push(end);
        end += align(data.len().max(1), 0x200);
    }
    let mut f = vec![0u8; end];
    f[0..2].copy_from_slice(b"MZ");
    put32(&mut f, 0x3c, 0x40);
    f[0x40..0x44].copy_from_slice(b"PE\0\0");
    put16(&mut f, 0x44, 0x8664);
    put16(&mut f, 0x46, n as u16);
    put16(&mut f, 0x54, 240);
    put16(&mut f, 0x56, 0x22);
    let opt = 0x58;
    put16(&mut f, opt, 0x20b);
    put32(&mut f, opt + 32, 0x1000);
    put32(&mut f, opt + 36, 0x200);
    put32(&mut f, opt + 56, 0x1000 * (n as u32 + 1));
    put32(&mut f, opt + 60, size_of_headers as u32);
    put16(&mut f, opt + 68, 10);
    put32(&mut f, opt + 108, 16);
    for (i, (name, data)) in sections.iter().enumerate() {
        let h = table + 40 * i;
        f[h..h + name.len()].copy_from_slice(name.as_bytes());
        put32(&mut f, h + 8, data.len() as u32);
        put32(&mut f, h + 12, 0x1000 * (i as u32 + 1));
        put32(&mut f, h + 16, align(data.len().max(1), 0x200) as u32);
        put32(&mut f, h + 20, offsets[i] as u32);
        put32(&mut f, h + 36, 0x4000_0040);
        f[offsets[i]..offsets[i] + data.len()].copy_from_slice(data);
    }
    f
}

fn authenticode384(data: &[u8]) -> [u8; 48] {
    let pe = object::read::pe::PeFile64::parse(data).unwrap();
    let mut h = Sha384::new();
    authenticode::authenticode_digest(&pe, &mut h).unwrap();
    h.finalize().into()
}

fn authenticode256(data: &[u8]) -> [u8; 32] {
    let pe = object::read::pe::PeFile64::parse(data).unwrap();
    let mut h = Sha256::new();
    authenticode::authenticode_digest(&pe, &mut h).unwrap();
    h.finalize().into()
}

fn uki_image() -> (Vec<u8>, Vec<u8>) {
    let kernel = pe(&[(".text", vec![0x90; 100])]);
    let image = pe(&[
        (".text", vec![1; 10]),
        (".initrd", vec![2; 20]),
        (".cmdline", b"console=ttyS0\0".to_vec()),
        (".linux", kernel.clone()),
        (".osrel", vec![3; 30]),
        (".pcrsig", vec![4; 40]),
    ]);
    (image, kernel)
}

#[test]
fn sections_come_in_measurement_order() {
    let (image, _) = uki_image();
    let uki = Uki::parse(&image).unwrap();
    let names: Vec<&str> = uki.sections.iter().map(|s| s.name.as_str()).collect();
    assert_eq!(names, vec![".linux", ".osrel", ".cmdline", ".initrd", ".text", ".pcrsig"]);
    let orders: Vec<i32> = uki.sections.iter().map(|s| s.measure_order).collect();
    assert_eq!(orders, vec![0, 1, 2, 3, -1, -1]);
    assert!(uki.sections[..4].iter().all(|s| s.measured));
    assert!(uki.sections[4..].iter().all(|s| !s.measured));
}

#[test]
fn section_digests_and_sizes() {
    let (image, _) = uki_image();
    let uki = Uki::parse(&image).unwrap();
    let initrd = uki.section(".initrd").unwrap();
    assert_eq!(initrd.size, 20);
    assert_eq!(initrd.digest_sha384, <[u8; 48]>::from(Sha384::digest([2u8; 20])));
    assert_eq!(initrd.digest_sha256, <[u8; 32]>::from(Sha256::digest([2u8; 20])));
}

#[test]
fn image_and_kernel_authenticode() {
    let (image, kernel) = uki_image();
    let uki = Uki::parse(&image).unwrap();
    assert_eq!(uki.size, image.len() as u64);
    assert_eq!(uki.cmdline, b"console=ttyS0\0".to_vec());
    assert_eq!(uki.authenticode_sha384, authenticode384(&image));
    assert_eq!(uki.authenticode_sha256, authenticode256(&image));
    assert_eq!(uki.kernel_authenticode_sha384, authenticode384(&kernel));
    assert_eq!(uki.kernel_authenticode_sha256, authenticode256(&kernel));
    assert_ne!(uki.authenticode_sha384, uki.kernel_authenticode_sha384);
    assert!(uki.disk_guid_hash.is_none());
}

#[test]
fn uki_without_kernel_has_zero_kernel_digests() {
    let image = pe(&[(".cmdline", b"quiet".to_vec())]);
    let uki = Uki::parse(&image).unwrap();
    assert_eq!(uki.kernel_authenticode_sha384, [0; 48]);
    assert_eq!(uki.kernel_authenticode_sha256, [0; 32]);
    assert_eq!(uki.cmdline, b"quiet".to_vec());
}

#[test]
fn kernel_that_is_not_pe_is_an_error() {
    let image = pe(&[(".linux", vec![0; 64])]);
    assert!(matches!(Uki::parse(&image), Err(UkiError::Pe(_)) | Err(UkiError::Authenticode(_))));
}

#[test]
fn pe_sections_measurement() {
    let (image, _) = uki_image();
    let uki = Uki::parse(&image).unwrap();
    let mut value = [0u8; 48];
    for s in uki.sections.iter().filter(|s| s.measured) {
        let mut name = s.name.as_bytes().to_vec();
        name.push(0);
        for digest in [<[u8; 48]>::from(Sha384::digest(&name)), s.digest_sha384] {
            let mut buf = value.to_vec();
            buf.extend_from_slice(&digest);
            value = Sha384::digest(&buf).into();
        }
    }
    assert_eq!(pe_sections_hash(&uki), value);
}

fn tar_gz(name: &str, data: &[u8]) -> Vec<u8> {
    let gz = flate2::write::GzEncoder::new(Vec::new(), flate2::Compression::default());
    let mut builder = tar::Builder::new(gz);
    let mut header = tar::Header::new_gnu();
    header.set_size(data.len() as u64);
    header.set_mode(0o644);
    header.set_cksum();
    builder.append_data(&mut header, name, data).unwrap();
    builder.into_inner().unwrap().finish().unwrap()
}

#[test]
fn archived_image_measures_like_the_image() {
    let (image, _) = uki_image();
    let direct = Uki::parse(&image).unwrap();
    let archived = Uki::parse(&tar_gz("disk.raw", &image)).unwrap();
    assert_eq!(direct.authenticode_sha384, archived.authenticode_sha384);
    assert_eq!(direct.size, archived.size);
    assert_eq!(direct.sections.len(), archived.sections.len());
    assert_eq!(pe_sections_hash(&direct), pe_sections_hash(&archived));
}

/// A disk image: a GPT with one EFI system partition holding `uki` at
/// EFI/BOOT/BOOTX64.EFI.
fn disk_image(uki: &[u8]) -> Vec<u8> {
    let esp_len = 4 * 1024 * 1024;
    let mut esp = std::io::Cursor::new(vec![0u8; esp_len]);
    fatfs::format_volume(&mut esp, fatfs::FormatVolumeOptions::new()).unwrap();
    {
        let fs = fatfs::FileSystem::new(&mut esp, fatfs::FsOptions::new()).unwrap();
        let dir = fs.root_dir().create_dir("EFI").unwrap().create_dir("BOOT").unwrap();
        let mut f = dir.create_file("BOOTX64.EFI").unwrap();
        f.write_all(uki).unwrap();
    }
    let esp = esp.into_inner();
    let first_lba = 34u64;
    let last_lba = first_lba + (esp_len / 512) as u64 - 1;
    let mut disk = vec![0u8; 34 * 512];
    disk[512..520].copy_from_slice(b"EFI PART");
    disk[512 + 12..512 + 16].copy_from_slice(&92u32.to_le_bytes());
    disk[512 + 56..512 + 72].copy_from_slice(&[0x5a; 16]);
    disk[512 + 72..512 + 80].copy_from_slice(&2u64.to_le_bytes());
    disk[512 + 80..512 + 84].copy_from_slice(&128u32.to_le_bytes());
    disk[512 + 84..512 + 88].copy_from_slice(&128u32.to_le_bytes());
    // the ESP entry
    disk[1024..1040].copy_from_slice(&[0xc1; 16]);
    disk[1024 + 32..1024 + 40].copy_from_slice(&first_lba.to_le_bytes());
    disk[1024 + 40..1024 + 48].copy_from_slice(&last_lba.to_le_bytes());
    disk.extend_from_slice(&esp);
    disk
}

#[test]
fn disk_image_yields_the_uki_on_its_esp() {
    let (image, _) = uki_image();
    let disk = disk_image(&image);
    let uki = Uki::parse(&disk).unwrap();
    assert_eq!(uki.authenticode_sha384, authenticode384(&image));
    assert_eq!(uki.size, image.len() as u64);
    let mut event = disk[512..512 + 92].to_vec();
    event.extend_from_slice(&1u64.to_le_bytes());
    event.extend_from_slice(&disk[1024..1024 + 128]);
    assert_eq!(uki.disk_guid_hash, Some(<[u8; 48]>::from(Sha384::digest(&event))));
    // and inside a GCP archive
    let archived = Uki::parse(&tar_gz("disk.raw", &disk)).unwrap();
    assert_eq!(archived.disk_guid_hash, uki.disk_guid_hash);
}

#[test]
fn disk_image_without_uki() {
    let mut disk = disk_image(&[]);
    // point the ESP entry at the partition table itself
    disk[1024 + 32..1024 + 40].copy_from_slice(&0u64.to_le_bytes());
    disk[1024 + 40..1024 + 48].copy_from_slice(&33u64.to_le_bytes());
    match Uki::parse(&disk) {
        Err(UkiError::Disk(m)) => assert_eq!(m, "invalid ESP filesystem"),
        _ => panic!("expected a disk error"),
    }
}

#[test]
fn checked_parse_accepts_a_sound_esp() {
    let (image, _) = uki_image();
    let disk = disk_image(&image);
    let esp = &disk[34 * 512..];
    assert!(attest::esp::check_esp(esp));
    match Uki::parse_checked(&disk) {
        Some(Ok(uki)) => assert_eq!(uki.authenticode_sha384, authenticode384(&image)),
        _ => panic!("expected a parsed image"),
    }
}

/// The disk image with every FAT entry that links two clusters pointing
/// back at its own cluster, so each multi-cluster chain loops.
fn looping_disk_image(uki: &[u8]) -> Vec<u8> {
    let mut disk = disk_image(uki);
    let esp = 34 * 512;
    let rsvd = u16::from_le_bytes([disk[esp + 14], disk[esp + 15]]) as usize;
    let fat = esp + rsvd * 512;
    // FAT12: entry n packs into 12 bits at byte n + n / 2
    for n in 2..600usize {
        let at = fat + n + n / 2;
        let packed = u16::from_le_bytes([disk[at], disk[at + 1]]);
        let value = if n % 2 == 0 { packed & 0x0FFF } else { packed >> 4 };
        if value != 0 && value < 0xFF7 {
            let new = if n % 2 == 0 {
                (packed & 0xF000) | n as u16
            } else {
                (packed & 0x000F) | ((n as u16) << 4)
            };
            disk[at..at + 2].copy_from_slice(&new.to_le_bytes());
        }
    }
    disk
}

#[test]
fn checked_parse_refuses_a_looping_fat() {
    let (image, _) = uki_image();
    let disk = looping_disk_image(&image);
    assert!(!attest::esp::check_esp(&disk[34 * 512..]));
    assert!(Uki::parse_checked(&disk).is_none());
}

#[test]
fn kernel_that_is_not_pe_is_a_parse_error() {
    let image = pe(&[(".linux", vec![0x90; 64]), (".initrd", vec![1; 8])]);
    assert!(matches!(Uki::parse(&image), Err(UkiError::Pe(_))));
}

#[test]
fn image_hashes_of_a_uki() {
    let (image, _) = uki_image();
    let uki = Uki::parse(&image).unwrap();
    let pe_sections = pe_sections_hash(&uki);
    let fallback = [7u8; 48];
    let hashes = attest::dcap::dcap_image_hashes(&uki, Some(pe_sections), fallback).unwrap();
    let cmdline: Vec<u8> = "console=ttyS0".encode_utf16().flat_map(|u| u.to_le_bytes()).chain([0, 0]).collect();
    assert_eq!(hashes.cmdline_hash, <[u8; 48]>::from(Sha384::digest(&cmdline)));
    assert_eq!(hashes.initrd_hash, <[u8; 48]>::from(Sha384::digest(&[2u8; 20])));
    assert_eq!(hashes.uki_authenticode, authenticode384(&image));
    assert_eq!(hashes.kernel_authenticode, uki.kernel_authenticode_sha384);
    assert_eq!(hashes.pe_sections, Some(pe_sections));
    assert_eq!(hashes.gpt_disk_guid_hash, fallback);
    // on a disk image the partition table's hash stands in place of the fallback
    let on_disk = Uki::parse(&disk_image(&image)).unwrap();
    let hashes = attest::dcap::dcap_image_hashes(&on_disk, None, fallback).unwrap();
    assert_eq!(Some(hashes.gpt_disk_guid_hash), on_disk.disk_guid_hash);
    assert_eq!(hashes.pe_sections, None);
}

#[test]
fn image_hashes_need_an_initrd() {
    let image = pe(&[(".cmdline", b"x".to_vec())]);
    let uki = Uki::parse(&image).unwrap();
    assert!(attest::dcap::dcap_image_hashes(&uki, None, [0; 48]).is_none());
}

/// Points the FAT entry of cluster `n` of the ESP at `n` itself.
fn loop_cluster(disk: &mut [u8], n: usize) {
    let esp = 34 * 512;
    let bps = u16::from_le_bytes([disk[esp + 11], disk[esp + 12]]) as usize;
    let rsvd = u16::from_le_bytes([disk[esp + 14], disk[esp + 15]]) as usize;
    let fat = esp + rsvd * bps;
    if &disk[esp + 54..esp + 59] == b"FAT12" {
        let at = fat + n + n / 2;
        let packed = u16::from_le_bytes([disk[at], disk[at + 1]]);
        let new = if n % 2 == 0 {
            (packed & 0xF000) | n as u16
        } else {
            (packed & 0x000F) | ((n as u16) << 4)
        };
        disk[at..at + 2].copy_from_slice(&new.to_le_bytes());
    } else {
        let at = fat + 2 * n;
        disk[at..at + 2].copy_from_slice(&(n as u16).to_le_bytes());
    }
}

/// The first cluster of the root directory entry with the given raw short
/// name (FAT12/16 root region).
fn root_entry_cluster(disk: &[u8], raw: &[u8; 11]) -> usize {
    let esp = 34 * 512;
    let bps = u16::from_le_bytes([disk[esp + 11], disk[esp + 12]]) as usize;
    let rsvd = u16::from_le_bytes([disk[esp + 14], disk[esp + 15]]) as usize;
    let fats = disk[esp + 16] as usize;
    let entries = u16::from_le_bytes([disk[esp + 17], disk[esp + 18]]) as usize;
    let spf = u16::from_le_bytes([disk[esp + 22], disk[esp + 23]]) as usize;
    let root = esp + (rsvd + fats * spf) * bps;
    for k in 0..entries {
        let slot = &disk[root + 32 * k..root + 32 * k + 32];
        if &slot[..11] == raw {
            return u16::from_le_bytes([slot[26], slot[27]]) as usize;
        }
    }
    panic!("no such entry");
}

#[test]
fn checked_parse_ignores_chains_off_the_boot_path() {
    let (image, _) = uki_image();
    let mut disk = disk_image(&image);
    // add a file beside EFI/ whose chain then loops
    {
        let esp_start = 34 * 512;
        let mut esp = std::io::Cursor::new(disk[esp_start..].to_vec());
        {
            let fs = fatfs::FileSystem::new(&mut esp, fatfs::FsOptions::new()).unwrap();
            let mut f = fs.root_dir().create_file("JUNK.BIN").unwrap();
            f.write_all(&vec![0x55; 20000]).unwrap();
        }
        disk[esp_start..].copy_from_slice(&esp.into_inner());
    }
    let junk = root_entry_cluster(&disk, b"JUNK    BIN");
    loop_cluster(&mut disk, junk);
    assert!(attest::esp::check_esp(&disk[34 * 512..]));
    match Uki::parse_checked(&disk) {
        Some(Ok(uki)) => assert_eq!(uki.authenticode_sha384, authenticode384(&image)),
        _ => panic!("expected a parsed image"),
    }
    // a loop in the EFI directory's own chain is refused
    let efi = root_entry_cluster(&disk, b"EFI        ");
    loop_cluster(&mut disk, efi);
    assert!(Uki::parse_checked(&disk).is_none());
}
