use attest::dcap::google::{
    check_leaf_certificate, endorsement_url, firmware_from_endorsed_blob, firmware_url,
    verify_endorsement, GoogleError,
};
use attest::dcap::tdvf::mrtd_sha384;
use sha2::{Digest, Sha384};

#[test]
fn endorsement_and_firmware_urls() {
    let mut mrtd = [0u8; 48];
    mrtd[0] = 0xfe;
    mrtd[47] = 0x0a;
    assert_eq!(
        endorsement_url(&mrtd),
        format!(
            "https://storage.googleapis.com/gce_tcb_integrity/ovmf_x64_csm/tdx/fe{}0a.binarypb",
            "00".repeat(46)
        ),
    );
    assert_eq!(
        firmware_url(&[0xab, 0x01]),
        "https://storage.googleapis.com/gce_tcb_integrity/ovmf_x64_csm/ab01.fd",
    );
}

#[test]
fn endorsement_certificates_must_parse() {
    assert!(matches!(check_leaf_certificate(b"junk"), Err(GoogleError::Verify("bad cert"))));
    assert!(matches!(
        verify_endorsement(b"golden", b"sig", b"junk", b"junk"),
        Err(GoogleError::Verify("bad cert"))
    ));
}

const METADATA_GUID: [u8; 16] = [
    0x35, 0x65, 0x7a, 0xe4, 0x4a, 0x98, 0x98, 0x47, 0x86, 0x5e, 0x46, 0x85, 0xa7, 0xbf, 0x8e, 0xc2,
];

fn put_u32(v: &mut Vec<u8>, x: u32) {
    v.extend_from_slice(&x.to_le_bytes());
}

fn put_u64(v: &mut Vec<u8>, x: u64) {
    v.extend_from_slice(&x.to_le_bytes());
}

/// A firmware image: a CFV of one page, the TDX metadata, the GUID table and
/// the footer.
fn firmware() -> Vec<u8> {
    let mut fw: Vec<u8> = (0..0x1000u32).map(|i| (i % 251) as u8).collect();
    let descriptor_at = fw.len();
    fw.extend_from_slice(b"TDXV");
    put_u32(&mut fw, 16 + 2 * 32);
    put_u32(&mut fw, 1);
    put_u32(&mut fw, 2);
    // CFV: image 0..0x1000 at 0xFFC0_0000, measured
    put_u32(&mut fw, 0);
    put_u32(&mut fw, 0x1000);
    put_u64(&mut fw, 0xFFC0_0000);
    put_u64(&mut fw, 0x1000);
    put_u32(&mut fw, 1);
    put_u32(&mut fw, 1);
    // TD HOB: two pages at 0x80_9000, not measured
    put_u32(&mut fw, 0);
    put_u32(&mut fw, 0);
    put_u64(&mut fw, 0x80_9000);
    put_u64(&mut fw, 0x2000);
    put_u32(&mut fw, 2);
    put_u32(&mut fw, 0);
    // GUID table: the metadata offset entry, then the anchor
    let total = fw.len() + 22 + 18 + 0x20;
    put_u32(&mut fw, (total - descriptor_at) as u32);
    fw.extend_from_slice(&22u16.to_le_bytes());
    fw.extend_from_slice(&METADATA_GUID);
    fw.extend_from_slice(&40u16.to_le_bytes());
    fw.extend_from_slice(&[0xAA; 16]);
    fw.extend_from_slice(&[0; 0x20]);
    assert_eq!(fw.len(), total);
    fw
}


#[test]
fn endorsed_blob_must_match_digest_and_mrtd() {
    let fw = firmware();
    let digest: [u8; 48] = Sha384::digest(&fw).into();
    let mrtd = mrtd_sha384(&fw).unwrap();
    assert!(matches!(
        firmware_from_endorsed_blob(&mrtd, &[0; 48], &fw),
        Err(GoogleError::Mismatch("firmware digest"))
    ));
    assert!(matches!(
        firmware_from_endorsed_blob(&[0; 48], &digest, &fw),
        Err(GoogleError::Mismatch("MRTD"))
    ));
    let f = firmware_from_endorsed_blob(&mrtd, &digest, &fw).unwrap();
    assert_eq!(f.mrtd, mrtd);
    // GCP firmware: the memory below 3 GiB is described by the template
    assert_eq!(f.hob.ram_threshold, 0xC000_0000);
}
