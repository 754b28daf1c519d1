use base64::Engine;
use attest::azure::{
    check_ak_agreement, check_report_binding, expected_tdx_input_data, read_claims, HclRuntimeClaims,
    Jwk, MaaError, RsaPubKey,
};

fn b64(bytes: &[u8]) -> String {
    base64::engine::general_purpose::URL_SAFE_NO_PAD.encode(bytes)
}

fn jwk(kid: &str, n: &[u8], e: &[u8]) -> Jwk {
    Jwk { kty: "RSA".to_string(), kid: kid.to_string(), n: Some(b64(n)), e: Some(b64(e)) }
}

#[test]
fn keys_compare_by_value() {
    let a = RsaPubKey::from_be_bytes(&[0, 0, 1, 2], &[1, 0, 1]);
    let b = RsaPubKey::from_be_bytes(&[1, 2], &[0, 1, 0, 1]);
    let c = RsaPubKey::from_be_bytes(&[1, 3], &[1, 0, 1]);
    assert!(a.same_key(&b));
    assert!(!a.same_key(&c));
    assert!(RsaPubKey::from_be_bytes(&[], &[]).same_key(&RsaPubKey::from_be_bytes(&[0], &[0, 0])));
}

#[test]
fn jwk_must_be_rsa_with_both_members() {
    let mut k = jwk("x", &[1], &[1]);
    k.kty = "EC".to_string();
    assert!(matches!(RsaPubKey::from_jwk(&k), Err(MaaError::NotRsa)));
    let mut k = jwk("x", &[1], &[1]);
    k.e = None;
    assert!(matches!(RsaPubKey::from_jwk(&k), Err(MaaError::JwkParse)));
    let mut k = jwk("x", &[1], &[1]);
    k.n = Some("***".to_string());
    assert!(matches!(RsaPubKey::from_jwk(&k), Err(MaaError::Base64(_))));
    let key = RsaPubKey::from_jwk(&jwk("x", &[0, 7, 7], &[1, 0, 1])).unwrap();
    assert!(key.same_key(&RsaPubKey::from_be_bytes(&[7, 7], &[1, 0, 1])));
}

fn claims(user_data: Option<&str>) -> HclRuntimeClaims {
    HclRuntimeClaims {
        keys: vec![jwk("HCLEkPub", &[5], &[3]), jwk("HCLAkPub", &[7, 7], &[1, 0, 1])],
        user_data: user_data.map(|s| s.to_string()),
    }
}

#[test]
fn claims_yield_key_and_user_data() {
    let user = "Ab".repeat(64);
    let (key, data) = read_claims(&claims(Some(&user))).unwrap();
    assert_eq!(data, [0xAB; 64]);
    assert!(key.same_key(&RsaPubKey::from_be_bytes(&[7, 7], &[1, 0, 1])));
}

#[test]
fn claims_errors() {
    assert!(matches!(read_claims(&claims(None)), Err(MaaError::ClaimsMissingUserData)));
    assert!(matches!(read_claims(&claims(Some("abc"))), Err(MaaError::Hex(_))));
    assert!(matches!(read_claims(&claims(Some("zz"))), Err(MaaError::Hex(_))));
    assert!(matches!(read_claims(&claims(Some("abcd"))), Err(MaaError::ClaimsUserDataBadLength)));
    let no_ak = HclRuntimeClaims { keys: vec![jwk("HCLEkPub", &[5], &[3])], user_data: None };
    assert!(matches!(read_claims(&no_ak), Err(MaaError::ClaimsMissingHCLAkPub)));
}

#[test]
fn report_binding_checks() {
    let hash = [7u8; 32];
    let report = expected_tdx_input_data(&hash);
    assert_eq!(&report[..32], &hash);
    assert_eq!(&report[32..], &[0u8; 32]);
    assert!(check_report_binding(&hash, &report, &[1; 64], &[1; 64]).is_ok());
    assert!(matches!(
        check_report_binding(&[8; 32], &report, &[1; 64], &[1; 64]),
        Err(MaaError::TdReportInputMismatch)
    ));
    assert!(matches!(
        check_report_binding(&hash, &report, &[1; 64], &[2; 64]),
        Err(MaaError::ClaimsUserDataInputMismatch)
    ));
}

#[test]
fn ak_agreement_checks() {
    let a = RsaPubKey::from_be_bytes(&[1], &[3]);
    let b = RsaPubKey::from_be_bytes(&[2], &[3]);
    assert!(check_ak_agreement(&a, &RsaPubKey::from_be_bytes(&[1], &[3]), &RsaPubKey::from_be_bytes(&[0, 1], &[3])).is_ok());
    assert!(matches!(check_ak_agreement(&a, &b, &a), Err(MaaError::AkFromClaimsNotEqualAkFromHcl)));
    let a2 = RsaPubKey::from_be_bytes(&[1], &[3]);
    assert!(matches!(check_ak_agreement(&a, &a2, &b), Err(MaaError::AkFromClaimsNotEqualAkFromCertificate)));
}

#[test]
fn certificate_must_parse() {
    assert!(matches!(RsaPubKey::from_certificate(b"not a certificate"), Err(MaaError::X509)));
}
