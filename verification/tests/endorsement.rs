use attest::azure::{finish_azure_checks, read_ak_certificate, HclRuntimeClaims, Jwk, MaaError, RsaPubKey};
use base64::Engine;
use attest::dcap::google::{check_leaf_certificate, verify_endorsement, GoogleError};

const GOLDEN: &[u8] = b"serialized golden measurement";

fn bytes(parts: &[&str]) -> Vec<u8> {
    hex::decode(parts.concat()).unwrap()
}

/// A self-signed RSA-2048 root certificate (generated for these tests).
const ROOT_DER: &[&str] = &[
    "308203233082020ba003020102021454f37ce3f2c4b80b3ceb79b2d1e2f6d4052bbce0300d06092a864886f70d01010b",
    "05003020311e301c06035504030c15456e646f7273656d656e74205465737420526f6f743020170d3236313131373036",
    "353331335a180f32313236313032343036353331335a3020311e301c06035504030c15456e646f7273656d656e742054",
    "65737420526f6f7430820122300d06092a864886f70d01010105000382010f003082010a0282010100c61443092686de",
    "b24b2df1ef0310a2125150a8491ca21846b7c6d23b3d99f418f1048eea3a2de8eee30eb9f35cbc5c31885205cff13da0",
    "6a010c75903ba22e27cf7e0ce3fd5a1d6cc5eb55ae04473204bdd2ba2fb5beaf39c92c01c8c4103ce6780d0db3a1543f",
    "cee6a02e8ad5bb6bd1796106211b8b41cfefce961b716dc5d6d7329e89013212053cafa188b0a58954f4cfe1dbf6e037",
    "25e099d226b587b9ab00f8f623d5170abaf1334e4a3c8a986e3fca389cc941730c75b04d491eea0200b2db6592eb0a48",
    "9f04fb643190434b34098107962d7c36d4027d0d71cc484c928e7001ed998be403733c97e59a0187dac490a0c7335631",
    "4753e9d2a30ce6461f0203010001a3533051301d0603551d0e0416041464d501dd1afe86b166676fe68366a3c5033133",
    "fa301f0603551d2304183016801464d501dd1afe86b166676fe68366a3c5033133fa300f0603551d130101ff04053003",
    "0101ff300d06092a864886f70d01010b050003820101007366a8e432605aca916df1cbc4d838d2877fb464e2c8996512",
    "9f706df6b1149e449b14a1ebcf5f7b19ca97b0f32580ea67937092acd1e82746122b9fd5b0cfcce4ee069394dc4f128a",
    "4d99554486be1041ab714ecc8bdde05e25a808a84b16c4039c1f8ec7a59bb47c0d07ec3b238a50d3dbc89b1a2f30388a",
    "15e5571b4fbaf36c98342ac6908d991b67071543d9547ae940e63243dfb960eff8d7eab07c817c6f187684af55a28a74",
    "006249af8aba68f795b35b413b44b43dd78314e84c85ff5f2d6678235f9002f0a1b356b353fe46770e2abc51db95c77d",
    "12ec2d1f5b202a9cde9b1a55d022d859cf25d74403a425da3b21f962974e5155f1323af18198bc",
];

/// A certificate for an RSA-2048 key, signed by the root above.
const LEAF_DER: &[&str] = &[
    "30820312308201faa00302010202141aaa7e75567d1edbed66c3c3bcb652cb8a135511300d06092a864886f70d01010b",
    "05003020311e301c06035504030c15456e646f7273656d656e74205465737420526f6f743020170d3236313131373036",
    "353331335a180f32313236313032343036353331335a3020311e301c06035504030c15456e646f7273656d656e742054",
    "657374204c65616630820122300d06092a864886f70d01010105000382010f003082010a02820101008f95913eaa5cc1",
    "6c4e9782fe5e902de23dbabc99d773c2fa85bc37edca705ba643effc306c3578b9cbfffed95f3e7a2bca9355b82ea4c0",
    "34a232caf1373a51dce655819b2f8c15886654521df1749fa617ed7b240aee4392adcfb451341a86fbafa1b94114671b",
    "8890bf1641f3e19ed5cb7b97735801333b7f6e2d1d48a40de997fc96986299f300ec8a18ffbf95fe91025661f1493797",
    "e807f5b4f4450653bd0e830634676e766d6b667336ce6e1650a53681c5bd9eedf869c494eca7602f54530d2d57a10d88",
    "4e0855f5430101c0f5866dbdb5a135a5fa00e93cb71eaf522e64e1e441248a32b9dcd97887f60eac5639aca7ff3840fa",
    "720085fd3b3f9e96f70203010001a3423040301d0603551d0e0416041491d19371b4827290e4888d3ecb951c693c76bc",
    "51301f0603551d2304183016801464d501dd1afe86b166676fe68366a3c5033133fa300d06092a864886f70d01010b05",
    "000382010100583f61aaa634d866a7284b754b9d11ef86dad93667d6c07016e79438aabba3977bb161eb17a39eb2c98a",
    "3ead42f0f3cee77c2d4d7ac87b5394bab1f92e47ad51a8080e8de0b6e26688a36d99a304778741d1b1742ede3270df2b",
    "8759428be1c95e9ee05f384142a2b421a34277e5dac7a6bb5e03afe3d090838ca4f8a72e7a917c24b445c18fb1bfa959",
    "1f96335bb8697185ac1b0fd93f5efef63fe8ee28666dbe7fd3550622f6b84e9f7a56c71268f507edf2e0efd87390bc3e",
    "41be0db45c7796f92d7ede965dcb5f3ab635442e86ce63c0edd2326c00606c74330c9008b03710bb3e861d4feb753728",
    "2f0a2bdc4a9006b99672169fa2aa2e3c957e12186669",
];

/// RSASSA-PSS (SHA-256, 32-byte salt) signature of `GOLDEN` by the leaf key.
const GOLDEN_SIG: &[&str] = &[
    "72275081187b90e12b64027c7892a82880902497761c74fd7bc9a216e2d696f0a351c512dd7d544de8b741ec5ee77f48",
    "75e93d979aa6058fa53ac52c8e0d5a23247dfcbcf0c799a91597ada10d784b5cd98d18947f59d0f8861fd8b8b45fefb8",
    "ae43418e3671d84423e36fd40ab2efe44ba063744075fef43289704b017f71caa0f3386c185d06c1b95a0fcf8210895a",
    "d65be29f72966d10a5c18a0f5221e8613cf2061ce94ee820f2361a58e16643af5ae2762b193f1fb207bf0a9d4dc6b60d",
    "d7e8f4bc0684b6cb098002a821cc2875a80054460f11ba56adb26a3a4750672960fceb860d24173d623fd639108bbd41",
    "f874348d69e0801d21f8edd2fcd22c6c",
];

/// The leaf key's modulus.
const LEAF_MODULUS: &[&str] = &[
    "8f95913eaa5cc16c4e9782fe5e902de23dbabc99d773c2fa85bc37edca705ba643effc306c3578b9cbfffed95f3e7a2b",
    "ca9355b82ea4c034a232caf1373a51dce655819b2f8c15886654521df1749fa617ed7b240aee4392adcfb451341a86fb",
    "afa1b94114671b8890bf1641f3e19ed5cb7b97735801333b7f6e2d1d48a40de997fc96986299f300ec8a18ffbf95fe91",
    "025661f1493797e807f5b4f4450653bd0e830634676e766d6b667336ce6e1650a53681c5bd9eedf869c494eca7602f54",
    "530d2d57a10d884e0855f5430101c0f5866dbdb5a135a5fa00e93cb71eaf522e64e1e441248a32b9dcd97887f60eac56",
    "39aca7ff3840fa720085fd3b3f9e96f7",
];

/// A self-signed certificate for a P-256 key.
const EC_DER: &[&str] = &[
    "3082017a30820121a00302010202142d6157cc365985ecee8d99daafe47d3beb67126f300a06082a8648ce3d04030230",
    "123110300e06035504030c07454320546573743020170d3236313131373036353331335a180f32313236313032343036",
    "353331335a30123110300e06035504030c07454320546573743059301306072a8648ce3d020106082a8648ce3d030107",
    "03420004929c46c1dd75dc5073e251b05819de0091f763423949557ffbafbcd3ef1c8364d40d55ae28ac078f817276eb",
    "7327af4df9ddde5e65214b11e1c9549b7afb8d56a3533051301d0603551d0e041604143b04f7b082604cb653eb84f213",
    "02e1480aa30d4b301f0603551d230418301680143b04f7b082604cb653eb84f21302e1480aa30d4b300f0603551d1301",
    "01ff040530030101ff300a06082a8648ce3d04030203470030440220601b59cd3c36593f46229f8acc2b7a9af458945b",
    "31e0914b1774477d406b4a43022031dac88fa9e073a462ec5b7614ee7bae2f3474fc6bc0a65e731ae224c0265558",
];

#[test]
fn endorsement_signed_by_chained_key_verifies() {
    let (root, leaf, sig) = (bytes(ROOT_DER), bytes(LEAF_DER), bytes(GOLDEN_SIG));
    assert!(check_leaf_certificate(&leaf).is_ok());
    assert!(verify_endorsement(GOLDEN, &sig, &leaf, &root).is_ok());
}

#[test]
fn endorsement_over_other_data_is_rejected() {
    let (root, leaf, sig) = (bytes(ROOT_DER), bytes(LEAF_DER), bytes(GOLDEN_SIG));
    assert!(matches!(
        verify_endorsement(b"other measurement", &sig, &leaf, &root),
        Err(GoogleError::Verify("signature"))
    ));
    let mut bad = sig.clone();
    bad[10] ^= 1;
    assert!(matches!(
        verify_endorsement(GOLDEN, &bad, &leaf, &root),
        Err(GoogleError::Verify("signature"))
    ));
}

#[test]
fn endorsement_certificate_must_chain_to_root() {
    let (root, leaf, sig) = (bytes(ROOT_DER), bytes(LEAF_DER), bytes(GOLDEN_SIG));
    // the leaf is not signed by itself
    assert!(matches!(
        verify_endorsement(GOLDEN, &sig, &leaf, &leaf),
        Err(GoogleError::Verify("cert chain"))
    ));
    assert!(matches!(
        verify_endorsement(GOLDEN, &sig, &leaf, b"not a certificate"),
        Err(GoogleError::Verify("root key"))
    ));
    // the root's own key did not make the signature
    assert!(matches!(
        verify_endorsement(GOLDEN, &sig, &root, &root),
        Err(GoogleError::Verify("signature"))
    ));
}

#[test]
fn endorsement_key_must_be_rsa() {
    let ec = bytes(EC_DER);
    assert!(matches!(
        verify_endorsement(GOLDEN, &[0; 64], &ec, &ec),
        Err(GoogleError::Verify("bad key"))
    ));
}

#[test]
fn attestation_key_from_certificate() {
    let key = RsaPubKey::from_certificate(&bytes(LEAF_DER)).unwrap();
    assert!(key.same_key(&RsaPubKey::from_be_bytes(&bytes(LEAF_MODULUS), &[1, 0, 1])));
    assert!(!key.same_key(&RsaPubKey::from_certificate(&bytes(ROOT_DER)).unwrap()));
    assert!(matches!(RsaPubKey::from_certificate(&bytes(EC_DER)), Err(MaaError::NotRsa)));
}

fn pem(der: &[u8]) -> String {
    pem_rfc7468::encode_string("CERTIFICATE", pem_rfc7468::LineEnding::LF, der).unwrap()
}

#[test]
fn attestation_key_certificate_from_pem() {
    let leaf = bytes(LEAF_DER);
    let mut with_trailer = leaf.clone();
    with_trailer.extend_from_slice(&[0xab; 5]);
    let (key, stripped) = read_ak_certificate(&pem(&with_trailer)).unwrap();
    assert_eq!(stripped, leaf);
    assert!(key.same_key(&RsaPubKey::from_be_bytes(&bytes(LEAF_MODULUS), &[1, 0, 1])));
    assert!(matches!(read_ak_certificate("not pem"), Err(MaaError::Pem(_))));
    assert!(matches!(read_ak_certificate(&pem(b"not der")), Err(MaaError::X509)));
    assert!(matches!(read_ak_certificate(&pem(&bytes(EC_DER))), Err(MaaError::NotRsa)));
}

fn ak_claims(modulus: &[u8], user_data: &[u8; 64]) -> HclRuntimeClaims {
    let b64 = |b: &[u8]| base64::engine::general_purpose::URL_SAFE_NO_PAD.encode(b);
    HclRuntimeClaims {
        keys: vec![Jwk {
            kty: "RSA".to_string(),
            kid: "HCLAkPub".to_string(),
            n: Some(b64(modulus)),
            e: Some(b64(&[1, 0, 1])),
        }],
        user_data: Some(hex::encode(user_data)),
    }
}

#[test]
fn azure_checks_run_in_order() {
    let modulus = bytes(LEAF_MODULUS);
    let hcl_ak = RsaPubKey::from_be_bytes(&modulus, &[1, 0, 1]);
    let var_data_hash = [9u8; 32];
    let mut user_data = [0u8; 64];
    user_data[..32].copy_from_slice(&var_data_hash);
    let mut report_data = [0u8; 64];
    report_data[..32].copy_from_slice(&var_data_hash);
    let claims = ak_claims(&modulus, &user_data);
    let cert = pem(&bytes(LEAF_DER));
    let leaf = finish_azure_checks(&hcl_ak, &claims, &var_data_hash, &report_data, true, &cert).unwrap();
    assert_eq!(leaf, bytes(LEAF_DER));
    // each check in turn
    let mut other_report = report_data;
    other_report[0] ^= 1;
    assert!(matches!(
        finish_azure_checks(&hcl_ak, &claims, &var_data_hash, &other_report, true, &cert),
        Err(MaaError::TdReportInputMismatch)
    ));
    let mut other_user = user_data;
    other_user[40] = 1;
    assert!(matches!(
        finish_azure_checks(&hcl_ak, &ak_claims(&modulus, &other_user), &var_data_hash, &report_data, true, &cert),
        Err(MaaError::ClaimsUserDataInputMismatch)
    ));
    assert!(matches!(
        finish_azure_checks(&hcl_ak, &claims, &var_data_hash, &report_data, false, &cert),
        Err(MaaError::VtpmQuote)
    ));
    assert!(matches!(
        finish_azure_checks(&hcl_ak, &claims, &var_data_hash, &report_data, true, "not pem"),
        Err(MaaError::Pem(_))
    ));
    let other_hcl = RsaPubKey::from_be_bytes(&[3], &[1, 0, 1]);
    assert!(matches!(
        finish_azure_checks(&other_hcl, &claims, &var_data_hash, &report_data, true, &cert),
        Err(MaaError::AkFromClaimsNotEqualAkFromHcl)
    ));
    let other_claims = ak_claims(&[3], &user_data);
    assert!(matches!(
        finish_azure_checks(&other_hcl, &other_claims, &var_data_hash, &report_data, true, &cert),
        Err(MaaError::AkFromClaimsNotEqualAkFromCertificate)
    ));
}
