//! Google's signed launch endorsements for GCP TDX firmware: where they are
//! published, how their signature chain is checked, and how the endorsed
//! firmware blob is accepted.

use rsa::pkcs8::DecodePublicKey;
use rsa::signature::Verifier;
use vstd::prelude::*;
use x509_parser::prelude::FromDer;

use crate::dcap::firmware::{spec_from_blob, DcapFirmware, FirmwareError};
use crate::dcap::tdvf::{footer_is_sound, footer_sound};
use crate::hash::{sha384, sha384_of};
use crate::text::{hex_bytes, push_hex, str_chars, string_from_chars};
use crate::verify::same_bytes;

verus! {

/// Bucket holding Google's signed endorsements and firmware blobs.
pub const ENDORSEMENT_BUCKET: &'static str =
    "https://storage.googleapis.com/gce_tcb_integrity/ovmf_x64_csm";

/// Google's root certificate for the endorsements.
pub const ROOT_CERT_URL: &'static str = "https://pki.goog/cloud_integrity/GCE-cc-tcb-root_1.crt";

#[derive(Debug)]
pub enum GoogleError {
    Http(String),
    Endorsement,
    Verify(&'static str),
    Mismatch(&'static str),
    Firmware(FirmwareError),
}

fn push_str(out: &mut Vec<char>, s: &str)
    ensures
        final(out)@ == old(out)@ + s@,
{
    let chars = str_chars(s);
    let ghost start = out@;
    let mut i: usize = 0;
    while i < chars.len()
        invariant
            i <= chars@.len(),
            chars@ == s@,
            out@ == start + chars@.subrange(0, i as int),
        decreases chars@.len() - i,
    {
        out.push(chars[i]);
        i = i + 1;
        assert(out@ =~= start + chars@.subrange(0, i as int));
    }
    assert(chars@.subrange(0, chars@.len() as int) =~= chars@);
}

/// Where the endorsement of the firmware with a given MRTD is published.
pub fn endorsement_url(mrtd: &[u8; 48]) -> (url: String)
    ensures
        url@ == ENDORSEMENT_BUCKET@ + "/tdx/"@ + hex_bytes(mrtd@) + ".binarypb"@,
{
    let mut out: Vec<char> = Vec::new();
    push_str(&mut out, ENDORSEMENT_BUCKET);
    push_str(&mut out, "/tdx/");
    push_hex(&mut out, mrtd, 0, 48);
    push_str(&mut out, ".binarypb");
    assert(mrtd@.subrange(0, 48) =~= mrtd@);
    string_from_chars(out.as_slice())
}

/// Where the firmware blob with a given SHA-384 digest is published.
pub fn firmware_url(digest: &[u8]) -> (url: String)
    ensures
        url@ == ENDORSEMENT_BUCKET@ + "/"@ + hex_bytes(digest@) + ".fd"@,
{
    let mut out: Vec<char> = Vec::new();
    push_str(&mut out, ENDORSEMENT_BUCKET);
    push_str(&mut out, "/");
    push_hex(&mut out, digest, 0, digest.len());
    push_str(&mut out, ".fd");
    assert(digest@.subrange(0, digest@.len() as int) =~= digest@);
    string_from_chars(out.as_slice())
}

/// The DER subject public key info of an X.509 certificate given in DER
/// (bytes after the certificate are ignored); `None` where x509-parser
/// cannot parse it.
pub uninterp spec fn x509_spki(der: Seq<u8>) -> Option<Seq<u8>>;

/// `X509Certificate::from_der`, then `public_key().raw`.
#[verifier::external_body]
fn certificate_spki(der: &[u8]) -> (r: Option<Vec<u8>>)
    ensures
        match r {
            Some(k) => x509_spki(der@) == Some(k@),
            None => x509_spki(der@) is None,
        },
{
    let (_, cert) = x509_parser::certificate::X509Certificate::from_der(der).ok()?;
    Some(cert.public_key().raw.to_vec())
}

/// Whether certificate `der` parses, `signer` parses, and the former's
/// signature verifies under the latter's public key.
pub uninterp spec fn x509_signed_by(der: Seq<u8>, signer: Seq<u8>) -> bool;

/// `X509Certificate::from_der` of both, then `verify_signature` of the first
/// with the second's `public_key()`.
#[verifier::external_body]
fn certificate_signed_by(der: &[u8], signer: &[u8]) -> (r: bool)
    ensures
        r == x509_signed_by(der@, signer@),
{
    let Ok((_, cert)) = x509_parser::certificate::X509Certificate::from_der(der) else {
        return false;
    };
    let Ok((_, issuer)) = x509_parser::certificate::X509Certificate::from_der(signer) else {
        return false;
    };
    cert.verify_signature(Some(issuer.public_key())).is_ok()
}

/// What RSASSA-PSS (SHA-256) verification of `sig` over `msg` under the key
/// in `spki` gives: `None` where `rsa` cannot read `spki` as an RSA public
/// key, otherwise whether the signature is valid.
pub uninterp spec fn pss_sha256_outcome(spki: Seq<u8>, msg: Seq<u8>, sig: Seq<u8>) -> Option<bool>;

/// `RsaPublicKey::from_public_key_der`, then `pss::Signature::try_from`
/// (which accepts any bytes) and `pss::VerifyingKey::<Sha256>::verify`.
#[verifier::external_body]
fn pss_sha256_verify(spki: &[u8], msg: &[u8], sig: &[u8]) -> (r: Option<bool>)
    ensures
        r == pss_sha256_outcome(spki@, msg@, sig@),
{
    let key = rsa::RsaPublicKey::from_public_key_der(spki).ok()?;
    let Ok(sig) = rsa::pss::Signature::try_from(sig) else {
        return Some(false);
    };
    Some(rsa::pss::VerifyingKey::<sha2::Sha256>::new(key).verify(msg, &sig).is_ok())
}

/// The outcome of checking the endorsement certificate alone.
pub open spec fn spec_check_leaf(leaf: Seq<u8>) -> Result<(), GoogleError> {
    if x509_spki(leaf) is None {
        Err(GoogleError::Verify("bad cert"))
    } else {
        Ok(())
    }
}

/// Checks that the endorsement's certificate parses.
pub fn check_leaf_certificate(leaf: &[u8]) -> (r: Result<(), GoogleError>)
    ensures
        r == spec_check_leaf(leaf@),
{
    match certificate_spki(leaf) {
        Some(_) => Ok(()),
        None => Err(GoogleError::Verify("bad cert")),
    }
}

/// The outcome of checking an endorsement: its certificate must be signed by
/// Google's root, and the serialized golden measurement signed (RSASSA-PSS,
/// SHA-256) by that certificate's key.
pub open spec fn spec_verify_endorsement(
    golden: Seq<u8>,
    signature: Seq<u8>,
    leaf: Seq<u8>,
    root: Seq<u8>,
) -> Result<(), GoogleError> {
    if x509_spki(leaf) is None {
        Err(GoogleError::Verify("bad cert"))
    } else if x509_spki(root) is None {
        Err(GoogleError::Verify("root key"))
    } else if !x509_signed_by(leaf, root) {
        Err(GoogleError::Verify("cert chain"))
    } else {
        match pss_sha256_outcome(x509_spki(leaf)->0, golden, signature) {
            None => Err(GoogleError::Verify("bad key")),
            Some(false) => Err(GoogleError::Verify("signature")),
            Some(true) => Ok(()),
        }
    }
}

/// Checks that the signature matches the serialized golden measurement and
/// that its certificate chains to Google's root certificate.
pub fn verify_endorsement(golden: &[u8], signature: &[u8], leaf: &[u8], root: &[u8]) -> (r: Result<
    (),
    GoogleError,
>)
    ensures
        r == spec_verify_endorsement(golden@, signature@, leaf@, root@),
{
    let leaf_key = match certificate_spki(leaf) {
        Some(k) => k,
        None => {
            return Err(GoogleError::Verify("bad cert"));
        },
    };
    if certificate_spki(root).is_none() {
        return Err(GoogleError::Verify("root key"));
    }
    if !certificate_signed_by(leaf, root) {
        return Err(GoogleError::Verify("cert chain"));
    }
    match pss_sha256_verify(leaf_key.as_slice(), golden, signature) {
        None => Err(GoogleError::Verify("bad key")),
        Some(false) => Err(GoogleError::Verify("signature")),
        Some(true) => Ok(()),
    }
}

/// The firmware accepted from an endorsed blob, as `DcapFirmware::view_tuple`.
pub open spec fn spec_endorsed_firmware(mrtd: Seq<u8>, golden_digest: Seq<u8>, blob: Seq<u8>) -> Result<
    (Seq<u8>, Seq<u8>, (Seq<u8>, int, u64)),
    GoogleError,
> {
    if sha384_of(blob) != golden_digest {
        Err(GoogleError::Mismatch("firmware digest"))
    } else {
        match spec_from_blob(blob, true) {
            Err(e) => Err(GoogleError::Firmware(e)),
            Ok(fw) => if fw.0 != mrtd {
                Err(GoogleError::Mismatch("MRTD"))
            } else {
                Ok(fw)
            },
        }
    }
}

/// Accepts a firmware blob downloaded for an endorsement: its digest must be
/// the endorsed one, and its MRTD the one asked for.
pub fn firmware_from_endorsed_blob(mrtd: &[u8; 48], golden_digest: &[u8], blob: &[u8]) -> (r: Result<
    DcapFirmware,
    GoogleError,
>)
    requires
        sha384_of(blob@) == golden_digest@ ==> footer_sound(blob@),
    ensures
        match spec_endorsed_firmware(mrtd@, golden_digest@, blob@) {
            Ok(v) => r is Ok && r->Ok_0.view_tuple() == v && r->Ok_0.hob.well_formed(),
            Err(e) => r == Err::<DcapFirmware, GoogleError>(e),
        },
{
    let digest = sha384(blob);
    if !same_bytes(&digest, golden_digest) {
        return Err(GoogleError::Mismatch("firmware digest"));
    }
    let firmware = match DcapFirmware::from_blob(blob, true) {
        Ok(f) => f,
        Err(e) => {
            return Err(GoogleError::Firmware(e));
        },
    };
    if !same_bytes(&firmware.mrtd, mrtd) {
        return Err(GoogleError::Mismatch("MRTD"));
    }
    Ok(firmware)
}

/// `firmware_from_endorsed_blob` where its footer can be scanned: `None`
/// where the blob has the endorsed digest but a GUID table whose entries
/// overlap (on which the firmware parser would index out of bounds).
pub fn try_firmware_from_endorsed_blob(
    mrtd: &[u8; 48],
    golden_digest: &[u8],
    blob: &[u8],
) -> (r: Option<Result<DcapFirmware, GoogleError>>)
    ensures
        r is None <==> (sha384_of(blob@) == golden_digest@ && !footer_sound(blob@)),
        r matches Some(res) ==> match spec_endorsed_firmware(mrtd@, golden_digest@, blob@) {
            Ok(v) => res is Ok && res->Ok_0.view_tuple() == v && res->Ok_0.hob.well_formed(),
            Err(e) => res == Err::<DcapFirmware, GoogleError>(e),
        },
{
    let digest = sha384(blob);
    if same_bytes(&digest, golden_digest) && !footer_is_sound(blob) {
        return None;
    }
    Some(firmware_from_endorsed_blob(mrtd, golden_digest, blob))
}

} // verus!
