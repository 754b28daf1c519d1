//! Azure vTPM attestation: the attestation key as an RSA public key in its
//! several encodings, the HCL runtime claims, and the checks that bind the
//! claims, the TD report and the attestation key together.

use base64::Engine;
use vstd::prelude::*;
use vstd::utf8::encode_utf8;
use x509_parser::prelude::FromDer;

use crate::verify::same_bytes;

verus! {

#[verifier::external_type_specification]
#[verifier::external_body]
pub struct ExBase64Error(base64::DecodeError);

#[verifier::external_type_specification]
#[verifier::external_body]
pub struct ExHexError(hex::FromHexError);

#[verifier::external_type_specification]
#[verifier::external_body]
pub struct ExPemError(pem_rfc7468::Error);

#[derive(Debug)]
pub enum MaaError {
    NotRsa,
    JwkParse,
    Base64(base64::DecodeError),
    Hex(hex::FromHexError),
    Pem(pem_rfc7468::Error),
    X509,
    ClaimsMissingHCLAkPub,
    ClaimsMissingUserData,
    ClaimsUserDataBadLength,
    TdReportInputMismatch,
    ClaimsUserDataInputMismatch,
    VtpmQuote,
    AkFromClaimsNotEqualAkFromHcl,
    AkFromClaimsNotEqualAkFromCertificate,
}

// ---------------------------------------------------------------------------
// Big-endian unsigned integers
// ---------------------------------------------------------------------------

/// The unsigned integer whose big-endian bytes are `b`.
pub open spec fn be_value(b: Seq<u8>) -> nat
    decreases b.len(),
{
    if b.len() == 0 {
        0
    } else {
        be_value(b.drop_last()) * 256 + b.last() as nat
    }
}

/// No leading zero byte: the shortest big-endian form of its value.
pub open spec fn is_minimal(b: Seq<u8>) -> bool {
    b.len() == 0 || b[0] != 0
}

proof fn lemma_be_value_prepend_zero(b: Seq<u8>)
    ensures
        be_value(seq![0u8] + b) == be_value(b),
    decreases b.len(),
{
    let z = seq![0u8] + b;
    if b.len() > 0 {
        assert(z.drop_last() =~= seq![0u8] + b.drop_last());
        assert(z.last() == b.last());
        lemma_be_value_prepend_zero(b.drop_last());
        assert(be_value(z.drop_last()) == be_value(b.drop_last()));
        assert(be_value(z) == be_value(z.drop_last()) * 256 + z.last() as nat);
    } else {
        assert(z.drop_last() =~= Seq::<u8>::empty());
        assert(z.last() == 0);
        assert(be_value(z) == be_value(z.drop_last()) * 256 + z.last() as nat);
    }
}

proof fn lemma_minimal_positive(b: Seq<u8>)
    requires
        b.len() > 0,
        b[0] != 0,
    ensures
        be_value(b) > 0,
    decreases b.len(),
{
    if b.len() > 1 {
        assert(b.drop_last()[0] == b[0]);
        lemma_minimal_positive(b.drop_last());
        assert(be_value(b.drop_last()) * 256 >= 256) by (nonlinear_arith)
            requires
                be_value(b.drop_last()) >= 1,
        ;
    }
}

/// Two minimal big-endian forms of the same value are the same bytes.
pub proof fn lemma_minimal_unique(a: Seq<u8>, b: Seq<u8>)
    requires
        is_minimal(a),
        is_minimal(b),
        be_value(a) == be_value(b),
    ensures
        a == b,
    decreases a.len() + b.len(),
{
    if a.len() == 0 && b.len() == 0 {
    } else if a.len() == 0 {
        lemma_minimal_positive(b);
    } else if b.len() == 0 {
        lemma_minimal_positive(a);
    } else {
        let (pa, pb) = (a.drop_last(), b.drop_last());
        let (x, y) = (be_value(pa), be_value(pb));
        assert(x * 256 + a.last() == y * 256 + b.last());
        assert(x == y && a.last() == b.last()) by (nonlinear_arith)
            requires
                x * 256 + a.last() == y * 256 + b.last(),
                0 <= a.last() < 256,
                0 <= b.last() < 256,
                x >= 0,
                y >= 0,
        ;
        if pa.len() > 0 {
            assert(pa[0] == a[0]);
        }
        if pb.len() > 0 {
            assert(pb[0] == b[0]);
        }
        lemma_minimal_unique(pa, pb);
        assert(a =~= pa.push(a.last()));
        assert(b =~= pb.push(b.last()));
    }
}

/// `b` without its leading zero bytes.
pub open spec fn strip_zeros(b: Seq<u8>) -> Seq<u8>
    decreases b.len(),
{
    if b.len() > 0 && b[0] == 0 {
        strip_zeros(b.drop_first())
    } else {
        b
    }
}

proof fn lemma_strip_zeros(b: Seq<u8>)
    ensures
        is_minimal(strip_zeros(b)),
        be_value(strip_zeros(b)) == be_value(b),
    decreases b.len(),
{
    if b.len() > 0 && b[0] == 0 {
        lemma_strip_zeros(b.drop_first());
        assert(b =~= seq![0u8] + b.drop_first());
        lemma_be_value_prepend_zero(b.drop_first());
    }
}

/// The minimal big-endian form of the value of `b` (`BigUint::from_bytes_be`).
pub fn minimal_be(b: &[u8]) -> (r: Vec<u8>)
    ensures
        r@ == strip_zeros(b@),
        is_minimal(r@),
        be_value(r@) == be_value(b@),
{
    proof {
        lemma_strip_zeros(b@);
    }
    let mut i: usize = 0;
    assert(b@.skip(0) =~= b@);
    while i < b.len() && b[i] == 0
        invariant
            i <= b@.len(),
            strip_zeros(b@) == strip_zeros(b@.skip(i as int)),
        decreases b@.len() - i,
    {
        assert(b@.skip(i as int).drop_first() =~= b@.skip(i + 1));
        i = i + 1;
    }
    let tail = vstd::slice::slice_subrange(b, i, b.len());
    assert(tail@ =~= b@.skip(i as int));
    crate::bytes::to_vec(tail)
}

// ---------------------------------------------------------------------------
// The attestation key
// ---------------------------------------------------------------------------

/// An RSA public key, as the integers of its modulus and public exponent
/// (held in minimal big-endian form).
#[derive(Debug)]
pub struct RsaPubKey {
    n: Vec<u8>,
    e: Vec<u8>,
}

impl RsaPubKey {
    /// The modulus.
    pub closed spec fn modulus(&self) -> nat {
        be_value(self.n@)
    }

    /// The public exponent.
    pub closed spec fn exponent(&self) -> nat {
        be_value(self.e@)
    }

    #[verifier::type_invariant]
    closed spec fn minimal(&self) -> bool {
        is_minimal(self.n@) && is_minimal(self.e@)
    }

    /// The key with the given big-endian modulus and exponent.
    pub fn from_be_bytes(n: &[u8], e: &[u8]) -> (k: RsaPubKey)
        ensures
            k.modulus() == be_value(n@),
            k.exponent() == be_value(e@),
    {
        RsaPubKey { n: minimal_be(n), e: minimal_be(e) }
    }

    /// Whether two keys have the same modulus and exponent.
    pub fn same_key(&self, other: &RsaPubKey) -> (r: bool)
        ensures
            r == (self.modulus() == other.modulus() && self.exponent() == other.exponent()),
    {
        proof {
            use_type_invariant(self);
            use_type_invariant(other);
            if self.modulus() == other.modulus() {
                lemma_minimal_unique(self.n@, other.n@);
            }
            if self.exponent() == other.exponent() {
                lemma_minimal_unique(self.e@, other.e@);
            }
        }
        same_bytes(self.n.as_slice(), other.n.as_slice()) && same_bytes(
            self.e.as_slice(),
            other.e.as_slice(),
        )
    }
}

/// The URL-safe base64 (no padding) decoding of a string; `None` where the
/// `base64` crate rejects it.
pub uninterp spec fn base64url_decoded(s: Seq<char>) -> Option<Seq<u8>>;

/// `base64::engine::general_purpose::URL_SAFE_NO_PAD.decode`.
#[verifier::external_body]
fn base64url_decode(s: &str) -> (r: Result<Vec<u8>, base64::DecodeError>)
    ensures
        match r {
            Ok(v) => base64url_decoded(s@) == Some(v@),
            Err(_) => base64url_decoded(s@) is None,
        },
{
    base64::engine::general_purpose::URL_SAFE_NO_PAD.decode(s)
}

/// JSON Web Key, as the HCL runtime claims carry it.
#[derive(Debug)]
pub struct Jwk {
    pub kty: String,
    pub kid: String,
    pub n: Option<String>,
    pub e: Option<String>,
}

pub open spec fn opt_chars(o: Option<String>) -> Option<Seq<char>> {
    match o {
        Some(s) => Some(s@),
        None => None,
    }
}

/// Which error reading an RSA key from a JWK fails with, if any.
pub enum JwkFailure {
    NotRsa,
    Missing,
    Base64,
}

/// The modulus and exponent bytes a JWK describes, or why it describes none:
/// it must be an RSA key with both members, each URL-safe base64.
pub open spec fn jwk_rsa(kty: Seq<char>, n: Option<Seq<char>>, e: Option<Seq<char>>) -> Result<
    (Seq<u8>, Seq<u8>),
    JwkFailure,
> {
    if kty != "RSA"@ {
        Err(JwkFailure::NotRsa)
    } else {
        match n {
            None => Err(JwkFailure::Missing),
            Some(n) => match base64url_decoded(n) {
                None => Err(JwkFailure::Base64),
                Some(nb) => match e {
                    None => Err(JwkFailure::Missing),
                    Some(e) => match base64url_decoded(e) {
                        None => Err(JwkFailure::Base64),
                        Some(eb) => Ok((nb, eb)),
                    },
                },
            },
        }
    }
}

/// The error of `from_jwk` matches the failure.
pub open spec fn jwk_error_matches(e: MaaError, f: JwkFailure) -> bool {
    match f {
        JwkFailure::NotRsa => e is NotRsa,
        JwkFailure::Missing => e is JwkParse,
        JwkFailure::Base64 => e is Base64,
    }
}

impl RsaPubKey {
    /// The RSA key a JWK describes.
    pub fn from_jwk(jwk: &Jwk) -> (r: Result<RsaPubKey, MaaError>)
        ensures
            match jwk_rsa(jwk.kty@, opt_chars(jwk.n), opt_chars(jwk.e)) {
                Ok((n, e)) => r is Ok && r->Ok_0.modulus() == be_value(n) && r->Ok_0.exponent()
                    == be_value(e),
                Err(f) => r is Err && jwk_error_matches(r->Err_0, f),
            },
    {
        if !crate::text::str_eq(jwk.kty.as_str(), "RSA") {
            return Err(MaaError::NotRsa);
        }
        let n = match &jwk.n {
            Some(n) => n,
            None => {
                return Err(MaaError::JwkParse);
            },
        };
        let n_bytes = match base64url_decode(n.as_str()) {
            Ok(b) => b,
            Err(err) => {
                return Err(MaaError::Base64(err));
            },
        };
        let e = match &jwk.e {
            Some(e) => e,
            None => {
                return Err(MaaError::JwkParse);
            },
        };
        let e_bytes = match base64url_decode(e.as_str()) {
            Ok(b) => b,
            Err(err) => {
                return Err(MaaError::Base64(err));
            },
        };
        Ok(RsaPubKey::from_be_bytes(n_bytes.as_slice(), e_bytes.as_slice()))
    }
}

/// The RSA modulus and exponent of the subject public key of an X.509
/// certificate in DER: `None` where x509-parser cannot parse the
/// certificate, `Some(None)` where its key is not RSA.
pub uninterp spec fn x509_rsa_key(der: Seq<u8>) -> Option<Option<(Seq<u8>, Seq<u8>)>>;

/// `X509Certificate::from_der`, then `public_key().parsed()`, keeping the
/// modulus and exponent of an RSA key.
#[verifier::external_body]
fn certificate_rsa_key(der: &[u8]) -> (r: Option<Option<(Vec<u8>, Vec<u8>)>>)
    ensures
        match r {
            None => x509_rsa_key(der@) is None,
            Some(None) => x509_rsa_key(der@) == Some(None::<(Seq<u8>, Seq<u8>)>),
            Some(Some((n, e))) => x509_rsa_key(der@) == Some(Some((n@, e@))),
        },
{
    let (_, cert) = x509_parser::certificate::X509Certificate::from_der(der).ok()?;
    match cert.public_key().parsed() {
        Ok(x509_parser::public_key::PublicKey::RSA(k)) => {
            Some(Some((k.modulus.to_vec(), k.exponent.to_vec())))
        },
        _ => Some(None),
    }
}

impl RsaPubKey {
    /// The RSA key of a certificate (given in DER).
    pub fn from_certificate(der: &[u8]) -> (r: Result<RsaPubKey, MaaError>)
        ensures
            match x509_rsa_key(der@) {
                None => r == Err::<RsaPubKey, MaaError>(MaaError::X509),
                Some(None) => r == Err::<RsaPubKey, MaaError>(MaaError::NotRsa),
                Some(Some((n, e))) => r is Ok && r->Ok_0.modulus() == be_value(n)
                    && r->Ok_0.exponent() == be_value(e),
            },
    {
        match certificate_rsa_key(der) {
            None => Err(MaaError::X509),
            Some(None) => Err(MaaError::NotRsa),
            Some(Some((n, e))) => Ok(RsaPubKey::from_be_bytes(n.as_slice(), e.as_slice())),
        }
    }
}

/// The document a PEM text (given as its bytes) encodes, its label aside;
/// `None` where pem-rfc7468 rejects it under RFC 7468's strict grammar.
pub uninterp spec fn pem_document(pem: Seq<u8>) -> Option<Seq<u8>>;

/// `pem_rfc7468::decode_vec`, keeping the decoded document.
#[verifier::external_body]
fn pem_decode(pem: &[u8]) -> (r: Result<Vec<u8>, pem_rfc7468::Error>)
    ensures
        match r {
            Ok(der) => pem_document(pem@) == Some(der@),
            Err(_) => pem_document(pem@) is None,
        },
{
    pem_rfc7468::decode_vec(pem).map(|(_, der)| der)
}

/// How many bytes follow the X.509 certificate at the front of `der`;
/// `None` where x509-parser cannot parse one there.
pub uninterp spec fn x509_trailing_len(der: Seq<u8>) -> Option<nat>;

/// `X509Certificate::from_der`, keeping the length of what it leaves over
/// (a suffix of its input, so no longer than it).
#[verifier::external_body]
fn certificate_trailing_len(der: &[u8]) -> (r: Option<usize>)
    ensures
        match r {
            Some(n) => x509_trailing_len(der@) == Some(n as nat) && n <= der@.len(),
            None => x509_trailing_len(der@) is None,
        },
{
    let (rest, _) = x509_parser::certificate::X509Certificate::from_der(der).ok()?;
    Some(rest.len())
}

/// What the attestation key certificate's DER yields: the certificate
/// without trailing data, and its RSA modulus and exponent; or the error.
pub open spec fn spec_ak_certificate(der: Seq<u8>) -> Result<(Seq<u8>, (Seq<u8>, Seq<u8>)), MaaError> {
    match x509_trailing_len(der) {
        None => Err(MaaError::X509),
        Some(rest) => match x509_rsa_key(der) {
            None => Err(MaaError::X509),
            Some(None) => Err(MaaError::NotRsa),
            Some(Some(key)) => Ok((der.subrange(0, der.len() - rest), key)),
        },
    }
}

/// Reads the attestation key certificate: the RSA key it certifies, and the
/// certificate's DER with any trailing data stripped.
pub fn read_ak_certificate(pem: &str) -> (r: Result<(RsaPubKey, Vec<u8>), MaaError>)
    ensures
        match pem_document(encode_utf8(pem@)) {
            None => r is Err && r->Err_0 is Pem,
            Some(der) => match spec_ak_certificate(der) {
                Ok((leaf, (n, e))) => r is Ok && r->Ok_0.1@ == leaf && r->Ok_0.0.modulus()
                    == be_value(n) && r->Ok_0.0.exponent() == be_value(e),
                Err(err) => r == Err::<(RsaPubKey, Vec<u8>), MaaError>(err),
            },
        },
{
    let der = match pem_decode(pem.as_bytes()) {
        Ok(d) => d,
        Err(e) => {
            return Err(MaaError::Pem(e));
        },
    };
    let rest = match certificate_trailing_len(der.as_slice()) {
        Some(n) => n,
        None => {
            return Err(MaaError::X509);
        },
    };
    let key = match RsaPubKey::from_certificate(der.as_slice()) {
        Ok(k) => k,
        Err(e) => {
            return Err(e);
        },
    };
    let leaf = crate::bytes::to_vec(vstd::slice::slice_subrange(der.as_slice(), 0, der.len() - rest));
    Ok((key, leaf))
}

// ---------------------------------------------------------------------------
// HCL runtime claims
// ---------------------------------------------------------------------------

/// The HCL runtime claims (the JSON variable data of the HCL report).
#[derive(Debug)]
pub struct HclRuntimeClaims {
    pub keys: Vec<Jwk>,
    pub user_data: Option<String>,
}

/// The value of a hex digit (either case).
pub open spec fn hex_value(b: u8) -> Option<int> {
    if 0x30 <= b <= 0x39 {
        Some(b - 0x30)
    } else if 0x61 <= b <= 0x66 {
        Some(b - 0x61 + 10)
    } else if 0x41 <= b <= 0x46 {
        Some(b - 0x41 + 10)
    } else {
        None
    }
}

/// The bytes a hex string (given as its UTF-8 bytes) encodes: an even number
/// of hex digits, two per byte, high nibble first.
pub open spec fn hex_decoded(s: Seq<u8>) -> Option<Seq<u8>> {
    if s.len() % 2 != 0 {
        None
    } else if exists|i: int| 0 <= i < s.len() && #[trigger] hex_value(s[i]) is None {
        None
    } else {
        Some(
            Seq::new(
                (s.len() / 2) as nat,
                |i: int| (hex_value(s[2 * i])->0 * 16 + hex_value(s[2 * i + 1])->0) as u8,
            ),
        )
    }
}

/// `hex::decode`, which its documentation describes as decoding a hex
/// string of either case into raw bytes (and the source as rejecting an odd
/// length or any other character).
#[verifier::external_body]
fn hex_decode(s: &str) -> (r: Result<Vec<u8>, hex::FromHexError>)
    ensures
        match r {
            Ok(v) => hex_decoded(encode_utf8(s@)) == Some(v@),
            Err(_) => hex_decoded(encode_utf8(s@)) is None,
        },
{
    hex::decode(s)
}

/// Index of the first key with the given key id.
pub open spec fn first_kid(keys: Seq<Jwk>, kid: Seq<char>) -> Option<int>
    decreases keys.len(),
{
    if keys.len() == 0 {
        None
    } else {
        match first_kid(keys.drop_last(), kid) {
            Some(i) => Some(i),
            None => if keys.last().kid@ == kid {
                Some(keys.len() - 1)
            } else {
                None
            },
        }
    }
}

proof fn lemma_first_kid(keys: Seq<Jwk>, kid: Seq<char>)
    ensures
        match first_kid(keys, kid) {
            Some(i) => 0 <= i < keys.len() && keys[i].kid@ == kid && forall|j: int|
                0 <= j < i ==> keys[j].kid@ != kid,
            None => forall|j: int| 0 <= j < keys.len() ==> keys[j].kid@ != kid,
        },
    decreases keys.len(),
{
    if keys.len() > 0 {
        let init = keys.drop_last();
        lemma_first_kid(init, kid);
        assert(forall|j: int| 0 <= j < init.len() ==> init[j] == keys[j]);
    }
}

/// Finds the key with the given key id.
pub fn find_key<'a>(keys: &'a Vec<Jwk>, kid: &str) -> (r: Option<&'a Jwk>)
    ensures
        match first_kid(keys@, kid@) {
            Some(i) => r == Some(&keys@[i]),
            None => r is None,
        },
{
    let mut i: usize = 0;
    while i < keys.len()
        invariant
            i <= keys@.len(),
            forall|j: int| 0 <= j < i ==> keys@[j].kid@ != kid@,
        decreases keys@.len() - i,
    {
        if crate::text::str_eq(keys[i].kid.as_str(), kid) {
            proof {
                lemma_first_kid(keys@, kid@);
                let f = first_kid(keys@, kid@);
                if f is Some {
                    assert(f->0 == i);
                }
            }
            return Some(&keys[i]);
        }
        i = i + 1;
    }
    proof {
        lemma_first_kid(keys@, kid@);
    }
    None
}

/// What the claims yield: the attestation key's JWK and the 64 bytes of
/// user data, or the first thing missing.
pub enum ClaimsFailure {
    MissingAkPub,
    MissingUserData,
    BadHex,
    BadLength,
    Key(JwkFailure),
}

/// What the runtime claims yield: the `HCLAkPub` key's modulus and exponent
/// bytes and the hex-decoded user data (64 bytes), or why they do not.
pub open spec fn spec_claims(claims: HclRuntimeClaims) -> Result<((Seq<u8>, Seq<u8>), Seq<u8>), ClaimsFailure> {
    match first_kid(claims.keys@, "HCLAkPub"@) {
        None => Err(ClaimsFailure::MissingAkPub),
        Some(i) => match claims.user_data {
            None => Err(ClaimsFailure::MissingUserData),
            Some(u) => match hex_decoded(encode_utf8(u@)) {
                None => Err(ClaimsFailure::BadHex),
                Some(bytes) => if bytes.len() != 64 {
                    Err(ClaimsFailure::BadLength)
                } else {
                    let k = claims.keys@[i];
                    match jwk_rsa(k.kty@, opt_chars(k.n), opt_chars(k.e)) {
                        Err(f) => Err(ClaimsFailure::Key(f)),
                        Ok(key) => Ok((key, bytes)),
                    }
                },
            },
        },
    }
}

/// The error a claims failure is reported as.
pub open spec fn claims_error_matches(e: MaaError, f: ClaimsFailure) -> bool {
    match f {
        ClaimsFailure::MissingAkPub => e is ClaimsMissingHCLAkPub,
        ClaimsFailure::MissingUserData => e is ClaimsMissingUserData,
        ClaimsFailure::BadHex => e is Hex,
        ClaimsFailure::BadLength => e is ClaimsUserDataBadLength,
        ClaimsFailure::Key(k) => jwk_error_matches(e, k),
    }
}

/// Reads the attestation key and the user data from the HCL runtime claims.
pub fn read_claims(claims: &HclRuntimeClaims) -> (r: Result<(RsaPubKey, [u8; 64]), MaaError>)
    ensures
        match spec_claims(*claims) {
            Ok(((n, e), user_data)) => r is Ok && r->Ok_0.0.modulus() == be_value(n)
                && r->Ok_0.0.exponent() == be_value(e) && r->Ok_0.1@ == user_data,
            Err(f) => r is Err && claims_error_matches(r->Err_0, f),
        },
{
    let ak_jwk = match find_key(&claims.keys, "HCLAkPub") {
        Some(k) => k,
        None => {
            return Err(MaaError::ClaimsMissingHCLAkPub);
        },
    };
    let user_data = match &claims.user_data {
        Some(u) => u,
        None => {
            return Err(MaaError::ClaimsMissingUserData);
        },
    };
    let bytes = match hex_decode(user_data.as_str()) {
        Ok(b) => b,
        Err(err) => {
            return Err(MaaError::Hex(err));
        },
    };
    if bytes.len() != 64 {
        return Err(MaaError::ClaimsUserDataBadLength);
    }
    let user_data_input: [u8; 64] = crate::bytes::to_array(bytes.as_slice());
    let key = match RsaPubKey::from_jwk(ak_jwk) {
        Ok(k) => k,
        Err(err) => {
            return Err(err);
        },
    };
    Ok((key, user_data_input))
}

/// Checks that the TD report binds the HCL variable data, and that the
/// claims carry the expected user data.
pub fn check_report_binding(
    var_data_hash: &[u8; 32],
    report_data: &[u8; 64],
    user_data_input: &[u8; 64],
    expected_input_data: &[u8; 64],
) -> (r: Result<(), MaaError>)
    ensures
        var_data_hash@ != report_data@.subrange(0, 32) ==> r is Err && r->Err_0 is TdReportInputMismatch,
        var_data_hash@ == report_data@.subrange(0, 32) && user_data_input@ != expected_input_data@
            ==> r is Err && r->Err_0 is ClaimsUserDataInputMismatch,
        var_data_hash@ == report_data@.subrange(0, 32) && user_data_input@ == expected_input_data@
            ==> r is Ok,
{
    let head = vstd::slice::slice_subrange(report_data.as_slice(), 0, 32);
    if !same_bytes(var_data_hash, head) {
        return Err(MaaError::TdReportInputMismatch);
    }
    if !same_bytes(user_data_input, expected_input_data) {
        return Err(MaaError::ClaimsUserDataInputMismatch);
    }
    Ok(())
}

/// Checks that the attestation key in the claims is the one the HCL report
/// carries and the one the AK certificate certifies.
pub fn check_ak_agreement(from_claims: &RsaPubKey, from_hcl: &RsaPubKey, from_certificate: &RsaPubKey) -> (r:
    Result<(), MaaError>)
    ensures
        !(from_claims.modulus() == from_hcl.modulus() && from_claims.exponent()
            == from_hcl.exponent()) ==> r is Err && r->Err_0 is AkFromClaimsNotEqualAkFromHcl,
        (from_claims.modulus() == from_hcl.modulus() && from_claims.exponent()
            == from_hcl.exponent()) && !(from_claims.modulus() == from_certificate.modulus()
            && from_claims.exponent() == from_certificate.exponent()) ==> r is Err && r->Err_0
            is AkFromClaimsNotEqualAkFromCertificate,
        (from_claims.modulus() == from_hcl.modulus() && from_claims.exponent()
            == from_hcl.exponent()) && (from_claims.modulus() == from_certificate.modulus()
            && from_claims.exponent() == from_certificate.exponent()) ==> r is Ok,
{
    if !from_claims.same_key(from_hcl) {
        return Err(MaaError::AkFromClaimsNotEqualAkFromHcl);
    }
    if !from_claims.same_key(from_certificate) {
        return Err(MaaError::AkFromClaimsNotEqualAkFromCertificate);
    }
    Ok(())
}

/// The report data the TDX quote must carry for an HCL report: the SHA-256
/// of the HCL variable data, then zeros.
pub fn expected_tdx_input_data(var_data_hash: &[u8; 32]) -> (d: [u8; 64])
    ensures
        d@ == var_data_hash@ + Seq::new(32, |i: int| 0u8),
{
    let mut d = [0u8; 64];
    let mut i: usize = 0;
    while i < 32
        invariant
            i <= 32,
            forall|j: int| 0 <= j < i ==> d@[j] == var_data_hash@[j],
            forall|j: int| 32 <= j < 64 ==> d@[j] == 0,
        decreases 32 - i,
    {
        d[i] = var_data_hash[i];
        i = i + 1;
    }
    assert(d@ =~= var_data_hash@ + Seq::new(32, |i: int| 0u8));
    d
}

/// Two keys with the same modulus and exponent.
pub open spec fn same_rsa(k: RsaPubKey, n: nat, e: nat) -> bool {
    k.modulus() == n && k.exponent() == e
}

/// The checks that follow the TDX quote of an Azure attestation, in order:
/// the runtime claims are read; the TD report must carry the hash of the
/// HCL variable data and the claims the expected user data; the vTPM quote
/// must verify (`vtpm_quote_verified`, decided by the caller); the AK
/// certificate must decode; and the key in the claims must be the HCL's
/// attestation key (`hcl_ak`) and the one the certificate certifies. On
/// success, the certificate's DER without trailing data, which is then
/// checked against the Azure roots.
pub fn finish_azure_checks(
    hcl_ak: &RsaPubKey,
    claims: &HclRuntimeClaims,
    var_data_hash: &[u8; 32],
    report_data: &[u8; 64],
    vtpm_quote_verified: bool,
    ak_certificate_pem: &str,
) -> (r: Result<Vec<u8>, MaaError>)
    ensures
        match spec_claims(*claims) {
            Err(f) => r is Err && claims_error_matches(r->Err_0, f),
            Ok(((n, e), user_data)) => if var_data_hash@ != report_data@.subrange(0, 32) {
                r is Err && r->Err_0 is TdReportInputMismatch
            } else if user_data != var_data_hash@ + Seq::new(32, |i: int| 0u8) {
                r is Err && r->Err_0 is ClaimsUserDataInputMismatch
            } else if !vtpm_quote_verified {
                r is Err && r->Err_0 is VtpmQuote
            } else {
                match pem_document(encode_utf8(ak_certificate_pem@)) {
                    None => r is Err && r->Err_0 is Pem,
                    Some(der) => match spec_ak_certificate(der) {
                        Err(err) => r == Err::<Vec<u8>, MaaError>(err),
                        Ok((leaf, (cn, ce))) => if !same_rsa(*hcl_ak, be_value(n), be_value(e)) {
                            r is Err && r->Err_0 is AkFromClaimsNotEqualAkFromHcl
                        } else if !(be_value(n) == be_value(cn) && be_value(e) == be_value(ce)) {
                            r is Err && r->Err_0 is AkFromClaimsNotEqualAkFromCertificate
                        } else {
                            r is Ok && r->Ok_0@ == leaf
                        },
                    },
                }
            },
        },
{
    let (ak_from_claims, user_data_input) = match read_claims(claims) {
        Ok(v) => v,
        Err(e) => {
            return Err(e);
        },
    };
    let expected_input_data = expected_tdx_input_data(var_data_hash);
    match check_report_binding(var_data_hash, report_data, &user_data_input, &expected_input_data) {
        Ok(()) => {},
        Err(e) => {
            return Err(e);
        },
    }
    if !vtpm_quote_verified {
        return Err(MaaError::VtpmQuote);
    }
    let (ak_from_certificate, leaf) = match read_ak_certificate(ak_certificate_pem) {
        Ok(v) => v,
        Err(e) => {
            return Err(e);
        },
    };
    match check_ak_agreement(&ak_from_claims, hcl_ak, &ak_from_certificate) {
        Ok(()) => {},
        Err(e) => {
            return Err(e);
        },
    }
    Ok(leaf)
}

} // verus!
