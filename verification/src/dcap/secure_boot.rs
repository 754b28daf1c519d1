//! UEFI variable digests for EV_EFI_VARIABLE_DRIVER_CONFIG events.

use vstd::prelude::*;

use crate::bytes::{le_bytes_u64, push_bytes, push_u64_le};
use crate::hash::{sha384, sha384_of};
use crate::text::{encode_utf16, push_utf16_le, str_chars, utf16_le_bytes, utf16_units};

verus! {

pub const EFI_GLOBAL_VARIABLE_GUID: [u8; 16] = [
    0x61, 0xdf, 0xe4, 0x8b, 0xca, 0x93, 0xd2, 0x11, 0xaa, 0x0d, 0x00, 0xe0, 0x98, 0x03, 0x2b, 0x8c,
];

pub const EFI_IMAGE_SECURITY_DATABASE_GUID: [u8; 16] = [
    0xcb, 0xb2, 0x19, 0xd7, 0x3a, 0x3d, 0x96, 0x45, 0xa3, 0xbc, 0xda, 0xd0, 0x0e, 0x67, 0x65, 0x6f,
];

/// EFI_SIGNATURE_LIST holding one empty DER certificate: SignatureType
/// (EFI_CERT_X509_GUID), SignatureListSize 52, SignatureHeaderSize 0,
/// SignatureSize 24, SignatureOwner, then a minimum-length valid DER cert.
pub const EMPTY_DER_SIG_LIST: [u8; 52] = [
    0xa1, 0x59, 0xc0, 0xa5, 0xe4, 0x94, 0xa7, 0x4a, 0x87, 0xb5, 0xab, 0x15, 0x5c, 0x2b, 0xf0, 0x72,
    0x34, 0x00, 0x00, 0x00, 0x00, 0x00, 0x00, 0x00, 0x18, 0x00, 0x00, 0x00, 0xd2, 0xfa, 0x81, 0xd2,
    0x88, 0x8d, 0xa4, 0x47, 0x97, 0x92, 0x5b, 0xaa, 0x47, 0xbb, 0x1b, 0x89, 0x30, 0x82, 0x01, 0x0a,
    0x02, 0x82, 0x01, 0x01,
];

/// TCG UEFI_VARIABLE_DATA: the variable's GUID, the name length in UTF-16
/// units and the data length (both u64 LE), the UTF-16LE name, the data.
pub open spec fn uefi_variable_data(guid: Seq<u8>, name: Seq<char>, data: Seq<u8>) -> Seq<u8> {
    guid + le_bytes_u64(utf16_units(name).len() as u64) + le_bytes_u64(data.len() as u64)
        + utf16_le_bytes(utf16_units(name)) + data
}

/// SHA-384 of the UEFI variable data.
pub open spec fn variable_digest(guid: Seq<u8>, name: Seq<char>, data: Seq<u8>) -> Seq<u8> {
    sha384_of(uefi_variable_data(guid, name, data))
}

/// SecureBoot disabled.
pub open spec fn secureboot_off_digest() -> Seq<u8> {
    variable_digest(EFI_GLOBAL_VARIABLE_GUID@, "SecureBoot"@, seq![0u8])
}

/// An empty PK.
pub open spec fn pk_digest() -> Seq<u8> {
    variable_digest(EFI_GLOBAL_VARIABLE_GUID@, "PK"@, EMPTY_DER_SIG_LIST@)
}

/// An empty KEK.
pub open spec fn kek_digest() -> Seq<u8> {
    variable_digest(EFI_GLOBAL_VARIABLE_GUID@, "KEK"@, EMPTY_DER_SIG_LIST@)
}

/// An empty db.
pub open spec fn db_digest() -> Seq<u8> {
    variable_digest(EFI_IMAGE_SECURITY_DATABASE_GUID@, "db"@, EMPTY_DER_SIG_LIST@)
}

/// An empty dbx.
pub open spec fn dbx_digest() -> Seq<u8> {
    variable_digest(EFI_IMAGE_SECURITY_DATABASE_GUID@, "dbx"@, EMPTY_DER_SIG_LIST@)
}

/// SHA-384 of TCG UEFI_VARIABLE_DATA.
pub fn secure_boot_hash(guid: &[u8; 16], name: &str, data: &[u8]) -> (digest: [u8; 48])
    ensures
        digest@ == sha384_of(uefi_variable_data(guid@, name@, data@)),
{
    let chars = str_chars(name);
    let name_u16 = encode_utf16(chars.as_slice());
    let mut h: Vec<u8> = Vec::new();
    push_bytes(&mut h, guid.as_slice());  // VariableName (GUID)
    let mut lens: Vec<u8> = Vec::new();
    push_u64_le(&mut lens, name_u16.len() as u64);  // UnicodeNameLength (chars)
    push_u64_le(&mut lens, data.len() as u64);  // VariableDataLength (bytes)
    push_bytes(&mut h, lens.as_slice());
    let mut name_bytes: Vec<u8> = Vec::new();
    push_utf16_le(&mut name_bytes, name_u16.as_slice());  // UnicodeName (UCS-2 chars)
    push_bytes(&mut h, name_bytes.as_slice());
    push_bytes(&mut h, data);  // VariableData
    assert(h@ =~= uefi_variable_data(guid@, name@, data@));
    sha384(h.as_slice())
}

pub fn secureboot_off() -> (digest: [u8; 48])
    ensures
        digest@ == secureboot_off_digest(),
{
    let data: [u8; 1] = [0x00];
    assert(data@ =~= seq![0u8]);
    secure_boot_hash(&EFI_GLOBAL_VARIABLE_GUID, "SecureBoot", data.as_slice())
}

pub fn pk() -> (digest: [u8; 48])
    ensures
        digest@ == pk_digest(),
{
    secure_boot_hash(&EFI_GLOBAL_VARIABLE_GUID, "PK", EMPTY_DER_SIG_LIST.as_slice())
}

pub fn kek() -> (digest: [u8; 48])
    ensures
        digest@ == kek_digest(),
{
    secure_boot_hash(&EFI_GLOBAL_VARIABLE_GUID, "KEK", EMPTY_DER_SIG_LIST.as_slice())
}

pub fn db() -> (digest: [u8; 48])
    ensures
        digest@ == db_digest(),
{
    secure_boot_hash(&EFI_IMAGE_SECURITY_DATABASE_GUID, "db", EMPTY_DER_SIG_LIST.as_slice())
}

pub fn dbx() -> (digest: [u8; 48])
    ensures
        digest@ == dbx_digest(),
{
    secure_boot_hash(&EFI_IMAGE_SECURITY_DATABASE_GUID, "dbx", EMPTY_DER_SIG_LIST.as_slice())
}

} // verus!
