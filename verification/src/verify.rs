//! Checking attestation evidence against expected measurements, once the
//! quote itself has been validated: which check applies, and the register
//! comparisons that decide it.

use vstd::prelude::*;

use crate::dcap::firmware::{spec_from_blob, DcapFirmware};
use crate::dcap::google::GoogleError;
use crate::dcap::tdvf::footer_sound;
use crate::dcap::{expected_dcap_registers, spec_expected_registers, ExpectedDcapRegisters, ReconstructError};
use crate::types::{
    AttestationType, AzureRegisters, DcapImageHashes, DcapRegisters, PlatformMetadata,
};

verus! {

/// Image-dependent measurements that hold on every supported platform.
#[derive(Debug, Clone, Copy)]
pub struct PortableMeasurements {
    pub azure: Option<AzureRegisters>,
    pub dcap: DcapImageHashes,
}

/// An expected measurement set.
#[derive(Debug, Clone, Copy)]
pub enum MeasurementOutput {
    Portable(PortableMeasurements),
    Dcap(DcapRegisters),
    Azure(AzureRegisters),
}

/// The registers and report data of a DCAP quote whose signature chain and
/// TCB status have been validated.
#[derive(Debug, Clone, Copy)]
pub struct QuoteRegisters {
    pub mrtd: [u8; 48],
    pub rtmr0: [u8; 48],
    pub rtmr1: [u8; 48],
    pub rtmr2: [u8; 48],
    pub report_data: [u8; 64],
}

/// The PCRs and report data of a validated Azure vTPM attestation.
#[derive(Debug, Clone, Copy)]
pub struct VtpmRegisters {
    pub pcr4: [u8; 32],
    pub pcr9: [u8; 32],
    pub pcr11: [u8; 32],
    pub report_data: [u8; 64],
}

#[derive(Debug)]
pub enum VerifyError {
    PlatformMismatch,
    RegisterMismatch(Vec<&'static str>),
    MissingFirmware,
    IncompleteReconstruction(&'static str),
    AzureFeatureDisabled,
    Reconstruct(ReconstructError),
    Google(GoogleError),
}

/// Which check an expected measurement set calls for on evidence from a
/// given platform.
#[derive(Debug, Clone, Copy)]
pub enum Check {
    /// Azure vTPM PCRs.
    Azure(AzureRegisters),
    /// DCAP registers rebuilt from portable image hashes and the platform
    /// metadata.
    PortableDcap(DcapImageHashes),
    /// DCAP registers given outright.
    Dcap(DcapRegisters),
}

pub open spec fn is_dcap_platform(t: AttestationType) -> bool {
    t == AttestationType::GcpTdx || t == AttestationType::SelfHostedTdx
}

/// The check for `expected` on evidence from platform `t`, where `azure`
/// says whether Azure verification is built in.
pub open spec fn spec_check(expected: MeasurementOutput, t: AttestationType, azure: bool) -> Result<
    Check,
    VerifyError,
> {
    if !azure && (expected is Azure || t == AttestationType::AzureTdx) {
        Err(VerifyError::AzureFeatureDisabled)
    } else {
        match expected {
            MeasurementOutput::Portable(p) => if t == AttestationType::AzureTdx {
                match p.azure {
                    Some(a) => Ok(Check::Azure(a)),
                    None => Err(VerifyError::PlatformMismatch),
                }
            } else {
                Ok(Check::PortableDcap(p.dcap))
            },
            MeasurementOutput::Dcap(d) => if is_dcap_platform(t) {
                Ok(Check::Dcap(d))
            } else {
                Err(VerifyError::PlatformMismatch)
            },
            MeasurementOutput::Azure(a) => if t == AttestationType::AzureTdx {
                Ok(Check::Azure(a))
            } else {
                Err(VerifyError::PlatformMismatch)
            },
        }
    }
}

/// Chooses the check for `expected` on evidence from platform `t`.
pub fn select_check(expected: &MeasurementOutput, t: AttestationType, azure: bool) -> (r: Result<
    Check,
    VerifyError,
>)
    ensures
        r == spec_check(*expected, t, azure),
        azure ==> match *expected {
            MeasurementOutput::Azure(a) => t == AttestationType::AzureTdx ==> r == Ok::<
                Check,
                VerifyError,
            >(Check::Azure(a)),
            MeasurementOutput::Dcap(d) => t != AttestationType::AzureTdx ==> r == Ok::<
                Check,
                VerifyError,
            >(Check::Dcap(d)),
            MeasurementOutput::Portable(p) => t != AttestationType::AzureTdx ==> r == Ok::<
                Check,
                VerifyError,
            >(Check::PortableDcap(p.dcap)),
        },
{
    let is_azure_platform = match t {
        AttestationType::AzureTdx => true,
        _ => false,
    };
    let expects_azure = match expected {
        MeasurementOutput::Azure(_) => true,
        _ => false,
    };
    if !azure && (expects_azure || is_azure_platform) {
        return Err(VerifyError::AzureFeatureDisabled);
    }
    match expected {
        MeasurementOutput::Portable(p) => {
            if is_azure_platform {
                match p.azure {
                    Some(a) => Ok(Check::Azure(a)),
                    None => Err(VerifyError::PlatformMismatch),
                }
            } else {
                Ok(Check::PortableDcap(p.dcap))
            }
        },
        MeasurementOutput::Dcap(d) => {
            if is_azure_platform {
                Err(VerifyError::PlatformMismatch)
            } else {
                Ok(Check::Dcap(*d))
            }
        },
        MeasurementOutput::Azure(a) => {
            if is_azure_platform {
                Ok(Check::Azure(*a))
            } else {
                Err(VerifyError::PlatformMismatch)
            }
        },
    }
}

/// Byte-wise equality of two register values.
pub fn same_bytes(a: &[u8], b: &[u8]) -> (r: bool)
    ensures
        r == (a@ == b@),
{
    if a.len() != b.len() {
        return false;
    }
    let mut i: usize = 0;
    while i < a.len()
        invariant
            i <= a@.len(),
            a@.len() == b@.len(),
            forall|j: int| 0 <= j < i ==> a@[j] == b@[j],
        decreases a@.len() - i,
    {
        if a[i] != b[i] {
            return false;
        }
        i = i + 1;
    }
    assert(a@ =~= b@);
    true
}

/// `names`, then `name` where the two values differ.
pub open spec fn note(names: Seq<&'static str>, name: &'static str, actual: Seq<u8>, expected: Seq<u8>) -> Seq<
    &'static str,
> {
    if actual == expected {
        names
    } else {
        names.push(name)
    }
}

/// The registers that differ from the expected ones, in the order MRTD,
/// RTMR0, RTMR1, RTMR2.
pub open spec fn portable_mismatches(
    raw: QuoteRegisters,
    mrtd: Seq<u8>,
    rtmr0: Seq<u8>,
    rtmr1: Seq<u8>,
    rtmr2: Seq<u8>,
) -> Seq<&'static str> {
    note(
        note(note(note(Seq::empty(), "MRTD", raw.mrtd@, mrtd), "RTMR0", raw.rtmr0@, rtmr0), "RTMR1",
            raw.rtmr1@, rtmr1),
        "RTMR2",
        raw.rtmr2@,
        rtmr2,
    )
}

/// `r` reports exactly the registers `names` as mismatched.
pub open spec fn reports_mismatches(r: Result<[u8; 64], VerifyError>, names: Seq<&'static str>) -> bool {
    match r {
        Err(VerifyError::RegisterMismatch(v)) => v@ == names,
        _ => false,
    }
}

/// The outcome of comparing a validated quote with reconstructed registers
/// `(mrtd, rtmr0, rtmr1, rtmr2)`: MRTD and RTMR0 must have been rebuilt,
/// and then the quote passes, with its report data, exactly when no register
/// differs.
pub open spec fn portable_result(
    r: Result<[u8; 64], VerifyError>,
    raw: QuoteRegisters,
    regs: (Option<Seq<u8>>, Option<Seq<u8>>, Seq<u8>, Seq<u8>),
) -> bool {
    match regs.0 {
        None => r == Err::<[u8; 64], VerifyError>(VerifyError::IncompleteReconstruction("MRTD")),
        Some(mrtd) => match regs.1 {
            None => r == Err::<[u8; 64], VerifyError>(
                VerifyError::IncompleteReconstruction("RTMR0"),
            ),
            Some(rtmr0) => {
                let m = portable_mismatches(raw, mrtd, rtmr0, regs.2, regs.3);
                if m.len() == 0 {
                    r == Ok::<[u8; 64], VerifyError>(raw.report_data)
                } else {
                    reports_mismatches(r, m)
                }
            },
        },
    }
}

fn push_if_differs(names: &mut Vec<&'static str>, name: &'static str, actual: &[u8], expected: &[u8])
    ensures
        final(names)@ == note(old(names)@, name, actual@, expected@),
{
    if !same_bytes(actual, expected) {
        names.push(name);
    }
}

/// Compares a validated quote with registers rebuilt from portable image
/// hashes: all four must be complete and equal; the report data is
/// returned on success.
pub fn compare_portable(raw: &QuoteRegisters, expected: &ExpectedDcapRegisters) -> (r: Result<
    [u8; 64],
    VerifyError,
>)
    ensures
        portable_result(r, *raw, expected.view_tuple()),
{
    let mrtd = match expected.mrtd {
        Some(m) => m,
        None => {
            return Err(VerifyError::IncompleteReconstruction("MRTD"));
        },
    };
    let rtmr0 = match expected.rtmr0 {
        Some(m) => m,
        None => {
            return Err(VerifyError::IncompleteReconstruction("RTMR0"));
        },
    };
    let mut mismatches: Vec<&'static str> = Vec::new();
    push_if_differs(&mut mismatches, "MRTD", &raw.mrtd, &mrtd);
    push_if_differs(&mut mismatches, "RTMR0", &raw.rtmr0, &rtmr0);
    push_if_differs(&mut mismatches, "RTMR1", &raw.rtmr1, &expected.rtmr1);
    push_if_differs(&mut mismatches, "RTMR2", &raw.rtmr2, &expected.rtmr2);
    if mismatches.len() > 0 {
        return Err(VerifyError::RegisterMismatch(mismatches));
    }
    Ok(raw.report_data)
}

/// The registers that differ from an expected DCAP set: RTMR1, RTMR2.
pub open spec fn dcap_mismatches(raw: QuoteRegisters, expected: DcapRegisters) -> Seq<&'static str> {
    note(note(Seq::empty(), "RTMR1", raw.rtmr1@, expected.rtmr1@), "RTMR2", raw.rtmr2@, expected.rtmr2@)
}

/// Compares a validated quote with expected DCAP registers.
pub fn compare_dcap(raw: &QuoteRegisters, expected: &DcapRegisters) -> (r: Result<[u8; 64], VerifyError>)
    ensures
        dcap_mismatches(*raw, *expected).len() == 0 ==> r == Ok::<[u8; 64], VerifyError>(
            raw.report_data,
        ),
        dcap_mismatches(*raw, *expected).len() > 0 ==> reports_mismatches(
            r,
            dcap_mismatches(*raw, *expected),
        ),
{
    let mut mismatches: Vec<&'static str> = Vec::new();
    push_if_differs(&mut mismatches, "RTMR1", &raw.rtmr1, &expected.rtmr1);
    push_if_differs(&mut mismatches, "RTMR2", &raw.rtmr2, &expected.rtmr2);
    if mismatches.len() > 0 {
        return Err(VerifyError::RegisterMismatch(mismatches));
    }
    Ok(raw.report_data)
}

/// The PCRs that differ from an expected Azure set: PCR4, PCR9, PCR11.
pub open spec fn azure_mismatches(raw: VtpmRegisters, expected: AzureRegisters) -> Seq<&'static str> {
    note(
        note(note(Seq::empty(), "PCR4", raw.pcr4@, expected.pcr4@), "PCR9", raw.pcr9@, expected.pcr9@),
        "PCR11",
        raw.pcr11@,
        expected.pcr11@,
    )
}

/// Compares a validated Azure attestation with expected PCRs.
pub fn compare_azure(raw: &VtpmRegisters, expected: &AzureRegisters) -> (r: Result<[u8; 64], VerifyError>)
    ensures
        azure_mismatches(*raw, *expected).len() == 0 ==> r == Ok::<[u8; 64], VerifyError>(
            raw.report_data,
        ),
        azure_mismatches(*raw, *expected).len() > 0 ==> reports_mismatches(
            r,
            azure_mismatches(*raw, *expected),
        ),
{
    let mut mismatches: Vec<&'static str> = Vec::new();
    push_if_differs(&mut mismatches, "PCR4", &raw.pcr4, &expected.pcr4);
    push_if_differs(&mut mismatches, "PCR9", &raw.pcr9, &expected.pcr9);
    push_if_differs(&mut mismatches, "PCR11", &raw.pcr11, &expected.pcr11);
    if mismatches.len() > 0 {
        return Err(VerifyError::RegisterMismatch(mismatches));
    }
    Ok(raw.report_data)
}


/// A quote passes the portable check exactly when all four registers equal
/// the reconstructed ones, and each register that differs is reported.
pub proof fn law_portable_passes_iff_match(
    raw: QuoteRegisters,
    mrtd: Seq<u8>,
    rtmr0: Seq<u8>,
    rtmr1: Seq<u8>,
    rtmr2: Seq<u8>,
)
    ensures
        portable_mismatches(raw, mrtd, rtmr0, rtmr1, rtmr2).len() == 0 <==> (raw.mrtd@ == mrtd
            && raw.rtmr0@ == rtmr0 && raw.rtmr1@ == rtmr1 && raw.rtmr2@ == rtmr2),
        portable_mismatches(raw, mrtd, rtmr0, rtmr1, rtmr2).len() == (if raw.mrtd@ == mrtd {
            0int
        } else {
            1int
        }) + (if raw.rtmr0@ == rtmr0 {
            0int
        } else {
            1int
        }) + (if raw.rtmr1@ == rtmr1 {
            0int
        } else {
            1int
        }) + (if raw.rtmr2@ == rtmr2 {
            0int
        } else {
            1int
        }),
{
}

/// A quote passes the DCAP check exactly when RTMR1 and RTMR2 equal the
/// expected ones.
pub proof fn law_dcap_passes_iff_match(raw: QuoteRegisters, expected: DcapRegisters)
    ensures
        dcap_mismatches(raw, expected).len() == 0 <==> (raw.rtmr1@ == expected.rtmr1@ && raw.rtmr2@
            == expected.rtmr2@),
{
}

/// An Azure attestation passes exactly when PCR4, PCR9 and PCR11 equal the
/// expected ones.
pub proof fn law_azure_passes_iff_match(raw: VtpmRegisters, expected: AzureRegisters)
    ensures
        azure_mismatches(raw, expected).len() == 0 <==> (raw.pcr4@ == expected.pcr4@ && raw.pcr9@
            == expected.pcr9@ && raw.pcr11@ == expected.pcr11@),
{
}

/// With Azure support built in, measurements meet evidence of their own
/// platform: Azure measurements on Azure evidence select the Azure check,
/// DCAP registers on GCP or self-hosted evidence the DCAP check, portable
/// measurements on a DCAP platform the portable check, and on Azure the
/// Azure PCRs they carry; every other pairing is a platform mismatch.
pub proof fn law_check_selection(expected: MeasurementOutput, t: AttestationType)
    ensures
        spec_check(expected, t, true) == match expected {
            MeasurementOutput::Azure(a) => if t == AttestationType::AzureTdx {
                Ok::<Check, VerifyError>(Check::Azure(a))
            } else {
                Err(VerifyError::PlatformMismatch)
            },
            MeasurementOutput::Dcap(d) => if t == AttestationType::AzureTdx {
                Err(VerifyError::PlatformMismatch)
            } else {
                Ok(Check::Dcap(d))
            },
            MeasurementOutput::Portable(p) => if t == AttestationType::AzureTdx {
                match p.azure {
                    Some(a) => Ok(Check::Azure(a)),
                    None => Err(VerifyError::PlatformMismatch),
                }
            } else {
                Ok(Check::PortableDcap(p.dcap))
            },
        },
        spec_check(expected, t, false) is Err <==> (expected is Azure || t
            == AttestationType::AzureTdx || (expected is Dcap && !is_dcap_platform(t))),
{
}

/// Evidence is only ever checked against measurements for its own platform:
/// DCAP registers never for Azure evidence, Azure PCRs only for it.
pub proof fn law_check_matches_platform(expected: MeasurementOutput, t: AttestationType, azure: bool)
    ensures
        spec_check(expected, t, azure) matches Ok(Check::Azure(_)) ==> t == AttestationType::AzureTdx,
        spec_check(expected, t, azure) matches Ok(Check::Dcap(_)) ==> is_dcap_platform(t),
        spec_check(expected, t, azure) matches Ok(Check::PortableDcap(_)) ==> is_dcap_platform(t),
{
}

/// What the portable check gives for a firmware: the reconstruction's
/// error, or the comparison of the quote with the rebuilt registers.
pub open spec fn portable_outcome(
    r: Result<[u8; 64], VerifyError>,
    image: DcapImageHashes,
    platform: PlatformMetadata,
    firmware: DcapFirmware,
    raw: QuoteRegisters,
) -> bool {
    match spec_expected_registers(image, platform, Some(firmware)) {
        Err(e) => r == Err::<[u8; 64], VerifyError>(VerifyError::Reconstruct(e)),
        Ok(regs) => portable_result(r, raw, regs),
    }
}

/// Checks a validated quote against the DCAP registers rebuilt from
/// portable image hashes, the platform metadata and the firmware; Azure
/// evidence is refused as a platform mismatch.
pub fn check_portable_dcap(
    image: &DcapImageHashes,
    platform: &PlatformMetadata,
    firmware: &DcapFirmware,
    raw: &QuoteRegisters,
) -> (r: Result<[u8; 64], VerifyError>)
    requires
        firmware.hob.well_formed(),
    ensures
        platform.attestation_type is AzureTdx ==> r == Err::<[u8; 64], VerifyError>(
            VerifyError::PlatformMismatch,
        ),
        !(platform.attestation_type is AzureTdx) ==> portable_outcome(
            r,
            *image,
            *platform,
            *firmware,
            *raw,
        ),
{
    if let AttestationType::AzureTdx = platform.attestation_type {
        return Err(VerifyError::PlatformMismatch);
    }
    let expected = match expected_dcap_registers(image, platform, Some(firmware)) {
        Ok(e) => e,
        Err(e) => {
            return Err(VerifyError::Reconstruct(e));
        },
    };
    compare_portable(raw, &expected)
}

/// The firmware a self-hosted platform's registers are rebuilt from: the
/// blob the verifier was given.
pub fn self_hosted_firmware(blob: Option<&[u8]>) -> (r: Result<DcapFirmware, VerifyError>)
    requires
        blob matches Some(b) ==> footer_sound(b@),
    ensures
        match blob {
            None => r == Err::<DcapFirmware, VerifyError>(VerifyError::MissingFirmware),
            Some(b) => match spec_from_blob(b@, false) {
                Ok(v) => r is Ok && r->Ok_0.view_tuple() == v && r->Ok_0.hob.well_formed(),
                Err(e) => r == Err::<DcapFirmware, VerifyError>(
                    VerifyError::Reconstruct(ReconstructError::Firmware(e)),
                ),
            },
        },
{
    let b = match blob {
        Some(b) => b,
        None => {
            return Err(VerifyError::MissingFirmware);
        },
    };
    match DcapFirmware::from_blob(b, false) {
        Ok(f) => Ok(f),
        Err(e) => Err(VerifyError::Reconstruct(ReconstructError::Firmware(e))),
    }
}

/// The portable DCAP check, with the firmware each platform takes: on GCP
/// the firmware Google endorses for the quote's MRTD (`google`, fetched by
/// the caller), on a self-hosted platform the blob the verifier was given,
/// and no check at all for Azure evidence.
pub fn verify_portable_dcap(
    image: &DcapImageHashes,
    platform: &PlatformMetadata,
    firmware_blob: Option<&[u8]>,
    google: Option<Result<DcapFirmware, GoogleError>>,
    raw: &QuoteRegisters,
) -> (r: Result<[u8; 64], VerifyError>)
    requires
        platform.attestation_type is GcpTdx ==> google is Some,
        google matches Some(Ok(f)) ==> f.hob.well_formed(),
        platform.attestation_type is SelfHostedTdx && firmware_blob is Some ==> footer_sound(
            firmware_blob->0@,
        ),
    ensures
        match platform.attestation_type {
            AttestationType::AzureTdx => r == Err::<[u8; 64], VerifyError>(
                VerifyError::PlatformMismatch,
            ),
            AttestationType::GcpTdx => match google {
                Some(Err(e)) => r == Err::<[u8; 64], VerifyError>(VerifyError::Google(e)),
                Some(Ok(f)) => portable_outcome(r, *image, *platform, f, *raw),
                None => false,
            },
            AttestationType::SelfHostedTdx => match firmware_blob {
                None => r == Err::<[u8; 64], VerifyError>(VerifyError::MissingFirmware),
                Some(b) => match spec_from_blob(b@, false) {
                    Err(e) => r == Err::<[u8; 64], VerifyError>(
                        VerifyError::Reconstruct(ReconstructError::Firmware(e)),
                    ),
                    Ok(v) => exists|f: DcapFirmware|
                        f.view_tuple() == v && f.hob.well_formed() && #[trigger] portable_outcome(
                            r,
                            *image,
                            *platform,
                            f,
                            *raw,
                        ),
                },
            },
        },
{
    match platform.attestation_type {
        AttestationType::AzureTdx => Err(VerifyError::PlatformMismatch),
        AttestationType::GcpTdx => match google {
            Some(Ok(f)) => check_portable_dcap(image, platform, &f, raw),
            Some(Err(e)) => Err(VerifyError::Google(e)),
            None => Err(VerifyError::MissingFirmware),
        },
        AttestationType::SelfHostedTdx => {
            let f = match self_hosted_firmware(firmware_blob) {
                Ok(f) => f,
                Err(e) => {
                    return Err(e);
                },
            };
            let r = check_portable_dcap(image, platform, &f, raw);
            assert(portable_outcome(r, *image, *platform, f, *raw));
            r
        },
    }
}

} // verus!
