# attest

Expected-measurement computation and evidence checking for TDX confidential
VMs (GCP, Azure and self-hosted), written in Verus: every function in `src/`
carries a contract that Verus proves, and the calls into outside crates
(`sha2`, `object`, `authenticode`, `tar`, `flate2`, `fatfs`, `x509-parser`,
`rsa`, `base64`, `hex`) go through small trusted wrappers whose contracts
are stated next to them.

Layout of `src/`:

- `uki` — unified kernel images: PE section table, per-section and
  Authenticode digests, the order systemd-stub measures sections in, and the
  `.raw` / `.tar.gz` disk images a UKI is shipped in.
- `ccel` — the CC event log: ACPI digests, SMBIOS hand-off and boot
  configuration measured into RTMR0.
- `register` — SHA-384 measurement registers and their replay.
- `dcap` — register reconstruction for DCAP platforms: TDVF metadata and MRTD
  (`tdvf`), the TD HOB template (`firmware`), Secure Boot variables, the GPT
  event, GCP and self-hosted RTMR0/RTMR1, RTMR2, and Google's firmware
  endorsements (`google`).
- `esp` — which EFI system partition images `fatfs` can be handed: the
  boot sector arithmetic fits in 32 bits and every cluster chain the lookup
  of `EFI/BOOT/BOOTX64.EFI` can follow stays inside the data region and ends.
- `platform` — platform detection and hardware metadata from values read off
  the system (DMI strings, block devices, SMBIOS records, `/proc/meminfo`).
- `verify` — which check applies to a piece of evidence, and the register
  comparisons that decide it.
- `azure` — the Azure attestation key and HCL runtime claims.
- `bytes`, `text`, `hash`, `order`, `types` — shared encodings and values.

`app/` is the command-line front end (file, system-table and network I/O);
`tests/` exercises the library on concrete inputs.

What is left out: generating quotes (`tdx_attest`, which needs TDX hardware),
validating DCAP quote signatures and TCB status (`dcap_qvl`, with its PCCS
client), and reading the Azure vTPM quote and HCL report (`az_tdx_vtpm`,
`tss_esapi`, `openssl`). Those crates bind to system libraries or devices
that a build here does not have; the library takes the registers and claims
they yield as plain values, and `verify` on the command line takes the
registers of a quote that was validated elsewhere.
