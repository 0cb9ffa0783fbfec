# dcap-verify

A verifier for Intel SGX DCAP quote v3 attestations against Intel PCS v4 collateral. The caller
supplies the quote bytes and the collateral documents; the library returns the platform's TCB
standing and the report body, or the category of the rejection. What it returns is stated in
contracts and proved by Verus.

## Layout

| Path | What it is |
|---|---|
| `src/verify.rs` | the verification pipeline, with and without a caller's policy |
| `src/guarantees.rs` | what holds whenever a quote is accepted, and when it is accepted |
| `src/types/` | quotes, report bodies and collateral documents |
| `src/pki.rs`, `src/crl.rs`, `src/platform.rs` | certificate chains, revocation, the PCK certificate's platform data |
| `src/tcb.rs`, `src/standing.rs`, `src/policy.rs` | TCB levels, the QE identity, standings and policies |
| `src/x509.rs`, `src/crypto.rs`, `src/clock.rs` | what the library has from outside: X.509, PEM and DER decoding, P-256, SHA-256, hex, the system time |
| `src/pipeline.rs`, `src/marshal.rs` | comparing the verifier with Intel's QVL |
| `src/rng.rs`, `src/sweep.rs`, `src/ledger.rs`, `src/corpus.rs` | mutation sweeps and corpus runs, and what they count |
| `app/` | the differential-testing program: files, JSON, Intel's QVL |

## Trust model

The only trust anchor is Intel's SGX Root CA public key, a constant in `src/pki.rs`.
`verify_remote_attestation` anchors every chain there; `verify_at` and `verify_at_with_policy` take
the anchor and the time as arguments.

The contracts of functions marked as having an external body are not proved: each states what its
doc comment says of the outside function that it calls.
