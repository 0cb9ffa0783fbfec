//! Verifier for Intel SGX DCAP quote v3 attestations against PCS v4 collateral.

pub mod clock;
pub mod corpus;
pub mod crl;
pub mod crypto;
pub mod error;
pub mod guarantees;
pub mod ledger;
pub mod marshal;
pub mod ordered;
pub mod pipeline;
pub mod pki;
pub mod platform;
pub mod policy;
pub mod rng;
pub mod standing;
pub mod sweep;
pub mod tcb;
pub mod text;
pub mod types;
pub mod verify;
pub mod x509;

pub use error::{ErrorCategory, VerifyError};
pub use platform::{pck_collateral_params, PckCa};
pub use policy::TcbPolicy;
pub use standing::TcbStanding;
pub use types::collateral::SgxCollateral;
pub use types::quote::{peek_mrenclave, peek_report_data, SgxQuote};
pub use types::report::{MREnclave, SgxReportBody};
pub use verify::{verify_remote_attestation, verify_remote_attestation_with_policy};
