//! Local attestation of the quoting enclave's report.
//!
//! Between MSG2 and MSG3 the client hands the enclave the QE's report
//! on its own report. The report's keyed MAC can only be recomputed
//! with the platform report key, which the CPU releases inside the
//! enclave (EGETKEY); that step belongs to the enclave runtime. What
//! can be checked anywhere — and is checked here — is the report's
//! shape.

use vstd::prelude::*;

use crate::error::LocalAttestationError;

verus! {

/// The size of an SGX report as exchanged between enclaves.
pub const REPORT_LEN: usize = 432;

/// A report must be exactly one report long before anything else is
/// done with it.
pub fn verify_report_shape(report: &[u8]) -> (r: Result<(), LocalAttestationError>)
    ensures
        r is Ok <==> report@.len() == 432,
        r is Err ==> r == Err::<(), LocalAttestationError>(
            LocalAttestationError::IncorrectReportLength,
        ),
{
    if report.len() == 432 {
        Ok(())
    } else {
        Err(LocalAttestationError::IncorrectReportLength)
    }
}

} // verus!
