//! Batch runner: the per-patient computation over every ledger.
//!
//! Each patient is computed independently — no state is shared between
//! patients, so a host may also fan the per-ledger calls out to parallel
//! workers; for fixed input the gathered results are identical either way.
//! A failing patient yields its own error entry and never disturbs the
//! other patients' results.
use vstd::prelude::*;
use crate::adherence::{calculate_pdc, violation_of, AdherenceResult};
use crate::errors::InvariantViolation;
use crate::ledger::PatientLedger;

verus! {

/// Computes adherence for all patients, one result per ledger, in ledger
/// order.
#[verifier::loop_isolation(false)]
pub fn compute_batch(ledgers: &Vec<PatientLedger>) -> (results: Vec<
    Result<AdherenceResult, InvariantViolation>,
>)
    ensures
        results@.len() == ledgers@.len(),
        forall|k: int| 0 <= k < ledgers@.len() ==> ((#[trigger] results@[k]) is Ok
            <==> ledgers@[k].computable()),
        forall|k: int| 0 <= k < ledgers@.len() ==> ((#[trigger] results@[k]) matches Ok(res)
            ==> res.matches(ledgers@[k])),
        forall|k: int| 0 <= k < ledgers@.len() ==> ((#[trigger] results@[k]) matches Err(e)
            ==> e.patient_id@ == ledgers@[k].patient_id@ && Some(e.kind) == violation_of(
            ledgers@[k],
        )),
{
    let mut results: Vec<Result<AdherenceResult, InvariantViolation>> = Vec::new();
    let mut k: usize = 0;
    while k < ledgers.len()
        invariant
            k <= ledgers@.len(),
            results@.len() == k,
            forall|m: int| 0 <= m < k ==> ((#[trigger] results@[m]) is Ok
                <==> ledgers@[m].computable()),
            forall|m: int| 0 <= m < k ==> ((#[trigger] results@[m]) matches Ok(res)
                ==> res.matches(ledgers@[m])),
            forall|m: int| 0 <= m < k ==> ((#[trigger] results@[m]) matches Err(e)
                ==> e.patient_id@ == ledgers@[m].patient_id@ && Some(e.kind) == violation_of(
                ledgers@[m],
            )),
        decreases ledgers@.len() - k,
    {
        results.push(calculate_pdc(&ledgers[k]));
        k += 1;
    }
    results
}

} // verus!
