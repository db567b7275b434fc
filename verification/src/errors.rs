//! Error values: rejection of a record at ingestion, contract breaches
//! detected during computation, and cancellation of the file dialog.
use vstd::prelude::*;

verus! {

/// Why a dose record was rejected at ingestion.
#[derive(Debug, PartialEq, Eq, Structural)]
pub enum ParseError {
    /// The days-supply field was zero.
    NonPositiveDaysSupply,
    /// The fill-date field did not denote a month/day/year date.
    MalformedDate,
}

/// Why a patient ledger could not be computed: a breach, by the ingestion
/// layer, of the ledger invariants.
#[derive(Debug, PartialEq, Eq, Structural)]
pub enum ViolationKind {
    /// The ledger holds no drug at all.
    NoDrugs,
    /// Some drug of the ledger holds an empty dose list.
    EmptyDoseList,
    /// Some dose carries a zero days-supply or an out-of-range fill date.
    InvalidDose,
    /// Some drug's dose list is too long for day arithmetic to stay in
    /// bounds.
    OversizedDoseList,
}

/// A per-patient fatal error: the ledger breached an invariant that the
/// ingestion layer was to establish. Other patients are unaffected.
#[derive(Debug)]
pub struct InvariantViolation {
    pub patient_id: String,
    pub kind: ViolationKind,
}

/// The interactive file selection was cancelled, or selected more than one
/// file.
#[derive(Debug)]
pub struct DialogCancelError {
    details: String,
}

impl DialogCancelError {
    /// The message the error was created with.
    pub closed spec fn message(&self) -> Seq<char> {
        self.details@
    }

    pub fn new(msg: &str) -> (r: DialogCancelError)
        ensures
            r.message() == msg@,
    {
        DialogCancelError { details: msg.to_string() }
    }

    pub fn description(&self) -> (r: &str)
        ensures
            r@ == self.message(),
    {
        self.details.as_str()
    }
}

} // verus!
