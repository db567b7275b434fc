//! Proportion-of-days-covered (PDC) adherence computation.
//!
//! Dose records (patient, drug, fill date, days of supply) are grouped into
//! per-patient ledgers; for each drug a shifted, non-overlapping coverage
//! calendar is derived, and per-drug and overall adherence ratios are
//! computed as exact day counts.
pub mod dates;
pub mod errors;
pub mod records;
pub mod coverage;
pub mod ledger;
pub mod adherence;
pub mod batch;
