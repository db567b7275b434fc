//! Dose records: one dispensing event, validated at ingestion.
use vstd::prelude::*;

use crate::dates::{parse_mdy_date, parsed_day_of, date_format, DAY_MIN, DAY_MAX};
use crate::errors::ParseError;

verus! {

/// One dispensing event: a drug filled for a patient on a date, with a
/// number of days of supply.
#[derive(Debug)]
pub struct DoseRecord {
    pub patient_id: String,
    pub drug_name: String,
    pub days_supply: u16,
    /// Fill date as a day number (see `crate::dates`).
    pub fill_date: i64,
}

impl DoseRecord {
    /// Ingestion establishes this and the record is immutable thereafter.
    pub open spec fn valid(self) -> bool {
        &&& self.days_supply >= 1
        &&& DAY_MIN <= self.fill_date <= DAY_MAX
    }

    /// A copy whose fields equal this record's.
    pub fn duplicate(&self) -> (r: DoseRecord)
        ensures
            r == *self,
    {
        DoseRecord {
            patient_id: self.patient_id.clone(),
            drug_name: self.drug_name.clone(),
            days_supply: self.days_supply,
            fill_date: self.fill_date,
        }
    }
}

/// Builds one validated dose record from the plain fields of one input row.
///
/// A zero days-supply is rejected before the date is looked at; a date text
/// that does not denote a month/day/year date is rejected next.
pub fn ingest_dose(
    patient_id: String,
    drug_name: String,
    days_supply: u16,
    fill_date_text: &str,
) -> (r: Result<DoseRecord, ParseError>)
    ensures
        r is Ok <==> days_supply >= 1 && parsed_day_of(date_format(), fill_date_text@) is Some,
        days_supply == 0 ==> r == Err::<DoseRecord, ParseError>(ParseError::NonPositiveDaysSupply),
        days_supply >= 1 && parsed_day_of(date_format(), fill_date_text@) is None ==> r == Err::<
            DoseRecord,
            ParseError,
        >(ParseError::MalformedDate),
        r matches Ok(d) ==> {
            &&& d.patient_id == patient_id
            &&& d.drug_name == drug_name
            &&& d.days_supply == days_supply
            &&& Some(d.fill_date as int) == parsed_day_of(date_format(), fill_date_text@)
            &&& d.valid()
        },
{
    if days_supply == 0 {
        return Err(ParseError::NonPositiveDaysSupply);
    }
    match parse_mdy_date(fill_date_text) {
        None => Err(ParseError::MalformedDate),
        Some(day) => Ok(
            DoseRecord { patient_id, drug_name, days_supply, fill_date: day },
        ),
    }
}

} // verus!
