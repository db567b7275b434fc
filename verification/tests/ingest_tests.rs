use chrono::Datelike;
use propdayscov::errors::{DialogCancelError, ParseError};
use propdayscov::records::ingest_dose;

#[test]
fn ingests_a_valid_row() {
    let d = ingest_dose("p1".to_string(), "statin".to_string(), 30, "01/15/2020").unwrap();
    assert_eq!(d.patient_id, "p1");
    assert_eq!(d.drug_name, "statin");
    assert_eq!(d.days_supply, 30);
    let expected = chrono::NaiveDate::from_ymd_opt(2020, 1, 15).unwrap().num_days_from_ce() as i64;
    assert_eq!(d.fill_date, expected);
}

#[test]
fn consecutive_dates_are_consecutive_day_numbers() {
    let jan31 = ingest_dose("p".to_string(), "d".to_string(), 1, "01/31/2020").unwrap();
    let feb01 = ingest_dose("p".to_string(), "d".to_string(), 1, "02/01/2020").unwrap();
    assert_eq!(feb01.fill_date, jan31.fill_date + 1);
}

#[test]
fn zero_days_supply_is_rejected() {
    let err = ingest_dose("p1".to_string(), "statin".to_string(), 0, "01/15/2020").unwrap_err();
    assert_eq!(err, ParseError::NonPositiveDaysSupply);
}

#[test]
fn malformed_date_is_rejected() {
    let err = ingest_dose("p1".to_string(), "statin".to_string(), 30, "13/45/2020").unwrap_err();
    assert_eq!(err, ParseError::MalformedDate);
    let err = ingest_dose("p1".to_string(), "statin".to_string(), 30, "2020-01-15").unwrap_err();
    assert_eq!(err, ParseError::MalformedDate);
    let err = ingest_dose("p1".to_string(), "statin".to_string(), 30, "").unwrap_err();
    assert_eq!(err, ParseError::MalformedDate);
}

#[test]
fn zero_supply_is_reported_before_the_date() {
    let err = ingest_dose("p1".to_string(), "statin".to_string(), 0, "not a date").unwrap_err();
    assert_eq!(err, ParseError::NonPositiveDaysSupply);
}

#[test]
fn dialog_cancel_error_keeps_its_message() {
    let err = DialogCancelError::new("User cancelled file selection.");
    assert_eq!(err.description(), "User cancelled file selection.");
}
