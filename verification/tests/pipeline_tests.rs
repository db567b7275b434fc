use propdayscov::batch::compute_batch;
use propdayscov::errors::ParseError;
use propdayscov::ledger::build_ledgers;
use propdayscov::records::{ingest_dose, DoseRecord};

fn ingest_rows(rows: &[(&str, &str, u16, &str)]) -> Result<Vec<DoseRecord>, ParseError> {
    let mut doses: Vec<DoseRecord> = Vec::new();
    for (patient_id, drug_name, days_supply, fill_date) in rows {
        doses.push(ingest_dose(
            patient_id.to_string(),
            drug_name.to_string(),
            *days_supply,
            fill_date,
        )?);
    }
    Ok(doses)
}

#[test]
fn records_to_results_for_two_patients() {
    let rows = [
        ("p1", "statin", 10, "01/01/2020"),
        ("p2", "insulin", 7, "03/05/2020"),
        ("p1", "statin", 10, "01/05/2020"),
    ];
    let doses = ingest_rows(&rows).unwrap();
    let ledgers = build_ledgers(&doses);
    assert_eq!(ledgers.len(), 2);
    let results = compute_batch(&ledgers);
    assert_eq!(results.len(), 2);

    // p1: early refill on day 5 is shifted to day 11; 20 of 20 days covered.
    let p1 = results[0].as_ref().unwrap();
    assert_eq!(p1.patient_id, "p1");
    assert_eq!(p1.overall_adherence.covered_days, 20);
    assert_eq!(p1.overall_adherence.window_days, 20);

    // p2: one fill of 7 days.
    let p2 = results[1].as_ref().unwrap();
    assert_eq!(p2.patient_id, "p2");
    assert_eq!(p2.overall_adherence.covered_days, 7);
    assert_eq!(p2.overall_adherence.window_days, 7);
}

#[test]
fn batch_is_rejected_on_a_zero_supply_row() {
    let rows = [
        ("p1", "statin", 10, "01/01/2020"),
        ("p1", "statin", 0, "01/05/2020"),
    ];
    assert_eq!(ingest_rows(&rows).unwrap_err(), ParseError::NonPositiveDaysSupply);
}

#[test]
fn calendar_dates_cross_month_boundaries() {
    // A 5-day fill starting January 30 runs through February 3.
    let rows = [
        ("p1", "statin", 5, "01/30/2020"),
        ("p1", "statin", 5, "02/04/2020"),
    ];
    let doses = ingest_rows(&rows).unwrap();
    let ledgers = build_ledgers(&doses);
    let results = compute_batch(&ledgers);
    let res = results[0].as_ref().unwrap();
    assert_eq!(res.overall_adherence.covered_days, 10);
    assert_eq!(res.overall_adherence.window_days, 10);
}
