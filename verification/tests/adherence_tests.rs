use propdayscov::adherence::calculate_pdc;
use propdayscov::batch::compute_batch;
use propdayscov::errors::ViolationKind;
use propdayscov::ledger::{build_ledgers, DrugDoses, PatientLedger};
use propdayscov::records::DoseRecord;

fn dose(patient_id: &str, drug_name: &str, days_supply: u16, fill_date: i64) -> DoseRecord {
    DoseRecord {
        patient_id: patient_id.to_string(),
        drug_name: drug_name.to_string(),
        days_supply,
        fill_date,
    }
}

fn ledger_of(doses: Vec<DoseRecord>) -> PatientLedger {
    let ledgers = build_ledgers(&doses);
    assert_eq!(ledgers.len(), 1);
    ledgers.into_iter().next().unwrap()
}

#[test]
fn full_coverage_single_drug() {
    let ledger = ledger_of(vec![dose("p1", "statin", 30, 1)]);
    let res = calculate_pdc(&ledger).unwrap();
    assert_eq!(res.patient_id, "p1");
    assert_eq!(res.overall_adherence.covered_days, 30);
    assert_eq!(res.overall_adherence.window_days, 30);
    assert_eq!(res.drug_lvl_adherence.len(), 1);
    assert_eq!(res.drug_lvl_adherence[0].drug_name, "statin");
    assert_eq!(res.drug_lvl_adherence[0].ratio.covered_days, 30);
    assert_eq!(res.drug_lvl_adherence[0].ratio.window_days, 30);
}

#[test]
fn early_refill_counts_no_day_twice() {
    let ledger = ledger_of(vec![dose("p1", "statin", 10, 1), dose("p1", "statin", 10, 5)]);
    let res = calculate_pdc(&ledger).unwrap();
    assert_eq!(res.drug_lvl_adherence[0].ratio.covered_days, 20);
    assert_eq!(res.drug_lvl_adherence[0].ratio.window_days, 20);
    assert_eq!(res.overall_adherence.covered_days, 20);
    assert_eq!(res.overall_adherence.window_days, 20);
}

#[test]
fn gap_lowers_ratio() {
    let ledger = ledger_of(vec![dose("p1", "statin", 5, 1), dose("p1", "statin", 5, 10)]);
    let res = calculate_pdc(&ledger).unwrap();
    let ratio = &res.drug_lvl_adherence[0].ratio;
    assert_eq!(ratio.covered_days, 10);
    assert_eq!(ratio.window_days, 14);
    let value = ratio.covered_days as f64 / ratio.window_days as f64;
    assert!((value - 0.714).abs() < 0.001);
}

#[test]
fn two_drugs_disjoint_windows_fully_covered() {
    // Two drugs with disjoint, fully covered windows: overall ratio one.
    let ledger = ledger_of(vec![dose("p1", "statin", 10, 1), dose("p1", "insulin", 5, 20)]);
    let res = calculate_pdc(&ledger).unwrap();
    assert_eq!(res.drug_lvl_adherence.len(), 2);
    assert_eq!(res.overall_adherence.covered_days, 15);
    assert_eq!(res.overall_adherence.window_days, 15);
}

#[test]
fn one_drug_fills_anothers_gap() {
    // Union semantics: the statin gap on days 6..=9 is filled by insulin
    // coverage, so the overall ratio is still one.
    let ledger = ledger_of(vec![
        dose("p1", "statin", 5, 1),
        dose("p1", "statin", 5, 10),
        dose("p1", "insulin", 14, 1),
    ]);
    let res = calculate_pdc(&ledger).unwrap();
    assert_eq!(res.drug_lvl_adherence.len(), 2);
    assert_eq!(res.drug_lvl_adherence[0].ratio.covered_days, 10);
    assert_eq!(res.drug_lvl_adherence[0].ratio.window_days, 14);
    assert_eq!(res.overall_adherence.covered_days, 14);
    assert_eq!(res.overall_adherence.window_days, 14);
}

#[test]
fn unfilled_gap_keeps_overall_below_one() {
    let ledger = ledger_of(vec![
        dose("p1", "statin", 5, 1),
        dose("p1", "statin", 5, 10),
        dose("p1", "insulin", 3, 1),
    ]);
    let res = calculate_pdc(&ledger).unwrap();
    assert!(res.overall_adherence.covered_days < res.overall_adherence.window_days);
    assert_eq!(res.overall_adherence.covered_days, 10);
    assert_eq!(res.overall_adherence.window_days, 14);
}

#[test]
fn zero_drug_ledger_is_an_invariant_violation() {
    let ledger = PatientLedger { patient_id: "p1".to_string(), doses_by_drug: Vec::new() };
    let err = calculate_pdc(&ledger).unwrap_err();
    assert_eq!(err.patient_id, "p1");
    assert_eq!(err.kind, ViolationKind::NoDrugs);
}

#[test]
fn empty_dose_list_is_an_invariant_violation() {
    let ledger = PatientLedger {
        patient_id: "p1".to_string(),
        doses_by_drug: vec![DrugDoses { drug_name: "statin".to_string(), doses: Vec::new() }],
    };
    let err = calculate_pdc(&ledger).unwrap_err();
    assert_eq!(err.kind, ViolationKind::EmptyDoseList);
}

#[test]
fn zero_supply_dose_is_an_invariant_violation() {
    let ledger = PatientLedger {
        patient_id: "p1".to_string(),
        doses_by_drug: vec![
            DrugDoses { drug_name: "statin".to_string(), doses: vec![dose("p1", "statin", 0, 1)] },
        ],
    };
    let err = calculate_pdc(&ledger).unwrap_err();
    assert_eq!(err.kind, ViolationKind::InvalidDose);
}

#[test]
fn batch_reports_each_patient_separately() {
    let good = ledger_of(vec![dose("p1", "statin", 30, 1)]);
    let bad = PatientLedger { patient_id: "p2".to_string(), doses_by_drug: Vec::new() };
    let ledgers = vec![good, bad];
    let results = compute_batch(&ledgers);
    assert_eq!(results.len(), 2);
    let first = results[0].as_ref().unwrap();
    assert_eq!(first.patient_id, "p1");
    assert_eq!(first.overall_adherence.covered_days, 30);
    let second = results[1].as_ref().unwrap_err();
    assert_eq!(second.patient_id, "p2");
    assert_eq!(second.kind, ViolationKind::NoDrugs);
}

#[test]
fn grouping_keeps_first_appearance_order() {
    let doses = vec![
        dose("p2", "statin", 5, 1),
        dose("p1", "insulin", 5, 2),
        dose("p2", "insulin", 5, 3),
        dose("p2", "statin", 5, 4),
    ];
    let ledgers = build_ledgers(&doses);
    assert_eq!(ledgers.len(), 2);
    assert_eq!(ledgers[0].patient_id, "p2");
    assert_eq!(ledgers[1].patient_id, "p1");
    assert_eq!(ledgers[0].doses_by_drug.len(), 2);
    assert_eq!(ledgers[0].doses_by_drug[0].drug_name, "statin");
    assert_eq!(ledgers[0].doses_by_drug[1].drug_name, "insulin");
    assert_eq!(ledgers[0].doses_by_drug[0].doses.len(), 2);
    assert_eq!(ledgers[0].doses_by_drug[0].doses[0].fill_date, 1);
    assert_eq!(ledgers[0].doses_by_drug[0].doses[1].fill_date, 4);
    assert_eq!(ledgers[1].doses_by_drug.len(), 1);
    assert_eq!(ledgers[1].doses_by_drug[0].doses[0].fill_date, 2);
}
