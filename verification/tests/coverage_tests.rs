use propdayscov::coverage::{create_calendar, CoverageCalendar};
use propdayscov::records::DoseRecord;

fn dose(patient_id: &str, drug_name: &str, days_supply: u16, fill_date: i64) -> DoseRecord {
    DoseRecord {
        patient_id: patient_id.to_string(),
        drug_name: drug_name.to_string(),
        days_supply,
        fill_date,
    }
}

fn days(cal: &CoverageCalendar) -> Vec<i64> {
    cal.covered_dates.clone()
}

#[test]
fn single_fill_thirty_days() {
    // One fill on day 1 with 30 days of supply: window day 1..=30, all covered.
    let doses = vec![dose("p1", "statin", 30, 1)];
    let cal = create_calendar(&doses);
    assert_eq!(cal.window_start, 1);
    assert_eq!(cal.window_end, 30);
    assert_eq!(cal.covered_dates.len(), 30);
    assert_eq!(cal.covered_dates[0], 1);
    assert_eq!(cal.covered_dates[29], 30);
}

#[test]
fn early_refill_shifts_to_day_after_runout() {
    // Fill day 1 (10 days, nominal end day 10), refill day 5 (10 days):
    // the refill starts day 11 and ends day 20; all 20 window days covered.
    let doses = vec![dose("p1", "statin", 10, 1), dose("p1", "statin", 10, 5)];
    let cal = create_calendar(&doses);
    assert_eq!(cal.window_start, 1);
    assert_eq!(cal.window_end, 20);
    assert_eq!(cal.covered_dates.len(), 20);
    assert_eq!(days(&cal), (1..=20).collect::<Vec<i64>>());
}

#[test]
fn gap_between_fills_left_uncovered() {
    // Fill day 1 (5 days) and day 10 (5 days): days 6..=9 stay uncovered.
    let doses = vec![dose("p1", "statin", 5, 1), dose("p1", "statin", 5, 10)];
    let cal = create_calendar(&doses);
    assert_eq!(cal.window_start, 1);
    assert_eq!(cal.window_end, 14);
    assert_eq!(cal.covered_dates.len(), 10);
    let expected: Vec<i64> = (1..=5).chain(10..=14).collect();
    assert_eq!(days(&cal), expected);
}

#[test]
fn well_spaced_fills_keep_nominal_dates() {
    // Each fill strictly after the prior run-out: no shift at all.
    let doses = vec![
        dose("p1", "statin", 3, 1),
        dose("p1", "statin", 4, 10),
        dose("p1", "statin", 2, 20),
    ];
    let cal = create_calendar(&doses);
    assert_eq!(cal.window_start, 1);
    assert_eq!(cal.window_end, 21);
    let expected: Vec<i64> = (1..=3).chain(10..=13).chain(20..=21).collect();
    assert_eq!(days(&cal), expected);
}

#[test]
fn unsorted_input_is_sorted_by_fill_date() {
    let doses = vec![dose("p1", "statin", 5, 10), dose("p1", "statin", 5, 1)];
    let cal = create_calendar(&doses);
    assert_eq!(cal.window_start, 1);
    assert_eq!(cal.window_end, 14);
    assert_eq!(cal.covered_dates.len(), 10);
}

#[test]
fn builder_is_idempotent() {
    // The same dose list, unsorted or already sorted, yields the same calendar.
    let unsorted = vec![
        dose("p1", "statin", 5, 10),
        dose("p1", "statin", 5, 1),
        dose("p1", "statin", 2, 4),
    ];
    let sorted = vec![
        dose("p1", "statin", 5, 1),
        dose("p1", "statin", 2, 4),
        dose("p1", "statin", 5, 10),
    ];
    let c1 = create_calendar(&unsorted);
    let c2 = create_calendar(&sorted);
    let c3 = create_calendar(&unsorted);
    assert_eq!(c1.window_start, c2.window_start);
    assert_eq!(c1.window_end, c2.window_end);
    assert_eq!(days(&c1), days(&c2));
    assert_eq!(c1.window_start, c3.window_start);
    assert_eq!(c1.window_end, c3.window_end);
    assert_eq!(days(&c1), days(&c3));
}

#[test]
fn equal_fill_dates_keep_input_order() {
    // Stable tie-break: the first-listed dose of the shared fill date runs
    // first, the second is shifted behind it.
    let doses = vec![dose("p1", "statin", 5, 1), dose("p1", "statin", 3, 1)];
    let cal = create_calendar(&doses);
    assert_eq!(cal.window_start, 1);
    assert_eq!(cal.window_end, 8);
    assert_eq!(cal.covered_dates.len(), 8);
}

#[test]
fn adjacent_fills_tile_the_window() {
    // Refill exactly on the day after run-out: no gap and no double count.
    let doses = vec![dose("p1", "statin", 7, 1), dose("p1", "statin", 7, 8)];
    let cal = create_calendar(&doses);
    assert_eq!(cal.window_start, 1);
    assert_eq!(cal.window_end, 14);
    assert_eq!(cal.covered_dates.len(), 14);
}
