//! Adherence aggregator: per-drug and overall proportion-of-days-covered
//! ratios for one patient.
//!
//! A ratio is kept as an exact pair of day counts (covered days over window
//! days), computed by counting distinct days — never by accumulating a
//! running ratio. The overall ratio counts each calendar day once across
//! drugs, in both the covered union and the window union.
use vstd::prelude::*;
use vstd::set_lib::set_int_range;
use vstd::set_lib::lemma_int_range;
use vstd::set_lib::lemma_len_subset;
use vstd::set_lib::lemma_subset_equality;
use crate::records::DoseRecord;
use crate::coverage::{
    all_valid, dose_count_ok, sort_by_date, eff_start_at, eff_end_at, covered_upto,
    strictly_increasing, day_set, lemma_sort_valid, lemma_sort_sorted, lemma_eff_bounds,
    lemma_covered_bounds, lemma_day_set_push, lemma_day_set_card, create_calendar,
};
use crate::ledger::PatientLedger;
use crate::ledger::DrugDoses;
use crate::errors::{InvariantViolation, ViolationKind};
use crate::dates::{DAY_MIN, DAY_MAX};

verus! {

/// An adherence ratio as an exact pair of day counts: `covered_days`
/// covered out of `window_days` in the observation window. The ratio value
/// is `covered_days / window_days`, always in [0, 1].
#[derive(Debug, Clone, Copy, PartialEq, Eq, Structural)]
pub struct AdherenceRatio {
    pub covered_days: u64,
    pub window_days: u64,
}

impl AdherenceRatio {
    /// A window always has at least one day and never fewer covered days
    /// than window days.
    pub open spec fn wf(self) -> bool {
        1 <= self.window_days && self.covered_days <= self.window_days
    }

    /// The ratio equals one: every window day is covered.
    pub open spec fn is_full(self) -> bool {
        self.covered_days == self.window_days
    }
}

/// One drug's ratio inside a patient's result.
#[derive(Debug)]
pub struct DrugAdherence {
    pub drug_name: String,
    pub ratio: AdherenceRatio,
}

/// Per-patient result: the overall ratio and one ratio per drug, in the
/// ledger's drug order.
#[derive(Debug)]
pub struct AdherenceResult {
    pub patient_id: String,
    pub overall_adherence: AdherenceRatio,
    pub drug_lvl_adherence: Vec<DrugAdherence>,
}

/// The days one drug's dose list covers, after sorting and shifting.
pub open spec fn drug_covered_set(doses: Seq<DoseRecord>) -> Set<int> {
    covered_upto(sort_by_date(doses), sort_by_date(doses).len() as int)
}

/// First day of one drug's observation window.
pub open spec fn drug_window_start(doses: Seq<DoseRecord>) -> int {
    eff_start_at(sort_by_date(doses), 0)
}

/// Last day of one drug's observation window.
pub open spec fn drug_window_end(doses: Seq<DoseRecord>) -> int {
    eff_end_at(sort_by_date(doses), sort_by_date(doses).len() - 1)
}

/// All days of one drug's observation window.
pub open spec fn drug_window_set(doses: Seq<DoseRecord>) -> Set<int> {
    set_int_range(drug_window_start(doses), drug_window_end(doses) + 1)
}

/// Union of the covered days of the first `n` drugs of the ledger: a day
/// counts once however many drugs cover it.
pub open spec fn union_covered_upto(l: PatientLedger, n: int) -> Set<int>
    decreases n,
{
    if n <= 0 {
        Set::empty()
    } else {
        union_covered_upto(l, n - 1).union(drug_covered_set(l.doses_by_drug@[n - 1].doses@))
    }
}

/// Union of the window days of the first `n` drugs of the ledger.
pub open spec fn union_window_upto(l: PatientLedger, n: int) -> Set<int>
    decreases n,
{
    if n <= 0 {
        Set::empty()
    } else {
        union_window_upto(l, n - 1).union(drug_window_set(l.doses_by_drug@[n - 1].doses@))
    }
}

/// One result entry carries exactly one drug's counted ratio.
pub open spec fn drug_entry_matches(da: DrugAdherence, dd: DrugDoses) -> bool {
    &&& da.drug_name@ == dd.drug_name@
    &&& da.ratio.covered_days == drug_covered_set(dd.doses@).len()
    &&& da.ratio.window_days == drug_window_set(dd.doses@).len()
    &&& da.ratio.wf()
}

impl AdherenceResult {
    /// The result is exactly the one the ledger derives: per-drug counts in
    /// ledger order and overall counts over the cross-drug unions.
    pub open spec fn matches(self, l: PatientLedger) -> bool {
        &&& self.patient_id@ == l.patient_id@
        &&& self.drug_lvl_adherence@.len() == l.doses_by_drug@.len()
        &&& forall|j: int| 0 <= j < l.doses_by_drug@.len() ==> drug_entry_matches(
            #[trigger] self.drug_lvl_adherence@[j],
            l.doses_by_drug@[j],
        )
        &&& self.overall_adherence.covered_days == union_covered_upto(
            l,
            l.doses_by_drug@.len() as int,
        ).len()
        &&& self.overall_adherence.window_days == union_window_upto(
            l,
            l.doses_by_drug@.len() as int,
        ).len()
        &&& self.overall_adherence.wf()
    }
}

/// The first breached ledger invariant, if any; `None` exactly when the
/// ledger is computable.
pub open spec fn violation_of(l: PatientLedger) -> Option<ViolationKind> {
    if l.doses_by_drug@.len() == 0 {
        Some(ViolationKind::NoDrugs)
    } else if exists|j: int|
        0 <= j < l.doses_by_drug@.len() && (#[trigger] l.doses_by_drug@[j]).doses@.len() == 0 {
        Some(ViolationKind::EmptyDoseList)
    } else if exists|j: int|
        0 <= j < l.doses_by_drug@.len() && !all_valid((#[trigger] l.doses_by_drug@[j]).doses@) {
        Some(ViolationKind::InvalidDose)
    } else if exists|j: int|
        0 <= j < l.doses_by_drug@.len() && !dose_count_ok(
            (#[trigger] l.doses_by_drug@[j]).doses@.len() as int,
        ) {
        Some(ViolationKind::OversizedDoseList)
    } else {
        None
    }
}

/// All days of a closed day range, in order.
#[verifier::loop_isolation(false)]
fn range_days(lo: i64, hi: i64) -> (r: Vec<i64>)
    requires
        lo <= hi,
        hi < i64::MAX,
    ensures
        strictly_increasing(r@),
        day_set(r@) == set_int_range(lo as int, hi + 1),
        r@.len() == hi - lo + 1,
{
    let mut r: Vec<i64> = Vec::new();
    proof {
        assert(day_set(r@) =~= set_int_range(lo as int, lo as int));
    }
    let mut d: i64 = lo;
    while d <= hi
        invariant
            lo <= d <= hi + 1,
            r@.len() == d - lo,
            strictly_increasing(r@),
            r@.len() > 0 ==> r@.last() == d - 1,
            day_set(r@) == set_int_range(lo as int, d as int),
        decreases hi + 1 - d,
    {
        let ghost pre = r@;
        r.push(d);
        proof {
            lemma_day_set_push(pre, d);
            assert(set_int_range(lo as int, d as int).insert(d as int) =~= set_int_range(
                lo as int,
                d + 1,
            ));
        }
        d = d + 1;
    }
    r
}

/// Union of two ordered day vectors, each day kept once.
#[verifier::loop_isolation(false)]
fn merge_union(a: &Vec<i64>, b: &Vec<i64>) -> (r: Vec<i64>)
    requires
        strictly_increasing(a@),
        strictly_increasing(b@),
    ensures
        strictly_increasing(r@),
        day_set(r@) == day_set(a@).union(day_set(b@)),
{
    let mut r: Vec<i64> = Vec::new();
    let mut i: usize = 0;
    let mut j: usize = 0;
    proof {
        assert(day_set(r@) =~= Set::<int>::empty());
        assert(day_set(a@.take(0)) =~= Set::<int>::empty());
        assert(day_set(b@.take(0)) =~= Set::<int>::empty());
    }
    while i < a.len() || j < b.len()
        invariant
            i <= a@.len(),
            j <= b@.len(),
            strictly_increasing(r@),
            day_set(r@) == day_set(a@.take(i as int)).union(day_set(b@.take(j as int))),
            r@.len() > 0 && i < a@.len() ==> r@.last() < a@[i as int],
            r@.len() > 0 && j < b@.len() ==> r@.last() < b@[j as int],
        decreases a@.len() - i + b@.len() - j,
    {
        let ghost pre = r@;
        let ghost pi = i as int;
        let ghost pj = j as int;
        if i < a.len() && (j >= b.len() || a[i] <= b[j]) {
            let x = a[i];
            let both = j < b.len() && b[j] == x;
            r.push(x);
            i += 1;
            if both {
                j += 1;
            }
            proof {
                lemma_day_set_push(pre, x);
                assert(a@.take(pi + 1) =~= a@.take(pi).push(a@[pi]));
                lemma_day_set_push(a@.take(pi), a@[pi]);
                if both {
                    assert(b@.take(pj + 1) =~= b@.take(pj).push(b@[pj]));
                    lemma_day_set_push(b@.take(pj), b@[pj]);
                }
                assert(day_set(r@) =~= day_set(a@.take(i as int)).union(day_set(b@.take(j as int))));
            }
        } else {
            let y = b[j];
            r.push(y);
            j += 1;
            proof {
                lemma_day_set_push(pre, y);
                assert(b@.take(pj + 1) =~= b@.take(pj).push(b@[pj]));
                lemma_day_set_push(b@.take(pj), b@[pj]);
                assert(day_set(r@) =~= day_set(a@.take(i as int)).union(day_set(b@.take(j as int))));
            }
        }
    }
    proof {
        assert(a@.take(a@.len() as int) =~= a@);
        assert(b@.take(b@.len() as int) =~= b@);
    }
    r
}

/// One drug's covered days are window days, and both sets are finite and
/// nonempty.
proof fn lemma_drug_subset(doses: Seq<DoseRecord>)
    requires
        doses.len() >= 1,
        all_valid(doses),
    ensures
        drug_covered_set(doses).subset_of(drug_window_set(doses)),
        drug_covered_set(doses).finite(),
        drug_window_set(doses).finite(),
        drug_window_set(doses).len() == drug_window_end(doses) - drug_window_start(doses) + 1,
        1 <= drug_window_set(doses).len(),
        drug_window_set(doses).contains(drug_window_start(doses)),
{
    let t = sort_by_date(doses);
    lemma_sort_valid(doses);
    lemma_sort_sorted(doses);
    lemma_covered_bounds(t, t.len() as int);
    lemma_int_range(eff_start_at(t, 0), eff_end_at(t, t.len() - 1) + 1);
    assert forall|d: int| drug_covered_set(doses).contains(d) implies drug_window_set(
        doses,
    ).contains(d) by {
        assert(covered_upto(t, t.len() as int).contains(d));
    }
}

/// A drug's adherence ratio lies in [0, 1], and it equals one exactly when
/// every day of the observation window is covered.
pub proof fn lemma_drug_ratio_bounds(doses: Seq<DoseRecord>)
    requires
        doses.len() >= 1,
        all_valid(doses),
    ensures
        1 <= drug_window_set(doses).len(),
        drug_covered_set(doses).len() <= drug_window_set(doses).len(),
        drug_covered_set(doses).len() == drug_window_set(doses).len() <==> drug_covered_set(doses)
            == drug_window_set(doses),
{
    lemma_drug_subset(doses);
    lemma_len_subset(drug_covered_set(doses), drug_window_set(doses));
    if drug_covered_set(doses).len() == drug_window_set(doses).len() {
        lemma_subset_equality(drug_covered_set(doses), drug_window_set(doses));
    }
}

/// The covered union lies inside the window union, and both are finite.
proof fn lemma_unions_subset(l: PatientLedger, n: int)
    requires
        0 <= n <= l.doses_by_drug@.len(),
        forall|j: int| 0 <= j < l.doses_by_drug@.len()
            ==> (#[trigger] l.doses_by_drug@[j]).doses@.len() >= 1,
        forall|j: int| 0 <= j < l.doses_by_drug@.len() ==> all_valid(
            (#[trigger] l.doses_by_drug@[j]).doses@,
        ),
    ensures
        union_covered_upto(l, n).subset_of(union_window_upto(l, n)),
        union_covered_upto(l, n).finite(),
        union_window_upto(l, n).finite(),
    decreases n,
{
    broadcast use vstd::set::group_set_axioms;

    if n > 0 {
        lemma_unions_subset(l, n - 1);
        lemma_drug_subset(l.doses_by_drug@[n - 1].doses@);
    }
}

/// When every drug covers its whole window, the unions agree.
proof fn lemma_union_eq(l: PatientLedger, n: int)
    requires
        0 <= n <= l.doses_by_drug@.len(),
        forall|j: int| 0 <= j < l.doses_by_drug@.len() ==> drug_covered_set(
            (#[trigger] l.doses_by_drug@[j]).doses@,
        ) == drug_window_set(l.doses_by_drug@[j].doses@),
    ensures
        union_covered_upto(l, n) == union_window_upto(l, n),
    decreases n,
{
    if n > 0 {
        lemma_union_eq(l, n - 1);
    }
}

/// The overall ratio equals one when every drug's ratio is one, and more
/// generally exactly when every window day of every drug is covered by
/// some drug — union semantics: one drug's coverage may fill another's
/// gap, and any unfilled gap keeps the ratio strictly below one.
pub proof fn lemma_overall_ratio(l: PatientLedger)
    requires
        l.doses_by_drug@.len() >= 1,
        forall|j: int| 0 <= j < l.doses_by_drug@.len()
            ==> (#[trigger] l.doses_by_drug@[j]).doses@.len() >= 1,
        forall|j: int| 0 <= j < l.doses_by_drug@.len() ==> all_valid(
            (#[trigger] l.doses_by_drug@[j]).doses@,
        ),
    ensures
        union_covered_upto(l, l.doses_by_drug@.len() as int).len() <= union_window_upto(
            l,
            l.doses_by_drug@.len() as int,
        ).len(),
        (forall|j: int| 0 <= j < l.doses_by_drug@.len() ==> drug_covered_set(
            (#[trigger] l.doses_by_drug@[j]).doses@,
        ) == drug_window_set(l.doses_by_drug@[j].doses@)) ==> union_covered_upto(
            l,
            l.doses_by_drug@.len() as int,
        ).len() == union_window_upto(l, l.doses_by_drug@.len() as int).len(),
        union_covered_upto(l, l.doses_by_drug@.len() as int).len() == union_window_upto(
            l,
            l.doses_by_drug@.len() as int,
        ).len() <==> union_window_upto(l, l.doses_by_drug@.len() as int).subset_of(
            union_covered_upto(l, l.doses_by_drug@.len() as int),
        ),
{
    let n = l.doses_by_drug@.len() as int;
    let cov = union_covered_upto(l, n);
    let win = union_window_upto(l, n);
    lemma_unions_subset(l, n);
    lemma_len_subset(cov, win);
    if forall|j: int| 0 <= j < l.doses_by_drug@.len() ==> drug_covered_set(
        (#[trigger] l.doses_by_drug@[j]).doses@,
    ) == drug_window_set(l.doses_by_drug@[j].doses@) {
        lemma_union_eq(l, n);
    }
    if cov.len() == win.len() {
        lemma_subset_equality(cov, win);
    }
    if win.subset_of(cov) {
        assert(cov =~= win);
    }
}

/// Computes a patient's adherence: one coverage calendar per drug, a
/// counted ratio per drug, and the overall ratio over the cross-drug
/// unions of covered days and window days.
///
/// A ledger that breaches an invariant owed by the ingestion layer is
/// reported as a per-patient error, never a crash.
#[verifier::loop_isolation(false)]
pub fn calculate_pdc(ledger: &PatientLedger) -> (r: Result<AdherenceResult, InvariantViolation>)
    ensures
        r is Ok <==> ledger.computable(),
        r matches Ok(res) ==> res.matches(*ledger),
        r matches Err(e) ==> e.patient_id@ == ledger.patient_id@ && Some(e.kind) == violation_of(
            *ledger,
        ),
{
    let n = ledger.doses_by_drug.len();
    if n == 0 {
        return Err(
            InvariantViolation {
                patient_id: ledger.patient_id.clone(),
                kind: ViolationKind::NoDrugs,
            },
        );
    }
    let mut j: usize = 0;
    while j < n
        invariant
            j <= n,
            forall|m: int| 0 <= m < j ==> (#[trigger] ledger.doses_by_drug@[m]).doses@.len() >= 1,
        decreases n - j,
    {
        if ledger.doses_by_drug[j].doses.len() == 0 {
            return Err(
                InvariantViolation {
                    patient_id: ledger.patient_id.clone(),
                    kind: ViolationKind::EmptyDoseList,
                },
            );
        }
        j += 1;
    }
    let mut j: usize = 0;
    while j < n
        invariant
            j <= n,
            forall|m: int| 0 <= m < j ==> all_valid((#[trigger] ledger.doses_by_drug@[m]).doses@),
        decreases n - j,
    {
        let dd = &ledger.doses_by_drug[j];
        let mut t: usize = 0;
        while t < dd.doses.len()
            invariant
                t <= dd.doses@.len(),
                forall|m: int| 0 <= m < t ==> (#[trigger] dd.doses@[m]).valid(),
            decreases dd.doses@.len() - t,
        {
            let d = &dd.doses[t];
            if d.days_supply == 0 || d.fill_date < DAY_MIN || d.fill_date > DAY_MAX {
                proof {
                    assert(!dd.doses@[t as int].valid());
                    assert(!all_valid(dd.doses@));
                }
                return Err(
                    InvariantViolation {
                        patient_id: ledger.patient_id.clone(),
                        kind: ViolationKind::InvalidDose,
                    },
                );
            }
            t += 1;
        }
        j += 1;
    }
    let mut j: usize = 0;
    while j < n
        invariant
            j <= n,
            forall|m: int| 0 <= m < j ==> dose_count_ok(
                (#[trigger] ledger.doses_by_drug@[m]).doses@.len() as int,
            ),
        decreases n - j,
    {
        if ledger.doses_by_drug[j].doses.len() as u64 > 10_000_000_000_000u64 {
            return Err(
                InvariantViolation {
                    patient_id: ledger.patient_id.clone(),
                    kind: ViolationKind::OversizedDoseList,
                },
            );
        }
        j += 1;
    }
    assert(ledger.computable());
    let mut per_drug: Vec<DrugAdherence> = Vec::new();
    let mut union_cov: Vec<i64> = Vec::new();
    let mut union_win: Vec<i64> = Vec::new();
    proof {
        assert(day_set(union_cov@) =~= Set::<int>::empty());
        assert(day_set(union_cov@) =~= union_covered_upto(*ledger, 0));
        assert(day_set(union_win@) =~= union_window_upto(*ledger, 0));
    }
    let mut j: usize = 0;
    while j < n
        invariant
            j <= n,
            per_drug@.len() == j,
            forall|m: int| 0 <= m < j ==> drug_entry_matches(
                #[trigger] per_drug@[m],
                ledger.doses_by_drug@[m],
            ),
            strictly_increasing(union_cov@),
            strictly_increasing(union_win@),
            day_set(union_cov@) == union_covered_upto(*ledger, j as int),
            day_set(union_win@) == union_window_upto(*ledger, j as int),
            day_set(union_cov@).subset_of(day_set(union_win@)),
            j > 0 ==> day_set(union_win@).contains(
                drug_window_start(ledger.doses_by_drug@[0].doses@),
            ),
        decreases n - j,
    {
        let dd = &ledger.doses_by_drug[j];
        let ghost t = sort_by_date(dd.doses@);
        proof {
            lemma_sort_valid(dd.doses@);
            lemma_sort_sorted(dd.doses@);
            lemma_eff_bounds(t, 0);
            lemma_eff_bounds(t, t.len() - 1);
            lemma_drug_subset(dd.doses@);
        }
        let cal = create_calendar(&dd.doses);
        proof {
            lemma_day_set_card(cal.covered_dates@);
            lemma_len_subset(cal.covered_day_set(), drug_window_set(dd.doses@));
        }
        let num = cal.covered_dates.len();
        let den: i64 = cal.window_end - cal.window_start + 1;
        per_drug.push(
            DrugAdherence {
                drug_name: dd.drug_name.clone(),
                ratio: AdherenceRatio { covered_days: num as u64, window_days: den as u64 },
            },
        );
        let win = range_days(cal.window_start, cal.window_end);
        let ghost pre_cov = union_cov@;
        let ghost pre_win = union_win@;
        union_cov = merge_union(&union_cov, &cal.covered_dates);
        union_win = merge_union(&union_win, &win);
        proof {
            assert(day_set(union_cov@) =~= union_covered_upto(*ledger, j as int + 1));
            assert(day_set(union_win@) =~= union_window_upto(*ledger, j as int + 1));
            assert(day_set(union_cov@).subset_of(day_set(union_win@)));
            assert(day_set(win@).contains(drug_window_start(dd.doses@)));
        }
        j += 1;
    }
    proof {
        lemma_day_set_card(union_cov@);
        lemma_day_set_card(union_win@);
        lemma_len_subset(day_set(union_cov@), day_set(union_win@));
        if union_win@.len() == 0 {
            assert(day_set(union_win@) =~= Set::<int>::empty());
        }
    }
    let overall = AdherenceRatio {
        covered_days: union_cov.len() as u64,
        window_days: union_win.len() as u64,
    };
    Ok(
        AdherenceResult {
            patient_id: ledger.patient_id.clone(),
            overall_adherence: overall,
            drug_lvl_adherence: per_drug,
        },
    )
}

} // verus!
