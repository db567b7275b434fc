//! Patient ledgers: dose records grouped by patient and, within a patient,
//! by drug. The grouping is a pure build step — ledgers are built once from
//! the record sequence and never mutated afterwards. Patients appear in
//! first-appearance order, drugs within a patient likewise, and each drug's
//! doses keep their input order.
use vstd::prelude::*;
use crate::records::DoseRecord;
use crate::coverage::{all_valid, dose_count_ok};

verus! {

/// One drug's dose list inside a ledger.
#[derive(Debug)]
pub struct DrugDoses {
    pub drug_name: String,
    pub doses: Vec<DoseRecord>,
}

/// Per-patient aggregate: all dose records of one patient, grouped by drug
/// name, every record preserved.
#[derive(Debug)]
pub struct PatientLedger {
    pub patient_id: String,
    pub doses_by_drug: Vec<DrugDoses>,
}

/// The records of `s` whose patient and drug both match, in input order.
pub open spec fn doses_for(s: Seq<DoseRecord>, pid: Seq<char>, drug: Seq<char>) -> Seq<DoseRecord>
    decreases s.len(),
{
    if s.len() == 0 {
        Seq::empty()
    } else {
        let rest = doses_for(s.drop_last(), pid, drug);
        if s.last().patient_id@ == pid && s.last().drug_name@ == drug {
            rest.push(s.last())
        } else {
            rest
        }
    }
}

/// The distinct patient identifiers of `s`, in first-appearance order.
pub open spec fn patient_order(s: Seq<DoseRecord>) -> Seq<Seq<char>>
    decreases s.len(),
{
    if s.len() == 0 {
        Seq::empty()
    } else {
        let rest = patient_order(s.drop_last());
        if rest.contains(s.last().patient_id@) {
            rest
        } else {
            rest.push(s.last().patient_id@)
        }
    }
}

/// The distinct drug names of patient `pid` in `s`, in first-appearance
/// order.
pub open spec fn drug_order(s: Seq<DoseRecord>, pid: Seq<char>) -> Seq<Seq<char>>
    decreases s.len(),
{
    if s.len() == 0 {
        Seq::empty()
    } else {
        let rest = drug_order(s.drop_last(), pid);
        if s.last().patient_id@ == pid && !rest.contains(s.last().drug_name@) {
            rest.push(s.last().drug_name@)
        } else {
            rest
        }
    }
}

impl PatientLedger {
    /// The ledger's drug names, in order.
    pub open spec fn drug_names(self) -> Seq<Seq<char>> {
        self.doses_by_drug@.map_values(|dd: DrugDoses| dd.drug_name@)
    }

    /// The ledger is exactly the grouping of this patient's records in `s`.
    pub open spec fn groups_doses(self, s: Seq<DoseRecord>) -> bool {
        &&& self.drug_names() == drug_order(s, self.patient_id@)
        &&& forall|j: int| 0 <= j < self.doses_by_drug@.len()
            ==> (#[trigger] self.doses_by_drug@[j]).doses@ == doses_for(
            s,
            self.patient_id@,
            self.doses_by_drug@[j].drug_name@,
        )
    }

    /// The invariants the ingestion layer owes the computation: at least
    /// one drug, no empty dose list, only valid doses, and dose lists short
    /// enough for day arithmetic.
    pub open spec fn computable(self) -> bool {
        &&& self.doses_by_drug@.len() >= 1
        &&& forall|j: int| 0 <= j < self.doses_by_drug@.len()
            ==> (#[trigger] self.doses_by_drug@[j]).doses@.len() >= 1
        &&& forall|j: int| 0 <= j < self.doses_by_drug@.len() ==> all_valid(
            (#[trigger] self.doses_by_drug@[j]).doses@,
        )
        &&& forall|j: int| 0 <= j < self.doses_by_drug@.len() ==> dose_count_ok(
            (#[trigger] self.doses_by_drug@[j]).doses@.len() as int,
        )
    }
}

/// The ledgers are exactly the grouping of `s`: one per distinct patient,
/// in first-appearance order.
pub open spec fn ledgers_group(ledgers: Seq<PatientLedger>, s: Seq<DoseRecord>) -> bool {
    &&& ledgers.map_values(|l: PatientLedger| l.patient_id@) == patient_order(s)
    &&& forall|k: int| 0 <= k < ledgers.len() ==> (#[trigger] ledgers[k]).groups_doses(s)
}

/// Every record the filter keeps is a record of `s`: filtered lists stay
/// valid and are no longer than the input.
pub proof fn lemma_doses_for_valid(s: Seq<DoseRecord>, pid: Seq<char>, drug: Seq<char>)
    requires
        all_valid(s),
    ensures
        all_valid(doses_for(s, pid, drug)),
        doses_for(s, pid, drug).len() <= s.len(),
    decreases s.len(),
{
    if s.len() > 0 {
        let t = s.drop_last();
        assert(all_valid(t)) by {
            assert(forall|i: int| 0 <= i < t.len() ==> t[i] == s[i]);
        }
        lemma_doses_for_valid(t, pid, drug);
        let rest = doses_for(t, pid, drug);
        let r = doses_for(s, pid, drug);
        assert(s[s.len() - 1].valid());
        assert forall|i: int| 0 <= i < r.len() implies #[trigger] r[i].valid() by {
            if i < rest.len() {
                assert(rest[i].valid());
            } else {
                assert(r[i] == s.last());
            }
        }
    }
}

/// A drug listed in a patient's drug order has at least one matching dose.
pub proof fn lemma_drug_listed_nonempty(s: Seq<DoseRecord>, pid: Seq<char>, drug: Seq<char>)
    requires
        drug_order(s, pid).contains(drug),
    ensures
        doses_for(s, pid, drug).len() >= 1,
    decreases s.len(),
{
    if s.len() == 0 {
    } else {
        let t = s.drop_last();
        let rest = drug_order(t, pid);
        if s.last().patient_id@ == pid && !rest.contains(s.last().drug_name@) {
            if drug == s.last().drug_name@ {
                assert(doses_for(s, pid, drug) == doses_for(t, pid, drug).push(s.last()));
            } else {
                assert(rest.contains(drug)) by {
                    let i = choose|i: int|
                        0 <= i < rest.push(s.last().drug_name@).len() && rest.push(
                            s.last().drug_name@,
                        )[i] == drug;
                    assert(rest[i] == drug);
                }
                lemma_drug_listed_nonempty(t, pid, drug);
            }
        } else {
            assert(rest.contains(drug));
            lemma_drug_listed_nonempty(t, pid, drug);
        }
    }
}

/// A patient in the patient order has at least one listed drug.
pub proof fn lemma_patient_listed_has_drug(s: Seq<DoseRecord>, pid: Seq<char>)
    requires
        patient_order(s).contains(pid),
    ensures
        drug_order(s, pid).len() >= 1,
    decreases s.len(),
{
    if s.len() == 0 {
    } else {
        let t = s.drop_last();
        if s.last().patient_id@ == pid {
            let rest = drug_order(t, pid);
            if rest.contains(s.last().drug_name@) {
                let i = choose|i: int| 0 <= i < rest.len() && rest[i] == s.last().drug_name@;
                assert(rest.len() >= 1);
            }
        } else {
            let rest = patient_order(t);
            assert(rest.contains(pid)) by {
                if !rest.contains(s.last().patient_id@) {
                    let i = choose|i: int|
                        0 <= i < rest.push(s.last().patient_id@).len() && rest.push(
                            s.last().patient_id@,
                        )[i] == pid;
                    assert(rest[i] == pid);
                }
            }
            lemma_patient_listed_has_drug(t, pid);
            assert(drug_order(s, pid) == drug_order(t, pid));
        }
    }
}

/// Ledgers built by grouping valid records are computable: every patient
/// has a drug, every drug a dose, every dose is valid, and no list is
/// longer than the input.
pub proof fn lemma_grouped_ledgers_computable(ledgers: Seq<PatientLedger>, s: Seq<DoseRecord>)
    requires
        ledgers_group(ledgers, s),
        all_valid(s),
        dose_count_ok(s.len() as int),
    ensures
        forall|k: int| 0 <= k < ledgers.len() ==> (#[trigger] ledgers[k]).computable(),
{
    assert forall|k: int| 0 <= k < ledgers.len() implies (#[trigger] ledgers[k]).computable() by {
        let l = ledgers[k];
        assert(ledgers.map_values(|x: PatientLedger| x.patient_id@)[k] == l.patient_id@);
        assert(patient_order(s).contains(l.patient_id@));
        lemma_patient_listed_has_drug(s, l.patient_id@);
        assert(l.drug_names().len() == drug_order(s, l.patient_id@).len());
        assert forall|j: int| 0 <= j < l.doses_by_drug@.len() implies {
            &&& (#[trigger] l.doses_by_drug@[j]).doses@.len() >= 1
            &&& all_valid(l.doses_by_drug@[j].doses@)
            &&& dose_count_ok(l.doses_by_drug@[j].doses@.len() as int)
        } by {
            let name = l.doses_by_drug@[j].drug_name@;
            assert(l.drug_names()[j] == name);
            assert(drug_order(s, l.patient_id@).contains(name));
            lemma_drug_listed_nonempty(s, l.patient_id@, name);
            lemma_doses_for_valid(s, l.patient_id@, name);
        }
    }
}

/// Whether one of the strings of `v` reads as `s`.
#[verifier::loop_isolation(false)]
fn contains_str(v: &Vec<String>, s: &String) -> (b: bool)
    ensures
        b <==> v@.map_values(|x: String| x@).contains(s@),
{
    let ghost m = v@.map_values(|x: String| x@);
    let mut j: usize = 0;
    while j < v.len()
        invariant
            j <= v@.len(),
            forall|k: int| 0 <= k < j ==> #[trigger] v@[k]@ != s@,
        decreases v@.len() - j,
    {
        if v[j].eq(s) {
            proof {
                assert(m[j as int] == s@);
            }
            return true;
        }
        j += 1;
    }
    proof {
        assert forall|k: int| 0 <= k < m.len() implies #[trigger] m[k] != s@ by {
            assert(v@[k]@ != s@);
        }
    }
    false
}

/// The distinct patient identifiers of the record list, in first-appearance
/// order.
fn distinct_patients(doses: &Vec<DoseRecord>) -> (ids: Vec<String>)
    ensures
        ids@.map_values(|x: String| x@) == patient_order(doses@),
    decreases doses@.len(),
{
    let mut ids: Vec<String> = Vec::new();
    let mut i: usize = 0;
    while i < doses.len()
        invariant
            i <= doses@.len(),
            ids@.map_values(|x: String| x@) == patient_order(doses@.take(i as int)),
        decreases doses@.len() - i,
    {
        let found = contains_str(&ids, &doses[i].patient_id);
        proof {
            assert(doses@.take(i as int + 1).drop_last() =~= doses@.take(i as int));
            assert(doses@.take(i as int + 1).last() == doses@[i as int]);
        }
        if !found {
            let ghost pre = ids@.map_values(|x: String| x@);
            ids.push(doses[i].patient_id.clone());
            proof {
                assert(ids@.map_values(|x: String| x@) =~= pre.push(doses@[i as int].patient_id@));
            }
        }
        i += 1;
    }
    proof {
        assert(doses@.take(doses@.len() as int) =~= doses@);
    }
    ids
}

/// The distinct drug names of patient `pid`, in first-appearance order.
fn drugs_of_patient(doses: &Vec<DoseRecord>, pid: &String) -> (names: Vec<String>)
    ensures
        names@.map_values(|x: String| x@) == drug_order(doses@, pid@),
{
    let mut names: Vec<String> = Vec::new();
    let mut i: usize = 0;
    while i < doses.len()
        invariant
            i <= doses@.len(),
            names@.map_values(|x: String| x@) == drug_order(doses@.take(i as int), pid@),
        decreases doses@.len() - i,
    {
        proof {
            assert(doses@.take(i as int + 1).drop_last() =~= doses@.take(i as int));
            assert(doses@.take(i as int + 1).last() == doses@[i as int]);
        }
        if doses[i].patient_id.eq(pid) {
            let found = contains_str(&names, &doses[i].drug_name);
            if !found {
                let ghost pre = names@.map_values(|x: String| x@);
                names.push(doses[i].drug_name.clone());
                proof {
                    assert(names@.map_values(|x: String| x@) =~= pre.push(
                        doses@[i as int].drug_name@,
                    ));
                }
            }
        }
        i += 1;
    }
    proof {
        assert(doses@.take(doses@.len() as int) =~= doses@);
    }
    names
}

/// The records of one patient and drug, in input order.
fn collect_doses(doses: &Vec<DoseRecord>, pid: &String, drug: &String) -> (out: Vec<DoseRecord>)
    ensures
        out@ == doses_for(doses@, pid@, drug@),
{
    let mut out: Vec<DoseRecord> = Vec::new();
    let mut i: usize = 0;
    while i < doses.len()
        invariant
            i <= doses@.len(),
            out@ == doses_for(doses@.take(i as int), pid@, drug@),
        decreases doses@.len() - i,
    {
        proof {
            assert(doses@.take(i as int + 1).drop_last() =~= doses@.take(i as int));
            assert(doses@.take(i as int + 1).last() == doses@[i as int]);
        }
        if doses[i].patient_id.eq(pid) && doses[i].drug_name.eq(drug) {
            out.push(doses[i].duplicate());
        }
        i += 1;
    }
    proof {
        assert(doses@.take(doses@.len() as int) =~= doses@);
    }
    out
}

/// Folds a record list into one ledger per distinct patient: the pure
/// build step all computation starts from.
pub fn build_ledgers(doses: &Vec<DoseRecord>) -> (ledgers: Vec<PatientLedger>)
    ensures
        ledgers_group(ledgers@, doses@),
{
    let pids = distinct_patients(doses);
    let mut ledgers: Vec<PatientLedger> = Vec::new();
    let mut k: usize = 0;
    while k < pids.len()
        invariant
            k <= pids@.len(),
            ledgers@.len() == k,
            forall|m: int| 0 <= m < k ==> (#[trigger] ledgers@[m]).patient_id@ == pids@[m]@,
            forall|m: int| 0 <= m < k ==> (#[trigger] ledgers@[m]).groups_doses(doses@),
        decreases pids@.len() - k,
    {
        let pid = pids[k].clone();
        let names = drugs_of_patient(doses, &pid);
        let mut by_drug: Vec<DrugDoses> = Vec::new();
        let mut j: usize = 0;
        while j < names.len()
            invariant
                j <= names@.len(),
                by_drug@.len() == j,
                forall|m: int| 0 <= m < j ==> (#[trigger] by_drug@[m]).drug_name@ == names@[m]@,
                forall|m: int| 0 <= m < j ==> (#[trigger] by_drug@[m]).doses@ == doses_for(
                    doses@,
                    pid@,
                    by_drug@[m].drug_name@,
                ),
            decreases names@.len() - j,
        {
            let collected = collect_doses(doses, &pid, &names[j]);
            by_drug.push(DrugDoses { drug_name: names[j].clone(), doses: collected });
            j += 1;
        }
        let ledger = PatientLedger { patient_id: pid, doses_by_drug: by_drug };
        proof {
            assert(ledger.drug_names() =~= drug_order(doses@, ledger.patient_id@));
        }
        ledgers.push(ledger);
        k += 1;
    }
    proof {
        assert(ledgers@.map_values(|l: PatientLedger| l.patient_id@) =~= patient_order(doses@));
    }
    ledgers
}

} // verus!
