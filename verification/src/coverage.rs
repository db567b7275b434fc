//! Coverage builder: for one drug's dose list, the shifted, non-overlapping
//! coverage calendar and its observation window.
//!
//! Doses are sorted by fill date (stable, so equal fill dates keep their
//! input order). Each dose's effective start is its fill date unless that
//! falls on or before the prior dose's effective end, in which case it is
//! shifted to the day after that end; its effective end is the start plus
//! the days of supply minus one. The covered dates are the union of the
//! effective intervals, and the window runs from the first effective start
//! to the last effective end.
use vstd::prelude::*;
use vstd::set_lib::set_int_range;
use vstd::set_lib::lemma_int_range;
use crate::records::DoseRecord;

verus! {

/// Largest dose-list length the day arithmetic is stated for; far beyond
/// what any machine can hold in memory.
pub open spec fn dose_count_ok(n: int) -> bool {
    n <= 10_000_000_000_000
}

/// Every record of the sequence is a valid dose.
pub open spec fn all_valid(s: Seq<DoseRecord>) -> bool {
    forall|i: int| 0 <= i < s.len() ==> #[trigger] s[i].valid()
}

/// Fill dates never decrease along the sequence.
pub open spec fn sorted_by_date(s: Seq<DoseRecord>) -> bool {
    forall|i: int, j: int| 0 <= i < j < s.len() ==> #[trigger] s[i].fill_date <= #[trigger] s[j].fill_date
}

/// Where a stable insertion by fill date puts `d` in `s`: after every
/// leading record whose fill date is no later than `d`'s.
pub open spec fn insert_pos(s: Seq<DoseRecord>, d: DoseRecord) -> int
    decreases s.len(),
{
    if s.len() == 0 {
        0
    } else if s[0].fill_date <= d.fill_date {
        1 + insert_pos(s.drop_first(), d)
    } else {
        0
    }
}

/// Stable insertion of `d` into `s` by fill date.
pub open spec fn insert_by_date(s: Seq<DoseRecord>, d: DoseRecord) -> Seq<DoseRecord>
    decreases s.len(),
{
    if s.len() == 0 {
        seq![d]
    } else if s[0].fill_date <= d.fill_date {
        seq![s[0]] + insert_by_date(s.drop_first(), d)
    } else {
        seq![d] + s
    }
}

/// Stable insertion sort of a dose sequence by fill date: the fixed
/// tie-break is input order.
pub open spec fn sort_by_date(s: Seq<DoseRecord>) -> Seq<DoseRecord>
    decreases s.len(),
{
    if s.len() == 0 {
        Seq::empty()
    } else {
        insert_by_date(sort_by_date(s.drop_last()), s.last())
    }
}

/// Effective end of the interval of dose `i` of the (already sorted)
/// sequence `s`.
pub open spec fn eff_end_at(s: Seq<DoseRecord>, i: int) -> int
    decreases i,
{
    if i <= 0 {
        s[0].fill_date + s[0].days_supply - 1
    } else {
        let prior = eff_end_at(s, i - 1);
        let st = if s[i].fill_date > prior {
            s[i].fill_date as int
        } else {
            prior + 1
        };
        st + s[i].days_supply - 1
    }
}

/// Effective (shifted) start of the interval of dose `i` of the sorted
/// sequence `s`: the fill date, unless that falls on or before the prior
/// dose's effective end.
pub open spec fn eff_start_at(s: Seq<DoseRecord>, i: int) -> int {
    if i <= 0 {
        s[0].fill_date as int
    } else if s[i].fill_date > eff_end_at(s, i - 1) {
        s[i].fill_date as int
    } else {
        eff_end_at(s, i - 1) + 1
    }
}

/// Days covered by the first `n` doses of the sorted sequence `s`: the
/// union of their effective intervals.
pub open spec fn covered_upto(s: Seq<DoseRecord>, n: int) -> Set<int>
    decreases n,
{
    if n <= 0 {
        Set::empty()
    } else {
        covered_upto(s, n - 1).union(set_int_range(eff_start_at(s, n - 1), eff_end_at(s, n - 1) + 1))
    }
}

/// A strictly increasing day vector (so: distinct days, in order).
pub open spec fn strictly_increasing(v: Seq<i64>) -> bool {
    forall|i: int, j: int| 0 <= i < j < v.len() ==> #[trigger] v[i] < #[trigger] v[j]
}

/// The set of days a day vector holds.
pub open spec fn day_set(v: Seq<i64>) -> Set<int> {
    v.map_values(|x: i64| x as int).to_set()
}

/// Stable insertion splits the sequence at `insert_pos`: everything before
/// it has a fill date no later than the inserted dose's, the record at it
/// (if any) a strictly later one.
pub proof fn lemma_insert_shape(s: Seq<DoseRecord>, d: DoseRecord)
    ensures
        0 <= insert_pos(s, d) <= s.len(),
        forall|m: int| 0 <= m < insert_pos(s, d) ==> #[trigger] s[m].fill_date <= d.fill_date,
        insert_pos(s, d) < s.len() ==> s[insert_pos(s, d)].fill_date > d.fill_date,
        insert_by_date(s, d) == s.take(insert_pos(s, d)) + seq![d] + s.skip(insert_pos(s, d)),
    decreases s.len(),
{
    if s.len() == 0 {
        assert(insert_by_date(s, d) =~= s.take(0) + seq![d] + s.skip(0));
    } else if s[0].fill_date <= d.fill_date {
        lemma_insert_shape(s.drop_first(), d);
        let p = insert_pos(s, d);
        let pf = insert_pos(s.drop_first(), d);
        assert(p == 1 + pf);
        assert forall|m: int| 0 <= m < p implies #[trigger] s[m].fill_date <= d.fill_date by {
            if m > 0 {
                assert(s[m] == s.drop_first()[m - 1]);
            }
        }
        assert(insert_by_date(s, d) == seq![s[0]] + insert_by_date(s.drop_first(), d));
        assert(insert_by_date(s, d) =~= s.take(p) + seq![d] + s.skip(p));
    } else {
        assert(insert_by_date(s, d) =~= s.take(0) + seq![d] + s.skip(0));
    }
}

/// Stable insertion keeps the sequence sorted by fill date.
pub proof fn lemma_insert_sorted(s: Seq<DoseRecord>, d: DoseRecord)
    requires
        sorted_by_date(s),
    ensures
        sorted_by_date(insert_by_date(s, d)),
        insert_by_date(s, d).len() == s.len() + 1,
{
    lemma_insert_shape(s, d);
    let p = insert_pos(s, d);
    let r = insert_by_date(s, d);
    assert forall|i: int, j: int| 0 <= i < j < r.len() implies #[trigger] r[i].fill_date
        <= #[trigger] r[j].fill_date by {
        assert(i < p ==> r[i] == s[i]);
        assert(i == p ==> r[i] == d);
        assert(i > p ==> r[i] == s[i - 1]);
        assert(j < p ==> r[j] == s[j]);
        assert(j == p ==> r[j] == d);
        assert(j > p ==> r[j] == s[j - 1]);
    }
}

/// The sort is sorted and keeps the length.
pub proof fn lemma_sort_sorted(s: Seq<DoseRecord>)
    ensures
        sorted_by_date(sort_by_date(s)),
        sort_by_date(s).len() == s.len(),
    decreases s.len(),
{
    if s.len() > 0 {
        lemma_sort_sorted(s.drop_last());
        lemma_insert_sorted(sort_by_date(s.drop_last()), s.last());
    }
}

/// A sequence already sorted by fill date is a fixed point of the sort:
/// the tie-break keeps input order.
pub proof fn lemma_sort_of_sorted(s: Seq<DoseRecord>)
    requires
        sorted_by_date(s),
    ensures
        sort_by_date(s) == s,
    decreases s.len(),
{
    if s.len() > 0 {
        let t = s.drop_last();
        assert(sorted_by_date(t)) by {
            assert(forall|i: int, j: int| 0 <= i < j < t.len() ==> t[i] == s[i] && t[j] == s[j]);
        }
        lemma_sort_of_sorted(t);
        let d = s.last();
        lemma_insert_shape(t, d);
        let p = insert_pos(t, d);
        if p < t.len() {
            assert(t[p] == s[p]);
            assert(s[p].fill_date <= s[s.len() - 1].fill_date);
            assert(false);
        }
        assert(insert_by_date(t, d) =~= s);
    }
}

/// Sorting twice is sorting once: the coverage builder is idempotent over
/// its input order.
pub proof fn lemma_sort_idempotent(s: Seq<DoseRecord>)
    ensures
        sort_by_date(sort_by_date(s)) == sort_by_date(s),
{
    lemma_sort_sorted(s);
    lemma_sort_of_sorted(sort_by_date(s));
}

/// Sorting keeps every record valid, and keeps the length.
pub proof fn lemma_sort_valid(s: Seq<DoseRecord>)
    requires
        all_valid(s),
    ensures
        all_valid(sort_by_date(s)),
        sort_by_date(s).len() == s.len(),
    decreases s.len(),
{
    lemma_sort_sorted(s);
    if s.len() > 0 {
        let t = s.drop_last();
        assert(all_valid(t)) by {
            assert(forall|i: int| 0 <= i < t.len() ==> t[i] == s[i]);
        }
        lemma_sort_valid(t);
        let st = sort_by_date(t);
        let d = s.last();
        lemma_insert_shape(st, d);
        let p = insert_pos(st, d);
        let r = insert_by_date(st, d);
        assert(d.valid());
        assert forall|i: int| 0 <= i < r.len() implies #[trigger] r[i].valid() by {
            assert(i < p ==> r[i] == st[i]);
            assert(i == p ==> r[i] == d);
            assert(i > p ==> r[i] == st[i - 1]);
        }
    }
}

/// Bounds of the effective intervals of valid doses: each interval is
/// nonempty, starts strictly after the prior one ends, and stays within
/// day-number range plus one supply span per dose.
pub proof fn lemma_eff_bounds(s: Seq<DoseRecord>, i: int)
    requires
        all_valid(s),
        0 <= i < s.len(),
    ensures
        eff_start_at(s, i) <= eff_end_at(s, i),
        eff_end_at(s, i) < eff_start_at(s, i) + 65536,
        i > 0 ==> eff_start_at(s, i) > eff_end_at(s, i - 1),
        crate::dates::DAY_MIN <= eff_start_at(s, i),
        eff_end_at(s, i) <= crate::dates::DAY_MAX + (i + 1) * 65535,
    decreases i,
{
    assert(s[i].valid());
    if i > 0 {
        lemma_eff_bounds(s, i - 1);
    }
}

/// The union of the first `n` effective intervals is finite and lies
/// between the first effective start and the last effective end, both of
/// which it contains.
pub proof fn lemma_covered_bounds(s: Seq<DoseRecord>, n: int)
    requires
        all_valid(s),
        1 <= n <= s.len(),
    ensures
        covered_upto(s, n).finite(),
        forall|d: int| covered_upto(s, n).contains(d) ==> eff_start_at(s, 0) <= d <= eff_end_at(
            s,
            n - 1,
        ),
        covered_upto(s, n).contains(eff_start_at(s, 0)),
        covered_upto(s, n).contains(eff_end_at(s, n - 1)),
        eff_start_at(s, 0) <= eff_end_at(s, n - 1),
    decreases n,
{
    broadcast use vstd::set::group_set_axioms;

    lemma_eff_bounds(s, n - 1);
    lemma_int_range(eff_start_at(s, n - 1), eff_end_at(s, n - 1) + 1);
    let rng = set_int_range(eff_start_at(s, n - 1), eff_end_at(s, n - 1) + 1);
    if n == 1 {
        assert(covered_upto(s, 0) =~= Set::empty());
        assert(covered_upto(s, 1) =~= rng);
    } else {
        lemma_covered_bounds(s, n - 1);
        assert(eff_end_at(s, n - 2) < eff_end_at(s, n - 1));
        assert forall|d: int| covered_upto(s, n).contains(d) implies eff_start_at(s, 0) <= d
            <= eff_end_at(s, n - 1) by {
            if covered_upto(s, n - 1).contains(d) {
            } else {
                assert(rng.contains(d));
            }
        }
    }
}

/// Appending a day to a day vector adds exactly that day to its set.
pub proof fn lemma_day_set_push(v: Seq<i64>, x: i64)
    ensures
        day_set(v.push(x)) == day_set(v).insert(x as int),
{
    let f = |y: i64| y as int;
    assert(v.push(x).map_values(f) =~= v.map_values(f).push(x as int));
    v.map_values(f).lemma_push_to_set_commute(x as int);
    assert(day_set(v.push(x)) =~= day_set(v).insert(x as int));
}

/// A strictly increasing day vector holds as many days as its set.
pub proof fn lemma_day_set_card(v: Seq<i64>)
    requires
        strictly_increasing(v),
    ensures
        day_set(v).finite(),
        day_set(v).len() == v.len(),
{
    broadcast use vstd::seq_lib::seq_to_set_is_finite;

    let f = |y: i64| y as int;
    let m = v.map_values(f);
    assert forall|i: int, j: int| 0 <= i < m.len() && 0 <= j < m.len() && i != j implies m[i]
        != m[j] by {
        if i < j {
            assert(v[i] < v[j]);
        } else {
            assert(v[j] < v[i]);
        }
    }
    assert(m.no_duplicates());
    m.unique_seq_to_set();
}

/// Stable insertion sort of a dose list by fill date.
#[verifier::loop_isolation(false)]
pub fn sort_doses(doses: &Vec<DoseRecord>) -> (r: Vec<DoseRecord>)
    ensures
        r@ == sort_by_date(doses@),
        sorted_by_date(r@),
{
    let mut out: Vec<DoseRecord> = Vec::new();
    let mut i: usize = 0;
    while i < doses.len()
        invariant
            i <= doses@.len(),
            out@ == sort_by_date(doses@.take(i as int)),
            sorted_by_date(out@),
        decreases doses@.len() - i,
    {
        let d = doses[i].duplicate();
        let ghost pre = out@;
        let mut j: usize = 0;
        while j < out.len() && out[j].fill_date <= d.fill_date
            invariant
                j <= out@.len(),
                forall|m: int| 0 <= m < j ==> #[trigger] out@[m].fill_date <= d.fill_date,
            decreases out@.len() - j,
        {
            j += 1;
        }
        proof {
            lemma_insert_shape(pre, d);
            let p = insert_pos(pre, d);
            assert(j as int == p) by {
                if (j as int) < p {
                    assert(pre[j as int].fill_date <= d.fill_date);
                }
                if p < j as int {
                    assert(pre[p].fill_date <= d.fill_date);
                }
            }
        }
        out.insert(j, d);
        proof {
            assert(out@ =~= pre.take(j as int) + seq![d] + pre.skip(j as int));
            assert(out@ == insert_by_date(pre, d));
            lemma_insert_sorted(pre, d);
            assert(doses@.take(i as int + 1).drop_last() =~= doses@.take(i as int));
            assert(doses@.take(i as int + 1).last() == doses@[i as int]);
            assert(out@ == sort_by_date(doses@.take(i as int + 1)));
        }
        i += 1;
    }
    proof {
        assert(doses@.take(doses@.len() as int) =~= doses@);
    }
    out
}

/// For well-spaced doses — each fill date strictly after the previous
/// dose's nominal run-out — no shift happens: every effective interval is
/// the nominal one.
pub proof fn lemma_well_spaced_no_shift(s: Seq<DoseRecord>, i: int)
    requires
        all_valid(s),
        0 <= i < s.len(),
        forall|k: int| 1 <= k < s.len() ==> #[trigger] s[k].fill_date > s[k - 1].fill_date + s[k
            - 1].days_supply - 1,
    ensures
        eff_start_at(s, i) == s[i].fill_date,
        eff_end_at(s, i) == s[i].fill_date + s[i].days_supply - 1,
    decreases i,
{
    if i > 0 {
        lemma_well_spaced_no_shift(s, i - 1);
    }
}

/// For an early refill — a fill date on or before the prior effective
/// end — the effective start is exactly the day after that end: no gap,
/// no overlap.
pub proof fn lemma_early_refill_shift(s: Seq<DoseRecord>, i: int)
    requires
        1 <= i < s.len(),
        s[i].fill_date <= eff_end_at(s, i - 1),
    ensures
        eff_start_at(s, i) == eff_end_at(s, i - 1) + 1,
{
}

/// When every later dose is filled no later than the day after the prior
/// effective end, the intervals tile the window: the covered days are
/// exactly the window and their count is the window length, with no double
/// counting from adjacency.
pub proof fn lemma_contiguous_window(s: Seq<DoseRecord>, n: int)
    requires
        all_valid(s),
        1 <= n <= s.len(),
        forall|k: int| 1 <= k < n ==> #[trigger] s[k].fill_date <= eff_end_at(s, k - 1) + 1,
    ensures
        covered_upto(s, n) == set_int_range(eff_start_at(s, 0), eff_end_at(s, n - 1) + 1),
        covered_upto(s, n).len() == eff_end_at(s, n - 1) - eff_start_at(s, 0) + 1,
    decreases n,
{
    lemma_eff_bounds(s, n - 1);
    if n == 1 {
        assert(covered_upto(s, 0) =~= Set::empty());
        assert(covered_upto(s, 1) =~= set_int_range(eff_start_at(s, 0), eff_end_at(s, 0) + 1));
    } else {
        lemma_contiguous_window(s, n - 1);
        assert(eff_start_at(s, n - 1) == eff_end_at(s, n - 2) + 1);
        assert(covered_upto(s, n) =~= set_int_range(eff_start_at(s, 0), eff_end_at(s, n - 1) + 1));
    }
    lemma_covered_bounds(s, n);
    lemma_int_range(eff_start_at(s, 0), eff_end_at(s, n - 1) + 1);
}

/// Running the coverage builder on an already sorted dose list yields the
/// same calendar as running it on the raw list: the builder is idempotent.
pub proof fn lemma_calendar_idempotent(
    cal1: CoverageCalendar,
    cal2: CoverageCalendar,
    doses: Seq<DoseRecord>,
)
    requires
        cal1.matches_doses(doses),
        cal2.matches_doses(sort_by_date(doses)),
    ensures
        cal1.window_start == cal2.window_start,
        cal1.window_end == cal2.window_end,
        cal1.covered_day_set() == cal2.covered_day_set(),
{
    lemma_sort_idempotent(doses);
}

/// The coverage calendar of one drug for one patient: the observation
/// window and the covered days, held as a strictly increasing day vector.
/// Fully recomputed from the dose list; never updated incrementally.
#[derive(Debug)]
pub struct CoverageCalendar {
    pub window_start: i64,
    pub window_end: i64,
    pub covered_dates: Vec<i64>,
}

impl CoverageCalendar {
    /// The covered days as a set.
    pub open spec fn covered_day_set(self) -> Set<int> {
        day_set(self.covered_dates@)
    }

    /// Number of days in the observation window.
    pub open spec fn window_len(self) -> int {
        self.window_end - self.window_start + 1
    }

    /// Shape every built calendar has: an ordered, distinct day vector that
    /// starts and ends exactly on the window bounds.
    pub open spec fn wf(self) -> bool {
        &&& strictly_increasing(self.covered_dates@)
        &&& self.covered_dates@.len() >= 1
        &&& self.covered_dates@[0] == self.window_start
        &&& self.covered_dates@.last() == self.window_end
    }

    /// The calendar is the one the sorted dose sequence `s` derives.
    pub open spec fn matches_sorted(self, s: Seq<DoseRecord>) -> bool {
        &&& self.window_start == eff_start_at(s, 0)
        &&& self.window_end == eff_end_at(s, s.len() - 1)
        &&& self.covered_day_set() == covered_upto(s, s.len() as int)
    }

    /// The calendar is the one derived from the dose list `doses` after the
    /// stable sort by fill date.
    pub open spec fn matches_doses(self, doses: Seq<DoseRecord>) -> bool {
        self.matches_sorted(sort_by_date(doses))
    }
}

/// Derives the coverage calendar of one drug's dose list: sorts by fill
/// date (stable), walks the doses shifting early refills to the day after
/// the prior effective end, and collects every covered day once.
#[verifier::loop_isolation(false)]
pub fn create_calendar(doses: &Vec<DoseRecord>) -> (cal: CoverageCalendar)
    requires
        doses@.len() >= 1,
        dose_count_ok(doses@.len() as int),
        all_valid(doses@),
    ensures
        cal.wf(),
        cal.matches_doses(doses@),
{
    proof {
        lemma_sort_valid(doses@);
        lemma_sort_sorted(doses@);
    }
    let sorted = sort_doses(doses);
    let ghost s = sorted@;
    let n = sorted.len();
    let mut covered: Vec<i64> = Vec::new();
    let mut ws: i64 = 0;
    let mut prior_end: i64 = 0;
    let mut i: usize = 0;
    while i < n
        invariant
            i <= n,
            i > 0 ==> ws == eff_start_at(s, 0),
            i > 0 ==> prior_end == eff_end_at(s, i - 1),
            strictly_increasing(covered@),
            day_set(covered@) == covered_upto(s, i as int),
            i > 0 ==> covered@.len() >= 1 && covered@[0] == ws && covered@.last() == prior_end,
            i == 0 ==> covered@.len() == 0,
        decreases n - i,
    {
        proof {
            lemma_eff_bounds(s, i as int);
            if i > 0 {
                lemma_eff_bounds(s, i as int - 1);
            }
        }
        let d = &sorted[i];
        let es: i64 = if i == 0 || d.fill_date > prior_end {
            d.fill_date
        } else {
            prior_end + 1
        };
        let ee: i64 = es + (d.days_supply as i64) - 1;
        proof {
            assert(es == eff_start_at(s, i as int));
            assert(ee == eff_end_at(s, i as int));
        }
        let ghost base = covered@;
        let mut day: i64 = es;
        while day <= ee
            invariant
                es <= day <= ee + 1,
                strictly_increasing(covered@),
                covered@.len() > 0 ==> covered@.last() < day,
                day_set(covered@) == covered_upto(s, i as int).union(
                    set_int_range(es as int, day as int),
                ),
                day == es ==> covered@ == base,
                day > es ==> covered@.len() > 0 && covered@.last() == day - 1,
                i == 0 && day > es ==> covered@[0] == es,
                i > 0 ==> covered@.len() > 0 && covered@[0] == ws,
            decreases ee + 1 - day,
        {
            proof {
                lemma_day_set_push(covered@, day);
                assert(covered_upto(s, i as int).union(set_int_range(es as int, day as int)).insert(
                    day as int,
                ) =~= covered_upto(s, i as int).union(set_int_range(es as int, day + 1)));
            }
            covered.push(day);
            day = day + 1;
        }
        proof {
            assert(day_set(covered@) == covered_upto(s, i as int).union(
                set_int_range(es as int, ee + 1),
            ));
            assert(covered_upto(s, i as int + 1) == covered_upto(s, i as int).union(
                set_int_range(eff_start_at(s, i as int), eff_end_at(s, i as int) + 1),
            ));
        }
        if i == 0 {
            ws = es;
        }
        prior_end = ee;
        i += 1;
    }
    CoverageCalendar { window_start: ws, window_end: prior_end, covered_dates: covered }
}

} // verus!
