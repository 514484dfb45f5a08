//! What a run over all fields comes to.
//!
//! Numbers are in billionths of the unit that their name gives.

use vstd::prelude::*;
use vstd::string::*;

use crate::harness::Outcome;

verus! {

/// How long nineteen in twenty solutions may take: 300 milliseconds.
pub const SOLVE_P95_TARGET_MS: i64 = 300_000_000_000;

/// Whether numbers are in order, the smallest first.
pub open spec fn is_sorted(values: Seq<i64>) -> bool {
    forall|i: int, j: int|
        0 <= i <= j < values.len() ==> #[trigger] values[i] <= #[trigger] values[j]
}

/// The rank of a percentile: the least number of values that make up that part, one at least.
pub open spec fn rank_of(count: int, permille: int) -> int {
    let rank = (permille * count + 999) / 1000;
    if rank < 1 {
        1
    } else {
        rank
    }
}

/// The value of the nearest rank among sorted values, if there are any. The part is given in
/// thousandths.
pub open spec fn percentile_of(sorted: Seq<i64>, permille: int) -> Option<i64> {
    if sorted.len() == 0 {
        None
    } else {
        Some(sorted[rank_of(sorted.len() as int, permille) - 1])
    }
}

/// The rank of a percentile is that of a value.
proof fn lemma_rank_range(count: int, permille: int)
    requires
        count > 0,
        0 <= permille <= 1000,
    ensures
        1 <= rank_of(count, permille) <= count,
        0 <= permille * count <= 1000 * count,
{
    assert(0 <= permille * count <= 1000 * count) by (nonlinear_arith)
        requires
            count > 0,
            0 <= permille <= 1000,
    ;
}

/// Finds a percentile of sorted values.
pub fn percentile(sorted: &Vec<i64>, permille: u32) -> (r: Option<i64>)
    requires
        permille <= 1000,
    ensures
        r == percentile_of(sorted@, permille as int),
{
    let count: usize = sorted.len();
    if count == 0 {
        return None;
    }
    proof {
        lemma_rank_range(count as int, permille as int);
    }
    let part: u128 = permille as u128 * count as u128;
    let mut rank: usize = ((part + 999) / 1000) as usize;
    if rank < 1 {
        rank = 1;
    }
    Some(sorted[rank - 1])
}

/// A larger part has no smaller percentile, and every percentile is one of the values.
pub proof fn law_percentiles_go_up(sorted: Seq<i64>, a: int, b: int)
    requires
        is_sorted(sorted),
        sorted.len() > 0,
        0 <= a <= b <= 1000,
    ensures
        percentile_of(sorted, a)->0 <= percentile_of(sorted, b)->0,
        sorted.contains(percentile_of(sorted, a)->0),
        percentile_of(sorted, 1000) == Some(sorted.last()),
{
    let count = sorted.len() as int;
    lemma_rank_range(count, a);
    lemma_rank_range(count, b);
    assert(a * count <= b * count) by (nonlinear_arith)
        requires
            a <= b,
            count > 0,
    ;
    assert(sorted[rank_of(count, a) - 1] <= sorted[rank_of(count, b) - 1]);
}

/// The values that are known, in order of appearance.
pub open spec fn known(values: Seq<Option<i64>>) -> Seq<i64>
    decreases values.len(),
{
    if values.len() == 0 {
        Seq::empty()
    } else {
        match values.last() {
            Some(value) => known(values.drop_last()).push(value),
            None => known(values.drop_last()),
        }
    }
}

/// Puts a value into sorted ones.
fn insert_sorted(sorted: &mut Vec<i64>, value: i64)
    requires
        is_sorted(old(sorted)@),
    ensures
        is_sorted(final(sorted)@),
        final(sorted)@.to_multiset() == old(sorted)@.to_multiset().insert(value),
{
    let mut at: usize = sorted.len();
    while at > 0 && sorted[at - 1] > value
        invariant
            at <= sorted@.len(),
            is_sorted(sorted@),
            forall|j: int| at <= j < sorted@.len() ==> sorted@[j] > value,
        decreases at,
    {
        at = at - 1;
    }
    let ghost before = sorted@;
    sorted.insert(at, value);
    assert(is_sorted(sorted@)) by {
        assert forall|i: int, j: int| 0 <= i <= j < sorted@.len() implies #[trigger] sorted@[i]
            <= #[trigger] sorted@[j] by {
            if j < at {
                assert(sorted@[i] == before[i] && sorted@[j] == before[j]);
            } else if i < at {
                assert(sorted@[i] == before[i]);
                assert(before[i] <= before[at - 1]);
            } else if i > at {
                assert(sorted@[i] == before[i - 1] && sorted@[j] == before[j - 1]);
            } else if j > at {
                assert(sorted@[j] == before[j - 1]);
            }
        }
    }
    proof {
        before.to_multiset_ensures();
        vstd::seq_lib::to_multiset_insert(before, at as int, value);
    }
}

/// Sorts the values that are known.
pub fn sorted_finite(values: &Vec<Option<i64>>) -> (sorted: Vec<i64>)
    ensures
        is_sorted(sorted@),
        sorted@.to_multiset() == known(values@).to_multiset(),
{
    let mut sorted: Vec<i64> = Vec::new();
    let total: usize = values.len();
    let mut i: usize = 0;
    assert(values@.take(0) =~= Seq::<Option<i64>>::empty());
    while i < total
        invariant
            i <= total,
            total == values@.len(),
            is_sorted(sorted@),
            sorted@.to_multiset() == known(values@.take(i as int)).to_multiset(),
        decreases total - i,
    {
        assert(values@.take(i + 1).drop_last() =~= values@.take(i as int));
        if let Some(value) = values[i] {
            insert_sorted(&mut sorted, value);
            proof {
                known(values@.take(i as int)).to_multiset_ensures();
            }
        }
        i = i + 1;
    }
    assert(values@.take(total as int) =~= values@);
    sorted
}

/// What a run comes to. What is not known is missing.
#[derive(Clone, Copy, Debug, PartialEq, Eq, Structural)]
pub struct Summary {
    /// How many fields there are.
    pub total: usize,
    /// How many have a solution.
    pub solved: usize,
    /// How many have a good one.
    pub passed: usize,
    /// How far off centers are, in the middle.
    pub center_med_arcmin: Option<i64>,
    /// How far off centers are, at most.
    pub center_max_arcmin: Option<i64>,
    /// How far off rolls are, at most.
    pub roll_max_deg: Option<i64>,
    /// How far off fields of view are, in the middle.
    pub fov_med_frac: Option<i64>,
    /// How far off fields of view are, at most.
    pub fov_max_frac: Option<i64>,
    /// How long solutions take, in the middle.
    pub solve_p50_ms: Option<i64>,
    /// How long nineteen in twenty solutions take, at most.
    pub solve_p95_ms: Option<i64>,
    /// How long solutions take, at most.
    pub solve_max_ms: Option<i64>,
}

/// A run over all fields.
#[derive(Debug)]
pub struct Report {
    /// The name of the solver.
    pub solver: String,
    /// How its solutions were judged.
    pub outcomes: Vec<Outcome>,
}

/// Which number of an outcome is looked at.
#[derive(Clone, Copy, Debug, PartialEq, Eq, Structural)]
pub enum Measure {
    /// How far off the center is.
    Center,
    /// How far off the roll is, either way.
    Roll,
    /// How far off the field of view is.
    Fov,
    /// How long the solution took.
    Time,
}

/// A number of an outcome, where there is a solution.
pub open spec fn measured(outcome: Outcome, measure: Measure) -> Option<i64> {
    if !outcome.solved {
        None
    } else {
        match measure {
            Measure::Center => outcome.center_arcmin,
            Measure::Roll => match outcome.roll_err_deg {
                Some(roll) => Some(
                    (if roll < 0 {
                        -roll
                    } else {
                        roll as int
                    }) as i64,
                ),
                None => None,
            },
            Measure::Fov => outcome.fov_err_frac,
            Measure::Time => outcome.solve_time_ms,
        }
    }
}

/// A number of each outcome.
pub open spec fn all_measured(outcomes: Seq<Outcome>, measure: Measure) -> Seq<Option<i64>> {
    Seq::new(outcomes.len(), |i: int| measured(outcomes[i], measure))
}

/// Whether values are those known of a number, in order.
pub open spec fn are_sorted_measures(
    sorted: Seq<i64>,
    outcomes: Seq<Outcome>,
    measure: Measure,
) -> bool {
    &&& is_sorted(sorted)
    &&& sorted.to_multiset() == known(all_measured(outcomes, measure)).to_multiset()
}

/// How many outcomes have a solution.
pub open spec fn count_solved(outcomes: Seq<Outcome>) -> int
    decreases outcomes.len(),
{
    if outcomes.len() == 0 {
        0
    } else {
        count_solved(outcomes.drop_last()) + (if outcomes.last().solved {
            1int
        } else {
            0
        })
    }
}

/// How many outcomes have a good solution.
pub open spec fn count_passed(outcomes: Seq<Outcome>) -> int
    decreases outcomes.len(),
{
    if outcomes.len() == 0 {
        0
    } else {
        count_passed(outcomes.drop_last()) + (if outcomes.last().is_pass() {
            1int
        } else {
            0
        })
    }
}

/// The last of some values, if there are any.
pub open spec fn last_of(values: Seq<i64>) -> Option<i64> {
    if values.len() == 0 {
        None
    } else {
        Some(values.last())
    }
}

/// Whether every roll has a size that fits.
pub open spec fn rolls_fit(outcomes: Seq<Outcome>) -> bool {
    forall|i: int|
        0 <= i < outcomes.len() ==> ((#[trigger] outcomes[i]).roll_err_deg matches Some(roll)
            ==> roll > i64::MIN)
}

/// Looks at a number of each outcome and sorts those known.
fn sorted_measures(outcomes: &Vec<Outcome>, measure: Measure) -> (sorted: Vec<i64>)
    requires
        rolls_fit(outcomes@),
    ensures
        are_sorted_measures(sorted@, outcomes@, measure),
{
    let mut values: Vec<Option<i64>> = Vec::new();
    let total: usize = outcomes.len();
    let mut i: usize = 0;
    while i < total
        invariant
            i <= total,
            total == outcomes@.len(),
            rolls_fit(outcomes@),
            values@ == all_measured(outcomes@, measure).take(i as int),
        decreases total - i,
    {
        let outcome: &Outcome = &outcomes[i];
        let value: Option<i64> = if !outcome.solved {
            None
        } else {
            match measure {
                Measure::Center => outcome.center_arcmin,
                Measure::Roll => match outcome.roll_err_deg {
                    Some(roll) => Some(if roll < 0 { -roll } else { roll }),
                    None => None,
                },
                Measure::Fov => outcome.fov_err_frac,
                Measure::Time => outcome.solve_time_ms,
            }
        };
        values.push(value);
        i = i + 1;
        assert(values@ =~= all_measured(outcomes@, measure).take(i as int));
    }
    assert(values@ =~= all_measured(outcomes@, measure));
    sorted_finite(&values)
}

/// The last of some values, if there are any.
fn last_value(values: &Vec<i64>) -> (last: Option<i64>)
    ensures
        last == last_of(values@),
{
    if values.len() == 0 {
        None
    } else {
        Some(values[values.len() - 1])
    }
}

impl Report {
    /// Reports on a run.
    pub fn new(solver: &str, outcomes: Vec<Outcome>) -> (report: Report)
        ensures
            report.solver@ == solver@,
            report.outcomes == outcomes,
    {
        Report { solver: solver.to_owned(), outcomes }
    }

    /// Whether a summary is the one of this run, with the numbers of its solutions sorted.
    pub open spec fn is_summary(
        &self,
        summary: Summary,
        centers: Seq<i64>,
        rolls: Seq<i64>,
        fovs: Seq<i64>,
        times: Seq<i64>,
    ) -> bool {
        &&& summary.total == self.outcomes@.len()
        &&& summary.solved == count_solved(self.outcomes@)
        &&& summary.passed == count_passed(self.outcomes@)
        &&& summary.center_med_arcmin == percentile_of(centers, 500)
        &&& summary.center_max_arcmin == last_of(centers)
        &&& summary.roll_max_deg == last_of(rolls)
        &&& summary.fov_med_frac == percentile_of(fovs, 500)
        &&& summary.fov_max_frac == last_of(fovs)
        &&& summary.solve_p50_ms == percentile_of(times, 500)
        &&& summary.solve_p95_ms == percentile_of(times, 950)
        &&& summary.solve_max_ms == last_of(times)
    }

    /// Sums a run up.
    pub fn summary(&self) -> (summary: Summary)
        requires
            rolls_fit(self.outcomes@),
        ensures
            exists|centers: Seq<i64>, rolls: Seq<i64>, fovs: Seq<i64>, times: Seq<i64>|
                {
                    &&& are_sorted_measures(centers, self.outcomes@, Measure::Center)
                    &&& are_sorted_measures(rolls, self.outcomes@, Measure::Roll)
                    &&& are_sorted_measures(fovs, self.outcomes@, Measure::Fov)
                    &&& are_sorted_measures(times, self.outcomes@, Measure::Time)
                    &&& #[trigger] self.is_summary(summary, centers, rolls, fovs, times)
                },
    {
        let centers: Vec<i64> = sorted_measures(&self.outcomes, Measure::Center);
        let rolls: Vec<i64> = sorted_measures(&self.outcomes, Measure::Roll);
        let fovs: Vec<i64> = sorted_measures(&self.outcomes, Measure::Fov);
        let times: Vec<i64> = sorted_measures(&self.outcomes, Measure::Time);
        let total: usize = self.outcomes.len();
        let mut solved: usize = 0;
        let mut passed: usize = 0;
        let mut i: usize = 0;
        while i < total
            invariant
                i <= total,
                total == self.outcomes@.len(),
                solved <= i,
                passed <= i,
                solved == count_solved(self.outcomes@.take(i as int)),
                passed == count_passed(self.outcomes@.take(i as int)),
            decreases total - i,
        {
            assert(self.outcomes@.take(i + 1).drop_last() =~= self.outcomes@.take(i as int));
            if self.outcomes[i].solved {
                solved = solved + 1;
            }
            if self.outcomes[i].passed() {
                passed = passed + 1;
            }
            i = i + 1;
        }
        assert(self.outcomes@.take(total as int) =~= self.outcomes@);
        let summary = Summary {
            total,
            solved,
            passed,
            center_med_arcmin: percentile(&centers, 500),
            center_max_arcmin: last_value(&centers),
            roll_max_deg: last_value(&rolls),
            fov_med_frac: percentile(&fovs, 500),
            fov_max_frac: last_value(&fovs),
            solve_p50_ms: percentile(&times, 500),
            solve_p95_ms: percentile(&times, 950),
            solve_max_ms: last_value(&times),
        };
        assert(self.is_summary(summary, centers@, rolls@, fovs@, times@));
        summary
    }

    /// Which outcomes are not good, by their index.
    pub open spec fn failed(outcomes: Seq<Outcome>) -> Seq<usize>
        decreases outcomes.len(),
    {
        if outcomes.len() == 0 {
            Seq::empty()
        } else {
            let front = Report::failed(outcomes.drop_last());
            if outcomes.last().is_pass() {
                front
            } else {
                front.push((outcomes.len() - 1) as usize)
            }
        }
    }

    /// Lists the outcomes that are not good, by their index.
    pub fn failures(&self) -> (list: Vec<usize>)
        ensures
            list@ == Report::failed(self.outcomes@),
    {
        let mut list: Vec<usize> = Vec::new();
        let total: usize = self.outcomes.len();
        let mut i: usize = 0;
        while i < total
            invariant
                i <= total,
                total == self.outcomes@.len(),
                list@ == Report::failed(self.outcomes@.take(i as int)),
            decreases total - i,
        {
            assert(self.outcomes@.take(i + 1).drop_last() =~= self.outcomes@.take(i as int));
            if !self.outcomes[i].passed() {
                list.push(i);
            }
            i = i + 1;
        }
        assert(self.outcomes@.take(total as int) =~= self.outcomes@);
        list
    }
}

/// Every outcome is good or listed as a failure.
pub proof fn law_failures_are_the_rest(outcomes: Seq<Outcome>)
    ensures
        count_passed(outcomes) + Report::failed(outcomes).len() == outcomes.len(),
    decreases outcomes.len(),
{
    if outcomes.len() > 0 {
        law_failures_are_the_rest(outcomes.drop_last());
    }
}

/// No good outcome is without a solution.
pub proof fn law_passed_are_solved(outcomes: Seq<Outcome>)
    ensures
        0 <= count_passed(outcomes) <= count_solved(outcomes) <= outcomes.len(),
    decreases outcomes.len(),
{
    if outcomes.len() > 0 {
        law_passed_are_solved(outcomes.drop_last());
    }
}

/// A percentile is one of the values, with as many values up to it as the part asks for, and no
/// more than it takes.
pub proof fn law_percentile_splits_the_values(sorted: Vec<i64>, permille: u32, found: Option<i64>)
    requires
        permille <= 1000,
        call_ensures(percentile, (&sorted, permille), found),
    ensures
        found is None <==> sorted@.len() == 0,
        found matches Some(value) ==> exists|k: int|
            {
                &&& 1 <= k <= sorted@.len()
                &&& #[trigger] sorted@[k - 1] == value
                &&& 1000 * k >= permille * sorted@.len()
                &&& k == 1 || 1000 * (k - 1) < permille * sorted@.len()
            },
{
    if sorted@.len() > 0 {
        let count = sorted@.len() as int;
        lemma_rank_range(count, permille as int);
        let k = rank_of(count, permille as int);
        assert(sorted@[k - 1] == found->0);
    }
}

/// The values that are known.
proof fn lemma_known_values(values: Seq<Option<i64>>, value: i64)
    ensures
        known(values).contains(value) <==> values.contains(Some(value)),
        known(values).len() <= values.len(),
    decreases values.len(),
{
    if values.len() > 0 {
        let front = values.drop_last();
        lemma_known_values(front, value);
        let shorter = known(front);
        let longer = known(values);
        if values.contains(Some(value)) {
            let i = choose|i: int| 0 <= i < values.len() && values[i] == Some(value);
            if i < front.len() {
                assert(front[i] == Some(value));
                assert(shorter.contains(value));
                let j = choose|j: int| 0 <= j < shorter.len() && shorter[j] == value;
                assert(longer[j] == value);
            } else {
                assert(longer[longer.len() - 1] == value);
            }
        }
        if longer.contains(value) {
            let j = choose|j: int| 0 <= j < longer.len() && longer[j] == value;
            if j < shorter.len() {
                assert(shorter[j] == value);
                assert(front.contains(Some(value)));
                let i = choose|i: int| 0 <= i < front.len() && front[i] == Some(value);
                assert(values[i] == Some(value));
            } else {
                assert(values[values.len() - 1] == Some(value));
            }
        }
    }
}

/// Sorting keeps the values that are known, and no others, in order.
pub proof fn law_sorting_keeps_the_known(
    values: Vec<Option<i64>>,
    sorted: Vec<i64>,
    value: i64,
    i: int,
    j: int,
)
    requires
        call_ensures(sorted_finite, (&values,), sorted),
    ensures
        sorted@.contains(value) <==> values@.contains(Some(value)),
        sorted@.len() <= values@.len(),
        0 <= i <= j < sorted@.len() ==> sorted@[i] <= sorted@[j],
{
    lemma_known_values(values@, value);
    lemma_same_values(sorted@, known(values@), value);
}

/// Sequences of the same values hold the same.
proof fn lemma_same_values(a: Seq<i64>, b: Seq<i64>, value: i64)
    requires
        a.to_multiset() == b.to_multiset(),
    ensures
        a.contains(value) <==> b.contains(value),
        a.len() == b.len(),
{
    a.to_multiset_ensures();
    b.to_multiset_ensures();
    assert(a.contains(value) <==> a.to_multiset().count(value) > 0);
    assert(b.contains(value) <==> b.to_multiset().count(value) > 0);
    assert(a.len() == a.to_multiset().len());
}

/// The most of a number, among sorted ones, is that of one of the solutions, and no less than any.
proof fn lemma_most_measured(sorted: Seq<i64>, outcomes: Seq<Outcome>, measure: Measure, i: int)
    requires
        are_sorted_measures(sorted, outcomes, measure),
        0 <= i < outcomes.len(),
    ensures
        measured(outcomes[i], measure) matches Some(value) ==> (last_of(sorted) matches Some(most)
            && value <= most),
        last_of(sorted) matches Some(most) ==> exists|k: int|
            0 <= k < outcomes.len() && measured(#[trigger] outcomes[k], measure) == Some(most),
{
    let all = all_measured(outcomes, measure);
    if let Some(value) = measured(outcomes[i], measure) {
        assert(all[i] == Some(value));
        lemma_known_values(all, value);
        lemma_same_values(sorted, known(all), value);
        let at = choose|at: int| 0 <= at < sorted.len() && sorted[at] == value;
        assert(sorted[at] <= sorted[sorted.len() - 1]);
    }
    if let Some(most) = last_of(sorted) {
        assert(sorted[sorted.len() - 1] == most);
        assert(sorted.contains(most));
        lemma_same_values(sorted, known(all), most);
        lemma_known_values(all, most);
        let k = choose|k: int| 0 <= k < all.len() && all[k] == Some(most);
        assert(measured(outcomes[k], measure) == Some(most));
    }
}

/// The most in a summary is that of one of the solutions, and no solution has more: of centers,
/// fields of view and times, and of rolls either way.
pub proof fn law_summary_has_the_most(report: Report, summary: Summary, i: int)
    requires
        rolls_fit(report.outcomes@),
        0 <= i < report.outcomes@.len(),
        report.outcomes@[i].solved,
        call_ensures(Report::summary, (&report,), summary),
    ensures
        ({
            let outcome = report.outcomes@[i];
            &&& outcome.center_arcmin matches Some(value) ==> (
            summary.center_max_arcmin matches Some(most) && value <= most)
            &&& outcome.roll_err_deg matches Some(value) ==> (summary.roll_max_deg matches Some(
                most,
            ) && -most <= value <= most)
            &&& outcome.fov_err_frac matches Some(value) ==> (summary.fov_max_frac matches Some(
                most,
            ) && value <= most)
            &&& outcome.solve_time_ms matches Some(value) ==> (summary.solve_max_ms matches Some(
                most,
            ) && value <= most)
        }),
        summary.center_max_arcmin matches Some(most) ==> exists|k: int|
            0 <= k < report.outcomes@.len() && #[trigger] report.outcomes@[k].solved
                && report.outcomes@[k].center_arcmin == Some(most),
        summary.solve_max_ms matches Some(most) ==> exists|k: int|
            0 <= k < report.outcomes@.len() && #[trigger] report.outcomes@[k].solved
                && report.outcomes@[k].solve_time_ms == Some(most),
        summary.solve_p50_ms matches Some(median) ==> summary.solve_p95_ms matches Some(late)
            && summary.solve_max_ms matches Some(most) && median <= late <= most,
        summary.center_med_arcmin matches Some(median) ==> (summary.center_max_arcmin matches Some(
            most,
        ) && median <= most),
        summary.fov_med_frac matches Some(median) ==> (summary.fov_max_frac matches Some(most)
            && median <= most),
{
    let outcomes = report.outcomes@;
    let (centers, rolls, fovs, times) = choose|
        centers: Seq<i64>,
        rolls: Seq<i64>,
        fovs: Seq<i64>,
        times: Seq<i64>,
    |
        {
            &&& are_sorted_measures(centers, outcomes, Measure::Center)
            &&& are_sorted_measures(rolls, outcomes, Measure::Roll)
            &&& are_sorted_measures(fovs, outcomes, Measure::Fov)
            &&& are_sorted_measures(times, outcomes, Measure::Time)
            &&& #[trigger] report.is_summary(summary, centers, rolls, fovs, times)
        };
    lemma_most_measured(centers, outcomes, Measure::Center, i);
    lemma_most_measured(rolls, outcomes, Measure::Roll, i);
    lemma_most_measured(fovs, outcomes, Measure::Fov, i);
    lemma_most_measured(times, outcomes, Measure::Time, i);
    if let Some(most) = summary.center_max_arcmin {
        let k = choose|k: int|
            0 <= k < outcomes.len() && measured(#[trigger] outcomes[k], Measure::Center) == Some(
                most,
            );
        assert(outcomes[k].solved);
    }
    if let Some(most) = summary.solve_max_ms {
        let k = choose|k: int|
            0 <= k < outcomes.len() && measured(#[trigger] outcomes[k], Measure::Time) == Some(
                most,
            );
        assert(outcomes[k].solved);
    }
    if times.len() > 0 {
        law_percentiles_go_up(times, 500, 950);
        law_percentiles_go_up(times, 950, 1000);
    }
    if centers.len() > 0 {
        law_percentiles_go_up(centers, 500, 1000);
    }
    if fovs.len() > 0 {
        law_percentiles_go_up(fovs, 500, 1000);
    }
}

/// One more outcome is counted once: among all, among those solved where it is, and among those
/// passed or else as a failure, by its index, after the others. Without outcomes nothing is
/// counted.
pub proof fn law_one_more_outcome_is_counted(
    solver: &str,
    fewer: Report,
    more: Report,
    outcome: Outcome,
    before: Summary,
    after: Summary,
    pass: bool,
    failures_before: Vec<usize>,
    failures_after: Vec<usize>,
    made: Report,
)
    requires
        rolls_fit(more.outcomes@),
        rolls_fit(fewer.outcomes@),
        more.outcomes@ == fewer.outcomes@.push(outcome),
        more.outcomes@.len() <= usize::MAX,
        call_ensures(Report::summary, (&fewer,), before),
        call_ensures(Report::summary, (&more,), after),
        call_ensures(Outcome::passed, (&outcome,), pass),
        call_ensures(Report::failures, (&fewer,), failures_before),
        call_ensures(Report::failures, (&more,), failures_after),
        call_ensures(Report::new, (solver, more.outcomes), made),
    ensures
        after.total == before.total + 1,
        after.solved == before.solved + (if outcome.solved { 1int } else { 0 }),
        after.passed == before.passed + (if pass { 1int } else { 0 }),
        pass ==> failures_after@ == failures_before@,
        !pass ==> failures_after@.len() == failures_before@.len() + 1 && failures_after@.last()
            == fewer.outcomes@.len() && failures_after@.drop_last() == failures_before@,
        fewer.outcomes@.len() == 0 ==> before.solved == 0 && before.passed == 0
            && failures_before@.len() == 0 && before.center_max_arcmin is None,
        made.solver@ == solver@ && made.outcomes@ == more.outcomes@,
{
    assert(more.outcomes@.drop_last() =~= fewer.outcomes@);
    assert(failures_after@.drop_last() =~= failures_before@ || pass);
    if fewer.outcomes@.len() == 0 {
        let (centers, rolls, fovs, times) = choose|
            centers: Seq<i64>,
            rolls: Seq<i64>,
            fovs: Seq<i64>,
            times: Seq<i64>,
        |
            {
                &&& are_sorted_measures(centers, fewer.outcomes@, Measure::Center)
                &&& are_sorted_measures(rolls, fewer.outcomes@, Measure::Roll)
                &&& are_sorted_measures(fovs, fewer.outcomes@, Measure::Fov)
                &&& are_sorted_measures(times, fewer.outcomes@, Measure::Time)
                &&& #[trigger] fewer.is_summary(before, centers, rolls, fovs, times)
            };
        lemma_same_values(centers, known(all_measured(fewer.outcomes@, Measure::Center)), 0);
    }
}

} // verus!
