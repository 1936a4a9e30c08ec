//! Samples for the per-exercise linear trend of performance over time.

use vstd::prelude::*;
use crate::text::same_text;
use crate::training::{Training, whole_days, days_between};

verus! {

/// Fewest records a trend is fitted on.
pub const MIN_DATA_POINTS: usize = 3;

/// Positions, in log order, of the records of `name` among the first `n`.
pub open spec fn positions_of(ts: Seq<Training>, name: Seq<char>, n: int) -> Seq<int>
    decreases n,
{
    if n <= 0 {
        Seq::empty()
    } else {
        let p = positions_of(ts, name, n - 1);
        if ts[n - 1].exercise@ == name { p.push(n - 1) } else { p }
    }
}

/// The earliest timestamp of a record of `name` among the first `n`.
pub open spec fn first_date(ts: Seq<Training>, name: Seq<char>, n: int) -> Option<i64>
    decreases n,
{
    if n <= 0 {
        None
    } else {
        let p = first_date(ts, name, n - 1);
        if ts[n - 1].exercise@ == name && (p is None || ts[n - 1].date < p.unwrap()) {
            Some(ts[n - 1].date)
        } else {
            p
        }
    }
}

pub proof fn lemma_positions_of(ts: Seq<Training>, name: Seq<char>, n: int)
    requires
        0 <= n <= ts.len(),
    ensures
        positions_of(ts, name, n).len() <= n,
        forall|a: int| 0 <= a < positions_of(ts, name, n).len() ==> 0 <= #[trigger] positions_of(ts, name, n)[a] < n,
        positions_of(ts, name, n).len() > 0 ==> first_date(ts, name, n) is Some,
    decreases n,
{
    if n > 0 {
        lemma_positions_of(ts, name, n - 1);
        let p = positions_of(ts, name, n - 1);
        let q = positions_of(ts, name, n);
        assert forall|a: int| 0 <= a < q.len() implies 0 <= #[trigger] q[a] < n by {
            if a < p.len() {
                assert(q[a] == p[a]);
            }
        }
    }
}

/// The data a trend is fitted on: for each record of the exercise, in log
/// order, the whole days since the exercise's first record and the reps.
#[derive(Debug, Clone)]
pub struct TrendSamples {
    pub first_date: i64,
    /// Timestamp of each sample.
    pub dates: Vec<i64>,
    /// Whole days from `first_date` to each sample.
    pub days: Vec<i64>,
    /// Repetitions of each sample.
    pub reps: Vec<i32>,
}

/// The samples of the exercise named `name`; `None` with fewer than
/// `MIN_DATA_POINTS` records.
pub fn trend_samples(ts: &[Training], name: &str) -> (r: Option<TrendSamples>)
    ensures
        r is None <==> positions_of(ts@, name@, ts@.len() as int).len() < MIN_DATA_POINTS,
        r matches Some(s) ==> {
            let pos = positions_of(ts@, name@, ts@.len() as int);
            &&& Some(s.first_date) == first_date(ts@, name@, ts@.len() as int)
            &&& s.dates@.len() == pos.len()
            &&& s.days@.len() == pos.len()
            &&& s.reps@.len() == pos.len()
            &&& forall|a: int| 0 <= a < pos.len() ==> {
                &&& #[trigger] s.dates@[a] == ts@[pos[a]].date
                &&& s.days@[a] == whole_days(s.first_date, ts@[pos[a]].date)
                &&& s.reps@[a] == ts@[pos[a]].reps
            }
        },
{
    let ghost n = ts@.len() as int;
    let mut dates: Vec<i64> = Vec::new();
    let mut reps: Vec<i32> = Vec::new();
    let mut first: Option<i64> = None;
    let mut i: usize = 0;
    while i < ts.len()
        invariant
            n == ts@.len(),
            i <= n,
            first == first_date(ts@, name@, i as int),
            dates@.len() == positions_of(ts@, name@, i as int).len(),
            reps@.len() == dates@.len(),
            forall|a: int| 0 <= a < dates@.len() ==> #[trigger] dates@[a] == ts@[positions_of(ts@, name@, i as int)[a]].date
                && reps@[a] == ts@[positions_of(ts@, name@, i as int)[a]].reps,
        decreases n - i,
    {
        let ghost before = positions_of(ts@, name@, i as int);
        let ghost old_dates = dates@;
        let ghost old_reps = reps@;
        proof {
            lemma_positions_of(ts@, name@, i as int + 1);
            assert forall|a: int| 0 <= a < old_dates.len() implies old_dates[a] == ts@[before[a]].date && old_reps[a] == ts@[before[a]].reps by {
                assert(dates@[a] == ts@[before[a]].date);
            }
        }
        if same_text(ts[i].exercise.as_str(), name) {
            dates.push(ts[i].date);
            reps.push(ts[i].reps);
            let earlier = match first {
                None => true,
                Some(d) => ts[i].date < d,
            };
            if earlier {
                first = Some(ts[i].date);
            }
            proof {
                let after = positions_of(ts@, name@, i as int + 1);
                assert(after == before.push(i as int));
                assert forall|a: int| 0 <= a < dates@.len() implies #[trigger] dates@[a] == ts@[after[a]].date && reps@[a] == ts@[after[a]].reps by {
                    if a < before.len() {
                        assert(after[a] == before[a]);
                        assert(old_dates[a] == ts@[before[a]].date && old_reps[a] == ts@[before[a]].reps);
                    }
                }
            }
        }
        i += 1;
    }
    proof {
        lemma_positions_of(ts@, name@, n);
    }
    if dates.len() < MIN_DATA_POINTS {
        return None;
    }
    let first_date = match first {
        Some(d) => d,
        None => return None,
    };
    let mut days: Vec<i64> = Vec::new();
    let mut a: usize = 0;
    while a < dates.len()
        invariant
            a <= dates@.len(),
            days@.len() == a,
            forall|b: int| 0 <= b < a ==> #[trigger] days@[b] == whole_days(first_date, dates@[b]),
        decreases dates@.len() - a,
    {
        days.push(days_between(first_date, dates[a]));
        a += 1;
    }
    Some(TrendSamples { first_date, dates, days, reps })
}

} // verus!
