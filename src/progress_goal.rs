//! Fatigue-aware goals: personal best and its consolidation, and the session
//! contexts that the fatigue estimate is read from.

use vstd::prelude::*;
use crate::exercises::{Exercise, MuscleGroup, all_groups, group_index, position_by_name};
use vstd::string::*;
use crate::text::{same_text, decimal, decimal_text, signed_decimal, signed_text};
use crate::training::{Clock, Training, day_of, today, touches, known, resolves_to, local_day, groups_of, has_group, whole_days, days_between};

verus! {

/// Days a new record is consolidated before a challenge to beat it.
pub const RECORD_CONSOLIDATION_DAYS: i64 = 7;

/// How much history backs a goal.
#[derive(Debug, Clone, Copy, PartialEq, Eq, Structural)]
pub enum GoalConfidence {
    /// Fewer than 3 attempts.
    Low,
    /// 3 to 5 attempts.
    Medium,
    /// More than 5 attempts.
    High,
}

impl GoalConfidence {
    pub fn label(&self) -> (r: &'static str)
        ensures
            r@ == match *self {
                GoalConfidence::Low => "(мало данных)"@,
                _ => ""@,
            },
    {
        match self {
            GoalConfidence::Low => "(мало данных)",
            GoalConfidence::Medium => "",
            GoalConfidence::High => "",
        }
    }
}

/// The confidence level for a number of attempts.
pub open spec fn confidence_for(attempts: int) -> GoalConfidence {
    if attempts <= 2 {
        GoalConfidence::Low
    } else if attempts <= 5 {
        GoalConfidence::Medium
    } else {
        GoalConfidence::High
    }
}

/// Accumulated state of one day's training up to some point.
#[derive(Debug, Clone)]
pub struct SessionContext {
    /// Load per muscle group (in the order of `all_groups()`); `None` for a
    /// group that no record touched.
    pub prior_load: Vec<Option<i64>>,
    /// Total duration in seconds.
    pub session_duration_secs: i64,
    /// Number of records.
    pub exercises_done: usize,
}

/// Record `j` belongs to the context: with no focus, it is from today; with
/// focus `i`, it precedes record `i` on the same local day (equal timestamps
/// in log order).
pub open spec fn selected(ts: Seq<Training>, clock: Clock, focus: Option<int>, j: int) -> bool {
    match focus {
        None => day_of(clock, ts[j].date) == today(clock),
        Some(i) => day_of(clock, ts[j].date) == day_of(clock, ts[i].date) && (ts[j].date < ts[i].date || (
        ts[j].date == ts[i].date && j < i)),
    }
}

/// Sum of `reps` over the selected records among the first `n` that load `g`.
pub open spec fn sel_load(ts: Seq<Training>, c: Seq<Exercise>, clock: Clock, focus: Option<int>, g: MuscleGroup, n: int) -> int
    decreases n,
{
    if n <= 0 {
        0
    } else {
        sel_load(ts, c, clock, focus, g, n - 1) + if selected(ts, clock, focus, n - 1) && touches(c, ts[n - 1].exercise@, g) {
            ts[n - 1].reps as int
        } else {
            0
        }
    }
}

/// Some selected record among the first `n` loads `g`.
pub open spec fn sel_touched(ts: Seq<Training>, c: Seq<Exercise>, clock: Clock, focus: Option<int>, g: MuscleGroup, n: int) -> bool
    decreases n,
{
    if n <= 0 {
        false
    } else {
        sel_touched(ts, c, clock, focus, g, n - 1) || (selected(ts, clock, focus, n - 1) && touches(c, ts[n - 1].exercise@, g))
    }
}

/// Sum of durations (0 where absent) over the selected records among the first `n`.
pub open spec fn sel_duration(ts: Seq<Training>, clock: Clock, focus: Option<int>, n: int) -> int
    decreases n,
{
    if n <= 0 {
        0
    } else {
        sel_duration(ts, clock, focus, n - 1) + if selected(ts, clock, focus, n - 1) {
            match ts[n - 1].duration_secs {
                Some(d) => d as int,
                None => 0,
            }
        } else {
            0
        }
    }
}

/// Number of selected records among the first `n`.
pub open spec fn sel_count(ts: Seq<Training>, clock: Clock, focus: Option<int>, n: int) -> int
    decreases n,
{
    if n <= 0 {
        0
    } else {
        sel_count(ts, clock, focus, n - 1) + if selected(ts, clock, focus, n - 1) { 1int } else { 0int }
    }
}

pub proof fn lemma_sel_bounds(ts: Seq<Training>, c: Seq<Exercise>, clock: Clock, focus: Option<int>, g: MuscleGroup, n: int)
    requires
        0 <= n <= ts.len(),
    ensures
        -n * 0x8000_0000 <= sel_load(ts, c, clock, focus, g, n) <= n * 0x7fff_ffff,
        -n * 0x8000_0000 <= sel_duration(ts, clock, focus, n) <= n * 0x7fff_ffff,
        0 <= sel_count(ts, clock, focus, n) <= n,
    decreases n,
{
    if n > 0 {
        lemma_sel_bounds(ts, c, clock, focus, g, n - 1);
    }
}

impl SessionContext {
    /// The context replays the selected records of `ts`.
    pub open spec fn replays(&self, ts: Seq<Training>, c: Seq<Exercise>, clock: Clock, focus: Option<int>) -> bool {
        let n = ts.len() as int;
        &&& self.prior_load@.len() == 11
        &&& forall|k: int| 0 <= k < 11 ==> #[trigger] self.prior_load@[k] == if sel_touched(ts, c, clock, focus, all_groups()[k], n) {
            Some(sel_load(ts, c, clock, focus, all_groups()[k], n) as i64)
        } else {
            None
        }
        &&& self.session_duration_secs == sel_duration(ts, clock, focus, n)
        &&& self.exercises_done == sel_count(ts, clock, focus, n)
    }

    /// The empty context: nothing done yet.
    pub fn new() -> (r: Self)
        ensures
            r.prior_load@.len() == 11,
            forall|k: int| 0 <= k < 11 ==> #[trigger] r.prior_load@[k] is None,
            r.session_duration_secs == 0,
            r.exercises_done == 0,
    {
        let mut prior_load: Vec<Option<i64>> = Vec::new();
        let mut k: usize = 0;
        while k < 11
            invariant
                k <= 11,
                prior_load@.len() == k,
                forall|q: int| 0 <= q < k ==> #[trigger] prior_load@[q] is None,
            decreases 11 - k,
        {
            prior_load.push(None);
            k += 1;
        }
        SessionContext { prior_load, session_duration_secs: 0, exercises_done: 0 }
    }
}

/// Whether record `j` is selected, computed.
fn is_selected(ts: &[Training], clock: Clock, focus: Option<usize>, today_day: i64, j: usize) -> (r: bool)
    requires
        j < ts@.len(),
        focus matches Some(i) ==> i < ts@.len(),
        today_day == today(clock),
    ensures
        r == selected(ts@, clock, match focus { Some(i) => Some(i as int), None => None }, j as int),
{
    let day = local_day(clock, ts[j].date);
    match focus {
        None => day == today_day,
        Some(i) => day == local_day(clock, ts[i].date) && (ts[j].date < ts[i].date || (ts[j].date == ts[i].date && j < i)),
    }
}

/// Replays the records that `focus` selects into a session context.
pub fn build_context(ts: &[Training], c: &[Exercise], clock: Clock, focus: Option<usize>) -> (r: SessionContext)
    requires
        ts@.len() <= u32::MAX,
        focus matches Some(i) ==> i < ts@.len(),
    ensures
        r.replays(ts@, c@, clock, match focus { Some(i) => Some(i as int), None => None }),
{
    let ghost f: Option<int> = match focus { Some(i) => Some(i as int), None => None };
    let groups = MuscleGroup::all();
    let today_day = local_day(clock, clock.now);
    let mut ctx = SessionContext::new();
    let mut load: Vec<i64> = Vec::new();
    let mut k: usize = 0;
    while k < 11
        invariant
            k <= 11,
            load@.len() == k,
            forall|q: int| 0 <= q < k ==> #[trigger] load@[q] == 0,
        decreases 11 - k,
    {
        load.push(0);
        k += 1;
    }
    let mut j: usize = 0;
    while j < ts.len()
        invariant
            groups@ == all_groups(),
            today_day == today(clock),
            f == (match focus { Some(i) => Some(i as int), None => None }),
            ts@.len() <= u32::MAX,
            focus matches Some(i) ==> i < ts@.len(),
            j <= ts@.len(),
            load@.len() == 11,
            ctx.prior_load@.len() == 11,
            forall|q: int| 0 <= q < 11 ==> #[trigger] load@[q] == sel_load(ts@, c@, clock, f, all_groups()[q], j as int),
            forall|q: int| 0 <= q < 11 ==> #[trigger] ctx.prior_load@[q] == if sel_touched(ts@, c@, clock, f, all_groups()[q], j as int) {
                Some(sel_load(ts@, c@, clock, f, all_groups()[q], j as int) as i64)
            } else {
                None
            },
            ctx.session_duration_secs == sel_duration(ts@, clock, f, j as int),
            ctx.exercises_done == sel_count(ts@, clock, f, j as int),
        decreases ts@.len() - j,
    {
        proof {
            lemma_sel_bounds(ts@, c@, clock, f, MuscleGroup::Chest, j as int);
        }
        if is_selected(ts, clock, focus, today_day, j) {
            let t = &ts[j];
            let hit = groups_of(c, t.exercise.as_str());
            let mut q: usize = 0;
            while q < 11
                invariant
                    groups@ == all_groups(),
                    ts@.len() <= u32::MAX,
                    j < ts@.len(),
                    *t == ts@[j as int],
                    selected(ts@, clock, f, j as int),
                    forall|g: MuscleGroup| hit@.contains(g) == touches(c@, t.exercise@, g),
                    q <= 11,
                    load@.len() == 11,
                    ctx.prior_load@.len() == 11,
                    ctx.session_duration_secs == sel_duration(ts@, clock, f, j as int),
                    ctx.exercises_done == sel_count(ts@, clock, f, j as int),
                    forall|p: int| 0 <= p < 11 ==> #[trigger] load@[p] == sel_load(ts@, c@, clock, f, all_groups()[p], if p < q { j + 1 } else { j as int }),
                    forall|p: int| 0 <= p < 11 ==> #[trigger] ctx.prior_load@[p] == if sel_touched(ts@, c@, clock, f, all_groups()[p], if p < q { j + 1 } else { j as int }) {
                        Some(sel_load(ts@, c@, clock, f, all_groups()[p], if p < q { j + 1 } else { j as int }) as i64)
                    } else {
                        None
                    },
                decreases 11 - q,
            {
                let g = groups[q];
                proof {
                    lemma_sel_bounds(ts@, c@, clock, f, g, j as int);
                    lemma_sel_bounds(ts@, c@, clock, f, g, j as int + 1);
                }
                assert(load@[q as int] == sel_load(ts@, c@, clock, f, g, j as int));
                assert(ctx.prior_load@[q as int] == if sel_touched(ts@, c@, clock, f, g, j as int) {
                    Some(sel_load(ts@, c@, clock, f, g, j as int) as i64)
                } else {
                    None
                });
                if has_group(hit, g) {
                    let v = load[q] + t.reps as i64;
                    load.set(q, v);
                    ctx.prior_load.set(q, Some(v));
                }
                q += 1;
            }
            let d: i64 = match t.duration_secs {
                Some(d) => d as i64,
                None => 0,
            };
            ctx.session_duration_secs = ctx.session_duration_secs + d;
            ctx.exercises_done = ctx.exercises_done + 1;
        } else {
            assert forall|p: int| 0 <= p < 11 implies #[trigger] load@[p] == sel_load(ts@, c@, clock, f, all_groups()[p], j + 1) && ctx.prior_load@[p] == if sel_touched(ts@, c@, clock, f, all_groups()[p], j + 1) {
                Some(sel_load(ts@, c@, clock, f, all_groups()[p], j + 1) as i64)
            } else {
                None
            } by {
                assert(load@[p] == sel_load(ts@, c@, clock, f, all_groups()[p], j as int));
                assert(ctx.prior_load@[p] == if sel_touched(ts@, c@, clock, f, all_groups()[p], j as int) {
                    Some(sel_load(ts@, c@, clock, f, all_groups()[p], j as int) as i64)
                } else {
                    None
                });
            }
        }
        j += 1;
    }
    ctx
}

} // verus!

verus! {

/// What a record achieved: seconds for a timed exercise (if recorded),
/// repetitions otherwise.
pub open spec fn achieved(t: Training, timed: bool) -> Option<i32> {
    if timed {
        t.duration_secs
    } else {
        Some(t.reps)
    }
}

/// The largest value achieved by the records of `name`.
pub open spec fn best_value(ts: Seq<Training>, name: Seq<char>, timed: bool) -> Option<i32>
    decreases ts.len(),
{
    if ts.len() == 0 {
        None
    } else {
        let p = best_value(ts.drop_last(), name, timed);
        let t = ts.last();
        if t.exercise@ == name && achieved(t, timed) is Some && (p is None || p.unwrap() < achieved(t, timed).unwrap()) {
            achieved(t, timed)
        } else {
            p
        }
    }
}

/// The earliest timestamp of a record of `name` that achieved exactly `v`.
pub open spec fn earliest_with(ts: Seq<Training>, name: Seq<char>, timed: bool, v: i32) -> Option<i64>
    decreases ts.len(),
{
    if ts.len() == 0 {
        None
    } else {
        let p = earliest_with(ts.drop_last(), name, timed, v);
        let t = ts.last();
        if t.exercise@ == name && achieved(t, timed) == Some(v) && (p is None || t.date < p.unwrap()) {
            Some(t.date)
        } else {
            p
        }
    }
}

/// Personal best and the date it was first reached.
pub open spec fn personal_best(ts: Seq<Training>, name: Seq<char>, timed: bool) -> Option<(i32, i64)> {
    match best_value(ts, name, timed) {
        None => None,
        Some(v) => match earliest_with(ts, name, timed, v) {
            Some(d) => Some((v, d)),
            None => None,
        },
    }
}

/// The personal best is the largest achieved value, and its date the
/// earliest on which it was achieved.
pub proof fn lemma_personal_best(ts: Seq<Training>, name: Seq<char>, timed: bool)
    ensures
        personal_best(ts, name, timed) matches Some((v, d)) ==> {
            &&& forall|i: int| 0 <= i < ts.len() && (#[trigger] ts[i]).exercise@ == name && achieved(ts[i], timed) is Some
                ==> achieved(ts[i], timed).unwrap() <= v
            &&& exists|i: int| 0 <= i < ts.len() && (#[trigger] ts[i]).exercise@ == name && achieved(ts[i], timed) == Some(v) && ts[i].date == d
            &&& forall|i: int| 0 <= i < ts.len() && (#[trigger] ts[i]).exercise@ == name && achieved(ts[i], timed) == Some(v)
                ==> d <= ts[i].date
        },
        (exists|i: int| 0 <= i < ts.len() && (#[trigger] ts[i]).exercise@ == name && achieved(ts[i], timed) is Some)
            ==> personal_best(ts, name, timed) is Some,
{
    lemma_best_value(ts, name, timed);
    if best_value(ts, name, timed) is Some {
        lemma_earliest_with(ts, name, timed, best_value(ts, name, timed).unwrap());
    }
}

proof fn lemma_best_value(ts: Seq<Training>, name: Seq<char>, timed: bool)
    ensures
        best_value(ts, name, timed) matches Some(v) ==> exists|i: int|
            0 <= i < ts.len() && (#[trigger] ts[i]).exercise@ == name && achieved(ts[i], timed) == Some(v),
        forall|i: int| 0 <= i < ts.len() && (#[trigger] ts[i]).exercise@ == name && achieved(ts[i], timed) is Some
            ==> (best_value(ts, name, timed) matches Some(v) && achieved(ts[i], timed).unwrap() <= v),
    decreases ts.len(),
{
    if ts.len() > 0 {
        let init = ts.drop_last();
        lemma_best_value(init, name, timed);
        assert forall|i: int| 0 <= i < init.len() implies #[trigger] init[i] == ts[i] by {}
        if best_value(ts, name, timed) != best_value(init, name, timed) {
            assert(ts[ts.len() - 1] == ts.last());
        } else if best_value(init, name, timed) is Some {
            let w = choose|w: int| 0 <= w < init.len() && (#[trigger] init[w]).exercise@ == name && achieved(init[w], timed) == best_value(init, name, timed);
            assert(ts[w] == init[w]);
        }
        assert forall|i: int| 0 <= i < ts.len() && (#[trigger] ts[i]).exercise@ == name && achieved(ts[i], timed) is Some
            implies (best_value(ts, name, timed) matches Some(v) && achieved(ts[i], timed).unwrap() <= v) by {
            if i < ts.len() - 1 {
                assert(init[i] == ts[i]);
            } else {
                assert(ts[i] == ts.last());
            }
        }
    }
}

proof fn lemma_earliest_with(ts: Seq<Training>, name: Seq<char>, timed: bool, v: i32)
    ensures
        (exists|i: int| 0 <= i < ts.len() && (#[trigger] ts[i]).exercise@ == name && achieved(ts[i], timed) == Some(v))
            ==> earliest_with(ts, name, timed, v) is Some,
        earliest_with(ts, name, timed, v) matches Some(d) ==> exists|i: int|
            0 <= i < ts.len() && (#[trigger] ts[i]).exercise@ == name && achieved(ts[i], timed) == Some(v) && ts[i].date == d,
        forall|i: int| 0 <= i < ts.len() && (#[trigger] ts[i]).exercise@ == name && achieved(ts[i], timed) == Some(v)
            ==> (earliest_with(ts, name, timed, v) matches Some(d) && d <= ts[i].date),
    decreases ts.len(),
{
    if ts.len() > 0 {
        let init = ts.drop_last();
        lemma_earliest_with(init, name, timed, v);
        assert forall|i: int| 0 <= i < init.len() implies #[trigger] init[i] == ts[i] by {}
        if earliest_with(ts, name, timed, v) != earliest_with(init, name, timed, v) {
            assert(ts[ts.len() - 1] == ts.last());
        } else if earliest_with(init, name, timed, v) is Some {
            let w = choose|w: int| 0 <= w < init.len() && (#[trigger] init[w]).exercise@ == name && achieved(init[w], timed) == Some(v)
                && init[w].date == earliest_with(init, name, timed, v).unwrap();
            assert(ts[w] == init[w]);
        }
        assert forall|i: int| 0 <= i < ts.len() && (#[trigger] ts[i]).exercise@ == name && achieved(ts[i], timed) == Some(v)
            implies (earliest_with(ts, name, timed, v) matches Some(d) && d <= ts[i].date) by {
            if i < ts.len() - 1 {
                assert(init[i] == ts[i]);
            } else {
                assert(ts[i] == ts.last());
            }
        }
    }
}

fn achieved_by(t: &Training, timed: bool) -> (r: Option<i32>)
    ensures
        r == achieved(*t, timed),
{
    if timed {
        t.duration_secs
    } else {
        Some(t.reps)
    }
}

/// What a record counts as when checked against a record level: its
/// duration (0 if absent) for a timed exercise, its repetitions otherwise.
pub open spec fn level_of(t: Training, timed: bool) -> int {
    if timed {
        match t.duration_secs {
            Some(d) => d as int,
            None => 0,
        }
    } else {
        t.reps as int
    }
}

/// Some record of `name` at or after `cutoff` reached `level`.
pub open spec fn confirmed_since(ts: Seq<Training>, name: Seq<char>, level: int, timed: bool, cutoff: int) -> bool {
    exists|i: int| 0 <= i < ts.len() && (#[trigger] ts[i]).exercise@ == name && ts[i].date >= cutoff && level_of(ts[i], timed) >= level
}

/// Whether the exercise reached `personal_best` within the last
/// `window_days` days before `now`.
pub fn has_confirmation_in_window(ts: &[Training], name: &str, personal_best: i32, is_timed: bool, now: i64, window_days: i64) -> (r: bool)
    requires
        0 <= window_days <= 1_000_000,
    ensures
        r == confirmed_since(ts@, name@, personal_best as int, is_timed, now - window_days * 86400),
{
    let cutoff: i128 = now as i128 - window_days as i128 * 86400;
    let mut i: usize = 0;
    while i < ts.len()
        invariant
            i <= ts@.len(),
            cutoff == now - window_days * 86400,
            forall|j: int| 0 <= j < i ==> !((#[trigger] ts@[j]).exercise@ == name@ && ts@[j].date >= cutoff && level_of(ts@[j], is_timed) >= personal_best),
        decreases ts@.len() - i,
    {
        let t = &ts[i];
        let level: i32 = if is_timed {
            match t.duration_secs {
                Some(d) => d,
                None => 0,
            }
        } else {
            t.reps
        };
        if same_text(t.exercise.as_str(), name) && t.date as i128 >= cutoff && level >= personal_best {
            return true;
        }
        i += 1;
    }
    false
}

/// Which records of an exercise a total covers.
#[derive(Debug, Clone, Copy)]
pub enum Scope {
    /// The whole log.
    All,
    /// Records at or after the given timestamp.
    Since(i128),
    /// Records of today's local date.
    Today(Clock),
}

pub open spec fn in_scope(t: Training, name: Seq<char>, s: Scope) -> bool {
    t.exercise@ == name && match s {
        Scope::All => true,
        Scope::Since(c) => t.date >= c,
        Scope::Today(clock) => day_of(clock, t.date) == today(clock),
    }
}

/// Number of records of `name` in scope among the first `n`.
pub open spec fn scope_count(ts: Seq<Training>, name: Seq<char>, s: Scope, n: int) -> int
    decreases n,
{
    if n <= 0 {
        0
    } else {
        scope_count(ts, name, s, n - 1) + if in_scope(ts[n - 1], name, s) { 1int } else { 0int }
    }
}

/// Sum of what the records of `name` in scope among the first `n` achieved.
pub open spec fn scope_sum(ts: Seq<Training>, name: Seq<char>, timed: bool, s: Scope, n: int) -> int
    decreases n,
{
    if n <= 0 {
        0
    } else {
        scope_sum(ts, name, timed, s, n - 1) + if in_scope(ts[n - 1], name, s) {
            match achieved(ts[n - 1], timed) {
                Some(v) => v as int,
                None => 0,
            }
        } else {
            0
        }
    }
}

pub proof fn lemma_scope_bounds(ts: Seq<Training>, name: Seq<char>, timed: bool, s: Scope, n: int)
    requires
        0 <= n,
    ensures
        0 <= scope_count(ts, name, s, n) <= n,
        -n * 0x8000_0000 <= scope_sum(ts, name, timed, s, n) <= n * 0x7fff_ffff,
    decreases n,
{
    if n > 0 {
        lemma_scope_bounds(ts, name, timed, s, n - 1);
    }
}

/// Sum of what the records of `name` in scope achieved, and their number.
pub fn scope_totals(ts: &[Training], name: &str, is_timed: bool, scope: Scope) -> (r: (i64, usize))
    requires
        ts@.len() <= u32::MAX,
    ensures
        r.0 == scope_sum(ts@, name@, is_timed, scope, ts@.len() as int),
        r.1 == scope_count(ts@, name@, scope, ts@.len() as int),
{
    let mut sum: i64 = 0;
    let mut count: usize = 0;
    let mut i: usize = 0;
    while i < ts.len()
        invariant
            ts@.len() <= u32::MAX,
            i <= ts@.len(),
            sum == scope_sum(ts@, name@, is_timed, scope, i as int),
            count == scope_count(ts@, name@, scope, i as int),
        decreases ts@.len() - i,
    {
        proof {
            lemma_scope_bounds(ts@, name@, is_timed, scope, i as int);
        }
        let t = &ts[i];
        let covered = match scope {
            Scope::All => true,
            Scope::Since(c) => t.date as i128 >= c,
            Scope::Today(clock) => local_day(clock, t.date) == local_day(clock, clock.now),
        };
        if same_text(t.exercise.as_str(), name) && covered {
            count += 1;
            if let Some(v) = achieved_by(t, is_timed) {
                sum = sum + v as i64;
            }
        }
        i += 1;
    }
    (sum, count)
}

/// A past occurrence of the exercise, with the context it was performed in.
#[derive(Debug, Clone)]
pub struct HistoricalSession {
    pub date: i64,
    pub context_before: SessionContext,
    pub exercise_name: String,
    /// Seconds for a timed exercise (0 if not recorded), repetitions otherwise.
    pub achieved_value: i32,
}

/// Positions, in log order, of the records of `name` among the first `n`
/// that are not from today.
pub open spec fn past_occurrences(ts: Seq<Training>, clock: Clock, name: Seq<char>, n: int) -> Seq<int>
    decreases n,
{
    if n <= 0 {
        Seq::empty()
    } else {
        let p = past_occurrences(ts, clock, name, n - 1);
        if ts[n - 1].exercise@ == name && day_of(clock, ts[n - 1].date) != today(clock) {
            p.push(n - 1)
        } else {
            p
        }
    }
}

/// `h` describes the occurrence at position `i`.
pub open spec fn describes_occurrence(h: HistoricalSession, ts: Seq<Training>, c: Seq<Exercise>, clock: Clock, timed: bool, i: int) -> bool {
    &&& h.date == ts[i].date
    &&& h.context_before.replays(ts, c, clock, Some(i))
    &&& h.exercise_name@ == ts[i].exercise@
    &&& h.achieved_value == level_of(ts[i], timed)
}

/// Every earlier-day occurrence of the exercise, each with the context
/// reconstructed immediately before it.
pub fn past_sessions(ts: &[Training], c: &[Exercise], clock: Clock, name: &str, is_timed: bool) -> (r: Vec<HistoricalSession>)
    requires
        ts@.len() <= u32::MAX,
    ensures
        r@.len() == past_occurrences(ts@, clock, name@, ts@.len() as int).len(),
        forall|a: int| 0 <= a < r@.len() ==> describes_occurrence(#[trigger] r@[a], ts@, c@, clock, is_timed,
            past_occurrences(ts@, clock, name@, ts@.len() as int)[a]),
{
    let today_day = local_day(clock, clock.now);
    let mut r: Vec<HistoricalSession> = Vec::new();
    let mut i: usize = 0;
    while i < ts.len()
        invariant
            ts@.len() <= u32::MAX,
            today_day == today(clock),
            i <= ts@.len(),
            r@.len() == past_occurrences(ts@, clock, name@, i as int).len(),
            forall|a: int| 0 <= a < r@.len() ==> describes_occurrence(#[trigger] r@[a], ts@, c@, clock, is_timed,
                past_occurrences(ts@, clock, name@, i as int)[a]),
        decreases ts@.len() - i,
    {
        let ghost before = past_occurrences(ts@, clock, name@, i as int);
        if same_text(ts[i].exercise.as_str(), name) && local_day(clock, ts[i].date) != today_day {
            let context_before = build_context(ts, c, clock, Some(i));
            let achieved_value: i32 = if is_timed {
                match ts[i].duration_secs {
                    Some(d) => d,
                    None => 0,
                }
            } else {
                ts[i].reps
            };
            let h = HistoricalSession { date: ts[i].date, context_before, exercise_name: ts[i].exercise.clone(), achieved_value };
            r.push(h);
            proof {
                let after = past_occurrences(ts@, clock, name@, i as int + 1);
                assert(after == before.push(i as int));
                assert forall|a: int| 0 <= a < r@.len() implies describes_occurrence(#[trigger] r@[a], ts@, c@, clock, is_timed, after[a]) by {
                    if a < before.len() {
                        assert(after[a] == before[a]);
                    }
                }
            }
        }
        i += 1;
    }
    r
}

/// The groups of `gs` with a positive load in the context, in order.
pub open spec fn fatigued(gs: Seq<MuscleGroup>, loads: Seq<Option<i64>>) -> Seq<MuscleGroup>
    decreases gs.len(),
{
    if gs.len() == 0 {
        Seq::empty()
    } else {
        let p = fatigued(gs.drop_last(), loads);
        if loads[group_index(gs.last())] matches Some(x) && x > 0 {
            p.push(gs.last())
        } else {
            p
        }
    }
}

fn group_slot(g: MuscleGroup) -> (r: usize)
    ensures
        r == group_index(g),
        r < 11,
{
    match g {
        MuscleGroup::Chest => 0,
        MuscleGroup::Shoulders => 1,
        MuscleGroup::Triceps => 2,
        MuscleGroup::Back => 3,
        MuscleGroup::Biceps => 4,
        MuscleGroup::Core => 5,
        MuscleGroup::Glutes => 6,
        MuscleGroup::Quads => 7,
        MuscleGroup::Hamstrings => 8,
        MuscleGroup::Calves => 9,
        MuscleGroup::FullBody => 10,
    }
}

/// The target groups already loaded in the context.
pub fn fatigued_muscles(gs: &[MuscleGroup], ctx: &SessionContext) -> (r: Vec<MuscleGroup>)
    requires
        ctx.prior_load@.len() == 11,
    ensures
        r@ == fatigued(gs@, ctx.prior_load@),
{
    let mut r: Vec<MuscleGroup> = Vec::new();
    let mut i: usize = 0;
    while i < gs.len()
        invariant
            ctx.prior_load@.len() == 11,
            i <= gs@.len(),
            r@ == fatigued(gs@.subrange(0, i as int), ctx.prior_load@),
        decreases gs@.len() - i,
    {
        let ghost post = gs@.subrange(0, i as int + 1);
        assert(post.drop_last() =~= gs@.subrange(0, i as int));
        assert(post.last() == gs@[i as int]);
        let g = gs[i];
        let loaded = match ctx.prior_load[group_slot(g)] {
            Some(x) => x > 0,
            None => false,
        };
        if loaded {
            r.push(g);
        }
        i += 1;
    }
    assert(gs@.subrange(0, gs@.len() as int) =~= gs@);
    r
}

} // verus!

verus! {

/// Truncated remainder of `d` by 7 (the sign follows `d`).
pub open spec fn rem7(d: int) -> int {
    if d >= 0 {
        d % 7
    } else {
        -((-d) % 7)
    }
}

/// Whether a record is being consolidated: there is one, and either fewer
/// than 7 days have passed since it was set or it was not reconfirmed
/// within the last 7 days.
pub open spec fn consolidating(has_record: bool, days_since_record: int, confirmed: bool) -> bool {
    has_record && (days_since_record < 7 || !confirmed)
}

/// Integer part of a fatigue-aware goal for one exercise.
#[derive(Debug, Clone)]
pub struct ProgressGoal {
    /// Personal best (or 10 repetitions / 60 seconds without history) plus one:
    /// the target before the fatigue adjustment.
    pub base_target: i64,
    /// Personal best, seconds for a timed exercise, repetitions otherwise.
    pub personal_best: Option<i32>,
    /// Personal best plus one, once the record is no longer consolidating.
    pub beat_record_target: Option<i64>,
    pub is_timed: bool,
    pub confidence: GoalConfidence,
    /// Records of the exercise today.
    pub today_sets: usize,
    /// Total achieved today.
    pub today_value: i64,
    /// Target groups already loaded today.
    pub fatigued_muscles: Vec<MuscleGroup>,
    /// When the personal best was first reached.
    pub record_date: Option<i64>,
    pub is_consolidating: bool,
    /// Days remaining in the current consolidation window.
    pub consolidation_days_left: Option<i32>,
    /// The record level was reached within the last 7 days.
    pub record_confirmed: bool,
    /// Today's session so far.
    pub context: SessionContext,
    /// Earlier-day occurrences of the exercise with their contexts.
    pub history: Vec<HistoricalSession>,
    /// Sum of what was achieved over the last 7 days.
    pub week_sum: i64,
    /// Number of records over the last 7 days.
    pub week_count: usize,
    /// Sum of what was achieved over the last 14 days.
    pub fortnight_sum: i64,
    /// Number of records over the last 14 days.
    pub fortnight_count: usize,
}

/// `g` is the goal for the exercise named `name`, whose catalog entry is `e`.
pub open spec fn goal_holds(g: ProgressGoal, ts: Seq<Training>, c: Seq<Exercise>, clock: Clock, name: Seq<char>, e: Exercise) -> bool {
    let timed = e.is_timed;
    let n = ts.len() as int;
    let pb = personal_best(ts, name, timed);
    let days = match pb {
        Some(p) => whole_days(p.1, clock.now),
        None => 0,
    };
    let confirmed = match pb {
        Some(p) => confirmed_since(ts, name, p.0 as int, timed, clock.now - 7 * 86400),
        None => false,
    };
    let cons = consolidating(pb is Some, days, confirmed);
    &&& g.is_timed == timed
    &&& g.personal_best == match pb {
        Some(p) => Some(p.0),
        None => None,
    }
    &&& g.record_date == match pb {
        Some(p) => Some(p.1),
        None => None,
    }
    &&& g.record_confirmed == confirmed
    &&& g.is_consolidating == cons
    &&& g.consolidation_days_left == if cons { Some((7 - rem7(days)) as i32) } else { None }
    &&& g.beat_record_target == if cons {
        None
    } else {
        match pb {
            Some(p) => Some((p.0 + 1) as i64),
            None => None,
        }
    }
    &&& g.base_target == match pb {
        Some(p) => p.0 + 1,
        None => if timed { 61int } else { 11int },
    }
    &&& g.confidence == confidence_for(scope_count(ts, name, Scope::All, n))
    &&& g.today_sets == scope_count(ts, name, Scope::Today(clock), n)
    &&& g.today_value == scope_sum(ts, name, timed, Scope::Today(clock), n)
    &&& g.context.replays(ts, c, clock, None)
    &&& g.fatigued_muscles@ == fatigued(e.muscle_groups@, g.context.prior_load@)
    &&& g.history@.len() == past_occurrences(ts, clock, name, n).len()
    &&& forall|a: int| 0 <= a < g.history@.len() ==> describes_occurrence(#[trigger] g.history@[a], ts, c, clock, timed,
        past_occurrences(ts, clock, name, n)[a])
    &&& g.week_sum == scope_sum(ts, name, timed, Scope::Since((clock.now - 7 * 86400) as i128), n)
    &&& g.week_count == scope_count(ts, name, Scope::Since((clock.now - 7 * 86400) as i128), n)
    &&& g.fortnight_sum == scope_sum(ts, name, timed, Scope::Since((clock.now - 14 * 86400) as i128), n)
    &&& g.fortnight_count == scope_count(ts, name, Scope::Since((clock.now - 14 * 86400) as i128), n)
}

/// A record set within the last 7 days is being consolidated, whatever
/// happened since; after that it is consolidated exactly while it was not
/// reached again within the last 7 days.
pub proof fn lemma_consolidation_window(g: ProgressGoal, ts: Seq<Training>, c: Seq<Exercise>, clock: Clock, name: Seq<char>, e: Exercise)
    requires
        goal_holds(g, ts, c, clock, name, e),
    ensures
        g.record_date matches Some(d) && whole_days(d, clock.now) < 7 ==> g.is_consolidating && g.beat_record_target is None,
        g.record_date matches Some(d) && whole_days(d, clock.now) >= 7 ==> g.is_consolidating == !g.record_confirmed,
        g.record_date is None ==> !g.is_consolidating,
{
}

/// Duration as minutes and seconds, the way goals show it.
pub open spec fn goal_duration_text(secs: int) -> Seq<char> {
    if secs >= 60 {
        if secs % 60 > 0 {
            decimal((secs / 60) as nat) + "м "@ + decimal((secs % 60) as nat) + "с"@
        } else {
            decimal((secs / 60) as nat) + "м"@
        }
    } else {
        signed_decimal(secs) + "с"@
    }
}

impl ProgressGoal {
    /// Duration as minutes and seconds ("1м 30с", "3м", "45с").
    pub fn format_duration(secs: i32) -> (r: String)
        ensures
            r@ == goal_duration_text(secs as int),
    {
        if secs >= 60 {
            let mins = secs / 60;
            let remaining = secs % 60;
            let mut r = decimal_text(mins as u64);
            if remaining > 0 {
                r.append("м ");
                let s = decimal_text(remaining as u64);
                r.append(s.as_str());
                r.append("с");
            } else {
                r.append("м");
            }
            r
        } else {
            let mut r = signed_text(secs as i64);
            r.append("с");
            r
        }
    }
}

/// Computes fatigue-aware goals.
pub struct GoalCalculator;

impl GoalCalculator {
    /// The largest value achieved by the records of the exercise named `name`.
    pub fn best_achieved(ts: &[Training], name: &str, is_timed: bool) -> (r: Option<i32>)
        ensures
            r == best_value(ts@, name@, is_timed),
    {
        let mut best: Option<i32> = None;
        let mut i: usize = 0;
        while i < ts.len()
            invariant
                i <= ts@.len(),
                best == best_value(ts@.subrange(0, i as int), name@, is_timed),
            decreases ts@.len() - i,
        {
            let ghost post = ts@.subrange(0, i as int + 1);
            assert(post.drop_last() =~= ts@.subrange(0, i as int));
            assert(post.last() == ts@[i as int]);
            if same_text(ts[i].exercise.as_str(), name) {
                if let Some(v) = achieved_by(&ts[i], is_timed) {
                    let higher = match best {
                        None => true,
                        Some(b) => b < v,
                    };
                    if higher {
                        best = Some(v);
                    }
                }
            }
            i += 1;
        }
        assert(ts@.subrange(0, ts@.len() as int) =~= ts@);
        best
    }

    /// Personal best of the exercise named `name` and the earliest date it was
    /// reached (the breakthrough, not a later repeat).
    pub fn find_personal_best_with_date(ts: &[Training], name: &str, is_timed: bool) -> (r: Option<(i32, i64)>)
        ensures
            r == personal_best(ts@, name@, is_timed),
    {
        let best = GoalCalculator::best_achieved(ts, name, is_timed);
        let v = match best {
            None => return None,
            Some(v) => v,
        };
        let mut first: Option<i64> = None;
        let mut i: usize = 0;
        while i < ts.len()
            invariant
                i <= ts@.len(),
                first == earliest_with(ts@.subrange(0, i as int), name@, is_timed, v),
            decreases ts@.len() - i,
        {
            let ghost post = ts@.subrange(0, i as int + 1);
            assert(post.drop_last() =~= ts@.subrange(0, i as int));
            assert(post.last() == ts@[i as int]);
            if same_text(ts[i].exercise.as_str(), name) && achieved_by(&ts[i], is_timed) == Some(v) {
                let earlier = match first {
                    None => true,
                    Some(d) => ts[i].date < d,
                };
                if earlier {
                    first = Some(ts[i].date);
                }
            }
            i += 1;
        }
        assert(ts@.subrange(0, ts@.len() as int) =~= ts@);
        match first {
            Some(d) => Some((v, d)),
            None => None,
        }
    }

    /// The goal for the exercise named `exercise_name`; `None` when the
    /// catalog has no such exercise.
    pub fn calculate(ts: &[Training], exercise_name: &str, c: &[Exercise], clock: Clock) -> (r: Option<ProgressGoal>)
        requires
            ts@.len() <= u32::MAX,
        ensures
            r is None <==> !known(c@, exercise_name@),
            r matches Some(g) ==> exists|k: int| resolves_to(c@, exercise_name@, k) && goal_holds(g, ts@, c@, clock, exercise_name@, #[trigger] c@[k]),
    {
        let k = match position_by_name(c, exercise_name) {
            Some(k) => k,
            None => {
                return None;
            },
        };
        let e = c[k];
        assert(resolves_to(c@, exercise_name@, k as int));
        let is_timed = e.is_timed;
        let context = build_context(ts, c, clock, None);
        let fatigued_muscles = fatigued_muscles(e.muscle_groups, &context);
        let (today_value, today_sets) = scope_totals(ts, exercise_name, is_timed, Scope::Today(clock));
        let best = GoalCalculator::find_personal_best_with_date(ts, exercise_name, is_timed);
        let days: i64 = match best {
            Some((_, d)) => days_between(d, clock.now),
            None => 0,
        };
        let record_confirmed = match best {
            Some((v, _)) => has_confirmation_in_window(ts, exercise_name, v, is_timed, clock.now, RECORD_CONSOLIDATION_DAYS),
            None => false,
        };
        let is_consolidating = match best {
            None => false,
            Some(_) => days < RECORD_CONSOLIDATION_DAYS || !record_confirmed,
        };
        let consolidation_days_left = if is_consolidating {
            let in_window: i64 = if days >= 0 { days % 7 } else { -(((-(days as i128)) % 7) as i64) };
            Some((RECORD_CONSOLIDATION_DAYS - in_window) as i32)
        } else {
            None
        };
        let (personal_best, record_date) = match best {
            Some((v, d)) => (Some(v), Some(d)),
            None => (None, None),
        };
        let beat_record_target = if is_consolidating {
            None
        } else {
            match personal_best {
                Some(v) => Some(v as i64 + 1),
                None => None,
            }
        };
        let base_target: i64 = match personal_best {
            Some(v) => v as i64 + 1,
            None => if is_timed { 61 } else { 11 },
        };
        let (_, attempts) = scope_totals(ts, exercise_name, is_timed, Scope::All);
        let confidence = if attempts <= 2 {
            GoalConfidence::Low
        } else if attempts <= 5 {
            GoalConfidence::Medium
        } else {
            GoalConfidence::High
        };
        let history = past_sessions(ts, c, clock, exercise_name, is_timed);
        let (week_sum, week_count) = scope_totals(ts, exercise_name, is_timed, Scope::Since(clock.now as i128 - 7 * 86400));
        let (fortnight_sum, fortnight_count) = scope_totals(ts, exercise_name, is_timed, Scope::Since(clock.now as i128 - 14 * 86400));
        let g = ProgressGoal {
            base_target,
            personal_best,
            beat_record_target,
            is_timed,
            confidence,
            today_sets,
            today_value,
            fatigued_muscles,
            record_date,
            is_consolidating,
            consolidation_days_left,
            record_confirmed,
            context,
            history,
            week_sum,
            week_count,
            fortnight_sum,
            fortnight_count,
        };
        assert(goal_holds(g, ts@, c@, clock, exercise_name@, c@[k as int]));
        Some(g)
    }
}

/// The record level of an exercise after a set was saved, and whether that
/// set reached it (not on the first attempt ever).
pub open spec fn record_after(ts: Seq<Training>, name: Seq<char>, timed: bool, value: i32) -> (i32, bool) {
    let best = match best_value(ts, name, timed) {
        Some(v) => v,
        None => 0,
    };
    (best, value >= best && scope_count(ts, name, Scope::All, ts.len() as int) > 1)
}

/// Record level and new-record flag for a set of `value` just saved in `ts`.
pub fn record_status(ts: &[Training], name: &str, timed: bool, value: i32) -> (r: (i32, bool))
    requires
        ts@.len() <= u32::MAX,
    ensures
        r == record_after(ts@, name@, timed, value),
{
    let best = match GoalCalculator::best_achieved(ts, name, timed) {
        Some(v) => v,
        None => 0,
    };
    let (_, attempts) = scope_totals(ts, name, timed, Scope::All);
    (best, value >= best && attempts > 1)
}

} // verus!
