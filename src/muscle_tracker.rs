//! Per-muscle-group training volume over today and the trailing week.

use vstd::prelude::*;
use crate::exercises::{Exercise, MuscleGroup, all_groups, group_index, lemma_group_index};
use crate::order::{ranked, ascending_positions};
use crate::training::{Clock, Training, day_of, today, touches, local_day, groups_of, has_group};

verus! {

/// Load statistics for one muscle group.
#[derive(Debug, Clone, Copy)]
pub struct MuscleLoad {
    pub group: MuscleGroup,
    pub today_volume: i64,
    pub week_volume: i64,
    pub last_trained: Option<i64>,
}

/// Whether a record counts toward today (`week == false`) or toward the
/// trailing week (`week == true`): the last 7 calendar days and today.
pub open spec fn in_window(clock: Clock, ts: i64, week: bool) -> bool {
    if week {
        day_of(clock, ts) >= today(clock) - 7
    } else {
        day_of(clock, ts) == today(clock)
    }
}

/// Sum of `reps` over the records that load `g` and fall in the window.
pub open spec fn volume(ts: Seq<Training>, c: Seq<Exercise>, clock: Clock, g: MuscleGroup, week: bool) -> int
    decreases ts.len(),
{
    if ts.len() == 0 {
        0
    } else {
        let t = ts.last();
        volume(ts.drop_last(), c, clock, g, week) + if touches(c, t.exercise@, g) && in_window(clock, t.date, week) {
            t.reps as int
        } else {
            0
        }
    }
}

/// Latest timestamp of a record that loads `g`.
pub open spec fn last_trained(ts: Seq<Training>, c: Seq<Exercise>, g: MuscleGroup) -> Option<i64>
    decreases ts.len(),
{
    if ts.len() == 0 {
        None
    } else {
        let prev = last_trained(ts.drop_last(), c, g);
        let t = ts.last();
        if touches(c, t.exercise@, g) && (prev is None || prev.unwrap() < t.date) {
            Some(t.date)
        } else {
            prev
        }
    }
}

pub proof fn lemma_volume_bounds(ts: Seq<Training>, c: Seq<Exercise>, clock: Clock, g: MuscleGroup, week: bool)
    ensures
        -(ts.len() as int) * 0x8000_0000 <= volume(ts, c, clock, g, week) <= ts.len() as int * 0x7fff_ffff,
    decreases ts.len(),
{
    if ts.len() > 0 {
        lemma_volume_bounds(ts.drop_last(), c, clock, g, week);
    }
}

/// Tracks muscle group load from a training history.
pub struct MuscleTracker {
    /// One entry per muscle group, in the order of `all_groups()`.
    pub loads: Vec<MuscleLoad>,
}

impl MuscleTracker {
    pub open spec fn wf(&self) -> bool {
        &&& self.loads@.len() == 11
        &&& forall|k: int| 0 <= k < 11 ==> (#[trigger] self.loads@[k]).group == all_groups()[k]
    }

    /// The tracker holds the loads of the history `ts` read against catalog `c`.
    pub open spec fn describes(&self, ts: Seq<Training>, c: Seq<Exercise>, clock: Clock) -> bool {
        &&& self.wf()
        &&& forall|k: int| 0 <= k < 11 ==> {
            let l = #[trigger] self.loads@[k];
            &&& l.today_volume == volume(ts, c, clock, all_groups()[k], false)
            &&& l.week_volume == volume(ts, c, clock, all_groups()[k], true)
            &&& l.last_trained == last_trained(ts, c, all_groups()[k])
        }
    }

    /// Builds the tracker from a training history; records whose exercise the
    /// catalog lacks are skipped.
    pub fn from_trainings(trainings: &[Training], catalog: &[Exercise], clock: Clock) -> (r: Self)
        requires
            trainings@.len() <= u32::MAX,
        ensures
            r.describes(trainings@, catalog@, clock),
    {
        let groups = MuscleGroup::all();
        let ghost ts = trainings@;
        let ghost c = catalog@;
        let mut today_vol: Vec<i64> = Vec::new();
        let mut week_vol: Vec<i64> = Vec::new();
        let mut last: Vec<Option<i64>> = Vec::new();
        let mut k: usize = 0;
        while k < 11
            invariant
                k <= 11,
                today_vol@.len() == k,
                week_vol@.len() == k,
                last@.len() == k,
                forall|q: int| 0 <= q < k ==> #[trigger] today_vol@[q] == 0,
                forall|q: int| 0 <= q < k ==> #[trigger] week_vol@[q] == 0,
                forall|q: int| 0 <= q < k ==> #[trigger] last@[q] is None,
            decreases 11 - k,
        {
            today_vol.push(0);
            week_vol.push(0);
            last.push(None);
            k += 1;
        }
        let today_day = local_day(clock, clock.now);
        assert forall|q: int| 0 <= q < 11 implies #[trigger] last@[q] == last_trained(ts.subrange(0, 0), c, all_groups()[q]) by {
            assert(today_vol@[q] == 0 && week_vol@[q] == 0 && last@[q] is None);
        }
        let mut i: usize = 0;
        while i < trainings.len()
            invariant
                ts == trainings@,
                c == catalog@,
                groups@ == all_groups(),
                today_day == today(clock),
                i <= ts.len() <= u32::MAX,
                today_vol@.len() == 11,
                week_vol@.len() == 11,
                last@.len() == 11,
                forall|q: int| 0 <= q < 11 ==> #[trigger] today_vol@[q] == volume(ts.subrange(0, i as int), c, clock, all_groups()[q], false),
                forall|q: int| 0 <= q < 11 ==> #[trigger] week_vol@[q] == volume(ts.subrange(0, i as int), c, clock, all_groups()[q], true),
                forall|q: int| 0 <= q < 11 ==> #[trigger] last@[q] == last_trained(ts.subrange(0, i as int), c, all_groups()[q]),
            decreases ts.len() - i,
        {
            let t = &trainings[i];
            let hit = groups_of(catalog, t.exercise.as_str());
            let day = local_day(clock, t.date);
            let is_today = day == today_day;
            let is_week = day >= today_day - 7;
            let ghost pre = ts.subrange(0, i as int);
            let ghost post = ts.subrange(0, i as int + 1);
            assert(post.drop_last() =~= pre);
            assert(post.last() == ts[i as int]);
            let mut q: usize = 0;
            while q < 11
                invariant
                    ts == trainings@,
                    c == catalog@,
                    groups@ == all_groups(),
                    i < ts.len() <= u32::MAX,
                    pre == ts.subrange(0, i as int),
                    post.drop_last() == pre,
                    post.last() == ts[i as int],
                    *t == ts[i as int],
                    post.len() == i + 1,
                    q <= 11,
                    is_today == in_window(clock, t.date, false),
                    is_week == in_window(clock, t.date, true),
                    forall|g: MuscleGroup| hit@.contains(g) == touches(c, t.exercise@, g),
                    today_vol@.len() == 11,
                    week_vol@.len() == 11,
                    last@.len() == 11,
                    pre.len() == i,
                    forall|p: int| 0 <= p < 11 ==> #[trigger] today_vol@[p] == volume(if p < q { post } else { pre }, c, clock, all_groups()[p], false),
                    forall|p: int| 0 <= p < 11 ==> #[trigger] week_vol@[p] == volume(if p < q { post } else { pre }, c, clock, all_groups()[p], true),
                    forall|p: int| 0 <= p < 11 ==> #[trigger] last@[p] == last_trained(if p < q { post } else { pre }, c, all_groups()[p]),
                decreases 11 - q,
            {
                let g = groups[q];
                assert(today_vol@[q as int] == volume(pre, c, clock, g, false));
                assert(week_vol@[q as int] == volume(pre, c, clock, g, true));
                assert(last@[q as int] == last_trained(pre, c, g));
                assert(volume(post, c, clock, g, false) == volume(pre, c, clock, g, false) + if touches(c, t.exercise@, g) && in_window(clock, t.date, false) { t.reps as int } else { 0 });
                assert(volume(post, c, clock, g, true) == volume(pre, c, clock, g, true) + if touches(c, t.exercise@, g) && in_window(clock, t.date, true) { t.reps as int } else { 0 });
                if has_group(hit, g) {
                    proof {
                        lemma_volume_bounds(pre, c, clock, g, false);
                        lemma_volume_bounds(pre, c, clock, g, true);
                    }
                    if is_today {
                        today_vol.set(q, today_vol[q] + t.reps as i64);
                    }
                    if is_week {
                        week_vol.set(q, week_vol[q] + t.reps as i64);
                    }
                    let newer = match last[q] {
                        None => true,
                        Some(d) => d < t.date,
                    };
                    if newer {
                        last.set(q, Some(t.date));
                    }
                }
                q += 1;
            }
            i += 1;
        }
        assert(ts.subrange(0, ts.len() as int) =~= ts);
        let mut loads: Vec<MuscleLoad> = Vec::new();
        let mut k: usize = 0;
        while k < 11
            invariant
                groups@ == all_groups(),
                k <= 11,
                loads@.len() == k,
                today_vol@.len() == 11,
                week_vol@.len() == 11,
                last@.len() == 11,
                forall|q: int| 0 <= q < 11 ==> #[trigger] today_vol@[q] == volume(ts, c, clock, all_groups()[q], false),
                forall|q: int| 0 <= q < 11 ==> #[trigger] week_vol@[q] == volume(ts, c, clock, all_groups()[q], true),
                forall|q: int| 0 <= q < 11 ==> #[trigger] last@[q] == last_trained(ts, c, all_groups()[q]),
                forall|q: int| 0 <= q < k ==> {
                    let l = #[trigger] loads@[q];
                    &&& l.group == all_groups()[q]
                    &&& l.today_volume == today_vol@[q]
                    &&& l.week_volume == week_vol@[q]
                    &&& l.last_trained == last@[q]
                },
            decreases 11 - k,
        {
            loads.push(MuscleLoad { group: groups[k], today_volume: today_vol[k], week_volume: week_vol[k], last_trained: last[k] });
            k += 1;
        }
        MuscleTracker { loads }
    }
}

} // verus!

verus! {

/// Today's volumes, the key of the ascending order of loads.
pub open spec fn today_keys(loads: Seq<MuscleLoad>) -> Seq<i128> {
    Seq::new(loads.len(), |k: int| loads[k].today_volume as i128)
}

/// Negated week volumes, the key of the descending order of the report.
pub open spec fn week_desc_keys(loads: Seq<MuscleLoad>) -> Seq<i128> {
    Seq::new(loads.len(), |k: int| (-(loads[k].week_volume as int)) as i128)
}

/// `r` lists the `limit` least worked groups today, the full-body catch-all
/// left out, in ascending order of today's volume (ties in group order).
pub open spec fn underworked_list(loads: Seq<MuscleLoad>, limit: int, r: Seq<MuscleGroup>) -> bool {
    exists|order: Seq<usize>|
        ranked(today_keys(loads), without_full_body(), limit, order) && r.len() == order.len()
            && forall|a: int| 0 <= a < order.len() ==> #[trigger] r[a] == all_groups()[order[a] as int]
}

/// Every group.
pub open spec fn every_group() -> Seq<bool> {
    Seq::new(11, |k: int| true)
}

/// Every group but the full-body catch-all (the last one).
pub open spec fn without_full_body() -> Seq<bool> {
    Seq::new(11, |k: int| k != 10)
}

/// The largest week volume among the first `n` groups, and at least 1.
pub open spec fn week_max(loads: Seq<MuscleLoad>, n: int) -> int
    decreases n,
{
    if n <= 0 {
        1
    } else {
        let m = week_max(loads, n - 1);
        let w = loads[n - 1].week_volume as int;
        if w > m { w } else { m }
    }
}

/// Intensity bucket of a week volume relative to the largest one.
pub open spec fn bar(week: int, max: int) -> Seq<char> {
    if 4 * week >= 3 * max {
        "[++++]"@
    } else if 2 * week >= max {
        "[+++.]"@
    } else if 4 * week >= max {
        "[++..]"@
    } else if week > 0 {
        "[+...]"@
    } else {
        "[....]"@
    }
}

/// For every muscle group, the trailing week's volume is at least today's,
/// when no record has negative repetitions.
pub proof fn lemma_week_covers_today(ts: Seq<Training>, c: Seq<Exercise>, clock: Clock, g: MuscleGroup)
    requires
        forall|i: int| 0 <= i < ts.len() ==> (#[trigger] ts[i]).reps >= 0,
    ensures
        volume(ts, c, clock, g, true) >= volume(ts, c, clock, g, false),
    decreases ts.len(),
{
    if ts.len() > 0 {
        let init = ts.drop_last();
        assert forall|i: int| 0 <= i < init.len() implies (#[trigger] init[i]).reps >= 0 by {
            assert(init[i] == ts[i]);
        }
        assert(ts.last() == ts[ts.len() - 1]);
        lemma_week_covers_today(init, c, clock, g);
    }
}

/// In a tracker built from a log without negative repetitions, every muscle
/// group's week volume is at least its volume of today.
pub proof fn lemma_tracker_week_covers_today(tr: MuscleTracker, ts: Seq<Training>, c: Seq<Exercise>, clock: Clock)
    requires
        tr.describes(ts, c, clock),
        forall|i: int| 0 <= i < ts.len() ==> (#[trigger] ts[i]).reps >= 0,
    ensures
        forall|k: int| 0 <= k < 11 ==> (#[trigger] tr.loads@[k]).week_volume >= tr.loads@[k].today_volume,
{
    assert forall|k: int| 0 <= k < 11 implies (#[trigger] tr.loads@[k]).week_volume >= tr.loads@[k].today_volume by {
        lemma_week_covers_today(ts, c, clock, all_groups()[k]);
    }
}

impl MuscleTracker {
    /// The load of one muscle group.
    pub fn get_load(&self, group: &MuscleGroup) -> (r: Option<MuscleLoad>)
        requires
            self.wf(),
        ensures
            r == Some(self.loads@[group_index(*group)]),
    {
        proof {
            lemma_group_index(*group);
        }
        let k: usize = match group {
            MuscleGroup::Chest => 0,
            MuscleGroup::Shoulders => 1,
            MuscleGroup::Triceps => 2,
            MuscleGroup::Back => 3,
            MuscleGroup::Biceps => 4,
            MuscleGroup::Core => 5,
            MuscleGroup::Glutes => 6,
            MuscleGroup::Quads => 7,
            MuscleGroup::Hamstrings => 8,
            MuscleGroup::Calves => 9,
            MuscleGroup::FullBody => 10,
        };
        Some(self.loads[k])
    }

    /// Order of the groups by today's volume, ascending, ties in group order.
    fn today_order(&self, eligible: &Vec<bool>, limit: usize) -> (r: Vec<usize>)
        requires
            self.wf(),
            eligible@.len() == 11,
        ensures
            ranked(today_keys(self.loads@), eligible@, limit as int, r@),
    {
        let mut keys: Vec<i128> = Vec::new();
        let mut k: usize = 0;
        while k < 11
            invariant
                self.wf(),
                k <= 11,
                keys@.len() == k,
                forall|q: int| 0 <= q < k ==> #[trigger] keys@[q] == self.loads@[q].today_volume as i128,
            decreases 11 - k,
        {
            keys.push(self.loads[k].today_volume as i128);
            k += 1;
        }
        assert(keys@ =~= today_keys(self.loads@));
        ascending_positions(&keys, eligible, limit)
    }

    /// All loads, least worked today first; ties keep the group order.
    pub fn get_loads_sorted(&self) -> (r: Vec<MuscleLoad>)
        requires
            self.wf(),
        ensures
            exists|order: Seq<usize>|
                ranked(today_keys(self.loads@), every_group(), 11, order) && r@.len() == order.len()
                    && forall|a: int| 0 <= a < order.len() ==> #[trigger] r@[a] == self.loads@[order[a] as int],
    {
        let mut eligible: Vec<bool> = Vec::new();
        let mut k: usize = 0;
        while k < 11
            invariant
                k <= 11,
                eligible@.len() == k,
                forall|q: int| 0 <= q < k ==> #[trigger] eligible@[q],
            decreases 11 - k,
        {
            eligible.push(true);
            k += 1;
        }
        assert(eligible@ =~= every_group());
        let order = self.today_order(&eligible, 11);
        let mut r: Vec<MuscleLoad> = Vec::new();
        let mut a: usize = 0;
        while a < order.len()
            invariant
                self.wf(),
                ranked(today_keys(self.loads@), every_group(), 11, order@),
                a <= order@.len(),
                r@.len() == a,
                forall|b: int| 0 <= b < a ==> #[trigger] r@[b] == self.loads@[order@[b] as int],
            decreases order@.len() - a,
        {
            assert(order@[a as int] < 11);
            r.push(self.loads[order[a]]);
            a += 1;
        }
        r
    }

    /// The `limit` least worked groups today, the full-body catch-all left out;
    /// ties keep the group order.
    pub fn get_underworked_groups(&self, limit: usize) -> (r: Vec<MuscleGroup>)
        requires
            self.wf(),
        ensures
            underworked_list(self.loads@, limit as int, r@),
    {
        let mut eligible: Vec<bool> = Vec::new();
        let mut k: usize = 0;
        while k < 11
            invariant
                k <= 11,
                eligible@.len() == k,
                forall|q: int| 0 <= q < k ==> #[trigger] eligible@[q] == (q != 10),
            decreases 11 - k,
        {
            eligible.push(k != 10);
            k += 1;
        }
        assert(eligible@ =~= without_full_body());
        let order = self.today_order(&eligible, limit);
        let mut r: Vec<MuscleGroup> = Vec::new();
        let mut a: usize = 0;
        while a < order.len()
            invariant
                self.wf(),
                ranked(today_keys(self.loads@), without_full_body(), limit as int, order@),
                a <= order@.len(),
                r@.len() == a,
                forall|b: int| 0 <= b < a ==> #[trigger] r@[b] == all_groups()[order@[b] as int],
            decreases order@.len() - a,
        {
            assert(order@[a as int] < 11);
            r.push(self.loads[order[a]].group);
            a += 1;
        }
        assert(r@.len() == order@.len());
        r
    }

    /// The groups but the full-body catch-all, most worked this week first
    /// (ties keep the group order), each with its week volume and intensity bar.
    pub fn get_weekly_report(&self) -> (r: Vec<(MuscleGroup, i64, &'static str)>)
        requires
            self.wf(),
        ensures
            exists|order: Seq<usize>|
                ranked(week_desc_keys(self.loads@), without_full_body(), 10, order) && r@.len() == order.len()
                    && forall|a: int| 0 <= a < order.len() ==> {
                        let l = self.loads@[order[a] as int];
                        &&& (#[trigger] r@[a]).0 == l.group
                        &&& r@[a].1 == l.week_volume
                        &&& r@[a].2@ == bar(l.week_volume as int, week_max(self.loads@, 10))
                    },
    {
        let mut keys: Vec<i128> = Vec::new();
        let mut eligible: Vec<bool> = Vec::new();
        let mut max_volume: i64 = 1;
        let mut k: usize = 0;
        while k < 11
            invariant
                self.wf(),
                k <= 11,
                keys@.len() == k,
                eligible@.len() == k,
                forall|q: int| 0 <= q < k ==> #[trigger] keys@[q] == -(self.loads@[q].week_volume as i128),
                forall|q: int| 0 <= q < k ==> #[trigger] eligible@[q] == (q != 10),
                max_volume == week_max(self.loads@, if k <= 10 { k as int } else { 10 }),
            decreases 11 - k,
        {
            keys.push(-(self.loads[k].week_volume as i128));
            eligible.push(k != 10);
            if k < 10 && self.loads[k].week_volume > max_volume {
                max_volume = self.loads[k].week_volume;
            }
            k += 1;
        }
        assert(keys@ =~= week_desc_keys(self.loads@));
        assert(eligible@ =~= without_full_body());
        let order = ascending_positions(&keys, &eligible, 10);
        let mut r: Vec<(MuscleGroup, i64, &'static str)> = Vec::new();
        let mut a: usize = 0;
        while a < order.len()
            invariant
                self.wf(),
                ranked(week_desc_keys(self.loads@), without_full_body(), 10, order@),
                max_volume == week_max(self.loads@, 10),
                a <= order@.len(),
                r@.len() == a,
                forall|b: int| 0 <= b < a ==> {
                    let l = self.loads@[order@[b] as int];
                    &&& (#[trigger] r@[b]).0 == l.group
                    &&& r@[b].1 == l.week_volume
                    &&& r@[b].2@ == bar(l.week_volume as int, week_max(self.loads@, 10))
                },
            decreases order@.len() - a,
        {
            assert(order@[a as int] < 11);
            let l = self.loads[order[a]];
            let w = l.week_volume as i128;
            let m = max_volume as i128;
            let b: &'static str = if 4 * w >= 3 * m {
                "[++++]"
            } else if 2 * w >= m {
                "[+++.]"
            } else if 4 * w >= m {
                "[++..]"
            } else if w > 0 {
                "[+...]"
            } else {
                "[....]"
            };
            r.push((l.group, l.week_volume, b));
            a += 1;
        }
        r
    }
}

} // verus!
