//! Queries over a training history by exercise name.

use vstd::prelude::*;
use crate::text::same_text;
use crate::training::{Clock, Training, day_of, today, local_day};

verus! {

/// Some record of the exercise named `name` falls on today's local date.
pub open spec fn done_today(ts: Seq<Training>, clock: Clock, name: Seq<char>) -> bool {
    exists|i: int| 0 <= i < ts.len() && (#[trigger] ts[i]).exercise@ == name && day_of(clock, ts[i].date) == today(clock)
}

/// Some record of the exercise named `name` exists.
pub open spec fn ever_done(ts: Seq<Training>, name: Seq<char>) -> bool {
    exists|i: int| 0 <= i < ts.len() && (#[trigger] ts[i]).exercise@ == name
}

/// Latest timestamp of a record of the exercise named `name`.
pub open spec fn last_done(ts: Seq<Training>, name: Seq<char>) -> Option<i64>
    decreases ts.len(),
{
    if ts.len() == 0 {
        None
    } else {
        let prev = last_done(ts.drop_last(), name);
        let t = ts.last();
        if t.exercise@ == name && (prev is None || prev.unwrap() < t.date) {
            Some(t.date)
        } else {
            prev
        }
    }
}

/// At least an hour has passed since the exercise was last performed, on any
/// date; an exercise never performed is rested.
pub open spec fn rested(ts: Seq<Training>, clock: Clock, name: Seq<char>) -> bool {
    match last_done(ts, name) {
        None => true,
        Some(d) => clock.now - d >= 3600,
    }
}

/// `last_done` is the latest record of the exercise, and exists exactly when
/// a record does.
pub proof fn lemma_last_done(ts: Seq<Training>, name: Seq<char>)
    ensures
        last_done(ts, name) is Some <==> ever_done(ts, name),
        forall|i: int| 0 <= i < ts.len() && (#[trigger] ts[i]).exercise@ == name ==> (last_done(ts, name) matches Some(d) && ts[i].date <= d),
    decreases ts.len(),
{
    if ts.len() > 0 {
        let init = ts.drop_last();
        lemma_last_done(init, name);
        assert forall|i: int| 0 <= i < init.len() implies #[trigger] init[i] == ts[i] by {}
        if ever_done(ts, name) && !(ts.last().exercise@ == name) {
            let w = choose|w: int| 0 <= w < ts.len() && (#[trigger] ts[w]).exercise@ == name;
            assert(init[w] == ts[w]);
        }
        if ever_done(init, name) {
            let w = choose|w: int| 0 <= w < init.len() && (#[trigger] init[w]).exercise@ == name;
            assert(ts[w] == init[w]);
        }
        assert forall|i: int| 0 <= i < ts.len() && (#[trigger] ts[i]).exercise@ == name implies (last_done(ts, name) matches Some(d) && ts[i].date <= d) by {
            if i < ts.len() - 1 {
                assert(init[i] == ts[i]);
            } else {
                assert(ts[i] == ts.last());
            }
        }
    }
}

/// Whether the exercise named `name` was performed today.
pub fn is_done_today(ts: &[Training], clock: Clock, name: &str) -> (r: bool)
    ensures
        r == done_today(ts@, clock, name@),
{
    let today_day = local_day(clock, clock.now);
    let mut i: usize = 0;
    while i < ts.len()
        invariant
            i <= ts@.len(),
            today_day == today(clock),
            forall|j: int| 0 <= j < i ==> !((#[trigger] ts@[j]).exercise@ == name@ && day_of(clock, ts@[j].date) == today(clock)),
        decreases ts@.len() - i,
    {
        if same_text(ts[i].exercise.as_str(), name) && local_day(clock, ts[i].date) == today_day {
            return true;
        }
        i += 1;
    }
    false
}

/// Whether the exercise named `name` was ever performed.
pub fn is_ever_done(ts: &[Training], name: &str) -> (r: bool)
    ensures
        r == ever_done(ts@, name@),
{
    let mut i: usize = 0;
    while i < ts.len()
        invariant
            i <= ts@.len(),
            forall|j: int| 0 <= j < i ==> (#[trigger] ts@[j]).exercise@ != name@,
        decreases ts@.len() - i,
    {
        if same_text(ts[i].exercise.as_str(), name) {
            return true;
        }
        i += 1;
    }
    false
}

/// When the exercise named `name` was last performed.
pub fn last_done_at(ts: &[Training], name: &str) -> (r: Option<i64>)
    ensures
        r == last_done(ts@, name@),
{
    let mut r: Option<i64> = None;
    let mut i: usize = 0;
    while i < ts.len()
        invariant
            i <= ts@.len(),
            r == last_done(ts@.subrange(0, i as int), name@),
        decreases ts@.len() - i,
    {
        let ghost post = ts@.subrange(0, i as int + 1);
        assert(post.drop_last() =~= ts@.subrange(0, i as int));
        assert(post.last() == ts@[i as int]);
        if same_text(ts[i].exercise.as_str(), name) {
            let newer = match r {
                None => true,
                Some(d) => d < ts[i].date,
            };
            if newer {
                r = Some(ts[i].date);
            }
        }
        i += 1;
    }
    assert(ts@.subrange(0, ts@.len() as int) =~= ts@);
    r
}

/// Whether an hour has passed since the exercise was last performed.
pub fn is_rested(ts: &[Training], clock: Clock, name: &str) -> (r: bool)
    ensures
        r == rested(ts@, clock, name@),
{
    match last_done_at(ts, name) {
        None => true,
        Some(d) => clock.now as i128 - d as i128 >= 3600,
    }
}

} // verus!
