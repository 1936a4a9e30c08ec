//! Training records and the calendar they are read against.

use vstd::prelude::*;
use crate::exercises::{Exercise, MuscleGroup, position_by_name};

verus! {

/// One logged set of an exercise.
#[derive(Debug, Clone)]
pub struct Training {
    pub id: Option<i64>,
    /// Seconds since the Unix epoch (UTC).
    pub date: i64,
    /// Display name of the exercise, the key into the catalog.
    pub exercise: String,
    pub sets: i32,
    pub reps: i32,
    /// Time spent on the exercise.
    pub duration_secs: Option<i32>,
    /// Heart rate before the exercise.
    pub pulse_before: Option<i32>,
    /// Heart rate after the exercise.
    pub pulse_after: Option<i32>,
    pub notes: Option<String>,
    /// Owner of the record.
    pub user_id: Option<i64>,
}

/// The moment the analytics are computed at, and the local time zone's
/// offset from UTC, both in seconds.
#[derive(Debug, Clone, Copy, PartialEq, Eq, Structural)]
pub struct Clock {
    pub now: i64,
    pub utc_offset: i64,
}

pub const SECS_PER_DAY: i64 = 86400;

/// Local calendar day (days since the epoch) of a timestamp.
pub open spec fn day_of(clock: Clock, ts: i64) -> int {
    (ts + clock.utc_offset) / 86400
}

/// Local calendar day of `clock.now`.
pub open spec fn today(clock: Clock) -> int {
    day_of(clock, clock.now)
}

/// Whole days elapsed from `from` to `to`, truncated toward zero.
pub open spec fn whole_days(from: i64, to: i64) -> int {
    let d = to - from;
    if d >= 0 {
        d / 86400
    } else {
        -((-d) / 86400)
    }
}

const DAY_SHIFT: i128 = 0x1_0000_0000_0000;

/// Local calendar day of `ts`.
pub fn local_day(clock: Clock, ts: i64) -> (r: i64)
    ensures
        r == day_of(clock, ts),
{
    let s: i128 = ts as i128 + clock.utc_offset as i128;
    let shifted: i128 = s + DAY_SHIFT * 86400;
    assert(shifted >= 0);
    let q: i128 = shifted / 86400;
    proof {
        assert((s + DAY_SHIFT * 86400) / 86400 == s / 86400 + DAY_SHIFT) by (nonlinear_arith);
    }
    (q - DAY_SHIFT) as i64
}

/// Whole days elapsed from `from` to `to`, truncated toward zero.
pub fn days_between(from: i64, to: i64) -> (r: i64)
    ensures
        r == whole_days(from, to),
{
    let d: i128 = to as i128 - from as i128;
    if d >= 0 {
        (d / 86400) as i64
    } else {
        let n: i128 = -d;
        -((n / 86400) as i64)
    }
}

/// The catalog entry that a record's exercise name resolves to, if any:
/// the first entry with that name.
pub open spec fn resolves_to(c: Seq<Exercise>, name: Seq<char>, i: int) -> bool {
    0 <= i < c.len() && c[i].name@ == name && forall|j: int| 0 <= j < i ==> c[j].name@ != name
}

/// Whether records of the exercise named `name` load muscle group `g`.
pub open spec fn touches(c: Seq<Exercise>, name: Seq<char>, g: MuscleGroup) -> bool {
    exists|i: int| resolves_to(c, name, i) && (#[trigger] c[i]).muscle_groups@.contains(g)
}

/// Whether `name` names some catalog entry.
pub open spec fn known(c: Seq<Exercise>, name: Seq<char>) -> bool {
    exists|i: int| resolves_to(c, name, i)
}

pub proof fn lemma_resolves_unique(c: Seq<Exercise>, name: Seq<char>, i: int, j: int)
    requires
        resolves_to(c, name, i),
        resolves_to(c, name, j),
    ensures
        i == j,
{
}

/// Whether a muscle group occurs in a list of groups.
pub fn has_group(groups: &[MuscleGroup], g: MuscleGroup) -> (r: bool)
    ensures
        r == groups@.contains(g),
{
    let mut i: usize = 0;
    while i < groups.len()
        invariant
            i <= groups@.len(),
            forall|j: int| 0 <= j < i ==> groups@[j] != g,
        decreases groups@.len() - i,
    {
        if groups[i] == g {
            assert(groups@[i as int] == g);
            return true;
        }
        i += 1;
    }
    false
}

/// The muscle groups that records of the exercise named `name` load: those
/// of its catalog entry, or none for a name the catalog lacks.
pub fn groups_of(catalog: &[Exercise], name: &str) -> (r: &'static [MuscleGroup])
    ensures
        forall|g: MuscleGroup| r@.contains(g) == touches(catalog@, name@, g),
        r@.len() > 0 ==> known(catalog@, name@),
{
    match position_by_name(catalog, name) {
        Some(i) => {
            assert(resolves_to(catalog@, name@, i as int));
            proof {
                assert forall|g: MuscleGroup| catalog@[i as int].muscle_groups@.contains(g) == touches(catalog@, name@, g) by {
                    if touches(catalog@, name@, g) {
                        let k = choose|k: int| resolves_to(catalog@, name@, k) && (#[trigger] catalog@[k]).muscle_groups@.contains(g);
                        lemma_resolves_unique(catalog@, name@, i as int, k);
                    }
                }
            }
            catalog[i].muscle_groups
        },
        None => {
            let r: &'static [MuscleGroup] = &[];
            assert(r@.len() == 0);
            r
        },
    }
}

} // verus!
