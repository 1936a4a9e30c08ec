//! Chooses the next exercise: the daily base program first (warm-up, the
//! middle exercises, cool-down), then bonus exercises.

use vstd::prelude::*;
use vstd::string::*;
use crate::exercises::{Exercise, MuscleGroup, muscle_name, well_formed_catalog, well_formed_entry, WARMUP_ID, COOLDOWN_ID};
use crate::history::{lemma_last_done, done_today, ever_done, last_done, rested, is_done_today, is_ever_done, last_done_at, is_rested};
use crate::muscle_tracker::{MuscleTracker, underworked_list};
use crate::text::{same_text, decimal, decimal_text};
use crate::training::{Clock, Training, whole_days, days_between, has_group};

verus! {

/// How many entries of `gs` are in the underworked list.
pub open spec fn count_under(gs: Seq<MuscleGroup>, under: Seq<MuscleGroup>) -> int
    decreases gs.len(),
{
    if gs.len() == 0 {
        0
    } else {
        count_under(gs.drop_last(), under) + if under.contains(gs.last()) { 1int } else { 0int }
    }
}

/// Names of the entries of `gs` that are in the underworked list, in order.
pub open spec fn under_names(gs: Seq<MuscleGroup>, under: Seq<MuscleGroup>) -> Seq<Seq<char>>
    decreases gs.len(),
{
    if gs.len() == 0 {
        Seq::empty()
    } else {
        let p = under_names(gs.drop_last(), under);
        if under.contains(gs.last()) {
            p.push(muscle_name(gs.last()))
        } else {
            p
        }
    }
}

/// The parts joined with ", ".
pub open spec fn join(parts: Seq<Seq<char>>) -> Seq<char>
    decreases parts.len(),
{
    if parts.len() == 0 {
        Seq::empty()
    } else if parts.len() == 1 {
        parts[0]
    } else {
        join(parts.drop_last()) + ", "@ + parts.last()
    }
}

pub proof fn lemma_count_under(gs: Seq<MuscleGroup>, under: Seq<MuscleGroup>)
    ensures
        0 <= count_under(gs, under) <= gs.len(),
        count_under(gs, under) == under_names(gs, under).len(),
    decreases gs.len(),
{
    if gs.len() > 0 {
        lemma_count_under(gs.drop_last(), under);
    }
}

fn underworked_count(gs: &[MuscleGroup], under: &Vec<MuscleGroup>) -> (r: usize)
    ensures
        r == count_under(gs@, under@),
{
    let mut r: usize = 0;
    let mut i: usize = 0;
    while i < gs.len()
        invariant
            i <= gs@.len(),
            r == count_under(gs@.subrange(0, i as int), under@),
            r <= i,
        decreases gs@.len() - i,
    {
        let ghost post = gs@.subrange(0, i as int + 1);
        assert(post.drop_last() =~= gs@.subrange(0, i as int));
        assert(post.last() == gs@[i as int]);
        if has_group(under.as_slice(), gs[i]) {
            r += 1;
        }
        i += 1;
    }
    assert(gs@.subrange(0, gs@.len() as int) =~= gs@);
    r
}

fn underworked_names(gs: &[MuscleGroup], under: &Vec<MuscleGroup>) -> (r: String)
    ensures
        r@ == join(under_names(gs@, under@)),
{
    let mut r = String::new();
    let mut parts: usize = 0;
    let mut i: usize = 0;
    while i < gs.len()
        invariant
            i <= gs@.len(),
            parts <= i,
            parts == under_names(gs@.subrange(0, i as int), under@).len(),
            r@ == join(under_names(gs@.subrange(0, i as int), under@)),
        decreases gs@.len() - i,
    {
        let ghost pre = gs@.subrange(0, i as int);
        let ghost post = gs@.subrange(0, i as int + 1);
        assert(post.drop_last() =~= pre);
        assert(post.last() == gs@[i as int]);
        if has_group(under.as_slice(), gs[i]) {
            let ghost p = under_names(pre, under@);
            let ghost q = p.push(muscle_name(gs@[i as int]));
            assert(q.drop_last() =~= p);
            if parts > 0 {
                r.append(", ");
            } else {
                assert(r@ =~= Seq::<char>::empty());
            }
            r.append(gs[i].name_ru());
            parts += 1;
            assert(r@ =~= join(q));
        }
        i += 1;
    }
    assert(gs@.subrange(0, gs@.len() as int) =~= gs@);
    r
}

/// The first base entry of the catalog with the given id, among the first `n`.
pub open spec fn base_with_id(c: Seq<Exercise>, id: Seq<char>, n: int) -> Option<int>
    decreases n,
{
    if n <= 0 {
        None
    } else {
        match base_with_id(c, id, n - 1) {
            Some(k) => Some(k),
            None => if c[n - 1].is_base && c[n - 1].id@ == id { Some(n - 1) } else { None },
        }
    }
}

pub proof fn lemma_base_with_id_range(c: Seq<Exercise>, id: Seq<char>, m: int)
    ensures
        base_with_id(c, id, m) matches Some(k) ==> 0 <= k < m,
    decreases m,
{
    if m > 0 {
        lemma_base_with_id_range(c, id, m - 1);
    }
}

pub proof fn lemma_base_with_id_stable(c: Seq<Exercise>, id: Seq<char>, m: int, n: int)
    requires
        0 <= m <= n,
        base_with_id(c, id, m) is Some,
    ensures
        base_with_id(c, id, n) == base_with_id(c, id, m),
    decreases n - m,
{
    if m < n {
        lemma_base_with_id_stable(c, id, m, n - 1);
    }
}

/// Every base entry of the catalog was performed today.
pub open spec fn base_program_done(ts: Seq<Training>, c: Seq<Exercise>, clock: Clock) -> bool {
    forall|j: int| 0 <= j < c.len() && (#[trigger] c[j]).is_base ==> done_today(ts, clock, c[j].name@)
}

/// A base entry other than the warm-up and the cool-down, not performed today
/// and rested.
pub open spec fn middle_candidate(ts: Seq<Training>, c: Seq<Exercise>, clock: Clock, j: int) -> bool {
    &&& c[j].is_base
    &&& c[j].id@ != WARMUP_ID@
    &&& c[j].id@ != COOLDOWN_ID@
    &&& !done_today(ts, clock, c[j].name@)
    &&& rested(ts, clock, c[j].name@)
}

/// Entry `j` scores strictly higher than entry `p` in the middle of the base
/// program: the score is 1/2 plus the share of its muscle groups that are
/// underworked, or 3/10 when none is.
pub open spec fn middle_better(c: Seq<Exercise>, under: Seq<MuscleGroup>, j: int, p: int) -> bool {
    let uj = count_under(c[j].muscle_groups@, under);
    let up = count_under(c[p].muscle_groups@, under);
    let nj = c[j].muscle_groups@.len() as int;
    let np = c[p].muscle_groups@.len() as int;
    (uj > 0 && up == 0) || (uj > 0 && up > 0 && uj * np > up * nj)
}

/// The first best-scoring middle candidate among the first `n` entries.
pub open spec fn best_middle(ts: Seq<Training>, c: Seq<Exercise>, clock: Clock, under: Seq<MuscleGroup>, n: int) -> Option<int>
    decreases n,
{
    if n <= 0 {
        None
    } else {
        let prev = best_middle(ts, c, clock, under, n - 1);
        if !middle_candidate(ts, c, clock, n - 1) {
            prev
        } else {
            match prev {
                None => Some(n - 1),
                Some(p) => if middle_better(c, under, n - 1, p) { Some(n - 1) } else { prev },
            }
        }
    }
}

/// A bonus entry never performed (and, with `need_under`, targeting an
/// underworked group).
pub open spec fn new_candidate(ts: Seq<Training>, c: Seq<Exercise>, under: Seq<MuscleGroup>, need_under: bool, j: int) -> bool {
    &&& !c[j].is_base
    &&& !ever_done(ts, c[j].name@)
    &&& (!need_under || count_under(c[j].muscle_groups@, under) > 0)
}

/// The first new candidate covering the most underworked groups, among the
/// first `n` entries.
pub open spec fn best_new(ts: Seq<Training>, c: Seq<Exercise>, under: Seq<MuscleGroup>, need_under: bool, n: int) -> Option<int>
    decreases n,
{
    if n <= 0 {
        None
    } else {
        let prev = best_new(ts, c, under, need_under, n - 1);
        if !new_candidate(ts, c, under, need_under, n - 1) {
            prev
        } else {
            match prev {
                None => Some(n - 1),
                Some(p) => if count_under(c[n - 1].muscle_groups@, under) > count_under(c[p].muscle_groups@, under) {
                    Some(n - 1)
                } else {
                    prev
                },
            }
        }
    }
}

/// Whole days since the exercise was last performed, 0 if never.
pub open spec fn days_since(ts: Seq<Training>, clock: Clock, name: Seq<char>) -> int {
    match last_done(ts, name) {
        Some(d) => whole_days(d, clock.now),
        None => 0,
    }
}

/// Score of a bonus entry once every one was performed: ten per underworked
/// group it targets plus the days since it was last done, at most 30.
pub open spec fn cycle_score(ts: Seq<Training>, c: Seq<Exercise>, clock: Clock, under: Seq<MuscleGroup>, j: int) -> int {
    let d = days_since(ts, clock, c[j].name@);
    10 * count_under(c[j].muscle_groups@, under) + if d < 30 { d } else { 30 }
}

/// The first best-scoring rested bonus entry among the first `n` entries.
pub open spec fn best_cycle(ts: Seq<Training>, c: Seq<Exercise>, clock: Clock, under: Seq<MuscleGroup>, n: int) -> Option<int>
    decreases n,
{
    if n <= 0 {
        None
    } else {
        let prev = best_cycle(ts, c, clock, under, n - 1);
        if c[n - 1].is_base || !rested(ts, clock, c[n - 1].name@) {
            prev
        } else {
            match prev {
                None => Some(n - 1),
                Some(p) => if cycle_score(ts, c, clock, under, n - 1) > cycle_score(ts, c, clock, under, p) {
                    Some(n - 1)
                } else {
                    prev
                },
            }
        }
    }
}

/// Which rule picks the next exercise, and the catalog entry it picks.
pub enum Pick {
    Warmup(int),
    Middle(int),
    Cooldown(int),
    NewForUnderworked(int),
    NewAny(int),
    Cycle(int),
    Nothing,
}

/// The warm-up or cool-down entry, if the base program has it, it was not
/// performed today and it is rested.
pub open spec fn pinned_due(ts: Seq<Training>, c: Seq<Exercise>, clock: Clock, id: Seq<char>) -> Option<int> {
    match base_with_id(c, id, c.len() as int) {
        Some(k) => if !done_today(ts, clock, c[k].name@) && rested(ts, clock, c[k].name@) { Some(k) } else { None },
        None => None,
    }
}

/// The selection rule: warm-up, then the best middle exercise, then the
/// cool-down; once the base program is done today, a never performed bonus
/// exercise for underworked groups, then any never performed one, then the
/// best rested one.
pub open spec fn pick(ts: Seq<Training>, c: Seq<Exercise>, clock: Clock, under: Seq<MuscleGroup>) -> Pick {
    let n = c.len() as int;
    if base_program_done(ts, c, clock) {
        match best_new(ts, c, under, true, n) {
            Some(j) => Pick::NewForUnderworked(j),
            None => match best_new(ts, c, under, false, n) {
                Some(j) => Pick::NewAny(j),
                None => match best_cycle(ts, c, clock, under, n) {
                    Some(j) => Pick::Cycle(j),
                    None => Pick::Nothing,
                },
            },
        }
    } else {
        match pinned_due(ts, c, clock, WARMUP_ID@) {
            Some(k) => Pick::Warmup(k),
            None => match best_middle(ts, c, clock, under, n) {
                Some(j) => Pick::Middle(j),
                None => match pinned_due(ts, c, clock, COOLDOWN_ID@) {
                    Some(k) => Pick::Cooldown(k),
                    None => Pick::Nothing,
                },
            },
        }
    }
}

} // verus!

verus! {

/// A recommended exercise with its explanation.
#[derive(Debug, Clone)]
pub struct Recommendation {
    pub exercise: Exercise,
    pub reason: String,
    /// Informational score, in thousandths.
    pub confidence: u32,
    pub is_bonus: bool,
    /// Detailed description, for bonus exercises.
    pub detailed_description: Option<&'static str>,
    /// Focus cues, for bonus exercises.
    pub focus_cues: Option<&'static str>,
}

/// Rest hours, rounded to the nearest hour, of a positive number of seconds.
pub open spec fn rest_hours(secs: int) -> int {
    (secs / 60 + 30) / 60
}

/// The index of the entry a pick names.
pub open spec fn pick_index(p: Pick) -> int {
    match p {
        Pick::Warmup(k) => k,
        Pick::Middle(k) => k,
        Pick::Cooldown(k) => k,
        Pick::NewForUnderworked(k) => k,
        Pick::NewAny(k) => k,
        Pick::Cycle(k) => k,
        Pick::Nothing => 0,
    }
}

pub open spec fn pick_is_bonus(p: Pick) -> bool {
    match p {
        Pick::NewForUnderworked(_) | Pick::NewAny(_) | Pick::Cycle(_) => true,
        _ => false,
    }
}

/// The explanation given for a pick.
pub open spec fn reason_of(ts: Seq<Training>, c: Seq<Exercise>, clock: Clock, under: Seq<MuscleGroup>, p: Pick) -> Seq<char> {
    let e = c[pick_index(p)];
    let names = join(under_names(e.muscle_groups@, under));
    let days = decimal(days_since(ts, clock, e.name@) as nat);
    match p {
        Pick::Warmup(_) => "разминка — начни с этого"@,
        Pick::Middle(_) => if count_under(e.muscle_groups@, under) > 0 {
            names + " мало работали"@
        } else {
            match last_done(ts, e.name@) {
                None => "ещё не делали"@,
                Some(d) => "отдохнули "@ + decimal(rest_hours(clock.now - d) as nat) + "ч"@,
            }
        },
        Pick::Cooldown(_) => "завершение комплекса"@,
        Pick::NewForUnderworked(_) => "Новое упражнение! "@ + names + " нужна нагрузка"@,
        Pick::NewAny(_) => "Новое упражнение для разнообразия"@,
        Pick::Cycle(_) => if count_under(e.muscle_groups@, under) > 0 {
            names + " нужна нагрузка (последний раз "@ + days + " дн. назад)"@
        } else {
            "Давно не делали ("@ + days + " дн. назад)"@
        },
        Pick::Nothing => Seq::empty(),
    }
}

/// The confidence of a pick, in thousandths.
pub open spec fn confidence_of(ts: Seq<Training>, c: Seq<Exercise>, clock: Clock, under: Seq<MuscleGroup>, p: Pick) -> int {
    let e = c[pick_index(p)];
    let u = count_under(e.muscle_groups@, under);
    match p {
        Pick::Middle(_) => if u > 0 { 500 + (1000 * u) / (e.muscle_groups@.len() as int) } else { 300 },
        Pick::NewAny(_) => 900,
        Pick::Cycle(j) => 20 * cycle_score(ts, c, clock, under, j),
        _ => 1000,
    }
}

/// `r` is the recommendation that `pick` describes.
pub open spec fn describes_pick(ts: Seq<Training>, c: Seq<Exercise>, clock: Clock, under: Seq<MuscleGroup>, r: Option<Recommendation>) -> bool {
    let p = pick(ts, c, clock, under);
    match p {
        Pick::Nothing => r is None,
        _ => r matches Some(rec) && {
            let e = c[pick_index(p)];
            &&& 0 <= pick_index(p) < c.len()
            &&& rec.exercise == e
            &&& rec.reason@ == reason_of(ts, c, clock, under, p)
            &&& rec.confidence == confidence_of(ts, c, clock, under, p)
            &&& rec.is_bonus == pick_is_bonus(p)
            &&& rec.detailed_description == if pick_is_bonus(p) { e.description } else { None }
            &&& rec.focus_cues == if pick_is_bonus(p) { e.focus_cues } else { None }
        },
    }
}

fn find_base_with_id(c: &[Exercise], id: &str) -> (r: Option<usize>)
    ensures
        match r {
            Some(k) => base_with_id(c@, id@, c@.len() as int) == Some(k as int) && k < c@.len(),
            None => base_with_id(c@, id@, c@.len() as int) is None,
        },
{
    let mut i: usize = 0;
    while i < c.len()
        invariant
            i <= c@.len(),
            base_with_id(c@, id@, i as int) is None,
        decreases c@.len() - i,
    {
        if c[i].is_base && same_text(c[i].id, id) {
            proof {
                lemma_base_with_id_stable(c@, id@, i as int + 1, c@.len() as int);
            }
            return Some(i);
        }
        i += 1;
    }
    None
}

fn base_done_today(ts: &[Training], c: &[Exercise], clock: Clock) -> (r: bool)
    ensures
        r == base_program_done(ts@, c@, clock),
{
    let mut i: usize = 0;
    while i < c.len()
        invariant
            i <= c@.len(),
            forall|j: int| 0 <= j < i && (#[trigger] c@[j]).is_base ==> done_today(ts@, clock, c@[j].name@),
        decreases c@.len() - i,
    {
        if c[i].is_base && !is_done_today(ts, clock, c[i].name) {
            return false;
        }
        i += 1;
    }
    true
}

fn pinned_due_index(ts: &[Training], c: &[Exercise], clock: Clock, id: &str) -> (r: Option<usize>)
    ensures
        match r {
            Some(k) => pinned_due(ts@, c@, clock, id@) == Some(k as int),
            None => pinned_due(ts@, c@, clock, id@) is None,
        },
{
    match find_base_with_id(c, id) {
        Some(k) => {
            if !is_done_today(ts, clock, c[k].name) && is_rested(ts, clock, c[k].name) {
                Some(k)
            } else {
                None
            }
        },
        None => None,
    }
}

fn best_middle_index(ts: &[Training], c: &[Exercise], clock: Clock, under: &Vec<MuscleGroup>) -> (r: Option<usize>)
    requires
        well_formed_catalog(c@),
    ensures
        match r {
            Some(k) => best_middle(ts@, c@, clock, under@, c@.len() as int) == Some(k as int),
            None => best_middle(ts@, c@, clock, under@, c@.len() as int) is None,
        },
{
    let mut best: Option<usize> = None;
    let mut best_u: usize = 0;
    let mut best_n: usize = 1;
    let mut i: usize = 0;
    while i < c.len()
        invariant
            well_formed_catalog(c@),
            i <= c@.len(),
            best_u <= 11,
            best_n <= 11,
            match best {
                Some(k) => best_middle(ts@, c@, clock, under@, i as int) == Some(k as int) && k < i
                    && best_u == count_under(c@[k as int].muscle_groups@, under@)
                    && best_n == c@[k as int].muscle_groups@.len() && best_n <= 11 && best_u <= best_n,
                None => best_middle(ts@, c@, clock, under@, i as int) is None,
            },
        decreases c@.len() - i,
    {
        let e = c[i];
        assert(c@[i as int] == e);
        assert(well_formed_entry(c@[i as int]));
        if e.is_base && !same_text(e.id, WARMUP_ID) && !same_text(e.id, COOLDOWN_ID) && !is_done_today(ts, clock, e.name)
            && is_rested(ts, clock, e.name) {
            let u = underworked_count(e.muscle_groups, under);
            let n = e.muscle_groups.len();
            proof {
                lemma_count_under(e.muscle_groups@, under@);
            }
            assert(u <= 11 && n <= 11);
            assert(u * best_n <= 121 && best_u * n <= 121) by (nonlinear_arith)
                requires
                    u <= 11,
                    n <= 11,
                    best_u <= 11,
                    best_n <= 11,
            ;
            let better = match best {
                None => true,
                Some(_) => (u > 0 && best_u == 0) || (u > 0 && best_u > 0 && u * best_n > best_u * n),
            };
            if better {
                best = Some(i);
                best_u = u;
                best_n = n;
            }
        }
        i += 1;
    }
    best
}

fn best_new_index(ts: &[Training], c: &[Exercise], under: &Vec<MuscleGroup>, need_under: bool) -> (r: Option<usize>)
    ensures
        match r {
            Some(k) => best_new(ts@, c@, under@, need_under, c@.len() as int) == Some(k as int),
            None => best_new(ts@, c@, under@, need_under, c@.len() as int) is None,
        },
{
    let mut best: Option<usize> = None;
    let mut best_u: usize = 0;
    let mut i: usize = 0;
    while i < c.len()
        invariant
            i <= c@.len(),
            match best {
                Some(k) => best_new(ts@, c@, under@, need_under, i as int) == Some(k as int) && k < i
                    && best_u == count_under(c@[k as int].muscle_groups@, under@),
                None => best_new(ts@, c@, under@, need_under, i as int) is None,
            },
        decreases c@.len() - i,
    {
        let e = c[i];
        assert(c@[i as int] == e);
        if !e.is_base && !is_ever_done(ts, e.name) {
            let u = underworked_count(e.muscle_groups, under);
            if !need_under || u > 0 {
                let better = match best {
                    None => true,
                    Some(_) => u > best_u,
                };
                if better {
                    best = Some(i);
                    best_u = u;
                }
            }
        }
        i += 1;
    }
    best
}

/// Whole days since the exercise was last performed, 0 if never.
fn days_since_exercise(ts: &[Training], clock: Clock, name: &str) -> (r: i64)
    ensures
        r == days_since(ts@, clock, name@),
{
    match last_done_at(ts, name) {
        Some(d) => days_between(d, clock.now),
        None => 0,
    }
}

fn best_cycle_index(ts: &[Training], c: &[Exercise], clock: Clock, under: &Vec<MuscleGroup>) -> (r: Option<usize>)
    requires
        well_formed_catalog(c@),
    ensures
        match r {
            Some(k) => best_cycle(ts@, c@, clock, under@, c@.len() as int) == Some(k as int),
            None => best_cycle(ts@, c@, clock, under@, c@.len() as int) is None,
        },
{
    let mut best: Option<usize> = None;
    let mut best_score: i64 = 0;
    let mut i: usize = 0;
    while i < c.len()
        invariant
            well_formed_catalog(c@),
            i <= c@.len(),
            match best {
                Some(k) => best_cycle(ts@, c@, clock, under@, i as int) == Some(k as int) && k < i
                    && best_score == cycle_score(ts@, c@, clock, under@, k as int),
                None => best_cycle(ts@, c@, clock, under@, i as int) is None,
            },
        decreases c@.len() - i,
    {
        let e = c[i];
        assert(c@[i as int] == e);
        assert(well_formed_entry(c@[i as int]));
        if !e.is_base && is_rested(ts, clock, e.name) {
            let u = underworked_count(e.muscle_groups, under);
            proof {
                lemma_count_under(e.muscle_groups@, under@);
            }
            let d = days_since_exercise(ts, clock, e.name);
            let score: i64 = 10 * (u as i64) + if d < 30 { d } else { 30 };
            let better = match best {
                None => true,
                Some(_) => score > best_score,
            };
            if better {
                best = Some(i);
                best_score = score;
            }
        }
        i += 1;
    }
    best
}

} // verus!

verus! {

pub proof fn lemma_best_middle(ts: Seq<Training>, c: Seq<Exercise>, clock: Clock, under: Seq<MuscleGroup>, n: int)
    ensures
        best_middle(ts, c, clock, under, n) matches Some(k) ==> 0 <= k < n && middle_candidate(ts, c, clock, k),
    decreases n,
{
    if n > 0 {
        lemma_best_middle(ts, c, clock, under, n - 1);
    }
}

pub proof fn lemma_best_new(ts: Seq<Training>, c: Seq<Exercise>, under: Seq<MuscleGroup>, need_under: bool, n: int)
    ensures
        best_new(ts, c, under, need_under, n) matches Some(k) ==> 0 <= k < n && new_candidate(ts, c, under, need_under, k),
    decreases n,
{
    if n > 0 {
        lemma_best_new(ts, c, under, need_under, n - 1);
    }
}

pub proof fn lemma_best_cycle(ts: Seq<Training>, c: Seq<Exercise>, clock: Clock, under: Seq<MuscleGroup>, n: int)
    ensures
        best_cycle(ts, c, clock, under, n) matches Some(k) ==> 0 <= k < n && !c[k].is_base && rested(ts, clock, c[k].name@),
    decreases n,
{
    if n > 0 {
        lemma_best_cycle(ts, c, clock, under, n - 1);
    }
}

pub proof fn lemma_pinned_due(ts: Seq<Training>, c: Seq<Exercise>, clock: Clock, id: Seq<char>)
    ensures
        pinned_due(ts, c, clock, id) matches Some(k) ==> 0 <= k < c.len() && c[k].is_base && c[k].id@ == id
            && !done_today(ts, clock, c[k].name@) && rested(ts, clock, c[k].name@),
{
    lemma_base_with_id_range(c, id, c.len() as int);
    lemma_base_with_id_facts(c, id, c.len() as int);
}

pub proof fn lemma_base_with_id_facts(c: Seq<Exercise>, id: Seq<char>, n: int)
    ensures
        base_with_id(c, id, n) matches Some(k) ==> c[k].is_base && c[k].id@ == id,
    decreases n,
{
    if n > 0 {
        lemma_base_with_id_facts(c, id, n - 1);
    }
}

/// The entry a pick names, when there is one, lies in the catalog.
pub proof fn lemma_pick_in_catalog(ts: Seq<Training>, c: Seq<Exercise>, clock: Clock, under: Seq<MuscleGroup>)
    ensures
        !(pick(ts, c, clock, under) is Nothing) ==> 0 <= pick_index(pick(ts, c, clock, under)) < c.len()
            && rested(ts, clock, c[pick_index(pick(ts, c, clock, under))].name@),
{
    let n = c.len() as int;
    lemma_best_middle(ts, c, clock, under, n);
    lemma_best_new(ts, c, under, true, n);
    lemma_best_new(ts, c, under, false, n);
    lemma_best_cycle(ts, c, clock, under, n);
    lemma_pinned_due(ts, c, clock, WARMUP_ID@);
    lemma_pinned_due(ts, c, clock, COOLDOWN_ID@);
    match pick(ts, c, clock, under) {
        Pick::NewForUnderworked(k) => {
            lemma_last_done(ts, c[k].name@);
        },
        Pick::NewAny(k) => {
            lemma_last_done(ts, c[k].name@);
        },
        _ => {},
    }
}

/// The exercise recommended is never one performed less than an hour before
/// `clock.now`, on any date.
pub proof fn lemma_never_within_an_hour(ts: Seq<Training>, c: Seq<Exercise>, clock: Clock, under: Seq<MuscleGroup>)
    ensures
        !(pick(ts, c, clock, under) is Nothing) ==> forall|i: int|
            0 <= i < ts.len() && (#[trigger] ts[i]).exercise@ == c[pick_index(pick(ts, c, clock, under))].name@
                ==> clock.now - ts[i].date >= 3600,
{
    lemma_pick_in_catalog(ts, c, clock, under);
    if !(pick(ts, c, clock, under) is Nothing) {
        lemma_last_done(ts, c[pick_index(pick(ts, c, clock, under))].name@);
    }
}

/// With an empty log, the warm-up entry of the base program comes first.
pub proof fn lemma_fresh_log_starts_with_warmup(c: Seq<Exercise>, clock: Clock, under: Seq<MuscleGroup>)
    requires
        base_with_id(c, WARMUP_ID@, c.len() as int) is Some,
    ensures
        pick(Seq::empty(), c, clock, under) == Pick::Warmup(base_with_id(c, WARMUP_ID@, c.len() as int).unwrap()),
{
    let ts = Seq::<Training>::empty();
    let k = base_with_id(c, WARMUP_ID@, c.len() as int).unwrap();
    lemma_base_with_id_range(c, WARMUP_ID@, c.len() as int);
    lemma_base_with_id_facts(c, WARMUP_ID@, c.len() as int);
    assert(!done_today(ts, clock, c[k].name@));
    assert(!base_program_done(ts, c, clock));
}

fn middle_reason(ts: &[Training], clock: Clock, e: &Exercise, under: &Vec<MuscleGroup>) -> (r: String)
    requires
        rested(ts@, clock, e.name@),
    ensures
        r@ == (if count_under(e.muscle_groups@, under@) > 0 {
            join(under_names(e.muscle_groups@, under@)) + " мало работали"@
        } else {
            match last_done(ts@, e.name@) {
                None => "ещё не делали"@,
                Some(d) => "отдохнули "@ + decimal(rest_hours(clock.now - d) as nat) + "ч"@,
            }
        }),
{
    if underworked_count(e.muscle_groups, under) > 0 {
        let mut r = underworked_names(e.muscle_groups, under);
        r.append(" мало работали");
        r
    } else {
        match last_done_at(ts, e.name) {
            None => String::from_str("ещё не делали"),
            Some(d) => {
                let secs: i128 = clock.now as i128 - d as i128;
                let hours: i128 = (secs / 60 + 30) / 60;
                let mut r = String::from_str("отдохнули ");
                let digits = decimal_text(hours as u64);
                r.append(digits.as_str());
                r.append("ч");
                r
            },
        }
    }
}

fn cycle_reason(ts: &[Training], clock: Clock, e: &Exercise, under: &Vec<MuscleGroup>) -> (r: String)
    requires
        rested(ts@, clock, e.name@),
    ensures
        r@ == (if count_under(e.muscle_groups@, under@) > 0 {
            join(under_names(e.muscle_groups@, under@)) + " нужна нагрузка (последний раз "@
                + decimal(days_since(ts@, clock, e.name@) as nat) + " дн. назад)"@
        } else {
            "Давно не делали ("@ + decimal(days_since(ts@, clock, e.name@) as nat) + " дн. назад)"@
        }),
{
    let days = days_since_exercise(ts, clock, e.name);
    assert(days >= 0);
    let digits = decimal_text(days as u64);
    if underworked_count(e.muscle_groups, under) > 0 {
        let mut r = underworked_names(e.muscle_groups, under);
        r.append(" нужна нагрузка (последний раз ");
        r.append(digits.as_str());
        r.append(" дн. назад)");
        r
    } else {
        let mut r = String::from_str("Давно не делали (");
        r.append(digits.as_str());
        r.append(" дн. назад)");
        r
    }
}

/// Chooses the next exercise from the history, the catalog and the list of
/// underworked muscle groups.
pub fn choose_exercise(ts: &[Training], c: &[Exercise], clock: Clock, under: &Vec<MuscleGroup>) -> (r: Option<Recommendation>)
    requires
        well_formed_catalog(c@),
    ensures
        describes_pick(ts@, c@, clock, under@, r),
{
    proof {
        lemma_pick_in_catalog(ts@, c@, clock, under@);
    }
    if base_done_today(ts, c, clock) {
        if let Some(k) = best_new_index(ts, c, under, true) {
            let e = c[k];
            let mut reason = String::from_str("Новое упражнение! ");
            let names = underworked_names(e.muscle_groups, under);
            reason.append(names.as_str());
            reason.append(" нужна нагрузка");
            return Some(Recommendation {
                exercise: e,
                reason,
                confidence: 1000,
                is_bonus: true,
                detailed_description: e.description,
                focus_cues: e.focus_cues,
            });
        }
        if let Some(k) = best_new_index(ts, c, under, false) {
            let e = c[k];
            return Some(Recommendation {
                exercise: e,
                reason: String::from_str("Новое упражнение для разнообразия"),
                confidence: 900,
                is_bonus: true,
                detailed_description: e.description,
                focus_cues: e.focus_cues,
            });
        }
        match best_cycle_index(ts, c, clock, under) {
            Some(k) => {
                let e = c[k];
                assert(well_formed_entry(c@[k as int]));
                let u = underworked_count(e.muscle_groups, under);
                proof {
                    lemma_count_under(e.muscle_groups@, under@);
                }
                let d = days_since_exercise(ts, clock, e.name);
                let score: u32 = 10 * (u as u32) + if d < 30 { d as u32 } else { 30 };
                let reason = cycle_reason(ts, clock, &e, under);
                Some(Recommendation {
                    exercise: e,
                    reason,
                    confidence: 20 * score,
                    is_bonus: true,
                    detailed_description: e.description,
                    focus_cues: e.focus_cues,
                })
            },
            None => None,
        }
    } else {
        if let Some(k) = pinned_due_index(ts, c, clock, WARMUP_ID) {
            return Some(Recommendation {
                exercise: c[k],
                reason: String::from_str("разминка — начни с этого"),
                confidence: 1000,
                is_bonus: false,
                detailed_description: None,
                focus_cues: None,
            });
        }
        if let Some(k) = best_middle_index(ts, c, clock, under) {
            let e = c[k];
            assert(well_formed_entry(c@[k as int]));
            let u = underworked_count(e.muscle_groups, under);
            proof {
                lemma_count_under(e.muscle_groups@, under@);
            }
            let n = e.muscle_groups.len();
            let confidence: u32 = if u > 0 { 500 + ((1000 * u) / n) as u32 } else { 300 };
            let reason = middle_reason(ts, clock, &e, under);
            return Some(Recommendation {
                exercise: e,
                reason,
                confidence,
                is_bonus: false,
                detailed_description: None,
                focus_cues: None,
            });
        }
        match pinned_due_index(ts, c, clock, COOLDOWN_ID) {
            Some(k) => Some(Recommendation {
                exercise: c[k],
                reason: String::from_str("завершение комплекса"),
                confidence: 1000,
                is_bonus: false,
                detailed_description: None,
                focus_cues: None,
            }),
            None => None,
        }
    }
}

} // verus!

verus! {

/// Recommends exercises from a training history.
pub struct Recommender {
    pub tracker: MuscleTracker,
    pub trainings: Vec<Training>,
    pub catalog: Vec<Exercise>,
    pub clock: Clock,
}

impl Recommender {
    pub open spec fn wf(&self) -> bool {
        &&& self.tracker.describes(self.trainings@, self.catalog@, self.clock)
        &&& well_formed_catalog(self.catalog@)
    }

    /// Builds the recommender over a history, a catalog and the current time.
    pub fn new(trainings: Vec<Training>, catalog: Vec<Exercise>, clock: Clock) -> (r: Self)
        requires
            trainings@.len() <= u32::MAX,
            well_formed_catalog(catalog@),
        ensures
            r.wf(),
            r.trainings@ == trainings@,
            r.catalog@ == catalog@,
            r.clock == clock,
    {
        let tracker = MuscleTracker::from_trainings(trainings.as_slice(), catalog.as_slice(), clock);
        Recommender { tracker, trainings, catalog, clock }
    }

    /// The next exercise to do, judged against the five least worked muscle
    /// groups of today.
    pub fn get_recommendation(&self) -> (r: Option<Recommendation>)
        requires
            self.wf(),
        ensures
            exists|under: Seq<MuscleGroup>|
                underworked_list(self.tracker.loads@, 5, under)
                    && describes_pick(self.trainings@, self.catalog@, self.clock, under, r),
    {
        let under = self.tracker.get_underworked_groups(5);
        choose_exercise(self.trainings.as_slice(), self.catalog.as_slice(), self.clock, &under)
    }

    /// Whether the exercise named `name` was ever performed.
    pub fn ever_done(&self, name: &str) -> (r: bool)
        ensures
            r == ever_done(self.trainings@, name@),
    {
        is_ever_done(self.trainings.as_slice(), name)
    }

    /// Whole days since the exercise named `name` was last performed.
    pub fn days_since_exercise(&self, name: &str) -> (r: Option<i64>)
        ensures
            r == match last_done(self.trainings@, name@) {
                Some(d) => Some(whole_days(d, self.clock.now) as i64),
                None => None,
            },
    {
        match last_done_at(self.trainings.as_slice(), name) {
            Some(d) => Some(days_between(d, self.clock.now)),
            None => None,
        }
    }

    /// The muscle tracker behind the recommendations.
    pub fn tracker(&self) -> (r: &MuscleTracker)
        ensures
            r == &self.tracker,
    {
        &self.tracker
    }
}

} // verus!
