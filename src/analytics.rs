//! Simple per-exercise statistics over a training log, matched by a
//! case-insensitive substring of the exercise name.

use vstd::prelude::*;
use vstd::string::*;
use vstd::arithmetic::div_mod::{lemma_div_is_ordered, lemma_div_by_multiple};
use crate::training::Training;

verus! {

/// What `str::to_lowercase` makes of a text.
pub uninterp spec fn lower_of(s: Seq<char>) -> Seq<char>;

/// Relies on `str::to_lowercase`: the lowercase form of the text, which
/// depends on its characters alone.
#[verifier::external_body]
fn lowercase(s: &str) -> (r: String)
    ensures
        r@ == lower_of(s@),
{
    s.to_lowercase()
}

/// `needle` occurs in `hay` at position `k`.
pub open spec fn occurs_at(hay: Seq<char>, needle: Seq<char>, k: int) -> bool {
    0 <= k && k + needle.len() <= hay.len() && hay.subrange(k, k + needle.len()) == needle
}

/// `needle` occurs somewhere in `hay`.
pub open spec fn contains_text(hay: Seq<char>, needle: Seq<char>) -> bool {
    exists|k: int| occurs_at(hay, needle, k)
}

/// Whether `needle` occurs in `hay`.
pub fn text_contains(hay: &str, needle: &str) -> (r: bool)
    ensures
        r == contains_text(hay@, needle@),
{
    let n = hay.unicode_len();
    let m = needle.unicode_len();
    if m > n {
        assert forall|k: int| !occurs_at(hay@, needle@, k) by {}
        return false;
    }
    let mut k: usize = 0;
    while k <= n - m
        invariant
            n == hay@.len(),
            m == needle@.len(),
            m <= n,
            k <= n - m + 1,
            forall|j: int| 0 <= j < k ==> !occurs_at(hay@, needle@, j),
        decreases n - m + 1 - k,
    {
        let mut i: usize = 0;
        let mut same = true;
        while i < m
            invariant
                n == hay@.len(),
                m == needle@.len(),
                k + m <= n,
                i <= m,
                same == forall|j: int| 0 <= j < i ==> hay@[k + j] == needle@[j],
            decreases m - i,
        {
            if hay.get_char(k + i) != needle.get_char(i) {
                same = false;
            }
            i += 1;
        }
        if same {
            assert(hay@.subrange(k as int, k + m) =~= needle@);
            assert(occurs_at(hay@, needle@, k as int));
            return true;
        }
        assert(!occurs_at(hay@, needle@, k as int)) by {
            if hay@.subrange(k as int, k + m) == needle@ {
                assert forall|j: int| 0 <= j < m implies hay@[k + j] == needle@[j] by {
                    assert(hay@.subrange(k as int, k + m)[j] == hay@[k + j]);
                }
            }
        }
        k += 1;
    }
    assert forall|j: int| !occurs_at(hay@, needle@, j) by {
        if 0 <= j < k {
        }
    }
    false
}

/// Sum of `sets * reps` over the first `n` records whose folded name
/// contains the folded query.
pub open spec fn volume_sum(ts: Seq<Training>, names: Seq<Seq<char>>, query: Seq<char>, n: int) -> int
    decreases n,
{
    if n <= 0 {
        0
    } else {
        volume_sum(ts, names, query, n - 1) + if contains_text(names[n - 1], query) {
            ts[n - 1].sets as int * ts[n - 1].reps as int
        } else {
            0
        }
    }
}

pub proof fn lemma_volume_sum_bounds(ts: Seq<Training>, names: Seq<Seq<char>>, query: Seq<char>, n: int)
    requires
        0 <= n,
    ensures
        -n * 0x4000_0000_0000_0000 <= volume_sum(ts, names, query, n) <= n * 0x4000_0000_0000_0000,
    decreases n,
{
    if n > 0 {
        lemma_volume_sum_bounds(ts, names, query, n - 1);
        let s = ts[n - 1].sets as int;
        let r = ts[n - 1].reps as int;
        assert(-0x4000_0000_0000_0000 <= s * r <= 0x4000_0000_0000_0000) by (nonlinear_arith)
            requires
                -0x8000_0000 <= s < 0x8000_0000,
                -0x8000_0000 <= r < 0x8000_0000,
        ;
    }
}

/// Total `sets * reps` of the records whose already folded name
/// (`folded_names[i]` for record `i`) contains the folded query.
pub fn total_volume_folded(ts: &[Training], folded_names: &Vec<String>, folded_query: &str) -> (r: i128)
    requires
        folded_names@.len() == ts@.len(),
        ts@.len() <= u32::MAX,
    ensures
        r == volume_sum(ts@, folded_names@.map_values(|s: String| s@), folded_query@, ts@.len() as int),
{
    let ghost names = folded_names@.map_values(|s: String| s@);
    let mut total: i128 = 0;
    let mut i: usize = 0;
    while i < ts.len()
        invariant
            folded_names@.len() == ts@.len(),
            ts@.len() <= u32::MAX,
            names == folded_names@.map_values(|s: String| s@),
            i <= ts@.len(),
            total == volume_sum(ts@, names, folded_query@, i as int),
        decreases ts@.len() - i,
    {
        proof {
            lemma_volume_sum_bounds(ts@, names, folded_query@, i as int);
        }
        assert(names[i as int] == folded_names@[i as int]@);
        let s = ts[i].sets as i128;
        let n = ts[i].reps as i128;
        assert(-0x4000_0000_0000_0000 <= s * n <= 0x4000_0000_0000_0000) by (nonlinear_arith)
            requires
                -0x8000_0000 <= s < 0x8000_0000,
                -0x8000_0000 <= n < 0x8000_0000,
        ;
        if text_contains(folded_names[i].as_str(), folded_query) {
            total = total + s * n;
        }
        i += 1;
    }
    total
}

/// Positions, in log order, of the first `n` records whose folded name
/// contains the folded query.
pub open spec fn matching(names: Seq<Seq<char>>, query: Seq<char>, n: int) -> Seq<int>
    decreases n,
{
    if n <= 0 {
        Seq::empty()
    } else {
        let p = matching(names, query, n - 1);
        if contains_text(names[n - 1], query) { p.push(n - 1) } else { p }
    }
}

/// The first (at most) five of `matching`.
pub open spec fn recent_matches(names: Seq<Seq<char>>, query: Seq<char>) -> Seq<int> {
    let all = matching(names, query, names.len() as int);
    if all.len() <= 5 { all } else { all.subrange(0, 5) }
}

/// Sum of the `sets` (`reps` with `reps == true`) of the records at `idx`.
pub open spec fn field_sum(ts: Seq<Training>, idx: Seq<int>, reps: bool) -> int
    decreases idx.len(),
{
    if idx.len() == 0 {
        0
    } else {
        field_sum(ts, idx.drop_last(), reps) + if reps { ts[idx.last()].reps as int } else { ts[idx.last()].sets as int }
    }
}

/// Division truncated toward zero, as Rust's integer `/`.
pub open spec fn trunc_div(a: int, b: int) -> int {
    if a >= 0 {
        a / b
    } else {
        -((-a) / b)
    }
}

pub proof fn lemma_matching(names: Seq<Seq<char>>, query: Seq<char>, n: int)
    requires
        0 <= n,
    ensures
        matching(names, query, n).len() <= n,
        forall|a: int| 0 <= a < matching(names, query, n).len() ==> 0 <= #[trigger] matching(names, query, n)[a] < n,
    decreases n,
{
    if n > 0 {
        lemma_matching(names, query, n - 1);
        let p = matching(names, query, n - 1);
        let q = matching(names, query, n);
        assert forall|a: int| 0 <= a < q.len() implies 0 <= #[trigger] q[a] < n by {
            if a < p.len() {
                assert(q[a] == p[a]);
            }
        }
    }
}

pub proof fn lemma_field_sum_bounds(ts: Seq<Training>, idx: Seq<int>, reps: bool)
    requires
        forall|a: int| 0 <= a < idx.len() ==> 0 <= #[trigger] idx[a] < ts.len(),
    ensures
        -(idx.len() as int) * 0x8000_0000 <= field_sum(ts, idx, reps) <= idx.len() as int * 0x7fff_ffff,
    decreases idx.len(),
{
    if idx.len() > 0 {
        let init = idx.drop_last();
        assert forall|a: int| 0 <= a < init.len() implies 0 <= #[trigger] init[a] < ts.len() by {
            assert(init[a] == idx[a]);
        }
        lemma_field_sum_bounds(ts, init, reps);
        assert(idx.last() == idx[idx.len() - 1]);
    }
}

fn div_toward_zero(a: i64, b: i64) -> (r: i64)
    requires
        b > 0,
        a > i64::MIN,
    ensures
        r == trunc_div(a as int, b as int),
{
    if a >= 0 {
        a / b
    } else {
        -((-a) / b)
    }
}

/// Average sets and average reps plus one over the first five records whose
/// already folded name contains the folded query; `None` without any.
pub fn next_load_folded(ts: &[Training], folded_names: &Vec<String>, folded_query: &str) -> (r: Option<(i32, i64)>)
    requires
        folded_names@.len() == ts@.len(),
    ensures
        ({
            let names = folded_names@.map_values(|s: String| s@);
            let recent = recent_matches(names, folded_query@);
            match r {
                None => recent.len() == 0,
                Some((sets, reps)) => recent.len() > 0 && sets == trunc_div(field_sum(ts@, recent, false), recent.len() as int)
                    && reps == trunc_div(field_sum(ts@, recent, true), recent.len() as int) + 1,
            }
        }),
{
    let ghost names = folded_names@.map_values(|s: String| s@);
    let mut picked: Vec<usize> = Vec::new();
    let mut i: usize = 0;
    while i < ts.len() && picked.len() < 5
        invariant
            folded_names@.len() == ts@.len(),
            names == folded_names@.map_values(|s: String| s@),
            i <= ts@.len(),
            picked@.len() <= 5,
            picked@.len() == matching(names, folded_query@, i as int).len(),
            forall|a: int| 0 <= a < picked@.len() ==> #[trigger] picked@[a] as int == matching(names, folded_query@, i as int)[a],
        decreases ts@.len() - i,
    {
        let ghost before = matching(names, folded_query@, i as int);
        assert(names[i as int] == folded_names@[i as int]@);
        if text_contains(folded_names[i].as_str(), folded_query) {
            picked.push(i);
            proof {
                let after = matching(names, folded_query@, i as int + 1);
                assert(after == before.push(i as int));
                assert forall|a: int| 0 <= a < picked@.len() implies #[trigger] picked@[a] as int == after[a] by {
                    if a < before.len() {
                        assert(after[a] == before[a]);
                    }
                }
            }
        }
        i += 1;
    }
    proof {
        lemma_matching(names, folded_query@, i as int);
        lemma_matching(names, folded_query@, ts@.len() as int);
        lemma_matching_prefix(names, folded_query@, i as int, ts@.len() as int);
    }
    let ghost recent = recent_matches(names, folded_query@);
    assert(picked@.len() == recent.len() && forall|a: int| 0 <= a < picked@.len() ==> #[trigger] picked@[a] as int == recent[a]);
    if picked.len() == 0 {
        return None;
    }
    let mut sets: i64 = 0;
    let mut reps: i64 = 0;
    let mut a: usize = 0;
    while a < picked.len()
        invariant
            a <= picked@.len() <= 5,
            picked@.len() == recent.len(),
            forall|b: int| 0 <= b < picked@.len() ==> #[trigger] picked@[b] as int == recent[b],
            forall|b: int| 0 <= b < recent.len() ==> 0 <= #[trigger] recent[b] < ts@.len(),
            sets == field_sum(ts@, recent.subrange(0, a as int), false),
            reps == field_sum(ts@, recent.subrange(0, a as int), true),
        decreases picked@.len() - a,
    {
        let ghost pre = recent.subrange(0, a as int);
        let ghost post = recent.subrange(0, a as int + 1);
        assert(post.drop_last() =~= pre);
        assert(post.last() == recent[a as int]);
        proof {
            assert forall|b: int| 0 <= b < pre.len() implies 0 <= #[trigger] pre[b] < ts@.len() by {
                assert(pre[b] == recent[b]);
            }
            lemma_field_sum_bounds(ts@, pre, false);
            lemma_field_sum_bounds(ts@, pre, true);
        }
        let t = &ts[picked[a]];
        sets = sets + t.sets as i64;
        reps = reps + t.reps as i64;
        a += 1;
    }
    assert(recent.subrange(0, recent.len() as int) =~= recent);
    proof {
        lemma_field_sum_bounds(ts@, recent, false);
        lemma_field_sum_bounds(ts@, recent, true);
    }
    let k = picked.len() as i64;
    let avg_sets = div_toward_zero(sets, k);
    let avg_reps = div_toward_zero(reps, k);
    proof {
        lemma_average_fits(sets as int, k as int);
    }
    Some((avg_sets as i32, avg_reps + 1))
}

/// The truncated mean of `k` values of `i32` is a value of `i32`.
pub proof fn lemma_average_fits(s: int, k: int)
    requires
        1 <= k,
        -k * 0x8000_0000 <= s <= k * 0x7fff_ffff,
    ensures
        -0x8000_0000 <= trunc_div(s, k) <= 0x7fff_ffff,
{
    if s >= 0 {
        lemma_div_is_ordered(s, k * 0x7fff_ffff, k);
        lemma_div_by_multiple(0x7fff_ffff, k);
        assert(k * 0x7fff_ffff == 0x7fff_ffff * k) by (nonlinear_arith);
        lemma_div_is_ordered(0, s, k);
    } else {
        lemma_div_is_ordered(-s, k * 0x8000_0000, k);
        lemma_div_by_multiple(0x8000_0000, k);
        assert(k * 0x8000_0000 == 0x8000_0000 * k) by (nonlinear_arith);
        lemma_div_is_ordered(0, -s, k);
    }
}

pub proof fn lemma_matching_prefix(names: Seq<Seq<char>>, query: Seq<char>, m: int, n: int)
    requires
        0 <= m <= n,
    ensures
        matching(names, query, m).len() <= matching(names, query, n).len(),
        forall|a: int| 0 <= a < matching(names, query, m).len() ==> #[trigger] matching(names, query, n)[a] == matching(names, query, m)[a],
    decreases n - m,
{
    if m < n {
        lemma_matching_prefix(names, query, m, n - 1);
        let p = matching(names, query, n - 1);
        let q = matching(names, query, n);
        assert forall|a: int| 0 <= a < p.len() implies #[trigger] q[a] == p[a] by {}
    }
}

/// Statistics over one training log.
pub struct Analytics {
    pub trainings: Vec<Training>,
}

impl Analytics {
    pub fn new(trainings: Vec<Training>) -> (r: Self)
        ensures
            r.trainings@ == trainings@,
    {
        Analytics { trainings }
    }

    /// Total `sets * reps` of the records whose name contains `exercise`,
    /// ignoring case.
    pub fn total_volume(&self, exercise: &str) -> (r: i128)
        requires
            self.trainings@.len() <= u32::MAX,
        ensures
            r == volume_sum(self.trainings@, self.trainings@.map_values(|t: Training| lower_of(t.exercise@)), lower_of(exercise@),
                self.trainings@.len() as int),
    {
        let query = lowercase(exercise);
        let folded = self.folded_names();
        total_volume_folded(self.trainings.as_slice(), &folded, query.as_str())
    }

    /// The record names, folded to lowercase.
    fn folded_names(&self) -> (r: Vec<String>)
        ensures
            r@.map_values(|s: String| s@) == self.trainings@.map_values(|t: Training| lower_of(t.exercise@)),
            r@.len() == self.trainings@.len(),
    {
        let mut folded: Vec<String> = Vec::new();
        let mut i: usize = 0;
        while i < self.trainings.len()
            invariant
                i <= self.trainings@.len(),
                folded@.len() == i,
                forall|j: int| 0 <= j < i ==> #[trigger] folded@[j]@ == lower_of(self.trainings@[j].exercise@),
            decreases self.trainings@.len() - i,
        {
            folded.push(lowercase(self.trainings[i].exercise.as_str()));
            i += 1;
        }
        assert(folded@.map_values(|s: String| s@) =~= self.trainings@.map_values(|t: Training| lower_of(t.exercise@)));
        folded
    }

    /// Suggested next load from the first five matching records: their
    /// average sets, and their average reps plus one (both truncated).
    pub fn predict_next_load(&self, exercise: &str) -> (r: Option<(i32, i64)>)
        ensures
            ({
                let names = self.trainings@.map_values(|t: Training| lower_of(t.exercise@));
                let recent = recent_matches(names, lower_of(exercise@));
                match r {
                    None => recent.len() == 0,
                    Some((sets, reps)) => recent.len() > 0 && sets == trunc_div(field_sum(self.trainings@, recent, false), recent.len() as int)
                        && reps == trunc_div(field_sum(self.trainings@, recent, true), recent.len() as int) + 1,
                }
            }),
    {
        let query = lowercase(exercise);
        let folded = self.folded_names();
        next_load_folded(self.trainings.as_slice(), &folded, query.as_str())
    }
}

} // verus!
