//! Summary of a completed base program.

use vstd::prelude::*;
use vstd::string::*;
use crate::text::{decimal, decimal_text, signed_decimal, signed_text};

verus! {

/// Duration as seconds, minutes and seconds, or hours and minutes.
pub open spec fn duration_text(secs: int) -> Seq<char> {
    if secs < 60 {
        signed_decimal(secs) + "с"@
    } else if secs < 3600 {
        if secs % 60 == 0 {
            decimal((secs / 60) as nat) + "м"@
        } else {
            decimal((secs / 60) as nat) + "м "@ + decimal((secs % 60) as nat) + "с"@
        }
    } else {
        decimal((secs / 3600) as nat) + "ч "@ + decimal(((secs % 3600) / 60) as nat) + "м"@
    }
}

/// Formats a duration in seconds ("45с", "1м 30с", "2м", "1ч 5м").
pub fn format_duration(secs: i64) -> (r: String)
    ensures
        r@ == duration_text(secs as int),
{
    if secs < 60 {
        let mut r = signed_text(secs);
        r.append("с");
        r
    } else if secs < 3600 {
        let mut r = decimal_text((secs / 60) as u64);
        if secs % 60 == 0 {
            r.append("м");
        } else {
            r.append("м ");
            let s = decimal_text((secs % 60) as u64);
            r.append(s.as_str());
            r.append("с");
        }
        r
    } else {
        let mut r = decimal_text((secs / 3600) as u64);
        r.append("ч ");
        let m = decimal_text(((secs % 3600) / 60) as u64);
        r.append(m.as_str());
        r.append("м");
        r
    }
}

/// Summary of one exercise of the base program.
#[derive(Debug, Clone)]
pub struct ExerciseSummary {
    pub name: String,
    /// Longest duration for a timed exercise, total reps otherwise.
    pub value: i32,
    pub is_timed: bool,
    pub is_record: bool,
    pub duration_secs: i64,
    pub sets: i32,
    /// "warm-up" or "cool-down" role of the exercise, if any.
    pub role: Option<String>,
}

/// Summary of a completed base program.
#[derive(Debug, Clone)]
pub struct BaseProgramSummary {
    pub exercises: Vec<ExerciseSummary>,
    pub new_records: Vec<String>,
    pub total_duration_secs: i64,
    pub total_sets: i32,
    pub muscle_balance: String,
}

/// The line of the `i`-th exercise (counted from 0).
pub open spec fn exercise_line(i: int, ex: ExerciseSummary) -> Seq<char> {
    let value = if ex.is_timed {
        duration_text(ex.value as int)
    } else {
        signed_decimal(ex.value as int) + " повт."@
    };
    let record = if ex.is_record { " 🏆 РЕКОРД!"@ } else { ""@ };
    let role = match ex.role {
        Some(r) => " ("@ + r@ + ")"@,
        None => ""@,
    };
    decimal((i + 1) as nat) + ". "@ + ex.name@ + " — "@ + value + record + role
}

/// The lines of the first `n` exercises, each preceded by a line break.
pub open spec fn exercise_lines(exs: Seq<ExerciseSummary>, n: int) -> Seq<char>
    decreases n,
{
    if n <= 0 {
        Seq::empty()
    } else {
        exercise_lines(exs, n - 1) + "\n"@ + exercise_line(n - 1, exs[n - 1])
    }
}

/// The whole summary text.
pub open spec fn summary_text(s: BaseProgramSummary) -> Seq<char> {
    "🏆 Базовая программа выполнена!\n"@ + "\n"@ + "📊 Итоги тренировки:\n"@ + exercise_lines(s.exercises@, s.exercises@.len() as int)
        + "\n"@ + "\n⏱ Общее время: "@ + duration_text(s.total_duration_secs as int) + "\n💪 Всего подходов: "@
        + signed_decimal(s.total_sets as int) + if s.muscle_balance@.len() > 0 {
        "\n"@ + "\n🎯 Баланс мышц сегодня:\n"@ + "\n"@ + s.muscle_balance@
    } else {
        ""@
    } + "\n"@ + "\n👏 Отличная работа! Готов к бонусу?"@
}

/// The line of the `i`-th exercise, as text.
fn exercise_line_text(i: usize, ex: &ExerciseSummary) -> (r: String)
    requires
        i < u64::MAX,
    ensures
        r@ == exercise_line(i as int, *ex),
{
    let value = if ex.is_timed {
        format_duration(ex.value as i64)
    } else {
        let mut v = signed_text(ex.value as i64);
        v.append(" повт.");
        v
    };
    let record: &str = if ex.is_record { " 🏆 РЕКОРД!" } else { "" };
    let role = match &ex.role {
        Some(role) => {
            let mut s = String::from_str(" (");
            s.append(role.as_str());
            s.append(")");
            s
        },
        None => String::from_str(""),
    };
    let mut r = decimal_text(i as u64 + 1);
    r.append(". ");
    r.append(ex.name.as_str());
    r.append(" — ");
    r.append(value.as_str());
    r.append(record);
    r.append(role.as_str());
    r
}

impl BaseProgramSummary {
    /// The summary as a message, one line per exercise.
    pub fn format(&self) -> (r: String)
        ensures
            r@ == summary_text(*self),
    {
        let mut body = String::new();
        let mut i: usize = 0;
        while i < self.exercises.len()
            invariant
                i <= self.exercises@.len(),
                body@ == exercise_lines(self.exercises@, i as int),
            decreases self.exercises@.len() - i,
        {
            let line = exercise_line_text(i, &self.exercises[i]);
            body.append("\n");
            body.append(line.as_str());
            i += 1;
        }
        let balance = if self.muscle_balance.unicode_len() > 0 {
            let mut b = String::from_str("\n");
            b.append("\n🎯 Баланс мышц сегодня:\n");
            b.append("\n");
            b.append(self.muscle_balance.as_str());
            b
        } else {
            String::from_str("")
        };
        let mut r = String::from_str("🏆 Базовая программа выполнена!\n");
        r.append("\n");
        r.append("📊 Итоги тренировки:\n");
        r.append(body.as_str());
        r.append("\n");
        r.append("\n⏱ Общее время: ");
        let d = format_duration(self.total_duration_secs);
        r.append(d.as_str());
        r.append("\n💪 Всего подходов: ");
        let s = signed_text(self.total_sets as i64);
        r.append(s.as_str());
        r.append(balance.as_str());
        r.append("\n");
        r.append("\n👏 Отличная работа! Готов к бонусу?");
        r
    }
}

} // verus!
