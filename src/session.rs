//! The logging dialogue: choose an exercise, give the pulse before, do the
//! exercise (timed, or report the reps), give the pulse after, and the set is
//! recorded. Each incoming message moves the dialogue one step.

use vstd::prelude::*;
use crate::exercises::{Exercise, position_by_id};
use vstd::string::*;
use crate::training::Training;

verus! {

/// Lowest accepted pulse.
pub const MIN_PULSE: i32 = 30;

/// Highest accepted pulse.
pub const MAX_PULSE: i32 = 250;

/// Seconds of a timed exercise spent getting ready, not counted.
pub const PREPARATION_SECS: i64 = 5;

/// Where the dialogue stands.
#[derive(Debug, Clone)]
pub enum State {
    Start,
    /// Waiting for a message to forward to the owner (the user limit is reached).
    WaitingForOwnerMessage,
    /// Waiting for the pulse before the exercise.
    WaitingForPulseBefore { exercise_id: String, exercise_name: String, user_id: i64 },
    /// The exercise runs since `start_time`; waiting for the reps (or any
    /// message, for a timed exercise).
    WaitingForReps { exercise_id: String, exercise_name: String, pulse_before: i32, start_time: i64, user_id: i64 },
    /// Waiting for the pulse after the exercise.
    WaitingForPulseAfter {
        exercise_id: String,
        exercise_name: String,
        pulse_before: i32,
        reps: i32,
        duration_secs: i32,
        user_id: i64,
    },
}

/// An incoming text message, as the dialogue reads it.
#[derive(Debug, Clone, Copy)]
pub struct Incoming {
    /// The text as an integer, if it is one.
    pub number: Option<i32>,
    /// When it arrived (seconds since the epoch).
    pub now: i64,
    /// Whether a new user could not be registered because the user limit is reached.
    pub limit_reached: bool,
}

/// What to do in answer to a message.
#[derive(Debug, Clone)]
pub enum Reply {
    /// Forward the text to the owner.
    ForwardToOwner,
    /// Tell the user that registration is closed and ask for a message to the owner.
    LimitReached,
    /// Suggest starting a training.
    SuggestTraining,
    /// The pulse is outside `MIN_PULSE..=MAX_PULSE`.
    PulseOutOfRange,
    /// Ask for the pulse as a number.
    AskPulse,
    /// The exercise starts; for a timed one a timer runs.
    ExerciseStarted { pulse: i32, timed: bool },
    /// Ask for the reps as a number.
    AskReps,
    /// Ask for the pulse after the exercise.
    AskPulseAfter { reps: i32, duration_secs: i32, timed: bool },
    /// Store this record.
    Save(Training),
}

/// Whether the first catalog entry with this id is timed (false for an
/// unknown id).
pub open spec fn timed_in(c: Seq<Exercise>, id: Seq<char>) -> bool {
    exists|k: int| 0 <= k < c.len() && (#[trigger] c[k]).id@ == id && (forall|j: int| 0 <= j < k ==> c[j].id@ != id) && c[k].is_timed
}

pub open spec fn pulse_ok(p: i32) -> bool {
    MIN_PULSE <= p <= MAX_PULSE
}

/// Seconds from `start` to `now`, limited to the range of `i32`.
pub open spec fn elapsed(start: i64, now: i64) -> int {
    let d = now - start;
    if d > 0x7fff_ffff {
        0x7fff_ffff
    } else if d < -0x8000_0000 {
        -0x8000_0000
    } else {
        d
    }
}

/// Duration of a timed exercise: the elapsed time less the preparation, at
/// least one second.
pub open spec fn timed_duration(start: i64, now: i64) -> int {
    let d = elapsed(start, now) - 5;
    if d > 1 { d } else { 1 }
}

/// The dialogue's step on a message.
pub open spec fn step(s: State, c: Seq<Exercise>, m: Incoming) -> (State, Reply) {
    match s {
        State::Start => if m.limit_reached {
            (State::WaitingForOwnerMessage, Reply::LimitReached)
        } else {
            (State::Start, Reply::SuggestTraining)
        },
        State::WaitingForOwnerMessage => (State::Start, Reply::ForwardToOwner),
        State::WaitingForPulseBefore { exercise_id, exercise_name, user_id } => match m.number {
            Some(p) => if !pulse_ok(p) {
                (State::WaitingForPulseBefore { exercise_id, exercise_name, user_id }, Reply::PulseOutOfRange)
            } else {
                let timed = timed_in(c, exercise_id@);
                (
                    State::WaitingForReps { exercise_id, exercise_name, pulse_before: p, start_time: m.now, user_id },
                    Reply::ExerciseStarted { pulse: p, timed },
                )
            },
            None => (State::WaitingForPulseBefore { exercise_id, exercise_name, user_id }, Reply::AskPulse),
        },
        State::WaitingForReps { exercise_id, exercise_name, pulse_before, start_time, user_id } => {
            let timed = timed_in(c, exercise_id@);
            if timed {
                let d = timed_duration(start_time, m.now) as i32;
                (
                    State::WaitingForPulseAfter { exercise_id, exercise_name, pulse_before, reps: 1, duration_secs: d, user_id },
                    Reply::AskPulseAfter { reps: 1, duration_secs: d, timed: true },
                )
            } else {
                match m.number {
                    Some(reps) => {
                        let d = elapsed(start_time, m.now) as i32;
                        (
                            State::WaitingForPulseAfter { exercise_id, exercise_name, pulse_before, reps, duration_secs: d, user_id },
                            Reply::AskPulseAfter { reps, duration_secs: d, timed: false },
                        )
                    },
                    None => (State::WaitingForReps { exercise_id, exercise_name, pulse_before, start_time, user_id }, Reply::AskReps),
                }
            }
        },
        State::WaitingForPulseAfter { exercise_id, exercise_name, pulse_before, reps, duration_secs, user_id } => match m.number {
            Some(p) => if !pulse_ok(p) {
                (
                    State::WaitingForPulseAfter { exercise_id, exercise_name, pulse_before, reps, duration_secs, user_id },
                    Reply::PulseOutOfRange,
                )
            } else {
                (
                    State::Start,
                    Reply::Save(
                        Training {
                            id: None,
                            date: m.now,
                            exercise: exercise_name,
                            sets: 1,
                            reps,
                            duration_secs: Some(duration_secs),
                            pulse_before: Some(pulse_before),
                            pulse_after: Some(p),
                            notes: None,
                            user_id: Some(user_id),
                        },
                    ),
                )
            },
            None => (
                State::WaitingForPulseAfter { exercise_id, exercise_name, pulse_before, reps, duration_secs, user_id },
                Reply::AskPulse,
            ),
        },
    }
}

/// Whether the exercise with this id is timed.
fn is_timed(c: &[Exercise], id: &str) -> (r: bool)
    ensures
        r == timed_in(c@, id@),
{
    match position_by_id(c, id) {
        Some(k) => {
            assert(c@[k as int].id@ == id@);
            c[k].is_timed
        },
        None => false,
    }
}

fn elapsed_secs(start: i64, now: i64) -> (r: i32)
    ensures
        r == elapsed(start, now),
{
    let d: i128 = now as i128 - start as i128;
    if d > 0x7fff_ffff {
        0x7fff_ffff
    } else if d < -0x8000_0000 {
        -0x8000_0000
    } else {
        d as i32
    }
}

/// Moves the dialogue on a text message.
pub fn on_message(s: State, c: &[Exercise], m: Incoming) -> (r: (State, Reply))
    ensures
        r == step(s, c@, m),
{
    match s {
        State::Start => if m.limit_reached {
            (State::WaitingForOwnerMessage, Reply::LimitReached)
        } else {
            (State::Start, Reply::SuggestTraining)
        },
        State::WaitingForOwnerMessage => (State::Start, Reply::ForwardToOwner),
        State::WaitingForPulseBefore { exercise_id, exercise_name, user_id } => match m.number {
            Some(p) => if p < MIN_PULSE || p > MAX_PULSE {
                (State::WaitingForPulseBefore { exercise_id, exercise_name, user_id }, Reply::PulseOutOfRange)
            } else {
                let timed = is_timed(c, exercise_id.as_str());
                (
                    State::WaitingForReps { exercise_id, exercise_name, pulse_before: p, start_time: m.now, user_id },
                    Reply::ExerciseStarted { pulse: p, timed },
                )
            },
            None => (State::WaitingForPulseBefore { exercise_id, exercise_name, user_id }, Reply::AskPulse),
        },
        State::WaitingForReps { exercise_id, exercise_name, pulse_before, start_time, user_id } => {
            let timed = is_timed(c, exercise_id.as_str());
            if timed {
                let e = elapsed_secs(start_time, m.now);
                let d: i32 = if e > 6 { e - 5 } else { 1 };
                (
                    State::WaitingForPulseAfter { exercise_id, exercise_name, pulse_before, reps: 1, duration_secs: d, user_id },
                    Reply::AskPulseAfter { reps: 1, duration_secs: d, timed: true },
                )
            } else {
                match m.number {
                    Some(reps) => {
                        let d = elapsed_secs(start_time, m.now);
                        (
                            State::WaitingForPulseAfter { exercise_id, exercise_name, pulse_before, reps, duration_secs: d, user_id },
                            Reply::AskPulseAfter { reps, duration_secs: d, timed: false },
                        )
                    },
                    None => (State::WaitingForReps { exercise_id, exercise_name, pulse_before, start_time, user_id }, Reply::AskReps),
                }
            }
        },
        State::WaitingForPulseAfter { exercise_id, exercise_name, pulse_before, reps, duration_secs, user_id } => match m.number {
            Some(p) => if p < MIN_PULSE || p > MAX_PULSE {
                (
                    State::WaitingForPulseAfter { exercise_id, exercise_name, pulse_before, reps, duration_secs, user_id },
                    Reply::PulseOutOfRange,
                )
            } else {
                (
                    State::Start,
                    Reply::Save(
                        Training {
                            id: None,
                            date: m.now,
                            exercise: exercise_name,
                            sets: 1,
                            reps,
                            duration_secs: Some(duration_secs),
                            pulse_before: Some(pulse_before),
                            pulse_after: Some(p),
                            notes: None,
                            user_id: Some(user_id),
                        },
                    ),
                )
            },
            None => (
                State::WaitingForPulseAfter { exercise_id, exercise_name, pulse_before, reps, duration_secs, user_id },
                Reply::AskPulse,
            ),
        },
    }
}

/// Opens the dialogue on the chosen exercise; `None` for an unknown id.
pub fn on_exercise_chosen(c: &[Exercise], exercise_id: &str, user_id: i64) -> (r: Option<(State, Exercise)>)
    ensures
        r is Some <==> exists|k: int| 0 <= k < c@.len() && (#[trigger] c@[k]).id@ == exercise_id@,
        r matches Some((s, e)) ==> e.id@ == exercise_id@ && (s matches State::WaitingForPulseBefore { exercise_id: i, exercise_name: n, user_id: u }
            && i@ == exercise_id@ && n@ == e.name@ && u == user_id),
{
    match position_by_id(c, exercise_id) {
        Some(k) => {
            let e = c[k];
            let s = State::WaitingForPulseBefore {
                exercise_id: String::from_str(exercise_id),
                exercise_name: String::from_str(e.name),
                user_id,
            };
            Some((s, e))
        },
        None => None,
    }
}

/// How much the pulse rose: "+++" above 30, "++" above 15, "+" above 0, "-" otherwise.
pub open spec fn pulse_rise(before: int, after: int) -> Seq<char> {
    let d = after - before;
    if d > 30 {
        "+++"@
    } else if d > 15 {
        "++"@
    } else if d > 0 {
        "+"@
    } else {
        "-"@
    }
}

pub fn pulse_indicator(before: i32, after: i32) -> (r: &'static str)
    ensures
        r@ == pulse_rise(before as int, after as int),
{
    let d: i64 = after as i64 - before as i64;
    if d > 30 {
        "+++"
    } else if d > 15 {
        "++"
    } else if d > 0 {
        "+"
    } else {
        "-"
    }
}

} // verus!
