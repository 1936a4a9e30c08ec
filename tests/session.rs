use majowuji::exercises::get_all_exercises;
use majowuji::progress_goal::record_status;
use majowuji::session::{on_exercise_chosen, on_message, pulse_indicator, Incoming, Reply, State};
use majowuji::training::Training;

const NOW: i64 = 1_767_700_800;

fn msg(number: Option<i32>, now: i64) -> Incoming {
    Incoming { number, now, limit_reached: false }
}

fn record(exercise: &str, reps: i32, duration: Option<i32>) -> Training {
    Training {
        id: None,
        date: NOW,
        exercise: exercise.to_string(),
        sets: 1,
        reps,
        duration_secs: duration,
        pulse_before: None,
        pulse_after: None,
        notes: None,
        user_id: None,
    }
}

#[test]
fn unknown_exercise_does_not_open_the_dialogue() {
    assert!(on_exercise_chosen(&get_all_exercises(), "nope", 1).is_none());
}

#[test]
fn rep_exercise_full_dialogue() {
    let catalog = get_all_exercises();
    let (s, e) = on_exercise_chosen(&catalog, "pushups_fist", 7).unwrap();
    assert_eq!(e.name, "отжимания на кулаках");
    assert!(matches!(&s, State::WaitingForPulseBefore { exercise_name, user_id: 7, .. } if exercise_name == "отжимания на кулаках"));

    let (s, r) = on_message(s, &catalog, msg(None, NOW));
    assert!(matches!(r, Reply::AskPulse));
    let (s, r) = on_message(s, &catalog, msg(Some(300), NOW));
    assert!(matches!(r, Reply::PulseOutOfRange));
    let (s, r) = on_message(s, &catalog, msg(Some(80), NOW));
    assert!(matches!(r, Reply::ExerciseStarted { pulse: 80, timed: false }));
    assert!(matches!(s, State::WaitingForReps { start_time: NOW, pulse_before: 80, .. }));

    let (s, r) = on_message(s, &catalog, msg(None, NOW + 40));
    assert!(matches!(r, Reply::AskReps));
    let (s, r) = on_message(s, &catalog, msg(Some(25), NOW + 45));
    assert!(matches!(r, Reply::AskPulseAfter { reps: 25, duration_secs: 45, timed: false }));

    let (s, r) = on_message(s, &catalog, msg(Some(29), NOW + 60));
    assert!(matches!(r, Reply::PulseOutOfRange));
    let (s, r) = on_message(s, &catalog, msg(Some(130), NOW + 60));
    assert!(matches!(s, State::Start));
    match r {
        Reply::Save(t) => {
            assert_eq!(t.exercise, "отжимания на кулаках");
            assert_eq!(t.reps, 25);
            assert_eq!(t.duration_secs, Some(45));
            assert_eq!(t.pulse_before, Some(80));
            assert_eq!(t.pulse_after, Some(130));
            assert_eq!(t.user_id, Some(7));
            assert_eq!(t.date, NOW + 60);
        },
        _ => panic!("expected a record to save"),
    }
}

#[test]
fn timed_exercise_measures_duration() {
    let catalog = get_all_exercises();
    let (s, _) = on_exercise_chosen(&catalog, "plank_elbows", 1).unwrap();
    let (s, r) = on_message(s, &catalog, msg(Some(70), NOW));
    assert!(matches!(r, Reply::ExerciseStarted { pulse: 70, timed: true }));
    let (_, r) = on_message(s, &catalog, msg(None, NOW + 95));
    assert!(matches!(r, Reply::AskPulseAfter { reps: 1, duration_secs: 90, timed: true }));
}

#[test]
fn timed_exercise_lasts_at_least_a_second() {
    let catalog = get_all_exercises();
    let (s, _) = on_exercise_chosen(&catalog, "plank_elbows", 1).unwrap();
    let (s, _) = on_message(s, &catalog, msg(Some(70), NOW));
    let (_, r) = on_message(s, &catalog, msg(None, NOW + 3));
    assert!(matches!(r, Reply::AskPulseAfter { duration_secs: 1, .. }));
}

#[test]
fn user_limit_routes_next_message_to_owner() {
    let catalog = get_all_exercises();
    let (s, r) = on_message(State::Start, &catalog, Incoming { number: None, now: NOW, limit_reached: true });
    assert!(matches!(r, Reply::LimitReached));
    assert!(matches!(s, State::WaitingForOwnerMessage));
    let (s, r) = on_message(s, &catalog, msg(None, NOW));
    assert!(matches!(r, Reply::ForwardToOwner));
    assert!(matches!(s, State::Start));
    let (_, r) = on_message(State::Start, &catalog, msg(None, NOW));
    assert!(matches!(r, Reply::SuggestTraining));
}

#[test]
fn pulse_indicator_buckets() {
    assert_eq!(pulse_indicator(80, 120), "+++");
    assert_eq!(pulse_indicator(80, 100), "++");
    assert_eq!(pulse_indicator(80, 81), "+");
    assert_eq!(pulse_indicator(80, 80), "-");
}

#[test]
fn record_status_after_save() {
    let first = vec![record("X", 10, None)];
    assert_eq!(record_status(&first, "X", false, 10), (10, false));
    let more = vec![record("X", 10, None), record("X", 12, None)];
    assert_eq!(record_status(&more, "X", false, 12), (12, true));
    assert_eq!(record_status(&more, "X", false, 11), (12, false));
    let timed = vec![record("P", 1, Some(60)), record("P", 1, None)];
    assert_eq!(record_status(&timed, "P", true, 0), (60, false));
}
