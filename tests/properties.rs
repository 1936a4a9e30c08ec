use majowuji::exercises::{get_all_exercises, MuscleGroup};
use majowuji::muscle_tracker::MuscleTracker;
use majowuji::predictor::trend_samples;
use majowuji::progress_goal::{GoalCalculator, GoalConfidence};
use majowuji::recommender::Recommender;
use majowuji::training::{Clock, Training};

const NOW: i64 = 1_767_700_800;
const DAY: i64 = 86_400;
const HOUR: i64 = 3_600;

fn clock() -> Clock {
    Clock { now: NOW, utc_offset: 3 * 3600 }
}

fn record(exercise: &str, reps: i32, date: i64) -> Training {
    Training {
        id: None,
        date,
        exercise: exercise.to_string(),
        sets: 1,
        reps,
        duration_secs: None,
        pulse_before: None,
        pulse_after: None,
        notes: None,
        user_id: None,
    }
}

#[test]
fn week_volume_never_below_today_volume() {
    let trainings = vec![
        record("отжимания на кулаках", 20, NOW),
        record("пловец", 15, NOW - 2 * DAY),
        record("приседания с ударами", 30, NOW - 9 * DAY),
        record("стойка на локтях", 1, NOW - HOUR),
    ];
    let tracker = MuscleTracker::from_trainings(&trainings, &get_all_exercises(), clock());
    for g in MuscleGroup::all() {
        let l = tracker.get_load(g).unwrap();
        assert!(l.week_volume >= l.today_volume, "{:?}", g);
    }
}

#[test]
fn never_recommends_within_an_hour() {
    let trainings = vec![
        record("тайцзи бой с тенью", 1, NOW - 30 * 60),
        record("пловец", 10, NOW - DAY - 10 * 60),
    ];
    let rec = Recommender::new(trainings, get_all_exercises(), clock()).get_recommendation().unwrap();
    assert_ne!(rec.exercise.name, "тайцзи бой с тенью");
    assert!(rec.exercise.is_base);
}

#[test]
fn fresh_log_starts_with_warmup() {
    let rec = Recommender::new(vec![], get_all_exercises(), clock()).get_recommendation().unwrap();
    assert_eq!(rec.exercise.id, "taiji_shadow");
    assert!(!rec.is_bonus);
    assert!(rec.confidence > 0);
}

#[test]
fn personal_best_is_max_and_earliest() {
    let trainings = vec![
        record("X", 10, NOW - 20 * DAY),
        record("X", 14, NOW - 5 * DAY),
        record("X", 12, NOW - 11 * DAY),
    ];
    let (best, _) = GoalCalculator::find_personal_best_with_date(&trainings, "X", false).unwrap();
    assert_eq!(best, 14);
    let repeated = vec![record("X", 15, NOW - 2 * DAY), record("X", 15, NOW - 10 * DAY)];
    let (best, date) = GoalCalculator::find_personal_best_with_date(&repeated, "X", false).unwrap();
    assert_eq!(best, 15);
    assert_eq!(date, NOW - 10 * DAY);
}

#[test]
fn consolidating_from_the_day_of_the_record() {
    let name = "отжимания на кулаках";
    for days in 0..7 {
        let trainings = vec![record(name, 10, NOW - 20 * DAY), record(name, 20, NOW - days * DAY)];
        let g = GoalCalculator::calculate(&trainings, name, &get_all_exercises(), clock()).unwrap();
        assert!(g.is_consolidating, "day {}", days);
        assert!(g.beat_record_target.is_none());
    }
}

#[test]
fn trend_samples_for_weekly_progress() {
    let trainings = vec![
        record("X", 10, NOW - 14 * DAY),
        record("X", 12, NOW - 7 * DAY),
        record("X", 14, NOW),
    ];
    let s = trend_samples(&trainings, "X").unwrap();
    assert_eq!(s.days, vec![0, 7, 14]);
    assert_eq!(s.reps, vec![10, 12, 14]);
}

#[test]
fn empty_log_goal_scenario() {
    let rec = Recommender::new(vec![], get_all_exercises(), clock()).get_recommendation().unwrap();
    assert!(!rec.is_bonus);
    assert!(rec.exercise.is_base);
    assert!(rec.confidence > 0);
    for ex in get_all_exercises().iter().filter(|e| !e.is_timed) {
        let g = GoalCalculator::calculate(&[], ex.name, &get_all_exercises(), clock()).unwrap();
        assert_eq!(g.confidence, GoalConfidence::Low);
        assert_eq!(g.base_target, 11);
        assert!(g.fatigued_muscles.is_empty());
    }
}

#[test]
fn three_records_trend_scenario() {
    let trainings = vec![
        record("X", 10, NOW - 6 * DAY),
        record("X", 12, NOW - 3 * DAY),
        record("X", 14, NOW),
    ];
    let s = trend_samples(&trainings, "X").unwrap();
    assert_eq!(s.reps.len(), 3);
    assert_eq!(s.days, vec![0, 3, 6]);
}
