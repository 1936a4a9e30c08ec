use majowuji::exercises::{get_all_exercises, MuscleGroup};
use majowuji::progress_goal::{GoalCalculator, GoalConfidence, ProgressGoal};
use majowuji::training::{Clock, Training};

const NOW: i64 = 1_767_700_800;
const DAY: i64 = 86_400;

fn clock() -> Clock {
    Clock { now: NOW, utc_offset: 3 * 3600 }
}

fn create_training(exercise: &str, reps: i32, days_ago: i64) -> Training {
    Training {
        id: None,
        date: NOW - days_ago * DAY,
        exercise: exercise.to_string(),
        sets: 1,
        reps,
        duration_secs: Some(60),
        pulse_before: None,
        pulse_after: None,
        notes: None,
        user_id: None,
    }
}

fn goal(trainings: &[Training], name: &str) -> Option<ProgressGoal> {
    GoalCalculator::calculate(trainings, name, &get_all_exercises(), clock())
}

#[test]
fn test_confidence_levels() {
    assert_eq!(GoalConfidence::Low.label(), "(мало данных)");
    assert_eq!(GoalConfidence::Medium.label(), "");
    assert_eq!(GoalConfidence::High.label(), "");
}

#[test]
fn test_goal_no_history() {
    let trainings: Vec<Training> = vec![];
    let g = goal(&trainings, "отжимания на кулаках");
    assert!(g.is_some());
    let g = g.unwrap();
    assert_eq!(g.today_sets, 0);
    assert_eq!(g.confidence, GoalConfidence::Low);
}

#[test]
fn test_format_duration() {
    assert_eq!(ProgressGoal::format_duration(45), "45с");
    assert_eq!(ProgressGoal::format_duration(60), "1м");
    assert_eq!(ProgressGoal::format_duration(90), "1м 30с");
    assert_eq!(ProgressGoal::format_duration(180), "3м");
    assert_eq!(ProgressGoal::format_duration(169), "2м 49с");
}

#[test]
fn test_find_personal_best_with_date_no_history() {
    let trainings: Vec<Training> = vec![];
    let result = GoalCalculator::find_personal_best_with_date(&trainings, "отжимания на кулаках", false);
    assert!(result.is_none());
}

#[test]
fn test_find_personal_best_with_date_single_record() {
    let trainings = vec![create_training("отжимания на кулаках", 15, 3)];
    let result = GoalCalculator::find_personal_best_with_date(&trainings, "отжимания на кулаках", false);
    assert!(result.is_some());
    let (best, _date) = result.unwrap();
    assert_eq!(best, 15);
}

#[test]
fn test_find_personal_best_with_date_multiple_same_record() {
    let trainings = vec![
        create_training("отжимания на кулаках", 15, 10),
        create_training("отжимания на кулаках", 15, 2),
    ];
    let result = GoalCalculator::find_personal_best_with_date(&trainings, "отжимания на кулаках", false);
    assert!(result.is_some());
    let (best, date) = result.unwrap();
    assert_eq!(best, 15);
    let days_ago = (NOW - date) / DAY;
    assert!(days_ago >= 9, "Should be earliest date (breakthrough), got {} days ago", days_ago);
}

#[test]
fn test_consolidation_period_recent_record() {
    let trainings = vec![create_training("отжимания на кулаках", 20, 3)];
    let g = goal(&trainings, "отжимания на кулаках").unwrap();
    assert!(g.is_consolidating, "Record from 3 days ago should be consolidating");
    assert!(g.beat_record_target.is_none(), "No beat target during consolidation");
    assert_eq!(g.personal_best, Some(20));
}

#[test]
fn test_consolidation_period_old_record() {
    let trainings = vec![
        create_training("отжимания на кулаках", 20, 10),
        create_training("отжимания на кулаках", 20, 3),
    ];
    let g = goal(&trainings, "отжимания на кулаках").unwrap();
    assert!(!g.is_consolidating, "Should unlock after confirmation in window");
    assert_eq!(g.beat_record_target, Some(21));
    assert!(g.record_confirmed);
}

#[test]
fn test_consolidation_boundary_exactly_7_days() {
    let trainings = vec![
        create_training("отжимания на кулаках", 20, 7),
        create_training("отжимания на кулаках", 20, 3),
    ];
    let g = goal(&trainings, "отжимания на кулаках").unwrap();
    assert!(!g.is_consolidating, "Should unlock after confirmation (7 days + confirmed)");
    assert_eq!(g.beat_record_target, Some(21));
    assert!(g.record_confirmed);
}

#[test]
fn test_consolidation_timed_exercise() {
    let mut training = create_training("стойка на локтях", 1, 3);
    training.duration_secs = Some(120);
    let trainings = vec![training];
    let g = goal(&trainings, "стойка на локтях").unwrap();
    assert!(g.is_consolidating, "Timed exercise should also consolidate");
    assert!(g.is_timed);
    assert_eq!(g.personal_best, Some(120));
    assert_eq!(g.consolidation_days_left, Some(4));
    assert!(g.record_confirmed);
}

#[test]
fn test_consolidation_confirmed_unlocks() {
    let trainings = vec![
        create_training("отжимания на кулаках", 20, 10),
        create_training("отжимания на кулаках", 20, 3),
    ];
    let g = goal(&trainings, "отжимания на кулаках").unwrap();
    assert!(!g.is_consolidating, "Should unlock after confirmation in window");
    assert_eq!(g.beat_record_target, Some(21));
    assert!(g.record_confirmed);
}

#[test]
fn test_consolidation_not_confirmed_extends() {
    let trainings = vec![
        create_training("отжимания на кулаках", 20, 10),
        create_training("отжимания на кулаках", 15, 5),
        create_training("отжимания на кулаках", 18, 2),
    ];
    let g = goal(&trainings, "отжимания на кулаках").unwrap();
    assert!(g.is_consolidating, "Should extend consolidation if not confirmed");
    assert!(g.beat_record_target.is_none());
    assert!(!g.record_confirmed);
    assert!(g.consolidation_days_left.is_some());
    assert_eq!(g.consolidation_days_left, Some(4));
}

#[test]
fn test_consolidation_days_countdown() {
    let trainings = vec![create_training("отжимания на кулаках", 20, 2)];
    let g = goal(&trainings, "отжимания на кулаках").unwrap();
    assert!(g.is_consolidating);
    assert_eq!(g.consolidation_days_left, Some(5));
}

#[test]
fn test_consolidation_new_record_resets() {
    let trainings = vec![
        create_training("отжимания на кулаках", 15, 10),
        create_training("отжимания на кулаках", 20, 1),
    ];
    let g = goal(&trainings, "отжимания на кулаках").unwrap();
    assert_eq!(g.personal_best, Some(20));
    assert!(g.is_consolidating, "Should consolidate new record");
    assert_eq!(g.consolidation_days_left, Some(6));
}

#[test]
fn unknown_exercise_has_no_goal() {
    assert!(goal(&[], "несуществующее упражнение").is_none());
}

#[test]
fn timed_default_base_target() {
    let g = goal(&[], "стойка на локтях").unwrap();
    assert_eq!(g.base_target, 61);
    assert!(g.personal_best.is_none());
    assert!(!g.is_consolidating);
}

#[test]
fn today_context_and_fatigued_muscles() {
    let trainings = vec![
        create_training("отжимания на кулаках", 20, 0),
        create_training("приседания с ударами", 10, 0),
        create_training("отжимания на кулаках", 30, 4),
    ];
    let g = goal(&trainings, "пловец").unwrap();
    // Swimmer targets back and shoulders; only shoulders were loaded today.
    assert_eq!(g.fatigued_muscles, vec![MuscleGroup::Shoulders]);
    assert_eq!(g.context.exercises_done, 2);
    assert_eq!(g.context.session_duration_secs, 120);
    assert_eq!(g.context.prior_load[1], Some(30));
    assert_eq!(g.context.prior_load[0], Some(20));
    assert_eq!(g.context.prior_load[3], None);
}

#[test]
fn today_totals_and_attempts() {
    let trainings = vec![
        create_training("отжимания на кулаках", 20, 0),
        create_training("отжимания на кулаках", 25, 0),
        create_training("отжимания на кулаках", 18, 1),
        create_training("отжимания на кулаках", 10, 9),
    ];
    let g = goal(&trainings, "отжимания на кулаках").unwrap();
    assert_eq!(g.today_sets, 2);
    assert_eq!(g.today_value, 45);
    assert_eq!(g.confidence, GoalConfidence::Medium);
    assert_eq!((g.week_sum, g.week_count), (63, 3));
    assert_eq!((g.fortnight_sum, g.fortnight_count), (73, 4));
}

#[test]
fn history_holds_context_before_each_past_occurrence() {
    let base = NOW - 3 * DAY;
    let mut a = create_training("приседания с ударами", 12, 0);
    a.date = base;
    let mut b = create_training("отжимания на кулаках", 15, 0);
    b.date = base + 600;
    let c = create_training("отжимания на кулаках", 30, 0);
    let trainings = vec![b, a, c];
    let g = goal(&trainings, "отжимания на кулаках").unwrap();
    assert_eq!(g.history.len(), 1);
    let h = &g.history[0];
    assert_eq!(h.achieved_value, 15);
    assert_eq!(h.context_before.exercises_done, 1);
    assert_eq!(h.context_before.prior_load[7], Some(12));
    assert_eq!(h.context_before.prior_load[0], None);
}
