use majowuji::exercises::{get_all_exercises, MuscleGroup};
use majowuji::recommender::{choose_exercise, Recommender};
use majowuji::training::{Clock, Training};

const NOW: i64 = 1_767_700_800;
const HOUR: i64 = 3_600;

fn clock() -> Clock {
    Clock { now: NOW, utc_offset: 3 * 3600 }
}

fn record(exercise: &str, reps: i32, date: i64) -> Training {
    Training {
        id: None,
        date,
        exercise: exercise.to_string(),
        sets: 1,
        reps,
        duration_secs: None,
        pulse_before: None,
        pulse_after: None,
        notes: None,
        user_id: None,
    }
}

fn create_training(exercise: &str, reps: i32) -> Training {
    record(exercise, reps, NOW)
}

fn create_training_hours_ago(exercise: &str, reps: i32, hours_ago: i64) -> Training {
    record(exercise, reps, NOW - hours_ago * HOUR)
}

fn create_training_local_today(exercise: &str, reps: i32, hours_ago: i64) -> Training {
    record(exercise, reps, NOW - hours_ago * HOUR)
}

fn recommender(trainings: Vec<Training>) -> Recommender {
    Recommender::new(trainings, get_all_exercises(), clock())
}

fn base_program_done_two_hours_ago() -> Vec<Training> {
    vec![
        create_training_local_today("отжимания на кулаках", 20, 2),
        create_training_local_today("отжимания с ручками", 20, 2),
        create_training_local_today("пресс складной нож", 20, 2),
        create_training_local_today("стойка на локтях", 60, 2),
        create_training_local_today("приседания с ударами", 30, 2),
        create_training_local_today("пловец", 20, 2),
        create_training_local_today("тайцзи бой с тенью", 60, 2),
        create_training_local_today("тайцзи бой с тенью с оружием", 60, 2),
    ]
}

#[test]
fn test_empty_recommender() {
    let rec = recommender(vec![]).get_recommendation();
    assert!(rec.is_some());
}

#[test]
fn test_recommendation_is_base_exercise() {
    let rec = recommender(vec![]).get_recommendation().unwrap();
    assert!(rec.exercise.is_base);
    assert!(!rec.is_bonus);
}

#[test]
fn test_skip_done_today() {
    let rec = recommender(vec![create_training("отжимания на кулаках", 20)]).get_recommendation().unwrap();
    assert_ne!(rec.exercise.name, "отжимания на кулаках");
}

#[test]
fn test_allow_same_category_for_base_program() {
    let trainings = vec![create_training_local_today("отжимания на кулаках", 20, 2)];
    let rec = recommender(trainings).get_recommendation().unwrap();
    assert!(rec.exercise.is_base, "Should recommend base exercise, got: {}", rec.exercise.name);
}

#[test]
fn test_rest_time_enforcement() {
    let rec = recommender(vec![create_training("отжимания на кулаках", 20)]).get_recommendation().unwrap();
    assert_ne!(rec.exercise.name, "отжимания на кулаках", "Exercise done < 1 hour ago should not be recommended");
}

#[test]
fn test_recommendation_has_reason() {
    let rec = recommender(vec![]).get_recommendation().unwrap();
    assert!(!rec.reason.is_empty());
}

#[test]
fn test_recommendation_has_confidence() {
    let rec = recommender(vec![]).get_recommendation().unwrap();
    assert!(rec.confidence > 0);
}

#[test]
fn test_tracker_accessor() {
    let r = recommender(vec![]);
    let tracker = r.tracker();
    assert_eq!(tracker.get_load(&MuscleGroup::Chest).unwrap().week_volume, 0);
}

#[test]
fn test_base_program_not_done_with_partial() {
    let rec = recommender(vec![create_training("отжимания на кулаках", 20)]).get_recommendation().unwrap();
    assert!(!rec.is_bonus);
}

#[test]
fn test_ever_done_true() {
    let r = recommender(vec![create_training_hours_ago("впусти меня", 10, 48)]);
    assert!(r.ever_done("впусти меня"));
}

#[test]
fn test_ever_done_false() {
    let r = recommender(vec![]);
    assert!(!r.ever_done("впусти меня"));
}

#[test]
fn test_days_since_exercise_none() {
    let r = recommender(vec![]);
    assert!(r.days_since_exercise("впусти меня").is_none());
}

#[test]
fn test_days_since_exercise_some() {
    let r = recommender(vec![create_training_hours_ago("впусти меня", 10, 48)]);
    let days = r.days_since_exercise("впусти меня").unwrap();
    assert!(days >= 1 && days <= 3, "Expected ~2 days, got {}", days);
    assert_eq!(days, 2);
}

#[test]
fn test_bonus_recommendation_has_focus_cues() {
    let rec = recommender(base_program_done_two_hours_ago()).get_recommendation();
    assert!(rec.is_some(), "Should have a recommendation");
    let rec = rec.unwrap();
    assert!(rec.is_bonus, "Should be a bonus recommendation");
    assert!(rec.focus_cues.is_some(), "Bonus should have focus_cues");
}

#[test]
fn test_bonus_prioritizes_never_done() {
    let mut trainings = base_program_done_two_hours_ago();
    trainings.push(create_training_hours_ago("впусти меня", 10, 2));
    trainings.push(create_training_hours_ago("подъём на носки", 20, 2));
    let rec = recommender(trainings).get_recommendation().unwrap();
    assert!(rec.is_bonus);
    assert_ne!(rec.exercise.name, "впусти меня");
    assert_ne!(rec.exercise.name, "подъём на носки");
}

#[test]
fn warmup_first_with_its_reason() {
    let rec = recommender(vec![]).get_recommendation().unwrap();
    assert_eq!(rec.exercise.id, "taiji_shadow");
    assert_eq!(rec.reason, "разминка — начни с этого");
    assert_eq!(rec.confidence, 1000);
}

#[test]
fn middle_exercise_scored_by_underworked_share() {
    // Warm-up done two hours ago; nothing else today.
    let trainings = vec![create_training_hours_ago("тайцзи бой с тенью", 1, 2)];
    let rec = recommender(trainings).get_recommendation().unwrap();
    // Swimmer targets back and shoulders, both among the five least worked
    // groups (all at zero, in group order: chest, shoulders, triceps, back,
    // biceps); pushups hit three of four. Swimmer's share 2/2 wins, and its
    // groups are named in its own order.
    assert_eq!(rec.exercise.id, "swimmer");
    assert_eq!(rec.confidence, 1500);
    assert_eq!(rec.reason, "спина, плечи мало работали");
}

#[test]
fn cooldown_after_middle_exercises() {
    let trainings = vec![
        create_training_local_today("тайцзи бой с тенью", 60, 2),
        create_training_local_today("отжимания на кулаках", 20, 2),
        create_training_local_today("отжимания с ручками", 20, 2),
        create_training_local_today("пресс складной нож", 20, 2),
        create_training_local_today("стойка на локтях", 60, 2),
        create_training_local_today("приседания с ударами", 30, 2),
        create_training_local_today("пловец", 20, 2),
    ];
    let rec = recommender(trainings).get_recommendation().unwrap();
    assert_eq!(rec.exercise.id, "taiji_shadow_weapon");
    assert_eq!(rec.reason, "завершение комплекса");
}

#[test]
fn bonus_cycles_by_score_when_all_done() {
    let mut trainings = base_program_done_two_hours_ago();
    for ex in get_all_exercises().iter().filter(|e| !e.is_base) {
        trainings.push(create_training_hours_ago(ex.name, 10, 24 * 40));
    }
    let rec = recommender(trainings).get_recommendation().unwrap();
    assert!(rec.is_bonus);
    // Every bonus entry was last done 40 days ago (capped at 30).
    assert!(rec.reason.contains("40 дн. назад"), "{}", rec.reason);
    assert_eq!(rec.confidence % 20, 0);
}

#[test]
fn choose_exercise_uses_given_underworked_list() {
    let trainings = vec![create_training_hours_ago("тайцзи бой с тенью", 1, 2)];
    let under = vec![MuscleGroup::Quads];
    let rec = choose_exercise(&trainings, &get_all_exercises(), clock(), &under).unwrap();
    assert_eq!(rec.exercise.id, "squats_strikes");
    assert_eq!(rec.confidence, 750);
    assert_eq!(rec.reason, "квадрицепсы мало работали");
}

#[test]
fn rested_reason_reports_hours() {
    let trainings = vec![
        create_training_hours_ago("тайцзи бой с тенью", 1, 2),
        create_training_hours_ago("пловец", 1, 26),
    ];
    let rec = choose_exercise(&trainings, &get_all_exercises(), clock(), &vec![]).unwrap();
    // With no underworked groups every middle entry scores 0.3; the first wins.
    assert_eq!(rec.exercise.id, "pushups_fist");
    assert_eq!(rec.reason, "ещё не делали");
    assert_eq!(rec.confidence, 300);
    let only_swimmer_left = vec![
        create_training_hours_ago("тайцзи бой с тенью", 1, 2),
        create_training_hours_ago("пловец", 1, 26),
        create_training_hours_ago("отжимания на кулаках", 1, 2),
        create_training_hours_ago("отжимания с ручками", 1, 2),
        create_training_hours_ago("пресс складной нож", 1, 2),
        create_training_hours_ago("стойка на локтях", 1, 2),
        create_training_hours_ago("приседания с ударами", 1, 2),
    ];
    let rec = choose_exercise(&only_swimmer_left, &get_all_exercises(), clock(), &vec![]).unwrap();
    assert_eq!(rec.exercise.id, "swimmer");
    assert_eq!(rec.reason, "отдохнули 26ч");
}
