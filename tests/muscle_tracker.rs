use majowuji::exercises::{get_all_exercises, MuscleGroup};
use majowuji::muscle_tracker::MuscleTracker;
use majowuji::training::{Clock, Training};

const NOW: i64 = 1_767_700_800;
const DAY: i64 = 86_400;

fn clock() -> Clock {
    Clock { now: NOW, utc_offset: 3 * 3600 }
}

fn record(exercise: &str, reps: i32, date: i64) -> Training {
    Training {
        id: None,
        date,
        exercise: exercise.to_string(),
        sets: 1,
        reps,
        duration_secs: None,
        pulse_before: None,
        pulse_after: None,
        notes: None,
        user_id: None,
    }
}

fn create_training(exercise: &str, reps: i32) -> Training {
    record(exercise, reps, NOW)
}

fn create_training_days_ago(exercise: &str, reps: i32, days_ago: i64) -> Training {
    record(exercise, reps, NOW - days_ago * DAY)
}

fn tracker_of(trainings: &[Training]) -> MuscleTracker {
    MuscleTracker::from_trainings(trainings, &get_all_exercises(), clock())
}

#[test]
fn test_empty_tracker() {
    let tracker = tracker_of(&[]);
    assert_eq!(tracker.get_underworked_groups(3).len(), 3);
}

#[test]
fn test_single_training_load() {
    let trainings = vec![create_training("отжимания на кулаках", 20)];
    let tracker = tracker_of(&trainings);
    let chest = tracker.get_load(&MuscleGroup::Chest).unwrap();
    assert_eq!(chest.today_volume, 20);
    assert_eq!(chest.week_volume, 20);
    assert!(chest.last_trained.is_some());
}

#[test]
fn test_multi_muscle_exercise() {
    let trainings = vec![create_training("отжимания на кулаках", 15)];
    let tracker = tracker_of(&trainings);
    assert_eq!(tracker.get_load(&MuscleGroup::Chest).unwrap().today_volume, 15);
    assert_eq!(tracker.get_load(&MuscleGroup::Triceps).unwrap().today_volume, 15);
    assert_eq!(tracker.get_load(&MuscleGroup::Shoulders).unwrap().today_volume, 15);
    assert_eq!(tracker.get_load(&MuscleGroup::Core).unwrap().today_volume, 15);
    assert_eq!(tracker.get_load(&MuscleGroup::Back).unwrap().today_volume, 0);
    assert_eq!(tracker.get_load(&MuscleGroup::Biceps).unwrap().today_volume, 0);
}

#[test]
fn test_get_underworked_groups() {
    let trainings = vec![create_training("отжимания на кулаках", 50)];
    let tracker = tracker_of(&trainings);
    let underworked = tracker.get_underworked_groups(5);
    assert!(!underworked.contains(&MuscleGroup::Chest), "Chest should not be underworked after pushups");
    assert!(!underworked.contains(&MuscleGroup::Triceps), "Triceps should not be underworked after pushups");
    assert!(underworked.contains(&MuscleGroup::Back), "Back should be underworked (0 volume)");
    for group in &underworked {
        let load = tracker.get_load(group).unwrap();
        assert_eq!(load.today_volume, 0, "Underworked group {:?} should have 0 volume", group);
    }
}

#[test]
fn underworked_ties_keep_group_order() {
    let trainings = vec![create_training("отжимания на кулаках", 50)];
    let tracker = tracker_of(&trainings);
    let underworked = tracker.get_underworked_groups(5);
    assert_eq!(
        underworked,
        vec![MuscleGroup::Back, MuscleGroup::Biceps, MuscleGroup::Glutes, MuscleGroup::Quads, MuscleGroup::Hamstrings]
    );
}

#[test]
fn test_underworked_excludes_fullbody() {
    let tracker = tracker_of(&[]);
    let underworked = tracker.get_underworked_groups(15);
    assert!(!underworked.contains(&MuscleGroup::FullBody));
    assert_eq!(underworked.len(), 10);
}

#[test]
fn test_weekly_report_format() {
    let trainings = vec![create_training("отжимания на кулаках", 30), create_training("приседания с ударами", 20)];
    let tracker = tracker_of(&trainings);
    let report = tracker.get_weekly_report();
    assert_eq!(report.len(), 10);
    for (group, _volume, bar) in &report {
        assert_ne!(*group, MuscleGroup::FullBody);
        assert!(bar.starts_with('['));
        assert!(bar.ends_with(']'));
    }
}

#[test]
fn test_weekly_report_sorted_by_volume() {
    let trainings = vec![create_training("отжимания на кулаках", 50)];
    let tracker = tracker_of(&trainings);
    let report = tracker.get_weekly_report();
    let volumes: Vec<i64> = report.iter().map(|(_, v, _)| *v).collect();
    let mut sorted = volumes.clone();
    sorted.sort_by(|a, b| b.cmp(a));
    assert_eq!(volumes, sorted);
}

#[test]
fn weekly_report_buckets() {
    // Shoulders 30 + 20 = 50 (the maximum), chest 30, quads 20.
    let trainings = vec![create_training("отжимания на кулаках", 30), create_training("приседания с ударами", 20)];
    let tracker = tracker_of(&trainings);
    let report = tracker.get_weekly_report();
    assert_eq!(report[0], (MuscleGroup::Shoulders, 50, "[++++]"));
    assert_eq!(report[1], (MuscleGroup::Core, 50, "[++++]"));
    assert_eq!(report[2], (MuscleGroup::Chest, 30, "[+++.]"));
    assert_eq!(report[4], (MuscleGroup::Glutes, 20, "[++..]"));
    assert_eq!(report[9], (MuscleGroup::Calves, 0, "[....]"));
}

#[test]
fn test_get_loads_sorted_ascending() {
    let trainings = vec![create_training("отжимания на кулаках", 30)];
    let tracker = tracker_of(&trainings);
    let sorted = tracker.get_loads_sorted();
    let volumes: Vec<i64> = sorted.iter().map(|l| l.today_volume).collect();
    let mut expected = volumes.clone();
    expected.sort();
    assert_eq!(volumes, expected);
    assert_eq!(sorted.len(), 11);
}

#[test]
fn test_unknown_exercise_skipped() {
    let trainings = vec![create_training("несуществующее упражнение", 100)];
    let tracker = tracker_of(&trainings);
    for group in MuscleGroup::all() {
        let load = tracker.get_load(group).unwrap();
        assert_eq!(load.today_volume, 0, "Unknown exercise should be skipped");
    }
}

#[test]
fn test_today_vs_week_volume() {
    let trainings = vec![
        create_training("отжимания на кулаках", 20),
        create_training_days_ago("отжимания на кулаках", 30, 3),
    ];
    let tracker = tracker_of(&trainings);
    let chest = tracker.get_load(&MuscleGroup::Chest).unwrap();
    assert_eq!(chest.today_volume, 20);
    assert_eq!(chest.week_volume, 50);
}

#[test]
fn test_old_training_excluded_from_week() {
    let trainings = vec![create_training_days_ago("отжимания на кулаках", 100, 10)];
    let tracker = tracker_of(&trainings);
    let chest = tracker.get_load(&MuscleGroup::Chest).unwrap();
    assert_eq!(chest.today_volume, 0);
    assert_eq!(chest.week_volume, 0);
}

#[test]
fn test_last_trained_updates() {
    let trainings = vec![
        create_training_days_ago("отжимания на кулаках", 10, 2),
        create_training("отжимания на кулаках", 20),
    ];
    let tracker = tracker_of(&trainings);
    let chest = tracker.get_load(&MuscleGroup::Chest).unwrap();
    assert!(chest.last_trained.is_some());
    let diff = NOW - chest.last_trained.unwrap();
    assert!(diff < 60, "Last trained should be recent");
}

#[test]
fn test_get_load_returns_none_for_invalid_group() {
    let tracker = tracker_of(&[]);
    for group in MuscleGroup::all() {
        assert!(tracker.get_load(group).is_some());
    }
}

#[test]
fn timed_exercise_counts_its_reps_field() {
    // A timed exercise stores one rep per set; its volume is that field, not
    // the duration.
    let mut plank = create_training("стойка на локтях", 1);
    plank.duration_secs = Some(120);
    let tracker = tracker_of(&[plank]);
    assert_eq!(tracker.get_load(&MuscleGroup::Core).unwrap().today_volume, 1);
}

#[test]
fn week_window_covers_seven_past_days() {
    let trainings = vec![
        create_training_days_ago("отжимания на кулаках", 5, 7),
        create_training_days_ago("отжимания на кулаках", 9, 8),
    ];
    let tracker = tracker_of(&trainings);
    assert_eq!(tracker.get_load(&MuscleGroup::Chest).unwrap().week_volume, 5);
}
