use majowuji::analytics::{text_contains, total_volume_folded, Analytics};
use majowuji::training::Training;

const NOW: i64 = 1_767_700_800;

fn create_training(exercise: &str, sets: i32, reps: i32) -> Training {
    Training {
        id: None,
        date: NOW,
        exercise: exercise.to_string(),
        sets,
        reps,
        duration_secs: None,
        pulse_before: None,
        pulse_after: None,
        notes: None,
        user_id: None,
    }
}

#[test]
fn test_analytics_new() {
    let analytics = Analytics::new(vec![]);
    assert_eq!(analytics.trainings.len(), 0);
}

#[test]
fn test_total_volume_single_exercise() {
    let analytics = Analytics::new(vec![create_training("отжимания на кулаках", 3, 10)]);
    assert_eq!(analytics.total_volume("отжимания"), 30);
}

#[test]
fn test_total_volume_multiple_entries() {
    let analytics = Analytics::new(vec![
        create_training("отжимания на кулаках", 3, 10),
        create_training("отжимания на кулаках", 2, 15),
    ]);
    assert_eq!(analytics.total_volume("отжимания"), 60);
}

#[test]
fn test_total_volume_case_insensitive() {
    let analytics = Analytics::new(vec![create_training("Отжимания на кулаках", 2, 10)]);
    assert_eq!(analytics.total_volume("отжимания"), 20);
}

#[test]
fn test_total_volume_empty() {
    let analytics = Analytics::new(vec![]);
    assert_eq!(analytics.total_volume("отжимания"), 0);
}

#[test]
fn test_total_volume_not_found() {
    let analytics = Analytics::new(vec![create_training("приседания", 3, 10)]);
    assert_eq!(analytics.total_volume("отжимания"), 0);
}

#[test]
fn test_predict_next_load_empty() {
    let analytics = Analytics::new(vec![]);
    assert!(analytics.predict_next_load("отжимания").is_none());
}

#[test]
fn test_predict_next_load_not_found() {
    let analytics = Analytics::new(vec![create_training("приседания", 3, 10)]);
    assert!(analytics.predict_next_load("отжимания").is_none());
}

#[test]
fn test_predict_next_load_single() {
    let analytics = Analytics::new(vec![create_training("отжимания", 3, 10)]);
    let prediction = analytics.predict_next_load("отжимания").unwrap();
    assert_eq!(prediction.0, 3);
    assert_eq!(prediction.1, 11);
}

#[test]
fn test_predict_next_load_multiple() {
    let analytics = Analytics::new(vec![
        create_training("отжимания", 3, 10),
        create_training("отжимания", 3, 12),
        create_training("отжимания", 3, 14),
    ]);
    let prediction = analytics.predict_next_load("отжимания").unwrap();
    assert_eq!(prediction.0, 3);
    assert_eq!(prediction.1, 13);
}

#[test]
fn test_predict_next_load_partial_match() {
    let analytics = Analytics::new(vec![create_training("отжимания на кулаках", 2, 20)]);
    let prediction = analytics.predict_next_load("отжимания");
    assert!(prediction.is_some());
    assert_eq!(prediction.unwrap(), (2, 21));
}

#[test]
fn next_load_uses_first_five_matches() {
    let mut trainings = Vec::new();
    for reps in [10, 10, 10, 10, 11, 100] {
        trainings.push(create_training("X", 1, reps));
    }
    let analytics = Analytics::new(trainings);
    assert_eq!(analytics.predict_next_load("x"), Some((1, 11)));
}

#[test]
fn contains_finds_substrings() {
    assert!(text_contains("отжимания на кулаках", "на кул"));
    assert!(text_contains("abc", ""));
    assert!(!text_contains("abc", "abcd"));
    assert!(!text_contains("abc", "ac"));
}

#[test]
fn folded_volume_counts_only_matches() {
    let trainings = vec![create_training("A", 2, 3), create_training("B", 4, 5)];
    let folded = vec!["squat".to_string(), "push".to_string()];
    assert_eq!(total_volume_folded(&trainings, &folded, "us"), 20);
}
