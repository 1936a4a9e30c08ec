use majowuji::predictor::trend_samples;
use majowuji::training::Training;

const NOW: i64 = 1_767_700_800;
const DAY: i64 = 86_400;

fn create_training(exercise: &str, reps: i32, days_ago: i64) -> Training {
    Training {
        id: None,
        date: NOW - days_ago * DAY,
        exercise: exercise.to_string(),
        sets: 1,
        reps,
        duration_secs: None,
        pulse_before: None,
        pulse_after: None,
        notes: None,
        user_id: None,
    }
}

#[test]
fn test_predictor_insufficient_data() {
    let trainings = vec![create_training("отжимания", 10, 2), create_training("отжимания", 12, 1)];
    assert!(trend_samples(&trainings, "отжимания").is_none());
}


#[test]
fn test_predictor_no_matching_exercise() {
    let trainings = vec![
        create_training("отжимания", 10, 3),
        create_training("отжимания", 12, 2),
        create_training("отжимания", 14, 1),
    ];
    assert!(trend_samples(&trainings, "приседания").is_none());
}

#[test]
fn test_data_points_count() {
    let trainings = vec![
        create_training("отжимания", 10, 4),
        create_training("отжимания", 12, 3),
        create_training("отжимания", 14, 2),
        create_training("отжимания", 16, 1),
        create_training("приседания", 20, 1),
    ];
    let samples = trend_samples(&trainings, "отжимания").unwrap();
    assert_eq!(samples.reps.len(), 4);
}

#[test]
fn samples_count_days_from_first_record() {
    // Log order is not date order: days are measured from the earliest record.
    let trainings = vec![
        create_training("X", 14, 0),
        create_training("X", 10, 14),
        create_training("X", 12, 7),
    ];
    let samples = trend_samples(&trainings, "X").unwrap();
    assert_eq!(samples.first_date, NOW - 14 * DAY);
    assert_eq!(samples.days, vec![14, 0, 7]);
    assert_eq!(samples.reps, vec![14, 10, 12]);
}
