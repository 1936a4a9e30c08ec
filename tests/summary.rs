use majowuji::summary::{format_duration, BaseProgramSummary, ExerciseSummary};

#[test]
fn duration_formats() {
    assert_eq!(format_duration(45), "45с");
    assert_eq!(format_duration(60), "1м");
    assert_eq!(format_duration(90), "1м 30с");
    assert_eq!(format_duration(3600), "1ч 0м");
    assert_eq!(format_duration(3725), "1ч 2м");
    assert_eq!(format_duration(-5), "-5с");
}

#[test]
fn summary_text_layout() {
    let s = BaseProgramSummary {
        exercises: vec![
            ExerciseSummary {
                name: "тайцзи бой с тенью".to_string(),
                value: 90,
                is_timed: true,
                is_record: false,
                duration_secs: 90,
                sets: 1,
                role: Some("разминка".to_string()),
            },
            ExerciseSummary {
                name: "отжимания на кулаках".to_string(),
                value: 42,
                is_timed: false,
                is_record: true,
                duration_secs: 0,
                sets: 2,
                role: None,
            },
        ],
        new_records: vec!["отжимания на кулаках".to_string()],
        total_duration_secs: 90,
        total_sets: 3,
        muscle_balance: String::new(),
    };
    let expected = "🏆 Базовая программа выполнена!\n\n📊 Итоги тренировки:\n\n1. тайцзи бой с тенью — 1м 30с (разминка)\n2. отжимания на кулаках — 42 повт. 🏆 РЕКОРД!\n\n⏱ Общее время: 1м 30с\n💪 Всего подходов: 3\n\n👏 Отличная работа! Готов к бонусу?";
    assert_eq!(s.format(), expected);
}
