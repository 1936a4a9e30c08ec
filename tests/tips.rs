use majowuji::tips::{format_tip, get_random_tip, get_random_tip_by_category, get_tips, TipCategory};

#[test]
fn test_tip_category_emoji_all_categories() {
    assert!(!TipCategory::Motivation.emoji().is_empty());
    assert!(!TipCategory::Nutrition.emoji().is_empty());
    assert!(!TipCategory::Training.emoji().is_empty());
    assert!(!TipCategory::Technique.emoji().is_empty());
    assert!(!TipCategory::Recovery.emoji().is_empty());
}

#[test]
fn test_tip_category_name_all_categories() {
    assert_eq!(TipCategory::Motivation.name(), "Мотивация");
    assert_eq!(TipCategory::Nutrition.name(), "Питание");
    assert_eq!(TipCategory::Training.name(), "Тренировка");
    assert_eq!(TipCategory::Technique.name(), "Техника");
    assert_eq!(TipCategory::Recovery.name(), "Восстановление");
}

#[test]
fn test_tips_not_empty() {
    let tips = get_tips();
    assert!(!tips.is_empty());
    assert!(tips.len() >= 20, "Expected at least 20 tips, got {}", tips.len());
}

#[test]
fn test_tips_count() {
    assert_eq!(get_tips().len(), 29);
}

#[test]
fn test_get_random_tip_never_panics() {
    for _ in 0..10 {
        let tip = get_random_tip();
        assert!(!tip.text.is_empty());
    }
}

#[test]
fn test_get_random_tip_by_category_returns_correct_category() {
    for category in [
        TipCategory::Motivation,
        TipCategory::Nutrition,
        TipCategory::Training,
        TipCategory::Technique,
        TipCategory::Recovery,
    ] {
        let tip = get_random_tip_by_category(category);
        assert!(tip.is_some(), "Category {:?} should have tips", category);
        assert_eq!(tip.unwrap().category, category);
    }
}

#[test]
fn test_format_tip_contains_emoji() {
    let tips = get_tips();
    let tip = &tips[0];
    let formatted = format_tip(tip);
    assert!(formatted.contains(tip.category.emoji()));
}

#[test]
fn test_format_tip_contains_category_name() {
    let tips = get_tips();
    let tip = &tips[0];
    let formatted = format_tip(tip);
    assert!(formatted.contains(tip.category.name()));
}

#[test]
fn test_format_tip_contains_text() {
    let tips = get_tips();
    let tip = &tips[0];
    let formatted = format_tip(tip);
    assert!(formatted.contains(tip.text));
}

#[test]
fn test_all_tips_have_non_empty_text() {
    for (i, tip) in get_tips().iter().enumerate() {
        assert!(!tip.text.is_empty(), "Tip {} has empty text", i);
    }
}

#[test]
fn test_tips_distribution_by_category() {
    let mut counts = std::collections::HashMap::new();
    for tip in get_tips().iter() {
        *counts.entry(tip.category).or_insert(0) += 1;
    }
    assert!(counts.get(&TipCategory::Motivation).unwrap_or(&0) >= &3, "Motivation should have at least 3 tips");
    assert!(counts.get(&TipCategory::Nutrition).unwrap_or(&0) >= &3, "Nutrition should have at least 3 tips");
    assert!(counts.get(&TipCategory::Training).unwrap_or(&0) >= &3, "Training should have at least 3 tips");
    assert!(counts.get(&TipCategory::Technique).unwrap_or(&0) >= &3, "Technique should have at least 3 tips");
    assert!(counts.get(&TipCategory::Recovery).unwrap_or(&0) >= &3, "Recovery should have at least 3 tips");
}

#[test]
fn format_tip_layout() {
    let tips = get_tips();
    let tip = &tips[0];
    let expected = format!("{} {}\n\n{}", tip.category.emoji(), tip.category.name(), tip.text);
    assert_eq!(format_tip(tip), expected);
}
