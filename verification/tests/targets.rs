use fallow_cli::health_types::RecommendationCategory;
use fallow_cli::targets::{try_match_rules, RuleFacts};

/// The facts of a file score, with the fractional comparisons made here as
/// the caller makes them.
struct Score {
    fan_in: usize,
    fan_out: usize,
    dead_code_ratio: f64,
    complexity_density: f64,
    maintainability_index: f64,
    function_count: usize,
}

fn make_score(overrides: impl FnOnce(&mut Score)) -> Score {
    let mut s = Score {
        fan_in: 0,
        fan_out: 0,
        dead_code_ratio: 0.0,
        complexity_density: 0.0,
        maintainability_index: 100.0,
        function_count: 1,
    };
    overrides(&mut s);
    s
}

fn facts(
    score: &Score,
    hotspot: Option<(f64, bool)>,
    is_circular: bool,
    is_entry: bool,
    value_exports: usize,
) -> RuleFacts {
    RuleFacts {
        urgent_churn: hotspot.is_some_and(|(s, accelerating)| s >= 50.0 && accelerating)
            && score.complexity_density > 0.5,
        dense: score.complexity_density > 0.3,
        fan_in: score.fan_in,
        fan_out: score.fan_out,
        function_count: score.function_count,
        is_circular,
        is_entry,
        mostly_dead: score.dead_code_ratio >= 0.5,
        value_exports,
        unused_estimate: (score.dead_code_ratio * value_exports as f64).round() as usize,
        dead_percent: format!("{:.0}", score.dead_code_ratio * 100.0),
        low_maintainability: score.maintainability_index < 60.0,
    }
}

#[test]
fn rule_no_match_clean_file() {
    let score = make_score(|_| {});
    let result = try_match_rules(&facts(&score, None, false, false, 0), None);
    assert!(result.is_none());
}

#[test]
fn rule_circular_dep_high_fan_in() {
    let score = make_score(|s| s.fan_in = 5);
    let result = try_match_rules(&facts(&score, None, true, false, 0), None);
    assert!(result.is_some());
    let (cat, _) = result.unwrap();
    assert!(matches!(cat, RecommendationCategory::BreakCircularDependency));
}

#[test]
fn rule_circular_dep_low_fan_in_fallback() {
    let score = make_score(|s| s.fan_in = 1);
    let result = try_match_rules(&facts(&score, None, true, false, 0), None);
    assert!(result.is_some());
    let (cat, _) = result.unwrap();
    assert!(matches!(cat, RecommendationCategory::BreakCircularDependency));
}

#[test]
fn rule_split_high_impact() {
    let score = make_score(|s| {
        s.complexity_density = 0.5;
        s.fan_in = 20;
    });
    let result = try_match_rules(&facts(&score, None, false, false, 0), None);
    assert!(result.is_some());
    let (cat, _) = result.unwrap();
    assert!(matches!(cat, RecommendationCategory::SplitHighImpact));
}

#[test]
fn rule_remove_dead_code() {
    let score = make_score(|s| s.dead_code_ratio = 0.6);
    let result = try_match_rules(&facts(&score, None, false, false, 5), None);
    assert!(result.is_some());
    let (cat, _) = result.unwrap();
    assert!(matches!(cat, RecommendationCategory::RemoveDeadCode));
}

#[test]
fn rule_dead_code_gate_too_few_exports() {
    let score = make_score(|s| s.dead_code_ratio = 0.8);
    let result = try_match_rules(&facts(&score, None, false, false, 2), None);
    assert!(result.is_none());
}

#[test]
fn rule_extract_complex_functions() {
    let score = make_score(|_| {});
    let fns = vec![("handleSubmit".to_string(), 35u16)];
    let result = try_match_rules(&facts(&score, None, false, false, 0), Some(&fns));
    assert!(result.is_some());
    let (cat, rec) = result.unwrap();
    assert!(matches!(cat, RecommendationCategory::ExtractComplexFunctions));
    assert!(rec.contains("handleSubmit"));
}

#[test]
fn rule_extract_dependencies_not_entry() {
    let score = make_score(|s| {
        s.fan_out = 20;
        s.maintainability_index = 50.0;
    });
    let result = try_match_rules(&facts(&score, None, false, false, 0), None);
    assert!(result.is_some());
    let (cat, _) = result.unwrap();
    assert!(matches!(cat, RecommendationCategory::ExtractDependencies));
}

#[test]
fn rule_extract_dependencies_skipped_for_entry() {
    let score = make_score(|s| {
        s.fan_out = 20;
        s.maintainability_index = 50.0;
    });
    let result = try_match_rules(&facts(&score, None, false, true, 0), None);
    assert!(result.is_none());
}

#[test]
fn rule_urgent_churn_complexity() {
    let score = make_score(|s| s.complexity_density = 0.8);
    let result = try_match_rules(&facts(&score, Some((60.0, true)), false, false, 0), None);
    assert!(result.is_some());
    let (cat, _) = result.unwrap();
    assert!(matches!(cat, RecommendationCategory::UrgentChurnComplexity));
}

#[test]
fn rule_messages_are_exact() {
    let score = make_score(|s| s.fan_in = 7);
    let (_, rec) = try_match_rules(&facts(&score, None, true, false, 0), None).unwrap();
    assert_eq!(
        rec,
        "Break import cycle \u{2014} 7 files depend on this, changes cascade through the cycle"
    );

    let score = make_score(|s| s.dead_code_ratio = 0.6);
    let (_, rec) = try_match_rules(&facts(&score, None, false, false, 5), None).unwrap();
    assert_eq!(rec, "Remove 3 unused exports to reduce surface area (60% dead)");

    let score = make_score(|s| {
        s.fan_out = 16;
        s.maintainability_index = 40.0;
    });
    let (_, rec) = try_match_rules(&facts(&score, None, false, false, 0), None).unwrap();
    assert_eq!(rec, "Reduce coupling \u{2014} this file imports 16 modules, limiting testability");
}

#[test]
fn rule_extract_names_the_first_two_complex_functions() {
    let score = make_score(|_| {});
    let fns = vec![
        ("simple".to_string(), 12u16),
        ("first".to_string(), 45u16),
        ("second".to_string(), 31u16),
        ("third".to_string(), 30u16),
    ];
    let (_, rec) = try_match_rules(&facts(&score, None, false, false, 0), Some(&fns)).unwrap();
    assert_eq!(
        rec,
        "Extract first (cognitive: 45) and second (cognitive: 31) into smaller functions"
    );
}

#[test]
fn rule_priority_prefers_cycle_over_split() {
    let score = make_score(|s| {
        s.complexity_density = 0.9;
        s.fan_in = 25;
    });
    let (cat, _) = try_match_rules(&facts(&score, None, true, false, 0), None).unwrap();
    assert!(matches!(cat, RecommendationCategory::BreakCircularDependency));
}

#[test]
fn rule_split_with_ten_dependents_needs_five_functions() {
    let score = make_score(|s| {
        s.complexity_density = 0.4;
        s.fan_in = 10;
        s.function_count = 4;
    });
    assert!(try_match_rules(&facts(&score, None, false, false, 0), None).is_none());
    let score = make_score(|s| {
        s.complexity_density = 0.4;
        s.fan_in = 10;
        s.function_count = 5;
    });
    let (cat, _) = try_match_rules(&facts(&score, None, false, false, 0), None).unwrap();
    assert!(matches!(cat, RecommendationCategory::SplitHighImpact));
}
