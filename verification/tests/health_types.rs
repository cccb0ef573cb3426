use fallow_cli::health_types::{sort_findings, RecommendationCategory, SortBy};
use fallow_cli::production_coverage::{
    state_rank, ProductionCoverageConfidence, ProductionCoverageState, ProductionCoverageVerdict,
    ProductionCoverageWatermark,
};
use fallow_cli::scores::{
    compute_finding_severity, FindingSeverity, HealthFinding, ExceededThreshold,
    HOTSPOT_SCORE_THRESHOLD,
};

#[test]
fn category_labels_are_non_empty() {
    let categories = [
        RecommendationCategory::UrgentChurnComplexity,
        RecommendationCategory::BreakCircularDependency,
        RecommendationCategory::SplitHighImpact,
        RecommendationCategory::RemoveDeadCode,
        RecommendationCategory::ExtractComplexFunctions,
        RecommendationCategory::ExtractDependencies,
    ];
    for cat in &categories {
        assert!(!cat.label().is_empty(), "{cat:?} should have a label");
    }
}

#[test]
fn category_labels_are_unique() {
    let categories = [
        RecommendationCategory::UrgentChurnComplexity,
        RecommendationCategory::BreakCircularDependency,
        RecommendationCategory::SplitHighImpact,
        RecommendationCategory::RemoveDeadCode,
        RecommendationCategory::ExtractComplexFunctions,
        RecommendationCategory::ExtractDependencies,
    ];
    let labels: Vec<&str> = categories.iter().map(|c| c.label()).collect();
    let unique: std::collections::HashSet<&&str> = labels.iter().collect();
    assert_eq!(labels.len(), unique.len(), "category labels must be unique");
}

#[test]
fn category_label_values() {
    assert_eq!(RecommendationCategory::UrgentChurnComplexity.label(), "churn+complexity");
    assert_eq!(RecommendationCategory::ExtractDependencies.label(), "coupling");
}

#[test]
fn verdict_display_matches_kebab_case_serde() {
    assert_eq!(ProductionCoverageVerdict::Clean.as_str(), "clean");
    assert_eq!(
        ProductionCoverageVerdict::HotPathChangesNeeded.as_str(),
        "hot-path-changes-needed",
    );
    assert_eq!(
        ProductionCoverageVerdict::ColdCodeDetected.as_str(),
        "cold-code-detected",
    );
    assert_eq!(
        ProductionCoverageVerdict::LicenseExpiredGrace.as_str(),
        "license-expired-grace",
    );
    assert_eq!(ProductionCoverageVerdict::Unknown.as_str(), "unknown");
}

#[test]
fn state_display_matches_kebab_case_serde() {
    assert_eq!(ProductionCoverageState::Called.as_str(), "called");
    assert_eq!(ProductionCoverageState::NeverCalled.as_str(), "never-called");
    assert_eq!(
        ProductionCoverageState::CoverageUnavailable.as_str(),
        "coverage-unavailable",
    );
}

#[test]
fn confidence_display_matches_kebab_case_serde() {
    assert_eq!(ProductionCoverageConfidence::High.as_str(), "high");
    assert_eq!(ProductionCoverageConfidence::Medium.as_str(), "medium");
    assert_eq!(ProductionCoverageConfidence::Low.as_str(), "low");
    assert_eq!(ProductionCoverageConfidence::Unknown.as_str(), "unknown");
}

#[test]
fn watermark_display_matches_kebab_case_serde() {
    assert_eq!(ProductionCoverageWatermark::TrialExpired.as_str(), "trial-expired");
    assert_eq!(
        ProductionCoverageWatermark::LicenseExpiredGrace.as_str(),
        "license-expired-grace",
    );
}

#[test]
fn default_verdict_is_unknown() {
    assert_eq!(ProductionCoverageVerdict::default(), ProductionCoverageVerdict::Unknown);
}

#[test]
fn state_rank_orders_never_called_first() {
    assert_eq!(state_rank(ProductionCoverageState::NeverCalled), 0);
    assert_eq!(state_rank(ProductionCoverageState::CoverageUnavailable), 1);
    assert_eq!(state_rank(ProductionCoverageState::Called), 2);
    assert_eq!(state_rank(ProductionCoverageState::Unknown), 3);
}

#[test]
fn hotspot_score_threshold_is_50() {
    assert!((f64::from(HOTSPOT_SCORE_THRESHOLD) - 50.0).abs() < f64::EPSILON);
}

#[test]
fn finding_severity_ordering() {
    assert!(FindingSeverity::Moderate < FindingSeverity::High);
    assert!(FindingSeverity::High < FindingSeverity::Critical);
    assert!(FindingSeverity::Moderate.rank() < FindingSeverity::High.rank());
    assert!(FindingSeverity::High.rank() < FindingSeverity::Critical.rank());
}

#[test]
fn compute_severity_moderate_when_below_high_thresholds() {
    let severity = compute_finding_severity(20, 25, 25, 40, 30, 50);
    assert_eq!(severity, FindingSeverity::Moderate);
}

#[test]
fn compute_severity_high_from_cognitive() {
    let severity = compute_finding_severity(25, 20, 25, 40, 30, 50);
    assert_eq!(severity, FindingSeverity::High);
}

#[test]
fn compute_severity_high_from_cyclomatic() {
    let severity = compute_finding_severity(20, 30, 25, 40, 30, 50);
    assert_eq!(severity, FindingSeverity::High);
}

#[test]
fn compute_severity_critical_from_cognitive() {
    let severity = compute_finding_severity(40, 20, 25, 40, 30, 50);
    assert_eq!(severity, FindingSeverity::Critical);
}

#[test]
fn compute_severity_critical_from_cyclomatic() {
    let severity = compute_finding_severity(20, 50, 25, 40, 30, 50);
    assert_eq!(severity, FindingSeverity::Critical);
}

#[test]
fn compute_severity_uses_highest_across_dimensions() {
    let severity = compute_finding_severity(45, 20, 25, 40, 30, 50);
    assert_eq!(severity, FindingSeverity::Critical);
}

#[test]
fn compute_severity_at_exact_boundaries() {
    let severity = compute_finding_severity(25, 30, 25, 40, 30, 50);
    assert_eq!(severity, FindingSeverity::High);

    let severity = compute_finding_severity(24, 29, 25, 40, 30, 50);
    assert_eq!(severity, FindingSeverity::Moderate);

    let severity = compute_finding_severity(40, 50, 25, 40, 30, 50);
    assert_eq!(severity, FindingSeverity::Critical);
}

fn finding(name: &str, cyclomatic: u16, cognitive: u16, line_count: u32) -> HealthFinding {
    HealthFinding {
        path: "src/a.ts".to_owned(),
        name: name.to_owned(),
        line: 1,
        col: 0,
        cyclomatic,
        cognitive,
        line_count,
        param_count: 0,
        exceeded: ExceededThreshold::Both,
        severity: FindingSeverity::High,
    }
}

#[test]
fn sort_findings_is_descending_and_stable() {
    let mut findings = vec![
        finding("a", 10, 5, 100),
        finding("b", 30, 5, 10),
        finding("c", 10, 9, 50),
        finding("d", 30, 1, 10),
    ];
    sort_findings(&mut findings, &SortBy::Cyclomatic);
    let names: Vec<&str> = findings.iter().map(|f| f.name.as_str()).collect();
    assert_eq!(names, vec!["b", "d", "a", "c"]);
    sort_findings(&mut findings, &SortBy::Lines);
    let names: Vec<&str> = findings.iter().map(|f| f.name.as_str()).collect();
    assert_eq!(names, vec!["a", "c", "b", "d"]);
    sort_findings(&mut findings, &SortBy::Cognitive);
    let names: Vec<&str> = findings.iter().map(|f| f.name.as_str()).collect();
    assert_eq!(names, vec!["c", "a", "b", "d"]);
}
