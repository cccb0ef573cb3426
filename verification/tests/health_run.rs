use fallow_cli::runtime_coverage::{
    RuntimeCoverageConfidence, RuntimeCoverageDataSource, RuntimeCoverageEvidence,
    RuntimeCoverageFinding, RuntimeCoverageReport, RuntimeCoverageReportVerdict,
    RuntimeCoverageSummary, RuntimeCoverageVerdict,
};
use fallow_cli::health_run::{
    build_health_summary, health_exit_code, SeverityCounts,
    count_severities, keep_top, plan_health_run, report_sections, retain_in_workspaces,
    scope_and_rank_findings, HealthRunFlags, ReportFlags, RuleSeverity,
};
use fallow_cli::health_types::SortBy;
use fallow_cli::scores::{CoverageModel, ExceededThreshold, FindingSeverity, HealthFinding};

fn finding(path: &str, name: &str, cyclomatic: u16, severity: FindingSeverity) -> HealthFinding {
    HealthFinding {
        path: path.to_string(),
        name: name.to_string(),
        line: 1,
        col: 0,
        cyclomatic,
        cognitive: 0,
        line_count: 10,
        param_count: 0,
        exceeded: ExceededThreshold::Cyclomatic,
        severity,
    }
}

fn flags() -> HealthRunFlags {
    HealthRunFlags {
        max_cyclomatic: None,
        max_cognitive: None,
        coverage_gaps: false,
        config_activates_coverage_gaps: false,
        enforce_coverage_gap_gate: false,
        file_scores: false,
        hotspots: false,
        targets: false,
        force_full: false,
        score: false,
    }
}

fn names(v: &[HealthFinding]) -> Vec<&str> {
    v.iter().map(|f| f.name.as_str()).collect()
}

#[test]
fn plan_uses_config_thresholds_without_overrides() {
    let plan = plan_health_run(&flags(), 20, 15, RuleSeverity::Off);
    assert_eq!(plan.max_cyclomatic, 20);
    assert_eq!(plan.max_cognitive, 15);
    assert!(!plan.needs_file_scores);
    assert!(!plan.needs_churn);
    assert!(!plan.report_coverage_gaps);
}

#[test]
fn plan_cli_thresholds_override_config() {
    let f = HealthRunFlags { max_cyclomatic: Some(5), max_cognitive: Some(7), ..flags() };
    let plan = plan_health_run(&f, 20, 15, RuleSeverity::Warn);
    assert_eq!(plan.max_cyclomatic, 5);
    assert_eq!(plan.max_cognitive, 7);
}

#[test]
fn plan_config_severity_activates_coverage_gaps_only_when_allowed() {
    let f = HealthRunFlags { config_activates_coverage_gaps: true, ..flags() };
    assert!(plan_health_run(&f, 20, 15, RuleSeverity::Warn).report_coverage_gaps);
    assert!(!plan_health_run(&f, 20, 15, RuleSeverity::Off).report_coverage_gaps);
    assert!(!plan_health_run(&flags(), 20, 15, RuleSeverity::Error).report_coverage_gaps);
}

#[test]
fn plan_enforces_coverage_gaps_only_on_error_severity() {
    let f = HealthRunFlags { enforce_coverage_gap_gate: true, ..flags() };
    let plan = plan_health_run(&f, 20, 15, RuleSeverity::Error);
    assert!(plan.enforce_coverage_gaps);
    assert!(plan.needs_file_scores);
    assert!(!plan_health_run(&f, 20, 15, RuleSeverity::Warn).enforce_coverage_gaps);
}

#[test]
fn plan_hotspots_need_churn_and_file_scores() {
    let f = HealthRunFlags { hotspots: true, score: true, ..flags() };
    let plan = plan_health_run(&f, 20, 15, RuleSeverity::Off);
    assert!(plan.needs_churn);
    assert!(plan.needs_file_scores);
    assert!(plan.measure_duplication);
}

#[test]
fn severity_counts_partition_findings() {
    let v = vec![
        finding("a.ts", "a", 30, FindingSeverity::Critical),
        finding("b.ts", "b", 25, FindingSeverity::High),
        finding("c.ts", "c", 22, FindingSeverity::High),
        finding("d.ts", "d", 21, FindingSeverity::Moderate),
    ];
    let c = count_severities(&v);
    assert_eq!((c.critical, c.high, c.moderate), (1, 2, 1));
    assert_eq!(c.critical + c.high + c.moderate, v.len());
}

#[test]
fn retain_keeps_findings_under_workspace_roots() {
    let mut v = vec![
        finding("/repo/packages/a/x.ts", "x", 30, FindingSeverity::Critical),
        finding("/repo/packages/ab/y.ts", "y", 30, FindingSeverity::Critical),
        finding("/repo/packages/b/z.ts", "z", 30, FindingSeverity::Critical),
    ];
    let roots = vec!["/repo/packages/a".to_string(), "/repo/packages/b".to_string()];
    retain_in_workspaces(&mut v, Some(&roots));
    assert_eq!(names(&v), vec!["x", "z"]);
}

#[test]
fn retain_without_workspaces_keeps_everything() {
    let mut v = vec![finding("a.ts", "a", 30, FindingSeverity::High)];
    retain_in_workspaces(&mut v, None);
    assert_eq!(v.len(), 1);
}

#[test]
fn scope_and_rank_sorts_stably_and_counts() {
    let mut v = vec![
        finding("/r/w/a.ts", "low", 21, FindingSeverity::Moderate),
        finding("/r/w/b.ts", "first_high", 40, FindingSeverity::Critical),
        finding("/r/other/c.ts", "outside", 99, FindingSeverity::Critical),
        finding("/r/w/d.ts", "second_high", 40, FindingSeverity::Critical),
    ];
    let roots = vec!["/r/w".to_string()];
    let c = scope_and_rank_findings(&mut v, Some(&roots), &SortBy::Cyclomatic);
    assert_eq!(names(&v), vec!["first_high", "second_high", "low"]);
    assert_eq!((c.critical, c.high, c.moderate), (2, 0, 1));
}

#[test]
fn keep_top_truncates_only_with_a_limit() {
    let mut v = vec![
        finding("a.ts", "a", 30, FindingSeverity::High),
        finding("b.ts", "b", 30, FindingSeverity::High),
        finding("c.ts", "c", 30, FindingSeverity::High),
    ];
    keep_top(&mut v, None);
    assert_eq!(v.len(), 3);
    keep_top(&mut v, Some(5));
    assert_eq!(v.len(), 3);
    keep_top(&mut v, Some(2));
    assert_eq!(names(&v), vec!["a", "b"]);
}

fn report_flags() -> ReportFlags {
    ReportFlags {
        score_only_output: false,
        complexity: true,
        file_scores: false,
        hotspots: false,
        targets: false,
        top: None,
    }
}

#[test]
fn score_only_report_drops_detail_sections() {
    let f = ReportFlags { score_only_output: true, file_scores: true, hotspots: true, ..report_flags() };
    let s = report_sections(&f, true, true);
    assert!(s.findings);
    assert!(!s.file_scores);
    assert!(!s.coverage_gaps);
    assert!(s.hotspots);
    assert!(!s.hotspot_summary);
    assert!(!s.vital_signs);
    assert!(!s.large_functions);
    assert!(!s.targets);
    assert_eq!(s.summary_coverage_model, None);
    assert!(!s.summary_istanbul);
}

#[test]
fn report_names_coverage_model_for_file_scores() {
    let f = ReportFlags { file_scores: true, top: Some(3), ..report_flags() };
    let s = report_sections(&f, false, false);
    assert!(s.file_scores);
    assert_eq!(s.file_scores_limit, Some(3));
    assert_eq!(s.summary_coverage_model, Some(CoverageModel::StaticEstimated));
    let s = report_sections(&f, false, true);
    assert_eq!(s.summary_coverage_model, Some(CoverageModel::Istanbul));
    assert!(s.summary_istanbul);
}

#[test]
fn report_without_scored_sections_names_no_model() {
    let s = report_sections(&report_flags(), false, true);
    assert_eq!(s.summary_coverage_model, None);
    assert!(s.summary_istanbul);
    assert!(!s.hotspots);
}

#[test]
fn summary_repeats_counts_and_follows_layout() {
    let sev = SeverityCounts { critical: 1, high: 2, moderate: 3 };
    let full = report_sections(&ReportFlags { file_scores: true, ..report_flags() }, false, true);
    let s = build_health_summary(&full, 10, 40, 6, 20, 15, Some(9), 7, 8, &sev);
    assert_eq!((s.files_analyzed, s.functions_analyzed, s.functions_above_threshold), (10, 40, 6));
    assert_eq!((s.max_cyclomatic_threshold, s.max_cognitive_threshold), (20, 15));
    assert_eq!(s.files_scored, Some(9));
    assert_eq!(s.coverage_model, Some(CoverageModel::Istanbul));
    assert_eq!((s.istanbul_matched, s.istanbul_total), (Some(7), Some(8)));
    assert_eq!((s.severity_critical_count, s.severity_high_count, s.severity_moderate_count), (1, 2, 3));
    let score_only = report_sections(
        &ReportFlags { score_only_output: true, file_scores: true, ..report_flags() },
        true,
        true,
    );
    let s = build_health_summary(&score_only, 10, 40, 6, 20, 15, Some(9), 7, 8, &sev);
    assert_eq!(s.files_analyzed, 10);
    assert_eq!(s.files_scored, None);
    assert_eq!(s.coverage_model, None);
    assert_eq!((s.istanbul_matched, s.istanbul_total), (None, None));
}

fn coverage_report(verdicts: &[RuntimeCoverageVerdict]) -> RuntimeCoverageReport {
    RuntimeCoverageReport {
        verdict: RuntimeCoverageReportVerdict::Clean,
        summary: RuntimeCoverageSummary {
            data_source: RuntimeCoverageDataSource::Local,
            last_received_at: None,
            functions_tracked: 0,
            functions_hit: 0,
            functions_unhit: 0,
            functions_untracked: 0,
            trace_count: 0,
            period_days: 7,
            deployments_seen: 0,
        },
        findings: verdicts
            .iter()
            .map(|v| RuntimeCoverageFinding {
                id: "fallow:prod:00000000".to_owned(),
                path: "/p/a.ts".to_owned(),
                function: "f".to_owned(),
                line: 1,
                verdict: *v,
                invocations: None,
                confidence: RuntimeCoverageConfidence::Medium,
                evidence: RuntimeCoverageEvidence {
                    static_status: "used".to_owned(),
                    test_coverage: "not_covered".to_owned(),
                    v8_tracking: "untracked".to_owned(),
                    untracked_reason: None,
                    observation_days: 7,
                    deployments_observed: 0,
                },
                actions: vec![],
            })
            .collect(),
        hot_paths: vec![],
        watermark: None,
        warnings: vec![],
    }
}

#[test]
fn health_exit_code_rules() {
    let moderate = vec![finding("a.ts", "a", 21, FindingSeverity::Moderate)];
    assert_eq!(health_exit_code(false, &vec![], None, None, false, false), 0);
    assert_eq!(health_exit_code(true, &vec![], None, None, false, false), 1);
    assert_eq!(health_exit_code(false, &moderate, None, None, false, false), 1);
    assert_eq!(health_exit_code(false, &moderate, Some(FindingSeverity::High), None, false, false), 0);
    assert_eq!(health_exit_code(false, &moderate, Some(FindingSeverity::Moderate), None, false, false), 1);
    let active = coverage_report(&[RuntimeCoverageVerdict::Active]);
    assert_eq!(health_exit_code(false, &vec![], None, Some(&active), false, false), 0);
    let review = coverage_report(&[RuntimeCoverageVerdict::Active, RuntimeCoverageVerdict::ReviewRequired]);
    assert_eq!(health_exit_code(false, &vec![], None, Some(&review), false, false), 1);
    assert_eq!(health_exit_code(false, &vec![], None, None, true, false), 0);
    assert_eq!(health_exit_code(false, &vec![], None, None, true, true), 1);
}
