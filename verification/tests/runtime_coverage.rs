use fallow_cli::runtime_coverage::{
    cloud_finding_decision, cloud_v8_tracking, cloud_warnings, dedupe_warnings,
    match_cloud_function, merge_cloud_snapshot, normalize_runtime_path,
    parse_git_remote_to_project_id, refresh_production_coverage_verdict, runtime_actions,
    runtime_verdict_rank, stable_runtime_id, stderr_message, take_last_two_segments,
    CloudRuntimeContext, CloudRuntimeFunction, CloudRuntimeSummary, CloudRuntimeWarning,
    CloudRuntimeWindow, CloudTrackingState, RuntimeCoverageConfidence, RuntimeCoverageDataSource,
    RuntimeCoverageMessage, RuntimeCoverageReportVerdict, RuntimeCoverageVerdict,
    StaticFunctionInfo, StaticIndex, build_index_from_analysis, validate_output_format,
    OutputFormat, UnusedExportSite, apply_production_coverage_filters, RuntimeCoverageEvidence,
    RuntimeCoverageFinding, RuntimeCoverageHotPath, RuntimeCoverageReport, RuntimeCoverageSummary,
};
use fallow_cli::complexity::{FunctionComplexity, ModuleComplexity};

fn empty_summary() -> CloudRuntimeSummary {
    CloudRuntimeSummary {
        trace_count: 0,
        deployments_seen: 0,
        functions_tracked: 0,
        functions_hit: 0,
        functions_unhit: 0,
        functions_untracked: 0,
        last_received_at: None,
    }
}

fn info(path: &str, name: &str, start: u32, end: u32, used: bool) -> StaticFunctionInfo {
    StaticFunctionInfo {
        path: path.to_owned(),
        name: name.to_owned(),
        start_line: start,
        end_line: end,
        static_used: used,
        test_covered: false,
    }
}

fn cloud_fn(path: &str, name: &str, line: u32, state: CloudTrackingState, hits: Option<u64>) -> CloudRuntimeFunction {
    CloudRuntimeFunction {
        file_path: path.to_owned(),
        function_name: name.to_owned(),
        line_number: Some(line),
        start_line: Some(line),
        end_line: Some(line + 10),
        hit_count: hits,
        tracking_state: state,
        deployments_observed: 2,
        untracked_reason: None,
    }
}

#[test]
fn parse_git_remote_https() {
    assert_eq!(
        parse_git_remote_to_project_id("https://github.com/fallow-rs/fallow.git"),
        Some("fallow-rs/fallow".to_owned())
    );
}

#[test]
fn parse_git_remote_ssh() {
    assert_eq!(
        parse_git_remote_to_project_id("git@github.com:fallow-rs/fallow.git\n"),
        Some("fallow-rs/fallow".to_owned())
    );
}

#[test]
fn parse_git_remote_strips_repeated_git_suffix_and_keeps_last_two() {
    assert_eq!(
        parse_git_remote_to_project_id("ssh://git@host:2222/group/sub/repo.git.git"),
        Some("sub/repo".to_owned())
    );
}

#[test]
fn parse_git_remote_without_owner_is_none() {
    assert_eq!(parse_git_remote_to_project_id("repo"), None);
    assert_eq!(parse_git_remote_to_project_id("https://repo"), None);
    assert_eq!(parse_git_remote_to_project_id("https://host/repo"), Some("host/repo".to_owned()));
}

#[test]
fn take_last_two_segments_skips_empty_segments() {
    assert_eq!(take_last_two_segments("//a//b/c/"), Some("b/c".to_owned()));
    assert_eq!(take_last_two_segments("/only/"), None);
}

#[test]
fn normalize_runtime_path_strips_leading_slashes_and_backslashes() {
    assert_eq!(normalize_runtime_path("//src\\lib\\a.ts"), "src/lib/a.ts");
    assert_eq!(normalize_runtime_path("src/a.ts"), "src/a.ts");
}

#[test]
fn cloud_never_called_static_used_emits_review_runtime_action() {
    let actions = runtime_actions(RuntimeCoverageVerdict::ReviewRequired);
    assert_eq!(actions.len(), 1);
    assert_eq!(actions[0].kind, "review-runtime");
}

#[test]
fn runtime_actions_for_every_verdict() {
    let delete = runtime_actions(RuntimeCoverageVerdict::SafeToDelete);
    assert_eq!(delete.len(), 1);
    assert_eq!(delete[0].kind, "delete-cold-code");
    assert_eq!(delete[0].description, "Remove cold code after confirming ownership.");
    assert!(!delete[0].auto_fixable);
    for v in [
        RuntimeCoverageVerdict::CoverageUnavailable,
        RuntimeCoverageVerdict::LowTraffic,
        RuntimeCoverageVerdict::Active,
        RuntimeCoverageVerdict::Unknown,
    ] {
        assert!(runtime_actions(v).is_empty());
    }
}

#[test]
fn runtime_verdict_rank_orders_actionable_first() {
    assert_eq!(runtime_verdict_rank(RuntimeCoverageVerdict::SafeToDelete), 0);
    assert_eq!(runtime_verdict_rank(RuntimeCoverageVerdict::ReviewRequired), 1);
    assert_eq!(runtime_verdict_rank(RuntimeCoverageVerdict::CoverageUnavailable), 2);
    assert_eq!(runtime_verdict_rank(RuntimeCoverageVerdict::LowTraffic), 3);
    assert_eq!(runtime_verdict_rank(RuntimeCoverageVerdict::Unknown), 4);
    assert_eq!(runtime_verdict_rank(RuntimeCoverageVerdict::Active), 5);
}

#[test]
fn v8_tracking_labels() {
    assert_eq!(cloud_v8_tracking(CloudTrackingState::Called), "tracked");
    assert_eq!(cloud_v8_tracking(CloudTrackingState::NeverCalled), "tracked");
    assert_eq!(cloud_v8_tracking(CloudTrackingState::Untracked), "untracked");
    assert_eq!(cloud_v8_tracking(CloudTrackingState::Unknown), "untracked");
}

#[test]
fn finding_decision_by_tracking_state() {
    let used = info("src/a.ts", "f", 1, 5, true);
    let unused = info("src/a.ts", "f", 1, 5, false);
    let never = cloud_fn("src/a.ts", "f", 1, CloudTrackingState::NeverCalled, Some(0));
    assert_eq!(
        cloud_finding_decision(&never, &used),
        (RuntimeCoverageVerdict::ReviewRequired, RuntimeCoverageConfidence::High, Some(0))
    );
    assert_eq!(
        cloud_finding_decision(&never, &unused),
        (RuntimeCoverageVerdict::SafeToDelete, RuntimeCoverageConfidence::High, Some(0))
    );
    let untracked = cloud_fn("src/a.ts", "f", 1, CloudTrackingState::Untracked, Some(7));
    assert_eq!(
        cloud_finding_decision(&untracked, &unused),
        (RuntimeCoverageVerdict::CoverageUnavailable, RuntimeCoverageConfidence::Absent, None)
    );
    let unknown = cloud_fn("src/a.ts", "f", 1, CloudTrackingState::Unknown, Some(7));
    assert_eq!(
        cloud_finding_decision(&unknown, &unused),
        (RuntimeCoverageVerdict::Unknown, RuntimeCoverageConfidence::Low, Some(7))
    );
}

#[test]
fn cloud_warnings_dedupe_server_and_cli_no_runtime_data() {
    let snapshot = CloudRuntimeContext {
        repo: "nonexistent-repo".to_owned(),
        window: CloudRuntimeWindow { period_days: 30 },
        summary: empty_summary(),
        functions: vec![],
        warnings: vec![CloudRuntimeWarning::Object {
            code: Some("no_runtime_data".to_owned()),
            message: Some(
                "No runtime coverage data received for nonexistent-repo in the last 30 days."
                    .to_owned(),
            ),
        }],
    };
    let warnings = cloud_warnings(&snapshot, 0);
    let no_data_count = warnings
        .iter()
        .filter(|w| w.code == "no_runtime_data")
        .count();
    assert_eq!(
        no_data_count, 1,
        "expected exactly one no_runtime_data warning, got: {warnings:?}"
    );
}

#[test]
fn cloud_warnings_dedupe_when_server_message_includes_project_id() {
    let snapshot = CloudRuntimeContext {
        repo: "fallow-cloud".to_owned(),
        window: CloudRuntimeWindow { period_days: 30 },
        summary: empty_summary(),
        functions: vec![],
        warnings: vec![CloudRuntimeWarning::Object {
            code: Some("no_runtime_data".to_owned()),
            message: Some(
                "No runtime coverage data received for apps/dashboard in fallow-cloud in the last 30 days.".to_owned(),
            ),
        }],
    };
    let warnings = cloud_warnings(&snapshot, 0);
    let no_data_count = warnings
        .iter()
        .filter(|w| w.code == "no_runtime_data")
        .count();
    assert_eq!(
        no_data_count, 1,
        "expected exactly one no_runtime_data warning, got: {warnings:?}"
    );
}

#[test]
fn cloud_warnings_synthesizes_empty_window_and_unmatched() {
    let snapshot = CloudRuntimeContext {
        repo: "  ".to_owned(),
        window: CloudRuntimeWindow { period_days: 7 },
        summary: empty_summary(),
        functions: vec![],
        warnings: vec![
            CloudRuntimeWarning::Message("first".to_owned()),
            CloudRuntimeWarning::Object { code: None, message: None },
        ],
    };
    let warnings = cloud_warnings(&snapshot, 3);
    let pairs: Vec<(String, String)> =
        warnings.iter().map(|w| (w.code.clone(), w.message.clone())).collect();
    assert_eq!(
        pairs,
        vec![
            ("cloud_warning_0".to_owned(), "first".to_owned()),
            ("cloud_warning_1".to_owned(), String::new()),
            (
                "no_runtime_data".to_owned(),
                "No runtime coverage data received for this repository in the last 7 days."
                    .to_owned()
            ),
            (
                "cloud_functions_unmatched".to_owned(),
                "3 cloud runtime function(s) were not matched in the local AST/static analysis and were omitted from findings.".to_owned()
            ),
        ]
    );
}

#[test]
fn dedupe_warnings_keeps_first_of_each_pair() {
    let m = |c: &str, t: &str| RuntimeCoverageMessage { code: c.to_owned(), message: t.to_owned() };
    let out = dedupe_warnings(vec![m("a", "x"), m("b", "y"), m("a", "x"), m("a", "z")]);
    let pairs: Vec<(String, String)> =
        out.iter().map(|w| (w.code.clone(), w.message.clone())).collect();
    assert_eq!(
        pairs,
        vec![
            ("a".to_owned(), "x".to_owned()),
            ("b".to_owned(), "y".to_owned()),
            ("a".to_owned(), "z".to_owned()),
        ]
    );
}

#[test]
fn stable_runtime_id_emits_eight_hex_chars() {
    let id = stable_runtime_id("prod", "src/foo.ts", "doThing", 42);
    let suffix = id
        .strip_prefix("fallow:prod:")
        .expect("id has fallow:prod: prefix");
    assert_eq!(suffix.len(), 8, "expected 8 hex chars, got {suffix:?}");
    assert!(
        suffix
            .chars()
            .all(|c| c.is_ascii_hexdigit() && !c.is_ascii_uppercase()),
        "expected lowercase hex chars, got {suffix:?}"
    );
}

#[test]
fn stable_runtime_id_hashes_normalized_input() {
    let expected = xxhash_rust::xxh3::xxh3_64("prod:src/foo.ts:doThing:42".as_bytes()) & 0xFFFF_FFFF;
    assert_eq!(
        stable_runtime_id("prod", "/src\\foo.ts", "doThing", 42),
        format!("fallow:prod:{expected:08x}")
    );
    assert_ne!(
        stable_runtime_id("prod", "src/foo.ts", "doThing", 42),
        stable_runtime_id("hot", "src/foo.ts", "doThing", 42)
    );
}

#[test]
fn match_prefers_exact_then_near_then_first() {
    let index = StaticIndex {
        functions: vec![
            info("src/a.ts", "f", 100, 120, true),
            info("src/a.ts", "f", 12, 19, true),
            info("src/a.ts", "f", 10, 20, false),
        ],
    };
    let exact = cloud_fn("/src/a.ts", "f", 10, CloudTrackingState::Called, Some(1));
    assert_eq!(match_cloud_function(&exact, &index).unwrap().end_line, 20);
    let near = cloud_fn("src/a.ts", "f", 14, CloudTrackingState::Called, Some(1));
    assert_eq!(match_cloud_function(&near, &index).unwrap().start_line, 12);
    let far = cloud_fn("src/a.ts", "f", 500, CloudTrackingState::Called, Some(1));
    assert_eq!(match_cloud_function(&far, &index).unwrap().start_line, 100);
    let other = cloud_fn("src/b.ts", "f", 10, CloudTrackingState::Called, Some(1));
    assert!(match_cloud_function(&other, &index).is_none());
}

#[test]
fn cloud_never_called_static_unused_becomes_safe_to_delete() {
    let static_index = StaticIndex { functions: vec![info("src/a.ts", "oldFlow", 10, 20, false)] };
    let snapshot = CloudRuntimeContext {
        repo: "acme/web".to_owned(),
        window: CloudRuntimeWindow { period_days: 30 },
        summary: CloudRuntimeSummary {
            trace_count: 100,
            deployments_seen: 2,
            functions_tracked: 1,
            functions_hit: 0,
            functions_unhit: 1,
            functions_untracked: 0,
            last_received_at: Some("2026-04-30T10:00:00.000Z".to_owned()),
        },
        functions: vec![
            CloudRuntimeFunction {
                file_path: "src/a.ts".to_owned(),
                function_name: "oldFlow".to_owned(),
                line_number: Some(10),
                start_line: Some(10),
                end_line: Some(20),
                hit_count: Some(0),
                tracking_state: CloudTrackingState::NeverCalled,
                deployments_observed: 2,
                untracked_reason: None,
            },
            CloudRuntimeFunction {
                file_path: "src/missing.ts".to_owned(),
                function_name: "missingInAst".to_owned(),
                line_number: Some(1),
                start_line: Some(1),
                end_line: Some(3),
                hit_count: Some(0),
                tracking_state: CloudTrackingState::NeverCalled,
                deployments_observed: 2,
                untracked_reason: None,
            },
        ],
        warnings: vec![],
    };
    let report = merge_cloud_snapshot(&snapshot, &static_index, 100);
    assert_eq!(report.findings.len(), 1);
    assert_eq!(report.findings[0].verdict, RuntimeCoverageVerdict::SafeToDelete);
    assert_eq!(report.summary.data_source, RuntimeCoverageDataSource::Cloud);
    assert_eq!(
        report.summary.last_received_at.as_deref(),
        Some("2026-04-30T10:00:00.000Z")
    );
    assert_eq!(report.summary.deployments_seen, 2);
    assert_eq!(report.findings[0].evidence.test_coverage, "not_covered");
    assert_eq!(report.findings[0].evidence.v8_tracking, "tracked");
    assert_eq!(
        report.findings[0].actions.first().map(|a| a.kind.as_str()),
        Some("delete-cold-code")
    );
    assert_eq!(
        report.warnings.first().map(|warning| warning.code.as_str()),
        Some("cloud_functions_unmatched")
    );
    assert_eq!(report.verdict, RuntimeCoverageReportVerdict::ColdCodeDetected);
}

#[test]
fn merge_sorts_findings_and_hot_paths() {
    let static_index = StaticIndex {
        functions: vec![
            info("src/b.ts", "z", 1, 2, true),
            info("src/a.ts", "y", 1, 2, false),
            info("src/a/x.ts", "w", 1, 2, true),
            info("src/a-x.ts", "w", 1, 2, true),
            info("lib/h.ts", "hot1", 1, 2, true),
            info("lib/h.ts", "hot2", 5, 6, true),
        ],
    };
    let snapshot = CloudRuntimeContext {
        repo: "acme/web".to_owned(),
        window: CloudRuntimeWindow { period_days: 14 },
        summary: CloudRuntimeSummary { trace_count: 5, ..empty_summary() },
        functions: vec![
            cloud_fn("src/b.ts", "z", 1, CloudTrackingState::NeverCalled, Some(0)),
            cloud_fn("src/a.ts", "y", 1, CloudTrackingState::NeverCalled, Some(0)),
            cloud_fn("src/a-x.ts", "w", 1, CloudTrackingState::NeverCalled, Some(0)),
            cloud_fn("src/a/x.ts", "w", 1, CloudTrackingState::NeverCalled, Some(0)),
            cloud_fn("lib/h.ts", "hot1", 1, CloudTrackingState::Called, Some(10)),
            cloud_fn("lib/h.ts", "hot2", 5, CloudTrackingState::Called, Some(50)),
            cloud_fn("lib/h.ts", "hot1", 1, CloudTrackingState::Called, Some(3)),
        ],
        warnings: vec![],
    };
    let report = merge_cloud_snapshot(&snapshot, &static_index, 5);
    let order: Vec<(String, String)> = report
        .findings
        .iter()
        .map(|f| (f.path.clone(), f.function.clone()))
        .collect();
    // SafeToDelete first; among review-required, paths compare by component.
    assert_eq!(
        order,
        vec![
            ("src/a.ts".to_owned(), "y".to_owned()),
            ("src/a/x.ts".to_owned(), "w".to_owned()),
            ("src/a-x.ts".to_owned(), "w".to_owned()),
            ("src/b.ts".to_owned(), "z".to_owned()),
        ]
    );
    let hot: Vec<(String, u64)> =
        report.hot_paths.iter().map(|h| (h.function.clone(), h.invocations)).collect();
    assert_eq!(hot, vec![("hot2".to_owned(), 50), ("hot1".to_owned(), 10)]);
    assert_eq!(report.hot_paths[0].percentile, 100);
    assert!(report.hot_paths[0].id.starts_with("fallow:hot:"));
    assert!(report.warnings.is_empty());
}

#[test]
fn refresh_verdict_priorities() {
    let static_index = StaticIndex { functions: vec![info("src/a.ts", "f", 1, 2, true)] };
    let snapshot = CloudRuntimeContext {
        repo: "acme/web".to_owned(),
        window: CloudRuntimeWindow { period_days: 14 },
        summary: CloudRuntimeSummary { trace_count: 5, ..empty_summary() },
        functions: vec![cloud_fn("src/a.ts", "f", 1, CloudTrackingState::Called, Some(9))],
        warnings: vec![],
    };
    let mut report = merge_cloud_snapshot(&snapshot, &static_index, 1);
    assert_eq!(report.verdict, RuntimeCoverageReportVerdict::Clean);
    refresh_production_coverage_verdict(&mut report, true);
    assert_eq!(report.verdict, RuntimeCoverageReportVerdict::HotPathChangesNeeded);
    refresh_production_coverage_verdict(&mut report, false);
    assert_eq!(report.verdict, RuntimeCoverageReportVerdict::Clean);
    report.verdict = RuntimeCoverageReportVerdict::LicenseExpiredGrace;
    refresh_production_coverage_verdict(&mut report, true);
    assert_eq!(report.verdict, RuntimeCoverageReportVerdict::LicenseExpiredGrace);
}

#[test]
fn stderr_message_trims_or_falls_back() {
    assert_eq!(stderr_message(b"  boom \n", "fallback"), "boom");
    assert_eq!(stderr_message(b" \n\t", "fallback"), "fallback");
    assert_eq!(stderr_message(&[0xff, b'x'], "fallback"), "\u{fffd}x");
}

#[test]
fn validate_output_format_accepts_json_and_human() {
    assert!(validate_output_format(OutputFormat::Json).is_ok());
    assert!(validate_output_format(OutputFormat::Human).is_ok());
}

#[test]
fn validate_output_format_rejects_other_formats() {
    for fmt in [
        OutputFormat::Compact,
        OutputFormat::Markdown,
        OutputFormat::Sarif,
        OutputFormat::CodeClimate,
        OutputFormat::Badge,
    ] {
        let err = validate_output_format(fmt).expect_err("must reject");
        assert!(
            err.contains("only supports --format json or --format human"),
            "rejection message must guide users; got: {err}"
        );
    }
}

#[test]
fn unsupported_format_message_names_the_format() {
    assert_eq!(
        validate_output_format(OutputFormat::Sarif),
        Err("fallow coverage analyze only supports --format json or --format human (got Sarif). Use `fallow coverage analyze --format json` and pipe to your own converter for Sarif.".to_string())
    );
}

fn measured(name: &str, line: u32, line_count: u32) -> FunctionComplexity {
    FunctionComplexity {
        name: name.to_string(),
        line,
        col: 0,
        cyclomatic: 1,
        cognitive: 0,
        line_count,
        param_count: 0,
        suppressed: false,
    }
}

#[test]
fn index_marks_functions_of_unused_files_and_exports() {
    let modules = vec![
        ModuleComplexity {
            path: Some("/repo/src/a.ts".to_string()),
            functions: vec![measured("used", 1, 3), measured("dead", 10, 2), measured("atLine", 20, 1)],
        },
        ModuleComplexity { path: None, functions: vec![measured("lost", 1, 1)] },
        ModuleComplexity {
            path: Some("/repo/src/gone.ts".to_string()),
            functions: vec![measured("any", 4, u32::MAX)],
        },
    ];
    let unused_files = vec!["/repo/src/gone.ts".to_string()];
    let unused_exports = vec![
        UnusedExportSite { path: "/repo/src/a.ts".to_string(), name: "dead".to_string(), line: 99 },
        UnusedExportSite { path: "/repo/src/a.ts".to_string(), name: "other".to_string(), line: 20 },
    ];
    let index = build_index_from_analysis("/repo", &modules, &unused_files, &unused_exports);
    let fs = &index.functions;
    assert_eq!(fs.len(), 4);
    assert_eq!(fs[0].path, "src/a.ts");
    assert_eq!((fs[0].start_line, fs[0].end_line, fs[0].static_used), (1, 4, true));
    assert!(!fs[1].static_used);
    assert!(!fs[2].static_used);
    assert_eq!(fs[3].path, "src/gone.ts");
    assert_eq!(fs[3].end_line, u32::MAX);
    assert!(!fs[3].static_used);
    assert!(fs.iter().all(|f| !f.test_covered));
}

fn fx_summary(in_scope: u64, hit: u64, unhit: u64, untracked: u64) -> RuntimeCoverageSummary {
    RuntimeCoverageSummary {
        data_source: RuntimeCoverageDataSource::Local,
        last_received_at: None,
        functions_tracked: in_scope,
        functions_hit: hit,
        functions_unhit: unhit,
        functions_untracked: untracked,
        trace_count: 512,
        period_days: 7,
        deployments_seen: 2,
    }
}

fn fx_evidence(static_status: &str, test_coverage: &str, v8_tracking: &str) -> RuntimeCoverageEvidence {
    RuntimeCoverageEvidence {
        static_status: static_status.to_owned(),
        test_coverage: test_coverage.to_owned(),
        v8_tracking: v8_tracking.to_owned(),
        untracked_reason: None,
        observation_days: 7,
        deployments_observed: 2,
    }
}

fn fx_finding(
    id: &str,
    path: &str,
    function: &str,
    line: u32,
    verdict: RuntimeCoverageVerdict,
    invocations: Option<u64>,
    confidence: RuntimeCoverageConfidence,
    tracking: &str,
) -> RuntimeCoverageFinding {
    RuntimeCoverageFinding {
        id: id.to_owned(),
        path: path.to_owned(),
        function: function.to_owned(),
        line,
        verdict,
        invocations,
        confidence,
        evidence: fx_evidence("used", "not_covered", tracking),
        actions: vec![],
    }
}

fn fx_hot(id: &str, path: &str, function: &str, line: u32, invocations: u64, percentile: u8) -> RuntimeCoverageHotPath {
    RuntimeCoverageHotPath {
        id: id.to_owned(),
        path: path.to_owned(),
        function: function.to_owned(),
        line,
        invocations,
        percentile,
        actions: vec![],
    }
}

fn fx_report(
    verdict: RuntimeCoverageReportVerdict,
    summary: RuntimeCoverageSummary,
    findings: Vec<RuntimeCoverageFinding>,
    hot_paths: Vec<RuntimeCoverageHotPath>,
) -> RuntimeCoverageReport {
    RuntimeCoverageReport { verdict, summary, findings, hot_paths, watermark: None, warnings: vec![] }
}

#[test]
fn production_coverage_top_applies_after_baseline_filtering() {
    let baseline = vec!["fallow:prod:aaaaaaaa".to_owned(), "fallow:prod:bbbbbbbb".to_owned()];
    let mut report = fx_report(
        RuntimeCoverageReportVerdict::ColdCodeDetected,
        fx_summary(3, 0, 2, 1),
        vec![
            fx_finding("fallow:prod:aaaaaaaa", "/project/src/a.ts", "alpha", 10,
                RuntimeCoverageVerdict::ReviewRequired, Some(0), RuntimeCoverageConfidence::Medium, "tracked"),
            fx_finding("fallow:prod:bbbbbbbb", "/project/src/b.ts", "beta", 20,
                RuntimeCoverageVerdict::CoverageUnavailable, None, RuntimeCoverageConfidence::Absent, "untracked"),
            fx_finding("fallow:prod:cccccccc", "/project/src/c.ts", "gamma", 30,
                RuntimeCoverageVerdict::ReviewRequired, Some(0), RuntimeCoverageConfidence::Medium, "tracked"),
        ],
        vec![
            fx_hot("fallow:hot:11111111", "/project/src/hot-a.ts", "hotAlpha", 1, 500, 99),
            fx_hot("fallow:hot:22222222", "/project/src/hot-b.ts", "hotBeta", 2, 250, 50),
        ],
    );

    apply_production_coverage_filters(&mut report, Some(&baseline), Some(1), None);

    assert_eq!(report.findings.len(), 1);
    assert_eq!(report.findings[0].function, "gamma");
    assert_eq!(report.verdict, RuntimeCoverageReportVerdict::ColdCodeDetected);
    assert_eq!(report.summary.functions_tracked, 3);
    assert_eq!(report.summary.functions_hit, 0);
    assert_eq!(report.summary.functions_unhit, 2);
    assert_eq!(report.summary.functions_untracked, 1);
    assert_eq!(report.hot_paths.len(), 1);
    assert_eq!(report.hot_paths[0].function, "hotAlpha");
}

#[test]
fn production_coverage_baseline_refreshes_to_clean_when_only_baselined_findings_remain() {
    let baseline = vec!["fallow:prod:aaaaaaaa".to_owned()];
    let mut report = fx_report(
        RuntimeCoverageReportVerdict::ColdCodeDetected,
        fx_summary(2, 1, 1, 0),
        vec![fx_finding("fallow:prod:aaaaaaaa", "/project/src/a.ts", "alpha", 10,
            RuntimeCoverageVerdict::ReviewRequired, Some(0), RuntimeCoverageConfidence::Medium, "tracked")],
        vec![],
    );

    apply_production_coverage_filters(&mut report, Some(&baseline), None, None);

    assert!(report.findings.is_empty());
    assert_eq!(report.verdict, RuntimeCoverageReportVerdict::Clean);
    assert_eq!(report.summary.functions_tracked, 2);
    assert_eq!(report.summary.functions_hit, 1);
    assert_eq!(report.summary.functions_unhit, 1);
    assert_eq!(report.summary.functions_untracked, 0);
}

#[test]
fn production_coverage_changed_review_uses_hot_path_verdict() {
    let changed_files = vec!["/project/src/hot.ts".to_owned()];
    let mut report = fx_report(
        RuntimeCoverageReportVerdict::Clean,
        fx_summary(2, 2, 0, 0),
        vec![],
        vec![fx_hot("fallow:hot:33333333", "/project/src/hot.ts", "renderHotPath", 7, 9_500, 99)],
    );

    apply_production_coverage_filters(&mut report, None, None, Some(&changed_files));

    assert_eq!(report.verdict, RuntimeCoverageReportVerdict::HotPathChangesNeeded);
}

#[test]
fn production_coverage_changed_review_ignores_unmodified_hot_paths() {
    let changed_files = vec!["/project/src/other.ts".to_owned()];
    let mut report = fx_report(
        RuntimeCoverageReportVerdict::Clean,
        fx_summary(2, 2, 0, 0),
        vec![],
        vec![fx_hot("fallow:hot:44444444", "/project/src/hot.ts", "renderHotPath", 7, 9_500, 90)],
    );

    apply_production_coverage_filters(&mut report, None, None, Some(&changed_files));

    assert!(report.hot_paths.is_empty());
    assert_eq!(report.verdict, RuntimeCoverageReportVerdict::Clean);
}
