use fallow_cli::production_coverage::{
    ProductionCoverageConfidence, ProductionCoverageState, ProductionCoverageVerdict,
    ProductionCoverageWatermark,
};
use fallow_cli::sidecar::{
    convert_response, map_confidence, map_state, map_verdict, map_watermark, CallState, Confidence,
    FunctionLocation, Response, ResponseAction, ResponseFinding, ResponseHotPath, ResponseSummary,
    ResponseWarning, Verdict, Watermark,
};

fn finding(file: &str, function: &str, state: CallState, invocations: u64) -> ResponseFinding {
    ResponseFinding {
        file: file.to_owned(),
        function: function.to_owned(),
        state,
        invocations,
        confidence: Confidence::Medium,
        actions: vec![ResponseAction {
            kind: "review-deletion".to_owned(),
            description: "Remove the function.".to_owned(),
            auto_fixable: false,
        }],
    }
}

fn hot(file: &str, function: &str, invocations: u64) -> ResponseHotPath {
    ResponseHotPath { file: file.to_owned(), function: function.to_owned(), invocations }
}

#[test]
fn maps_protocol_vocabulary() {
    assert_eq!(map_state(&CallState::NeverCalled), ProductionCoverageState::NeverCalled);
    assert_eq!(map_state(&CallState::Called), ProductionCoverageState::Called);
    assert_eq!(map_confidence(&Confidence::Low), ProductionCoverageConfidence::Low);
    assert_eq!(map_verdict(&Verdict::ColdCodeDetected), ProductionCoverageVerdict::ColdCodeDetected);
    assert_eq!(
        map_watermark(&Watermark::TrialExpired),
        ProductionCoverageWatermark::TrialExpired
    );
}

#[test]
fn convert_response_drops_called_and_sorts() {
    let response = Response {
        verdict: Verdict::ColdCodeDetected,
        summary: ResponseSummary {
            functions_total: 5,
            functions_called: 2,
            functions_never_called: 2,
            functions_coverage_unavailable: 1,
        },
        findings: vec![
            finding("src/b.ts", "b", CallState::NeverCalled, 0),
            finding("src/a.ts", "called", CallState::Called, 9),
            finding("src/a.ts", "u", CallState::CoverageUnavailable, 0),
            finding("src/a.ts", "a", CallState::NeverCalled, 0),
        ],
        hot_paths: vec![hot("src/x.ts", "x", 10), hot("src/y.ts", "y", 20), hot("src/a.ts", "z", 10)],
        watermark: Some(Watermark::LicenseExpiredGrace),
        warnings: vec![ResponseWarning { code: "w".to_owned(), message: "m".to_owned() }],
    };
    let locations = vec![
        FunctionLocation { file: "src/a.ts".to_owned(), function: "a".to_owned(), line: 3 },
        FunctionLocation { file: "src/a.ts".to_owned(), function: "a".to_owned(), line: 7 },
        FunctionLocation { file: "src/y.ts".to_owned(), function: "y".to_owned(), line: 1 },
    ];
    let report = convert_response(response, &locations, None);
    let order: Vec<(&str, &str, Option<u32>)> = report
        .findings
        .iter()
        .map(|f| (f.path.as_str(), f.function.as_str(), f.line))
        .collect();
    assert_eq!(
        order,
        vec![("src/a.ts", "a", Some(7)), ("src/b.ts", "b", None), ("src/a.ts", "u", None)]
    );
    assert_eq!(report.findings[0].confidence, ProductionCoverageConfidence::Medium);
    assert_eq!(report.findings[0].actions[0].kind, "review-deletion");
    let hot: Vec<(&str, u64, Option<u32>)> = report
        .hot_paths
        .iter()
        .map(|h| (h.function.as_str(), h.invocations, h.line))
        .collect();
    assert_eq!(hot, vec![("y", 20, Some(1)), ("z", 10, None), ("x", 10, None)]);
    assert_eq!(report.verdict, ProductionCoverageVerdict::ColdCodeDetected);
    assert_eq!(report.summary.functions_total, 5);
    assert_eq!(report.watermark, Some(ProductionCoverageWatermark::LicenseExpiredGrace));
    assert_eq!(report.warnings[0].code, "w");
}

#[test]
fn explicit_watermark_wins() {
    let response = Response {
        verdict: Verdict::Clean,
        summary: ResponseSummary {
            functions_total: 0,
            functions_called: 0,
            functions_never_called: 0,
            functions_coverage_unavailable: 0,
        },
        findings: vec![],
        hot_paths: vec![],
        watermark: Some(Watermark::LicenseExpiredGrace),
        warnings: vec![],
    };
    let report = convert_response(response, &vec![], Some(ProductionCoverageWatermark::TrialExpired));
    assert_eq!(report.watermark, Some(ProductionCoverageWatermark::TrialExpired));
    assert!(report.findings.is_empty());
}
