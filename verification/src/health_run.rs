//! The decisions of a health run: which thresholds apply, which sections are
//! computed, and how the complexity findings are scoped, ranked and counted.
use vstd::prelude::*;
use crate::complexity::{under_any_root, under_some_root};
use crate::health_types::{sort_findings, sorted_desc, with_key, SortBy};
use crate::scores::{severity_rank, CoverageModel, FindingSeverity, HealthFinding};
use crate::runtime_coverage::{RuntimeCoverageReport, RuntimeCoverageVerdict};

verus! {

/// The severity a config file gives a rule.
#[derive(Debug, Clone, Copy, PartialEq, Eq, Structural)]
pub enum RuleSeverity {
    Error,
    Warn,
    Off,
}

/// What the command line asked of a health run.
#[derive(Debug, Clone, Copy)]
pub struct HealthRunFlags {
    /// `--max-cyclomatic`, overriding the config.
    pub max_cyclomatic: Option<u16>,
    /// `--max-cognitive`, overriding the config.
    pub max_cognitive: Option<u16>,
    /// The coverage-gaps section was asked for explicitly.
    pub coverage_gaps: bool,
    /// No section was chosen, so the config's severity may turn coverage gaps on.
    pub config_activates_coverage_gaps: bool,
    /// The caller lets coverage gaps fail the command.
    pub enforce_coverage_gap_gate: bool,
    /// File scores were asked for.
    pub file_scores: bool,
    /// Hotspots were asked for.
    pub hotspots: bool,
    /// Refactoring targets were asked for.
    pub targets: bool,
    /// Every section is computed.
    pub force_full: bool,
    /// A health score was asked for.
    pub score: bool,
}

/// The thresholds and the work a health run does.
#[derive(Debug, Clone, Copy, PartialEq, Eq, Structural)]
pub struct HealthPlan {
    pub max_cyclomatic: u16,
    pub max_cognitive: u16,
    /// Coverage gaps appear in the report.
    pub report_coverage_gaps: bool,
    /// Coverage gaps fail the command.
    pub enforce_coverage_gaps: bool,
    /// File health scores are computed.
    pub needs_file_scores: bool,
    /// Git churn is fetched (for hotspots and targets).
    pub needs_churn: bool,
    /// Duplication is measured (for the health score).
    pub measure_duplication: bool,
}

/// A command-line value when given, else the config's.
pub open spec fn override_or(cli: Option<u16>, config: u16) -> u16 {
    match cli {
        Some(v) => v,
        None => config,
    }
}

/// The plan of a health run: command-line thresholds override the config;
/// coverage gaps are reported when asked for, or when the config turns the
/// rule on and no section was chosen; they fail the run only when the caller
/// allows it and the config makes the rule an error; file scores are computed
/// for every section that reads them, churn for hotspots and targets.
pub open spec fn health_plan(
    f: HealthRunFlags,
    config_max_cyclomatic: u16,
    config_max_cognitive: u16,
    coverage_gaps: RuleSeverity,
) -> HealthPlan {
    let report = f.coverage_gaps || (f.config_activates_coverage_gaps && coverage_gaps
        != RuleSeverity::Off);
    let enforce = f.enforce_coverage_gap_gate && coverage_gaps == RuleSeverity::Error;
    HealthPlan {
        max_cyclomatic: override_or(f.max_cyclomatic, config_max_cyclomatic),
        max_cognitive: override_or(f.max_cognitive, config_max_cognitive),
        report_coverage_gaps: report,
        enforce_coverage_gaps: enforce,
        needs_file_scores: f.file_scores || report || enforce || f.hotspots || f.targets
            || f.force_full,
        needs_churn: f.hotspots || f.targets || f.force_full,
        measure_duplication: f.score,
    }
}

/// Decide the thresholds and the sections of a health run.
pub fn plan_health_run(
    flags: &HealthRunFlags,
    config_max_cyclomatic: u16,
    config_max_cognitive: u16,
    coverage_gaps: RuleSeverity,
) -> (r: HealthPlan)
    ensures
        r == health_plan(*flags, config_max_cyclomatic, config_max_cognitive, coverage_gaps),
        r.enforce_coverage_gaps ==> r.needs_file_scores,
        r.report_coverage_gaps ==> r.needs_file_scores,
        r.needs_churn ==> r.needs_file_scores,
{
    let max_cyclomatic = match flags.max_cyclomatic {
        Some(v) => v,
        None => config_max_cyclomatic,
    };
    let max_cognitive = match flags.max_cognitive {
        Some(v) => v,
        None => config_max_cognitive,
    };
    let rule_on = match coverage_gaps {
        RuleSeverity::Off => false,
        _ => true,
    };
    let rule_error = match coverage_gaps {
        RuleSeverity::Error => true,
        _ => false,
    };
    let report = flags.coverage_gaps || (flags.config_activates_coverage_gaps && rule_on);
    let enforce = flags.enforce_coverage_gap_gate && rule_error;
    let needs_churn = flags.hotspots || flags.targets || flags.force_full;
    HealthPlan {
        max_cyclomatic,
        max_cognitive,
        report_coverage_gaps: report,
        enforce_coverage_gaps: enforce,
        needs_file_scores: flags.file_scores || report || enforce || needs_churn,
        needs_churn,
        measure_duplication: flags.score,
    }
}

/// Number of findings of `s` with severity `t`.
pub open spec fn tier_count(s: Seq<HealthFinding>, t: FindingSeverity) -> nat
    decreases s.len(),
{
    if s.len() == 0 {
        0
    } else {
        tier_count(s.drop_last(), t) + if s.last().severity == t {
            1nat
        } else {
            0nat
        }
    }
}

/// How many findings fall in each severity tier.
#[derive(Debug, Clone, Copy, PartialEq, Eq, Structural)]
pub struct SeverityCounts {
    pub critical: usize,
    pub high: usize,
    pub moderate: usize,
}

/// Every finding is in exactly one tier.
pub proof fn lemma_tiers_partition(s: Seq<HealthFinding>)
    ensures
        tier_count(s, FindingSeverity::Critical) + tier_count(s, FindingSeverity::High)
            + tier_count(s, FindingSeverity::Moderate) == s.len(),
    decreases s.len(),
{
    if s.len() > 0 {
        lemma_tiers_partition(s.drop_last());
    }
}

/// Count the findings in each severity tier.
pub fn count_severities(findings: &Vec<HealthFinding>) -> (r: SeverityCounts)
    ensures
        r.critical == tier_count(findings@, FindingSeverity::Critical),
        r.high == tier_count(findings@, FindingSeverity::High),
        r.moderate == tier_count(findings@, FindingSeverity::Moderate),
{
    let mut c = SeverityCounts { critical: 0, high: 0, moderate: 0 };
    let mut i: usize = 0;
    while i < findings.len()
        invariant
            i <= findings@.len(),
            c.critical == tier_count(findings@.take(i as int), FindingSeverity::Critical),
            c.high == tier_count(findings@.take(i as int), FindingSeverity::High),
            c.moderate == tier_count(findings@.take(i as int), FindingSeverity::Moderate),
        decreases findings.len() - i,
    {
        proof {
            let t = findings@.take(i + 1);
            assert(t.drop_last() =~= findings@.take(i as int));
            assert(t.last() == findings@[i as int]);
            lemma_tiers_partition(findings@.take(i as int));
        }
        match findings[i].severity {
            FindingSeverity::Critical => c.critical = c.critical + 1,
            FindingSeverity::High => c.high = c.high + 1,
            FindingSeverity::Moderate => c.moderate = c.moderate + 1,
        }
        i = i + 1;
    }
    proof {
        assert(findings@.take(findings@.len() as int) =~= findings@);
    }
    c
}

/// Whether a finding lies in one of the selected workspaces (all do when
/// no workspace is selected).
pub open spec fn in_workspaces(f: HealthFinding, roots: Option<Seq<String>>) -> bool {
    match roots {
        None => true,
        Some(rs) => under_some_root(f.path@, rs),
    }
}

/// The findings of `s` in the selected workspaces, in their order.
pub open spec fn scoped_findings(s: Seq<HealthFinding>, roots: Option<Seq<String>>) -> Seq<
    HealthFinding,
> {
    s.filter(|f: HealthFinding| in_workspaces(f, roots))
}

/// The view of optional workspace roots.
pub open spec fn roots_view(roots: Option<&Vec<String>>) -> Option<Seq<String>> {
    match roots {
        None => None,
        Some(v) => Some(v@),
    }
}

/// Keep the findings in the selected workspaces, in their order.
pub fn retain_in_workspaces(findings: &mut Vec<HealthFinding>, ws_roots: Option<&Vec<String>>)
    ensures
        final(findings)@ == scoped_findings(old(findings)@, roots_view(ws_roots)),
{
    let ghost rv = roots_view(ws_roots);
    let ghost pred = |f: HealthFinding| in_workspaces(f, rv);
    let ghost orig = findings@;
    let mut rest: Vec<HealthFinding> = Vec::new();
    std::mem::swap(&mut rest, findings);
    let mut kept: Vec<HealthFinding> = Vec::new();
    while rest.len() > 0
        invariant
            rest@ == orig.take(rest.len() as int),
            rest.len() <= orig.len(),
            rv == roots_view(ws_roots),
            pred == (|f: HealthFinding| in_workspaces(f, rv)),
            kept@ == orig.skip(rest.len() as int).filter(pred),
        decreases rest.len(),
    {
        let ghost m = rest.len() as int;
        let x = rest.pop().unwrap();
        proof {
            assert(orig.skip(m - 1) =~= seq![x] + orig.skip(m));
            orig.skip(m).lemma_filter_prepend(x, pred);
            assert(rest@ =~= orig.take(m - 1));
        }
        let keep = match ws_roots {
            None => true,
            Some(rs) => under_any_root(x.path.as_str(), rs),
        };
        if keep {
            kept.insert(0, x);
            proof {
                assert(kept@ =~= seq![x] + orig.skip(m).filter(pred));
            }
        } else {
            proof {
                assert(seq![x].filter(pred) =~= Seq::<HealthFinding>::empty()) by {
                    reveal(Seq::filter);
                }
                assert(Seq::<HealthFinding>::empty() + orig.skip(m).filter(pred) =~= orig.skip(m).filter(pred));
            }
        }
    }
    proof {
        assert(orig.skip(0) =~= orig);
    }
    *findings = kept;
}

/// Keep the findings in the selected workspaces, order them by the sort
/// criterion (highest first; equal keys keep their order), and count them by
/// severity tier before any baseline or `--top` cut.
pub fn scope_and_rank_findings(
    findings: &mut Vec<HealthFinding>,
    ws_roots: Option<&Vec<String>>,
    sort: &SortBy,
) -> (r: SeverityCounts)
    ensures
        sorted_desc(final(findings)@, *sort),
        forall|k: int| #[trigger]
            with_key(final(findings)@, *sort, k) == with_key(
                scoped_findings(old(findings)@, roots_view(ws_roots)),
                *sort,
                k,
            ),
        final(findings)@.len() == scoped_findings(old(findings)@, roots_view(ws_roots)).len(),
        r.critical == tier_count(final(findings)@, FindingSeverity::Critical),
        r.high == tier_count(final(findings)@, FindingSeverity::High),
        r.moderate == tier_count(final(findings)@, FindingSeverity::Moderate),
{
    retain_in_workspaces(findings, ws_roots);
    sort_findings(findings, sort);
    count_severities(findings)
}

/// Cut the findings to the first `top` when a limit is given.
pub fn keep_top(findings: &mut Vec<HealthFinding>, top: Option<usize>)
    ensures
        final(findings)@ == match top {
            Some(n) => if n < old(findings)@.len() {
                old(findings)@.take(n as int)
            } else {
                old(findings)@
            },
            None => old(findings)@,
        },
{
    if let Some(n) = top {
        findings.truncate(n);
    }
}

/// What the command line asked the health report to show.
#[derive(Debug, Clone, Copy)]
pub struct ReportFlags {
    /// Only the score is printed.
    pub score_only_output: bool,
    /// Complexity findings were asked for.
    pub complexity: bool,
    /// File scores were asked for.
    pub file_scores: bool,
    /// Hotspots were asked for.
    pub hotspots: bool,
    /// Refactoring targets were asked for.
    pub targets: bool,
    /// `--top`: the number of entries per list.
    pub top: Option<usize>,
}

/// Which sections and summary fields a health report carries.
#[derive(Debug, Clone, Copy, PartialEq, Eq, Structural)]
pub struct ReportSections {
    /// The complexity findings are listed.
    pub findings: bool,
    /// The file scores are listed, cut to this many when a limit is set.
    pub file_scores: bool,
    pub file_scores_limit: Option<usize>,
    /// The coverage gaps are listed.
    pub coverage_gaps: bool,
    /// The hotspots are listed.
    pub hotspots: bool,
    /// The hotspot summary is shown.
    pub hotspot_summary: bool,
    /// The vital signs are shown.
    pub vital_signs: bool,
    /// The large functions are listed.
    pub large_functions: bool,
    /// The refactoring targets and their thresholds are listed.
    pub targets: bool,
    /// The summary gives the number of files scored and their average.
    pub summary_file_scores: bool,
    /// The coverage model the summary names.
    pub summary_coverage_model: Option<CoverageModel>,
    /// The summary gives the Istanbul match counts.
    pub summary_istanbul: bool,
}

/// The layout of a health report: a score-only run drops every section but
/// the score and the findings; hotspots computed only for targets stay out;
/// the coverage model is named when a section that depends on it is shown.
pub open spec fn report_layout(f: ReportFlags, report_coverage_gaps: bool, has_istanbul: bool) -> ReportSections {
    let full = !f.score_only_output;
    ReportSections {
        findings: f.complexity,
        file_scores: full && f.file_scores,
        file_scores_limit: f.top,
        coverage_gaps: full && report_coverage_gaps,
        hotspots: f.hotspots,
        hotspot_summary: full && f.hotspots,
        vital_signs: full,
        large_functions: full,
        targets: full,
        summary_file_scores: full && f.file_scores,
        summary_coverage_model: if full && (f.file_scores || report_coverage_gaps || f.hotspots
            || f.targets) {
            Some(
                if has_istanbul {
                    CoverageModel::Istanbul
                } else {
                    CoverageModel::StaticEstimated
                },
            )
        } else {
            None
        },
        summary_istanbul: full && has_istanbul,
    }
}

/// Decide which sections a health report carries.
pub fn report_sections(flags: &ReportFlags, report_coverage_gaps: bool, has_istanbul: bool) -> (r:
    ReportSections)
    ensures
        r == report_layout(*flags, report_coverage_gaps, has_istanbul),
{
    let full = !flags.score_only_output;
    let model_shown = full && (flags.file_scores || report_coverage_gaps || flags.hotspots
        || flags.targets);
    let summary_coverage_model = if model_shown {
        if has_istanbul {
            Some(CoverageModel::Istanbul)
        } else {
            Some(CoverageModel::StaticEstimated)
        }
    } else {
        None
    };
    ReportSections {
        findings: flags.complexity,
        file_scores: full && flags.file_scores,
        file_scores_limit: flags.top,
        coverage_gaps: full && report_coverage_gaps,
        hotspots: flags.hotspots,
        hotspot_summary: full && flags.hotspots,
        vital_signs: full,
        large_functions: full,
        targets: full,
        summary_file_scores: full && flags.file_scores,
        summary_coverage_model,
        summary_istanbul: full && has_istanbul,
    }
}

/// The integer figures of a health report's summary (the average
/// maintainability, a floating-point figure, is kept by the caller).
#[derive(Debug, Clone, Copy, PartialEq, Eq, Structural)]
pub struct HealthSummaryCounts {
    pub files_analyzed: usize,
    pub functions_analyzed: usize,
    pub functions_above_threshold: usize,
    pub max_cyclomatic_threshold: u16,
    pub max_cognitive_threshold: u16,
    pub files_scored: Option<usize>,
    pub coverage_model: Option<CoverageModel>,
    pub istanbul_matched: Option<usize>,
    pub istanbul_total: Option<usize>,
    pub severity_critical_count: usize,
    pub severity_high_count: usize,
    pub severity_moderate_count: usize,
}

/// Build a health report's summary: the counts, thresholds and severity
/// tiers as given; the number of files scored, the coverage model and the
/// Istanbul match counts only where the report layout shows them.
pub fn build_health_summary(
    sections: &ReportSections,
    files_analyzed: usize,
    functions_analyzed: usize,
    functions_above_threshold: usize,
    max_cyclomatic: u16,
    max_cognitive: u16,
    files_scored: Option<usize>,
    istanbul_matched: usize,
    istanbul_total: usize,
    severities: &SeverityCounts,
) -> (r: HealthSummaryCounts)
    ensures
        r.files_analyzed == files_analyzed,
        r.functions_analyzed == functions_analyzed,
        r.functions_above_threshold == functions_above_threshold,
        r.max_cyclomatic_threshold == max_cyclomatic,
        r.max_cognitive_threshold == max_cognitive,
        r.files_scored == (if sections.summary_file_scores {
            files_scored
        } else {
            None
        }),
        r.coverage_model == sections.summary_coverage_model,
        r.istanbul_matched == (if sections.summary_istanbul {
            Some(istanbul_matched)
        } else {
            None
        }),
        r.istanbul_total == (if sections.summary_istanbul {
            Some(istanbul_total)
        } else {
            None
        }),
        r.severity_critical_count == severities.critical,
        r.severity_high_count == severities.high,
        r.severity_moderate_count == severities.moderate,
{
    HealthSummaryCounts {
        files_analyzed,
        functions_analyzed,
        functions_above_threshold,
        max_cyclomatic_threshold: max_cyclomatic,
        max_cognitive_threshold: max_cognitive,
        files_scored: if sections.summary_file_scores {
            files_scored
        } else {
            None
        },
        coverage_model: sections.summary_coverage_model,
        istanbul_matched: if sections.summary_istanbul {
            Some(istanbul_matched)
        } else {
            None
        },
        istanbul_total: if sections.summary_istanbul {
            Some(istanbul_total)
        } else {
            None
        },
        severity_critical_count: severities.critical,
        severity_high_count: severities.high,
        severity_moderate_count: severities.moderate,
    }
}

/// Whether the listed findings fail the run: any at or above the minimum
/// severity when one is given, else any at all.
pub open spec fn findings_fail(findings: Seq<HealthFinding>, min_severity: Option<FindingSeverity>) -> bool {
    match min_severity {
        Some(m) => exists|i: int|
            0 <= i < findings.len() && severity_rank(#[trigger] findings[i].severity) >= severity_rank(m),
        None => findings.len() > 0,
    }
}

/// Whether production coverage finds code safe to delete or needing review.
pub open spec fn coverage_fails(report: Option<RuntimeCoverageReport>) -> bool {
    match report {
        Some(r) => exists|i: int|
            0 <= i < r.findings@.len() && ((#[trigger] r.findings@[i]).verdict
                == RuntimeCoverageVerdict::SafeToDelete || r.findings@[i].verdict
                == RuntimeCoverageVerdict::ReviewRequired),
        None => false,
    }
}

/// The view of an optional report.
pub open spec fn report_view(r: Option<&RuntimeCoverageReport>) -> Option<RuntimeCoverageReport> {
    match r {
        Some(x) => Some(*x),
        None => None,
    }
}

/// The exit status of a health run once its report is printed: 1 when the
/// health score fell below the minimum, when a listed finding fails (see
/// `findings_fail`), when production coverage finds code safe to delete or
/// needing review, or when coverage gaps are found and fail the run; else 0.
pub fn health_exit_code(
    below_min_score: bool,
    findings: &Vec<HealthFinding>,
    min_severity: Option<FindingSeverity>,
    production_coverage: Option<&RuntimeCoverageReport>,
    should_fail_on_coverage_gaps: bool,
    coverage_gaps_has_findings: bool,
) -> (r: u8)
    ensures
        r == (if below_min_score || findings_fail(findings@, min_severity) || coverage_fails(
            report_view(production_coverage),
        ) || (should_fail_on_coverage_gaps && coverage_gaps_has_findings) {
            1u8
        } else {
            0u8
        }),
{
    if below_min_score {
        return 1;
    }
    let failing = match min_severity {
        Some(m) => {
            let floor = crate::scores::FindingSeverity::rank(m);
            let mut found = false;
            let mut i: usize = 0;
            while i < findings.len()
                invariant
                    i <= findings@.len(),
                    floor == severity_rank(m),
                    found == exists|j: int|
                        0 <= j < i && severity_rank(#[trigger] findings@[j].severity) >= severity_rank(m),
                decreases findings.len() - i,
            {
                if crate::scores::FindingSeverity::rank(findings[i].severity) >= floor {
                    found = true;
                }
                i = i + 1;
            }
            found
        },
        None => findings.len() > 0,
    };
    if failing {
        return 1;
    }
    if let Some(report) = production_coverage {
        let mut i: usize = 0;
        while i < report.findings.len()
            invariant
                production_coverage == Some(report),
                i <= report.findings@.len(),
                forall|j: int|
                    0 <= j < i ==> (#[trigger] report.findings@[j]).verdict != RuntimeCoverageVerdict::SafeToDelete
                        && report.findings@[j].verdict != RuntimeCoverageVerdict::ReviewRequired,
            decreases report.findings.len() - i,
        {
            let v = report.findings[i].verdict;
            if v == RuntimeCoverageVerdict::SafeToDelete || v == RuntimeCoverageVerdict::ReviewRequired {
                proof {
                    assert(report.findings@[i as int].verdict == v);
                    assert(report_view(production_coverage) == Some(*report));
                    let rv = *report;
                    assert(rv.findings@[i as int].verdict == v);
                    assert(coverage_fails(Some(rv)));
                }
                return 1;
            }
            i = i + 1;
        }
    }
    if should_fail_on_coverage_gaps && coverage_gaps_has_findings {
        1
    } else {
        0
    }
}

} // verus!
