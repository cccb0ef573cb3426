//! Converting the coverage sidecar's response into a production-coverage
//! report: called functions are dropped, findings and hot paths are sorted,
//! and each function is given the line the static analysis found for it.
use vstd::prelude::*;
use crate::ordering::{
    key_views, path_parts, path_parts_exec, stable_sort_by_key, stably_sorted, KeyView, SortKey,
};
use crate::production_coverage::{
    spec_state_rank, state_rank, ProductionCoverageAction, ProductionCoverageConfidence,
    ProductionCoverageFinding, ProductionCoverageHotPath, ProductionCoverageMessage,
    ProductionCoverageState, ProductionCoverageVerdict, ProductionCoverageWatermark,
};
use crate::text::str_chars;

verus! {

/// The sidecar's call state of a function.
#[derive(Debug, Clone, Copy, PartialEq, Eq, Structural)]
pub enum CallState {
    Called,
    NeverCalled,
    CoverageUnavailable,
    Unknown,
}

/// The sidecar's confidence in a finding.
#[derive(Debug, Clone, Copy, PartialEq, Eq, Structural)]
pub enum Confidence {
    High,
    Medium,
    Low,
    Unknown,
}

/// The sidecar's overall verdict.
#[derive(Debug, Clone, Copy, PartialEq, Eq, Structural)]
pub enum Verdict {
    Clean,
    HotPathChangesNeeded,
    ColdCodeDetected,
    LicenseExpiredGrace,
    Unknown,
}

/// The sidecar's license watermark.
#[derive(Debug, Clone, Copy, PartialEq, Eq, Structural)]
pub enum Watermark {
    TrialExpired,
    LicenseExpiredGrace,
    Unknown,
}

/// An action the sidecar suggests.
#[derive(Debug, Clone)]
pub struct ResponseAction {
    pub kind: String,
    pub description: String,
    pub auto_fixable: bool,
}

/// A function the sidecar reports.
#[derive(Debug, Clone)]
pub struct ResponseFinding {
    pub file: String,
    pub function: String,
    pub state: CallState,
    pub invocations: u64,
    pub confidence: Confidence,
    pub actions: Vec<ResponseAction>,
}

/// A frequently called function the sidecar reports.
#[derive(Debug, Clone)]
pub struct ResponseHotPath {
    pub file: String,
    pub function: String,
    pub invocations: u64,
}

/// A warning of the sidecar.
#[derive(Debug, Clone)]
pub struct ResponseWarning {
    pub code: String,
    pub message: String,
}

/// The sidecar's function counts.
#[derive(Debug, Clone, Copy)]
pub struct ResponseSummary {
    pub functions_total: u64,
    pub functions_called: u64,
    pub functions_never_called: u64,
    pub functions_coverage_unavailable: u64,
}

/// The sidecar's answer (its percentage of dead code, a fraction, is kept
/// by the caller).
#[derive(Debug, Clone)]
pub struct Response {
    pub verdict: Verdict,
    pub summary: ResponseSummary,
    pub findings: Vec<ResponseFinding>,
    pub hot_paths: Vec<ResponseHotPath>,
    pub watermark: Option<Watermark>,
    pub warnings: Vec<ResponseWarning>,
}

/// The line of each `(file, function)` the static analysis found.
#[derive(Debug, Clone)]
pub struct FunctionLocation {
    pub file: String,
    pub function: String,
    pub line: u32,
}

/// The function counts of a report.
#[derive(Debug, Clone, Copy)]
pub struct ProductionCoverageSummary {
    pub functions_total: usize,
    pub functions_called: usize,
    pub functions_never_called: usize,
    pub functions_coverage_unavailable: usize,
}

/// A production-coverage report.
#[derive(Debug, Clone)]
pub struct ProductionCoverageReport {
    pub verdict: ProductionCoverageVerdict,
    pub summary: ProductionCoverageSummary,
    pub findings: Vec<ProductionCoverageFinding>,
    pub hot_paths: Vec<ProductionCoverageHotPath>,
    pub watermark: Option<ProductionCoverageWatermark>,
    pub warnings: Vec<ProductionCoverageMessage>,
}

// ── Mapping the protocol's vocabulary ────────────────────────────

/// The report state of a protocol call state.
pub open spec fn state_of(s: CallState) -> ProductionCoverageState {
    match s {
        CallState::Called => ProductionCoverageState::Called,
        CallState::NeverCalled => ProductionCoverageState::NeverCalled,
        CallState::CoverageUnavailable => ProductionCoverageState::CoverageUnavailable,
        CallState::Unknown => ProductionCoverageState::Unknown,
    }
}

/// Map a protocol call state.
pub fn map_state(state: &CallState) -> (r: ProductionCoverageState)
    ensures
        r == state_of(*state),
{
    match state {
        CallState::Called => ProductionCoverageState::Called,
        CallState::NeverCalled => ProductionCoverageState::NeverCalled,
        CallState::CoverageUnavailable => ProductionCoverageState::CoverageUnavailable,
        CallState::Unknown => ProductionCoverageState::Unknown,
    }
}

/// The report confidence of a protocol confidence.
pub open spec fn confidence_of(c: Confidence) -> ProductionCoverageConfidence {
    match c {
        Confidence::High => ProductionCoverageConfidence::High,
        Confidence::Medium => ProductionCoverageConfidence::Medium,
        Confidence::Low => ProductionCoverageConfidence::Low,
        Confidence::Unknown => ProductionCoverageConfidence::Unknown,
    }
}

/// Map a protocol confidence.
pub fn map_confidence(confidence: &Confidence) -> (r: ProductionCoverageConfidence)
    ensures
        r == confidence_of(*confidence),
{
    match confidence {
        Confidence::High => ProductionCoverageConfidence::High,
        Confidence::Medium => ProductionCoverageConfidence::Medium,
        Confidence::Low => ProductionCoverageConfidence::Low,
        Confidence::Unknown => ProductionCoverageConfidence::Unknown,
    }
}

/// The report verdict of a protocol verdict.
pub open spec fn verdict_of(v: Verdict) -> ProductionCoverageVerdict {
    match v {
        Verdict::Clean => ProductionCoverageVerdict::Clean,
        Verdict::HotPathChangesNeeded => ProductionCoverageVerdict::HotPathChangesNeeded,
        Verdict::ColdCodeDetected => ProductionCoverageVerdict::ColdCodeDetected,
        Verdict::LicenseExpiredGrace => ProductionCoverageVerdict::LicenseExpiredGrace,
        Verdict::Unknown => ProductionCoverageVerdict::Unknown,
    }
}

/// Map a protocol verdict.
pub fn map_verdict(verdict: &Verdict) -> (r: ProductionCoverageVerdict)
    ensures
        r == verdict_of(*verdict),
{
    match verdict {
        Verdict::Clean => ProductionCoverageVerdict::Clean,
        Verdict::HotPathChangesNeeded => ProductionCoverageVerdict::HotPathChangesNeeded,
        Verdict::ColdCodeDetected => ProductionCoverageVerdict::ColdCodeDetected,
        Verdict::LicenseExpiredGrace => ProductionCoverageVerdict::LicenseExpiredGrace,
        Verdict::Unknown => ProductionCoverageVerdict::Unknown,
    }
}

/// The report watermark of a protocol watermark.
pub open spec fn watermark_of(w: Watermark) -> ProductionCoverageWatermark {
    match w {
        Watermark::TrialExpired => ProductionCoverageWatermark::TrialExpired,
        Watermark::LicenseExpiredGrace => ProductionCoverageWatermark::LicenseExpiredGrace,
        Watermark::Unknown => ProductionCoverageWatermark::Unknown,
    }
}

/// Map a protocol watermark.
pub fn map_watermark(watermark: &Watermark) -> (r: ProductionCoverageWatermark)
    ensures
        r == watermark_of(*watermark),
{
    match watermark {
        Watermark::TrialExpired => ProductionCoverageWatermark::TrialExpired,
        Watermark::LicenseExpiredGrace => ProductionCoverageWatermark::LicenseExpiredGrace,
        Watermark::Unknown => ProductionCoverageWatermark::Unknown,
    }
}

// ── Converting a response ────────────────────────────────────────

/// The line the static analysis found for `(file, function)`: the last
/// location recorded for that pair.
pub open spec fn location_of(locs: Seq<FunctionLocation>, file: Seq<char>, function: Seq<char>) -> Option<u32>
    decreases locs.len(),
{
    if locs.len() == 0 {
        None
    } else if locs.last().file@ == file && locs.last().function@ == function {
        Some(locs.last().line)
    } else {
        location_of(locs.drop_last(), file, function)
    }
}

/// `(kind, description, auto_fixable)` of an action.
pub type ActionView = (Seq<char>, Seq<char>, bool);

/// The plain values of report actions.
pub open spec fn report_actions(v: Seq<ProductionCoverageAction>) -> Seq<ActionView> {
    v.map_values(|a: ProductionCoverageAction| (a.kind@, a.description@, a.auto_fixable))
}

/// The plain values of response actions.
pub open spec fn response_actions(v: Seq<ResponseAction>) -> Seq<ActionView> {
    v.map_values(|a: ResponseAction| (a.kind@, a.description@, a.auto_fixable))
}

/// The plain values of a report finding.
pub type FindingView = (
    Seq<char>,
    Seq<char>,
    Option<u32>,
    ProductionCoverageState,
    u64,
    ProductionCoverageConfidence,
    Seq<ActionView>,
);

/// The plain values of a report finding.
pub open spec fn finding_view(f: ProductionCoverageFinding) -> FindingView {
    (f.path@, f.function@, f.line, f.state, f.invocations, f.confidence, report_actions(f.actions@))
}

/// The plain values of a report hot path.
pub type HotPathView = (Seq<char>, Seq<char>, Option<u32>, u64, Seq<ActionView>);

/// The plain values of a report hot path.
pub open spec fn hot_path_view(h: ProductionCoverageHotPath) -> HotPathView {
    (h.path@, h.function@, h.line, h.invocations, report_actions(h.actions@))
}

/// The report finding of a response finding.
pub open spec fn converted_finding(f: ResponseFinding, locs: Seq<FunctionLocation>) -> FindingView {
    (
        f.file@,
        f.function@,
        location_of(locs, f.file@, f.function@),
        state_of(f.state),
        f.invocations,
        confidence_of(f.confidence),
        response_actions(f.actions@),
    )
}

/// The report findings of the response's functions that were not seen
/// called, in response order.
pub open spec fn converted_findings(fs: Seq<ResponseFinding>, locs: Seq<FunctionLocation>) -> Seq<FindingView>
    decreases fs.len(),
{
    if fs.len() == 0 {
        Seq::empty()
    } else {
        let r = converted_findings(fs.drop_last(), locs);
        if state_of(fs.last().state) == ProductionCoverageState::Called {
            r
        } else {
            r.push(converted_finding(fs.last(), locs))
        }
    }
}

/// The report hot path of a response hot path.
pub open spec fn converted_hot_path(h: ResponseHotPath, locs: Seq<FunctionLocation>) -> HotPathView {
    (h.file@, h.function@, location_of(locs, h.file@, h.function@), h.invocations, Seq::empty())
}

/// Findings are ordered by call state (never called first), then path,
/// then function name.
pub open spec fn finding_key(f: FindingView) -> KeyView {
    (spec_state_rank(f.3) as nat, path_parts(f.0), 0, f.1)
}

/// Hot paths are ordered by invocations (most first), then path, then name.
pub open spec fn hot_key(h: HotPathView) -> KeyView {
    ((u64::MAX - h.3) as nat, path_parts(h.0), 0, h.1)
}

/// The plain values of a report warning.
pub open spec fn warning_views(v: Seq<ProductionCoverageMessage>) -> Seq<(Seq<char>, Seq<char>)> {
    v.map_values(|m: ProductionCoverageMessage| (m.code@, m.message@))
}

fn location_lookup(locs: &Vec<FunctionLocation>, file: &String, function: &String) -> (r: Option<u32>)
    ensures
        r == location_of(locs@, file@, function@),
{
    let mut i: usize = locs.len();
    proof {
        assert(locs@.take(locs@.len() as int) =~= locs@);
    }
    while i > 0
        invariant
            i <= locs@.len(),
            location_of(locs@, file@, function@) == location_of(locs@.take(i as int), file@, function@),
        decreases i,
    {
        proof {
            assert(locs@.take(i as int).drop_last() =~= locs@.take(i - 1));
            assert(locs@.take(i as int).last() == locs@[i - 1]);
        }
        let l = &locs[i - 1];
        if l.file == *file && l.function == *function {
            return Some(l.line);
        }
        i = i - 1;
    }
    proof {
        assert(locs@.take(0) =~= Seq::<FunctionLocation>::empty());
    }
    None
}

fn convert_actions(v: &Vec<ResponseAction>) -> (r: Vec<ProductionCoverageAction>)
    ensures
        report_actions(r@) == response_actions(v@),
{
    let mut out: Vec<ProductionCoverageAction> = Vec::new();
    let mut k: usize = 0;
    while k < v.len()
        invariant
            k <= v@.len(),
            report_actions(out@) == response_actions(v@).take(k as int),
        decreases v.len() - k,
    {
        let a = &v[k];
        let b = ProductionCoverageAction {
            kind: a.kind.clone(),
            description: a.description.clone(),
            auto_fixable: a.auto_fixable,
        };
        let ghost before = out@;
        out.push(b);
        proof {
            assert(report_actions(out@) =~= report_actions(before).push((b.kind@, b.description@, b.auto_fixable)));
            assert(response_actions(v@).take(k + 1) =~= response_actions(v@).take(k as int).push(
                response_actions(v@)[k as int],
            ));
        }
        k = k + 1;
    }
    proof {
        assert(response_actions(v@).take(k as int) =~= response_actions(v@));
    }
    out
}

/// Convert the sidecar's response into a report: findings for functions not
/// seen called, ordered by state, path and name; hot paths ordered by
/// invocations (most first), path and name; lines from the static
/// analysis; the given watermark, else the response's.
pub fn convert_response(
    response: Response,
    locations: &Vec<FunctionLocation>,
    watermark: Option<ProductionCoverageWatermark>,
) -> (r: ProductionCoverageReport)
    ensures
        ({
            let fs = converted_findings(response.findings@, locations@);
            let hs = response.hot_paths@.map_values(|h: ResponseHotPath| converted_hot_path(h, locations@));
            let fv = r.findings@.map_values(|f: ProductionCoverageFinding| finding_view(f));
            let hv = r.hot_paths@.map_values(|h: ProductionCoverageHotPath| hot_path_view(h));
            &&& stably_sorted(fv, fv.map_values(|f: FindingView| finding_key(f)), fs, fs.map_values(|f: FindingView| finding_key(f)))
            &&& stably_sorted(hv, hv.map_values(|h: HotPathView| hot_key(h)), hs, hs.map_values(|h: HotPathView| hot_key(h)))
            &&& r.verdict == verdict_of(response.verdict)
            &&& r.summary.functions_total == response.summary.functions_total as usize
            &&& r.summary.functions_called == response.summary.functions_called as usize
            &&& r.summary.functions_never_called == response.summary.functions_never_called as usize
            &&& r.summary.functions_coverage_unavailable == response.summary.functions_coverage_unavailable as usize
            &&& r.watermark == (match watermark {
                Some(w) => Some(w),
                None => match response.watermark {
                    Some(w) => Some(watermark_of(w)),
                    None => None,
                },
            })
            &&& warning_views(r.warnings@) == response.warnings@.map_values(|w: ResponseWarning| (w.code@, w.message@))
        }),
{
    let ghost locs = locations@;
    let ghost rfs = response.findings@;
    let mut findings: Vec<ProductionCoverageFinding> = Vec::new();
    let mut fkeys: Vec<SortKey> = Vec::new();
    let mut i: usize = 0;
    while i < response.findings.len()
        invariant
            locs == locations@,
            rfs == response.findings@,
            i <= rfs.len(),
            findings@.len() == fkeys@.len(),
            findings@.map_values(|f: ProductionCoverageFinding| finding_view(f)) == converted_findings(rfs.take(i as int), locs),
            key_views(fkeys@) == findings@.map_values(|f: ProductionCoverageFinding| finding_view(f)).map_values(
                |f: FindingView| finding_key(f),
            ),
        decreases response.findings.len() - i,
    {
        let f = &response.findings[i];
        proof {
            assert(rfs.take(i + 1).drop_last() =~= rfs.take(i as int));
            assert(rfs.take(i + 1).last() == rfs[i as int]);
        }
        let state = map_state(&f.state);
        if state != ProductionCoverageState::Called {
            let g = ProductionCoverageFinding {
                path: f.file.clone(),
                function: f.function.clone(),
                line: location_lookup(locations, &f.file, &f.function),
                state,
                invocations: f.invocations,
                confidence: map_confidence(&f.confidence),
                actions: convert_actions(&f.actions),
            };
            let k = SortKey {
                primary: state_rank(state) as u64,
                parts: path_parts_exec(&str_chars(g.path.as_str())),
                secondary: 0,
                name: str_chars(g.function.as_str()),
            };
            let ghost before = findings@;
            let ghost before_keys = fkeys@;
            findings.push(g);
            fkeys.push(k);
            proof {
                let fview = |f: ProductionCoverageFinding| finding_view(f);
                assert(findings@.map_values(fview) =~= before.map_values(fview).push(finding_view(g)));
                assert(key_views(fkeys@) =~= key_views(before_keys).push(crate::ordering::key_view(k)));
                assert(before.map_values(fview).push(finding_view(g)).map_values(|f: FindingView| finding_key(f))
                    =~= before.map_values(fview).map_values(|f: FindingView| finding_key(f)).push(finding_key(finding_view(g))));
            }
        }
        i = i + 1;
    }
    proof {
        assert(rfs.take(i as int) =~= rfs);
    }
    let ghost rhs = response.hot_paths@;
    let mut hot_paths: Vec<ProductionCoverageHotPath> = Vec::new();
    let mut hkeys: Vec<SortKey> = Vec::new();
    let mut j: usize = 0;
    while j < response.hot_paths.len()
        invariant
            locs == locations@,
            rhs == response.hot_paths@,
            j <= rhs.len(),
            hot_paths@.len() == hkeys@.len(),
            hot_paths@.map_values(|h: ProductionCoverageHotPath| hot_path_view(h)) == rhs.take(j as int).map_values(
                |h: ResponseHotPath| converted_hot_path(h, locs),
            ),
            key_views(hkeys@) == hot_paths@.map_values(|h: ProductionCoverageHotPath| hot_path_view(h)).map_values(
                |h: HotPathView| hot_key(h),
            ),
        decreases response.hot_paths.len() - j,
    {
        let e = &response.hot_paths[j];
        let h = ProductionCoverageHotPath {
            path: e.file.clone(),
            function: e.function.clone(),
            line: location_lookup(locations, &e.file, &e.function),
            invocations: e.invocations,
            actions: Vec::new(),
        };
        let k = SortKey {
            primary: u64::MAX - h.invocations,
            parts: path_parts_exec(&str_chars(h.path.as_str())),
            secondary: 0,
            name: str_chars(h.function.as_str()),
        };
        let ghost before = hot_paths@;
        let ghost before_keys = hkeys@;
        hot_paths.push(h);
        hkeys.push(k);
        proof {
            let hview = |h: ProductionCoverageHotPath| hot_path_view(h);
            assert(report_actions(h.actions@) =~= Seq::<ActionView>::empty());
            assert(hot_paths@.map_values(hview) =~= before.map_values(hview).push(hot_path_view(h)));
            assert(rhs.take(j + 1).map_values(|h: ResponseHotPath| converted_hot_path(h, locs)) =~= rhs.take(
                j as int,
            ).map_values(|h: ResponseHotPath| converted_hot_path(h, locs)).push(converted_hot_path(rhs[j as int], locs)));
            assert(key_views(hkeys@) =~= key_views(before_keys).push(crate::ordering::key_view(k)));
            assert(before.map_values(hview).push(hot_path_view(h)).map_values(|h: HotPathView| hot_key(h))
                =~= before.map_values(hview).map_values(|h: HotPathView| hot_key(h)).push(hot_key(hot_path_view(h))));
        }
        j = j + 1;
    }
    proof {
        assert(rhs.take(j as int) =~= rhs);
    }
    let ghost fitems = findings@;
    let ghost hitems = hot_paths@;
    let ghost fk = key_views(fkeys@);
    let ghost hk = key_views(hkeys@);
    let (sorted_findings, sorted_fkeys) = stable_sort_by_key(findings, fkeys);
    let (sorted_hot, sorted_hkeys) = stable_sort_by_key(hot_paths, hkeys);
    proof {
        let fview = |f: ProductionCoverageFinding| finding_view(f);
        let hview = |h: ProductionCoverageHotPath| hot_path_view(h);
        let fs = converted_findings(rfs, locs);
        let hs = rhs.map_values(|h: ResponseHotPath| converted_hot_path(h, locs));
        crate::ordering::lemma_tagged_view(sorted_findings@, key_views(sorted_fkeys@), fview);
        crate::ordering::lemma_tagged_view(fitems, fk, fview);
        crate::ordering::lemma_tagged_view(sorted_hot@, key_views(sorted_hkeys@), hview);
        crate::ordering::lemma_tagged_view(hitems, hk, hview);
        let fv = sorted_findings@.map_values(fview);
        let hv = sorted_hot@.map_values(hview);
        assert(crate::ordering::tagged(fitems.map_values(fview), fk) =~= crate::ordering::tagged(fs, fs.map_values(|f: FindingView| finding_key(f))));
        assert(crate::ordering::tagged(hitems.map_values(hview), hk) =~= crate::ordering::tagged(hs, hs.map_values(|h: HotPathView| hot_key(h))));
        crate::ordering::lemma_keys_follow_items(fv, key_views(sorted_fkeys@), fs, |f: FindingView| finding_key(f));
        crate::ordering::lemma_keys_follow_items(hv, key_views(sorted_hkeys@), hs, |h: HotPathView| hot_key(h));
    }
    let wm = match watermark {
        Some(w) => Some(w),
        None => match &response.watermark {
            Some(w) => Some(map_watermark(w)),
            None => None,
        },
    };
    let ghost rws = response.warnings@;
    let mut warnings: Vec<ProductionCoverageMessage> = Vec::new();
    let mut k: usize = 0;
    while k < response.warnings.len()
        invariant
            rws == response.warnings@,
            k <= rws.len(),
            warning_views(warnings@) == rws.take(k as int).map_values(|w: ResponseWarning| (w.code@, w.message@)),
        decreases response.warnings.len() - k,
    {
        let w = &response.warnings[k];
        let m = ProductionCoverageMessage { code: w.code.clone(), message: w.message.clone() };
        let ghost before = warnings@;
        warnings.push(m);
        proof {
            assert(warning_views(warnings@) =~= warning_views(before).push((m.code@, m.message@)));
            assert(rws.take(k + 1).map_values(|w: ResponseWarning| (w.code@, w.message@)) =~= rws.take(k as int).map_values(
                |w: ResponseWarning| (w.code@, w.message@),
            ).push((rws[k as int].code@, rws[k as int].message@)));
        }
        k = k + 1;
    }
    proof {
        assert(rws.take(k as int) =~= rws);
    }
    ProductionCoverageReport {
        verdict: map_verdict(&response.verdict),
        summary: ProductionCoverageSummary {
            functions_total: response.summary.functions_total as usize,
            functions_called: response.summary.functions_called as usize,
            functions_never_called: response.summary.functions_never_called as usize,
            functions_coverage_unavailable: response.summary.functions_coverage_unavailable as usize,
        },
        findings: sorted_findings,
        hot_paths: sorted_hot,
        watermark: wm,
        warnings,
    }
}

} // verus!
