//! Complexity findings: which functions exceed the cyclomatic or cognitive
//! thresholds, in the files that a health run looks at.
use vstd::prelude::*;
use globset::GlobSet;
use crate::codeowners::{
    builder_add, builder_build, builder_globs, builder_new, glob_matches, glob_new,
    glob_new_outcome, globset_build_outcome, globset_empty, globset_globs, globset_len,
    globset_matches,
};
use crate::ordering::{SortKey, key_views, stable_sort_by_key, stably_sorted, KeyView};
use crate::paths::{path_starts_with, path_starts_with_exec};
use crate::scores::LargeFunctionEntry;
use crate::text::{string_views, chars_to_string, push_str, str_chars};
use crate::paths::{holds_path, relative_to, relative_or_self, contains_path};
use crate::scores::{
    compute_finding_severity, max_severity, tier, ExceededThreshold, FindingSeverity, HealthFinding,
    DEFAULT_COGNITIVE_CRITICAL, DEFAULT_COGNITIVE_HIGH, DEFAULT_CYCLOMATIC_CRITICAL,
    DEFAULT_CYCLOMATIC_HIGH,
};

verus! {

/// The complexity of one function, as the parser measured it, and whether a
/// suppression comment covers its line.
#[derive(Debug, Clone)]
pub struct FunctionComplexity {
    pub name: String,
    pub line: u32,
    pub col: u32,
    pub cyclomatic: u16,
    pub cognitive: u16,
    pub line_count: u32,
    pub param_count: u8,
    pub suppressed: bool,
}

/// A parsed module: its path, when the module maps to a discovered file, and
/// its functions.
#[derive(Debug, Clone)]
pub struct ModuleComplexity {
    pub path: Option<String>,
    pub functions: Vec<FunctionComplexity>,
}

/// Whether any glob of the set matches the path.
pub open spec fn ignored(globs: Seq<Seq<char>>, path: Seq<char>) -> bool {
    exists|i: int| 0 <= i < globs.len() && glob_matches(#[trigger] globs[i], path)
}

/// Whether a module's file is looked at: it has a path, the path relative
/// to the root matches no ignore glob, and it is among the changed files
/// when those are given.
pub open spec fn module_in_scope(
    path: Option<String>,
    root: Seq<char>,
    ignore: Seq<Seq<char>>,
    changed: Option<Seq<String>>,
) -> bool {
    match path {
        Some(p) => !ignored(ignore, relative_to(p@, root)) && match changed {
            Some(c) => holds_path(c, p@),
            None => true,
        },
        None => false,
    }
}

/// Which thresholds a function exceeds.
pub open spec fn exceeded_kind(cyclomatic: bool, cognitive: bool) -> ExceededThreshold {
    if cyclomatic && cognitive {
        ExceededThreshold::Both
    } else if cyclomatic {
        ExceededThreshold::Cyclomatic
    } else {
        ExceededThreshold::Cognitive
    }
}

/// The plain values of a health finding.
pub type FindingView = (Seq<char>, Seq<char>, u32, u32, u16, u16, u32, u8, ExceededThreshold, FindingSeverity);

/// The plain values of a health finding.
pub open spec fn health_finding_view(f: HealthFinding) -> FindingView {
    (f.path@, f.name@, f.line, f.col, f.cyclomatic, f.cognitive, f.line_count, f.param_count, f.exceeded, f.severity)
}

/// The finding of a function above a threshold.
pub open spec fn function_finding(path: Seq<char>, f: FunctionComplexity, max_cyclomatic: u16, max_cognitive: u16) -> FindingView {
    (
        path,
        f.name@,
        f.line,
        f.col,
        f.cyclomatic,
        f.cognitive,
        f.line_count,
        f.param_count,
        exceeded_kind(f.cyclomatic > max_cyclomatic, f.cognitive > max_cognitive),
        max_severity(
            tier(f.cognitive, DEFAULT_COGNITIVE_HIGH, DEFAULT_COGNITIVE_CRITICAL),
            tier(f.cyclomatic, DEFAULT_CYCLOMATIC_HIGH, DEFAULT_CYCLOMATIC_CRITICAL),
        ),
    )
}

/// Whether a function is reported: not suppressed and above a threshold.
pub open spec fn reported(f: FunctionComplexity, max_cyclomatic: u16, max_cognitive: u16) -> bool {
    !f.suppressed && (f.cyclomatic > max_cyclomatic || f.cognitive > max_cognitive)
}

/// The findings of a module's functions, in order.
pub open spec fn module_findings(
    path: Seq<char>,
    fs: Seq<FunctionComplexity>,
    max_cyclomatic: u16,
    max_cognitive: u16,
) -> Seq<FindingView>
    decreases fs.len(),
{
    if fs.len() == 0 {
        Seq::empty()
    } else {
        let r = module_findings(path, fs.drop_last(), max_cyclomatic, max_cognitive);
        if reported(fs.last(), max_cyclomatic, max_cognitive) {
            r.push(function_finding(path, fs.last(), max_cyclomatic, max_cognitive))
        } else {
            r
        }
    }
}

/// The number of functions of all modules.
pub open spec fn function_total(ms: Seq<ModuleComplexity>) -> nat
    decreases ms.len(),
{
    if ms.len() == 0 {
        0
    } else {
        function_total(ms.drop_last()) + ms.last().functions@.len()
    }
}

/// Findings, files analysed and functions counted over the modules in scope.
pub open spec fn collected(
    ms: Seq<ModuleComplexity>,
    root: Seq<char>,
    ignore: Seq<Seq<char>>,
    changed: Option<Seq<String>>,
    max_cyclomatic: u16,
    max_cognitive: u16,
) -> (Seq<FindingView>, nat, nat)
    decreases ms.len(),
{
    if ms.len() == 0 {
        (Seq::empty(), 0, 0)
    } else {
        let r = collected(ms.drop_last(), root, ignore, changed, max_cyclomatic, max_cognitive);
        let m = ms.last();
        if module_in_scope(m.path, root, ignore, changed) {
            (
                r.0 + module_findings(m.path->0@, m.functions@, max_cyclomatic, max_cognitive),
                r.1 + 1,
                r.2 + m.functions@.len(),
            )
        } else {
            r
        }
    }
}

/// The modules whose file is in scope, in order.
pub open spec fn modules_in_scope(
    ms: Seq<ModuleComplexity>,
    root: Seq<char>,
    ignore: Seq<Seq<char>>,
    changed: Option<Seq<String>>,
) -> Seq<ModuleComplexity> {
    ms.filter(|m: ModuleComplexity| module_in_scope(m.path, root, ignore, changed))
}

/// The findings are, module by module in order, those of the in-scope
/// modules; the files analysed are the in-scope modules and the functions
/// analysed are theirs. A function exactly at both thresholds is not reported.
pub proof fn lemma_collected_over_scope(
    ms: Seq<ModuleComplexity>,
    root: Seq<char>,
    ignore: Seq<Seq<char>>,
    changed: Option<Seq<String>>,
    max_cyclomatic: u16,
    max_cognitive: u16,
)
    ensures
        collected(ms, root, ignore, changed, max_cyclomatic, max_cognitive).1 == modules_in_scope(
            ms,
            root,
            ignore,
            changed,
        ).len(),
        collected(ms, root, ignore, changed, max_cyclomatic, max_cognitive).2 == function_total(
            modules_in_scope(ms, root, ignore, changed),
        ),
        collected(ms, root, ignore, changed, max_cyclomatic, max_cognitive).0 == all_findings(
            modules_in_scope(ms, root, ignore, changed),
            max_cyclomatic,
            max_cognitive,
        ),
        forall|f: FunctionComplexity|
            f.cyclomatic <= max_cyclomatic && f.cognitive <= max_cognitive ==> !#[trigger] reported(
                f,
                max_cyclomatic,
                max_cognitive,
            ),
    decreases ms.len(),
{
    reveal(Seq::filter);
    if ms.len() > 0 {
        lemma_collected_over_scope(ms.drop_last(), root, ignore, changed, max_cyclomatic, max_cognitive);
        let f = modules_in_scope(ms, root, ignore, changed);
        let g = modules_in_scope(ms.drop_last(), root, ignore, changed);
        if module_in_scope(ms.last().path, root, ignore, changed) {
            assert(f == g.push(ms.last()));
            assert(f.drop_last() =~= g);
            assert(f.last() == ms.last());
        } else {
            assert(f == g);
        }
    }
}

/// The findings of each module in turn (every module having a path).
pub open spec fn all_findings(ms: Seq<ModuleComplexity>, max_cyclomatic: u16, max_cognitive: u16) -> Seq<FindingView>
    decreases ms.len(),
{
    if ms.len() == 0 {
        Seq::empty()
    } else {
        all_findings(ms.drop_last(), max_cyclomatic, max_cognitive) + module_findings(
            ms.last().path->0@,
            ms.last().functions@,
            max_cyclomatic,
            max_cognitive,
        )
    }
}

proof fn lemma_collected_bounds(
    ms: Seq<ModuleComplexity>,
    root: Seq<char>,
    ignore: Seq<Seq<char>>,
    changed: Option<Seq<String>>,
    max_cyclomatic: u16,
    max_cognitive: u16,
)
    ensures
        collected(ms, root, ignore, changed, max_cyclomatic, max_cognitive).1 <= ms.len(),
        collected(ms, root, ignore, changed, max_cyclomatic, max_cognitive).2 <= function_total(ms),
    decreases ms.len(),
{
    if ms.len() > 0 {
        lemma_collected_bounds(ms.drop_last(), root, ignore, changed, max_cyclomatic, max_cognitive);
    }
}

proof fn lemma_function_total_prefix(ms: Seq<ModuleComplexity>, k: int)
    requires
        0 <= k <= ms.len(),
    ensures
        function_total(ms.take(k)) <= function_total(ms),
    decreases ms.len() - k,
{
    if k < ms.len() {
        lemma_function_total_prefix(ms, k + 1);
        assert(ms.take(k + 1).drop_last() =~= ms.take(k));
    } else {
        assert(ms.take(k) =~= ms);
    }
}

/// Collect health findings from parsed modules: functions above either
/// threshold and not suppressed, in the modules whose file is in scope.
/// Also returns how many files and functions were looked at.
pub fn collect_findings(
    modules: &Vec<ModuleComplexity>,
    config_root: &str,
    ignore_set: &GlobSet,
    changed_files: Option<&Vec<String>>,
    max_cyclomatic: u16,
    max_cognitive: u16,
) -> (r: (Vec<HealthFinding>, usize, usize))
    requires
        function_total(modules@) <= usize::MAX,
    ensures
        ({
            let c = collected(
                modules@,
                config_root@,
                globset_globs(*ignore_set),
                match changed_files {
                    Some(v) => Some(v@),
                    None => None,
                },
                max_cyclomatic,
                max_cognitive,
            );
            &&& r.0@.map_values(|f: HealthFinding| health_finding_view(f)) == c.0
            &&& r.1 == c.1
            &&& r.2 == c.2
        }),
{
    let ghost ms = modules@;
    let ghost globs = globset_globs(*ignore_set);
    let ghost changed: Option<Seq<String>> = match changed_files {
        Some(v) => Some(v@),
        None => None,
    };
    let mut findings: Vec<HealthFinding> = Vec::new();
    let mut files_analyzed: usize = 0;
    let mut total_functions: usize = 0;
    let mut i: usize = 0;
    while i < modules.len()
        invariant
            ms == modules@,
            globs == globset_globs(*ignore_set),
            changed == (match changed_files {
                Some(v) => Some(v@),
                None => None::<Seq<String>>,
            }),
            function_total(ms) <= usize::MAX,
            i <= ms.len(),
            ({
                let c = collected(ms.take(i as int), config_root@, globs, changed, max_cyclomatic, max_cognitive);
                &&& findings@.map_values(|f: HealthFinding| health_finding_view(f)) == c.0
                &&& files_analyzed == c.1
                &&& total_functions == c.2
            }),
        decreases modules.len() - i,
    {
        let module = &modules[i];
        proof {
            assert(ms.take(i + 1).drop_last() =~= ms.take(i as int));
            assert(ms.take(i + 1).last() == ms[i as int]);
            lemma_collected_bounds(ms.take(i + 1), config_root@, globs, changed, max_cyclomatic, max_cognitive);
            lemma_function_total_prefix(ms, i + 1);
        }
        let path = match &module.path {
            Some(p) => p,
            None => {
                i = i + 1;
                continue;
            },
        };
        let relative = relative_or_self(path.as_str(), config_root);
        let glob_count = globset_len(ignore_set);
        let hits = globset_matches(ignore_set, relative.as_str());
        if hits.len() > 0 {
            proof {
                assert(hits@.contains(hits@[0]));
                assert(glob_matches(globs[hits@[0] as int], relative@));
                assert(ignored(globs, relative_to(path@, config_root@)));
            }
            i = i + 1;
            continue;
        }
        proof {
            assert(!ignored(globs, relative_to(path@, config_root@))) by {
                if ignored(globs, relative_to(path@, config_root@)) {
                    let k = choose|k: int| 0 <= k < globs.len() && glob_matches(#[trigger] globs[k], relative@);
                    assert(k < glob_count);
                    assert(hits@.contains(k as usize));
                }
            }
        }
        match changed_files {
            Some(c) => {
                if !contains_path(c, path.as_str()) {
                    i = i + 1;
                    continue;
                }
            },
            None => {},
        }
        files_analyzed = files_analyzed + 1;
        let ghost before = findings@.map_values(|f: HealthFinding| health_finding_view(f));
        let fs = &module.functions;
        let mut j: usize = 0;
        while j < fs.len()
            invariant
                j <= fs@.len(),
                findings@.map_values(|f: HealthFinding| health_finding_view(f)) == before + module_findings(
                    path@,
                    fs@.take(j as int),
                    max_cyclomatic,
                    max_cognitive,
                ),
            decreases fs.len() - j,
        {
            let fc = &fs[j];
            proof {
                assert(fs@.take(j + 1).drop_last() =~= fs@.take(j as int));
                assert(fs@.take(j + 1).last() == fs@[j as int]);
            }
            if !fc.suppressed {
                let exceeds_cyclomatic = fc.cyclomatic > max_cyclomatic;
                let exceeds_cognitive = fc.cognitive > max_cognitive;
                if exceeds_cyclomatic || exceeds_cognitive {
                    let exceeded = if exceeds_cyclomatic && exceeds_cognitive {
                        ExceededThreshold::Both
                    } else if exceeds_cyclomatic {
                        ExceededThreshold::Cyclomatic
                    } else {
                        ExceededThreshold::Cognitive
                    };
                    let f = HealthFinding {
                        path: path.clone(),
                        name: fc.name.clone(),
                        line: fc.line,
                        col: fc.col,
                        cyclomatic: fc.cyclomatic,
                        cognitive: fc.cognitive,
                        line_count: fc.line_count,
                        param_count: fc.param_count,
                        exceeded,
                        severity: compute_finding_severity(
                            fc.cognitive,
                            fc.cyclomatic,
                            DEFAULT_COGNITIVE_HIGH,
                            DEFAULT_COGNITIVE_CRITICAL,
                            DEFAULT_CYCLOMATIC_HIGH,
                            DEFAULT_CYCLOMATIC_CRITICAL,
                        ),
                    };
                    let ghost prev = findings@;
                    findings.push(f);
                    proof {
                        assert(findings@.map_values(|f: HealthFinding| health_finding_view(f))
                            =~= prev.map_values(|f: HealthFinding| health_finding_view(f)).push(
                            health_finding_view(f),
                        ));
                    }
                }
            }
            j = j + 1;
        }
        proof {
            assert(fs@.take(j as int) =~= fs@);
        }
        total_functions = total_functions + fs.len();
        i = i + 1;
    }
    proof {
        assert(ms.take(i as int) =~= ms);
    }
    (findings, files_analyzed, total_functions)
}

// ── Ignore globs ─────────────────────────────────────────────────

/// The patterns that compile as globs, in order.
pub open spec fn valid_patterns(ps: Seq<Seq<char>>) -> Seq<Seq<char>>
    decreases ps.len(),
{
    if ps.len() == 0 {
        Seq::empty()
    } else {
        let r = valid_patterns(ps.drop_last());
        if glob_new_outcome(ps.last()) is Ok {
            r.push(ps.last())
        } else {
            r
        }
    }
}

/// The warning printed for a pattern that does not compile.
pub open spec fn ignore_warning(pattern: Seq<char>, error: Seq<char>) -> Seq<char> {
    "Warning: Invalid health ignore pattern '"@ + pattern + "': "@ + error
}

/// The warnings for the patterns that do not compile, in order.
pub open spec fn ignore_warnings(ps: Seq<Seq<char>>) -> Seq<Seq<char>>
    decreases ps.len(),
{
    if ps.len() == 0 {
        Seq::empty()
    } else {
        let r = ignore_warnings(ps.drop_last());
        match glob_new_outcome(ps.last()) {
            Ok(_) => r,
            Err(e) => r.push(ignore_warning(ps.last(), e)),
        }
    }
}

/// Build the glob set of the health ignore patterns. A pattern that does
/// not compile is skipped with a warning (returned for the caller to print);
/// if the set cannot be built, it is empty.
pub fn build_ignore_set(patterns: &Vec<String>) -> (r: (GlobSet, Vec<String>))
    ensures
        globset_globs(r.0) == (if globset_build_outcome(valid_patterns(string_views(patterns@))) is Ok {
            valid_patterns(string_views(patterns@))
        } else {
            Seq::empty()
        }),
        string_views(r.1@) == ignore_warnings(string_views(patterns@)),
{
    let ghost ps = string_views(patterns@);
    let mut builder = builder_new();
    let mut warnings: Vec<String> = Vec::new();
    let mut i: usize = 0;
    while i < patterns.len()
        invariant
            ps == string_views(patterns@),
            i <= patterns@.len(),
            builder_globs(builder) == valid_patterns(ps.take(i as int)),
            string_views(warnings@) == ignore_warnings(ps.take(i as int)),
        decreases patterns.len() - i,
    {
        let pattern = &patterns[i];
        proof {
            assert(ps.take(i + 1).drop_last() =~= ps.take(i as int));
            assert(ps.take(i + 1).last() == pattern@);
        }
        match glob_new(pattern.as_str()) {
            Ok(glob) => {
                builder_add(&mut builder, glob);
            },
            Err(e) => {
                let mut msg = str_chars("Warning: Invalid health ignore pattern '");
                push_str(&mut msg, pattern.as_str());
                push_str(&mut msg, "': ");
                push_str(&mut msg, e.as_str());
                let w = chars_to_string(msg.as_slice());
                let ghost before = warnings@;
                warnings.push(w);
                proof {
                    assert(string_views(warnings@) =~= string_views(before).push(w@));
                    assert(w@ =~= ignore_warning(pattern@, e@));
                }
            },
        }
        i = i + 1;
    }
    proof {
        assert(ps.take(i as int) =~= ps);
    }
    let set = match builder_build(&builder) {
        Ok(s) => s,
        Err(_) => globset_empty(),
    };
    (set, warnings)
}

// ── Large functions ──────────────────────────────────────────────

/// Whether a module's file is looked at for large functions: in scope as
/// for findings, and below one of the workspace roots when those are given.
pub open spec fn large_scope(
    path: Option<String>,
    root: Seq<char>,
    ignore: Seq<Seq<char>>,
    changed: Option<Seq<String>>,
    ws_roots: Option<Seq<String>>,
) -> bool {
    module_in_scope(path, root, ignore, changed) && match ws_roots {
        Some(ws) => under_some_root(path->0@, ws),
        None => true,
    }
}

/// The plain values of a large-function entry.
pub type LargeView = (Seq<char>, Seq<char>, u32, u32);

/// The plain values of a large-function entry.
pub open spec fn large_view(e: LargeFunctionEntry) -> LargeView {
    (e.path@, e.name@, e.line, e.line_count)
}

/// The functions of a module longer than 60 lines, in order.
pub open spec fn module_large(path: Seq<char>, fs: Seq<FunctionComplexity>) -> Seq<LargeView>
    decreases fs.len(),
{
    if fs.len() == 0 {
        Seq::empty()
    } else {
        let r = module_large(path, fs.drop_last());
        if fs.last().line_count > 60 {
            r.push((path, fs.last().name@, fs.last().line, fs.last().line_count))
        } else {
            r
        }
    }
}

/// The large functions of the modules in scope, in module order.
pub open spec fn large_scan(
    ms: Seq<ModuleComplexity>,
    root: Seq<char>,
    ignore: Seq<Seq<char>>,
    changed: Option<Seq<String>>,
    ws_roots: Option<Seq<String>>,
) -> Seq<LargeView>
    decreases ms.len(),
{
    if ms.len() == 0 {
        Seq::empty()
    } else {
        let r = large_scan(ms.drop_last(), root, ignore, changed, ws_roots);
        let m = ms.last();
        if large_scope(m.path, root, ignore, changed, ws_roots) {
            r + module_large(m.path->0@, m.functions@)
        } else {
            r
        }
    }
}

/// Large functions are listed longest first.
pub open spec fn large_key(e: LargeView) -> KeyView {
    ((u32::MAX - e.3) as nat, Seq::empty(), 0, Seq::empty())
}

/// The sort keys of large-function views.
pub open spec fn large_keys(v: Seq<LargeView>) -> Seq<KeyView> {
    v.map_values(|e: LargeView| large_key(e))
}

/// Whether a path lies below one of the roots.
pub open spec fn under_some_root(path: Seq<char>, roots: Seq<String>) -> bool {
    exists|k: int| 0 <= k < roots.len() && path_starts_with(path, #[trigger] roots[k]@)
}

pub(crate) fn under_any_root(path: &str, roots: &Vec<String>) -> (r: bool)
    ensures
        r == under_some_root(path@, roots@),
{
    let mut k: usize = 0;
    while k < roots.len()
        invariant
            k <= roots@.len(),
            forall|j: int| 0 <= j < k ==> !path_starts_with(path@, #[trigger] roots@[j]@),
        decreases roots.len() - k,
    {
        if path_starts_with_exec(path, roots[k].as_str()) {
            return true;
        }
        k = k + 1;
    }
    false
}

/// The functions longer than 60 lines in the files in scope, longest first
/// (a stable order among equal lengths), when the unit-size profile is
/// dominated by very-high-risk functions; otherwise none.
pub fn collect_large_functions(
    dominated: bool,
    modules: &Vec<ModuleComplexity>,
    config_root: &str,
    ignore_set: &GlobSet,
    changed_files: Option<&Vec<String>>,
    ws_roots: Option<&Vec<String>>,
) -> (r: Vec<LargeFunctionEntry>)
    ensures
        ({
            let scan = large_scan(
                modules@,
                config_root@,
                globset_globs(*ignore_set),
                match changed_files {
                    Some(v) => Some(v@),
                    None => None,
                },
                match ws_roots {
                    Some(v) => Some(v@),
                    None => None,
                },
            );
            let rv = r@.map_values(|e: LargeFunctionEntry| large_view(e));
            if dominated {
                stably_sorted(rv, large_keys(rv), scan, large_keys(scan))
            } else {
                r@.len() == 0
            }
        }),
{
    if !dominated {
        return Vec::new();
    }
    let ghost ms = modules@;
    let ghost globs = globset_globs(*ignore_set);
    let ghost changed: Option<Seq<String>> = match changed_files {
        Some(v) => Some(v@),
        None => None,
    };
    let ghost ws: Option<Seq<String>> = match ws_roots {
        Some(v) => Some(v@),
        None => None,
    };
    let mut entries: Vec<LargeFunctionEntry> = Vec::new();
    let mut keys: Vec<SortKey> = Vec::new();
    let mut i: usize = 0;
    while i < modules.len()
        invariant
            ms == modules@,
            globs == globset_globs(*ignore_set),
            changed == (match changed_files {
                Some(v) => Some(v@),
                None => None::<Seq<String>>,
            }),
            ws == (match ws_roots {
                Some(v) => Some(v@),
                None => None::<Seq<String>>,
            }),
            i <= ms.len(),
            entries@.len() == keys@.len(),
            entries@.map_values(|e: LargeFunctionEntry| large_view(e)) == large_scan(
                ms.take(i as int),
                config_root@,
                globs,
                changed,
                ws,
            ),
            key_views(keys@) == large_keys(entries@.map_values(|e: LargeFunctionEntry| large_view(e))),
        decreases modules.len() - i,
    {
        let module = &modules[i];
        proof {
            assert(ms.take(i + 1).drop_last() =~= ms.take(i as int));
            assert(ms.take(i + 1).last() == ms[i as int]);
        }
        let path = match &module.path {
            Some(p) => p,
            None => {
                i = i + 1;
                continue;
            },
        };
        let relative = relative_or_self(path.as_str(), config_root);
        let glob_count = globset_len(ignore_set);
        let hits = globset_matches(ignore_set, relative.as_str());
        if hits.len() > 0 {
            proof {
                assert(hits@.contains(hits@[0]));
                assert(glob_matches(globs[hits@[0] as int], relative@));
                assert(ignored(globs, relative_to(path@, config_root@)));
            }
            i = i + 1;
            continue;
        }
        proof {
            assert(!ignored(globs, relative_to(path@, config_root@))) by {
                if ignored(globs, relative_to(path@, config_root@)) {
                    let k = choose|k: int| 0 <= k < globs.len() && glob_matches(#[trigger] globs[k], relative@);
                    assert(k < glob_count);
                    assert(hits@.contains(k as usize));
                }
            }
        }
        match changed_files {
            Some(c) => {
                if !contains_path(c, path.as_str()) {
                    i = i + 1;
                    continue;
                }
            },
            None => {},
        }
        let in_roots = match ws_roots {
            Some(w) => under_any_root(path.as_str(), w),
            None => true,
        };
        proof {
            assert(in_roots == match ws {
                Some(wv) => under_some_root(path@, wv),
                None => true,
            });
        }
        if !in_roots {
            i = i + 1;
            continue;
        }
        let ghost before = entries@.map_values(|e: LargeFunctionEntry| large_view(e));
        let fs = &module.functions;
        let mut j: usize = 0;
        while j < fs.len()
            invariant
                j <= fs@.len(),
                entries@.len() == keys@.len(),
                entries@.map_values(|e: LargeFunctionEntry| large_view(e)) == before + module_large(
                    path@,
                    fs@.take(j as int),
                ),
                key_views(keys@) == large_keys(entries@.map_values(|e: LargeFunctionEntry| large_view(e))),
            decreases fs.len() - j,
        {
            let func = &fs[j];
            proof {
                assert(fs@.take(j + 1).drop_last() =~= fs@.take(j as int));
                assert(fs@.take(j + 1).last() == fs@[j as int]);
            }
            if func.line_count > 60 {
                let e = LargeFunctionEntry {
                    path: path.clone(),
                    name: func.name.clone(),
                    line: func.line,
                    line_count: func.line_count,
                };
                let k = SortKey {
                    primary: (u32::MAX - func.line_count) as u64,
                    parts: Vec::new(),
                    secondary: 0,
                    name: Vec::new(),
                };
                let ghost prev = entries@;
                let ghost prev_keys = keys@;
                entries.push(e);
                keys.push(k);
                proof {
                    assert(entries@.map_values(|e: LargeFunctionEntry| large_view(e)) =~= prev.map_values(
                        |e: LargeFunctionEntry| large_view(e),
                    ).push(large_view(e)));
                    assert(crate::ordering::parts_view(k.parts@) =~= Seq::<crate::ordering::PathPart>::empty());
                    assert(k.name@ =~= Seq::<char>::empty());
                    assert(key_views(keys@) =~= key_views(prev_keys).push(crate::ordering::key_view(k)));
                    assert(large_keys(prev.map_values(|e: LargeFunctionEntry| large_view(e)).push(large_view(e)))
                        =~= large_keys(prev.map_values(|e: LargeFunctionEntry| large_view(e))).push(large_key(large_view(e))));
                }
            }
            j = j + 1;
        }
        proof {
            assert(fs@.take(j as int) =~= fs@);
            assert(module_in_scope(ms[i as int].path, config_root@, globs, changed));
            assert(large_scope(ms[i as int].path, config_root@, globs, changed, ws));
        }
        i = i + 1;
    }
    proof {
        assert(ms.take(i as int) =~= ms);
    }
    let ghost items = entries@;
    let ghost ikeys = key_views(keys@);
    let (sorted, sorted_keys) = stable_sort_by_key(entries, keys);
    proof {
        let view = |e: LargeFunctionEntry| large_view(e);
        crate::ordering::lemma_tagged_view(sorted@, key_views(sorted_keys@), view);
        crate::ordering::lemma_tagged_view(items, ikeys, view);
        let sv = sorted@.map_values(view);
        let scan = large_scan(ms, config_root@, globs, changed, ws);
        assert(items.map_values(view) == scan);
        assert forall|k: KeyView| #[trigger]
            crate::ordering::with_sort_key(crate::ordering::tagged(sv, key_views(sorted_keys@)), k)
                == crate::ordering::with_sort_key(crate::ordering::tagged(scan, large_keys(scan)), k) by {
            assert(crate::ordering::tagged(items.map_values(view), ikeys) =~= crate::ordering::tagged(scan, large_keys(scan)));
        }
        crate::ordering::lemma_keys_follow_items(sv, key_views(sorted_keys@), scan, |e: LargeView| large_key(e));
        assert(large_keys(sv) =~= sv.map_values(|e: LargeView| large_key(e)));
        assert(large_keys(scan) =~= scan.map_values(|e: LargeView| large_key(e)));
    }
    sorted
}

// ── Health scope ─────────────────────────────────────────────────

/// Whether a glob set ignores a path (relative to the project root).
pub fn is_ignored(ignore_set: &GlobSet, relative: &str) -> (r: bool)
    ensures
        r == ignored(globset_globs(*ignore_set), relative@),
{
    let globs = Ghost(globset_globs(*ignore_set));
    let glob_count = globset_len(ignore_set);
    let hits = globset_matches(ignore_set, relative);
    if hits.len() > 0 {
        proof {
            assert(hits@.contains(hits@[0]));
            assert(glob_matches(globs@[hits@[0] as int], relative@));
        }
        true
    } else {
        proof {
            if ignored(globs@, relative@) {
                let k = choose|k: int| 0 <= k < globs@.len() && glob_matches(#[trigger] globs@[k], relative@);
                assert(k < glob_count);
                assert(hits@.contains(k as usize));
            }
        }
        false
    }
}

/// Whether a file is looked at by a health run: among the changed files when
/// those are given, below one of the workspace roots when those are given,
/// and not ignored.
pub open spec fn in_health_scope(
    path: Seq<char>,
    root: Seq<char>,
    changed: Option<Seq<String>>,
    ws_roots: Option<Seq<String>>,
    ignore: Seq<Seq<char>>,
) -> bool {
    &&& match changed {
        Some(c) => holds_path(c, path),
        None => true,
    }
    &&& match ws_roots {
        Some(ws) => under_some_root(path, ws),
        None => true,
    }
    &&& !ignored(ignore, relative_to(path, root))
}

/// Whether a file is looked at by a health run.
pub fn path_in_health_scope(
    path: &str,
    root: &str,
    changed_files: Option<&Vec<String>>,
    ws_roots: Option<&Vec<String>>,
    ignore_set: &GlobSet,
) -> (r: bool)
    ensures
        r == in_health_scope(
            path@,
            root@,
            match changed_files {
                Some(v) => Some(v@),
                None => None,
            },
            match ws_roots {
                Some(v) => Some(v@),
                None => None,
            },
            globset_globs(*ignore_set),
        ),
{
    let in_changed = match changed_files {
        Some(changed) => contains_path(changed, path),
        None => true,
    };
    let in_ws = match ws_roots {
        Some(ws) => under_any_root(path, ws),
        None => true,
    };
    let relative = relative_or_self(path, root);
    in_changed && in_ws && !is_ignored(ignore_set, relative.as_str())
}

/// Whether a file is left out of the hotspots: outside the workspace root
/// when one is given, or ignored.
pub open spec fn excluded_from_hotspots(
    path: Seq<char>,
    root: Seq<char>,
    ignore: Seq<Seq<char>>,
    ws_root: Option<Seq<char>>,
) -> bool {
    ||| match ws_root {
        Some(ws) => !path_starts_with(path, ws),
        None => false,
    }
    ||| ignored(ignore, relative_to(path, root))
}

/// Whether a file is left out of the hotspots.
pub fn is_excluded_from_hotspots(path: &str, root: &str, ignore_set: &GlobSet, ws_root: Option<&str>) -> (r:
    bool)
    ensures
        r == excluded_from_hotspots(
            path@,
            root@,
            globset_globs(*ignore_set),
            match ws_root {
                Some(w) => Some(w@),
                None => None,
            },
        ),
{
    if let Some(ws) = ws_root {
        if !path_starts_with_exec(path, ws) {
            return true;
        }
    }
    let relative = relative_or_self(path, root);
    is_ignored(ignore_set, relative.as_str())
}

// ── Module totals ────────────────────────────────────────────────

/// The summed cyclomatic complexity of functions.
pub open spec fn total_cyclomatic(fs: Seq<FunctionComplexity>) -> nat
    decreases fs.len(),
{
    if fs.len() == 0 {
        0
    } else {
        total_cyclomatic(fs.drop_last()) + fs.last().cyclomatic as nat
    }
}

/// The summed cognitive complexity of functions.
pub open spec fn total_cognitive(fs: Seq<FunctionComplexity>) -> nat
    decreases fs.len(),
{
    if fs.len() == 0 {
        0
    } else {
        total_cognitive(fs.drop_last()) + fs.last().cognitive as nat
    }
}

proof fn lemma_totals_grow(fs: Seq<FunctionComplexity>, i: int)
    requires
        0 <= i <= fs.len(),
    ensures
        total_cyclomatic(fs.take(i)) <= total_cyclomatic(fs),
        total_cognitive(fs.take(i)) <= total_cognitive(fs),
    decreases fs.len() - i,
{
    if i < fs.len() {
        lemma_totals_grow(fs, i + 1);
        assert(fs.take(i + 1).drop_last() =~= fs.take(i));
    } else {
        assert(fs.take(i) =~= fs);
    }
}

/// The totals of a module: summed cyclomatic and cognitive complexity, the
/// number of functions, and the number of lines (the length of its line
/// offsets, as a `u32`).
pub fn aggregate_complexity(functions: &Vec<FunctionComplexity>, line_offsets_len: usize) -> (r: (
    u32,
    u32,
    usize,
    u32,
))
    requires
        total_cyclomatic(functions@) <= u32::MAX,
        total_cognitive(functions@) <= u32::MAX,
    ensures
        r.0 == total_cyclomatic(functions@),
        r.1 == total_cognitive(functions@),
        r.2 == functions@.len(),
        r.3 == line_offsets_len as u32,
{
    let ghost fs = functions@;
    let mut cyc: u32 = 0;
    let mut cog: u32 = 0;
    let mut i: usize = 0;
    while i < functions.len()
        invariant
            fs == functions@,
            i <= fs.len(),
            total_cyclomatic(fs) <= u32::MAX,
            total_cognitive(fs) <= u32::MAX,
            cyc == total_cyclomatic(fs.take(i as int)),
            cog == total_cognitive(fs.take(i as int)),
        decreases functions.len() - i,
    {
        proof {
            assert(fs.take(i + 1).drop_last() =~= fs.take(i as int));
            lemma_totals_grow(fs, i + 1);
        }
        cyc = cyc + functions[i].cyclomatic as u32;
        cog = cog + functions[i].cognitive as u32;
        i = i + 1;
    }
    proof {
        assert(fs.take(i as int) =~= fs);
    }
    (cyc, cog, functions.len(), line_offsets_len as u32)
}

} // verus!
