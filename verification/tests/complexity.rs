use fallow_cli::complexity::{
    aggregate_complexity, build_ignore_set, collect_findings, collect_large_functions,
    is_excluded_from_hotspots, path_in_health_scope, FunctionComplexity, ModuleComplexity,
};
use fallow_cli::scores::{ExceededThreshold, FindingSeverity};
use globset::GlobSet;

fn make_module(path: Option<&str>, complexity: Vec<FunctionComplexity>) -> ModuleComplexity {
    ModuleComplexity { path: path.map(str::to_owned), functions: complexity }
}

fn make_fc(name: &str, cyclomatic: u16, cognitive: u16, line_count: u32) -> FunctionComplexity {
    FunctionComplexity {
        name: name.to_string(),
        line: 1,
        col: 0,
        cyclomatic,
        cognitive,
        line_count,
        param_count: 0,
        suppressed: false,
    }
}

// ── build_ignore_set ────────────────────────────────────────

#[test]
fn build_ignore_set_empty_patterns() {
    let (set, warnings) = build_ignore_set(&vec![]);
    assert!(set.is_empty());
    assert!(warnings.is_empty());
}

#[test]
fn build_ignore_set_matches_glob() {
    let (set, _) = build_ignore_set(&vec!["src/generated/**".to_string()]);
    assert!(set.is_match("src/generated/types.ts"));
    assert!(!set.is_match("src/utils.ts"));
}

#[test]
fn build_ignore_set_multiple_patterns() {
    let (set, _) = build_ignore_set(&vec!["*.test.ts".to_string(), "dist/**".to_string()]);
    assert!(set.is_match("foo.test.ts"));
    assert!(set.is_match("dist/index.js"));
    assert!(!set.is_match("src/index.ts"));
}

#[test]
fn build_ignore_set_skips_invalid_patterns() {
    let (set, warnings) = build_ignore_set(&vec!["[invalid".to_string(), "*.js".to_string()]);
    assert!(set.is_match("foo.js"));
    assert_eq!(set.len(), 1);
    assert_eq!(warnings.len(), 1);
    assert!(warnings[0].starts_with("Warning: Invalid health ignore pattern '[invalid': "));
}

// ── collect_findings ────────────────────────────────────────

#[test]
fn collect_findings_empty_modules() {
    let (findings, files, functions) =
        collect_findings(&vec![], "/project", &GlobSet::empty(), None, 20, 15);
    assert!(findings.is_empty());
    assert_eq!(files, 0);
    assert_eq!(functions, 0);
}

#[test]
fn collect_findings_below_threshold() {
    let modules = vec![make_module(Some("/project/src/a.ts"), vec![make_fc("doStuff", 5, 3, 10)])];
    let (findings, files, functions) =
        collect_findings(&modules, "/project", &GlobSet::empty(), None, 20, 15);
    assert!(findings.is_empty());
    assert_eq!(files, 1);
    assert_eq!(functions, 1);
}

#[test]
fn collect_findings_exceeds_cyclomatic_only() {
    let modules = vec![make_module(Some("/project/src/a.ts"), vec![make_fc("complexFn", 25, 5, 50)])];
    let (findings, _, _) = collect_findings(&modules, "/project", &GlobSet::empty(), None, 20, 15);
    assert_eq!(findings.len(), 1);
    assert_eq!(findings[0].cyclomatic, 25);
    assert!(matches!(findings[0].exceeded, ExceededThreshold::Cyclomatic));
}

#[test]
fn collect_findings_exceeds_cognitive_only() {
    let modules = vec![make_module(Some("/project/src/a.ts"), vec![make_fc("nestedFn", 5, 20, 30)])];
    let (findings, _, _) = collect_findings(&modules, "/project", &GlobSet::empty(), None, 20, 15);
    assert_eq!(findings.len(), 1);
    assert!(matches!(findings[0].exceeded, ExceededThreshold::Cognitive));
}

#[test]
fn collect_findings_exceeds_both() {
    let modules = vec![make_module(Some("/project/src/a.ts"), vec![make_fc("terribleFn", 25, 20, 100)])];
    let (findings, _, _) = collect_findings(&modules, "/project", &GlobSet::empty(), None, 20, 15);
    assert_eq!(findings.len(), 1);
    assert!(matches!(findings[0].exceeded, ExceededThreshold::Both));
}

#[test]
fn collect_findings_multiple_functions_per_file() {
    let modules = vec![make_module(
        Some("/project/src/a.ts"),
        vec![make_fc("ok", 5, 3, 10), make_fc("bad", 25, 20, 50), make_fc("also_bad", 21, 5, 30)],
    )];
    let (findings, files, functions) =
        collect_findings(&modules, "/project", &GlobSet::empty(), None, 20, 15);
    assert_eq!(findings.len(), 2);
    assert_eq!(files, 1);
    assert_eq!(functions, 3);
}

#[test]
fn collect_findings_ignores_matching_files() {
    let modules = vec![make_module(
        Some("/project/src/generated/types.ts"),
        vec![make_fc("genFn", 25, 20, 50)],
    )];
    let (ignore_set, _) = build_ignore_set(&vec!["src/generated/**".to_string()]);
    let (findings, files, _) = collect_findings(&modules, "/project", &ignore_set, None, 20, 15);
    assert!(findings.is_empty());
    assert_eq!(files, 0);
}

#[test]
fn collect_findings_filters_by_changed_files() {
    let modules = vec![
        make_module(Some("/project/src/a.ts"), vec![make_fc("fnA", 25, 20, 50)]),
        make_module(Some("/project/src/b.ts"), vec![make_fc("fnB", 25, 20, 50)]),
    ];
    let changed = vec!["/project/src/a.ts".to_owned()];
    let (findings, files, _) =
        collect_findings(&modules, "/project", &GlobSet::empty(), Some(&changed), 20, 15);
    assert_eq!(findings.len(), 1);
    assert_eq!(findings[0].name, "fnA");
    assert_eq!(files, 1);
}

#[test]
fn collect_findings_changed_files_compare_as_paths() {
    let modules = vec![make_module(Some("/project/src/a.ts"), vec![make_fc("fnA", 25, 20, 50)])];
    let changed = vec!["/project//src/./a.ts".to_owned()];
    let (findings, _, _) =
        collect_findings(&modules, "/project", &GlobSet::empty(), Some(&changed), 20, 15);
    assert_eq!(findings.len(), 1);
}

#[test]
fn collect_findings_skips_module_without_path() {
    let modules = vec![make_module(None, vec![make_fc("orphan", 25, 20, 50)])];
    let (findings, files, _) = collect_findings(&modules, "/project", &GlobSet::empty(), None, 20, 15);
    assert!(findings.is_empty());
    assert_eq!(files, 0);
}

#[test]
fn collect_findings_at_exact_threshold_not_reported() {
    let modules = vec![make_module(Some("/project/src/a.ts"), vec![make_fc("borderline", 20, 15, 20)])];
    let (findings, _, _) = collect_findings(&modules, "/project", &GlobSet::empty(), None, 20, 15);
    assert!(findings.is_empty());
}

#[test]
fn collect_findings_skips_suppressed_functions() {
    let mut fc = make_fc("quiet", 25, 20, 50);
    fc.suppressed = true;
    let modules = vec![make_module(Some("/project/src/a.ts"), vec![fc])];
    let (findings, files, functions) =
        collect_findings(&modules, "/project", &GlobSet::empty(), None, 20, 15);
    assert!(findings.is_empty());
    assert_eq!((files, functions), (1, 1));
}

#[test]
fn collect_findings_preserves_function_metadata() {
    let modules = vec![make_module(
        Some("/project/src/a.ts"),
        vec![FunctionComplexity {
            name: "processData".to_string(),
            line: 42,
            col: 8,
            cyclomatic: 25,
            cognitive: 18,
            line_count: 75,
            param_count: 2,
            suppressed: false,
        }],
    )];
    let (findings, _, _) = collect_findings(&modules, "/project", &GlobSet::empty(), None, 20, 15);
    assert_eq!(findings.len(), 1);
    let f = &findings[0];
    assert_eq!(f.name, "processData");
    assert_eq!(f.line, 42);
    assert_eq!(f.col, 8);
    assert_eq!(f.cyclomatic, 25);
    assert_eq!(f.cognitive, 18);
    assert_eq!(f.line_count, 75);
    assert_eq!(f.param_count, 2);
    assert_eq!(f.path, "/project/src/a.ts");
    assert_eq!(f.severity, FindingSeverity::Moderate);
}

// ── collect_large_functions ─────────────────────────────────

#[test]
fn large_functions_only_when_dominated() {
    let modules = vec![make_module(Some("/p/src/a.ts"), vec![make_fc("big", 1, 1, 100)])];
    assert!(collect_large_functions(false, &modules, "/p", &GlobSet::empty(), None, None).is_empty());
    assert_eq!(collect_large_functions(true, &modules, "/p", &GlobSet::empty(), None, None).len(), 1);
}

#[test]
fn large_functions_sorted_longest_first_and_scoped() {
    let modules = vec![
        make_module(Some("/p/pkg/a/x.ts"), vec![make_fc("a1", 1, 1, 61), make_fc("a2", 1, 1, 60)]),
        make_module(Some("/p/pkg/b/y.ts"), vec![make_fc("b1", 1, 1, 200), make_fc("b2", 1, 1, 61)]),
        make_module(Some("/p/other/z.ts"), vec![make_fc("c1", 1, 1, 500)]),
    ];
    let roots = vec!["/p/pkg".to_owned()];
    let entries = collect_large_functions(true, &modules, "/p", &GlobSet::empty(), None, Some(&roots));
    let names: Vec<(&str, u32)> = entries.iter().map(|e| (e.name.as_str(), e.line_count)).collect();
    assert_eq!(names, vec![("b1", 200), ("a1", 61), ("b2", 61)]);
}

// ── is_excluded_from_hotspots ───────────────────────────────

fn glob_set(patterns: &[&str]) -> GlobSet {
    let mut builder = globset::GlobSetBuilder::new();
    for p in patterns {
        builder.add(globset::Glob::new(p).unwrap());
    }
    builder.build().unwrap()
}

#[test]
fn excluded_no_filters() {
    let ignore_set = GlobSet::empty();
    assert!(!is_excluded_from_hotspots("/project/src/foo.ts", "/project", &ignore_set, None));
}

#[test]
fn excluded_workspace_filter_mismatch() {
    let ignore_set = GlobSet::empty();
    assert!(is_excluded_from_hotspots(
        "/project/packages/b/src/foo.ts",
        "/project",
        &ignore_set,
        Some("/project/packages/a")
    ));
}

#[test]
fn excluded_workspace_filter_match() {
    let ignore_set = GlobSet::empty();
    assert!(!is_excluded_from_hotspots(
        "/project/packages/a/src/foo.ts",
        "/project",
        &ignore_set,
        Some("/project/packages/a")
    ));
}

#[test]
fn excluded_matching_glob() {
    let ignore_set = glob_set(&["src/generated/**"]);
    assert!(is_excluded_from_hotspots(
        "/project/src/generated/types.ts",
        "/project",
        &ignore_set,
        None
    ));
}

#[test]
fn excluded_non_matching_glob() {
    let ignore_set = glob_set(&["src/generated/**"]);
    assert!(!is_excluded_from_hotspots(
        "/project/src/components/Button.tsx",
        "/project",
        &ignore_set,
        None
    ));
}

// ── path_in_health_scope ────────────────────────────────────

#[test]
fn health_scope_applies_each_filter() {
    let none = GlobSet::empty();
    let ignore = glob_set(&["dist/**"]);
    let changed = vec!["/p/src/a.ts".to_string()];
    let ws = vec!["/p/packages/x".to_string(), "/p/src".to_string()];
    assert!(path_in_health_scope("/p/src/a.ts", "/p", None, None, &none));
    assert!(path_in_health_scope("/p/src/a.ts", "/p", Some(&changed), Some(&ws), &none));
    assert!(path_in_health_scope("/p/src//a.ts", "/p", Some(&changed), None, &none));
    assert!(!path_in_health_scope("/p/src/b.ts", "/p", Some(&changed), None, &none));
    assert!(!path_in_health_scope("/p/lib/a.ts", "/p", None, Some(&ws), &none));
    assert!(!path_in_health_scope("/p/dist/a.js", "/p", None, None, &ignore));
    assert!(path_in_health_scope("/elsewhere/dist/a.js", "/p", None, None, &ignore));
}

// ── aggregate_complexity ────────────────────────────────────

fn located(name: &str, line: u32, cyclomatic: u16, cognitive: u16, line_count: u32) -> FunctionComplexity {
    FunctionComplexity { line, ..make_fc(name, cyclomatic, cognitive, line_count) }
}

#[test]
fn aggregate_complexity_empty_module() {
    let (cyc, cog, funcs, lines) = aggregate_complexity(&vec![], 0);
    assert_eq!(cyc, 0);
    assert_eq!(cog, 0);
    assert_eq!(funcs, 0);
    assert_eq!(lines, 0);
}

#[test]
fn aggregate_complexity_single_function() {
    let line_offsets: Vec<u32> = vec![0, 10, 20, 30, 40]; // 5 lines
    let (cyc, cog, funcs, lines) =
        aggregate_complexity(&vec![located("doStuff", 1, 7, 4, 5)], line_offsets.len());
    assert_eq!(cyc, 7);
    assert_eq!(cog, 4);
    assert_eq!(funcs, 1);
    assert_eq!(lines, 5);
}

#[test]
fn aggregate_complexity_multiple_functions() {
    let line_offsets: Vec<u32> = vec![0, 10, 20]; // 3 lines
    let (cyc, cog, funcs, lines) = aggregate_complexity(
        &vec![located("a", 1, 3, 2, 1), located("b", 2, 5, 8, 2)],
        line_offsets.len(),
    );
    assert_eq!(cyc, 8);
    assert_eq!(cog, 10);
    assert_eq!(funcs, 2);
    assert_eq!(lines, 3);
}
