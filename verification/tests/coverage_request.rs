use fallow_cli::complexity::{FunctionComplexity, ModuleComplexity};
use fallow_cli::coverage_request::{
    coverage_sources, has_json_extension, looks_like_istanbul, static_findings, CoverageSource,
};
use globset::GlobSet;

fn function(name: &str, line: u32, line_count: u32, cyclomatic: u16) -> FunctionComplexity {
    FunctionComplexity {
        name: name.to_string(),
        line,
        col: 0,
        cyclomatic,
        cognitive: 0,
        line_count,
        param_count: 0,
        suppressed: false,
    }
}

fn module(path: Option<&str>, functions: Vec<FunctionComplexity>) -> ModuleComplexity {
    ModuleComplexity { path: path.map(str::to_owned), functions }
}

#[test]
fn detects_istanbul_file_by_name() {
    assert!(looks_like_istanbul("coverage-final.json"));
    assert!(!looks_like_istanbul("coverage.json"));
}

#[test]
fn istanbul_name_is_the_final_component() {
    assert!(looks_like_istanbul("/tmp/cov/coverage-final.json"));
    assert!(looks_like_istanbul("cov/coverage-final.json/"));
    assert!(!looks_like_istanbul("coverage-final.json/.."));
    assert!(!looks_like_istanbul("coverage-final.json.bak"));
}

#[test]
fn directory_sources_are_sorted_and_classified() {
    let files = vec![
        "/cov/coverage-final.json".to_string(),
        "/cov/chunk-1.json".to_string(),
    ];
    let sources = coverage_sources("/cov", true, files);
    assert_eq!(sources.len(), 2);
    assert_eq!(sources[0], CoverageSource::V8 { path: "/cov/chunk-1.json".to_string() });
    assert_eq!(
        sources[1],
        CoverageSource::Istanbul { path: "/cov/coverage-final.json".to_string() }
    );
}

#[test]
fn single_file_and_empty_directory_sources() {
    assert_eq!(
        coverage_sources("out/coverage-final.json", false, vec![]),
        vec![CoverageSource::Istanbul { path: "out/coverage-final.json".to_string() }]
    );
    assert_eq!(
        coverage_sources("out/v8.json", false, vec![]),
        vec![CoverageSource::V8 { path: "out/v8.json".to_string() }]
    );
    assert_eq!(
        coverage_sources("out", true, vec![]),
        vec![CoverageSource::V8Dir { path: "out".to_string() }]
    );
}

#[test]
fn json_extension_follows_path_rules() {
    assert!(has_json_extension("/cov/a.json"));
    assert!(has_json_extension("a.b.json"));
    assert!(!has_json_extension("/cov/.json"));
    assert!(!has_json_extension("/cov/a.jsonl"));
    assert!(!has_json_extension("/cov/json"));
}

#[test]
fn static_findings_keep_files_in_scope_with_functions() {
    let mut builder = globset::GlobSetBuilder::new();
    builder.add(globset::Glob::new("gen/**").unwrap());
    let ignore = builder.build().unwrap();
    let modules = vec![
        module(Some("/p/src/a.ts"), vec![function("f", 3, 4, 2), function("g", 10, u32::MAX, 1)]),
        module(Some("/p/gen/b.ts"), vec![function("h", 1, 1, 1)]),
        module(Some("/p/src/empty.ts"), vec![]),
        module(None, vec![function("i", 1, 1, 1)]),
        module(Some("/q/c.ts"), vec![function("j", 1, 1, 1)]),
    ];
    let (files, locations) = static_findings("/p", &modules, &ignore, None, Some("/p/src"));
    assert_eq!(files.len(), 1);
    assert_eq!(files[0].path, "/p/src/a.ts");
    assert_eq!(files[0].functions.len(), 2);
    assert_eq!(files[0].functions[0].name, "f");
    assert_eq!(files[0].functions[0].start_line, 3);
    assert_eq!(files[0].functions[0].end_line, 7);
    assert_eq!(files[0].functions[0].cyclomatic, 2);
    assert_eq!(files[0].functions[1].end_line, u32::MAX);
    assert_eq!(locations.len(), 2);
    assert_eq!(locations[1].file, "/p/src/a.ts");
    assert_eq!(locations[1].function, "g");
    assert_eq!(locations[1].line, 10);

    let none = GlobSet::empty();
    let changed = vec!["/q/c.ts".to_string()];
    let (files, _) = static_findings("/p", &modules, &none, Some(&changed), None);
    assert_eq!(files.len(), 1);
    assert_eq!(files[0].path, "/q/c.ts");
}
