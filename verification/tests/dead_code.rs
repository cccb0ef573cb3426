use fallow_cli::dead_code::{
    dead_code_introduced, dead_code_keys, health_finding_key, retain_introduced_dead_code,
    BoundaryViolationIssue, CircularDependencyIssue, DeadCodeResults, DependencyLocation,
    DuplicateExportIssue, ImportSite, PathNameIssue, PrivateTypeLeakIssue,
    StaleSuppressionIssue, UnlistedDependencyIssue, UnusedDependencyIssue, UnusedMemberIssue,
};
use fallow_cli::inputs::IssueFilters;
use fallow_cli::paths::{is_fallow_cache_artifact, relative_key_path};
use fallow_cli::scores::{ExceededThreshold, FindingSeverity, HealthFinding};

fn empty() -> DeadCodeResults {
    DeadCodeResults {
        unused_files: vec![],
        unused_exports: vec![],
        unused_types: vec![],
        private_type_leaks: vec![],
        unused_dependencies: vec![],
        unused_dev_dependencies: vec![],
        unused_optional_dependencies: vec![],
        unused_enum_members: vec![],
        unused_class_members: vec![],
        unresolved_imports: vec![],
        unlisted_dependencies: vec![],
        duplicate_exports: vec![],
        type_only_dependencies: vec![],
        test_only_dependencies: vec![],
        circular_dependencies: vec![],
        boundary_violations: vec![],
        stale_suppressions: vec![],
    }
}

fn pn(path: &str, name: &str) -> PathNameIssue {
    PathNameIssue { path: path.to_owned(), name: name.to_owned() }
}

fn sample() -> DeadCodeResults {
    DeadCodeResults {
        unused_files: vec!["/repo/src/old.ts".to_owned()],
        unused_exports: vec![pn("/repo/src/a.ts", "foo"), pn("/repo/src/b.ts", "bar")],
        unused_types: vec![pn("/repo/src/t.ts", "T")],
        private_type_leaks: vec![PrivateTypeLeakIssue {
            path: "/repo/src/l.ts".to_owned(),
            export_name: "api".to_owned(),
            leaked_type: "Inner".to_owned(),
        }],
        unused_dependencies: vec![UnusedDependencyIssue {
            location: DependencyLocation::Dependencies,
            path: "/repo/package.json".to_owned(),
            package_name: "lodash".to_owned(),
        }],
        unused_dev_dependencies: vec![UnusedDependencyIssue {
            location: DependencyLocation::DevDependencies,
            path: "/repo/package.json".to_owned(),
            package_name: "jest".to_owned(),
        }],
        unused_optional_dependencies: vec![],
        unused_enum_members: vec![UnusedMemberIssue {
            path: "/repo/src/e.ts".to_owned(),
            parent_name: "Color".to_owned(),
            member_name: "Red".to_owned(),
        }],
        unused_class_members: vec![],
        unresolved_imports: vec![pn("/repo/src/i.ts", "./missing")],
        unlisted_dependencies: vec![UnlistedDependencyIssue {
            package_name: "chalk".to_owned(),
            imported_from: vec![
                ImportSite { path: "/repo/src/z.ts".to_owned(), line: 3, col: 1 },
                ImportSite { path: "/repo/src/a.ts".to_owned(), line: 10, col: 0 },
                ImportSite { path: "/repo/src/z.ts".to_owned(), line: 3, col: 1 },
            ],
        }],
        duplicate_exports: vec![DuplicateExportIssue {
            export_name: "dup".to_owned(),
            locations: vec!["/repo/src/y.ts".to_owned(), "/repo/src/x.ts".to_owned(), "/repo/src/y.ts".to_owned()],
        }],
        type_only_dependencies: vec![pn("/repo/package.json", "zod")],
        test_only_dependencies: vec![],
        circular_dependencies: vec![CircularDependencyIssue {
            files: vec!["/repo/src/c.ts".to_owned(), "/repo/src/a.ts".to_owned(), "/repo/src/c.ts".to_owned()],
        }],
        boundary_violations: vec![BoundaryViolationIssue {
            from_path: "/repo/src/ui/v.ts".to_owned(),
            to_path: "/repo/src/db/q.ts".to_owned(),
            import_specifier: "../db/q".to_owned(),
        }],
        stale_suppressions: vec![StaleSuppressionIssue {
            path: "/repo/src/s.ts".to_owned(),
            description: "unused-export".to_owned(),
        }],
    }
}

#[test]
fn keys_cover_every_category_in_order() {
    let keys = dead_code_keys(&sample(), "/repo");
    assert_eq!(
        keys,
        vec![
            "unused-file:src/old.ts",
            "unused-export:src/a.ts:foo",
            "unused-export:src/b.ts:bar",
            "unused-type:src/t.ts:T",
            "private-type-leak:src/l.ts:api:Inner",
            "unused-dependency:package.json:lodash",
            "unused-dev-dependency:package.json:jest",
            "unused-enum-member:src/e.ts:Color:Red",
            "unresolved-import:src/i.ts:./missing",
            "unlisted-dependency:chalk:src/a.ts:10:0|src/z.ts:3:1",
            "duplicate-export:dup:src/x.ts|src/y.ts",
            "type-only-dependency:package.json:zod",
            "circular-dependency:src/a.ts|src/c.ts|src/c.ts",
            "boundary-violation:src/ui/v.ts:src/db/q.ts:../db/q",
            "stale-suppression:src/s.ts:unused-export",
        ]
    );
}

#[test]
fn keys_outside_root_keep_full_path_with_forward_slashes() {
    let mut r = empty();
    r.unused_files.push("C:\\other\\x.ts".to_owned());
    assert_eq!(dead_code_keys(&r, "/repo"), vec!["unused-file:C:/other/x.ts"]);
}

#[test]
fn retain_keeps_only_introduced_issues() {
    let base = vec![
        "unused-export:src/a.ts:foo".to_owned(),
        "unlisted-dependency:chalk:src/a.ts:10:0|src/z.ts:3:1".to_owned(),
        "circular-dependency:src/a.ts|src/c.ts|src/c.ts".to_owned(),
    ];
    let mut r = sample();
    retain_introduced_dead_code(&mut r, "/repo", Some(&base));
    assert_eq!(r.unused_exports.len(), 1);
    assert_eq!(r.unused_exports[0].name, "bar");
    assert!(r.unlisted_dependencies.is_empty());
    assert!(r.circular_dependencies.is_empty());
    assert_eq!(r.unused_files.len(), 1);
    assert_eq!(r.stale_suppressions.len(), 1);
    for key in dead_code_keys(&r, "/repo") {
        assert!(!base.contains(&key));
    }
}

#[test]
fn retain_without_base_keeps_everything() {
    let mut r = sample();
    retain_introduced_dead_code(&mut r, "/repo", None);
    assert_eq!(dead_code_keys(&r, "/repo"), dead_code_keys(&sample(), "/repo"));
}

#[test]
fn introduced_flags_follow_items() {
    let base = vec!["unused-export:src/b.ts:bar".to_owned()];
    let flags = dead_code_introduced(&sample(), "/repo", &base);
    assert_eq!(flags.unused_exports, vec![true, false]);
    assert_eq!(flags.unused_files, vec![true]);
    assert!(flags.unused_optional_dependencies.is_empty());
}

#[test]
fn health_finding_key_names_threshold() {
    let f = HealthFinding {
        path: "/repo/src/a.ts".to_owned(),
        name: "run".to_owned(),
        line: 1,
        col: 0,
        cyclomatic: 30,
        cognitive: 30,
        line_count: 10,
        param_count: 0,
        exceeded: ExceededThreshold::Both,
        severity: FindingSeverity::High,
    };
    assert_eq!(health_finding_key(&f, "/repo"), "complexity:src/a.ts:run:Both");
}

#[test]
fn relative_key_paths() {
    assert_eq!(relative_key_path("/repo/src/a.ts", "/repo"), "src/a.ts");
    assert_eq!(relative_key_path("/repo/src/a.ts", "/repo/"), "src/a.ts");
    assert_eq!(relative_key_path("/elsewhere/a.ts", "/repo"), "/elsewhere/a.ts");
    assert_eq!(relative_key_path("/repository/a.ts", "/repo"), "/repository/a.ts");
}

#[test]
fn cache_artifacts_are_below_cache_dir() {
    assert!(is_fallow_cache_artifact("/repo/.fallow/cache.bin", "/repo/.fallow", None));
    assert!(!is_fallow_cache_artifact("/repo/.fallowrc", "/repo/.fallow", None));
    assert!(is_fallow_cache_artifact(
        "/private/repo/.fallow/x",
        "/repo/.fallow",
        Some("/private/repo/.fallow")
    ));
}

#[test]
fn issue_filters_clear_unrequested_types() {
    let none = IssueFilters {
        unused_files: false,
        unused_exports: false,
        unused_deps: false,
        unused_types: false,
        unused_enum_members: false,
        unused_class_members: false,
        unresolved_imports: false,
        unlisted_deps: false,
        duplicate_exports: false,
    };
    let mut r = sample();
    none.apply(&mut r);
    assert_eq!(dead_code_keys(&r, "/repo"), dead_code_keys(&sample(), "/repo"));

    let only_deps = IssueFilters { unused_deps: true, ..none };
    let mut r = sample();
    only_deps.apply(&mut r);
    assert!(r.unused_files.is_empty());
    assert!(r.unused_exports.is_empty());
    assert_eq!(r.unused_dependencies.len(), 1);
    assert_eq!(r.unused_dev_dependencies.len(), 1);
    assert_eq!(r.circular_dependencies.len(), 1);
    assert_eq!(r.stale_suppressions.len(), 1);
}

#[test]
fn own_keys_as_base_flag_nothing_and_retain_nothing() {
    let results = sample();
    let base = dead_code_keys(&results, "/repo");
    let flags = dead_code_introduced(&results, "/repo", &base);
    assert!(flags.unused_files.iter().all(|f| !f));
    assert!(flags.unused_exports.iter().all(|f| !f));
    assert!(flags.unlisted_dependencies.iter().all(|f| !f));
    assert!(flags.circular_dependencies.iter().all(|f| !f));
    assert!(flags.stale_suppressions.iter().all(|f| !f));
    let mut r = sample();
    retain_introduced_dead_code(&mut r, "/repo", Some(&base));
    assert!(dead_code_keys(&r, "/repo").is_empty());
}

#[test]
fn keys_ignore_order_of_cycle_files_and_locations() {
    let mut reordered = sample();
    reordered.circular_dependencies[0].files.reverse();
    reordered.duplicate_exports[0].locations =
        vec!["/repo/src/x.ts".to_owned(), "/repo/src/y.ts".to_owned()];
    reordered.unlisted_dependencies[0].imported_from.reverse();
    reordered.unlisted_dependencies[0].imported_from.pop();
    assert_eq!(dead_code_keys(&reordered, "/repo"), dead_code_keys(&sample(), "/repo"));
}
