use fallow_cli::baseline::{filter_new_issues, retain_changed_files, BaselineData};
use fallow_cli::dead_code::{
    CircularDependencyIssue, DeadCodeResults, DependencyLocation, PathNameIssue,
    UnusedDependencyIssue,
};

fn pn(path: &str, name: &str) -> PathNameIssue {
    PathNameIssue { path: path.to_string(), name: name.to_string() }
}

fn dep(name: &str, location: DependencyLocation) -> UnusedDependencyIssue {
    UnusedDependencyIssue {
        location,
        path: "/p/package.json".to_string(),
        package_name: name.to_string(),
    }
}

fn results() -> DeadCodeResults {
    DeadCodeResults {
        unused_files: vec!["/p/a.ts".to_string(), "/p/b.ts".to_string()],
        unused_exports: vec![pn("/p/c.ts", "foo"), pn("/p/c.ts", "bar")],
        unused_types: vec![pn("/p/d.ts", "T")],
        private_type_leaks: vec![],
        unused_dependencies: vec![dep("lodash", DependencyLocation::Dependencies)],
        unused_dev_dependencies: vec![dep("jest", DependencyLocation::DevDependencies)],
        unused_optional_dependencies: vec![],
        unused_enum_members: vec![],
        unused_class_members: vec![],
        unresolved_imports: vec![pn("/p/e.ts", "./missing")],
        unlisted_dependencies: vec![],
        duplicate_exports: vec![],
        type_only_dependencies: vec![],
        test_only_dependencies: vec![],
        circular_dependencies: vec![CircularDependencyIssue {
            files: vec!["/p/a.ts".to_string(), "/p/b.ts".to_string()],
        }],
        boundary_violations: vec![],
        stale_suppressions: vec![],
    }
}

#[test]
fn baseline_records_paths_and_names() {
    let b = BaselineData::from_results(&results());
    assert_eq!(b.unused_files, vec!["/p/a.ts", "/p/b.ts"]);
    assert_eq!(b.unused_exports, vec!["/p/c.ts:foo", "/p/c.ts:bar"]);
    assert_eq!(b.unused_types, vec!["/p/d.ts:T"]);
    assert_eq!(b.unused_dependencies, vec!["lodash"]);
    assert_eq!(b.unused_dev_dependencies, vec!["jest"]);
}

#[test]
fn own_baseline_hides_recorded_issues_only() {
    let r = results();
    let b = BaselineData::from_results(&r);
    let filtered = filter_new_issues(results(), &b);
    assert!(filtered.unused_files.is_empty());
    assert!(filtered.unused_exports.is_empty());
    assert!(filtered.unused_types.is_empty());
    assert!(filtered.unused_dependencies.is_empty());
    assert!(filtered.unused_dev_dependencies.is_empty());
    assert_eq!(filtered.unresolved_imports.len(), 1);
    assert_eq!(filtered.circular_dependencies.len(), 1);
}

#[test]
fn new_issues_survive_the_baseline() {
    let b = BaselineData {
        unused_files: vec!["/p/a.ts".to_string()],
        unused_exports: vec!["/p/c.ts:bar".to_string()],
        unused_types: vec![],
        unused_dependencies: vec!["jest".to_string()],
        unused_dev_dependencies: vec!["lodash".to_string()],
    };
    let filtered = filter_new_issues(results(), &b);
    assert_eq!(filtered.unused_files, vec!["/p/b.ts"]);
    assert_eq!(filtered.unused_exports.len(), 1);
    assert_eq!(filtered.unused_exports[0].name, "foo");
    assert_eq!(filtered.unused_types.len(), 1);
    assert_eq!(filtered.unused_dependencies.len(), 1);
    assert_eq!(filtered.unused_dev_dependencies.len(), 1);
}

#[test]
fn changed_files_keep_issues_in_them() {
    let mut r = results();
    retain_changed_files(&mut r, &vec!["/p/b.ts".to_string(), "/p/./c.ts".to_string()]);
    assert_eq!(r.unused_files, vec!["/p/b.ts"]);
    assert_eq!(r.unused_exports.len(), 2);
    assert!(r.unused_types.is_empty());
    assert!(r.unresolved_imports.is_empty());
    assert_eq!(r.unused_dependencies.len(), 1);
    assert_eq!(r.circular_dependencies.len(), 1);
}
