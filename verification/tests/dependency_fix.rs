use fallow_cli::dead_code::{DependencyLocation, UnusedDependencyIssue};
use fallow_cli::dependency_fix::{group_dependency_removals, DependencyTable};

fn dep(path: &str, name: &str, location: DependencyLocation) -> UnusedDependencyIssue {
    UnusedDependencyIssue { location, path: path.to_string(), package_name: name.to_string() }
}

#[test]
fn dependency_fix_empty_results_returns_early() {
    let groups = group_dependency_removals(&vec![], &vec![]);
    assert!(groups.is_empty());
}

#[test]
fn groups_removals_by_manifest_in_reported_order() {
    let deps = vec![
        dep("/p/package.json", "lodash", DependencyLocation::Dependencies),
        dep("/p/packages/a/package.json", "react", DependencyLocation::Dependencies),
        dep("/p/package.json", "chalk", DependencyLocation::Dependencies),
    ];
    let dev = vec![
        dep("/p/packages/a/package.json", "vitest", DependencyLocation::DevDependencies),
        dep("/p/package.json", "eslint", DependencyLocation::DevDependencies),
    ];
    let groups = group_dependency_removals(&deps, &dev);
    assert_eq!(groups.len(), 2);
    assert_eq!(groups[0].path, "/p/package.json");
    let root: Vec<(&str, DependencyTable)> =
        groups[0].removals.iter().map(|r| (r.package_name.as_str(), r.table)).collect();
    assert_eq!(
        root,
        vec![
            ("lodash", DependencyTable::Dependencies),
            ("chalk", DependencyTable::Dependencies),
            ("eslint", DependencyTable::DevDependencies),
        ]
    );
    assert_eq!(groups[1].path, "/p/packages/a/package.json");
    let ws: Vec<(&str, DependencyTable)> =
        groups[1].removals.iter().map(|r| (r.package_name.as_str(), r.table)).collect();
    assert_eq!(
        ws,
        vec![("react", DependencyTable::Dependencies), ("vitest", DependencyTable::DevDependencies)]
    );
}

#[test]
fn paths_equal_by_components_share_a_manifest() {
    let deps = vec![
        dep("/p/package.json", "a", DependencyLocation::Dependencies),
        dep("/p//package.json", "b", DependencyLocation::Dependencies),
    ];
    let groups = group_dependency_removals(&deps, &vec![]);
    assert_eq!(groups.len(), 1);
    assert_eq!(groups[0].removals.len(), 2);
}

#[test]
fn table_keys_match_package_json() {
    assert_eq!(DependencyTable::Dependencies.key(), "dependencies");
    assert_eq!(DependencyTable::DevDependencies.key(), "devDependencies");
}
