use fallow_cli::inputs::{validate_git_ref, IssueFilters};
use fallow_cli::migrate::indent_json_value;

fn no_filters() -> IssueFilters {
    IssueFilters {
        unused_files: false,
        unused_exports: false,
        unused_deps: false,
        unused_types: false,
        unused_enum_members: false,
        unused_class_members: false,
        unresolved_imports: false,
        unlisted_deps: false,
        duplicate_exports: false,
    }
}

#[test]
fn any_active_detects_each_filter() {
    assert!(!no_filters().any_active());
    assert!(IssueFilters { unused_files: true, ..no_filters() }.any_active());
    assert!(IssueFilters { duplicate_exports: true, ..no_filters() }.any_active());
}

#[test]
fn git_ref_accepts_common_forms() {
    for r in ["main", "origin/main", "HEAD~3", "HEAD^2", "v1.2.3", "stash@{0}", "abc123"] {
        assert_eq!(validate_git_ref(r), Ok(r));
    }
}

#[test]
fn git_ref_rejects_empty_option_like_and_unsafe() {
    assert_eq!(validate_git_ref(""), Err("git ref cannot be empty".to_owned()));
    assert_eq!(validate_git_ref("--exec=x"), Err("git ref cannot start with '-'".to_owned()));
    assert_eq!(
        validate_git_ref("main;rm"),
        Err("git ref contains disallowed characters".to_owned())
    );
    assert_eq!(
        validate_git_ref("feat/é"),
        Err("git ref contains disallowed characters".to_owned())
    );
}

#[test]
fn indent_json_value_indents_continuation_lines() {
    assert_eq!(indent_json_value("[\n  1,\n  2\n]", 2), "[\n    1,\n    2\n  ]");
    assert_eq!(indent_json_value("\"single\"", 4), "\"single\"");
    assert_eq!(indent_json_value("{\r\n}\n", 1), "{\n }");
}
