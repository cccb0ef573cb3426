use fallow_cli::audit::{audit_worktree_name, current_keys_as_base_keys};
use fallow_cli::dead_code::DeadCodeResults;
use fallow_cli::dupes::{CloneGroup, CloneInstance};
use fallow_cli::audit::{
    audit_worktree_candidates, audit_worktree_pid, build_status_parts, build_summary,
    compute_audit_attribution, compute_introduced_verdict, compute_verdict, count_introduced,
    count_new, format_inherited_note, format_metrics_line, format_scope_line, format_status_line,
    audit_exit_code, AuditAttribution, is_analysis_input, is_audit_worktree_name_exec,
    is_non_behavioral_doc, remap_focus_files, AuditGate, AuditKeySnapshot, AuditSummary,
    AuditVerdict, CheckSignal, DupesSignal, classify_changed_file, compare_contents,
    plan_analysis_sharing, BaseReuse, ContentComparison,
};

#[test]
fn audit_worktree_helpers_filter_to_fallow_temp_prefix() {
    let output = "worktree /repo\nHEAD abc\n\nworktree /tmp/fallow-audit-base-123-456\nHEAD def\n\nworktree /tmp/other-worktree\nHEAD ghi\n";
    assert_eq!(
        audit_worktree_candidates(output),
        vec!["/tmp/fallow-audit-base-123-456".to_owned()]
    );
    assert!(is_audit_worktree_name_exec("/private/tmp/fallow-audit-base-456-789"));
    assert!(!is_audit_worktree_name_exec("/tmp/other-worktree"));
    assert_eq!(audit_worktree_pid("fallow-audit-base-123-456"), Some(123));
    assert_eq!(audit_worktree_pid("not-fallow-audit-base-123"), None);
}

#[test]
fn audit_worktree_pid_edge_cases() {
    assert_eq!(audit_worktree_pid("fallow-audit-base-+42-1"), Some(42));
    assert_eq!(audit_worktree_pid("fallow-audit-base-4294967295-1"), Some(u32::MAX));
    assert_eq!(audit_worktree_pid("fallow-audit-base-4294967296-1"), None);
    assert_eq!(audit_worktree_pid("fallow-audit-base--1"), None);
    assert_eq!(audit_worktree_pid("fallow-audit-base-12a-1"), None);
    assert_eq!(audit_worktree_pid("fallow-audit-base-77"), Some(77));
}

#[test]
fn verdict_fails_on_errors_and_warns_on_warnings() {
    let clean = CheckSignal { has_error_severity: false, total_issues: 0 };
    let warn = CheckSignal { has_error_severity: false, total_issues: 3 };
    let error = CheckSignal { has_error_severity: true, total_issues: 1 };
    assert_eq!(compute_verdict(None, None, None), AuditVerdict::Pass);
    assert_eq!(compute_verdict(Some(clean), Some(0), None), AuditVerdict::Pass);
    assert_eq!(compute_verdict(Some(warn), None, None), AuditVerdict::Warn);
    assert_eq!(compute_verdict(Some(error), None, None), AuditVerdict::Fail);
    assert_eq!(compute_verdict(Some(warn), Some(2), None), AuditVerdict::Fail);
    let dupes_warn = DupesSignal { clone_groups: 2, threshold_exceeded: false };
    let dupes_fail = DupesSignal { clone_groups: 2, threshold_exceeded: true };
    let dupes_none = DupesSignal { clone_groups: 0, threshold_exceeded: true };
    assert_eq!(compute_verdict(None, None, Some(dupes_warn)), AuditVerdict::Warn);
    assert_eq!(compute_verdict(None, None, Some(dupes_fail)), AuditVerdict::Fail);
    assert_eq!(compute_verdict(None, None, Some(dupes_none)), AuditVerdict::Pass);
}

#[test]
fn summary_collects_counts() {
    let check = CheckSignal { has_error_severity: true, total_issues: 4 };
    let cyclomatic = vec![12u16, 40, 7];
    let summary = build_summary(Some(check), Some(&cyclomatic), Some(2));
    assert_eq!(
        summary,
        AuditSummary {
            dead_code_issues: 4,
            dead_code_has_errors: true,
            complexity_findings: 3,
            max_cyclomatic: Some(40),
            duplication_clone_groups: 2,
        }
    );
    let empty = build_summary(None, None, None);
    assert_eq!(empty.max_cyclomatic, None);
    assert_eq!(empty.dead_code_issues, 0);
}

#[test]
fn status_parts_pluralize() {
    let summary = AuditSummary {
        dead_code_issues: 1,
        dead_code_has_errors: false,
        complexity_findings: 2,
        max_cyclomatic: Some(30),
        duplication_clone_groups: 0,
    };
    assert_eq!(
        build_status_parts(&summary),
        vec!["dead code: 1 issue".to_owned(), "complexity: 2 findings".to_owned()]
    );
}

#[test]
fn scope_line_mentions_head() {
    assert_eq!(
        format_scope_line(1, "main", Some("abc123")),
        "Audit scope: 1 changed file vs main (abc123..HEAD)"
    );
    assert_eq!(format_scope_line(3, "origin/main", None), "Audit scope: 3 changed files vs origin/main");
}

#[test]
fn introduced_and_inherited_counts() {
    let keys = vec!["a".to_owned(), "b".to_owned(), "c".to_owned()];
    let base = vec!["b".to_owned()];
    assert_eq!(count_introduced(&keys, Some(&base)), (2, 1));
    assert_eq!(count_introduced(&keys, None), (0, 0));
}

#[test]
fn analysis_inputs_and_docs() {
    assert!(is_analysis_input("src/app.tsx"));
    assert!(is_analysis_input("styles/main.scss"));
    assert!(!is_analysis_input("README.md"));
    assert!(!is_analysis_input(".ts"));
    assert!(is_non_behavioral_doc("docs/guide.markdown"));
    assert!(is_non_behavioral_doc("CHANGELOG.md"));
    assert!(!is_non_behavioral_doc("src/index.ts"));
    assert!(!is_non_behavioral_doc("notes/.md"));
}

#[test]
fn remap_focus_files_skips_paths_outside_from_root() {
    let focus = vec![
        "/repo/apps/web/src/in.ts".to_string(),
        "/repo/services/api/src/out.ts".to_string(),
    ];
    let remapped = remap_focus_files(&focus, "/repo/apps/web", "/wt/apps/web")
        .expect("partial map should succeed");
    assert_eq!(remapped.len(), 1);
    assert!(remapped.contains(&"/wt/apps/web/src/in.ts".to_string()));
}

#[test]
fn remap_focus_files_returns_none_when_no_paths_map() {
    let focus = vec!["/elsewhere/foo.ts".to_string()];
    let remapped = remap_focus_files(&focus, "/repo/apps/web", "/wt/apps/web");
    assert!(
        remapped.is_none(),
        "remap should return None when no paths can be mapped, falling caller back to full corpus"
    );
}

#[test]
fn remap_focus_files_keeps_each_path_once() {
    let focus = vec![
        "/repo/a.ts".to_string(),
        "/repo/./a.ts".to_string(),
        "/repo/b/c.ts".to_string(),
    ];
    let remapped = remap_focus_files(&focus, "/repo", "/wt/").unwrap();
    assert_eq!(remapped, vec!["/wt/a.ts".to_string(), "/wt/b/c.ts".to_string()]);
}

fn keys(items: &[&str]) -> Vec<String> {
    items.iter().map(|s| s.to_string()).collect()
}

#[test]
fn attribution_counts_distinct_keys_against_the_base() {
    let base = AuditKeySnapshot {
        dead_code: keys(&["unused-file:a.ts"]),
        health: keys(&[]),
        dupes: keys(&["g1"]),
    };
    let dead = keys(&["unused-file:a.ts", "unused-file:b.ts", "unused-file:b.ts"]);
    let health = keys(&["complexity:x"]);
    let a = compute_audit_attribution(Some(&dead), Some(&health), None, Some(&base), AuditGate::NewOnly);
    assert_eq!(a.gate, AuditGate::NewOnly);
    assert_eq!((a.dead_code_introduced, a.dead_code_inherited), (1, 1));
    assert_eq!((a.complexity_introduced, a.complexity_inherited), (1, 0));
    assert_eq!((a.duplication_introduced, a.duplication_inherited), (0, 0));
    let none = compute_audit_attribution(Some(&dead), None, None, None, AuditGate::All);
    assert_eq!((none.dead_code_introduced, none.dead_code_inherited), (0, 0));
}

#[test]
fn introduced_verdict_looks_at_new_issues_only() {
    let base = AuditKeySnapshot {
        dead_code: vec![],
        health: keys(&["h1"]),
        dupes: keys(&["g1"]),
    };
    let old_health = keys(&["h1"]);
    let old_dupes = keys(&["g1"]);
    assert_eq!(
        compute_introduced_verdict(None, Some(&old_health), Some((&old_dupes, true)), Some(&base)),
        AuditVerdict::Pass
    );
    let new_dupes = keys(&["g1", "g2"]);
    assert_eq!(
        compute_introduced_verdict(None, Some(&old_health), Some((&new_dupes, false)), Some(&base)),
        AuditVerdict::Warn
    );
    assert_eq!(
        compute_introduced_verdict(None, Some(&old_health), None, None),
        AuditVerdict::Fail
    );
    assert_eq!(count_new(&keys(&["a", "b", "a"]), Some(&keys(&["b"]))), 2);
}

fn summary(dead: usize, cx: usize, max: Option<u16>, dup: usize) -> AuditSummary {
    AuditSummary {
        dead_code_issues: dead,
        dead_code_has_errors: false,
        complexity_findings: cx,
        max_cyclomatic: max,
        duplication_clone_groups: dup,
    }
}

#[test]
fn status_and_metrics_lines() {
    assert_eq!(
        format_metrics_line(&summary(2, 1, Some(31), 0)),
        "dead code 2 \u{00b7} complexity 1 (warn, max cyclomatic: 31) \u{00b7} duplication 0"
    );
    assert_eq!(
        format_metrics_line(&summary(0, 0, None, 3)),
        "dead code 0 \u{00b7} complexity 0 \u{00b7} duplication 3"
    );
    assert_eq!(
        format_status_line(AuditVerdict::Pass, &summary(0, 0, None, 0), 1, "0.42s"),
        "\u{2713} No issues in 1 changed file (0.42s)"
    );
    assert_eq!(
        format_status_line(AuditVerdict::Warn, &summary(3, 0, None, 1), 2, "1.00s"),
        "\u{2713} dead code: 3 issues \u{00b7} duplication: 1 clone group (warn) \u{00b7} 2 changed files (1.00s)"
    );
    assert_eq!(
        format_status_line(AuditVerdict::Fail, &summary(0, 2, None, 0), 5, "2.10s"),
        "\u{2717} complexity: 2 findings \u{00b7} 5 changed files (2.10s)"
    );
    assert_eq!(audit_exit_code(AuditVerdict::Fail), 1);
    assert_eq!(audit_exit_code(AuditVerdict::Warn), 0);
}

#[test]
fn inherited_note_only_for_new_only_gate() {
    let mut a = AuditAttribution {
        gate: AuditGate::NewOnly,
        dead_code_introduced: 0,
        dead_code_inherited: 1,
        complexity_introduced: 0,
        complexity_inherited: 0,
        duplication_introduced: 0,
        duplication_inherited: 0,
    };
    assert_eq!(
        format_inherited_note(&a).as_deref(),
        Some("audit gate excluded 1 inherited finding (run with --gate all to enforce)")
    );
    a.duplication_inherited = 2;
    assert_eq!(
        format_inherited_note(&a).as_deref(),
        Some("audit gate excluded 3 inherited findings (run with --gate all to enforce)")
    );
    a.gate = AuditGate::All;
    assert_eq!(format_inherited_note(&a), None);
}

#[test]
fn sharing_follows_production_settings() {
    let s = plan_analysis_sharing(false, None, None, None);
    assert!(s.share_parse_with_health);
    assert!(s.share_files_with_dupes);
    let s = plan_analysis_sharing(false, Some(true), None, None);
    assert!(s.dead_code_production);
    assert!(!s.health_production);
    assert!(!s.share_parse_with_health);
    assert!(!s.share_files_with_dupes);
    let s = plan_analysis_sharing(true, None, None, Some(false));
    assert!(s.share_parse_with_health);
    assert!(!s.share_files_with_dupes);
}

#[test]
fn changed_files_classified_for_base_reuse() {
    let cache = "/repo/.fallow";
    assert_eq!(classify_changed_file("/repo/.fallow/cache.bin", cache, None), BaseReuse::Unaffected);
    assert_eq!(
        classify_changed_file("/real/repo/.fallow/x", cache, Some("/real/repo/.fallow")),
        BaseReuse::Unaffected
    );
    assert_eq!(classify_changed_file("/repo/README.md", cache, None), BaseReuse::Unaffected);
    assert_eq!(classify_changed_file("/repo/package.json", cache, None), BaseReuse::Blocks);
    assert_eq!(classify_changed_file("/repo/src/a.ts", cache, None), BaseReuse::CompareContents);
}

#[test]
fn content_comparison_decides_before_tokens() {
    assert_eq!(compare_contents("a.ts", "x", "x"), ContentComparison::Same);
    assert_eq!(
        compare_contents("a.ts", "let a = 1; // fallow-ignore", "let a = 1;"),
        ContentComparison::Differs
    );
    assert_eq!(compare_contents("a.css", "a{}", "a {}"), ContentComparison::Differs);
    assert_eq!(compare_contents("a.tsx", "let a=1", "let a = 1"), ContentComparison::CompareTokens);
}

#[test]
fn current_keys_stand_in_for_base_snapshot() {
    let results = DeadCodeResults {
        unused_files: vec!["/repo/src/old.ts".to_owned()],
        unused_exports: vec![],
        unused_types: vec![],
        private_type_leaks: vec![],
        unused_dependencies: vec![],
        unused_dev_dependencies: vec![],
        unused_optional_dependencies: vec![],
        unused_enum_members: vec![],
        unused_class_members: vec![],
        unresolved_imports: vec![],
        unlisted_dependencies: vec![],
        duplicate_exports: vec![],
        type_only_dependencies: vec![],
        test_only_dependencies: vec![],
        circular_dependencies: vec![],
        boundary_violations: vec![],
        stale_suppressions: vec![],
    };
    let groups = vec![CloneGroup {
        instances: vec![CloneInstance { file: "/repo/src/a.ts".to_owned(), fragment: "x".to_owned() }],
        token_count: 9,
        line_count: 3,
    }];
    let snapshot = current_keys_as_base_keys(Some(&results), Some(&groups), None, "/repo");
    assert_eq!(snapshot.dead_code, vec!["unused-file:src/old.ts".to_owned()]);
    assert!(snapshot.health.is_empty());
    assert_eq!(snapshot.dupes.len(), 1);
    assert!(snapshot.dupes[0].starts_with("dupe:src/a.ts:9:3:"));
    let (introduced, inherited) = count_introduced(&snapshot.dead_code, Some(&snapshot.dead_code));
    assert_eq!((introduced, inherited), (0, 1));
}

#[test]
fn worktree_name_encodes_creating_process() {
    let name = audit_worktree_name(4321, 1_700_000_000_123_456_789);
    assert_eq!(name, "fallow-audit-base-4321-1700000000123456789");
    assert_eq!(audit_worktree_pid(&name), Some(4321));
    assert!(is_audit_worktree_name_exec(&format!("/tmp/{name}")));
    let wide = audit_worktree_name(u32::MAX, u128::MAX);
    assert_eq!(audit_worktree_pid(&wide), Some(u32::MAX));
}
