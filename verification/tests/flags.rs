use fallow_cli::flags::{
    compact_line_exec, confidence_name_exec, dead_code_detail_exec, dead_code_flags,
    flag_use_to_feature_flag, group_flags_by_file, investigate_description_exec,
    kind_label_exec, kind_name_exec, new_custom_uses, select_flags, FeatureFlag,
    FlagConfidence, FlagKind, FlagUse, FlagUseKind,
};

fn flag_use(name: &str, kind: FlagUseKind, line: u32) -> FlagUse {
    FlagUse {
        flag_name: name.to_string(),
        kind,
        line,
        col: 4,
        guard_span_start: Some(100),
        guard_span_end: Some(180),
        sdk_name: None,
    }
}

fn flag(path: &str, name: &str, line: u32) -> FeatureFlag {
    flag_use_to_feature_flag(&flag_use(name, FlagUseKind::EnvVar, line), path, None)
}

#[test]
fn flag_uses_become_reported_flags() {
    let f = flag_use_to_feature_flag(
        &flag_use("FEATURE_X", FlagUseKind::ConfigObject, 7),
        "/p/src/a.ts",
        Some((7, 12)),
    );
    assert_eq!(f.kind, FlagKind::ConfigObject);
    assert_eq!(f.confidence, FlagConfidence::Low);
    assert_eq!((f.line, f.col), (7, 4));
    assert_eq!((f.guard_line_start, f.guard_line_end), (Some(7), Some(12)));
    let mut u = flag_use("beta", FlagUseKind::SdkCall, 3);
    u.guard_span_end = None;
    let g = flag_use_to_feature_flag(&u, "/p/src/b.ts", Some((1, 2)));
    assert_eq!(g.kind, FlagKind::SdkCall);
    assert_eq!(g.confidence, FlagConfidence::High);
    assert_eq!((g.guard_line_start, g.guard_line_end), (None, None));
}

#[test]
fn custom_uses_found_by_builtin_patterns_are_dropped() {
    let builtin = vec![flag_use("A", FlagUseKind::EnvVar, 1)];
    let custom = vec![
        flag_use("A", FlagUseKind::SdkCall, 1),
        flag_use("A", FlagUseKind::SdkCall, 2),
        flag_use("B", FlagUseKind::SdkCall, 1),
    ];
    let kept = new_custom_uses(&builtin, custom);
    let seen: Vec<(String, u32)> = kept.iter().map(|u| (u.flag_name.clone(), u.line)).collect();
    assert_eq!(seen, vec![("A".to_string(), 2), ("B".to_string(), 1)]);
}

#[test]
fn flags_are_filtered_sorted_and_limited() {
    let flags = vec![
        flag("/p/src/b.ts", "Z", 3),
        flag("/p/src/a.ts", "Y", 9),
        flag("/p/lib/c.ts", "X", 1),
        flag("/p/src/a.ts", "B", 2),
        flag("/p/src/a.ts", "A", 2),
    ];
    let picked = select_flags(flags, None, Some("/p/src"), Some(3));
    let seen: Vec<(&str, u32, &str)> = picked
        .iter()
        .map(|f| (f.path.as_str(), f.line, f.flag_name.as_str()))
        .collect();
    assert_eq!(
        seen,
        vec![("/p/src/a.ts", 2, "A"), ("/p/src/a.ts", 2, "B"), ("/p/src/a.ts", 9, "Y")]
    );
    let changed = vec!["/p/lib/c.ts".to_string()];
    let picked = select_flags(vec![flag("/p/src/b.ts", "Z", 3), flag("/p/lib/c.ts", "X", 1)], Some(&changed), None, None);
    assert_eq!(picked.len(), 1);
    assert_eq!(picked[0].flag_name, "X");
}

#[test]
fn flags_are_shown_in_each_format() {
    let mut f = flag("/p/src\\win/a.ts", "FEATURE_NEW_UI", 12);
    assert_eq!(compact_line_exec(&f, "/p"), "src/win/a.ts:12: feature-flag (env) FEATURE_NEW_UI");
    assert_eq!(kind_label_exec(&f), "(env)");
    assert_eq!(kind_name_exec(f.kind), "environment_variable");
    assert_eq!(confidence_name_exec(f.confidence), "high");
    f.kind = FlagKind::SdkCall;
    f.sdk_name = Some("launchdarkly".to_string());
    assert_eq!(kind_label_exec(&f), "(SDK: launchdarkly)");
    assert_eq!(
        investigate_description_exec("FEATURE_NEW_UI"),
        "Verify whether feature flag 'FEATURE_NEW_UI' is still active"
    );
}

#[test]
fn dead_code_detail_counts_guard_lines() {
    let mut f = flag("/p/a.ts", "F", 1);
    f.guarded_dead_exports = vec!["x".to_string(), "y".to_string()];
    assert_eq!(dead_code_detail_exec(&f), "2 dead exports in guarded block");
    f.guard_line_start = Some(10);
    f.guard_line_end = Some(14);
    assert_eq!(dead_code_detail_exec(&f), "guards 5 lines, 2 statically dead");
    f.guard_line_end = Some(3);
    assert_eq!(dead_code_detail_exec(&f), "guards 1 lines, 2 statically dead");
}

#[test]
fn flags_group_by_file_in_first_appearance_order() {
    let mut flags = vec![
        flag("/p/b.ts", "A", 1),
        flag("/p/a.ts", "B", 1),
        flag("/p/./b.ts", "C", 2),
    ];
    flags[1].guarded_dead_exports = vec!["z".to_string()];
    let groups = group_flags_by_file(&flags);
    assert_eq!(groups.len(), 2);
    assert_eq!(groups[0], ("/p/b.ts".to_string(), vec![0, 2]));
    assert_eq!(groups[1], ("/p/a.ts".to_string(), vec![1]));
    assert_eq!(dead_code_flags(&flags), vec![1]);
}
