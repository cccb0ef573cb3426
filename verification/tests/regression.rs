use fallow_cli::regression::{
    compare_counts, find_json_key, RegressionCheck, update_json_regression, update_toml_regression, CheckCounts,
    ConfigRegressionBaseline,
};
use fallow_cli::timestamp::format_utc_timestamp;

fn zero_counts() -> CheckCounts {
    CheckCounts {
        total_issues: 0,
        unused_files: 0,
        unused_exports: 0,
        unused_types: 0,
        unused_dependencies: 0,
        unused_dev_dependencies: 0,
        unused_optional_dependencies: 0,
        unused_enum_members: 0,
        unused_class_members: 0,
        unresolved_imports: 0,
        unlisted_dependencies: 0,
        duplicate_exports: 0,
        circular_dependencies: 0,
        type_only_dependencies: 0,
        test_only_dependencies: 0,
    }
}

fn sample_baseline() -> ConfigRegressionBaseline {
    ConfigRegressionBaseline {
        total_issues: 5,
        unused_files: 2,
        unused_exports: 0,
        unused_types: 0,
        unused_dependencies: 0,
        unused_dev_dependencies: 0,
        unused_optional_dependencies: 0,
        unused_enum_members: 0,
        unused_class_members: 0,
        unresolved_imports: 0,
        unlisted_dependencies: 0,
        duplicate_exports: 0,
        circular_dependencies: 0,
        type_only_dependencies: 0,
        test_only_dependencies: 0,
    }
}

// ── CheckCounts::deltas ────────────────────────────────────────

#[test]
fn deltas_reports_changes_only() {
    let baseline = CheckCounts {
        total_issues: 10,
        unused_files: 5,
        unused_exports: 3,
        unused_types: 2,
        ..zero_counts()
    };
    let current = CheckCounts {
        unused_files: 7,
        unused_exports: 1,
        unused_types: 2,
        ..baseline
    };
    let deltas = baseline.deltas(&current);
    assert_eq!(deltas.len(), 2);
    assert!(deltas.contains(&("unused_files", 2)));
    assert!(deltas.contains(&("unused_exports", -2)));
}

#[test]
fn deltas_empty_when_identical() {
    let counts = CheckCounts {
        total_issues: 10,
        unused_files: 5,
        unused_exports: 3,
        unused_types: 2,
        ..zero_counts()
    };
    let deltas = counts.deltas(&counts);
    assert!(deltas.is_empty());
}

#[test]
fn deltas_all_categories_changed() {
    let baseline = zero_counts();
    let current = CheckCounts {
        total_issues: 14,
        unused_files: 1,
        unused_exports: 1,
        unused_types: 1,
        unused_dependencies: 1,
        unused_dev_dependencies: 1,
        unused_optional_dependencies: 1,
        unused_enum_members: 1,
        unused_class_members: 1,
        unresolved_imports: 1,
        unlisted_dependencies: 1,
        duplicate_exports: 1,
        circular_dependencies: 1,
        type_only_dependencies: 1,
        test_only_dependencies: 1,
    };
    let deltas = baseline.deltas(&current);
    assert_eq!(deltas.len(), 14);
    for (_, d) in &deltas {
        assert_eq!(*d, 1);
    }
}

#[test]
fn deltas_mixed_increase_decrease() {
    let baseline = CheckCounts {
        total_issues: 10,
        unused_files: 5,
        unused_exports: 3,
        unused_types: 2,
        ..zero_counts()
    };
    let current = CheckCounts {
        unused_files: 3,
        unused_exports: 5,
        unused_types: 0,
        unresolved_imports: 1,
        ..baseline
    };
    let deltas = baseline.deltas(&current);
    assert_eq!(deltas.len(), 4);
    assert!(deltas.contains(&("unused_files", -2)));
    assert!(deltas.contains(&("unused_exports", 2)));
    assert!(deltas.contains(&("unused_types", -2)));
    assert!(deltas.contains(&("unresolved_imports", 1)));
}

#[test]
fn deltas_keep_field_order() {
    let baseline = zero_counts();
    let current = CheckCounts { test_only_dependencies: 3, unused_files: 1, ..zero_counts() };
    assert_eq!(
        baseline.deltas(&current),
        vec![("unused_files", 1), ("test_only_dependencies", 3)]
    );
}

// ── config baseline roundtrip ──────────────────────────────────

#[test]
fn check_counts_config_roundtrip() {
    let counts = CheckCounts {
        total_issues: 42,
        unused_files: 5,
        unused_exports: 20,
        unused_types: 8,
        unused_dependencies: 3,
        unused_dev_dependencies: 2,
        unused_optional_dependencies: 1,
        unused_enum_members: 1,
        unused_class_members: 1,
        unresolved_imports: 0,
        unlisted_dependencies: 1,
        duplicate_exports: 0,
        circular_dependencies: 0,
        type_only_dependencies: 0,
        test_only_dependencies: 0,
    };
    let config_baseline = counts.to_config_baseline();
    let roundtripped = CheckCounts::from_config_baseline(&config_baseline);
    assert_eq!(roundtripped, counts);
    assert_eq!(roundtripped.total_issues, 42);
    assert_eq!(roundtripped.unused_exports, 20);
    assert_eq!(roundtripped.unused_types, 8);
}

#[test]
fn check_counts_zero_config_roundtrip() {
    let counts = zero_counts();
    let config_baseline = counts.to_config_baseline();
    let roundtripped = CheckCounts::from_config_baseline(&config_baseline);
    assert_eq!(roundtripped.total_issues, 0);
    assert_eq!(roundtripped.unused_files, 0);
}

// ── update_json_regression ──────────────────────────────────────

#[test]
fn json_insert_into_empty_object() {
    let result = update_json_regression("{}", &sample_baseline()).unwrap();
    assert!(result.contains("\"regression\""));
    assert!(result.contains("\"totalIssues\": 5"));
    serde_json::from_str::<serde_json::Value>(&result).unwrap();
}

#[test]
fn json_insert_into_existing_config() {
    let config = r#"{
  "entry": ["src/main.ts"],
  "production": true
}"#;
    let result = update_json_regression(config, &sample_baseline()).unwrap();
    assert!(result.contains("\"regression\""));
    assert!(result.contains("\"entry\""));
    serde_json::from_str::<serde_json::Value>(&result).unwrap();
}

#[test]
fn json_replace_existing_regression() {
    let config = r#"{
  "entry": ["src/main.ts"],
  "regression": {
    "baseline": {
      "totalIssues": 99
    }
  }
}"#;
    let result = update_json_regression(config, &sample_baseline()).unwrap();
    assert!(!result.contains("99"));
    assert!(result.contains("\"totalIssues\": 5"));
    serde_json::from_str::<serde_json::Value>(&result).unwrap();
}

#[test]
fn json_skips_regression_in_comment() {
    let config = "{\n  // See \"regression\" docs\n  \"entry\": []\n}";
    let result = update_json_regression(config, &sample_baseline()).unwrap();
    assert!(result.contains("\"regression\":"));
    assert!(result.contains("\"entry\""));
}

#[test]
fn json_malformed_brace_returns_error() {
    let config = r#"{ "regression": { "baseline": { "totalIssues": 1 }"#;
    let result = update_json_regression(config, &sample_baseline());
    assert!(result.is_err());
}

#[test]
fn json_insert_with_trailing_comma() {
    let config = r#"{
  "entry": ["src/main.ts"],
}"#;
    let result = update_json_regression(config, &sample_baseline()).unwrap();
    assert!(result.contains("\"regression\""));
}

#[test]
fn json_no_closing_brace_returns_error() {
    let result = update_json_regression("", &sample_baseline());
    assert!(result.is_err());
}

#[test]
fn json_nested_regression_object_replaced_correctly() {
    let config = r#"{
  "regression": {
    "baseline": {
      "totalIssues": 99,
      "unusedFiles": 10
    },
    "tolerance": "5%"
  },
  "entry": ["src/main.ts"]
}"#;
    let result = update_json_regression(config, &sample_baseline()).unwrap();
    assert!(!result.contains("99"));
    assert!(result.contains("\"totalIssues\": 5"));
    assert!(result.contains("\"entry\""));
}

#[test]
fn json_update_is_idempotent() {
    let config = "{\n  \"entry\": [\"src/main.ts\"]\n}";
    let once = update_json_regression(config, &sample_baseline()).unwrap();
    let twice = update_json_regression(&once, &sample_baseline()).unwrap();
    assert_eq!(once, twice);
}

// ── update_toml_regression ──────────────────────────────────────

#[test]
fn toml_insert_into_empty() {
    let result = update_toml_regression("", &sample_baseline());
    assert!(result.contains("[regression.baseline]"));
    assert!(result.contains("totalIssues = 5"));
}

#[test]
fn toml_insert_after_existing_content() {
    let config = "[rules]\nunused-files = \"warn\"\n";
    let result = update_toml_regression(config, &sample_baseline());
    assert!(result.contains("[rules]"));
    assert!(result.contains("[regression.baseline]"));
    assert!(result.contains("totalIssues = 5"));
}

#[test]
fn toml_replace_existing_section() {
    let config = "[regression.baseline]\ntotalIssues = 99\n\n[rules]\nunused-files = \"warn\"\n";
    let result = update_toml_regression(config, &sample_baseline());
    assert!(!result.contains("99"));
    assert!(result.contains("totalIssues = 5"));
    assert!(result.contains("[rules]"));
}

#[test]
fn toml_content_without_trailing_newline() {
    let config = "[rules]\nunused-files = \"warn\"";
    let result = update_toml_regression(config, &sample_baseline());
    assert!(result.contains("[regression.baseline]"));
    assert!(result.contains("[rules]"));
}

#[test]
fn toml_replace_section_not_at_end() {
    let config = "[regression.baseline]\ntotalIssues = 99\nunusedFiles = 10\n\n[rules]\nunused-files = \"warn\"\n";
    let result = update_toml_regression(config, &sample_baseline());
    assert!(!result.contains("99"));
    assert!(result.contains("totalIssues = 5"));
    assert!(result.contains("[rules]"));
    assert!(result.contains("unused-files = \"warn\""));
}

#[test]
fn toml_replace_section_at_end() {
    let config = "[rules]\nunused-files = \"warn\"\n\n[regression.baseline]\ntotalIssues = 99\n";
    let result = update_toml_regression(config, &sample_baseline());
    assert!(!result.contains("99"));
    assert!(result.contains("totalIssues = 5"));
    assert!(result.contains("[rules]"));
}

// ── find_json_key ───────────────────────────────────────────────

#[test]
fn find_json_key_basic() {
    assert_eq!(find_json_key(r#"{"foo": 1}"#, "foo"), Some(1));
}

#[test]
fn find_json_key_skips_comment() {
    let content = "{\n  // \"foo\" is important\n  \"bar\": 1\n}";
    assert_eq!(find_json_key(content, "foo"), None);
    assert!(find_json_key(content, "bar").is_some());
}

#[test]
fn find_json_key_not_found() {
    assert_eq!(find_json_key("{}", "missing"), None);
}

#[test]
fn find_json_key_skips_block_comment() {
    let content = "{\n  /* \"foo\": old value */\n  \"foo\": 1\n}";
    let pos = find_json_key(content, "foo").unwrap();
    assert!(content[pos..].starts_with("\"foo\": 1"));
}

#[test]
fn find_json_key_multiple_same_keys() {
    let content = r#"{"foo": 1, "bar": {"foo": 2}}"#;
    let pos = find_json_key(content, "foo").unwrap();
    assert_eq!(pos, 1);
}

#[test]
fn find_json_key_in_nested_comment_then_real() {
    let content = "{\n  // \"entry\": old\n  /* \"entry\": also old */\n  \"entry\": []\n}";
    let pos = find_json_key(content, "entry").unwrap();
    assert!(content[pos..].starts_with("\"entry\": []"));
}

#[test]
fn find_json_key_reports_byte_offsets() {
    let content = "{\"é\": 1, \"k\": 2}";
    let pos = find_json_key(content, "k").unwrap();
    assert!(content[pos..].starts_with("\"k\""));
    assert_eq!(pos, 10);
}

// ── timestamps ─────────────────────────────────────────────────

#[test]
fn chrono_now_format() {
    let secs = std::time::SystemTime::now()
        .duration_since(std::time::UNIX_EPOCH)
        .unwrap()
        .as_secs();
    let ts = format_utc_timestamp(secs);
    assert_eq!(ts.len(), 20);
    assert!(ts.ends_with('Z'));
    assert_eq!(&ts[4..5], "-");
    assert_eq!(&ts[7..8], "-");
    assert_eq!(&ts[10..11], "T");
    assert_eq!(&ts[13..14], ":");
    assert_eq!(&ts[16..17], ":");
}

#[test]
fn format_utc_timestamp_known_values() {
    assert_eq!(format_utc_timestamp(0), "1970-01-01T00:00:00Z");
    assert_eq!(format_utc_timestamp(951_782_400), "2000-02-29T00:00:00Z");
    assert_eq!(format_utc_timestamp(1_700_000_000), "2023-11-14T22:13:20Z");
    assert_eq!(format_utc_timestamp(4_102_444_799), "2099-12-31T23:59:59Z");
}

#[test]
fn compare_counts_passes_within_allowance() {
    let baseline = CheckCounts { total_issues: 10, unused_files: 10, ..zero_counts() };
    let current = CheckCounts { total_issues: 12, unused_files: 12, ..zero_counts() };
    match compare_counts(&baseline, &current, 2) {
        RegressionCheck::Pass { baseline_total, current_total } => {
            assert_eq!((baseline_total, current_total), (10, 12));
        }
        RegressionCheck::Exceeded { .. } => panic!("expected a pass"),
    }
}

#[test]
fn compare_counts_reports_changed_types_when_exceeded() {
    let baseline = CheckCounts { total_issues: 10, unused_files: 10, unused_exports: 0, ..zero_counts() };
    let current = CheckCounts { total_issues: 13, unused_files: 9, unused_exports: 4, ..zero_counts() };
    match compare_counts(&baseline, &current, 2) {
        RegressionCheck::Exceeded { baseline_total, current_total, type_deltas } => {
            assert_eq!((baseline_total, current_total), (10, 13));
            assert_eq!(type_deltas, vec![("unused_files", -1), ("unused_exports", 4)]);
        }
        RegressionCheck::Pass { .. } => panic!("expected a regression"),
    }
}

#[test]
fn compare_counts_decrease_never_regresses() {
    let baseline = CheckCounts { total_issues: 10, ..zero_counts() };
    let current = CheckCounts { total_issues: 3, ..zero_counts() };
    assert!(matches!(compare_counts(&baseline, &current, 0), RegressionCheck::Pass { .. }));
    assert!(matches!(compare_counts(&baseline, &baseline, 0), RegressionCheck::Pass { .. }));
}

#[test]
fn compare_counts_zero_allowance_flags_any_increase() {
    let baseline = zero_counts();
    let current = CheckCounts { total_issues: 1, unused_types: 1, ..zero_counts() };
    assert!(matches!(compare_counts(&baseline, &current, 0), RegressionCheck::Exceeded { .. }));
}

#[test]
fn find_json_key_ignores_comment_markers_in_strings() {
    assert_eq!(find_json_key("\"/*\"\"foo\"", "foo"), Some(4));
    let content = r#"{"entry": "src/**/*.ts", "regression": {}}"#;
    let pos = find_json_key(content, "regression").unwrap();
    assert!(content[pos..].starts_with("\"regression\""));
}

#[test]
fn find_json_key_skips_trailing_line_comment() {
    let content = "{\n  \"a\": 1, // \"key\" was here\n  \"b\": 2\n}";
    assert_eq!(find_json_key(content, "key"), None);
}

#[test]
fn find_json_key_skips_escaped_quote_strings() {
    let content = r#"{"note": "say \"/*\" here", "foo": 1}"#;
    let pos = find_json_key(content, "foo").unwrap();
    assert!(content[pos..].starts_with("\"foo\": 1"));
}

#[test]
fn json_regression_replaced_after_glob_string() {
    let config = "{\n  \"entry\": \"src/**/*.ts\",\n  \"regression\": {\"baseline\": {\"totalIssues\": 99}}\n}\n";
    let baseline = ConfigRegressionBaseline {
        total_issues: 5,
        unused_files: 0,
        unused_exports: 0,
        unused_types: 0,
        unused_dependencies: 0,
        unused_dev_dependencies: 0,
        unused_optional_dependencies: 0,
        unused_enum_members: 0,
        unused_class_members: 0,
        unresolved_imports: 0,
        unlisted_dependencies: 0,
        duplicate_exports: 0,
        circular_dependencies: 0,
        type_only_dependencies: 0,
        test_only_dependencies: 0,
    };
    let updated = update_json_regression(config, &baseline).unwrap();
    assert!(!updated.contains("99"));
    assert_eq!(updated.matches("\"regression\"").count(), 1);
    assert!(updated.contains("src/**/*.ts"));
}

#[test]
fn deltas_are_antisymmetric() {
    let a = CheckCounts { total_issues: 5, unused_files: 3, unused_exports: 2, ..zero_counts() };
    let b = CheckCounts { total_issues: 4, unused_files: 1, unused_types: 3, ..zero_counts() };
    let ab = a.deltas(&b);
    let ba: Vec<(&str, isize)> = b.deltas(&a).into_iter().map(|(n, d)| (n, -d)).collect();
    assert_eq!(ab, ba);
    assert!(a.deltas(&a).is_empty());
}

#[test]
fn timestamp_follows_gregorian_leap_rules() {
    assert_eq!(format_utc_timestamp(951_782_400), "2000-02-29T00:00:00Z");
    assert_eq!(format_utc_timestamp(4_107_542_400 - 1), "2100-02-28T23:59:59Z");
    assert_eq!(format_utc_timestamp(4_107_542_400), "2100-03-01T00:00:00Z");
    assert_eq!(format_utc_timestamp(94_608_000 + 3_661), "1972-12-31T01:01:01Z");
    assert_eq!(format_utc_timestamp(13_574_563_200), "2400-02-29T00:00:00Z");
    assert_eq!(format_utc_timestamp(253_402_214_400 + 86_399), "9999-12-31T23:59:59Z");
}
