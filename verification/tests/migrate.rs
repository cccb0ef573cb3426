use fallow_cli::migrate::{
    classify_config_file, detect_format, generate_toml, json_or_jsonc_text, jsonc_document,
    migrate_jscpd, migrate_knip, string_or_array, typescript_config_error,
    typescript_config_warning, ConfigFileKind, ConfigFormat, DuplicatesConfig, JsonField,
    JsonNumber, MigratedConfig, MigrationWarning,
};
use serde_json::Value;

fn field_of(v: &Value) -> JsonField {
    match v {
        Value::Null => JsonField::Null,
        Value::Bool(b) => JsonField::Bool(*b),
        Value::Number(n) => JsonField::Number(JsonNumber {
            as_u64: n.as_u64(),
            float_text: n
                .as_f64()
                .and_then(serde_json::Number::from_f64)
                .map(|x| x.to_string())
                .unwrap_or_default(),
        }),
        Value::String(s) => JsonField::Str(s.clone()),
        Value::Array(items) => {
            JsonField::Array(items.iter().map(|x| x.as_str().map(String::from)).collect())
        }
        Value::Object(members) => JsonField::Object(
            members
                .iter()
                .map(|(k, x)| (k.clone(), x.as_str().map(String::from)))
                .collect(),
        ),
    }
}

fn doc(text: &str) -> Option<Vec<(String, JsonField)>> {
    let v: Value = serde_json::from_str(text).unwrap();
    v.as_object()
        .map(|o| o.iter().map(|(k, x)| (k.clone(), field_of(x))).collect())
}

fn rule<'a>(config: &'a MigratedConfig, name: &str) -> Option<&'a str> {
    config
        .rules
        .as_ref()
        .unwrap()
        .iter()
        .find(|(k, _)| k == name)
        .map(|(_, v)| v.as_str())
}

fn strings(items: &[&str]) -> Vec<String> {
    items.iter().map(|s| s.to_string()).collect()
}

fn knip(text: &str) -> (MigratedConfig, Vec<MigrationWarning>) {
    let mut config = MigratedConfig::new();
    let mut warnings = Vec::new();
    migrate_knip(&doc(text), &mut config, &mut warnings);
    (config, warnings)
}

fn jscpd(text: &str) -> (MigratedConfig, Vec<MigrationWarning>) {
    let mut config = MigratedConfig::new();
    let mut warnings = Vec::new();
    migrate_jscpd(&doc(text), &mut config, &mut warnings);
    (config, warnings)
}

// ── knip ────────────────────────────────────────────────────────

#[test]
fn migrate_minimal_knip_json() {
    let (config, warnings) = knip(r#"{"entry": ["src/index.ts"]}"#);
    assert_eq!(config.entry, Some(strings(&["src/index.ts"])));
    assert!(warnings.is_empty());
}

#[test]
fn migrate_knip_with_rules() {
    let (config, _) =
        knip(r#"{"rules": {"files": "warn", "exports": "off", "dependencies": "error"}}"#);
    assert_eq!(rule(&config, "unusedFiles"), Some("warn"));
    assert_eq!(rule(&config, "unusedExports"), Some("off"));
    assert_eq!(rule(&config, "unusedDependencies"), Some("error"));
}

#[test]
fn migrate_knip_with_exclude() {
    let (config, _) = knip(r#"{"exclude": ["files", "types"]}"#);
    assert_eq!(rule(&config, "unusedFiles"), Some("off"));
    assert_eq!(rule(&config, "unusedTypes"), Some("off"));
}

#[test]
fn migrate_knip_with_include() {
    let (config, _) = knip(r#"{"include": ["files", "exports"]}"#);
    // Included types should NOT be set to "off"
    assert!(rule(&config, "unusedFiles").is_none() || rule(&config, "unusedFiles") != Some("off"));
    assert!(
        rule(&config, "unusedExports").is_none() || rule(&config, "unusedExports") != Some("off")
    );
    // Non-included types should be "off"
    assert_eq!(rule(&config, "unusedDependencies"), Some("off"));
    assert_eq!(rule(&config, "unusedTypes"), Some("off"));
    assert_eq!(rule(&config, "unusedEnumMembers"), Some("off"));
    assert_eq!(rule(&config, "unusedClassMembers"), Some("off"));
}

#[test]
fn migrate_knip_with_ignore_patterns() {
    let (config, _) = knip(r#"{"ignore": ["src/generated/**", "**/*.test.ts"]}"#);
    assert_eq!(config.ignore, Some(strings(&["src/generated/**", "**/*.test.ts"])));
}

#[test]
fn migrate_knip_with_ignore_dependencies() {
    let (config, _) = knip(r#"{"ignoreDependencies": ["@org/lib", "lodash"]}"#);
    assert_eq!(config.ignore_dependencies, Some(strings(&["@org/lib", "lodash"])));
}

#[test]
fn migrate_knip_regex_ignore_deps_skipped() {
    let (config, warnings) = knip(r#"{"ignoreDependencies": ["/^@org/", "lodash"]}"#);
    assert_eq!(config.ignore_dependencies, Some(strings(&["lodash"])));
    assert_eq!(warnings.len(), 1);
    assert!(warnings[0].field == "ignoreDependencies");
}

#[test]
fn migrate_knip_unmappable_fields_generate_warnings() {
    let (_, warnings) = knip(r#"{"project": ["src/**"], "paths": {"@/*": ["src/*"]}}"#);
    assert_eq!(warnings.len(), 2);
    let fields: Vec<&str> = warnings.iter().map(|w| w.field.as_str()).collect();
    assert!(fields.contains(&"project"));
    assert!(fields.contains(&"paths"));
}

#[test]
fn migrate_knip_plugin_keys_generate_warnings() {
    let (_, warnings) =
        knip(r#"{"entry": ["src/index.ts"], "eslint": {"entry": ["eslint.config.js"]}}"#);
    assert_eq!(warnings.len(), 1);
    assert_eq!(warnings[0].field, "eslint");
    assert!(warnings[0].message.contains("auto-detected"));
}

#[test]
fn migrate_knip_entry_string() {
    let (config, _) = knip(r#"{"entry": "src/index.ts"}"#);
    assert_eq!(config.entry, Some(strings(&["src/index.ts"])));
}

#[test]
fn migrate_knip_exclude_unmappable_warns() {
    let (_, warnings) = knip(r#"{"exclude": ["optionalPeerDependencies"]}"#);
    assert_eq!(warnings.len(), 1);
    assert!(warnings[0].field.contains("optionalPeerDependencies"));
}

#[test]
fn migrate_knip_rules_unmappable_warns() {
    let (config, warnings) = knip(r#"{"rules": {"binaries": "warn", "files": "error"}}"#);
    assert_eq!(rule(&config, "unusedFiles"), Some("error"));
    assert!(rule(&config, "binaries").is_none());
    assert_eq!(warnings.len(), 1);
    assert!(warnings[0].field.contains("binaries"));
}

// ── jscpd ───────────────────────────────────────────────────────

#[test]
fn migrate_jscpd_basic() {
    let (config, warnings) = jscpd(r#"{"minTokens": 100, "minLines": 10, "threshold": 5.0}"#);
    let dupes = config.duplicates.unwrap();
    assert_eq!(dupes.min_tokens, Some(100));
    assert_eq!(dupes.min_lines, Some(10));
    assert_eq!(dupes.threshold.unwrap().parse::<f64>().unwrap(), 5.0);
    assert!(warnings.is_empty());
}

#[test]
fn migrate_jscpd_mode_weak_warns() {
    let (config, warnings) = jscpd(r#"{"mode": "weak"}"#);
    assert_eq!(config.duplicates.unwrap().mode.as_deref(), Some("weak"));
    assert_eq!(warnings.len(), 1);
    assert!(warnings[0].message.contains("differ semantically"));
}

#[test]
fn migrate_jscpd_skip_local() {
    let (config, _) = jscpd(r#"{"skipLocal": true}"#);
    assert_eq!(config.duplicates.unwrap().skip_local, Some(true));
}

#[test]
fn migrate_jscpd_ignore_patterns() {
    let (config, _) = jscpd(r#"{"ignore": ["**/*.test.ts", "dist/**"]}"#);
    assert_eq!(
        config.duplicates.unwrap().ignore,
        Some(strings(&["**/*.test.ts", "dist/**"]))
    );
}

#[test]
fn migrate_jscpd_unmappable_fields_generate_warnings() {
    let (_, warnings) = jscpd(
        r#"{"minTokens": 50, "maxLines": 1000, "reporters": ["console"], "blame": true}"#,
    );
    assert_eq!(warnings.len(), 3);
    let fields: Vec<&str> = warnings.iter().map(|w| w.field.as_str()).collect();
    assert!(fields.contains(&"maxLines"));
    assert!(fields.contains(&"reporters"));
    assert!(fields.contains(&"blame"));
}

#[test]
fn migrate_both_knip_and_jscpd() {
    let mut config = MigratedConfig::new();
    let mut warnings = Vec::new();
    migrate_knip(
        &doc(r#"{"entry": ["src/index.ts"], "ignore": ["dist/**"]}"#),
        &mut config,
        &mut warnings,
    );
    migrate_jscpd(&doc(r#"{"minTokens": 100, "skipLocal": true}"#), &mut config, &mut warnings);
    assert!(config.entry.is_some());
    assert!(config.ignore.is_some());
    assert!(config.duplicates.is_some());
}

// ── Output ──────────────────────────────────────────────────────

fn entry_only() -> MigratedConfig {
    let mut config = MigratedConfig::new();
    config.entry = Some(strings(&["src/index.ts"]));
    config
}

fn entry_jsonc() -> String {
    let entries = vec![(
        "entry".to_string(),
        serde_json::to_string_pretty(&vec!["src/index.ts"]).unwrap(),
    )];
    jsonc_document(&strings(&["knip.json"]), &entries)
}

#[test]
fn jsonc_output_has_schema() {
    let output = entry_jsonc();
    assert!(output.contains("$schema"));
    assert!(output.contains("fallow-rs/fallow"));
}

#[test]
fn jsonc_output_has_source_comment() {
    let output = entry_jsonc();
    assert!(output.contains("// Migrated from knip.json"));
}

#[test]
fn toml_output_has_source_comment() {
    let output = generate_toml(&entry_only(), &strings(&["knip.json"]));
    assert!(output.contains("# Migrated from knip.json"));
}

#[test]
fn toml_output_rules_section() {
    let mut config = MigratedConfig::new();
    config.rules = Some(vec![
        ("unusedExports".to_string(), "warn".to_string()),
        ("unusedFiles".to_string(), "error".to_string()),
    ]);
    let output = generate_toml(&config, &strings(&["knip.json"]));
    assert!(output.contains("[rules]"));
    assert!(output.contains("unusedFiles = \"error\""));
    assert!(output.contains("unusedExports = \"warn\""));
}

fn duplicates(min_tokens: Option<u64>, skip_local: Option<bool>) -> DuplicatesConfig {
    DuplicatesConfig {
        min_tokens,
        min_lines: None,
        threshold: None,
        mode: None,
        skip_local,
        ignore: None,
    }
}

#[test]
fn toml_output_duplicates_section() {
    let mut config = MigratedConfig::new();
    config.duplicates = Some(duplicates(Some(100), Some(true)));
    let output = generate_toml(&config, &strings(&[".jscpd.json"]));
    assert!(output.contains("[duplicates]"));
    assert!(output.contains("minTokens = 100"));
    assert!(output.contains("skipLocal = true"));
}

// ── Further cases ───────────────────────────────────────────────

#[test]
fn knip_document_not_an_object_warns_at_root() {
    let (config, warnings) = knip(r#"["entry"]"#);
    assert!(config.entry.is_none() && config.rules.is_none());
    assert_eq!(warnings.len(), 1);
    assert_eq!(warnings[0].source, "knip");
    assert_eq!(warnings[0].field, "(root)");
    assert_eq!(warnings[0].message, "expected an object, got something else");
    let (_, warnings) = jscpd("3");
    assert_eq!(warnings[0].source, "jscpd");
    assert_eq!(warnings[0].field, "(root)");
}

#[test]
fn knip_exclude_overrides_rules_and_include_keeps_them() {
    let (config, warnings) = knip(
        r#"{"rules": {"files": "error", "types": "warn"}, "exclude": ["types"], "include": ["exports", "binaries"]}"#,
    );
    let rules = config.rules.as_ref().unwrap();
    // names come out in ascending order
    let names: Vec<&str> = rules.iter().map(|(k, _)| k.as_str()).collect();
    let mut sorted = names.clone();
    sorted.sort();
    assert_eq!(names, sorted);
    assert_eq!(rule(&config, "unusedFiles"), Some("error"));
    assert_eq!(rule(&config, "unusedTypes"), Some("off"));
    assert_eq!(rule(&config, "unusedExports"), None);
    assert_eq!(rule(&config, "duplicateExports"), Some("off"));
    assert_eq!(rules.len(), 9);
    assert_eq!(warnings.len(), 1);
    assert_eq!(warnings[0].field, "include.binaries");
    assert_eq!(warnings[0].message, "issue type `binaries` has no fallow equivalent");
}

#[test]
fn knip_empty_lists_leave_config_unset() {
    let (config, warnings) =
        knip(r#"{"entry": [], "ignore": [1, 2], "ignoreDependencies": ["/x/"], "exclude": []}"#);
    assert!(config.entry.is_none());
    assert!(config.ignore.is_none());
    assert!(config.ignore_dependencies.is_none());
    assert!(config.rules.is_none());
    assert_eq!(warnings.len(), 1);
    assert_eq!(warnings[0].message, "regex pattern `/x/` skipped (fallow uses exact strings)");
    assert_eq!(warnings[0].suggestion.as_deref(), Some("add each dependency name explicitly"));
}

#[test]
fn knip_exclude_of_unknown_types_gives_empty_rules() {
    let (config, warnings) = knip(r#"{"exclude": ["nsTypes", "something"]}"#);
    assert_eq!(config.rules, Some(vec![]));
    assert_eq!(warnings.len(), 1);
    assert_eq!(warnings[0].field, "exclude.nsTypes");
}

#[test]
fn knip_warnings_come_in_order() {
    let (_, warnings) = knip(
        r#"{"workspaces": {"packages/a": {}}, "vite": {}, "tags": ["x"], "rules": {"catalog": "off"}, "ignoreDependencies": ["/a/"]}"#,
    );
    let fields: Vec<&str> = warnings.iter().map(|w| w.field.as_str()).collect();
    assert_eq!(
        fields,
        vec!["ignoreDependencies", "rules.catalog", "tags", "vite", "workspaces"]
    );
    assert_eq!(
        warnings[3].message,
        "plugin config `vite` is auto-detected by fallow's built-in plugins"
    );
    assert_eq!(
        warnings[4].suggestion.as_deref(),
        Some("fallow auto-discovers workspace packages; use --workspace flag to scope output")
    );
}

#[test]
fn jscpd_unknown_mode_is_dropped_with_warning() {
    let (config, warnings) = jscpd(r#"{"mode": "fuzzy", "minTokens": -3}"#);
    assert!(config.duplicates.is_none());
    assert_eq!(warnings.len(), 1);
    assert_eq!(warnings[0].message, "unknown mode `fuzzy`, defaulting to \"mild\"");
}

#[test]
fn jscpd_threshold_of_integer_is_a_float() {
    let (config, _) = jscpd(r#"{"threshold": 5, "mode": "strict"}"#);
    let d = config.duplicates.unwrap();
    assert_eq!(d.threshold.as_deref(), Some("5.0"));
    assert_eq!(d.mode.as_deref(), Some("strict"));
}

#[test]
fn jscpd_leaves_knip_sections_alone() {
    let mut config = entry_only();
    let mut warnings = Vec::new();
    migrate_jscpd(&doc(r#"{"minLines": 4}"#), &mut config, &mut warnings);
    assert_eq!(config.entry, Some(strings(&["src/index.ts"])));
    assert_eq!(config.duplicates.unwrap().min_lines, Some(4));
}

#[test]
fn toml_output_is_exact() {
    let mut config = MigratedConfig::new();
    config.entry = Some(strings(&["src/index.ts", "src/cli.ts"]));
    config.ignore_dependencies = Some(strings(&["lodash"]));
    config.rules = Some(vec![("unusedFiles".to_string(), "error".to_string())]);
    config.duplicates = Some(DuplicatesConfig {
        min_tokens: Some(100),
        min_lines: Some(5),
        threshold: Some("2.5".to_string()),
        mode: Some("mild".to_string()),
        skip_local: Some(false),
        ignore: Some(strings(&["dist/**"])),
    });
    let output = generate_toml(&config, &strings(&["knip.json", ".jscpd.json"]));
    assert_eq!(
        output,
        "# Migrated from knip.json, .jscpd.json\n\n\
         entry = [\"src/index.ts\", \"src/cli.ts\"]\n\
         ignoreDependencies = [\"lodash\"]\n\
         \n[rules]\nunusedFiles = \"error\"\n\
         \n[duplicates]\nignore = [\"dist/**\"]\nminLines = 5\nminTokens = 100\nmode = \"mild\"\nskipLocal = false\nthreshold = 2.5\n"
    );
}

#[test]
fn toml_output_skips_empty_sections() {
    let mut config = MigratedConfig::new();
    config.rules = Some(vec![]);
    config.duplicates = Some(duplicates(None, None));
    let output = generate_toml(&config, &strings(&["knip.json"]));
    assert_eq!(output, "# Migrated from knip.json\n\n");
}

#[test]
fn jsonc_document_is_exact() {
    let entries = vec![
        ("entry".to_string(), "[\n  \"a\"\n]".to_string()),
        ("rules".to_string(), "{}".to_string()),
    ];
    let output = jsonc_document(&strings(&["knip.json"]), &entries);
    assert_eq!(
        output,
        "{\n  \"$schema\": \"https://raw.githubusercontent.com/fallow-rs/fallow/main/schema.json\",\n  \
         // Migrated from knip.json\n  \"entry\": [\n    \"a\"\n  ],\n  \"rules\": {}\n}\n"
    );
}

#[test]
fn warning_text_shows_suggestion() {
    let (_, warnings) = knip(r#"{"ignoreFiles": ["x"]}"#);
    assert_eq!(
        warnings[0].to_text(),
        "[knip] `ignoreFiles`: No separate concept in fallow (suggestion: use `ignore` patterns instead)"
    );
    let (_, warnings) = knip(r#"{"project": ["x"]}"#);
    assert_eq!(warnings[0].to_text(), "[knip] `project`: Fallow auto-discovers project files");
}

#[test]
fn string_or_array_reads_strings_only() {
    let v = field_of(&serde_json::from_str::<Value>(r#"["a", 1, "b", null]"#).unwrap());
    assert_eq!(string_or_array(&v), strings(&["a", "b"]));
    assert_eq!(string_or_array(&JsonField::Str("x".to_string())), strings(&["x"]));
    assert!(string_or_array(&JsonField::Bool(true)).is_empty());
}

#[test]
fn format_is_detected_from_fields() {
    assert_eq!(detect_format(&doc(r#"{"project": []}"#)), Some(ConfigFormat::Knip));
    assert_eq!(detect_format(&doc(r#"{"threshold": 1}"#)), Some(ConfigFormat::Jscpd));
    assert_eq!(detect_format(&doc(r#"{"mode": "x", "rules": {}}"#)), Some(ConfigFormat::Knip));
    assert_eq!(detect_format(&doc(r#"{"name": "x"}"#)), None);
    assert_eq!(detect_format(&doc("[1]")), None);
}

#[test]
fn config_files_are_classified_by_name() {
    assert_eq!(classify_config_file("knip.config.ts"), ConfigFileKind::KnipTypeScript);
    assert_eq!(classify_config_file(".knip.jsonc"), ConfigFileKind::Knip);
    assert_eq!(classify_config_file(".jscpd.json"), ConfigFileKind::Jscpd);
    assert_eq!(classify_config_file("package.json"), ConfigFileKind::PackageJson);
    assert_eq!(classify_config_file("settings.json"), ConfigFileKind::Other);
}

#[test]
fn typescript_configs_are_refused() {
    assert_eq!(
        typescript_config_error("knip.ts"),
        "TypeScript config files (knip.ts) cannot be parsed. Convert to knip.json first, then re-run migrate."
    );
    let w = typescript_config_warning("knip.config.ts");
    assert_eq!(w.field, "knip.config.ts");
    assert!(w.suggestion.is_none());
}

#[test]
fn plain_json_text_is_kept() {
    let text = "{\"entry\": [\"src/index.ts\"]}";
    assert_eq!(json_or_jsonc_text(text, "knip.json").unwrap(), text);
}

#[test]
fn jsonc_comments_are_blanked() {
    let text = "{\n  // entry points\n  \"entry\": [\"src/**/*.ts\"] /* all */\n}";
    let stripped = json_or_jsonc_text(text, "knip.jsonc").unwrap();
    assert_eq!(stripped.len(), text.len());
    assert!(!stripped.contains("entry points"));
    assert!(!stripped.contains("all */"));
    assert!(stripped.contains("\"src/**/*.ts\""));
    let value: serde_json::Value = serde_json::from_str(&stripped).unwrap();
    assert_eq!(value["entry"][0], "src/**/*.ts");
}

#[test]
fn unterminated_comment_names_the_file() {
    let err = json_or_jsonc_text("{ /* open", "knip.jsonc").unwrap_err();
    assert!(err.starts_with("failed to strip comments from knip.jsonc: "));
}
