use fallow_cli::codeowners::{directory_group, translate_pattern, CodeOwners, UNOWNED_LABEL};

// ── translate_pattern ──────────────────────────────────────────

#[test]
fn translate_bare_glob() {
    assert_eq!(translate_pattern("*.js"), "**/*.js");
}

#[test]
fn translate_rooted_pattern() {
    assert_eq!(translate_pattern("/docs/*"), "docs/*");
}

#[test]
fn translate_directory_pattern() {
    assert_eq!(translate_pattern("docs/"), "docs/**");
}

#[test]
fn translate_rooted_directory() {
    assert_eq!(translate_pattern("/src/app/"), "src/app/**");
}

#[test]
fn translate_path_with_slash() {
    assert_eq!(translate_pattern("src/utils/*.ts"), "src/utils/*.ts");
}

#[test]
fn translate_double_star() {
    assert_eq!(translate_pattern("**/test_*.py"), "**/test_*.py");
}

#[test]
fn translate_single_file() {
    assert_eq!(translate_pattern("Makefile"), "**/Makefile");
}

// ── parse ──────────────────────────────────────────────────────

#[test]
fn parse_simple_codeowners() {
    let content = "* @global-owner\n/src/ @frontend\n*.rs @rust-team\n";
    let co = CodeOwners::parse(content).unwrap();
    assert_eq!(co.rule_count(), 3);
}

#[test]
fn parse_skips_comments_and_blanks() {
    let content = "# Comment\n\n* @owner\n  # Indented comment\n";
    let co = CodeOwners::parse(content).unwrap();
    assert_eq!(co.rule_count(), 1);
}

#[test]
fn parse_multi_owner_takes_first() {
    let content = "*.ts @team-a @team-b @team-c\n";
    let co = CodeOwners::parse(content).unwrap();
    assert_eq!(co.owner(0), "@team-a");
}

#[test]
fn parse_skips_pattern_without_owner() {
    let content = "*.ts\n*.js @owner\n";
    let co = CodeOwners::parse(content).unwrap();
    assert_eq!(co.rule_count(), 1);
    assert_eq!(co.owner(0), "@owner");
}

#[test]
fn parse_empty_content() {
    let co = CodeOwners::parse("").unwrap();
    assert_eq!(co.owner_of("anything.ts"), None);
}

#[test]
fn parse_rejects_invalid_glob() {
    let err = CodeOwners::parse("src/[ @team\n").unwrap_err();
    assert!(err.contains("invalid CODEOWNERS pattern"), "got: {err}");
}

// ── owner_of ───────────────────────────────────────────────────

#[test]
fn owner_of_last_match_wins() {
    let content = "* @default\n/src/ @frontend\n";
    let co = CodeOwners::parse(content).unwrap();
    assert_eq!(co.owner_of("src/app.ts"), Some("@frontend"));
}

#[test]
fn owner_of_falls_back_to_catch_all() {
    let content = "* @default\n/src/ @frontend\n";
    let co = CodeOwners::parse(content).unwrap();
    assert_eq!(co.owner_of("README.md"), Some("@default"));
}

#[test]
fn owner_of_no_match_returns_none() {
    let content = "/src/ @frontend\n";
    let co = CodeOwners::parse(content).unwrap();
    assert_eq!(co.owner_of("README.md"), None);
}

#[test]
fn owner_of_extension_glob() {
    let content = "*.rs @rust-team\n*.ts @ts-team\n";
    let co = CodeOwners::parse(content).unwrap();
    assert_eq!(co.owner_of("src/lib.rs"), Some("@rust-team"));
    assert_eq!(co.owner_of("packages/ui/Button.ts"), Some("@ts-team"));
}

#[test]
fn owner_of_nested_directory() {
    let content = "* @default\n/packages/auth/ @auth-team\n";
    let co = CodeOwners::parse(content).unwrap();
    assert_eq!(co.owner_of("packages/auth/src/login.ts"), Some("@auth-team"));
    assert_eq!(co.owner_of("packages/ui/Button.ts"), Some("@default"));
}

#[test]
fn owner_of_specific_overrides_general() {
    let content = "\
        * @default\n\
        /src/ @frontend\n\
        /src/api/ @backend\n\
    ";
    let co = CodeOwners::parse(content).unwrap();
    assert_eq!(co.owner_of("src/api/routes.ts"), Some("@backend"));
    assert_eq!(co.owner_of("src/app.ts"), Some("@frontend"));
}

// ── directory_group ────────────────────────────────────────────

#[test]
fn directory_group_simple() {
    assert_eq!(directory_group("src/utils/index.ts"), "src");
}

#[test]
fn directory_group_root_file() {
    assert_eq!(directory_group("index.ts"), "index.ts");
}

#[test]
fn directory_group_monorepo() {
    assert_eq!(directory_group("packages/auth/src/login.ts"), "packages");
}

// ── edge cases ─────────────────────────────────────────────────

#[test]
fn email_owner() {
    let content = "*.js user@example.com\n";
    let co = CodeOwners::parse(content).unwrap();
    assert_eq!(co.owner_of("index.js"), Some("user@example.com"));
}

#[test]
fn team_owner() {
    let content = "*.ts @org/frontend-team\n";
    let co = CodeOwners::parse(content).unwrap();
    assert_eq!(co.owner_of("app.ts"), Some("@org/frontend-team"));
}

#[test]
fn unowned_label_is_stable() {
    assert_eq!(UNOWNED_LABEL, "(unowned)");
}
