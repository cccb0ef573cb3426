use fallow_cli::fix::{
    apply_export_fixes_to_content, group_exports_by_file, plan_export_fixes, ReportedExport,
    UnusedExportLine,
};

fn export(name: &str, line: u32) -> UnusedExportLine {
    UnusedExportLine { line, export_name: name.to_owned() }
}

/// Plan the fixes for a file's text and apply them; returns the new text and
/// how many fixes were planned.
fn fix(content: &str, exports: Vec<UnusedExportLine>) -> (String, usize) {
    let plan = plan_export_fixes(content, &exports);
    let fixed = apply_export_fixes_to_content(content, &plan);
    (fixed, plan.len())
}

#[test]
fn actual_export_fix_removes_export_keyword() {
    let (content, n) = fix("export function foo() {}\nexport const bar = 1;\n", vec![export("foo", 1)]);
    assert_eq!(content, "function foo() {}\nexport const bar = 1;\n");
    assert_eq!(n, 1);
}

#[test]
fn export_fix_removes_default_from_function() {
    let (content, _) = fix("export default function App() {}\n", vec![export("default", 1)]);
    assert_eq!(content, "function App() {}\n");
}

#[test]
fn export_fix_removes_default_from_class() {
    let (content, _) = fix("export default class MyService {}\n", vec![export("default", 1)]);
    assert_eq!(content, "class MyService {}\n");
}

#[test]
fn export_fix_removes_default_from_abstract_class() {
    let (content, _) = fix("export default abstract class Base {}\n", vec![export("default", 1)]);
    assert_eq!(content, "abstract class Base {}\n");
}

#[test]
fn export_fix_removes_default_from_async_function() {
    let (content, _) = fix("export default async function handler() {}\n", vec![export("default", 1)]);
    assert_eq!(content, "async function handler() {}\n");
}

#[test]
fn export_fix_skips_default_expression_export() {
    let original = "export default { key: 'value' };\n";
    let (content, n) = fix(original, vec![export("default", 1)]);
    assert_eq!(content, original);
    assert_eq!(n, 0);
}

#[test]
fn export_fix_preserves_indentation() {
    let (content, _) = fix("  export const x = 1;\n", vec![export("x", 1)]);
    assert_eq!(content, "  const x = 1;\n");
}

#[test]
fn export_fix_preserves_crlf_line_endings() {
    let (content, _) = fix(
        "export function foo() {}\r\nexport function bar() {}\r\n",
        vec![export("foo", 1)],
    );
    assert_eq!(content, "function foo() {}\r\nexport function bar() {}\r\n");
}

#[test]
fn export_fix_skips_line_not_starting_with_export() {
    let original = "const foo = 'export something';\n";
    let (content, n) = fix(original, vec![export("foo", 1)]);
    assert_eq!(content, original);
    assert_eq!(n, 0);
}

#[test]
fn export_fix_handles_multiple_exports_in_same_file() {
    let (content, n) = fix(
        "export function a() {}\nexport const b = 1;\nexport class C {}\n",
        vec![export("a", 1), export("C", 3)],
    );
    assert_eq!(content, "function a() {}\nexport const b = 1;\nclass C {}\n");
    assert_eq!(n, 2);
}

#[test]
fn export_fix_skips_out_of_bounds_line() {
    let (content, n) = fix("export function a() {}\n", vec![export("ghost", 999)]);
    assert_eq!(content, "export function a() {}\n");
    assert_eq!(n, 0);
}

#[test]
fn export_fix_plans_each_line_once_in_descending_order() {
    let plan = plan_export_fixes(
        "export const a = 1;\nexport const b = 2;\n",
        &vec![export("a", 1), export("b", 2), export("a2", 1), export("zero", 0)],
    );
    let lines: Vec<usize> = plan.iter().map(|f| f.line_idx).collect();
    assert_eq!(lines, vec![1, 0]);
    assert_eq!(plan[1].export_name, "a");
}

#[test]
fn exports_grouped_by_file_keep_reported_order() {
    let exports = vec![
        ReportedExport { path: "/p/src/a.ts".into(), line: 3, export_name: "foo".into() },
        ReportedExport { path: "/p/src/b.ts".into(), line: 1, export_name: "bar".into() },
        ReportedExport { path: "/p/src/./a.ts".into(), line: 9, export_name: "baz".into() },
    ];
    let groups = group_exports_by_file(&exports);
    assert_eq!(groups.len(), 2);
    assert_eq!(groups[0].path, "/p/src/a.ts");
    let a: Vec<(u32, &str)> = groups[0].exports.iter().map(|e| (e.line, e.export_name.as_str())).collect();
    assert_eq!(a, vec![(3, "foo"), (9, "baz")]);
    assert_eq!(groups[1].path, "/p/src/b.ts");
    assert_eq!(groups[1].exports.len(), 1);
}

#[test]
fn no_exports_no_groups() {
    assert!(group_exports_by_file(&vec![]).is_empty());
}
