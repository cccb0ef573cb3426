//! Migration of knip and jscpd configurations to a fallow configuration.
//!
//! The JSON documents are read by the caller into [`JsonField`] values; the
//! rules that map their fields to fallow's configuration, the warnings for
//! what cannot be carried over, and the TOML and JSONC layouts are here.
use vstd::prelude::*;
use crate::text::{string_views, lines, lines_exec, str_chars, chars_to_string, push_all, push_str, push_decimal, decimal, slice_vec, chars_eq};
use crate::search::{join, first_occ_from, find_from};
use crate::ordering::{char_views, join_chars};
use crate::ordering::{chars_lt, chars_less, strictly_ascending, lemma_chars_lt_total, lemma_chars_lt_trans};

verus! {

// ── Input model ──────────────────────────────────────────────────

/// A JSON number as the migration reads it: its value when it is a `u64`,
/// and the text of the number once read as a 64-bit float.
pub struct JsonNumber {
    pub as_u64: Option<u64>,
    pub float_text: String,
}

/// A member value of a JSON object, holding what the migration reads of it.
pub enum JsonField {
    Null,
    Bool(bool),
    Number(JsonNumber),
    Str(String),
    /// An array: each string item, and `None` for an item of another kind.
    Array(Vec<Option<String>>),
    /// An object: each member with its string value, or `None` for a value
    /// of another kind.
    Object(Vec<(String, Option<String>)>),
}

/// The value of the first member named `key` at or after position `i`.
pub open spec fn lookup_from<V>(m: Seq<(String, V)>, key: Seq<char>, i: int) -> Option<V>
    decreases m.len() - i,
{
    if i < 0 || i >= m.len() {
        None
    } else if m[i].0@ == key {
        Some(m[i].1)
    } else {
        lookup_from(m, key, i + 1)
    }
}

/// The value of the member named `key`.
pub open spec fn lookup<V>(m: Seq<(String, V)>, key: Seq<char>) -> Option<V> {
    lookup_from(m, key, 0)
}

/// The position of the member named `key`, if there is one.
pub fn find_key<V>(m: &Vec<(String, V)>, key: &str) -> (r: Option<usize>)
    ensures
        match r {
            Some(i) => i < m@.len() && lookup(m@, key@) == Some(m@[i as int].1),
            None => lookup(m@, key@) is None,
        },
{
    let k = String::from_str(key);
    let mut i: usize = 0;
    while i < m.len()
        invariant
            i <= m@.len(),
            k@ == key@,
            lookup(m@, key@) == lookup_from(m@, key@, i as int),
        decreases m.len() - i,
    {
        if m[i].0 == k {
            return Some(i);
        }
        i = i + 1;
    }
    None
}

/// The string items of an array.
pub open spec fn string_items(items: Seq<Option<String>>) -> Seq<Seq<char>>
    decreases items.len(),
{
    if items.len() == 0 {
        Seq::empty()
    } else {
        let r = string_items(items.drop_last());
        match items.last() {
            Some(s) => r.push(s@),
            None => r,
        }
    }
}

/// A string as a one-item list, the string items of an array, and nothing
/// for any other value.
pub open spec fn strings_of(v: JsonField) -> Seq<Seq<char>> {
    match v {
        JsonField::Str(s) => seq![s@],
        JsonField::Array(items) => string_items(items@),
        _ => Seq::empty(),
    }
}

/// `strings_of` the member named `key`, and nothing when it is absent.
pub open spec fn member_strings(m: Seq<(String, JsonField)>, key: Seq<char>) -> Seq<Seq<char>> {
    match lookup(m, key) {
        Some(v) => strings_of(v),
        None => Seq::empty(),
    }
}

/// Reads a field that holds one string or an array of strings.
pub fn string_or_array(value: &JsonField) -> (r: Vec<String>)
    ensures
        string_views(r@) == strings_of(*value),
{
    let mut out: Vec<String> = Vec::new();
    match value {
        JsonField::Str(s) => {
            out.push(s.clone());
            proof {
                assert(string_views(out@) =~= seq![s@]);
            }
        },
        JsonField::Array(items) => {
            let mut i: usize = 0;
            while i < items.len()
                invariant
                    i <= items@.len(),
                    string_views(out@) == string_items(items@.take(i as int)),
                decreases items.len() - i,
            {
                proof {
                    assert(items@.take(i + 1).drop_last() =~= items@.take(i as int));
                }
                match &items[i] {
                    Some(s) => {
                        let ghost before = out@;
                        out.push(s.clone());
                        proof {
                            assert(string_views(out@) =~= string_views(before).push(s@));
                        }
                    },
                    None => {},
                }
                i = i + 1;
            }
            proof {
                assert(items@.take(i as int) =~= items@);
            }
        },
        _ => {
            proof {
                assert(string_views(out@) =~= Seq::<Seq<char>>::empty());
            }
        },
    }
    out
}

/// Reads the member named `key` as by `string_or_array`.
fn member_string_list(m: &Vec<(String, JsonField)>, key: &str) -> (r: Vec<String>)
    ensures
        string_views(r@) == member_strings(m@, key@),
{
    match find_key(m, key) {
        Some(i) => string_or_array(&m[i].1),
        None => {
            let out: Vec<String> = Vec::new();
            proof {
                assert(string_views(out@) =~= Seq::<Seq<char>>::empty());
            }
            out
        },
    }
}

// ── Tables ───────────────────────────────────────────────────────

/// knip issue types and the fallow rules they become.
pub open spec fn knip_rule_map() -> Seq<(&'static str, &'static str)> {
    seq![
        ("files", "unusedFiles"),
        ("dependencies", "unusedDependencies"),
        ("devDependencies", "unusedDevDependencies"),
        ("exports", "unusedExports"),
        ("types", "unusedTypes"),
        ("enumMembers", "unusedEnumMembers"),
        ("classMembers", "unusedClassMembers"),
        ("unlisted", "unlistedDependencies"),
        ("unresolved", "unresolvedImports"),
        ("duplicates", "duplicateExports"),
    ]
}

fn knip_rule_map_table() -> (r: Vec<(&'static str, &'static str)>)
    ensures
        r@ == knip_rule_map(),
{
    vec![
        ("files", "unusedFiles"),
        ("dependencies", "unusedDependencies"),
        ("devDependencies", "unusedDevDependencies"),
        ("exports", "unusedExports"),
        ("types", "unusedTypes"),
        ("enumMembers", "unusedEnumMembers"),
        ("classMembers", "unusedClassMembers"),
        ("unlisted", "unlistedDependencies"),
        ("unresolved", "unresolvedImports"),
        ("duplicates", "duplicateExports"),
    ]
}

/// knip issue types that fallow has no counterpart for.
pub open spec fn knip_unmappable_issue_types() -> Seq<&'static str> {
    seq!["optionalPeerDependencies", "binaries", "nsExports", "nsTypes", "catalog"]
}

fn knip_unmappable_issue_types_table() -> (r: Vec<&'static str>)
    ensures
        r@ == knip_unmappable_issue_types(),
{
    vec!["optionalPeerDependencies", "binaries", "nsExports", "nsTypes", "catalog"]
}

/// A field name, why it cannot be carried over, and what to do instead.
pub type FieldNote = (&'static str, &'static str, Option<&'static str>);

/// knip fields that have no place in a fallow configuration.
pub open spec fn knip_unmappable_fields() -> Seq<FieldNote> {
    seq![
        ("project", "Fallow auto-discovers project files", None),
        ("paths", "Fallow reads path mappings from tsconfig.json automatically", None),
        ("ignoreFiles", "No separate concept in fallow", Some("use `ignore` patterns instead")),
        ("ignoreBinaries", "Binary filtering is not configurable in fallow", None),
        ("ignoreMembers", "Member-level ignoring is not configurable in fallow", Some("use inline suppression comments: // fallow-ignore-next-line")),
        ("ignoreUnresolved", "Unresolved import filtering is not configurable in fallow", Some("use inline suppression comments: // fallow-ignore-next-line unresolved-import")),
        ("ignoreExportsUsedInFile", "No equivalent in fallow", None),
        ("ignoreWorkspaces", "Workspace filtering is not configurable per-workspace", Some("use --workspace flag to scope output to a single package")),
        ("ignoreIssues", "No global issue ignoring in fallow", Some("use inline suppression comments: // fallow-ignore-file [issue-type]")),
        ("includeEntryExports", "Entry export inclusion is not configurable in fallow", None),
        ("tags", "Tag-based filtering is not supported in fallow", None),
        ("compilers", "Custom compilers are not supported in fallow (uses Oxc parser)", None),
        ("treatConfigHintsAsErrors", "No equivalent in fallow", None),
    ]
}

fn knip_unmappable_fields_table() -> (r: Vec<FieldNote>)
    ensures
        r@ == knip_unmappable_fields(),
{
    vec![
        ("project", "Fallow auto-discovers project files", None),
        ("paths", "Fallow reads path mappings from tsconfig.json automatically", None),
        ("ignoreFiles", "No separate concept in fallow", Some("use `ignore` patterns instead")),
        ("ignoreBinaries", "Binary filtering is not configurable in fallow", None),
        ("ignoreMembers", "Member-level ignoring is not configurable in fallow", Some("use inline suppression comments: // fallow-ignore-next-line")),
        ("ignoreUnresolved", "Unresolved import filtering is not configurable in fallow", Some("use inline suppression comments: // fallow-ignore-next-line unresolved-import")),
        ("ignoreExportsUsedInFile", "No equivalent in fallow", None),
        ("ignoreWorkspaces", "Workspace filtering is not configurable per-workspace", Some("use --workspace flag to scope output to a single package")),
        ("ignoreIssues", "No global issue ignoring in fallow", Some("use inline suppression comments: // fallow-ignore-file [issue-type]")),
        ("includeEntryExports", "Entry export inclusion is not configurable in fallow", None),
        ("tags", "Tag-based filtering is not supported in fallow", None),
        ("compilers", "Custom compilers are not supported in fallow (uses Oxc parser)", None),
        ("treatConfigHintsAsErrors", "No equivalent in fallow", None),
    ]
}

/// knip's framework plugin sections, which fallow's plugins detect by themselves.
pub open spec fn knip_plugin_keys() -> Seq<&'static str> {
    seq![
        "angular", "astro", "ava", "babel", "biome", "capacitor",
        "changesets", "commitizen", "commitlint", "cspell", "cucumber", "cypress",
        "docusaurus", "drizzle", "eleventy", "eslint", "expo", "gatsby",
        "github-actions", "graphql-codegen", "husky", "jest", "knex", "lefthook",
        "lint-staged", "markdownlint", "mocha", "moonrepo", "msw", "nest",
        "next", "node-test-runner", "npm-package-json-lint", "nuxt", "nx", "nyc",
        "oclif", "playwright", "postcss", "prettier", "prisma", "react-cosmos",
        "react-router", "release-it", "remark", "remix", "rollup", "rspack",
        "semantic-release", "sentry", "simple-git-hooks", "size-limit", "storybook", "stryker",
        "stylelint", "svelte", "syncpack", "tailwind", "tsup", "tsx",
        "typedoc", "typescript", "unbuild", "unocss", "vercel-og", "vite",
        "vitest", "vue", "webpack", "wireit", "wrangler", "xo",
        "yorkie",
    ]
}

fn knip_plugin_keys_table() -> (r: Vec<&'static str>)
    ensures
        r@ == knip_plugin_keys(),
{
    vec![
        "angular", "astro", "ava", "babel", "biome", "capacitor",
        "changesets", "commitizen", "commitlint", "cspell", "cucumber", "cypress",
        "docusaurus", "drizzle", "eleventy", "eslint", "expo", "gatsby",
        "github-actions", "graphql-codegen", "husky", "jest", "knex", "lefthook",
        "lint-staged", "markdownlint", "mocha", "moonrepo", "msw", "nest",
        "next", "node-test-runner", "npm-package-json-lint", "nuxt", "nx", "nyc",
        "oclif", "playwright", "postcss", "prettier", "prisma", "react-cosmos",
        "react-router", "release-it", "remark", "remix", "rollup", "rspack",
        "semantic-release", "sentry", "simple-git-hooks", "size-limit", "storybook", "stryker",
        "stylelint", "svelte", "syncpack", "tailwind", "tsup", "tsx",
        "typedoc", "typescript", "unbuild", "unocss", "vercel-og", "vite",
        "vitest", "vue", "webpack", "wireit", "wrangler", "xo",
        "yorkie",
    ]
}

/// jscpd fields that have no place in a fallow configuration.
pub open spec fn jscpd_unmappable_fields() -> Seq<FieldNote> {
    seq![
        ("maxLines", "No maximum line count limit in fallow", None),
        ("maxSize", "No maximum file size limit in fallow", None),
        ("ignorePattern", "Content-based ignore patterns are not supported", Some("use inline suppression: // fallow-ignore-next-line code-duplication")),
        ("reporters", "Reporters are not configurable in fallow", Some("use --format flag instead (human/json/sarif/compact)")),
        ("output", "fallow writes to stdout", Some("redirect output with shell: fallow dupes > report.json")),
        ("blame", "Git blame integration is not supported in fallow", None),
        ("absolute", "fallow always shows relative paths", None),
        ("noSymlinks", "Symlink handling is not configurable in fallow", None),
        ("ignoreCase", "Case-insensitive matching is not supported in fallow", None),
        ("format", "fallow auto-detects JS/TS files", None),
        ("formatsExts", "Custom file extensions are not configurable in fallow", None),
        ("store", "Store backend is not configurable in fallow", None),
        ("tokensToSkip", "Token skipping is not configurable in fallow", None),
        ("exitCode", "Exit codes are not configurable in fallow", Some("use the rules system to control which issues cause CI failure")),
        ("pattern", "Pattern filtering is not supported in fallow", None),
        ("path", "Source path configuration is not supported", Some("run fallow from the project root directory")),
    ]
}

fn jscpd_unmappable_fields_table() -> (r: Vec<FieldNote>)
    ensures
        r@ == jscpd_unmappable_fields(),
{
    vec![
        ("maxLines", "No maximum line count limit in fallow", None),
        ("maxSize", "No maximum file size limit in fallow", None),
        ("ignorePattern", "Content-based ignore patterns are not supported", Some("use inline suppression: // fallow-ignore-next-line code-duplication")),
        ("reporters", "Reporters are not configurable in fallow", Some("use --format flag instead (human/json/sarif/compact)")),
        ("output", "fallow writes to stdout", Some("redirect output with shell: fallow dupes > report.json")),
        ("blame", "Git blame integration is not supported in fallow", None),
        ("absolute", "fallow always shows relative paths", None),
        ("noSymlinks", "Symlink handling is not configurable in fallow", None),
        ("ignoreCase", "Case-insensitive matching is not supported in fallow", None),
        ("format", "fallow auto-detects JS/TS files", None),
        ("formatsExts", "Custom file extensions are not configurable in fallow", None),
        ("store", "Store backend is not configurable in fallow", None),
        ("tokensToSkip", "Token skipping is not configurable in fallow", None),
        ("exitCode", "Exit codes are not configurable in fallow", Some("use the rules system to control which issues cause CI failure")),
        ("pattern", "Pattern filtering is not supported in fallow", None),
        ("path", "Source path configuration is not supported", Some("run fallow from the project root directory")),
    ]
}

// ── Output model ─────────────────────────────────────────────────

/// A field that could not be carried over, with what to do instead.
pub struct MigrationWarning {
    pub source: String,
    pub field: String,
    pub message: String,
    pub suggestion: Option<String>,
}

/// What a warning says.
pub struct WarningView {
    pub source: Seq<char>,
    pub field: Seq<char>,
    pub message: Seq<char>,
    pub suggestion: Option<Seq<char>>,
}

/// The characters of an optional string.
pub open spec fn opt_chars(o: Option<String>) -> Option<Seq<char>> {
    match o {
        Some(s) => Some(s@),
        None => None,
    }
}

/// The characters of an optional string slice.
pub open spec fn opt_str(o: Option<&str>) -> Option<Seq<char>> {
    match o {
        Some(s) => Some(s@),
        None => None,
    }
}

impl View for MigrationWarning {
    type V = WarningView;

    open spec fn view(&self) -> WarningView {
        WarningView {
            source: self.source@,
            field: self.field@,
            message: self.message@,
            suggestion: opt_chars(self.suggestion),
        }
    }
}

/// What each warning says.
pub open spec fn warning_views(ws: Seq<MigrationWarning>) -> Seq<WarningView> {
    ws.map_values(|w: MigrationWarning| w@)
}

/// The `duplicates` section of a fallow configuration.
pub struct DuplicatesConfig {
    pub min_tokens: Option<u64>,
    pub min_lines: Option<u64>,
    /// The threshold as the text of its number.
    pub threshold: Option<String>,
    pub mode: Option<String>,
    pub skip_local: Option<bool>,
    pub ignore: Option<Vec<String>>,
}

/// The sections of a fallow configuration that a migration fills.
pub struct MigratedConfig {
    pub entry: Option<Vec<String>>,
    pub ignore: Option<Vec<String>>,
    pub ignore_dependencies: Option<Vec<String>>,
    /// Rule names with their severities, names strictly ascending.
    pub rules: Option<Vec<(String, String)>>,
    pub duplicates: Option<DuplicatesConfig>,
}

/// What a `duplicates` section holds.
pub struct DuplicatesView {
    pub min_tokens: Option<u64>,
    pub min_lines: Option<u64>,
    pub threshold: Option<Seq<char>>,
    pub mode: Option<Seq<char>>,
    pub skip_local: Option<bool>,
    pub ignore: Option<Seq<Seq<char>>>,
}

/// What a migrated configuration holds.
pub struct ConfigView {
    pub entry: Option<Seq<Seq<char>>>,
    pub ignore: Option<Seq<Seq<char>>>,
    pub ignore_dependencies: Option<Seq<Seq<char>>>,
    pub rules: Option<Map<Seq<char>, Seq<char>>>,
    pub duplicates: Option<DuplicatesView>,
}

/// The characters of each string of an optional list.
pub open spec fn opt_strings(o: Option<Vec<String>>) -> Option<Seq<Seq<char>>> {
    match o {
        Some(v) => Some(string_views(v@)),
        None => None,
    }
}

impl View for DuplicatesConfig {
    type V = DuplicatesView;

    open spec fn view(&self) -> DuplicatesView {
        DuplicatesView {
            min_tokens: self.min_tokens,
            min_lines: self.min_lines,
            threshold: opt_chars(self.threshold),
            mode: opt_chars(self.mode),
            skip_local: self.skip_local,
            ignore: opt_strings(self.ignore),
        }
    }
}

impl View for MigratedConfig {
    type V = ConfigView;

    open spec fn view(&self) -> ConfigView {
        ConfigView {
            entry: opt_strings(self.entry),
            ignore: opt_strings(self.ignore),
            ignore_dependencies: opt_strings(self.ignore_dependencies),
            rules: match self.rules {
                Some(r) => Some(rule_map(r@)),
                None => None,
            },
            duplicates: match self.duplicates {
                Some(d) => Some(d@),
                None => None,
            },
        }
    }
}

impl MigratedConfig {
    /// The rules table is sorted.
    pub open spec fn wf(&self) -> bool {
        match self.rules {
            Some(r) => rules_sorted(r@),
            None => true,
        }
    }

    /// A configuration with nothing in it yet.
    pub fn new() -> (c: MigratedConfig)
        ensures
            c.wf(),
            c@ == (ConfigView {
                entry: None,
                ignore: None,
                ignore_dependencies: None,
                rules: None,
                duplicates: None,
            }),
    {
        MigratedConfig {
            entry: None,
            ignore: None,
            ignore_dependencies: None,
            rules: None,
            duplicates: None,
        }
    }
}

fn make_warning(source: &str, field: String, message: String, suggestion: Option<&str>) -> (w:
    MigrationWarning)
    ensures
        w@ == (WarningView {
            source: source@,
            field: field@,
            message: message@,
            suggestion: opt_str(suggestion),
        }),
{
    MigrationWarning {
        source: String::from_str(source),
        field,
        message,
        suggestion: match suggestion {
            Some(s) => Some(String::from_str(s)),
            None => None,
        },
    }
}

fn push_warning(warnings: &mut Vec<MigrationWarning>, w: MigrationWarning)
    ensures
        warning_views(final(warnings)@) == warning_views(old(warnings)@).push(w@),
{
    warnings.push(w);
    proof {
        assert(warning_views(final(warnings)@) =~= warning_views(old(warnings)@).push(w@));
    }
}

/// `a`, then `b`.
fn concat2(a: &str, b: &str) -> (r: String)
    ensures
        r@ == a@ + b@,
{
    let mut s = String::from_str(a);
    s.append(b);
    s
}

/// `a`, then `b`, then `c`.
fn concat3(a: &str, b: &str, c: &str) -> (r: String)
    ensures
        r@ == a@ + b@ + c@,
{
    let mut s = String::from_str(a);
    s.append(b);
    s.append(c);
    s
}

/// Whether two string slices are equal.
fn str_eq(a: &str, b: &str) -> (r: bool)
    ensures
        r == (a@ == b@),
{
    String::from_str(a) == String::from_str(b)
}

/// The warning for a document that is not a JSON object.
pub open spec fn root_warning(source: Seq<char>) -> WarningView {
    WarningView {
        source,
        field: "(root)"@,
        message: "expected an object, got something else"@,
        suggestion: None,
    }
}

/// The warnings for the fields of a table present in a document.
pub open spec fn field_warning(source: Seq<char>, obj: Seq<(String, JsonField)>) -> spec_fn(
    FieldNote,
) -> Option<WarningView> {
    |t: FieldNote|
        if lookup(obj, t.0@) is Some {
            Some(
                WarningView { source, field: t.0@, message: t.1@, suggestion: opt_str(t.2) },
            )
        } else {
            None
        }
}

fn push_field_warnings(
    source: &str,
    table: &Vec<FieldNote>,
    obj: &Vec<(String, JsonField)>,
    warnings: &mut Vec<MigrationWarning>,
)
    ensures
        warning_views(final(warnings)@) == warning_views(old(warnings)@) + table@.filter_map(
            field_warning(source@, obj@),
        ),
{
    let ghost w0 = warning_views(warnings@);
    let ghost f = field_warning(source@, obj@);
    let mut i: usize = 0;
    while i < table.len()
        invariant
            i <= table@.len(),
            f == field_warning(source@, obj@),
            warning_views(warnings@) == w0 + table@.take(i as int).filter_map(f),
        decreases table.len() - i,
    {
        proof {
            table@.lemma_filter_map_take_succ(f, i as int);
        }
        let (name, message, suggestion) = table[i];
        if find_key(obj, name).is_some() {
            let w = make_warning(source, String::from_str(name), String::from_str(message), suggestion);
            push_warning(warnings, w);
        }
        i = i + 1;
    }
    proof {
        assert(table@.take(i as int) =~= table@);
    }
}

// ── Rules table ──────────────────────────────────────────────────

/// The names and severities of a rules table.
pub open spec fn rule_keys(v: Seq<(String, String)>) -> Seq<Seq<char>> {
    v.map_values(|p: (String, String)| p.0@)
}

/// A rules table is kept with its names strictly ascending, as a JSON object
/// orders its keys.
pub open spec fn rules_sorted(v: Seq<(String, String)>) -> bool {
    strictly_ascending(rule_keys(v))
}

/// Whether the table has an entry named `k`.
pub open spec fn has_rule(v: Seq<(String, String)>, k: Seq<char>) -> bool {
    exists|i: int| 0 <= i < v.len() && v[i].0@ == k
}

/// A position of the entry named `k`.
pub open spec fn rule_index(v: Seq<(String, String)>, k: Seq<char>) -> int {
    choose|i: int| 0 <= i < v.len() && v[i].0@ == k
}

/// The severity of each rule name of a table.
pub open spec fn rule_map(v: Seq<(String, String)>) -> Map<Seq<char>, Seq<char>> {
    Map::new(|k: Seq<char>| has_rule(v, k), |k: Seq<char>| v[rule_index(v, k)].1@)
}

/// In a sorted table, the entry at `i` gives the severity of its name.
pub proof fn lemma_rule_map_at(v: Seq<(String, String)>, i: int)
    requires
        rules_sorted(v),
        0 <= i < v.len(),
    ensures
        rule_map(v).dom().contains(v[i].0@),
        rule_map(v)[v[i].0@] == v[i].1@,
{
    let k = v[i].0@;
    assert(has_rule(v, k));
    let j = rule_index(v, k);
    assert(rule_keys(v)[j] == k && rule_keys(v)[i] == k);
    if j != i {
        lemma_chars_lt_total(k, k);
        if j < i {
            assert(chars_lt(rule_keys(v)[j], rule_keys(v)[i]));
        } else {
            assert(chars_lt(rule_keys(v)[i], rule_keys(v)[j]));
        }
    }
}

/// An empty table has no rules; a table with an entry has some.
pub proof fn lemma_rule_map_empty(v: Seq<(String, String)>)
    requires
        rules_sorted(v),
    ensures
        (v.len() == 0) == (rule_map(v) == Map::<Seq<char>, Seq<char>>::empty()),
{
    if v.len() == 0 {
        assert(rule_map(v) =~= Map::<Seq<char>, Seq<char>>::empty());
    } else {
        lemma_rule_map_at(v, 0);
        assert(!Map::<Seq<char>, Seq<char>>::empty().dom().contains(v[0].0@));
    }
}

/// Sets the severity of a rule, keeping the table sorted; with
/// `keep_existing`, a rule that is already there is left as it is.
pub fn set_rule(rules: &mut Vec<(String, String)>, key: &str, value: &str, keep_existing: bool)
    requires
        rules_sorted(old(rules)@),
    ensures
        rules_sorted(final(rules)@),
        rule_map(final(rules)@) == (if keep_existing && rule_map(old(rules)@).dom().contains(key@) {
            rule_map(old(rules)@)
        } else {
            rule_map(old(rules)@).insert(key@, value@)
        }),
{
    let ghost old_v = rules@;
    let kc = str_chars(key);
    let mut p: usize = 0;
    loop
        invariant
            rules@ == old_v,
            kc@ == key@,
            p <= rules@.len(),
            forall|i: int| 0 <= i < p ==> chars_lt(#[trigger] rule_keys(old_v)[i], key@),
        ensures
            p <= rules@.len(),
            forall|i: int| 0 <= i < p ==> chars_lt(#[trigger] rule_keys(old_v)[i], key@),
            p < rules@.len() ==> !chars_lt(rule_keys(old_v)[p as int], key@),
        decreases rules@.len() - p,
    {
        if p >= rules.len() {
            break;
        }
        let rc = str_chars(rules[p].0.as_str());
        if !chars_less(&rc, &kc) {
            break;
        }
        p = p + 1;
    }
    let ks = String::from_str(key);
    let vs = String::from_str(value);
    if p < rules.len() && rules[p].0 == ks {
        if !keep_existing {
            rules.set(p, (ks, vs));
            proof {
                let nv = rules@;
                assert(rule_keys(nv) =~= rule_keys(old_v));
                lemma_rule_map_at(old_v, p as int);
                lemma_rule_map_at(nv, p as int);
                assert forall|k: Seq<char>| #[trigger] rule_map(nv).dom().contains(k)
                    == rule_map(old_v).insert(key@, value@).dom().contains(k) by {
                    if exists|i: int| 0 <= i < old_v.len() && old_v[i].0@ == k {
                        let i = choose|i: int| 0 <= i < old_v.len() && old_v[i].0@ == k;
                        assert(nv[i].0@ == k);
                    }
                    if exists|i: int| 0 <= i < nv.len() && nv[i].0@ == k {
                        let i = choose|i: int| 0 <= i < nv.len() && nv[i].0@ == k;
                        assert(old_v[i].0@ == k);
                    }
                }
                assert forall|k: Seq<char>| #[trigger] rule_map(nv).dom().contains(k)
                    implies rule_map(nv)[k] == rule_map(old_v).insert(key@, value@)[k] by {
                    let i = rule_index(nv, k);
                    lemma_rule_map_at(nv, i);
                    if i != p {
                        lemma_rule_map_at(old_v, i);
                    }
                }
                assert(rule_map(nv) =~= rule_map(old_v).insert(key@, value@));
            }
        } else {
            proof {
                lemma_rule_map_at(old_v, p as int);
            }
        }
    } else {
        proof {
            if p < old_v.len() {
                lemma_chars_lt_total(rule_keys(old_v)[p as int], key@);
            }
        }
        rules.insert(p, (ks, vs));
        proof {
            let nv = rules@;
            let ok = rule_keys(old_v);
            let nk = rule_keys(nv);
            assert(nk =~= ok.insert(p as int, key@));
            assert forall|i: int, j: int| 0 <= i < j < nk.len() implies chars_lt(
                #[trigger] nk[i],
                #[trigger] nk[j],
            ) by {
                if j < p {
                } else if j == p {
                } else if i == p {
                    if j - 1 > p {
                        assert(chars_lt(ok[p as int], ok[j - 1]));
                        lemma_chars_lt_trans(key@, ok[p as int], ok[j - 1]);
                    }
                } else if i < p {
                    if j - 1 > p {
                        assert(chars_lt(ok[p as int], ok[j - 1]));
                        lemma_chars_lt_trans(key@, ok[p as int], ok[j - 1]);
                    }
                    lemma_chars_lt_trans(ok[i], key@, ok[j - 1]);
                } else {
                    assert(chars_lt(ok[i - 1], ok[j - 1]));
                }
            }
            assert(!rule_map(old_v).dom().contains(key@)) by {
                if rule_map(old_v).dom().contains(key@) {
                    let i = choose|i: int| 0 <= i < old_v.len() && old_v[i].0@ == key@;
                    assert(ok[i] == key@);
                    if i < p {
                        lemma_chars_lt_total(key@, key@);
                    } else if i > p {
                        assert(chars_lt(ok[p as int], ok[i]));
                    }
                }
            }
            lemma_rule_map_at(nv, p as int);
            assert forall|k: Seq<char>| #[trigger] rule_map(nv).dom().contains(k)
                == rule_map(old_v).insert(key@, value@).dom().contains(k) by {
                if exists|i: int| 0 <= i < old_v.len() && old_v[i].0@ == k {
                    let i = choose|i: int| 0 <= i < old_v.len() && old_v[i].0@ == k;
                    if i < p {
                        assert(nv[i].0@ == k);
                    } else {
                        assert(nv[i + 1].0@ == k);
                    }
                }
                if exists|i: int| 0 <= i < nv.len() && nv[i].0@ == k {
                    let i = choose|i: int| 0 <= i < nv.len() && nv[i].0@ == k;
                    if i < p {
                        assert(old_v[i].0@ == k);
                    } else if i > p {
                        assert(old_v[i - 1].0@ == k);
                    }
                }
            }
            assert forall|k: Seq<char>| #[trigger] rule_map(nv).dom().contains(k)
                implies rule_map(nv)[k] == rule_map(old_v).insert(key@, value@)[k] by {
                let i = choose|i: int| 0 <= i < nv.len() && nv[i].0@ == k;
                lemma_rule_map_at(nv, i);
                if i < p {
                    lemma_rule_map_at(old_v, i);
                } else if i > p {
                    lemma_rule_map_at(old_v, i - 1);
                }
            }
            assert(rule_map(nv) =~= rule_map(old_v).insert(key@, value@));
        }
    }
}

// ── knip ─────────────────────────────────────────────────────────

/// The fallow rule of the first table entry at or after `i` for knip issue
/// type `name`.
pub open spec fn rule_target_from(name: Seq<char>, i: int) -> Option<Seq<char>>
    decreases knip_rule_map().len() - i,
{
    if i < 0 || i >= knip_rule_map().len() {
        None
    } else if knip_rule_map()[i].0@ == name {
        Some(knip_rule_map()[i].1@)
    } else {
        rule_target_from(name, i + 1)
    }
}

/// The fallow rule that knip issue type `name` becomes, if any.
pub open spec fn rule_target(name: Seq<char>) -> Option<Seq<char>> {
    rule_target_from(name, 0)
}

/// Whether a table of names holds `name`.
pub open spec fn names_hold(table: Seq<&'static str>, name: Seq<char>) -> bool {
    exists|i: int| 0 <= i < table.len() && table[i]@ == name
}

/// knip issue types that fallow has no rule for.
pub open spec fn no_equivalent(name: Seq<char>) -> bool {
    rule_target(name) is None && names_hold(knip_unmappable_issue_types(), name)
}

/// The warning for each knip issue type without a fallow counterpart, its
/// field named with `prefix`.
pub open spec fn issue_warning(prefix: Seq<char>) -> spec_fn(Seq<char>) -> Option<WarningView> {
    |name: Seq<char>|
        if no_equivalent(name) {
            Some(
                WarningView {
                    source: "knip"@,
                    field: prefix + name,
                    message: "issue type `"@ + name + "` has no fallow equivalent"@,
                    suggestion: None,
                },
            )
        } else {
            None
        }
}

/// A dependency written as a regular expression (`/.../`).
pub open spec fn looks_like_regex(d: Seq<char>) -> bool {
    d.len() > 0 && d[0] == '/' && d.last() == '/'
}

/// The warning for each dependency pattern that is skipped.
pub open spec fn regex_warning() -> spec_fn(Seq<char>) -> Option<WarningView> {
    |d: Seq<char>|
        if looks_like_regex(d) {
            Some(
                WarningView {
                    source: "knip"@,
                    field: "ignoreDependencies"@,
                    message: "regex pattern `"@ + d + "` skipped (fallow uses exact strings)"@,
                    suggestion: Some("add each dependency name explicitly"@),
                },
            )
        } else {
            None
        }
}

/// The dependencies that are kept: those not written as patterns.
pub open spec fn kept_dependency() -> spec_fn(Seq<char>) -> Option<Seq<char>> {
    |d: Seq<char>|
        if looks_like_regex(d) {
            None
        } else {
            Some(d)
        }
}

/// The warning for each section that configures a knip plugin.
pub open spec fn plugin_warning() -> spec_fn(Seq<char>) -> Option<WarningView> {
    |k: Seq<char>|
        if names_hold(knip_plugin_keys(), k) {
            Some(
                WarningView {
                    source: "knip"@,
                    field: k,
                    message: "plugin config `"@ + k + "` is auto-detected by fallow's built-in plugins"@,
                    suggestion: Some(
                        "remove this section; fallow detects framework config automatically"@,
                    ),
                },
            )
        } else {
            None
        }
}

/// The warning for per-workspace configuration.
pub open spec fn workspaces_warning() -> WarningView {
    WarningView {
        source: "knip"@,
        field: "workspaces"@,
        message: "per-workspace plugin overrides have limited support in fallow"@,
        suggestion: Some(
            "fallow auto-discovers workspace packages; use --workspace flag to scope output"@,
        ),
    }
}

/// The names of an object's members, in order.
pub open spec fn member_names<V>(m: Seq<(String, V)>) -> Seq<Seq<char>> {
    m.map_values(|e: (String, V)| e.0@)
}

/// The rules given by the first `n` entries of the rule table, from knip's
/// `rules` object: each mapped issue type whose severity is a string.
pub open spec fn mapped_rules(ms: Seq<(String, Option<String>)>, n: int) -> Map<Seq<char>, Seq<char>>
    decreases n,
{
    if n <= 0 || n > knip_rule_map().len() {
        Map::empty()
    } else {
        let prev = mapped_rules(ms, n - 1);
        let e = knip_rule_map()[n - 1];
        match lookup(ms, e.0@) {
            Some(Some(sev)) => prev.insert(e.1@, sev@),
            _ => prev,
        }
    }
}

/// `r` with the rule of each excluded issue type turned off.
pub open spec fn excluded_rules(r: Map<Seq<char>, Seq<char>>, names: Seq<Seq<char>>) -> Map<
    Seq<char>,
    Seq<char>,
>
    decreases names.len(),
{
    if names.len() == 0 {
        r
    } else {
        let prev = excluded_rules(r, names.drop_last());
        match rule_target(names.last()) {
            Some(f) => prev.insert(f, "off"@),
            None => prev,
        }
    }
}

/// `r` with the rules of the first `n` table entries that are not included
/// turned off, where `r` does not set them already.
pub open spec fn included_rules(r: Map<Seq<char>, Seq<char>>, included: Seq<Seq<char>>, n: int) -> Map<
    Seq<char>,
    Seq<char>,
>
    decreases n,
{
    if n <= 0 || n > knip_rule_map().len() {
        r
    } else {
        let prev = included_rules(r, included, n - 1);
        let e = knip_rule_map()[n - 1];
        if !included.contains(e.0@) && !prev.dom().contains(e.1@) {
            prev.insert(e.1@, "off"@)
        } else {
            prev
        }
    }
}

/// The rules of an optional table, none when it is absent.
pub open spec fn or_empty(r: Option<Map<Seq<char>, Seq<char>>>) -> Map<Seq<char>, Seq<char>> {
    match r {
        Some(m) => m,
        None => Map::empty(),
    }
}

/// The rules after migrating a knip document, starting from `old`.
pub open spec fn knip_rules(obj: Seq<(String, JsonField)>, old: Option<Map<Seq<char>, Seq<char>>>) -> Option<
    Map<Seq<char>, Seq<char>>,
> {
    let r1 = knip_object_rules(obj, old);
    let ex = member_strings(obj, "exclude"@);
    let r2 = if ex.len() > 0 {
        Some(excluded_rules(or_empty(r1), ex))
    } else {
        r1
    };
    let inc = member_strings(obj, "include"@);
    if inc.len() > 0 {
        Some(included_rules(or_empty(r2), inc, knip_rule_map().len() as int))
    } else {
        r2
    }
}

/// `v` when it has items, else `old`.
pub open spec fn nonempty_or(v: Seq<Seq<char>>, old: Option<Seq<Seq<char>>>) -> Option<Seq<Seq<char>>> {
    if v.len() > 0 {
        Some(v)
    } else {
        old
    }
}

/// The configuration after migrating a knip document, starting from `old`.
pub open spec fn knip_config(obj: Seq<(String, JsonField)>, old: ConfigView) -> ConfigView {
    ConfigView {
        entry: nonempty_or(member_strings(obj, "entry"@), old.entry),
        ignore: nonempty_or(member_strings(obj, "ignore"@), old.ignore),
        ignore_dependencies: nonempty_or(
            member_strings(obj, "ignoreDependencies"@).filter_map(kept_dependency()),
            old.ignore_dependencies,
        ),
        rules: knip_rules(obj, old.rules),
        duplicates: old.duplicates,
    }
}

/// The warnings of migrating a knip document, in the order they are given.
pub open spec fn knip_warnings(obj: Seq<(String, JsonField)>) -> Seq<WarningView> {
    member_strings(obj, "ignoreDependencies"@).filter_map(regex_warning()) + (match lookup(
        obj,
        "rules"@,
    ) {
        Some(JsonField::Object(ms)) => member_names(ms@).filter_map(issue_warning("rules."@)),
        _ => Seq::empty(),
    }) + member_strings(obj, "exclude"@).filter_map(issue_warning("exclude."@)) + member_strings(
        obj,
        "include"@,
    ).filter_map(issue_warning("include."@)) + knip_unmappable_fields().filter_map(
        field_warning("knip"@, obj),
    ) + member_names(obj).filter_map(plugin_warning()) + (match lookup(obj, "workspaces"@) {
        Some(JsonField::Object(_)) => seq![workspaces_warning()],
        _ => Seq::empty(),
    })
}

fn rule_target_exec(table: &Vec<(&'static str, &'static str)>, name: &str) -> (r: Option<&'static str>)
    requires
        table@ == knip_rule_map(),
    ensures
        opt_str(r) == rule_target(name@),
{
    let mut i: usize = 0;
    while i < table.len()
        invariant
            table@ == knip_rule_map(),
            i <= table@.len(),
            rule_target(name@) == rule_target_from(name@, i as int),
        decreases table.len() - i,
    {
        if str_eq(table[i].0, name) {
            return Some(table[i].1);
        }
        i = i + 1;
    }
    None
}

fn table_holds(table: &Vec<&'static str>, name: &str) -> (r: bool)
    ensures
        r == names_hold(table@, name@),
{
    let mut i: usize = 0;
    while i < table.len()
        invariant
            i <= table@.len(),
            forall|j: int| 0 <= j < i ==> table@[j]@ != name@,
        decreases table.len() - i,
    {
        if str_eq(table[i], name) {
            return true;
        }
        i = i + 1;
    }
    false
}

fn no_equivalent_exec(rule_table: &Vec<(&'static str, &'static str)>, issue_table: &Vec<&'static str>, name: &str) -> (r: bool)
    requires
        rule_table@ == knip_rule_map(),
        issue_table@ == knip_unmappable_issue_types(),
    ensures
        r == no_equivalent(name@),
{
    rule_target_exec(rule_table, name).is_none() && table_holds(issue_table, name)
}

fn push_issue_warnings(
    rule_table: &Vec<(&'static str, &'static str)>,
    issue_table: &Vec<&'static str>,
    prefix: &str,
    names: &Vec<String>,
    warnings: &mut Vec<MigrationWarning>,
)
    requires
        rule_table@ == knip_rule_map(),
        issue_table@ == knip_unmappable_issue_types(),
    ensures
        warning_views(final(warnings)@) == warning_views(old(warnings)@) + string_views(
            names@,
        ).filter_map(issue_warning(prefix@)),
{
    let ghost w0 = warning_views(warnings@);
    let ghost f = issue_warning(prefix@);
    let ghost nv = string_views(names@);
    let mut i: usize = 0;
    while i < names.len()
        invariant
            rule_table@ == knip_rule_map(),
            issue_table@ == knip_unmappable_issue_types(),
            i <= names@.len(),
            f == issue_warning(prefix@),
            nv == string_views(names@),
            warning_views(warnings@) == w0 + nv.take(i as int).filter_map(f),
        decreases names.len() - i,
    {
        proof {
            nv.lemma_filter_map_take_succ(f, i as int);
        }
        let name = names[i].as_str();
        if no_equivalent_exec(rule_table, issue_table, name) {
            let field = concat2(prefix, name);
            let message = concat3("issue type `", name, "` has no fallow equivalent");
            let w = make_warning("knip", field, message, None);
            push_warning(warnings, w);
        }
        i = i + 1;
    }
    proof {
        assert(nv.take(i as int) =~= nv);
    }
}

/// Keeps the dependencies given by name and warns about each pattern.
fn keep_exact_dependencies(deps: &Vec<String>, warnings: &mut Vec<MigrationWarning>) -> (r: Vec<String>)
    ensures
        string_views(r@) == string_views(deps@).filter_map(kept_dependency()),
        warning_views(final(warnings)@) == warning_views(old(warnings)@) + string_views(
            deps@,
        ).filter_map(regex_warning()),
{
    let ghost w0 = warning_views(warnings@);
    let ghost dv = string_views(deps@);
    let mut out: Vec<String> = Vec::new();
    let mut i: usize = 0;
    while i < deps.len()
        invariant
            i <= deps@.len(),
            dv == string_views(deps@),
            string_views(out@) == dv.take(i as int).filter_map(kept_dependency()),
            warning_views(warnings@) == w0 + dv.take(i as int).filter_map(regex_warning()),
        decreases deps.len() - i,
    {
        proof {
            dv.lemma_filter_map_take_succ(kept_dependency(), i as int);
            dv.lemma_filter_map_take_succ(regex_warning(), i as int);
        }
        let d = &deps[i];
        let cs = str_chars(d.as_str());
        let is_pattern = cs.len() > 0 && cs[0] == '/' && cs[cs.len() - 1] == '/';
        proof {
            assert(is_pattern == looks_like_regex(dv[i as int]));
        }
        if is_pattern {
            let message = concat3("regex pattern `", d.as_str(), "` skipped (fallow uses exact strings)");
            let w = make_warning(
                "knip",
                String::from_str("ignoreDependencies"),
                message,
                Some("add each dependency name explicitly"),
            );
            push_warning(warnings, w);
        } else {
            let ghost before = string_views(out@);
            out.push(d.clone());
            proof {
                assert(string_views(out@) =~= before + seq![dv[i as int]]);
            }
        }
        i = i + 1;
    }
    proof {
        assert(dv.take(i as int) =~= dv);
    }
    out
}

fn rules_from_severities(
    rule_table: &Vec<(&'static str, &'static str)>,
    ms: &Vec<(String, Option<String>)>,
) -> (r: Vec<(String, String)>)
    requires
        rule_table@ == knip_rule_map(),
    ensures
        rules_sorted(r@),
        rule_map(r@) == mapped_rules(ms@, knip_rule_map().len() as int),
{
    let mut fr: Vec<(String, String)> = Vec::new();
    proof {
        assert(rule_map(fr@) =~= Map::<Seq<char>, Seq<char>>::empty());
    }
    let mut i: usize = 0;
    while i < rule_table.len()
        invariant
            rule_table@ == knip_rule_map(),
            i <= rule_table@.len(),
            rules_sorted(fr@),
            rule_map(fr@) == mapped_rules(ms@, i as int),
        decreases rule_table.len() - i,
    {
        let (k, f) = rule_table[i];
        match find_key(ms, k) {
            Some(j) => match &ms[j].1 {
                Some(sev) => {
                    set_rule(&mut fr, f, sev.as_str(), false);
                },
                None => {},
            },
            None => {},
        }
        i = i + 1;
    }
    fr
}

fn member_name_list<V>(ms: &Vec<(String, V)>) -> (r: Vec<String>)
    ensures
        string_views(r@) == member_names(ms@),
{
    let mut out: Vec<String> = Vec::new();
    let mut i: usize = 0;
    while i < ms.len()
        invariant
            i <= ms@.len(),
            string_views(out@) == member_names(ms@).take(i as int),
        decreases ms.len() - i,
    {
        let ghost before = out@;
        let name = ms[i].0.clone();
        proof {
            assert(name@ == member_names(ms@)[i as int]);
        }
        out.push(name);
        proof {
            assert(string_views(out@) =~= string_views(before).push(name@));
            assert(member_names(ms@).take(i + 1) =~= member_names(ms@).take(i as int).push(name@));
        }
        i = i + 1;
    }
    proof {
        assert(member_names(ms@).take(i as int) =~= member_names(ms@));
    }
    out
}

fn strings_hold(v: &Vec<String>, name: &str) -> (r: bool)
    ensures
        r == string_views(v@).contains(name@),
{
    let k = String::from_str(name);
    let mut i: usize = 0;
    while i < v.len()
        invariant
            i <= v@.len(),
            k@ == name@,
            forall|j: int| 0 <= j < i ==> v@[j]@ != name@,
        decreases v.len() - i,
    {
        if v[i] == k {
            proof {
                assert(string_views(v@)[i as int] == name@);
            }
            return true;
        }
        i = i + 1;
    }
    proof {
        if string_views(v@).contains(name@) {
            let j = choose|j: int| 0 <= j < string_views(v@).len() && string_views(v@)[j] == name@;
            assert(v@[j]@ == name@);
        }
    }
    false
}

/// Turns off the rule of each excluded issue type, warning about issue types
/// that fallow has no rule for.
fn exclude_rules(
    rule_table: &Vec<(&'static str, &'static str)>,
    issue_table: &Vec<&'static str>,
    rules: &mut Vec<(String, String)>,
    excluded: &Vec<String>,
    warnings: &mut Vec<MigrationWarning>,
)
    requires
        rule_table@ == knip_rule_map(),
        issue_table@ == knip_unmappable_issue_types(),
        rules_sorted(old(rules)@),
    ensures
        rules_sorted(final(rules)@),
        rule_map(final(rules)@) == excluded_rules(rule_map(old(rules)@), string_views(excluded@)),
        warning_views(final(warnings)@) == warning_views(old(warnings)@) + string_views(
            excluded@,
        ).filter_map(issue_warning("exclude."@)),
{
    let ghost r0 = rule_map(rules@);
    let ghost ev = string_views(excluded@);
    let mut i: usize = 0;
    while i < excluded.len()
        invariant
            rule_table@ == knip_rule_map(),
            i <= excluded@.len(),
            ev == string_views(excluded@),
            rules_sorted(rules@),
            rule_map(rules@) == excluded_rules(r0, ev.take(i as int)),
        decreases excluded.len() - i,
    {
        proof {
            assert(ev.take(i + 1).drop_last() =~= ev.take(i as int));
        }
        match rule_target_exec(rule_table, excluded[i].as_str()) {
            Some(f) => {
                set_rule(rules, f, "off", false);
            },
            None => {},
        }
        i = i + 1;
    }
    proof {
        assert(ev.take(i as int) =~= ev);
    }
    push_issue_warnings(rule_table, issue_table, "exclude.", excluded, warnings);
}

/// Turns off the rules of issue types that are not included, where they are
/// not set already, and warns about included issue types that fallow has no
/// rule for.
fn include_rules(
    rule_table: &Vec<(&'static str, &'static str)>,
    issue_table: &Vec<&'static str>,
    rules: &mut Vec<(String, String)>,
    included: &Vec<String>,
    warnings: &mut Vec<MigrationWarning>,
)
    requires
        rule_table@ == knip_rule_map(),
        issue_table@ == knip_unmappable_issue_types(),
        rules_sorted(old(rules)@),
    ensures
        rules_sorted(final(rules)@),
        rule_map(final(rules)@) == included_rules(
            rule_map(old(rules)@),
            string_views(included@),
            knip_rule_map().len() as int,
        ),
        warning_views(final(warnings)@) == warning_views(old(warnings)@) + string_views(
            included@,
        ).filter_map(issue_warning("include."@)),
{
    let ghost r0 = rule_map(rules@);
    let mut i: usize = 0;
    while i < rule_table.len()
        invariant
            rule_table@ == knip_rule_map(),
            i <= rule_table@.len(),
            rules_sorted(rules@),
            rule_map(rules@) == included_rules(r0, string_views(included@), i as int),
        decreases rule_table.len() - i,
    {
        let (k, f) = rule_table[i];
        if !strings_hold(included, k) {
            set_rule(rules, f, "off", true);
        }
        i = i + 1;
    }
    push_issue_warnings(rule_table, issue_table, "include.", included, warnings);
}

fn push_plugin_warnings(obj: &Vec<(String, JsonField)>, warnings: &mut Vec<MigrationWarning>)
    ensures
        warning_views(final(warnings)@) == warning_views(old(warnings)@) + member_names(
            obj@,
        ).filter_map(plugin_warning()),
{
    let table = knip_plugin_keys_table();
    let ghost w0 = warning_views(warnings@);
    let ghost nv = member_names(obj@);
    let mut i: usize = 0;
    while i < obj.len()
        invariant
            table@ == knip_plugin_keys(),
            i <= obj@.len(),
            nv == member_names(obj@),
            warning_views(warnings@) == w0 + nv.take(i as int).filter_map(plugin_warning()),
        decreases obj.len() - i,
    {
        proof {
            nv.lemma_filter_map_take_succ(plugin_warning(), i as int);
        }
        let key = obj[i].0.as_str();
        if table_holds(&table, key) {
            let message = concat3("plugin config `", key, "` is auto-detected by fallow's built-in plugins");
            let w = make_warning(
                "knip",
                String::from_str(key),
                message,
                Some("remove this section; fallow detects framework config automatically"),
            );
            push_warning(warnings, w);
        }
        i = i + 1;
    }
    proof {
        assert(nv.take(i as int) =~= nv);
    }
}

/// Sets `entry`, `ignore` and `ignoreDependencies` from a knip document.
fn knip_lists(obj: &Vec<(String, JsonField)>, config: &mut MigratedConfig, warnings: &mut Vec<MigrationWarning>)
    ensures
        final(config).rules == old(config).rules,
        final(config).duplicates == old(config).duplicates,
        opt_strings(final(config).entry) == nonempty_or(member_strings(obj@, "entry"@), opt_strings(old(config).entry)),
        opt_strings(final(config).ignore) == nonempty_or(member_strings(obj@, "ignore"@), opt_strings(old(config).ignore)),
        opt_strings(final(config).ignore_dependencies) == nonempty_or(
            member_strings(obj@, "ignoreDependencies"@).filter_map(kept_dependency()),
            opt_strings(old(config).ignore_dependencies),
        ),
        warning_views(final(warnings)@) == warning_views(old(warnings)@) + member_strings(
            obj@,
            "ignoreDependencies"@,
        ).filter_map(regex_warning()),
{
    let entries = member_string_list(obj, "entry");
    if entries.len() > 0 {
        config.entry = Some(entries);
    }
    let ignores = member_string_list(obj, "ignore");
    if ignores.len() > 0 {
        config.ignore = Some(ignores);
    }
    let deps = member_string_list(obj, "ignoreDependencies");
    let kept = keep_exact_dependencies(&deps, warnings);
    if kept.len() > 0 {
        config.ignore_dependencies = Some(kept);
    }
}

/// The rules after the `rules` object of a knip document, starting from `old`.
pub open spec fn knip_object_rules(obj: Seq<(String, JsonField)>, old: Option<Map<Seq<char>, Seq<char>>>) -> Option<
    Map<Seq<char>, Seq<char>>,
> {
    match lookup(obj, "rules"@) {
        Some(JsonField::Object(ms)) => {
            let fr = mapped_rules(ms@, knip_rule_map().len() as int);
            if fr == Map::<Seq<char>, Seq<char>>::empty() {
                old
            } else {
                Some(fr)
            }
        },
        _ => old,
    }
}

/// The warnings about knip's `rules` object.
pub open spec fn knip_object_rule_warnings(obj: Seq<(String, JsonField)>) -> Seq<WarningView> {
    match lookup(obj, "rules"@) {
        Some(JsonField::Object(ms)) => member_names(ms@).filter_map(issue_warning("rules."@)),
        _ => Seq::empty(),
    }
}

fn knip_rules_object(
    rule_table: &Vec<(&'static str, &'static str)>,
    issue_table: &Vec<&'static str>,
    obj: &Vec<(String, JsonField)>,
    rules: &mut Option<Vec<(String, String)>>,
    warnings: &mut Vec<MigrationWarning>,
)
    requires
        rule_table@ == knip_rule_map(),
        issue_table@ == knip_unmappable_issue_types(),
        match *old(rules) {
            Some(r) => rules_sorted(r@),
            None => true,
        },
    ensures
        match *final(rules) {
            Some(r) => rules_sorted(r@),
            None => true,
        },
        rules_view(*final(rules)) == knip_object_rules(obj@, rules_view(*old(rules))),
        warning_views(final(warnings)@) == warning_views(old(warnings)@) + knip_object_rule_warnings(obj@),
{
    match find_key(obj, "rules") {
        Some(ri) => match &obj[ri].1 {
            JsonField::Object(ms) => {
                let fr = rules_from_severities(rule_table, ms);
                let names = member_name_list(ms);
                push_issue_warnings(rule_table, issue_table, "rules.", &names, warnings);
                proof {
                    lemma_rule_map_empty(fr@);
                }
                if fr.len() > 0 {
                    *rules = Some(fr);
                }
            },
            _ => {
                proof {
                    assert(warning_views(final(warnings)@) =~= warning_views(old(warnings)@) + knip_object_rule_warnings(obj@));
                }
            },
        },
        None => {
            proof {
                assert(warning_views(final(warnings)@) =~= warning_views(old(warnings)@) + knip_object_rule_warnings(obj@));
            }
        },
    }
}

/// The rules of an optional table.
pub open spec fn rules_view(r: Option<Vec<(String, String)>>) -> Option<Map<Seq<char>, Seq<char>>> {
    match r {
        Some(v) => Some(rule_map(v@)),
        None => None,
    }
}

fn take_rules(rules: &mut Option<Vec<(String, String)>>) -> (r: Vec<(String, String)>)
    requires
        match *old(rules) {
            Some(r) => rules_sorted(r@),
            None => true,
        },
    ensures
        *final(rules) is None,
        rules_sorted(r@),
        rule_map(r@) == or_empty(rules_view(*old(rules))),
{
    match rules.take() {
        Some(r) => r,
        None => {
            let e: Vec<(String, String)> = Vec::new();
            proof {
                assert(rule_map(e@) =~= Map::<Seq<char>, Seq<char>>::empty());
            }
            e
        },
    }
}

/// The warnings about knip's `exclude` and `include` lists.
pub open spec fn knip_list_rule_warnings(obj: Seq<(String, JsonField)>) -> Seq<WarningView> {
    member_strings(obj, "exclude"@).filter_map(issue_warning("exclude."@)) + member_strings(
        obj,
        "include"@,
    ).filter_map(issue_warning("include."@))
}

/// Applies knip's `exclude` and `include` lists to the rules.
fn knip_rule_lists(
    rule_table: &Vec<(&'static str, &'static str)>,
    issue_table: &Vec<&'static str>,
    obj: &Vec<(String, JsonField)>,
    rules: &mut Option<Vec<(String, String)>>,
    warnings: &mut Vec<MigrationWarning>,
)
    requires
        rule_table@ == knip_rule_map(),
        issue_table@ == knip_unmappable_issue_types(),
        match *old(rules) {
            Some(r) => rules_sorted(r@),
            None => true,
        },
    ensures
        match *final(rules) {
            Some(r) => rules_sorted(r@),
            None => true,
        },
        rules_view(*final(rules)) == ({
            let r1 = rules_view(*old(rules));
            let ex = member_strings(obj@, "exclude"@);
            let r2 = if ex.len() > 0 {
                Some(excluded_rules(or_empty(r1), ex))
            } else {
                r1
            };
            let inc = member_strings(obj@, "include"@);
            if inc.len() > 0 {
                Some(included_rules(or_empty(r2), inc, knip_rule_map().len() as int))
            } else {
                r2
            }
        }),
        warning_views(final(warnings)@) == warning_views(old(warnings)@) + knip_list_rule_warnings(obj@),
{
    let ghost w0 = warning_views(warnings@);
    let excluded = member_string_list(obj, "exclude");
    if excluded.len() > 0 {
        let mut r = take_rules(rules);
        exclude_rules(rule_table, issue_table, &mut r, &excluded, warnings);
        *rules = Some(r);
    } else {
        proof {
            assert(string_views(excluded@).filter_map(issue_warning("exclude."@)) =~= Seq::<WarningView>::empty());
        }
    }
    let ghost w1 = warning_views(warnings@);
    let included = member_string_list(obj, "include");
    if included.len() > 0 {
        let mut r = take_rules(rules);
        include_rules(rule_table, issue_table, &mut r, &included, warnings);
        *rules = Some(r);
    } else {
        proof {
            assert(string_views(included@).filter_map(issue_warning("include."@)) =~= Seq::<WarningView>::empty());
        }
    }
    proof {
        assert(warning_views(warnings@) =~= w0 + knip_list_rule_warnings(obj@));
    }
}

/// The warnings about knip fields, plugin sections and workspaces.
pub open spec fn knip_field_warnings(obj: Seq<(String, JsonField)>) -> Seq<WarningView> {
    knip_unmappable_fields().filter_map(field_warning("knip"@, obj)) + member_names(obj).filter_map(
        plugin_warning(),
    ) + (match lookup(obj, "workspaces"@) {
        Some(JsonField::Object(_)) => seq![workspaces_warning()],
        _ => Seq::empty(),
    })
}

fn push_knip_field_warnings(obj: &Vec<(String, JsonField)>, warnings: &mut Vec<MigrationWarning>)
    ensures
        warning_views(final(warnings)@) == warning_views(old(warnings)@) + knip_field_warnings(obj@),
{
    let ghost w0 = warning_views(warnings@);
    let fields = knip_unmappable_fields_table();
    push_field_warnings("knip", &fields, obj, warnings);
    push_plugin_warnings(obj, warnings);
    let ghost w2 = warning_views(warnings@);
    match find_key(obj, "workspaces") {
        Some(wi) => match &obj[wi].1 {
            JsonField::Object(_) => {
                let w = make_warning(
                    "knip",
                    String::from_str("workspaces"),
                    String::from_str("per-workspace plugin overrides have limited support in fallow"),
                    Some("fallow auto-discovers workspace packages; use --workspace flag to scope output"),
                );
                push_warning(warnings, w);
            },
            _ => {},
        },
        None => {},
    }
    proof {
        assert(warning_views(warnings@) =~= w0 + knip_field_warnings(obj@));
    }
}

/// Migrates a knip configuration document (`None` when it is not a JSON
/// object) into `config`, adding a warning for each field that cannot be
/// carried over.
pub fn migrate_knip(
    knip: &Option<Vec<(String, JsonField)>>,
    config: &mut MigratedConfig,
    warnings: &mut Vec<MigrationWarning>,
)
    requires
        old(config).wf(),
    ensures
        final(config).wf(),
        match *knip {
            Some(obj) => final(config)@ == knip_config(obj@, old(config)@) && warning_views(
                final(warnings)@,
            ) == warning_views(old(warnings)@) + knip_warnings(obj@),
            None => final(config)@ == old(config)@ && warning_views(final(warnings)@)
                == warning_views(old(warnings)@).push(root_warning("knip"@)),
        },
{
    let obj = match knip {
        Some(o) => o,
        None => {
            let w = make_warning(
                "knip",
                String::from_str("(root)"),
                String::from_str("expected an object, got something else"),
                None,
            );
            push_warning(warnings, w);
            return;
        },
    };
    let ghost c0 = config@;
    let ghost w0 = warning_views(warnings@);
    let rule_table = knip_rule_map_table();
    let issue_table = knip_unmappable_issue_types_table();
    knip_lists(obj, config, warnings);
    let ghost w1 = warning_views(warnings@);
    let mut rules = config.rules.take();
    knip_rules_object(&rule_table, &issue_table, obj, &mut rules, warnings);
    let ghost w2 = warning_views(warnings@);
    knip_rule_lists(&rule_table, &issue_table, obj, &mut rules, warnings);
    let ghost w3 = warning_views(warnings@);
    config.rules = rules;
    push_knip_field_warnings(obj, warnings);
    proof {
        assert(config@.rules == knip_rules(obj@, c0.rules));
        assert(config@ == knip_config(obj@, c0));
        assert(warning_views(warnings@) =~= w0 + knip_warnings(obj@));
    }
}

// ── jscpd ────────────────────────────────────────────────────────

/// The member named `key` when it is a `u64` number.
pub open spec fn member_u64(obj: Seq<(String, JsonField)>, key: Seq<char>) -> Option<u64> {
    match lookup(obj, key) {
        Some(JsonField::Number(n)) => n.as_u64,
        _ => None,
    }
}

/// The text of the member named `key` when it is a number.
pub open spec fn member_number_text(obj: Seq<(String, JsonField)>, key: Seq<char>) -> Option<Seq<char>> {
    match lookup(obj, key) {
        Some(JsonField::Number(n)) => Some(n.float_text@),
        _ => None,
    }
}

/// The member named `key` when it is a string.
pub open spec fn member_str(obj: Seq<(String, JsonField)>, key: Seq<char>) -> Option<Seq<char>> {
    match lookup(obj, key) {
        Some(JsonField::Str(s)) => Some(s@),
        _ => None,
    }
}

/// The member named `key` when it is a boolean.
pub open spec fn member_bool(obj: Seq<(String, JsonField)>, key: Seq<char>) -> Option<bool> {
    match lookup(obj, key) {
        Some(JsonField::Bool(b)) => Some(b),
        _ => None,
    }
}

/// The detection modes that both tools know.
pub open spec fn known_mode(m: Seq<char>) -> bool {
    m == "strict"@ || m == "mild"@ || m == "weak"@
}

/// The `duplicates` section read from a jscpd document.
pub open spec fn jscpd_duplicates(obj: Seq<(String, JsonField)>) -> DuplicatesView {
    DuplicatesView {
        min_tokens: member_u64(obj, "minTokens"@),
        min_lines: member_u64(obj, "minLines"@),
        threshold: member_number_text(obj, "threshold"@),
        mode: match member_str(obj, "mode"@) {
            Some(m) => if known_mode(m) {
                Some(m)
            } else {
                None
            },
            None => None,
        },
        skip_local: member_bool(obj, "skipLocal"@),
        ignore: if member_strings(obj, "ignore"@).len() > 0 {
            Some(member_strings(obj, "ignore"@))
        } else {
            None
        },
    }
}

/// A `duplicates` section with nothing set.
pub open spec fn duplicates_empty(d: DuplicatesView) -> bool {
    d.min_tokens is None && d.min_lines is None && d.threshold is None && d.mode is None
        && d.skip_local is None && d.ignore is None
}

/// The configuration after migrating a jscpd document, starting from `old`.
pub open spec fn jscpd_config(obj: Seq<(String, JsonField)>, old: ConfigView) -> ConfigView {
    let d = jscpd_duplicates(obj);
    ConfigView {
        entry: old.entry,
        ignore: old.ignore,
        ignore_dependencies: old.ignore_dependencies,
        rules: old.rules,
        duplicates: if duplicates_empty(d) {
            old.duplicates
        } else {
            Some(d)
        },
    }
}

/// The warning for jscpd's `weak` mode.
pub open spec fn weak_mode_warning() -> WarningView {
    WarningView {
        source: "jscpd"@,
        field: "mode"@,
        message: "jscpd's \"weak\" mode may differ semantically from fallow's \"weak\" mode. jscpd uses lexer-based tokens while fallow uses AST-based tokens."@,
        suggestion: Some("test with both \"weak\" and \"mild\" to find the best match"@),
    }
}

/// The warning for a mode that fallow does not know.
pub open spec fn unknown_mode_warning(m: Seq<char>) -> WarningView {
    WarningView {
        source: "jscpd"@,
        field: "mode"@,
        message: "unknown mode `"@ + m + "`, defaulting to \"mild\""@,
        suggestion: None,
    }
}

/// The warnings of migrating a jscpd document, in the order they are given.
pub open spec fn jscpd_warnings(obj: Seq<(String, JsonField)>) -> Seq<WarningView> {
    (match member_str(obj, "mode"@) {
        Some(m) => if m == "weak"@ {
            seq![weak_mode_warning()]
        } else if known_mode(m) {
            Seq::empty()
        } else {
            seq![unknown_mode_warning(m)]
        },
        None => Seq::empty(),
    }) + jscpd_unmappable_fields().filter_map(field_warning("jscpd"@, obj))
}

/// Reads jscpd's `mode`, warning where fallow's mode differs or is unknown.
fn jscpd_mode(obj: &Vec<(String, JsonField)>, warnings: &mut Vec<MigrationWarning>) -> (r: Option<String>)
    ensures
        opt_chars(r) == jscpd_duplicates(obj@).mode,
        warning_views(final(warnings)@) == warning_views(old(warnings)@) + (match member_str(
            obj@,
            "mode"@,
        ) {
            Some(m) => if m == "weak"@ {
                seq![weak_mode_warning()]
            } else if known_mode(m) {
                Seq::empty()
            } else {
                seq![unknown_mode_warning(m)]
            },
            None => Seq::empty(),
        }),
{
    let ghost w0 = warning_views(warnings@);
    let r = match find_key(obj, "mode") {
        Some(i) => match &obj[i].1 {
            JsonField::Str(m) => {
                let m = m.as_str();
                if str_eq(m, "strict") || str_eq(m, "mild") {
                    proof {
                        reveal_strlit("strict");
                        reveal_strlit("mild");
                        reveal_strlit("weak");
                        assert("weak"@.len() == 4 && "strict"@.len() == 6);
                        assert("mild"@[0] == 'm' && "weak"@[0] == 'w');
                    }
                    Some(String::from_str(m))
                } else if str_eq(m, "weak") {
                    let w = make_warning(
                        "jscpd",
                        String::from_str("mode"),
                        String::from_str(
                            "jscpd's \"weak\" mode may differ semantically from fallow's \"weak\" mode. jscpd uses lexer-based tokens while fallow uses AST-based tokens.",
                        ),
                        Some("test with both \"weak\" and \"mild\" to find the best match"),
                    );
                    push_warning(warnings, w);
                    Some(String::from_str(m))
                } else {
                    let message = concat3("unknown mode `", m, "`, defaulting to \"mild\"");
                    let w = make_warning("jscpd", String::from_str("mode"), message, None);
                    push_warning(warnings, w);
                    None
                }
            },
            _ => None,
        },
        None => None,
    };
    proof {
        assert(warning_views(warnings@) =~= w0 + (match member_str(obj@, "mode"@) {
            Some(m) => if m == "weak"@ {
                seq![weak_mode_warning()]
            } else if known_mode(m) {
                Seq::empty()
            } else {
                seq![unknown_mode_warning(m)]
            },
            None => Seq::empty(),
        }));
    }
    r
}

/// Migrates a jscpd configuration document (`None` when it is not a JSON
/// object) into `config`, adding a warning for each field that cannot be
/// carried over.
pub fn migrate_jscpd(
    jscpd: &Option<Vec<(String, JsonField)>>,
    config: &mut MigratedConfig,
    warnings: &mut Vec<MigrationWarning>,
)
    requires
        old(config).wf(),
    ensures
        final(config).wf(),
        match *jscpd {
            Some(obj) => final(config)@ == jscpd_config(obj@, old(config)@) && warning_views(
                final(warnings)@,
            ) == warning_views(old(warnings)@) + jscpd_warnings(obj@),
            None => final(config)@ == old(config)@ && warning_views(final(warnings)@)
                == warning_views(old(warnings)@).push(root_warning("jscpd"@)),
        },
{
    let obj = match jscpd {
        Some(o) => o,
        None => {
            let w = make_warning(
                "jscpd",
                String::from_str("(root)"),
                String::from_str("expected an object, got something else"),
                None,
            );
            push_warning(warnings, w);
            return;
        },
    };
    let ghost c0 = config@;
    let ghost w0 = warning_views(warnings@);
    let min_tokens = match find_key(obj, "minTokens") {
        Some(i) => match &obj[i].1 {
            JsonField::Number(n) => n.as_u64,
            _ => None,
        },
        None => None,
    };
    let min_lines = match find_key(obj, "minLines") {
        Some(i) => match &obj[i].1 {
            JsonField::Number(n) => n.as_u64,
            _ => None,
        },
        None => None,
    };
    let threshold = match find_key(obj, "threshold") {
        Some(i) => match &obj[i].1 {
            JsonField::Number(n) => Some(n.float_text.clone()),
            _ => None,
        },
        None => None,
    };
    let mode = jscpd_mode(obj, warnings);
    let skip_local = match find_key(obj, "skipLocal") {
        Some(i) => match &obj[i].1 {
            JsonField::Bool(b) => Some(*b),
            _ => None,
        },
        None => None,
    };
    let ignores = member_string_list(obj, "ignore");
    let ignore = if ignores.len() > 0 {
        Some(ignores)
    } else {
        None
    };
    let any_set = min_tokens.is_some() || min_lines.is_some() || threshold.is_some() || mode.is_some()
        || skip_local.is_some() || ignore.is_some();
    let d = DuplicatesConfig { min_tokens, min_lines, threshold, mode, skip_local, ignore };
    proof {
        assert(d@ == jscpd_duplicates(obj@));
    }
    if any_set {
        config.duplicates = Some(d);
    }
    let fields = jscpd_unmappable_fields_table();
    push_field_warnings("jscpd", &fields, obj, warnings);
    proof {
        assert(config@ == jscpd_config(obj@, c0));
        assert(warning_views(warnings@) =~= w0 + jscpd_warnings(obj@));
    }
}

// ── Output ───────────────────────────────────────────────────────

/// A string in double quotes, as the TOML output writes it.
pub open spec fn quoted(s: Seq<char>) -> Seq<char> {
    "\""@ + s + "\""@
}

/// A TOML array of strings.
pub open spec fn toml_array(v: Seq<Seq<char>>) -> Seq<char> {
    "["@ + join(v.map_values(|s: Seq<char>| quoted(s)), ", "@) + "]"@
}

/// The line `key = [...]` for a list that is set.
pub open spec fn toml_list_line(key: Seq<char>, v: Option<Seq<Seq<char>>>) -> Seq<char> {
    match v {
        Some(items) => key + " = "@ + toml_array(items) + "\n"@,
        None => Seq::empty(),
    }
}

/// The lines `name = "severity"` of a rules table, in its order.
pub open spec fn toml_rule_lines(r: Seq<(String, String)>) -> Seq<char>
    decreases r.len(),
{
    if r.len() == 0 {
        Seq::empty()
    } else {
        toml_rule_lines(r.drop_last()) + r.last().0@ + " = \""@ + r.last().1@ + "\"\n"@
    }
}

/// The line `key = n` for a number that is set.
pub open spec fn number_line(key: Seq<char>, o: Option<u64>) -> Seq<char> {
    match o {
        Some(n) => key + " = "@ + decimal(n as nat) + "\n"@,
        None => Seq::empty(),
    }
}

/// The line `key = "text"` for a string that is set.
pub open spec fn string_line(key: Seq<char>, o: Option<Seq<char>>) -> Seq<char> {
    match o {
        Some(t) => key + " = \""@ + t + "\"\n"@,
        None => Seq::empty(),
    }
}

/// The line `key = text` for a value written as it is, where it is set.
pub open spec fn raw_line(key: Seq<char>, o: Option<Seq<char>>) -> Seq<char> {
    match o {
        Some(t) => key + " = "@ + t + "\n"@,
        None => Seq::empty(),
    }
}

/// The line `key = true` or `key = false` for a flag that is set.
pub open spec fn flag_line(key: Seq<char>, o: Option<bool>) -> Seq<char> {
    match o {
        Some(b) => key + " = "@ + (if b {
            "true"@
        } else {
            "false"@
        }) + "\n"@,
        None => Seq::empty(),
    }
}

/// The lines of a `duplicates` section, its keys in ascending order.
pub open spec fn toml_duplicates(d: DuplicatesView) -> Seq<char> {
    toml_list_line("ignore"@, d.ignore) + number_line("minLines"@, d.min_lines) + number_line(
        "minTokens"@,
        d.min_tokens,
    ) + string_line("mode"@, d.mode) + flag_line("skipLocal"@, d.skip_local) + raw_line(
        "threshold"@,
        d.threshold,
    )
}

/// The TOML form of a migrated configuration.
pub open spec fn toml_text(c: MigratedConfig, sources: Seq<Seq<char>>) -> Seq<char> {
    "# Migrated from "@ + join(sources, ", "@) + "\n\n"@ + toml_list_line("entry"@, opt_strings(c.entry))
        + toml_list_line("ignore"@, opt_strings(c.ignore)) + toml_list_line(
        "ignoreDependencies"@,
        opt_strings(c.ignore_dependencies),
    ) + (match c.rules {
        Some(r) => if r.len() > 0 {
            "\n[rules]\n"@ + toml_rule_lines(r@)
        } else {
            Seq::empty()
        },
        None => Seq::empty(),
    }) + (match c.duplicates {
        Some(d) => if duplicates_empty(d@) {
            Seq::empty()
        } else {
            "\n[duplicates]\n"@ + toml_duplicates(d@)
        },
        None => Seq::empty(),
    })
}

fn char_lists(v: &Vec<String>) -> (r: Vec<Vec<char>>)
    ensures
        char_views(r@) == string_views(v@),
{
    let mut out: Vec<Vec<char>> = Vec::new();
    let mut i: usize = 0;
    while i < v.len()
        invariant
            i <= v@.len(),
            char_views(out@) == string_views(v@).take(i as int),
        decreases v.len() - i,
    {
        let cs = str_chars(v[i].as_str());
        let ghost before = out@;
        out.push(cs);
        proof {
            assert(char_views(out@) =~= char_views(before).push(cs@));
            assert(string_views(v@).take(i + 1) =~= string_views(v@).take(i as int).push(cs@));
        }
        i = i + 1;
    }
    proof {
        assert(string_views(v@).take(i as int) =~= string_views(v@));
    }
    out
}

fn push_toml_array(out: &mut Vec<char>, v: &Vec<String>)
    ensures
        final(out)@ == old(out)@ + toml_array(string_views(v@)),
{
    let ghost vs = string_views(v@);
    let mut items: Vec<Vec<char>> = Vec::new();
    let mut i: usize = 0;
    while i < v.len()
        invariant
            i <= v@.len(),
            vs == string_views(v@),
            char_views(items@) == vs.take(i as int).map_values(|s: Seq<char>| quoted(s)),
        decreases v.len() - i,
    {
        let mut q: Vec<char> = Vec::new();
        push_str(&mut q, "\"");
        push_str(&mut q, v[i].as_str());
        push_str(&mut q, "\"");
        let ghost before = items@;
        items.push(q);
        proof {
            assert(q@ == quoted(vs[i as int]));
            assert(char_views(items@) =~= char_views(before).push(q@));
            assert(vs.take(i + 1).map_values(|s: Seq<char>| quoted(s)) =~= vs.take(i as int).map_values(
                |s: Seq<char>| quoted(s),
            ).push(q@));
        }
        i = i + 1;
    }
    proof {
        assert(vs.take(i as int) =~= vs);
    }
    push_str(out, "[");
    let joined = join_chars(&items, ", ");
    push_all(out, &joined);
    push_str(out, "]");
}

fn push_toml_list_line(out: &mut Vec<char>, key: &str, v: &Option<Vec<String>>)
    ensures
        final(out)@ == old(out)@ + toml_list_line(key@, opt_strings(*v)),
{
    match v {
        Some(items) => {
            push_str(out, key);
            push_str(out, " = ");
            push_toml_array(out, items);
            push_str(out, "\n");
        },
        None => {
            proof {
                assert(final(out)@ =~= old(out)@ + toml_list_line(key@, opt_strings(*v)));
            }
        },
    }
}

fn push_number_line(out: &mut Vec<char>, key: &str, o: Option<u64>)
    ensures
        final(out)@ == old(out)@ + number_line(key@, o),
{
    if let Some(n) = o {
        push_str(out, key);
        push_str(out, " = ");
        push_decimal(out, n);
        push_str(out, "\n");
    } else {
        proof {
            assert(final(out)@ =~= old(out)@ + number_line(key@, o));
        }
    }
}

fn push_text_line(out: &mut Vec<char>, key: &str, o: &Option<String>, quote: bool)
    ensures
        final(out)@ == old(out)@ + (if quote {
            string_line(key@, opt_chars(*o))
        } else {
            raw_line(key@, opt_chars(*o))
        }),
{
    if let Some(t) = o {
        push_str(out, key);
        if quote {
            push_str(out, " = \"");
            push_str(out, t.as_str());
            push_str(out, "\"\n");
        } else {
            push_str(out, " = ");
            push_str(out, t.as_str());
            push_str(out, "\n");
        }
    } else {
        proof {
            assert(final(out)@ =~= old(out)@ + string_line(key@, opt_chars(*o)));
            assert(final(out)@ =~= old(out)@ + raw_line(key@, opt_chars(*o)));
        }
    }
}

fn push_flag_line(out: &mut Vec<char>, key: &str, o: Option<bool>)
    ensures
        final(out)@ == old(out)@ + flag_line(key@, o),
{
    if let Some(b) = o {
        push_str(out, key);
        push_str(out, " = ");
        if b {
            push_str(out, "true");
        } else {
            push_str(out, "false");
        }
        push_str(out, "\n");
    } else {
        proof {
            assert(final(out)@ =~= old(out)@ + flag_line(key@, o));
        }
    }
}

fn push_toml_duplicates(out: &mut Vec<char>, d: &DuplicatesConfig)
    ensures
        final(out)@ == old(out)@ + toml_duplicates(d@),
{
    let ghost o0 = out@;
    push_toml_list_line(out, "ignore", &d.ignore);
    push_number_line(out, "minLines", d.min_lines);
    push_number_line(out, "minTokens", d.min_tokens);
    push_text_line(out, "mode", &d.mode, true);
    push_flag_line(out, "skipLocal", d.skip_local);
    push_text_line(out, "threshold", &d.threshold, false);
    proof {
        assert(out@ =~= o0 + toml_duplicates(d@));
    }
}

fn push_toml_rules(out: &mut Vec<char>, r: &Vec<(String, String)>)
    ensures
        final(out)@ == old(out)@ + toml_rule_lines(r@),
{
    let ghost o0 = out@;
    let mut i: usize = 0;
    while i < r.len()
        invariant
            i <= r@.len(),
            out@ == o0 + toml_rule_lines(r@.take(i as int)),
        decreases r.len() - i,
    {
        proof {
            assert(r@.take(i + 1).drop_last() =~= r@.take(i as int));
        }
        push_str(out, r[i].0.as_str());
        push_str(out, " = \"");
        push_str(out, r[i].1.as_str());
        push_str(out, "\"\n");
        proof {
            assert(out@ =~= o0 + toml_rule_lines(r@.take(i + 1)));
        }
        i = i + 1;
    }
    proof {
        assert(r@.take(i as int) =~= r@);
    }
}

/// The TOML form of a migrated configuration, headed by the sources it was
/// migrated from.
pub fn generate_toml(config: &MigratedConfig, sources: &Vec<String>) -> (r: String)
    ensures
        r@ == toml_text(*config, string_views(sources@)),
{
    let mut out: Vec<char> = Vec::new();
    push_str(&mut out, "# Migrated from ");
    let parts = char_lists(sources);
    let joined = join_chars(&parts, ", ");
    push_all(&mut out, &joined);
    push_str(&mut out, "\n\n");
    let ghost o1 = out@;
    push_toml_list_line(&mut out, "entry", &config.entry);
    push_toml_list_line(&mut out, "ignore", &config.ignore);
    push_toml_list_line(&mut out, "ignoreDependencies", &config.ignore_dependencies);
    let ghost o2 = out@;
    if let Some(r) = &config.rules {
        if r.len() > 0 {
            push_str(&mut out, "\n[rules]\n");
            push_toml_rules(&mut out, r);
        }
    }
    let ghost o3 = out@;
    if let Some(d) = &config.duplicates {
        let any_set = d.min_tokens.is_some() || d.min_lines.is_some() || d.threshold.is_some()
            || d.mode.is_some() || d.skip_local.is_some() || d.ignore.is_some();
        if any_set {
            push_str(&mut out, "\n[duplicates]\n");
            push_toml_duplicates(&mut out, d);
        }
    }
    proof {
        assert(out@ =~= toml_text(*config, string_views(sources@)));
    }
    chars_to_string(out.as_slice())
}

/// One `"key": value` line of the JSONC output.
pub open spec fn jsonc_entry(key: Seq<char>, json: Seq<char>, last: bool) -> Seq<char> {
    "  \""@ + key + "\": "@ + indent_json(json, 2) + (if last {
        "\n"@
    } else {
        ",\n"@
    })
}

/// The lines of the first `n` entries, the last entry of all without a comma.
pub open spec fn jsonc_entries(e: Seq<(String, String)>, n: int) -> Seq<char>
    decreases n,
{
    if n <= 0 || n > e.len() {
        Seq::empty()
    } else {
        jsonc_entries(e, n - 1) + jsonc_entry(e[n - 1].0@, e[n - 1].1@, n == e.len())
    }
}

/// The JSONC form of a configuration, given its keys with their values as
/// pretty-printed JSON, in the order they are written.
pub open spec fn jsonc_text(sources: Seq<Seq<char>>, entries: Seq<(String, String)>) -> Seq<char> {
    "{\n"@ + "  \"$schema\": \"https://raw.githubusercontent.com/fallow-rs/fallow/main/schema.json\",\n"@
        + "  // Migrated from "@ + join(sources, ", "@) + "\n"@ + jsonc_entries(
        entries,
        entries.len() as int,
    ) + "}\n"@
}

/// Lays out the JSONC form of a configuration: the schema, the sources it
/// was migrated from, and each key with its pretty-printed JSON value.
pub fn jsonc_document(sources: &Vec<String>, entries: &Vec<(String, String)>) -> (r: String)
    ensures
        r@ == jsonc_text(string_views(sources@), entries@),
{
    let mut out: Vec<char> = Vec::new();
    push_str(&mut out, "{\n");
    push_str(
        &mut out,
        "  \"$schema\": \"https://raw.githubusercontent.com/fallow-rs/fallow/main/schema.json\",\n",
    );
    push_str(&mut out, "  // Migrated from ");
    let parts = char_lists(sources);
    let joined = join_chars(&parts, ", ");
    push_all(&mut out, &joined);
    push_str(&mut out, "\n");
    let ghost o1 = out@;
    let mut i: usize = 0;
    while i < entries.len()
        invariant
            i <= entries@.len(),
            out@ == o1 + jsonc_entries(entries@, i as int),
        decreases entries.len() - i,
    {
        push_str(&mut out, "  \"");
        push_str(&mut out, entries[i].0.as_str());
        push_str(&mut out, "\": ");
        let indented = indent_json_value(entries[i].1.as_str(), 2);
        push_str(&mut out, indented.as_str());
        if i + 1 == entries.len() {
            push_str(&mut out, "\n");
        } else {
            push_str(&mut out, ",\n");
        }
        proof {
            assert(out@ =~= o1 + jsonc_entries(entries@, i + 1));
        }
        i = i + 1;
    }
    push_str(&mut out, "}\n");
    proof {
        assert(out@ =~= jsonc_text(string_views(sources@), entries@));
    }
    chars_to_string(out.as_slice())
}

/// How a warning is shown: `[source] `field`: message (suggestion: ...)`.
pub open spec fn warning_text(w: WarningView) -> Seq<char> {
    "["@ + w.source + "] `"@ + w.field + "`: "@ + w.message + (match w.suggestion {
        Some(s) => " (suggestion: "@ + s + ")"@,
        None => Seq::empty(),
    })
}

impl MigrationWarning {
    /// The warning as it is shown to the user.
    pub fn to_text(&self) -> (r: String)
        ensures
            r@ == warning_text(self@),
    {
        let mut out: Vec<char> = Vec::new();
        push_str(&mut out, "[");
        push_str(&mut out, self.source.as_str());
        push_str(&mut out, "] `");
        push_str(&mut out, self.field.as_str());
        push_str(&mut out, "`: ");
        push_str(&mut out, self.message.as_str());
        if let Some(s) = &self.suggestion {
            push_str(&mut out, " (suggestion: ");
            push_str(&mut out, s.as_str());
            push_str(&mut out, ")");
        }
        proof {
            assert(out@ =~= warning_text(self@));
        }
        chars_to_string(out.as_slice())
    }
}

// ── Recognising a configuration ──────────────────────────────────

/// The tool a configuration document belongs to.
#[derive(PartialEq, Eq, Structural, Debug, Clone, Copy)]
pub enum ConfigFormat {
    Knip,
    Jscpd,
}

/// The format of a document with no known file name: knip's when it has one
/// of knip's main fields, else jscpd's when it has one of jscpd's.
pub open spec fn detected_format(doc: Option<Seq<(String, JsonField)>>) -> Option<ConfigFormat> {
    match doc {
        Some(o) => if lookup(o, "entry"@) is Some || lookup(o, "ignore"@) is Some || lookup(
            o,
            "rules"@,
        ) is Some || lookup(o, "project"@) is Some || lookup(o, "ignoreDependencies"@) is Some {
            Some(ConfigFormat::Knip)
        } else if lookup(o, "minTokens"@) is Some || lookup(o, "minLines"@) is Some || lookup(
            o,
            "threshold"@,
        ) is Some || lookup(o, "mode"@) is Some {
            Some(ConfigFormat::Jscpd)
        } else {
            None
        },
        None => None,
    }
}

/// Recognises a configuration document by its fields.
pub fn detect_format(doc: &Option<Vec<(String, JsonField)>>) -> (r: Option<ConfigFormat>)
    ensures
        r == detected_format(match *doc {
            Some(o) => Some(o@),
            None => None,
        }),
{
    match doc {
        Some(o) => {
            if find_key(o, "entry").is_some() || find_key(o, "ignore").is_some() || find_key(
                o,
                "rules",
            ).is_some() || find_key(o, "project").is_some() || find_key(
                o,
                "ignoreDependencies",
            ).is_some() {
                Some(ConfigFormat::Knip)
            } else if find_key(o, "minTokens").is_some() || find_key(o, "minLines").is_some()
                || find_key(o, "threshold").is_some() || find_key(o, "mode").is_some() {
                Some(ConfigFormat::Jscpd)
            } else {
                None
            }
        },
        None => None,
    }
}

/// How a configuration file given by name is read.
#[derive(PartialEq, Eq, Structural, Debug, Clone, Copy)]
pub enum ConfigFileKind {
    /// A knip configuration written in TypeScript, which cannot be read.
    KnipTypeScript,
    Knip,
    Jscpd,
    /// A `package.json` that may embed either configuration.
    PackageJson,
    /// Any other file, recognised by its fields.
    Other,
}

/// `t` occurs in `s`.
pub open spec fn contains_text(s: Seq<char>, t: Seq<char>) -> bool {
    first_occ_from(s, t, 0) is Some
}

/// `s` ends with `t`.
pub open spec fn ends_with(s: Seq<char>, t: Seq<char>) -> bool {
    t.len() <= s.len() && s.skip(s.len() - t.len()) == t
}

/// The kind of a configuration file, by its file name.
pub open spec fn config_file_kind(name: Seq<char>) -> ConfigFileKind {
    if contains_text(name, "knip"@) {
        if ends_with(name, ".ts"@) {
            ConfigFileKind::KnipTypeScript
        } else {
            ConfigFileKind::Knip
        }
    } else if contains_text(name, "jscpd"@) {
        ConfigFileKind::Jscpd
    } else if name == "package.json"@ {
        ConfigFileKind::PackageJson
    } else {
        ConfigFileKind::Other
    }
}

fn ends_with_exec(s: &Vec<char>, t: &Vec<char>) -> (r: bool)
    ensures
        r == ends_with(s@, t@),
{
    if t.len() > s.len() {
        return false;
    }
    let tail = slice_vec(s, s.len() - t.len(), s.len());
    proof {
        assert(tail@ =~= s@.skip(s@.len() - t@.len()));
    }
    chars_eq(&tail, t)
}

/// Classifies a configuration file by its file name.
pub fn classify_config_file(name: &str) -> (r: ConfigFileKind)
    ensures
        r == config_file_kind(name@),
{
    let n = str_chars(name);
    let knip = str_chars("knip");
    if find_from(&n, &knip, 0).is_some() {
        let ts = str_chars(".ts");
        if ends_with_exec(&n, &ts) {
            ConfigFileKind::KnipTypeScript
        } else {
            ConfigFileKind::Knip
        }
    } else {
        let jscpd = str_chars("jscpd");
        if find_from(&n, &jscpd, 0).is_some() {
            ConfigFileKind::Jscpd
        } else {
            let pkg = str_chars("package.json");
            if chars_eq(&n, &pkg) {
                ConfigFileKind::PackageJson
            } else {
                ConfigFileKind::Other
            }
        }
    }
}

/// The reason a TypeScript knip configuration is not read.
pub open spec fn typescript_config_message(name: Seq<char>) -> Seq<char> {
    "TypeScript config files ("@ + name + ") cannot be parsed. Convert to knip.json first, then re-run migrate."@
}

/// The reason a TypeScript knip configuration is not read.
pub fn typescript_config_error(name: &str) -> (r: String)
    ensures
        r@ == typescript_config_message(name@),
{
    concat3(
        "TypeScript config files (",
        name,
        ") cannot be parsed. Convert to knip.json first, then re-run migrate.",
    )
}

/// The warning for a TypeScript knip configuration found by auto-detection.
pub fn typescript_config_warning(name: &str) -> (w: MigrationWarning)
    ensures
        w@ == (WarningView {
            source: "knip"@,
            field: name@,
            message: typescript_config_message(name@),
            suggestion: None,
        }),
{
    make_warning("knip", String::from_str(name), typescript_config_error(name), None)
}

// ── Laws ─────────────────────────────────────────────────────────

/// The knip and jscpd migrations fill different sections, so the order in
/// which a knip and a jscpd document are migrated does not matter.
pub proof fn lemma_knip_jscpd_commute(
    knip: Seq<(String, JsonField)>,
    jscpd: Seq<(String, JsonField)>,
    c: ConfigView,
)
    ensures
        knip_config(knip, jscpd_config(jscpd, c)) == jscpd_config(jscpd, knip_config(knip, c)),
{
}

proof fn lemma_excluded_off(r: Map<Seq<char>, Seq<char>>, names: Seq<Seq<char>>, i: int)
    requires
        0 <= i < names.len(),
        rule_target(names[i]) is Some,
    ensures
        excluded_rules(r, names).dom().contains(rule_target(names[i])->0),
        excluded_rules(r, names)[rule_target(names[i])->0] == "off"@,
    decreases names.len(),
{
    if i < names.len() - 1 {
        lemma_excluded_off(r, names.drop_last(), i);
        assert(names.drop_last()[i] == names[i]);
    }
}

proof fn lemma_included_keeps(r: Map<Seq<char>, Seq<char>>, included: Seq<Seq<char>>, n: int, k: Seq<char>)
    requires
        r.dom().contains(k),
    ensures
        included_rules(r, included, n).dom().contains(k),
        included_rules(r, included, n)[k] == r[k],
    decreases n,
{
    if 0 < n <= knip_rule_map().len() {
        lemma_included_keeps(r, included, n - 1, k);
    }
}

proof fn lemma_included_sets(r: Map<Seq<char>, Seq<char>>, included: Seq<Seq<char>>, n: int, j: int)
    requires
        0 <= j < n <= knip_rule_map().len(),
        !included.contains(knip_rule_map()[j].0@),
    ensures
        included_rules(r, included, n).dom().contains(knip_rule_map()[j].1@),
    decreases n,
{
    if j < n - 1 {
        lemma_included_sets(r, included, n - 1, j);
        lemma_included_keeps(included_rules(r, included, n - 1), included, n, knip_rule_map()[j].1@);
        let prev = included_rules(r, included, n - 1);
        let e = knip_rule_map()[n - 1];
        if !included.contains(e.0@) && !prev.dom().contains(e.1@) {
        }
    }
}

/// Each issue type that knip's `exclude` names and fallow has a rule for
/// has that rule turned off.
pub proof fn lemma_excluded_types_are_off(
    obj: Seq<(String, JsonField)>,
    old: Option<Map<Seq<char>, Seq<char>>>,
    i: int,
)
    requires
        0 <= i < member_strings(obj, "exclude"@).len(),
        rule_target(member_strings(obj, "exclude"@)[i]) is Some,
    ensures
        knip_rules(obj, old) is Some,
        knip_rules(obj, old)->0.dom().contains(rule_target(member_strings(obj, "exclude"@)[i])->0),
        knip_rules(obj, old)->0[rule_target(member_strings(obj, "exclude"@)[i])->0] == "off"@,
{
    let ex = member_strings(obj, "exclude"@);
    let f = rule_target(ex[i])->0;
    let r1 = knip_object_rules(obj, old);
    let r2 = excluded_rules(or_empty(r1), ex);
    lemma_excluded_off(or_empty(r1), ex, i);
    let inc = member_strings(obj, "include"@);
    if inc.len() > 0 {
        lemma_included_keeps(r2, inc, knip_rule_map().len() as int, f);
    }
}

/// With an `include` list, every fallow rule whose knip issue type is not
/// included is set: turned off, unless the knip rules set it already.
pub proof fn lemma_unincluded_types_are_set(
    obj: Seq<(String, JsonField)>,
    old: Option<Map<Seq<char>, Seq<char>>>,
    j: int,
)
    requires
        member_strings(obj, "include"@).len() > 0,
        0 <= j < knip_rule_map().len(),
        !member_strings(obj, "include"@).contains(knip_rule_map()[j].0@),
    ensures
        knip_rules(obj, old) is Some,
        knip_rules(obj, old)->0.dom().contains(knip_rule_map()[j].1@),
{
    let r1 = knip_object_rules(obj, old);
    let ex = member_strings(obj, "exclude"@);
    let r2 = if ex.len() > 0 {
        Some(excluded_rules(or_empty(r1), ex))
    } else {
        r1
    };
    lemma_included_sets(or_empty(r2), member_strings(obj, "include"@), knip_rule_map().len() as int, j);
}

/// Each knip issue type becomes the fallow rule for the same kind of issue:
/// `files` → `unusedFiles`, `dependencies` → `unusedDependencies`,
/// `devDependencies` → `unusedDevDependencies`, `exports` → `unusedExports`,
/// `types` → `unusedTypes`, `enumMembers` → `unusedEnumMembers`,
/// `classMembers` → `unusedClassMembers`, `unlisted` →
/// `unlistedDependencies`, `unresolved` → `unresolvedImports` and
/// `duplicates` → `duplicateExports`.
pub proof fn lemma_knip_rule_targets()
    ensures
        rule_target("files"@) == Some("unusedFiles"@),
        rule_target("dependencies"@) == Some("unusedDependencies"@),
        rule_target("devDependencies"@) == Some("unusedDevDependencies"@),
        rule_target("exports"@) == Some("unusedExports"@),
        rule_target("types"@) == Some("unusedTypes"@),
        rule_target("enumMembers"@) == Some("unusedEnumMembers"@),
        rule_target("classMembers"@) == Some("unusedClassMembers"@),
        rule_target("unlisted"@) == Some("unlistedDependencies"@),
        rule_target("unresolved"@) == Some("unresolvedImports"@),
        rule_target("duplicates"@) == Some("duplicateExports"@),
{
    reveal_with_fuel(rule_target_from, 11);
    assert(rule_target("files"@) == Some(knip_rule_map()[0].1@)) by {
        reveal_strlit("files");
    }
    assert(rule_target("dependencies"@) == Some(knip_rule_map()[1].1@)) by {
        reveal_strlit("dependencies");
        reveal_strlit("files");
        assert("files"@.len() != "dependencies"@.len());
    }
    assert(rule_target("devDependencies"@) == Some(knip_rule_map()[2].1@)) by {
        reveal_strlit("devDependencies");
        reveal_strlit("files");
        reveal_strlit("dependencies");
        assert("files"@.len() != "devDependencies"@.len());
        assert("dependencies"@.len() != "devDependencies"@.len());
    }
    assert(rule_target("exports"@) == Some(knip_rule_map()[3].1@)) by {
        reveal_strlit("exports");
        reveal_strlit("files");
        reveal_strlit("dependencies");
        reveal_strlit("devDependencies");
        assert("files"@.len() != "exports"@.len());
        assert("dependencies"@.len() != "exports"@.len());
        assert("devDependencies"@.len() != "exports"@.len());
    }
    assert(rule_target("types"@) == Some(knip_rule_map()[4].1@)) by {
        reveal_strlit("types");
        reveal_strlit("files");
        reveal_strlit("dependencies");
        reveal_strlit("devDependencies");
        reveal_strlit("exports");
        assert("files"@[0] != "types"@[0]);
        assert("dependencies"@.len() != "types"@.len());
        assert("devDependencies"@.len() != "types"@.len());
        assert("exports"@.len() != "types"@.len());
    }
    assert(rule_target("enumMembers"@) == Some(knip_rule_map()[5].1@)) by {
        reveal_strlit("enumMembers");
        reveal_strlit("files");
        reveal_strlit("dependencies");
        reveal_strlit("devDependencies");
        reveal_strlit("exports");
        reveal_strlit("types");
        assert("files"@.len() != "enumMembers"@.len());
        assert("dependencies"@.len() != "enumMembers"@.len());
        assert("devDependencies"@.len() != "enumMembers"@.len());
        assert("exports"@.len() != "enumMembers"@.len());
        assert("types"@.len() != "enumMembers"@.len());
    }
    assert(rule_target("classMembers"@) == Some(knip_rule_map()[6].1@)) by {
        reveal_strlit("classMembers");
        reveal_strlit("files");
        reveal_strlit("dependencies");
        reveal_strlit("devDependencies");
        reveal_strlit("exports");
        reveal_strlit("types");
        reveal_strlit("enumMembers");
        assert("files"@.len() != "classMembers"@.len());
        assert("dependencies"@[0] != "classMembers"@[0]);
        assert("devDependencies"@.len() != "classMembers"@.len());
        assert("exports"@.len() != "classMembers"@.len());
        assert("types"@.len() != "classMembers"@.len());
        assert("enumMembers"@.len() != "classMembers"@.len());
    }
    assert(rule_target("unlisted"@) == Some(knip_rule_map()[7].1@)) by {
        reveal_strlit("unlisted");
        reveal_strlit("files");
        reveal_strlit("dependencies");
        reveal_strlit("devDependencies");
        reveal_strlit("exports");
        reveal_strlit("types");
        reveal_strlit("enumMembers");
        reveal_strlit("classMembers");
        assert("files"@.len() != "unlisted"@.len());
        assert("dependencies"@.len() != "unlisted"@.len());
        assert("devDependencies"@.len() != "unlisted"@.len());
        assert("exports"@.len() != "unlisted"@.len());
        assert("types"@.len() != "unlisted"@.len());
        assert("enumMembers"@.len() != "unlisted"@.len());
        assert("classMembers"@.len() != "unlisted"@.len());
    }
    assert(rule_target("unresolved"@) == Some(knip_rule_map()[8].1@)) by {
        reveal_strlit("unresolved");
        reveal_strlit("files");
        reveal_strlit("dependencies");
        reveal_strlit("devDependencies");
        reveal_strlit("exports");
        reveal_strlit("types");
        reveal_strlit("enumMembers");
        reveal_strlit("classMembers");
        reveal_strlit("unlisted");
        assert("files"@.len() != "unresolved"@.len());
        assert("dependencies"@.len() != "unresolved"@.len());
        assert("devDependencies"@.len() != "unresolved"@.len());
        assert("exports"@.len() != "unresolved"@.len());
        assert("types"@.len() != "unresolved"@.len());
        assert("enumMembers"@.len() != "unresolved"@.len());
        assert("classMembers"@.len() != "unresolved"@.len());
        assert("unlisted"@.len() != "unresolved"@.len());
    }
    assert(rule_target("duplicates"@) == Some(knip_rule_map()[9].1@)) by {
        reveal_strlit("duplicates");
        reveal_strlit("files");
        reveal_strlit("dependencies");
        reveal_strlit("devDependencies");
        reveal_strlit("exports");
        reveal_strlit("types");
        reveal_strlit("enumMembers");
        reveal_strlit("classMembers");
        reveal_strlit("unlisted");
        reveal_strlit("unresolved");
        assert("files"@.len() != "duplicates"@.len());
        assert("dependencies"@.len() != "duplicates"@.len());
        assert("devDependencies"@.len() != "duplicates"@.len());
        assert("exports"@.len() != "duplicates"@.len());
        assert("types"@.len() != "duplicates"@.len());
        assert("enumMembers"@.len() != "duplicates"@.len());
        assert("classMembers"@.len() != "duplicates"@.len());
        assert("unlisted"@.len() != "duplicates"@.len());
        assert("unresolved"@[0] != "duplicates"@[0]);
    }
}

proof fn lemma_rule_targets_distinct(a: int, b: int)
    requires
        0 <= a < b < knip_rule_map().len(),
    ensures
        knip_rule_map()[a].1@ != knip_rule_map()[b].1@,
{
    reveal_strlit("unusedFiles");
    reveal_strlit("unusedDependencies");
    reveal_strlit("unusedDevDependencies");
    reveal_strlit("unusedExports");
    reveal_strlit("unusedTypes");
    reveal_strlit("unusedEnumMembers");
    reveal_strlit("unusedClassMembers");
    reveal_strlit("unlistedDependencies");
    reveal_strlit("unresolvedImports");
    reveal_strlit("duplicateExports");
    assert("unusedFiles"@[6] != "unusedTypes"@[6]);
    assert("unusedDependencies"@[6] != "unusedClassMembers"@[6]);
    assert("unusedEnumMembers"@[2] != "unresolvedImports"@[2]);
    let m = knip_rule_map();
    assert(m[0].1@ == "unusedFiles"@);
    assert(m[1].1@ == "unusedDependencies"@);
    assert(m[2].1@ == "unusedDevDependencies"@);
    assert(m[3].1@ == "unusedExports"@);
    assert(m[4].1@ == "unusedTypes"@);
    assert(m[5].1@ == "unusedEnumMembers"@);
    assert(m[6].1@ == "unusedClassMembers"@);
    assert(m[7].1@ == "unlistedDependencies"@);
    assert(m[8].1@ == "unresolvedImports"@);
    assert(m[9].1@ == "duplicateExports"@);
    assert(a == 0 || a == 1 || a == 2 || a == 3 || a == 4 || a == 5 || a == 6 || a == 7 || a == 8);
    assert(b == 1 || b == 2 || b == 3 || b == 4 || b == 5 || b == 6 || b == 7 || b == 8 || b == 9);
}

proof fn lemma_rule_target_index(name: Seq<char>, i: int) -> (j: int)
    requires
        rule_target_from(name, i) is Some,
    ensures
        0 <= i <= j < knip_rule_map().len(),
        knip_rule_map()[j].0@ == name,
        knip_rule_map()[j].1@ == rule_target_from(name, i)->0,
    decreases knip_rule_map().len() - i,
{
    if knip_rule_map()[i].0@ == name {
        i
    } else {
        lemma_rule_target_index(name, i + 1)
    }
}

proof fn lemma_mapped_sets(ms: Seq<(String, Option<String>)>, n: int, j: int, sev: String)
    requires
        0 <= j < n <= knip_rule_map().len(),
        lookup(ms, knip_rule_map()[j].0@) == Some(Some(sev)),
    ensures
        mapped_rules(ms, n).dom().contains(knip_rule_map()[j].1@),
        mapped_rules(ms, n)[knip_rule_map()[j].1@] == sev@,
    decreases n,
{
    if j < n - 1 {
        lemma_mapped_sets(ms, n - 1, j, sev);
        lemma_rule_targets_distinct(j, n - 1);
    }
}

/// The severity that knip's `rules` object gives an issue type lands on the
/// fallow rule for that issue type: `unlisted` on `unlistedDependencies`,
/// `unresolved` on `unresolvedImports`, and each other mapped type on its
/// own rule.
pub proof fn lemma_knip_severity_lands(
    obj: Seq<(String, JsonField)>,
    old: Option<Map<Seq<char>, Seq<char>>>,
    ms: Vec<(String, Option<String>)>,
    name: Seq<char>,
    sev: String,
)
    requires
        lookup(obj, "rules"@) == Some(JsonField::Object(ms)),
        lookup(ms@, name) == Some(Some(sev)),
        rule_target(name) is Some,
    ensures
        knip_object_rules(obj, old) is Some,
        knip_object_rules(obj, old)->0.dom().contains(rule_target(name)->0),
        knip_object_rules(obj, old)->0[rule_target(name)->0] == sev@,
        name == "unlisted"@ ==> knip_object_rules(obj, old)->0["unlistedDependencies"@] == sev@,
        name == "unresolved"@ ==> knip_object_rules(obj, old)->0["unresolvedImports"@] == sev@,
        name == "files"@ ==> knip_object_rules(obj, old)->0["unusedFiles"@] == sev@,
        name == "dependencies"@ ==> knip_object_rules(obj, old)->0["unusedDependencies"@] == sev@,
        name == "devDependencies"@ ==> knip_object_rules(obj, old)->0["unusedDevDependencies"@]
            == sev@,
        name == "exports"@ ==> knip_object_rules(obj, old)->0["unusedExports"@] == sev@,
        name == "types"@ ==> knip_object_rules(obj, old)->0["unusedTypes"@] == sev@,
        name == "enumMembers"@ ==> knip_object_rules(obj, old)->0["unusedEnumMembers"@] == sev@,
        name == "classMembers"@ ==> knip_object_rules(obj, old)->0["unusedClassMembers"@] == sev@,
        name == "duplicates"@ ==> knip_object_rules(obj, old)->0["duplicateExports"@] == sev@,
{
    let j = lemma_rule_target_index(name, 0);
    lemma_mapped_sets(ms@, knip_rule_map().len() as int, j, sev);
    let fr = mapped_rules(ms@, knip_rule_map().len() as int);
    assert(fr.dom().contains(knip_rule_map()[j].1@));
    assert(fr != Map::<Seq<char>, Seq<char>>::empty());
    lemma_knip_rule_targets();
}

/// `n` spaces.
pub open spec fn spaces(n: nat) -> Seq<char> {
    Seq::new(n, |i: int| ' ')
}

/// Each line of `ls` on a new line, indented by `n` spaces.
pub open spec fn indented_lines(ls: Seq<Seq<char>>, n: nat) -> Seq<char>
    decreases ls.len(),
{
    if ls.len() == 0 {
        Seq::empty()
    } else {
        indented_lines(ls.drop_last(), n) + seq!['\n'] + spaces(n) + ls.last()
    }
}

/// A pretty-printed JSON value with its continuation lines indented by `n`
/// spaces; a value of at most one line is returned unchanged.
pub open spec fn indent_json(json: Seq<char>, n: nat) -> Seq<char> {
    let ls = lines(json);
    if ls.len() <= 1 {
        json
    } else {
        ls[0] + indented_lines(ls.drop_first(), n)
    }
}

/// Indent the continuation lines of a pretty-printed JSON value.
pub fn indent_json_value(json: &str, spaces_count: usize) -> (r: String)
    ensures
        r@ == indent_json(json@, spaces_count as nat),
{
    let v = str_chars(json);
    let ls = lines_exec(&v);
    if ls.len() <= 1 {
        return String::from_str(json);
    }
    let mut indent: Vec<char> = Vec::new();
    let mut k: usize = 0;
    while k < spaces_count
        invariant
            k <= spaces_count,
            indent@ == spaces(k as nat),
        decreases spaces_count - k,
    {
        indent.push(' ');
        k = k + 1;
        proof {
            assert(indent@ =~= spaces(k as nat));
        }
    }
    let ghost all = lines(v@);
    let mut out: Vec<char> = ls[0].clone();
    let mut i: usize = 1;
    proof {
        assert(all.drop_first().take(0) =~= Seq::<Seq<char>>::empty());
        assert(out@ =~= all[0] + indented_lines(all.drop_first().take(0), spaces_count as nat));
    }
    while i < ls.len()
        invariant
            all == lines(v@),
            ls@.len() == all.len(),
            forall|j: int| 0 <= j < ls@.len() ==> #[trigger] ls@[j]@ == all[j],
            1 <= i <= ls@.len(),
            indent@ == spaces(spaces_count as nat),
            out@ == all[0] + indented_lines(all.drop_first().take(i - 1), spaces_count as nat),
        decreases ls.len() - i,
    {
        out.push('\n');
        push_all(&mut out, &indent);
        push_all(&mut out, &ls[i]);
        proof {
            let rest = all.drop_first();
            assert(rest.take(i as int).drop_last() =~= rest.take(i - 1));
            assert(rest.take(i as int).last() == all[i as int]);
        }
        i = i + 1;
    }
    proof {
        assert(all.drop_first().take(i - 1) =~= all.drop_first());
    }
    chars_to_string(out.as_slice())
}

// ── JSON and JSONC sources ───────────────────────────────────────

/// Whether `serde_json` parses the text as a JSON value.
pub uninterp spec fn json_parses(text: Seq<char>) -> bool;

/// What `json_comments::StripComments` makes of the text: the text with
/// every comment blanked out, or the display text of its error.
pub uninterp spec fn jsonc_stripped(text: Seq<char>) -> Result<Seq<char>, Seq<char>>;

/// `serde_json::from_str::<serde_json::Value>` succeeds: named `json_parses`,
/// a function of the text alone.
#[verifier::external_body]
fn is_json(text: &str) -> (r: bool)
    ensures
        r == json_parses(text@),
{
    serde_json::from_str::<serde_json::Value>(text).is_ok()
}

/// `json_comments::StripComments::new(text.as_bytes())` read to a string:
/// the result, or the error's display text, is named `jsonc_stripped`.
#[verifier::external_body]
pub(crate) fn strip_json_comments(text: &str) -> (r: Result<String, String>)
    ensures
        match r {
            Ok(s) => jsonc_stripped(text@) == Ok::<Seq<char>, Seq<char>>(s@),
            Err(m) => jsonc_stripped(text@) == Err::<Seq<char>, Seq<char>>(m@),
        },
{
    let mut stripped = String::new();
    let mut reader = json_comments::StripComments::new(text.as_bytes());
    match std::io::Read::read_to_string(&mut reader, &mut stripped) {
        Ok(_) => Ok(stripped),
        Err(e) => Err(e.to_string()),
    }
}

/// The text a JSON parser reads of a configuration file at `path`: the file's
/// text when it is plain JSON, else that text with its comments blanked
/// out; when stripping fails, an error naming the file.
pub open spec fn json_source(content: Seq<char>, path: Seq<char>) -> Result<Seq<char>, Seq<char>> {
    if json_parses(content) {
        Ok(content)
    } else {
        match jsonc_stripped(content) {
            Ok(s) => Ok(s),
            Err(m) => Err("failed to strip comments from "@ + path + ": "@ + m),
        }
    }
}

/// The text to parse of a JSON or JSONC configuration file: plain JSON is
/// taken as it is; otherwise its comments are stripped first.
pub fn json_or_jsonc_text(content: &str, path: &str) -> (r: Result<String, String>)
    ensures
        match (r, json_source(content@, path@)) {
            (Ok(s), Ok(t)) => s@ == t,
            (Err(m), Err(t)) => m@ == t,
            _ => false,
        },
{
    if is_json(content) {
        return Ok(String::from_str(content));
    }
    match strip_json_comments(content) {
        Ok(s) => Ok(s),
        Err(m) => {
            let mut out: Vec<char> = Vec::new();
            push_str(&mut out, "failed to strip comments from ");
            push_str(&mut out, path);
            push_str(&mut out, ": ");
            push_str(&mut out, m.as_str());
            Err(chars_to_string(out.as_slice()))
        },
    }
}

} // verus!
