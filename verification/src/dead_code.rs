//! Dead-code issues and the stable keys that identify them across runs, so
//! that an audit can tell the issues a change introduced from those it
//! inherited.
use vstd::prelude::*;
use crate::ordering::{char_views, join_chars, sort_chars, sort_strings, sorted_distinct};
use crate::paths::{key_path, relative_key_path};
use crate::search::join;
use crate::text::{string_views, chars_to_string, decimal, push_all, push_decimal, push_str, str_chars};

verus! {

/// An issue located by a path and one name (an export, type, import
/// specifier or package).
#[derive(Debug, Clone)]
pub struct PathNameIssue {
    pub path: String,
    pub name: String,
}

/// A private type leaked through an export.
#[derive(Debug, Clone)]
pub struct PrivateTypeLeakIssue {
    pub path: String,
    pub export_name: String,
    pub leaked_type: String,
}

/// The manifest section a dependency is declared in.
#[derive(Debug, Clone, Copy, PartialEq, Eq, Structural)]
pub enum DependencyLocation {
    Dependencies,
    DevDependencies,
    OptionalDependencies,
}

/// An unused dependency.
#[derive(Debug, Clone)]
pub struct UnusedDependencyIssue {
    pub location: DependencyLocation,
    pub path: String,
    pub package_name: String,
}

/// An unused enum or class member.
#[derive(Debug, Clone)]
pub struct UnusedMemberIssue {
    pub path: String,
    pub parent_name: String,
    pub member_name: String,
}

/// Where an unlisted dependency is imported.
#[derive(Debug, Clone)]
pub struct ImportSite {
    pub path: String,
    pub line: u32,
    pub col: u32,
}

/// A dependency used without being declared.
#[derive(Debug, Clone)]
pub struct UnlistedDependencyIssue {
    pub package_name: String,
    pub imported_from: Vec<ImportSite>,
}

/// An export name exported from several files.
#[derive(Debug, Clone)]
pub struct DuplicateExportIssue {
    pub export_name: String,
    pub locations: Vec<String>,
}

/// A cycle of imports.
#[derive(Debug, Clone)]
pub struct CircularDependencyIssue {
    pub files: Vec<String>,
}

/// An import across an architecture boundary.
#[derive(Debug, Clone)]
pub struct BoundaryViolationIssue {
    pub from_path: String,
    pub to_path: String,
    pub import_specifier: String,
}

/// A suppression comment that suppresses nothing, with its description.
#[derive(Debug, Clone)]
pub struct StaleSuppressionIssue {
    pub path: String,
    pub description: String,
}

/// The dead-code issues of one analysis.
#[derive(Debug, Clone)]
pub struct DeadCodeResults {
    pub unused_files: Vec<String>,
    pub unused_exports: Vec<PathNameIssue>,
    pub unused_types: Vec<PathNameIssue>,
    pub private_type_leaks: Vec<PrivateTypeLeakIssue>,
    pub unused_dependencies: Vec<UnusedDependencyIssue>,
    pub unused_dev_dependencies: Vec<UnusedDependencyIssue>,
    pub unused_optional_dependencies: Vec<UnusedDependencyIssue>,
    pub unused_enum_members: Vec<UnusedMemberIssue>,
    pub unused_class_members: Vec<UnusedMemberIssue>,
    pub unresolved_imports: Vec<PathNameIssue>,
    pub unlisted_dependencies: Vec<UnlistedDependencyIssue>,
    pub duplicate_exports: Vec<DuplicateExportIssue>,
    pub type_only_dependencies: Vec<PathNameIssue>,
    pub test_only_dependencies: Vec<PathNameIssue>,
    pub circular_dependencies: Vec<CircularDependencyIssue>,
    pub boundary_violations: Vec<BoundaryViolationIssue>,
    pub stale_suppressions: Vec<StaleSuppressionIssue>,
}

// ── Keys ─────────────────────────────────────────────────────────

/// `label:path`.
pub open spec fn path_key(label: Seq<char>, path: Seq<char>, root: Seq<char>) -> Seq<char> {
    label + seq![':'] + key_path(path, root)
}

/// `label:path:name`.
pub open spec fn path_name_key(label: Seq<char>, i: PathNameIssue, root: Seq<char>) -> Seq<char> {
    path_key(label, i.path@, root) + seq![':'] + i.name@
}

/// The key of a private type leak.
pub open spec fn leak_key(i: PrivateTypeLeakIssue, root: Seq<char>) -> Seq<char> {
    path_key("private-type-leak"@, i.path@, root) + seq![':'] + i.export_name@ + seq![':'] + i.leaked_type@
}

/// The label of a dependency section.
pub open spec fn location_label(l: DependencyLocation) -> Seq<char> {
    match l {
        DependencyLocation::Dependencies => "unused-dependency"@,
        DependencyLocation::DevDependencies => "unused-dev-dependency"@,
        DependencyLocation::OptionalDependencies => "unused-optional-dependency"@,
    }
}

/// The key of an unused dependency.
pub open spec fn dependency_key(i: UnusedDependencyIssue, root: Seq<char>) -> Seq<char> {
    path_key(location_label(i.location), i.path@, root) + seq![':'] + i.package_name@
}

/// The key of an unused member under a rule label.
pub open spec fn member_key(label: Seq<char>, i: UnusedMemberIssue, root: Seq<char>) -> Seq<char> {
    path_key(label, i.path@, root) + seq![':'] + i.parent_name@ + seq![':'] + i.member_name@
}

/// `path:line:col` of an import site.
pub open spec fn site_text(s: ImportSite, root: Seq<char>) -> Seq<char> {
    key_path(s.path@, root) + seq![':'] + decimal(s.line as nat) + seq![':'] + decimal(s.col as nat)
}

/// The key of an unlisted dependency: its package and its distinct import
/// sites in ascending order.
pub open spec fn unlisted_key(i: UnlistedDependencyIssue, root: Seq<char>) -> Seq<char> {
    "unlisted-dependency:"@ + i.package_name@ + seq![':'] + join(
        sorted_distinct(i.imported_from@.map_values(|s: ImportSite| site_text(s, root))),
        seq!['|'],
    )
}

/// The key paths of a list of paths.
pub open spec fn key_paths(ps: Seq<String>, root: Seq<char>) -> Seq<Seq<char>> {
    ps.map_values(|p: String| key_path(p@, root))
}

/// The key of a duplicate export: its name and its distinct files in
/// ascending order.
pub open spec fn duplicate_key(i: DuplicateExportIssue, root: Seq<char>) -> Seq<char> {
    "duplicate-export:"@ + i.export_name@ + seq![':'] + join(
        sorted_distinct(key_paths(i.locations@, root)),
        seq!['|'],
    )
}

/// The key of an import cycle: its files in ascending order.
pub open spec fn cycle_key(i: CircularDependencyIssue, root: Seq<char>) -> Seq<char> {
    "circular-dependency:"@ + join(sort_strings(key_paths(i.files@, root)), seq!['|'])
}

/// The key of a boundary violation.
pub open spec fn boundary_key(i: BoundaryViolationIssue, root: Seq<char>) -> Seq<char> {
    path_key("boundary-violation"@, i.from_path@, root) + seq![':'] + key_path(i.to_path@, root)
        + seq![':'] + i.import_specifier@
}

/// The key of a stale suppression.
pub open spec fn stale_key(i: StaleSuppressionIssue, root: Seq<char>) -> Seq<char> {
    path_key("stale-suppression"@, i.path@, root) + seq![':'] + i.description@
}

fn push_path_key(out: &mut Vec<char>, label: &str, path: &String, root: &str)
    ensures
        final(out)@ == old(out)@ + path_key(label@, path@, root@),
{
    push_str(out, label);
    out.push(':');
    let rel = relative_key_path(path.as_str(), root);
    push_str(out, rel.as_str());
}

fn path_name_key_exec(label: &str, i: &PathNameIssue, root: &str) -> (r: String)
    ensures
        r@ == path_name_key(label@, *i, root@),
{
    let mut v: Vec<char> = Vec::new();
    push_path_key(&mut v, label, &i.path, root);
    v.push(':');
    push_str(&mut v, i.name.as_str());
    proof {
        assert(v@ =~= path_name_key(label@, *i, root@));
    }
    chars_to_string(v.as_slice())
}

fn file_key_exec(path: &String, root: &str) -> (r: String)
    ensures
        r@ == path_key("unused-file"@, path@, root@),
{
    let mut v: Vec<char> = Vec::new();
    push_path_key(&mut v, "unused-file", path, root);
    proof {
        assert(v@ =~= path_key("unused-file"@, path@, root@));
    }
    chars_to_string(v.as_slice())
}

fn leak_key_exec(i: &PrivateTypeLeakIssue, root: &str) -> (r: String)
    ensures
        r@ == leak_key(*i, root@),
{
    let mut v: Vec<char> = Vec::new();
    push_path_key(&mut v, "private-type-leak", &i.path, root);
    v.push(':');
    push_str(&mut v, i.export_name.as_str());
    v.push(':');
    push_str(&mut v, i.leaked_type.as_str());
    proof {
        assert(v@ =~= leak_key(*i, root@));
    }
    chars_to_string(v.as_slice())
}

fn location_label_exec(l: DependencyLocation) -> (r: &'static str)
    ensures
        r@ == location_label(l),
{
    match l {
        DependencyLocation::Dependencies => "unused-dependency",
        DependencyLocation::DevDependencies => "unused-dev-dependency",
        DependencyLocation::OptionalDependencies => "unused-optional-dependency",
    }
}

fn dependency_key_exec(i: &UnusedDependencyIssue, root: &str) -> (r: String)
    ensures
        r@ == dependency_key(*i, root@),
{
    let mut v: Vec<char> = Vec::new();
    push_path_key(&mut v, location_label_exec(i.location), &i.path, root);
    v.push(':');
    push_str(&mut v, i.package_name.as_str());
    proof {
        assert(v@ =~= dependency_key(*i, root@));
    }
    chars_to_string(v.as_slice())
}

fn member_key_exec(label: &str, i: &UnusedMemberIssue, root: &str) -> (r: String)
    ensures
        r@ == member_key(label@, *i, root@),
{
    let mut v: Vec<char> = Vec::new();
    push_path_key(&mut v, label, &i.path, root);
    v.push(':');
    push_str(&mut v, i.parent_name.as_str());
    v.push(':');
    push_str(&mut v, i.member_name.as_str());
    proof {
        assert(v@ =~= member_key(label@, *i, root@));
    }
    chars_to_string(v.as_slice())
}

fn unlisted_key_exec(i: &UnlistedDependencyIssue, root: &str) -> (r: String)
    ensures
        r@ == unlisted_key(*i, root@),
{
    let ghost sv = i.imported_from@.map_values(|s: ImportSite| site_text(s, root@));
    let mut sites: Vec<Vec<char>> = Vec::new();
    let mut k: usize = 0;
    while k < i.imported_from.len()
        invariant
            sv == i.imported_from@.map_values(|s: ImportSite| site_text(s, root@)),
            k <= i.imported_from@.len(),
            char_views(sites@) == sv.take(k as int),
        decreases i.imported_from.len() - k,
    {
        let site = &i.imported_from[k];
        let rel = relative_key_path(site.path.as_str(), root);
        let mut t = str_chars(rel.as_str());
        t.push(':');
        push_decimal(&mut t, site.line as u64);
        t.push(':');
        push_decimal(&mut t, site.col as u64);
        let ghost before = sites@;
        sites.push(t);
        proof {
            assert(t@ =~= site_text(*site, root@));
            assert(char_views(sites@) =~= char_views(before).push(t@));
            assert(sv.take(k + 1) =~= sv.take(k as int).push(sv[k as int]));
        }
        k = k + 1;
    }
    proof {
        assert(sv.take(k as int) =~= sv);
    }
    let sorted = sort_chars(&sites, true);
    let joined = join_chars(&sorted, "|");
    let mut v = str_chars("unlisted-dependency:");
    push_str(&mut v, i.package_name.as_str());
    v.push(':');
    push_all(&mut v, &joined);
    proof {
        reveal_strlit("|");
        assert("|"@ =~= seq!['|']);
        assert(v@ =~= unlisted_key(*i, root@));
    }
    chars_to_string(v.as_slice())
}

fn key_paths_exec(ps: &Vec<String>, root: &str) -> (r: Vec<Vec<char>>)
    ensures
        char_views(r@) == key_paths(ps@, root@),
{
    let mut out: Vec<Vec<char>> = Vec::new();
    let mut k: usize = 0;
    while k < ps.len()
        invariant
            k <= ps@.len(),
            char_views(out@) == key_paths(ps@, root@).take(k as int),
        decreases ps.len() - k,
    {
        let rel = relative_key_path(ps[k].as_str(), root);
        let t = str_chars(rel.as_str());
        let ghost before = out@;
        out.push(t);
        proof {
            assert(char_views(out@) =~= char_views(before).push(t@));
            assert(key_paths(ps@, root@).take(k + 1) =~= key_paths(ps@, root@).take(k as int).push(
                key_paths(ps@, root@)[k as int],
            ));
        }
        k = k + 1;
    }
    proof {
        assert(key_paths(ps@, root@).take(k as int) =~= key_paths(ps@, root@));
    }
    out
}

fn duplicate_key_exec(i: &DuplicateExportIssue, root: &str) -> (r: String)
    ensures
        r@ == duplicate_key(*i, root@),
{
    let paths = key_paths_exec(&i.locations, root);
    let sorted = sort_chars(&paths, true);
    let joined = join_chars(&sorted, "|");
    let mut v = str_chars("duplicate-export:");
    push_str(&mut v, i.export_name.as_str());
    v.push(':');
    push_all(&mut v, &joined);
    proof {
        reveal_strlit("|");
        assert("|"@ =~= seq!['|']);
        assert(v@ =~= duplicate_key(*i, root@));
    }
    chars_to_string(v.as_slice())
}

fn cycle_key_exec(i: &CircularDependencyIssue, root: &str) -> (r: String)
    ensures
        r@ == cycle_key(*i, root@),
{
    let paths = key_paths_exec(&i.files, root);
    let sorted = sort_chars(&paths, false);
    let joined = join_chars(&sorted, "|");
    let mut v = str_chars("circular-dependency:");
    push_all(&mut v, &joined);
    proof {
        reveal_strlit("|");
        assert("|"@ =~= seq!['|']);
        assert(v@ =~= cycle_key(*i, root@));
    }
    chars_to_string(v.as_slice())
}

fn boundary_key_exec(i: &BoundaryViolationIssue, root: &str) -> (r: String)
    ensures
        r@ == boundary_key(*i, root@),
{
    let mut v: Vec<char> = Vec::new();
    push_path_key(&mut v, "boundary-violation", &i.from_path, root);
    v.push(':');
    let to = relative_key_path(i.to_path.as_str(), root);
    push_str(&mut v, to.as_str());
    v.push(':');
    push_str(&mut v, i.import_specifier.as_str());
    proof {
        assert(v@ =~= boundary_key(*i, root@));
    }
    chars_to_string(v.as_slice())
}

fn stale_key_exec(i: &StaleSuppressionIssue, root: &str) -> (r: String)
    ensures
        r@ == stale_key(*i, root@),
{
    let mut v: Vec<char> = Vec::new();
    push_path_key(&mut v, "stale-suppression", &i.path, root);
    v.push(':');
    push_str(&mut v, i.description.as_str());
    proof {
        assert(v@ =~= stale_key(*i, root@));
    }
    chars_to_string(v.as_slice())
}

// ── Keys of a whole analysis ─────────────────────────────────────

/// The keys of path-and-name issues under a label, in order.
pub open spec fn path_name_keys(label: Seq<char>, v: Seq<PathNameIssue>, root: Seq<char>) -> Seq<Seq<char>> {
    v.map_values(|i: PathNameIssue| path_name_key(label, i, root))
}

/// The keys of unused files, in order.
pub open spec fn file_keys(v: Seq<String>, root: Seq<char>) -> Seq<Seq<char>> {
    v.map_values(|p: String| path_key("unused-file"@, p@, root))
}

/// The keys of private type leaks, in order.
pub open spec fn leak_keys(v: Seq<PrivateTypeLeakIssue>, root: Seq<char>) -> Seq<Seq<char>> {
    v.map_values(|i: PrivateTypeLeakIssue| leak_key(i, root))
}

/// The keys of unused dependencies, in order.
pub open spec fn dependency_keys(v: Seq<UnusedDependencyIssue>, root: Seq<char>) -> Seq<Seq<char>> {
    v.map_values(|i: UnusedDependencyIssue| dependency_key(i, root))
}

/// The keys of unused members under a label, in order.
pub open spec fn member_keys(label: Seq<char>, v: Seq<UnusedMemberIssue>, root: Seq<char>) -> Seq<Seq<char>> {
    v.map_values(|i: UnusedMemberIssue| member_key(label, i, root))
}

/// The keys of unlisted dependencies, in order.
pub open spec fn unlisted_keys(v: Seq<UnlistedDependencyIssue>, root: Seq<char>) -> Seq<Seq<char>> {
    v.map_values(|i: UnlistedDependencyIssue| unlisted_key(i, root))
}

/// The keys of duplicate exports, in order.
pub open spec fn duplicate_keys(v: Seq<DuplicateExportIssue>, root: Seq<char>) -> Seq<Seq<char>> {
    v.map_values(|i: DuplicateExportIssue| duplicate_key(i, root))
}

/// The keys of import cycles, in order.
pub open spec fn cycle_keys(v: Seq<CircularDependencyIssue>, root: Seq<char>) -> Seq<Seq<char>> {
    v.map_values(|i: CircularDependencyIssue| cycle_key(i, root))
}

/// The keys of boundary violations, in order.
pub open spec fn boundary_keys(v: Seq<BoundaryViolationIssue>, root: Seq<char>) -> Seq<Seq<char>> {
    v.map_values(|i: BoundaryViolationIssue| boundary_key(i, root))
}

/// The keys of stale suppressions, in order.
pub open spec fn stale_keys(v: Seq<StaleSuppressionIssue>, root: Seq<char>) -> Seq<Seq<char>> {
    v.map_values(|i: StaleSuppressionIssue| stale_key(i, root))
}

/// Every issue key of an analysis, category by category.
pub open spec fn all_keys(r: DeadCodeResults, root: Seq<char>) -> Seq<Seq<char>> {
    file_keys(r.unused_files@, root) + path_name_keys("unused-export"@, r.unused_exports@, root)
        + path_name_keys("unused-type"@, r.unused_types@, root) + leak_keys(r.private_type_leaks@, root)
        + dependency_keys(r.unused_dependencies@, root) + dependency_keys(r.unused_dev_dependencies@, root)
        + dependency_keys(r.unused_optional_dependencies@, root) + member_keys(
        "unused-enum-member"@,
        r.unused_enum_members@,
        root,
    ) + member_keys("unused-class-member"@, r.unused_class_members@, root) + path_name_keys(
        "unresolved-import"@,
        r.unresolved_imports@,
        root,
    ) + unlisted_keys(r.unlisted_dependencies@, root) + duplicate_keys(r.duplicate_exports@, root)
        + path_name_keys("type-only-dependency"@, r.type_only_dependencies@, root) + path_name_keys(
        "test-only-dependency"@,
        r.test_only_dependencies@,
        root,
    ) + cycle_keys(r.circular_dependencies@, root) + boundary_keys(r.boundary_violations@, root)
        + stale_keys(r.stale_suppressions@, root)
}

fn path_name_keys_exec(label: &str, v: &Vec<PathNameIssue>, root: &str) -> (r: Vec<String>)
    ensures
        string_views(r@) == path_name_keys(label@, v@, root@),
{
    let mut out: Vec<String> = Vec::new();
    let mut k: usize = 0;
    while k < v.len()
        invariant
            k <= v@.len(),
            string_views(out@) == path_name_keys(label@, v@, root@).take(k as int),
        decreases v.len() - k,
    {
        let key = path_name_key_exec(label, &v[k], root);
        let ghost before = out@;
        out.push(key);
        proof {
            assert(string_views(out@) =~= string_views(before).push(key@));
            assert(path_name_keys(label@, v@, root@).take(k + 1) =~= path_name_keys(label@, v@, root@).take(k as int).push(key@));
        }
        k = k + 1;
    }
    proof {
        assert(path_name_keys(label@, v@, root@).take(k as int) =~= path_name_keys(label@, v@, root@));
    }
    out
}

fn file_keys_exec(v: &Vec<String>, root: &str) -> (r: Vec<String>)
    ensures
        string_views(r@) == file_keys(v@, root@),
{
    let mut out: Vec<String> = Vec::new();
    let mut k: usize = 0;
    while k < v.len()
        invariant
            k <= v@.len(),
            string_views(out@) == file_keys(v@, root@).take(k as int),
        decreases v.len() - k,
    {
        let key = file_key_exec(&v[k], root);
        let ghost before = out@;
        out.push(key);
        proof {
            assert(string_views(out@) =~= string_views(before).push(key@));
            assert(file_keys(v@, root@).take(k + 1) =~= file_keys(v@, root@).take(k as int).push(key@));
        }
        k = k + 1;
    }
    proof {
        assert(file_keys(v@, root@).take(k as int) =~= file_keys(v@, root@));
    }
    out
}

fn leak_keys_exec(v: &Vec<PrivateTypeLeakIssue>, root: &str) -> (r: Vec<String>)
    ensures
        string_views(r@) == leak_keys(v@, root@),
{
    let mut out: Vec<String> = Vec::new();
    let mut k: usize = 0;
    while k < v.len()
        invariant
            k <= v@.len(),
            string_views(out@) == leak_keys(v@, root@).take(k as int),
        decreases v.len() - k,
    {
        let key = leak_key_exec(&v[k], root);
        let ghost before = out@;
        out.push(key);
        proof {
            assert(string_views(out@) =~= string_views(before).push(key@));
            assert(leak_keys(v@, root@).take(k + 1) =~= leak_keys(v@, root@).take(k as int).push(key@));
        }
        k = k + 1;
    }
    proof {
        assert(leak_keys(v@, root@).take(k as int) =~= leak_keys(v@, root@));
    }
    out
}

fn dependency_keys_exec(v: &Vec<UnusedDependencyIssue>, root: &str) -> (r: Vec<String>)
    ensures
        string_views(r@) == dependency_keys(v@, root@),
{
    let mut out: Vec<String> = Vec::new();
    let mut k: usize = 0;
    while k < v.len()
        invariant
            k <= v@.len(),
            string_views(out@) == dependency_keys(v@, root@).take(k as int),
        decreases v.len() - k,
    {
        let key = dependency_key_exec(&v[k], root);
        let ghost before = out@;
        out.push(key);
        proof {
            assert(string_views(out@) =~= string_views(before).push(key@));
            assert(dependency_keys(v@, root@).take(k + 1) =~= dependency_keys(v@, root@).take(k as int).push(key@));
        }
        k = k + 1;
    }
    proof {
        assert(dependency_keys(v@, root@).take(k as int) =~= dependency_keys(v@, root@));
    }
    out
}

fn member_keys_exec(label: &str, v: &Vec<UnusedMemberIssue>, root: &str) -> (r: Vec<String>)
    ensures
        string_views(r@) == member_keys(label@, v@, root@),
{
    let mut out: Vec<String> = Vec::new();
    let mut k: usize = 0;
    while k < v.len()
        invariant
            k <= v@.len(),
            string_views(out@) == member_keys(label@, v@, root@).take(k as int),
        decreases v.len() - k,
    {
        let key = member_key_exec(label, &v[k], root);
        let ghost before = out@;
        out.push(key);
        proof {
            assert(string_views(out@) =~= string_views(before).push(key@));
            assert(member_keys(label@, v@, root@).take(k + 1) =~= member_keys(label@, v@, root@).take(k as int).push(key@));
        }
        k = k + 1;
    }
    proof {
        assert(member_keys(label@, v@, root@).take(k as int) =~= member_keys(label@, v@, root@));
    }
    out
}

fn unlisted_keys_exec(v: &Vec<UnlistedDependencyIssue>, root: &str) -> (r: Vec<String>)
    ensures
        string_views(r@) == unlisted_keys(v@, root@),
{
    let mut out: Vec<String> = Vec::new();
    let mut k: usize = 0;
    while k < v.len()
        invariant
            k <= v@.len(),
            string_views(out@) == unlisted_keys(v@, root@).take(k as int),
        decreases v.len() - k,
    {
        let key = unlisted_key_exec(&v[k], root);
        let ghost before = out@;
        out.push(key);
        proof {
            assert(string_views(out@) =~= string_views(before).push(key@));
            assert(unlisted_keys(v@, root@).take(k + 1) =~= unlisted_keys(v@, root@).take(k as int).push(key@));
        }
        k = k + 1;
    }
    proof {
        assert(unlisted_keys(v@, root@).take(k as int) =~= unlisted_keys(v@, root@));
    }
    out
}

fn duplicate_keys_exec(v: &Vec<DuplicateExportIssue>, root: &str) -> (r: Vec<String>)
    ensures
        string_views(r@) == duplicate_keys(v@, root@),
{
    let mut out: Vec<String> = Vec::new();
    let mut k: usize = 0;
    while k < v.len()
        invariant
            k <= v@.len(),
            string_views(out@) == duplicate_keys(v@, root@).take(k as int),
        decreases v.len() - k,
    {
        let key = duplicate_key_exec(&v[k], root);
        let ghost before = out@;
        out.push(key);
        proof {
            assert(string_views(out@) =~= string_views(before).push(key@));
            assert(duplicate_keys(v@, root@).take(k + 1) =~= duplicate_keys(v@, root@).take(k as int).push(key@));
        }
        k = k + 1;
    }
    proof {
        assert(duplicate_keys(v@, root@).take(k as int) =~= duplicate_keys(v@, root@));
    }
    out
}

fn cycle_keys_exec(v: &Vec<CircularDependencyIssue>, root: &str) -> (r: Vec<String>)
    ensures
        string_views(r@) == cycle_keys(v@, root@),
{
    let mut out: Vec<String> = Vec::new();
    let mut k: usize = 0;
    while k < v.len()
        invariant
            k <= v@.len(),
            string_views(out@) == cycle_keys(v@, root@).take(k as int),
        decreases v.len() - k,
    {
        let key = cycle_key_exec(&v[k], root);
        let ghost before = out@;
        out.push(key);
        proof {
            assert(string_views(out@) =~= string_views(before).push(key@));
            assert(cycle_keys(v@, root@).take(k + 1) =~= cycle_keys(v@, root@).take(k as int).push(key@));
        }
        k = k + 1;
    }
    proof {
        assert(cycle_keys(v@, root@).take(k as int) =~= cycle_keys(v@, root@));
    }
    out
}

fn boundary_keys_exec(v: &Vec<BoundaryViolationIssue>, root: &str) -> (r: Vec<String>)
    ensures
        string_views(r@) == boundary_keys(v@, root@),
{
    let mut out: Vec<String> = Vec::new();
    let mut k: usize = 0;
    while k < v.len()
        invariant
            k <= v@.len(),
            string_views(out@) == boundary_keys(v@, root@).take(k as int),
        decreases v.len() - k,
    {
        let key = boundary_key_exec(&v[k], root);
        let ghost before = out@;
        out.push(key);
        proof {
            assert(string_views(out@) =~= string_views(before).push(key@));
            assert(boundary_keys(v@, root@).take(k + 1) =~= boundary_keys(v@, root@).take(k as int).push(key@));
        }
        k = k + 1;
    }
    proof {
        assert(boundary_keys(v@, root@).take(k as int) =~= boundary_keys(v@, root@));
    }
    out
}

fn stale_keys_exec(v: &Vec<StaleSuppressionIssue>, root: &str) -> (r: Vec<String>)
    ensures
        string_views(r@) == stale_keys(v@, root@),
{
    let mut out: Vec<String> = Vec::new();
    let mut k: usize = 0;
    while k < v.len()
        invariant
            k <= v@.len(),
            string_views(out@) == stale_keys(v@, root@).take(k as int),
        decreases v.len() - k,
    {
        let key = stale_key_exec(&v[k], root);
        let ghost before = out@;
        out.push(key);
        proof {
            assert(string_views(out@) =~= string_views(before).push(key@));
            assert(stale_keys(v@, root@).take(k + 1) =~= stale_keys(v@, root@).take(k as int).push(key@));
        }
        k = k + 1;
    }
    proof {
        assert(stale_keys(v@, root@).take(k as int) =~= stale_keys(v@, root@));
    }
    out
}

fn append_strings(out: &mut Vec<String>, more: Vec<String>)
    ensures
        string_views(final(out)@) == string_views(old(out)@) + string_views(more@),
{
    let mut k: usize = 0;
    let ghost start = out@;
    while k < more.len()
        invariant
            k <= more@.len(),
            string_views(out@) == string_views(start) + string_views(more@).take(k as int),
        decreases more.len() - k,
    {
        let ghost before = out@;
        out.push(more[k].clone());
        proof {
            assert(string_views(out@) =~= string_views(before).push(more@[k as int]@));
            assert(string_views(more@).take(k + 1) =~= string_views(more@).take(k as int).push(more@[k as int]@));
        }
        k = k + 1;
    }
    proof {
        assert(string_views(more@).take(k as int) =~= string_views(more@));
    }
}

/// The keys of every issue of an analysis (the audit compares these sets
/// between the base and the current snapshot).
pub fn dead_code_keys(results: &DeadCodeResults, root: &str) -> (r: Vec<String>)
    ensures
        string_views(r@) == all_keys(*results, root@),
{
    let mut out: Vec<String> = Vec::new();
    proof {
        assert(string_views(out@) =~= Seq::<Seq<char>>::empty());
    }
    append_strings(&mut out, file_keys_exec(&results.unused_files, root));
    append_strings(&mut out, path_name_keys_exec("unused-export", &results.unused_exports, root));
    append_strings(&mut out, path_name_keys_exec("unused-type", &results.unused_types, root));
    append_strings(&mut out, leak_keys_exec(&results.private_type_leaks, root));
    append_strings(&mut out, dependency_keys_exec(&results.unused_dependencies, root));
    append_strings(&mut out, dependency_keys_exec(&results.unused_dev_dependencies, root));
    append_strings(&mut out, dependency_keys_exec(&results.unused_optional_dependencies, root));
    append_strings(&mut out, member_keys_exec("unused-enum-member", &results.unused_enum_members, root));
    append_strings(&mut out, member_keys_exec("unused-class-member", &results.unused_class_members, root));
    append_strings(&mut out, path_name_keys_exec("unresolved-import", &results.unresolved_imports, root));
    append_strings(&mut out, unlisted_keys_exec(&results.unlisted_dependencies, root));
    append_strings(&mut out, duplicate_keys_exec(&results.duplicate_exports, root));
    append_strings(&mut out, path_name_keys_exec("type-only-dependency", &results.type_only_dependencies, root));
    append_strings(&mut out, path_name_keys_exec("test-only-dependency", &results.test_only_dependencies, root));
    append_strings(&mut out, cycle_keys_exec(&results.circular_dependencies, root));
    append_strings(&mut out, boundary_keys_exec(&results.boundary_violations, root));
    append_strings(&mut out, stale_keys_exec(&results.stale_suppressions, root));
    proof {
        assert(string_views(out@) =~= all_keys(*results, root@));
    }
    out
}

// ── Introduced issues ────────────────────────────────────────────

/// For each key, whether the base snapshot lacks it (the issue is new).
pub open spec fn introduced_flags(keys: Seq<Seq<char>>, base: Seq<Seq<char>>) -> Seq<bool> {
    keys.map_values(|k: Seq<char>| !base.contains(k))
}

/// The items whose flag is set, in order.
pub open spec fn masked<T>(s: Seq<T>, m: Seq<bool>) -> Seq<T>
    decreases s.len(),
{
    if s.len() == 0 {
        Seq::empty()
    } else {
        let r = masked(s.drop_last(), m);
        if m[s.len() - 1] {
            r.push(s.last())
        } else {
            r
        }
    }
}

/// Per category, whether each issue is new relative to the base snapshot.
#[derive(Debug, Clone)]
pub struct DeadCodeFlags {
    pub unused_files: Vec<bool>,
    pub unused_exports: Vec<bool>,
    pub unused_types: Vec<bool>,
    pub private_type_leaks: Vec<bool>,
    pub unused_dependencies: Vec<bool>,
    pub unused_dev_dependencies: Vec<bool>,
    pub unused_optional_dependencies: Vec<bool>,
    pub unused_enum_members: Vec<bool>,
    pub unused_class_members: Vec<bool>,
    pub unresolved_imports: Vec<bool>,
    pub unlisted_dependencies: Vec<bool>,
    pub duplicate_exports: Vec<bool>,
    pub type_only_dependencies: Vec<bool>,
    pub test_only_dependencies: Vec<bool>,
    pub circular_dependencies: Vec<bool>,
    pub boundary_violations: Vec<bool>,
    pub stale_suppressions: Vec<bool>,
}

/// The flags of every category of an analysis against a base key list.
pub open spec fn flags_match(f: DeadCodeFlags, r: DeadCodeResults, root: Seq<char>, base: Seq<Seq<char>>) -> bool {
    &&& f.unused_files@ == introduced_flags(file_keys(r.unused_files@, root), base)
    &&& f.unused_exports@ == introduced_flags(path_name_keys("unused-export"@, r.unused_exports@, root), base)
    &&& f.unused_types@ == introduced_flags(path_name_keys("unused-type"@, r.unused_types@, root), base)
    &&& f.private_type_leaks@ == introduced_flags(leak_keys(r.private_type_leaks@, root), base)
    &&& f.unused_dependencies@ == introduced_flags(dependency_keys(r.unused_dependencies@, root), base)
    &&& f.unused_dev_dependencies@ == introduced_flags(dependency_keys(r.unused_dev_dependencies@, root), base)
    &&& f.unused_optional_dependencies@ == introduced_flags(dependency_keys(r.unused_optional_dependencies@, root), base)
    &&& f.unused_enum_members@ == introduced_flags(member_keys("unused-enum-member"@, r.unused_enum_members@, root), base)
    &&& f.unused_class_members@ == introduced_flags(member_keys("unused-class-member"@, r.unused_class_members@, root), base)
    &&& f.unresolved_imports@ == introduced_flags(path_name_keys("unresolved-import"@, r.unresolved_imports@, root), base)
    &&& f.unlisted_dependencies@ == introduced_flags(unlisted_keys(r.unlisted_dependencies@, root), base)
    &&& f.duplicate_exports@ == introduced_flags(duplicate_keys(r.duplicate_exports@, root), base)
    &&& f.type_only_dependencies@ == introduced_flags(path_name_keys("type-only-dependency"@, r.type_only_dependencies@, root), base)
    &&& f.test_only_dependencies@ == introduced_flags(path_name_keys("test-only-dependency"@, r.test_only_dependencies@, root), base)
    &&& f.circular_dependencies@ == introduced_flags(cycle_keys(r.circular_dependencies@, root), base)
    &&& f.boundary_violations@ == introduced_flags(boundary_keys(r.boundary_violations@, root), base)
    &&& f.stale_suppressions@ == introduced_flags(stale_keys(r.stale_suppressions@, root), base)
}

/// `new` keeps, in each category of `r`, exactly the issues absent from the base.
pub open spec fn retained_from(new: DeadCodeResults, r: DeadCodeResults, root: Seq<char>, base: Seq<Seq<char>>) -> bool {
    &&& new.unused_files@ == masked(r.unused_files@, introduced_flags(file_keys(r.unused_files@, root), base))
    &&& new.unused_exports@ == masked(r.unused_exports@, introduced_flags(path_name_keys("unused-export"@, r.unused_exports@, root), base))
    &&& new.unused_types@ == masked(r.unused_types@, introduced_flags(path_name_keys("unused-type"@, r.unused_types@, root), base))
    &&& new.private_type_leaks@ == masked(r.private_type_leaks@, introduced_flags(leak_keys(r.private_type_leaks@, root), base))
    &&& new.unused_dependencies@ == masked(r.unused_dependencies@, introduced_flags(dependency_keys(r.unused_dependencies@, root), base))
    &&& new.unused_dev_dependencies@ == masked(r.unused_dev_dependencies@, introduced_flags(dependency_keys(r.unused_dev_dependencies@, root), base))
    &&& new.unused_optional_dependencies@ == masked(r.unused_optional_dependencies@, introduced_flags(dependency_keys(r.unused_optional_dependencies@, root), base))
    &&& new.unused_enum_members@ == masked(r.unused_enum_members@, introduced_flags(member_keys("unused-enum-member"@, r.unused_enum_members@, root), base))
    &&& new.unused_class_members@ == masked(r.unused_class_members@, introduced_flags(member_keys("unused-class-member"@, r.unused_class_members@, root), base))
    &&& new.unresolved_imports@ == masked(r.unresolved_imports@, introduced_flags(path_name_keys("unresolved-import"@, r.unresolved_imports@, root), base))
    &&& new.unlisted_dependencies@ == masked(r.unlisted_dependencies@, introduced_flags(unlisted_keys(r.unlisted_dependencies@, root), base))
    &&& new.duplicate_exports@ == masked(r.duplicate_exports@, introduced_flags(duplicate_keys(r.duplicate_exports@, root), base))
    &&& new.type_only_dependencies@ == masked(r.type_only_dependencies@, introduced_flags(path_name_keys("type-only-dependency"@, r.type_only_dependencies@, root), base))
    &&& new.test_only_dependencies@ == masked(r.test_only_dependencies@, introduced_flags(path_name_keys("test-only-dependency"@, r.test_only_dependencies@, root), base))
    &&& new.circular_dependencies@ == masked(r.circular_dependencies@, introduced_flags(cycle_keys(r.circular_dependencies@, root), base))
    &&& new.boundary_violations@ == masked(r.boundary_violations@, introduced_flags(boundary_keys(r.boundary_violations@, root), base))
    &&& new.stale_suppressions@ == masked(r.stale_suppressions@, introduced_flags(stale_keys(r.stale_suppressions@, root), base))
}

fn in_base(key: &String, base: &Vec<String>) -> (b: bool)
    ensures
        b == string_views(base@).contains(key@),
{
    let mut i: usize = 0;
    while i < base.len()
        invariant
            i <= base@.len(),
            forall|j: int| 0 <= j < i ==> string_views(base@)[j] != key@,
        decreases base.len() - i,
    {
        if base[i] == *key {
            proof {
                assert(string_views(base@)[i as int] == key@);
            }
            return true;
        }
        i = i + 1;
    }
    false
}

pub(crate) fn flags_of(keys: &Vec<String>, base: &Vec<String>) -> (r: Vec<bool>)
    ensures
        r@ == introduced_flags(string_views(keys@), string_views(base@)),
{
    let mut out: Vec<bool> = Vec::new();
    let mut i: usize = 0;
    while i < keys.len()
        invariant
            i <= keys@.len(),
            out@ == introduced_flags(string_views(keys@), string_views(base@)).take(i as int),
        decreases keys.len() - i,
    {
        let f = !in_base(&keys[i], base);
        out.push(f);
        proof {
            assert(introduced_flags(string_views(keys@), string_views(base@)).take(i + 1)
                =~= introduced_flags(string_views(keys@), string_views(base@)).take(i as int).push(f));
        }
        i = i + 1;
    }
    proof {
        assert(introduced_flags(string_views(keys@), string_views(base@)).take(i as int)
            =~= introduced_flags(string_views(keys@), string_views(base@)));
    }
    out
}

/// Whether each issue of an analysis is new relative to the base keys
/// (what the audit's JSON output marks as `introduced`).
pub fn dead_code_introduced(results: &DeadCodeResults, root: &str, base: &Vec<String>) -> (r: DeadCodeFlags)
    ensures
        flags_match(r, *results, root@, string_views(base@)),
{
    DeadCodeFlags {
        unused_files: flags_of(&file_keys_exec(&results.unused_files, root), base),
        unused_exports: flags_of(&path_name_keys_exec("unused-export", &results.unused_exports, root), base),
        unused_types: flags_of(&path_name_keys_exec("unused-type", &results.unused_types, root), base),
        private_type_leaks: flags_of(&leak_keys_exec(&results.private_type_leaks, root), base),
        unused_dependencies: flags_of(&dependency_keys_exec(&results.unused_dependencies, root), base),
        unused_dev_dependencies: flags_of(&dependency_keys_exec(&results.unused_dev_dependencies, root), base),
        unused_optional_dependencies: flags_of(&dependency_keys_exec(&results.unused_optional_dependencies, root), base),
        unused_enum_members: flags_of(&member_keys_exec("unused-enum-member", &results.unused_enum_members, root), base),
        unused_class_members: flags_of(&member_keys_exec("unused-class-member", &results.unused_class_members, root), base),
        unresolved_imports: flags_of(&path_name_keys_exec("unresolved-import", &results.unresolved_imports, root), base),
        unlisted_dependencies: flags_of(&unlisted_keys_exec(&results.unlisted_dependencies, root), base),
        duplicate_exports: flags_of(&duplicate_keys_exec(&results.duplicate_exports, root), base),
        type_only_dependencies: flags_of(&path_name_keys_exec("type-only-dependency", &results.type_only_dependencies, root), base),
        test_only_dependencies: flags_of(&path_name_keys_exec("test-only-dependency", &results.test_only_dependencies, root), base),
        circular_dependencies: flags_of(&cycle_keys_exec(&results.circular_dependencies, root), base),
        boundary_violations: flags_of(&boundary_keys_exec(&results.boundary_violations, root), base),
        stale_suppressions: flags_of(&stale_keys_exec(&results.stale_suppressions, root), base),
    }
}

proof fn lemma_masked_prefix<T>(s: Seq<T>, m: Seq<bool>, k: int)
    requires
        0 <= k < s.len(),
    ensures
        masked(s.take(k + 1), m) == (if m[k] {
            masked(s.take(k), m).push(s[k])
        } else {
            masked(s.take(k), m)
        }),
{
    assert(s.take(k + 1).drop_last() =~= s.take(k));
}

pub(crate) fn retain_mask<T>(v: &mut Vec<T>, keep: &Vec<bool>)
    requires
        keep@.len() == old(v)@.len(),
    ensures
        final(v)@ == masked(old(v)@, keep@),
{
    let ghost orig = v@;
    let mut items: Vec<T> = Vec::new();
    std::mem::swap(&mut items, v);
    let n = items.len();
    let mut rev: Vec<T> = Vec::new();
    while items.len() > 0
        invariant
            items@ == orig.take(items@.len() as int),
            items@.len() + rev@.len() == n,
            n == orig.len(),
            forall|j: int| 0 <= j < rev@.len() ==> #[trigger] rev@[j] == orig[n - 1 - j],
        decreases items.len(),
    {
        let x = items.pop().unwrap();
        rev.push(x);
        proof {
            assert(items@ =~= orig.take(items@.len() as int));
        }
    }
    let mut out: Vec<T> = Vec::new();
    let mut i: usize = 0;
    proof {
        assert(orig.take(0) =~= Seq::<T>::empty());
    }
    while i < n
        invariant
            i <= n,
            n == orig.len(),
            keep@.len() == n,
            rev@.len() == n - i,
            forall|j: int| 0 <= j < rev@.len() ==> #[trigger] rev@[j] == orig[n - 1 - j],
            out@ == masked(orig.take(i as int), keep@),
        decreases n - i,
    {
        let x = rev.pop().unwrap();
        proof {
            lemma_masked_prefix(orig, keep@, i as int);
        }
        if keep[i] {
            out.push(x);
        }
        i = i + 1;
    }
    proof {
        assert(orig.take(n as int) =~= orig);
    }
    *v = out;
}

/// Keep only the issues a change introduced: with a base snapshot, drop
/// every issue whose key the base already holds; without one, keep all.
pub fn retain_introduced_dead_code(results: &mut DeadCodeResults, root: &str, base: Option<&Vec<String>>)
    ensures
        match base {
            None => *final(results) == *old(results),
            Some(b) => retained_from(*final(results), *old(results), root@, string_views(b@)),
        },
{
    let base = match base {
        Some(b) => b,
        None => return,
    };
    let flags = dead_code_introduced(results, root, base);
    retain_mask(&mut results.unused_files, &flags.unused_files);
    retain_mask(&mut results.unused_exports, &flags.unused_exports);
    retain_mask(&mut results.unused_types, &flags.unused_types);
    retain_mask(&mut results.private_type_leaks, &flags.private_type_leaks);
    retain_mask(&mut results.unused_dependencies, &flags.unused_dependencies);
    retain_mask(&mut results.unused_dev_dependencies, &flags.unused_dev_dependencies);
    retain_mask(&mut results.unused_optional_dependencies, &flags.unused_optional_dependencies);
    retain_mask(&mut results.unused_enum_members, &flags.unused_enum_members);
    retain_mask(&mut results.unused_class_members, &flags.unused_class_members);
    retain_mask(&mut results.unresolved_imports, &flags.unresolved_imports);
    retain_mask(&mut results.unlisted_dependencies, &flags.unlisted_dependencies);
    retain_mask(&mut results.duplicate_exports, &flags.duplicate_exports);
    retain_mask(&mut results.type_only_dependencies, &flags.type_only_dependencies);
    retain_mask(&mut results.test_only_dependencies, &flags.test_only_dependencies);
    retain_mask(&mut results.circular_dependencies, &flags.circular_dependencies);
    retain_mask(&mut results.boundary_violations, &flags.boundary_violations);
    retain_mask(&mut results.stale_suppressions, &flags.stale_suppressions);
}

// ── Health finding keys ──────────────────────────────────────────

/// The `Debug` name of an exceeded threshold.
pub open spec fn exceeded_name(e: crate::scores::ExceededThreshold) -> Seq<char> {
    match e {
        crate::scores::ExceededThreshold::Cyclomatic => "Cyclomatic"@,
        crate::scores::ExceededThreshold::Cognitive => "Cognitive"@,
        crate::scores::ExceededThreshold::Both => "Both"@,
    }
}

/// The key of a complexity finding: `complexity:path:name:Threshold`.
pub open spec fn finding_key(f: crate::scores::HealthFinding, root: Seq<char>) -> Seq<char> {
    path_key("complexity"@, f.path@, root) + seq![':'] + f.name@ + seq![':'] + exceeded_name(f.exceeded)
}

/// The key identifying a complexity finding across audit snapshots.
pub fn health_finding_key(finding: &crate::scores::HealthFinding, root: &str) -> (r: String)
    ensures
        r@ == finding_key(*finding, root@),
{
    let mut v: Vec<char> = Vec::new();
    push_path_key(&mut v, "complexity", &finding.path, root);
    v.push(':');
    push_str(&mut v, finding.name.as_str());
    v.push(':');
    push_str(
        &mut v,
        match finding.exceeded {
            crate::scores::ExceededThreshold::Cyclomatic => "Cyclomatic",
            crate::scores::ExceededThreshold::Cognitive => "Cognitive",
            crate::scores::ExceededThreshold::Both => "Both",
        },
    );
    proof {
        assert(v@ =~= finding_key(*finding, root@));
    }
    chars_to_string(v.as_slice())
}

/// The keys of a health report's findings, in order.
pub fn health_keys(findings: &Vec<crate::scores::HealthFinding>, root: &str) -> (r: Vec<String>)
    ensures
        string_views(r@) == findings@.map_values(|f: crate::scores::HealthFinding| finding_key(f, root@)),
{
    let ghost ks = findings@.map_values(|f: crate::scores::HealthFinding| finding_key(f, root@));
    let mut out: Vec<String> = Vec::new();
    let mut k: usize = 0;
    while k < findings.len()
        invariant
            ks == findings@.map_values(|f: crate::scores::HealthFinding| finding_key(f, root@)),
            k <= findings@.len(),
            string_views(out@) == ks.take(k as int),
        decreases findings.len() - k,
    {
        let key = health_finding_key(&findings[k], root);
        let ghost before = out@;
        out.push(key);
        proof {
            assert(string_views(out@) =~= string_views(before).push(key@));
            assert(ks.take(k + 1) =~= ks.take(k as int).push(key@));
        }
        k = k + 1;
    }
    proof {
        assert(ks.take(k as int) =~= ks);
    }
    out
}

// ── Issue-type filters ───────────────────────────────────────────

/// `results` restricted to the requested issue types: with no filter
/// active nothing changes; otherwise each category not requested is
/// emptied (`unused_deps` covers dependencies and dev dependencies).
pub open spec fn filtered(new: DeadCodeResults, old: DeadCodeResults, f: crate::inputs::IssueFilters) -> bool {
    let active = f.unused_files || f.unused_exports || f.unused_deps || f.unused_types
        || f.unused_enum_members || f.unused_class_members || f.unresolved_imports
        || f.unlisted_deps || f.duplicate_exports;
    &&& new.unused_files@ == (if active && !f.unused_files { Seq::empty() } else { old.unused_files@ })
    &&& new.unused_exports@ == (if active && !f.unused_exports { Seq::empty() } else { old.unused_exports@ })
    &&& new.unused_types@ == (if active && !f.unused_types { Seq::empty() } else { old.unused_types@ })
    &&& new.unused_dependencies@ == (if active && !f.unused_deps { Seq::empty() } else { old.unused_dependencies@ })
    &&& new.unused_dev_dependencies@ == (if active && !f.unused_deps { Seq::empty() } else { old.unused_dev_dependencies@ })
    &&& new.unused_enum_members@ == (if active && !f.unused_enum_members { Seq::empty() } else { old.unused_enum_members@ })
    &&& new.unused_class_members@ == (if active && !f.unused_class_members { Seq::empty() } else { old.unused_class_members@ })
    &&& new.unresolved_imports@ == (if active && !f.unresolved_imports { Seq::empty() } else { old.unresolved_imports@ })
    &&& new.unlisted_dependencies@ == (if active && !f.unlisted_deps { Seq::empty() } else { old.unlisted_dependencies@ })
    &&& new.duplicate_exports@ == (if active && !f.duplicate_exports { Seq::empty() } else { old.duplicate_exports@ })
    &&& new.private_type_leaks@ == old.private_type_leaks@
    &&& new.unused_optional_dependencies@ == old.unused_optional_dependencies@
    &&& new.type_only_dependencies@ == old.type_only_dependencies@
    &&& new.test_only_dependencies@ == old.test_only_dependencies@
    &&& new.circular_dependencies@ == old.circular_dependencies@
    &&& new.boundary_violations@ == old.boundary_violations@
    &&& new.stale_suppressions@ == old.stale_suppressions@
}

impl crate::inputs::IssueFilters {
    /// When any filter is active, clear the issue types that were not requested.
    pub fn apply(&self, results: &mut DeadCodeResults)
        ensures
            filtered(*final(results), *old(results), *self),
    {
        if !self.any_active() {
            return;
        }
        if !self.unused_files {
            results.unused_files.clear();
        }
        if !self.unused_exports {
            results.unused_exports.clear();
        }
        if !self.unused_types {
            results.unused_types.clear();
        }
        if !self.unused_deps {
            results.unused_dependencies.clear();
            results.unused_dev_dependencies.clear();
        }
        if !self.unused_enum_members {
            results.unused_enum_members.clear();
        }
        if !self.unused_class_members {
            results.unused_class_members.clear();
        }
        if !self.unresolved_imports {
            results.unresolved_imports.clear();
        }
        if !self.unlisted_deps {
            results.unlisted_dependencies.clear();
        }
        if !self.duplicate_exports {
            results.duplicate_exports.clear();
        }
    }
}

// ── Laws ─────────────────────────────────────────────────────────

/// Every item kept by a mask whose flags say "absent from the base" has a
/// key absent from the base.
pub proof fn lemma_masked_keys_new<T>(s: Seq<T>, key: spec_fn(T) -> Seq<char>, base: Seq<Seq<char>>)
    ensures
        forall|j: int|
            0 <= j < masked(s, introduced_flags(s.map_values(key), base)).len() ==> !base.contains(
                key(#[trigger] masked(s, introduced_flags(s.map_values(key), base))[j]),
            ),
    decreases s.len(),
{
    let flags = introduced_flags(s.map_values(key), base);
    if s.len() > 0 {
        let t = s.drop_last();
        lemma_masked_keys_new(t, key, base);
        let tf = introduced_flags(t.map_values(key), base);
        assert forall|k: int| 0 <= k < t.len() implies #[trigger] tf[k] == flags[k] by {
            assert(t.map_values(key)[k] == s.map_values(key)[k]);
        }
        assert(masked(t, flags) == masked(t, tf)) by {
            lemma_masked_same_prefix_flags(t, flags, tf);
        }
        let m = masked(s, flags);
        assert forall|j: int| 0 <= j < m.len() implies !base.contains(key(#[trigger] m[j])) by {
            if flags[s.len() - 1] {
                if j == m.len() - 1 {
                    assert(m[j] == s.last());
                    assert(s.map_values(key)[s.len() - 1] == key(s.last()));
                } else {
                    assert(m[j] == masked(t, tf)[j]);
                }
            } else {
                assert(m[j] == masked(t, tf)[j]);
            }
        }
    }
}

proof fn lemma_masked_same_prefix_flags<T>(s: Seq<T>, a: Seq<bool>, b: Seq<bool>)
    requires
        forall|k: int| 0 <= k < s.len() ==> #[trigger] a[k] == b[k],
    ensures
        masked(s, a) == masked(s, b),
    decreases s.len(),
{
    if s.len() > 0 {
        lemma_masked_same_prefix_flags(s.drop_last(), a, b);
    }
}

/// After `retain_introduced_dead_code`, every issue left, in every
/// category, has a key the base snapshot lacks: what an audit reports as
/// introduced is new.
pub proof fn lemma_retained_issues_are_new(
    new: DeadCodeResults,
    old: DeadCodeResults,
    root: Seq<char>,
    base: Seq<Seq<char>>,
)
    requires
        retained_from(new, old, root, base),
    ensures
        forall|j: int| 0 <= j < new.unused_files@.len() ==> !base.contains(path_key("unused-file"@, (#[trigger] new.unused_files@[j])@, root)),
        forall|j: int| 0 <= j < new.unused_exports@.len() ==> !base.contains(path_name_key("unused-export"@, #[trigger] new.unused_exports@[j], root)),
        forall|j: int| 0 <= j < new.unused_types@.len() ==> !base.contains(path_name_key("unused-type"@, #[trigger] new.unused_types@[j], root)),
        forall|j: int| 0 <= j < new.private_type_leaks@.len() ==> !base.contains(leak_key(#[trigger] new.private_type_leaks@[j], root)),
        forall|j: int| 0 <= j < new.unused_dependencies@.len() ==> !base.contains(dependency_key(#[trigger] new.unused_dependencies@[j], root)),
        forall|j: int| 0 <= j < new.unused_dev_dependencies@.len() ==> !base.contains(dependency_key(#[trigger] new.unused_dev_dependencies@[j], root)),
        forall|j: int| 0 <= j < new.unused_optional_dependencies@.len() ==> !base.contains(dependency_key(#[trigger] new.unused_optional_dependencies@[j], root)),
        forall|j: int| 0 <= j < new.unused_enum_members@.len() ==> !base.contains(member_key("unused-enum-member"@, #[trigger] new.unused_enum_members@[j], root)),
        forall|j: int| 0 <= j < new.unused_class_members@.len() ==> !base.contains(member_key("unused-class-member"@, #[trigger] new.unused_class_members@[j], root)),
        forall|j: int| 0 <= j < new.unresolved_imports@.len() ==> !base.contains(path_name_key("unresolved-import"@, #[trigger] new.unresolved_imports@[j], root)),
        forall|j: int| 0 <= j < new.unlisted_dependencies@.len() ==> !base.contains(unlisted_key(#[trigger] new.unlisted_dependencies@[j], root)),
        forall|j: int| 0 <= j < new.duplicate_exports@.len() ==> !base.contains(duplicate_key(#[trigger] new.duplicate_exports@[j], root)),
        forall|j: int| 0 <= j < new.type_only_dependencies@.len() ==> !base.contains(path_name_key("type-only-dependency"@, #[trigger] new.type_only_dependencies@[j], root)),
        forall|j: int| 0 <= j < new.test_only_dependencies@.len() ==> !base.contains(path_name_key("test-only-dependency"@, #[trigger] new.test_only_dependencies@[j], root)),
        forall|j: int| 0 <= j < new.circular_dependencies@.len() ==> !base.contains(cycle_key(#[trigger] new.circular_dependencies@[j], root)),
        forall|j: int| 0 <= j < new.boundary_violations@.len() ==> !base.contains(boundary_key(#[trigger] new.boundary_violations@[j], root)),
        forall|j: int| 0 <= j < new.stale_suppressions@.len() ==> !base.contains(stale_key(#[trigger] new.stale_suppressions@[j], root)),
{
    lemma_masked_keys_new(old.unused_files@, |p: String| path_key("unused-file"@, p@, root), base);
    lemma_masked_keys_new(old.unused_exports@, |i: PathNameIssue| path_name_key("unused-export"@, i, root), base);
    lemma_masked_keys_new(old.unused_types@, |i: PathNameIssue| path_name_key("unused-type"@, i, root), base);
    lemma_masked_keys_new(old.private_type_leaks@, |i: PrivateTypeLeakIssue| leak_key(i, root), base);
    lemma_masked_keys_new(old.unused_dependencies@, |i: UnusedDependencyIssue| dependency_key(i, root), base);
    lemma_masked_keys_new(old.unused_dev_dependencies@, |i: UnusedDependencyIssue| dependency_key(i, root), base);
    lemma_masked_keys_new(old.unused_optional_dependencies@, |i: UnusedDependencyIssue| dependency_key(i, root), base);
    lemma_masked_keys_new(old.unused_enum_members@, |i: UnusedMemberIssue| member_key("unused-enum-member"@, i, root), base);
    lemma_masked_keys_new(old.unused_class_members@, |i: UnusedMemberIssue| member_key("unused-class-member"@, i, root), base);
    lemma_masked_keys_new(old.unresolved_imports@, |i: PathNameIssue| path_name_key("unresolved-import"@, i, root), base);
    lemma_masked_keys_new(old.unlisted_dependencies@, |i: UnlistedDependencyIssue| unlisted_key(i, root), base);
    lemma_masked_keys_new(old.duplicate_exports@, |i: DuplicateExportIssue| duplicate_key(i, root), base);
    lemma_masked_keys_new(old.type_only_dependencies@, |i: PathNameIssue| path_name_key("type-only-dependency"@, i, root), base);
    lemma_masked_keys_new(old.test_only_dependencies@, |i: PathNameIssue| path_name_key("test-only-dependency"@, i, root), base);
    lemma_masked_keys_new(old.circular_dependencies@, |i: CircularDependencyIssue| cycle_key(i, root), base);
    lemma_masked_keys_new(old.boundary_violations@, |i: BoundaryViolationIssue| boundary_key(i, root), base);
    lemma_masked_keys_new(old.stale_suppressions@, |i: StaleSuppressionIssue| stale_key(i, root), base);
}


/// No issue of any category is flagged as introduced.
pub open spec fn no_flag_set(f: DeadCodeFlags) -> bool {
    &&& forall|i: int| 0 <= i < f.unused_files@.len() ==> !#[trigger] f.unused_files@[i]
    &&& forall|i: int| 0 <= i < f.unused_exports@.len() ==> !#[trigger] f.unused_exports@[i]
    &&& forall|i: int| 0 <= i < f.unused_types@.len() ==> !#[trigger] f.unused_types@[i]
    &&& forall|i: int| 0 <= i < f.private_type_leaks@.len() ==> !#[trigger] f.private_type_leaks@[i]
    &&& forall|i: int| 0 <= i < f.unused_dependencies@.len() ==> !#[trigger] f.unused_dependencies@[i]
    &&& forall|i: int| 0 <= i < f.unused_dev_dependencies@.len() ==> !#[trigger] f.unused_dev_dependencies@[i]
    &&& forall|i: int| 0 <= i < f.unused_optional_dependencies@.len() ==> !#[trigger] f.unused_optional_dependencies@[i]
    &&& forall|i: int| 0 <= i < f.unused_enum_members@.len() ==> !#[trigger] f.unused_enum_members@[i]
    &&& forall|i: int| 0 <= i < f.unused_class_members@.len() ==> !#[trigger] f.unused_class_members@[i]
    &&& forall|i: int| 0 <= i < f.unresolved_imports@.len() ==> !#[trigger] f.unresolved_imports@[i]
    &&& forall|i: int| 0 <= i < f.unlisted_dependencies@.len() ==> !#[trigger] f.unlisted_dependencies@[i]
    &&& forall|i: int| 0 <= i < f.duplicate_exports@.len() ==> !#[trigger] f.duplicate_exports@[i]
    &&& forall|i: int| 0 <= i < f.type_only_dependencies@.len() ==> !#[trigger] f.type_only_dependencies@[i]
    &&& forall|i: int| 0 <= i < f.test_only_dependencies@.len() ==> !#[trigger] f.test_only_dependencies@[i]
    &&& forall|i: int| 0 <= i < f.circular_dependencies@.len() ==> !#[trigger] f.circular_dependencies@[i]
    &&& forall|i: int| 0 <= i < f.boundary_violations@.len() ==> !#[trigger] f.boundary_violations@[i]
    &&& forall|i: int| 0 <= i < f.stale_suppressions@.len() ==> !#[trigger] f.stale_suppressions@[i]
}

/// Every category of issues is empty.
pub open spec fn no_issues(r: DeadCodeResults) -> bool {
    &&& r.unused_files@.len() == 0
    &&& r.unused_exports@.len() == 0
    &&& r.unused_types@.len() == 0
    &&& r.private_type_leaks@.len() == 0
    &&& r.unused_dependencies@.len() == 0
    &&& r.unused_dev_dependencies@.len() == 0
    &&& r.unused_optional_dependencies@.len() == 0
    &&& r.unused_enum_members@.len() == 0
    &&& r.unused_class_members@.len() == 0
    &&& r.unresolved_imports@.len() == 0
    &&& r.unlisted_dependencies@.len() == 0
    &&& r.duplicate_exports@.len() == 0
    &&& r.type_only_dependencies@.len() == 0
    &&& r.test_only_dependencies@.len() == 0
    &&& r.circular_dependencies@.len() == 0
    &&& r.boundary_violations@.len() == 0
    &&& r.stale_suppressions@.len() == 0
}

/// Every key of `ks` is in `all`.
pub open spec fn all_known(ks: Seq<Seq<char>>, all: Seq<Seq<char>>) -> bool {
    forall|i: int| 0 <= i < ks.len() ==> all.contains(#[trigger] ks[i])
}

proof fn lemma_part_known(ks: Seq<Seq<char>>, all: Seq<Seq<char>>)
    requires
        forall|x: Seq<char>| ks.contains(x) ==> #[trigger] all.contains(x),
    ensures
        all_known(ks, all),
{
    assert forall|i: int| 0 <= i < ks.len() implies all.contains(#[trigger] ks[i]) by {
        assert(ks.contains(ks[i]));
    }
}

proof fn lemma_keys_known(ks: Seq<Seq<char>>, base: Seq<Seq<char>>)
    requires
        all_known(ks, base),
    ensures
        forall|i: int| 0 <= i < ks.len() ==> !#[trigger] introduced_flags(ks, base)[i],
{
}

proof fn lemma_masked_none<T>(s: Seq<T>, m: Seq<bool>)
    requires
        forall|i: int| 0 <= i < s.len() ==> !#[trigger] m[i],
    ensures
        masked(s, m).len() == 0,
    decreases s.len(),
{
    if s.len() > 0 {
        assert(!m[s.len() - 1]);
        lemma_masked_none(s.drop_last(), m);
    }
}

proof fn lemma_every_key_in_all(r: DeadCodeResults, root: Seq<char>)
    ensures
        all_known(file_keys(r.unused_files@, root), all_keys(r, root)),
        all_known(path_name_keys("unused-export"@, r.unused_exports@, root), all_keys(r, root)),
        all_known(path_name_keys("unused-type"@, r.unused_types@, root), all_keys(r, root)),
        all_known(leak_keys(r.private_type_leaks@, root), all_keys(r, root)),
        all_known(dependency_keys(r.unused_dependencies@, root), all_keys(r, root)),
        all_known(dependency_keys(r.unused_dev_dependencies@, root), all_keys(r, root)),
        all_known(dependency_keys(r.unused_optional_dependencies@, root), all_keys(r, root)),
        all_known(member_keys("unused-enum-member"@, r.unused_enum_members@, root), all_keys(r, root)),
        all_known(member_keys("unused-class-member"@, r.unused_class_members@, root), all_keys(r, root)),
        all_known(path_name_keys("unresolved-import"@, r.unresolved_imports@, root), all_keys(r, root)),
        all_known(unlisted_keys(r.unlisted_dependencies@, root), all_keys(r, root)),
        all_known(duplicate_keys(r.duplicate_exports@, root), all_keys(r, root)),
        all_known(path_name_keys("type-only-dependency"@, r.type_only_dependencies@, root), all_keys(r, root)),
        all_known(path_name_keys("test-only-dependency"@, r.test_only_dependencies@, root), all_keys(r, root)),
        all_known(cycle_keys(r.circular_dependencies@, root), all_keys(r, root)),
        all_known(boundary_keys(r.boundary_violations@, root), all_keys(r, root)),
        all_known(stale_keys(r.stale_suppressions@, root), all_keys(r, root)),
{
    broadcast use vstd::seq_lib::lemma_seq_concat_contains_all_elements;

    lemma_part_known(file_keys(r.unused_files@, root), all_keys(r, root));
    lemma_part_known(path_name_keys("unused-export"@, r.unused_exports@, root), all_keys(r, root));
    lemma_part_known(path_name_keys("unused-type"@, r.unused_types@, root), all_keys(r, root));
    lemma_part_known(leak_keys(r.private_type_leaks@, root), all_keys(r, root));
    lemma_part_known(dependency_keys(r.unused_dependencies@, root), all_keys(r, root));
    lemma_part_known(dependency_keys(r.unused_dev_dependencies@, root), all_keys(r, root));
    lemma_part_known(dependency_keys(r.unused_optional_dependencies@, root), all_keys(r, root));
    lemma_part_known(member_keys("unused-enum-member"@, r.unused_enum_members@, root), all_keys(r, root));
    lemma_part_known(member_keys("unused-class-member"@, r.unused_class_members@, root), all_keys(r, root));
    lemma_part_known(path_name_keys("unresolved-import"@, r.unresolved_imports@, root), all_keys(r, root));
    lemma_part_known(unlisted_keys(r.unlisted_dependencies@, root), all_keys(r, root));
    lemma_part_known(duplicate_keys(r.duplicate_exports@, root), all_keys(r, root));
    lemma_part_known(path_name_keys("type-only-dependency"@, r.type_only_dependencies@, root), all_keys(r, root));
    lemma_part_known(path_name_keys("test-only-dependency"@, r.test_only_dependencies@, root), all_keys(r, root));
    lemma_part_known(cycle_keys(r.circular_dependencies@, root), all_keys(r, root));
    lemma_part_known(boundary_keys(r.boundary_violations@, root), all_keys(r, root));
    lemma_part_known(stale_keys(r.stale_suppressions@, root), all_keys(r, root));
}

/// Against a base holding every current key (as `dead_code_keys` lists
/// them), no issue of any category is flagged as introduced.
pub proof fn lemma_own_base_flags_nothing(f: DeadCodeFlags, r: DeadCodeResults, root: Seq<char>)
    requires
        flags_match(f, r, root, all_keys(r, root)),
    ensures
        no_flag_set(f),
{
    let all = all_keys(r, root);
    lemma_every_key_in_all(r, root);
    lemma_keys_known(file_keys(r.unused_files@, root), all);
    lemma_keys_known(path_name_keys("unused-export"@, r.unused_exports@, root), all);
    lemma_keys_known(path_name_keys("unused-type"@, r.unused_types@, root), all);
    lemma_keys_known(leak_keys(r.private_type_leaks@, root), all);
    lemma_keys_known(dependency_keys(r.unused_dependencies@, root), all);
    lemma_keys_known(dependency_keys(r.unused_dev_dependencies@, root), all);
    lemma_keys_known(dependency_keys(r.unused_optional_dependencies@, root), all);
    lemma_keys_known(member_keys("unused-enum-member"@, r.unused_enum_members@, root), all);
    lemma_keys_known(member_keys("unused-class-member"@, r.unused_class_members@, root), all);
    lemma_keys_known(path_name_keys("unresolved-import"@, r.unresolved_imports@, root), all);
    lemma_keys_known(unlisted_keys(r.unlisted_dependencies@, root), all);
    lemma_keys_known(duplicate_keys(r.duplicate_exports@, root), all);
    lemma_keys_known(path_name_keys("type-only-dependency"@, r.type_only_dependencies@, root), all);
    lemma_keys_known(path_name_keys("test-only-dependency"@, r.test_only_dependencies@, root), all);
    lemma_keys_known(cycle_keys(r.circular_dependencies@, root), all);
    lemma_keys_known(boundary_keys(r.boundary_violations@, root), all);
    lemma_keys_known(stale_keys(r.stale_suppressions@, root), all);
}

/// Retaining the introduced issues against a base holding every current
/// key (as `dead_code_keys` lists them) empties every category, so no key
/// is left.
pub proof fn lemma_own_base_retains_nothing(new: DeadCodeResults, old: DeadCodeResults, root: Seq<char>)
    requires
        retained_from(new, old, root, all_keys(old, root)),
    ensures
        no_issues(new),
        all_keys(new, root).len() == 0,
{
    let all = all_keys(old, root);
    lemma_every_key_in_all(old, root);
    lemma_keys_known(file_keys(old.unused_files@, root), all);
    lemma_masked_none(old.unused_files@, introduced_flags(file_keys(old.unused_files@, root), all));
    lemma_keys_known(path_name_keys("unused-export"@, old.unused_exports@, root), all);
    lemma_masked_none(old.unused_exports@, introduced_flags(path_name_keys("unused-export"@, old.unused_exports@, root), all));
    lemma_keys_known(path_name_keys("unused-type"@, old.unused_types@, root), all);
    lemma_masked_none(old.unused_types@, introduced_flags(path_name_keys("unused-type"@, old.unused_types@, root), all));
    lemma_keys_known(leak_keys(old.private_type_leaks@, root), all);
    lemma_masked_none(old.private_type_leaks@, introduced_flags(leak_keys(old.private_type_leaks@, root), all));
    lemma_keys_known(dependency_keys(old.unused_dependencies@, root), all);
    lemma_masked_none(old.unused_dependencies@, introduced_flags(dependency_keys(old.unused_dependencies@, root), all));
    lemma_keys_known(dependency_keys(old.unused_dev_dependencies@, root), all);
    lemma_masked_none(old.unused_dev_dependencies@, introduced_flags(dependency_keys(old.unused_dev_dependencies@, root), all));
    lemma_keys_known(dependency_keys(old.unused_optional_dependencies@, root), all);
    lemma_masked_none(old.unused_optional_dependencies@, introduced_flags(dependency_keys(old.unused_optional_dependencies@, root), all));
    lemma_keys_known(member_keys("unused-enum-member"@, old.unused_enum_members@, root), all);
    lemma_masked_none(old.unused_enum_members@, introduced_flags(member_keys("unused-enum-member"@, old.unused_enum_members@, root), all));
    lemma_keys_known(member_keys("unused-class-member"@, old.unused_class_members@, root), all);
    lemma_masked_none(old.unused_class_members@, introduced_flags(member_keys("unused-class-member"@, old.unused_class_members@, root), all));
    lemma_keys_known(path_name_keys("unresolved-import"@, old.unresolved_imports@, root), all);
    lemma_masked_none(old.unresolved_imports@, introduced_flags(path_name_keys("unresolved-import"@, old.unresolved_imports@, root), all));
    lemma_keys_known(unlisted_keys(old.unlisted_dependencies@, root), all);
    lemma_masked_none(old.unlisted_dependencies@, introduced_flags(unlisted_keys(old.unlisted_dependencies@, root), all));
    lemma_keys_known(duplicate_keys(old.duplicate_exports@, root), all);
    lemma_masked_none(old.duplicate_exports@, introduced_flags(duplicate_keys(old.duplicate_exports@, root), all));
    lemma_keys_known(path_name_keys("type-only-dependency"@, old.type_only_dependencies@, root), all);
    lemma_masked_none(old.type_only_dependencies@, introduced_flags(path_name_keys("type-only-dependency"@, old.type_only_dependencies@, root), all));
    lemma_keys_known(path_name_keys("test-only-dependency"@, old.test_only_dependencies@, root), all);
    lemma_masked_none(old.test_only_dependencies@, introduced_flags(path_name_keys("test-only-dependency"@, old.test_only_dependencies@, root), all));
    lemma_keys_known(cycle_keys(old.circular_dependencies@, root), all);
    lemma_masked_none(old.circular_dependencies@, introduced_flags(cycle_keys(old.circular_dependencies@, root), all));
    lemma_keys_known(boundary_keys(old.boundary_violations@, root), all);
    lemma_masked_none(old.boundary_violations@, introduced_flags(boundary_keys(old.boundary_violations@, root), all));
    lemma_keys_known(stale_keys(old.stale_suppressions@, root), all);
    lemma_masked_none(old.stale_suppressions@, introduced_flags(stale_keys(old.stale_suppressions@, root), all));
}


/// The same members, in any order and with any repeats.
pub open spec fn same_members<T>(a: Seq<T>, b: Seq<T>) -> bool {
    forall|x: T| a.contains(x) <==> b.contains(x)
}

/// `r2` is `r1` with the files of each import cycle in another order, and
/// the locations of each duplicate export and the import sites of each
/// unlisted dependency in another order or with repeats.
pub open spec fn same_up_to_order(r1: DeadCodeResults, r2: DeadCodeResults) -> bool {
    &&& r1.unused_files@ == r2.unused_files@
    &&& r1.unused_exports@ == r2.unused_exports@
    &&& r1.unused_types@ == r2.unused_types@
    &&& r1.private_type_leaks@ == r2.private_type_leaks@
    &&& r1.unused_dependencies@ == r2.unused_dependencies@
    &&& r1.unused_dev_dependencies@ == r2.unused_dev_dependencies@
    &&& r1.unused_optional_dependencies@ == r2.unused_optional_dependencies@
    &&& r1.unused_enum_members@ == r2.unused_enum_members@
    &&& r1.unused_class_members@ == r2.unused_class_members@
    &&& r1.unresolved_imports@ == r2.unresolved_imports@
    &&& r1.type_only_dependencies@ == r2.type_only_dependencies@
    &&& r1.test_only_dependencies@ == r2.test_only_dependencies@
    &&& r1.boundary_violations@ == r2.boundary_violations@
    &&& r1.stale_suppressions@ == r2.stale_suppressions@
    &&& r1.circular_dependencies@.len() == r2.circular_dependencies@.len()
    &&& forall|i: int|
        0 <= i < r1.circular_dependencies@.len() ==> (#[trigger] r1.circular_dependencies@[i]).files@.to_multiset()
            == r2.circular_dependencies@[i].files@.to_multiset()
    &&& r1.duplicate_exports@.len() == r2.duplicate_exports@.len()
    &&& forall|i: int|
        0 <= i < r1.duplicate_exports@.len() ==> (#[trigger] r1.duplicate_exports@[i]).export_name@
            == r2.duplicate_exports@[i].export_name@ && same_members(
            r1.duplicate_exports@[i].locations@,
            r2.duplicate_exports@[i].locations@,
        )
    &&& r1.unlisted_dependencies@.len() == r2.unlisted_dependencies@.len()
    &&& forall|i: int|
        0 <= i < r1.unlisted_dependencies@.len() ==> (#[trigger] r1.unlisted_dependencies@[i]).package_name@
            == r2.unlisted_dependencies@[i].package_name@ && same_members(
            r1.unlisted_dependencies@[i].imported_from@,
            r2.unlisted_dependencies@[i].imported_from@,
        )
}

/// The issue keys do not depend on the order of a cycle's files, nor on the
/// order or repeats of a duplicate export's locations or of an unlisted
/// dependency's import sites.
pub proof fn lemma_keys_ignore_order(r1: DeadCodeResults, r2: DeadCodeResults, root: Seq<char>)
    requires
        same_up_to_order(r1, r2),
    ensures
        all_keys(r1, root) == all_keys(r2, root),
{
    let kp = |p: String| key_path(p@, root);
    let st = |s: ImportSite| site_text(s, root);
    assert forall|i: int| 0 <= i < r1.circular_dependencies@.len() implies cycle_key(
        #[trigger] r1.circular_dependencies@[i],
        root,
    ) == cycle_key(r2.circular_dependencies@[i], root) by {
        let a = r1.circular_dependencies@[i].files@;
        let b = r2.circular_dependencies@[i].files@;
        crate::ordering::lemma_map_multiset(a, b, kp);
        crate::ordering::lemma_sort_strings_order_free(a.map_values(kp), b.map_values(kp));
    }
    assert(cycle_keys(r1.circular_dependencies@, root) =~= cycle_keys(r2.circular_dependencies@, root));
    assert forall|i: int| 0 <= i < r1.duplicate_exports@.len() implies duplicate_key(
        #[trigger] r1.duplicate_exports@[i],
        root,
    ) == duplicate_key(r2.duplicate_exports@[i], root) by {
        let a = r1.duplicate_exports@[i].locations@;
        let b = r2.duplicate_exports@[i].locations@;
        crate::ordering::lemma_map_members(a, b, kp);
        crate::ordering::lemma_sorted_distinct_order_free(a.map_values(kp), b.map_values(kp));
    }
    assert(duplicate_keys(r1.duplicate_exports@, root) =~= duplicate_keys(r2.duplicate_exports@, root));
    assert forall|i: int| 0 <= i < r1.unlisted_dependencies@.len() implies unlisted_key(
        #[trigger] r1.unlisted_dependencies@[i],
        root,
    ) == unlisted_key(r2.unlisted_dependencies@[i], root) by {
        let a = r1.unlisted_dependencies@[i].imported_from@;
        let b = r2.unlisted_dependencies@[i].imported_from@;
        crate::ordering::lemma_map_members(a, b, st);
        crate::ordering::lemma_sorted_distinct_order_free(a.map_values(st), b.map_values(st));
    }
    assert(unlisted_keys(r1.unlisted_dependencies@, root) =~= unlisted_keys(r2.unlisted_dependencies@, root));
}

} // verus!
