//! Baselines of dead-code issues: the issues recorded at one time, so that a
//! later run reports only the issues added since.
use vstd::prelude::*;
use crate::text::string_views;
use crate::dead_code::{
    flags_of, introduced_flags, masked, retain_mask, DeadCodeResults, PathNameIssue,
    UnusedDependencyIssue, UnusedMemberIssue,
};
use crate::paths::{contains_path, holds_path};
use crate::text::{chars_to_string, push_str, str_chars};

verus! {

/// The issues recorded in a baseline: unused files by path, unused exports
/// and types as `path:name`, unused dependencies by package name.
pub struct BaselineData {
    pub unused_files: Vec<String>,
    pub unused_exports: Vec<String>,
    pub unused_types: Vec<String>,
    pub unused_dependencies: Vec<String>,
    pub unused_dev_dependencies: Vec<String>,
}

/// How a baseline records an export or a type: `path:name`.
pub open spec fn export_entry(e: PathNameIssue) -> Seq<char> {
    e.path@ + seq![':'] + e.name@
}

/// The baseline entries of exports or types, in order.
pub open spec fn export_entries(v: Seq<PathNameIssue>) -> Seq<Seq<char>> {
    v.map_values(|e: PathNameIssue| export_entry(e))
}

/// The package names of dependencies, in order.
pub open spec fn package_names(v: Seq<UnusedDependencyIssue>) -> Seq<Seq<char>> {
    v.map_values(|d: UnusedDependencyIssue| d.package_name@)
}

fn copy_strings(v: &Vec<String>) -> (r: Vec<String>)
    ensures
        string_views(r@) == string_views(v@),
{
    let mut out: Vec<String> = Vec::new();
    let mut i: usize = 0;
    while i < v.len()
        invariant
            i <= v@.len(),
            string_views(out@) == string_views(v@).take(i as int),
        decreases v.len() - i,
    {
        let s = v[i].clone();
        let ghost before = out@;
        out.push(s);
        proof {
            assert(string_views(out@) =~= string_views(before).push(s@));
            assert(string_views(v@).take(i + 1) =~= string_views(v@).take(i as int).push(s@));
        }
        i = i + 1;
    }
    proof {
        assert(string_views(v@).take(i as int) =~= string_views(v@));
    }
    out
}

fn export_entries_exec(v: &Vec<PathNameIssue>) -> (r: Vec<String>)
    ensures
        string_views(r@) == export_entries(v@),
{
    let mut out: Vec<String> = Vec::new();
    let mut i: usize = 0;
    while i < v.len()
        invariant
            i <= v@.len(),
            string_views(out@) == export_entries(v@).take(i as int),
        decreases v.len() - i,
    {
        let mut cs = str_chars(v[i].path.as_str());
        cs.push(':');
        push_str(&mut cs, v[i].name.as_str());
        let s = chars_to_string(cs.as_slice());
        let ghost before = out@;
        out.push(s);
        proof {
            assert(s@ =~= export_entry(v@[i as int]));
            assert(string_views(out@) =~= string_views(before).push(s@));
            assert(export_entries(v@).take(i + 1) =~= export_entries(v@).take(i as int).push(s@));
        }
        i = i + 1;
    }
    proof {
        assert(export_entries(v@).take(i as int) =~= export_entries(v@));
    }
    out
}

fn package_names_exec(v: &Vec<UnusedDependencyIssue>) -> (r: Vec<String>)
    ensures
        string_views(r@) == package_names(v@),
{
    let mut out: Vec<String> = Vec::new();
    let mut i: usize = 0;
    while i < v.len()
        invariant
            i <= v@.len(),
            string_views(out@) == package_names(v@).take(i as int),
        decreases v.len() - i,
    {
        let s = v[i].package_name.clone();
        let ghost before = out@;
        out.push(s);
        proof {
            assert(string_views(out@) =~= string_views(before).push(s@));
            assert(package_names(v@).take(i + 1) =~= package_names(v@).take(i as int).push(s@));
        }
        i = i + 1;
    }
    proof {
        assert(package_names(v@).take(i as int) =~= package_names(v@));
    }
    out
}

impl BaselineData {
    /// Records the unused files, exports, types and dependencies of an
    /// analysis.
    pub fn from_results(results: &DeadCodeResults) -> (b: BaselineData)
        ensures
            string_views(b.unused_files@) == string_views(results.unused_files@),
            string_views(b.unused_exports@) == export_entries(results.unused_exports@),
            string_views(b.unused_types@) == export_entries(results.unused_types@),
            string_views(b.unused_dependencies@) == package_names(results.unused_dependencies@),
            string_views(b.unused_dev_dependencies@) == package_names(
                results.unused_dev_dependencies@,
            ),
    {
        BaselineData {
            unused_files: copy_strings(&results.unused_files),
            unused_exports: export_entries_exec(&results.unused_exports),
            unused_types: export_entries_exec(&results.unused_types),
            unused_dependencies: package_names_exec(&results.unused_dependencies),
            unused_dev_dependencies: package_names_exec(&results.unused_dev_dependencies),
        }
    }
}

/// Keeps the unused files, exports, types and dependencies that the baseline
/// does not record; the other issue types are left as they are.
pub fn filter_new_issues(results: DeadCodeResults, baseline: &BaselineData) -> (r: DeadCodeResults)
    ensures
        r.unused_files@ == masked(
            results.unused_files@,
            introduced_flags(string_views(results.unused_files@), string_views(baseline.unused_files@)),
        ),
        r.unused_exports@ == masked(
            results.unused_exports@,
            introduced_flags(export_entries(results.unused_exports@), string_views(baseline.unused_exports@)),
        ),
        r.unused_types@ == masked(
            results.unused_types@,
            introduced_flags(export_entries(results.unused_types@), string_views(baseline.unused_types@)),
        ),
        r.unused_dependencies@ == masked(
            results.unused_dependencies@,
            introduced_flags(
                package_names(results.unused_dependencies@),
                string_views(baseline.unused_dependencies@),
            ),
        ),
        r.unused_dev_dependencies@ == masked(
            results.unused_dev_dependencies@,
            introduced_flags(
                package_names(results.unused_dev_dependencies@),
                string_views(baseline.unused_dev_dependencies@),
            ),
        ),
        r.private_type_leaks == results.private_type_leaks,
        r.unused_optional_dependencies == results.unused_optional_dependencies,
        r.unused_enum_members == results.unused_enum_members,
        r.unused_class_members == results.unused_class_members,
        r.unresolved_imports == results.unresolved_imports,
        r.unlisted_dependencies == results.unlisted_dependencies,
        r.duplicate_exports == results.duplicate_exports,
        r.type_only_dependencies == results.type_only_dependencies,
        r.test_only_dependencies == results.test_only_dependencies,
        r.circular_dependencies == results.circular_dependencies,
        r.boundary_violations == results.boundary_violations,
        r.stale_suppressions == results.stale_suppressions,
{
    let mut results = results;
    let files = flags_of(&copy_strings(&results.unused_files), &baseline.unused_files);
    let exports = flags_of(&export_entries_exec(&results.unused_exports), &baseline.unused_exports);
    let types = flags_of(&export_entries_exec(&results.unused_types), &baseline.unused_types);
    let deps = flags_of(&package_names_exec(&results.unused_dependencies), &baseline.unused_dependencies);
    let dev_deps = flags_of(
        &package_names_exec(&results.unused_dev_dependencies),
        &baseline.unused_dev_dependencies,
    );
    retain_mask(&mut results.unused_files, &files);
    retain_mask(&mut results.unused_exports, &exports);
    retain_mask(&mut results.unused_types, &types);
    retain_mask(&mut results.unused_dependencies, &deps);
    retain_mask(&mut results.unused_dev_dependencies, &dev_deps);
    results
}

proof fn lemma_masked_known<T>(s: Seq<T>, keys: Seq<Seq<char>>, base: Seq<Seq<char>>)
    requires
        keys.len() == s.len(),
        forall|i: int| 0 <= i < keys.len() ==> base.contains(#[trigger] keys[i]),
    ensures
        masked(s, introduced_flags(keys, base)) == Seq::<T>::empty(),
    decreases s.len(),
{
    if s.len() > 0 {
        let k = keys.drop_last();
        lemma_masked_known(s.drop_last(), k, base);
        assert(base.contains(keys[s.len() - 1]));
        assert forall|i: int| 0 <= i < s.len() - 1 implies introduced_flags(k, base)[i]
            == introduced_flags(keys, base)[i] by {}
        lemma_masked_same_flags(s.drop_last(), introduced_flags(k, base), introduced_flags(keys, base));
    }
}

proof fn lemma_masked_same_flags<T>(s: Seq<T>, m1: Seq<bool>, m2: Seq<bool>)
    requires
        forall|i: int| 0 <= i < s.len() ==> m1[i] == m2[i],
    ensures
        masked(s, m1) == masked(s, m2),
    decreases s.len(),
{
    if s.len() > 0 {
        lemma_masked_same_flags(s.drop_last(), m1, m2);
    }
}

/// A baseline recorded from an analysis hides every unused file, export,
/// type and dependency of that analysis: filtering it against its own
/// baseline leaves none of them.
pub proof fn lemma_own_baseline_hides_all(r: DeadCodeResults)
    ensures
        masked(
            r.unused_files@,
            introduced_flags(string_views(r.unused_files@), string_views(r.unused_files@)),
        ).len() == 0,
        masked(
            r.unused_exports@,
            introduced_flags(export_entries(r.unused_exports@), export_entries(r.unused_exports@)),
        ).len() == 0,
        masked(
            r.unused_types@,
            introduced_flags(export_entries(r.unused_types@), export_entries(r.unused_types@)),
        ).len() == 0,
        masked(
            r.unused_dependencies@,
            introduced_flags(
                package_names(r.unused_dependencies@),
                package_names(r.unused_dependencies@),
            ),
        ).len() == 0,
        masked(
            r.unused_dev_dependencies@,
            introduced_flags(
                package_names(r.unused_dev_dependencies@),
                package_names(r.unused_dev_dependencies@),
            ),
        ).len() == 0,
{
    let f = string_views(r.unused_files@);
    assert forall|i: int| 0 <= i < f.len() implies f.contains(#[trigger] f[i]) by {}
    lemma_masked_known(r.unused_files@, f, f);
    let e = export_entries(r.unused_exports@);
    assert forall|i: int| 0 <= i < e.len() implies e.contains(#[trigger] e[i]) by {}
    lemma_masked_known(r.unused_exports@, e, e);
    let t = export_entries(r.unused_types@);
    assert forall|i: int| 0 <= i < t.len() implies t.contains(#[trigger] t[i]) by {}
    lemma_masked_known(r.unused_types@, t, t);
    let d = package_names(r.unused_dependencies@);
    assert forall|i: int| 0 <= i < d.len() implies d.contains(#[trigger] d[i]) by {}
    lemma_masked_known(r.unused_dependencies@, d, d);
    let v = package_names(r.unused_dev_dependencies@);
    assert forall|i: int| 0 <= i < v.len() implies v.contains(#[trigger] v[i]) by {}
    lemma_masked_known(r.unused_dev_dependencies@, v, v);
}

// ── Changed files ────────────────────────────────────────────────

/// For each path, whether it is one of the changed files.
pub open spec fn changed_flags(paths: Seq<Seq<char>>, changed: Seq<String>) -> Seq<bool> {
    paths.map_values(|p: Seq<char>| holds_path(changed, p))
}

/// The files of path-and-name issues, in order.
pub open spec fn issue_paths(v: Seq<PathNameIssue>) -> Seq<Seq<char>> {
    v.map_values(|e: PathNameIssue| e.path@)
}

/// The files of unused members, in order.
pub open spec fn member_paths(v: Seq<UnusedMemberIssue>) -> Seq<Seq<char>> {
    v.map_values(|e: UnusedMemberIssue| e.path@)
}

fn changed_flags_exec(path_list: &Vec<String>, changed: &Vec<String>) -> (r: Vec<bool>)
    ensures
        r@ == changed_flags(string_views(path_list@), changed@),
{
    let ghost paths = string_views(path_list@);
    let mut out: Vec<bool> = Vec::new();
    let mut i: usize = 0;
    while i < path_list.len()
        invariant
            string_views(path_list@) == paths,
            i <= path_list@.len(),
            out@ == changed_flags(paths, changed@).take(i as int),
        decreases path_list.len() - i,
    {
        let f = contains_path(changed, path_list[i].as_str());
        out.push(f);
        proof {
            assert(out@ =~= changed_flags(paths, changed@).take(i + 1));
        }
        i = i + 1;
    }
    proof {
        assert(changed_flags(paths, changed@).take(i as int) =~= changed_flags(paths, changed@));
    }
    out
}

fn issue_path_list(v: &Vec<PathNameIssue>) -> (r: Vec<String>)
    ensures
        string_views(r@) == issue_paths(v@),
{
    let mut out: Vec<String> = Vec::new();
    let mut i: usize = 0;
    while i < v.len()
        invariant
            i <= v@.len(),
            string_views(out@) == issue_paths(v@).take(i as int),
        decreases v.len() - i,
    {
        let s = v[i].path.clone();
        let ghost before = out@;
        out.push(s);
        proof {
            assert(string_views(out@) =~= string_views(before).push(s@));
            assert(issue_paths(v@).take(i + 1) =~= issue_paths(v@).take(i as int).push(s@));
        }
        i = i + 1;
    }
    proof {
        assert(issue_paths(v@).take(i as int) =~= issue_paths(v@));
    }
    out
}

fn member_path_list(v: &Vec<UnusedMemberIssue>) -> (r: Vec<String>)
    ensures
        string_views(r@) == member_paths(v@),
{
    let mut out: Vec<String> = Vec::new();
    let mut i: usize = 0;
    while i < v.len()
        invariant
            i <= v@.len(),
            string_views(out@) == member_paths(v@).take(i as int),
        decreases v.len() - i,
    {
        let s = v[i].path.clone();
        let ghost before = out@;
        out.push(s);
        proof {
            assert(string_views(out@) =~= string_views(before).push(s@));
            assert(member_paths(v@).take(i + 1) =~= member_paths(v@).take(i as int).push(s@));
        }
        i = i + 1;
    }
    proof {
        assert(member_paths(v@).take(i as int) =~= member_paths(v@));
    }
    out
}

/// Keeps the unused files, exports, types, enum and class members and
/// unresolved imports that lie in one of the changed files; the other issue
/// types are left as they are.
pub fn retain_changed_files(results: &mut DeadCodeResults, changed: &Vec<String>)
    ensures
        final(results).unused_files@ == masked(
            old(results).unused_files@,
            changed_flags(string_views(old(results).unused_files@), changed@),
        ),
        final(results).unused_exports@ == masked(
            old(results).unused_exports@,
            changed_flags(issue_paths(old(results).unused_exports@), changed@),
        ),
        final(results).unused_types@ == masked(
            old(results).unused_types@,
            changed_flags(issue_paths(old(results).unused_types@), changed@),
        ),
        final(results).unused_enum_members@ == masked(
            old(results).unused_enum_members@,
            changed_flags(member_paths(old(results).unused_enum_members@), changed@),
        ),
        final(results).unused_class_members@ == masked(
            old(results).unused_class_members@,
            changed_flags(member_paths(old(results).unused_class_members@), changed@),
        ),
        final(results).unresolved_imports@ == masked(
            old(results).unresolved_imports@,
            changed_flags(issue_paths(old(results).unresolved_imports@), changed@),
        ),
        final(results).private_type_leaks == old(results).private_type_leaks,
        final(results).unused_dependencies == old(results).unused_dependencies,
        final(results).unused_dev_dependencies == old(results).unused_dev_dependencies,
        final(results).unused_optional_dependencies == old(results).unused_optional_dependencies,
        final(results).unlisted_dependencies == old(results).unlisted_dependencies,
        final(results).duplicate_exports == old(results).duplicate_exports,
        final(results).type_only_dependencies == old(results).type_only_dependencies,
        final(results).test_only_dependencies == old(results).test_only_dependencies,
        final(results).circular_dependencies == old(results).circular_dependencies,
        final(results).boundary_violations == old(results).boundary_violations,
        final(results).stale_suppressions == old(results).stale_suppressions,
{
    let files = copy_strings(&results.unused_files);
    let f_files = changed_flags_exec(&files, changed);
    let p_exports = issue_path_list(&results.unused_exports);
    let f_exports = changed_flags_exec(&p_exports, changed);
    let p_types = issue_path_list(&results.unused_types);
    let f_types = changed_flags_exec(&p_types, changed);
    let p_enums = member_path_list(&results.unused_enum_members);
    let f_enums = changed_flags_exec(&p_enums, changed);
    let p_classes = member_path_list(&results.unused_class_members);
    let f_classes = changed_flags_exec(&p_classes, changed);
    let p_imports = issue_path_list(&results.unresolved_imports);
    let f_imports = changed_flags_exec(&p_imports, changed);
    retain_mask(&mut results.unused_files, &f_files);
    retain_mask(&mut results.unused_exports, &f_exports);
    retain_mask(&mut results.unused_types, &f_types);
    retain_mask(&mut results.unused_enum_members, &f_enums);
    retain_mask(&mut results.unused_class_members, &f_classes);
    retain_mask(&mut results.unresolved_imports, &f_imports);
}

} // verus!
