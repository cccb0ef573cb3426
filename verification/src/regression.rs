//! Regression baselines: per-type issue counts, their deltas, and the
//! comment-preserving edits that embed a baseline in a JSONC or TOML config.
use vstd::prelude::*;
use crate::search::{find_from, first_occ_from, last_occ_before, occurs_at, rfind_before};
use crate::text::{
    utf8_len, utf8_prefix_len, lemma_utf8_len_mono, chars_to_string, decimal, push_all,
    push_decimal, push_str, slice_vec, str_chars, trim_end, count_trailing_ws,
    lemma_trailing_ws_bound,
};

verus! {

/// Per-type issue counts for dead code analysis.
#[derive(Debug, Clone, Copy, PartialEq, Eq, Structural)]
pub struct CheckCounts {
    pub total_issues: usize,
    pub unused_files: usize,
    pub unused_exports: usize,
    pub unused_types: usize,
    pub unused_dependencies: usize,
    pub unused_dev_dependencies: usize,
    pub unused_optional_dependencies: usize,
    pub unused_enum_members: usize,
    pub unused_class_members: usize,
    pub unresolved_imports: usize,
    pub unlisted_dependencies: usize,
    pub duplicate_exports: usize,
    pub circular_dependencies: usize,
    pub type_only_dependencies: usize,
    pub test_only_dependencies: usize,
}

/// Where to save a regression baseline.
#[derive(Debug, Clone, Copy)]
pub enum SaveRegressionTarget<'a> {
    /// Don't save.
    NoSave,
    /// Save into the config file (`.fallowrc.json` / `fallow.toml`).
    Config,
    /// Save to an explicit file path.
    File(&'a str),
}

/// The config-embedded form of a regression baseline (`regression.baseline`).
#[derive(Debug, Clone, Copy, PartialEq, Eq, Structural)]
pub struct ConfigRegressionBaseline {
    pub total_issues: usize,
    pub unused_files: usize,
    pub unused_exports: usize,
    pub unused_types: usize,
    pub unused_dependencies: usize,
    pub unused_dev_dependencies: usize,
    pub unused_optional_dependencies: usize,
    pub unused_enum_members: usize,
    pub unused_class_members: usize,
    pub unresolved_imports: usize,
    pub unlisted_dependencies: usize,
    pub duplicate_exports: usize,
    pub circular_dependencies: usize,
    pub type_only_dependencies: usize,
    pub test_only_dependencies: usize,
}

/// The per-type counts (every count but the total), with their snake-case names.
pub open spec fn type_counts(c: CheckCounts) -> Seq<(Seq<char>, int)> {
    seq![
        ("unused_files"@, c.unused_files as int),
        ("unused_exports"@, c.unused_exports as int),
        ("unused_types"@, c.unused_types as int),
        ("unused_dependencies"@, c.unused_dependencies as int),
        ("unused_dev_dependencies"@, c.unused_dev_dependencies as int),
        ("unused_optional_dependencies"@, c.unused_optional_dependencies as int),
        ("unused_enum_members"@, c.unused_enum_members as int),
        ("unused_class_members"@, c.unused_class_members as int),
        ("unresolved_imports"@, c.unresolved_imports as int),
        ("unlisted_dependencies"@, c.unlisted_dependencies as int),
        ("duplicate_exports"@, c.duplicate_exports as int),
        ("circular_dependencies"@, c.circular_dependencies as int),
        ("type_only_dependencies"@, c.type_only_dependencies as int),
        ("test_only_dependencies"@, c.test_only_dependencies as int),
    ]
}

/// Per-type change from `base` to `cur`, for every type, in declaration order.
pub open spec fn all_deltas(base: CheckCounts, cur: CheckCounts) -> Seq<(Seq<char>, int)> {
    Seq::new(14, |i: int| (type_counts(base)[i].0, type_counts(cur)[i].1 - type_counts(base)[i].1))
}

/// The per-type changes that are not zero.
pub open spec fn changed_deltas(base: CheckCounts, cur: CheckCounts) -> Seq<(Seq<char>, int)> {
    all_deltas(base, cur).filter(|p: (Seq<char>, int)| p.1 != 0)
}

/// Every count fits in `isize`, so differences of counts do too.
pub open spec fn counts_fit(c: CheckCounts) -> bool {
    forall|i: int| 0 <= i < 14 ==> #[trigger] type_counts(c)[i].1 <= isize::MAX
}

/// Whether every per-type count fits in `isize` (so that `deltas` applies).
pub fn counts_fit_exec(c: &CheckCounts) -> (r: bool)
    ensures
        r == counts_fit(*c),
{
    let m = isize::MAX as usize;
    let r = c.unused_files <= m && c.unused_exports <= m && c.unused_types <= m
        && c.unused_dependencies <= m && c.unused_dev_dependencies <= m
        && c.unused_optional_dependencies <= m && c.unused_enum_members <= m
        && c.unused_class_members <= m && c.unresolved_imports <= m && c.unlisted_dependencies <= m
        && c.duplicate_exports <= m && c.circular_dependencies <= m && c.type_only_dependencies <= m
        && c.test_only_dependencies <= m;
    proof {
        let t = type_counts(*c);
        if r {
            assert forall|i: int| 0 <= i < 14 implies #[trigger] type_counts(*c)[i].1 <= isize::MAX by {
                assert(t[i] == type_counts(*c)[i]);
            }
        } else {
            assert(!counts_fit(*c)) by {
                if counts_fit(*c) {
                    assert(t[0].1 <= isize::MAX);
                    assert(t[1].1 <= isize::MAX);
                    assert(t[2].1 <= isize::MAX);
                    assert(t[3].1 <= isize::MAX);
                    assert(t[4].1 <= isize::MAX);
                    assert(t[5].1 <= isize::MAX);
                    assert(t[6].1 <= isize::MAX);
                    assert(t[7].1 <= isize::MAX);
                    assert(t[8].1 <= isize::MAX);
                    assert(t[9].1 <= isize::MAX);
                    assert(t[10].1 <= isize::MAX);
                    assert(t[11].1 <= isize::MAX);
                    assert(t[12].1 <= isize::MAX);
                    assert(t[13].1 <= isize::MAX);
                }
            }
        }
    }
    r
}

impl CheckCounts {
    /// Convert from the config-embedded baseline.
    pub fn from_config_baseline(b: &ConfigRegressionBaseline) -> (r: Self)
        ensures
            config_counts(*b) == counts_as_config(r),
            r.total_issues == b.total_issues,
            r.unused_files == b.unused_files,
            r.unused_exports == b.unused_exports,
            r.unused_types == b.unused_types,
            r.unused_dependencies == b.unused_dependencies,
            r.unused_dev_dependencies == b.unused_dev_dependencies,
            r.unused_optional_dependencies == b.unused_optional_dependencies,
            r.unused_enum_members == b.unused_enum_members,
            r.unused_class_members == b.unused_class_members,
            r.unresolved_imports == b.unresolved_imports,
            r.unlisted_dependencies == b.unlisted_dependencies,
            r.duplicate_exports == b.duplicate_exports,
            r.circular_dependencies == b.circular_dependencies,
            r.type_only_dependencies == b.type_only_dependencies,
            r.test_only_dependencies == b.test_only_dependencies,
    {
        CheckCounts {
            total_issues: b.total_issues,
            unused_files: b.unused_files,
            unused_exports: b.unused_exports,
            unused_types: b.unused_types,
            unused_dependencies: b.unused_dependencies,
            unused_dev_dependencies: b.unused_dev_dependencies,
            unused_optional_dependencies: b.unused_optional_dependencies,
            unused_enum_members: b.unused_enum_members,
            unused_class_members: b.unused_class_members,
            unresolved_imports: b.unresolved_imports,
            unlisted_dependencies: b.unlisted_dependencies,
            duplicate_exports: b.duplicate_exports,
            circular_dependencies: b.circular_dependencies,
            type_only_dependencies: b.type_only_dependencies,
            test_only_dependencies: b.test_only_dependencies,
        }
    }

    /// Convert to the config-embeddable baseline.
    pub fn to_config_baseline(&self) -> (r: ConfigRegressionBaseline)
        ensures
            config_counts(r) == counts_as_config(*self),
            r.total_issues == self.total_issues,
            r.unused_files == self.unused_files,
            r.unused_exports == self.unused_exports,
            r.unused_types == self.unused_types,
            r.unused_dependencies == self.unused_dependencies,
            r.unused_dev_dependencies == self.unused_dev_dependencies,
            r.unused_optional_dependencies == self.unused_optional_dependencies,
            r.unused_enum_members == self.unused_enum_members,
            r.unused_class_members == self.unused_class_members,
            r.unresolved_imports == self.unresolved_imports,
            r.unlisted_dependencies == self.unlisted_dependencies,
            r.duplicate_exports == self.duplicate_exports,
            r.circular_dependencies == self.circular_dependencies,
            r.type_only_dependencies == self.type_only_dependencies,
            r.test_only_dependencies == self.test_only_dependencies,
    {
        ConfigRegressionBaseline {
            total_issues: self.total_issues,
            unused_files: self.unused_files,
            unused_exports: self.unused_exports,
            unused_types: self.unused_types,
            unused_dependencies: self.unused_dependencies,
            unused_dev_dependencies: self.unused_dev_dependencies,
            unused_optional_dependencies: self.unused_optional_dependencies,
            unused_enum_members: self.unused_enum_members,
            unused_class_members: self.unused_class_members,
            unresolved_imports: self.unresolved_imports,
            unlisted_dependencies: self.unlisted_dependencies,
            duplicate_exports: self.duplicate_exports,
            circular_dependencies: self.circular_dependencies,
            type_only_dependencies: self.type_only_dependencies,
            test_only_dependencies: self.test_only_dependencies,
        }
    }

    /// Per-type deltas (current - baseline) for display. Only includes types with changes.
    pub fn deltas(&self, current: &Self) -> (r: Vec<(&'static str, isize)>)
        requires
            counts_fit(*self),
            counts_fit(*current),
        ensures
            r@.len() == changed_deltas(*self, *current).len(),
            forall|i: int|
                0 <= i < r@.len() ==> (#[trigger] r@[i]).0@ == changed_deltas(*self, *current)[i].0
                    && r@[i].1 as int == changed_deltas(*self, *current)[i].1,
    {
        let names: Vec<&'static str> = vec![
            "unused_files",
            "unused_exports",
            "unused_types",
            "unused_dependencies",
            "unused_dev_dependencies",
            "unused_optional_dependencies",
            "unused_enum_members",
            "unused_class_members",
            "unresolved_imports",
            "unlisted_dependencies",
            "duplicate_exports",
            "circular_dependencies",
            "type_only_dependencies",
            "test_only_dependencies",
        ];
        let base: Vec<usize> = vec![
            self.unused_files,
            self.unused_exports,
            self.unused_types,
            self.unused_dependencies,
            self.unused_dev_dependencies,
            self.unused_optional_dependencies,
            self.unused_enum_members,
            self.unused_class_members,
            self.unresolved_imports,
            self.unlisted_dependencies,
            self.duplicate_exports,
            self.circular_dependencies,
            self.type_only_dependencies,
            self.test_only_dependencies,
        ];
        let cur: Vec<usize> = vec![
            current.unused_files,
            current.unused_exports,
            current.unused_types,
            current.unused_dependencies,
            current.unused_dev_dependencies,
            current.unused_optional_dependencies,
            current.unused_enum_members,
            current.unused_class_members,
            current.unresolved_imports,
            current.unlisted_dependencies,
            current.duplicate_exports,
            current.circular_dependencies,
            current.type_only_dependencies,
            current.test_only_dependencies,
        ];
        let ghost all = all_deltas(*self, *current);
        let ghost pred = |p: (Seq<char>, int)| p.1 != 0;
        proof {
            assert forall|i: int| 0 <= i < 14 implies names@[i]@ == all[i].0 && base@[i]
                == type_counts(*self)[i].1 && cur@[i] == type_counts(*current)[i].1
                && base@[i] <= isize::MAX && cur@[i] <= isize::MAX by {
                assert(type_counts(*self)[i].1 <= isize::MAX);
                assert(type_counts(*current)[i].1 <= isize::MAX);
            }
        }
        let mut out: Vec<(&'static str, isize)> = Vec::new();
        let mut i: usize = 0;
        while i < 14
            invariant
                i <= 14,
                names@.len() == 14 && base@.len() == 14 && cur@.len() == 14,
                all == all_deltas(*self, *current),
                pred == (|p: (Seq<char>, int)| p.1 != 0),
                forall|j: int| 0 <= j < 14 ==> names@[j]@ == all[j].0 && (#[trigger] base@[j])
                    <= isize::MAX && cur@[j] <= isize::MAX && all[j].1 == cur@[j] - base@[j],
                out@.len() == all.take(i as int).filter(pred).len(),
                forall|j: int|
                    0 <= j < out@.len() ==> (#[trigger] out@[j]).0@ == all.take(i as int).filter(
                        pred,
                    )[j].0 && out@[j].1 as int == all.take(i as int).filter(pred)[j].1,
            decreases 14 - i,
        {
            let ghost prev = all.take(i as int).filter(pred);
            proof {
                reveal(Seq::filter);
                assert(all.take(i + 1).drop_last() =~= all.take(i as int));
                assert(all.take(i + 1).last() == all[i as int]);
                assert(all.take(i + 1).filter(pred) == (if pred(all[i as int]) {
                    prev.push(all[i as int])
                } else {
                    prev
                }));
            }
            let d = cur[i] as isize - base[i] as isize;
            assert(d as int == all[i as int].1);
            assert(pred(all[i as int]) == (d != 0));
            if d != 0 {
                out.push((names[i], d));
            }
            proof {
                let now = all.take(i + 1).filter(pred);
                assert(out@.len() == now.len());
                assert forall|j: int| 0 <= j < out@.len() implies (#[trigger] out@[j]).0@ == now[j].0
                    && out@[j].1 as int == now[j].1 by {
                    if j < prev.len() {
                    } else {
                        assert(now[j] == all[i as int]);
                    }
                }
            }
            i = i + 1;
        }
        proof {
            assert(all.take(14) =~= all);
        }
        out
    }
}

/// The counts of a config baseline, in the order the config sections list them.
pub open spec fn config_counts(b: ConfigRegressionBaseline) -> Seq<nat> {
    seq![
        b.total_issues as nat,
        b.unused_files as nat,
        b.unused_exports as nat,
        b.unused_types as nat,
        b.unused_dependencies as nat,
        b.unused_dev_dependencies as nat,
        b.unused_optional_dependencies as nat,
        b.unused_enum_members as nat,
        b.unused_class_members as nat,
        b.unresolved_imports as nat,
        b.unlisted_dependencies as nat,
        b.duplicate_exports as nat,
        b.circular_dependencies as nat,
        b.type_only_dependencies as nat,
        b.test_only_dependencies as nat,
    ]
}

/// The counts of a `CheckCounts`, in the same order as [`config_counts`].
pub open spec fn counts_as_config(c: CheckCounts) -> Seq<nat> {
    seq![
        c.total_issues as nat,
        c.unused_files as nat,
        c.unused_exports as nat,
        c.unused_types as nat,
        c.unused_dependencies as nat,
        c.unused_dev_dependencies as nat,
        c.unused_optional_dependencies as nat,
        c.unused_enum_members as nat,
        c.unused_class_members as nat,
        c.unresolved_imports as nat,
        c.unlisted_dependencies as nat,
        c.duplicate_exports as nat,
        c.circular_dependencies as nat,
        c.type_only_dependencies as nat,
        c.test_only_dependencies as nat,
    ]
}

/// Converting counts to the config form and back gives the same counts:
/// both forms list the same counts in the same order, and a `CheckCounts`
/// is determined by that list.
pub proof fn lemma_config_roundtrip(c: CheckCounts, b: ConfigRegressionBaseline, back: CheckCounts)
    requires
        config_counts(b) == counts_as_config(c),
        config_counts(b) == counts_as_config(back),
    ensures
        back == c,
{
    let x = counts_as_config(c);
    let y = counts_as_config(back);
    assert(x[0] == y[0] && x[1] == y[1] && x[2] == y[2] && x[3] == y[3] && x[4] == y[4]);
    assert(x[5] == y[5] && x[6] == y[6] && x[7] == y[7] && x[8] == y[8] && x[9] == y[9]);
    assert(x[10] == y[10] && x[11] == y[11] && x[12] == y[12] && x[13] == y[13] && x[14] == y[14]);
}

/// The camel-case key of each config count, in the same order as [`config_counts`].
pub open spec fn config_keys() -> Seq<Seq<char>> {
    seq![
        "totalIssues"@,
        "unusedFiles"@,
        "unusedExports"@,
        "unusedTypes"@,
        "unusedDependencies"@,
        "unusedDevDependencies"@,
        "unusedOptionalDependencies"@,
        "unusedEnumMembers"@,
        "unusedClassMembers"@,
        "unresolvedImports"@,
        "unlistedDependencies"@,
        "duplicateExports"@,
        "circularDependencies"@,
        "typeOnlyDependencies"@,
        "testOnlyDependencies"@,
    ]
}

/// Each count sits at the same place in both forms and is written under
/// its own camel-case key: the `k`-th key names the `k`-th count of both a
/// `CheckCounts` and a config baseline.
pub proof fn lemma_config_key_places(c: CheckCounts, b: ConfigRegressionBaseline)
    ensures
        config_keys()[0] == "totalIssues"@ && counts_as_config(c)[0] == c.total_issues as nat && config_counts(b)[0] == b.total_issues as nat,
        config_keys()[1] == "unusedFiles"@ && counts_as_config(c)[1] == c.unused_files as nat && config_counts(b)[1] == b.unused_files as nat,
        config_keys()[2] == "unusedExports"@ && counts_as_config(c)[2] == c.unused_exports as nat && config_counts(b)[2] == b.unused_exports as nat,
        config_keys()[3] == "unusedTypes"@ && counts_as_config(c)[3] == c.unused_types as nat && config_counts(b)[3] == b.unused_types as nat,
        config_keys()[4] == "unusedDependencies"@ && counts_as_config(c)[4] == c.unused_dependencies as nat && config_counts(b)[4] == b.unused_dependencies as nat,
        config_keys()[5] == "unusedDevDependencies"@ && counts_as_config(c)[5] == c.unused_dev_dependencies as nat && config_counts(b)[5] == b.unused_dev_dependencies as nat,
        config_keys()[6] == "unusedOptionalDependencies"@ && counts_as_config(c)[6] == c.unused_optional_dependencies as nat && config_counts(b)[6] == b.unused_optional_dependencies as nat,
        config_keys()[7] == "unusedEnumMembers"@ && counts_as_config(c)[7] == c.unused_enum_members as nat && config_counts(b)[7] == b.unused_enum_members as nat,
        config_keys()[8] == "unusedClassMembers"@ && counts_as_config(c)[8] == c.unused_class_members as nat && config_counts(b)[8] == b.unused_class_members as nat,
        config_keys()[9] == "unresolvedImports"@ && counts_as_config(c)[9] == c.unresolved_imports as nat && config_counts(b)[9] == b.unresolved_imports as nat,
        config_keys()[10] == "unlistedDependencies"@ && counts_as_config(c)[10] == c.unlisted_dependencies as nat && config_counts(b)[10] == b.unlisted_dependencies as nat,
        config_keys()[11] == "duplicateExports"@ && counts_as_config(c)[11] == c.duplicate_exports as nat && config_counts(b)[11] == b.duplicate_exports as nat,
        config_keys()[12] == "circularDependencies"@ && counts_as_config(c)[12] == c.circular_dependencies as nat && config_counts(b)[12] == b.circular_dependencies as nat,
        config_keys()[13] == "typeOnlyDependencies"@ && counts_as_config(c)[13] == c.type_only_dependencies as nat && config_counts(b)[13] == b.type_only_dependencies as nat,
        config_keys()[14] == "testOnlyDependencies"@ && counts_as_config(c)[14] == c.test_only_dependencies as nat && config_counts(b)[14] == b.test_only_dependencies as nat,
{
}

/// Counts compared with themselves never regress, whatever the tolerance,
/// and show no per-type change.
pub proof fn lemma_own_counts_never_regress(c: CheckCounts, allowed: usize)
    ensures
        !grew_beyond(c.total_issues, c.total_issues, allowed),
        changed_deltas(c, c).len() == 0,
{
    let pred = |p: (Seq<char>, int)| p.1 != 0;
    assert(all_deltas(c, c).all(|x: (Seq<char>, int)| !pred(x)));
    all_deltas(c, c).lemma_all_neg_filter_empty(pred);
}

/// The changes from `b` to `a` are those from `a` to `b`, negated, in the
/// same order.
pub proof fn lemma_deltas_antisymmetric(a: CheckCounts, b: CheckCounts)
    ensures
        changed_deltas(a, b) == changed_deltas(b, a).map_values(
            |p: (Seq<char>, int)| (p.0, -p.1),
        ),
{
    let neg = |p: (Seq<char>, int)| (p.0, -p.1);
    let nonzero = |p: (Seq<char>, int)| p.1 != 0;
    assert(all_deltas(b, a).map_values(neg) =~= all_deltas(a, b));
    crate::ordering::lemma_map_filter(all_deltas(b, a), neg, nonzero);
    assert((|x: (Seq<char>, int)| nonzero(neg(x))) =~= nonzero);
}

/// A larger tolerance never flags a regression that a smaller one passes.
pub proof fn lemma_tolerance_monotone(baseline_total: usize, current_total: usize, a: usize, b: usize)
    requires
        a <= b,
    ensures
        grew_beyond(baseline_total, current_total, b) ==> grew_beyond(baseline_total, current_total, a),
{
}

/// The outcome of comparing issue counts with a regression baseline.
#[derive(Debug)]
pub enum RegressionCheck {
    /// The total stayed within the tolerance.
    Pass { baseline_total: usize, current_total: usize },
    /// The total grew by more than the tolerance allows; the per-type changes
    /// that are not zero.
    Exceeded { baseline_total: usize, current_total: usize, type_deltas: Vec<(&'static str, isize)> },
}

/// Whether the total grew by more than `allowed` issues.
pub open spec fn grew_beyond(baseline_total: usize, current_total: usize, allowed: usize) -> bool {
    current_total > baseline_total && current_total - baseline_total > allowed
}

/// Compare the current counts with the baseline: a regression when the
/// total grew by more than `allowed` issues (what the tolerance allows over
/// the baseline total), with the per-type changes; else a pass.
pub fn compare_counts(baseline: &CheckCounts, current: &CheckCounts, allowed: usize) -> (r:
    RegressionCheck)
    requires
        counts_fit(*baseline),
        counts_fit(*current),
    ensures
        match r {
            RegressionCheck::Pass { baseline_total, current_total } => !grew_beyond(
                baseline.total_issues,
                current.total_issues,
                allowed,
            ) && baseline_total == baseline.total_issues && current_total == current.total_issues,
            RegressionCheck::Exceeded { baseline_total, current_total, type_deltas } => grew_beyond(
                baseline.total_issues,
                current.total_issues,
                allowed,
            ) && baseline_total == baseline.total_issues && current_total == current.total_issues
                && type_deltas@.len() == changed_deltas(*baseline, *current).len() && forall|i: int|
                0 <= i < type_deltas@.len() ==> (#[trigger] type_deltas@[i]).0@ == changed_deltas(
                *baseline,
                *current,
            )[i].0 && type_deltas@[i].1 as int == changed_deltas(*baseline, *current)[i].1,
        },
{
    let baseline_total = baseline.total_issues;
    let current_total = current.total_issues;
    if current_total > baseline_total && current_total - baseline_total > allowed {
        RegressionCheck::Exceeded { baseline_total, current_total, type_deltas: baseline.deltas(current) }
    } else {
        RegressionCheck::Pass { baseline_total, current_total }
    }
}

fn config_key_strs() -> (r: Vec<&'static str>)
    ensures
        r@.len() == 15,
        forall|i: int| 0 <= i < 15 ==> (#[trigger] r@[i])@ == config_keys()[i],
{
    vec![
        "totalIssues",
        "unusedFiles",
        "unusedExports",
        "unusedTypes",
        "unusedDependencies",
        "unusedDevDependencies",
        "unusedOptionalDependencies",
        "unusedEnumMembers",
        "unusedClassMembers",
        "unresolvedImports",
        "unlistedDependencies",
        "duplicateExports",
        "circularDependencies",
        "typeOnlyDependencies",
        "testOnlyDependencies",
    ]
}

fn config_values(b: &ConfigRegressionBaseline) -> (r: Vec<usize>)
    ensures
        r@.len() == 15,
        forall|i: int| 0 <= i < 15 ==> (#[trigger] r@[i]) as nat == config_counts(*b)[i],
{
    vec![
        b.total_issues,
        b.unused_files,
        b.unused_exports,
        b.unused_types,
        b.unused_dependencies,
        b.unused_dev_dependencies,
        b.unused_optional_dependencies,
        b.unused_enum_members,
        b.unused_class_members,
        b.unresolved_imports,
        b.unlisted_dependencies,
        b.duplicate_exports,
        b.circular_dependencies,
        b.type_only_dependencies,
        b.test_only_dependencies,
    ]
}

/// `key = value` lines of the first `n` counts.
pub open spec fn toml_entries(b: ConfigRegressionBaseline, n: nat) -> Seq<char>
    decreases n,
{
    if n == 0 {
        Seq::empty()
    } else {
        toml_entries(b, (n - 1) as nat) + config_keys()[n - 1] + " = "@ + decimal(
            config_counts(b)[n - 1],
        ) + "\n"@
    }
}

/// The `[regression.baseline]` TOML section for a baseline.
pub open spec fn toml_section(b: ConfigRegressionBaseline) -> Seq<char> {
    "[regression.baseline]\n"@ + toml_entries(b, 15)
}

/// The `"key": value` entries of the first `n` counts, each on its own line
/// indented by six spaces, separated by commas.
pub open spec fn json_entries(b: ConfigRegressionBaseline, n: nat) -> Seq<char>
    decreases n,
{
    if n == 0 {
        Seq::empty()
    } else {
        let entry = "\n      \""@ + config_keys()[n - 1] + "\": "@ + decimal(
            config_counts(b)[n - 1],
        );
        if n == 1 {
            entry
        } else {
            json_entries(b, (n - 1) as nat) + ","@ + entry
        }
    }
}

/// The `"regression"` member holding the pretty-printed baseline object,
/// indented for a top-level key.
pub open spec fn regression_block(b: ConfigRegressionBaseline) -> Seq<char> {
    seq![' ', ' '] + regression_member(b)
}

/// The `"regression"` member text without its leading indentation.
pub open spec fn regression_member(b: ConfigRegressionBaseline) -> Seq<char> {
    "\"regression\": {\n    \"baseline\":     {"@ + json_entries(b, 15) + "\n    }\n  }"@
}

fn build_toml_section(b: &ConfigRegressionBaseline) -> (r: Vec<char>)
    ensures
        r@ == toml_section(*b),
{
    let keys = config_key_strs();
    let vals = config_values(b);
    let mut out: Vec<char> = Vec::new();
    push_str(&mut out, "[regression.baseline]\n");
    let ghost head = out@;
    let mut i: usize = 0;
    while i < 15
        invariant
            i <= 15,
            keys@.len() == 15 && vals@.len() == 15,
            forall|j: int| 0 <= j < 15 ==> (#[trigger] keys@[j])@ == config_keys()[j],
            forall|j: int| 0 <= j < 15 ==> (#[trigger] vals@[j]) as nat == config_counts(*b)[j],
            head == "[regression.baseline]\n"@,
            out@ == head + toml_entries(*b, i as nat),
        decreases 15 - i,
    {
        push_str(&mut out, keys[i]);
        push_str(&mut out, " = ");
        push_decimal(&mut out, vals[i] as u64);
        push_str(&mut out, "\n");
        i = i + 1;
        proof {
            assert(out@ =~= head + toml_entries(*b, i as nat));
        }
    }
    out
}

fn build_regression_member(b: &ConfigRegressionBaseline) -> (r: Vec<char>)
    ensures
        r@ == regression_member(*b),
{
    let keys = config_key_strs();
    let vals = config_values(b);
    let mut out: Vec<char> = Vec::new();
    push_str(&mut out, "\"regression\": {\n    \"baseline\":     {");
    let ghost head = out@;
    let mut i: usize = 0;
    while i < 15
        invariant
            i <= 15,
            keys@.len() == 15 && vals@.len() == 15,
            forall|j: int| 0 <= j < 15 ==> (#[trigger] keys@[j])@ == config_keys()[j],
            forall|j: int| 0 <= j < 15 ==> (#[trigger] vals@[j]) as nat == config_counts(*b)[j],
            head == "\"regression\": {\n    \"baseline\":     {"@,
            out@ == head + json_entries(*b, i as nat),
        decreases 15 - i,
    {
        if i > 0 {
            push_str(&mut out, ",");
        }
        push_str(&mut out, "\n      \"");
        push_str(&mut out, keys[i]);
        push_str(&mut out, "\": ");
        push_decimal(&mut out, vals[i] as u64);
        i = i + 1;
        proof {
            assert(out@ =~= head + json_entries(*b, i as nat));
        }
    }
    push_str(&mut out, "\n    }\n  }");
    out
}

// ── JSONC key search ─────────────────────────────────────────────

/// Where a JSONC scan stands before a character.
#[derive(Debug, Clone, Copy, PartialEq, Eq, Structural)]
pub enum LexState {
    /// Outside strings and comments.
    Code,
    /// Inside a string literal.
    Str,
    /// Just after a backslash inside a string literal.
    StrEscape,
    /// At the second `/` of a `//`.
    LineOpen,
    /// Inside a `//` comment.
    Line,
    /// At the `*` of a `/*`.
    BlockOpen,
    /// Inside a `/* */` comment.
    Block,
    /// At the `/` of the `*/` that closes a block comment.
    BlockClose,
}

/// The character after position `i`, if any.
pub open spec fn next_char(s: Seq<char>, i: int) -> Option<char> {
    if 0 <= i + 1 < s.len() {
        Some(s[i + 1])
    } else {
        None
    }
}

/// One step of the scan: the state after character `c` (followed by
/// `next`), and whether `c` belongs to a comment.
pub open spec fn lex_step(st: LexState, c: char, next: Option<char>) -> (LexState, bool) {
    match st {
        LexState::Code => if c == '"' {
            (LexState::Str, false)
        } else if c == '/' && next == Some('/') {
            (LexState::LineOpen, true)
        } else if c == '/' && next == Some('*') {
            (LexState::BlockOpen, true)
        } else {
            (LexState::Code, false)
        },
        LexState::Str => if c == '\\' {
            (LexState::StrEscape, false)
        } else if c == '"' {
            (LexState::Code, false)
        } else {
            (LexState::Str, false)
        },
        LexState::StrEscape => (LexState::Str, false),
        LexState::LineOpen => (LexState::Line, true),
        LexState::Line => if c == '\n' {
            (LexState::Code, false)
        } else {
            (LexState::Line, true)
        },
        LexState::BlockOpen => (LexState::Block, true),
        LexState::Block => if c == '*' && next == Some('/') {
            (LexState::BlockClose, true)
        } else {
            (LexState::Block, true)
        },
        LexState::BlockClose => (LexState::Code, true),
    }
}

/// The scan's state before character `i` of `s`, from the start.
pub open spec fn lex_state(s: Seq<char>, i: nat) -> LexState
    decreases i,
{
    if i == 0 {
        LexState::Code
    } else {
        lex_step(lex_state(s, (i - 1) as nat), s[i - 1], next_char(s, i - 1)).0
    }
}

/// Character `i` belongs to a `//` or `/* */` comment (comment markers
/// inside string literals do not open comments).
pub open spec fn comment_at(s: Seq<char>, i: int) -> bool {
    lex_step(lex_state(s, i as nat), s[i], next_char(s, i)).1
}

/// No character of `s[p..p + n]` belongs to a comment.
pub open spec fn outside_comments(s: Seq<char>, p: int, n: int) -> bool {
    forall|j: int| p <= j < p + n ==> !#[trigger] comment_at(s, j)
}

/// The quoted form `"key"` of a key.
pub open spec fn quoted(key: Seq<char>) -> Seq<char> {
    seq!['"'] + key + seq!['"']
}

/// `"key"` occurs at `p` and lies outside every comment.
pub open spec fn key_at(s: Seq<char>, key: Seq<char>, p: int) -> bool {
    occurs_at(s, quoted(key), p) && outside_comments(s, p, quoted(key).len() as int)
}

/// The first occurrence of `needle` at or after `from` that lies outside
/// every comment.
pub open spec fn key_search(s: Seq<char>, needle: Seq<char>, from: int) -> Option<int>
    decreases s.len() - from,
{
    if needle.len() == 0 || from < 0 {
        None
    } else {
        match first_occ_from(s, needle, from) {
            None => None,
            Some(p) => if p < from || p + needle.len() > s.len() {
                None
            } else if outside_comments(s, p, needle.len() as int) {
                Some(p)
            } else {
                key_search(s, needle, p + 1)
            },
        }
    }
}

/// Character position of the first `"key"` outside `//` and `/* */` comments.
pub open spec fn json_key_position(content: Seq<char>, key: Seq<char>) -> Option<int> {
    key_search(content, quoted(key), 0)
}

proof fn lemma_key_search_first(s: Seq<char>, needle: Seq<char>, from: int)
    requires
        needle.len() > 0,
        0 <= from,
    ensures
        match key_search(s, needle, from) {
            Some(p) => from <= p && p + needle.len() <= s.len() && occurs_at(s, needle, p)
                && outside_comments(s, p, needle.len() as int) && forall|q: int|
                from <= q < p ==> !(occurs_at(s, needle, q) && outside_comments(
                    s,
                    q,
                    needle.len() as int,
                )),
            None => forall|q: int|
                from <= q ==> !(occurs_at(s, needle, q) && outside_comments(
                    s,
                    q,
                    needle.len() as int,
                )),
        },
    decreases s.len() - from,
{
    crate::search::lemma_first_occ_props(s, needle, from);
    match first_occ_from(s, needle, from) {
        None => {},
        Some(p) => {
            if !outside_comments(s, p, needle.len() as int) {
                lemma_key_search_first(s, needle, p + 1);
            }
        },
    }
}

proof fn lemma_key_search_bound(s: Seq<char>, needle: Seq<char>, from: int)
    ensures
        match key_search(s, needle, from) {
            Some(p) => 0 <= p && p + needle.len() <= s.len(),
            None => true,
        },
{
    if needle.len() > 0 && from >= 0 {
        lemma_key_search_first(s, needle, from);
    }
}

fn lex_step_exec(st: LexState, c: char, next: Option<char>) -> (r: (LexState, bool))
    ensures
        r == lex_step(st, c, next),
{
    match st {
        LexState::Code => if c == '"' {
            (LexState::Str, false)
        } else if c == '/' && next == Some('/') {
            (LexState::LineOpen, true)
        } else if c == '/' && next == Some('*') {
            (LexState::BlockOpen, true)
        } else {
            (LexState::Code, false)
        },
        LexState::Str => if c == '\\' {
            (LexState::StrEscape, false)
        } else if c == '"' {
            (LexState::Code, false)
        } else {
            (LexState::Str, false)
        },
        LexState::StrEscape => (LexState::Str, false),
        LexState::LineOpen => (LexState::Line, true),
        LexState::Line => if c == '\n' {
            (LexState::Code, false)
        } else {
            (LexState::Line, true)
        },
        LexState::BlockOpen => (LexState::Block, true),
        LexState::Block => if c == '*' && next == Some('/') {
            (LexState::BlockClose, true)
        } else {
            (LexState::Block, true)
        },
        LexState::BlockClose => (LexState::Code, true),
    }
}

/// Which characters of `s` belong to comments.
fn comment_mask(s: &Vec<char>) -> (m: Vec<bool>)
    ensures
        m@.len() == s@.len(),
        forall|j: int| 0 <= j < s@.len() ==> m@[j] == comment_at(s@, j),
{
    let mut m: Vec<bool> = Vec::new();
    let mut st = LexState::Code;
    let mut i: usize = 0;
    while i < s.len()
        invariant
            i <= s@.len(),
            m@.len() == i,
            st == lex_state(s@, i as nat),
            forall|j: int| 0 <= j < i ==> m@[j] == comment_at(s@, j),
        decreases s.len() - i,
    {
        let next = if i + 1 < s.len() {
            Some(s[i + 1])
        } else {
            None
        };
        let (nst, in_comment) = lex_step_exec(st, s[i], next);
        proof {
            assert(next == next_char(s@, i as int));
            assert(lex_state(s@, (i + 1) as nat) == nst);
        }
        m.push(in_comment);
        st = nst;
        i = i + 1;
    }
    m
}

fn find_json_key_chars(s: &Vec<char>, key: &Vec<char>) -> (r: Option<usize>)
    ensures
        match json_key_position(s@, key@) {
            Some(p) => r == Some(p as usize),
            None => r is None,
        },
{
    let mut needle: Vec<char> = Vec::new();
    needle.push('"');
    push_all(&mut needle, key);
    needle.push('"');
    proof {
        assert(needle@ =~= quoted(key@));
    }
    let mask = comment_mask(s);
    let mut from: usize = 0;
    loop
        invariant
            needle@ == quoted(key@),
            mask@.len() == s@.len(),
            forall|j: int| 0 <= j < s@.len() ==> mask@[j] == comment_at(s@, j),
            from <= s.len(),
            key_search(s@, needle@, 0) == key_search(s@, needle@, from as int),
        decreases s.len() - from,
    {
        proof {
            crate::search::lemma_first_occ_props(s@, needle@, from as int);
        }
        match find_from(s, &needle, from) {
            None => {
                return None;
            },
            Some(p) => {
                let n = needle.len();
                proof {
                    assert(occurs_at(s@, needle@, p as int));
                }
                let end = p + n;
                let mut j = p;
                let mut clear = true;
                while j < end
                    invariant
                        end == p + n,
                        p + n <= s@.len(),
                        p <= j <= p + n,
                        mask@.len() == s@.len(),
                        forall|q: int| 0 <= q < s@.len() ==> mask@[q] == comment_at(s@, q),
                        clear == (forall|q: int| p <= q < j ==> !#[trigger] comment_at(s@, q)),
                    decreases p + n - j,
                {
                    if mask[j] {
                        clear = false;
                    }
                    j = j + 1;
                }
                if clear {
                    return Some(p);
                }
                from = p + 1;
            },
        }
    }
}

/// Find a JSON key in content, skipping `//` line comments and `/* */` block
/// comments (comment markers inside string literals open no comment).
/// Returns the byte offset of the opening `"` of the first `"key"` that lies
/// outside every comment.
pub fn find_json_key(content: &str, key: &str) -> (r: Option<usize>)
    ensures
        match r {
            Some(b) => exists|p: int|
                key_at(content@, key@, p) && b == utf8_len(content@.take(p)) && forall|q: int|
                    0 <= q < p ==> !#[trigger] key_at(content@, key@, q),
            None => forall|p: int| 0 <= p ==> !#[trigger] key_at(content@, key@, p),
        },
        match json_key_position(content@, key@) {
            Some(p) => r == Some(utf8_len(content@.take(p)) as usize),
            None => r is None,
        },
{
    crate::text::str_utf8_len_fits(content);
    let s = str_chars(content);
    let k = str_chars(key);
    proof {
        lemma_key_search_first(s@, quoted(k@), 0);
    }
    match find_json_key_chars(&s, &k) {
        Some(p) => {
            proof {
                lemma_utf8_len_mono(s@, p as int);
                assert(key_at(content@, key@, p as int));
            }
            Some(utf8_prefix_len(&s, p))
        },
        None => None,
    }
}

// ── Config updates ───────────────────────────────────────────────

/// TOML config text with `section` replacing an existing `[regression.baseline]`
/// section (up to the next section header), or appended after a blank line.
pub open spec fn toml_update(content: Seq<char>, section: Seq<char>) -> Seq<char> {
    let header = "[regression.baseline]"@;
    match first_occ_from(content, header, 0) {
        Some(start) => {
            let end = match first_occ_from(content, seq!['\n', '['], start + header.len()) {
                Some(i) => i + 1,
                None => content.len() as int,
            };
            content.take(start) + section + content.skip(end)
        },
        None => {
            let c = if content.len() > 0 && content.last() == '\n' {
                content
            } else {
                content.push('\n')
            };
            c.push('\n') + section
        },
    }
}

/// Update a TOML config file with a regression baseline.
pub fn update_toml_regression(content: &str, baseline: &ConfigRegressionBaseline) -> (r: String)
    ensures
        r@ == toml_update(content@, toml_section(*baseline)),
{
    let section = build_toml_section(baseline);
    let s = str_chars(content);
    let header = str_chars("[regression.baseline]");
    let mut out: Vec<char> = Vec::new();
    match find_from(&s, &header, 0) {
        Some(start) => {
            proof {
                crate::search::lemma_first_occ_props(s@, header@, 0);
            }
            assert(start + header.len() <= s.len());
            let nlb: Vec<char> = vec!['\n', '['];
            proof {
                assert(nlb@ =~= seq!['\n', '[']);
                crate::search::lemma_first_occ_props(s@, nlb@, start + header.len());
            }
            let end = match find_from(&s, &nlb, start + header.len()) {
                Some(i) => i + 1,
                None => s.len(),
            };
            let a = slice_vec(&s, 0, start);
            let b = slice_vec(&s, end, s.len());
            push_all(&mut out, &a);
            push_all(&mut out, &section);
            push_all(&mut out, &b);
            proof {
                assert(a@ =~= s@.take(start as int));
                assert(b@ =~= s@.skip(end as int));
            }
        },
        None => {
            push_all(&mut out, &s);
            if !(s.len() > 0 && s[s.len() - 1] == '\n') {
                out.push('\n');
            }
            out.push('\n');
            push_all(&mut out, &section);
        },
    }
    chars_to_string(out.as_slice())
}

/// Brace balance of `s`: the number of `{` minus the number of `}`.
pub open spec fn brace_balance(s: Seq<char>) -> int
    decreases s.len(),
{
    if s.len() == 0 {
        0
    } else {
        brace_balance(s.drop_last()) + if s.last() == '{' {
            1int
        } else if s.last() == '}' {
            -1int
        } else {
            0int
        }
    }
}

/// The first end `j >= from` (with `j > a`) at which `s[a..j]` is balanced.
pub open spec fn balanced_end(s: Seq<char>, a: int, from: int) -> Option<int>
    decreases s.len() - from,
{
    if from > s.len() || from <= a || a < 0 {
        None
    } else if brace_balance(s.subrange(a, from)) == 0 {
        Some(from)
    } else if from == s.len() {
        None
    } else {
        balanced_end(s, a, from + 1)
    }
}

/// JSONC config text with `block` inserted as the last member of the top-level
/// object, or an error when the text has no closing brace.
pub open spec fn json_insert(content: Seq<char>, block: Seq<char>) -> Result<Seq<char>, Seq<char>> {
    match last_occ_before(content, seq!['}'], content.len() as int) {
        Some(lb) => {
            let before = trim_end(content.take(lb));
            let needs_comma = !(before.len() > 0 && (before.last() == '{' || before.last()
                == ','));
            Ok(
                before + (if needs_comma {
                    seq![',']
                } else {
                    Seq::empty()
                }) + seq!['\n'] + block + seq!['\n'] + content.skip(lb),
            )
        },
        None => Err("config file has no closing brace"@),
    }
}

/// JSONC config text with the member `regression` replaced by `block` (which
/// starts with two spaces of indentation that the original indentation
/// replaces), or `block` inserted when there is no such member.
pub open spec fn json_update(content: Seq<char>, block: Seq<char>) -> Result<Seq<char>, Seq<char>> {
    match json_key_position(content, "regression"@) {
        Some(start) => match first_occ_from(content, seq!['{'], start) {
            Some(ab) => match balanced_end(content, ab, ab + 1) {
                Some(end) => Ok(content.take(start) + block.skip(2) + content.skip(end)),
                None => Err("malformed JSON: unmatched brace in regression object"@),
            },
            None => json_insert(content, block),
        },
        None => json_insert(content, block),
    }
}

#[verifier::rlimit(40)]
fn json_insert_exec(s: &Vec<char>, block: &Vec<char>) -> (r: Result<Vec<char>, String>)
    ensures
        match (r, json_insert(s@, block@)) {
            (Ok(v), Ok(w)) => v@ == w,
            (Err(m), Err(w)) => m@ == w,
            _ => false,
        },
{
    let close: Vec<char> = vec!['}'];
    proof {
        assert(close@ =~= seq!['}']);
        crate::search::lemma_last_occ_bound(s@, seq!['}'], s@.len() as int);
    }
    match rfind_before(s, &close, s.len()) {
        Some(lb) => {
            let tw = count_trailing_ws(s, 0, lb);
            proof {
                assert(s@.subrange(0, lb as int) =~= s@.take(lb as int));
                lemma_trailing_ws_bound(s@.take(lb as int));
            }
            let before = slice_vec(s, 0, lb - tw);
            proof {
                assert(before@ =~= trim_end(s@.take(lb as int)));
            }
            let needs_comma = !(before.len() > 0 && (before[before.len() - 1] == '{'
                || before[before.len() - 1] == ','));
            let mut out: Vec<char> = Vec::new();
            push_all(&mut out, &before);
            if needs_comma {
                out.push(',');
            }
            out.push('\n');
            push_all(&mut out, block);
            out.push('\n');
            let rest = slice_vec(s, lb, s.len());
            push_all(&mut out, &rest);
            proof {
                assert(rest@ =~= s@.skip(lb as int));
                let bf = trim_end(s@.take(lb as int));
                let comma = if needs_comma {
                    seq![',']
                } else {
                    Seq::empty()
                };
                assert(out@ =~= bf + comma + seq!['\n'] + block@ + seq!['\n'] + s@.skip(lb as int));
            }
            Ok(out)
        },
        None => Err(chars_to_string(str_chars("config file has no closing brace").as_slice())),
    }
}

proof fn lemma_balanced_end_bound(s: Seq<char>, a: int, from: int)
    ensures
        match balanced_end(s, a, from) {
            Some(j) => a < j <= s.len() && from <= j,
            None => true,
        },
    decreases s.len() - from,
{
    if !(from > s.len() || from <= a || a < 0) && brace_balance(s.subrange(a, from)) != 0
        && from != s.len() {
        lemma_balanced_end_bound(s, a, from + 1);
    }
}

fn balanced_end_exec(s: &Vec<char>, a: usize) -> (r: Option<usize>)
    requires
        a < s.len(),
        s@[a as int] == '{',
    ensures
        match balanced_end(s@, a as int, a + 1) {
            Some(j) => r == Some(j as usize),
            None => r is None,
        },
{
    let mut depth: usize = 1;
    let mut j: usize = a + 1;
    proof {
        assert(s@.subrange(a as int, a + 1).drop_last() =~= Seq::<char>::empty());
        assert(s@.subrange(a as int, a + 1).last() == '{');
        assert(brace_balance(Seq::<char>::empty()) == 0);
        assert(brace_balance(s@.subrange(a as int, a + 1)) == 1);
    }
    while j <= s.len()
        invariant
            a < j <= s.len() + 1,
            j <= s.len() ==> depth as int == brace_balance(s@.subrange(a as int, j as int)),
            depth <= j - a,
            balanced_end(s@, a as int, a + 1) == balanced_end(s@, a as int, j as int),
        decreases s.len() + 1 - j,
    {
        if depth == 0 {
            return Some(j);
        }
        if j == s.len() {
            return None;
        }
        proof {
            assert(s@.subrange(a as int, j + 1).drop_last() =~= s@.subrange(a as int, j as int));
            assert(s@.subrange(a as int, j + 1).last() == s@[j as int]);
        }
        let c = s[j];
        if c == '{' {
            depth = depth + 1;
        } else if c == '}' {
            depth = depth - 1;
        }
        j = j + 1;
    }
    None
}

/// Update a JSONC config file with a regression baseline, preserving comments.
pub fn update_json_regression(content: &str, baseline: &ConfigRegressionBaseline) -> (r: Result<
    String,
    String,
>)
    ensures
        match (r, json_update(content@, regression_block(*baseline))) {
            (Ok(v), Ok(w)) => v@ == w,
            (Err(m), Err(w)) => m@ == w,
            _ => false,
        },
{
    let member = build_regression_member(baseline);
    let mut block: Vec<char> = Vec::new();
    block.push(' ');
    block.push(' ');
    push_all(&mut block, &member);
    proof {
        assert(block@ =~= regression_block(*baseline));
        assert(block@.skip(2) =~= member@);
    }
    let s = str_chars(content);
    let key = str_chars("regression");
    match find_json_key_chars(&s, &key) {
        Some(start) => {
            proof {
                lemma_key_search_bound(s@, quoted(key@), 0);
            }
            let brace: Vec<char> = vec!['{'];
            proof {
                assert(brace@ =~= seq!['{']);
                crate::search::lemma_first_occ_props(s@, seq!['{'], start as int);
            }
            match find_from(&s, &brace, start) {
                Some(ab) => {
                    proof {
                        let fo = first_occ_from(s@, seq!['{'], start as int);
                        assert(brace@ == seq!['{']);
                        assert(fo is Some);
                        assert(0 <= fo->0 && fo->0 + 1 <= s@.len());
                        assert(s@.len() == s.len());
                        assert(fo == Some(ab as int));
                        assert(occurs_at(s@, seq!['{'], ab as int));
                        assert(s@.subrange(ab as int, ab + 1) == seq!['{']);
                        assert(s@[ab as int] == s@.subrange(ab as int, ab + 1)[0]);
                    }
                    match balanced_end_exec(&s, ab) {
                        Some(end) => {
                            proof {
                                lemma_balanced_end_bound(s@, ab as int, ab + 1);
                            }
                            let mut out = slice_vec(&s, 0, start);
                            push_all(&mut out, &member);
                            let rest = slice_vec(&s, end, s.len());
                            push_all(&mut out, &rest);
                            proof {
                                assert(out@ =~= s@.take(start as int) + block@.skip(2) + s@.skip(
                                    end as int,
                                ));
                            }
                            Ok(chars_to_string(out.as_slice()))
                        },
                        None => Err(
                            chars_to_string(
                                str_chars(
                                    "malformed JSON: unmatched brace in regression object",
                                ).as_slice(),
                            ),
                        ),
                    }
                },
                None => match json_insert_exec(&s, &block) {
                    Ok(v) => Ok(chars_to_string(v.as_slice())),
                    Err(m) => Err(m),
                },
            }
        },
        None => match json_insert_exec(&s, &block) {
            Ok(v) => Ok(chars_to_string(v.as_slice())),
            Err(m) => Err(m),
        },
    }
}

} // verus!
