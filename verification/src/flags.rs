//! Feature flags found in the sources: their kind, which of them are
//! reported (changed files, workspace, order, limit), and how they are shown.
use vstd::prelude::*;
use crate::dead_code::{masked, retain_mask};
use crate::ordering::{
    key_views, lemma_keys_follow_items, lemma_tagged_view, path_parts, path_parts_exec,
    stable_sort_by_key, stably_sorted, tagged, KeyView, SortKey,
};
use crate::paths::{contains_path, holds_path, path_starts_with, path_starts_with_exec, paths_equal, relative_or_self, relative_to, same_path};
use crate::runtime_coverage::forward_slash;
use crate::text::{chars_to_string, decimal, push_decimal, push_str, str_chars};

verus! {

// ── Kinds ────────────────────────────────────────────────────────

/// How the parser recognised a flag use.
#[derive(Debug, Clone, Copy, PartialEq, Eq, Structural)]
pub enum FlagUseKind {
    EnvVar,
    SdkCall,
    ConfigObject,
}

/// The kind of a reported feature flag.
#[derive(Debug, Clone, Copy, PartialEq, Eq, Structural)]
pub enum FlagKind {
    EnvironmentVariable,
    SdkCall,
    ConfigObject,
}

/// How sure the detection is.
#[derive(Debug, Clone, Copy, PartialEq, Eq, Structural)]
pub enum FlagConfidence {
    High,
    Medium,
    Low,
}

/// A flag use the parser found in a module.
#[derive(Debug, Clone)]
pub struct FlagUse {
    pub flag_name: String,
    pub kind: FlagUseKind,
    pub line: u32,
    pub col: u32,
    pub guard_span_start: Option<u32>,
    pub guard_span_end: Option<u32>,
    pub sdk_name: Option<String>,
}

/// A reported feature flag.
#[derive(Debug, Clone)]
pub struct FeatureFlag {
    pub path: String,
    pub flag_name: String,
    pub kind: FlagKind,
    pub confidence: FlagConfidence,
    pub line: u32,
    pub col: u32,
    pub guard_span_start: Option<u32>,
    pub guard_span_end: Option<u32>,
    pub sdk_name: Option<String>,
    pub guard_line_start: Option<u32>,
    pub guard_line_end: Option<u32>,
    pub guarded_dead_exports: Vec<String>,
}

/// The kind and confidence of a flag found in a given way: environment
/// variables and SDK calls are certain, configuration objects a heuristic.
pub open spec fn kind_of(k: FlagUseKind) -> (FlagKind, FlagConfidence) {
    match k {
        FlagUseKind::EnvVar => (FlagKind::EnvironmentVariable, FlagConfidence::High),
        FlagUseKind::SdkCall => (FlagKind::SdkCall, FlagConfidence::High),
        FlagUseKind::ConfigObject => (FlagKind::ConfigObject, FlagConfidence::Low),
    }
}

/// The characters of an optional string.
pub open spec fn opt_chars(o: Option<String>) -> Option<Seq<char>> {
    match o {
        Some(s) => Some(s@),
        None => None,
    }
}

/// The reported flag of a flag use in the file `path`. `guard_lines` are the
/// lines of the guard's first and last byte, where they are known; they are
/// used when the use has a guard span.
pub fn flag_use_to_feature_flag(flag_use: &FlagUse, path: &str, guard_lines: Option<(u32, u32)>) -> (r:
    FeatureFlag)
    ensures
        r.path@ == path@,
        r.flag_name@ == flag_use.flag_name@,
        (r.kind, r.confidence) == kind_of(flag_use.kind),
        r.line == flag_use.line,
        r.col == flag_use.col,
        r.guard_span_start == flag_use.guard_span_start,
        r.guard_span_end == flag_use.guard_span_end,
        opt_chars(r.sdk_name) == opt_chars(flag_use.sdk_name),
        (r.guard_line_start, r.guard_line_end) == (match (
            flag_use.guard_span_start,
            flag_use.guard_span_end,
            guard_lines,
        ) {
            (Some(_), Some(_), Some((s, e))) => (Some(s), Some(e)),
            _ => (None, None),
        }),
        r.guarded_dead_exports@.len() == 0,
{
    let (kind, confidence) = match flag_use.kind {
        FlagUseKind::EnvVar => (FlagKind::EnvironmentVariable, FlagConfidence::High),
        FlagUseKind::SdkCall => (FlagKind::SdkCall, FlagConfidence::High),
        FlagUseKind::ConfigObject => (FlagKind::ConfigObject, FlagConfidence::Low),
    };
    let (guard_line_start, guard_line_end) = match (
        flag_use.guard_span_start,
        flag_use.guard_span_end,
        guard_lines,
    ) {
        (Some(_), Some(_), Some((s, e))) => (Some(s), Some(e)),
        _ => (None, None),
    };
    FeatureFlag {
        path: String::from_str(path),
        flag_name: flag_use.flag_name.clone(),
        kind,
        confidence,
        line: flag_use.line,
        col: flag_use.col,
        guard_span_start: flag_use.guard_span_start,
        guard_span_end: flag_use.guard_span_end,
        sdk_name: match &flag_use.sdk_name {
            Some(s) => Some(s.clone()),
            None => None,
        },
        guard_line_start,
        guard_line_end,
        guarded_dead_exports: Vec::new(),
    }
}

// ── Custom patterns ──────────────────────────────────────────────

/// Whether a built-in use already has the line and name of `u`.
pub open spec fn already_found(builtin: Seq<FlagUse>, u: FlagUse) -> bool {
    exists|i: int|
        0 <= i < builtin.len() && #[trigger] builtin[i].line == u.line && builtin[i].flag_name@
            == u.flag_name@
}

/// For each use found by the configured patterns, whether it is new.
pub open spec fn new_use_flags(builtin: Seq<FlagUse>, custom: Seq<FlagUse>) -> Seq<bool> {
    custom.map_values(|u: FlagUse| !already_found(builtin, u))
}

fn is_already_found(builtin: &Vec<FlagUse>, u: &FlagUse) -> (r: bool)
    ensures
        r == already_found(builtin@, *u),
{
    let mut i: usize = 0;
    while i < builtin.len()
        invariant
            i <= builtin@.len(),
            forall|j: int|
                0 <= j < i ==> !(#[trigger] builtin@[j].line == u.line && builtin@[j].flag_name@
                    == u.flag_name@),
        decreases builtin.len() - i,
    {
        if builtin[i].line == u.line && builtin[i].flag_name == u.flag_name {
            return true;
        }
        i = i + 1;
    }
    false
}

/// The uses found by the configured patterns that the built-in patterns did
/// not find already (same line and name), in order.
pub fn new_custom_uses(builtin: &Vec<FlagUse>, custom: Vec<FlagUse>) -> (r: Vec<FlagUse>)
    ensures
        r@ == masked(custom@, new_use_flags(builtin@, custom@)),
{
    let ghost cv = custom@;
    let mut keep: Vec<bool> = Vec::new();
    let mut i: usize = 0;
    while i < custom.len()
        invariant
            cv == custom@,
            i <= cv.len(),
            keep@ == new_use_flags(builtin@, cv).take(i as int),
        decreases custom.len() - i,
    {
        let f = !is_already_found(builtin, &custom[i]);
        keep.push(f);
        proof {
            assert(keep@ =~= new_use_flags(builtin@, cv).take(i + 1));
        }
        i = i + 1;
    }
    proof {
        assert(new_use_flags(builtin@, cv).take(i as int) =~= new_use_flags(builtin@, cv));
    }
    let mut out = custom;
    retain_mask(&mut out, &keep);
    out
}

// ── Selection ────────────────────────────────────────────────────

/// Whether a flag is reported: in one of the changed files and below the
/// workspace root, where those are given.
pub open spec fn flag_in_scope(f: FeatureFlag, changed: Option<Seq<String>>, ws_root: Option<Seq<char>>) -> bool {
    &&& match changed {
        Some(c) => holds_path(c, f.path@),
        None => true,
    }
    &&& match ws_root {
        Some(w) => path_starts_with(f.path@, w),
        None => true,
    }
}

/// For each flag, whether it is reported.
pub open spec fn scope_flags(
    fs: Seq<FeatureFlag>,
    changed: Option<Seq<String>>,
    ws_root: Option<Seq<char>>,
) -> Seq<bool> {
    fs.map_values(|f: FeatureFlag| flag_in_scope(f, changed, ws_root))
}

/// Flags are listed by path (component by component), then line, then name.
pub open spec fn flag_key(f: FeatureFlag) -> KeyView {
    (0, path_parts(f.path@), f.line as nat, f.flag_name@)
}

/// The sort keys of flags.
pub open spec fn flag_keys(fs: Seq<FeatureFlag>) -> Seq<KeyView> {
    fs.map_values(|f: FeatureFlag| flag_key(f))
}

/// The number of flags kept under an optional limit.
pub open spec fn limited(n: nat, top: Option<usize>) -> nat {
    match top {
        Some(t) => if t < n {
            t as nat
        } else {
            n
        },
        None => n,
    }
}

/// The changed files, where they are given.
pub open spec fn changed_view(changed: Option<&Vec<String>>) -> Option<Seq<String>> {
    match changed {
        Some(c) => Some(c@),
        None => None,
    }
}

/// The workspace root, where it is given.
pub open spec fn root_view(ws_root: Option<&str>) -> Option<Seq<char>> {
    match ws_root {
        Some(w) => Some(w@),
        None => None,
    }
}

/// The flags to report: those in scope, ordered by path, line and name (a
/// stable order), and at most `top` of them.
pub fn select_flags(
    flags: Vec<FeatureFlag>,
    changed: Option<&Vec<String>>,
    ws_root: Option<&str>,
    top: Option<usize>,
) -> (r: Vec<FeatureFlag>)
    ensures
        ({
            let kept = masked(flags@, scope_flags(flags@, changed_view(changed), root_view(ws_root)));
            exists|all: Seq<FeatureFlag>|
                #![trigger stably_sorted(all, flag_keys(all), kept, flag_keys(kept))]
                stably_sorted(all, flag_keys(all), kept, flag_keys(kept)) && r@ == all.take(
                    limited(kept.len(), top) as int,
                )
        }),
{
    let ghost cv: Option<Seq<String>> = match changed {
        Some(c) => Some(c@),
        None => None,
    };
    let ghost wv: Option<Seq<char>> = match ws_root {
        Some(w) => Some(w@),
        None => None,
    };
    let ghost fv = flags@;
    let mut keep: Vec<bool> = Vec::new();
    let mut i: usize = 0;
    while i < flags.len()
        invariant
            fv == flags@,
            cv == (match changed {
                Some(c) => Some(c@),
                None => None::<Seq<String>>,
            }),
            wv == (match ws_root {
                Some(w) => Some(w@),
                None => None::<Seq<char>>,
            }),
            i <= fv.len(),
            keep@ == scope_flags(fv, cv, wv).take(i as int),
        decreases flags.len() - i,
    {
        let p = flags[i].path.as_str();
        let in_changed = match changed {
            Some(c) => contains_path(c, p),
            None => true,
        };
        let in_ws = match ws_root {
            Some(w) => path_starts_with_exec(p, w),
            None => true,
        };
        keep.push(in_changed && in_ws);
        proof {
            assert(keep@ =~= scope_flags(fv, cv, wv).take(i + 1));
        }
        i = i + 1;
    }
    proof {
        assert(scope_flags(fv, cv, wv).take(i as int) =~= scope_flags(fv, cv, wv));
    }
    let mut kept_flags = flags;
    retain_mask(&mut kept_flags, &keep);
    let ghost kept = kept_flags@;
    let mut keys: Vec<SortKey> = Vec::new();
    let mut j: usize = 0;
    while j < kept_flags.len()
        invariant
            kept == kept_flags@,
            j <= kept.len(),
            key_views(keys@) == flag_keys(kept.take(j as int)),
        decreases kept_flags.len() - j,
    {
        let f = &kept_flags[j];
        let k = SortKey {
            primary: 0,
            parts: path_parts_exec(&str_chars(f.path.as_str())),
            secondary: f.line as u64,
            name: str_chars(f.flag_name.as_str()),
        };
        let ghost before = keys@;
        keys.push(k);
        proof {
            assert(key_views(keys@) =~= key_views(before).push(crate::ordering::key_view(k)));
            assert(flag_keys(kept.take(j + 1)) =~= flag_keys(kept.take(j as int)).push(flag_key(kept[j as int])));
        }
        j = j + 1;
    }
    proof {
        assert(kept.take(j as int) =~= kept);
    }
    let ghost ik = key_views(keys@);
    let (mut sorted, sorted_keys) = stable_sort_by_key(kept_flags, keys);
    let ghost all = sorted@;
    proof {
        let id = |f: FeatureFlag| f;
        lemma_tagged_view(sorted@, key_views(sorted_keys@), id);
        lemma_tagged_view(kept, ik, id);
        assert(sorted@.map_values(id) =~= sorted@);
        assert(kept.map_values(id) =~= kept);
        assert(tagged(kept, ik) =~= tagged(kept, flag_keys(kept)));
        lemma_keys_follow_items(sorted@, key_views(sorted_keys@), kept, |f: FeatureFlag| flag_key(f));
        assert(stably_sorted(all, flag_keys(all), kept, flag_keys(kept)));
    }
    if let Some(t) = top {
        sorted.truncate(t);
    }
    proof {
        assert(sorted@ =~= all.take(limited(kept.len(), top) as int));
        assert(kept == masked(fv, scope_flags(fv, cv, wv)));
        assert(stably_sorted(all, flag_keys(all), kept, flag_keys(kept)) && sorted@ == all.take(
            limited(kept.len(), top) as int,
        ));
    }
    sorted
}

// ── Showing flags ────────────────────────────────────────────────

/// How compact output names a kind.
pub open spec fn compact_kind(k: FlagKind) -> Seq<char> {
    match k {
        FlagKind::EnvironmentVariable => "env"@,
        FlagKind::SdkCall => "sdk"@,
        FlagKind::ConfigObject => "config"@,
    }
}

/// How JSON output names a kind.
pub open spec fn kind_name(k: FlagKind) -> Seq<char> {
    match k {
        FlagKind::EnvironmentVariable => "environment_variable"@,
        FlagKind::SdkCall => "sdk_call"@,
        FlagKind::ConfigObject => "config_object"@,
    }
}

/// How JSON output names a confidence.
pub open spec fn confidence_name(c: FlagConfidence) -> Seq<char> {
    match c {
        FlagConfidence::High => "high"@,
        FlagConfidence::Medium => "medium"@,
        FlagConfidence::Low => "low"@,
    }
}

/// How compact output names a kind.
pub fn compact_kind_exec(k: FlagKind) -> (r: &'static str)
    ensures
        r@ == compact_kind(k),
{
    match k {
        FlagKind::EnvironmentVariable => "env",
        FlagKind::SdkCall => "sdk",
        FlagKind::ConfigObject => "config",
    }
}

/// How JSON output names a kind.
pub fn kind_name_exec(k: FlagKind) -> (r: &'static str)
    ensures
        r@ == kind_name(k),
{
    match k {
        FlagKind::EnvironmentVariable => "environment_variable",
        FlagKind::SdkCall => "sdk_call",
        FlagKind::ConfigObject => "config_object",
    }
}

/// How JSON output names a confidence.
pub fn confidence_name_exec(c: FlagConfidence) -> (r: &'static str)
    ensures
        r@ == confidence_name(c),
{
    match c {
        FlagConfidence::High => "high",
        FlagConfidence::Medium => "medium",
        FlagConfidence::Low => "low",
    }
}

/// The label after a flag in human output.
pub open spec fn kind_label(f: FeatureFlag) -> Seq<char> {
    match f.kind {
        FlagKind::EnvironmentVariable => "(env)"@,
        FlagKind::SdkCall => match f.sdk_name {
            Some(sdk) => "(SDK: "@ + sdk@ + ")"@,
            None => "(SDK)"@,
        },
        FlagKind::ConfigObject => "(config, heuristic)"@,
    }
}

/// The label after a flag in human output.
pub fn kind_label_exec(f: &FeatureFlag) -> (r: String)
    ensures
        r@ == kind_label(*f),
{
    match f.kind {
        FlagKind::EnvironmentVariable => String::from_str("(env)"),
        FlagKind::SdkCall => match &f.sdk_name {
            Some(sdk) => {
                let mut s = String::from_str("(SDK: ");
                s.append(sdk.as_str());
                s.append(")");
                s
            },
            None => String::from_str("(SDK)"),
        },
        FlagKind::ConfigObject => String::from_str("(config, heuristic)"),
    }
}

/// The lines a flag's guard spans: from its first to its last line, both
/// included, or 0 when they are not known.
pub open spec fn guard_line_count(f: FeatureFlag) -> nat {
    match (f.guard_line_start, f.guard_line_end) {
        (Some(s), Some(e)) => (if e >= s {
            (e - s) as nat
        } else {
            0
        }) + 1,
        _ => 0,
    }
}

/// A guard's line count fits in a `u32` unless it spans every line number.
pub open spec fn guard_fits(f: FeatureFlag) -> bool {
    guard_line_count(f) <= u32::MAX
}

/// The lines a flag's guard spans.
pub fn guard_lines(f: &FeatureFlag) -> (r: u32)
    requires
        guard_fits(*f),
    ensures
        r == guard_line_count(*f),
{
    match (f.guard_line_start, f.guard_line_end) {
        (Some(s), Some(e)) => {
            let d = if e >= s {
                e - s
            } else {
                0
            };
            d + 1
        },
        _ => 0,
    }
}

/// What human output says about a flag that guards dead code.
pub open spec fn dead_code_detail(f: FeatureFlag) -> Seq<char> {
    let dead = decimal(f.guarded_dead_exports@.len());
    if guard_line_count(f) > 0 {
        "guards "@ + decimal(guard_line_count(f)) + " lines, "@ + dead + " statically dead"@
    } else {
        dead + " dead exports in guarded block"@
    }
}

/// What human output says about a flag that guards dead code.
pub fn dead_code_detail_exec(f: &FeatureFlag) -> (r: String)
    requires
        guard_fits(*f),
    ensures
        r@ == dead_code_detail(*f),
{
    let g = guard_lines(f);
    let mut out: Vec<char> = Vec::new();
    if g > 0 {
        push_str(&mut out, "guards ");
        push_decimal(&mut out, g as u64);
        push_str(&mut out, " lines, ");
        push_decimal(&mut out, f.guarded_dead_exports.len() as u64);
        push_str(&mut out, " statically dead");
    } else {
        push_decimal(&mut out, f.guarded_dead_exports.len() as u64);
        push_str(&mut out, " dead exports in guarded block");
    }
    proof {
        assert(out@ =~= dead_code_detail(*f));
    }
    chars_to_string(out.as_slice())
}

/// A path as shown: relative to the root where it lies below it, with `/`
/// as the separator.
pub open spec fn display_path(path: Seq<char>, root: Seq<char>) -> Seq<char> {
    relative_to(path, root).map_values(|c: char| forward_slash(c))
}

/// A path as shown.
pub fn display_path_exec(path: &str, root: &str) -> (r: String)
    ensures
        r@ == display_path(path@, root@),
{
    let rel = str_chars(relative_or_self(path, root).as_str());
    let mut out: Vec<char> = Vec::new();
    let mut i: usize = 0;
    while i < rel.len()
        invariant
            i <= rel@.len(),
            out@ == rel@.take(i as int).map_values(|c: char| forward_slash(c)),
        decreases rel.len() - i,
    {
        let c = rel[i];
        out.push(if c == '\\' {
            '/'
        } else {
            c
        });
        proof {
            assert(out@ =~= rel@.take(i + 1).map_values(|c: char| forward_slash(c)));
        }
        i = i + 1;
    }
    proof {
        assert(rel@.take(i as int) =~= rel@);
    }
    chars_to_string(out.as_slice())
}

/// The compact line of a flag: `path:line: feature-flag (kind) name`.
pub open spec fn compact_line(f: FeatureFlag, root: Seq<char>) -> Seq<char> {
    display_path(f.path@, root) + ":"@ + decimal(f.line as nat) + ": feature-flag ("@ + compact_kind(f.kind)
        + ") "@ + f.flag_name@
}

/// The compact line of a flag.
pub fn compact_line_exec(f: &FeatureFlag, root: &str) -> (r: String)
    ensures
        r@ == compact_line(*f, root@),
{
    let mut out = str_chars(display_path_exec(f.path.as_str(), root).as_str());
    push_str(&mut out, ":");
    push_decimal(&mut out, f.line as u64);
    push_str(&mut out, ": feature-flag (");
    push_str(&mut out, compact_kind_exec(f.kind));
    push_str(&mut out, ") ");
    push_str(&mut out, f.flag_name.as_str());
    proof {
        assert(out@ =~= compact_line(*f, root@));
    }
    chars_to_string(out.as_slice())
}

/// The suggestion of JSON output for a flag.
pub open spec fn investigate_description(name: Seq<char>) -> Seq<char> {
    "Verify whether feature flag '"@ + name + "' is still active"@
}

/// The suggestion of JSON output for a flag.
pub fn investigate_description_exec(name: &str) -> (r: String)
    ensures
        r@ == investigate_description(name@),
{
    let mut s = String::from_str("Verify whether feature flag '");
    s.append(name);
    s.append("' is still active");
    s
}

/// The flags, by file in the order the files first appear: each file with
/// the positions of its flags, in order.
pub open spec fn group_by_file(fs: Seq<FeatureFlag>) -> Seq<(Seq<char>, Seq<int>)>
    decreases fs.len(),
{
    if fs.len() == 0 {
        Seq::empty()
    } else {
        let g = group_by_file(fs.drop_last());
        let i = fs.len() - 1;
        let p = fs.last().path@;
        match group_index(g, p, 0) {
            Some(k) => g.update(k, (g[k].0, g[k].1.push(i))),
            None => g.push((p, seq![i])),
        }
    }
}

/// The first group at or after `from` whose file is `p`.
pub open spec fn group_index(g: Seq<(Seq<char>, Seq<int>)>, p: Seq<char>, from: int) -> Option<int>
    decreases g.len() - from,
{
    if from < 0 || from >= g.len() {
        None
    } else if same_path(g[from].0, p) {
        Some(from)
    } else {
        group_index(g, p, from + 1)
    }
}

/// The groups of flags by file, as executable values.
pub open spec fn groups_view(g: Seq<(String, Vec<usize>)>) -> Seq<(Seq<char>, Seq<int>)> {
    g.map_values(|e: (String, Vec<usize>)| (e.0@, e.1@.map_values(|k: usize| k as int)))
}

/// The flags grouped by file, in the order the files first appear.
pub fn group_flags_by_file(flags: &Vec<FeatureFlag>) -> (r: Vec<(String, Vec<usize>)>)
    ensures
        groups_view(r@) == group_by_file(flags@),
{
    let ghost fv = flags@;
    let mut groups: Vec<(String, Vec<usize>)> = Vec::new();
    let mut i: usize = 0;
    while i < flags.len()
        invariant
            fv == flags@,
            i <= fv.len(),
            groups_view(groups@) == group_by_file(fv.take(i as int)),
        decreases flags.len() - i,
    {
        proof {
            assert(fv.take(i + 1).drop_last() =~= fv.take(i as int));
            assert(fv.take(i + 1).last() == fv[i as int]);
        }
        let p = flags[i].path.as_str();
        let ghost g = groups_view(groups@);
        let mut k: usize = 0;
        let mut found = false;
        while k < groups.len() && !found
            invariant
                g == groups_view(groups@),
                k <= groups@.len(),
                found ==> k < groups@.len() && group_index(g, p@, 0) == Some(k as int),
                !found ==> group_index(g, p@, 0) == group_index(g, p@, k as int),
            decreases groups.len() - k + (if found { 0int } else { 1int }),
        {
            if paths_equal(groups[k].0.as_str(), p) {
                found = true;
            } else {
                k = k + 1;
            }
        }
        if found {
            let ghost before = groups@;
            let mut entry = groups.remove(k);
            entry.1.push(i);
            groups.insert(k, entry);
            proof {
                assert(groups@ =~= before.update(k as int, entry));
                assert(entry.1@.map_values(|x: usize| x as int) =~= before[k as int].1@.map_values(
                    |x: usize| x as int,
                ).push(i as int));
                assert(groups_view(groups@) =~= g.update(k as int, (g[k as int].0, g[k as int].1.push(i as int))));
            }
        } else {
            proof {
                assert(group_index(g, p@, 0) is None);
            }
            let mut idx: Vec<usize> = Vec::new();
            idx.push(i);
            let ghost before = groups@;
            let entry = (String::from_str(p), idx);
            groups.push(entry);
            proof {
                assert(idx@.map_values(|x: usize| x as int) =~= seq![i as int]);
                assert(groups_view(groups@) =~= g.push((p@, seq![i as int])));
            }
        }
        i = i + 1;
    }
    proof {
        assert(fv.take(i as int) =~= fv);
    }
    groups
}

/// The positions of the flags that guard dead code, in order.
pub open spec fn dead_code_positions(fs: Seq<FeatureFlag>) -> Seq<int>
    decreases fs.len(),
{
    if fs.len() == 0 {
        Seq::empty()
    } else {
        let r = dead_code_positions(fs.drop_last());
        if fs.last().guarded_dead_exports@.len() > 0 {
            r.push(fs.len() - 1)
        } else {
            r
        }
    }
}

/// The positions of the flags that guard dead code, in order.
pub fn dead_code_flags(flags: &Vec<FeatureFlag>) -> (r: Vec<usize>)
    ensures
        r@.map_values(|k: usize| k as int) == dead_code_positions(flags@),
{
    let ghost fv = flags@;
    let mut out: Vec<usize> = Vec::new();
    let mut i: usize = 0;
    while i < flags.len()
        invariant
            fv == flags@,
            i <= fv.len(),
            out@.map_values(|k: usize| k as int) == dead_code_positions(fv.take(i as int)),
        decreases flags.len() - i,
    {
        proof {
            assert(fv.take(i + 1).drop_last() =~= fv.take(i as int));
            assert(fv.take(i + 1).last() == fv[i as int]);
        }
        if flags[i].guarded_dead_exports.len() > 0 {
            let ghost before = out@;
            out.push(i);
            proof {
                assert(out@.map_values(|k: usize| k as int) =~= before.map_values(|k: usize| k as int).push(
                    i as int,
                ));
            }
        }
        i = i + 1;
    }
    proof {
        assert(fv.take(i as int) =~= fv);
    }
    out
}

} // verus!
