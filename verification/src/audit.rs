//! Audit verdicts, summaries, attribution counts, and the path and worktree
//! helpers of the audit command.
use vstd::prelude::*;
use crate::paths::{is_fallow_cache_artifact, path_starts_with};
use crate::search::{find_from, first_occ_from, last_occ_before, rfind_before, split_on, split_on_exec, starts_with, starts_with_exec};
use crate::text::{string_views, chars_eq, chars_to_string, decimal, push_all, push_decimal, push_str, slice_vec, str_chars, lines, lines_exec};

verus! {

/// Verdict for the audit command.
#[derive(Debug, Clone, Copy, PartialEq, Eq, Structural)]
pub enum AuditVerdict {
    /// No issues in changed files.
    Pass,
    /// Issues found, but all are warn-severity.
    Warn,
    /// Error-severity issues found in changed files.
    Fail,
}

/// Per-category summary counts for the audit result.
#[derive(Debug, Clone, Copy, PartialEq, Eq, Structural)]
pub struct AuditSummary {
    pub dead_code_issues: usize,
    pub dead_code_has_errors: bool,
    pub complexity_findings: usize,
    pub max_cyclomatic: Option<u16>,
    pub duplication_clone_groups: usize,
}

/// What the verdict reads of a dead-code result.
#[derive(Debug, Clone, Copy, PartialEq, Eq, Structural)]
pub struct CheckSignal {
    /// Some issue has error severity under the configured rules.
    pub has_error_severity: bool,
    /// Total number of issues.
    pub total_issues: usize,
}

/// What the verdict reads of a duplication result.
#[derive(Debug, Clone, Copy, PartialEq, Eq, Structural)]
pub struct DupesSignal {
    /// Number of clone groups.
    pub clone_groups: usize,
    /// A threshold is configured and the duplication percentage exceeds it.
    pub threshold_exceeded: bool,
}

/// The audit outcome. Any error-severity dead code, any complexity finding, or
/// duplication over its threshold fails; otherwise remaining dead code or
/// duplication warns; otherwise the audit passes.
pub open spec fn audit_verdict(
    check: Option<CheckSignal>,
    health_findings: Option<usize>,
    dupes: Option<DupesSignal>,
) -> AuditVerdict {
    let errors = (check matches Some(c) && c.has_error_severity) || (health_findings matches Some(
        n,
    ) && n > 0) || (dupes matches Some(d) && d.clone_groups > 0 && d.threshold_exceeded);
    let warnings = (check matches Some(c) && !c.has_error_severity && c.total_issues > 0) || (
    dupes matches Some(d) && d.clone_groups > 0 && !d.threshold_exceeded);
    if errors {
        AuditVerdict::Fail
    } else if warnings {
        AuditVerdict::Warn
    } else {
        AuditVerdict::Pass
    }
}

/// Compute the audit verdict from what the three analyses report.
///
/// With the `new-only` gate the same rule applies to the introduced issues only.
pub fn compute_verdict(
    check: Option<CheckSignal>,
    health_findings: Option<usize>,
    dupes: Option<DupesSignal>,
) -> (r: AuditVerdict)
    ensures
        r == audit_verdict(check, health_findings, dupes),
{
    let mut has_errors = false;
    let mut has_warnings = false;
    if let Some(c) = check {
        if c.has_error_severity {
            has_errors = true;
        } else if c.total_issues > 0 {
            has_warnings = true;
        }
    }
    if let Some(n) = health_findings {
        if n > 0 {
            has_errors = true;
        }
    }
    if let Some(d) = dupes {
        if d.clone_groups > 0 {
            if d.threshold_exceeded {
                has_errors = true;
            } else {
                has_warnings = true;
            }
        }
    }
    if has_errors {
        AuditVerdict::Fail
    } else if has_warnings {
        AuditVerdict::Warn
    } else {
        AuditVerdict::Pass
    }
}

/// A verdict only gets worse when a signal gets worse: adding a complexity
/// finding never turns a failing audit into a passing or warning one.
pub proof fn lemma_verdict_fail_on_findings(
    check: Option<CheckSignal>,
    n: usize,
    dupes: Option<DupesSignal>,
)
    requires
        n > 0,
    ensures
        audit_verdict(check, Some(n), dupes) == AuditVerdict::Fail,
{
}

/// Duplication over its threshold fails the audit, whatever dead code and
/// complexity report.
pub proof fn lemma_verdict_fail_on_exceeded_duplication(
    check: Option<CheckSignal>,
    health_findings: Option<usize>,
    d: DupesSignal,
)
    requires
        d.clone_groups > 0,
        d.threshold_exceeded,
    ensures
        audit_verdict(check, health_findings, Some(d)) == AuditVerdict::Fail,
{
}

/// Error-severity dead code fails the audit, whatever else is reported.
pub proof fn lemma_verdict_fail_on_error_dead_code(
    c: CheckSignal,
    health_findings: Option<usize>,
    dupes: Option<DupesSignal>,
)
    requires
        c.has_error_severity,
    ensures
        audit_verdict(Some(c), health_findings, dupes) == AuditVerdict::Fail,
{
}

/// Adding a dead-code result never makes the verdict milder: a failing
/// audit stays failing, and a warning one does not pass.
pub proof fn lemma_verdict_dead_code_monotone(
    c: CheckSignal,
    health_findings: Option<usize>,
    dupes: Option<DupesSignal>,
)
    ensures
        audit_verdict(None, health_findings, dupes) == AuditVerdict::Fail ==> audit_verdict(
            Some(c),
            health_findings,
            dupes,
        ) == AuditVerdict::Fail,
        audit_verdict(None, health_findings, dupes) == AuditVerdict::Warn ==> audit_verdict(
            Some(c),
            health_findings,
            dupes,
        ) != AuditVerdict::Pass,
{
}

/// The audit passes exactly when no analysis reports anything: no dead-code
/// issue, no complexity finding and no clone group.
pub proof fn lemma_verdict_pass_iff_nothing_reported(
    check: Option<CheckSignal>,
    health_findings: Option<usize>,
    dupes: Option<DupesSignal>,
)
    ensures
        (audit_verdict(check, health_findings, dupes) == AuditVerdict::Pass) <==> (!(check matches Some(
            c,
        ) && (c.has_error_severity || c.total_issues > 0)) && !(health_findings matches Some(n)
            && n > 0) && !(dupes matches Some(d) && d.clone_groups > 0)),
{
}

/// Warn means: nothing fails, and some dead code or some duplication
/// below its threshold is reported.
pub proof fn lemma_verdict_warn(
    check: Option<CheckSignal>,
    health_findings: Option<usize>,
    dupes: Option<DupesSignal>,
)
    ensures
        audit_verdict(check, health_findings, dupes) == AuditVerdict::Warn ==> {
            &&& !(check matches Some(c) && c.has_error_severity)
            &&& !(health_findings matches Some(n) && n > 0)
            &&& !(dupes matches Some(d) && d.clone_groups > 0 && d.threshold_exceeded)
        },
{
}

/// The largest value of a non-empty sequence.
pub open spec fn seq_max(s: Seq<u16>) -> u16
    decreases s.len(),
{
    if s.len() <= 1 {
        s[0]
    } else {
        let m = seq_max(s.drop_last());
        if s.last() > m {
            s.last()
        } else {
            m
        }
    }
}

/// Build the audit summary from the dead-code signal, the cyclomatic complexity
/// of each health finding, and the number of clone groups.
pub fn build_summary(
    check: Option<CheckSignal>,
    health_cyclomatic: Option<&Vec<u16>>,
    dupes_clone_groups: Option<usize>,
) -> (r: AuditSummary)
    ensures
        r.dead_code_issues == (match check {
            Some(c) => c.total_issues,
            None => 0,
        }),
        r.dead_code_has_errors == (check matches Some(c) && c.has_error_severity),
        r.complexity_findings == (match health_cyclomatic {
            Some(v) => v@.len() as usize,
            None => 0,
        }),
        r.max_cyclomatic == (match health_cyclomatic {
            Some(v) => if v@.len() == 0 {
                None
            } else {
                Some(seq_max(v@))
            },
            None => None,
        }),
        r.duplication_clone_groups == (match dupes_clone_groups {
            Some(n) => n,
            None => 0,
        }),
{
    let dead_code_issues = match check {
        Some(c) => c.total_issues,
        None => 0,
    };
    let dead_code_has_errors = match check {
        Some(c) => c.has_error_severity,
        None => false,
    };
    let (complexity_findings, max_cyclomatic) = match health_cyclomatic {
        Some(v) => {
            let mut best: Option<u16> = None;
            let mut i: usize = 0;
            while i < v.len()
                invariant
                    i <= v.len(),
                    i == 0 ==> best is None,
                    i > 0 ==> best == Some(seq_max(v@.take(i as int))),
                decreases v.len() - i,
            {
                proof {
                    assert(v@.take(i + 1).drop_last() =~= v@.take(i as int));
                    assert(v@.take(i + 1).last() == v@[i as int]);
                }
                let x = v[i];
                best = match best {
                    None => Some(x),
                    Some(m) => if x > m {
                        Some(x)
                    } else {
                        Some(m)
                    },
                };
                i = i + 1;
            }
            proof {
                assert(v@.take(v@.len() as int) =~= v@);
            }
            (v.len(), best)
        },
        None => (0, None),
    };
    let duplication_clone_groups = match dupes_clone_groups {
        Some(n) => n,
        None => 0,
    };
    AuditSummary {
        dead_code_issues,
        dead_code_has_errors,
        complexity_findings,
        max_cyclomatic,
        duplication_clone_groups,
    }
}

/// Number of keys not in the base snapshot (introduced) and in it (inherited).
pub open spec fn introduced_inherited(keys: Seq<Seq<char>>, base: Seq<Seq<char>>) -> (nat, nat) {
    (
        keys.filter(|k: Seq<char>| !base.contains(k)).len(),
        keys.filter(|k: Seq<char>| base.contains(k)).len(),
    )
}

fn contains_string(v: &Vec<String>, s: &String) -> (r: bool)
    ensures
        r == string_views(v@).contains(s@),
{
    let mut i: usize = 0;
    while i < v.len()
        invariant
            i <= v.len(),
            forall|j: int| 0 <= j < i ==> v@[j]@ != s@,
        decreases v.len() - i,
    {
        if v[i] == *s {
            proof {
                assert(string_views(v@)[i as int] == s@);
            }
            return true;
        }
        i = i + 1;
    }
    proof {
        if string_views(v@).contains(s@) {
            let j = choose|j: int| 0 <= j < string_views(v@).len() && string_views(v@)[j] == s@;
            assert(v@[j]@ == s@);
        }
    }
    false
}

/// Split issue keys into those introduced since the base snapshot and those
/// inherited from it. Without a base snapshot nothing is attributed.
pub fn count_introduced(keys: &Vec<String>, base: Option<&Vec<String>>) -> (r: (usize, usize))
    ensures
        match base {
            None => r == (0usize, 0usize),
            Some(b) => r.0 as nat == introduced_inherited(string_views(keys@), string_views(b@)).0 && r.1 as nat
                == introduced_inherited(string_views(keys@), string_views(b@)).1,
        },
{
    let Some(b) = base else {
        return (0, 0);
    };
    let ghost ks = string_views(keys@);
    let ghost bs = string_views(b@);
    let ghost pin = |k: Seq<char>| !bs.contains(k);
    let ghost pout = |k: Seq<char>| bs.contains(k);
    let mut introduced: usize = 0;
    let mut inherited: usize = 0;
    let mut i: usize = 0;
    while i < keys.len()
        invariant
            i <= keys.len(),
            ks == string_views(keys@),
            bs == string_views(b@),
            pin == (|k: Seq<char>| !bs.contains(k)),
            pout == (|k: Seq<char>| bs.contains(k)),
            introduced == ks.take(i as int).filter(pin).len(),
            inherited == ks.take(i as int).filter(pout).len(),
            introduced + inherited == i,
        decreases keys.len() - i,
    {
        proof {
            reveal(Seq::filter);
            assert(ks.take(i + 1).drop_last() =~= ks.take(i as int));
            assert(ks.take(i + 1).last() == keys@[i as int]@);
        }
        if contains_string(b, &keys[i]) {
            inherited = inherited + 1;
        } else {
            introduced = introduced + 1;
        }
        i = i + 1;
    }
    proof {
        assert(ks.take(keys.len() as int) =~= ks);
    }
    (introduced, inherited)
}

/// Every key is attributed exactly once: introduced plus inherited is the
/// number of keys.
pub proof fn lemma_attribution_partitions(keys: Seq<Seq<char>>, base: Seq<Seq<char>>)
    ensures
        introduced_inherited(keys, base).0 + introduced_inherited(keys, base).1 == keys.len(),
    decreases keys.len(),
{
    reveal(Seq::filter);
    if keys.len() > 0 {
        lemma_attribution_partitions(keys.drop_last(), base);
    }
}

/// Against a base holding every current key, nothing is introduced and
/// everything is inherited: reusing the current results as the base
/// attributes no issue to the change.
pub proof fn lemma_own_keys_introduce_nothing(keys: Seq<Seq<char>>)
    ensures
        introduced_inherited(keys, keys).0 == 0,
        introduced_inherited(keys, keys).1 == keys.len(),
{
    let pin = |k: Seq<char>| !keys.contains(k);
    assert forall|i: int| 0 <= i < keys.len() implies !pin(keys[i]) by {
        assert(keys.contains(keys[i]));
    }
    assert(keys.all(|x: Seq<char>| !pin(x)));
    keys.lemma_all_neg_filter_empty(pin);
    lemma_attribution_partitions(keys, keys);
}

/// `"s"` unless the count is one.
pub open spec fn plural(n: nat) -> Seq<char> {
    if n == 1 {
        Seq::empty()
    } else {
        seq!['s']
    }
}

/// The status-line parts of a summary: one per non-zero category.
pub open spec fn status_parts(s: AuditSummary) -> Seq<Seq<char>> {
    let dead = if s.dead_code_issues > 0 {
        seq!["dead code: "@ + decimal(s.dead_code_issues as nat) + " issue"@ + plural(s.dead_code_issues as nat)]
    } else {
        Seq::empty()
    };
    let cx = if s.complexity_findings > 0 {
        seq!["complexity: "@ + decimal(s.complexity_findings as nat) + " finding"@ + plural(s.complexity_findings as nat)]
    } else {
        Seq::empty()
    };
    let dup = if s.duplication_clone_groups > 0 {
        seq![
            "duplication: "@ + decimal(s.duplication_clone_groups as nat) + " clone group"@
                + plural(s.duplication_clone_groups as nat),
        ]
    } else {
        Seq::empty()
    };
    dead + cx + dup
}

fn push_plural(v: &mut Vec<char>, n: usize)
    ensures
        final(v)@ == old(v)@ + plural(n as nat),
{
    if n != 1 {
        v.push('s');
    } else {
        proof {
            assert(old(v)@ + plural(n as nat) =~= old(v)@);
        }
    }
}

fn count_part(label: &str, n: usize, unit: &str) -> (r: String)
    ensures
        r@ == label@ + decimal(n as nat) + unit@ + plural(n as nat),
{
    let mut v: Vec<char> = Vec::new();
    push_str(&mut v, label);
    push_decimal(&mut v, n as u64);
    push_str(&mut v, unit);
    push_plural(&mut v, n);
    proof {
        assert(v@ =~= label@ + decimal(n as nat) + unit@ + plural(n as nat));
    }
    chars_to_string(v.as_slice())
}

/// Build summary parts for the status line (shared between warn and fail).
pub fn build_status_parts(summary: &AuditSummary) -> (r: Vec<String>)
    ensures
        r@.len() == status_parts(*summary).len(),
        forall|i: int| 0 <= i < r@.len() ==> #[trigger] r@[i]@ == status_parts(*summary)[i],
{
    let mut parts: Vec<String> = Vec::new();
    let ghost mut expect: Seq<Seq<char>> = Seq::empty();
    if summary.dead_code_issues > 0 {
        let p = count_part("dead code: ", summary.dead_code_issues, " issue");
        proof {
            expect = expect.push(p@);
        }
        parts.push(p);
    }
    if summary.complexity_findings > 0 {
        let p = count_part("complexity: ", summary.complexity_findings, " finding");
        proof {
            expect = expect.push(p@);
        }
        parts.push(p);
    }
    if summary.duplication_clone_groups > 0 {
        let p = count_part("duplication: ", summary.duplication_clone_groups, " clone group");
        proof {
            expect = expect.push(p@);
        }
        parts.push(p);
    }
    proof {
        assert(expect =~= status_parts(*summary));
        assert forall|i: int| 0 <= i < parts@.len() implies #[trigger] parts@[i]@ == expect[i] by {
        }
    }
    parts
}

/// The scope line of an audit report.
pub open spec fn scope_line(changed: nat, base_ref: Seq<char>, head_sha: Option<Seq<char>>) -> Seq<char> {
    "Audit scope: "@ + decimal(changed) + " changed file"@ + plural(changed) + " vs "@ + base_ref
        + match head_sha {
        Some(sha) => " ("@ + sha + "..HEAD)"@,
        None => Seq::empty(),
    }
}

/// Format the scope context line.
pub fn format_scope_line(changed_files_count: usize, base_ref: &str, head_sha: Option<&str>) -> (r: String)
    ensures
        r@ == scope_line(changed_files_count as nat, base_ref@, match head_sha {
            Some(s) => Some(s@),
            None => None,
        }),
{
    let mut v: Vec<char> = Vec::new();
    push_str(&mut v, "Audit scope: ");
    push_decimal(&mut v, changed_files_count as u64);
    push_str(&mut v, " changed file");
    push_plural(&mut v, changed_files_count);
    push_str(&mut v, " vs ");
    push_str(&mut v, base_ref);
    match head_sha {
        Some(sha) => {
            push_str(&mut v, " (");
            push_str(&mut v, sha);
            push_str(&mut v, "..HEAD)");
        },
        None => {},
    }
    proof {
        assert(v@ =~= scope_line(changed_files_count as nat, base_ref@, match head_sha {
            Some(s) => Some(s@),
            None => None,
        }));
    }
    chars_to_string(v.as_slice())
}

// ── Paths ────────────────────────────────────────────────────────

/// The normal components of a `/`-separated path: empty and `.` pieces dropped.
pub open spec fn path_components(p: Seq<char>) -> Seq<Seq<char>> {
    split_on(p, seq!['/']).filter(|c: Seq<char>| c.len() > 0 && c != seq!['.'])
}

/// `Path::file_name`: the last component, unless the path has none or ends in `..`.
pub open spec fn path_file_name(p: Seq<char>) -> Option<Seq<char>> {
    let cs = path_components(p);
    if cs.len() == 0 || cs.last() == seq!['.', '.'] {
        None
    } else {
        Some(cs.last())
    }
}

/// `Path::extension`: the text after the last `.` of the file name, unless the
/// name has no `.` or its only `.` leads it.
pub open spec fn path_extension(p: Seq<char>) -> Option<Seq<char>> {
    match path_file_name(p) {
        Some(name) => match last_occ_before(name, seq!['.'], name.len() as int) {
            Some(d) => if d == 0 {
                None
            } else {
                Some(name.skip(d + 1))
            },
            None => None,
        },
        None => None,
    }
}

fn path_file_name_exec(p: &Vec<char>) -> (r: Option<Vec<char>>)
    ensures
        match path_file_name(p@) {
            Some(n) => r is Some && r->0@ == n,
            None => r is None,
        },
{
    let slash: Vec<char> = vec!['/'];
    proof {
        assert(slash@ =~= seq!['/']);
    }
    let pieces = split_on_exec(p, &slash);
    let ghost ps = split_on(p@, seq!['/']);
    let ghost pred = |c: Seq<char>| c.len() > 0 && c != seq!['.'];
    let mut last: Option<Vec<char>> = None;
    let mut i: usize = 0;
    while i < pieces.len()
        invariant
            i <= pieces.len() == ps.len(),
            ps == split_on(p@, seq!['/']),
            pred == (|c: Seq<char>| c.len() > 0 && c != seq!['.']),
            forall|j: int| 0 <= j < ps.len() ==> #[trigger] pieces@[j]@ == ps[j],
            match last {
                Some(v) => ps.take(i as int).filter(pred).len() > 0 && v@ == ps.take(
                    i as int,
                ).filter(pred).last(),
                None => ps.take(i as int).filter(pred).len() == 0,
            },
        decreases pieces.len() - i,
    {
        proof {
            reveal(Seq::filter);
            assert(ps.take(i + 1).drop_last() =~= ps.take(i as int));
            assert(ps.take(i + 1).last() == ps[i as int]);
        }
        let c = &pieces[i];
        let is_dot = c.len() == 1 && c[0] == '.';
        proof {
            if c@.len() == 1 {
                assert(is_dot == (c@ == seq!['.'])) by {
                    if c@[0] == '.' {
                        assert(c@ =~= seq!['.']);
                    }
                }
            } else {
                assert(c@ != seq!['.']);
            }
        }
        if c.len() > 0 && !is_dot {
            last = Some(slice_vec(c, 0, c.len()));
            proof {
                assert(c@.subrange(0, c@.len() as int) =~= c@);
            }
        }
        i = i + 1;
    }
    proof {
        assert(ps.take(ps.len() as int) =~= ps);
    }
    match last {
        Some(v) => {
            let is_dotdot = v.len() == 2 && v[0] == '.' && v[1] == '.';
            proof {
                if v@.len() == 2 {
                    assert(is_dotdot == (v@ == seq!['.', '.'])) by {
                        if v@[0] == '.' && v@[1] == '.' {
                            assert(v@ =~= seq!['.', '.']);
                        }
                    }
                } else {
                    assert(v@ != seq!['.', '.']);
                }
            }
            if is_dotdot {
                None
            } else {
                Some(v)
            }
        },
        None => None,
    }
}

/// The extension of a path, as `Path::extension` gives it.
pub fn path_extension_exec(p: &Vec<char>) -> (r: Option<Vec<char>>)
    ensures
        match path_extension(p@) {
            Some(e) => r is Some && r->0@ == e,
            None => r is None,
        },
{
    match path_file_name_exec(p) {
        Some(name) => {
            let dot: Vec<char> = vec!['.'];
            proof {
                assert(dot@ =~= seq!['.']);
                crate::search::lemma_last_occ_bound(name@, seq!['.'], name@.len() as int);
            }
            match rfind_before(&name, &dot, name.len()) {
                Some(d) => if d == 0 {
                    None
                } else {
                    Some(slice_vec(&name, d + 1, name.len()))
                },
                None => None,
            }
        },
        None => None,
    }
}

fn ext_is(e: &Vec<char>, lit: &str) -> (r: bool)
    ensures
        r == (e@ == lit@),
{
    let l = str_chars(lit);
    chars_eq(e, &l)
}

/// Source files that feed the analyses.
pub open spec fn analysis_extension(e: Seq<char>) -> bool {
    e == "js"@ || e == "jsx"@ || e == "ts"@ || e == "tsx"@ || e == "mjs"@ || e == "mts"@ || e
        == "cjs"@ || e == "cts"@ || e == "vue"@ || e == "svelte"@ || e == "astro"@ || e == "mdx"@
        || e == "css"@ || e == "scss"@
}

/// Documentation files whose changes cannot affect the analyses.
pub open spec fn doc_extension(e: Seq<char>) -> bool {
    e == "md"@ || e == "markdown"@ || e == "txt"@ || e == "rst"@ || e == "adoc"@
}

/// Whether a changed file is an input of the analyses (by extension).
pub fn is_analysis_input(path: &str) -> (r: bool)
    ensures
        r == (path_extension(path@) matches Some(e) && analysis_extension(e)),
{
    let p = str_chars(path);
    match path_extension_exec(&p) {
        Some(e) => ext_is(&e, "js") || ext_is(&e, "jsx") || ext_is(&e, "ts") || ext_is(&e, "tsx")
            || ext_is(&e, "mjs") || ext_is(&e, "mts") || ext_is(&e, "cjs") || ext_is(&e, "cts")
            || ext_is(&e, "vue") || ext_is(&e, "svelte") || ext_is(&e, "astro") || ext_is(
            &e,
            "mdx",
        ) || ext_is(&e, "css") || ext_is(&e, "scss"),
        None => false,
    }
}

/// Whether a changed file is documentation without behavioral effect.
pub fn is_non_behavioral_doc(path: &str) -> (r: bool)
    ensures
        r == (path_extension(path@) matches Some(e) && doc_extension(e)),
{
    let p = str_chars(path);
    match path_extension_exec(&p) {
        Some(e) => ext_is(&e, "md") || ext_is(&e, "markdown") || ext_is(&e, "txt") || ext_is(
            &e,
            "rst",
        ) || ext_is(&e, "adoc"),
        None => false,
    }
}

// ── Reusing the current results as the base ─────────────────────

/// Which analyses may share work, from the production settings of each.
#[derive(Debug, Clone, Copy, PartialEq, Eq, Structural)]
pub struct AnalysisSharing {
    /// Dead-code analysis looks at production code only.
    pub dead_code_production: bool,
    /// Health analysis looks at production code only.
    pub health_production: bool,
    /// Duplication analysis looks at production code only.
    pub dupes_production: bool,
    /// Health reuses the modules that dead-code analysis parsed.
    pub share_parse_with_health: bool,
    /// Duplication reuses the files that dead-code analysis discovered.
    pub share_files_with_dupes: bool,
}

/// The production setting of one analysis: its own when given, else the
/// command's.
pub open spec fn production_of(own: Option<bool>, production: bool) -> bool {
    match own {
        Some(b) => b,
        None => production,
    }
}

/// Decide which analyses share parsed modules and discovered files: health
/// shares dead-code's parse when both look at the same code, and
/// duplication shares its files when all three do.
pub fn plan_analysis_sharing(
    production: bool,
    dead_code: Option<bool>,
    health: Option<bool>,
    dupes: Option<bool>,
) -> (r: AnalysisSharing)
    ensures
        r.dead_code_production == production_of(dead_code, production),
        r.health_production == production_of(health, production),
        r.dupes_production == production_of(dupes, production),
        r.share_parse_with_health == (r.dead_code_production == r.health_production),
        r.share_files_with_dupes == (r.share_parse_with_health && r.dead_code_production
            == r.dupes_production),
{
    let dead_code_production = match dead_code {
        Some(b) => b,
        None => production,
    };
    let health_production = match health {
        Some(b) => b,
        None => production,
    };
    let dupes_production = match dupes {
        Some(b) => b,
        None => production,
    };
    let share_parse_with_health = dead_code_production == health_production;
    AnalysisSharing {
        dead_code_production,
        health_production,
        dupes_production,
        share_parse_with_health,
        share_files_with_dupes: share_parse_with_health && dead_code_production == dupes_production,
    }
}

/// What a changed file means for reusing the current results as the base.
#[derive(Debug, Clone, Copy, PartialEq, Eq, Structural)]
pub enum BaseReuse {
    /// The change cannot affect the analyses.
    Unaffected,
    /// The change may affect the analyses: the base must be analyzed itself.
    Blocks,
    /// An analysis input: its contents at the base and now decide.
    CompareContents,
}

/// Cache artifacts and documentation leave the analyses unaffected; other
/// files that are not analysis inputs block reuse; inputs are compared.
pub open spec fn base_reuse(path: Seq<char>, cache_dir: Seq<char>, canonical_cache_dir: Option<Seq<char>>) -> BaseReuse {
    if path_starts_with(path, cache_dir) || (canonical_cache_dir matches Some(c)
        && path_starts_with(path, c)) {
        BaseReuse::Unaffected
    } else if !(path_extension(path) matches Some(e) && analysis_extension(e)) {
        if path_extension(path) matches Some(e) && doc_extension(e) {
            BaseReuse::Unaffected
        } else {
            BaseReuse::Blocks
        }
    } else {
        BaseReuse::CompareContents
    }
}

/// The view of an optional path.
pub open spec fn opt_str_view(o: Option<&str>) -> Option<Seq<char>> {
    match o {
        Some(s) => Some(s@),
        None => None,
    }
}

/// Classify a changed file for reusing the current results as the base.
pub fn classify_changed_file(path: &str, cache_dir: &str, canonical_cache_dir: Option<&str>) -> (r:
    BaseReuse)
    ensures
        r == base_reuse(path@, cache_dir@, opt_str_view(canonical_cache_dir)),
{
    if is_fallow_cache_artifact(path, cache_dir, canonical_cache_dir) {
        BaseReuse::Unaffected
    } else if !is_analysis_input(path) {
        if is_non_behavioral_doc(path) {
            BaseReuse::Unaffected
        } else {
            BaseReuse::Blocks
        }
    } else {
        BaseReuse::CompareContents
    }
}

/// What comparing a file's contents at the base and now decides.
#[derive(Debug, Clone, Copy, PartialEq, Eq, Structural)]
pub enum ContentComparison {
    /// The contents are identical.
    Same,
    /// The contents differ in a way that may matter.
    Differs,
    /// The contents differ; their token streams decide.
    CompareTokens,
}

/// Extensions whose token streams can stand in for their text.
pub open spec fn token_extension(e: Seq<char>) -> bool {
    e == "js"@ || e == "jsx"@ || e == "ts"@ || e == "tsx"@ || e == "mjs"@ || e == "mts"@ || e
        == "cjs"@ || e == "cts"@
}

/// Whether `t` occurs in `s`.
pub open spec fn contains_text(s: Seq<char>, t: Seq<char>) -> bool {
    first_occ_from(s, t, 0) is Some
}

/// Identical contents are the same; otherwise a suppression comment on
/// either side, or a file that is not JavaScript or TypeScript, makes them
/// differ; else the token streams decide.
pub open spec fn content_comparison(path: Seq<char>, current: Seq<char>, base: Seq<char>) -> ContentComparison {
    if current == base {
        ContentComparison::Same
    } else if contains_text(current, "fallow-ignore"@) || contains_text(base, "fallow-ignore"@)
        || !(path_extension(path) matches Some(e) && token_extension(e)) {
        ContentComparison::Differs
    } else {
        ContentComparison::CompareTokens
    }
}

/// Compare a changed file's contents at the base and now.
pub fn compare_contents(path: &str, current: &str, base: &str) -> (r: ContentComparison)
    ensures
        r == content_comparison(path@, current@, base@),
{
    let c = str_chars(current);
    let b = str_chars(base);
    if chars_eq(&c, &b) {
        return ContentComparison::Same;
    }
    let marker = str_chars("fallow-ignore");
    if find_from(&c, &marker, 0).is_some() || find_from(&b, &marker, 0).is_some() {
        return ContentComparison::Differs;
    }
    let p = str_chars(path);
    let tokenized = match path_extension_exec(&p) {
        Some(e) => ext_is(&e, "js") || ext_is(&e, "jsx") || ext_is(&e, "ts") || ext_is(&e, "tsx")
            || ext_is(&e, "mjs") || ext_is(&e, "mts") || ext_is(&e, "cjs") || ext_is(&e, "cts"),
        None => false,
    };
    if tokenized {
        ContentComparison::CompareTokens
    } else {
        ContentComparison::Differs
    }
}

// ── Audit worktrees ──────────────────────────────────────────────

/// Value of a string of ASCII digits.
pub open spec fn digits_value(s: Seq<char>) -> nat
    decreases s.len(),
{
    if s.len() == 0 {
        0
    } else {
        digits_value(s.drop_last()) * 10 + ((s.last() as u32) - ('0' as u32)) as nat
    }
}

/// Every character is an ASCII digit.
pub open spec fn all_digits(s: Seq<char>) -> bool {
    forall|i: int| 0 <= i < s.len() ==> '0' <= #[trigger] s[i] && s[i] <= '9'
}

/// `u32::from_str`: an optional `+`, then one or more digits, within range.
pub open spec fn parse_u32(s: Seq<char>) -> Option<u32> {
    let d = if s.len() > 0 && s[0] == '+' {
        s.drop_first()
    } else {
        s
    };
    if d.len() > 0 && all_digits(d) && digits_value(d) <= u32::MAX {
        Some(digits_value(d) as u32)
    } else {
        None
    }
}

proof fn lemma_digits_value_mono(s: Seq<char>, k: int)
    requires
        0 <= k <= s.len(),
        all_digits(s),
    ensures
        digits_value(s.take(k)) <= digits_value(s),
    decreases s.len() - k,
{
    if k < s.len() {
        lemma_digits_value_mono(s, k + 1);
        assert(s.take(k + 1).drop_last() =~= s.take(k));
        assert(s.take(k + 1).last() == s[k]);
    } else {
        assert(s.take(k) =~= s);
    }
}

fn parse_u32_exec(s: &Vec<char>) -> (r: Option<u32>)
    ensures
        r == parse_u32(s@),
{
    let start: usize = if s.len() > 0 && s[0] == '+' {
        1
    } else {
        0
    };
    let ghost d = if s@.len() > 0 && s@[0] == '+' {
        s@.drop_first()
    } else {
        s@
    };
    proof {
        assert(d =~= s@.skip(start as int));
    }
    if start == s.len() {
        return None;
    }
    let mut value: u64 = 0;
    let mut i = start;
    while i < s.len()
        invariant
            start <= i <= s.len(),
            d == s@.skip(start as int),
            d == (if s@.len() > 0 && s@[0] == '+' {
                s@.drop_first()
            } else {
                s@
            }),
            all_digits(s@.subrange(start as int, i as int)),
            value == digits_value(s@.subrange(start as int, i as int)),
            value <= u32::MAX,
        decreases s.len() - i,
    {
        let c = s[i];
        proof {
            assert(s@.subrange(start as int, i + 1).drop_last() =~= s@.subrange(start as int, i as int));
            assert(s@.subrange(start as int, i + 1).last() == c);
        }
        if !('0' <= c && c <= '9') {
            proof {
                assert(d[i - start] == c);
                assert(!all_digits(d));
            }
            return None;
        }
        value = value * 10 + ((c as u32) - ('0' as u32)) as u64;
        if value > u32::MAX as u64 {
            proof {
                let t = s@.subrange(start as int, i + 1);
                assert(digits_value(t) == value);
                if all_digits(d) {
                    assert(d.take(i + 1 - start) =~= t);
                    lemma_digits_value_mono(d, i + 1 - start);
                }
            }
            return None;
        }
        i = i + 1;
    }
    proof {
        assert(s@.subrange(start as int, s@.len() as int) =~= d);
    }
    Some(value as u32)
}

/// Prefix of the temporary worktree directories that audit creates.
pub open spec fn worktree_prefix() -> Seq<char> {
    "fallow-audit-base-"@
}

/// The process id encoded in an audit worktree directory name
/// (`fallow-audit-base-<pid>-<nanos>`).
pub open spec fn worktree_pid(name: Seq<char>) -> Option<u32> {
    if starts_with(name, worktree_prefix()) {
        parse_u32(split_on(name.skip(worktree_prefix().len() as int), seq!['-'])[0])
    } else {
        None
    }
}

/// Extract the process id from an audit worktree directory name.
pub fn audit_worktree_pid(name: &str) -> (r: Option<u32>)
    ensures
        r == worktree_pid(name@),
{
    let n = str_chars(name);
    let prefix = str_chars("fallow-audit-base-");
    if !starts_with_exec(&n, &prefix) {
        return None;
    }
    let rest = slice_vec(&n, prefix.len(), n.len());
    let dash: Vec<char> = vec!['-'];
    proof {
        assert(dash@ =~= seq!['-']);
        assert(rest@ =~= n@.skip(prefix@.len() as int));
        crate::search::lemma_split_nonempty(rest@, seq!['-']);
    }
    let pieces = split_on_exec(&rest, &dash);
    parse_u32_exec(&pieces[0])
}

/// The directory name of a base worktree that process `pid` creates at
/// `nanos` nanoseconds since the epoch.
pub open spec fn worktree_name(pid: u32, nanos: u128) -> Seq<char> {
    worktree_prefix() + decimal(pid as nat) + seq!['-'] + decimal(nanos as nat)
}

/// The directory name of a base worktree: `fallow-audit-base-<pid>-<nanos>`.
pub fn audit_worktree_name(pid: u32, nanos: u128) -> (r: String)
    ensures
        r@ == worktree_name(pid, nanos),
{
    let mut v: Vec<char> = Vec::new();
    push_str(&mut v, "fallow-audit-base-");
    push_decimal(&mut v, pid as u64);
    v.push('-');
    crate::text::push_decimal_wide(&mut v, nanos);
    proof {
        assert(v@ =~= worktree_name(pid, nanos));
    }
    chars_to_string(v.as_slice())
}

proof fn lemma_digit_char_value(d: int)
    requires
        0 <= d < 10,
    ensures
        '0' <= crate::text::digit_char(d) <= '9',
        ((crate::text::digit_char(d) as u32) - ('0' as u32)) as nat == d,
{
    assert(('0' as u32) == 48 && ('1' as u32) == 49 && ('2' as u32) == 50 && ('3' as u32) == 51
        && ('4' as u32) == 52 && ('5' as u32) == 53 && ('6' as u32) == 54 && ('7' as u32) == 55
        && ('8' as u32) == 56 && ('9' as u32) == 57);
}

proof fn lemma_decimal_digits(n: nat)
    ensures
        decimal(n).len() > 0,
        all_digits(decimal(n)),
        digits_value(decimal(n)) == n,
    decreases n,
{
    if n < 10 {
        let d = decimal(n);
        assert(d =~= seq![crate::text::digit_char(n as int)]);
        assert(d.drop_last() =~= Seq::<char>::empty());
        assert(digits_value(Seq::<char>::empty()) == 0);
        lemma_digit_char_value(n as int);
        assert(d.last() == crate::text::digit_char(n as int));
    } else {
        lemma_decimal_digits(n / 10);
        let a = decimal(n / 10);
        let c = crate::text::digit_char((n % 10) as int);
        lemma_digit_char_value((n % 10) as int);
        assert(decimal(n) == a.push(c));
        assert(a.push(c).drop_last() =~= a);
        assert(digits_value(decimal(n)) == (n / 10) * 10 + n % 10);
        assert((n / 10) * 10 + n % 10 == n) by (nonlinear_arith);
        assert forall|i: int| 0 <= i < decimal(n).len() implies '0' <= #[trigger] decimal(n)[i]
            && decimal(n)[i] <= '9' by {
            if i < a.len() {
                assert(decimal(n)[i] == a[i]);
            }
        }
    }
}

/// The process id that an audit worktree's name encodes is the id of the
/// process that created it: the orphan sweep recovers it from the name.
pub proof fn lemma_worktree_name_pid(pid: u32, nanos: u128)
    ensures
        worktree_pid(worktree_name(pid, nanos)) == Some(pid),
        starts_with(worktree_name(pid, nanos), worktree_prefix()),
{
    let pre = worktree_prefix();
    let a = decimal(pid as nat);
    let name = worktree_name(pid, nanos);
    let s = a + seq!['-'] + decimal(nanos as nat);
    assert(name =~= pre + s);
    assert(name.take(pre.len() as int) =~= pre);
    assert(name.skip(pre.len() as int) =~= s);
    lemma_decimal_digits(pid as nat);
    let sep = seq!['-'];
    crate::search::lemma_first_occ_props(s, sep, 0);
    assert(s.subrange(a.len() as int, a.len() + 1 as int) =~= sep);
    assert(crate::search::occurs_at(s, sep, a.len() as int));
    assert forall|q: int| 0 <= q < a.len() implies !crate::search::occurs_at(s, sep, q) by {
        assert(s[q] == a[q]);
        assert(s.subrange(q, q + 1)[0] == s[q]);
    }
    assert(crate::search::first_occ_from(s, sep, 0) == Some(a.len() as int));
    assert(split_on(s, sep)[0] =~= a);
    assert(a[0] != '+');
}

/// The path of a `worktree <path>` line of `git worktree list --porcelain`.
pub open spec fn worktree_line_path(line: Seq<char>) -> Option<Seq<char>> {
    if starts_with(line, "worktree "@) {
        Some(line.skip("worktree "@.len() as int))
    } else {
        None
    }
}

/// Whether a path's directory name marks it as an audit worktree.
pub open spec fn is_audit_worktree_name(p: Seq<char>) -> bool {
    path_file_name(p) matches Some(n) && starts_with(n, worktree_prefix())
}

/// The audit worktree paths among porcelain lines, in order.
pub open spec fn candidates_in(ls: Seq<Seq<char>>) -> Seq<Seq<char>>
    decreases ls.len(),
{
    if ls.len() == 0 {
        Seq::empty()
    } else {
        let r = candidates_in(ls.drop_last());
        match worktree_line_path(ls.last()) {
            Some(p) => if is_audit_worktree_name(p) {
                r.push(p)
            } else {
                r
            },
            None => r,
        }
    }
}

/// The paths that `git worktree list --porcelain` reports whose directory
/// name marks them as audit worktrees.
pub open spec fn worktree_candidates(output: Seq<char>) -> Seq<Seq<char>> {
    candidates_in(lines(output))
}

/// Whether a path names an audit worktree directory
/// (`fallow-audit-base-…`).
pub fn is_audit_worktree_name_exec(path: &str) -> (r: bool)
    ensures
        r == is_audit_worktree_name(path@),
{
    let p = str_chars(path);
    let prefix = str_chars("fallow-audit-base-");
    proof {
        reveal_strlit("fallow-audit-base-");
    }
    match path_file_name_exec(&p) {
        Some(n) => starts_with_exec(&n, &prefix),
        None => false,
    }
}

/// The audit worktree paths listed by `git worktree list --porcelain`
/// (whether each lies in the temporary directory is for the caller to check).
pub fn audit_worktree_candidates(output: &str) -> (r: Vec<String>)
    ensures
        r@.len() == worktree_candidates(output@).len(),
        forall|i: int| 0 <= i < r@.len() ==> #[trigger] r@[i]@ == worktree_candidates(output@)[i],
{
    let v = str_chars(output);
    let ls = lines_exec(&v);
    let ghost lv = lines(output@);
    let head = str_chars("worktree ");
    let prefix = str_chars("fallow-audit-base-");
    let mut out: Vec<String> = Vec::new();
    let mut i: usize = 0;
    while i < ls.len()
        invariant
            lv == lines(output@),
            ls@.len() == lv.len(),
            forall|j: int| 0 <= j < ls@.len() ==> #[trigger] ls@[j]@ == lv[j],
            head@ == "worktree "@,
            prefix@ == worktree_prefix(),
            i <= ls@.len(),
            out@.len() == candidates_in(lv.take(i as int)).len(),
            forall|j: int|
                0 <= j < out@.len() ==> #[trigger] out@[j]@ == candidates_in(lv.take(i as int))[j],
        decreases ls.len() - i,
    {
        proof {
            assert(lv.take(i + 1).drop_last() =~= lv.take(i as int));
            assert(lv.take(i + 1).last() == lv[i as int]);
        }
        let line = &ls[i];
        if starts_with_exec(line, &head) {
            let path = slice_vec(line, head.len(), line.len());
            proof {
                assert(path@ =~= line@.skip("worktree "@.len() as int));
            }
            let keep = match path_file_name_exec(&path) {
                Some(n) => starts_with_exec(&n, &prefix),
                None => false,
            };
            if keep {
                let ghost before = out@;
                out.push(chars_to_string(path.as_slice()));
                proof {
                    assert forall|j: int| 0 <= j < out@.len() implies #[trigger] out@[j]@
                        == candidates_in(lv.take(i + 1))[j] by {
                        if j < before.len() {
                            assert(out@[j] == before[j]);
                        }
                    }
                }
            }
        }
        i = i + 1;
    }
    proof {
        assert(lv.take(i as int) =~= lv);
    }
    out
}

// ── Attribution against a base snapshot ──────────────────────────

/// Which issues decide the audit verdict.
#[derive(Debug, Clone, Copy, PartialEq, Eq, Structural)]
pub enum AuditGate {
    /// Only the issues a change introduced.
    NewOnly,
    /// Every issue in the changed files.
    All,
}

/// How many issues of each analysis were introduced and how many inherited.
#[derive(Debug, Clone, Copy, PartialEq, Eq, Structural)]
pub struct AuditAttribution {
    pub gate: AuditGate,
    pub dead_code_introduced: usize,
    pub dead_code_inherited: usize,
    pub complexity_introduced: usize,
    pub complexity_inherited: usize,
    pub duplication_introduced: usize,
    pub duplication_inherited: usize,
}

/// The issue keys of the base revision, per analysis.
#[derive(Debug, Clone)]
pub struct AuditKeySnapshot {
    pub dead_code: Vec<String>,
    pub health: Vec<String>,
    pub dupes: Vec<String>,
}

/// The keys of the current results, standing in for the base snapshot when
/// no change since the base can affect the analyses.
pub fn current_keys_as_base_keys(
    dead_code: Option<&crate::dead_code::DeadCodeResults>,
    dupes: Option<&Vec<crate::dupes::CloneGroup>>,
    health: Option<&Vec<crate::scores::HealthFinding>>,
    root: &str,
) -> (r: AuditKeySnapshot)
    ensures
        string_views(r.dead_code@) == match dead_code {
            Some(d) => crate::dead_code::all_keys(*d, root@),
            None => Seq::empty(),
        },
        string_views(r.health@) == match health {
            Some(h) => h@.map_values(
                |f: crate::scores::HealthFinding| crate::dead_code::finding_key(f, root@),
            ),
            None => Seq::empty(),
        },
        match dupes {
            Some(g) => r.dupes@.len() == g@.len() && forall|i: int|
                0 <= i < r.dupes@.len() ==> (#[trigger] r.dupes@[i])@ == crate::dupes::dupe_key(
                    g@[i],
                    root@,
                ),
            None => r.dupes@.len() == 0,
        },
{
    let dead_code_keys = match dead_code {
        Some(d) => crate::dead_code::dead_code_keys(d, root),
        None => Vec::new(),
    };
    let health_keys = match health {
        Some(h) => crate::dead_code::health_keys(h, root),
        None => Vec::new(),
    };
    let dupes_keys = match dupes {
        Some(g) => crate::dupes::dupes_keys(g, root),
        None => Vec::new(),
    };
    proof {
        assert(string_views(Seq::<String>::empty()) =~= Seq::<Seq<char>>::empty());
    }
    AuditKeySnapshot { dead_code: dead_code_keys, health: health_keys, dupes: dupes_keys }
}

/// The distinct strings of a sequence, each at its first position.
pub open spec fn distinct_keys(s: Seq<Seq<char>>) -> Seq<Seq<char>>
    decreases s.len(),
{
    if s.len() == 0 {
        Seq::empty()
    } else {
        let r = distinct_keys(s.drop_last());
        if r.contains(s.last()) {
            r
        } else {
            r.push(s.last())
        }
    }
}

/// The distinct strings of a list, each at its first position.
pub fn distinct_strings(v: &Vec<String>) -> (r: Vec<String>)
    ensures
        string_views(r@) == distinct_keys(string_views(v@)),
{
    let ghost vs = string_views(v@);
    let mut out: Vec<String> = Vec::new();
    let mut i: usize = 0;
    while i < v.len()
        invariant
            vs == string_views(v@),
            i <= v@.len(),
            string_views(out@) == distinct_keys(vs.take(i as int)),
        decreases v.len() - i,
    {
        proof {
            assert(vs.take(i + 1).drop_last() =~= vs.take(i as int));
            assert(vs.take(i + 1).last() == v@[i as int]@);
        }
        if !contains_string(&out, &v[i]) {
            let s = v[i].clone();
            let ghost before = out@;
            out.push(s);
            proof {
                assert(string_views(out@) =~= string_views(before).push(s@));
            }
        }
        i = i + 1;
    }
    proof {
        assert(vs.take(i as int) =~= vs);
    }
    out
}

/// Introduced and inherited counts of a set of keys, none without a base.
pub open spec fn attributed(keys: Option<Seq<String>>, base: Option<Seq<String>>) -> (nat, nat) {
    match (keys, base) {
        (Some(k), Some(b)) => introduced_inherited(distinct_keys(string_views(k)), string_views(b)),
        _ => (0, 0),
    }
}

fn attribute(keys: Option<&Vec<String>>, base: Option<&Vec<String>>) -> (r: (usize, usize))
    ensures
        r.0 as nat == attributed(
            match keys {
                Some(k) => Some(k@),
                None => None,
            },
            match base {
                Some(b) => Some(b@),
                None => None,
            },
        ).0,
        r.1 as nat == attributed(
            match keys {
                Some(k) => Some(k@),
                None => None,
            },
            match base {
                Some(b) => Some(b@),
                None => None,
            },
        ).1,
{
    match keys {
        Some(k) => {
            let set = distinct_strings(k);
            count_introduced(&set, base)
        },
        None => (0, 0),
    }
}

/// Attributes the issues of each analysis that ran (by their keys) to the
/// change or to the base revision. Without a base snapshot nothing is
/// attributed.
pub fn compute_audit_attribution(
    dead_code_keys: Option<&Vec<String>>,
    health_keys: Option<&Vec<String>>,
    dupes_keys: Option<&Vec<String>>,
    base: Option<&AuditKeySnapshot>,
    gate: AuditGate,
) -> (r: AuditAttribution)
    ensures
        r.gate == gate,
        (r.dead_code_introduced as nat, r.dead_code_inherited as nat) == attributed(
            match dead_code_keys {
                Some(k) => Some(k@),
                None => None,
            },
            match base {
                Some(b) => Some(b.dead_code@),
                None => None,
            },
        ),
        (r.complexity_introduced as nat, r.complexity_inherited as nat) == attributed(
            match health_keys {
                Some(k) => Some(k@),
                None => None,
            },
            match base {
                Some(b) => Some(b.health@),
                None => None,
            },
        ),
        (r.duplication_introduced as nat, r.duplication_inherited as nat) == attributed(
            match dupes_keys {
                Some(k) => Some(k@),
                None => None,
            },
            match base {
                Some(b) => Some(b.dupes@),
                None => None,
            },
        ),
{
    let dead = attribute(
        dead_code_keys,
        match base {
            Some(b) => Some(&b.dead_code),
            None => None,
        },
    );
    let complexity = attribute(
        health_keys,
        match base {
            Some(b) => Some(&b.health),
            None => None,
        },
    );
    let duplication = attribute(
        dupes_keys,
        match base {
            Some(b) => Some(&b.dupes),
            None => None,
        },
    );
    AuditAttribution {
        gate,
        dead_code_introduced: dead.0,
        dead_code_inherited: dead.1,
        complexity_introduced: complexity.0,
        complexity_inherited: complexity.1,
        duplication_introduced: duplication.0,
        duplication_inherited: duplication.1,
    }
}

/// The number of items whose key is not in the base snapshot; every item
/// when there is no snapshot.
pub open spec fn new_count(keys: Seq<Seq<char>>, base: Option<Seq<String>>) -> nat {
    match base {
        Some(b) => keys.filter(|k: Seq<char>| !string_views(b).contains(k)).len(),
        None => keys.len(),
    }
}

/// The number of items whose key is not in the base snapshot.
pub fn count_new(keys: &Vec<String>, base: Option<&Vec<String>>) -> (r: usize)
    ensures
        r as nat == new_count(
            string_views(keys@),
            match base {
                Some(b) => Some(b@),
                None => None,
            },
        ),
{
    match base {
        Some(_) => {
            let (introduced, _) = count_introduced(keys, base);
            introduced
        },
        None => keys.len(),
    }
}

/// The verdict of the `new-only` gate: the audit rule applied to the issues
/// a change introduced. `check` describes the introduced dead code; health
/// findings and clone groups are given by their keys, with whether the
/// duplication threshold is exceeded.
pub fn compute_introduced_verdict(
    check: Option<CheckSignal>,
    health_keys: Option<&Vec<String>>,
    dupes: Option<(&Vec<String>, bool)>,
    base: Option<&AuditKeySnapshot>,
) -> (r: AuditVerdict)
    ensures
        r == audit_verdict(
            check,
            match health_keys {
                Some(k) => Some(
                    new_count(
                        string_views(k@),
                        match base {
                            Some(b) => Some(b.health@),
                            None => None,
                        },
                    ) as usize,
                ),
                None => None,
            },
            match dupes {
                Some((k, exceeded)) => Some(
                    DupesSignal {
                        clone_groups: new_count(
                            string_views(k@),
                            match base {
                                Some(b) => Some(b.dupes@),
                                None => None,
                            },
                        ) as usize,
                        threshold_exceeded: exceeded,
                    },
                ),
                None => None,
            },
        ),
{
    let health = match health_keys {
        Some(k) => Some(
            count_new(
                k,
                match base {
                    Some(b) => Some(&b.health),
                    None => None,
                },
            ),
        ),
        None => None,
    };
    let dupes_signal = match dupes {
        Some((k, exceeded)) => Some(
            DupesSignal {
                clone_groups: count_new(
                    k,
                    match base {
                        Some(b) => Some(&b.dupes),
                        None => None,
                    },
                ),
                threshold_exceeded: exceeded,
            },
        ),
        None => None,
    };
    compute_verdict(check, health, dupes_signal)
}

// ── Focus files at the base revision ─────────────────────────────

/// `base` joined with a path (`Path::join`): an absolute path replaces it,
/// otherwise a `/` separates them unless `base` is empty or ends in one.
pub open spec fn join_path(base: Seq<char>, rel: Seq<char>) -> Seq<char> {
    if rel.len() > 0 && rel[0] == '/' {
        rel
    } else if base.len() == 0 || base.last() == '/' {
        base + rel
    } else {
        base + seq!['/'] + rel
    }
}

fn join_path_exec(base: &str, rel: &str) -> (r: String)
    ensures
        r@ == join_path(base@, rel@),
{
    let b = str_chars(base);
    let r = str_chars(rel);
    if r.len() > 0 && r[0] == '/' {
        return String::from_str(rel);
    }
    let mut out = b;
    if out.len() > 0 && out[out.len() - 1] != '/' {
        out.push('/');
    }
    push_str(&mut out, rel);
    proof {
        assert(out@ =~= join_path(base@, rel@));
    }
    chars_to_string(out.as_slice())
}

/// The focus files moved from one root to another: each file below
/// `from_root`, taken relative to it and joined onto `to_root`, once per
/// distinct path, in order.
pub open spec fn remapped(files: Seq<String>, from_root: Seq<char>, to_root: Seq<char>) -> Seq<Seq<char>>
    decreases files.len(),
{
    if files.len() == 0 {
        Seq::empty()
    } else {
        let r = remapped(files.drop_last(), from_root, to_root);
        let f = files.last()@;
        match crate::paths::stripped_prefix(f, from_root) {
            Some(rest) => {
                let q = join_path(to_root, rest);
                if exists|i: int| 0 <= i < r.len() && crate::paths::same_path(#[trigger] r[i], q) {
                    r
                } else {
                    r.push(q)
                }
            },
            None => r,
        }
    }
}

fn holds_same_path(v: &Vec<String>, p: &str) -> (r: bool)
    ensures
        r == exists|i: int| 0 <= i < v@.len() && crate::paths::same_path(#[trigger] string_views(v@)[i], p@),
{
    let mut i: usize = 0;
    while i < v.len()
        invariant
            i <= v@.len(),
            forall|j: int| 0 <= j < i ==> !crate::paths::same_path(#[trigger] string_views(v@)[j], p@),
        decreases v.len() - i,
    {
        if crate::paths::paths_equal(v[i].as_str(), p) {
            proof {
                assert(string_views(v@)[i as int] == v@[i as int]@);
            }
            return true;
        }
        proof {
            assert(string_views(v@)[i as int] == v@[i as int]@);
        }
        i = i + 1;
    }
    false
}

/// Moves the focus files onto another root, or `None` when none of them
/// lies below `from_root`.
pub fn remap_focus_files(files: &Vec<String>, from_root: &str, to_root: &str) -> (r: Option<Vec<String>>)
    ensures
        match r {
            Some(v) => string_views(v@) == remapped(files@, from_root@, to_root@) && v@.len() > 0,
            None => remapped(files@, from_root@, to_root@).len() == 0,
        },
{
    let ghost fs = files@;
    let mut out: Vec<String> = Vec::new();
    let mut i: usize = 0;
    while i < files.len()
        invariant
            fs == files@,
            i <= fs.len(),
            string_views(out@) == remapped(fs.take(i as int), from_root@, to_root@),
        decreases files.len() - i,
    {
        proof {
            assert(fs.take(i + 1).drop_last() =~= fs.take(i as int));
            assert(fs.take(i + 1).last() == fs[i as int]);
        }
        if let Some(rel) = crate::paths::strip_path_prefix(files[i].as_str(), from_root) {
            let q = join_path_exec(to_root, rel.as_str());
            if !holds_same_path(&out, q.as_str()) {
                let ghost before = out@;
                out.push(q);
                proof {
                    assert(string_views(out@) =~= string_views(before).push(q@));
                }
            }
        }
        i = i + 1;
    }
    proof {
        assert(fs.take(i as int) =~= fs);
    }
    if out.len() == 0 {
        None
    } else {
        Some(out)
    }
}

// ── Status and metrics lines ─────────────────────────────────────

/// The metrics line shown for a passing or warning audit.
pub open spec fn metrics_line(s: AuditSummary) -> Seq<char> {
    "dead code "@ + decimal(s.dead_code_issues as nat) + " \u{00b7} "@ + (match s.max_cyclomatic {
        Some(max) => "complexity "@ + decimal(s.complexity_findings as nat) + " (warn, max cyclomatic: "@
            + decimal(max as nat) + ")"@,
        None => "complexity "@ + decimal(s.complexity_findings as nat),
    }) + " \u{00b7} "@ + "duplication "@ + decimal(s.duplication_clone_groups as nat)
}

/// The metrics line shown for a passing or warning audit.
pub fn format_metrics_line(summary: &AuditSummary) -> (r: String)
    ensures
        r@ == metrics_line(*summary),
{
    let mut v: Vec<char> = Vec::new();
    push_str(&mut v, "dead code ");
    push_decimal(&mut v, summary.dead_code_issues as u64);
    push_str(&mut v, " \u{00b7} ");
    push_str(&mut v, "complexity ");
    push_decimal(&mut v, summary.complexity_findings as u64);
    if let Some(max) = summary.max_cyclomatic {
        push_str(&mut v, " (warn, max cyclomatic: ");
        push_decimal(&mut v, max as u64);
        push_str(&mut v, ")");
    }
    push_str(&mut v, " \u{00b7} ");
    push_str(&mut v, "duplication ");
    push_decimal(&mut v, summary.duplication_clone_groups as u64);
    proof {
        assert(v@ =~= metrics_line(*summary));
    }
    chars_to_string(v.as_slice())
}

/// The status parts joined with a middle dot.
pub open spec fn status_summary(s: AuditSummary) -> Seq<char> {
    crate::search::join(status_parts(s), " \u{00b7} "@)
}

/// The final status line, given the elapsed time as it is shown.
pub open spec fn status_line(verdict: AuditVerdict, s: AuditSummary, changed: nat, elapsed: Seq<char>) -> Seq<
    char,
> {
    let files = decimal(changed) + " changed file"@ + plural(changed);
    match verdict {
        AuditVerdict::Pass => "\u{2713} No issues in "@ + files + " ("@ + elapsed + ")"@,
        AuditVerdict::Warn => "\u{2713} "@ + status_summary(s) + " (warn) \u{00b7} "@ + files + " ("@
            + elapsed + ")"@,
        AuditVerdict::Fail => "\u{2717} "@ + status_summary(s) + " \u{00b7} "@ + files + " ("@ + elapsed
            + ")"@,
    }
}

/// The final status line of an audit.
pub fn format_status_line(verdict: AuditVerdict, summary: &AuditSummary, changed_files_count: usize, elapsed: &str) -> (r:
    String)
    ensures
        r@ == status_line(verdict, *summary, changed_files_count as nat, elapsed@),
{
    let mut v: Vec<char> = Vec::new();
    match verdict {
        AuditVerdict::Pass => {
            push_str(&mut v, "\u{2713} No issues in ");
        },
        _ => {
            let parts = build_status_parts(summary);
            let mut cs: Vec<Vec<char>> = Vec::new();
            let mut i: usize = 0;
            while i < parts.len()
                invariant
                    i <= parts@.len(),
                    parts@.len() == status_parts(*summary).len(),
                    forall|k: int| 0 <= k < parts@.len() ==> #[trigger] parts@[k]@ == status_parts(*summary)[k],
                    crate::ordering::char_views(cs@) == status_parts(*summary).take(i as int),
                decreases parts.len() - i,
            {
                let c = str_chars(parts[i].as_str());
                let ghost before = cs@;
                cs.push(c);
                proof {
                    assert(crate::ordering::char_views(cs@) =~= crate::ordering::char_views(before).push(c@));
                    assert(status_parts(*summary).take(i + 1) =~= status_parts(*summary).take(i as int).push(
                        c@,
                    ));
                }
                i = i + 1;
            }
            proof {
                assert(status_parts(*summary).take(i as int) =~= status_parts(*summary));
            }
            let joined = crate::ordering::join_chars(&cs, " \u{00b7} ");
            match verdict {
                AuditVerdict::Warn => {
                    push_str(&mut v, "\u{2713} ");
                    push_all(&mut v, &joined);
                    push_str(&mut v, " (warn) \u{00b7} ");
                },
                _ => {
                    push_str(&mut v, "\u{2717} ");
                    push_all(&mut v, &joined);
                    push_str(&mut v, " \u{00b7} ");
                },
            }
        },
    }
    push_decimal(&mut v, changed_files_count as u64);
    push_str(&mut v, " changed file");
    push_plural(&mut v, changed_files_count);
    push_str(&mut v, " (");
    push_str(&mut v, elapsed);
    push_str(&mut v, ")");
    proof {
        assert(v@ =~= status_line(verdict, *summary, changed_files_count as nat, elapsed@));
    }
    chars_to_string(v.as_slice())
}

/// The note on inherited findings that the `new-only` gate left out, when
/// there are any.
pub open spec fn inherited_note(a: AuditAttribution) -> Option<Seq<char>> {
    let n = a.dead_code_inherited + a.complexity_inherited + a.duplication_inherited;
    if a.gate != AuditGate::All && n > 0 {
        Some(
            "audit gate excluded "@ + decimal(n as nat) + " inherited finding"@ + plural(n as nat)
                + " (run with --gate all to enforce)"@,
        )
    } else {
        None
    }
}

/// The note on inherited findings that the `new-only` gate left out.
pub fn format_inherited_note(a: &AuditAttribution) -> (r: Option<String>)
    requires
        a.dead_code_inherited + a.complexity_inherited + a.duplication_inherited <= usize::MAX,
    ensures
        match r {
            Some(s) => inherited_note(*a) == Some(s@),
            None => inherited_note(*a) is None,
        },
{
    let n = a.dead_code_inherited + a.complexity_inherited + a.duplication_inherited;
    if a.gate != AuditGate::All && n > 0 {
        let mut v: Vec<char> = Vec::new();
        push_str(&mut v, "audit gate excluded ");
        push_decimal(&mut v, n as u64);
        push_str(&mut v, " inherited finding");
        push_plural(&mut v, n);
        push_str(&mut v, " (run with --gate all to enforce)");
        proof {
            assert(v@ =~= "audit gate excluded "@ + decimal(n as nat) + " inherited finding"@ + plural(n as nat)
                + " (run with --gate all to enforce)"@);
        }
        Some(chars_to_string(v.as_slice()))
    } else {
        None
    }
}

/// Exit status: 1 on failure.
pub fn audit_exit_code(verdict: AuditVerdict) -> (r: u8)
    ensures
        r == (if verdict == AuditVerdict::Fail {
            1u8
        } else {
            0u8
        }),
{
    match verdict {
        AuditVerdict::Fail => 1,
        _ => 0,
    }
}

} // verus!
