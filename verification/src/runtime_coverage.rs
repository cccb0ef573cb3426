//! Runtime coverage from the cloud: the verdict of each function the cloud
//! reports, the warnings of a snapshot, matching cloud functions to local
//! static functions, stable identifiers, and the repository id read from a
//! git remote URL.
use vstd::prelude::*;
use crate::search::{first_occ_from, split_on, split_on_exec, find_from};
use crate::text::{trim, trim_exec, str_chars, chars_to_string, slice_vec};
use crate::production_coverage::ProductionCoverageWatermark;
use crate::ordering::{
    KeyView, SortKey, key_views, path_parts, path_parts_exec, sorted_by_key, stable_sort_by_key,
    stably_sorted, tagged, with_sort_key,
};
use crate::complexity::{FunctionComplexity, ModuleComplexity};
use crate::coverage_request::sat_add;
use crate::paths::{contains_path, holds_path, paths_equal, relative_or_self, relative_to, same_path};

verus! {

// ── Report vocabulary ────────────────────────────────────────────

/// What should happen to a function given its runtime and static evidence.
#[derive(Debug, Clone, Copy, PartialEq, Eq, Structural)]
pub enum RuntimeCoverageVerdict {
    SafeToDelete,
    ReviewRequired,
    CoverageUnavailable,
    LowTraffic,
    Active,
    Unknown,
}

/// How much the runtime evidence can be trusted.
#[derive(Debug, Clone, Copy, PartialEq, Eq, Structural)]
pub enum RuntimeCoverageConfidence {
    High,
    Medium,
    Low,
    Absent,
}

/// Overall verdict of a runtime coverage report.
#[derive(Debug, Clone, Copy, PartialEq, Eq, Structural)]
pub enum RuntimeCoverageReportVerdict {
    Clean,
    HotPathChangesNeeded,
    ColdCodeDetected,
    LicenseExpiredGrace,
    Unknown,
}

/// Where the runtime data of a report came from.
#[derive(Debug, Clone, Copy, PartialEq, Eq, Structural)]
pub enum RuntimeCoverageDataSource {
    Local,
    Cloud,
}

/// A suggested follow-up action.
#[derive(Debug, Clone)]
pub struct RuntimeCoverageAction {
    pub kind: String,
    pub description: String,
    pub auto_fixable: bool,
}

/// A warning attached to a runtime coverage report.
#[derive(Debug, Clone)]
pub struct RuntimeCoverageMessage {
    pub code: String,
    pub message: String,
}

/// How the cloud tracked one function.
#[derive(Debug, Clone, Copy, PartialEq, Eq, Structural)]
pub enum CloudTrackingState {
    Called,
    NeverCalled,
    Untracked,
    Unknown,
}

/// One function as the cloud reports it.
#[derive(Debug, Clone)]
pub struct CloudRuntimeFunction {
    pub file_path: String,
    pub function_name: String,
    pub line_number: Option<u32>,
    pub start_line: Option<u32>,
    pub end_line: Option<u32>,
    pub hit_count: Option<u64>,
    pub tracking_state: CloudTrackingState,
    pub deployments_observed: u64,
    pub untracked_reason: Option<String>,
}

/// A function found by the local static analysis.
#[derive(Debug, Clone)]
pub struct StaticFunctionInfo {
    pub path: String,
    pub name: String,
    pub start_line: u32,
    pub end_line: u32,
    pub static_used: bool,
    pub test_covered: bool,
}

// ── Actions and ranks ────────────────────────────────────────────

/// The `(kind, description)` of the actions suggested for a verdict.
pub open spec fn actions_for(verdict: RuntimeCoverageVerdict) -> Seq<(Seq<char>, Seq<char>)> {
    match verdict {
        RuntimeCoverageVerdict::SafeToDelete => seq![
            ("delete-cold-code"@, "Remove cold code after confirming ownership."@),
        ],
        RuntimeCoverageVerdict::ReviewRequired => seq![
            ("review-runtime"@, "Review runtime-cold code before changing it."@),
        ],
        _ => Seq::empty(),
    }
}

/// The actions suggested for a verdict; none of them is auto-fixable.
pub fn runtime_actions(verdict: RuntimeCoverageVerdict) -> (r: Vec<RuntimeCoverageAction>)
    ensures
        r@.len() == actions_for(verdict).len(),
        forall|i: int|
            0 <= i < r@.len() ==> (#[trigger] r@[i]).kind@ == actions_for(verdict)[i].0
                && r@[i].description@ == actions_for(verdict)[i].1 && !r@[i].auto_fixable,
{
    match verdict {
        RuntimeCoverageVerdict::SafeToDelete => {
            let mut v = Vec::new();
            v.push(
                RuntimeCoverageAction {
                    kind: String::from_str("delete-cold-code"),
                    description: String::from_str("Remove cold code after confirming ownership."),
                    auto_fixable: false,
                },
            );
            v
        },
        RuntimeCoverageVerdict::ReviewRequired => {
            let mut v = Vec::new();
            v.push(
                RuntimeCoverageAction {
                    kind: String::from_str("review-runtime"),
                    description: String::from_str("Review runtime-cold code before changing it."),
                    auto_fixable: false,
                },
            );
            v
        },
        _ => Vec::new(),
    }
}

/// Sort rank of a verdict, the most actionable verdicts first.
pub open spec fn verdict_rank(verdict: RuntimeCoverageVerdict) -> u8 {
    match verdict {
        RuntimeCoverageVerdict::SafeToDelete => 0,
        RuntimeCoverageVerdict::ReviewRequired => 1,
        RuntimeCoverageVerdict::CoverageUnavailable => 2,
        RuntimeCoverageVerdict::LowTraffic => 3,
        RuntimeCoverageVerdict::Unknown => 4,
        RuntimeCoverageVerdict::Active => 5,
    }
}

/// Sort rank used to order runtime coverage findings.
pub fn runtime_verdict_rank(verdict: RuntimeCoverageVerdict) -> (r: u8)
    ensures
        r == verdict_rank(verdict),
{
    match verdict {
        RuntimeCoverageVerdict::SafeToDelete => 0,
        RuntimeCoverageVerdict::ReviewRequired => 1,
        RuntimeCoverageVerdict::CoverageUnavailable => 2,
        RuntimeCoverageVerdict::LowTraffic => 3,
        RuntimeCoverageVerdict::Unknown => 4,
        RuntimeCoverageVerdict::Active => 5,
    }
}

/// Distinct verdicts have distinct ranks, so the rank orders verdicts totally.
pub proof fn lemma_verdict_rank_injective(a: RuntimeCoverageVerdict, b: RuntimeCoverageVerdict)
    ensures
        verdict_rank(a) == verdict_rank(b) <==> a == b,
{
}

/// Whether V8 tracked the function, as the evidence reports it.
pub open spec fn v8_tracking_label(state: CloudTrackingState) -> Seq<char> {
    match state {
        CloudTrackingState::Called | CloudTrackingState::NeverCalled => "tracked"@,
        CloudTrackingState::Untracked | CloudTrackingState::Unknown => "untracked"@,
    }
}

/// The V8 tracking label of a cloud tracking state.
pub fn cloud_v8_tracking(state: CloudTrackingState) -> (r: &'static str)
    ensures
        r@ == v8_tracking_label(state),
{
    match state {
        CloudTrackingState::Called | CloudTrackingState::NeverCalled => "tracked",
        CloudTrackingState::Untracked | CloudTrackingState::Unknown => "untracked",
    }
}

/// Verdict, confidence and invocation count of a cloud function matched to
/// a local static function.
pub open spec fn finding_decision(
    state: CloudTrackingState,
    hit_count: Option<u64>,
    static_used: bool,
) -> (RuntimeCoverageVerdict, RuntimeCoverageConfidence, Option<u64>) {
    match state {
        CloudTrackingState::NeverCalled => (
            if static_used {
                RuntimeCoverageVerdict::ReviewRequired
            } else {
                RuntimeCoverageVerdict::SafeToDelete
            },
            RuntimeCoverageConfidence::High,
            Some(0),
        ),
        CloudTrackingState::Untracked => (
            RuntimeCoverageVerdict::CoverageUnavailable,
            RuntimeCoverageConfidence::Absent,
            None,
        ),
        CloudTrackingState::Unknown | CloudTrackingState::Called => (
            RuntimeCoverageVerdict::Unknown,
            RuntimeCoverageConfidence::Low,
            hit_count,
        ),
    }
}

/// Decide the verdict of a cloud function given its local static counterpart.
pub fn cloud_finding_decision(function: &CloudRuntimeFunction, local: &StaticFunctionInfo) -> (r: (
    RuntimeCoverageVerdict,
    RuntimeCoverageConfidence,
    Option<u64>,
))
    ensures
        r == finding_decision(function.tracking_state, function.hit_count, local.static_used),
{
    match function.tracking_state {
        CloudTrackingState::NeverCalled => (
            if local.static_used {
                RuntimeCoverageVerdict::ReviewRequired
            } else {
                RuntimeCoverageVerdict::SafeToDelete
            },
            RuntimeCoverageConfidence::High,
            Some(0),
        ),
        CloudTrackingState::Untracked => (
            RuntimeCoverageVerdict::CoverageUnavailable,
            RuntimeCoverageConfidence::Absent,
            None,
        ),
        CloudTrackingState::Unknown | CloudTrackingState::Called => (
            RuntimeCoverageVerdict::Unknown,
            RuntimeCoverageConfidence::Low,
            function.hit_count,
        ),
    }
}

/// A function the cloud saw called is never deleted: a never-called verdict
/// is the only way to a deletion suggestion.
pub proof fn lemma_delete_only_when_never_called(
    state: CloudTrackingState,
    hit_count: Option<u64>,
    static_used: bool,
)
    ensures
        finding_decision(state, hit_count, static_used).0 == RuntimeCoverageVerdict::SafeToDelete
            <==> state == CloudTrackingState::NeverCalled && !static_used,
{
}

// ── Repository id from a git remote ──────────────────────────────

/// The characters of an optional string.
pub open spec fn opt_chars(o: Option<String>) -> Option<Seq<char>> {
    match o {
        Some(s) => Some(s@),
        None => None,
    }
}

/// `s` with every trailing copy of `suffix` removed (`str::trim_end_matches`).
pub open spec fn strip_suffixes(s: Seq<char>, suffix: Seq<char>) -> Seq<char>
    decreases s.len(),
{
    if suffix.len() > 0 && suffix.len() <= s.len() && s.skip(s.len() - suffix.len()) == suffix {
        strip_suffixes(s.take(s.len() - suffix.len()), suffix)
    } else {
        s
    }
}

/// The non-empty pieces, in order.
pub open spec fn non_empty_pieces(parts: Seq<Seq<char>>) -> Seq<Seq<char>>
    decreases parts.len(),
{
    if parts.len() == 0 {
        Seq::empty()
    } else {
        let r = non_empty_pieces(parts.drop_last());
        if parts.last().len() > 0 {
            r.push(parts.last())
        } else {
            r
        }
    }
}

/// `owner/repo` from the last two non-empty `/`-separated segments of a path.
pub open spec fn last_two_segments(path: Seq<char>) -> Option<Seq<char>> {
    let segs = non_empty_pieces(split_on(path, seq!['/']));
    if segs.len() < 2 {
        None
    } else {
        Some(segs[segs.len() - 2] + seq!['/'] + segs[segs.len() - 1])
    }
}

/// The `owner/repo` id of a git remote URL, in SSH (`git@host:owner/repo.git`)
/// or URL (`https://host/owner/repo.git`) form.
pub open spec fn remote_project_id(url: Seq<char>) -> Option<Seq<char>> {
    let s = strip_suffixes(trim(url), ".git"@);
    let by_colon = match first_occ_from(s, seq![':'], 0) {
        Some(p) => last_two_segments(s.skip(p + 1)),
        None => None,
    };
    if by_colon is Some {
        by_colon
    } else {
        let pieces = split_on(s, "://"@);
        if pieces.len() >= 2 {
            match first_occ_from(pieces[1], seq!['/'], 0) {
                Some(q) => last_two_segments(pieces[1].skip(q + 1)),
                None => None,
            }
        } else {
            None
        }
    }
}

fn last_two_segments_chars(path: &Vec<char>) -> (r: Option<Vec<char>>)
    ensures
        match r {
            Some(v) => last_two_segments(path@) == Some(v@),
            None => last_two_segments(path@) is None,
        },
{
    let slash: Vec<char> = vec!['/'];
    proof {
        assert(slash@ =~= seq!['/']);
    }
    let pieces = split_on_exec(path, &slash);
    let ghost views = split_on(path@, seq!['/']);
    let mut segs: Vec<Vec<char>> = Vec::new();
    let mut i: usize = 0;
    while i < pieces.len()
        invariant
            views == split_on(path@, seq!['/']),
            pieces@.len() == views.len(),
            forall|j: int| 0 <= j < pieces@.len() ==> #[trigger] pieces@[j]@ == views[j],
            0 <= i <= pieces@.len(),
            segs@.len() == non_empty_pieces(views.take(i as int)).len(),
            forall|j: int|
                0 <= j < segs@.len() ==> #[trigger] segs@[j]@ == non_empty_pieces(
                    views.take(i as int),
                )[j],
        decreases pieces.len() - i,
    {
        proof {
            assert(views.take(i + 1).drop_last() =~= views.take(i as int));
            assert(views.take(i + 1).last() == views[i as int]);
        }
        if pieces[i].len() > 0 {
            segs.push(pieces[i].clone());
        }
        i = i + 1;
    }
    proof {
        assert(views.take(i as int) =~= views);
    }
    let n = segs.len();
    if n < 2 {
        return None;
    }
    let mut out = segs[n - 2].clone();
    out.push('/');
    let last = &segs[n - 1];
    let mut k: usize = 0;
    while k < last.len()
        invariant
            0 <= k <= last@.len(),
            out@ == segs@[n - 2]@ + seq!['/'] + last@.take(k as int),
        decreases last.len() - k,
    {
        out.push(last[k]);
        k = k + 1;
        proof {
            assert(last@.take(k as int) =~= last@.take(k - 1).push(last@[k - 1]));
        }
    }
    proof {
        assert(last@.take(k as int) =~= last@);
    }
    Some(out)
}

/// `owner/repo` from the last two non-empty segments of a `/`-separated path.
pub fn take_last_two_segments(path: &str) -> (r: Option<String>)
    ensures
        opt_chars(r) == last_two_segments(path@),
{
    let v = str_chars(path);
    match last_two_segments_chars(&v) {
        Some(w) => Some(chars_to_string(w.as_slice())),
        None => None,
    }
}

fn strip_git_suffixes(v: &Vec<char>) -> (r: Vec<char>)
    ensures
        r@ == strip_suffixes(v@, ".git"@),
{
    proof {
        reveal_strlit(".git");
    }
    let mut end: usize = v.len();
    proof {
        assert(v@.take(end as int) =~= v@);
    }
    while end >= 4 && v[end - 4] == '.' && v[end - 3] == 'g' && v[end - 2] == 'i' && v[end
        - 1] == 't'
        invariant
            end <= v@.len(),
            ".git"@ == seq!['.', 'g', 'i', 't'],
            strip_suffixes(v@.take(end as int), ".git"@) == strip_suffixes(v@, ".git"@),
        decreases end,
    {
        proof {
            let t = v@.take(end as int);
            assert(t.skip(t.len() - 4) =~= ".git"@);
            assert(t.take(t.len() - 4) =~= v@.take(end - 4));
        }
        end = end - 4;
    }
    proof {
        let t = v@.take(end as int);
        if end >= 4 {
            assert(t.skip(t.len() - 4) != ".git"@) by {
                if t.skip(t.len() - 4) == ".git"@ {
                    assert(t.skip(t.len() - 4)[0] == v@[end - 4]);
                    assert(t.skip(t.len() - 4)[1] == v@[end - 3]);
                    assert(t.skip(t.len() - 4)[2] == v@[end - 2]);
                    assert(t.skip(t.len() - 4)[3] == v@[end - 1]);
                }
            }
        }
    }
    slice_vec(v, 0, end)
}

/// The `owner/repo` id of a git remote URL.
pub fn parse_git_remote_to_project_id(url: &str) -> (r: Option<String>)
    ensures
        opt_chars(r) == remote_project_id(url@),
{
    let u = str_chars(url);
    let t = trim_exec(&u);
    let s = strip_git_suffixes(&t);
    let colon: Vec<char> = vec![':'];
    proof {
        assert(colon@ =~= seq![':']);
    }
    let found = find_from(&s, &colon, 0);
    proof {
        crate::search::lemma_first_occ_props(s@, colon@, 0);
    }
    match found {
        Some(p) => {
            let n = s.len();
            assert(p + 1 <= n);
            let rest = slice_vec(&s, p + 1, n);
            proof {
                assert(rest@ =~= s@.skip(p + 1));
            }
            if let Some(id) = last_two_segments_chars(&rest) {
                return Some(chars_to_string(id.as_slice()));
            }
        },
        None => {},
    }
    let sep: Vec<char> = vec![':', '/', '/'];
    proof {
        reveal_strlit("://");
        assert(sep@ =~= "://"@);
    }
    let pieces = split_on_exec(&s, &sep);
    if pieces.len() < 2 {
        return None;
    }
    let part = &pieces[1];
    let slash: Vec<char> = vec!['/'];
    proof {
        assert(slash@ =~= seq!['/']);
    }
    let found2 = find_from(part, &slash, 0);
    proof {
        crate::search::lemma_first_occ_props(part@, slash@, 0);
    }
    match found2 {
        Some(q) => {
            let m = part.len();
            assert(q + 1 <= m);
            let tail = slice_vec(part, q + 1, m);
            proof {
                assert(tail@ =~= part@.skip(q + 1));
            }
            match last_two_segments_chars(&tail) {
                Some(id) => Some(chars_to_string(id.as_slice())),
                None => None,
            }
        },
        None => None,
    }
}

// ── Paths and stable identifiers ─────────────────────────────────

/// How many times `c` repeats at the start of `s`.
pub open spec fn leading_count(s: Seq<char>, c: char) -> nat
    decreases s.len(),
{
    if s.len() > 0 && s[0] == c {
        1 + leading_count(s.drop_first(), c)
    } else {
        0
    }
}

/// A backslash read as a forward slash.
pub open spec fn forward_slash(c: char) -> char {
    if c == '\\' {
        '/'
    } else {
        c
    }
}

/// A path relative to the project root with forward slashes: leading `/`
/// removed and every `\` turned into `/`.
pub open spec fn normalized_path(p: Seq<char>) -> Seq<char> {
    p.skip(leading_count(p, '/') as int).map_values(|c: char| forward_slash(c))
}

proof fn lemma_leading_count_step(s: Seq<char>, c: char, k: int)
    requires
        0 <= k < s.len(),
        s[k] == c,
    ensures
        leading_count(s.skip(k), c) == 1 + leading_count(s.skip(k + 1), c),
{
    assert(s.skip(k).drop_first() =~= s.skip(k + 1));
}

fn normalize_runtime_path_chars(p: &Vec<char>) -> (r: Vec<char>)
    ensures
        r@ == normalized_path(p@),
{
    let mut k: usize = 0;
    proof {
        assert(p@.skip(0) =~= p@);
    }
    while k < p.len() && p[k] == '/'
        invariant
            k <= p@.len(),
            leading_count(p@, '/') == k + leading_count(p@.skip(k as int), '/'),
        decreases p.len() - k,
    {
        proof {
            lemma_leading_count_step(p@, '/', k as int);
        }
        k = k + 1;
    }
    proof {
        if k < p@.len() {
            assert(p@.skip(k as int)[0] == p@[k as int]);
        }
    }
    let ghost start = k;
    let mut out: Vec<char> = Vec::new();
    while k < p.len()
        invariant
            start <= k <= p@.len(),
            start == leading_count(p@, '/'),
            out@ == p@.subrange(start as int, k as int).map_values(|c: char| forward_slash(c)),
        decreases p.len() - k,
    {
        let c = p[k];
        if c == '\\' {
            out.push('/');
        } else {
            out.push(c);
        }
        proof {
            assert(p@.subrange(start as int, k + 1).map_values(|c: char| forward_slash(c))
                =~= p@.subrange(start as int, k as int).map_values(|c: char| forward_slash(c)).push(
                forward_slash(c),
            ));
        }
        k = k + 1;
    }
    proof {
        assert(p@.subrange(start as int, k as int) =~= p@.skip(start as int));
    }
    out
}

/// Normalise a path as reported at runtime (leading `/` removed, `\` turned
/// into `/`).
pub fn normalize_runtime_path(path: &str) -> (r: String)
    ensures
        r@ == normalized_path(path@),
{
    let v = str_chars(path);
    let w = normalize_runtime_path_chars(&v);
    chars_to_string(w.as_slice())
}

/// The XXH3 64-bit hash (default seed) of a byte string.
pub uninterp spec fn xxh3_64_of(bytes: Seq<u8>) -> u64;

/// `xxhash_rust::xxh3::xxh3_64`. Its result depends on the input bytes
/// alone; the contract names it `xxh3_64_of` and says nothing else of it.
#[verifier::external_body]
fn xxh3_64_hash(input: &[u8]) -> (h: u64)
    ensures
        h == xxh3_64_of(input@),
{
    xxhash_rust::xxh3::xxh3_64(input)
}

/// A lowercase hexadecimal digit.
pub open spec fn hex_char(d: int) -> char {
    if d < 10 {
        crate::text::digit_char(d)
    } else if d == 10 {
        'a'
    } else if d == 11 {
        'b'
    } else if d == 12 {
        'c'
    } else if d == 13 {
        'd'
    } else if d == 14 {
        'e'
    } else {
        'f'
    }
}

/// The lowest `k` hexadecimal digits of `n`, most significant first
/// (`format!("{n:0k$x}")` for `n < 16^k`).
pub open spec fn hex_digits(n: nat, k: nat) -> Seq<char>
    decreases k,
{
    if k == 0 {
        Seq::empty()
    } else {
        hex_digits(n / 16, (k - 1) as nat).push(hex_char((n % 16) as int))
    }
}

/// A lowercase hexadecimal digit character.
pub open spec fn is_lower_hex(c: char) -> bool {
    ('0' <= c && c <= '9') || ('a' <= c && c <= 'f')
}

/// `k` hexadecimal digits are `k` lowercase hexadecimal characters.
pub proof fn lemma_hex_digits_shape(n: nat, k: nat)
    ensures
        hex_digits(n, k).len() == k,
        forall|i: int| 0 <= i < k ==> is_lower_hex(#[trigger] hex_digits(n, k)[i]),
    decreases k,
{
    if k > 0 {
        lemma_hex_digits_shape(n / 16, (k - 1) as nat);
        let d = (n % 16) as int;
        assert(is_lower_hex(hex_char(d)));
        assert forall|i: int| 0 <= i < k implies is_lower_hex(#[trigger] hex_digits(n, k)[i]) by {
            if i < k - 1 {
                assert(hex_digits(n, k)[i] == hex_digits(n / 16, (k - 1) as nat)[i]);
            }
        }
    }
}

fn hex_digit(d: u64) -> (c: char)
    requires
        d < 16,
    ensures
        c == hex_char(d as int),
{
    if d < 10 {
        crate::text::digit(d)
    } else if d == 10 {
        'a'
    } else if d == 11 {
        'b'
    } else if d == 12 {
        'c'
    } else if d == 13 {
        'd'
    } else if d == 14 {
        'e'
    } else {
        'f'
    }
}

fn push_hex(v: &mut Vec<char>, n: u64, k: usize)
    ensures
        final(v)@ == old(v)@ + hex_digits(n as nat, k as nat),
    decreases k,
{
    if k > 0 {
        push_hex(v, n / 16, k - 1);
        v.push(hex_digit(n % 16));
        proof {
            assert(hex_digits(n as nat, k as nat) =~= hex_digits((n / 16) as nat, (k - 1) as nat).push(
                hex_char((n % 16) as int),
            ));
        }
    } else {
        assert(hex_digits(n as nat, 0) =~= Seq::<char>::empty());
    }
}

/// The text that is hashed into a runtime identifier.
pub open spec fn runtime_id_input(
    prefix: Seq<char>,
    path: Seq<char>,
    function: Seq<char>,
    line: u32,
) -> Seq<char> {
    prefix + seq![':'] + normalized_path(path) + seq![':'] + function + seq![':']
        + crate::text::decimal(line as nat)
}

/// `fallow:<prefix>:<8 hex digits>`: the low 32 bits of the XXH3 hash of
/// the identifier's input, as eight lowercase hexadecimal digits.
pub open spec fn runtime_id(prefix: Seq<char>, path: Seq<char>, function: Seq<char>, line: u32) -> Seq<
    char,
> {
    "fallow:"@ + prefix + seq![':'] + hex_digits(
        (xxh3_64_of(vstd::utf8::encode_utf8(runtime_id_input(prefix, path, function, line)))
            % 0x1_0000_0000) as nat,
        8,
    )
}

/// Every runtime identifier is `fallow:`, the prefix, `:` and exactly eight
/// lowercase hexadecimal digits.
pub proof fn lemma_runtime_id_shape(
    prefix: Seq<char>,
    path: Seq<char>,
    function: Seq<char>,
    line: u32,
)
    ensures
        runtime_id(prefix, path, function, line).len() == 7 + prefix.len() + 1 + 8,
        runtime_id(prefix, path, function, line).take(7 + prefix.len() + 1 as int) == "fallow:"@ + prefix
            + seq![':'],
        forall|i: int|
            7 + prefix.len() + 1 <= i < 7 + prefix.len() + 9 ==> is_lower_hex(
                #[trigger] runtime_id(prefix, path, function, line)[i],
            ),
{
    reveal_strlit("fallow:");
    let h = (xxh3_64_of(vstd::utf8::encode_utf8(runtime_id_input(prefix, path, function, line)))
        % 0x1_0000_0000) as nat;
    lemma_hex_digits_shape(h, 8);
    let head = "fallow:"@ + prefix + seq![':'];
    let id = runtime_id(prefix, path, function, line);
    assert(id == head + hex_digits(h, 8));
    assert(id.take(head.len() as int) =~= head);
    assert forall|i: int| head.len() <= i < head.len() + 8 implies is_lower_hex(#[trigger] id[i]) by {
        assert(id[i] == hex_digits(h, 8)[i - head.len()]);
    }
}

/// The stable identifier of a runtime finding or hot path.
pub fn stable_runtime_id(prefix: &str, path: &str, function: &str, line: u32) -> (r: String)
    ensures
        r@ == runtime_id(prefix@, path@, function@, line),
{
    let mut input: Vec<char> = str_chars(prefix);
    input.push(':');
    let p = str_chars(path);
    let np = normalize_runtime_path_chars(&p);
    crate::text::push_all(&mut input, &np);
    input.push(':');
    crate::text::push_str(&mut input, function);
    input.push(':');
    crate::text::push_decimal(&mut input, line as u64);
    proof {
        assert(input@ =~= runtime_id_input(prefix@, path@, function@, line));
    }
    let text = chars_to_string(input.as_slice());
    let hash = xxh3_64_hash(text.as_str().as_bytes());
    let low: u64 = hash & 0xFFFF_FFFF;
    assert(hash & 0xFFFF_FFFF == hash % 0x1_0000_0000) by (bit_vector);
    let mut out: Vec<char> = str_chars("fallow:");
    crate::text::push_str(&mut out, prefix);
    out.push(':');
    push_hex(&mut out, low, 8);
    proof {
        assert(out@ =~= runtime_id(prefix@, path@, function@, line));
    }
    chars_to_string(out.as_slice())
}

// ── Snapshot warnings ────────────────────────────────────────────

/// A warning as the cloud sends it: a bare message, or an object whose
/// fields may be missing.
#[derive(Debug, Clone)]
pub enum CloudRuntimeWarning {
    Message(String),
    Object { code: Option<String>, message: Option<String> },
}

/// The observation window of a snapshot.
#[derive(Debug, Clone, Copy)]
pub struct CloudRuntimeWindow {
    pub period_days: u32,
}

/// Totals of a snapshot.
#[derive(Debug, Clone)]
pub struct CloudRuntimeSummary {
    pub trace_count: u64,
    pub deployments_seen: u64,
    pub functions_tracked: u64,
    pub functions_hit: u64,
    pub functions_unhit: u64,
    pub functions_untracked: u64,
    pub last_received_at: Option<String>,
}

/// The runtime context the cloud returns for a repository.
#[derive(Debug, Clone)]
pub struct CloudRuntimeContext {
    pub repo: String,
    pub window: CloudRuntimeWindow,
    pub summary: CloudRuntimeSummary,
    pub functions: Vec<CloudRuntimeFunction>,
    pub warnings: Vec<CloudRuntimeWarning>,
}

/// A `(code, message)` pair.
pub type MessagePair = (Seq<char>, Seq<char>);

/// The `(code, message)` pairs of a list of messages.
pub open spec fn message_pairs(v: Seq<RuntimeCoverageMessage>) -> Seq<MessagePair> {
    v.map_values(|m: RuntimeCoverageMessage| (m.code@, m.message@))
}

/// The code given to the warning at `index` that carries none of its own.
pub open spec fn indexed_code(index: nat) -> Seq<char> {
    "cloud_warning_"@ + crate::text::decimal(index)
}

/// The `(code, message)` of the cloud's warning at `index`.
pub open spec fn warning_pair(w: CloudRuntimeWarning, index: nat) -> MessagePair {
    match w {
        CloudRuntimeWarning::Message(m) => (indexed_code(index), m@),
        CloudRuntimeWarning::Object { code, message } => (
            match code {
                Some(c) => c@,
                None => indexed_code(index),
            },
            match message {
                Some(m) => m@,
                None => Seq::empty(),
            },
        ),
    }
}

/// The cloud's warnings as `(code, message)` pairs, in order.
pub open spec fn server_pairs(ws: Seq<CloudRuntimeWarning>) -> Seq<MessagePair> {
    Seq::new(ws.len(), |i: int| warning_pair(ws[i], i as nat))
}

/// How many pairs carry the code `c`.
pub open spec fn count_code(s: Seq<MessagePair>, c: Seq<char>) -> nat
    decreases s.len(),
{
    if s.len() == 0 {
        0
    } else {
        count_code(s.drop_last(), c) + if s.last().0 == c {
            1nat
        } else {
            0nat
        }
    }
}

/// The first occurrence of each pair, in order (later copies removed).
pub open spec fn dedupe(s: Seq<MessagePair>) -> Seq<MessagePair>
    decreases s.len(),
{
    if s.len() == 0 {
        Seq::empty()
    } else {
        let r = dedupe(s.drop_last());
        if r.contains(s.last()) {
            r
        } else {
            r.push(s.last())
        }
    }
}

/// The message of the warning synthesised for an empty window.
pub open spec fn no_data_message(repo: Seq<char>, period_days: u32) -> Seq<char> {
    "No runtime coverage data received for "@ + (if trim(repo).len() == 0 {
        "this repository"@
    } else {
        repo
    }) + " in the last "@ + crate::text::decimal(period_days as nat) + " days."@
}

/// The message of the warning about cloud functions missing locally.
pub open spec fn unmatched_message(n: nat) -> Seq<char> {
    crate::text::decimal(n)
        + " cloud runtime function(s) were not matched in the local AST/static analysis and were omitted from findings."@
}

/// The warnings of a snapshot before duplicates are removed: the cloud's
/// own, an empty-window warning when the window is empty and the cloud sent
/// none, and a warning about unmatched functions when there are any.
pub open spec fn merged_warnings(
    ws: Seq<CloudRuntimeWarning>,
    repo: Seq<char>,
    period_days: u32,
    empty_window: bool,
    unmatched: nat,
) -> Seq<MessagePair> {
    let server = server_pairs(ws);
    let no_data = if empty_window && count_code(server, "no_runtime_data"@) == 0 {
        seq![("no_runtime_data"@, no_data_message(repo, period_days))]
    } else {
        Seq::empty()
    };
    let unmatched_w = if unmatched > 0 {
        seq![("cloud_functions_unmatched"@, unmatched_message(unmatched))]
    } else {
        Seq::empty()
    };
    server + no_data + unmatched_w
}

/// The warnings of a snapshot, as `cloud_warnings` returns them.
pub open spec fn snapshot_warnings(snapshot: CloudRuntimeContext, unmatched: nat) -> Seq<
    MessagePair,
> {
    dedupe(
        merged_warnings(
            snapshot.warnings@,
            snapshot.repo@,
            snapshot.window.period_days,
            snapshot.summary.trace_count == 0 && snapshot.functions@.len() == 0,
            unmatched,
        ),
    )
}

proof fn lemma_count_code_push(s: Seq<MessagePair>, x: MessagePair, c: Seq<char>)
    ensures
        count_code(s.push(x), c) == count_code(s, c) + if x.0 == c {
            1nat
        } else {
            0nat
        },
{
    assert(s.push(x).drop_last() =~= s);
}

/// Counting a code over a concatenation adds the counts.
pub proof fn lemma_count_code_concat(a: Seq<MessagePair>, b: Seq<MessagePair>, c: Seq<char>)
    ensures
        count_code(a + b, c) == count_code(a, c) + count_code(b, c),
    decreases b.len(),
{
    if b.len() > 0 {
        lemma_count_code_concat(a, b.drop_last(), c);
        assert((a + b).drop_last() =~= a + b.drop_last());
    } else {
        assert(a + b =~= a);
    }
}

/// No pair carries the code exactly when the count is zero.
pub proof fn lemma_count_code_zero(s: Seq<MessagePair>, c: Seq<char>)
    ensures
        count_code(s, c) == 0 <==> forall|i: int| 0 <= i < s.len() ==> (#[trigger] s[i]).0 != c,
    decreases s.len(),
{
    if s.len() > 0 {
        lemma_count_code_zero(s.drop_last(), c);
        if count_code(s, c) == 0 {
            assert forall|i: int| 0 <= i < s.len() implies (#[trigger] s[i]).0 != c by {
                if i < s.len() - 1 {
                    assert(s[i] == s.drop_last()[i]);
                }
            }
        } else {
            if s.last().0 != c {
                let i = choose|i: int| 0 <= i < s.drop_last().len() && (#[trigger] s.drop_last()[i]).0
                    == c;
                assert(s[i] == s.drop_last()[i]);
            }
        }
    }
}

/// Removing duplicates keeps each pair once: the result holds no pair twice,
/// holds every pair of the input, and holds nothing else.
pub proof fn lemma_dedupe_props(s: Seq<MessagePair>)
    ensures
        forall|i: int, j: int|
            0 <= i < j < dedupe(s).len() ==> #[trigger] dedupe(s)[i] != #[trigger] dedupe(s)[j],
        forall|x: MessagePair| s.contains(x) <==> #[trigger] dedupe(s).contains(x),
        dedupe(s).len() <= s.len(),
    decreases s.len(),
{
    if s.len() > 0 {
        let t = s.drop_last();
        lemma_dedupe_props(t);
        let r = dedupe(t);
        assert forall|x: MessagePair| s.contains(x) <==> #[trigger] dedupe(s).contains(x) by {
            if s.contains(x) {
                let k = choose|k: int| 0 <= k < s.len() && s[k] == x;
                if k < s.len() - 1 {
                    assert(t[k] == x);
                    assert(t.contains(x));
                    assert(r.contains(x));
                    if !r.contains(s.last()) {
                        let m = choose|m: int| 0 <= m < r.len() && r[m] == x;
                        assert(r.push(s.last())[m] == x);
                    }
                } else {
                    if !r.contains(s.last()) {
                        assert(r.push(s.last())[r.len() as int] == x);
                    }
                }
            }
            if dedupe(s).contains(x) {
                let m = choose|m: int| 0 <= m < dedupe(s).len() && dedupe(s)[m] == x;
                if m < r.len() {
                    if !r.contains(s.last()) {
                        assert(r.push(s.last())[m] == r[m]);
                    }
                    assert(r.contains(x));
                    assert(t.contains(x));
                    let k = choose|k: int| 0 <= k < t.len() && t[k] == x;
                    assert(s[k] == x);
                } else {
                    assert(s[s.len() - 1] == x);
                }
            }
        }
    }
}

/// Removing duplicates never adds pairs with a given code.
pub proof fn lemma_dedupe_count(s: Seq<MessagePair>, c: Seq<char>)
    ensures
        count_code(dedupe(s), c) <= count_code(s, c),
    decreases s.len(),
{
    if s.len() > 0 {
        lemma_dedupe_count(s.drop_last(), c);
        let r = dedupe(s.drop_last());
        if !r.contains(s.last()) {
            lemma_count_code_push(r, s.last(), c);
        }
    }
}

/// The empty-window warning is never duplicated: when the cloud sent at most
/// one `no_runtime_data` warning, the snapshot's warnings hold at most one.
pub proof fn lemma_single_no_runtime_data(snapshot: CloudRuntimeContext, unmatched: nat)
    requires
        count_code(server_pairs(snapshot.warnings@), "no_runtime_data"@) <= 1,
    ensures
        count_code(snapshot_warnings(snapshot, unmatched), "no_runtime_data"@) <= 1,
{
    reveal_strlit("no_runtime_data");
    reveal_strlit("cloud_functions_unmatched");
    let server = server_pairs(snapshot.warnings@);
    let c = "no_runtime_data"@;
    let empty_window = snapshot.summary.trace_count == 0 && snapshot.functions@.len() == 0;
    let no_data = if empty_window && count_code(server, c) == 0 {
        seq![(c, no_data_message(snapshot.repo@, snapshot.window.period_days))]
    } else {
        Seq::empty()
    };
    let unmatched_w = if unmatched > 0 {
        seq![("cloud_functions_unmatched"@, unmatched_message(unmatched))]
    } else {
        Seq::empty()
    };
    let merged = merged_warnings(
        snapshot.warnings@,
        snapshot.repo@,
        snapshot.window.period_days,
        empty_window,
        unmatched,
    );
    assert(merged == server + no_data + unmatched_w);
    lemma_count_code_concat(server + no_data, unmatched_w, c);
    lemma_count_code_concat(server, no_data, c);
    if no_data.len() > 0 {
        lemma_count_code_push(Seq::empty(), no_data[0], c);
        assert(seq![no_data[0]] =~= Seq::<MessagePair>::empty().push(no_data[0]));
    } else {
        assert(count_code(no_data, c) == 0);
    }
    if unmatched_w.len() > 0 {
        lemma_count_code_push(Seq::empty(), unmatched_w[0], c);
        assert(unmatched_w =~= Seq::<MessagePair>::empty().push(unmatched_w[0]));
        assert(unmatched_w[0].0 != c) by {
            assert(unmatched_w[0].0.len() != c.len());
        }
    } else {
        assert(count_code(unmatched_w, c) == 0);
    }
    lemma_dedupe_count(merged, c);
}

fn code_for_index(index: usize) -> (r: String)
    ensures
        r@ == indexed_code(index as nat),
{
    let mut v = str_chars("cloud_warning_");
    crate::text::push_decimal(&mut v, index as u64);
    chars_to_string(v.as_slice())
}

/// Remove later copies of a `(code, message)` pair, keeping the first.
pub fn dedupe_warnings(warnings: Vec<RuntimeCoverageMessage>) -> (r: Vec<RuntimeCoverageMessage>)
    ensures
        message_pairs(r@) == dedupe(message_pairs(warnings@)),
{
    let ghost input = message_pairs(warnings@);
    let mut out: Vec<RuntimeCoverageMessage> = Vec::new();
    let mut i: usize = 0;
    while i < warnings.len()
        invariant
            input == message_pairs(warnings@),
            0 <= i <= warnings@.len(),
            message_pairs(out@) == dedupe(input.take(i as int)),
        decreases warnings.len() - i,
    {
        let w = &warnings[i];
        let mut seen = false;
        let mut j: usize = 0;
        while j < out.len()
            invariant
                0 <= j <= out@.len(),
                w == warnings@[i as int],
                seen <==> exists|k: int|
                    0 <= k < j && #[trigger] message_pairs(out@)[k] == (w.code@, w.message@),
            decreases out.len() - j,
        {
            proof {
                assert(message_pairs(out@)[j as int] == (out@[j as int].code@, out@[j as int].message@));
            }
            if out[j].code == w.code && out[j].message == w.message {
                seen = true;
            }
            j = j + 1;
        }
        proof {
            let t = input.take(i + 1);
            assert(t.drop_last() =~= input.take(i as int));
            assert(t.last() == (w.code@, w.message@));
            let pairs = message_pairs(out@);
            if seen {
                let k = choose|k: int| 0 <= k < j && #[trigger] pairs[k] == (w.code@, w.message@);
                assert(pairs.contains(t.last()));
            } else {
                if pairs.contains(t.last()) {
                    let k = choose|k: int| 0 <= k < pairs.len() && pairs[k] == t.last();
                    assert(message_pairs(out@)[k] == (w.code@, w.message@));
                }
            }
        }
        if !seen {
            let m = RuntimeCoverageMessage { code: w.code.clone(), message: w.message.clone() };
            let ghost before = out@;
            out.push(m);
            proof {
                assert(message_pairs(out@) =~= message_pairs(before).push((w.code@, w.message@)));
            }
        }
        i = i + 1;
    }
    proof {
        assert(input.take(i as int) =~= input);
    }
    out
}

/// The warnings of a cloud snapshot: the cloud's own, an empty-window
/// warning when the window is empty and the cloud sent none, and a warning
/// about cloud functions that match no local function; without duplicates.
pub fn cloud_warnings(snapshot: &CloudRuntimeContext, unmatched_cloud_functions: usize) -> (r: Vec<
    RuntimeCoverageMessage,
>)
    ensures
        message_pairs(r@) == snapshot_warnings(*snapshot, unmatched_cloud_functions as nat),
{
    let ghost ws = snapshot.warnings@;
    let mut warnings: Vec<RuntimeCoverageMessage> = Vec::new();
    let mut i: usize = 0;
    while i < snapshot.warnings.len()
        invariant
            ws == snapshot.warnings@,
            0 <= i <= ws.len(),
            message_pairs(warnings@) == server_pairs(ws).take(i as int),
        decreases snapshot.warnings.len() - i,
    {
        let m = match &snapshot.warnings[i] {
            CloudRuntimeWarning::Message(message) => RuntimeCoverageMessage {
                code: code_for_index(i),
                message: message.clone(),
            },
            CloudRuntimeWarning::Object { code, message } => RuntimeCoverageMessage {
                code: match code {
                    Some(c) => c.clone(),
                    None => code_for_index(i),
                },
                message: match message {
                    Some(t) => t.clone(),
                    None => String::new(),
                },
            },
        };
        let ghost before = warnings@;
        warnings.push(m);
        proof {
            assert(message_pairs(warnings@) =~= message_pairs(before).push((m.code@, m.message@)));
            assert(server_pairs(ws).take(i + 1) =~= server_pairs(ws).take(i as int).push(
                warning_pair(ws[i as int], i as nat),
            ));
        }
        i = i + 1;
    }
    proof {
        assert(server_pairs(ws).take(i as int) =~= server_pairs(ws));
        reveal_strlit("no_runtime_data");
    }
    let ghost server = server_pairs(ws);
    let mut server_emitted = false;
    let mut k: usize = 0;
    while k < warnings.len()
        invariant
            message_pairs(warnings@) == server,
            0 <= k <= warnings@.len(),
            "no_runtime_data"@ == seq!['n', 'o', '_', 'r', 'u', 'n', 't', 'i', 'm', 'e', '_', 'd', 'a', 't', 'a'],
            server_emitted <==> exists|q: int|
                0 <= q < k && (#[trigger] server[q]).0 == "no_runtime_data"@,
        decreases warnings.len() - k,
    {
        let code = str_chars(warnings[k].code.as_str());
        let target = str_chars("no_runtime_data");
        if crate::text::chars_eq(&code, &target) {
            server_emitted = true;
        }
        proof {
            assert(server[k as int].0 == warnings@[k as int].code@);
        }
        k = k + 1;
    }
    proof {
        lemma_count_code_zero(server, "no_runtime_data"@);
        if server_emitted {
            let q = choose|q: int| 0 <= q < k && (#[trigger] server[q]).0 == "no_runtime_data"@;
            assert(server[q].0 == "no_runtime_data"@);
        }
    }
    let ghost no_data_seq: Seq<MessagePair> = Seq::empty();
    let empty_window = snapshot.summary.trace_count == 0 && snapshot.functions.len() == 0;
    if empty_window && !server_emitted {
        let repo_chars = str_chars(snapshot.repo.as_str());
        let trimmed = trim_exec(&repo_chars);
        let mut msg = str_chars("No runtime coverage data received for ");
        if trimmed.len() == 0 {
            crate::text::push_str(&mut msg, "this repository");
        } else {
            crate::text::push_str(&mut msg, snapshot.repo.as_str());
        }
        crate::text::push_str(&mut msg, " in the last ");
        crate::text::push_decimal(&mut msg, snapshot.window.period_days as u64);
        crate::text::push_str(&mut msg, " days.");
        let m = RuntimeCoverageMessage {
            code: String::from_str("no_runtime_data"),
            message: chars_to_string(msg.as_slice()),
        };
        proof {
            no_data_seq = seq![(m.code@, m.message@)];
            assert(m.message@ =~= no_data_message(snapshot.repo@, snapshot.window.period_days));
        }
        let ghost before = warnings@;
        warnings.push(m);
        proof {
            assert(message_pairs(warnings@) =~= message_pairs(before).push((m.code@, m.message@)));
        }
    }
    let ghost unmatched_seq: Seq<MessagePair> = Seq::empty();
    if unmatched_cloud_functions > 0 {
        let mut msg: Vec<char> = Vec::new();
        crate::text::push_decimal(&mut msg, unmatched_cloud_functions as u64);
        crate::text::push_str(
            &mut msg,
            " cloud runtime function(s) were not matched in the local AST/static analysis and were omitted from findings.",
        );
        let m = RuntimeCoverageMessage {
            code: String::from_str("cloud_functions_unmatched"),
            message: chars_to_string(msg.as_slice()),
        };
        proof {
            unmatched_seq = seq![(m.code@, m.message@)];
            assert(m.message@ =~= unmatched_message(unmatched_cloud_functions as nat));
        }
        let ghost before = warnings@;
        warnings.push(m);
        proof {
            assert(message_pairs(warnings@) =~= message_pairs(before).push((m.code@, m.message@)));
        }
    }
    proof {
        let merged = merged_warnings(
            ws,
            snapshot.repo@,
            snapshot.window.period_days,
            empty_window,
            unmatched_cloud_functions as nat,
        );
        assert(message_pairs(warnings@) =~= merged);
    }
    dedupe_warnings(warnings)
}

// ── Matching cloud functions to local functions ──────────────────

/// The local functions, in the order the static analysis found them.
#[derive(Debug, Clone)]
pub struct StaticIndex {
    pub functions: Vec<StaticFunctionInfo>,
}

/// The plain values of a local function.
pub open spec fn info_view(i: StaticFunctionInfo) -> (Seq<char>, Seq<char>, u32, u32, bool, bool) {
    (i.path@, i.name@, i.start_line, i.end_line, i.static_used, i.test_covered)
}

impl StaticFunctionInfo {
    /// A field-by-field copy.
    pub fn copy(&self) -> (r: Self)
        ensures
            info_view(r) == info_view(*self),
    {
        StaticFunctionInfo {
            path: self.path.clone(),
            name: self.name.clone(),
            start_line: self.start_line,
            end_line: self.end_line,
            static_used: self.static_used,
            test_covered: self.test_covered,
        }
    }
}

/// The line the cloud reports for a function: its start line, else its
/// line number, else 0.
pub open spec fn cloud_line(f: CloudRuntimeFunction) -> u32 {
    match f.start_line {
        Some(l) => l,
        None => match f.line_number {
            Some(l) => l,
            None => 0,
        },
    }
}

/// `|a - b|`.
pub open spec fn abs_diff(a: u32, b: u32) -> nat {
    if a >= b {
        (a - b) as nat
    } else {
        (b - a) as nat
    }
}

/// The last local function with this path, name and start line (a later
/// entry under the same key replaces an earlier one).
pub open spec fn exact_match(fs: Seq<StaticFunctionInfo>, path: Seq<char>, name: Seq<char>, line: u32) -> Option<int>
    decreases fs.len(),
{
    if fs.len() == 0 {
        None
    } else if fs.last().path@ == path && fs.last().name@ == name && fs.last().start_line == line {
        Some(fs.len() - 1)
    } else {
        exact_match(fs.drop_last(), path, name, line)
    }
}

/// Whether a local function has this path and name.
pub open spec fn same_function(i: StaticFunctionInfo, path: Seq<char>, name: Seq<char>) -> bool {
    i.path@ == path && i.name@ == name
}

/// Whether a candidate lies within five lines of the cloud's start and end
/// (a missing end line counts as the candidate's own).
pub open spec fn near(i: StaticFunctionInfo, line: u32, end: Option<u32>) -> bool {
    let e = match end {
        Some(e) => e,
        None => i.end_line,
    };
    abs_diff(i.start_line, line) <= 5 && abs_diff(i.end_line, e) <= 5
}

/// The first index `>= from` of a local function with this path and name
/// (and, when `need_near`, near the cloud's lines).
pub open spec fn first_candidate(
    fs: Seq<StaticFunctionInfo>,
    path: Seq<char>,
    name: Seq<char>,
    line: u32,
    end: Option<u32>,
    need_near: bool,
    from: int,
) -> Option<int>
    decreases fs.len() - from,
{
    if from < 0 || from >= fs.len() {
        None
    } else if same_function(fs[from], path, name) && (!need_near || near(fs[from], line, end)) {
        Some(from)
    } else {
        first_candidate(fs, path, name, line, end, need_near, from + 1)
    }
}

/// The local function a cloud function stands for: the exact
/// `(path, name, line)` entry; else the first same-named function in the
/// same file within five lines; else the first same-named function in the
/// same file.
pub open spec fn matched_index(fs: Seq<StaticFunctionInfo>, f: CloudRuntimeFunction) -> Option<int> {
    let path = normalized_path(f.file_path@);
    let line = cloud_line(f);
    match exact_match(fs, path, f.function_name@, line) {
        Some(k) => Some(k),
        None => match first_candidate(fs, path, f.function_name@, line, f.end_line, true, 0) {
            Some(k) => Some(k),
            None => first_candidate(fs, path, f.function_name@, line, f.end_line, false, 0),
        },
    }
}

proof fn lemma_exact_match_bound(fs: Seq<StaticFunctionInfo>, path: Seq<char>, name: Seq<char>, line: u32)
    ensures
        match exact_match(fs, path, name, line) {
            Some(k) => 0 <= k < fs.len() && same_function(fs[k], path, name) && fs[k].start_line == line,
            None => true,
        },
    decreases fs.len(),
{
    if fs.len() > 0 {
        lemma_exact_match_bound(fs.drop_last(), path, name, line);
    }
}

proof fn lemma_first_candidate_bound(
    fs: Seq<StaticFunctionInfo>,
    path: Seq<char>,
    name: Seq<char>,
    line: u32,
    end: Option<u32>,
    need_near: bool,
    from: int,
)
    ensures
        match first_candidate(fs, path, name, line, end, need_near, from) {
            Some(k) => from <= k < fs.len(),
            None => true,
        },
    decreases fs.len() - from,
{
    if 0 <= from < fs.len() {
        lemma_first_candidate_bound(fs, path, name, line, end, need_near, from + 1);
    }
}

fn abs_diff_exec(a: u32, b: u32) -> (r: u32)
    ensures
        r == abs_diff(a, b),
{
    if a >= b {
        a - b
    } else {
        b - a
    }
}

fn find_candidate(
    fs: &Vec<StaticFunctionInfo>,
    path: &String,
    name: &String,
    line: u32,
    end: Option<u32>,
    need_near: bool,
) -> (r: Option<usize>)
    ensures
        match first_candidate(fs@, path@, name@, line, end, need_near, 0) {
            Some(k) => r == Some(k as usize),
            None => r is None,
        },
{
    let mut i: usize = 0;
    while i < fs.len()
        invariant
            0 <= i <= fs@.len(),
            first_candidate(fs@, path@, name@, line, end, need_near, 0) == first_candidate(
                fs@,
                path@,
                name@,
                line,
                end,
                need_near,
                i as int,
            ),
        decreases fs.len() - i,
    {
        let c = &fs[i];
        if c.path == *path && c.name == *name {
            let e = match end {
                Some(e) => e,
                None => c.end_line,
            };
            if !need_near || (abs_diff_exec(c.start_line, line) <= 5 && abs_diff_exec(c.end_line, e)
                <= 5) {
                return Some(i);
            }
        }
        i = i + 1;
    }
    None
}

/// The local function a cloud function stands for, if any.
pub fn match_cloud_function(function: &CloudRuntimeFunction, static_index: &StaticIndex) -> (r:
    Option<StaticFunctionInfo>)
    ensures
        match matched_index(static_index.functions@, *function) {
            Some(k) => r matches Some(i) && info_view(i) == info_view(static_index.functions@[k]),
            None => r is None,
        },
{
    let fs = &static_index.functions;
    let path = normalize_runtime_path(function.file_path.as_str());
    let line: u32 = match function.start_line {
        Some(l) => l,
        None => match function.line_number {
            Some(l) => l,
            None => 0,
        },
    };
    proof {
        lemma_exact_match_bound(fs@, path@, function.function_name@, line);
        lemma_first_candidate_bound(fs@, path@, function.function_name@, line, function.end_line, true, 0);
        lemma_first_candidate_bound(fs@, path@, function.function_name@, line, function.end_line, false, 0);
        assert(fs@.take(fs@.len() as int) =~= fs@);
    }
    let mut i: usize = fs.len();
    while i > 0
        invariant
            i <= fs@.len(),
            fs@ == static_index.functions@,
            path@ == normalized_path(function.file_path@),
            line == cloud_line(*function),
            exact_match(fs@, path@, function.function_name@, line) == exact_match(
                fs@.take(i as int),
                path@,
                function.function_name@,
                line,
            ),
        decreases i,
    {
        let c = &fs[i - 1];
        proof {
            assert(fs@.take(i as int).last() == fs@[i - 1]);
            assert(fs@.take(i as int).drop_last() =~= fs@.take(i - 1));
        }
        if c.path == path && c.name == function.function_name && c.start_line == line {
            proof {
                assert(exact_match(fs@.take(i as int), path@, function.function_name@, line) == Some(
                    i - 1,
                ));
                assert(matched_index(fs@, *function) == Some(i - 1));
            }
            return Some(c.copy());
        }
        i = i - 1;
    }
    proof {
        assert(fs@.take(0) =~= Seq::<StaticFunctionInfo>::empty());
    }
    if let Some(k) = find_candidate(fs, &path, &function.function_name, line, function.end_line, true) {
        return Some(fs[k].copy());
    }
    match find_candidate(fs, &path, &function.function_name, line, function.end_line, false) {
        Some(k) => Some(fs[k].copy()),
        None => None,
    }
}

// ── Findings, hot paths and the merged report ────────────────────

/// The evidence behind a finding.
#[derive(Debug, Clone)]
pub struct RuntimeCoverageEvidence {
    pub static_status: String,
    pub test_coverage: String,
    pub v8_tracking: String,
    pub untracked_reason: Option<String>,
    pub observation_days: u32,
    pub deployments_observed: u64,
}

/// A function whose runtime behaviour deserves attention.
#[derive(Debug, Clone)]
pub struct RuntimeCoverageFinding {
    pub id: String,
    pub path: String,
    pub function: String,
    pub line: u32,
    pub verdict: RuntimeCoverageVerdict,
    pub invocations: Option<u64>,
    pub confidence: RuntimeCoverageConfidence,
    pub evidence: RuntimeCoverageEvidence,
    pub actions: Vec<RuntimeCoverageAction>,
}

/// A function invoked at least as often as the hot threshold.
#[derive(Debug, Clone)]
pub struct RuntimeCoverageHotPath {
    pub id: String,
    pub path: String,
    pub function: String,
    pub line: u32,
    pub invocations: u64,
    pub percentile: u8,
    pub actions: Vec<RuntimeCoverageAction>,
}

/// The totals of a merged report (the coverage percentage and capture
/// quality, which are fractional, are derived from these and the snapshot).
#[derive(Debug, Clone)]
pub struct RuntimeCoverageSummary {
    pub data_source: RuntimeCoverageDataSource,
    pub last_received_at: Option<String>,
    pub functions_tracked: u64,
    pub functions_hit: u64,
    pub functions_unhit: u64,
    pub functions_untracked: u64,
    pub trace_count: u64,
    pub period_days: u32,
    pub deployments_seen: u64,
}

/// A runtime coverage report built from a cloud snapshot.
#[derive(Debug, Clone)]
pub struct RuntimeCoverageReport {
    pub verdict: RuntimeCoverageReportVerdict,
    pub summary: RuntimeCoverageSummary,
    pub findings: Vec<RuntimeCoverageFinding>,
    pub hot_paths: Vec<RuntimeCoverageHotPath>,
    pub watermark: Option<ProductionCoverageWatermark>,
    pub warnings: Vec<RuntimeCoverageMessage>,
}

/// `(kind, description, auto_fixable)` of an action.
pub type ActionView = (Seq<char>, Seq<char>, bool);

/// The plain values of a list of actions.
pub open spec fn action_views(v: Seq<RuntimeCoverageAction>) -> Seq<ActionView> {
    v.map_values(|a: RuntimeCoverageAction| (a.kind@, a.description@, a.auto_fixable))
}

/// The actions suggested for a verdict, none auto-fixable.
pub open spec fn expected_actions(verdict: RuntimeCoverageVerdict) -> Seq<ActionView> {
    actions_for(verdict).map_values(|p: (Seq<char>, Seq<char>)| (p.0, p.1, false))
}

/// The plain values of a finding's evidence.
pub type EvidenceView = (Seq<char>, Seq<char>, Seq<char>, Option<Seq<char>>, u32, u64);

/// The plain values of a finding.
pub type FindingView = (
    Seq<char>,
    Seq<char>,
    Seq<char>,
    u32,
    RuntimeCoverageVerdict,
    Option<u64>,
    RuntimeCoverageConfidence,
    EvidenceView,
    Seq<ActionView>,
);

/// The plain values of a hot path.
pub type HotPathView = (Seq<char>, Seq<char>, Seq<char>, u32, u64, u8, Seq<ActionView>);

/// The plain values of a finding.
pub open spec fn finding_view(f: RuntimeCoverageFinding) -> FindingView {
    (
        f.id@,
        f.path@,
        f.function@,
        f.line,
        f.verdict,
        f.invocations,
        f.confidence,
        (
            f.evidence.static_status@,
            f.evidence.test_coverage@,
            f.evidence.v8_tracking@,
            opt_chars(f.evidence.untracked_reason),
            f.evidence.observation_days,
            f.evidence.deployments_observed,
        ),
        action_views(f.actions@),
    )
}

/// The plain values of a hot path.
pub open spec fn hot_path_view(h: RuntimeCoverageHotPath) -> HotPathView {
    (h.id@, h.path@, h.function@, h.line, h.invocations, h.percentile, action_views(h.actions@))
}

/// The plain values of a local function.
pub type InfoView = (Seq<char>, Seq<char>, u32, u32, bool, bool);

/// The hot path reported for a local function invoked `invocations` times.
pub open spec fn expected_hot_path(local: InfoView, invocations: u64) -> HotPathView {
    (runtime_id("hot"@, local.0, local.1, local.2), local.0, local.1, local.2, invocations, 100, Seq::empty())
}

/// The finding reported for a cloud function matched to a local function,
/// observed over `days` days.
pub open spec fn expected_finding(f: CloudRuntimeFunction, local: InfoView, days: u32) -> FindingView {
    let d = finding_decision(f.tracking_state, f.hit_count, local.4);
    (
        runtime_id("prod"@, local.0, local.1, local.2),
        local.0,
        local.1,
        local.2,
        d.0,
        d.2,
        d.1,
        (
            if local.4 {
                "used"@
            } else {
                "unused"@
            },
            if local.5 {
                "covered"@
            } else {
                "not_covered"@
            },
            v8_tracking_label(f.tracking_state),
            opt_chars(f.untracked_reason),
            days,
            f.deployments_observed,
        ),
        expected_actions(d.0),
    )
}

/// The hot path of a local function.
pub fn cloud_hot_path(local: &StaticFunctionInfo, invocations: u64) -> (r: RuntimeCoverageHotPath)
    ensures
        hot_path_view(r) == expected_hot_path(info_view(*local), invocations),
{
    let r = RuntimeCoverageHotPath {
        id: stable_runtime_id("hot", local.path.as_str(), local.name.as_str(), local.start_line),
        path: local.path.clone(),
        function: local.name.clone(),
        line: local.start_line,
        invocations,
        percentile: 100,
        actions: Vec::new(),
    };
    proof {
        assert(action_views(r.actions@) =~= Seq::<ActionView>::empty());
    }
    r
}

fn copy_opt_string(o: &Option<String>) -> (r: Option<String>)
    ensures
        opt_chars(r) == opt_chars(*o),
{
    match o {
        Some(s) => Some(s.clone()),
        None => None,
    }
}

/// The finding of a cloud function matched to a local function.
pub fn cloud_finding(
    function: &CloudRuntimeFunction,
    local: &StaticFunctionInfo,
    observation_days: u32,
) -> (r: RuntimeCoverageFinding)
    ensures
        finding_view(r) == expected_finding(*function, info_view(*local), observation_days),
{
    let (verdict, confidence, invocations) = cloud_finding_decision(function, local);
    let actions = runtime_actions(verdict);
    proof {
        assert(action_views(actions@) =~= expected_actions(verdict));
    }
    RuntimeCoverageFinding {
        id: stable_runtime_id("prod", local.path.as_str(), local.name.as_str(), local.start_line),
        path: local.path.clone(),
        function: local.name.clone(),
        line: local.start_line,
        verdict,
        invocations,
        confidence,
        evidence: RuntimeCoverageEvidence {
            static_status: String::from_str(
                if local.static_used {
                    "used"
                } else {
                    "unused"
                },
            ),
            test_coverage: String::from_str(
                if local.test_covered {
                    "covered"
                } else {
                    "not_covered"
                },
            ),
            v8_tracking: String::from_str(cloud_v8_tracking(function.tracking_state)),
            untracked_reason: copy_opt_string(&function.untracked_reason),
            observation_days,
            deployments_observed: function.deployments_observed,
        },
        actions,
    }
}

/// Findings, hot paths and the number of unmatched cloud functions, in the
/// order the cloud lists its functions.
pub open spec fn merge_scan(
    fs: Seq<StaticFunctionInfo>,
    cfs: Seq<CloudRuntimeFunction>,
    min_hot: u64,
    days: u32,
) -> (Seq<FindingView>, Seq<HotPathView>, nat)
    decreases cfs.len(),
{
    if cfs.len() == 0 {
        (Seq::empty(), Seq::empty(), 0)
    } else {
        let prev = merge_scan(fs, cfs.drop_last(), min_hot, days);
        let f = cfs.last();
        match matched_index(fs, f) {
            None => (prev.0, prev.1, prev.2 + 1),
            Some(k) => if f.tracking_state == CloudTrackingState::Called {
                match f.hit_count {
                    Some(inv) => if inv >= min_hot {
                        (prev.0, prev.1.push(expected_hot_path(info_view(fs[k]), inv)), prev.2)
                    } else {
                        prev
                    },
                    None => prev,
                }
            } else {
                (prev.0.push(expected_finding(f, info_view(fs[k]), days)), prev.1, prev.2)
            },
        }
    }
}

/// Findings are ordered by verdict rank, then path, then function name.
pub open spec fn finding_key(f: FindingView) -> KeyView {
    (verdict_rank(f.4) as nat, path_parts(f.1), 0, f.2)
}

/// Hot paths are ordered by invocations (most first), then path, then name.
pub open spec fn hot_path_key(h: HotPathView) -> KeyView {
    ((u64::MAX - h.4) as nat, path_parts(h.1), 0, h.2)
}

/// The sort keys of finding views.
pub open spec fn finding_keys(v: Seq<FindingView>) -> Seq<KeyView> {
    v.map_values(|f: FindingView| finding_key(f))
}

/// The sort keys of hot path views.
pub open spec fn hot_path_keys(v: Seq<HotPathView>) -> Seq<KeyView> {
    v.map_values(|h: HotPathView| hot_path_key(h))
}

fn finding_sort_key(f: &RuntimeCoverageFinding) -> (k: SortKey)
    ensures
        crate::ordering::key_view(k) == finding_key(finding_view(*f)),
{
    let p = str_chars(f.path.as_str());
    SortKey {
        primary: runtime_verdict_rank(f.verdict) as u64,
        parts: path_parts_exec(&p),
        secondary: 0,
        name: str_chars(f.function.as_str()),
    }
}

fn hot_path_sort_key(h: &RuntimeCoverageHotPath) -> (k: SortKey)
    ensures
        crate::ordering::key_view(k) == hot_path_key(hot_path_view(*h)),
{
    let p = str_chars(h.path.as_str());
    SortKey {
        primary: u64::MAX - h.invocations,
        parts: path_parts_exec(&p),
        secondary: 0,
        name: str_chars(h.function.as_str()),
    }
}

/// Merge a cloud snapshot with the local static index: each cloud function
/// matched to a local function becomes a hot path (called at least
/// `min_invocations_hot` times) or a finding (not seen called); findings
/// and hot paths are sorted stably; unmatched functions are counted in a
/// warning.
pub fn merge_cloud_snapshot(
    snapshot: &CloudRuntimeContext,
    static_index: &StaticIndex,
    min_invocations_hot: u64,
) -> (r: RuntimeCoverageReport)
    ensures
        ({
            let scan = merge_scan(
                static_index.functions@,
                snapshot.functions@,
                min_invocations_hot,
                snapshot.window.period_days,
            );
            let fv = r.findings@.map_values(|f: RuntimeCoverageFinding| finding_view(f));
            let hv = r.hot_paths@.map_values(|h: RuntimeCoverageHotPath| hot_path_view(h));
            &&& stably_sorted(fv, finding_keys(fv), scan.0, finding_keys(scan.0))
            &&& stably_sorted(hv, hot_path_keys(hv), scan.1, hot_path_keys(scan.1))
            &&& message_pairs(r.warnings@) == snapshot_warnings(*snapshot, scan.2)
            &&& r.verdict == (if scan.0.len() == 0 {
                RuntimeCoverageReportVerdict::Clean
            } else {
                RuntimeCoverageReportVerdict::ColdCodeDetected
            })
            &&& r.watermark is None
            &&& r.summary.data_source == RuntimeCoverageDataSource::Cloud
            &&& opt_chars(r.summary.last_received_at) == opt_chars(snapshot.summary.last_received_at)
            &&& r.summary.functions_tracked == snapshot.summary.functions_tracked
            &&& r.summary.functions_hit == snapshot.summary.functions_hit
            &&& r.summary.functions_unhit == snapshot.summary.functions_unhit
            &&& r.summary.functions_untracked == snapshot.summary.functions_untracked
            &&& r.summary.trace_count == snapshot.summary.trace_count
            &&& r.summary.period_days == snapshot.window.period_days
            &&& r.summary.deployments_seen == snapshot.summary.deployments_seen
        }),
{
    let ghost fs = static_index.functions@;
    let ghost cfs = snapshot.functions@;
    let days = snapshot.window.period_days;
    let mut findings: Vec<RuntimeCoverageFinding> = Vec::new();
    let mut finding_keys_v: Vec<SortKey> = Vec::new();
    let mut hot_paths: Vec<RuntimeCoverageHotPath> = Vec::new();
    let mut hot_keys_v: Vec<SortKey> = Vec::new();
    let mut unmatched: usize = 0;
    let mut i: usize = 0;
    while i < snapshot.functions.len()
        invariant
            fs == static_index.functions@,
            cfs == snapshot.functions@,
            days == snapshot.window.period_days,
            0 <= i <= cfs.len(),
            unmatched <= i,
            findings@.len() == finding_keys_v@.len(),
            hot_paths@.len() == hot_keys_v@.len(),
            ({
                let scan = merge_scan(fs, cfs.take(i as int), min_invocations_hot, days);
                &&& findings@.map_values(|f: RuntimeCoverageFinding| finding_view(f)) == scan.0
                &&& hot_paths@.map_values(|h: RuntimeCoverageHotPath| hot_path_view(h)) == scan.1
                &&& unmatched == scan.2
            }),
            key_views(finding_keys_v@) == finding_keys(
                findings@.map_values(|f: RuntimeCoverageFinding| finding_view(f)),
            ),
            key_views(hot_keys_v@) == hot_path_keys(
                hot_paths@.map_values(|h: RuntimeCoverageHotPath| hot_path_view(h)),
            ),
        decreases snapshot.functions.len() - i,
    {
        let function = &snapshot.functions[i];
        proof {
            assert(cfs.take(i + 1).drop_last() =~= cfs.take(i as int));
            assert(cfs.take(i + 1).last() == cfs[i as int]);
        }
        let ghost fv0 = findings@.map_values(|f: RuntimeCoverageFinding| finding_view(f));
        let ghost hv0 = hot_paths@.map_values(|h: RuntimeCoverageHotPath| hot_path_view(h));
        let ghost fk0 = finding_keys_v@;
        let ghost hk0 = hot_keys_v@;
        match match_cloud_function(function, static_index) {
            None => {
                unmatched = unmatched + 1;
            },
            Some(local) => {
                if function.tracking_state == CloudTrackingState::Called {
                    match function.hit_count {
                        Some(inv) => {
                            if inv >= min_invocations_hot {
                                let h = cloud_hot_path(&local, inv);
                                let k = hot_path_sort_key(&h);
                                hot_paths.push(h);
                                hot_keys_v.push(k);
                                proof {
                                    assert(hot_paths@.map_values(
                                        |h: RuntimeCoverageHotPath| hot_path_view(h),
                                    ) =~= hv0.push(hot_path_view(h)));
                                    assert(key_views(hot_keys_v@) =~= key_views(hk0).push(
                                        crate::ordering::key_view(k),
                                    ));
                                    assert(hot_path_keys(hv0.push(hot_path_view(h))) =~= hot_path_keys(
                                        hv0,
                                    ).push(hot_path_key(hot_path_view(h))));
                                }
                            }
                        },
                        None => {},
                    }
                } else {
                    let f = cloud_finding(function, &local, days);
                    let k = finding_sort_key(&f);
                    findings.push(f);
                    finding_keys_v.push(k);
                    proof {
                        assert(findings@.map_values(|f: RuntimeCoverageFinding| finding_view(f))
                            =~= fv0.push(finding_view(f)));
                        assert(key_views(finding_keys_v@) =~= key_views(fk0).push(
                            crate::ordering::key_view(k),
                        ));
                        assert(finding_keys(fv0.push(finding_view(f))) =~= finding_keys(fv0).push(
                            finding_key(finding_view(f)),
                        ));
                    }
                }
            },
        }
        i = i + 1;
    }
    proof {
        assert(cfs.take(i as int) =~= cfs);
    }
    let ghost scan = merge_scan(fs, cfs, min_invocations_hot, days);
    let ghost fitems = findings@;
    let ghost hitems = hot_paths@;
    let ghost fkeys = key_views(finding_keys_v@);
    let ghost hkeys = key_views(hot_keys_v@);
    let verdict = if findings.len() == 0 {
        RuntimeCoverageReportVerdict::Clean
    } else {
        RuntimeCoverageReportVerdict::ColdCodeDetected
    };
    let (sorted_findings, sorted_fkeys) = stable_sort_by_key(findings, finding_keys_v);
    let (sorted_hot, sorted_hkeys) = stable_sort_by_key(hot_paths, hot_keys_v);
    proof {
        let fview = |f: RuntimeCoverageFinding| finding_view(f);
        let hview = |h: RuntimeCoverageHotPath| hot_path_view(h);
        crate::ordering::lemma_tagged_view(sorted_findings@, key_views(sorted_fkeys@), fview);
        crate::ordering::lemma_tagged_view(fitems, fkeys, fview);
        crate::ordering::lemma_tagged_view(sorted_hot@, key_views(sorted_hkeys@), hview);
        crate::ordering::lemma_tagged_view(hitems, hkeys, hview);
        let fv = sorted_findings@.map_values(fview);
        let hv = sorted_hot@.map_values(hview);
        // The keys travel with the items, so they are the keys of the sorted views.
        assert forall|k: KeyView| #[trigger]
            with_sort_key(tagged(fv, key_views(sorted_fkeys@)), k) == with_sort_key(
                tagged(scan.0, finding_keys(scan.0)),
                k,
            ) by {
            assert(tagged(fitems.map_values(fview), fkeys) =~= tagged(scan.0, finding_keys(scan.0)));
        }
        assert forall|k: KeyView| #[trigger]
            with_sort_key(tagged(hv, key_views(sorted_hkeys@)), k) == with_sort_key(
                tagged(scan.1, hot_path_keys(scan.1)),
                k,
            ) by {
            assert(tagged(hitems.map_values(hview), hkeys) =~= tagged(scan.1, hot_path_keys(scan.1)));
        }
        crate::ordering::lemma_keys_follow_items(fv, key_views(sorted_fkeys@), scan.0, |f: FindingView| finding_key(f));
        crate::ordering::lemma_keys_follow_items(hv, key_views(sorted_hkeys@), scan.1, |h: HotPathView| hot_path_key(h));
        assert(finding_keys(fv) =~= fv.map_values(|f: FindingView| finding_key(f)));
        assert(hot_path_keys(hv) =~= hv.map_values(|h: HotPathView| hot_path_key(h)));
        assert(finding_keys(scan.0) =~= scan.0.map_values(|f: FindingView| finding_key(f)));
        assert(hot_path_keys(scan.1) =~= scan.1.map_values(|h: HotPathView| hot_path_key(h)));
    }
    let warnings = cloud_warnings(snapshot, unmatched);
    RuntimeCoverageReport {
        verdict,
        summary: RuntimeCoverageSummary {
            data_source: RuntimeCoverageDataSource::Cloud,
            last_received_at: copy_opt_string(&snapshot.summary.last_received_at),
            functions_tracked: snapshot.summary.functions_tracked,
            functions_hit: snapshot.summary.functions_hit,
            functions_unhit: snapshot.summary.functions_unhit,
            functions_untracked: snapshot.summary.functions_untracked,
            trace_count: snapshot.summary.trace_count,
            period_days: snapshot.window.period_days,
            deployments_seen: snapshot.summary.deployments_seen,
        },
        findings: sorted_findings,
        hot_paths: sorted_hot,
        watermark: None,
        warnings,
    }
}

// ── Report verdict and sidecar messages ──────────────────────────

/// Whether a verdict is a cold signal.
pub open spec fn is_cold(v: RuntimeCoverageVerdict) -> bool {
    v == RuntimeCoverageVerdict::SafeToDelete || v == RuntimeCoverageVerdict::ReviewRequired
        || v == RuntimeCoverageVerdict::LowTraffic
}

/// The verdict of a report after its findings and hot paths were filtered:
/// an expired-license grace period wins, then cold code, then (in a review
/// of changed files) hot paths that changed, else clean.
pub open spec fn refreshed_verdict(
    verdict: RuntimeCoverageReportVerdict,
    watermark: Option<ProductionCoverageWatermark>,
    findings: Seq<RuntimeCoverageFinding>,
    hot_paths_len: nat,
    changed_review: bool,
) -> RuntimeCoverageReportVerdict {
    if verdict == RuntimeCoverageReportVerdict::LicenseExpiredGrace || watermark == Some(
        ProductionCoverageWatermark::LicenseExpiredGrace,
    ) {
        RuntimeCoverageReportVerdict::LicenseExpiredGrace
    } else if exists|i: int| 0 <= i < findings.len() && is_cold(#[trigger] findings[i].verdict) {
        RuntimeCoverageReportVerdict::ColdCodeDetected
    } else if changed_review && hot_paths_len > 0 {
        RuntimeCoverageReportVerdict::HotPathChangesNeeded
    } else {
        RuntimeCoverageReportVerdict::Clean
    }
}

/// A finding that is safe to delete, needs review or sees little traffic
/// makes the refreshed verdict `ColdCodeDetected`, unless an expired-license
/// grace period is in force.
pub proof fn lemma_cold_finding_detected(
    verdict: RuntimeCoverageReportVerdict,
    watermark: Option<ProductionCoverageWatermark>,
    findings: Seq<RuntimeCoverageFinding>,
    hot_paths_len: nat,
    changed_review: bool,
    i: int,
)
    requires
        0 <= i < findings.len(),
        findings[i].verdict == RuntimeCoverageVerdict::SafeToDelete || findings[i].verdict
            == RuntimeCoverageVerdict::ReviewRequired || findings[i].verdict
            == RuntimeCoverageVerdict::LowTraffic,
        verdict != RuntimeCoverageReportVerdict::LicenseExpiredGrace,
        watermark != Some(ProductionCoverageWatermark::LicenseExpiredGrace),
    ensures
        refreshed_verdict(verdict, watermark, findings, hot_paths_len, changed_review)
            == RuntimeCoverageReportVerdict::ColdCodeDetected,
{
    assert(is_cold(findings[i].verdict));
}

/// Cold code is reported only when a finding is safe to delete, needs review
/// or sees little traffic; with only active, unknown or untracked findings
/// and no grace period, the refreshed verdict is clean, or names changed hot
/// paths in a review of changed files.
pub proof fn lemma_no_cold_finding(
    verdict: RuntimeCoverageReportVerdict,
    watermark: Option<ProductionCoverageWatermark>,
    findings: Seq<RuntimeCoverageFinding>,
    hot_paths_len: nat,
    changed_review: bool,
)
    requires
        forall|i: int|
            0 <= i < findings.len() ==> (#[trigger] findings[i]).verdict == RuntimeCoverageVerdict::Active
                || findings[i].verdict == RuntimeCoverageVerdict::Unknown || findings[i].verdict
                == RuntimeCoverageVerdict::CoverageUnavailable,
        verdict != RuntimeCoverageReportVerdict::LicenseExpiredGrace,
        watermark != Some(ProductionCoverageWatermark::LicenseExpiredGrace),
    ensures
        refreshed_verdict(verdict, watermark, findings, hot_paths_len, changed_review) == (if changed_review
            && hot_paths_len > 0 {
            RuntimeCoverageReportVerdict::HotPathChangesNeeded
        } else {
            RuntimeCoverageReportVerdict::Clean
        }),
{
    assert forall|i: int| 0 <= i < findings.len() implies !is_cold(#[trigger] findings[i].verdict) by {
        assert(findings[i].verdict == RuntimeCoverageVerdict::Active || findings[i].verdict
            == RuntimeCoverageVerdict::Unknown || findings[i].verdict
            == RuntimeCoverageVerdict::CoverageUnavailable);
    }
}

/// Recompute a report's verdict from what it still holds; nothing else
/// changes.
pub fn refresh_production_coverage_verdict(report: &mut RuntimeCoverageReport, changed_review: bool)
    ensures
        final(report).verdict == refreshed_verdict(
            old(report).verdict,
            old(report).watermark,
            old(report).findings@,
            old(report).hot_paths@.len(),
            changed_review,
        ),
        final(report).findings@ == old(report).findings@,
        final(report).hot_paths@ == old(report).hot_paths@,
        final(report).warnings@ == old(report).warnings@,
        final(report).watermark == old(report).watermark,
        final(report).summary == old(report).summary,
{
    let mut has_cold_signal = false;
    let mut i: usize = 0;
    while i < report.findings.len()
        invariant
            i <= report.findings@.len(),
            has_cold_signal <==> exists|j: int|
                0 <= j < i && is_cold(#[trigger] report.findings@[j].verdict),
        decreases report.findings.len() - i,
    {
        let v = report.findings[i].verdict;
        if v == RuntimeCoverageVerdict::SafeToDelete || v == RuntimeCoverageVerdict::ReviewRequired
            || v == RuntimeCoverageVerdict::LowTraffic {
            has_cold_signal = true;
        }
        i = i + 1;
    }
    let has_changed_hot_path = changed_review && report.hot_paths.len() > 0;
    let expired = match report.watermark {
        Some(ProductionCoverageWatermark::LicenseExpiredGrace) => true,
        _ => false,
    };
    report.verdict = if report.verdict == RuntimeCoverageReportVerdict::LicenseExpiredGrace
        || expired {
        RuntimeCoverageReportVerdict::LicenseExpiredGrace
    } else if has_cold_signal {
        RuntimeCoverageReportVerdict::ColdCodeDetected
    } else if has_changed_hot_path {
        RuntimeCoverageReportVerdict::HotPathChangesNeeded
    } else {
        RuntimeCoverageReportVerdict::Clean
    };
}

/// The characters `String::from_utf8_lossy` decodes from a byte string
/// (invalid sequences become U+FFFD).
pub uninterp spec fn utf8_lossy(bytes: Seq<u8>) -> Seq<char>;

/// `String::from_utf8_lossy`. Its result depends on the bytes alone; the
/// contract names it `utf8_lossy` and says nothing else of it.
#[verifier::external_body]
fn decode_utf8_lossy(bytes: &[u8]) -> (s: String)
    ensures
        s@ == utf8_lossy(bytes@),
{
    String::from_utf8_lossy(bytes).into_owned()
}

/// The message of a failed sidecar: its trimmed standard error, or the
/// fallback when that is empty.
pub fn stderr_message(stderr: &[u8], fallback: &str) -> (r: String)
    ensures
        r@ == (if trim(utf8_lossy(stderr@)).len() == 0 {
            fallback@
        } else {
            trim(utf8_lossy(stderr@))
        }),
{
    let decoded = decode_utf8_lossy(stderr);
    let v = str_chars(decoded.as_str());
    let t = trim_exec(&v);
    if t.len() == 0 {
        String::from_str(fallback)
    } else {
        chars_to_string(t.as_slice())
    }
}

// ── Building the index of local functions ────────────────────────

/// An unused export of the static analysis: its file, name and line.
#[derive(Debug, Clone)]
pub struct UnusedExportSite {
    pub path: String,
    pub name: String,
    pub line: u32,
}

/// Whether an unused export of the file `path` has the name `name`.
pub open spec fn export_named(es: Seq<UnusedExportSite>, path: Seq<char>, name: Seq<char>) -> bool {
    exists|i: int| 0 <= i < es.len() && same_path(#[trigger] es[i].path@, path) && es[i].name@ == name
}

/// Whether an unused export of the file `path` is on line `line`.
pub open spec fn export_on_line(es: Seq<UnusedExportSite>, path: Seq<char>, line: u32) -> bool {
    exists|i: int| 0 <= i < es.len() && same_path(#[trigger] es[i].path@, path) && es[i].line == line
}

/// A function is statically used unless its file is unused or an unused
/// export of its file has its name or its line.
pub open spec fn statically_used(
    path: Seq<char>,
    f: FunctionComplexity,
    unused_files: Seq<String>,
    es: Seq<UnusedExportSite>,
) -> bool {
    !holds_path(unused_files, path) && !export_named(es, path, f.name@) && !export_on_line(es, path, f.line)
}

/// The index entry of a function of the file `path`: the path relative to
/// the root and normalised, its span, and whether it is statically used.
pub open spec fn index_entry(
    root: Seq<char>,
    path: Seq<char>,
    f: FunctionComplexity,
    unused_files: Seq<String>,
    es: Seq<UnusedExportSite>,
) -> (Seq<char>, Seq<char>, u32, u32, bool, bool) {
    (
        normalized_path(relative_to(path, root)),
        f.name@,
        f.line,
        sat_add(f.line, f.line_count),
        statically_used(path, f, unused_files, es),
        false,
    )
}

/// The index entries of the functions of the modules with a path, in order.
pub open spec fn index_entries(
    ms: Seq<ModuleComplexity>,
    root: Seq<char>,
    unused_files: Seq<String>,
    es: Seq<UnusedExportSite>,
) -> Seq<(Seq<char>, Seq<char>, u32, u32, bool, bool)>
    decreases ms.len(),
{
    if ms.len() == 0 {
        Seq::empty()
    } else {
        let r = index_entries(ms.drop_last(), root, unused_files, es);
        match ms.last().path {
            Some(p) => r + ms.last().functions@.map_values(
                |f: FunctionComplexity| index_entry(root, p@, f, unused_files, es),
            ),
            None => r,
        }
    }
}

fn unused_export_matches(es: &Vec<UnusedExportSite>, path: &str, name: &String, line: u32) -> (r: (
    bool,
    bool,
))
    ensures
        r.0 == export_named(es@, path@, name@),
        r.1 == export_on_line(es@, path@, line),
{
    let mut named = false;
    let mut on_line = false;
    let mut i: usize = 0;
    while i < es.len()
        invariant
            i <= es@.len(),
            named == exists|j: int| 0 <= j < i && same_path(#[trigger] es@[j].path@, path@) && es@[j].name@ == name@,
            on_line == exists|j: int| 0 <= j < i && same_path(#[trigger] es@[j].path@, path@) && es@[j].line == line,
        decreases es.len() - i,
    {
        if paths_equal(es[i].path.as_str(), path) {
            if es[i].name == *name {
                named = true;
            }
            if es[i].line == line {
                on_line = true;
            }
        }
        i = i + 1;
    }
    (named, on_line)
}

/// The local functions of the analysed modules, each with its span and
/// whether the static analysis found it used.
pub fn build_index_from_analysis(
    root: &str,
    modules: &Vec<ModuleComplexity>,
    unused_files: &Vec<String>,
    unused_exports: &Vec<UnusedExportSite>,
) -> (r: StaticIndex)
    ensures
        r.functions@.map_values(|i: StaticFunctionInfo| info_view(i)) == index_entries(
            modules@,
            root@,
            unused_files@,
            unused_exports@,
        ),
{
    let ghost ms = modules@;
    let mut out: Vec<StaticFunctionInfo> = Vec::new();
    let mut i: usize = 0;
    while i < modules.len()
        invariant
            ms == modules@,
            i <= ms.len(),
            out@.map_values(|x: StaticFunctionInfo| info_view(x)) == index_entries(
                ms.take(i as int),
                root@,
                unused_files@,
                unused_exports@,
            ),
        decreases modules.len() - i,
    {
        proof {
            assert(ms.take(i + 1).drop_last() =~= ms.take(i as int));
            assert(ms.take(i + 1).last() == ms[i as int]);
        }
        let m = &modules[i];
        if let Some(path) = &m.path {
            let rel = normalize_runtime_path(relative_or_self(path.as_str(), root).as_str());
            let in_unused_file = contains_path(unused_files, path.as_str());
            let ghost base = out@.map_values(|x: StaticFunctionInfo| info_view(x));
            let fs = &m.functions;
            let mut j: usize = 0;
            while j < fs.len()
                invariant
                    i < ms.len(),
                    m == ms[i as int],
                    m.path == Some(*path),
                    *fs == m.functions,
                    j <= fs@.len(),
                    rel@ == normalized_path(relative_to(path@, root@)),
                    in_unused_file == holds_path(unused_files@, path@),
                    out@.map_values(|x: StaticFunctionInfo| info_view(x)) == base + fs@.take(j as int).map_values(
                        |f: FunctionComplexity| index_entry(root@, path@, f, unused_files@, unused_exports@),
                    ),
                decreases fs.len() - j,
            {
                let f = &fs[j];
                let (named, on_line) = unused_export_matches(unused_exports, path.as_str(), &f.name, f.line);
                let end_line = if f.line > u32::MAX - f.line_count {
                    u32::MAX
                } else {
                    f.line + f.line_count
                };
                let info = StaticFunctionInfo {
                    path: rel.clone(),
                    name: f.name.clone(),
                    start_line: f.line,
                    end_line,
                    static_used: !in_unused_file && !named && !on_line,
                    test_covered: false,
                };
                let ghost before = out@;
                out.push(info);
                proof {
                    assert(info_view(info) == index_entry(root@, path@, *f, unused_files@, unused_exports@));
                    assert(out@.map_values(|x: StaticFunctionInfo| info_view(x)) =~= before.map_values(
                        |x: StaticFunctionInfo| info_view(x),
                    ).push(info_view(info)));
                    assert(fs@.take(j + 1).map_values(
                        |f: FunctionComplexity| index_entry(root@, path@, f, unused_files@, unused_exports@),
                    ) =~= fs@.take(j as int).map_values(
                        |f: FunctionComplexity| index_entry(root@, path@, f, unused_files@, unused_exports@),
                    ).push(info_view(info)));
                }
                j = j + 1;
            }
            proof {
                assert(fs@.take(j as int) =~= fs@);
            }
        }
        i = i + 1;
    }
    proof {
        assert(ms.take(i as int) =~= ms);
    }
    StaticIndex { functions: out }
}

// ── Output format ────────────────────────────────────────────────

/// The report formats of the command line.
#[derive(Debug, Clone, Copy, PartialEq, Eq, Structural)]
pub enum OutputFormat {
    Human,
    Json,
    Sarif,
    Compact,
    Markdown,
    CodeClimate,
    Badge,
}

/// The name of a format as `{:?}` shows it.
pub open spec fn format_debug_name(f: OutputFormat) -> Seq<char> {
    match f {
        OutputFormat::Human => "Human"@,
        OutputFormat::Json => "Json"@,
        OutputFormat::Sarif => "Sarif"@,
        OutputFormat::Compact => "Compact"@,
        OutputFormat::Markdown => "Markdown"@,
        OutputFormat::CodeClimate => "CodeClimate"@,
        OutputFormat::Badge => "Badge"@,
    }
}

fn format_debug_name_exec(f: OutputFormat) -> (r: &'static str)
    ensures
        r@ == format_debug_name(f),
{
    match f {
        OutputFormat::Human => "Human",
        OutputFormat::Json => "Json",
        OutputFormat::Sarif => "Sarif",
        OutputFormat::Compact => "Compact",
        OutputFormat::Markdown => "Markdown",
        OutputFormat::CodeClimate => "CodeClimate",
        OutputFormat::Badge => "Badge",
    }
}

/// Why a format is refused by `coverage analyze`.
pub open spec fn unsupported_format_message(f: OutputFormat) -> Seq<char> {
    "fallow coverage analyze only supports --format json or --format human (got "@ + format_debug_name(f)
        + "). Use `fallow coverage analyze --format json` and pipe to your own converter for "@
        + format_debug_name(f) + "."@
}

/// `coverage analyze` writes JSON or human output; other formats are refused
/// with a message that says what to use instead.
pub fn validate_output_format(output: OutputFormat) -> (r: Result<(), String>)
    ensures
        match output {
            OutputFormat::Json | OutputFormat::Human => r is Ok,
            _ => r matches Err(m) && m@ == unsupported_format_message(output),
        },
{
    match output {
        OutputFormat::Json | OutputFormat::Human => Ok(()),
        _ => {
            let name = format_debug_name_exec(output);
            let mut m = String::from_str(
                "fallow coverage analyze only supports --format json or --format human (got ",
            );
            m.append(name);
            m.append("). Use `fallow coverage analyze --format json` and pipe to your own converter for ");
            m.append(name);
            m.append(".");
            Err(m)
        },
    }
}

// ── Scoping a report ─────────────────────────────────────────────

/// For each finding, whether the baseline does not record its id.
pub open spec fn not_in_baseline(fs: Seq<RuntimeCoverageFinding>, ids: Seq<String>) -> Seq<bool> {
    fs.map_values(
        |f: RuntimeCoverageFinding| !(exists|i: int| 0 <= i < ids.len() && #[trigger] ids[i]@ == f.id@),
    )
}

/// For each hot path, whether its file is one of the changed files.
pub open spec fn hot_in_changed(hs: Seq<RuntimeCoverageHotPath>, changed: Seq<String>) -> Seq<bool> {
    hs.map_values(|h: RuntimeCoverageHotPath| holds_path(changed, h.path@))
}

/// The findings left after the baseline.
pub open spec fn findings_after_baseline(
    fs: Seq<RuntimeCoverageFinding>,
    baseline_ids: Option<Seq<String>>,
) -> Seq<RuntimeCoverageFinding> {
    match baseline_ids {
        Some(b) => crate::dead_code::masked(fs, not_in_baseline(fs, b)),
        None => fs,
    }
}

/// The hot paths left after the changed-files scope.
pub open spec fn hot_paths_in_scope(
    hs: Seq<RuntimeCoverageHotPath>,
    changed: Option<Seq<String>>,
) -> Seq<RuntimeCoverageHotPath> {
    match changed {
        Some(c) => crate::dead_code::masked(hs, hot_in_changed(hs, c)),
        None => hs,
    }
}

fn id_recorded(ids: &Vec<String>, id: &String) -> (r: bool)
    ensures
        r == exists|i: int| 0 <= i < ids@.len() && #[trigger] ids@[i]@ == id@,
{
    let mut i: usize = 0;
    while i < ids.len()
        invariant
            i <= ids@.len(),
            forall|j: int| 0 <= j < i ==> #[trigger] ids@[j]@ != id@,
        decreases ids.len() - i,
    {
        if ids[i] == *id {
            return true;
        }
        i = i + 1;
    }
    false
}

/// Scopes a report: findings that the baseline records (by id) are dropped,
/// hot paths outside the changed files are dropped, the verdict is
/// recomputed (a changed-files review when changed files are given), and at
/// most `top` findings and `top` hot paths are kept.
pub fn apply_production_coverage_filters(
    report: &mut RuntimeCoverageReport,
    baseline_ids: Option<&Vec<String>>,
    top: Option<usize>,
    changed_files: Option<&Vec<String>>,
)
    ensures
        ({
            let fs = findings_after_baseline(
                old(report).findings@,
                match baseline_ids {
                    Some(b) => Some(b@),
                    None => None,
                },
            );
            let hs = hot_paths_in_scope(
                old(report).hot_paths@,
                match changed_files {
                    Some(c) => Some(c@),
                    None => None,
                },
            );
            &&& final(report).verdict == refreshed_verdict(
                old(report).verdict,
                old(report).watermark,
                fs,
                hs.len(),
                changed_files is Some,
            )
            &&& final(report).findings@ == fs.take(crate::flags::limited(fs.len(), top) as int)
            &&& final(report).hot_paths@ == hs.take(crate::flags::limited(hs.len(), top) as int)
            &&& final(report).warnings@ == old(report).warnings@
            &&& final(report).watermark == old(report).watermark
            &&& final(report).summary == old(report).summary
        }),
{
    if let Some(ids) = baseline_ids {
        let mut keep: Vec<bool> = Vec::new();
        let ghost fs = report.findings@;
        let mut i: usize = 0;
        while i < report.findings.len()
            invariant
                fs == report.findings@,
                i <= fs.len(),
                keep@ == not_in_baseline(fs, ids@).take(i as int),
            decreases report.findings.len() - i,
        {
            let k = !id_recorded(ids, &report.findings[i].id);
            keep.push(k);
            proof {
                assert(keep@ =~= not_in_baseline(fs, ids@).take(i + 1));
            }
            i = i + 1;
        }
        proof {
            assert(not_in_baseline(fs, ids@).take(i as int) =~= not_in_baseline(fs, ids@));
        }
        crate::dead_code::retain_mask(&mut report.findings, &keep);
    }
    if let Some(changed) = changed_files {
        let mut keep: Vec<bool> = Vec::new();
        let ghost hs = report.hot_paths@;
        let mut i: usize = 0;
        while i < report.hot_paths.len()
            invariant
                hs == report.hot_paths@,
                i <= hs.len(),
                keep@ == hot_in_changed(hs, changed@).take(i as int),
            decreases report.hot_paths.len() - i,
        {
            let k = contains_path(changed, report.hot_paths[i].path.as_str());
            keep.push(k);
            proof {
                assert(keep@ =~= hot_in_changed(hs, changed@).take(i + 1));
            }
            i = i + 1;
        }
        proof {
            assert(hot_in_changed(hs, changed@).take(i as int) =~= hot_in_changed(hs, changed@));
        }
        crate::dead_code::retain_mask(&mut report.hot_paths, &keep);
    }
    refresh_production_coverage_verdict(report, changed_files.is_some());
    if let Some(t) = top {
        report.findings.truncate(t);
        report.hot_paths.truncate(t);
    }
    proof {
        assert(report.findings@ =~= report.findings@.take(report.findings@.len() as int));
    }
}

} // verus!
