//! CODEOWNERS parsing and ownership lookup.
//!
//! Patterns follow gitignore-like rules: `*.js` matches in any directory,
//! `/docs/*` is anchored at the root, `docs/` covers everything below `docs`,
//! the last matching rule wins, and the first owner of a rule is its primary
//! owner. Glob compilation and matching are done by `globset`.
use vstd::prelude::*;
use globset::{Glob, GlobSet, GlobSetBuilder};
use crate::text::{
    chars_to_string, contains_char, lines, lines_exec, push_all, push_str, slice_vec, str_chars, trim,
    trim_exec, ws_tokens, ws_tokens_exec,
};

verus! {

#[verifier::external_type_specification]
#[verifier::external_body]
pub struct ExGlob(Glob);

#[verifier::external_type_specification]
#[verifier::external_body]
pub struct ExGlobSet(GlobSet);

#[verifier::external_type_specification]
#[verifier::external_body]
pub struct ExGlobSetBuilder(GlobSetBuilder);

/// The pattern text a `Glob` was built from (`Glob::glob`).
pub uninterp spec fn glob_source(g: Glob) -> Seq<char>;

/// The patterns added to a `GlobSetBuilder`, in order.
pub uninterp spec fn builder_globs(b: GlobSetBuilder) -> Seq<Seq<char>>;

/// The patterns of a `GlobSet`, indexed by their sequence number.
pub uninterp spec fn globset_globs(s: GlobSet) -> Seq<Seq<char>>;

/// Outcome of `Glob::new` on a pattern: `Ok` or the error's display text.
pub uninterp spec fn glob_new_outcome(pattern: Seq<char>) -> Result<(), Seq<char>>;

/// Outcome of building a `GlobSet` from patterns: `Ok` or the error's display text.
pub uninterp spec fn globset_build_outcome(patterns: Seq<Seq<char>>) -> Result<(), Seq<char>>;

/// Whether the glob compiled (with default options) from `pattern` matches `path`.
pub uninterp spec fn glob_matches(pattern: Seq<char>, path: Seq<char>) -> bool;

/// `globset::Glob::new`: succeeds exactly when the pattern is a valid glob; the
/// glob remembers its pattern. On failure, the error's display text is returned.
#[verifier::external_body]
pub(crate) fn glob_new(pattern: &str) -> (r: Result<Glob, String>)
    ensures
        match r {
            Ok(g) => glob_new_outcome(pattern@) == Ok::<(), Seq<char>>(()) && glob_source(g)
                == pattern@,
            Err(m) => glob_new_outcome(pattern@) == Err::<(), Seq<char>>(m@),
        },
{
    Glob::new(pattern).map_err(|e| e.to_string())
}

/// `globset::GlobSetBuilder::new`: a builder with no patterns.
#[verifier::external_body]
pub(crate) fn builder_new() -> (b: GlobSetBuilder)
    ensures
        builder_globs(b) == Seq::<Seq<char>>::empty(),
{
    GlobSetBuilder::new()
}

/// `globset::GlobSetBuilder::add`: appends the glob's pattern.
#[verifier::external_body]
pub(crate) fn builder_add(b: &mut GlobSetBuilder, g: Glob)
    ensures
        builder_globs(*final(b)) == builder_globs(*old(b)).push(glob_source(g)),
{
    b.add(g);
}

/// `globset::GlobSetBuilder::build`: on success the set holds the builder's
/// patterns, each under its insertion index; on failure the error's display text.
#[verifier::external_body]
pub(crate) fn builder_build(b: &GlobSetBuilder) -> (r: Result<GlobSet, String>)
    ensures
        match r {
            Ok(s) => globset_build_outcome(builder_globs(*b)) == Ok::<(), Seq<char>>(())
                && globset_globs(s) == builder_globs(*b),
            Err(m) => globset_build_outcome(builder_globs(*b)) == Err::<(), Seq<char>>(m@),
        },
{
    b.build().map_err(|e| e.to_string())
}

/// `globset::GlobSet::empty`: a set with no globs.
#[verifier::external_body]
pub(crate) fn globset_empty() -> (s: GlobSet)
    ensures
        globset_globs(s) == Seq::<Seq<char>>::empty(),
{
    GlobSet::empty()
}

/// `globset::GlobSet::len`: the number of globs in the set.
#[verifier::external_body]
pub(crate) fn globset_len(s: &GlobSet) -> (n: usize)
    ensures
        n == globset_globs(*s).len(),
{
    s.len()
}

/// `globset::GlobSet::matches`: the sequence numbers of every matching glob, in
/// ascending order without repetition.
#[verifier::external_body]
pub(crate) fn globset_matches(s: &GlobSet, path: &str) -> (r: Vec<usize>)
    ensures
        forall|i: int, j: int| 0 <= i < j < r@.len() ==> r@[i] < r@[j],
        forall|k: usize|
            #![trigger r@.contains(k)]
            r@.contains(k) <==> (k < globset_globs(*s).len() && glob_matches(
                globset_globs(*s)[k as int],
                path@,
            )),
{
    s.matches(path)
}

/// A CODEOWNERS pattern translated to a `globset` glob.
///
/// A leading `/` anchors to the root and is dropped; a trailing `/` means the
/// directory's contents (`dir/` becomes `dir/**`); an unanchored pattern
/// without `/` matches in any directory (`*.js` becomes `**/*.js`).
pub open spec fn spec_translate_pattern(p: Seq<char>) -> Seq<char> {
    let anchored = p.len() > 0 && p[0] == '/';
    let rest = if anchored {
        p.drop_first()
    } else {
        p
    };
    let expanded = if rest.len() > 0 && rest.last() == '/' {
        rest.drop_last() + seq!['/', '*', '*']
    } else {
        rest
    };
    if !anchored && !expanded.contains('/') {
        seq!['*', '*', '/'] + expanded
    } else {
        expanded
    }
}

fn translate_chars(p: &Vec<char>) -> (r: Vec<char>)
    ensures
        r@ == spec_translate_pattern(p@),
{
    let anchored = p.len() > 0 && p[0] == '/';
    let start: usize = if anchored {
        1
    } else {
        0
    };
    let trailing = p.len() > start && p[p.len() - 1] == '/';
    let end: usize = if trailing {
        p.len() - 1
    } else {
        p.len()
    };
    let mut expanded = slice_vec(p, start, end);
    if trailing {
        expanded.push('/');
        expanded.push('*');
        expanded.push('*');
    }
    proof {
        let rest = if anchored {
            p@.drop_first()
        } else {
            p@
        };
        assert(p@.subrange(start as int, p@.len() as int) =~= rest);
        if trailing {
            assert(expanded@ =~= rest.drop_last() + seq!['/', '*', '*']);
        } else {
            assert(expanded@ =~= rest);
        }
    }
    if !anchored && !contains_char(&expanded, '/') {
        let mut r: Vec<char> = Vec::new();
        r.push('*');
        r.push('*');
        r.push('/');
        push_all(&mut r, &expanded);
        proof {
            assert(r@ =~= seq!['*', '*', '/'] + expanded@);
        }
        r
    } else {
        expanded
    }
}

/// Translate a CODEOWNERS pattern to a `globset`-compatible glob pattern.
pub fn translate_pattern(pattern: &str) -> (r: String)
    ensures
        r@ == spec_translate_pattern(pattern@),
{
    let p = str_chars(pattern);
    let t = translate_chars(&p);
    chars_to_string(t.as_slice())
}

/// Length of the first path component: the prefix before the first `/` or `\`.
pub open spec fn first_component_len(s: Seq<char>) -> nat
    decreases s.len(),
{
    if s.len() == 0 || s[0] == '/' || s[0] == '\\' {
        0
    } else {
        1 + first_component_len(s.drop_first())
    }
}

proof fn lemma_first_component(s: Seq<char>, k: nat)
    requires
        k <= s.len(),
        forall|i: int| 0 <= i < k ==> s[i] != '/' && s[i] != '\\',
        k < s.len() ==> (s[k as int] == '/' || s[k as int] == '\\'),
    ensures
        first_component_len(s) == k,
    decreases k,
{
    if k > 0 {
        let t = s.drop_first();
        assert forall|i: int| 0 <= i < k - 1 implies t[i] != '/' && t[i] != '\\' by {
            assert(t[i] == s[i + 1]);
        }
        if k - 1 < t.len() {
            assert(t[k - 1] == s[k as int]);
        }
        lemma_first_component(t, (k - 1) as nat);
    }
}

/// Extract the first path component for `--group-by directory` grouping.
///
/// For monorepo structures (`packages/auth/...`) this is `packages`; a root-level
/// file is its own group.
pub fn directory_group(relative_path: &str) -> (r: &str)
    ensures
        r@ == relative_path@.take(first_component_len(relative_path@) as int),
{
    let cs = str_chars(relative_path);
    let mut k: usize = 0;
    while k < cs.len() && cs[k] != '/' && cs[k] != '\\'
        invariant
            k <= cs.len(),
            cs@ == relative_path@,
            forall|i: int| 0 <= i < k ==> cs@[i] != '/' && cs@[i] != '\\',
        decreases cs.len() - k,
    {
        k = k + 1;
    }
    proof {
        lemma_first_component(relative_path@, k as nat);
    }
    relative_path.substring_char(0, k)
}

/// Label for files that match no CODEOWNERS rule.
pub const UNOWNED_LABEL: &'static str = "(unowned)";

/// The rule that one CODEOWNERS line contributes: its pattern and primary
/// owner. Blank lines, comments and patterns without an owner contribute none.
pub open spec fn line_rule(line: Seq<char>) -> Option<(Seq<char>, Seq<char>)> {
    let t = trim(line);
    let toks = ws_tokens(t);
    if t.len() == 0 || t[0] == '#' || toks.len() < 2 {
        None
    } else {
        Some((toks[0], toks[1]))
    }
}

/// The rules contributed by a sequence of lines, in order.
pub open spec fn rules_in(ls: Seq<Seq<char>>) -> Seq<(Seq<char>, Seq<char>)>
    decreases ls.len(),
{
    if ls.len() == 0 {
        Seq::empty()
    } else {
        let r = rules_in(ls.drop_last());
        match line_rule(ls.last()) {
            Some(x) => r.push(x),
            None => r,
        }
    }
}

/// The (pattern, primary owner) rules of a CODEOWNERS file, in file order.
pub open spec fn codeowners_rules(content: Seq<char>) -> Seq<(Seq<char>, Seq<char>)> {
    rules_in(lines(content))
}

/// The translated glob patterns of a rule list.
pub open spec fn rule_globs(rules: Seq<(Seq<char>, Seq<char>)>) -> Seq<Seq<char>> {
    rules.map_values(|r: (Seq<char>, Seq<char>)| spec_translate_pattern(r.0))
}

/// Index of the first rule whose translated pattern `Glob::new` rejects.
pub open spec fn first_invalid(rules: Seq<(Seq<char>, Seq<char>)>) -> Option<int>
    decreases rules.len(),
{
    if rules.len() == 0 {
        None
    } else {
        match first_invalid(rules.drop_last()) {
            Some(i) => Some(i),
            None => if glob_new_outcome(spec_translate_pattern(rules.last().0)) is Err {
                Some(rules.len() - 1)
            } else {
                None
            },
        }
    }
}

/// Display text of a failed outcome.
pub open spec fn outcome_message(o: Result<(), Seq<char>>) -> Seq<char> {
    match o {
        Ok(_) => Seq::empty(),
        Err(m) => m,
    }
}

/// Parsing outcome of a CODEOWNERS file: the rules, with each pattern
/// translated, or the error message of the first invalid pattern, or of the
/// failed glob-set compilation.
pub open spec fn parse_outcome(content: Seq<char>) -> Result<
    Seq<(Seq<char>, Seq<char>)>,
    Seq<char>,
> {
    let rules = codeowners_rules(content);
    match first_invalid(rules) {
        Some(i) => Err(
            "invalid CODEOWNERS pattern '"@ + rules[i].0 + "': "@ + outcome_message(
                glob_new_outcome(spec_translate_pattern(rules[i].0)),
            ),
        ),
        None => match globset_build_outcome(rule_globs(rules)) {
            Ok(_) => Ok(
                rules.map_values(
                    |r: (Seq<char>, Seq<char>)| (spec_translate_pattern(r.0), r.1),
                ),
            ),
            Err(m) => Err("failed to compile CODEOWNERS patterns: "@ + m),
        },
    }
}

/// Index of the last rule (below `n`) whose glob matches `path`.
pub open spec fn last_match(globs: Seq<Seq<char>>, path: Seq<char>, n: int) -> Option<int>
    decreases n,
{
    if n <= 0 {
        None
    } else if glob_matches(globs[n - 1], path) {
        Some(n - 1)
    } else {
        last_match(globs, path, n - 1)
    }
}

/// Parsed CODEOWNERS file for ownership lookup.
#[derive(Debug)]
pub struct CodeOwners {
    /// Primary owner per rule, indexed by glob position in the `GlobSet`.
    owners: Vec<String>,
    /// Compiled glob patterns for matching.
    globs: GlobSet,
}

impl View for CodeOwners {
    /// The rules as (translated glob pattern, primary owner), in file order.
    type V = Seq<(Seq<char>, Seq<char>)>;

    closed spec fn view(&self) -> Seq<(Seq<char>, Seq<char>)> {
        Seq::new(
            self.owners@.len(),
            |i: int| (globset_globs(self.globs)[i], self.owners@[i]@),
        )
    }
}

proof fn lemma_last_match_props(globs: Seq<Seq<char>>, path: Seq<char>, n: int)
    ensures
        match last_match(globs, path, n) {
            Some(i) => 0 <= i < n && glob_matches(globs[i], path) && forall|j: int|
                i < j < n ==> !glob_matches(globs[j], path),
            None => forall|j: int| 0 <= j < n ==> !glob_matches(globs[j], path),
        },
    decreases n,
{
    if n > 0 {
        lemma_last_match_props(globs, path, n - 1);
    }
}

impl CodeOwners {
    #[verifier::type_invariant]
    spec fn inv(self) -> bool {
        self.owners@.len() == globset_globs(self.globs).len()
    }

    /// Parse CODEOWNERS content into a lookup structure.
    pub fn parse(content: &str) -> (r: Result<Self, String>)
        ensures
            match (r, parse_outcome(content@)) {
                (Ok(co), Ok(rules)) => co@ == rules,
                (Err(m), Err(msg)) => m@ == msg,
                _ => false,
            },
    {
        let cs = str_chars(content);
        let ls = lines_exec(&cs);
        let ghost lsv = lines(content@);
        let mut builder = builder_new();
        let mut owners: Vec<String> = Vec::new();
        let mut i: usize = 0;
        while i < ls.len()
            invariant
                i <= ls.len() == lsv.len(),
                lsv == lines(content@),
                forall|j: int| 0 <= j < ls@.len() ==> #[trigger] ls@[j]@ == lsv[j],
                first_invalid(rules_in(lsv.take(i as int))) is None,
                builder_globs(builder) == rule_globs(rules_in(lsv.take(i as int))),
                owners@.len() == rules_in(lsv.take(i as int)).len(),
                forall|j: int|
                    0 <= j < owners@.len() ==> #[trigger] owners@[j]@ == rules_in(
                        lsv.take(i as int),
                    )[j].1,
            decreases ls.len() - i,
        {
            let ghost prev = rules_in(lsv.take(i as int));
            proof {
                assert(lsv.take(i + 1).drop_last() =~= lsv.take(i as int));
                assert(lsv.take(i + 1).last() == lsv[i as int]);
            }
            let t = trim_exec(&ls[i]);
            let toks = ws_tokens_exec(&t);
            if t.len() == 0 || t[0] == '#' || toks.len() < 2 {
                i = i + 1;
                continue;
            }
            let glob_pattern = translate_chars(&toks[0]);
            let gp = chars_to_string(glob_pattern.as_slice());
            match glob_new(gp.as_str()) {
                Ok(g) => {
                    builder_add(&mut builder, g);
                    owners.push(chars_to_string(toks[1].as_slice()));
                    proof {
                        let now = rules_in(lsv.take(i + 1));
                        assert(now == prev.push((toks@[0]@, toks@[1]@)));
                        assert(now.drop_last() =~= prev);
                        assert(rule_globs(now) =~= rule_globs(prev).push(
                            spec_translate_pattern(toks@[0]@),
                        ));
                    }
                    i = i + 1;
                },
                Err(e) => {
                    let mut msg: Vec<char> = Vec::new();
                    push_str(&mut msg, "invalid CODEOWNERS pattern '");
                    push_all(&mut msg, &toks[0]);
                    push_str(&mut msg, "': ");
                    let ev = str_chars(e.as_str());
                    push_all(&mut msg, &ev);
                    proof {
                        let now = rules_in(lsv.take(i + 1));
                        assert(now == prev.push((toks@[0]@, toks@[1]@)));
                        assert(now.drop_last() =~= prev);
                        assert(first_invalid(now) == Some(prev.len() as int));
                        lemma_rules_prefix(lsv, (i + 1) as int);
                        lemma_first_invalid_prefix(now, codeowners_rules(content@));
                    }
                    return Err(chars_to_string(msg.as_slice()));
                },
            }
        }
        proof {
            assert(lsv.take(i as int) =~= lsv);
        }
        let ghost rules = codeowners_rules(content@);
        match builder_build(&builder) {
            Ok(globs) => {
                let co = CodeOwners { owners, globs };
                proof {
                    assert(co@ =~= rules.map_values(
                        |r: (Seq<char>, Seq<char>)| (spec_translate_pattern(r.0), r.1),
                    ));
                }
                Ok(co)
            },
            Err(e) => {
                let mut msg: Vec<char> = Vec::new();
                push_str(&mut msg, "failed to compile CODEOWNERS patterns: ");
                let ev = str_chars(e.as_str());
                push_all(&mut msg, &ev);
                Err(chars_to_string(msg.as_slice()))
            },
        }
    }

    /// The number of rules.
    pub fn rule_count(&self) -> (n: usize)
        ensures
            n == self@.len(),
    {
        self.owners.len()
    }

    /// The primary owner of the rule at `index`.
    pub fn owner(&self, index: usize) -> (r: &str)
        requires
            index < self@.len(),
        ensures
            r@ == self@[index as int].1,
    {
        self.owners[index].as_str()
    }

    /// Look up the primary owner of a file path (relative to the project root).
    ///
    /// Returns the first owner of the last matching rule, or `None` if no rule
    /// matches.
    pub fn owner_of(&self, relative_path: &str) -> (r: Option<&str>)
        ensures
            match last_match(self@.map_values(|x: (Seq<char>, Seq<char>)| x.0), relative_path@, self@.len() as int) {
                Some(i) => r is Some && r->0@ == self@[i].1,
                None => r is None,
            },
    {
        proof {
            use_type_invariant(self);
        }
        let ghost globs = globset_globs(self.globs);
        assert(globs.len() == self.owners.len());
        let ghost pats = self@.map_values(|x: (Seq<char>, Seq<char>)| x.0);
        proof {
            assert(pats =~= globs);
            lemma_last_match_props(globs, relative_path@, globs.len() as int);
        }
        let matches = globset_matches(&self.globs, relative_path);
        if matches.len() == 0 {
            proof {
                assert forall|j: int| 0 <= j < globs.len() implies !glob_matches(
                    globs[j],
                    relative_path@,
                ) by {
                    if glob_matches(globs[j], relative_path@) {
                        assert(matches@.contains(j as usize));
                    }
                }
            }
            None
        } else {
            let idx = matches[matches.len() - 1];
            proof {
                assert(matches@.contains(idx));
                let lm = last_match(globs, relative_path@, globs.len() as int);
                match lm {
                    Some(i) => {
                        assert(matches@.contains(i as usize));
                        let p = choose|p: int| 0 <= p < matches@.len() && matches@[p] == i as usize;
                        if idx != i as usize {
                            assert(matches@[matches@.len() - 1] > matches@[p] || p == matches@.len() - 1);
                            assert(glob_matches(globs[idx as int], relative_path@));
                        }
                    },
                    None => {
                        assert(glob_matches(globs[idx as int], relative_path@));
                    },
                }
            }
            Some(self.owners[idx].as_str())
        }
    }
}

/// Rules of a prefix of the lines are a prefix of the rules.
proof fn lemma_rules_prefix(ls: Seq<Seq<char>>, k: int)
    requires
        0 <= k <= ls.len(),
    ensures
        rules_in(ls.take(k)).len() <= rules_in(ls).len(),
        rules_in(ls.take(k)) =~= rules_in(ls).take(rules_in(ls.take(k)).len() as int),
    decreases ls.len() - k,
{
    if k < ls.len() {
        lemma_rules_prefix(ls, k + 1);
        assert(ls.take(k + 1).drop_last() =~= ls.take(k));
    } else {
        assert(ls.take(k) =~= ls);
    }
}

/// A first invalid rule inside a prefix stays the first invalid rule.
proof fn lemma_first_invalid_prefix(a: Seq<(Seq<char>, Seq<char>)>, b: Seq<(Seq<char>, Seq<char>)>)
    requires
        a.len() <= b.len(),
        a =~= b.take(a.len() as int),
        first_invalid(a) is Some,
    ensures
        first_invalid(b) == first_invalid(a),
    decreases b.len(),
{
    if b.len() > a.len() {
        assert(b.drop_last().take(a.len() as int) =~= a);
        lemma_first_invalid_prefix(a, b.drop_last());
    } else {
        assert(a =~= b);
    }
}

/// The owner a parsed CODEOWNERS file gives a path is the first owner of the
/// last rule in the file, in file order, whose translated pattern matches
/// the path; no rule matching means no owner.
pub proof fn lemma_last_rule_wins(content: Seq<char>, rules: Seq<(Seq<char>, Seq<char>)>, path: Seq<char>)
    requires
        parse_outcome(content) == Ok::<Seq<(Seq<char>, Seq<char>)>, Seq<char>>(rules),
    ensures
        ({
            let file = codeowners_rules(content);
            let globs = rules.map_values(|x: (Seq<char>, Seq<char>)| x.0);
            &&& rules.len() == file.len()
            &&& match last_match(globs, path, rules.len() as int) {
                Some(i) => 0 <= i < file.len() && glob_matches(spec_translate_pattern(file[i].0), path)
                    && rules[i].1 == file[i].1 && forall|j: int|
                    i < j < file.len() ==> !glob_matches(spec_translate_pattern(#[trigger] file[j].0), path),
                None => forall|j: int|
                    0 <= j < file.len() ==> !glob_matches(spec_translate_pattern(#[trigger] file[j].0), path),
            }
        }),
{
    let file = codeowners_rules(content);
    let globs = rules.map_values(|x: (Seq<char>, Seq<char>)| x.0);
    assert(rules == file.map_values(|r: (Seq<char>, Seq<char>)| (spec_translate_pattern(r.0), r.1)));
    lemma_last_match_props(globs, path, rules.len() as int);
    assert forall|j: int|
        #![trigger globs[j]]
        #![trigger file[j]]
        0 <= j < file.len() implies globs[j] == spec_translate_pattern(file[j].0) && rules[j].1
            == file[j].1 by {
        assert(rules[j] == (spec_translate_pattern(file[j].0), file[j].1));
    }
}

} // verus!
