//! Removal of the `export` keyword from unused exports.
//!
//! Unused exports are gathered by the file that declares them. For each
//! file, the planner decides, from its text and the unused exports reported
//! for it, which lines can be rewritten; the rewriter produces the new text.
//! Reading and writing files is left to the caller.
use vstd::prelude::*;
use crate::paths::{distinct_paths, holds_path, paths_equal, same_path};
use crate::search::{first_occ_from, split_on, split_on_exec, join, starts_with, starts_with_exec};
use crate::text::{
    chars_to_string, count_leading_ws, leading_ws, lemma_leading_ws_bound, push_all, slice_vec,
    str_chars, trim_start, utf8_len, utf8_prefix_len, lemma_utf8_len_mono,
};

verus! {

/// What the planner reads of an unused export: its 1-based line and its name.
#[derive(Debug, Clone)]
pub struct UnusedExportLine {
    pub line: u32,
    pub export_name: String,
}

/// A planned fix: the 0-based line to rewrite and the export it removes.
#[derive(Debug, Clone)]
pub struct ExportFix {
    pub line_idx: usize,
    pub export_name: String,
}

/// Line ending of a file: `\r\n` when the text holds one, else `\n`.
pub open spec fn line_ending(content: Seq<char>) -> Seq<char> {
    if first_occ_from(content, seq!['\r', '\n'], 0) is Some {
        seq!['\r', '\n']
    } else {
        seq!['\n']
    }
}

/// The lines of a file, split at its line ending (a final empty piece is kept).
pub open spec fn file_lines(content: Seq<char>) -> Seq<Seq<char>> {
    split_on(content, line_ending(content))
}

/// The 0-based line index of a 1-based line number (line 0 maps to 0).
pub open spec fn fix_line(line: u32) -> int {
    if line == 0 {
        0
    } else {
        line - 1
    }
}

/// A line whose `export` keyword can be removed: after leading whitespace it
/// starts with `export `, and an `export default` declares a function, an
/// async function, a class or an abstract class (not an expression).
pub open spec fn removable_export(line: Seq<char>) -> bool {
    let t = trim_start(line);
    starts_with(t, "export "@) && {
        let a = t.skip("export "@.len() as int);
        !starts_with(a, "default "@) || {
            let b = a.skip("default "@.len() as int);
            starts_with(b, "function "@) || starts_with(b, "async function "@) || starts_with(
                b,
                "class "@,
            ) || starts_with(b, "abstract class "@)
        }
    }
}

/// The export's line exists and can be fixed.
pub open spec fn eligible(ls: Seq<Seq<char>>, e: UnusedExportLine) -> bool {
    fix_line(e.line) < ls.len() && removable_export(ls[fix_line(e.line)])
}

/// Index of the first of the first `n` exports that is eligible on line `l`.
pub open spec fn first_eligible_at(
    es: Seq<UnusedExportLine>,
    ls: Seq<Seq<char>>,
    l: int,
    n: int,
) -> Option<int>
    decreases n,
{
    if n <= 0 {
        None
    } else {
        match first_eligible_at(es, ls, l, n - 1) {
            Some(i) => Some(i),
            None => if eligible(ls, es[n - 1]) && fix_line(es[n - 1].line) == l {
                Some(n - 1)
            } else {
                None
            },
        }
    }
}

/// The plan for a file: one fix per fixable line, lines in descending order,
/// each fix naming the first export reported on its line.
pub open spec fn is_fix_plan(
    r: Seq<ExportFix>,
    es: Seq<UnusedExportLine>,
    ls: Seq<Seq<char>>,
    n: int,
) -> bool {
    &&& forall|i: int, j: int| 0 <= i < j < r.len() ==> r[i].line_idx > r[j].line_idx
    &&& forall|k: int|
        #![trigger r[k]]
        0 <= k < r.len() ==> match first_eligible_at(es, ls, r[k].line_idx as int, n) {
            Some(i) => 0 <= i < n && r[k].export_name@ == es[i].export_name@,
            None => false,
        }
    &&& forall|i: int|
        #![trigger es[i]]
        0 <= i < n && eligible(ls, es[i]) ==> exists|k: int|
            0 <= k < r.len() && r[k].line_idx == fix_line(es[i].line)
}

proof fn lemma_first_eligible_stable(
    es: Seq<UnusedExportLine>,
    ls: Seq<Seq<char>>,
    l: int,
    n: int,
)
    requires
        first_eligible_at(es, ls, l, n) is Some,
    ensures
        first_eligible_at(es, ls, l, n + 1) == first_eligible_at(es, ls, l, n),
{
}

proof fn lemma_first_eligible_bound(es: Seq<UnusedExportLine>, ls: Seq<Seq<char>>, l: int, n: int)
    ensures
        match first_eligible_at(es, ls, l, n) {
            Some(i) => 0 <= i < n && eligible(ls, es[i]) && fix_line(es[i].line) == l,
            None => forall|i: int|
                0 <= i < n ==> !(eligible(ls, es[i]) && fix_line(es[i].line) == l),
        },
    decreases n,
{
    if n > 0 {
        lemma_first_eligible_bound(es, ls, l, n - 1);
    }
}

fn removable_export_exec(line: &Vec<char>) -> (r: bool)
    ensures
        r == removable_export(line@),
{
    let k = count_leading_ws(line, 0, line.len());
    proof {
        assert(line@.subrange(0, line@.len() as int) =~= line@);
        lemma_leading_ws_bound(line@);
    }
    let t = slice_vec(line, k, line.len());
    let export_kw = str_chars("export ");
    if !starts_with_exec(&t, &export_kw) {
        return false;
    }
    let a = slice_vec(&t, export_kw.len(), t.len());
    let default_kw = str_chars("default ");
    if !starts_with_exec(&a, &default_kw) {
        return true;
    }
    let b = slice_vec(&a, default_kw.len(), a.len());
    let f1 = str_chars("function ");
    let f2 = str_chars("async function ");
    let f3 = str_chars("class ");
    let f4 = str_chars("abstract class ");
    starts_with_exec(&b, &f1) || starts_with_exec(&b, &f2) || starts_with_exec(&b, &f3)
        || starts_with_exec(&b, &f4)
}

fn line_ending_exec(s: &Vec<char>) -> (r: Vec<char>)
    ensures
        r@ == line_ending(s@),
        r@.len() > 0,
{
    let crlf: Vec<char> = vec!['\r', '\n'];
    proof {
        assert(crlf@ =~= seq!['\r', '\n']);
    }
    match crate::search::find_from(s, &crlf, 0) {
        Some(_) => crlf,
        None => {
            let lf: Vec<char> = vec!['\n'];
            proof {
                assert(lf@ =~= seq!['\n']);
            }
            lf
        },
    }
}

/// Plan the export fixes for one file.
///
/// An export is fixable when its 1-based line exists and starts (after
/// indentation) with a removable `export`. The plan holds one fix per fixable
/// line, in descending line order, naming the first export reported on it.
pub fn plan_export_fixes(content: &str, exports: &Vec<UnusedExportLine>) -> (r: Vec<ExportFix>)
    ensures
        is_fix_plan(r@, exports@, file_lines(content@), exports@.len() as int),
{
    let s = str_chars(content);
    let ending = line_ending_exec(&s);
    let lines = split_on_exec(&s, &ending);
    let ghost ls = file_lines(content@);
    let ghost es = exports@;
    let mut out: Vec<ExportFix> = Vec::new();
    let mut n: usize = 0;
    while n < exports.len()
        invariant
            n <= exports.len(),
            es == exports@,
            ls == file_lines(content@),
            lines@.len() == ls.len(),
            forall|j: int| 0 <= j < lines@.len() ==> #[trigger] lines@[j]@ == ls[j],
            is_fix_plan(out@, es, ls, n as int),
        decreases exports.len() - n,
    {
        let e = &exports[n];
        let idx: usize = if e.line == 0 {
            0
        } else {
            (e.line - 1) as usize
        };
        let ok = idx < lines.len() && removable_export_exec(&lines[idx]);
        proof {
            assert(ok == eligible(ls, es[n as int]));
        }
        let mut present = false;
        let mut p: usize = 0;
        while p < out.len()
            invariant
                p <= out.len(),
                !present ==> forall|k: int| 0 <= k < p ==> out@[k].line_idx != idx,
                present ==> exists|k: int| 0 <= k < out@.len() && out@[k].line_idx == idx,
            decreases out.len() - p,
        {
            if out[p].line_idx == idx {
                present = true;
            }
            p = p + 1;
        }
        proof {
            assert forall|l: int| first_eligible_at(es, ls, l, n as int) is Some implies
                first_eligible_at(es, ls, l, n + 1) == first_eligible_at(es, ls, l, n as int) by {
                lemma_first_eligible_stable(es, ls, l, n as int);
            }
        }
        if ok && !present {
            let mut q: usize = 0;
            while q < out.len() && out[q].line_idx > idx
                invariant
                    q <= out.len(),
                    forall|k: int| 0 <= k < q ==> out@[k].line_idx > idx,
                decreases out.len() - q,
            {
                q = q + 1;
            }
            let fix = ExportFix { line_idx: idx, export_name: e.export_name.clone() };
            let ghost old_out = out@;
            proof {
                lemma_first_eligible_bound(es, ls, idx as int, n as int);
                if first_eligible_at(es, ls, idx as int, n as int) is Some {
                    let i = first_eligible_at(es, ls, idx as int, n as int)->0;
                    assert(es[i] == es[i]);
                    assert(false);
                }
                assert(first_eligible_at(es, ls, idx as int, n + 1) == Some(n as int));
            }
            out.insert(q, fix);
            proof {
                let nn = (n + 1) as int;
                assert forall|i: int, j: int| 0 <= i < j < out@.len() implies out@[i].line_idx
                    > out@[j].line_idx by {
                    if j < q {
                        assert(out@[i] == old_out[i] && out@[j] == old_out[j]);
                    } else if j == q {
                        assert(out@[i] == old_out[i]);
                    } else if i < q {
                        assert(out@[j] == old_out[j - 1]);
                        if i < q {
                            assert(out@[i] == old_out[i]);
                        }
                        if q < old_out.len() {
                            assert(old_out[q as int].line_idx != idx);
                            assert(old_out[q as int].line_idx <= idx);
                            if j - 1 > q {
                                assert(old_out[q as int].line_idx > old_out[j - 1].line_idx);
                            }
                        }
                    } else if i == q {
                        assert(out@[j] == old_out[j - 1]);
                        assert(old_out[q as int].line_idx != idx);
                        if j - 1 > q {
                            assert(old_out[q as int].line_idx > old_out[j - 1].line_idx);
                        }
                    } else {
                        assert(out@[j] == old_out[j - 1]);
                        assert(out@[i] == old_out[i - 1]);
                    }
                }
                assert forall|k: int| #![trigger out@[k]] 0 <= k < out@.len() implies match first_eligible_at(
                    es,
                    ls,
                    out@[k].line_idx as int,
                    nn,
                ) {
                    Some(i) => 0 <= i < nn && out@[k].export_name@ == es[i].export_name@,
                    None => false,
                } by {
                    if k < q {
                        assert(out@[k] == old_out[k]);
                    } else if k > q {
                        assert(out@[k] == old_out[k - 1]);
                    }
                }
                assert forall|i: int| #![trigger es[i]] 0 <= i < nn && eligible(ls, es[i]) implies exists|k: int|
                    0 <= k < out@.len() && out@[k].line_idx == fix_line(es[i].line) by {
                    if i < n {
                        let k = choose|k: int|
                            0 <= k < old_out.len() && old_out[k].line_idx == fix_line(es[i].line);
                        if k < q {
                            assert(out@[k] == old_out[k]);
                        } else {
                            assert(out@[k + 1] == old_out[k]);
                        }
                    } else {
                        assert(out@[q as int].line_idx == idx);
                    }
                }
            }
        } else {
            proof {
                let nn = (n + 1) as int;
                if ok {
                    let k0 = choose|k: int| 0 <= k < out@.len() && out@[k].line_idx == idx;
                    assert(first_eligible_at(es, ls, out@[k0].line_idx as int, n as int) is Some);
                }
                assert forall|k: int| #![trigger out@[k]] 0 <= k < out@.len() implies match first_eligible_at(
                    es,
                    ls,
                    out@[k].line_idx as int,
                    nn,
                ) {
                    Some(i) => 0 <= i < nn && out@[k].export_name@ == es[i].export_name@,
                    None => false,
                } by {
                    assert(first_eligible_at(es, ls, out@[k].line_idx as int, n as int) is Some);
                }
                assert forall|i: int| #![trigger es[i]] 0 <= i < nn && eligible(ls, es[i]) implies exists|k: int|
                    0 <= k < out@.len() && out@[k].line_idx == fix_line(es[i].line) by {
                    if i == n {
                        assert(present);
                    }
                }
            }
        }
        n = n + 1;
    }
    out
}

/// A line rewritten without its `export` keyword: indentation becomes one
/// space per byte of the original indentation, `export ` is dropped, and an
/// `export default` declaration also loses `default `.
pub open spec fn fixed_line(line: Seq<char>) -> Seq<char> {
    let t = trim_start(line);
    let a = if starts_with(t, "export "@) {
        t.skip("export "@.len() as int)
    } else {
        t
    };
    let rep = if starts_with(a, "default function "@) || starts_with(
        a,
        "default async function "@,
    ) || starts_with(a, "default class "@) || starts_with(a, "default abstract class "@) {
        a.skip("default "@.len() as int)
    } else {
        a
    };
    Seq::new(utf8_len(line.take(leading_ws(line) as int)), |i: int| ' ') + rep
}

/// `s` ends with `t`.
pub open spec fn ends_with(s: Seq<char>, t: Seq<char>) -> bool {
    t.len() <= s.len() && s.skip(s.len() - t.len()) == t
}

/// Line `i` is rewritten by some fix.
pub open spec fn is_fixed(fixes: Seq<ExportFix>, i: int) -> bool {
    exists|k: int| 0 <= k < fixes.len() && fixes[k].line_idx == i
}

/// The text of a file after applying the fixes, keeping its line ending.
pub open spec fn fixed_content(content: Seq<char>, fixes: Seq<ExportFix>) -> Seq<char> {
    let ls = file_lines(content);
    let ending = line_ending(content);
    let new_ls = Seq::new(
        ls.len(),
        |i: int|
            if is_fixed(fixes, i) {
                fixed_line(ls[i])
            } else {
                ls[i]
            },
    );
    let joined = join(new_ls, ending);
    if ends_with(content, ending) && !ends_with(joined, ending) {
        joined + ending
    } else {
        joined
    }
}

fn fixed_line_exec(line: &Vec<char>) -> (r: Vec<char>)
    requires
        utf8_len(line@) <= usize::MAX,
    ensures
        r@ == fixed_line(line@),
{
    let k = count_leading_ws(line, 0, line.len());
    proof {
        assert(line@.subrange(0, line@.len() as int) =~= line@);
        lemma_leading_ws_bound(line@);
        lemma_utf8_len_mono(line@, k as int);
    }
    let indent = utf8_prefix_len(line, k);
    let t = slice_vec(line, k, line.len());
    let export_kw = str_chars("export ");
    let a = if starts_with_exec(&t, &export_kw) {
        slice_vec(&t, export_kw.len(), t.len())
    } else {
        t
    };
    let d1 = str_chars("default function ");
    let d2 = str_chars("default async function ");
    let d3 = str_chars("default class ");
    let d4 = str_chars("default abstract class ");
    let default_kw = str_chars("default ");
    let strip_default = starts_with_exec(&a, &d1) || starts_with_exec(&a, &d2) || starts_with_exec(
        &a,
        &d3,
    ) || starts_with_exec(&a, &d4);
    let rep = if strip_default {
        proof {
            reveal_strlit("default ");
            reveal_strlit("default function ");
            reveal_strlit("default async function ");
            reveal_strlit("default class ");
            reveal_strlit("default abstract class ");
        }
        slice_vec(&a, default_kw.len(), a.len())
    } else {
        a
    };
    let mut out: Vec<char> = Vec::new();
    let mut i: usize = 0;
    while i < indent
        invariant
            i <= indent,
            out@ == Seq::new(i as nat, |j: int| ' '),
        decreases indent - i,
    {
        out.push(' ');
        i = i + 1;
        proof {
            assert(out@ =~= Seq::new(i as nat, |j: int| ' '));
        }
    }
    push_all(&mut out, &rep);
    proof {
        assert(out@ =~= fixed_line(line@));
    }
    out
}

proof fn lemma_utf8_len_subrange(s: Seq<char>, a: int, b: int)
    requires
        0 <= a <= b <= s.len(),
    ensures
        utf8_len(s.subrange(a, b)) <= utf8_len(s),
    decreases s.len(),
{
    if b < s.len() {
        lemma_utf8_len_subrange(s.drop_last(), a, b);
        assert(s.drop_last().subrange(a, b) =~= s.subrange(a, b));
    } else if a > 0 {
        lemma_utf8_len_suffix(s, a);
    } else {
        assert(s.subrange(a, b) =~= s);
    }
}

proof fn lemma_utf8_len_suffix(s: Seq<char>, a: int)
    requires
        0 <= a <= s.len(),
    ensures
        utf8_len(s.skip(a)) <= utf8_len(s),
    decreases s.len(),
{
    if a < s.len() {
        lemma_utf8_len_suffix(s.drop_last(), a);
        assert(s.skip(a).drop_last() =~= s.drop_last().skip(a));
    } else {
        assert(s.skip(a).len() == 0);
    }
}

/// Apply planned fixes to a file's text.
pub fn apply_export_fixes_to_content(content: &str, fixes: &Vec<ExportFix>) -> (r: String)
    requires
        forall|k: int|
            0 <= k < fixes@.len() ==> (#[trigger] fixes@[k]).line_idx < file_lines(content@).len(),
    ensures
        r@ == fixed_content(content@, fixes@),
{
    crate::text::str_utf8_len_fits(content);
    let s = str_chars(content);
    let ending = line_ending_exec(&s);
    let lines = split_on_exec(&s, &ending);
    let ghost ls = file_lines(content@);
    let n = lines.len();
    let mut marks: Vec<bool> = Vec::new();
    let mut i: usize = 0;
    while i < n
        invariant
            i <= n,
            marks@.len() == i,
            forall|j: int| 0 <= j < i ==> !marks@[j],
        decreases n - i,
    {
        marks.push(false);
        i = i + 1;
    }
    let mut k: usize = 0;
    while k < fixes.len()
        invariant
            n == lines@.len() == ls.len(),
            ls == file_lines(content@),
            marks@.len() == n,
            k <= fixes.len(),
            forall|kk: int|
                0 <= kk < fixes@.len() ==> (#[trigger] fixes@[kk]).line_idx < ls.len(),
            forall|j: int| 0 <= j < n ==> marks@[j] == exists|kk: int|
                0 <= kk < k && fixes@[kk].line_idx == j,
        decreases fixes.len() - k,
    {
        let li = fixes[k].line_idx;
        marks.set(li, true);
        k = k + 1;
        proof {
            assert forall|j: int| 0 <= j < n implies marks@[j] == exists|kk: int|
                0 <= kk < k && fixes@[kk].line_idx == j by {
                if marks@[j] && j != li {
                    let kk = choose|kk: int| 0 <= kk < k - 1 && fixes@[kk].line_idx == j;
                }
                if exists|kk: int| 0 <= kk < k && fixes@[kk].line_idx == j {
                    let kk = choose|kk: int| 0 <= kk < k && fixes@[kk].line_idx == j;
                    if kk < k - 1 {
                    }
                }
            }
        }
    }
    let ghost new_ls = Seq::new(
        ls.len(),
        |i: int|
            if is_fixed(fixes@, i) {
                fixed_line(ls[i])
            } else {
                ls[i]
            },
    );
    let mut out: Vec<char> = Vec::new();
    let mut i: usize = 0;
    while i < n
        invariant
            n == lines@.len() == ls.len() == new_ls.len(),
            ls == file_lines(content@),
            forall|j: int| 0 <= j < n ==> #[trigger] lines@[j]@ == ls[j],
            marks@.len() == n,
            forall|j: int| 0 <= j < n ==> marks@[j] == is_fixed(fixes@, j),
            new_ls == Seq::new(
                ls.len(),
                |i: int|
                    if is_fixed(fixes@, i) {
                        fixed_line(ls[i])
                    } else {
                        ls[i]
                    },
            ),
            ending@ == line_ending(content@),
            utf8_len(content@) <= usize::MAX,
            s@ == content@,
            i <= n,
            out@ == join(new_ls.take(i as int), ending@),
        decreases n - i,
    {
        proof {
            assert(new_ls.take(i + 1).drop_last() =~= new_ls.take(i as int));
            assert(new_ls.take(i + 1).last() == new_ls[i as int]);
            if i == 0 {
                assert(new_ls.take(1)[0] == new_ls[0]);
            }
        }
        if i > 0 {
            push_all(&mut out, &ending);
        }
        if marks[i] {
            proof {
                crate::search::lemma_split_piece_bound(s@, ending@, i as int);
                let (a, b) = choose|a: int, b: int|
                    0 <= a <= b <= s@.len() && split_on(s@, ending@)[i as int] == s@.subrange(a, b);
                lemma_utf8_len_subrange(s@, a, b);
                assert(lines@[i as int]@ == s@.subrange(a, b));
            }
            let fl = fixed_line_exec(&lines[i]);
            push_all(&mut out, &fl);
        } else {
            push_all(&mut out, &lines[i]);
        }
        i = i + 1;
    }
    proof {
        assert(new_ls.take(n as int) =~= new_ls);
    }
    let joined_ends = ending.len() <= out.len() && {
        let tail = slice_vec(&out, out.len() - ending.len(), out.len());
        crate::text::chars_eq(&tail, &ending)
    };
    let content_ends = ending.len() <= s.len() && {
        let tail = slice_vec(&s, s.len() - ending.len(), s.len());
        crate::text::chars_eq(&tail, &ending)
    };
    if content_ends && !joined_ends {
        push_all(&mut out, &ending);
    }
    chars_to_string(out.as_slice())
}

/// An unused export as the analysis reports it: its file, 1-based line and name.
#[derive(Debug, Clone)]
pub struct ReportedExport {
    pub path: String,
    pub line: u32,
    pub export_name: String,
}

/// The unused exports of one file, in the order they were reported.
#[derive(Debug, Clone)]
pub struct FileExports {
    pub path: String,
    pub exports: Vec<UnusedExportLine>,
}

/// The line and name of each export.
pub open spec fn export_line_views(v: Seq<UnusedExportLine>) -> Seq<(u32, Seq<char>)> {
    v.map_values(|e: UnusedExportLine| (e.line, e.export_name@))
}

/// The line and name of the exports reported in the file at `p` (the same
/// path, component by component), in order.
pub open spec fn exports_in(es: Seq<ReportedExport>, p: Seq<char>) -> Seq<(u32, Seq<char>)> {
    es.filter(|e: ReportedExport| same_path(e.path@, p)).map_values(
        |e: ReportedExport| (e.line, e.export_name@),
    )
}

/// Whether some reported export lies in the file at `p`, letter for letter.
pub open spec fn reported_file(exports: Seq<ReportedExport>, p: Seq<char>) -> bool {
    exists|k: int| 0 <= k < exports.len() && #[trigger] exports[k].path@ == p
}

/// Whether some file of the grouping has the path `p`.
pub open spec fn has_file(groups: Seq<FileExports>, p: Seq<char>) -> bool {
    exists|i: int| 0 <= i < groups.len() && same_path(#[trigger] groups[i].path@, p)
}

fn exports_at_path(exports: &Vec<ReportedExport>, p: &String) -> (r: Vec<UnusedExportLine>)
    ensures
        export_line_views(r@) == exports_in(exports@, p@),
{
    let ghost es = exports@;
    let ghost pred = |e: ReportedExport| same_path(e.path@, p@);
    let ghost view = |e: ReportedExport| (e.line, e.export_name@);
    let mut out: Vec<UnusedExportLine> = Vec::new();
    let mut k: usize = 0;
    while k < exports.len()
        invariant
            es == exports@,
            pred == (|e: ReportedExport| same_path(e.path@, p@)),
            view == (|e: ReportedExport| (e.line, e.export_name@)),
            k <= es.len(),
            export_line_views(out@) == es.take(k as int).filter(pred).map_values(view),
        decreases exports.len() - k,
    {
        proof {
            reveal(Seq::filter);
            assert(es.take(k + 1).drop_last() =~= es.take(k as int));
            assert(es.take(k + 1).last() == es[k as int]);
        }
        let e = &exports[k];
        if paths_equal(e.path.as_str(), p.as_str()) {
            let ghost before = out@;
            out.push(UnusedExportLine { line: e.line, export_name: e.export_name.clone() });
            proof {
                assert(export_line_views(out@) =~= export_line_views(before).push(
                    (e.line, e.export_name@),
                ));
                assert(es.take(k + 1).filter(pred) == es.take(k as int).filter(pred).push(es[k as int]));
                assert(es.take(k + 1).filter(pred).map_values(view) =~= es.take(k as int).filter(
                    pred,
                ).map_values(view).push(view(es[k as int])));
            }
        }
        k = k + 1;
    }
    proof {
        assert(es.take(es.len() as int) =~= es);
    }
    out
}

/// Gather unused exports by the file that declares them, so that each file
/// is read, rewritten and written once. Files come in the order they are
/// first reported; each file's exports keep the reported order.
pub fn group_exports_by_file(exports: &Vec<ReportedExport>) -> (r: Vec<FileExports>)
    ensures
        forall|i: int, j: int|
            0 <= i < j < r@.len() ==> !same_path(#[trigger] r@[i].path@, #[trigger] r@[j].path@),
        forall|i: int|
            0 <= i < r@.len() ==> export_line_views(#[trigger] r@[i].exports@) == exports_in(
                exports@,
                r@[i].path@,
            ),
        forall|k: int| 0 <= k < exports@.len() ==> has_file(r@, #[trigger] exports@[k].path@),
        forall|i: int| 0 <= i < r@.len() ==> reported_file(exports@, #[trigger] r@[i].path@),
{
    let mut all_paths: Vec<String> = Vec::new();
    let mut k: usize = 0;
    while k < exports.len()
        invariant
            k <= exports@.len(),
            all_paths@.len() == k,
            forall|q: int| 0 <= q < k ==> (#[trigger] all_paths@[q])@ == exports@[q].path@,
        decreases exports.len() - k,
    {
        all_paths.push(exports[k].path.clone());
        k = k + 1;
    }
    let paths = distinct_paths(&all_paths);
    let mut out: Vec<FileExports> = Vec::new();
    let mut g: usize = 0;
    while g < paths.len()
        invariant
            g <= paths@.len(),
            out@.len() == g,
            forall|i: int| 0 <= i < g ==> (#[trigger] out@[i]).path@ == paths@[i]@,
            forall|i: int|
                0 <= i < g ==> export_line_views(#[trigger] out@[i].exports@) == exports_in(
                    exports@,
                    out@[i].path@,
                ),
        decreases paths.len() - g,
    {
        let file_exports = exports_at_path(exports, &paths[g]);
        out.push(FileExports { path: paths[g].clone(), exports: file_exports });
        g = g + 1;
    }
    proof {
        assert forall|k: int| 0 <= k < exports@.len() implies has_file(out@, #[trigger] exports@[k].path@) by {
            assert(all_paths@[k]@ == exports@[k].path@);
            assert(holds_path(paths@, all_paths@[k]@));
            let i = choose|i: int| 0 <= i < paths@.len() && same_path(#[trigger] paths@[i]@, all_paths@[k]@);
            assert(out@[i].path@ == paths@[i]@);
            assert(same_path(out@[i].path@, exports@[k].path@));
        }
        assert forall|i: int| 0 <= i < out@.len() implies reported_file(exports@, #[trigger] out@[i].path@) by {
            assert(crate::paths::is_listed(all_paths@, paths@[i]@));
            let k = choose|k: int| 0 <= k < all_paths@.len() && #[trigger] all_paths@[k]@ == paths@[i]@;
            assert(exports@[k].path@ == out@[i].path@);
        }
    }
    out
}

} // verus!
