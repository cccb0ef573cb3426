//! What the coverage sidecar is asked: the functions of the files in scope,
//! the line of each function, and the coverage files to read.
use vstd::prelude::*;
use globset::GlobSet;
use crate::codeowners::globset_globs;
use crate::complexity::{ignored, is_ignored, FunctionComplexity, ModuleComplexity};
use crate::ordering::{
    key_views, lemma_keys_follow_items, lemma_tagged_view, path_parts, path_parts_exec,
    stable_sort_by_key, stably_sorted, tagged, KeyView, PathPart, SortKey,
};
use crate::paths::{contains_path, holds_path, path_starts_with, path_starts_with_exec, relative_or_self, relative_to};
use crate::sidecar::FunctionLocation;
use crate::text::{chars_eq, str_chars};

verus! {

// ── Static findings ──────────────────────────────────────────────

/// A function as the sidecar receives it.
#[derive(Debug, Clone)]
pub struct StaticFunction {
    pub name: String,
    pub start_line: u32,
    pub end_line: u32,
    pub cyclomatic: u32,
}

/// A file with its functions, as the sidecar receives it.
#[derive(Debug, Clone)]
pub struct StaticFile {
    pub path: String,
    pub functions: Vec<StaticFunction>,
}

/// `(name, start line, end line, cyclomatic complexity)` of a function.
pub type StaticFunctionView = (Seq<char>, u32, u32, u32);

/// `a + b`, or `u32::MAX` where that does not fit.
pub open spec fn sat_add(a: u32, b: u32) -> u32 {
    if a + b > u32::MAX {
        u32::MAX
    } else {
        (a + b) as u32
    }
}

/// The function sent for a measured function: its span ends `line_count`
/// lines after its first line.
pub open spec fn static_function_of(f: FunctionComplexity) -> StaticFunctionView {
    (f.name@, f.line, sat_add(f.line, f.line_count), f.cyclomatic as u32)
}

/// The plain values of a function sent to the sidecar.
pub open spec fn static_function_view(f: StaticFunction) -> StaticFunctionView {
    (f.name@, f.start_line, f.end_line, f.cyclomatic)
}

/// The plain values of a file sent to the sidecar.
pub open spec fn static_file_view(f: StaticFile) -> (Seq<char>, Seq<StaticFunctionView>) {
    (f.path@, f.functions@.map_values(|g: StaticFunction| static_function_view(g)))
}

/// `(file, function, line)` of a function location.
pub open spec fn location_view(l: FunctionLocation) -> (Seq<char>, Seq<char>, u32) {
    (l.file@, l.function@, l.line)
}

/// Whether a module's functions are sent: it has a path that no ignore glob
/// matches (relative to the root), it is among the changed files and below
/// the workspace root when those are given, and it has functions.
pub open spec fn sent_to_sidecar(
    m: ModuleComplexity,
    root: Seq<char>,
    ignore: Seq<Seq<char>>,
    changed: Option<Seq<String>>,
    ws_root: Option<Seq<char>>,
) -> bool {
    match m.path {
        Some(p) => {
            &&& !ignored(ignore, relative_to(p@, root))
            &&& match changed {
                Some(c) => holds_path(c, p@),
                None => true,
            }
            &&& match ws_root {
                Some(w) => path_starts_with(p@, w),
                None => true,
            }
            &&& m.functions@.len() > 0
        },
        None => false,
    }
}

/// The files sent to the sidecar, in module order.
pub open spec fn static_files(
    ms: Seq<ModuleComplexity>,
    root: Seq<char>,
    ignore: Seq<Seq<char>>,
    changed: Option<Seq<String>>,
    ws_root: Option<Seq<char>>,
) -> Seq<(Seq<char>, Seq<StaticFunctionView>)>
    decreases ms.len(),
{
    if ms.len() == 0 {
        Seq::empty()
    } else {
        let r = static_files(ms.drop_last(), root, ignore, changed, ws_root);
        let m = ms.last();
        if sent_to_sidecar(m, root, ignore, changed, ws_root) {
            r.push((m.path->0@, m.functions@.map_values(|f: FunctionComplexity| static_function_of(f))))
        } else {
            r
        }
    }
}

/// The location of each function sent, in order.
pub open spec fn static_locations(
    ms: Seq<ModuleComplexity>,
    root: Seq<char>,
    ignore: Seq<Seq<char>>,
    changed: Option<Seq<String>>,
    ws_root: Option<Seq<char>>,
) -> Seq<(Seq<char>, Seq<char>, u32)>
    decreases ms.len(),
{
    if ms.len() == 0 {
        Seq::empty()
    } else {
        let r = static_locations(ms.drop_last(), root, ignore, changed, ws_root);
        let m = ms.last();
        if sent_to_sidecar(m, root, ignore, changed, ws_root) {
            r + m.functions@.map_values(|f: FunctionComplexity| (m.path->0@, f.name@, f.line))
        } else {
            r
        }
    }
}

fn saturating_add(a: u32, b: u32) -> (r: u32)
    ensures
        r == sat_add(a, b),
{
    if a > u32::MAX - b {
        u32::MAX
    } else {
        a + b
    }
}

/// The functions of one module, with their locations appended to `locs`.
fn module_functions(path: &String, fs: &Vec<FunctionComplexity>, locs: &mut Vec<FunctionLocation>) -> (r: Vec<
    StaticFunction,
>)
    ensures
        r@.map_values(|g: StaticFunction| static_function_view(g)) == fs@.map_values(
            |f: FunctionComplexity| static_function_of(f),
        ),
        final(locs)@.map_values(|l: FunctionLocation| location_view(l)) == old(locs)@.map_values(
            |l: FunctionLocation| location_view(l),
        ) + fs@.map_values(|f: FunctionComplexity| (path@, f.name@, f.line)),
{
    let ghost l0 = locs@.map_values(|l: FunctionLocation| location_view(l));
    let mut out: Vec<StaticFunction> = Vec::new();
    let mut i: usize = 0;
    while i < fs.len()
        invariant
            i <= fs@.len(),
            out@.map_values(|g: StaticFunction| static_function_view(g)) == fs@.take(i as int).map_values(
                |f: FunctionComplexity| static_function_of(f),
            ),
            locs@.map_values(|l: FunctionLocation| location_view(l)) == l0 + fs@.take(i as int).map_values(
                |f: FunctionComplexity| (path@, f.name@, f.line),
            ),
        decreases fs.len() - i,
    {
        let f = &fs[i];
        let g = StaticFunction {
            name: f.name.clone(),
            start_line: f.line,
            end_line: saturating_add(f.line, f.line_count),
            cyclomatic: f.cyclomatic as u32,
        };
        let l = FunctionLocation { file: path.clone(), function: f.name.clone(), line: f.line };
        let ghost before = out@;
        let ghost before_locs = locs@;
        out.push(g);
        locs.push(l);
        proof {
            assert(out@.map_values(|g: StaticFunction| static_function_view(g)) =~= before.map_values(
                |g: StaticFunction| static_function_view(g),
            ).push(static_function_view(g)));
            assert(fs@.take(i + 1).map_values(|f: FunctionComplexity| static_function_of(f)) =~= fs@.take(
                i as int,
            ).map_values(|f: FunctionComplexity| static_function_of(f)).push(static_function_of(fs@[i as int])));
            assert(locs@.map_values(|l: FunctionLocation| location_view(l)) =~= before_locs.map_values(
                |l: FunctionLocation| location_view(l),
            ).push(location_view(l)));
            assert(fs@.take(i + 1).map_values(|f: FunctionComplexity| (path@, f.name@, f.line)) =~= fs@.take(
                i as int,
            ).map_values(|f: FunctionComplexity| (path@, f.name@, f.line)).push((path@, f.name@, f.line)));
        }
        i = i + 1;
    }
    proof {
        assert(fs@.take(i as int) =~= fs@);
    }
    out
}

/// The files and functions to send to the sidecar, and the line of each
/// function sent (for the report, by file and function name).
pub fn static_findings(
    root: &str,
    modules: &Vec<ModuleComplexity>,
    ignore_set: &GlobSet,
    changed_files: Option<&Vec<String>>,
    ws_root: Option<&str>,
) -> (r: (Vec<StaticFile>, Vec<FunctionLocation>))
    ensures
        ({
            let changed = match changed_files {
                Some(v) => Some(v@),
                None => None,
            };
            let ws = match ws_root {
                Some(w) => Some(w@),
                None => None,
            };
            &&& r.0@.map_values(|f: StaticFile| static_file_view(f)) == static_files(
                modules@,
                root@,
                globset_globs(*ignore_set),
                changed,
                ws,
            )
            &&& r.1@.map_values(|l: FunctionLocation| location_view(l)) == static_locations(
                modules@,
                root@,
                globset_globs(*ignore_set),
                changed,
                ws,
            )
        }),
{
    let ghost ms = modules@;
    let ghost globs = globset_globs(*ignore_set);
    let ghost changed: Option<Seq<String>> = match changed_files {
        Some(v) => Some(v@),
        None => None,
    };
    let ghost ws: Option<Seq<char>> = match ws_root {
        Some(w) => Some(w@),
        None => None,
    };
    let mut files: Vec<StaticFile> = Vec::new();
    let mut locs: Vec<FunctionLocation> = Vec::new();
    let mut i: usize = 0;
    while i < modules.len()
        invariant
            ms == modules@,
            globs == globset_globs(*ignore_set),
            changed == (match changed_files {
                Some(v) => Some(v@),
                None => None::<Seq<String>>,
            }),
            ws == (match ws_root {
                Some(w) => Some(w@),
                None => None::<Seq<char>>,
            }),
            i <= ms.len(),
            files@.map_values(|f: StaticFile| static_file_view(f)) == static_files(
                ms.take(i as int),
                root@,
                globs,
                changed,
                ws,
            ),
            locs@.map_values(|l: FunctionLocation| location_view(l)) == static_locations(
                ms.take(i as int),
                root@,
                globs,
                changed,
                ws,
            ),
        decreases modules.len() - i,
    {
        let m = &modules[i];
        proof {
            assert(ms.take(i + 1).drop_last() =~= ms.take(i as int));
            assert(ms.take(i + 1).last() == ms[i as int]);
        }
        let send = match &m.path {
            Some(p) => {
                let relative = relative_or_self(p.as_str(), root);
                let in_changed = match changed_files {
                    Some(c) => contains_path(c, p.as_str()),
                    None => true,
                };
                let in_ws = match ws_root {
                    Some(w) => path_starts_with_exec(p.as_str(), w),
                    None => true,
                };
                !is_ignored(ignore_set, relative.as_str()) && in_changed && in_ws && m.functions.len() > 0
            },
            None => false,
        };
        proof {
            assert(send == sent_to_sidecar(ms[i as int], root@, globs, changed, ws));
        }
        if send {
            let p = match &m.path {
                Some(p) => p,
                None => {
                    proof {
                        assert(false);
                    }
                    i = i + 1;
                    continue;
                },
            };
            let ghost before = files@;
            let functions = module_functions(p, &m.functions, &mut locs);
            let file = StaticFile { path: p.clone(), functions };
            files.push(file);
            proof {
                assert(files@.map_values(|f: StaticFile| static_file_view(f)) =~= before.map_values(
                    |f: StaticFile| static_file_view(f),
                ).push(static_file_view(file)));
            }
        }
        i = i + 1;
    }
    proof {
        assert(ms.take(i as int) =~= ms);
    }
    (files, locs)
}

// ── Coverage sources ─────────────────────────────────────────────

/// A coverage file, or directory, for the sidecar to read.
#[derive(Debug, Clone, PartialEq, Eq)]
pub enum CoverageSource {
    V8 { path: String },
    Istanbul { path: String },
    V8Dir { path: String },
}

/// `(kind, path)` of a coverage source: 0 for V8, 1 for Istanbul, 2 for a
/// V8 directory.
pub open spec fn source_view(s: CoverageSource) -> (nat, Seq<char>) {
    match s {
        CoverageSource::V8 { path } => (0, path@),
        CoverageSource::Istanbul { path } => (1, path@),
        CoverageSource::V8Dir { path } => (2, path@),
    }
}

/// The final component of a path, when it is a normal one (`Path::file_name`).
pub open spec fn file_name(p: Seq<char>) -> Option<Seq<char>> {
    let parts = path_parts(p);
    if parts.len() > 0 && parts.last().0 == 3 {
        Some(parts.last().1)
    } else {
        None
    }
}

/// Istanbul writes its report as `coverage-final.json`.
pub open spec fn is_istanbul_file(p: Seq<char>) -> bool {
    file_name(p) == Some("coverage-final.json"@)
}

/// The source for a coverage file: Istanbul by its file name, else V8.
pub open spec fn classified(p: Seq<char>) -> (nat, Seq<char>) {
    if is_istanbul_file(p) {
        (1, p)
    } else {
        (0, p)
    }
}

fn file_name_exec(path: &str) -> (r: Option<Vec<char>>)
    ensures
        match r {
            Some(n) => file_name(path@) == Some(n@),
            None => file_name(path@) is None,
        },
{
    let parts = path_parts_exec(&str_chars(path));
    let n = parts.len();
    if n > 0 && parts[n - 1].0 == 3 {
        let name = parts[n - 1].1.clone();
        proof {
            assert(crate::ordering::parts_view(parts@)[n - 1] == (parts@[n - 1].0 as nat, parts@[n - 1].1@));
        }
        Some(name)
    } else {
        proof {
            if n > 0 {
                assert(crate::ordering::parts_view(parts@)[n - 1].0 == parts@[n - 1].0 as nat);
            }
        }
        None
    }
}

/// Whether a coverage file is an Istanbul report, by its file name.
pub fn looks_like_istanbul(path: &str) -> (r: bool)
    ensures
        r == is_istanbul_file(path@),
{
    match file_name_exec(path) {
        Some(n) => {
            let expected = str_chars("coverage-final.json");
            chars_eq(&n, &expected)
        },
        None => false,
    }
}

/// The extension of a file name: what follows its last `.`, unless that `.`
/// begins the name (`Path::extension`).
pub open spec fn name_extension(n: Seq<char>) -> Option<Seq<char>> {
    match crate::search::last_occ_before(n, seq!['.'], n.len() as int) {
        Some(k) => if k > 0 {
            Some(n.skip(k + 1))
        } else {
            None
        },
        None => None,
    }
}

/// Whether a path names a `.json` file.
pub open spec fn is_json_path(p: Seq<char>) -> bool {
    match file_name(p) {
        Some(n) => name_extension(n) == Some("json"@),
        None => false,
    }
}

/// Whether a path names a `.json` file.
pub fn has_json_extension(path: &str) -> (r: bool)
    ensures
        r == is_json_path(path@),
{
    match file_name_exec(path) {
        Some(n) => {
            let dot: Vec<char> = vec!['.'];
            proof {
                assert(dot@ =~= seq!['.']);
                crate::search::lemma_last_occ_bound(n@, seq!['.'], n@.len() as int);
            }
            match crate::search::rfind_before(&n, &dot, n.len()) {
                Some(k) => {
                    if k > 0 {
                        let ext = crate::text::slice_vec(&n, k + 1, n.len());
                        let json = str_chars("json");
                        proof {
                            assert(ext@ =~= n@.skip(k + 1));
                        }
                        chars_eq(&ext, &json)
                    } else {
                        false
                    }
                },
                None => false,
            }
        },
        None => false,
    }
}

/// Files are listed in path order (component by component).
pub open spec fn path_key(p: Seq<char>) -> KeyView {
    (0, path_parts(p), 0, Seq::empty())
}

/// The coverage sources for a path: a file is one source; a directory gives
/// one source per `.json` file in it, in path order, or is read as a V8
/// directory when it has none. `json_files` are the `.json` files of the
/// directory.
pub fn coverage_sources(path: &str, is_dir: bool, json_files: Vec<String>) -> (r: Vec<CoverageSource>)
    ensures
        ({
            let sv = r@.map_values(|s: CoverageSource| source_view(s));
            let files = json_files@.map_values(|f: String| f@);
            let paths = sv.map_values(|s: (nat, Seq<char>)| s.1);
            if !is_dir {
                sv == seq![classified(path@)]
            } else if files.len() == 0 {
                sv == seq![(2nat, path@)]
            } else {
                &&& stably_sorted(
                    paths,
                    paths.map_values(|p: Seq<char>| path_key(p)),
                    files,
                    files.map_values(|p: Seq<char>| path_key(p)),
                )
                &&& forall|i: int| 0 <= i < sv.len() ==> #[trigger] sv[i] == classified(paths[i])
            }
        }),
{
    if !is_dir {
        let s = if looks_like_istanbul(path) {
            CoverageSource::Istanbul { path: String::from_str(path) }
        } else {
            CoverageSource::V8 { path: String::from_str(path) }
        };
        let r = vec![s];
        proof {
            assert(r@.map_values(|s: CoverageSource| source_view(s)) =~= seq![classified(path@)]);
        }
        return r;
    }
    if json_files.len() == 0 {
        let r = vec![CoverageSource::V8Dir { path: String::from_str(path) }];
        proof {
            assert(r@.map_values(|s: CoverageSource| source_view(s)) =~= seq![(2nat, path@)]);
        }
        return r;
    }
    let ghost files = json_files@.map_values(|f: String| f@);
    let mut keys: Vec<SortKey> = Vec::new();
    let mut i: usize = 0;
    while i < json_files.len()
        invariant
            files == json_files@.map_values(|f: String| f@),
            i <= json_files@.len(),
            key_views(keys@) == files.take(i as int).map_values(|p: Seq<char>| path_key(p)),
        decreases json_files.len() - i,
    {
        let k = SortKey {
            primary: 0,
            parts: path_parts_exec(&str_chars(json_files[i].as_str())),
            secondary: 0,
            name: Vec::new(),
        };
        let ghost before = keys@;
        keys.push(k);
        proof {
            assert(key_views(keys@) =~= key_views(before).push(crate::ordering::key_view(k)));
            assert(files.take(i + 1).map_values(|p: Seq<char>| path_key(p)) =~= files.take(i as int).map_values(
                |p: Seq<char>| path_key(p),
            ).push(path_key(files[i as int])));
        }
        i = i + 1;
    }
    proof {
        assert(files.take(i as int) =~= files);
    }
    let ghost items = json_files@;
    let ghost ik = key_views(keys@);
    let (sorted, sorted_keys) = stable_sort_by_key(json_files, keys);
    proof {
        let view = |f: String| f@;
        lemma_tagged_view(sorted@, key_views(sorted_keys@), view);
        lemma_tagged_view(items, ik, view);
        assert(tagged(items.map_values(view), ik) =~= tagged(files, files.map_values(|p: Seq<char>| path_key(p))));
        lemma_keys_follow_items(sorted@.map_values(view), key_views(sorted_keys@), files, |p: Seq<char>| path_key(p));
    }
    let ghost sorted_paths = sorted@.map_values(|f: String| f@);
    let mut out: Vec<CoverageSource> = Vec::new();
    let mut j: usize = 0;
    while j < sorted.len()
        invariant
            sorted_paths == sorted@.map_values(|f: String| f@),
            j <= sorted@.len(),
            out@.len() == j,
            forall|t: int| 0 <= t < j ==> #[trigger] source_view(out@[t]) == classified(sorted_paths[t]),
        decreases sorted.len() - j,
    {
        let p = &sorted[j];
        let s = if looks_like_istanbul(p.as_str()) {
            CoverageSource::Istanbul { path: p.clone() }
        } else {
            CoverageSource::V8 { path: p.clone() }
        };
        out.push(s);
        j = j + 1;
    }
    proof {
        let sv = out@.map_values(|s: CoverageSource| source_view(s));
        let paths = sv.map_values(|s: (nat, Seq<char>)| s.1);
        assert(paths =~= sorted_paths);
    }
    out
}

} // verus!
