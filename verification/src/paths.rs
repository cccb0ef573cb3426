//! Paths compared by their components, as `std::path::Path` compares them
//! on Unix: `/` is the only separator. The remainder of `Path::strip_prefix`
//! is taken from std as it is on the platform the crate is built for.
use vstd::prelude::*;
use crate::ordering::{path_parts, path_parts_exec, parts_view};
use crate::text::{str_chars, chars_to_string};

verus! {

/// `Path::starts_with`: the components of `base` begin those of `p`.
pub open spec fn path_starts_with(p: Seq<char>, base: Seq<char>) -> bool {
    let a = path_parts(p);
    let b = path_parts(base);
    b.len() <= a.len() && a.take(b.len() as int) == b
}

/// `Path` equality: the same components.
pub open spec fn same_path(p: Seq<char>, q: Seq<char>) -> bool {
    path_parts(p) == path_parts(q)
}

/// What `std::path::Path::strip_prefix` gives for `path` and `base`: the
/// rest of `path` after the components of `base`, or `None` when `base` does
/// not begin `path` (by the components of the target platform).
pub uninterp spec fn stripped_prefix(path: Seq<char>, base: Seq<char>) -> Option<Seq<char>>;

/// `std::path::Path::strip_prefix`, the remainder as a `String`. Its outcome
/// is named `stripped_prefix`; neither when it succeeds nor what the
/// remainder's text is is claimed, since both follow the separators of the
/// platform the crate is built for.
#[verifier::external_body]
pub(crate) fn strip_path_prefix(path: &str, base: &str) -> (r: Option<String>)
    ensures
        match r {
            Some(s) => stripped_prefix(path@, base@) == Some(s@),
            None => stripped_prefix(path@, base@) is None,
        },
{
    std::path::Path::new(path).strip_prefix(base).ok().map(|p| p.to_string_lossy().into_owned())
}

/// A path relative to `base` when `Path::strip_prefix` succeeds, else the
/// path itself (`path.strip_prefix(base).unwrap_or(path)`).
pub open spec fn relative_to(path: Seq<char>, base: Seq<char>) -> Seq<char> {
    match stripped_prefix(path, base) {
        Some(rest) => rest,
        None => path,
    }
}

/// `path.strip_prefix(base).unwrap_or(path)`.
pub fn relative_or_self(path: &str, base: &str) -> (r: String)
    ensures
        r@ == relative_to(path@, base@),
{
    match strip_path_prefix(path, base) {
        Some(s) => s,
        None => String::from_str(path),
    }
}

fn parts_equal(a: &Vec<(u8, Vec<char>)>, b: &Vec<(u8, Vec<char>)>) -> (r: bool)
    ensures
        r == (parts_view(a@) == parts_view(b@)),
{
    if a.len() != b.len() {
        proof {
            assert(parts_view(a@).len() != parts_view(b@).len());
        }
        return false;
    }
    let mut i: usize = 0;
    while i < a.len()
        invariant
            a@.len() == b@.len(),
            i <= a@.len(),
            forall|j: int| 0 <= j < i ==> parts_view(a@)[j] == parts_view(b@)[j],
        decreases a.len() - i,
    {
        let x = &a[i];
        let y = &b[i];
        if x.0 != y.0 || !crate::text::chars_eq(&x.1, &y.1) {
            proof {
                assert(parts_view(a@)[i as int] != parts_view(b@)[i as int]);
            }
            return false;
        }
        i = i + 1;
    }
    proof {
        assert(parts_view(a@) =~= parts_view(b@));
    }
    true
}

/// Whether two paths are equal as `Path`s (component by component).
pub fn paths_equal(p: &str, q: &str) -> (r: bool)
    ensures
        r == same_path(p@, q@),
{
    let a = path_parts_exec(&str_chars(p));
    let b = path_parts_exec(&str_chars(q));
    parts_equal(&a, &b)
}

/// Whether `path` lies below `base` (`Path::starts_with`).
pub fn path_starts_with_exec(path: &str, base: &str) -> (r: bool)
    ensures
        r == path_starts_with(path@, base@),
{
    let a = path_parts_exec(&str_chars(path));
    let b = path_parts_exec(&str_chars(base));
    if b.len() > a.len() {
        return false;
    }
    let mut i: usize = 0;
    while i < b.len()
        invariant
            b@.len() <= a@.len(),
            parts_view(a@) == path_parts(path@),
            parts_view(b@) == path_parts(base@),
            i <= b@.len(),
            forall|j: int| 0 <= j < i ==> parts_view(a@)[j] == parts_view(b@)[j],
        decreases b.len() - i,
    {
        let x = &a[i];
        let y = &b[i];
        if x.0 != y.0 || !crate::text::chars_eq(&x.1, &y.1) {
            proof {
                assert(parts_view(a@).take(b@.len() as int)[i as int] != parts_view(b@)[i as int]);
            }
            return false;
        }
        i = i + 1;
    }
    proof {
        assert(parts_view(a@).take(b@.len() as int) =~= parts_view(b@));
    }
    true
}

/// Whether `paths` holds a path equal to `p` (as a set of `PathBuf` would).
pub open spec fn holds_path(paths: Seq<String>, p: Seq<char>) -> bool {
    exists|i: int| 0 <= i < paths.len() && same_path(#[trigger] paths[i]@, p)
}

/// Whether `paths` holds a path equal to `p`.
pub fn contains_path(paths: &Vec<String>, p: &str) -> (r: bool)
    ensures
        r == holds_path(paths@, p@),
{
    let mut i: usize = 0;
    while i < paths.len()
        invariant
            i <= paths@.len(),
            forall|j: int| 0 <= j < i ==> !same_path(#[trigger] paths@[j]@, p@),
        decreases paths.len() - i,
    {
        if paths_equal(paths[i].as_str(), p) {
            return true;
        }
        i = i + 1;
    }
    false
}

/// Whether `p` is, letter for letter, one of `paths`.
pub open spec fn is_listed(paths: Seq<String>, p: Seq<char>) -> bool {
    exists|k: int| 0 <= k < paths.len() && #[trigger] paths[k]@ == p
}

/// The distinct paths of a list (equal by components, as `PathBuf` keys
/// of a map are), in the order of their first appearance.
pub fn distinct_paths(paths: &Vec<String>) -> (r: Vec<String>)
    ensures
        forall|i: int, j: int| 0 <= i < j < r@.len() ==> !same_path(#[trigger] r@[i]@, #[trigger] r@[j]@),
        forall|k: int| 0 <= k < paths@.len() ==> holds_path(r@, #[trigger] paths@[k]@),
        forall|i: int| 0 <= i < r@.len() ==> is_listed(paths@, #[trigger] r@[i]@),
{
    let mut out: Vec<String> = Vec::new();
    let mut k: usize = 0;
    while k < paths.len()
        invariant
            k <= paths@.len(),
            forall|i: int, j: int|
                0 <= i < j < out@.len() ==> !same_path(#[trigger] out@[i]@, #[trigger] out@[j]@),
            forall|q: int| 0 <= q < k ==> holds_path(out@, #[trigger] paths@[q]@),
            forall|i: int| 0 <= i < out@.len() ==> is_listed(paths@, #[trigger] out@[i]@),
        decreases paths.len() - k,
    {
        let p = &paths[k];
        if !contains_path(&out, p.as_str()) {
            let ghost before = out@;
            out.push(p.clone());
            proof {
                assert forall|q: int| 0 <= q <= k implies holds_path(out@, #[trigger] paths@[q]@) by {
                    if q < k {
                        let g = choose|g: int| 0 <= g < before.len() && same_path(#[trigger] before[g]@, paths@[q]@);
                        assert(out@[g] == before[g]);
                    } else {
                        assert(same_path(out@[before.len() as int]@, paths@[q]@));
                    }
                }
                assert forall|i: int, j: int|
                    0 <= i < j < out@.len() implies !same_path(#[trigger] out@[i]@, #[trigger] out@[j]@) by {
                    assert(out@[i] == before[i]);
                    if j < before.len() {
                        assert(out@[j] == before[j]);
                    }
                }
                assert forall|i: int| 0 <= i < out@.len() implies is_listed(paths@, #[trigger] out@[i]@) by {
                    if i < before.len() {
                        assert(out@[i] == before[i]);
                    } else {
                        assert(paths@[k as int]@ == out@[i]@);
                    }
                }
            }
        }
        k = k + 1;
    }
    out
}

/// A path below the project's cache directory (as given, or canonical) is a
/// cache artifact, not an analysis input.
pub fn is_fallow_cache_artifact(path: &str, cache_dir: &str, canonical_cache_dir: Option<&str>) -> (r:
    bool)
    ensures
        r == (path_starts_with(path@, cache_dir@) || (canonical_cache_dir matches Some(c)
            && path_starts_with(path@, c@))),
{
    if path_starts_with_exec(path, cache_dir) {
        return true;
    }
    match canonical_cache_dir {
        Some(c) => path_starts_with_exec(path, c),
        None => false,
    }
}

/// A key path: relative to the root when below it, with `/` separators.
pub open spec fn key_path(path: Seq<char>, root: Seq<char>) -> Seq<char> {
    relative_to(path, root).map_values(|c: char| crate::runtime_coverage::forward_slash(c))
}

/// The path of an issue as used in its key: relative to the root when it
/// lies below it, with `\` turned into `/`.
pub fn relative_key_path(path: &str, root: &str) -> (r: String)
    ensures
        r@ == key_path(path@, root@),
{
    let rel = relative_or_self(path, root);
    let v = str_chars(rel.as_str());
    let mut out: Vec<char> = Vec::new();
    let mut i: usize = 0;
    while i < v.len()
        invariant
            i <= v@.len(),
            out@ == v@.take(i as int).map_values(|c: char| crate::runtime_coverage::forward_slash(c)),
        decreases v.len() - i,
    {
        let c = v[i];
        out.push(if c == '\\' { '/' } else { c });
        proof {
            assert(v@.take(i + 1).map_values(|c: char| crate::runtime_coverage::forward_slash(c))
                =~= v@.take(i as int).map_values(|c: char| crate::runtime_coverage::forward_slash(c)).push(
                crate::runtime_coverage::forward_slash(c),
            ));
        }
        i = i + 1;
    }
    proof {
        assert(v@.take(i as int) =~= v@);
    }
    chars_to_string(out.as_slice())
}

} // verus!
