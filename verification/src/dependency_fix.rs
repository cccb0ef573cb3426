//! Removal of unused dependencies: the removals each `package.json` receives,
//! gathered so that every manifest is edited once.
use vstd::prelude::*;
use crate::dead_code::UnusedDependencyIssue;
use crate::paths::{distinct_paths, holds_path, paths_equal, same_path};

verus! {

/// The `package.json` table a dependency is removed from.
#[derive(Debug, Clone, Copy, PartialEq, Eq, Structural)]
pub enum DependencyTable {
    Dependencies,
    DevDependencies,
}

/// The key of a table in `package.json`.
pub open spec fn table_key(t: DependencyTable) -> Seq<char> {
    match t {
        DependencyTable::Dependencies => "dependencies"@,
        DependencyTable::DevDependencies => "devDependencies"@,
    }
}

impl DependencyTable {
    /// The key of the table in `package.json`.
    pub fn key(&self) -> (r: &'static str)
        ensures
            r@ == table_key(*self),
    {
        match self {
            DependencyTable::Dependencies => "dependencies",
            DependencyTable::DevDependencies => "devDependencies",
        }
    }
}

/// One package to remove from one table.
#[derive(Debug, Clone)]
pub struct DependencyRemoval {
    pub package_name: String,
    pub table: DependencyTable,
}

/// The removals planned for one manifest, in the order they were reported.
#[derive(Debug, Clone)]
pub struct ManifestRemovals {
    pub path: String,
    pub removals: Vec<DependencyRemoval>,
}

/// A reported removal: the manifest's path, the package and its table.
pub type RemovalView = (Seq<char>, (Seq<char>, DependencyTable));

/// Every reported removal: the unused dependencies, then the unused
/// development dependencies, each in their order.
pub open spec fn reported_removals(
    deps: Seq<UnusedDependencyIssue>,
    dev_deps: Seq<UnusedDependencyIssue>,
) -> Seq<RemovalView> {
    deps.map_values(|d: UnusedDependencyIssue| (d.path@, (d.package_name@, DependencyTable::Dependencies)))
        + dev_deps.map_values(
        |d: UnusedDependencyIssue| (d.path@, (d.package_name@, DependencyTable::DevDependencies)),
    )
}

/// The removals reported for the manifest at `p` (the same path, component
/// by component), in order.
pub open spec fn removals_for(es: Seq<RemovalView>, p: Seq<char>) -> Seq<(Seq<char>, DependencyTable)> {
    es.filter(|e: RemovalView| same_path(e.0, p)).map_values(|e: RemovalView| e.1)
}

/// The view of planned removals.
pub open spec fn removal_views(v: Seq<DependencyRemoval>) -> Seq<(Seq<char>, DependencyTable)> {
    v.map_values(|r: DependencyRemoval| (r.package_name@, r.table))
}

/// Whether some reported removal names the manifest at `p`, letter for letter.
pub open spec fn reported_manifest(es: Seq<RemovalView>, p: Seq<char>) -> bool {
    exists|k: int| 0 <= k < es.len() && #[trigger] es[k].0 == p
}

/// Whether some manifest of the plan has the path `p`.
pub open spec fn covers(plan: Seq<ManifestRemovals>, p: Seq<char>) -> bool {
    exists|i: int| 0 <= i < plan.len() && same_path(#[trigger] plan[i].path@, p)
}

fn removal_at<'a>(
    deps: &'a Vec<UnusedDependencyIssue>,
    dev_deps: &'a Vec<UnusedDependencyIssue>,
    k: usize,
) -> (r: (&'a String, DependencyRemoval))
    requires
        k < deps@.len() + dev_deps@.len(),
    ensures
        (r.0@, (r.1.package_name@, r.1.table)) == reported_removals(deps@, dev_deps@)[k as int],
{
    if k < deps.len() {
        let d = &deps[k];
        (&d.path, DependencyRemoval { package_name: d.package_name.clone(), table: DependencyTable::Dependencies })
    } else {
        let d = &dev_deps[k - deps.len()];
        (&d.path, DependencyRemoval { package_name: d.package_name.clone(), table: DependencyTable::DevDependencies })
    }
}

/// The manifest path of every reported removal, in order.
fn reported_paths(deps: &Vec<UnusedDependencyIssue>, dev_deps: &Vec<UnusedDependencyIssue>) -> (r: Vec<String>)
    requires
        deps@.len() + dev_deps@.len() <= usize::MAX,
    ensures
        r@.len() == reported_removals(deps@, dev_deps@).len(),
        forall|k: int| 0 <= k < r@.len() ==> (#[trigger] r@[k])@ == reported_removals(deps@, dev_deps@)[k].0,
{
    let n = deps.len() + dev_deps.len();
    let mut out: Vec<String> = Vec::new();
    let mut k: usize = 0;
    while k < n
        invariant
            n == reported_removals(deps@, dev_deps@).len(),
            k <= n,
            out@.len() == k,
            forall|q: int| 0 <= q < k ==> (#[trigger] out@[q])@ == reported_removals(deps@, dev_deps@)[q].0,
        decreases n - k,
    {
        let (p, _) = removal_at(deps, dev_deps, k);
        out.push(p.clone());
        k = k + 1;
    }
    out
}

/// The removals for the manifest at `p`, in order.
fn removals_at_path(
    deps: &Vec<UnusedDependencyIssue>,
    dev_deps: &Vec<UnusedDependencyIssue>,
    p: &String,
) -> (r: Vec<DependencyRemoval>)
    requires
        deps@.len() + dev_deps@.len() <= usize::MAX,
    ensures
        removal_views(r@) == removals_for(reported_removals(deps@, dev_deps@), p@),
{
    let ghost es = reported_removals(deps@, dev_deps@);
    let ghost pred = |e: RemovalView| same_path(e.0, p@);
    let ghost second = |e: RemovalView| e.1;
    let n = deps.len() + dev_deps.len();
    let mut out: Vec<DependencyRemoval> = Vec::new();
    let mut k: usize = 0;
    while k < n
        invariant
            n == es.len(),
            es == reported_removals(deps@, dev_deps@),
            pred == (|e: RemovalView| same_path(e.0, p@)),
            second == (|e: RemovalView| e.1),
            k <= n,
            removal_views(out@) == es.take(k as int).filter(pred).map_values(second),
        decreases n - k,
    {
        proof {
            reveal(Seq::filter);
            assert(es.take(k + 1).drop_last() =~= es.take(k as int));
            assert(es.take(k + 1).last() == es[k as int]);
        }
        let (q, removal) = removal_at(deps, dev_deps, k);
        if paths_equal(q.as_str(), p.as_str()) {
            let ghost before = out@;
            out.push(removal);
            proof {
                assert(removal_views(out@) =~= removal_views(before).push(
                    (out@.last().package_name@, out@.last().table),
                ));
                assert(es.take(k + 1).filter(pred) == es.take(k as int).filter(pred).push(es[k as int]));
                assert(es.take(k + 1).filter(pred).map_values(second) =~= es.take(k as int).filter(
                    pred,
                ).map_values(second).push(es[k as int].1));
            }
        }
        k = k + 1;
    }
    proof {
        assert(es.take(n as int) =~= es);
    }
    out
}

/// Gather the unused dependencies and development dependencies by the
/// manifest that declares them, so that each `package.json` is edited once.
/// Manifests come in the order they are first reported; each one's removals
/// keep the reported order, dependencies before development dependencies.
pub fn group_dependency_removals(
    deps: &Vec<UnusedDependencyIssue>,
    dev_deps: &Vec<UnusedDependencyIssue>,
) -> (r: Vec<ManifestRemovals>)
    requires
        deps@.len() + dev_deps@.len() <= usize::MAX,
    ensures
        forall|i: int, j: int|
            0 <= i < j < r@.len() ==> !same_path(#[trigger] r@[i].path@, #[trigger] r@[j].path@),
        forall|i: int|
            0 <= i < r@.len() ==> removal_views(#[trigger] r@[i].removals@) == removals_for(
                reported_removals(deps@, dev_deps@),
                r@[i].path@,
            ),
        forall|k: int|
            0 <= k < reported_removals(deps@, dev_deps@).len() ==> covers(
                r@,
                #[trigger] reported_removals(deps@, dev_deps@)[k].0,
            ),
        forall|i: int|
            0 <= i < r@.len() ==> reported_manifest(reported_removals(deps@, dev_deps@), #[trigger] r@[i].path@),
{
    let all_paths = reported_paths(deps, dev_deps);
    let paths = distinct_paths(&all_paths);
    let mut out: Vec<ManifestRemovals> = Vec::new();
    let mut g: usize = 0;
    while g < paths.len()
        invariant
            deps@.len() + dev_deps@.len() <= usize::MAX,
            g <= paths@.len(),
            out@.len() == g,
            forall|i: int| 0 <= i < g ==> (#[trigger] out@[i]).path@ == paths@[i]@,
            forall|i: int|
                0 <= i < g ==> removal_views(#[trigger] out@[i].removals@) == removals_for(
                    reported_removals(deps@, dev_deps@),
                    out@[i].path@,
                ),
        decreases paths.len() - g,
    {
        let removals = removals_at_path(deps, dev_deps, &paths[g]);
        out.push(ManifestRemovals { path: paths[g].clone(), removals });
        g = g + 1;
    }
    proof {
        assert forall|k: int|
            0 <= k < reported_removals(deps@, dev_deps@).len() implies covers(
                out@,
                #[trigger] reported_removals(deps@, dev_deps@)[k].0,
            ) by {
            let e = reported_removals(deps@, dev_deps@)[k];
            assert(all_paths@[k]@ == e.0);
            assert(holds_path(paths@, all_paths@[k]@));
            let i = choose|i: int| 0 <= i < paths@.len() && same_path(#[trigger] paths@[i]@, e.0);
            assert(out@[i].path@ == paths@[i]@);
            assert(same_path(out@[i].path@, reported_removals(deps@, dev_deps@)[k].0));
        }
        assert forall|i: int|
            0 <= i < out@.len() implies reported_manifest(reported_removals(deps@, dev_deps@), #[trigger] out@[i].path@) by {
            assert(crate::paths::is_listed(all_paths@, paths@[i]@));
            let k = choose|k: int| 0 <= k < all_paths@.len() && #[trigger] all_paths@[k]@ == paths@[i]@;
            assert(reported_removals(deps@, dev_deps@)[k].0 == out@[i].path@);
        }
    }
    out
}

} // verus!
