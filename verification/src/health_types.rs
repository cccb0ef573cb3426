//! Refactoring-recommendation categories and finding order.
use vstd::prelude::*;
use crate::scores::HealthFinding;

verus! {

/// Category of refactoring recommendation.
#[derive(Debug, Clone, Copy, PartialEq, Eq, Structural)]
pub enum RecommendationCategory {
    UrgentChurnComplexity,
    BreakCircularDependency,
    SplitHighImpact,
    RemoveDeadCode,
    ExtractComplexFunctions,
    ExtractDependencies,
}

/// The human-readable label of a category.
pub open spec fn category_label(c: RecommendationCategory) -> Seq<char> {
    match c {
        RecommendationCategory::UrgentChurnComplexity => "churn+complexity"@,
        RecommendationCategory::BreakCircularDependency => "circular dep"@,
        RecommendationCategory::SplitHighImpact => "high impact"@,
        RecommendationCategory::RemoveDeadCode => "dead code"@,
        RecommendationCategory::ExtractComplexFunctions => "complexity"@,
        RecommendationCategory::ExtractDependencies => "coupling"@,
    }
}

impl RecommendationCategory {
    /// Human-readable label for terminal and compact output.
    pub fn label(&self) -> (r: &'static str)
        ensures
            r@ == category_label(*self),
    {
        match self {
            Self::UrgentChurnComplexity => "churn+complexity",
            Self::BreakCircularDependency => "circular dep",
            Self::SplitHighImpact => "high impact",
            Self::RemoveDeadCode => "dead code",
            Self::ExtractComplexFunctions => "complexity",
            Self::ExtractDependencies => "coupling",
        }
    }
}

/// Every category has a non-empty label, and distinct categories have distinct labels.
pub proof fn lemma_category_labels_distinct(a: RecommendationCategory, b: RecommendationCategory)
    ensures
        category_label(a).len() > 0,
        a != b ==> category_label(a) != category_label(b),
{
    reveal_strlit("churn+complexity");
    reveal_strlit("circular dep");
    reveal_strlit("high impact");
    reveal_strlit("dead code");
    reveal_strlit("complexity");
    reveal_strlit("coupling");
    if a != b {
        assert(category_label(a).len() != category_label(b).len() || category_label(a)[0]
            != category_label(b)[0] || category_label(a)[1] != category_label(b)[1]);
    }
}

/// Sort criteria for complexity findings.
#[derive(Debug, Clone, Copy, PartialEq, Eq, Structural)]
pub enum SortBy {
    Cyclomatic,
    Cognitive,
    Lines,
}


/// The sort key of a finding under a sort criterion.
pub open spec fn finding_key(f: HealthFinding, sort: SortBy) -> int {
    match sort {
        SortBy::Cyclomatic => f.cyclomatic as int,
        SortBy::Cognitive => f.cognitive as int,
        SortBy::Lines => f.line_count as int,
    }
}

/// The findings of `s` whose key equals `k`, in their order in `s`.
pub open spec fn with_key(s: Seq<HealthFinding>, sort: SortBy, k: int) -> Seq<HealthFinding> {
    s.filter(|f: HealthFinding| finding_key(f, sort) == k)
}

/// `s` is ordered by descending key.
pub open spec fn sorted_desc(s: Seq<HealthFinding>, sort: SortBy) -> bool {
    forall|i: int, j: int|
        0 <= i < j < s.len() ==> finding_key(s[i], sort) >= finding_key(s[j], sort)
}

fn key_of(f: &HealthFinding, sort: SortBy) -> (r: u32)
    ensures
        r == finding_key(*f, sort),
{
    match sort {
        SortBy::Cyclomatic => f.cyclomatic as u32,
        SortBy::Cognitive => f.cognitive as u32,
        SortBy::Lines => f.line_count,
    }
}

proof fn lemma_insert_keeps_groups(res: Seq<HealthFinding>, p: int, x: HealthFinding, sort: SortBy)
    requires
        0 <= p <= res.len(),
        forall|i: int| 0 <= i < p ==> finding_key(#[trigger] res[i], sort) > finding_key(x, sort),
    ensures
        forall|k: int|
            #[trigger] with_key(res.insert(p, x), sort, k) == (if finding_key(x, sort) == k {
                seq![x] + with_key(res, sort, k)
            } else {
                with_key(res, sort, k)
            }),
{
    broadcast use vstd::seq_lib::group_seq_properties;

    let a = res.take(p);
    let b = res.skip(p);
    assert(res =~= a + b);
    assert(res.insert(p, x) =~= a + (seq![x] + b));
    assert forall|k: int|
        #[trigger] with_key(res.insert(p, x), sort, k) == (if finding_key(x, sort) == k {
            seq![x] + with_key(res, sort, k)
        } else {
            with_key(res, sort, k)
        }) by {
        let pred = |f: HealthFinding| finding_key(f, sort) == k;
        Seq::filter_distributes_over_add(a, seq![x] + b, pred);
        Seq::filter_distributes_over_add(a, b, pred);
        b.lemma_filter_prepend(x, pred);
        if finding_key(x, sort) == k {
            assert forall|i: int| 0 <= i < a.len() implies !pred(a[i]) by {
                assert(a[i] == res[i]);
            }
            a.lemma_all_neg_filter_empty(pred);
            assert(a.filter(pred) =~= Seq::<HealthFinding>::empty());
            assert(with_key(res.insert(p, x), sort, k) =~= seq![x] + with_key(res, sort, k));
        } else {
            assert(with_key(res.insert(p, x), sort, k) =~= with_key(res, sort, k));
        }
    }
}

/// Sort findings by the specified criterion, highest first.
///
/// The sort is stable: findings with equal keys keep their relative order.
pub fn sort_findings(findings: &mut Vec<HealthFinding>, sort: &SortBy)
    ensures
        sorted_desc(final(findings)@, *sort),
        forall|k: int| #[trigger]
            with_key(final(findings)@, *sort, k) == with_key(old(findings)@, *sort, k),
        final(findings)@.len() == old(findings)@.len(),
{
    broadcast use vstd::seq_lib::group_seq_properties;

    let sort = *sort;
    let ghost orig = findings@;
    let mut rest: Vec<HealthFinding> = Vec::new();
    std::mem::swap(&mut rest, findings);
    let mut res: Vec<HealthFinding> = Vec::new();
    while rest.len() > 0
        invariant
            rest@ == orig.take(rest.len() as int),
            rest.len() <= orig.len(),
            res.len() + rest.len() == orig.len(),
            sorted_desc(res@, sort),
            forall|k: int| #[trigger]
                with_key(res@, sort, k) == with_key(orig.skip(rest.len() as int), sort, k),
        decreases rest.len(),
    {
        let ghost m = rest.len() as int;
        let x = rest.pop().unwrap();
        let kx = key_of(&x, sort);
        let mut p: usize = 0;
        while p < res.len() && key_of(&res[p], sort) > kx
            invariant
                p <= res.len(),
                forall|i: int| 0 <= i < p ==> finding_key(#[trigger] res@[i], sort) > kx,
            decreases res.len() - p,
        {
            p = p + 1;
        }
        proof {
            lemma_insert_keeps_groups(res@, p as int, x, sort);
            assert(orig.skip(m - 1) =~= seq![x] + orig.skip(m));
            assert forall|k: int| #[trigger]
                with_key(orig.skip(m - 1), sort, k) == (if finding_key(x, sort) == k {
                    seq![x] + with_key(orig.skip(m), sort, k)
                } else {
                    with_key(orig.skip(m), sort, k)
                }) by {
                orig.skip(m).lemma_filter_prepend(x, |f: HealthFinding| finding_key(f, sort) == k);
            }
        }
        let ghost old_res = res@;
        res.insert(p, x);
        proof {
            assert(rest@ =~= orig.take(rest.len() as int));
            assert forall|i: int, j: int| 0 <= i < j < res@.len() implies finding_key(
                res@[i],
                sort,
            ) >= finding_key(res@[j], sort) by {
                if j < p {
                } else if j == p {
                } else if i < p {
                    assert(res@[j] == old_res[j - 1]);
                    if p < old_res.len() {
                        assert(finding_key(old_res[p as int], sort) <= kx);
                    }
                } else if i == p {
                    assert(res@[j] == old_res[j - 1]);
                    assert(finding_key(old_res[p as int], sort) <= kx);
                } else {
                    assert(res@[j] == old_res[j - 1]);
                    assert(res@[i] == old_res[i - 1]);
                }
            }
        }
    }
    proof {
        assert(orig.skip(0) =~= orig);
    }
    *findings = res;
}

} // verus!
