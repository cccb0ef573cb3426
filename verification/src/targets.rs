//! The refactoring rules: which recommendation a file health score earns,
//! tried in priority order.
use vstd::prelude::*;
use crate::health_types::RecommendationCategory;
use crate::text::{chars_to_string, decimal, push_decimal, push_str};

verus! {

/// What the refactoring rules read of a file. The comparisons of the
/// fractional scores against the rules' thresholds arrive decided.
#[derive(Debug, Clone)]
pub struct RuleFacts {
    /// The file is a hotspot scoring at least 50 whose churn accelerates,
    /// and its complexity density exceeds 0.5.
    pub urgent_churn: bool,
    /// The complexity density exceeds 0.3.
    pub dense: bool,
    /// Files that import this one.
    pub fan_in: usize,
    /// Modules this file imports.
    pub fan_out: usize,
    /// Functions in the file.
    pub function_count: usize,
    /// The file is part of an import cycle.
    pub is_circular: bool,
    /// The file is an entry point.
    pub is_entry: bool,
    /// At least half of the file's value exports are unused.
    pub mostly_dead: bool,
    /// Value exports of the file.
    pub value_exports: usize,
    /// The dead-code ratio times the value exports, rounded.
    pub unused_estimate: usize,
    /// The dead-code ratio as a whole percentage, as printed.
    pub dead_percent: String,
    /// The maintainability index is below 60.
    pub low_maintainability: bool,
}

/// The functions of the file with cognitive complexity of at least 30, in order.
pub open spec fn complex_functions(fns: Seq<(String, u16)>) -> Seq<(String, u16)> {
    fns.filter(|p: (String, u16)| p.1 >= 30)
}

/// `"<name> (cognitive: <n>)"`.
pub open spec fn function_note(p: (String, u16)) -> Seq<char> {
    p.0@ + " (cognitive: "@ + decimal(p.1 as nat) + ")"@
}

/// The extraction advice for a non-empty list of complex functions.
pub open spec fn extract_advice(high: Seq<(String, u16)>) -> Seq<char> {
    if high.len() == 1 {
        "Extract "@ + function_note(high[0]) + " into smaller functions"@
    } else {
        "Extract "@ + function_note(high[0]) + " and "@ + function_note(high[1])
            + " into smaller functions"@
    }
}

/// The first rule that matches, in priority order: urgent churn with
/// complexity; an import cycle with at least 5 dependents; a dense file with
/// 20 dependents, or 10 and at least 5 functions; mostly dead exports (with
/// at least 3 value exports); functions of cognitive complexity 30 or more;
/// heavy coupling (15 imports and low maintainability) outside entry points;
/// any other import cycle.
pub open spec fn matched_rule(f: RuleFacts, top_fns: Option<Seq<(String, u16)>>) -> Option<
    (RecommendationCategory, Seq<char>),
> {
    if f.urgent_churn {
        Some(
            (
                RecommendationCategory::UrgentChurnComplexity,
                "Actively-changing file with growing complexity \u{2014} stabilize before adding features"@,
            ),
        )
    } else if f.is_circular && f.fan_in >= 5 {
        Some(
            (
                RecommendationCategory::BreakCircularDependency,
                "Break import cycle \u{2014} "@ + decimal(f.fan_in as nat)
                    + " files depend on this, changes cascade through the cycle"@,
            ),
        )
    } else if f.dense && (f.fan_in >= 20 || (f.fan_in >= 10 && f.function_count >= 5)) {
        Some(
            (
                RecommendationCategory::SplitHighImpact,
                "Split high-impact file \u{2014} "@ + decimal(f.fan_in as nat)
                    + " dependents amplify every change"@,
            ),
        )
    } else if f.mostly_dead && f.value_exports >= 3 {
        Some(
            (
                RecommendationCategory::RemoveDeadCode,
                "Remove "@ + decimal(f.unused_estimate as nat)
                    + " unused exports to reduce surface area ("@ + f.dead_percent@
                    + "% dead)"@,
            ),
        )
    } else if top_fns matches Some(fns) && complex_functions(fns).len() > 0 {
        Some(
            (
                RecommendationCategory::ExtractComplexFunctions,
                extract_advice(complex_functions(top_fns->0)),
            ),
        )
    } else if !f.is_entry && f.fan_out >= 15 && f.low_maintainability {
        Some(
            (
                RecommendationCategory::ExtractDependencies,
                "Reduce coupling \u{2014} this file imports "@ + decimal(f.fan_out as nat)
                    + " modules, limiting testability"@,
            ),
        )
    } else if f.is_circular {
        Some(
            (
                RecommendationCategory::BreakCircularDependency,
                "Break import cycle to reduce change cascade risk"@,
            ),
        )
    } else {
        None
    }
}

/// The view of an optional list of functions.
pub open spec fn fns_view(top_fns: Option<&Vec<(String, u16)>>) -> Option<Seq<(String, u16)>> {
    match top_fns {
        Some(v) => Some(v@),
        None => None,
    }
}

fn push_function_note(out: &mut Vec<char>, p: &(String, u16))
    ensures
        final(out)@ == old(out)@ + function_note(*p),
{
    push_str(out, p.0.as_str());
    push_str(out, " (cognitive: ");
    push_decimal(out, p.1 as u64);
    push_str(out, ")");
}

/// The functions of cognitive complexity 30 or more, in order.
fn collect_complex(fns: &Vec<(String, u16)>) -> (r: Vec<&(String, u16)>)
    ensures
        r@.len() == complex_functions(fns@).len(),
        forall|i: int| 0 <= i < r@.len() ==> *#[trigger] r@[i] == complex_functions(fns@)[i],
{
    let ghost pred = |p: (String, u16)| p.1 >= 30;
    let mut r: Vec<&(String, u16)> = Vec::new();
    let mut i: usize = 0;
    while i < fns.len()
        invariant
            i <= fns@.len(),
            pred == (|p: (String, u16)| p.1 >= 30),
            r@.len() == fns@.take(i as int).filter(pred).len(),
            forall|j: int| 0 <= j < r@.len() ==> *#[trigger] r@[j] == fns@.take(i as int).filter(pred)[j],
        decreases fns.len() - i,
    {
        proof {
            reveal(Seq::filter);
            assert(fns@.take(i + 1).drop_last() =~= fns@.take(i as int));
            assert(fns@.take(i + 1).last() == fns@[i as int]);
        }
        if fns[i].1 >= 30 {
            r.push(&fns[i]);
        }
        i = i + 1;
    }
    proof {
        assert(fns@.take(fns@.len() as int) =~= fns@);
    }
    r
}

/// Match a file against the refactoring rules in priority order; the first
/// matching `(category, recommendation)`, or `None` when no rule matches.
pub fn try_match_rules(facts: &RuleFacts, top_fns: Option<&Vec<(String, u16)>>) -> (r: Option<
    (RecommendationCategory, String),
>)
    ensures
        match (r, matched_rule(*facts, fns_view(top_fns))) {
            (Some((c, s)), Some((mc, ms))) => c == mc && s@ == ms,
            (None, None) => true,
            _ => false,
        },
{
    if facts.urgent_churn {
        let s = String::from_str(
            "Actively-changing file with growing complexity \u{2014} stabilize before adding features",
        );
        return Some((RecommendationCategory::UrgentChurnComplexity, s));
    }
    if facts.is_circular && facts.fan_in >= 5 {
        let mut out: Vec<char> = Vec::new();
        push_str(&mut out, "Break import cycle \u{2014} ");
        push_decimal(&mut out, facts.fan_in as u64);
        push_str(&mut out, " files depend on this, changes cascade through the cycle");
        return Some((RecommendationCategory::BreakCircularDependency, chars_to_string(&out)));
    }
    if facts.dense && (facts.fan_in >= 20 || (facts.fan_in >= 10 && facts.function_count >= 5)) {
        let mut out: Vec<char> = Vec::new();
        push_str(&mut out, "Split high-impact file \u{2014} ");
        push_decimal(&mut out, facts.fan_in as u64);
        push_str(&mut out, " dependents amplify every change");
        return Some((RecommendationCategory::SplitHighImpact, chars_to_string(&out)));
    }
    if facts.mostly_dead && facts.value_exports >= 3 {
        let mut out: Vec<char> = Vec::new();
        push_str(&mut out, "Remove ");
        push_decimal(&mut out, facts.unused_estimate as u64);
        push_str(&mut out, " unused exports to reduce surface area (");
        push_str(&mut out, facts.dead_percent.as_str());
        push_str(&mut out, "% dead)");
        return Some((RecommendationCategory::RemoveDeadCode, chars_to_string(&out)));
    }
    if let Some(fns) = top_fns {
        let high = collect_complex(fns);
        if high.len() > 0 {
            let mut out: Vec<char> = Vec::new();
            push_str(&mut out, "Extract ");
            push_function_note(&mut out, high[0]);
            if high.len() == 1 {
                push_str(&mut out, " into smaller functions");
            } else {
                push_str(&mut out, " and ");
                push_function_note(&mut out, high[1]);
                push_str(&mut out, " into smaller functions");
            }
            return Some((RecommendationCategory::ExtractComplexFunctions, chars_to_string(&out)));
        }
    }
    if !facts.is_entry && facts.fan_out >= 15 && facts.low_maintainability {
        let mut out: Vec<char> = Vec::new();
        push_str(&mut out, "Reduce coupling \u{2014} this file imports ");
        push_decimal(&mut out, facts.fan_out as u64);
        push_str(&mut out, " modules, limiting testability");
        return Some((RecommendationCategory::ExtractDependencies, chars_to_string(&out)));
    }
    if facts.is_circular {
        let s = String::from_str("Break import cycle to reduce change cascade risk");
        return Some((RecommendationCategory::BreakCircularDependency, s));
    }
    None
}

} // verus!
