//! Complexity-finding severity tiers and the report types that carry them.
use vstd::prelude::*;

verus! {

/// Cognitive complexity threshold above which a function is flagged for extraction.
pub const COGNITIVE_EXTRACTION_THRESHOLD: u16 = 30;

/// Default cognitive complexity threshold for "high" severity (warning tier).
pub const DEFAULT_COGNITIVE_HIGH: u16 = 25;

/// Default cognitive complexity threshold for "critical" severity.
pub const DEFAULT_COGNITIVE_CRITICAL: u16 = 40;

/// Default cyclomatic complexity threshold for "high" severity (warning tier).
pub const DEFAULT_CYCLOMATIC_HIGH: u16 = 30;

/// Default cyclomatic complexity threshold for "critical" severity.
pub const DEFAULT_CYCLOMATIC_CRITICAL: u16 = 50;

/// Hotspot score threshold (in whole points) for counting a file as a hotspot.
pub const HOTSPOT_SCORE_THRESHOLD: u32 = 50;

/// Which complexity threshold was exceeded.
#[derive(Debug, Clone, Copy, PartialEq, Eq, Structural)]
pub enum ExceededThreshold {
    /// Only cyclomatic exceeded.
    Cyclomatic,
    /// Only cognitive exceeded.
    Cognitive,
    /// Both thresholds exceeded.
    Both,
}

/// Severity tier indicating how far a function exceeds complexity thresholds.
#[derive(Debug, Clone, Copy, PartialEq, Eq, PartialOrd, Ord, Structural)]
pub enum FindingSeverity {
    /// Above threshold but manageable.
    Moderate,
    /// Recommended for extraction.
    High,
    /// Immediate extraction candidate.
    Critical,
}

/// Position of a severity in the order `Moderate < High < Critical`.
pub open spec fn severity_rank(s: FindingSeverity) -> int {
    match s {
        FindingSeverity::Moderate => 0,
        FindingSeverity::High => 1,
        FindingSeverity::Critical => 2,
    }
}

impl FindingSeverity {
    /// Position of this severity in the order `Moderate < High < Critical`.
    pub fn rank(self) -> (r: u8)
        ensures
            r == severity_rank(self),
    {
        match self {
            FindingSeverity::Moderate => 0,
            FindingSeverity::High => 1,
            FindingSeverity::Critical => 2,
        }
    }
}

/// Severity order: each tier has its own rank, and the ranks are strictly increasing.
pub proof fn lemma_severity_order()
    ensures
        severity_rank(FindingSeverity::Moderate) < severity_rank(FindingSeverity::High),
        severity_rank(FindingSeverity::High) < severity_rank(FindingSeverity::Critical),
        forall|a: FindingSeverity, b: FindingSeverity|
            severity_rank(a) == severity_rank(b) ==> a == b,
{
}

/// The tier that a single score reaches against a (high, critical) pair of thresholds.
pub open spec fn tier(score: u16, high: u16, critical: u16) -> FindingSeverity {
    if score >= critical {
        FindingSeverity::Critical
    } else if score >= high {
        FindingSeverity::High
    } else {
        FindingSeverity::Moderate
    }
}

/// The higher of two severities.
pub open spec fn max_severity(a: FindingSeverity, b: FindingSeverity) -> FindingSeverity {
    if severity_rank(a) >= severity_rank(b) {
        a
    } else {
        b
    }
}

/// Compute the severity tier for a complexity finding.
///
/// Uses the highest tier reached across both cognitive and cyclomatic scores.
pub fn compute_finding_severity(
    cognitive: u16,
    cyclomatic: u16,
    cognitive_high: u16,
    cognitive_critical: u16,
    cyclomatic_high: u16,
    cyclomatic_critical: u16,
) -> (r: FindingSeverity)
    ensures
        r == max_severity(
            tier(cognitive, cognitive_high, cognitive_critical),
            tier(cyclomatic, cyclomatic_high, cyclomatic_critical),
        ),
{
    let cog = if cognitive >= cognitive_critical {
        FindingSeverity::Critical
    } else if cognitive >= cognitive_high {
        FindingSeverity::High
    } else {
        FindingSeverity::Moderate
    };
    let cyc = if cyclomatic >= cyclomatic_critical {
        FindingSeverity::Critical
    } else if cyclomatic >= cyclomatic_high {
        FindingSeverity::High
    } else {
        FindingSeverity::Moderate
    };
    if cog.rank() >= cyc.rank() {
        cog
    } else {
        cyc
    }
}

/// Raising either complexity score never lowers the computed severity.
pub proof fn lemma_severity_monotone(
    cog1: u16,
    cog2: u16,
    cyc1: u16,
    cyc2: u16,
    cognitive_high: u16,
    cognitive_critical: u16,
    cyclomatic_high: u16,
    cyclomatic_critical: u16,
)
    requires
        cog1 <= cog2,
        cyc1 <= cyc2,
    ensures
        severity_rank(
            max_severity(
                tier(cog1, cognitive_high, cognitive_critical),
                tier(cyc1, cyclomatic_high, cyclomatic_critical),
            ),
        ) <= severity_rank(
            max_severity(
                tier(cog2, cognitive_high, cognitive_critical),
                tier(cyc2, cyclomatic_high, cyclomatic_critical),
            ),
        ),
{
}

/// A single function that exceeds a complexity threshold.
#[derive(Debug, Clone)]
pub struct HealthFinding {
    /// File path.
    pub path: String,
    /// Function name.
    pub name: String,
    /// 1-based line number.
    pub line: u32,
    /// 0-based column.
    pub col: u32,
    /// Cyclomatic complexity.
    pub cyclomatic: u16,
    /// Cognitive complexity.
    pub cognitive: u16,
    /// Number of lines in the function.
    pub line_count: u32,
    /// Number of parameters.
    pub param_count: u8,
    /// Which threshold was exceeded.
    pub exceeded: ExceededThreshold,
    /// How far above the threshold.
    pub severity: FindingSeverity,
}

/// A function exceeding the very-high-risk size threshold.
#[derive(Debug, Clone)]
pub struct LargeFunctionEntry {
    pub path: String,
    pub name: String,
    pub line: u32,
    pub line_count: u32,
}

/// Coverage model used for CRAP score computation.
#[derive(Debug, Clone, Copy, PartialEq, Eq, Structural)]
pub enum CoverageModel {
    StaticBinary,
    StaticEstimated,
    Istanbul,
}

/// Format discriminator for contributor identifiers.
#[derive(Debug, Clone, Copy, PartialEq, Eq, Structural)]
pub enum ContributorIdentifierFormat {
    Raw,
    Handle,
    Hash,
}

/// Summary statistics for hotspot analysis.
#[derive(Debug, Clone)]
pub struct HotspotSummary {
    pub since: String,
    pub min_commits: u32,
    pub files_analyzed: usize,
    pub files_excluded: usize,
    pub shallow_clone: bool,
}

} // verus!
