//! Production-coverage report types and their stable kebab-case labels.
use vstd::prelude::*;

verus! {

/// Overall verdict of a production-coverage report.
#[derive(Debug, Clone, Copy, PartialEq, Eq, Structural)]
pub enum ProductionCoverageVerdict {
    Clean,
    HotPathChangesNeeded,
    ColdCodeDetected,
    LicenseExpiredGrace,
    Unknown,
}

impl Default for ProductionCoverageVerdict {
    fn default() -> (r: Self)
        ensures
            r == ProductionCoverageVerdict::Unknown,
    {
        ProductionCoverageVerdict::Unknown
    }
}

/// The kebab-case label of a verdict (the serialized form).
pub open spec fn verdict_label(v: ProductionCoverageVerdict) -> Seq<char> {
    match v {
        ProductionCoverageVerdict::Clean => "clean"@,
        ProductionCoverageVerdict::HotPathChangesNeeded => "hot-path-changes-needed"@,
        ProductionCoverageVerdict::ColdCodeDetected => "cold-code-detected"@,
        ProductionCoverageVerdict::LicenseExpiredGrace => "license-expired-grace"@,
        ProductionCoverageVerdict::Unknown => "unknown"@,
    }
}

impl ProductionCoverageVerdict {
    /// Stable kebab-case label, identical to the serialized form.
    pub fn as_str(self) -> (r: &'static str)
        ensures
            r@ == verdict_label(self),
    {
        match self {
            Self::Clean => "clean",
            Self::HotPathChangesNeeded => "hot-path-changes-needed",
            Self::ColdCodeDetected => "cold-code-detected",
            Self::LicenseExpiredGrace => "license-expired-grace",
            Self::Unknown => "unknown",
        }
    }
}

/// Call state of a single function in production.
#[derive(Debug, Clone, Copy, PartialEq, Eq, Structural)]
pub enum ProductionCoverageState {
    Called,
    NeverCalled,
    CoverageUnavailable,
    Unknown,
}

/// The kebab-case label of a call state.
pub open spec fn state_label(s: ProductionCoverageState) -> Seq<char> {
    match s {
        ProductionCoverageState::Called => "called"@,
        ProductionCoverageState::NeverCalled => "never-called"@,
        ProductionCoverageState::CoverageUnavailable => "coverage-unavailable"@,
        ProductionCoverageState::Unknown => "unknown"@,
    }
}

impl ProductionCoverageState {
    /// Stable kebab-case label, identical to the serialized form.
    pub fn as_str(self) -> (r: &'static str)
        ensures
            r@ == state_label(self),
    {
        match self {
            Self::Called => "called",
            Self::NeverCalled => "never-called",
            Self::CoverageUnavailable => "coverage-unavailable",
            Self::Unknown => "unknown",
        }
    }
}

/// Confidence of a production-coverage finding.
#[derive(Debug, Clone, Copy, PartialEq, Eq, Structural)]
pub enum ProductionCoverageConfidence {
    High,
    Medium,
    Low,
    Unknown,
}

/// The kebab-case label of a confidence level.
pub open spec fn confidence_label(c: ProductionCoverageConfidence) -> Seq<char> {
    match c {
        ProductionCoverageConfidence::High => "high"@,
        ProductionCoverageConfidence::Medium => "medium"@,
        ProductionCoverageConfidence::Low => "low"@,
        ProductionCoverageConfidence::Unknown => "unknown"@,
    }
}

impl ProductionCoverageConfidence {
    /// Stable kebab-case label, identical to the serialized form.
    pub fn as_str(self) -> (r: &'static str)
        ensures
            r@ == confidence_label(self),
    {
        match self {
            Self::High => "high",
            Self::Medium => "medium",
            Self::Low => "low",
            Self::Unknown => "unknown",
        }
    }
}

/// License watermark attached to a report.
#[derive(Debug, Clone, Copy, PartialEq, Eq, Structural)]
pub enum ProductionCoverageWatermark {
    TrialExpired,
    LicenseExpiredGrace,
    Unknown,
}

/// The kebab-case label of a watermark.
pub open spec fn watermark_label(w: ProductionCoverageWatermark) -> Seq<char> {
    match w {
        ProductionCoverageWatermark::TrialExpired => "trial-expired"@,
        ProductionCoverageWatermark::LicenseExpiredGrace => "license-expired-grace"@,
        ProductionCoverageWatermark::Unknown => "unknown"@,
    }
}

impl ProductionCoverageWatermark {
    /// Stable kebab-case label, identical to the serialized form.
    pub fn as_str(self) -> (r: &'static str)
        ensures
            r@ == watermark_label(self),
    {
        match self {
            Self::TrialExpired => "trial-expired",
            Self::LicenseExpiredGrace => "license-expired-grace",
            Self::Unknown => "unknown",
        }
    }
}

/// A suggested follow-up action (serialized with `type` for `kind`).
#[derive(Debug, Clone)]
pub struct ProductionCoverageAction {
    pub kind: String,
    pub description: String,
    pub auto_fixable: bool,
}

/// A warning or informational message attached to a report.
#[derive(Debug, Clone)]
pub struct ProductionCoverageMessage {
    pub code: String,
    pub message: String,
}

/// A function whose production call state deserves attention.
#[derive(Debug, Clone)]
pub struct ProductionCoverageFinding {
    pub path: String,
    pub function: String,
    pub line: Option<u32>,
    pub state: ProductionCoverageState,
    pub invocations: u64,
    pub confidence: ProductionCoverageConfidence,
    pub actions: Vec<ProductionCoverageAction>,
}

/// A frequently invoked function.
#[derive(Debug, Clone)]
pub struct ProductionCoverageHotPath {
    pub path: String,
    pub function: String,
    pub line: Option<u32>,
    pub invocations: u64,
    pub actions: Vec<ProductionCoverageAction>,
}

/// Sort rank of a call state: never-called first, then unavailable, called, unknown.
pub open spec fn spec_state_rank(state: ProductionCoverageState) -> u8 {
    match state {
        ProductionCoverageState::NeverCalled => 0,
        ProductionCoverageState::CoverageUnavailable => 1,
        ProductionCoverageState::Called => 2,
        ProductionCoverageState::Unknown => 3,
    }
}

/// Sort rank used to order production-coverage findings.
pub fn state_rank(state: ProductionCoverageState) -> (r: u8)
    ensures
        r == spec_state_rank(state),
{
    match state {
        ProductionCoverageState::NeverCalled => 0,
        ProductionCoverageState::CoverageUnavailable => 1,
        ProductionCoverageState::Called => 2,
        ProductionCoverageState::Unknown => 3,
    }
}

/// Distinct call states have distinct ranks, so the rank orders states totally.
pub proof fn lemma_state_rank_injective(a: ProductionCoverageState, b: ProductionCoverageState)
    ensures
        spec_state_rank(a) == spec_state_rank(b) <==> a == b,
{
}

} // verus!
