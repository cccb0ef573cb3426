//! Verified core of the fallow command-line tool.
use vstd::prelude::*;

pub mod text;
pub mod search;
pub mod production_coverage;
pub mod scores;
pub mod health_types;
pub mod codeowners;
pub mod regression;
pub mod timestamp;
pub mod fix;
pub mod audit;
pub mod ordering;
pub mod runtime_coverage;
pub mod inputs;
pub mod migrate;
pub mod paths;
pub mod complexity;
pub mod dead_code;
pub mod sidecar;
pub mod baseline;
pub mod coverage_request;
pub mod flags;
pub mod health_run;
pub mod targets;
pub mod dependency_fix;
pub mod dupes;

verus! {

} // verus!
