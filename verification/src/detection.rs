//! Vocabulary of detection jobs: urgency, data sources and target classes.
use vstd::prelude::*;

verus! {

/// Urgency of a detection job; the order runs from `Low` to `Critical`.
#[derive(Debug, Clone, Copy, PartialEq, Eq, PartialOrd, Ord, Structural)]
pub enum Priority {
    Low,
    Medium,
    High,
    Critical,
}

/// Where the data for a detection job comes from, with the file it lives in.
#[derive(Debug, Clone)]
pub enum DataSource {
    /// Sentinel-1 SAR imagery (GeoTIFF).
    Sar { path: String },
    /// Side-scan sonar survey data.
    Sonar { path: String },
    /// General satellite imagery.
    Satellite { path: String },
}

/// Classification of a detected object.
#[derive(Debug, Clone, Copy, PartialEq, Eq, Structural)]
pub enum TargetClass {
    Wreck,
    Debris,
    Structure,
    Anomaly,
    Unknown,
}

/// The multi-sensor scorer of SAR clusters. It holds no state: the sensor
/// scores it combines are fetched per call.
#[derive(Debug, Clone, Copy, PartialEq, Eq, Structural)]
pub struct FusionScorer;

impl FusionScorer {
    pub fn new() -> (r: FusionScorer)
        ensures
            r == FusionScorer,
    {
        FusionScorer
    }
}

} // verus!
