//! Error taxonomy of the processing pipeline.

use vstd::prelude::*;

verus! {

/// Errors raised while processing a chart: initialization, per-chart
/// processing, rating-data problems and persistence problems.
#[derive(Debug, Clone)]
pub enum BeatmapWorkerError {
    InitializationFailed(String),
    ProcessingFailed(String),
    MinacalcError(String),
    DatabaseError(String),
}

impl BeatmapWorkerError {
    /// A short operator-facing description of the error category.
    pub fn category(&self) -> (r: &'static str)
        ensures
            self is InitializationFailed ==> r@ == "initialization failed"@,
            self is ProcessingFailed ==> r@ == "processing failed"@,
            self is MinacalcError ==> r@ == "rating data error"@,
            self is DatabaseError ==> r@ == "database error"@,
    {
        match self {
            BeatmapWorkerError::InitializationFailed(_) => "initialization failed",
            BeatmapWorkerError::ProcessingFailed(_) => "processing failed",
            BeatmapWorkerError::MinacalcError(_) => "rating data error",
            BeatmapWorkerError::DatabaseError(_) => "database error",
        }
    }
}

/// Errors raised while loading the startup configuration.
#[derive(Debug, Clone)]
pub enum ConfigError {
    EnvLoadError(String),
    MissingVariable(String),
}

impl ConfigError {
    /// A short operator-facing description of the error category.
    pub fn category(&self) -> (r: &'static str)
        ensures
            self is EnvLoadError ==> r@ == "environment load error"@,
            self is MissingVariable ==> r@ == "missing environment variable"@,
    {
        match self {
            ConfigError::EnvLoadError(_) => "environment load error",
            ConfigError::MissingVariable(_) => "missing environment variable",
        }
    }
}

} // verus!
