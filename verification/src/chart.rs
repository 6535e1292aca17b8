//! The chart model: timestamped hit-events, timing segments and auxiliary
//! time-indexed control segments.
//!
//! Timestamps, durations and beat lengths are integers in a fixed time unit
//! chosen by the caller (milliseconds in practice).  The model keeps every
//! time-indexed substructure time-ordered; the timing transform preserves
//! that order.

use vstd::prelude::*;

verus! {

/// Largest admissible timestamp, duration or beat length.  Scaling a time
/// multiplies it by 100 before dividing; this bound keeps that product
/// within `u64`.
pub const MAX_CHART_TIME: u64 = 184446744073709551;

/// One playable event: an instantaneous tap or a hold with a duration.
#[derive(Debug, Clone, Copy, PartialEq, Eq, Structural)]
pub enum HitObjectKind {
    Circle,
    Hold { duration: u64 },
}

/// A timestamped playable event.
#[derive(Debug, Clone, Copy, PartialEq, Eq, Structural)]
pub struct HitObject {
    pub start_time: u64,
    pub kind: HitObjectKind,
}

/// A timing segment: from `time` on, one beat lasts `beat_len`.
#[derive(Debug, Clone, Copy, PartialEq, Eq, Structural)]
pub struct TimingPoint {
    pub time: u64,
    pub beat_len: u64,
}

/// A time-indexed effect control segment.
#[derive(Debug, Clone, Copy, PartialEq, Eq, Structural)]
pub struct EffectPoint {
    pub time: u64,
}

/// A time-indexed difficulty control segment.
#[derive(Debug, Clone, Copy, PartialEq, Eq, Structural)]
pub struct DifficultyPoint {
    pub time: u64,
}

/// A time-indexed sample control segment.
#[derive(Debug, Clone, Copy, PartialEq, Eq, Structural)]
pub struct SamplePoint {
    pub time: u64,
}

/// A parsed chart: hit-events, timing and control segments, an audio
/// reference, a display label, and a mode/key-count descriptor.
#[derive(Debug, Clone)]
pub struct Chart {
    pub audio_file: String,
    pub version: String,
    pub mode: u32,
    pub key_count: u32,
    pub hit_objects: Vec<HitObject>,
    pub timing_points: Vec<TimingPoint>,
    pub effect_points: Vec<EffectPoint>,
    pub difficulty_points: Vec<DifficultyPoint>,
    pub sample_points: Vec<SamplePoint>,
}

/// Whether the event is a hold (as opposed to an instantaneous tap).
pub open spec fn is_hold(h: HitObject) -> bool {
    h.kind is Hold
}

/// The duration of a hold, zero for a tap.
pub open spec fn hold_duration(h: HitObject) -> u64 {
    match h.kind {
        HitObjectKind::Circle => 0,
        HitObjectKind::Hold { duration } => duration,
    }
}

/// All timestamps, durations and beat lengths of the chart are within
/// `MAX_CHART_TIME`.
pub open spec fn chart_times_bounded(c: Chart) -> bool {
    &&& forall|i: int|
        0 <= i < c.hit_objects@.len() ==> (#[trigger] c.hit_objects@[i]).start_time
            <= MAX_CHART_TIME && hold_duration(c.hit_objects@[i]) <= MAX_CHART_TIME
    &&& forall|i: int|
        0 <= i < c.timing_points@.len() ==> (#[trigger] c.timing_points@[i]).time
            <= MAX_CHART_TIME && c.timing_points@[i].beat_len <= MAX_CHART_TIME
    &&& forall|i: int|
        0 <= i < c.effect_points@.len() ==> (#[trigger] c.effect_points@[i]).time
            <= MAX_CHART_TIME
    &&& forall|i: int|
        0 <= i < c.difficulty_points@.len() ==> (#[trigger] c.difficulty_points@[i]).time
            <= MAX_CHART_TIME
    &&& forall|i: int|
        0 <= i < c.sample_points@.len() ==> (#[trigger] c.sample_points@[i]).time
            <= MAX_CHART_TIME
}

/// All time-indexed substructures of the chart are time-ordered.
pub open spec fn chart_time_ordered(c: Chart) -> bool {
    &&& forall|i: int, j: int|
        0 <= i <= j < c.hit_objects@.len() ==> (#[trigger] c.hit_objects@[i]).start_time
            <= (#[trigger] c.hit_objects@[j]).start_time
    &&& forall|i: int, j: int|
        0 <= i <= j < c.timing_points@.len() ==> (#[trigger] c.timing_points@[i]).time
            <= (#[trigger] c.timing_points@[j]).time
    &&& forall|i: int, j: int|
        0 <= i <= j < c.effect_points@.len() ==> (#[trigger] c.effect_points@[i]).time
            <= (#[trigger] c.effect_points@[j]).time
    &&& forall|i: int, j: int|
        0 <= i <= j < c.difficulty_points@.len() ==> (#[trigger] c.difficulty_points@[i]).time
            <= (#[trigger] c.difficulty_points@[j]).time
    &&& forall|i: int, j: int|
        0 <= i <= j < c.sample_points@.len() ==> (#[trigger] c.sample_points@[i]).time
            <= (#[trigger] c.sample_points@[j]).time
}

} // verus!
