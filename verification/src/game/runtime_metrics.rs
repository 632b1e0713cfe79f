//! Headless runtime metrics collected by bounded app-update runs.

use vstd::prelude::*;

use crate::game::diagnostics::RuntimeDiagnostics;

verus! {

/// Summary produced by a bounded headless app-update run.
#[derive(Debug, Clone, Copy, PartialEq, Eq)]
pub struct HeadlessMetricsReport {
    /// Number of update frames executed.
    pub frames: u32,
    /// Wall-clock time spent running those frames, in microseconds.
    pub elapsed_micros: u128,
    /// Latest diagnostics sampled from the app.
    pub metrics: RuntimeDiagnostics,
    /// Live entity count observed directly from the world after the run.
    pub entity_count: usize,
}

/// The number of frames a run executes: as requested, but at least one.
pub fn headless_frame_count(requested_frames: u32) -> (r: u32)
    ensures
        r == if requested_frames == 0 { 1 } else { requested_frames },
{
    if requested_frames == 0 { 1 } else { requested_frames }
}

/// The report of a run: the frames it executed, its measured duration (at least one
/// microsecond), the sampled metrics and the observed entity count.
pub fn headless_report(frames: u32, measured_micros: u128, metrics: RuntimeDiagnostics, entity_count: usize) -> (r: HeadlessMetricsReport)
    ensures
        r.frames == frames,
        r.elapsed_micros == if measured_micros == 0 { 1 } else { measured_micros },
        r.metrics == metrics,
        r.entity_count == entity_count,
{
    HeadlessMetricsReport {
        frames,
        elapsed_micros: if measured_micros == 0 { 1 } else { measured_micros },
        metrics,
        entity_count,
    }
}

} // verus!
