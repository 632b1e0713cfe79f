//! Runtime diagnostics state and the rules that update it.

use vstd::prelude::*;

verus! {

/// Lightweight runtime metrics surfaced by the diagnostics overlay.
#[derive(Debug, Clone, Copy, PartialEq, Eq, Structural)]
pub struct RuntimeDiagnostics {
    /// Last sampled frames-per-second value, rounded for display.
    pub fps: Option<u32>,
    /// Last sampled frame time in milliseconds, rounded for display.
    pub frame_time_ms: Option<u32>,
    /// Last sampled entity count.
    pub entity_count: usize,
    /// Number of terrain chunks currently active in the runtime world.
    pub active_chunks: usize,
    /// Number of chunk work items waiting to be processed.
    pub queued_chunks: usize,
}

impl Default for RuntimeDiagnostics {
    fn default() -> (r: Self)
        ensures
            r == (RuntimeDiagnostics { fps: None, frame_time_ms: None, entity_count: 0, active_chunks: 0, queued_chunks: 0 }),
    {
        RuntimeDiagnostics { fps: None, frame_time_ms: None, entity_count: 0, active_chunks: 0, queued_chunks: 0 }
    }
}

/// User-facing diagnostics overlay state.
#[derive(Debug, Clone, Copy, PartialEq, Eq, Structural)]
pub struct DiagnosticsOverlay {
    /// Whether the diagnostics overlay should be visible.
    pub visible: bool,
    /// Latest sampled diagnostic metrics.
    pub metrics: RuntimeDiagnostics,
}

impl Default for DiagnosticsOverlay {
    fn default() -> (r: Self)
        ensures
            !r.visible,
            r.metrics == (RuntimeDiagnostics { fps: None, frame_time_ms: None, entity_count: 0, active_chunks: 0, queued_chunks: 0 }),
    {
        DiagnosticsOverlay { visible: false, metrics: RuntimeDiagnostics::default() }
    }
}

/// Event that toggles diagnostics overlay visibility.
#[derive(Debug, Clone, Copy, PartialEq, Eq)]
pub struct ToggleDiagnosticsOverlay;

/// Visibility after `count` toggles: flipped when the count is odd.
pub open spec fn toggled(visible: bool, count: nat) -> bool {
    if count % 2 == 1 { !visible } else { visible }
}

/// Applies every pending toggle event, each flipping the overlay's visibility.
pub fn toggle_diagnostics_overlay(overlay: &mut DiagnosticsOverlay, event_count: usize)
    ensures
        final(overlay).visible == toggled(old(overlay).visible, event_count as nat),
        final(overlay).metrics == old(overlay).metrics,
{
    let mut i: usize = 0;
    while i < event_count
        invariant
            i <= event_count,
            overlay.visible == toggled(old(overlay).visible, i as nat),
            overlay.metrics == old(overlay).metrics,
        decreases event_count - i,
    {
        overlay.visible = !overlay.visible;
        i = i + 1;
    }
}

/// Records the latest samples: frame rate and frame time as sampled (absent when not
/// measured), the entity count kept when not measured, and mirrors the metrics into
/// the overlay.
pub fn sync_runtime_diagnostics(
    metrics: &mut RuntimeDiagnostics,
    overlay: &mut DiagnosticsOverlay,
    fps: Option<u32>,
    frame_time_ms: Option<u32>,
    entity_count: Option<usize>,
)
    ensures
        final(metrics).fps == fps,
        final(metrics).frame_time_ms == frame_time_ms,
        final(metrics).entity_count == match entity_count {
            Some(count) => count,
            None => old(metrics).entity_count,
        },
        final(metrics).active_chunks == old(metrics).active_chunks,
        final(metrics).queued_chunks == old(metrics).queued_chunks,
        final(overlay).metrics == *final(metrics),
        final(overlay).visible == old(overlay).visible,
{
    metrics.fps = fps;
    metrics.frame_time_ms = frame_time_ms;
    metrics.entity_count = match entity_count {
        Some(count) => count,
        None => metrics.entity_count,
    };
    overlay.metrics = *metrics;
}

/// Toggles compose: applying `a` toggles then `b` toggles is applying `a + b`; in
/// particular two toggles restore the visibility.
pub proof fn law_toggles_compose(visible: bool, a: nat, b: nat)
    ensures
        toggled(toggled(visible, a), b) == toggled(visible, a + b),
        toggled(visible, 2) == visible,
{
}

} // verus!
