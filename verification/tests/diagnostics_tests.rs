use alchimera::game::diagnostics::{
    sync_runtime_diagnostics, toggle_diagnostics_overlay, DiagnosticsOverlay, RuntimeDiagnostics,
};
use alchimera::game::runtime_metrics::{headless_frame_count, headless_report};

#[test]
fn diagnostics_plugin_inserts_metrics_resource() {
    let overlay = DiagnosticsOverlay::default();
    let metrics = RuntimeDiagnostics::default();

    assert!(!overlay.visible);
    assert_eq!(metrics, RuntimeDiagnostics::default());
    assert_eq!(overlay.metrics, RuntimeDiagnostics::default());
}

#[test]
fn toggle_event_changes_overlay_visibility() {
    let mut overlay = DiagnosticsOverlay::default();

    toggle_diagnostics_overlay(&mut overlay, 1);
    assert!(overlay.visible);

    toggle_diagnostics_overlay(&mut overlay, 1);
    assert!(!overlay.visible);
}

#[test]
fn every_toggle_event_is_applied() {
    let mut overlay = DiagnosticsOverlay::default();

    toggle_diagnostics_overlay(&mut overlay, 2);

    assert!(!overlay.visible);
}

#[test]
fn sync_keeps_entity_count_when_not_sampled() {
    let mut metrics = RuntimeDiagnostics { entity_count: 9, active_chunks: 2, ..RuntimeDiagnostics::default() };
    let mut overlay = DiagnosticsOverlay::default();

    sync_runtime_diagnostics(&mut metrics, &mut overlay, Some(60), Some(17), None);

    assert_eq!(metrics.fps, Some(60));
    assert_eq!(metrics.frame_time_ms, Some(17));
    assert_eq!(metrics.entity_count, 9);
    assert_eq!(overlay.metrics, metrics);

    sync_runtime_diagnostics(&mut metrics, &mut overlay, None, None, Some(31));
    assert_eq!(overlay.metrics.entity_count, 31);
    assert_eq!(overlay.metrics.fps, None);
}

#[test]
fn headless_metrics_treats_zero_frames_as_one_sample() {
    assert_eq!(headless_frame_count(0), 1);
    assert_eq!(headless_frame_count(3), 3);
    let report = headless_report(1, 0, RuntimeDiagnostics::default(), 4);
    assert_eq!(report.frames, 1);
    assert!(report.elapsed_micros > 0);
    assert!(report.entity_count >= report.metrics.entity_count);
}

#[test]
fn headless_metrics_runs_requested_frame_count() {
    let frames = headless_frame_count(3);
    let metrics = RuntimeDiagnostics { entity_count: 2, ..RuntimeDiagnostics::default() };
    let report = headless_report(frames, 250, metrics, 5);

    assert_eq!(report.frames, 3);
    assert!(report.elapsed_micros > 0);
    assert_eq!(report.elapsed_micros, 250);
    assert!(report.entity_count >= report.metrics.entity_count);
}
