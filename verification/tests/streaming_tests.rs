use alchimera::game::diagnostics::RuntimeDiagnostics;
use alchimera::game::streaming::{
    streaming_fits, update_chunk_streaming, ActiveChunk, ChunkCoord, ChunkStreaming, ChunkStreamingConfig,
};

fn coord(x: i32, z: i32) -> ChunkCoord {
    ChunkCoord { x, z }
}

fn stream(center: ChunkCoord, active: &[ChunkCoord]) -> (ChunkStreaming, RuntimeDiagnostics) {
    let mut streaming = ChunkStreaming::default();
    let mut diagnostics = RuntimeDiagnostics::default();
    let radius = ChunkStreamingConfig::default().active_radius_chunks;
    assert!(streaming_fits(center, radius, active));
    update_chunk_streaming(&mut streaming, &mut diagnostics, center, radius, active);
    (streaming, diagnostics)
}

#[test]
fn player_at_origin_requests_origin_and_neighbor_chunks() {
    let (streaming, _) = stream(coord(0, 0), &[]);

    assert!(streaming.is_requested(coord(0, 0)));
    assert!(streaming.is_requested(coord(1, 0)));
    assert!(streaming.is_requested(coord(-1, 0)));
    assert!(streaming.is_requested(coord(0, 1)));
    assert!(streaming.is_requested(coord(0, -1)));
    assert_eq!(streaming.requested_chunks().len(), 9);
}

#[test]
fn moving_player_requests_new_chunk() {
    // A player at x = 70 stands in chunk (1, 0).
    let (streaming, _) = stream(coord(1, 0), &[]);

    assert!(streaming.is_requested(coord(1, 0)));
    assert!(streaming.is_requested(coord(2, 0)));
    assert!(!streaming.is_requested(coord(-1, 0)));
}

#[test]
fn chunks_outside_radius_are_marked_for_despawn() {
    let active = ActiveChunk { coord: coord(4, 0) };
    let (streaming, _) = stream(coord(0, 0), &[active.coord]);

    assert!(streaming.is_marked_for_despawn(coord(4, 0)));
}

#[test]
fn chunks_inside_radius_stay_and_duplicates_are_marked_once() {
    let active = [coord(1, 1), coord(0, 3), coord(0, 3), coord(-1, 0)];
    let (streaming, diagnostics) = stream(coord(0, 0), &active);

    assert!(!streaming.is_marked_for_despawn(coord(1, 1)));
    assert!(!streaming.is_marked_for_despawn(coord(-1, 0)));
    assert!(streaming.is_marked_for_despawn(coord(0, 3)));
    assert_eq!(streaming.despawn_chunks().len(), 1);
    assert_eq!(diagnostics.active_chunks, 4);
    assert_eq!(diagnostics.queued_chunks, 9);
}

#[test]
fn larger_radius_requests_the_whole_square() {
    let mut streaming = ChunkStreaming::default();
    let mut diagnostics = RuntimeDiagnostics::default();
    update_chunk_streaming(&mut streaming, &mut diagnostics, coord(-5, 7), 2, &[]);

    assert_eq!(streaming.requested_chunks().len(), 25);
    assert!(streaming.is_requested(coord(-7, 5)));
    assert!(streaming.is_requested(coord(-3, 9)));
    assert!(!streaming.is_requested(coord(-8, 7)));
}

#[test]
fn streaming_near_the_i32_edge_is_refused() {
    assert!(!streaming_fits(coord(i32::MAX, 0), 1, &[]));
    assert!(!streaming_fits(coord(0, 0), 1, &[coord(i32::MIN, 0)]));
    assert!(streaming_fits(coord(i32::MAX - 1, 0), 1, &[coord(0, 5)]));
}
