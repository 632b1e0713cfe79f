//! Player-centred chunk streaming: which chunks to request and which to despawn.

use vstd::prelude::*;

use crate::game::diagnostics::RuntimeDiagnostics;

verus! {

/// Grid coordinates of a terrain chunk.
#[derive(Debug, Clone, Copy, PartialEq, Eq, Hash, Structural)]
pub struct ChunkCoord {
    pub x: i32,
    pub z: i32,
}

/// Runtime marker for an active streamed chunk.
#[derive(Debug, Clone, Copy, PartialEq, Eq, Structural)]
pub struct ActiveChunk {
    pub coord: ChunkCoord,
}

/// Configuration for player-centered chunk streaming.
#[derive(Debug, Clone, Copy, PartialEq, Eq, Structural)]
pub struct ChunkStreamingConfig {
    pub active_radius_chunks: i32,
}

impl Default for ChunkStreamingConfig {
    fn default() -> (r: Self)
        ensures
            r.active_radius_chunks == 1,
    {
        ChunkStreamingConfig { active_radius_chunks: 1 }
    }
}

/// The chunk lies within `radius` chunks of the centre along both axes.
pub open spec fn within_radius(coord: ChunkCoord, center: ChunkCoord, radius: int) -> bool {
    &&& center.x - radius <= coord.x <= center.x + radius
    &&& center.z - radius <= coord.z <= center.z + radius
}

/// No coordinate occurs twice.
pub open spec fn distinct_coords(coords: Seq<ChunkCoord>) -> bool {
    forall|i: int, j: int| 0 <= i < j < coords.len() ==> #[trigger] coords[i] != #[trigger] coords[j]
}

/// A difference whose absolute value `i32` can compute.
pub open spec fn abs_computable(d: int) -> bool {
    i32::MIN < d <= i32::MAX
}

/// The inputs on which an update computes without overflow: the square's bounds fit
/// in `i32`, and so does each active chunk's distance from the centre along the axes
/// the check reaches.
pub open spec fn streaming_computable(center: ChunkCoord, radius: int, active: Seq<ChunkCoord>) -> bool {
    &&& i32::MIN <= center.x - radius <= i32::MAX
    &&& i32::MIN <= center.x + radius <= i32::MAX
    &&& i32::MIN <= center.z - radius <= i32::MAX
    &&& i32::MIN <= center.z + radius <= i32::MAX
    &&& forall|k: int| 0 <= k < active.len() ==> {
        &&& abs_computable(#[trigger] active[k].x - center.x)
        &&& (if active[k].x - center.x >= 0 { active[k].x - center.x } else { center.x - active[k].x }) <= radius
            ==> abs_computable(active[k].z - center.z)
    }
}

/// Observable chunk streaming state: requested chunks and despawn marks, each a set.
#[derive(Debug, Clone, PartialEq, Eq)]
pub struct ChunkStreaming {
    requested_chunks: Vec<ChunkCoord>,
    despawn_chunks: Vec<ChunkCoord>,
}

impl Default for ChunkStreaming {
    fn default() -> (r: Self)
        ensures
            r.requested_view() == Seq::<ChunkCoord>::empty(),
            r.despawn_view() == Seq::<ChunkCoord>::empty(),
    {
        ChunkStreaming { requested_chunks: Vec::new(), despawn_chunks: Vec::new() }
    }
}

fn contains_coord(coords: &Vec<ChunkCoord>, coord: ChunkCoord) -> (r: bool)
    ensures
        r == coords@.contains(coord),
{
    let mut i: usize = 0;
    while i < coords.len()
        invariant
            i <= coords@.len(),
            forall|j: int| 0 <= j < i ==> coords@[j] != coord,
        decreases coords@.len() - i,
    {
        if coords[i] == coord {
            assert(coords@[i as int] == coord);
            return true;
        }
        i = i + 1;
    }
    false
}

impl ChunkStreaming {
    /// The requested chunks.
    pub closed spec fn requested_view(&self) -> Seq<ChunkCoord> {
        self.requested_chunks@
    }

    /// The chunks marked for despawn.
    pub closed spec fn despawn_view(&self) -> Seq<ChunkCoord> {
        self.despawn_chunks@
    }

    pub fn requested_chunks(&self) -> (r: &[ChunkCoord])
        ensures
            r@ == self.requested_view(),
    {
        self.requested_chunks.as_slice()
    }

    pub fn despawn_chunks(&self) -> (r: &[ChunkCoord])
        ensures
            r@ == self.despawn_view(),
    {
        self.despawn_chunks.as_slice()
    }

    pub fn is_requested(&self, coord: ChunkCoord) -> (r: bool)
        ensures
            r == self.requested_view().contains(coord),
    {
        contains_coord(&self.requested_chunks, coord)
    }

    pub fn is_marked_for_despawn(&self, coord: ChunkCoord) -> (r: bool)
        ensures
            r == self.despawn_view().contains(coord),
    {
        contains_coord(&self.despawn_chunks, coord)
    }
}

/// Whether an update around `center` with `radius` over the `active` chunks computes
/// without overflow (see `streaming_computable`).
pub fn streaming_fits(center: ChunkCoord, radius: i32, active: &[ChunkCoord]) -> (r: bool)
    ensures
        r == streaming_computable(center, radius as int, active@),
{
    let cx = center.x as i64;
    let cz = center.z as i64;
    let rr = radius as i64;
    let lo = i32::MIN as i64;
    let hi = i32::MAX as i64;
    if cx - rr < lo || cx - rr > hi || cx + rr < lo || cx + rr > hi {
        return false;
    }
    if cz - rr < lo || cz - rr > hi || cz + rr < lo || cz + rr > hi {
        return false;
    }
    let mut k: usize = 0;
    while k < active.len()
        invariant
            k <= active@.len(),
            cx == center.x,
            cz == center.z,
            rr == radius,
            lo == i32::MIN,
            hi == i32::MAX,
            forall|t: int| 0 <= t < k ==> {
                &&& abs_computable(#[trigger] active@[t].x - center.x)
                &&& (if active@[t].x - center.x >= 0 { active@[t].x - center.x } else { center.x - active@[t].x }) <= radius
                    ==> abs_computable(active@[t].z - center.z)
            },
        decreases active@.len() - k,
    {
        let a = active[k];
        assert(a == active@[k as int]);
        let dx = a.x as i64 - cx;
        if dx <= lo || dx > hi {
            return false;
        }
        let adx = if dx >= 0 { dx } else { -dx };
        if adx <= rr {
            let dz = a.z as i64 - cz;
            if dz <= lo || dz > hi {
                return false;
            }
        }
        k = k + 1;
    }
    true
}

/// Recomputes streaming around the player's chunk: every chunk within the radius is
/// requested, every active chunk outside it is marked for despawn, and the
/// diagnostics count the active chunks and the queued requests.
pub fn update_chunk_streaming(
    streaming: &mut ChunkStreaming,
    diagnostics: &mut RuntimeDiagnostics,
    center: ChunkCoord,
    radius: i32,
    active: &[ChunkCoord],
)
    requires
        streaming_computable(center, radius as int, active@),
    ensures
        forall|c: ChunkCoord| final(streaming).requested_view().contains(c) <==> within_radius(c, center, radius as int),
        distinct_coords(final(streaming).requested_view()),
        forall|c: ChunkCoord| final(streaming).despawn_view().contains(c)
            <==> (active@.contains(c) && !within_radius(c, center, radius as int)),
        distinct_coords(final(streaming).despawn_view()),
        final(diagnostics).active_chunks == active@.len(),
        final(diagnostics).queued_chunks == final(streaming).requested_view().len(),
        final(diagnostics).fps == old(diagnostics).fps,
        final(diagnostics).frame_time_ms == old(diagnostics).frame_time_ms,
        final(diagnostics).entity_count == old(diagnostics).entity_count,
{
    let mut requested: Vec<ChunkCoord> = Vec::new();
    let low_x = center.x - radius;
    let high_x = center.x + radius;
    let low_z = center.z - radius;
    let high_z = center.z + radius;
    let ghost r = radius as int;
    let mut z: i64 = low_z as i64;
    while z <= high_z as i64
        invariant
            low_x == center.x - r,
            high_x == center.x + r,
            low_z == center.z - r,
            high_z == center.z + r,
            low_z <= z,
            z <= high_z + 1 || z == low_z,
            forall|c: ChunkCoord| requested@.contains(c) <==> (within_radius(c, center, r) && c.z < z),
            distinct_coords(requested@),
        decreases high_z + 1 - z,
    {
        let mut x: i64 = low_x as i64;
        while x <= high_x as i64
            invariant
                low_x == center.x - r,
                high_x == center.x + r,
                low_z == center.z - r,
                high_z == center.z + r,
                low_z <= z <= high_z,
                low_x <= x <= high_x + 1,
                forall|c: ChunkCoord| requested@.contains(c) <==> (within_radius(c, center, r) && (c.z < z || (c.z == z && c.x < x))),
                distinct_coords(requested@),
            decreases high_x + 1 - x,
        {
            let coord = ChunkCoord { x: x as i32, z: z as i32 };
            let ghost before = requested@;
            assert(!before.contains(coord));
            requested.push(coord);
            assert forall|c: ChunkCoord| requested@.contains(c) <==> (before.contains(c) || c == coord) by {
                if requested@.contains(c) {
                    let k = choose|k: int| 0 <= k < requested@.len() && requested@[k] == c;
                    if k < before.len() {
                        assert(before[k] == c);
                    }
                }
                if before.contains(c) {
                    let k = choose|k: int| 0 <= k < before.len() && before[k] == c;
                    assert(requested@[k] == c);
                }
                if c == coord {
                    assert(requested@[before.len() as int] == c);
                }
            }
            assert forall|i: int, j: int| 0 <= i < j < requested@.len() implies #[trigger] requested@[i] != #[trigger] requested@[j] by {
                if j == before.len() {
                    assert(before[i] == requested@[i]);
                    assert(before.contains(requested@[i]));
                } else {
                    assert(before[i] != before[j]);
                }
            }
            x = x + 1;
        }
        z = z + 1;
    }
    let mut despawn: Vec<ChunkCoord> = Vec::new();
    let mut k: usize = 0;
    while k < active.len()
        invariant
            k <= active@.len(),
            r == radius as int,
            streaming_computable(center, r, active@),
            forall|c: ChunkCoord| despawn@.contains(c) <==> (active@.take(k as int).contains(c) && !within_radius(c, center, r)),
            distinct_coords(despawn@),
        decreases active@.len() - k,
    {
        let a = active[k];
        assert(a == active@[k as int]);
        assert(abs_computable(active@[k as int].x - center.x));
        let dx = a.x - center.x;
        let outside = if (if dx >= 0 { dx } else { -dx }) > radius {
            true
        } else {
            assert(abs_computable(active@[k as int].z - center.z));
            let dz = a.z - center.z;
            (if dz >= 0 { dz } else { -dz }) > radius
        };
        assert(outside == !within_radius(a, center, r));
        let ghost before = despawn@;
        assert(forall|c: ChunkCoord| before.contains(c) <==> (active@.take(k as int).contains(c) && !within_radius(c, center, r)));
        let present = if outside { contains_coord(&despawn, a) } else { false };
        if outside && !present {
            despawn.push(a);
            assert forall|c: ChunkCoord| despawn@.contains(c) <==> (before.contains(c) || c == a) by {
                if despawn@.contains(c) {
                    let t = choose|t: int| 0 <= t < despawn@.len() && despawn@[t] == c;
                    if t < before.len() {
                        assert(before[t] == c);
                    }
                }
                if before.contains(c) {
                    let t = choose|t: int| 0 <= t < before.len() && before[t] == c;
                    assert(despawn@[t] == c);
                }
                if c == a {
                    assert(despawn@[before.len() as int] == c);
                }
            }
            assert forall|i: int, j: int| 0 <= i < j < despawn@.len() implies #[trigger] despawn@[i] != #[trigger] despawn@[j] by {
                if j == before.len() {
                    assert(before[i] == despawn@[i]);
                    assert(before.contains(despawn@[i]));
                } else {
                    assert(before[i] != before[j]);
                }
            }
        }
        let ghost seen = active@.take(k as int);
        let ghost seen_next = active@.take(k + 1);
        assert(seen_next =~= seen.push(a));
        assert forall|c: ChunkCoord| seen_next.contains(c) <==> (seen.contains(c) || c == a) by {
            if seen_next.contains(c) {
                let t = choose|t: int| 0 <= t < seen_next.len() && #[trigger] seen_next[t] == c;
                if t < k {
                    assert(seen[t] == c);
                }
            }
            if seen.contains(c) {
                let t = choose|t: int| 0 <= t < seen.len() && #[trigger] seen[t] == c;
                assert(seen_next[t] == c);
            }
            if c == a {
                assert(seen_next[k as int] == c);
            }
        }
        assert forall|c: ChunkCoord| despawn@.contains(c) <==> (before.contains(c) || (outside && c == a)) by {}
        assert forall|c: ChunkCoord| despawn@.contains(c) <==> (seen_next.contains(c) && !within_radius(c, center, r)) by {
            assert(before.contains(c) <==> (seen.contains(c) && !within_radius(c, center, r)));
            assert(seen_next.contains(c) <==> (seen.contains(c) || c == a));
        }
        k = k + 1;
    }
    assert(active@.take(active@.len() as int) =~= active@);
    streaming.requested_chunks = requested;
    streaming.despawn_chunks = despawn;
    diagnostics.active_chunks = active.len();
    diagnostics.queued_chunks = streaming.requested_chunks.len();
}

} // verus!
