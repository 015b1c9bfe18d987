use vstd::prelude::*;
use crate::codec::CodecError;
use crate::consts::CHUNK_VOLUME;
use crate::player::ChunkLocation;
use crate::types::block::Block;
use crate::types::chunk::{ChunkData, ChunkPosition, PositionSet};

verus! {

/// How many mesh jobs are started in one tick at most.
pub const MAX_STARTED_MESH_BUILD_TASKS_PER_TICK: usize = 10;

/// How many finished mesh jobs are taken in one tick at most.
pub const MAX_PROCESSED_FINISHED_BUILD_TASKS_PER_TICK: usize = usize::MAX;

/// Where a chunk stands on the client, from the request to the finished mesh.
#[derive(Debug, Clone, Copy, PartialEq, Eq, Structural)]
pub enum ChunkStage {
    /// Asked for; nothing has arrived.
    Requested,
    /// A payload has arrived and is being decompressed.
    Decompressing,
    /// The blocks are there; no mesh job has been started for them.
    HasData,
    /// A mesh job is under way.
    MeshQueued,
    /// The mesh is built.
    MeshReady,
}

/// Where the mesh of a chunk stands.
#[derive(Debug, Clone, Copy, PartialEq, Eq, Structural)]
#[non_exhaustive]
pub enum MeshStage {
    Queued,
    Ready,
}

impl ChunkStage {
    /// Where the chunk's mesh stands, once a mesh job has been started.
    pub fn mesh_stage(self) -> (mesh: Option<MeshStage>)
        ensures
            mesh == (match self {
                ChunkStage::MeshQueued => Some(MeshStage::Queued),
                ChunkStage::MeshReady => Some(MeshStage::Ready),
                _ => None,
            }),
    {
        match self {
            ChunkStage::MeshQueued => Some(MeshStage::Queued),
            ChunkStage::MeshReady => Some(MeshStage::Ready),
            _ => None,
        }
    }
}

/// The distance between two numbers.
pub open spec fn gap(a: int, b: int) -> int {
    if a >= b {
        a - b
    } else {
        b - a
    }
}

/// How far the chunk at `pos` is from the chunk `loc`: the larger of the distances along
/// the two axes.
pub open spec fn spec_chunk_distance(pos: ChunkPosition, loc: ChunkLocation) -> int {
    if gap(pos.0 as int, loc.0 as int) >= gap(pos.1 as int, loc.1 as int) {
        gap(pos.0 as int, loc.0 as int)
    } else {
        gap(pos.1 as int, loc.1 as int)
    }
}

/// How far the chunk at `pos` is from the chunk `loc`: the larger of the distances along
/// the two axes.
pub fn chunk_distance(pos: &ChunkPosition, loc: &ChunkLocation) -> (distance: u64)
    ensures
        distance == spec_chunk_distance(*pos, *loc),
{
    let dx: i128 = pos.0 as i128 - loc.0 as i128;
    let dy: i128 = pos.1 as i128 - loc.1 as i128;
    let ax: i128 = if dx >= 0 {
        dx
    } else {
        -dx
    };
    let ay: i128 = if dy >= 0 {
        dy
    } else {
        -dy
    };
    if ax >= ay {
        ax as u64
    } else {
        ay as u64
    }
}

/// Whether the chunk at `pos` is within `view_distance` of the chunk `loc`.
pub open spec fn in_view(pos: ChunkPosition, loc: ChunkLocation, view_distance: u32) -> bool {
    spec_chunk_distance(pos, loc) <= view_distance
}

/// Where the mesh of the chunk at `pos` is put: the chunk's place times the chunk size,
/// along x and along z.
pub fn chunk_origin(pos: ChunkPosition) -> (origin: (i128, i128))
    ensures
        origin.0 == pos.0 * 16,
        origin.1 == pos.1 * 16,
{
    ((pos.0 as i128) * 16, (pos.1 as i128) * 16)
}

/// What the client knows of one chunk, as plain values.
pub struct ChunkView {
    pub position: ChunkPosition,
    pub stage: ChunkStage,
    /// The blocks, once they have been decompressed.
    pub data: Option<Seq<Block>>,
    /// The ticket of the decompression job whose result is awaited.
    pub decode_ticket: Option<u64>,
    /// The ticket of the mesh job whose result is awaited.
    pub mesh_ticket: Option<u64>,
}

impl ChunkView {
    /// A chunk that has just been asked for.
    pub open spec fn requested(position: ChunkPosition) -> ChunkView {
        ChunkView {
            position,
            stage: ChunkStage::Requested,
            data: None,
            decode_ticket: None,
            mesh_ticket: None,
        }
    }

    /// The chunk after a payload has arrived for it and a decompression job with the
    /// ticket `ticket` has been started: results of earlier jobs are no longer awaited.
    pub open spec fn receiving(self, ticket: u64) -> ChunkView {
        ChunkView {
            stage: if self.stage is Requested {
                ChunkStage::Decompressing
            } else {
                self.stage
            },
            decode_ticket: Some(ticket),
            ..self
        }
    }

    /// The chunk after the awaited decompression job has given `blocks`: they take the
    /// place of what was there, and a mesh is to be built for them.
    pub open spec fn decoded(self, blocks: Seq<Block>) -> ChunkView {
        ChunkView {
            stage: ChunkStage::HasData,
            data: Some(blocks),
            decode_ticket: None,
            mesh_ticket: None,
            ..self
        }
    }

    /// The chunk after the awaited decompression job has failed: what was there stays, and
    /// a chunk without blocks is to be asked for again.
    pub open spec fn decode_failed(self) -> ChunkView {
        ChunkView {
            stage: if self.data is None {
                ChunkStage::Requested
            } else {
                self.stage
            },
            decode_ticket: None,
            ..self
        }
    }

    /// The chunk after a mesh job with the ticket `ticket` has been started for it.
    pub open spec fn queued(self, ticket: u64) -> ChunkView {
        ChunkView { stage: ChunkStage::MeshQueued, mesh_ticket: Some(ticket), ..self }
    }

    /// The chunk after the awaited mesh job has ended.
    pub open spec fn meshed(self) -> ChunkView {
        ChunkView { stage: ChunkStage::MeshReady, mesh_ticket: None, ..self }
    }

    /// What holds of every chunk of a world whose next ticket is `next_ticket`: the blocks
    /// are there from `HasData` on, and whole; a result is awaited where the stage says so;
    /// and every ticket that is awaited has been given out.
    pub open spec fn wf(self, next_ticket: u64) -> bool {
        &&& self.data is None <==> self.stage is Requested || self.stage is Decompressing
        &&& self.data matches Some(blocks) ==> blocks.len() == CHUNK_VOLUME as nat
        &&& self.stage is Decompressing ==> self.decode_ticket is Some
        &&& self.stage is Requested ==> self.decode_ticket is None
        &&& self.mesh_ticket is Some <==> self.stage is MeshQueued
        &&& self.decode_ticket matches Some(ticket) ==> ticket < next_ticket
        &&& self.mesh_ticket matches Some(ticket) ==> ticket < next_ticket
    }
}

/// What the client knows of the world, as plain values.
pub struct WorldView {
    /// The chunks, in the order in which they were first asked for.
    pub chunks: Seq<ChunkView>,
    pub view_distance: u32,
    /// The ticket that the next job gets.
    pub next_ticket: u64,
}

/// Whether one of `chunks` is at `pos`.
pub open spec fn has_chunk(chunks: Seq<ChunkView>, pos: ChunkPosition) -> bool {
    exists|i: int| 0 <= i < chunks.len() && (#[trigger] chunks[i]).position == pos
}

/// The place in `chunks` of the chunk at `pos`.
pub open spec fn chunk_index(chunks: Seq<ChunkView>, pos: ChunkPosition) -> int {
    choose|i: int| 0 <= i < chunks.len() && (#[trigger] chunks[i]).position == pos
}

/// No two of `chunks` are at the same position.
pub open spec fn distinct_positions(chunks: Seq<ChunkView>) -> bool {
    forall|i: int, j: int|
        0 <= i < chunks.len() && 0 <= j < chunks.len() && i != j ==> (#[trigger] chunks[i]).position
            != (#[trigger] chunks[j]).position
}

impl WorldView {
    pub open spec fn wf(self) -> bool {
        &&& distinct_positions(self.chunks)
        &&& forall|i: int|
            0 <= i < self.chunks.len() ==> (#[trigger] self.chunks[i]).wf(self.next_ticket)
    }
}

/// Of the first `n` of `chunks`, those within `view_distance` of `player`, in their order.
pub open spec fn kept_chunks(
    chunks: Seq<ChunkView>,
    player: ChunkLocation,
    view_distance: u32,
    n: int,
) -> Seq<ChunkView>
    decreases n,
{
    if n <= 0 {
        Seq::empty()
    } else {
        let earlier = kept_chunks(chunks, player, view_distance, n - 1);
        if in_view(chunks[n - 1].position, player, view_distance) {
            earlier.push(chunks[n - 1])
        } else {
            earlier
        }
    }
}

/// The positions of those of the first `n` of `chunks` that are farther than
/// `view_distance` from `player`, in their order.
pub open spec fn dropped_chunks(
    chunks: Seq<ChunkView>,
    player: ChunkLocation,
    view_distance: u32,
    n: int,
) -> Seq<ChunkPosition>
    decreases n,
{
    if n <= 0 {
        Seq::empty()
    } else {
        let earlier = dropped_chunks(chunks, player, view_distance, n - 1);
        if in_view(chunks[n - 1].position, player, view_distance) {
            earlier
        } else {
            earlier.push(chunks[n - 1].position)
        }
    }
}

/// Whether the chunk at `pos` is to be asked for: it is not among `chunks`, or nothing has
/// arrived for it yet.
pub open spec fn wants_request(chunks: Seq<ChunkView>, pos: ChunkPosition) -> bool {
    !has_chunk(chunks, pos) || chunks[chunk_index(chunks, pos)].stage is Requested
}

/// Whether a scan picks the position `pos`: a scan for missing chunks picks those that are
/// not among `chunks`, a scan for requests those that are to be asked for.
pub open spec fn scan_picks(chunks: Seq<ChunkView>, pos: ChunkPosition, missing: bool) -> bool {
    if missing {
        !has_chunk(chunks, pos)
    } else {
        wants_request(chunks, pos)
    }
}

/// The positions `(x, y0)`, `(x, y0 + 1)`, and so on up to `n` of them, that the scan picks.
pub open spec fn row_scan(chunks: Seq<ChunkView>, x: int, y0: int, n: int, missing: bool) -> Seq<
    ChunkPosition,
>
    decreases n,
{
    if n <= 0 {
        Seq::empty()
    } else {
        let earlier = row_scan(chunks, x, y0, n - 1, missing);
        let pos = ChunkPosition(x as i64, (y0 + n - 1) as i64);
        if scan_picks(chunks, pos, missing) {
            earlier.push(pos)
        } else {
            earlier
        }
    }
}

/// The positions that the scan picks in `rows` rows of `cols` positions each, row after
/// row: the rows are `x0`, `x0 + 1` and so on, and each starts at `y0`.
pub open spec fn square_scan(
    chunks: Seq<ChunkView>,
    x0: int,
    y0: int,
    rows: int,
    cols: int,
    missing: bool,
) -> Seq<ChunkPosition>
    decreases rows,
{
    if rows <= 0 {
        Seq::empty()
    } else {
        square_scan(chunks, x0, y0, rows - 1, cols, missing) + row_scan(
            chunks,
            x0 + rows - 1,
            y0,
            cols,
            missing,
        )
    }
}

/// The positions to ask for when the player stands in `player`: every position of the
/// square around the player that is to be asked for, row after row.
pub open spec fn view_requests(chunks: Seq<ChunkView>, player: ChunkLocation, view_distance: u32) -> Seq<
    ChunkPosition,
> {
    square_scan(
        chunks,
        player.0 - view_distance,
        player.1 - view_distance,
        2 * view_distance + 1,
        2 * view_distance + 1,
        false,
    )
}

/// The positions of the square around `player` that are not among `chunks`, row after row.
pub open spec fn view_missing(chunks: Seq<ChunkView>, player: ChunkLocation, view_distance: u32) -> Seq<
    ChunkPosition,
> {
    square_scan(
        chunks,
        player.0 - view_distance,
        player.1 - view_distance,
        2 * view_distance + 1,
        2 * view_distance + 1,
        true,
    )
}

/// A chunk that has just been asked for, for each of `positions`.
pub open spec fn requested_chunks(positions: Seq<ChunkPosition>) -> Seq<ChunkView> {
    Seq::new(positions.len(), |i: int| ChunkView::requested(positions[i]))
}

/// The chunks of the first `n` of `chunks` that get a mesh job, by their places: those
/// that have blocks and no mesh job yet, as long as fewer than `limit` jobs were given out
/// and a ticket is left.
pub open spec fn mesh_dispatch(chunks: Seq<ChunkView>, next_ticket: u64, limit: int, n: int) -> Seq<
    int,
>
    decreases n,
{
    if n <= 0 {
        Seq::empty()
    } else {
        let earlier = mesh_dispatch(chunks, next_ticket, limit, n - 1);
        if chunks[n - 1].stage is HasData && earlier.len() < limit && next_ticket + earlier.len()
            < u64::MAX {
            earlier.push(n - 1)
        } else {
            earlier
        }
    }
}

/// A chunk is kept exactly when it is within the view distance, and dropped otherwise.
pub proof fn lemma_kept_and_dropped(
    chunks: Seq<ChunkView>,
    player: ChunkLocation,
    view_distance: u32,
    n: int,
)
    requires
        0 <= n <= chunks.len(),
    ensures
        forall|c: ChunkView|
            kept_chunks(chunks, player, view_distance, n).contains(c) <==> (exists|i: int|
                0 <= i < n && chunks[i] == c && in_view(c.position, player, view_distance)),
        forall|pos: ChunkPosition|
            dropped_chunks(chunks, player, view_distance, n).contains(pos) <==> (exists|i: int|
                0 <= i < n && (#[trigger] chunks[i]).position == pos && !in_view(
                    pos,
                    player,
                    view_distance,
                )),
        kept_chunks(chunks, player, view_distance, n).len() + dropped_chunks(
            chunks,
            player,
            view_distance,
            n,
        ).len() == n,
        distinct_positions(chunks) ==> distinct_positions(
            kept_chunks(chunks, player, view_distance, n),
        ),
    decreases n,
{
    if n > 0 {
        lemma_kept_and_dropped(chunks, player, view_distance, n - 1);
        let kept_before = kept_chunks(chunks, player, view_distance, n - 1);
        let kept = kept_chunks(chunks, player, view_distance, n);
        let dropped_before = dropped_chunks(chunks, player, view_distance, n - 1);
        let dropped = dropped_chunks(chunks, player, view_distance, n);
        assert forall|c: ChunkView| kept.contains(c) <==> (exists|i: int|
            0 <= i < n && chunks[i] == c && in_view(c.position, player, view_distance)) by {
            if kept.contains(c) {
                let k = choose|k: int| 0 <= k < kept.len() && kept[k] == c;
                if k < kept_before.len() {
                    assert(kept_before[k] == c);
                    assert(kept_before.contains(c));
                } else {
                    assert(chunks[n - 1] == c);
                }
            }
            if exists|i: int|
                0 <= i < n && chunks[i] == c && in_view(c.position, player, view_distance) {
                let i = choose|i: int|
                    0 <= i < n && chunks[i] == c && in_view(c.position, player, view_distance);
                if i < n - 1 {
                    assert(kept_before.contains(c));
                    let k = choose|k: int| 0 <= k < kept_before.len() && kept_before[k] == c;
                    assert(kept[k] == c);
                } else {
                    assert(kept[kept.len() - 1] == c);
                }
            }
        }
        assert forall|pos: ChunkPosition| dropped.contains(pos) <==> (exists|i: int|
            0 <= i < n && (#[trigger] chunks[i]).position == pos && !in_view(
                pos,
                player,
                view_distance,
            )) by {
            if dropped.contains(pos) {
                let k = choose|k: int| 0 <= k < dropped.len() && dropped[k] == pos;
                if k < dropped_before.len() {
                    assert(dropped_before[k] == pos);
                    assert(dropped_before.contains(pos));
                } else {
                    assert(chunks[n - 1].position == pos);
                }
            }
            if exists|i: int|
                0 <= i < n && (#[trigger] chunks[i]).position == pos && !in_view(
                    pos,
                    player,
                    view_distance,
                ) {
                let i = choose|i: int|
                    0 <= i < n && (#[trigger] chunks[i]).position == pos && !in_view(
                        pos,
                        player,
                        view_distance,
                    );
                if i < n - 1 {
                    assert(dropped_before.contains(pos));
                    let k = choose|k: int|
                        0 <= k < dropped_before.len() && dropped_before[k] == pos;
                    assert(dropped[k] == pos);
                } else {
                    assert(dropped[dropped.len() - 1] == pos);
                }
            }
        }
        if distinct_positions(chunks) {
            assert forall|a: int, b: int|
                0 <= a < kept.len() && 0 <= b < kept.len() && a != b implies (
            #[trigger] kept[a]).position != (#[trigger] kept[b]).position by {
                lemma_kept_source(chunks, player, view_distance, n, a);
                lemma_kept_source(chunks, player, view_distance, n, b);
            }
        }
    }
}

/// The place from which the chunk at place `k` of the kept ones comes.
spec fn kept_source(
    chunks: Seq<ChunkView>,
    player: ChunkLocation,
    view_distance: u32,
    n: int,
    k: int,
) -> int
    decreases n,
{
    if n <= 0 {
        0
    } else if in_view(chunks[n - 1].position, player, view_distance) && k == kept_chunks(
        chunks,
        player,
        view_distance,
        n - 1,
    ).len() {
        n - 1
    } else {
        kept_source(chunks, player, view_distance, n - 1, k)
    }
}

/// The chunks that are kept stand in the order in which they stood: the one at place `k`
/// of the kept ones comes from a place that grows with `k`.
proof fn lemma_kept_source(
    chunks: Seq<ChunkView>,
    player: ChunkLocation,
    view_distance: u32,
    n: int,
    k: int,
)
    requires
        0 <= n <= chunks.len(),
        0 <= k < kept_chunks(chunks, player, view_distance, n).len(),
    ensures
        0 <= kept_source(chunks, player, view_distance, n, k) < n,
        kept_chunks(chunks, player, view_distance, n)[k] == chunks[kept_source(
            chunks,
            player,
            view_distance,
            n,
            k,
        )],
        forall|j: int|
            0 <= j < k ==> kept_source(chunks, player, view_distance, n, j) < kept_source(
                chunks,
                player,
                view_distance,
                n,
                k,
            ),
    decreases n,
{
    if n > 0 {
        let before = kept_chunks(chunks, player, view_distance, n - 1);
        if in_view(chunks[n - 1].position, player, view_distance) && k == before.len() {
            assert forall|j: int| 0 <= j < k implies kept_source(
                chunks,
                player,
                view_distance,
                n,
                j,
            ) < n - 1 by {
                lemma_kept_source(chunks, player, view_distance, n - 1, j);
            }
        } else {
            lemma_kept_source(chunks, player, view_distance, n - 1, k);
            assert forall|j: int| 0 <= j < k implies kept_source(
                chunks,
                player,
                view_distance,
                n,
                j,
            ) < kept_source(chunks, player, view_distance, n, k) by {
                lemma_kept_source(chunks, player, view_distance, n - 1, j);
            }
        }
    }
}

/// A row scan picks exactly the positions of the row that the scan picks, each once.
pub proof fn lemma_row_scan(chunks: Seq<ChunkView>, x: int, y0: int, n: int, missing: bool)
    requires
        0 <= n,
        i64::MIN <= x <= i64::MAX,
        i64::MIN <= y0,
        y0 + n - 1 <= i64::MAX,
    ensures
        forall|pos: ChunkPosition|
            #![trigger row_scan(chunks, x, y0, n, missing).contains(pos)]
            row_scan(chunks, x, y0, n, missing).contains(pos) <==> (pos.0 == x && y0 <= pos.1 < y0
                + n && scan_picks(chunks, pos, missing)),
        row_scan(chunks, x, y0, n, missing).no_duplicates(),
        row_scan(chunks, x, y0, n, missing).len() <= n,
        (forall|pos: ChunkPosition| pos.0 == x && y0 <= pos.1 < y0 + n ==> scan_picks(chunks, pos, missing))
            ==> row_scan(chunks, x, y0, n, missing).len() == n,
    decreases n,
{
    if n > 0 {
        lemma_row_scan(chunks, x, y0, n - 1, missing);
        let earlier = row_scan(chunks, x, y0, n - 1, missing);
        let row = row_scan(chunks, x, y0, n, missing);
        let last = ChunkPosition(x as i64, (y0 + n - 1) as i64);
        assert(last.0 == x && last.1 == y0 + n - 1);
        assert forall|pos: ChunkPosition| #![trigger row.contains(pos)] row.contains(pos) <==> (pos.0 == x && y0 <= pos.1 < y0
            + n && scan_picks(chunks, pos, missing)) by {
            if row.contains(pos) {
                let k = choose|k: int| 0 <= k < row.len() && row[k] == pos;
                if k < earlier.len() {
                    assert(earlier[k] == pos);
                    assert(earlier.contains(pos));
                } else {
                    assert(scan_picks(chunks, last, missing));
                    assert(row == earlier.push(last));
                    assert(pos == last);
                }
            }
            if pos.0 == x && y0 <= pos.1 < y0 + n && scan_picks(chunks, pos, missing) {
                if pos.1 < y0 + n - 1 {
                    assert(earlier.contains(pos));
                    let k = choose|k: int| 0 <= k < earlier.len() && earlier[k] == pos;
                    assert(row[k] == pos);
                } else {
                    assert(pos == last);
                    assert(row[row.len() - 1] == pos);
                }
            }
        }
        assert(row.no_duplicates()) by {
            if scan_picks(chunks, last, missing) {
                assert(!earlier.contains(last));
                assert forall|a: int, b: int|
                    0 <= a < row.len() && 0 <= b < row.len() && a != b implies row[a]
                    != row[b] by {
                    if a == earlier.len() {
                        assert(earlier[b] == row[b]);
                        assert(earlier.contains(row[b]));
                    } else if b == earlier.len() {
                        assert(earlier[a] == row[a]);
                        assert(earlier.contains(row[a]));
                    } else {
                        assert(earlier[a] == row[a]);
                        assert(earlier[b] == row[b]);
                    }
                }
            }
        }
    }
}

/// A scan of a square picks exactly the positions of the square that the scan picks, each
/// once; where it picks all of them, that is as many as the square has.
pub proof fn lemma_square_scan(
    chunks: Seq<ChunkView>,
    x0: int,
    y0: int,
    rows: int,
    cols: int,
    missing: bool,
)
    requires
        0 <= rows,
        0 <= cols,
        i64::MIN <= x0,
        x0 + rows - 1 <= i64::MAX,
        i64::MIN <= y0,
        y0 + cols - 1 <= i64::MAX,
    ensures
        forall|pos: ChunkPosition|
            #![trigger square_scan(chunks, x0, y0, rows, cols, missing).contains(pos)]
            square_scan(chunks, x0, y0, rows, cols, missing).contains(pos) <==> (x0 <= pos.0 < x0
                + rows && y0 <= pos.1 < y0 + cols && scan_picks(chunks, pos, missing)),
        square_scan(chunks, x0, y0, rows, cols, missing).no_duplicates(),
        (forall|pos: ChunkPosition|
            x0 <= pos.0 < x0 + rows && y0 <= pos.1 < y0 + cols ==> scan_picks(chunks, pos, missing))
            ==> square_scan(chunks, x0, y0, rows, cols, missing).len() == rows * cols,
    decreases rows,
{
    if rows > 0 {
        lemma_square_scan(chunks, x0, y0, rows - 1, cols, missing);
        lemma_row_scan(chunks, x0 + rows - 1, y0, cols, missing);
        let earlier = square_scan(chunks, x0, y0, rows - 1, cols, missing);
        let row = row_scan(chunks, x0 + rows - 1, y0, cols, missing);
        let square = square_scan(chunks, x0, y0, rows, cols, missing);
        assert(square == earlier + row);
        assert forall|pos: ChunkPosition| #![trigger square.contains(pos)] square.contains(pos) <==> (x0 <= pos.0 < x0 + rows
            && y0 <= pos.1 < y0 + cols && scan_picks(chunks, pos, missing)) by {
            if square.contains(pos) {
                let k = choose|k: int| 0 <= k < square.len() && square[k] == pos;
                if k < earlier.len() {
                    assert(earlier[k] == pos);
                    assert(earlier.contains(pos));
                } else {
                    assert(row[k - earlier.len()] == pos);
                    assert(row.contains(pos));
                }
            }
            if x0 <= pos.0 < x0 + rows && y0 <= pos.1 < y0 + cols && scan_picks(
                chunks,
                pos,
                missing,
            ) {
                if pos.0 < x0 + rows - 1 {
                    assert(earlier.contains(pos));
                    let k = choose|k: int| 0 <= k < earlier.len() && earlier[k] == pos;
                    assert(square[k] == pos);
                } else {
                    assert(row.contains(pos));
                    let k = choose|k: int| 0 <= k < row.len() && row[k] == pos;
                    assert(square[earlier.len() + k] == pos);
                }
            }
        }
        assert forall|a: int, b: int|
            0 <= a < square.len() && 0 <= b < square.len() && a != b implies square[a]
            != square[b] by {
            if a < earlier.len() {
                assert(earlier[a] == square[a]);
                assert(earlier.contains(square[a]));
            } else {
                assert(row[a - earlier.len()] == square[a]);
                assert(row.contains(square[a]));
            }
            if b < earlier.len() {
                assert(earlier[b] == square[b]);
                assert(earlier.contains(square[b]));
            } else {
                assert(row[b - earlier.len()] == square[b]);
                assert(row.contains(square[b]));
            }
        }
        if forall|pos: ChunkPosition|
            x0 <= pos.0 < x0 + rows && y0 <= pos.1 < y0 + cols ==> scan_picks(
                chunks,
                pos,
                missing,
            ) {
            assert(earlier.len() == (rows - 1) * cols);
            assert(row.len() == cols);
            assert(rows * cols == (rows - 1) * cols + cols) by (nonlinear_arith);
        }
    } else {
        assert(rows * cols == 0) by (nonlinear_arith)
            requires
                rows == 0,
        ;
    }
}

/// The positions that are asked for are exactly those within the view distance of the
/// player that are to be asked for, each once; where all of them are to be asked for,
/// they are as many as the square around the player has.
pub proof fn lemma_view_requests(chunks: Seq<ChunkView>, player: ChunkLocation, view_distance: u32)
    requires
        i64::MIN <= player.0 - view_distance,
        player.0 + view_distance <= i64::MAX,
        i64::MIN <= player.1 - view_distance,
        player.1 + view_distance <= i64::MAX,
    ensures
        forall|pos: ChunkPosition|
            #![trigger view_requests(chunks, player, view_distance).contains(pos)]
            view_requests(chunks, player, view_distance).contains(pos) <==> (in_view(
                pos,
                player,
                view_distance,
            ) && wants_request(chunks, pos)),
        view_requests(chunks, player, view_distance).no_duplicates(),
        (forall|pos: ChunkPosition|
            in_view(pos, player, view_distance) ==> wants_request(chunks, pos)) ==> view_requests(
            chunks,
            player,
            view_distance,
        ).len() == (2 * view_distance + 1) * (2 * view_distance + 1),
{
    let side = 2 * view_distance + 1;
    lemma_square_scan(
        chunks,
        player.0 - view_distance,
        player.1 - view_distance,
        side,
        side,
        false,
    );
}

/// One chunk of the client's world.
pub struct ClientChunk {
    position: ChunkPosition,
    stage: ChunkStage,
    data: Option<ChunkData>,
    decode_ticket: Option<u64>,
    mesh_ticket: Option<u64>,
}

impl View for ClientChunk {
    type V = ChunkView;

    closed spec fn view(&self) -> ChunkView {
        ChunkView {
            position: self.position,
            stage: self.stage,
            data: match self.data {
                Some(chunk) => Some(chunk@),
                None => None,
            },
            decode_ticket: self.decode_ticket,
            mesh_ticket: self.mesh_ticket,
        }
    }
}

impl ClientChunk {
    pub fn position(&self) -> (position: ChunkPosition)
        ensures
            position == self@.position,
    {
        self.position
    }

    pub fn stage(&self) -> (stage: ChunkStage)
        ensures
            stage == self@.stage,
    {
        self.stage
    }

    /// The chunk's blocks, once they have been decompressed.
    pub fn data(&self) -> (data: Option<&ChunkData>)
        ensures
            match data {
                Some(chunk) => self@.data == Some(chunk@),
                None => self@.data is None,
            },
    {
        match &self.data {
            Some(chunk) => Some(chunk),
            None => None,
        }
    }
}

/// A mesh job: the blocks of the chunk at `position`, to be turned into a mesh whose
/// result is handed back under `ticket`.
pub struct MeshJob {
    pub position: ChunkPosition,
    pub ticket: u64,
    pub data: ChunkData,
}

/// What a move of the player asks for: the chunks that were dropped, and the positions to
/// ask the server for.
pub struct ViewUpdate {
    pub evicted: Vec<ChunkPosition>,
    pub requests: Vec<ChunkPosition>,
}

/// The chunks that the client holds or waits for.
pub struct ClientWorld {
    chunks: Vec<ClientChunk>,
    view_distance: u32,
    next_ticket: u64,
}

/// The descriptions of a list of chunks.
pub closed spec fn chunk_views(chunks: Seq<ClientChunk>) -> Seq<ChunkView> {
    Seq::new(chunks.len(), |i: int| chunks[i]@)
}

impl View for ClientWorld {
    type V = WorldView;

    closed spec fn view(&self) -> WorldView {
        WorldView {
            chunks: chunk_views(self.chunks@),
            view_distance: self.view_distance,
            next_ticket: self.next_ticket,
        }
    }
}

impl ClientWorld {
    pub open spec fn wf(&self) -> bool {
        self@.wf()
    }

    /// A world without chunks.
    pub fn new(view_distance: u32) -> (world: Self)
        ensures
            world.wf(),
            world@ == (WorldView { chunks: Seq::empty(), view_distance, next_ticket: 0 }),
    {
        let world = ClientWorld { chunks: Vec::new(), view_distance, next_ticket: 0 };
        assert(world@.chunks =~= Seq::empty());
        world
    }

    pub fn view_distance(&self) -> (distance: u32)
        ensures
            distance == self@.view_distance,
    {
        self.view_distance
    }

    /// How many chunks the world holds or waits for.
    pub fn chunk_count(&self) -> (count: usize)
        ensures
            count == self@.chunks.len(),
    {
        self.chunks.len()
    }

    /// The chunk at place `index`.
    pub fn chunk(&self, index: usize) -> (chunk: &ClientChunk)
        requires
            index < self@.chunks.len(),
        ensures
            chunk@ == self@.chunks[index as int],
    {
        &self.chunks[index]
    }

    /// The place of the chunk at `pos`.
    pub fn find(&self, pos: ChunkPosition) -> (found: Option<usize>)
        requires
            self.wf(),
        ensures
            match found {
                Some(index) => has_chunk(self@.chunks, pos) && index == chunk_index(
                    self@.chunks,
                    pos,
                ) && index < self@.chunks.len(),
                None => !has_chunk(self@.chunks, pos),
            },
    {
        let mut i: usize = 0;
        while i < self.chunks.len()
            invariant
                self.wf(),
                i <= self.chunks@.len(),
                forall|k: int| 0 <= k < i as int ==> (#[trigger] self@.chunks[k]).position != pos,
            decreases self.chunks@.len() - i,
        {
            if self.chunks[i].position == pos {
                assert(self@.chunks[i as int].position == pos);
                assert(self@.chunks[chunk_index(self@.chunks, pos)].position == pos);
                return Some(i);
            }
            i = i + 1;
        }
        None
    }

    /// The stage of the chunk at `pos`.
    pub fn stage_of(&self, pos: ChunkPosition) -> (stage: Option<ChunkStage>)
        requires
            self.wf(),
        ensures
            stage == (if has_chunk(self@.chunks, pos) {
                Some(self@.chunks[chunk_index(self@.chunks, pos)].stage)
            } else {
                None
            }),
    {
        match self.find(pos) {
            Some(index) => Some(self.chunks[index].stage),
            None => None,
        }
    }

    /// Takes note that a payload has arrived for the chunk at `pos`. Where the chunk is
    /// held or waited for, the ticket is returned under which the payload's decompression
    /// is to be handed back; results of earlier decompressions of that chunk are no longer
    /// awaited. A payload for a chunk that is not held is dropped, and so is one for which
    /// no ticket is left: nothing is returned.
    pub fn receive_chunk(&mut self, pos: ChunkPosition) -> (ticket: Option<u64>)
        requires
            old(self).wf(),
        ensures
            final(self).wf(),
            final(self)@.view_distance == old(self)@.view_distance,
            match ticket {
                Some(t) => {
                    &&& has_chunk(old(self)@.chunks, pos)
                    &&& t == old(self)@.next_ticket
                    &&& final(self)@.next_ticket == t + 1
                    &&& final(self)@.chunks == old(self)@.chunks.update(
                        chunk_index(old(self)@.chunks, pos),
                        old(self)@.chunks[chunk_index(old(self)@.chunks, pos)].receiving(t),
                    )
                },
                None => {
                    &&& !has_chunk(old(self)@.chunks, pos) || old(self)@.next_ticket == u64::MAX
                    &&& final(self)@ == old(self)@
                },
            },
    {
        if self.next_ticket == u64::MAX {
            return None;
        }
        match self.find(pos) {
            None => None,
            Some(index) => {
                let ticket = self.next_ticket;
                let ghost before = self@;
                self.next_ticket = ticket + 1;
                if let ChunkStage::Requested = self.chunks[index].stage {
                    self.chunks[index].stage = ChunkStage::Decompressing;
                }
                self.chunks[index].decode_ticket = Some(ticket);
                assert(self@.chunks =~= before.chunks.update(
                    index as int,
                    before.chunks[index as int].receiving(ticket),
                ));
                Some(ticket)
            },
        }
    }

    /// Takes the result of the decompression job `ticket` for the chunk at `pos`. Where
    /// that result is awaited, it is applied: blocks take the place of what the chunk held
    /// (see [`ChunkView::decoded`]), a failure lets the chunk be asked for again (see
    /// [`ChunkView::decode_failed`]). A result that is not awaited, because the chunk was
    /// dropped or a later payload has arrived, is discarded. Says whether it was applied.
    pub fn apply_decompressed(
        &mut self,
        pos: ChunkPosition,
        ticket: u64,
        result: Result<ChunkData, CodecError>,
    ) -> (applied: bool)
        requires
            old(self).wf(),
            result matches Ok(chunk) ==> chunk.wf(),
        ensures
            final(self).wf(),
            applied == (has_chunk(old(self)@.chunks, pos) && old(self)@.chunks[chunk_index(
                old(self)@.chunks,
                pos,
            )].decode_ticket == Some(ticket)),
            !applied ==> final(self)@ == old(self)@,
            applied ==> final(self)@ == (WorldView {
                chunks: old(self)@.chunks.update(
                    chunk_index(old(self)@.chunks, pos),
                    match result {
                        Ok(chunk) => old(self)@.chunks[chunk_index(old(self)@.chunks, pos)].decoded(
                            chunk@,
                        ),
                        Err(_) => old(self)@.chunks[chunk_index(
                            old(self)@.chunks,
                            pos,
                        )].decode_failed(),
                    },
                ),
                ..old(self)@
            }),
    {
        let ghost before = self@;
        match self.find(pos) {
            None => false,
            Some(index) => {
                let awaited = match self.chunks[index].decode_ticket {
                    Some(t) => t == ticket,
                    None => false,
                };
                if !awaited {
                    return false;
                }
                assert(before.chunks[index as int].wf(before.next_ticket));
                match result {
                    Ok(chunk) => {
                        let ghost blocks = chunk@;
                        self.chunks[index].stage = ChunkStage::HasData;
                        self.chunks[index].data = Some(chunk);
                        self.chunks[index].decode_ticket = None;
                        self.chunks[index].mesh_ticket = None;
                        assert(self@.chunks =~= before.chunks.update(
                            index as int,
                            before.chunks[index as int].decoded(blocks),
                        ));
                    },
                    Err(_) => {
                        if self.chunks[index].data.is_none() {
                            self.chunks[index].stage = ChunkStage::Requested;
                        }
                        self.chunks[index].decode_ticket = None;
                        assert(self@.chunks =~= before.chunks.update(
                            index as int,
                            before.chunks[index as int].decode_failed(),
                        ));
                    },
                }
                true
            },
        }
    }

    /// Takes note that the mesh job `ticket` for the chunk at `pos` has ended. Where that
    /// job is awaited, the chunk's mesh is ready. A job that is not awaited, because the
    /// chunk was dropped or has new blocks, counts for nothing. Says whether the mesh is
    /// to be used.
    pub fn apply_mesh(&mut self, pos: ChunkPosition, ticket: u64) -> (applied: bool)
        requires
            old(self).wf(),
        ensures
            final(self).wf(),
            applied == (has_chunk(old(self)@.chunks, pos) && old(self)@.chunks[chunk_index(
                old(self)@.chunks,
                pos,
            )].mesh_ticket == Some(ticket)),
            !applied ==> final(self)@ == old(self)@,
            applied ==> final(self)@ == (WorldView {
                chunks: old(self)@.chunks.update(
                    chunk_index(old(self)@.chunks, pos),
                    old(self)@.chunks[chunk_index(old(self)@.chunks, pos)].meshed(),
                ),
                ..old(self)@
            }),
    {
        let ghost before = self@;
        match self.find(pos) {
            None => false,
            Some(index) => {
                let awaited = match self.chunks[index].mesh_ticket {
                    Some(t) => t == ticket,
                    None => false,
                };
                if !awaited {
                    return false;
                }
                assert(before.chunks[index as int].wf(before.next_ticket));
                self.chunks[index].stage = ChunkStage::MeshReady;
                self.chunks[index].mesh_ticket = None;
                assert(self@.chunks =~= before.chunks.update(
                    index as int,
                    before.chunks[index as int].meshed(),
                ));
                true
            },
        }
    }

    /// Starts mesh jobs: for the chunks that have blocks and no mesh job yet, in their
    /// order, up to `limit` of them and as long as tickets are left. Each job gets a copy
    /// of the chunk's blocks and the next ticket.
    pub fn dispatch_mesh_jobs(&mut self, limit: usize) -> (jobs: Vec<MeshJob>)
        requires
            old(self).wf(),
        ensures
            final(self).wf(),
            final(self)@.view_distance == old(self)@.view_distance,
            final(self)@.chunks.len() == old(self)@.chunks.len(),
            ({
                let picked = mesh_dispatch(
                    old(self)@.chunks,
                    old(self)@.next_ticket,
                    limit as int,
                    old(self)@.chunks.len() as int,
                );
                &&& jobs@.len() == picked.len()
                &&& final(self)@.next_ticket == old(self)@.next_ticket + picked.len()
                &&& forall|k: int|
                    0 <= k < picked.len() ==> {
                        &&& 0 <= #[trigger] picked[k] < old(self)@.chunks.len()
                        &&& jobs@[k].position == old(self)@.chunks[picked[k]].position
                        &&& jobs@[k].ticket == old(self)@.next_ticket + k
                        &&& jobs@[k].data.wf()
                        &&& old(self)@.chunks[picked[k]].data == Some(jobs@[k].data@)
                        &&& final(self)@.chunks[picked[k]] == old(self)@.chunks[picked[k]].queued(
                            jobs@[k].ticket,
                        )
                    }
                &&& forall|i: int|
                    0 <= i < old(self)@.chunks.len() && !picked.contains(i) ==> (
                    #[trigger] final(self)@.chunks[i]) == old(self)@.chunks[i]
            }),
    {
        let ghost before = self@;
        let mut jobs: Vec<MeshJob> = Vec::new();
        let mut i: usize = 0;
        while i < self.chunks.len()
            invariant
                before.wf(),
                i <= self.chunks@.len(),
                self@.chunks.len() == before.chunks.len(),
                self@.view_distance == before.view_distance,
                jobs@.len() == mesh_dispatch(
                    before.chunks,
                    before.next_ticket,
                    limit as int,
                    i as int,
                ).len(),
                self@.next_ticket == before.next_ticket + jobs@.len(),
                forall|k: int|
                    0 <= k < jobs@.len() ==> {
                        let at = #[trigger] mesh_dispatch(
                            before.chunks,
                            before.next_ticket,
                            limit as int,
                            i as int,
                        )[k];
                        &&& 0 <= at < i
                        &&& jobs@[k].position == before.chunks[at].position
                        &&& jobs@[k].ticket == before.next_ticket + k
                        &&& jobs@[k].data.wf()
                        &&& before.chunks[at].data == Some(jobs@[k].data@)
                        &&& self@.chunks[at] == before.chunks[at].queued(jobs@[k].ticket)
                    },
                forall|j: int|
                    0 <= j < before.chunks.len() && !mesh_dispatch(
                        before.chunks,
                        before.next_ticket,
                        limit as int,
                        i as int,
                    ).contains(j) ==> (#[trigger] self@.chunks[j]) == before.chunks[j],
            decreases self.chunks@.len() - i,
        {
            let ghost earlier = mesh_dispatch(
                before.chunks,
                before.next_ticket,
                limit as int,
                i as int,
            );
            let ghost now = mesh_dispatch(
                before.chunks,
                before.next_ticket,
                limit as int,
                i as int + 1,
            );
            let ghost held = self@;
            assert(!earlier.contains(i as int)) by {
                if earlier.contains(i as int) {
                    let k = choose|k: int| 0 <= k < earlier.len() && earlier[k] == i as int;
                    assert(earlier[k] < i);
                }
            }
            assert(self@.chunks[i as int] == before.chunks[i as int]);
            assert(before.chunks[i as int].wf(before.next_ticket));
            let mut started = false;
            if jobs.len() < limit && self.next_ticket < u64::MAX {
                if let ChunkStage::HasData = self.chunks[i].stage {
                    if let Some(chunk) = &self.chunks[i].data {
                        let data = chunk.clone();
                        let ticket = self.next_ticket;
                        let position = self.chunks[i].position;
                        self.next_ticket = ticket + 1;
                        self.chunks[i].stage = ChunkStage::MeshQueued;
                        self.chunks[i].mesh_ticket = Some(ticket);
                        jobs.push(MeshJob { position, ticket, data });
                        started = true;
                    }
                }
            }
            proof {
                if started {
                    assert(now == earlier.push(i as int));
                    assert(self@.chunks =~= held.chunks.update(
                        i as int,
                        before.chunks[i as int].queued((before.next_ticket + earlier.len()) as u64),
                    ));
                    assert forall|j: int|
                        0 <= j < before.chunks.len() && !now.contains(j) implies (
                    #[trigger] self@.chunks[j]) == before.chunks[j] by {
                        assert(now[earlier.len() as int] == i as int);
                        if earlier.contains(j) {
                            let k = choose|k: int| 0 <= k < earlier.len() && earlier[k] == j;
                            assert(now[k] == j);
                        }
                    }
                } else {
                    assert(now == earlier);
                    assert(self@.chunks =~= held.chunks);
                }
            }
            i = i + 1;
        }
        proof {
            assert forall|j: int| 0 <= j < self@.chunks.len() implies (
            #[trigger] self@.chunks[j]).wf(self@.next_ticket) by {
                let picked = mesh_dispatch(
                    before.chunks,
                    before.next_ticket,
                    limit as int,
                    before.chunks.len() as int,
                );
                assert(before.chunks[j].wf(before.next_ticket));
                if picked.contains(j) {
                    let k = choose|k: int| 0 <= k < picked.len() && picked[k] == j;
                    assert(picked[k] == j);
                }
            }
            assert forall|a: int, b: int|
                0 <= a < self@.chunks.len() && 0 <= b < self@.chunks.len() && a != b implies (
            #[trigger] self@.chunks[a]).position != (#[trigger] self@.chunks[b]).position by {
                let picked = mesh_dispatch(
                    before.chunks,
                    before.next_ticket,
                    limit as int,
                    before.chunks.len() as int,
                );
                assert(before.chunks[a].position != before.chunks[b].position);
                if picked.contains(a) {
                    let k = choose|k: int| 0 <= k < picked.len() && picked[k] == a;
                    assert(picked[k] == a);
                }
                if picked.contains(b) {
                    let k = choose|k: int| 0 <= k < picked.len() && picked[k] == b;
                    assert(picked[k] == b);
                }
            }
        }
        jobs
    }

    /// Brings the world in line with the player's chunk: chunks farther away than the
    /// view distance are dropped, and every position of the square around the player for
    /// which nothing has arrived yet is to be asked for, row after row. A position that is
    /// asked for the first time gets a chunk in the stage `Requested`.
    pub fn update_loaded_chunks(&mut self, player: ChunkLocation) -> (update: ViewUpdate)
        requires
            old(self).wf(),
            i64::MIN <= player.0 - old(self)@.view_distance,
            player.0 + old(self)@.view_distance <= i64::MAX,
            i64::MIN <= player.1 - old(self)@.view_distance,
            player.1 + old(self)@.view_distance <= i64::MAX,
        ensures
            final(self).wf(),
            final(self)@.view_distance == old(self)@.view_distance,
            final(self)@.next_ticket == old(self)@.next_ticket,
            ({
                let kept = kept_chunks(
                    old(self)@.chunks,
                    player,
                    old(self)@.view_distance,
                    old(self)@.chunks.len() as int,
                );
                &&& update.evicted@ == dropped_chunks(
                    old(self)@.chunks,
                    player,
                    old(self)@.view_distance,
                    old(self)@.chunks.len() as int,
                )
                &&& update.requests@ == view_requests(kept, player, old(self)@.view_distance)
                &&& final(self)@.chunks == kept + requested_chunks(
                    view_missing(kept, player, old(self)@.view_distance),
                )
            }),
    {
        let ghost before = self@;
        let view_distance = self.view_distance;
        let mut evicted: Vec<ChunkPosition> = Vec::new();
        let mut i: usize = 0;
        let ghost mut done: int = 0;
        assert(self@.chunks =~= kept_chunks(before.chunks, player, view_distance, 0)
            + before.chunks.skip(0));
        while i < self.chunks.len()
            invariant
                0 <= done <= before.chunks.len(),
                i == kept_chunks(before.chunks, player, view_distance, done).len(),
                self@.chunks == kept_chunks(before.chunks, player, view_distance, done)
                    + before.chunks.skip(done),
                evicted@ == dropped_chunks(before.chunks, player, view_distance, done),
                self@.view_distance == before.view_distance,
                self@.next_ticket == before.next_ticket,
                view_distance == before.view_distance,
            decreases before.chunks.len() - done,
        {
            let ghost held = self@.chunks;
            let ghost kept_so_far = kept_chunks(before.chunks, player, view_distance, done);
            assert(held[i as int] == before.chunks.skip(done)[0]);
            assert(done < before.chunks.len());
            let pos = self.chunks[i].position;
            if chunk_distance(&pos, &player) <= view_distance as u64 {
                assert(self@.chunks =~= kept_so_far.push(before.chunks[done])
                    + before.chunks.skip(done + 1));
                i = i + 1;
            } else {
                self.chunks.remove(i);
                assert(self@.chunks =~= held.remove(i as int));
                assert(self@.chunks =~= kept_so_far + before.chunks.skip(done + 1));
                evicted.push(pos);
            }
            proof {
                done = done + 1;
            }
        }
        assert(done == before.chunks.len());
        let ghost kept = self@.chunks;
        assert(kept =~= kept_chunks(
            before.chunks,
            player,
            view_distance,
            before.chunks.len() as int,
        ));
        proof {
            lemma_kept_and_dropped(
                before.chunks,
                player,
                view_distance,
                before.chunks.len() as int,
            );
            assert forall|a: int| 0 <= a < kept.len() implies (#[trigger] kept[a]).wf(
                before.next_ticket,
            ) by {
                assert(kept.contains(kept[a]));
                let src = choose|src: int|
                    0 <= src < before.chunks.len() && before.chunks[src] == kept[a] && in_view(
                        kept[a].position,
                        player,
                        view_distance,
                    );
                assert(before.chunks[src].wf(before.next_ticket));
            }
        }

        let mut known = PositionSet::new();
        let mut loaded = PositionSet::new();
        let mut k: usize = 0;
        while k < self.chunks.len()
            invariant
                self@.chunks == kept,
                k <= kept.len(),
                forall|pos: ChunkPosition|
                    #![trigger known@.contains(pos)]
                    known@.contains(pos) <==> exists|j: int|
                        0 <= j < k && (#[trigger] kept[j]).position == pos,
                forall|pos: ChunkPosition|
                    #![trigger loaded@.contains(pos)]
                    loaded@.contains(pos) <==> exists|j: int|
                        0 <= j < k && (#[trigger] kept[j]).position == pos && !(kept[j].stage
                            is Requested),
            decreases kept.len() - k,
        {
            let pos = self.chunks[k].position;
            let ghost known_before = known@;
            let ghost loaded_before = loaded@;
            known.insert(pos);
            let waiting = match self.chunks[k].stage {
                ChunkStage::Requested => true,
                _ => false,
            };
            if !waiting {
                loaded.insert(pos);
            }
            proof {
                assert(kept[k as int].position == pos);
                assert forall|other: ChunkPosition|
                    #![trigger known@.contains(other)]
                    known@.contains(other) <==> exists|j: int|
                        0 <= j < k + 1 && (#[trigger] kept[j]).position == other by {
                    if known_before.contains(other) {
                        let j = choose|j: int|
                            0 <= j < k && (#[trigger] kept[j]).position == other;
                        assert(kept[j].position == other);
                    }
                    if exists|j: int| 0 <= j < k + 1 && (#[trigger] kept[j]).position == other {
                        let j = choose|j: int|
                            0 <= j < k + 1 && (#[trigger] kept[j]).position == other;
                        if j < k {
                            assert(known_before.contains(other));
                        }
                    }
                }
                assert forall|other: ChunkPosition|
                    #![trigger loaded@.contains(other)]
                    loaded@.contains(other) <==> exists|j: int|
                        0 <= j < k + 1 && (#[trigger] kept[j]).position == other && !(kept[j].stage
                            is Requested) by {
                    if loaded_before.contains(other) {
                        let j = choose|j: int|
                            0 <= j < k && (#[trigger] kept[j]).position == other && !(kept[j].stage
                                is Requested);
                        assert(kept[j].position == other);
                    }
                    if exists|j: int|
                        0 <= j < k + 1 && (#[trigger] kept[j]).position == other && !(kept[j].stage
                            is Requested) {
                        let j = choose|j: int|
                            0 <= j < k + 1 && (#[trigger] kept[j]).position == other && !(
                            kept[j].stage is Requested);
                        if j < k {
                            assert(loaded_before.contains(other));
                        }
                    }
                }
            }
            k = k + 1;
        }
        proof {
            assert forall|pos: ChunkPosition| #![trigger known@.contains(pos)] known@.contains(pos)
                == has_chunk(kept, pos) by {
                if known@.contains(pos) {
                    let j = choose|j: int|
                        0 <= j < kept.len() && (#[trigger] kept[j]).position == pos;
                    assert(kept[j].position == pos);
                }
            }
            assert forall|pos: ChunkPosition|
                #![trigger loaded@.contains(pos)]
                has_chunk(kept, pos) implies loaded@.contains(pos) == !wants_request(kept, pos) by {
                let at = chunk_index(kept, pos);
                assert(kept[at].position == pos);
                if loaded@.contains(pos) {
                    let j = choose|j: int|
                        0 <= j < kept.len() && (#[trigger] kept[j]).position == pos && !(
                        kept[j].stage is Requested);
                    assert(j == at);
                }
            }
        }

        let ghost x0: int = player.0 - view_distance;
        let ghost y0: int = player.1 - view_distance;
        let side: u64 = 2 * (view_distance as u64) + 1;
        let mut requests: Vec<ChunkPosition> = Vec::new();
        let mut missing: Vec<ChunkPosition> = Vec::new();
        let mut ix: u64 = 0;
        while ix < side
            invariant
                self.wf(),
                self@.chunks == kept,
                ix <= side,
                side == 2 * view_distance + 1,
                x0 == player.0 - view_distance,
                y0 == player.1 - view_distance,
                i64::MIN <= x0,
                x0 + side - 1 <= i64::MAX,
                i64::MIN <= y0,
                y0 + side - 1 <= i64::MAX,
                self@.view_distance == before.view_distance,
                self@.next_ticket == before.next_ticket,
                view_distance == before.view_distance,
                forall|pos: ChunkPosition|
                    #![trigger known@.contains(pos)]
                    known@.contains(pos) == has_chunk(kept, pos),
                forall|pos: ChunkPosition|
                    #![trigger loaded@.contains(pos)]
                    has_chunk(kept, pos) ==> loaded@.contains(pos) == !wants_request(kept, pos),
                requests@ == square_scan(kept, x0, y0, ix as int, side as int, false),
                missing@ == square_scan(kept, x0, y0, ix as int, side as int, true),
            decreases side - ix,
        {
            let px: i64 = (player.0 as i128 - view_distance as i128 + ix as i128) as i64;
            let ghost requests_before = requests@;
            let ghost missing_before = missing@;
            let mut iy: u64 = 0;
            assert(requests@ =~= requests_before + row_scan(kept, x0 + ix, y0, 0, false));
            assert(missing@ =~= missing_before + row_scan(kept, x0 + ix, y0, 0, true));
            while iy < side
                invariant
                    self.wf(),
                    self@.chunks == kept,
                    iy <= side,
                    ix < side,
                    side == 2 * view_distance + 1,
                    x0 == player.0 - view_distance,
                    y0 == player.1 - view_distance,
                    i64::MIN <= x0,
                    x0 + side - 1 <= i64::MAX,
                    i64::MIN <= y0,
                    y0 + side - 1 <= i64::MAX,
                    px == x0 + ix,
                    self@.view_distance == before.view_distance,
                    self@.next_ticket == before.next_ticket,
                    view_distance == before.view_distance,
                    forall|pos: ChunkPosition|
                        #![trigger known@.contains(pos)]
                        known@.contains(pos) == has_chunk(kept, pos),
                    forall|pos: ChunkPosition|
                        #![trigger loaded@.contains(pos)]
                        has_chunk(kept, pos) ==> loaded@.contains(pos) == !wants_request(kept, pos),
                    requests@ == requests_before + row_scan(kept, x0 + ix, y0, iy as int, false),
                    missing@ == missing_before + row_scan(kept, x0 + ix, y0, iy as int, true),
                decreases side - iy,
            {
                let py: i64 = (player.1 as i128 - view_distance as i128 + iy as i128) as i64;
                let pos = ChunkPosition(px, py);
                let ghost row_requests = row_scan(kept, x0 + ix, y0, iy as int, false);
                let ghost row_missing = row_scan(kept, x0 + ix, y0, iy as int, true);
                assert(pos == ChunkPosition((x0 + ix) as i64, (y0 + (iy + 1) - 1) as i64));
                if !known.contains(pos) {
                    requests.push(pos);
                    missing.push(pos);
                    assert(requests@ =~= requests_before + row_requests.push(pos));
                    assert(missing@ =~= missing_before + row_missing.push(pos));
                } else if !loaded.contains(pos) {
                    requests.push(pos);
                    assert(requests@ =~= requests_before + row_requests.push(pos));
                }
                iy = iy + 1;
            }
            ix = ix + 1;
        }
        proof {
            lemma_square_scan(kept, x0, y0, side as int, side as int, true);
        }
        let mut k: usize = 0;
        assert(self@.chunks =~= kept + requested_chunks(missing@.take(0)));
        while k < missing.len()
            invariant
                k <= missing@.len(),
                self@.chunks == kept + requested_chunks(missing@.take(k as int)),
                self@.view_distance == before.view_distance,
                self@.next_ticket == before.next_ticket,
            decreases missing@.len() - k,
        {
            let ghost held = self@.chunks;
            self.chunks.push(
                ClientChunk {
                    position: missing[k],
                    stage: ChunkStage::Requested,
                    data: None,
                    decode_ticket: None,
                    mesh_ticket: None,
                },
            );
            assert(self@.chunks =~= held.push(ChunkView::requested(missing@[k as int])));
            assert(self@.chunks =~= kept + requested_chunks(missing@.take(k + 1)));
            k = k + 1;
        }
        assert(missing@.take(missing@.len() as int) =~= missing@);
        proof {
            let added = requested_chunks(missing@);
            let all = self@.chunks;
            assert forall|a: int| 0 <= a < all.len() implies (#[trigger] all[a]).wf(
                before.next_ticket,
            ) by {
                if a < kept.len() {
                    assert(all[a] == kept[a]);
                } else {
                    assert(all[a] == added[a - kept.len()]);
                }
            }
            assert forall|a: int, b: int|
                0 <= a < all.len() && 0 <= b < all.len() && a != b implies (
            #[trigger] all[a]).position != (#[trigger] all[b]).position by {
                if a < kept.len() && b < kept.len() {
                    assert(kept[a].position != kept[b].position);
                } else if a >= kept.len() && b >= kept.len() {
                    assert(all[a] == added[a - kept.len()]);
                    assert(all[b] == added[b - kept.len()]);
                    assert(missing@[a - kept.len()] != missing@[b - kept.len()]);
                } else if a < kept.len() {
                    assert(all[b] == added[b - kept.len()]);
                    assert(missing@.contains(missing@[b - kept.len()]));
                    assert(kept[a].position == all[a].position);
                } else {
                    assert(all[a] == added[a - kept.len()]);
                    assert(missing@.contains(missing@[a - kept.len()]));
                    assert(kept[b].position == all[b].position);
                }
            }
        }
        ViewUpdate { evicted, requests }
    }
}

} // verus!
