//! The streaming controller: keeps the registry — and, through the returned
//! tick report, the host's render substrate — synchronized with the square
//! Chebyshev window of chunks around the viewpoint.
//!
//! One call of [`update_chunks`] per simulation tick evicts every chunk
//! whose Chebyshev distance from the camera chunk exceeds the render
//! distance, then builds and registers every window chunk that was missing.
//! Its contract states the streaming invariant exactly: afterwards the
//! registry holds the window, the whole window and nothing else.

use vstd::prelude::*;

verus! {

use vstd::math::abs;
use crate::builder::{build_chunk, chunk_build_matches, ChunkBuild};
use crate::chunk::{
    camera_chunk, camera_pos_in_range, chunk_index_of, in_window, MAX_CHUNK_COORD, TerrainChunk,
};
use crate::config::TerrainConfig;
use crate::heightfield::HeightField;
use crate::registry::ChunkRegistry;

/// The noise seed of the terrain session: fixed for reproducibility, so a
/// restart regenerates the identical landscape.
pub const TERRAIN_SEED: u32 = 12345;

/// The streaming state: the registry of loaded chunks and the height field
/// the meshes are built from.
pub struct ChunkManager {
    pub loaded_chunks: ChunkRegistry,
    pub noise: HeightField,
}

impl ChunkManager {
    pub open spec fn wf(&self) -> bool {
        self.loaded_chunks.wf()
    }

    /// A manager with no chunks loaded and the given noise seed.
    pub fn new(seed: u32) -> (m: Self)
        ensures
            m.wf(),
            m.noise.seed == seed,
            forall|d: TerrainChunk| !m.loaded_chunks.contains_spec(d),
            m.loaded_chunks.entries().len() == 0,
    {
        ChunkManager { loaded_chunks: ChunkRegistry::new(), noise: HeightField::new(seed) }
    }
}

impl Default for ChunkManager {
    /// An empty manager over the session's fixed seed.
    fn default() -> (m: Self)
        ensures
            m.wf(),
            m.noise.seed == TERRAIN_SEED,
            forall|d: TerrainChunk| !m.loaded_chunks.contains_spec(d),
            m.loaded_chunks.entries().len() == 0,
    {
        ChunkManager::new(TERRAIN_SEED)
    }
}

/// What one streaming tick did: the chunks released and the chunks built,
/// for the host to hand on to its render substrate.
pub struct TickUpdate {
    /// Coordinates whose resources are to be released, each exactly once.
    pub evicted: Vec<TerrainChunk>,
    /// Newly built chunks to submit, each coordinate exactly once.
    pub loaded: Vec<ChunkBuild>,
}

/// Whether chunk `d` belongs to the required window of a viewpoint standing
/// at `(cam_x_milli, cam_z_milli)`.
pub open spec fn required_window(
    config: TerrainConfig,
    cam_x_milli: int,
    cam_z_milli: int,
    d: TerrainChunk,
) -> bool {
    let cs = config.chunk_size_milli as int;
    abs(d.chunk_x - chunk_index_of(cam_x_milli, cs)) <= config.render_distance
        && abs(d.chunk_z - chunk_index_of(cam_z_milli, cs)) <= config.render_distance
}

/// Whether some build in the list carries coordinate `d`.
pub open spec fn loaded_has_coord(builds: Seq<ChunkBuild>, d: TerrainChunk) -> bool {
    exists|i: int| 0 <= i < builds.len() && builds[i].chunk == d
}

/// Builds one chunk and records it in the registry.
pub fn spawn_chunk(
    manager: &mut ChunkManager,
    config: &TerrainConfig,
    chunk_x: i32,
    chunk_z: i32,
) -> (b: ChunkBuild)
    requires
        config.wf(),
        old(manager).wf(),
        abs(chunk_x as int) <= MAX_CHUNK_COORD,
        abs(chunk_z as int) <= MAX_CHUNK_COORD,
    ensures
        final(manager).wf(),
        final(manager).noise == old(manager).noise,
        chunk_build_matches(b, old(manager).noise.seed, *config, chunk_x as int, chunk_z as int),
        b.chunk == (TerrainChunk { chunk_x, chunk_z }),
        forall|d: TerrainChunk|
            final(manager).loaded_chunks.contains_spec(d) <==> (old(
                manager,
            ).loaded_chunks.contains_spec(d) || d == (TerrainChunk { chunk_x, chunk_z })),
{
    let b = build_chunk(&manager.noise, config, chunk_x, chunk_z);
    manager.loaded_chunks.insert(TerrainChunk { chunk_x, chunk_z });
    b
}

/// Ensures one window cell is loaded: builds and registers it when it is
/// missing, appending the build to `loaded`; does nothing when it is
/// already registered.
fn ensure_cell(
    manager: &mut ChunkManager,
    config: &TerrainConfig,
    loaded: &mut Vec<ChunkBuild>,
    x: i32,
    z: i32,
)
    requires
        config.wf(),
        old(manager).wf(),
        abs(x as int) <= MAX_CHUNK_COORD,
        abs(z as int) <= MAX_CHUNK_COORD,
    ensures
        final(manager).wf(),
        final(manager).noise == old(manager).noise,
        forall|d: TerrainChunk|
            final(manager).loaded_chunks.contains_spec(d) <==> (old(
                manager,
            ).loaded_chunks.contains_spec(d) || d == (TerrainChunk { chunk_x: x, chunk_z: z })),
        old(manager).loaded_chunks.contains_spec(TerrainChunk { chunk_x: x, chunk_z: z })
            ==> final(loaded)@ == old(loaded)@,
        !old(manager).loaded_chunks.contains_spec(TerrainChunk { chunk_x: x, chunk_z: z }) ==> {
            &&& final(loaded)@.len() == old(loaded)@.len() + 1
            &&& (forall|i: int|
                0 <= i < old(loaded)@.len() ==> final(loaded)@[i] == old(loaded)@[i])
            &&& final(loaded)@[old(loaded)@.len() as int].chunk == (TerrainChunk {
                chunk_x: x,
                chunk_z: z,
            })
            &&& chunk_build_matches(
                final(loaded)@[old(loaded)@.len() as int],
                old(manager).noise.seed,
                *config,
                x as int,
                z as int,
            )
        },
{
    let cell = TerrainChunk { chunk_x: x, chunk_z: z };
    if !manager.loaded_chunks.contains(cell) {
        let b: ChunkBuild = spawn_chunk(manager, config, x, z);
        loaded.push(b);
    } else {
        proof {
            assert forall|d: TerrainChunk|
                manager.loaded_chunks.contains_spec(d) <==> (old(
                    manager,
                ).loaded_chunks.contains_spec(d) || d == cell) by {}
        }
    }
}

/// One streaming tick.
///
/// Afterwards the registry holds exactly the Chebyshev window of radius
/// `config.render_distance` around the camera chunk; `evicted` lists
/// exactly the previously loaded chunks that fell outside it, and `loaded`
/// exactly the window chunks that were missing, each fully built.
#[verifier::loop_isolation(false)]
pub fn update_chunks(
    manager: &mut ChunkManager,
    config: &TerrainConfig,
    cam_x_milli: i64,
    cam_z_milli: i64,
) -> (tick: TickUpdate)
    requires
        config.wf(),
        old(manager).wf(),
        camera_pos_in_range(cam_x_milli as int, cam_z_milli as int, *config),
    ensures
        final(manager).wf(),
        final(manager).noise == old(manager).noise,
        // The streaming invariant: the member set equals the window.
        forall|d: TerrainChunk|
            final(manager).loaded_chunks.contains_spec(d) <==> required_window(
                *config,
                cam_x_milli as int,
                cam_z_milli as int,
                d,
            ),
        // Evicted: exactly the loaded chunks now outside the window.
        forall|d: TerrainChunk|
            tick.evicted@.contains(d) <==> (old(manager).loaded_chunks.contains_spec(d)
                && !required_window(*config, cam_x_milli as int, cam_z_milli as int, d)),
        forall|p: int, q: int|
            0 <= p < q < tick.evicted@.len() ==> tick.evicted@[p] != tick.evicted@[q],
        // Loaded: exactly the window chunks that were missing.
        forall|d: TerrainChunk|
            loaded_has_coord(tick.loaded@, d) <==> (required_window(
                *config,
                cam_x_milli as int,
                cam_z_milli as int,
                d,
            ) && !old(manager).loaded_chunks.contains_spec(d)),
        forall|p: int, q: int|
            0 <= p < q < tick.loaded@.len() ==> tick.loaded@[p].chunk != tick.loaded@[q].chunk,
        // Every build is the pure function of seed, configuration and its
        // own coordinate.
        forall|i: int|
            0 <= i < tick.loaded@.len() ==> chunk_build_matches(
                #[trigger] tick.loaded@[i],
                old(manager).noise.seed,
                *config,
                tick.loaded@[i].chunk.chunk_x as int,
                tick.loaded@[i].chunk.chunk_z as int,
            ),
{
    let cam: TerrainChunk = camera_chunk(cam_x_milli, cam_z_milli, config);
    let rd: i32 = config.render_distance;
    proof {
        assert forall|d: TerrainChunk|
            in_window(cam, rd as int, d) == required_window(
                *config,
                cam_x_milli as int,
                cam_z_milli as int,
                d,
            ) by {}
    }
    let evicted: Vec<TerrainChunk> = manager.loaded_chunks.evict_outside(cam, rd);
    let ghost kept = manager.loaded_chunks;
    let mut loaded: Vec<ChunkBuild> = Vec::new();
    let mut dx: i32 = -rd;
    while dx <= rd
        invariant
            -rd <= dx <= rd + 1,
            manager.wf(),
            manager.noise == old(manager).noise,
            forall|d: TerrainChunk|
                #[trigger] manager.loaded_chunks.contains_spec(d) <==> (kept.contains_spec(d)
                    || (in_window(cam, rd as int, d) && d.chunk_x < cam.chunk_x + dx)),
            forall|d: TerrainChunk|
                #[trigger] loaded_has_coord(loaded@, d) <==> (in_window(cam, rd as int, d)
                    && d.chunk_x < cam.chunk_x + dx && !kept.contains_spec(d)),
            forall|p: int, q: int|
                0 <= p < q < loaded@.len() ==> loaded@[p].chunk != loaded@[q].chunk,
            forall|i: int|
                0 <= i < loaded@.len() ==> chunk_build_matches(
                    #[trigger] loaded@[i],
                    old(manager).noise.seed,
                    *config,
                    loaded@[i].chunk.chunk_x as int,
                    loaded@[i].chunk.chunk_z as int,
                ),
        decreases rd + 1 - dx,
    {
        let x: i32 = cam.chunk_x + dx;
        let mut dz: i32 = -rd;
        while dz <= rd
            invariant
                -rd <= dx <= rd,
                -rd <= dz <= rd + 1,
                manager.wf(),
                manager.noise == old(manager).noise,
                forall|d: TerrainChunk|
                    #[trigger] manager.loaded_chunks.contains_spec(d) <==> (kept.contains_spec(
                        d,
                    ) || (in_window(cam, rd as int, d) && (d.chunk_x < cam.chunk_x + dx || (
                    d.chunk_x == cam.chunk_x + dx && d.chunk_z < cam.chunk_z + dz)))),
                forall|d: TerrainChunk|
                    #[trigger] loaded_has_coord(loaded@, d) <==> (in_window(cam, rd as int, d) && (
                    d.chunk_x < cam.chunk_x + dx || (d.chunk_x == cam.chunk_x + dx && d.chunk_z
                        < cam.chunk_z + dz)) && !kept.contains_spec(d)),
                forall|p: int, q: int|
                    0 <= p < q < loaded@.len() ==> loaded@[p].chunk != loaded@[q].chunk,
                forall|i: int|
                    0 <= i < loaded@.len() ==> chunk_build_matches(
                        #[trigger] loaded@[i],
                        old(manager).noise.seed,
                        *config,
                        loaded@[i].chunk.chunk_x as int,
                        loaded@[i].chunk.chunk_z as int,
                    ),
            decreases rd + 1 - dz,
        {
            let z: i32 = cam.chunk_z + dz;
            let ghost cell = TerrainChunk { chunk_x: x, chunk_z: z };
            let ghost loaded_before = loaded@;
            let ghost manager_before = *manager;
            ensure_cell(manager, config, &mut loaded, x, z);
            proof {
                assert(!manager_before.loaded_chunks.contains_spec(cell)
                    ==> !kept.contains_spec(cell));
                assert forall|d: TerrainChunk|
                    #[trigger] loaded_has_coord(loaded@, d) implies (in_window(cam, rd as int, d)
                    && (d.chunk_x < cam.chunk_x + dx || (d.chunk_x == cam.chunk_x + dx && d.chunk_z
                        < cam.chunk_z + dz + 1)) && !kept.contains_spec(d)) by {
                    let i = choose|i: int| 0 <= i < loaded@.len() && loaded@[i].chunk == d;
                    if manager_before.loaded_chunks.contains_spec(cell) {
                        assert(loaded@ == loaded_before);
                        assert(loaded_before[i].chunk == d);
                        assert(loaded_has_coord(loaded_before, d));
                    } else {
                        if i < loaded@.len() - 1 {
                            assert(loaded@[i] == loaded_before[i]);
                            assert(loaded_before[i].chunk == d);
                            assert(loaded_has_coord(loaded_before, d));
                        } else {
                            assert(d == cell);
                            assert(in_window(cam, rd as int, cell));
                            assert(!kept.contains_spec(cell));
                        }
                    }
                }
                assert forall|d: TerrainChunk|
                    (in_window(cam, rd as int, d) && (d.chunk_x < cam.chunk_x + dx || (d.chunk_x
                        == cam.chunk_x + dx && d.chunk_z < cam.chunk_z + dz + 1))
                        && !kept.contains_spec(d)) implies #[trigger] loaded_has_coord(
                    loaded@,
                    d,
                ) by {
                    if d.chunk_x < cam.chunk_x + dx || (d.chunk_x == cam.chunk_x + dx && d.chunk_z
                        < cam.chunk_z + dz) {
                        assert(loaded_has_coord(loaded_before, d));
                        let i = choose|i: int|
                            0 <= i < loaded_before.len() && loaded_before[i].chunk == d;
                        if manager_before.loaded_chunks.contains_spec(cell) {
                            assert(loaded@ == loaded_before);
                            assert(loaded@[i].chunk == d);
                        } else {
                            assert(loaded@[i] == loaded_before[i]);
                            assert(loaded@[i].chunk == d);
                        }
                    } else {
                        assert(d.chunk_x as int == cam.chunk_x + dx && d.chunk_z as int
                            == cam.chunk_z + dz);
                        assert(d == cell);
                        if manager_before.loaded_chunks.contains_spec(cell) {
                            assert(kept.contains_spec(cell) || (in_window(cam, rd as int, cell)
                                && (cell.chunk_x < cam.chunk_x + dx || (cell.chunk_x
                                == cam.chunk_x + dx && cell.chunk_z < cam.chunk_z + dz))));
                            assert(kept.contains_spec(cell));
                            assert(false);
                        } else {
                            assert(loaded@[loaded_before.len() as int].chunk == cell);
                        }
                    }
                }
                assert forall|p: int, q: int|
                    0 <= p < q < loaded@.len() implies loaded@[p].chunk != loaded@[q].chunk by {
                    if !manager_before.loaded_chunks.contains_spec(cell) {
                        if q == loaded@.len() - 1 {
                            assert(loaded@[p] == loaded_before[p]);
                            assert(loaded_has_coord(loaded_before, loaded_before[p].chunk));
                        } else {
                            assert(loaded@[p] == loaded_before[p]);
                            assert(loaded@[q] == loaded_before[q]);
                        }
                    }
                }
                assert forall|i: int|
                    0 <= i < loaded@.len() implies chunk_build_matches(
                    #[trigger] loaded@[i],
                    old(manager).noise.seed,
                    *config,
                    loaded@[i].chunk.chunk_x as int,
                    loaded@[i].chunk.chunk_z as int,
                ) by {
                    if !manager_before.loaded_chunks.contains_spec(cell) && i < loaded@.len() - 1 {
                        assert(loaded@[i] == loaded_before[i]);
                    }
                }
            }
            dz = dz + 1;
        }
        dx = dx + 1;
    }
    proof {
        assert forall|d: TerrainChunk|
            #[trigger] manager.loaded_chunks.contains_spec(d) <==> required_window(
                *config,
                cam_x_milli as int,
                cam_z_milli as int,
                d,
            ) by {
            if in_window(cam, rd as int, d) {
                assert(d.chunk_x <= cam.chunk_x + rd);
            }
        }
        assert forall|d: TerrainChunk|
            #[trigger] loaded_has_coord(loaded@, d) <==> (required_window(
                *config,
                cam_x_milli as int,
                cam_z_milli as int,
                d,
            ) && !old(manager).loaded_chunks.contains_spec(d)) by {
            if in_window(cam, rd as int, d) {
                assert(d.chunk_x <= cam.chunk_x + rd);
            }
        }
    }
    TickUpdate { evicted, loaded }
}

/// The initial eager load around the world origin, run once at startup: the
/// same load pass as every later tick, centered on the origin chunk.
pub fn setup_terrain(manager: &mut ChunkManager, config: &TerrainConfig) -> (tick: TickUpdate)
    requires
        config.wf(),
        old(manager).wf(),
    ensures
        final(manager).wf(),
        final(manager).noise == old(manager).noise,
        forall|d: TerrainChunk|
            final(manager).loaded_chunks.contains_spec(d) <==> required_window(*config, 0, 0, d),
        forall|i: int|
            0 <= i < tick.loaded@.len() ==> chunk_build_matches(
                #[trigger] tick.loaded@[i],
                old(manager).noise.seed,
                *config,
                tick.loaded@[i].chunk.chunk_x as int,
                tick.loaded@[i].chunk.chunk_z as int,
            ),
        forall|d: TerrainChunk|
            loaded_has_coord(tick.loaded@, d) <==> (required_window(*config, 0, 0, d) && !old(
                manager,
            ).loaded_chunks.contains_spec(d)),
        // Each window coordinate is built exactly once.
        forall|p: int, q: int|
            0 <= p < q < tick.loaded@.len() ==> tick.loaded@[p].chunk != tick.loaded@[q].chunk,
        // Eviction is the same pass as every later tick: exactly the chunks
        // already loaded but outside the origin window, each exactly once.
        forall|d: TerrainChunk|
            tick.evicted@.contains(d) <==> (old(manager).loaded_chunks.contains_spec(d)
                && !required_window(*config, 0, 0, d)),
        forall|p: int, q: int|
            0 <= p < q < tick.evicted@.len() ==> tick.evicted@[p] != tick.evicted@[q],
{
    update_chunks(manager, config, 0, 0)
}

} // verus!
