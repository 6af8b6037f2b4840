use vstd::prelude::*;

verus! {

/// Loading progress of a quadtree tile as a whole.
#[allow(non_camel_case_types)]
#[derive(Clone, Copy, Debug, PartialEq, Eq, Structural)]
pub enum QuadtreeTileLoadState {
    START,
    LOADING,
    DONE,
    FAILED,
}

impl Default for QuadtreeTileLoadState {
    fn default() -> (r: QuadtreeTileLoadState)
        ensures
            r == QuadtreeTileLoadState::START,
    {
        QuadtreeTileLoadState::START
    }
}

/// Life cycle of a tile's terrain data.
#[allow(non_camel_case_types)]
#[derive(Clone, Copy, Debug, PartialEq, Eq, Structural)]
pub enum TerrainState {
    FAILED,
    UNLOADED,
    RECEIVING,
    RECEIVED,
    TRANSFORMING,
    TRANSFORMED,
    READY,
}

/// What the terrain state machine decides for one tile in one round.
#[derive(Clone, Copy, Debug, PartialEq, Eq, Structural)]
pub struct TerrainStep {
    /// The tile's terrain state after the round.
    pub terrain_state: TerrainState,
    /// Upsample the parent's terrain for this tile.
    pub upsample_from_parent: bool,
    /// Request the tile's terrain geometry from the terrain provider.
    pub request_geometry: bool,
    /// Create the mesh of the tile's terrain data.
    pub create_mesh: bool,
}

/// The terrain state after a round, from the state before it.
pub open spec fn terrain_after(s: TerrainState, has_terrain_data: bool) -> TerrainState {
    let s1 = if s == TerrainState::UNLOADED { TerrainState::RECEIVED } else { s };
    let s2 = if s1 == TerrainState::RECEIVED && has_terrain_data { TerrainState::TRANSFORMED } else { s1 };
    if s2 == TerrainState::TRANSFORMED { TerrainState::READY } else { s2 }
}

/// One round of the terrain state machine for a tile, decided from what holds
/// at its start: only loading tiles advance; a failed tile upsamples its
/// parent's terrain where the parent can; an unloaded tile requests its
/// geometry and counts it received; received terrain data is turned into a
/// mesh; a transformed tile is ready.
pub fn process_terrain_step(
    load_state: QuadtreeTileLoadState,
    terrain_state: TerrainState,
    has_parent: bool,
    parent_can_upsample: bool,
    has_terrain_data: bool,
) -> (r: TerrainStep)
    requires
        load_state == QuadtreeTileLoadState::LOADING && terrain_state == TerrainState::FAILED ==> has_parent,
    ensures
        load_state != QuadtreeTileLoadState::LOADING ==> r == (TerrainStep {
            terrain_state,
            upsample_from_parent: false,
            request_geometry: false,
            create_mesh: false,
        }),
        load_state == QuadtreeTileLoadState::LOADING ==> r == (TerrainStep {
            terrain_state: terrain_after(terrain_state, has_terrain_data),
            upsample_from_parent: terrain_state == TerrainState::FAILED && parent_can_upsample,
            request_geometry: terrain_state == TerrainState::UNLOADED,
            create_mesh: (terrain_state == TerrainState::UNLOADED || terrain_state == TerrainState::RECEIVED) && has_terrain_data,
        }),
{
    let mut step = TerrainStep {
        terrain_state,
        upsample_from_parent: false,
        request_geometry: false,
        create_mesh: false,
    };
    if load_state != QuadtreeTileLoadState::LOADING {
        return step;
    }
    if step.terrain_state == TerrainState::FAILED && parent_can_upsample {
        step.upsample_from_parent = true;
    }
    if step.terrain_state == TerrainState::UNLOADED {
        step.request_geometry = true;
        step.terrain_state = TerrainState::RECEIVED;
    }
    if step.terrain_state == TerrainState::RECEIVED {
        if has_terrain_data {
            step.create_mesh = true;
            step.terrain_state = TerrainState::TRANSFORMED;
        }
    }
    if step.terrain_state == TerrainState::TRANSFORMED {
        step.terrain_state = TerrainState::READY;
    }
    step
}

/// A round never moves terrain backwards: ready terrain stays ready, and
/// terrain never becomes unloaded or transformed-but-not-ready.
pub proof fn lemma_terrain_after_monotone(s: TerrainState, has_terrain_data: bool)
    ensures
        s == TerrainState::READY ==> terrain_after(s, has_terrain_data) == TerrainState::READY,
        terrain_after(s, has_terrain_data) != TerrainState::UNLOADED,
        terrain_after(s, has_terrain_data) != TerrainState::TRANSFORMED,
        has_terrain_data && (s == TerrainState::UNLOADED || s == TerrainState::RECEIVED
            || s == TerrainState::TRANSFORMED) ==> terrain_after(s, has_terrain_data) == TerrainState::READY,
{
}

/// The flags of a quadtree tile after its per-round update.
#[derive(Clone, Copy, Debug, PartialEq, Eq, Structural)]
pub struct QuadtreeTileStep {
    pub renderable: bool,
    pub upsampled_from_parent: bool,
    pub load_state: QuadtreeTileLoadState,
}

/// Per-round update of a quadtree tile: it is renderable once its terrain has
/// a mesh, or if it already was; it is upsampled when its terrain data was
/// created by upsampling. Imagery is not yet taken into account, so the load
/// state never reaches `DONE` here and is left as it is.
pub fn process_quadtree_tile_step(
    was_renderable: bool,
    has_mesh: bool,
    created_by_upsampling: bool,
    terrain_state: TerrainState,
    load_state: QuadtreeTileLoadState,
) -> (r: QuadtreeTileStep)
    ensures
        r == (QuadtreeTileStep {
            renderable: has_mesh || was_renderable,
            upsampled_from_parent: created_by_upsampling,
            load_state,
        }),
{
    let mut renderable = has_mesh;
    let is_terrain_done_loading = terrain_state == TerrainState::READY;
    let is_imagery_done_loading = false;
    let mut state = load_state;
    if is_terrain_done_loading && is_imagery_done_loading {
        state = QuadtreeTileLoadState::DONE;
    }
    if was_renderable {
        renderable = true;
    }
    QuadtreeTileStep { renderable, upsampled_from_parent: created_by_upsampling, load_state: state }
}

/// The terrain state of a tile being prepared: terrain known to be
/// unavailable, from the provider or else from the parent, fails.
pub fn prepare_terrain_state(
    terrain_state: TerrainState,
    provider_available: Option<bool>,
    parent_says_available: Option<bool>,
) -> (r: TerrainState)
    ensures
        r == (if (match provider_available {
            Some(a) => !a,
            None => parent_says_available == Some(false),
        }) {
            TerrainState::FAILED
        } else {
            terrain_state
        }),
{
    let mut available = provider_available;
    if available.is_none() && parent_says_available.is_some() {
        available = parent_says_available;
    }
    if available == Some(false) {
        TerrainState::FAILED
    } else {
        terrain_state
    }
}

} // verus!
