use vstd::prelude::*;

use crate::load_queue::QueueType;
use crate::tile_key::{child_key, has_children, TileKey};

verus! {

/// How much of a tile the camera sees.
#[allow(non_camel_case_types)]
#[derive(Clone, Copy, Debug, PartialEq, Eq, Structural)]
pub enum TileVisibility {
    NONE,
    PARTIAL,
    FULL,
}

/// What happens to a tile after its visibility is computed.
#[derive(Clone, Copy, Debug, PartialEq, Eq, Structural)]
pub enum VisibilityAction {
    /// The tile is invisible: it is removed together with its descendants.
    Despawn,
    /// The tile is visible and has no children yet: its four children are
    /// created, in this order.
    SpawnChildren { southeast: TileKey, southwest: TileKey, northwest: TileKey, northeast: TileKey },
    /// Nothing to do.
    Keep,
}

/// Decides what happens to a tile of key `key` once its visibility is known.
pub fn on_tile_visibility_action(visibility: TileVisibility, has_child_entities: bool, key: &TileKey) -> (r: VisibilityAction)
    requires
        visibility != TileVisibility::NONE && !has_child_entities ==> has_children(*key),
    ensures
        visibility == TileVisibility::NONE ==> r == VisibilityAction::Despawn,
        visibility != TileVisibility::NONE && has_child_entities ==> r == VisibilityAction::Keep,
        visibility != TileVisibility::NONE && !has_child_entities ==> r == (VisibilityAction::SpawnChildren {
            southeast: child_key(*key, true, true),
            southwest: child_key(*key, false, true),
            northwest: child_key(*key, false, false),
            northeast: child_key(*key, true, false),
        }),
{
    if visibility == TileVisibility::NONE {
        VisibilityAction::Despawn
    } else if !has_child_entities {
        VisibilityAction::SpawnChildren {
            southeast: key.southeast(),
            southwest: key.southwest(),
            northwest: key.northwest(),
            northeast: key.northeast(),
        }
    } else {
        VisibilityAction::Keep
    }
}

/// A tile not yet marked renderable becomes so when it is visible, meets the
/// screen-space error and has renderable data.
pub fn should_mark_renderable(visibility: TileVisibility, meets_sse: bool, renderable: bool) -> (r: bool)
    ensures
        r == (visibility != TileVisibility::NONE && meets_sse && renderable),
{
    visibility != TileVisibility::NONE && meets_sse && renderable
}

/// The load priority of a root tile when the quadtree is traversed: a root
/// tile that cannot be rendered yet is loaded with high priority.
pub fn visit_if_visible_queue_type(renderable: bool, queue_type: QueueType) -> (r: QueueType)
    ensures
        r == (if !renderable { QueueType::High } else { queue_type }),
{
    if !renderable {
        QueueType::High
    } else {
        queue_type
    }
}

/// Where a bounding volume lies with respect to the camera's culling volume.
#[allow(non_camel_case_types)]
#[derive(Clone, Copy, Debug, PartialEq, Eq, Structural)]
pub enum Intersect {
    OUTSIDE,
    INTERSECTING,
    INSIDE,
}

/// What the visibility pass does to a tile.
#[derive(Clone, Copy, Debug, PartialEq, Eq, Structural)]
pub struct VisibilityUpdate {
    /// The tile's new visibility; `None` leaves it as it is.
    pub visibility: Option<TileVisibility>,
    /// Whether the tile's "clipped by boundaries" flag is reset.
    pub reset_clipped: bool,
}

/// The visibility a culling-volume test gives.
pub open spec fn visibility_of(i: Intersect) -> TileVisibility {
    match i {
        Intersect::OUTSIDE => TileVisibility::NONE,
        Intersect::INTERSECTING => TileVisibility::PARTIAL,
        Intersect::INSIDE => TileVisibility::FULL,
    }
}

/// Decides a tile's visibility from what the geometric tests found: tiles
/// not waiting to load are left alone; a tile with no bounding region of its
/// own yet, or no bounding volume, counts as partly visible; otherwise the
/// culling test decides, and a tile in view whose occludee point is hidden by
/// the ellipsoid is not visible.
pub fn compute_tile_visibility_update(
    queue_type: QueueType,
    from_mesh: bool,
    has_parent_region: bool,
    has_bounding_volume: bool,
    intersection: Intersect,
    has_occludee_point: bool,
    occludee_point_visible: bool,
) -> (r: VisibilityUpdate)
    ensures
        r == (if queue_type == QueueType::NoQueue {
            VisibilityUpdate { visibility: None, reset_clipped: false }
        } else if !from_mesh && !has_parent_region {
            VisibilityUpdate { visibility: Some(TileVisibility::PARTIAL), reset_clipped: false }
        } else if !has_bounding_volume {
            VisibilityUpdate { visibility: Some(TileVisibility::PARTIAL), reset_clipped: true }
        } else if visibility_of(intersection) != TileVisibility::NONE && has_occludee_point && !occludee_point_visible {
            VisibilityUpdate { visibility: Some(TileVisibility::NONE), reset_clipped: true }
        } else {
            VisibilityUpdate { visibility: Some(visibility_of(intersection)), reset_clipped: true }
        }),
{
    if queue_type == QueueType::NoQueue {
        return VisibilityUpdate { visibility: None, reset_clipped: false };
    }
    if !from_mesh && !has_parent_region {
        return VisibilityUpdate { visibility: Some(TileVisibility::PARTIAL), reset_clipped: false };
    }
    if !has_bounding_volume {
        return VisibilityUpdate { visibility: Some(TileVisibility::PARTIAL), reset_clipped: true };
    }
    let visibility = match intersection {
        Intersect::OUTSIDE => TileVisibility::NONE,
        Intersect::INTERSECTING => TileVisibility::PARTIAL,
        Intersect::INSIDE => TileVisibility::FULL,
    };
    if visibility == TileVisibility::NONE {
        return VisibilityUpdate { visibility: Some(visibility), reset_clipped: true };
    }
    if !has_occludee_point {
        return VisibilityUpdate { visibility: Some(visibility), reset_clipped: true };
    }
    if occludee_point_visible {
        return VisibilityUpdate { visibility: Some(visibility), reset_clipped: true };
    }
    VisibilityUpdate { visibility: Some(TileVisibility::NONE), reset_clipped: true }
}

/// The nearest ancestor (index into `ancestor_has_mesh`, nearest first) whose
/// terrain already has a mesh, from which a tile without one borrows its
/// height range.
pub fn nearest_ancestor_with_mesh(ancestor_has_mesh: &Vec<bool>) -> (r: Option<usize>)
    ensures
        r matches Some(i) ==> i < ancestor_has_mesh.len() && ancestor_has_mesh@[i as int]
            && forall|j: int| 0 <= j < i ==> !#[trigger] ancestor_has_mesh@[j],
        r is None ==> forall|j: int| 0 <= j < ancestor_has_mesh.len() ==> !#[trigger] ancestor_has_mesh@[j],
{
    let mut i: usize = 0;
    while i < ancestor_has_mesh.len()
        invariant
            i <= ancestor_has_mesh.len(),
            forall|j: int| 0 <= j < i ==> !#[trigger] ancestor_has_mesh@[j],
        decreases ancestor_has_mesh.len() - i,
    {
        if ancestor_has_mesh[i] {
            return Some(i);
        }
        i = i + 1;
    }
    None
}

} // verus!
