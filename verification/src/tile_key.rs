use vstd::prelude::*;

verus! {

/// Address of a tile in a quadtree tiling scheme: column `x`, row `y`
/// (rows grow towards the south) and zoom `level`.
#[derive(Clone, Copy, Debug, PartialEq, Eq, Hash, Structural)]
pub struct TileKey {
    pub x: u32,
    pub y: u32,
    pub level: u32,
}

/// The children of a tile exist when their coordinates and level fit in `u32`.
pub open spec fn has_children(k: TileKey) -> bool {
    &&& k.x <= 0x7fff_ffff
    &&& k.y <= 0x7fff_ffff
    &&& k.level < u32::MAX
}

/// The child of `k` in quadrant (`east`, `south`): one level deeper, the
/// column doubled (plus one for the eastern half) and the row doubled (plus
/// one for the southern half).
pub open spec fn child_key(k: TileKey, east: bool, south: bool) -> TileKey {
    TileKey {
        x: (2 * k.x + if east { 1int } else { 0int }) as u32,
        y: (2 * k.y + if south { 1int } else { 0int }) as u32,
        level: (k.level + 1) as u32,
    }
}

/// The parent of `k`: none at the root level, otherwise the tile one level up
/// whose quadrant contains `k`.
pub open spec fn parent_key(k: TileKey) -> Option<TileKey> {
    if k.level == 0 {
        None
    } else {
        Some(TileKey { x: k.x / 2, y: k.y / 2, level: (k.level - 1) as u32 })
    }
}

impl TileKey {
    pub fn new(x: u32, y: u32, level: u32) -> (r: TileKey)
        ensures
            r == (TileKey { x, y, level }),
    {
        TileKey { x, y, level }
    }

    /// North-western child (top-left quadrant).
    pub fn northwest(&self) -> (r: TileKey)
        requires
            has_children(*self),
        ensures
            r == child_key(*self, false, false),
    {
        TileKey { x: 2 * self.x, y: 2 * self.y, level: self.level + 1 }
    }

    /// North-eastern child (top-right quadrant).
    pub fn northeast(&self) -> (r: TileKey)
        requires
            has_children(*self),
        ensures
            r == child_key(*self, true, false),
    {
        TileKey { x: 2 * self.x + 1, y: 2 * self.y, level: self.level + 1 }
    }

    /// South-western child (bottom-left quadrant).
    pub fn southwest(&self) -> (r: TileKey)
        requires
            has_children(*self),
        ensures
            r == child_key(*self, false, true),
    {
        TileKey { x: 2 * self.x, y: 2 * self.y + 1, level: self.level + 1 }
    }

    /// South-eastern child (bottom-right quadrant).
    pub fn southeast(&self) -> (r: TileKey)
        requires
            has_children(*self),
        ensures
            r == child_key(*self, true, true),
    {
        TileKey { x: 2 * self.x + 1, y: 2 * self.y + 1, level: self.level + 1 }
    }

    /// The enclosing tile one level up, or `None` for a root tile.
    pub fn parent(&self) -> (r: Option<TileKey>)
        ensures
            r == parent_key(*self),
    {
        if self.level == 0 {
            None
        } else {
            Some(TileKey { x: self.x / 2, y: self.y / 2, level: self.level - 1 })
        }
    }
}

/// Going down to any child and back up returns the tile itself.
pub proof fn lemma_parent_of_child(k: TileKey, east: bool, south: bool)
    requires
        has_children(k),
    ensures
        parent_key(child_key(k, east, south)) == Some(k),
{
}

/// The four children of a tile are pairwise distinct, and each one determines
/// its quadrant: its column parity is `east` and its row parity is `south`.
pub proof fn lemma_children_distinct(k: TileKey, e1: bool, s1: bool, e2: bool, s2: bool)
    requires
        has_children(k),
    ensures
        (child_key(k, e1, s1) == child_key(k, e2, s2)) <==> (e1 == e2 && s1 == s2),
        child_key(k, e1, s1).x % 2 == (if e1 { 1int } else { 0int }),
        child_key(k, e1, s1).y % 2 == (if s1 { 1int } else { 0int }),
{
}

/// Every non-root tile is a child of its parent, in the quadrant given by the
/// parities of its coordinates.
pub proof fn lemma_child_of_parent(k: TileKey)
    requires
        k.level > 0,
    ensures
        parent_key(k) matches Some(p) && has_children(p) && child_key(p, k.x % 2 == 1, k.y % 2 == 1) == k,
{
}

} // verus!
