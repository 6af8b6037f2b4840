use vstd::prelude::*;

verus! {

/// The imagery level used for a terrain tile: the level wanted, limited to the
/// provider's levels (the maximum is applied first, then the minimum).
pub fn clamp_imagery_level(level: u32, minimum_level: u32, maximum_level: u32) -> (r: u32)
    ensures
        r == (if level > maximum_level {
            if maximum_level < minimum_level { minimum_level } else { maximum_level }
        } else if level < minimum_level {
            minimum_level
        } else {
            level
        }),
        minimum_level <= maximum_level ==> minimum_level <= r <= maximum_level,
{
    let mut imagery_level = level;
    if imagery_level > maximum_level {
        imagery_level = maximum_level;
    }
    if imagery_level < minimum_level {
        imagery_level = minimum_level;
    }
    imagery_level
}

/// A rectangular range of imagery tiles: columns `west..=east` and rows
/// `north..=south`.
#[derive(Clone, Copy, Debug, PartialEq, Eq, Structural)]
pub struct TileRange {
    pub west: u32,
    pub north: u32,
    pub east: u32,
    pub south: u32,
}

/// Which outer tiles of a range only touch the terrain tile along an edge
/// (closer than a small fraction of the tile's size) and may be left out.
#[derive(Clone, Copy, Debug, PartialEq, Eq, Structural)]
pub struct EdgeContact {
    pub north: bool,
    pub west: bool,
    pub south: bool,
    pub east: bool,
}

/// The range without the outer rows and columns that only touch the terrain
/// tile, never dropping the last remaining row or column; the north and west
/// sides are trimmed first.
pub open spec fn trimmed_range(r: TileRange, c: EdgeContact) -> TileRange {
    let north = if c.north && r.north < r.south { (r.north + 1) as u32 } else { r.north };
    let west = if c.west && r.west < r.east { (r.west + 1) as u32 } else { r.west };
    let south = if c.south && r.south > north { (r.south - 1) as u32 } else { r.south };
    let east = if c.east && r.east > west { (r.east - 1) as u32 } else { r.east };
    TileRange { west, north, east, south }
}

/// Drops the outer rows and columns of a range of imagery tiles that only
/// touch the terrain tile along an edge.
pub fn trim_tile_range(range: TileRange, contact: EdgeContact) -> (r: TileRange)
    ensures
        r == trimmed_range(range, contact),
        range.west <= range.east ==> range.west <= r.west <= r.east <= range.east,
        range.north <= range.south ==> range.north <= r.north <= r.south <= range.south,
{
    let mut north_west_x = range.west;
    let mut north_west_y = range.north;
    let mut south_east_x = range.east;
    let mut south_east_y = range.south;
    if contact.north && north_west_y < south_east_y {
        north_west_y = north_west_y + 1;
    }
    if contact.west && north_west_x < south_east_x {
        north_west_x = north_west_x + 1;
    }
    if contact.south && south_east_y > north_west_y {
        south_east_y = south_east_y - 1;
    }
    if contact.east && south_east_x > north_west_x {
        south_east_x = south_east_x - 1;
    }
    TileRange { west: north_west_x, north: north_west_y, east: south_east_x, south: south_east_y }
}


/// A side of the range moves only when its own edge merely touches the
/// terrain tile, and then by one row or column inward; the north and west
/// sides always move when they touch and more than one row or column is left.
pub proof fn lemma_trim_moves_touching_sides_only(r: TileRange, c: EdgeContact)
    ensures
        !c.north ==> trimmed_range(r, c).north == r.north,
        !c.west ==> trimmed_range(r, c).west == r.west,
        !c.south ==> trimmed_range(r, c).south == r.south,
        !c.east ==> trimmed_range(r, c).east == r.east,
        c.north && r.north < r.south ==> trimmed_range(r, c).north == r.north + 1,
        c.west && r.west < r.east ==> trimmed_range(r, c).west == r.west + 1,
        trimmed_range(r, c).north == r.north || trimmed_range(r, c).north == r.north + 1,
        trimmed_range(r, c).west == r.west || trimmed_range(r, c).west == r.west + 1,
        trimmed_range(r, c).south == r.south || trimmed_range(r, c).south == r.south - 1,
        trimmed_range(r, c).east == r.east || trimmed_range(r, c).east == r.east - 1,
        c.south && r.north + 1 < r.south ==> trimmed_range(r, c).south == r.south - 1,
        c.east && r.west + 1 < r.east ==> trimmed_range(r, c).east == r.east - 1,
{
}

} // verus!
