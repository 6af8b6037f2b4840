use vstd::arithmetic::mul::{
    lemma_mul_is_commutative, lemma_mul_is_distributive_add_other_way, lemma_mul_strict_inequality,
};
use vstd::arithmetic::power2::{lemma2_to64, lemma_pow2_strictly_increases, pow2};
use vstd::bits::{lemma_u32_pow2_no_overflow, lemma_u64_shl_is_mul};
use vstd::prelude::*;

use crate::tile_key::{child_key, has_children, TileKey};

verus! {

/// The tile grid of a geographic tiling scheme: how many tiles cover the
/// scheme's rectangle at level zero; each further level splits every tile into
/// four. The ellipsoid and rectangle of the scheme, floating-point geometry,
/// are kept by the caller.
#[derive(Clone, Copy, Debug, PartialEq, Eq, Structural)]
pub struct GeographicTilingScheme {
    pub number_of_level_zero_tiles_x: u32,
    pub number_of_level_zero_tiles_y: u32,
}

/// `n` tiles at level zero doubled `level` times, wrapped to 32 bits as a
/// `u32` shift left does.
pub open spec fn tiles_at_level(n: u32, level: u32) -> int {
    (n * pow2(level as nat)) % 0x1_0000_0000
}

/// A tile coordinate clamped to the last tile of a row or column of `tiles`.
pub open spec fn clamp_coordinate(raw: u32, tiles: int) -> int {
    if raw >= tiles { tiles - 1 } else { raw as int }
}

fn shift_tiles(n: u32, level: u32) -> (r: u32)
    requires
        level < 32,
    ensures
        r == tiles_at_level(n, level),
{
    let r = n << level;
    proof {
        let wide: u64 = n as u64;
        let s: u64 = level as u64;
        assert(((wide << s) as u32) == n << level) by (bit_vector)
            requires
                wide == n as u64,
                s == level as u64,
                s < 32,
        ;
        lemma_u32_pow2_no_overflow(level as nat);
        lemma_pow2_strictly_increases(level as nat, 32);
        lemma2_to64();
        if n > 0 {
            lemma_mul_strict_inequality(pow2(level as nat) as int, 0x1_0000_0000, n as int);
        }
        assert(n * pow2(level as nat) <= n * 0x1_0000_0000) by (nonlinear_arith)
            requires
                pow2(level as nat) <= 0x1_0000_0000,
        ;
        assert(n * 0x1_0000_0000 <= u64::MAX) by (nonlinear_arith)
            requires
                n <= u32::MAX,
        ;
        lemma_u64_shl_is_mul(wide, s);
        let v: u64 = wide << s;
        assert((v as u32) as int == v % 0x1_0000_0000) by (bit_vector);
    }
    r
}

impl Default for GeographicTilingScheme {
    /// The default grid: two tiles across and one down at level zero.
    fn default() -> (r: GeographicTilingScheme)
        ensures
            r.number_of_level_zero_tiles_x == 2,
            r.number_of_level_zero_tiles_y == 1,
    {
        GeographicTilingScheme { number_of_level_zero_tiles_x: 2, number_of_level_zero_tiles_y: 1 }
    }
}

impl GeographicTilingScheme {
    /// Number of tile columns at `level`.
    pub fn get_number_of_x_tiles_at_level(&self, level: u32) -> (r: u32)
        requires
            level < 32,
        ensures
            r == tiles_at_level(self.number_of_level_zero_tiles_x, level),
    {
        shift_tiles(self.number_of_level_zero_tiles_x, level)
    }

    /// Number of tile rows at `level`.
    pub fn get_number_of_y_tiles_at_level(&self, level: u32) -> (r: u32)
        requires
            level < 32,
        ensures
            r == tiles_at_level(self.number_of_level_zero_tiles_y, level),
    {
        shift_tiles(self.number_of_level_zero_tiles_y, level)
    }

    /// Number of tiles at `level`: columns times rows.
    pub fn get_number_of_tiles_at_level(&self, level: u32) -> (r: u32)
        requires
            level < 32,
            tiles_at_level(self.number_of_level_zero_tiles_x, level)
                * tiles_at_level(self.number_of_level_zero_tiles_y, level) <= u32::MAX,
        ensures
            r == tiles_at_level(self.number_of_level_zero_tiles_x, level)
                * tiles_at_level(self.number_of_level_zero_tiles_y, level),
    {
        self.get_number_of_x_tiles_at_level(level) * self.get_number_of_y_tiles_at_level(level)
    }

    /// The tile containing a position, given the position's column and row
    /// offsets in whole tiles from the north-west corner of the scheme
    /// (`raw_x`, `raw_y`): offsets past the last column or row, as a point on
    /// the eastern or southern edge gives, fall into the last tile.
    pub fn clamp_tile_x_y(&self, raw_x: u32, raw_y: u32, level: u32) -> (r: (u32, u32))
        requires
            level < 32,
            tiles_at_level(self.number_of_level_zero_tiles_x, level) > 0,
            tiles_at_level(self.number_of_level_zero_tiles_y, level) > 0,
        ensures
            r.0 == clamp_coordinate(raw_x, tiles_at_level(self.number_of_level_zero_tiles_x, level)),
            r.1 == clamp_coordinate(raw_y, tiles_at_level(self.number_of_level_zero_tiles_y, level)),
    {
        let x_tiles = self.get_number_of_x_tiles_at_level(level);
        let y_tiles = self.get_number_of_y_tiles_at_level(level);
        let mut x_tile_coordinate = raw_x;
        if x_tile_coordinate >= x_tiles {
            x_tile_coordinate = x_tiles - 1;
        }
        let mut y_tile_coordinate = raw_y;
        if y_tile_coordinate >= y_tiles {
            y_tile_coordinate = y_tiles - 1;
        }
        (x_tile_coordinate, y_tile_coordinate)
    }

    /// The root tiles of the quadtree, row by row from the north and, within a
    /// row, from the west: the tile in column `x` and row `y` is at index
    /// `y * columns + x`.
    pub fn level_zero_keys(&self) -> (r: Vec<TileKey>)
        ensures
            r.len() == self.number_of_level_zero_tiles_x * self.number_of_level_zero_tiles_y,
            forall|x: int, y: int|
                0 <= x < self.number_of_level_zero_tiles_x && 0 <= y < self.number_of_level_zero_tiles_y
                ==> #[trigger] r@[y * self.number_of_level_zero_tiles_x + x]
                    == (TileKey { x: x as u32, y: y as u32, level: 0 }),
    {
        let nx = self.get_number_of_x_tiles_at_level(0);
        let ny = self.get_number_of_y_tiles_at_level(0);
        proof {
            lemma2_to64();
        }
        let mut keys: Vec<TileKey> = Vec::new();
        let mut y: u32 = 0;
        while y < ny
            invariant
                nx == self.number_of_level_zero_tiles_x,
                ny == self.number_of_level_zero_tiles_y,
                y <= ny,
                keys.len() == y * nx,
                forall|a: int, b: int| 0 <= a < nx && 0 <= b < y ==> #[trigger] keys@[b * nx + a]
                    == (TileKey { x: a as u32, y: b as u32, level: 0 }),
            decreases ny - y,
        {
            let mut x: u32 = 0;
            while x < nx
                invariant
                    nx == self.number_of_level_zero_tiles_x,
                    y < ny,
                    x <= nx,
                    keys.len() == y * nx + x,
                    forall|a: int, b: int| 0 <= a < nx && 0 <= b < y ==> #[trigger] keys@[b * nx + a]
                        == (TileKey { x: a as u32, y: b as u32, level: 0 }),
                    forall|a: int| 0 <= a < x ==> #[trigger] keys@[y * nx + a]
                        == (TileKey { x: a as u32, y: y, level: 0 }),
                decreases nx - x,
            {
                let ghost before = keys@;
                keys.push(TileKey { x: x, y: y, level: 0 });
                proof {
                    assert forall|a: int, b: int| 0 <= a < nx && 0 <= b < y implies #[trigger] keys@[b * nx + a]
                        == (TileKey { x: a as u32, y: b as u32, level: 0 }) by {
                        assert(b * nx + a < y * nx) by (nonlinear_arith)
                            requires
                                0 <= a < nx,
                                0 <= b < y,
                        ;
                        assert(keys@[b * nx + a] == before[b * nx + a]);
                    }
                    assert forall|a: int| 0 <= a < x + 1 implies #[trigger] keys@[y * nx + a]
                        == (TileKey { x: a as u32, y: y, level: 0 }) by {
                        if a < x {
                            assert(keys@[y * nx + a] == before[y * nx + a]);
                        }
                    }
                }
                x = x + 1;
            }
            proof {
                lemma_mul_is_distributive_add_other_way(nx as int, y as int, 1);
                assert forall|a: int, b: int| 0 <= a < nx && 0 <= b < y + 1 implies #[trigger] keys@[b * nx + a]
                    == (TileKey { x: a as u32, y: b as u32, level: 0 }) by {
                    if b == y {
                        assert(keys@[y * nx + a] == (TileKey { x: a as u32, y: y, level: 0 }));
                    }
                }
            }
            y = y + 1;
        }
        proof {
            lemma_mul_is_commutative(ny as int, nx as int);
        }
        keys
    }
}

/// Each level doubles the number of columns (and of rows) of the level above,
/// wrapped to 32 bits.
pub proof fn lemma_tiles_double_per_level(n: u32, level: u32)
    requires
        level < 31,
    ensures
        tiles_at_level(n, (level + 1) as u32) == (2 * tiles_at_level(n, level)) % 0x1_0000_0000,
{
    let p = pow2(level as nat);
    assert(pow2((level + 1) as nat) == 2 * p) by {
        vstd::arithmetic::power2::lemma_pow2_unfold((level + 1) as nat);
    }
    let a = n * p;
    assert(n * (2 * p) == 2 * a) by (nonlinear_arith)
        requires
            a == n * p,
    ;
    vstd::arithmetic::div_mod::lemma_mul_mod_noop_right(2, a, 0x1_0000_0000);
}

/// Where no count wraps, the children of a tile of the grid are tiles of the
/// grid one level down.
pub proof fn lemma_children_in_grid(scheme: GeographicTilingScheme, k: TileKey, east: bool, south: bool)
    requires
        k.level < 31,
        has_children(k),
        k.x < tiles_at_level(scheme.number_of_level_zero_tiles_x, k.level),
        k.y < tiles_at_level(scheme.number_of_level_zero_tiles_y, k.level),
        scheme.number_of_level_zero_tiles_x * pow2((k.level + 1) as nat) <= u32::MAX,
        scheme.number_of_level_zero_tiles_y * pow2((k.level + 1) as nat) <= u32::MAX,
    ensures
        child_key(k, east, south).x < tiles_at_level(scheme.number_of_level_zero_tiles_x, child_key(k, east, south).level),
        child_key(k, east, south).y < tiles_at_level(scheme.number_of_level_zero_tiles_y, child_key(k, east, south).level),
{
    let l = k.level;
    let nx = scheme.number_of_level_zero_tiles_x;
    let ny = scheme.number_of_level_zero_tiles_y;
    let p = pow2(l as nat);
    vstd::arithmetic::power2::lemma_pow2_unfold((l + 1) as nat);
    assert(pow2((l + 1) as nat) == 2 * p);
    vstd::arithmetic::power2::lemma_pow2_pos(l as nat);
    assert(nx * (2 * p) == 2 * (nx * p)) by (nonlinear_arith);
    assert(ny * (2 * p) == 2 * (ny * p)) by (nonlinear_arith);
    assert(0 <= nx * p) by (nonlinear_arith) requires p > 0;
    assert(0 <= ny * p) by (nonlinear_arith) requires p > 0;
    vstd::arithmetic::div_mod::lemma_small_mod((nx * p) as nat, 0x1_0000_0000);
    vstd::arithmetic::div_mod::lemma_small_mod((ny * p) as nat, 0x1_0000_0000);
    vstd::arithmetic::div_mod::lemma_small_mod((nx * (2 * p)) as nat, 0x1_0000_0000);
    vstd::arithmetic::div_mod::lemma_small_mod((ny * (2 * p)) as nat, 0x1_0000_0000);
}


/// Clamping keeps a coordinate inside a row or column of `tiles` tiles,
/// never moves it east or south, and leaves a coordinate already inside as
/// it is.
pub proof fn lemma_clamp_coordinate_inside(raw: u32, tiles: int)
    requires
        tiles > 0,
    ensures
        0 <= clamp_coordinate(raw, tiles) < tiles,
        clamp_coordinate(raw, tiles) <= raw,
        raw < tiles ==> clamp_coordinate(raw, tiles) == raw,
{
}

} // verus!
