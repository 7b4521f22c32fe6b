//! The extent of the playable ground.

use vstd::prelude::*;

verus! {

/// The side of a square tile, in world units.
pub const TILE_SIZE: i32 = 32;

/// The width and the height of the ground, in tiles.
pub const MAP_TILES: i32 = 64;

/// The widest half extent, in tiles, whose coordinates can still be held.
pub const MAX_HALF_TILES: i32 = 65_536;

/// Half the ground's extent along each axis, in tiles. The ground is centred
/// on the origin.
#[derive(Clone, Copy, Debug, PartialEq, Eq, Structural)]
pub struct MapBounds {
    pub x: i32,
    pub y: i32,
}

/// The length, in thousandths of a unit, of `tiles` tiles side by side: a
/// tile is `TILE_SIZE` units, which are 32 000 thousandths, long.
pub open spec fn tiles_to_length(tiles: int) -> int {
    tiles * 32_000
}

impl MapBounds {
    /// Bounds that enclose at least one tile on each side of the origin and
    /// whose edges can be held as coordinates.
    pub open spec fn wf(self) -> bool {
        &&& 1 <= self.x <= MAX_HALF_TILES
        &&& 1 <= self.y <= MAX_HALF_TILES
    }

    /// The distance from the origin to the right edge.
    pub open spec fn spec_half_width(self) -> int {
        tiles_to_length(self.x as int)
    }

    /// The distance from the origin to the upper edge.
    pub open spec fn spec_half_height(self) -> int {
        tiles_to_length(self.y as int)
    }

    /// Whether `x`, `y` is a place on the ground where something may appear:
    /// the left and lower edges belong to it, the right and upper ones do not.
    pub open spec fn holds(self, x: int, y: int) -> bool {
        &&& -self.spec_half_width() <= x < self.spec_half_width()
        &&& -self.spec_half_height() <= y < self.spec_half_height()
    }

    /// Bounds of `x` by `y` tiles on each side of the origin, where those are
    /// well formed.
    pub fn new(x: i32, y: i32) -> (b: Option<MapBounds>)
        ensures
            b == if (MapBounds { x, y }).wf() {
                Some(MapBounds { x, y })
            } else {
                None
            },
    {
        if 1 <= x && x <= MAX_HALF_TILES && 1 <= y && y <= MAX_HALF_TILES {
            Some(MapBounds { x, y })
        } else {
            None
        }
    }

    pub fn half_width(&self) -> (w: i32)
        requires
            self.wf(),
        ensures
            w == self.spec_half_width(),
    {
        self.x * 32_000
    }

    pub fn half_height(&self) -> (h: i32)
        requires
            self.wf(),
        ensures
            h == self.spec_half_height(),
    {
        self.y * 32_000
    }
}

/// The bounds of the ground that the game is played on: a square of
/// `MAP_TILES` tiles a side, centred on the origin.
pub fn create_map() -> (b: MapBounds)
    ensures
        b.x == MAP_TILES / 2,
        b.y == MAP_TILES / 2,
        b.wf(),
{
    MapBounds { x: MAP_TILES / 2, y: MAP_TILES / 2 }
}

} // verus!
