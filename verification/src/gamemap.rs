//! The dungeon grid and the carving operations the generator uses.

use crate::tile::Tile;
use crate::{MAP_HEIGHT, MAP_WIDTH};
use vstd::prelude::*;

verus! {

/// Whether `(x, y)` lies on the fixed-size grid.
pub open spec fn in_bounds(x: int, y: int) -> bool {
    0 <= x < MAP_WIDTH && 0 <= y < MAP_HEIGHT
}

/// Every cell on the border of the grid is a wall.
pub open spec fn walled(m: GameMap) -> bool {
    forall|x: int, y: int|
        in_bounds(x, y) && (x == 0 || x == MAP_WIDTH - 1 || y == 0 || y == MAP_HEIGHT - 1)
            ==> #[trigger] m.blocked_at(x, y)
}

/// Every cell either blocks both movement and sight (a wall) or blocks
/// neither (floor): in this design a movement-blocking cell is always
/// opaque.
pub open spec fn wall_or_floor(m: GameMap) -> bool {
    forall|x: int, y: int|
        in_bounds(x, y) ==> (#[trigger] m.spec_tile(x, y)).blocked == m.spec_tile(x, y).block_sight
}

/// `v` lies in the closed interval spanned by `a` and `b` (in either order).
pub open spec fn between(a: int, b: int, v: int) -> bool {
    (a <= v <= b) || (b <= v <= a)
}

/// The dungeon grid: a fixed-size 2D array of tiles, indexed `[x][y]`
/// with origin `(0, 0)` in the corner.
pub struct GameMap {
    tiles: Vec<Vec<Tile>>,
}

impl View for GameMap {
    type V = Seq<Seq<Tile>>;

    closed spec fn view(&self) -> Seq<Seq<Tile>> {
        self.tiles@.map_values(|col: Vec<Tile>| col@)
    }
}

impl GameMap {
    /// The grid has exactly the fixed session dimensions.
    pub open spec fn wf(self) -> bool {
        &&& self@.len() == MAP_WIDTH
        &&& forall|x: int| 0 <= x < MAP_WIDTH ==> (#[trigger] self@[x]).len() == MAP_HEIGHT
    }

    pub open spec fn spec_tile(self, x: int, y: int) -> Tile {
        self@[x][y]
    }

    /// Movement into `(x, y)` is barred by the terrain itself.
    pub open spec fn blocked_at(self, x: int, y: int) -> bool {
        self.spec_tile(x, y).blocked
    }

    /// Sight across `(x, y)` is barred by the terrain.
    pub open spec fn sight_blocked_at(self, x: int, y: int) -> bool {
        self.spec_tile(x, y).block_sight
    }

    pub open spec fn explored_at(self, x: int, y: int) -> bool {
        self.spec_tile(x, y).explored
    }

    /// A grid entirely made of walls, ready to be carved.
    pub fn new() -> (m: GameMap)
        ensures
            m.wf(),
            forall|x: int, y: int|
                in_bounds(x, y) ==> m.spec_tile(x, y) == (Tile {
                    blocked: true,
                    block_sight: true,
                    explored: false,
                }),
    {
        let w: usize = MAP_WIDTH as usize;
        let h: usize = MAP_HEIGHT as usize;
        let mut tiles: Vec<Vec<Tile>> = Vec::new();
        let mut x: usize = 0;
        while x < w
            invariant
                x <= w,
                w == MAP_WIDTH,
                h == MAP_HEIGHT,
                tiles@.len() == x,
                forall|i: int|
                    0 <= i < x ==> (#[trigger] tiles@[i])@ =~= Seq::new(
                        MAP_HEIGHT as nat,
                        |j: int| Tile { blocked: true, block_sight: true, explored: false },
                    ),
            decreases w - x,
        {
            let mut col: Vec<Tile> = Vec::new();
            let mut y: usize = 0;
            while y < h
                invariant
                    y <= h,
                    h == MAP_HEIGHT,
                    col@.len() == y,
                    forall|j: int|
                        0 <= j < y ==> col@[j] == (Tile {
                            blocked: true,
                            block_sight: true,
                            explored: false,
                        }),
                decreases h - y,
            {
                col.push(Tile::wall());
                y = y + 1;
            }
            proof {
                assert(col@ =~= Seq::new(
                    MAP_HEIGHT as nat,
                    |j: int| Tile { blocked: true, block_sight: true, explored: false },
                ));
            }
            tiles.push(col);
            x = x + 1;
        }
        let m = GameMap { tiles };
        proof {
            assert forall|xi: int, yi: int| in_bounds(xi, yi) implies m.spec_tile(xi, yi)
                == (Tile { blocked: true, block_sight: true, explored: false }) by {
                assert(m@[xi] == tiles@[xi]@);
            }
        }
        m
    }

    /// Read one tile.
    pub fn tile(&self, x: i32, y: i32) -> (t: Tile)
        requires
            self.wf(),
            in_bounds(x as int, y as int),
        ensures
            t == self.spec_tile(x as int, y as int),
    {
        proof {
            assert(self@[x as int] == self.tiles@[x as int]@);
        }
        self.tiles[x as usize][y as usize]
    }

    /// Overwrite one tile.
    fn set_tile(&mut self, x: i32, y: i32, t: Tile)
        requires
            old(self).wf(),
            in_bounds(x as int, y as int),
        ensures
            final(self).wf(),
            final(self)@ == old(self)@.update(x as int, old(self)@[x as int].update(y as int, t)),
    {
        proof {
            assert(old(self)@[x as int] == old(self).tiles@[x as int]@);
        }
        let xi: usize = x as usize;
        let yi: usize = y as usize;
        let col: &mut Vec<Tile> = &mut self.tiles[xi];
        col[yi] = t;
        proof {
            assert(self@ =~= old(self)@.update(
                x as int,
                old(self)@[x as int].update(y as int, t),
            ));
        }
    }

    /// Mark one tile as explored, leaving everything else unchanged.
    pub fn mark_explored(&mut self, x: i32, y: i32)
        requires
            old(self).wf(),
            in_bounds(x as int, y as int),
        ensures
            final(self).wf(),
            forall|xi: int, yi: int|
                in_bounds(xi, yi) ==> final(self).spec_tile(xi, yi) == (if xi == x && yi == y {
                    Tile { explored: true, ..old(self).spec_tile(xi, yi) }
                } else {
                    old(self).spec_tile(xi, yi)
                }),
    {
        let t: Tile = self.tile(x, y);
        self.set_tile(x, y, Tile { explored: true, ..t });
    }

    /// Carve the interior of `room` to floor: every cell strictly inside
    /// the rectangle becomes an empty tile, all other cells are untouched.
    pub fn create_room(&mut self, room: crate::geom::Rect)
        requires
            old(self).wf(),
            0 <= room.x1,
            room.x2 <= MAP_WIDTH,
            0 <= room.y1,
            room.y2 <= MAP_HEIGHT,
        ensures
            final(self).wf(),
            forall|x: int, y: int|
                in_bounds(x, y) ==> final(self).spec_tile(x, y) == (if room.x1 < x < room.x2
                    && room.y1 < y < room.y2 {
                    Tile { blocked: false, block_sight: false, explored: false }
                } else {
                    old(self).spec_tile(x, y)
                }),
    {
        if room.x1 == i32::MAX || room.y1 == i32::MAX {
            // the interior is empty; nothing to carve
            return ;
        }
        let mut x: i32 = room.x1 + 1;
        while x < room.x2
            invariant
                room.x1 < x,
                x <= room.x2 || x == room.x1 + 1,
                self.wf(),
                0 <= room.x1,
                room.x2 <= MAP_WIDTH,
                0 <= room.y1 < i32::MAX,
                room.y2 <= MAP_HEIGHT,
                forall|xi: int, yi: int|
                    in_bounds(xi, yi) ==> self.spec_tile(xi, yi) == (if room.x1 < xi < x
                        && room.y1 < yi < room.y2 {
                        Tile { blocked: false, block_sight: false, explored: false }
                    } else {
                        old(self).spec_tile(xi, yi)
                    }),
            decreases room.x2 - x,
        {
            let mut y: i32 = room.y1 + 1;
            while y < room.y2
                invariant
                    room.x1 < x < room.x2,
                    room.y1 < y,
                    y <= room.y2 || y == room.y1 + 1,
                    self.wf(),
                    0 <= room.x1,
                    room.x2 <= MAP_WIDTH,
                    0 <= room.y1,
                    room.y2 <= MAP_HEIGHT,
                    forall|xi: int, yi: int|
                        in_bounds(xi, yi) ==> self.spec_tile(xi, yi) == (if (room.x1 < xi < x
                            && room.y1 < yi < room.y2) || (xi == x && room.y1 < yi < y) {
                            Tile { blocked: false, block_sight: false, explored: false }
                        } else {
                            old(self).spec_tile(xi, yi)
                        }),
                decreases room.y2 - y,
            {
                self.set_tile(x, y, Tile::empty());
                y = y + 1;
            }
            x = x + 1;
        }
    }

    /// Carve a horizontal corridor covering every cell between `x1` and
    /// `x2` (inclusive, in either order) at height `y`.
    pub fn create_h_tunnel(&mut self, x1: i32, x2: i32, y: i32)
        requires
            old(self).wf(),
            in_bounds(x1 as int, y as int),
            in_bounds(x2 as int, y as int),
        ensures
            final(self).wf(),
            forall|xi: int, yi: int|
                in_bounds(xi, yi) ==> final(self).spec_tile(xi, yi) == (if between(
                    x1 as int,
                    x2 as int,
                    xi,
                ) && yi == y {
                    Tile { blocked: false, block_sight: false, explored: false }
                } else {
                    old(self).spec_tile(xi, yi)
                }),
    {
        let lo: i32 = if x1 < x2 {
            x1
        } else {
            x2
        };
        let hi: i32 = if x1 < x2 {
            x2
        } else {
            x1
        };
        let mut x: i32 = lo;
        while x <= hi
            invariant
                lo <= x,
                x <= hi + 1,
                lo == if x1 < x2 { x1 as int } else { x2 as int },
                hi == if x1 < x2 { x2 as int } else { x1 as int },
                self.wf(),
                0 <= lo,
                hi < MAP_WIDTH,
                0 <= y < MAP_HEIGHT,
                forall|xi: int, yi: int|
                    in_bounds(xi, yi) ==> self.spec_tile(xi, yi) == (if lo <= xi < x && yi == y {
                        Tile { blocked: false, block_sight: false, explored: false }
                    } else {
                        old(self).spec_tile(xi, yi)
                    }),
            decreases hi + 1 - x,
        {
            self.set_tile(x, y, Tile::empty());
            x = x + 1;
        }
    }

    /// Carve a vertical corridor covering every cell between `y1` and
    /// `y2` (inclusive, in either order) at column `x`.
    pub fn create_v_tunnel(&mut self, y1: i32, y2: i32, x: i32)
        requires
            old(self).wf(),
            in_bounds(x as int, y1 as int),
            in_bounds(x as int, y2 as int),
        ensures
            final(self).wf(),
            forall|xi: int, yi: int|
                in_bounds(xi, yi) ==> final(self).spec_tile(xi, yi) == (if between(
                    y1 as int,
                    y2 as int,
                    yi,
                ) && xi == x {
                    Tile { blocked: false, block_sight: false, explored: false }
                } else {
                    old(self).spec_tile(xi, yi)
                }),
    {
        let lo: i32 = if y1 < y2 {
            y1
        } else {
            y2
        };
        let hi: i32 = if y1 < y2 {
            y2
        } else {
            y1
        };
        let mut y: i32 = lo;
        while y <= hi
            invariant
                lo <= y,
                y <= hi + 1,
                lo == if y1 < y2 { y1 as int } else { y2 as int },
                hi == if y1 < y2 { y2 as int } else { y1 as int },
                self.wf(),
                0 <= lo,
                hi < MAP_HEIGHT,
                0 <= x < MAP_WIDTH,
                forall|xi: int, yi: int|
                    in_bounds(xi, yi) ==> self.spec_tile(xi, yi) == (if lo <= yi < y && xi == x {
                        Tile { blocked: false, block_sight: false, explored: false }
                    } else {
                        old(self).spec_tile(xi, yi)
                    }),
            decreases hi + 1 - y,
        {
            self.set_tile(x, y, Tile::empty());
            y = y + 1;
        }
    }
}

} // verus!
