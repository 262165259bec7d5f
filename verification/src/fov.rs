//! Field-of-view: which cells are visible from an origin within a radius,
//! and the permanent "explored" trail those cells leave behind.
//!
//! A cell is visible when it lies within the radius and every cell
//! strictly between it and the origin on the digital ray joining them is
//! transparent; an opaque cell itself is shown only when walls are lit.

use crate::gamemap::{in_bounds, GameMap};
use crate::geom::{dist2, distance_sq, sq};
use crate::tile::Tile;
use crate::{MAP_HEIGHT, MAP_WIDTH};
use vstd::arithmetic::div_mod::{
    lemma_div_is_ordered, lemma_div_pos_is_pos, lemma_fundamental_div_mod_converse,
};
use vstd::prelude::*;

verus! {

/// Absolute value.
pub open spec fn iabs(a: int) -> int {
    if a >= 0 {
        a
    } else {
        -a
    }
}

/// Sign: `-1`, `0` or `1`.
pub open spec fn sgn(a: int) -> int {
    if a > 0 {
        1
    } else if a < 0 {
        -1
    } else {
        0
    }
}

/// Chebyshev length of the vector `(dx, dy)`: the number of steps of the
/// digital ray along it.
pub open spec fn cheb(dx: int, dy: int) -> int {
    if iabs(dx) >= iabs(dy) {
        iabs(dx)
    } else {
        iabs(dy)
    }
}

/// `round(a / n)` for `a >= 0`, `n >= 1`, rounding halves up.
pub open spec fn div_round(a: int, n: int) -> int {
    (2 * a + n) / (2 * n)
}

/// The `i`-th cell of the digital ray from `(ox, oy)` to `(tx, ty)`,
/// for `0 <= i <= cheb`: each coordinate is the rounded linear
/// interpolation between the endpoints. Cell `0` is the origin, cell
/// `cheb` the target.
pub open spec fn ray_point(ox: int, oy: int, tx: int, ty: int, i: int) -> (int, int) {
    let dx = tx - ox;
    let dy = ty - oy;
    let n = cheb(dx, dy);
    (ox + sgn(dx) * div_round(i * iabs(dx), n), oy + sgn(dy) * div_round(i * iabs(dy), n))
}

/// Sight passes through `(x, y)`: on the grid and not opaque.
pub open spec fn transparent(m: GameMap, x: int, y: int) -> bool {
    in_bounds(x, y) && !m.sight_blocked_at(x, y)
}

/// The visibility predicate this engine computes. The origin always sees
/// its own cell. Any other cell is seen exactly when it lies within
/// `radius` (by squared Euclidean distance), every cell strictly between
/// it and the origin on the digital ray is transparent, and — unless
/// walls are lit — the cell itself is transparent too.
pub open spec fn spec_visible(
    m: GameMap,
    ox: int,
    oy: int,
    tx: int,
    ty: int,
    radius: int,
    light_walls: bool,
) -> bool {
    if tx == ox && ty == oy {
        true
    } else {
        let n = cheb(tx - ox, ty - oy);
        &&& dist2(ox, oy, tx, ty) <= radius * radius
        &&& forall|i: int|
            1 <= i < n ==> transparent(
                m,
                #[trigger] ray_point(ox, oy, tx, ty, i).0,
                ray_point(ox, oy, tx, ty, i).1,
            )
        &&& (light_walls || transparent(m, tx, ty))
    }
}

/// One cell of the digital ray, computed executably.
fn ray_point_exec(ox: i32, oy: i32, tx: i32, ty: i32, i: i32) -> (p: (i32, i32))
    requires
        in_bounds(ox as int, oy as int),
        in_bounds(tx as int, ty as int),
        !(tx == ox && ty == oy),
        0 <= i <= cheb(tx as int - ox as int, ty as int - oy as int),
    ensures
        p.0 == ray_point(ox as int, oy as int, tx as int, ty as int, i as int).0,
        p.1 == ray_point(ox as int, oy as int, tx as int, ty as int, i as int).1,
{
    let dx: i32 = tx - ox;
    let dy: i32 = ty - oy;
    let adx: i32 = if dx >= 0 {
        dx
    } else {
        -dx
    };
    let ady: i32 = if dy >= 0 {
        dy
    } else {
        -dy
    };
    let n: i32 = if adx >= ady {
        adx
    } else {
        ady
    };
    proof {
        assert(n == cheb(dx as int, dy as int));
        assert(n >= 1);
        assert(0 <= i * adx <= n * adx && 0 <= i * ady <= n * ady && n * adx <= 200 * 200 && n * ady
            <= 200 * 200) by (nonlinear_arith)
            requires
                0 <= i <= n,
                0 <= adx <= 200,
                0 <= ady <= 200,
                n <= 200,
        ;
    }
    let prod_x: i32 = i * adx;
    let prod_y: i32 = i * ady;
    let num_x: i32 = 2 * prod_x + n;
    let num_y: i32 = 2 * prod_y + n;
    let den: i32 = 2 * n;
    proof {
        lemma_div_pos_is_pos(num_x as int, den as int);
        lemma_div_pos_is_pos(num_y as int, den as int);
        lemma_div_is_ordered(num_x as int, 2 * ((n as int) * (adx as int)) + n, den as int);
        lemma_div_is_ordered(num_y as int, 2 * ((n as int) * (ady as int)) + n, den as int);
        assert(2 * ((n as int) * (adx as int)) == (adx as int) * (2 * (n as int)))
            by (nonlinear_arith);
        assert(2 * ((n as int) * (ady as int)) == (ady as int) * (2 * (n as int)))
            by (nonlinear_arith);
        lemma_fundamental_div_mod_converse(
            2 * ((n as int) * (adx as int)) + n,
            2 * (n as int),
            adx as int,
            n as int,
        );
        lemma_fundamental_div_mod_converse(
            2 * ((n as int) * (ady as int)) + n,
            2 * (n as int),
            ady as int,
            n as int,
        );
    }
    let off_x: i32 = ((num_x as u32) / (den as u32)) as i32;
    let off_y: i32 = ((num_y as u32) / (den as u32)) as i32;
    let px: i32 = if dx >= 0 {
        ox + off_x
    } else {
        ox - off_x
    };
    let py: i32 = if dy >= 0 {
        oy + off_y
    } else {
        oy - off_y
    };
    (px, py)
}

/// Decide visibility of one cell, matching [`spec_visible`] exactly.
pub fn is_visible(
    m: &GameMap,
    ox: i32,
    oy: i32,
    tx: i32,
    ty: i32,
    radius: i32,
    light_walls: bool,
) -> (b: bool)
    requires
        m.wf(),
        in_bounds(ox as int, oy as int),
        in_bounds(tx as int, ty as int),
        0 <= radius <= 1000,
    ensures
        b == spec_visible(*m, ox as int, oy as int, tx as int, ty as int, radius as int, light_walls),
{
    if tx == ox && ty == oy {
        return true;
    }
    let d2: i64 = distance_sq(ox, oy, tx, ty);
    proof {
        assert(0 <= (radius as i64) * (radius as i64) == sq(radius as int) <= 1000000)
            by (nonlinear_arith)
            requires
                0 <= radius <= 1000,
        ;
    }
    let r2: i64 = (radius as i64) * (radius as i64);
    if d2 > r2 {
        return false;
    }
    let dx: i32 = tx - ox;
    let dy: i32 = ty - oy;
    let adx: i32 = if dx >= 0 {
        dx
    } else {
        -dx
    };
    let ady: i32 = if dy >= 0 {
        dy
    } else {
        -dy
    };
    let n: i32 = if adx >= ady {
        adx
    } else {
        ady
    };
    let mut i: i32 = 1;
    while i < n
        invariant
            1 <= i <= n || (i == 1 && n < 1),
            n == cheb(tx as int - ox as int, ty as int - oy as int),
            m.wf(),
            in_bounds(ox as int, oy as int),
            in_bounds(tx as int, ty as int),
            !(tx == ox && ty == oy),
            forall|j: int|
                1 <= j < i ==> transparent(
                    *m,
                    #[trigger] ray_point(ox as int, oy as int, tx as int, ty as int, j).0,
                    ray_point(ox as int, oy as int, tx as int, ty as int, j).1,
                ),
        decreases n - i,
    {
        let p: (i32, i32) = ray_point_exec(ox, oy, tx, ty, i);
        let clear: bool = if p.0 >= 0 && p.0 < MAP_WIDTH && p.1 >= 0 && p.1 < MAP_HEIGHT {
            !m.tile(p.0, p.1).block_sight
        } else {
            false
        };
        if !clear {
            proof {
                assert(!transparent(
                    *m,
                    ray_point(ox as int, oy as int, tx as int, ty as int, i as int).0,
                    ray_point(ox as int, oy as int, tx as int, ty as int, i as int).1,
                ));
            }
            return false;
        }
        i = i + 1;
    }
    if light_walls {
        true
    } else {
        !m.tile(tx, ty).block_sight
    }
}

/// The set of currently visible cells, as computed for one origin,
/// radius and wall-lighting mode.
pub struct FovData {
    visible: Vec<Vec<bool>>,
}

impl View for FovData {
    type V = Seq<Seq<bool>>;

    closed spec fn view(&self) -> Seq<Seq<bool>> {
        self.visible@.map_values(|col: Vec<bool>| col@)
    }
}

impl FovData {
    /// The grid of flags has exactly the fixed session dimensions.
    pub open spec fn wf(self) -> bool {
        &&& self@.len() == MAP_WIDTH
        &&& forall|x: int| 0 <= x < MAP_WIDTH ==> (#[trigger] self@[x]).len() == MAP_HEIGHT
    }

    /// Whether this set holds `(x, y)`.
    pub open spec fn vis_at(self, x: int, y: int) -> bool {
        self@[x][y]
    }

    /// Compute the visible set from `(ox, oy)`: every cell's flag equals
    /// the visibility predicate.
    pub fn compute(m: &GameMap, ox: i32, oy: i32, radius: i32, light_walls: bool) -> (fov: FovData)
        requires
            m.wf(),
            in_bounds(ox as int, oy as int),
            0 <= radius <= 1000,
        ensures
            fov.wf(),
            forall|x: int, y: int|
                in_bounds(x, y) ==> #[trigger] fov.vis_at(x, y) == spec_visible(
                    *m,
                    ox as int,
                    oy as int,
                    x,
                    y,
                    radius as int,
                    light_walls,
                ),
    {
        let w: usize = MAP_WIDTH as usize;
        let h: usize = MAP_HEIGHT as usize;
        let mut grid: Vec<Vec<bool>> = Vec::new();
        let mut x: usize = 0;
        while x < w
            invariant
                x <= w,
                w == MAP_WIDTH,
                h == MAP_HEIGHT,
                m.wf(),
                in_bounds(ox as int, oy as int),
                0 <= radius <= 1000,
                grid@.len() == x,
                forall|xi: int|
                    0 <= xi < x ==> (#[trigger] grid@[xi])@.len() == MAP_HEIGHT,
                forall|xi: int, yi: int|
                    0 <= xi < x && 0 <= yi < MAP_HEIGHT ==> #[trigger] grid@[xi]@[yi]
                        == spec_visible(
                        *m,
                        ox as int,
                        oy as int,
                        xi,
                        yi,
                        radius as int,
                        light_walls,
                    ),
            decreases w - x,
        {
            let mut col: Vec<bool> = Vec::new();
            let mut y: usize = 0;
            while y < h
                invariant
                    y <= h,
                    x < w,
                    w == MAP_WIDTH,
                    h == MAP_HEIGHT,
                    m.wf(),
                    in_bounds(ox as int, oy as int),
                    0 <= radius <= 1000,
                    col@.len() == y,
                    forall|yi: int|
                        0 <= yi < y ==> col@[yi] == spec_visible(
                            *m,
                            ox as int,
                            oy as int,
                            x as int,
                            yi,
                            radius as int,
                            light_walls,
                        ),
                decreases h - y,
            {
                let v: bool = is_visible(m, ox, oy, x as i32, y as i32, radius, light_walls);
                col.push(v);
                y = y + 1;
            }
            grid.push(col);
            x = x + 1;
        }
        let fov = FovData { visible: grid };
        proof {
            assert forall|xi: int, yi: int| in_bounds(xi, yi) implies #[trigger] fov.vis_at(xi, yi)
                == spec_visible(*m, ox as int, oy as int, xi, yi, radius as int, light_walls) by {
                assert(fov@[xi] == grid@[xi]@);
                assert(grid@[xi]@[yi] == spec_visible(
                    *m,
                    ox as int,
                    oy as int,
                    xi,
                    yi,
                    radius as int,
                    light_walls,
                ));
            }
        }
        fov
    }

    /// Read one flag of the visible set.
    pub fn is_in_fov(&self, x: i32, y: i32) -> (b: bool)
        requires
            self.wf(),
            in_bounds(x as int, y as int),
        ensures
            b == self.vis_at(x as int, y as int),
    {
        proof {
            assert(self@[x as int] == self.visible@[x as int]@);
        }
        self.visible[x as usize][y as usize]
    }
}

/// Mark every currently visible cell as explored. Exploration only ever
/// grows: a cell explored before stays explored, whatever is visible now.
pub fn update_explored(m: &mut GameMap, fov: &FovData)
    requires
        old(m).wf(),
        fov.wf(),
    ensures
        final(m).wf(),
        forall|x: int, y: int|
            in_bounds(x, y) ==> final(m).spec_tile(x, y) == (Tile {
                explored: old(m).spec_tile(x, y).explored || fov.vis_at(x, y),
                ..old(m).spec_tile(x, y)
            }),
        forall|x: int, y: int|
            in_bounds(x, y) && old(m).explored_at(x, y) ==> final(m).explored_at(x, y),
{
    let w: i32 = MAP_WIDTH;
    let h: i32 = MAP_HEIGHT;
    let mut x: i32 = 0;
    while x < w
        invariant
            0 <= x <= w,
            w == MAP_WIDTH,
            h == MAP_HEIGHT,
            m.wf(),
            fov.wf(),
            forall|xi: int, yi: int|
                in_bounds(xi, yi) ==> m.spec_tile(xi, yi) == (if xi < x {
                    Tile {
                        explored: old(m).spec_tile(xi, yi).explored || fov.vis_at(xi, yi),
                        ..old(m).spec_tile(xi, yi)
                    }
                } else {
                    old(m).spec_tile(xi, yi)
                }),
        decreases w - x,
    {
        let mut y: i32 = 0;
        while y < h
            invariant
                0 <= x < w,
                0 <= y <= h,
                w == MAP_WIDTH,
                h == MAP_HEIGHT,
                m.wf(),
                fov.wf(),
                forall|xi: int, yi: int|
                    in_bounds(xi, yi) ==> m.spec_tile(xi, yi) == (if xi < x || (xi == x && yi < y) {
                        Tile {
                            explored: old(m).spec_tile(xi, yi).explored || fov.vis_at(xi, yi),
                            ..old(m).spec_tile(xi, yi)
                        }
                    } else {
                        old(m).spec_tile(xi, yi)
                    }),
            decreases h - y,
        {
            if fov.is_in_fov(x, y) {
                m.mark_explored(x, y);
            }
            y = y + 1;
        }
        x = x + 1;
    }
}

/// The origin of a visibility computation always sees its own cell.
pub proof fn lemma_origin_visible(
    m: GameMap,
    ox: int,
    oy: int,
    radius: int,
    light_walls: bool,
)
    ensures
        spec_visible(m, ox, oy, ox, oy, radius, light_walls),
{
}

/// A cell strictly behind an opaque cell on its own ray is never
/// visible, with or without lit walls: the opaque cell interrupts every
/// farther cell of that ray.
pub proof fn lemma_opaque_blocks_behind(
    m: GameMap,
    ox: int,
    oy: int,
    tx: int,
    ty: int,
    radius: int,
    light_walls: bool,
    i: int,
)
    requires
        !(tx == ox && ty == oy),
        1 <= i < cheb(tx - ox, ty - oy),
        !transparent(m, ray_point(ox, oy, tx, ty, i).0, ray_point(ox, oy, tx, ty, i).1),
    ensures
        !spec_visible(m, ox, oy, tx, ty, radius, light_walls),
{
}

/// When walls are not lit, an opaque cell is never visible (except as
/// the origin itself).
pub proof fn lemma_opaque_needs_light_walls(
    m: GameMap,
    ox: int,
    oy: int,
    tx: int,
    ty: int,
    radius: int,
)
    requires
        !(tx == ox && ty == oy),
        !transparent(m, tx, ty),
    ensures
        !spec_visible(m, ox, oy, tx, ty, radius, false),
{
}

/// When walls are lit, an opaque cell with a clear ray from the origin
/// is visible exactly like a floor cell would be: the wall itself is
/// shown, while everything behind it stays hidden.
pub proof fn lemma_lit_wall_visible(
    m: GameMap,
    ox: int,
    oy: int,
    tx: int,
    ty: int,
    radius: int,
)
    requires
        dist2(ox, oy, tx, ty) <= radius * radius,
        forall|i: int|
            1 <= i < cheb(tx - ox, ty - oy) ==> transparent(
                m,
                #[trigger] ray_point(ox, oy, tx, ty, i).0,
                ray_point(ox, oy, tx, ty, i).1,
            ),
    ensures
        spec_visible(m, ox, oy, tx, ty, radius, true),
{
}

} // verus!
