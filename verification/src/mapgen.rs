//! The dungeon generator: up to a fixed number of non-overlapping rooms,
//! carved into a walled grid and chained with L-shaped corridors, then
//! seeded with monsters and items on free floor cells.

use crate::engine::{is_blocked, on_floor, registry_wf};
use crate::entity::{create_orc, create_troll, orc_values, troll_values, Item, Object};
use crate::gamemap::{between, in_bounds, wall_or_floor, walled, GameMap};
use crate::geom::Rect;
use crate::messages::Message;
use crate::rng::{rand_coin, rand_range};
use crate::tile::Tile;
use crate::{Color, MAP_HEIGHT, MAP_WIDTH};
use vstd::arithmetic::div_mod::{lemma_div_is_ordered, lemma_fundamental_div_mod_converse};
use vstd::prelude::*;

verus! {

/// Largest room side length the generator draws.
pub const ROOM_MAX_SIZE: i32 = 10;

/// Smallest room side length the generator draws.
pub const ROOM_MIN_SIZE: i32 = 6;

/// Number of room candidates the generator tries.
pub const MAX_ROOMS: i32 = 30;

/// Most monsters seeded into one room.
pub const MAX_ROOM_MONSTERS: i32 = 3;

/// Most items seeded into one room.
pub const MAX_ROOM_ITEMS: i32 = 2;

/// A room the generator can accept: wholly inside the grid, leaving its
/// outermost rectangle as wall, and wide enough to have an interior.
pub open spec fn room_in_grid(r: Rect) -> bool {
    &&& 0 <= r.x1
    &&& r.x1 + 2 <= r.x2
    &&& r.x2 < MAP_WIDTH
    &&& 0 <= r.y1
    &&& r.y1 + 2 <= r.y2
    &&& r.y2 < MAP_HEIGHT
}

/// The center of an accepted room lies strictly inside its interior.
pub proof fn lemma_center_interior(r: Rect)
    requires
        room_in_grid(r),
    ensures
        r.x1 < r.spec_center().0 < r.x2,
        r.y1 < r.spec_center().1 < r.y2,
{
    let sx = r.x1 + r.x2;
    let sy = r.y1 + r.y2;
    lemma_fundamental_div_mod_converse(2 * (r.x1 + 1), 2, r.x1 + 1, 0);
    lemma_fundamental_div_mod_converse(2 * (r.x2 - 1), 2, r.x2 - 1, 0);
    lemma_div_is_ordered(2 * (r.x1 + 1), sx, 2);
    lemma_div_is_ordered(sx, 2 * (r.x2 - 1), 2);
    lemma_fundamental_div_mod_converse(2 * (r.y1 + 1), 2, r.y1 + 1, 0);
    lemma_fundamental_div_mod_converse(2 * (r.y2 - 1), 2, r.y2 - 1, 0);
    lemma_div_is_ordered(2 * (r.y1 + 1), sy, 2);
    lemma_div_is_ordered(sy, 2 * (r.y2 - 1), 2);
}

/// Every cell of the horizontal segment from `xa` to `xb` at height `y`
/// is free to walk.
pub open spec fn h_clear(m: GameMap, xa: int, xb: int, y: int) -> bool {
    forall|x: int| between(xa, xb, x) ==> !(#[trigger] m.blocked_at(x, y))
}

/// Every cell of the vertical segment from `ya` to `yb` at column `x`
/// is free to walk.
pub open spec fn v_clear(m: GameMap, ya: int, yb: int, x: int) -> bool {
    forall|y: int| between(ya, yb, y) ==> !(#[trigger] m.blocked_at(x, y))
}

/// `a` and `b` are joined by one L-shaped path of free cells, bending
/// either at `(b.0, a.1)` or at `(a.0, b.1)`.
pub open spec fn l_connected(m: GameMap, a: (int, int), b: (int, int)) -> bool {
    ||| (h_clear(m, a.0, b.0, a.1) && v_clear(m, a.1, b.1, b.0))
    ||| (v_clear(m, a.1, b.1, a.0) && h_clear(m, a.0, b.0, b.1))
}

/// The accepted rooms: pairwise non-overlapping (by the inclusive-bounds
/// test, so abutting rooms are rejected too) and each inside the grid.
pub open spec fn rooms_ok(rooms: Seq<Rect>) -> bool {
    &&& forall|i: int, j: int|
        0 <= i < j < rooms.len() ==> !(#[trigger] rooms[i].spec_intersects(#[trigger] rooms[j]))
    &&& forall|i: int| 0 <= i < rooms.len() ==> room_in_grid(#[trigger] rooms[i])
}

/// Each accepted room's center is joined to the previous accepted
/// room's center by an L-shaped corridor of free cells.
pub open spec fn corridors_ok(m: GameMap, rooms: Seq<Rect>) -> bool {
    forall|i: int|
        1 <= i < rooms.len() ==> l_connected(
            m,
            #[trigger] rooms[i - 1].spec_center(),
            rooms[i].spec_center(),
        )
}

/// `(x, y)` lies on one of the two candidate L-shaped corridor paths
/// between `a` and `b`: a horizontal leg at either height, or a
/// vertical leg at either column. The generator carves exactly one of
/// the two Ls, so every corridor cell lies in this union.
pub open spec fn on_l_path(a: (int, int), b: (int, int), x: int, y: int) -> bool {
    ||| (between(a.0, b.0, x) && (y == a.1 || y == b.1))
    ||| (between(a.1, b.1, y) && (x == a.0 || x == b.0))
}

/// `(x, y)` lies strictly inside some accepted room.
pub open spec fn in_room_interior(rooms: Seq<Rect>, x: int, y: int) -> bool {
    exists|i: int|
        0 <= i < rooms.len() && (#[trigger] rooms[i]).x1 < x < rooms[i].x2 && rooms[i].y1 < y
            < rooms[i].y2
}

/// `(x, y)` lies on a candidate corridor path between some pair of
/// consecutive accepted room centers.
pub open spec fn on_some_corridor(rooms: Seq<Rect>, x: int, y: int) -> bool {
    exists|i: int|
        1 <= i < rooms.len() && #[trigger] on_l_path(
            rooms[i - 1].spec_center(),
            rooms[i].spec_center(),
            x,
            y,
        )
}

/// Every walkable cell lies inside an accepted room or on a corridor
/// between consecutive accepted room centers: the map is a walled grid
/// punctuated only by the rooms and their connecting corridors.
pub open spec fn floor_within(m: GameMap, rooms: Seq<Rect>) -> bool {
    forall|x: int, y: int|
        in_bounds(x, y) && !(#[trigger] m.blocked_at(x, y)) ==> in_room_interior(rooms, x, y)
            || on_some_corridor(rooms, x, y)
}

/// Accepting one more room keeps every walkable cell accounted for:
/// the fresh floor is the new room's interior and (at most) one
/// candidate L-path from the previously accepted room's center.
proof fn lemma_floor_extends(
    m0: GameMap,
    m1: GameMap,
    rooms0: Seq<Rect>,
    new_room: Rect,
    prev_c: (int, int),
    new_c: (int, int),
    has_corridor: bool,
)
    requires
        floor_within(m0, rooms0),
        has_corridor ==> rooms0.len() >= 1 && prev_c == rooms0[rooms0.len() - 1].spec_center(),
        new_c == new_room.spec_center(),
        forall|x: int, y: int|
            in_bounds(x, y) && !(#[trigger] m1.blocked_at(x, y)) ==> !m0.blocked_at(x, y) || (
            new_room.x1 < x < new_room.x2 && new_room.y1 < y < new_room.y2) || (has_corridor
                && on_l_path(prev_c, new_c, x, y)),
    ensures
        floor_within(m1, rooms0.push(new_room)),
{
    let rooms_new = rooms0.push(new_room);
    assert(rooms_new[rooms_new.len() - 1] == new_room);
    assert forall|x: int, y: int|
        in_bounds(x, y) && !(#[trigger] m1.blocked_at(x, y)) implies in_room_interior(
        rooms_new,
        x,
        y,
    ) || on_some_corridor(rooms_new, x, y) by {
        if new_room.x1 < x < new_room.x2 && new_room.y1 < y < new_room.y2 {
            assert(in_room_interior(rooms_new, x, y));
        } else if has_corridor && on_l_path(prev_c, new_c, x, y) {
            assert(rooms_new[rooms_new.len() - 1 - 1] == rooms0[rooms0.len() - 1]);
            assert(on_l_path(
                rooms_new[rooms_new.len() - 1 - 1].spec_center(),
                rooms_new[rooms_new.len() - 1].spec_center(),
                x,
                y,
            ));
            assert(on_some_corridor(rooms_new, x, y));
        } else {
            assert(!m0.blocked_at(x, y));
            if in_room_interior(rooms0, x, y) {
                let i = choose|i: int|
                    0 <= i < rooms0.len() && (#[trigger] rooms0[i]).x1 < x < rooms0[i].x2
                        && rooms0[i].y1 < y < rooms0[i].y2;
                assert(rooms_new[i] == rooms0[i]);
                assert(in_room_interior(rooms_new, x, y));
            } else {
                assert(on_some_corridor(rooms0, x, y));
                let i = choose|i: int|
                    1 <= i < rooms0.len() && #[trigger] on_l_path(
                        rooms0[i - 1].spec_center(),
                        rooms0[i].spec_center(),
                        x,
                        y,
                    );
                assert(rooms_new[i - 1] == rooms0[i - 1] && rooms_new[i] == rooms0[i]);
                assert(on_l_path(
                    rooms_new[i - 1].spec_center(),
                    rooms_new[i].spec_center(),
                    x,
                    y,
                ));
                assert(on_some_corridor(rooms_new, x, y));
            }
        }
    }
}

/// Every accepted room's side lengths are within the configured bounds.
pub open spec fn rooms_sized(rooms: Seq<Rect>) -> bool {
    forall|i: int|
        0 <= i < rooms.len() ==> {
            let r = #[trigger] rooms[i];
            &&& ROOM_MIN_SIZE <= r.x2 - r.x1 <= ROOM_MAX_SIZE
            &&& ROOM_MIN_SIZE <= r.y2 - r.y1 <= ROOM_MAX_SIZE
        }
}

/// Every cell strictly inside `r` is free to walk.
pub open spec fn room_carved(m: GameMap, r: Rect) -> bool {
    forall|x: int, y: int|
        r.x1 < x < r.x2 && r.y1 < y < r.y2 ==> !(#[trigger] m.blocked_at(x, y))
}

/// Every accepted room's interior is carved to floor.
pub open spec fn interiors_carved(m: GameMap, rooms: Seq<Rect>) -> bool {
    forall|i: int| 0 <= i < rooms.len() ==> room_carved(m, #[trigger] rooms[i])
}

/// Carving can only free cells, so every room interior carved so far
/// stays carved.
pub proof fn lemma_mono_carved(m0: GameMap, m1: GameMap, rooms: Seq<Rect>)
    requires
        rooms_ok(rooms),
        interiors_carved(m0, rooms),
        forall|x: int, y: int|
            in_bounds(x, y) && !m0.blocked_at(x, y) ==> !(#[trigger] m1.blocked_at(x, y)),
    ensures
        interiors_carved(m1, rooms),
{
    assert forall|i: int| 0 <= i < rooms.len() implies room_carved(m1, #[trigger] rooms[i]) by {
        let r = rooms[i];
        assert(room_in_grid(r));
        assert forall|x: int, y: int| r.x1 < x < r.x2 && r.y1 < y < r.y2 implies !(
        #[trigger] m1.blocked_at(x, y)) by {
            assert(!m0.blocked_at(x, y));
            assert(in_bounds(x, y));
        }
    }
}

/// A seeded monster: alive, blocking, with combat and AI capabilities.
pub open spec fn monster_like(o: Object) -> bool {
    &&& o.fighter is Some
    &&& o.ai is Some
    &&& o.alive
    &&& o.blocks
    &&& o.item is None
}

/// A seeded item: inert scenery with an item capability.
pub open spec fn item_like(o: Object) -> bool {
    &&& o.item is Some
    &&& o.fighter is None
    &&& o.ai is None
    &&& !o.alive
    &&& !o.blocks
}

/// What holds of an entity seeded into `room`: it stands on a free floor
/// cell strictly inside the room and is a valid monster or item.
pub open spec fn placed_in_room(m: GameMap, room: Rect, o: Object) -> bool {
    &&& room.x1 < o.x < room.x2
    &&& room.y1 < o.y < room.y2
    &&& in_bounds(o.x as int, o.y as int)
    &&& !m.blocked_at(o.x as int, o.y as int)
    &&& o.wf()
    &&& (monster_like(o) || item_like(o))
}

/// Every entity after the player stands on an unblocked cell and is a
/// valid monster or item.
pub open spec fn spawned_ok(m: GameMap, objs: Seq<Object>) -> bool {
    forall|k: int|
        1 <= k < objs.len() ==> {
            let o = #[trigger] objs[k];
            &&& in_bounds(o.x as int, o.y as int)
            &&& !m.blocked_at(o.x as int, o.y as int)
            &&& o.wf()
            &&& (monster_like(o) || item_like(o))
        }
}

/// Carving can only free cells: whatever was already walkable stays
/// walkable, so every corridor built so far stays intact.
pub proof fn lemma_mono_corridors(m0: GameMap, m1: GameMap, rooms: Seq<Rect>)
    requires
        rooms_ok(rooms),
        corridors_ok(m0, rooms),
        forall|x: int, y: int|
            in_bounds(x, y) && !m0.blocked_at(x, y) ==> !(#[trigger] m1.blocked_at(x, y)),
    ensures
        corridors_ok(m1, rooms),
{
    assert forall|i: int| 1 <= i < rooms.len() implies l_connected(
        m1,
        #[trigger] rooms[i - 1].spec_center(),
        rooms[i].spec_center(),
    ) by {
        lemma_center_interior(rooms[i - 1]);
        lemma_center_interior(rooms[i]);
        let a = rooms[i - 1].spec_center();
        let b = rooms[i].spec_center();
        assert(in_bounds(a.0, a.1) && in_bounds(b.0, b.1));
        if h_clear(m0, a.0, b.0, a.1) && v_clear(m0, a.1, b.1, b.0) {
            assert forall|x: int| between(a.0, b.0, x) implies !(#[trigger] m1.blocked_at(
                x,
                a.1,
            )) by {
                assert(!m0.blocked_at(x, a.1));
                assert(in_bounds(x, a.1));
            }
            assert forall|y: int| between(a.1, b.1, y) implies !(#[trigger] m1.blocked_at(
                b.0,
                y,
            )) by {
                assert(!m0.blocked_at(b.0, y));
                assert(in_bounds(b.0, y));
            }
        } else {
            assert(v_clear(m0, a.1, b.1, a.0) && h_clear(m0, a.0, b.0, b.1));
            assert forall|y: int| between(a.1, b.1, y) implies !(#[trigger] m1.blocked_at(
                a.0,
                y,
            )) by {
                assert(!m0.blocked_at(a.0, y));
                assert(in_bounds(a.0, y));
            }
            assert forall|x: int| between(a.0, b.0, x) implies !(#[trigger] m1.blocked_at(
                x,
                b.1,
            )) by {
                assert(!m0.blocked_at(x, b.1));
                assert(in_bounds(x, b.1));
            }
        }
    }
}

/// The entities appended to `objs0` split at `nm` into a prefix of at
/// most [`MAX_ROOM_MONSTERS`] freshly spawned orcs or trolls and a
/// suffix of at most [`MAX_ROOM_ITEMS`] items.
pub open spec fn seeded_split(objs0: Seq<Object>, objs1: Seq<Object>, nm: int) -> bool {
    &&& objs0.len() <= nm <= objs1.len()
    &&& nm - objs0.len() <= MAX_ROOM_MONSTERS
    &&& objs1.len() - nm <= MAX_ROOM_ITEMS
    &&& forall|k: int|
        objs0.len() <= k < nm ==> orc_values(#[trigger] objs1[k]) || troll_values(objs1[k])
    &&& forall|k: int| nm <= k < objs1.len() ==> item_like(#[trigger] objs1[k])
}

/// No entity earlier in the registry blocks the cell entity `k` stands
/// on. For an appended entity the registry up to index `k` is exactly
/// the registry at the moment it was appended, so this says its cell
/// held no blocking entity when the seeding check passed.
pub open spec fn free_at_append(objs: Seq<Object>, k: int) -> bool {
    forall|j: int|
        0 <= j < k ==> !((#[trigger] objs[j]).blocks && objs[j].x == objs[k].x && objs[j].y
            == objs[k].y)
}

/// Scatter a random number of monsters and then items into free cells of
/// the room's interior. A draw that lands on an occupied or blocked cell
/// places nothing, so up to [`MAX_ROOM_MONSTERS`] orcs or trolls are
/// appended first, then up to [`MAX_ROOM_ITEMS`] items, each on a cell
/// that held no blocking entity at that moment.
pub fn place_objects(room: Rect, map: &GameMap, objects: &mut Vec<Object>)
    requires
        map.wf(),
        room_in_grid(room),
    ensures
        final(objects)@.len() >= old(objects)@.len(),
        final(objects)@.subrange(0, old(objects)@.len() as int) == old(objects)@,
        forall|k: int|
            old(objects)@.len() <= k < final(objects)@.len() ==> placed_in_room(
                *map,
                room,
                #[trigger] final(objects)@[k],
            ),
        forall|k: int|
            old(objects)@.len() <= k < final(objects)@.len() ==> free_at_append(
                final(objects)@,
                k,
            ),
        exists|nm: int| #[trigger] seeded_split(old(objects)@, final(objects)@, nm),
{
    let ghost len0: int = objects@.len() as int;
    let num_monsters: i32 = rand_range(0, MAX_ROOM_MONSTERS + 1);
    let mut k: i32 = 0;
    while k < num_monsters
        invariant
            map.wf(),
            room_in_grid(room),
            objects@.len() >= len0,
            objects@.subrange(0, len0) == old(objects)@,
            len0 == old(objects)@.len(),
            0 <= k <= num_monsters || (k == 0 && num_monsters <= 0),
            0 <= num_monsters <= MAX_ROOM_MONSTERS,
            objects@.len() - len0 <= k,
            forall|j: int|
                len0 <= j < objects@.len() ==> placed_in_room(*map, room, #[trigger] objects@[j]),
            forall|j: int|
                len0 <= j < objects@.len() ==> orc_values(#[trigger] objects@[j]) || troll_values(
                    objects@[j],
                ),
            forall|j: int| len0 <= j < objects@.len() ==> free_at_append(objects@, j),
        decreases num_monsters - k,
    {
        let x: i32 = rand_range(room.x1 + 1, room.x2);
        let y: i32 = rand_range(room.y1 + 1, room.y2);
        if !is_blocked(x, y, map, objects) {
            let ghost objs0: Seq<Object> = objects@;
            let roll: i32 = rand_range(0, 100);
            let monster: Object = if roll < 80 {
                create_orc(x, y)
            } else {
                create_troll(x, y)
            };
            objects.push(monster);
            proof {
                assert(objects@.subrange(0, len0) =~= old(objects)@);
                assert forall|j: int| len0 <= j < objects@.len() implies free_at_append(
                    objects@,
                    j,
                ) by {
                    if j < objs0.len() {
                        assert(free_at_append(objs0, j));
                        assert forall|i: int|
                            0 <= i < j implies !((#[trigger] objects@[i]).blocks && objects@[i].x
                            == objects@[j].x && objects@[i].y == objects@[j].y) by {
                            assert(objects@[i] == objs0[i] && objects@[j] == objs0[j]);
                        }
                    } else {
                        assert forall|i: int|
                            0 <= i < j implies !((#[trigger] objects@[i]).blocks && objects@[i].x
                            == objects@[j].x && objects@[i].y == objects@[j].y) by {
                            assert(objects@[i] == objs0[i]);
                            assert(objects@[j] == monster);
                        }
                    }
                }
            }
        }
        k = k + 1;
    }
    let ghost nm: int = objects@.len() as int;
    let num_items: i32 = rand_range(0, MAX_ROOM_ITEMS + 1);
    let mut k2: i32 = 0;
    while k2 < num_items
        invariant
            map.wf(),
            room_in_grid(room),
            objects@.len() >= nm >= len0,
            objects@.subrange(0, len0) == old(objects)@,
            len0 == old(objects)@.len(),
            0 <= k2 <= num_items || (k2 == 0 && num_items <= 0),
            0 <= num_items <= MAX_ROOM_ITEMS,
            nm - len0 <= MAX_ROOM_MONSTERS,
            objects@.len() - nm <= k2,
            forall|j: int|
                len0 <= j < objects@.len() ==> placed_in_room(*map, room, #[trigger] objects@[j]),
            forall|j: int|
                len0 <= j < nm ==> orc_values(#[trigger] objects@[j]) || troll_values(objects@[j]),
            forall|j: int| nm <= j < objects@.len() ==> item_like(#[trigger] objects@[j]),
            forall|j: int| len0 <= j < objects@.len() ==> free_at_append(objects@, j),
        decreases num_items - k2,
    {
        let x: i32 = rand_range(room.x1 + 1, room.x2);
        let y: i32 = rand_range(room.y1 + 1, room.y2);
        if !is_blocked(x, y, map, objects) {
            let dice: i32 = rand_range(0, 100);
            let mut object: Object;
            if dice < 70 {
                object = Object::new(x, y, '!', "healing potion", Color::violet(), false);
                object.item = Some(Item::Heal);
            } else if dice < 80 {
                object = Object::new(
                    x,
                    y,
                    '#',
                    "scroll of lightning bolt",
                    Color::light_azure(),
                    false,
                );
                object.item = Some(Item::Lightning);
            } else {
                object = Object::new(x, y, '#', "scroll of confusion", Color::light_yellow(), false);
                object.item = Some(Item::Confuse);
            }
            let ghost objs0: Seq<Object> = objects@;
            objects.push(object);
            proof {
                assert(objects@.subrange(0, len0) =~= old(objects)@);
                assert forall|j: int| len0 <= j < objects@.len() implies free_at_append(
                    objects@,
                    j,
                ) by {
                    if j < objs0.len() {
                        assert(free_at_append(objs0, j));
                        assert forall|i: int|
                            0 <= i < j implies !((#[trigger] objects@[i]).blocks && objects@[i].x
                            == objects@[j].x && objects@[i].y == objects@[j].y) by {
                            assert(objects@[i] == objs0[i] && objects@[j] == objs0[j]);
                        }
                    } else {
                        assert forall|i: int|
                            0 <= i < j implies !((#[trigger] objects@[i]).blocks && objects@[i].x
                            == objects@[j].x && objects@[i].y == objects@[j].y) by {
                            assert(objects@[i] == objs0[i]);
                            assert(objects@[j] == object);
                        }
                    }
                }
            }
        }
        k2 = k2 + 1;
    }
    proof {
        assert(seeded_split(old(objects)@, objects@, nm));
    }
}

/// A carve that only turns cells strictly inside the border into fresh
/// floor keeps the border walled, the grid unexplored, and every cell a
/// plain wall or floor.
pub proof fn lemma_carve_interior(m0: GameMap, m1: GameMap)
    requires
        walled(m0),
        wall_or_floor(m0),
        forall|x: int, y: int| in_bounds(x, y) ==> !(#[trigger] m0.explored_at(x, y)),
        forall|x: int, y: int|
            in_bounds(x, y) ==> (#[trigger] m1.spec_tile(x, y)) == m0.spec_tile(x, y) || (0 < x
                < MAP_WIDTH - 1 && 0 < y < MAP_HEIGHT - 1 && m1.spec_tile(x, y) == (Tile {
                blocked: false,
                block_sight: false,
                explored: false,
            })),
    ensures
        walled(m1),
        forall|x: int, y: int| in_bounds(x, y) ==> !(#[trigger] m1.explored_at(x, y)),
        wall_or_floor(m1),
{
    assert forall|x: int, y: int|
        in_bounds(x, y) && (x == 0 || x == MAP_WIDTH - 1 || y == 0 || y == MAP_HEIGHT - 1) implies
    #[trigger] m1.blocked_at(x, y) by {
        assert(m0.blocked_at(x, y));
        assert(m1.spec_tile(x, y) == m0.spec_tile(x, y));
    }
    assert forall|x: int, y: int| in_bounds(x, y) implies !(#[trigger] m1.explored_at(x, y)) by {
        assert(!m0.explored_at(x, y));
    }
    assert forall|x: int, y: int|
        in_bounds(x, y) implies (#[trigger] m1.spec_tile(x, y)).blocked == m1.spec_tile(
        x,
        y,
    ).block_sight by {
        assert(m0.spec_tile(x, y).blocked == m0.spec_tile(x, y).block_sight);
    }
}

/// All fields other than the position are equal.
pub open spec fn same_but_pos(o0: Object, o1: Object) -> bool {
    o1 == (Object { x: o1.x, y: o1.y, ..o0 })
}

/// Generate a dungeon. Starting from a fully walled grid, up to
/// [`MAX_ROOMS`] random room candidates are drawn; one that overlaps an
/// accepted room (inclusive bounds) is silently discarded. Each accepted
/// room is carved, joined to the previously accepted room by an L-shaped
/// corridor (a coin toss picks the bend), and seeded with monsters and
/// items. The first room's center becomes the player's spawn cell.
///
/// The registry must hold exactly the player. Returns the map and the
/// accepted rooms: between one and [`MAX_ROOMS`] of them, sized within
/// the configured bounds, pairwise non-overlapping, each with its whole
/// interior carved to floor, and consecutive centers connected by free
/// cells. Every cell of the result is a wall or plain floor, every
/// floor cell lies in a room or on a corridor, and the player and every
/// seeded entity stand on unblocked floor.
pub fn make_map(objects: &mut Vec<Object>) -> (result: (GameMap, Vec<Rect>))
    requires
        old(objects)@.len() == 1,
        old(objects)@[0].wf(),
    ensures
        result.0.wf(),
        walled(result.0),
        forall|x: int, y: int| in_bounds(x, y) ==> !(#[trigger] result.0.explored_at(x, y)),
        1 <= result.1@.len() <= MAX_ROOMS,
        rooms_ok(result.1@),
        rooms_sized(result.1@),
        corridors_ok(result.0, result.1@),
        interiors_carved(result.0, result.1@),
        floor_within(result.0, result.1@),
        wall_or_floor(result.0),
        final(objects)@.len() >= 1,
        same_but_pos(old(objects)@[0], final(objects)@[0]),
        final(objects)@[0].x == result.1@[0].spec_center().0,
        final(objects)@[0].y == result.1@[0].spec_center().1,
        spawned_ok(result.0, final(objects)@),
        on_floor(result.0, final(objects)@),
        registry_wf(final(objects)@),
{
    let mut map: GameMap = GameMap::new();
    let mut rooms: Vec<Rect> = Vec::new();
    let mut attempt: i32 = 0;
    while attempt < MAX_ROOMS
        invariant
            map.wf(),
            walled(map),
            forall|x: int, y: int| in_bounds(x, y) ==> !(#[trigger] map.explored_at(x, y)),
            0 <= attempt <= MAX_ROOMS,
            attempt >= 1 ==> rooms@.len() >= 1,
            rooms@.len() <= attempt,
            rooms_ok(rooms@),
            rooms_sized(rooms@),
            corridors_ok(map, rooms@),
            interiors_carved(map, rooms@),
            floor_within(map, rooms@),
            wall_or_floor(map),
            old(objects)@.len() == 1,
            old(objects)@[0].wf(),
            objects@.len() >= 1,
            rooms@.len() == 0 ==> objects@ == old(objects)@,
            rooms@.len() >= 1 ==> same_but_pos(old(objects)@[0], objects@[0])
                && objects@[0].x == rooms@[0].spec_center().0 && objects@[0].y
                == rooms@[0].spec_center().1 && in_bounds(objects@[0].x as int, objects@[0].y as int)
                && !map.blocked_at(objects@[0].x as int, objects@[0].y as int),
            spawned_ok(map, objects@),
        decreases MAX_ROOMS - attempt,
    {
        let w: i32 = rand_range(ROOM_MIN_SIZE, ROOM_MAX_SIZE + 1);
        let h: i32 = rand_range(ROOM_MIN_SIZE, ROOM_MAX_SIZE + 1);
        let x: i32 = rand_range(0, MAP_WIDTH - w);
        let y: i32 = rand_range(0, MAP_HEIGHT - h);
        let new_room: Rect = Rect::new(x, y, w, h);
        let mut failed: bool = false;
        let mut i: usize = 0;
        while i < rooms.len()
            invariant
                i <= rooms@.len(),
                failed == exists|j: int|
                    0 <= j < i && new_room.spec_intersects(#[trigger] rooms@[j]),
            decreases rooms@.len() - i,
        {
            if new_room.intersects_with(&rooms[i]) {
                failed = true;
            }
            i = i + 1;
        }
        if !failed {
            let ghost m0: GameMap = map;
            let ghost objs0: Seq<Object> = objects@;
            map.create_room(new_room);
            proof {
                lemma_center_interior(new_room);
                assert forall|xi: int, yi: int|
                    in_bounds(xi, yi) && !m0.blocked_at(xi, yi) implies !(#[trigger] map.blocked_at(
                    xi,
                    yi,
                )) by {}
                lemma_mono_corridors(m0, map, rooms@);
                lemma_mono_carved(m0, map, rooms@);
                assert(room_carved(map, new_room)) by {
                    assert forall|xi: int, yi: int|
                        new_room.x1 < xi < new_room.x2 && new_room.y1 < yi < new_room.y2 implies !(
                    #[trigger] map.blocked_at(xi, yi)) by {
                        assert(in_bounds(xi, yi));
                    }
                }
                assert forall|xi: int, yi: int| in_bounds(xi, yi) implies (#[trigger] map.spec_tile(
                    xi,
                    yi,
                )) == m0.spec_tile(xi, yi) || (0 < xi < MAP_WIDTH - 1 && 0 < yi < MAP_HEIGHT - 1
                    && map.spec_tile(xi, yi) == (Tile {
                    blocked: false,
                    block_sight: false,
                    explored: false,
                })) by {}
                lemma_carve_interior(m0, map);
            }
            let center: (i32, i32) = new_room.center();
            let new_x: i32 = center.0;
            let new_y: i32 = center.1;
            if rooms.len() == 0 {
                objects[0].x = new_x;
                objects[0].y = new_y;
                proof {
                    assert(spawned_ok(map, objects@)) by {
                        assert(objects@.len() == 1);
                    }
                    assert forall|xx: int, yy: int|
                        in_bounds(xx, yy) && !(#[trigger] map.blocked_at(xx, yy)) implies
                        !m0.blocked_at(xx, yy) || (new_room.x1 < xx < new_room.x2 && new_room.y1
                        < yy < new_room.y2) || (false && on_l_path(
                        (0int, 0int),
                        new_room.spec_center(),
                        xx,
                        yy,
                    )) by {}
                    lemma_floor_extends(
                        m0,
                        map,
                        rooms@,
                        new_room,
                        (0int, 0int),
                        new_room.spec_center(),
                        false,
                    );
                }
            } else {
                let prev: Rect = rooms[rooms.len() - 1];
                proof {
                    assert(room_in_grid(prev)) by {
                        assert(rooms@[rooms@.len() - 1] == prev);
                    }
                    lemma_center_interior(prev);
                }
                let prev_center: (i32, i32) = prev.center();
                let prev_x: i32 = prev_center.0;
                let prev_y: i32 = prev_center.1;
                let ghost m1: GameMap = map;
                if rand_coin() {
                    map.create_h_tunnel(prev_x, new_x, prev_y);
                    let ghost m2: GameMap = map;
                    map.create_v_tunnel(prev_y, new_y, new_x);
                    proof {
                        assert forall|xi: int, yi: int|
                            in_bounds(xi, yi) && !m1.blocked_at(xi, yi) implies !(
                        #[trigger] map.blocked_at(xi, yi)) by {}
                        lemma_mono_corridors(m1, map, rooms@);
                        lemma_mono_carved(m1, map, rooms@);
                        assert(room_carved(map, new_room)) by {
                            assert forall|xi: int, yi: int|
                                new_room.x1 < xi < new_room.x2 && new_room.y1 < yi
                                < new_room.y2 implies !(#[trigger] map.blocked_at(xi, yi)) by {
                                assert(in_bounds(xi, yi));
                                assert(!m1.blocked_at(xi, yi));
                            }
                        }
                        assert forall|xi: int, yi: int|
                            in_bounds(xi, yi) implies (#[trigger] m2.spec_tile(xi, yi))
                            == m1.spec_tile(xi, yi) || (0 < xi < MAP_WIDTH - 1 && 0 < yi
                            < MAP_HEIGHT - 1 && m2.spec_tile(xi, yi) == (Tile {
                            blocked: false,
                            block_sight: false,
                            explored: false,
                        })) by {}
                        lemma_carve_interior(m1, m2);
                        assert forall|xi: int, yi: int|
                            in_bounds(xi, yi) implies (#[trigger] map.spec_tile(xi, yi))
                            == m2.spec_tile(xi, yi) || (0 < xi < MAP_WIDTH - 1 && 0 < yi
                            < MAP_HEIGHT - 1 && map.spec_tile(xi, yi) == (Tile {
                            blocked: false,
                            block_sight: false,
                            explored: false,
                        })) by {}
                        lemma_carve_interior(m2, map);
                        assert(h_clear(map, prev_x as int, new_x as int, prev_y as int)) by {
                            assert forall|xx: int|
                                between(prev_x as int, new_x as int, xx) implies !(
                            #[trigger] map.blocked_at(xx, prev_y as int)) by {
                                assert(in_bounds(xx, prev_y as int));
                                assert(!m2.blocked_at(xx, prev_y as int));
                            }
                        }
                        assert(v_clear(map, prev_y as int, new_y as int, new_x as int)) by {
                            assert forall|yy: int|
                                between(prev_y as int, new_y as int, yy) implies !(
                            #[trigger] map.blocked_at(new_x as int, yy)) by {
                                assert(in_bounds(new_x as int, yy));
                            }
                        }
                        assert forall|xx: int, yy: int|
                            in_bounds(xx, yy) && !(#[trigger] map.blocked_at(xx, yy)) implies
                            !m0.blocked_at(xx, yy) || (new_room.x1 < xx < new_room.x2
                            && new_room.y1 < yy < new_room.y2) || on_l_path(
                            prev.spec_center(),
                            new_room.spec_center(),
                            xx,
                            yy,
                        ) by {
                            assert(prev.spec_center().0 == prev_x && prev.spec_center().1
                                == prev_y);
                            assert(new_room.spec_center().0 == new_x && new_room.spec_center().1
                                == new_y);
                        }
                        assert(prev == rooms@[rooms@.len() - 1]);
                        lemma_floor_extends(
                            m0,
                            map,
                            rooms@,
                            new_room,
                            prev.spec_center(),
                            new_room.spec_center(),
                            true,
                        );
                    }
                } else {
                    map.create_v_tunnel(prev_y, new_y, prev_x);
                    let ghost m2: GameMap = map;
                    map.create_h_tunnel(prev_x, new_x, new_y);
                    proof {
                        assert forall|xi: int, yi: int|
                            in_bounds(xi, yi) && !m1.blocked_at(xi, yi) implies !(
                        #[trigger] map.blocked_at(xi, yi)) by {}
                        lemma_mono_corridors(m1, map, rooms@);
                        lemma_mono_carved(m1, map, rooms@);
                        assert(room_carved(map, new_room)) by {
                            assert forall|xi: int, yi: int|
                                new_room.x1 < xi < new_room.x2 && new_room.y1 < yi
                                < new_room.y2 implies !(#[trigger] map.blocked_at(xi, yi)) by {
                                assert(in_bounds(xi, yi));
                                assert(!m1.blocked_at(xi, yi));
                            }
                        }
                        assert forall|xi: int, yi: int|
                            in_bounds(xi, yi) implies (#[trigger] m2.spec_tile(xi, yi))
                            == m1.spec_tile(xi, yi) || (0 < xi < MAP_WIDTH - 1 && 0 < yi
                            < MAP_HEIGHT - 1 && m2.spec_tile(xi, yi) == (Tile {
                            blocked: false,
                            block_sight: false,
                            explored: false,
                        })) by {}
                        lemma_carve_interior(m1, m2);
                        assert forall|xi: int, yi: int|
                            in_bounds(xi, yi) implies (#[trigger] map.spec_tile(xi, yi))
                            == m2.spec_tile(xi, yi) || (0 < xi < MAP_WIDTH - 1 && 0 < yi
                            < MAP_HEIGHT - 1 && map.spec_tile(xi, yi) == (Tile {
                            blocked: false,
                            block_sight: false,
                            explored: false,
                        })) by {}
                        lemma_carve_interior(m2, map);
                        assert(v_clear(map, prev_y as int, new_y as int, prev_x as int)) by {
                            assert forall|yy: int|
                                between(prev_y as int, new_y as int, yy) implies !(
                            #[trigger] map.blocked_at(prev_x as int, yy)) by {
                                assert(in_bounds(prev_x as int, yy));
                                assert(!m2.blocked_at(prev_x as int, yy));
                            }
                        }
                        assert(h_clear(map, prev_x as int, new_x as int, new_y as int)) by {
                            assert forall|xx: int|
                                between(prev_x as int, new_x as int, xx) implies !(
                            #[trigger] map.blocked_at(xx, new_y as int)) by {
                                assert(in_bounds(xx, new_y as int));
                            }
                        }
                        assert forall|xx: int, yy: int|
                            in_bounds(xx, yy) && !(#[trigger] map.blocked_at(xx, yy)) implies
                            !m0.blocked_at(xx, yy) || (new_room.x1 < xx < new_room.x2
                            && new_room.y1 < yy < new_room.y2) || on_l_path(
                            prev.spec_center(),
                            new_room.spec_center(),
                            xx,
                            yy,
                        ) by {
                            assert(prev.spec_center().0 == prev_x && prev.spec_center().1
                                == prev_y);
                            assert(new_room.spec_center().0 == new_x && new_room.spec_center().1
                                == new_y);
                        }
                        assert(prev == rooms@[rooms@.len() - 1]);
                        lemma_floor_extends(
                            m0,
                            map,
                            rooms@,
                            new_room,
                            prev.spec_center(),
                            new_room.spec_center(),
                            true,
                        );
                    }
                }
            }
            proof {
                assert(spawned_ok(map, objects@)) by {
                    assert forall|k: int| 1 <= k < objects@.len() implies {
                        let o = #[trigger] objects@[k];
                        &&& in_bounds(o.x as int, o.y as int)
                        &&& !map.blocked_at(o.x as int, o.y as int)
                        &&& o.wf()
                        &&& (monster_like(o) || item_like(o))
                    } by {
                        assert(objects@[k] == objs0[k]);
                        let o = objs0[k];
                        assert(in_bounds(o.x as int, o.y as int) && !m0.blocked_at(
                            o.x as int,
                            o.y as int,
                        ) && o.wf() && (monster_like(o) || item_like(o)));
                        assert(!map.blocked_at(o.x as int, o.y as int));
                    }
                }
                assert(in_bounds(objects@[0].x as int, objects@[0].y as int));
                assert(!map.blocked_at(objects@[0].x as int, objects@[0].y as int));
            }
            let ghost objs_before_place: Seq<Object> = objects@;
            place_objects(new_room, &map, objects);
            proof {
                assert(objects@[0] == objs_before_place[0]) by {
                    assert(objects@.subrange(0, objs_before_place.len() as int)[0]
                        == objs_before_place[0]);
                }
                assert(spawned_ok(map, objects@)) by {
                    assert forall|k: int| 1 <= k < objects@.len() implies {
                        let o = #[trigger] objects@[k];
                        &&& in_bounds(o.x as int, o.y as int)
                        &&& !map.blocked_at(o.x as int, o.y as int)
                        &&& o.wf()
                        &&& (monster_like(o) || item_like(o))
                    } by {
                        if k < objs_before_place.len() {
                            assert(objects@.subrange(0, objs_before_place.len() as int)[k]
                                == objs_before_place[k]);
                            assert(objects@[k] == objs_before_place[k]);
                        } else {
                            assert(placed_in_room(map, new_room, objects@[k]));
                        }
                    }
                }
            }
            let ghost rooms0: Seq<Rect> = rooms@;
            rooms.push(new_room);
            proof {
                assert(room_in_grid(new_room));
                assert forall|a: int, b: int| 0 <= a < b < rooms@.len() implies !(
                #[trigger] rooms@[a].spec_intersects(#[trigger] rooms@[b])) by {
                    if b == rooms@.len() - 1 {
                        assert(rooms@[a] == rooms0[a]);
                        assert(!new_room.spec_intersects(rooms0[a]));
                    }
                }
                if rooms0.len() == 0 {
                    assert(rooms@[0] == new_room);
                } else {
                    assert(rooms@[0] == rooms0[0]);
                }
                assert(interiors_carved(map, rooms@)) by {
                    assert forall|i: int| 0 <= i < rooms@.len() implies room_carved(
                        map,
                        #[trigger] rooms@[i],
                    ) by {
                        if i < rooms0.len() {
                            assert(rooms@[i] == rooms0[i]);
                            assert(room_carved(map, rooms0[i]));
                        } else {
                            assert(rooms@[i] == new_room);
                        }
                    }
                }
                assert(rooms_sized(rooms@)) by {
                    assert forall|i: int|
                        0 <= i < rooms@.len() implies (ROOM_MIN_SIZE <= (#[trigger] rooms@[i]).x2
                        - rooms@[i].x1 <= ROOM_MAX_SIZE && ROOM_MIN_SIZE <= rooms@[i].y2
                        - rooms@[i].y1 <= ROOM_MAX_SIZE) by {
                        if i < rooms0.len() {
                            assert(rooms@[i] == rooms0[i]);
                            assert(ROOM_MIN_SIZE <= rooms0[i].x2 - rooms0[i].x1 <= ROOM_MAX_SIZE
                                && ROOM_MIN_SIZE <= rooms0[i].y2 - rooms0[i].y1 <= ROOM_MAX_SIZE);
                        } else {
                            assert(rooms@[i] == new_room);
                        }
                    }
                }
            }
        }
        attempt = attempt + 1;
    }
    proof {
        assert(rooms@.len() >= 1);
    }
    (map, rooms)
}

} // verus!
