use dungeon_core::{
    create_player, make_map, u32_to_string, GameMap, Object, Rect, Tile, MAP_HEIGHT, MAP_WIDTH,
};

fn h_clear_rt(map: &GameMap, xa: i32, xb: i32, y: i32) -> bool {
    let (lo, hi) = if xa < xb { (xa, xb) } else { (xb, xa) };
    let mut x = lo;
    while x <= hi {
        if map.tile(x, y).blocked {
            return false;
        }
        x += 1;
    }
    true
}

fn v_clear_rt(map: &GameMap, ya: i32, yb: i32, x: i32) -> bool {
    let (lo, hi) = if ya < yb { (ya, yb) } else { (yb, ya) };
    let mut y = lo;
    while y <= hi {
        if map.tile(x, y).blocked {
            return false;
        }
        y += 1;
    }
    true
}

#[test]
fn rect_center_is_exact() {
    let r = Rect::new(10, 10, 6, 8);
    assert_eq!(r.center(), (13, 14));
    let r2 = Rect::new(0, 0, 7, 7);
    assert_eq!(r2.center(), (3, 3));
}

#[test]
fn rect_intersection_is_inclusive() {
    let a = Rect::new(0, 0, 10, 10);
    let b = Rect::new(5, 5, 10, 10);
    assert!(a.intersects_with(&b));
    assert!(b.intersects_with(&a));
    // abutting rectangles count as overlapping on purpose
    let c = Rect::new(10, 0, 5, 5);
    assert!(a.intersects_with(&c));
    // properly separated rectangles do not
    let d = Rect::new(11, 11, 5, 5);
    assert!(!a.intersects_with(&d));
}

#[test]
fn tiles_have_expected_flags() {
    let e = Tile::empty();
    assert!(!e.blocked && !e.block_sight && !e.explored);
    let w = Tile::wall();
    assert!(w.blocked && w.block_sight && !w.explored);
}

#[test]
fn fresh_map_is_all_walls() {
    let m = GameMap::new();
    for x in 0..MAP_WIDTH {
        for y in 0..MAP_HEIGHT {
            assert!(m.tile(x, y).blocked);
            assert!(m.tile(x, y).block_sight);
            assert!(!m.tile(x, y).explored);
        }
    }
}

#[test]
fn carving_a_room_frees_its_interior_only() {
    let mut m = GameMap::new();
    let room = Rect::new(5, 5, 10, 8);
    m.create_room(room);
    for x in 0..MAP_WIDTH {
        for y in 0..MAP_HEIGHT {
            let inside = x > 5 && x < 15 && y > 5 && y < 13;
            assert_eq!(m.tile(x, y).blocked, !inside);
        }
    }
}

#[test]
fn generated_maps_satisfy_the_generation_contract() {
    // run the randomized generator several times and check the promised
    // properties on each outcome
    for _ in 0..5 {
        let mut objects: Vec<Object> = vec![create_player(0, 0)];
        let (map, rooms) = make_map(&mut objects);

        // at least the first candidate is always accepted, and no more
        // than the number of candidates drawn
        assert!(rooms.len() >= 1);
        assert!(rooms.len() <= 30);

        // every accepted room lies inside the grid with its walls intact
        for r in rooms.iter() {
            assert!(r.x1 >= 0 && r.x2 < MAP_WIDTH && r.y1 >= 0 && r.y2 < MAP_HEIGHT);
            let w = r.x2 - r.x1;
            let h = r.y2 - r.y1;
            assert!((6..=10).contains(&w));
            assert!((6..=10).contains(&h));
        }

        // no two accepted rooms overlap (inclusive-bounds test)
        for i in 0..rooms.len() {
            for j in (i + 1)..rooms.len() {
                assert!(!rooms[i].intersects_with(&rooms[j]));
            }
        }

        // the player spawns at the first room's center, on floor
        assert_eq!((objects[0].x, objects[0].y), rooms[0].center());
        assert!(!map.tile(objects[0].x, objects[0].y).blocked);

        // every accepted room's interior is fully carved to floor
        for r in rooms.iter() {
            for x in (r.x1 + 1)..r.x2 {
                for y in (r.y1 + 1)..r.y2 {
                    assert!(!map.tile(x, y).blocked);
                }
            }
        }

        // every floor cell lies inside an accepted room or on a
        // candidate corridor between consecutive accepted room centers
        for x in 0..MAP_WIDTH {
            for y in 0..MAP_HEIGHT {
                if !map.tile(x, y).blocked {
                    let in_room = rooms
                        .iter()
                        .any(|r| r.x1 < x && x < r.x2 && r.y1 < y && y < r.y2);
                    let mut on_corridor = false;
                    for k in 1..rooms.len() {
                        let (ax, ay) = rooms[k - 1].center();
                        let (bx, by) = rooms[k].center();
                        let h = x >= ax.min(bx) && x <= ax.max(bx) && (y == ay || y == by);
                        let v = y >= ay.min(by) && y <= ay.max(by) && (x == ax || x == bx);
                        if h || v {
                            on_corridor = true;
                        }
                    }
                    assert!(in_room || on_corridor);
                }
            }
        }

        // a cell that blocks movement always blocks sight and vice versa
        for x in 0..MAP_WIDTH {
            for y in 0..MAP_HEIGHT {
                let t = map.tile(x, y);
                assert_eq!(t.blocked, t.block_sight);
            }
        }

        // every seeded monster or item stands on an unblocked cell, and
        // every seeded monster is exactly an orc or a troll
        for o in objects.iter().skip(1) {
            assert!(!map.tile(o.x, o.y).blocked);
            if o.fighter.is_some() {
                let f = o.fighter.as_ref().unwrap();
                assert!(o.ai.is_some() && o.alive && o.blocks && o.item.is_none());
                let orc = o.glyph == 'o' && o.name.as_str() == "orc" && f.max_hp == 10
                    && f.hp == 10 && f.defense == 0 && f.power == 3;
                let troll = o.glyph == 'T' && o.name.as_str() == "troll" && f.max_hp == 16
                    && f.hp == 16 && f.defense == 1 && f.power == 4;
                assert!(orc || troll);
            } else {
                assert!(o.item.is_some() && !o.blocks && !o.alive && o.ai.is_none());
            }
        }

        // per room, the seeding stays within its caps: at most three
        // monsters and two items (entities lie strictly inside their
        // room, and accepted rooms are disjoint)
        for r in rooms.iter() {
            let mut monsters = 0;
            let mut items = 0;
            for o in objects.iter().skip(1) {
                if r.x1 < o.x && o.x < r.x2 && r.y1 < o.y && o.y < r.y2 {
                    if o.fighter.is_some() {
                        monsters += 1;
                    } else {
                        items += 1;
                    }
                }
            }
            assert!(monsters <= 3);
            assert!(items <= 2);
        }

        // consecutive room centers are joined by one clear L-shaped path
        for k in 1..rooms.len() {
            let (ax, ay) = rooms[k - 1].center();
            let (bx, by) = rooms[k].center();
            let variant_a = h_clear_rt(&map, ax, bx, ay) && v_clear_rt(&map, ay, by, bx);
            let variant_b = v_clear_rt(&map, ay, by, ax) && h_clear_rt(&map, ax, bx, by);
            assert!(variant_a || variant_b);
        }

        // the border stays fully walled
        for x in 0..MAP_WIDTH {
            assert!(map.tile(x, 0).blocked);
            assert!(map.tile(x, MAP_HEIGHT - 1).blocked);
        }
        for y in 0..MAP_HEIGHT {
            assert!(map.tile(0, y).blocked);
            assert!(map.tile(MAP_WIDTH - 1, y).blocked);
        }

        // generation never marks anything explored
        for x in 0..MAP_WIDTH {
            for y in 0..MAP_HEIGHT {
                assert!(!map.tile(x, y).explored);
            }
        }
    }
}

#[test]
fn decimal_rendering_is_exact() {
    assert_eq!(u32_to_string(0).as_str(), "0");
    assert_eq!(u32_to_string(7).as_str(), "7");
    assert_eq!(u32_to_string(10).as_str(), "10");
    assert_eq!(u32_to_string(40).as_str(), "40");
    assert_eq!(u32_to_string(12345).as_str(), "12345");
    assert_eq!(u32_to_string(4294967295).as_str(), "4294967295");
}
