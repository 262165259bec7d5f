use dungeon_core::{is_visible, update_explored, FovData, GameMap, Rect, MAP_HEIGHT, MAP_WIDTH};

fn room_map() -> GameMap {
    let mut m = GameMap::new();
    // interior 6..=24 on both axes
    m.create_room(Rect::new(5, 5, 20, 20));
    m
}

#[test]
fn origin_is_always_visible() {
    let m = room_map();
    assert!(is_visible(&m, 12, 12, 12, 12, 10, true));
    assert!(is_visible(&m, 12, 12, 12, 12, 10, false));
    assert!(is_visible(&m, 12, 12, 12, 12, 0, false));
    // even from inside a wall, the origin sees its own cell
    assert!(is_visible(&m, 0, 0, 0, 0, 10, false));
}

#[test]
fn open_floor_is_visible_within_radius() {
    let m = room_map();
    assert!(is_visible(&m, 12, 12, 18, 12, 10, true));
    assert!(is_visible(&m, 12, 12, 12, 20, 10, true));
    assert!(is_visible(&m, 12, 12, 17, 17, 10, true));
}

#[test]
fn radius_bounds_visibility() {
    let m = room_map();
    // squared distance 121 > 100: out of the torch radius
    assert!(!is_visible(&m, 7, 12, 18, 12, 10, true));
    // squared distance 100 is exactly on the radius
    assert!(is_visible(&m, 7, 12, 17, 12, 10, true));
}

#[test]
fn wall_is_shown_only_when_walls_are_lit() {
    let m = room_map();
    // (25, 12) is the first wall cell east of the room interior
    assert!(m.tile(25, 12).block_sight);
    assert!(is_visible(&m, 20, 12, 25, 12, 10, true));
    assert!(!is_visible(&m, 20, 12, 25, 12, 10, false));
}

#[test]
fn cells_behind_an_opaque_cell_stay_hidden() {
    let m = room_map();
    // (26, 12) lies strictly behind the wall at (25, 12) on the same ray
    assert!(!is_visible(&m, 20, 12, 26, 12, 10, true));
    assert!(!is_visible(&m, 20, 12, 26, 12, 10, false));
    assert!(!is_visible(&m, 20, 12, 28, 12, 10, true));
}

#[test]
fn computed_set_matches_pointwise_queries() {
    let m = room_map();
    let fov = FovData::compute(&m, 12, 12, 10, true);
    for x in 0..MAP_WIDTH {
        for y in 0..MAP_HEIGHT {
            assert_eq!(fov.is_in_fov(x, y), is_visible(&m, 12, 12, x, y, 10, true));
        }
    }
}

#[test]
fn explored_grows_and_never_shrinks() {
    let mut m = room_map();
    for x in 0..MAP_WIDTH {
        for y in 0..MAP_HEIGHT {
            assert!(!m.tile(x, y).explored);
        }
    }
    let fov1 = FovData::compute(&m, 8, 8, 10, true);
    update_explored(&mut m, &fov1);
    let mut explored_first: Vec<(i32, i32)> = Vec::new();
    for x in 0..MAP_WIDTH {
        for y in 0..MAP_HEIGHT {
            assert_eq!(m.tile(x, y).explored, fov1.is_in_fov(x, y));
            if m.tile(x, y).explored {
                explored_first.push((x, y));
            }
        }
    }
    assert!(!explored_first.is_empty());
    // after moving, every previously explored cell stays explored
    let fov2 = FovData::compute(&m, 20, 20, 10, true);
    update_explored(&mut m, &fov2);
    for (x, y) in explored_first {
        assert!(m.tile(x, y).explored);
    }
}
