use dungeon_core::{
    cast_confuse, cast_heal, cast_lightning, create_orc, create_player, pick_item_up, use_item,
    Ai, Color, FovData, GameMap, Item, Messages, Object, Rect, UseResult,
};

fn carved_map() -> GameMap {
    let mut m = GameMap::new();
    m.create_room(Rect::new(5, 5, 20, 20));
    m
}

fn potion(x: i32, y: i32) -> Object {
    let mut o = Object::new(x, y, '!', "healing potion", Color::violet(), false);
    o.item = Some(Item::Heal);
    o
}

#[test]
fn pickup_below_capacity_moves_the_entity() {
    let mut objects = vec![create_player(12, 12), potion(12, 12)];
    let mut inventory: Vec<Object> = Vec::new();
    let mut messages = Messages::new();
    pick_item_up(1, &mut objects, &mut inventory, &mut messages);
    assert_eq!(objects.len(), 1);
    assert_eq!(inventory.len(), 1);
    assert_eq!(inventory[0].name.as_str(), "healing potion");
    assert_eq!(messages.len(), 1);
    assert_eq!(messages.get(0).text.as_str(), "You picked up a healing potion.");
    assert_eq!(messages.get(0).color, Color::green());
}

#[test]
fn pickup_at_capacity_narrates_full_and_leaves_the_entity() {
    let mut objects = vec![create_player(12, 12), potion(12, 12)];
    let mut inventory: Vec<Object> = Vec::new();
    for _ in 0..26 {
        inventory.push(potion(0, 0));
    }
    let mut messages = Messages::new();
    pick_item_up(1, &mut objects, &mut inventory, &mut messages);
    assert_eq!(objects.len(), 2);
    assert_eq!(inventory.len(), 26);
    assert_eq!(messages.len(), 1);
    assert_eq!(
        messages.get(0).text.as_str(),
        "Inventory full, cannot pickup healing potion."
    );
    assert_eq!(messages.get(0).color, Color::red());
}

#[test]
fn heal_at_full_health_still_consumes() {
    let mut objects = vec![create_player(12, 12)];
    let mut messages = Messages::new();
    let r = cast_heal(&mut objects, &mut messages);
    assert!(matches!(r, UseResult::UsedUp));
    assert_eq!(objects[0].fighter.as_ref().unwrap().hp, 30);
    assert_eq!(messages.len(), 2);
    assert_eq!(messages.get(0).text.as_str(), "You are already at full health.");
    assert_eq!(messages.get(1).text.as_str(), "Your wounds start to heal!");
}

#[test]
fn heal_restores_up_to_four_hit_points() {
    let mut objects = vec![create_player(12, 12)];
    let mut messages = Messages::new();
    objects[0].take_damage(10, &mut messages);
    let r = cast_heal(&mut objects, &mut messages);
    assert!(matches!(r, UseResult::UsedUp));
    assert_eq!(objects[0].fighter.as_ref().unwrap().hp, 24);
    assert_eq!(messages.len(), 1);
    assert_eq!(messages.get(0).text.as_str(), "Your wounds start to heal!");
}

#[test]
fn lightning_without_target_cancels_with_zero_damage() {
    let m = carved_map();
    let mut objects = vec![create_player(12, 12)];
    let fov = FovData::compute(&m, 12, 12, 10, true);
    let mut messages = Messages::new();
    let r = cast_lightning(&fov, &mut objects, &mut messages);
    assert!(matches!(r, UseResult::Cancelled));
    assert_eq!(messages.len(), 1);
    assert_eq!(messages.get(0).text.as_str(), "No enemy is in range.");
    assert_eq!(objects.len(), 1);
    assert_eq!(objects[0].fighter.as_ref().unwrap().hp, 30);
}

#[test]
fn lightning_out_of_range_target_cancels() {
    let m = carved_map();
    // the orc is visible but at distance 8 > lightning range 5
    let mut objects = vec![create_player(12, 12), create_orc(20, 12)];
    let fov = FovData::compute(&m, 12, 12, 10, true);
    let mut messages = Messages::new();
    let r = cast_lightning(&fov, &mut objects, &mut messages);
    assert!(matches!(r, UseResult::Cancelled));
    assert_eq!(objects[1].fighter.as_ref().unwrap().hp, 10);
}

#[test]
fn lightning_kills_a_nearby_orc() {
    let m = carved_map();
    let mut objects = vec![create_player(12, 12), create_orc(14, 12)];
    let fov = FovData::compute(&m, 12, 12, 10, true);
    let mut messages = Messages::new();
    let r = cast_lightning(&fov, &mut objects, &mut messages);
    assert!(matches!(r, UseResult::UsedUp));
    // 40 damage kills the 10 hp orc: death narration first, then the
    // strike is narrated with the name the target bears afterwards
    assert!(!objects[1].alive);
    assert_eq!(objects[1].name.as_str(), "remains of orc");
    assert_eq!(messages.len(), 2);
    assert_eq!(messages.get(0).text.as_str(), "orc dies!");
    assert_eq!(
        messages.get(1).text.as_str(),
        "A lightning bolt strikes the remains of orc for 40 damage."
    );
}

#[test]
fn lightning_hits_the_nearest_of_two() {
    let m = carved_map();
    let mut objects = vec![
        create_player(12, 12),
        create_orc(16, 12),
        create_orc(14, 12),
    ];
    let fov = FovData::compute(&m, 12, 12, 10, true);
    let mut messages = Messages::new();
    let r = cast_lightning(&fov, &mut objects, &mut messages);
    assert!(matches!(r, UseResult::UsedUp));
    // the nearer orc (slot 2) is struck, the farther one untouched
    assert!(!objects[2].alive);
    assert!(objects[1].alive);
    assert_eq!(objects[1].fighter.as_ref().unwrap().hp, 10);
}

#[test]
fn confuse_replaces_ai_and_remembers_the_previous_one() {
    let m = carved_map();
    let mut objects = vec![create_player(12, 12), create_orc(14, 12)];
    let fov = FovData::compute(&m, 12, 12, 10, true);
    let mut messages = Messages::new();
    let r = cast_confuse(&fov, &mut objects, &mut messages);
    assert!(matches!(r, UseResult::UsedUp));
    match objects[1].ai.as_ref() {
        Some(Ai::Confused { previous_ai, num_turns }) => {
            assert_eq!(*num_turns, 10);
            assert!(matches!(**previous_ai, Ai::Basic));
        }
        other => panic!("expected confused state, found {:?}", other),
    }
    assert_eq!(messages.len(), 1);
    assert_eq!(
        messages.get(0).text.as_str(),
        "The orc begins to stumble around!"
    );
    assert_eq!(messages.get(0).color, Color::light_green());
}

#[test]
fn confuse_without_target_cancels() {
    let m = carved_map();
    let mut objects = vec![create_player(12, 12)];
    let fov = FovData::compute(&m, 12, 12, 10, true);
    let mut messages = Messages::new();
    let r = cast_confuse(&fov, &mut objects, &mut messages);
    assert!(matches!(r, UseResult::Cancelled));
    assert_eq!(messages.get(0).text.as_str(), "No enemy is in range.");
}

#[test]
fn using_a_potion_consumes_the_slot() {
    let m = carved_map();
    let mut objects = vec![create_player(12, 12)];
    objects[0].take_damage(10, &mut Messages::new());
    let mut inventory = vec![potion(0, 0)];
    let fov = FovData::compute(&m, 12, 12, 10, true);
    let mut messages = Messages::new();
    use_item(0, &fov, &mut objects, &mut inventory, &mut messages);
    assert_eq!(inventory.len(), 0);
    assert_eq!(objects[0].fighter.as_ref().unwrap().hp, 24);
}

#[test]
fn cancelled_use_keeps_the_slot_and_narrates() {
    let m = carved_map();
    let mut objects = vec![create_player(12, 12)];
    let mut scroll = Object::new(0, 0, '#', "scroll of lightning bolt", Color::light_azure(), false);
    scroll.item = Some(Item::Lightning);
    let mut inventory = vec![scroll];
    let fov = FovData::compute(&m, 12, 12, 10, true);
    let mut messages = Messages::new();
    use_item(0, &fov, &mut objects, &mut inventory, &mut messages);
    assert_eq!(inventory.len(), 1);
    assert_eq!(messages.len(), 2);
    assert_eq!(messages.get(0).text.as_str(), "No enemy is in range.");
    assert_eq!(messages.get(1).text.as_str(), "Cancelled");
}

#[test]
fn an_entity_without_item_capability_cannot_be_used() {
    let m = carved_map();
    let mut objects = vec![create_player(12, 12)];
    let rock = Object::new(0, 0, '*', "rock", Color::white(), false);
    let mut inventory = vec![rock];
    let fov = FovData::compute(&m, 12, 12, 10, true);
    let mut messages = Messages::new();
    use_item(0, &fov, &mut objects, &mut inventory, &mut messages);
    assert_eq!(inventory.len(), 1);
    assert_eq!(messages.len(), 1);
    assert_eq!(messages.get(0).text.as_str(), "The rock cannot be used.");
}
