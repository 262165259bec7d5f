use dungeon_core::{
    ai_take_turn, create_orc, create_player, draw_order, handle_command, inventory_options,
    menu_choice, player_hp, Ai, Color, Command, FovData, GameMap, Item, Messages, Object,
    PlayerAction, Rect,
};

fn arena_map() -> GameMap {
    let mut m = GameMap::new();
    m.create_room(Rect::new(5, 5, 20, 20));
    m
}

#[test]
fn confusion_lasts_exactly_ten_turns() {
    let m = arena_map();
    let mut objects = vec![create_player(12, 12), create_orc(20, 20)];
    objects[1].ai = Some(Ai::Confused {
        previous_ai: Box::new(Ai::Basic),
        num_turns: 10,
    });
    let fov = FovData::compute(&m, 12, 12, 10, true);
    let mut messages = Messages::new();
    for step in 0..10 {
        ai_take_turn(1, &fov, &m, &mut objects, &mut messages);
        match objects[1].ai.as_ref() {
            Some(Ai::Confused { num_turns, .. }) => {
                assert_eq!(*num_turns, 10 - 1 - step);
            }
            other => panic!("reverted too early at step {}: {:?}", step, other),
        }
        // confused stumbling itself narrates nothing
        assert_eq!(messages.len(), 0);
    }
    // the eleventh invocation reverts, narrating exactly once
    ai_take_turn(1, &fov, &m, &mut objects, &mut messages);
    assert!(matches!(objects[1].ai, Some(Ai::Basic)));
    assert_eq!(messages.len(), 1);
    assert_eq!(
        messages.get(0).text.as_str(),
        "The orc is no longer confused!"
    );
    assert_eq!(messages.get(0).color, Color::red());
}

#[test]
fn basic_ai_steps_toward_a_visible_player() {
    let m = arena_map();
    let mut objects = vec![create_player(12, 12), create_orc(16, 12)];
    let fov = FovData::compute(&m, 12, 12, 10, true);
    let mut messages = Messages::new();
    ai_take_turn(1, &fov, &m, &mut objects, &mut messages);
    assert_eq!((objects[1].x, objects[1].y), (15, 12));
    assert_eq!(messages.len(), 0);
}

#[test]
fn basic_ai_chases_diagonally_when_the_angle_warrants() {
    let m = arena_map();
    // displacement (-4, -3) rounds to a full diagonal step
    let mut objects = vec![create_player(12, 12), create_orc(16, 15)];
    let fov = FovData::compute(&m, 12, 12, 10, true);
    let mut messages = Messages::new();
    ai_take_turn(1, &fov, &m, &mut objects, &mut messages);
    assert_eq!((objects[1].x, objects[1].y), (15, 14));
}

#[test]
fn basic_ai_steps_straight_on_a_steep_angle() {
    let m = arena_map();
    // displacement (-1, -7) rounds to a purely vertical step
    let mut objects = vec![create_player(12, 12), create_orc(13, 19)];
    let fov = FovData::compute(&m, 12, 12, 10, true);
    let mut messages = Messages::new();
    ai_take_turn(1, &fov, &m, &mut objects, &mut messages);
    assert_eq!((objects[1].x, objects[1].y), (13, 18));
}

#[test]
fn adjacent_basic_ai_attacks_the_player() {
    let m = arena_map();
    let mut objects = vec![create_player(12, 12), create_orc(13, 12)];
    let fov = FovData::compute(&m, 12, 12, 10, true);
    let mut messages = Messages::new();
    ai_take_turn(1, &fov, &m, &mut objects, &mut messages);
    // orc power 3 against player defense 2: one point of damage
    assert_eq!(objects[0].fighter.as_ref().unwrap().hp, 29);
    assert_eq!(messages.len(), 1);
    assert_eq!(messages.get(0).text.as_str(), "orc attacks player for 1.");
}

#[test]
fn moving_into_free_floor_takes_the_turn() {
    let m = arena_map();
    let mut objects = vec![create_player(12, 12)];
    let mut inventory: Vec<Object> = Vec::new();
    let fov = FovData::compute(&m, 12, 12, 10, true);
    let mut messages = Messages::new();
    let action = handle_command(
        Command::MoveRight,
        &fov,
        &m,
        &mut objects,
        &mut inventory,
        &mut messages,
    );
    assert_eq!(action, PlayerAction::TookTurn);
    assert_eq!((objects[0].x, objects[0].y), (13, 12));
}

#[test]
fn moving_into_a_monster_attacks_instead() {
    let m = arena_map();
    let mut objects = vec![create_player(12, 12), create_orc(13, 12)];
    let mut inventory: Vec<Object> = Vec::new();
    let fov = FovData::compute(&m, 12, 12, 10, true);
    let mut messages = Messages::new();
    let action = handle_command(
        Command::MoveRight,
        &fov,
        &m,
        &mut objects,
        &mut inventory,
        &mut messages,
    );
    assert_eq!(action, PlayerAction::TookTurn);
    // player stays put; orc takes 5 - 0 = 5 damage
    assert_eq!((objects[0].x, objects[0].y), (12, 12));
    assert_eq!(objects[1].fighter.as_ref().unwrap().hp, 5);
    assert_eq!(messages.get(0).text.as_str(), "player attacks orc for 5.");
}

#[test]
fn moving_into_a_wall_does_nothing() {
    let m = arena_map();
    let mut objects = vec![create_player(6, 6)];
    let mut inventory: Vec<Object> = Vec::new();
    let fov = FovData::compute(&m, 6, 6, 10, true);
    let mut messages = Messages::new();
    let action = handle_command(
        Command::MoveUp,
        &fov,
        &m,
        &mut objects,
        &mut inventory,
        &mut messages,
    );
    assert_eq!(action, PlayerAction::TookTurn);
    assert_eq!((objects[0].x, objects[0].y), (6, 6));
}

#[test]
fn a_dead_player_cannot_act() {
    let m = arena_map();
    let mut objects = vec![create_player(12, 12)];
    objects[0].alive = false;
    let mut inventory: Vec<Object> = Vec::new();
    let fov = FovData::compute(&m, 12, 12, 10, true);
    let mut messages = Messages::new();
    let action = handle_command(
        Command::MoveRight,
        &fov,
        &m,
        &mut objects,
        &mut inventory,
        &mut messages,
    );
    assert_eq!(action, PlayerAction::DidntTakeTurn);
    assert_eq!((objects[0].x, objects[0].y), (12, 12));
    // but leaving still works
    let action = handle_command(
        Command::Exit,
        &fov,
        &m,
        &mut objects,
        &mut inventory,
        &mut messages,
    );
    assert_eq!(action, PlayerAction::Exit);
}

#[test]
fn pickup_command_collects_an_item_underfoot() {
    let m = arena_map();
    let mut item = Object::new(12, 12, '!', "healing potion", Color::violet(), false);
    item.item = Some(Item::Heal);
    let mut objects = vec![create_player(12, 12), item];
    let mut inventory: Vec<Object> = Vec::new();
    let fov = FovData::compute(&m, 12, 12, 10, true);
    let mut messages = Messages::new();
    let action = handle_command(
        Command::Pickup,
        &fov,
        &m,
        &mut objects,
        &mut inventory,
        &mut messages,
    );
    // picking up consumes the turn
    assert_eq!(action, PlayerAction::TookTurn);
    assert_eq!(objects.len(), 1);
    assert_eq!(inventory.len(), 1);
}

#[test]
fn fullscreen_toggle_does_not_consume_the_turn() {
    let m = arena_map();
    let mut objects = vec![create_player(12, 12)];
    let mut inventory: Vec<Object> = Vec::new();
    let fov = FovData::compute(&m, 12, 12, 10, true);
    let mut messages = Messages::new();
    let action = handle_command(
        Command::ToggleFullscreen,
        &fov,
        &m,
        &mut objects,
        &mut inventory,
        &mut messages,
    );
    assert_eq!(action, PlayerAction::DidntTakeTurn);
}

#[test]
fn inventory_selection_uses_the_item() {
    let m = arena_map();
    let mut objects = vec![create_player(12, 12)];
    objects[0].take_damage(10, &mut Messages::new());
    let mut potion = Object::new(0, 0, '!', "healing potion", Color::violet(), false);
    potion.item = Some(Item::Heal);
    let mut inventory = vec![potion];
    let fov = FovData::compute(&m, 12, 12, 10, true);
    let mut messages = Messages::new();
    let action = handle_command(
        Command::Inventory(Some(0)),
        &fov,
        &m,
        &mut objects,
        &mut inventory,
        &mut messages,
    );
    assert_eq!(action, PlayerAction::TookTurn);
    assert_eq!(inventory.len(), 0);
    assert_eq!(objects[0].fighter.as_ref().unwrap().hp, 24);
}

#[test]
fn menu_choice_maps_letters_case_insensitively() {
    assert_eq!(menu_choice('a', 26), Some(0));
    assert_eq!(menu_choice('c', 26), Some(2));
    assert_eq!(menu_choice('C', 26), Some(2));
    assert_eq!(menu_choice('z', 26), Some(25));
    assert_eq!(menu_choice('d', 3), None);
    assert_eq!(menu_choice('a', 0), None);
    assert_eq!(menu_choice('1', 26), None);
    assert_eq!(menu_choice('{', 26), None);
}

#[test]
fn inventory_options_list_names_or_a_placeholder() {
    let empty: Vec<Object> = Vec::new();
    let opts = inventory_options(&empty);
    assert_eq!(opts.len(), 1);
    assert_eq!(opts[0].as_str(), "Inventory is empty.");
    let mut a = Object::new(0, 0, '!', "healing potion", Color::violet(), false);
    a.item = Some(Item::Heal);
    let mut b = Object::new(0, 0, '#', "scroll of confusion", Color::light_yellow(), false);
    b.item = Some(Item::Confuse);
    let inv = vec![a, b];
    let opts = inventory_options(&inv);
    assert_eq!(opts.len(), 2);
    assert_eq!(opts[0].as_str(), "healing potion");
    assert_eq!(opts[1].as_str(), "scroll of confusion");
}

#[test]
fn player_hp_reports_the_health_bar_pair() {
    let mut objects = vec![create_player(12, 12)];
    assert_eq!(player_hp(&objects), (30, 30));
    objects[0].take_damage(12, &mut Messages::new());
    assert_eq!(player_hp(&objects), (18, 30));
    objects[0].fighter = None;
    assert_eq!(player_hp(&objects), (0, 0));
}

#[test]
fn draw_order_puts_blocking_entities_last() {
    let m = arena_map();
    let mut potion = Object::new(13, 12, '!', "healing potion", Color::violet(), false);
    potion.item = Some(Item::Heal);
    let far_orc = create_orc(23, 23);  // outside the torch radius
    let objects = vec![create_player(12, 12), potion, create_orc(14, 12), far_orc];
    let fov = FovData::compute(&m, 12, 12, 10, true);
    let order = draw_order(&objects, &fov);
    // the invisible orc is filtered out; the non-blocking potion comes
    // first, then the blocking player and orc in stable registry order
    assert_eq!(order, vec![1, 0, 2]);
}
