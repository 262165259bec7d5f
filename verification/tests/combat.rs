use dungeon_core::{
    create_orc, create_player, Color, DeathCallback, Fighter, Messages, Object,
};

fn dummy_fighter(name: &str, hp: i32, defense: i32, power: i32) -> Object {
    let mut o = Object::new(30, 30, 'd', name, Color::white(), true);
    o.fighter = Some(Fighter {
        max_hp: hp,
        hp,
        defense,
        power,
        on_death: DeathCallback::Monster,
    });
    o.alive = true;
    o
}

#[test]
fn attack_power_five_defense_two_deals_three() {
    let mut attacker = create_player(10, 10);
    let mut defender = dummy_fighter("dummy", 10, 2, 1);
    let mut messages = Messages::new();
    attacker.attack(&mut defender, &mut messages);
    assert_eq!(defender.fighter.as_ref().unwrap().hp, 7);
    assert_eq!(messages.len(), 1);
    assert_eq!(messages.get(0).text.as_str(), "player attacks dummy for 3.");
    assert_eq!(messages.get(0).color, Color::white());
    // the attacker is untouched
    assert_eq!(attacker.fighter.as_ref().unwrap().hp, 30);
}

#[test]
fn attack_power_one_defense_five_has_no_effect() {
    let mut attacker = dummy_fighter("weakling", 10, 0, 1);
    let mut defender = dummy_fighter("tank", 10, 5, 1);
    let mut messages = Messages::new();
    attacker.attack(&mut defender, &mut messages);
    assert_eq!(defender.fighter.as_ref().unwrap().hp, 10);
    assert_eq!(messages.len(), 1);
    assert_eq!(
        messages.get(0).text.as_str(),
        "weakling attacks tank but has no effect."
    );
}

#[test]
fn monster_death_turns_into_remains() {
    let mut orc = create_orc(10, 10);
    let mut messages = Messages::new();
    orc.take_damage(10, &mut messages);
    assert!(!orc.alive);
    assert!(orc.fighter.is_none());
    assert!(orc.ai.is_none());
    assert!(!orc.blocks);
    assert_eq!(orc.glyph, '%');
    assert_eq!(orc.name.as_str(), "remains of orc");
    assert_eq!(messages.len(), 1);
    assert_eq!(messages.get(0).text.as_str(), "orc dies!");
    assert_eq!(messages.get(0).color, Color::orange());
}

#[test]
fn dead_monster_ignores_further_damage() {
    let mut orc = create_orc(10, 10);
    let mut messages = Messages::new();
    orc.take_damage(25, &mut messages);
    assert!(!orc.alive);
    let log_len = messages.len();
    orc.take_damage(5, &mut messages);
    orc.take_damage(0, &mut messages);
    assert!(!orc.alive);
    assert_eq!(orc.name.as_str(), "remains of orc");
    // no further narration: death happened exactly once
    assert_eq!(messages.len(), log_len);
}

#[test]
fn player_death_narrates_once() {
    let mut player = create_player(10, 10);
    let mut messages = Messages::new();
    player.take_damage(35, &mut messages);
    assert!(!player.alive);
    assert_eq!(player.glyph, '%');
    assert_eq!(player.fighter.as_ref().unwrap().hp, -5);
    assert_eq!(messages.len(), 1);
    assert_eq!(messages.get(0).text.as_str(), "You dead!");
    assert_eq!(messages.get(0).color, Color::red());
    // further damage lowers hit points but never re-runs the transition
    player.take_damage(1, &mut messages);
    assert_eq!(player.fighter.as_ref().unwrap().hp, -6);
    assert_eq!(messages.len(), 1);
}

#[test]
fn nonpositive_damage_changes_nothing() {
    let mut orc = create_orc(10, 10);
    let mut messages = Messages::new();
    orc.take_damage(0, &mut messages);
    orc.take_damage(-7, &mut messages);
    assert_eq!(orc.fighter.as_ref().unwrap().hp, 10);
    assert!(orc.alive);
    assert_eq!(messages.len(), 0);
}

#[test]
fn heal_caps_at_max_hp() {
    let mut player = create_player(10, 10);
    let mut messages = Messages::new();
    player.take_damage(6, &mut messages);
    assert_eq!(player.fighter.as_ref().unwrap().hp, 24);
    player.heal(4);
    assert_eq!(player.fighter.as_ref().unwrap().hp, 28);
    player.heal(4);
    assert_eq!(player.fighter.as_ref().unwrap().hp, 30);
    player.heal(4);
    assert_eq!(player.fighter.as_ref().unwrap().hp, 30);
}
