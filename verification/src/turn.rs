//! The turn engine's player-action step: map one input command to
//! exactly one action — move-or-attack, pickup, item use, or one of the
//! actions that do not consume a turn.

use crate::engine::{
    lemma_move_or_attack_extends, move_or_attack_outcome, on_floor, player_move_or_attack,
    registry_wf, take_turn_outcome, with_ai, PLAYER,
};
use crate::entity::{damaged_obj, Item, Object};
use crate::fov::FovData;
use crate::gamemap::{in_bounds, walled, GameMap};
use crate::items::{pick_item_up, pickup_outcome, use_item, use_item_outcome, use_succeeds};
use crate::messages::{
    lemma_drop_last_extended, lemma_extended_refl, lemma_extended_transitive, lemma_pushed2_extends,
    lemma_pushed_extends, log_extended, Message, Messages,
};
use vstd::prelude::*;

verus! {

/// How the player's action is classified: whether it consumed the turn
/// (letting the AI phase run) or asked to leave the game.
#[derive(Clone, Copy, Debug, PartialEq, Eq, Structural)]
pub enum PlayerAction {
    TookTurn,
    DidntTakeTurn,
    Exit,
}

/// One decoded input event, as the surrounding input layer hands it in.
/// An inventory command carries the slot the player selected from the
/// menu, if any.
#[derive(Clone, Copy, Debug)]
pub enum Command {
    MoveUp,
    MoveDown,
    MoveLeft,
    MoveRight,
    Pickup,
    Inventory(Option<usize>),
    ToggleFullscreen,
    Exit,
    Other,
}

/// An entity with item capability standing on `(x, y)`.
pub open spec fn is_item_at(o: Object, x: int, y: int) -> bool {
    o.item is Some && o.x == x && o.y == y
}

/// Using an item leaves every entity on the floor and every fighter
/// within bounds: effects never move entities, and hit points only
/// drop or heal up to the maximum.
proof fn lemma_use_item_preserves(
    fov: FovData,
    m: GameMap,
    objs0: Seq<Object>,
    objs1: Seq<Object>,
    inv0: Seq<Object>,
    inv1: Seq<Object>,
    log0: Seq<Message>,
    log1: Seq<Message>,
    id: int,
)
    requires
        0 <= id < inv0.len(),
        objs0.len() >= 1,
        use_item_outcome(fov, objs0, objs1, inv0, inv1, log0, log1, id),
        on_floor(m, objs0),
        registry_wf(objs0),
    ensures
        objs1.len() == objs0.len(),
        on_floor(m, objs1),
        registry_wf(objs1),
{
    match inv0[id].item {
        None => {},
        Some(kind) => {
            match kind {
                Item::Heal => {},
                Item::Lightning => {
                    if use_succeeds(kind, fov, objs0) {
                        let t = choose|t: int|
                            #![auto]
                            {
                                &&& crate::engine::nearest_qualifying(
                                    objs0,
                                    fov,
                                    crate::items::LIGHTNING_RANGE as int,
                                    t,
                                )
                                &&& damaged_obj(
                                    objs0[t],
                                    objs1[t],
                                    crate::items::LIGHTNING_DAMAGE as int,
                                )
                                &&& (forall|k: int|
                                    0 <= k < objs0.len() && k != t ==> objs1[k] == objs0[k])
                                &&& crate::entity::damage_log(
                                    objs0[t],
                                    log0,
                                    log1.drop_last(),
                                    crate::items::LIGHTNING_DAMAGE as int,
                                )
                                &&& log1.len() == log1.drop_last().len() + 1
                                &&& log1.last().text@ == crate::items::lightning_msg(
                                    objs1[t].name@,
                                )
                                &&& log1.last().color == crate::color::spec_lighter_blue()
                            };
                        assert forall|k: int|
                            0 <= k < objs1.len() implies in_bounds(
                            (#[trigger] objs1[k]).x as int,
                            objs1[k].y as int,
                        ) && !m.blocked_at(objs1[k].x as int, objs1[k].y as int)
                            && objs1[k].wf() by {
                            if k != t {
                                assert(objs1[k] == objs0[k]);
                            } else {
                                assert(damaged_obj(
                                    objs0[t],
                                    objs1[t],
                                    crate::items::LIGHTNING_DAMAGE as int,
                                ));
                            }
                        }
                    }
                },
                Item::Confuse => {
                    if use_succeeds(kind, fov, objs0) {
                        let t = choose|t: int|
                            #![auto]
                            {
                                &&& crate::engine::nearest_qualifying(
                                    objs0,
                                    fov,
                                    crate::items::CONFUSE_RANGE as int,
                                    t,
                                )
                                &&& objs1[t] == with_ai(objs0[t], objs1[t].ai)
                                &&& (forall|k: int|
                                    0 <= k < objs0.len() && k != t ==> objs1[k] == objs0[k])
                            };
                        assert forall|k: int|
                            0 <= k < objs1.len() implies in_bounds(
                            (#[trigger] objs1[k]).x as int,
                            objs1[k].y as int,
                        ) && !m.blocked_at(objs1[k].x as int, objs1[k].y as int)
                            && objs1[k].wf() by {
                            if k != t {
                                assert(objs1[k] == objs0[k]);
                            } else {
                                assert(objs1[t] == with_ai(objs0[t], objs1[t].ai));
                            }
                        }
                    }
                },
            }
        },
    }
}

/// Using an item only appends to the log.
proof fn lemma_use_item_extends(
    fov: FovData,
    objs0: Seq<Object>,
    objs1: Seq<Object>,
    inv0: Seq<Object>,
    inv1: Seq<Object>,
    log0: Seq<Message>,
    log1: Seq<Message>,
    id: int,
)
    requires
        0 <= id < inv0.len(),
        objs0.len() >= 1,
        use_item_outcome(fov, objs0, objs1, inv0, inv1, log0, log1, id),
    ensures
        log_extended(log0, log1),
{
    match inv0[id].item {
        None => {
            lemma_pushed_extends(
                log0,
                log1,
                crate::items::cannot_use_msg(inv0[id].name@),
                crate::color::spec_white(),
            );
        },
        Some(kind) => {
            let dl = log1.drop_last();
            if use_succeeds(kind, fov, objs0) {
                match kind {
                    Item::Heal => {
                        match objs0[0].fighter {
                            Some(f) => {
                                if f.hp == f.max_hp {
                                    lemma_pushed2_extends(
                                        log0,
                                        log1,
                                        crate::items::full_health_msg(),
                                        crate::color::spec_red(),
                                        crate::items::heal_msg(),
                                        crate::color::spec_light_violet(),
                                    );
                                } else {
                                    lemma_pushed_extends(
                                        log0,
                                        log1,
                                        crate::items::heal_msg(),
                                        crate::color::spec_light_violet(),
                                    );
                                }
                            },
                            None => {},
                        }
                    },
                    Item::Lightning => {
                        let t = choose|t: int|
                            #![auto]
                            {
                                &&& crate::engine::nearest_qualifying(
                                    objs0,
                                    fov,
                                    crate::items::LIGHTNING_RANGE as int,
                                    t,
                                )
                                &&& crate::entity::damage_log(
                                    objs0[t],
                                    log0,
                                    log1.drop_last(),
                                    crate::items::LIGHTNING_DAMAGE as int,
                                )
                                &&& log1.len() == log1.drop_last().len() + 1
                            };
                        if crate::entity::spec_dies(
                            objs0[t],
                            crate::items::LIGHTNING_DAMAGE as int,
                        ) {
                            match objs0[t].fighter {
                                Some(f) => {
                                    if f.on_death == crate::entity::DeathCallback::Player {
                                        lemma_pushed_extends(
                                            log0,
                                            dl,
                                            "You dead!"@,
                                            crate::color::spec_red(),
                                        );
                                    } else {
                                        lemma_pushed_extends(
                                            log0,
                                            dl,
                                            crate::entity::monster_death_msg(objs0[t].name@),
                                            crate::color::spec_orange(),
                                        );
                                    }
                                },
                                None => {},
                            }
                        } else {
                            lemma_extended_refl(log0);
                        }
                        lemma_drop_last_extended(log1);
                        lemma_extended_transitive(log0, dl, log1);
                    },
                    Item::Confuse => {
                        let t = choose|t: int|
                            #![auto]
                            {
                                &&& crate::engine::nearest_qualifying(
                                    objs0,
                                    fov,
                                    crate::items::CONFUSE_RANGE as int,
                                    t,
                                )
                                &&& crate::messages::pushed(
                                    log0,
                                    log1,
                                    crate::items::stumble_msg(objs0[t].name@),
                                    crate::color::spec_light_green(),
                                )
                            };
                        lemma_pushed_extends(
                            log0,
                            log1,
                            crate::items::stumble_msg(objs0[t].name@),
                            crate::color::spec_light_green(),
                        );
                    },
                }
            } else {
                // a cancelled use appends the effect's own lines, then one
                // cancellation line
                match kind {
                    Item::Heal => {
                        lemma_extended_refl(log0);
                    },
                    Item::Lightning => {
                        lemma_pushed_extends(
                            log0,
                            dl,
                            crate::items::no_enemy_msg(),
                            crate::color::spec_red(),
                        );
                    },
                    Item::Confuse => {
                        lemma_pushed_extends(
                            log0,
                            dl,
                            crate::items::no_enemy_msg(),
                            crate::color::spec_red(),
                        );
                    },
                }
                lemma_drop_last_extended(log1);
                lemma_extended_transitive(log0, dl, log1);
            }
        },
    }
}

/// Resolve one decoded command for the player. Directional commands
/// move or attack, pickup collects the first item underfoot, and
/// opening the inventory dispatches the selected item, if any; each of
/// these consumes the turn. Only leaving, toggling the screen and
/// unmapped keys do not. A dead player can only leave the game or
/// toggle the screen; nothing else has any effect then.
pub fn handle_command(
    cmd: Command,
    fov: &FovData,
    map: &GameMap,
    objects: &mut Vec<Object>,
    inventory: &mut Vec<Object>,
    messages: &mut Messages,
) -> (action: PlayerAction)
    requires
        map.wf(),
        walled(*map),
        fov.wf(),
        on_floor(*map, old(objects)@),
        registry_wf(old(objects)@),
        old(objects)@.len() >= 1,
        old(objects)@[0].item is None,
    ensures
        final(objects)@.len() >= 1,
        on_floor(*map, final(objects)@),
        registry_wf(final(objects)@),
        final(objects)@[0].item is None,
        log_extended(old(messages)@, final(messages)@),
        ({
            let alive = old(objects)@[0].alive;
            let unchanged = final(objects)@ == old(objects)@ && final(inventory)@ == old(
                inventory,
            )@ && final(messages)@ == old(messages)@;
            match cmd {
                Command::Exit => action == PlayerAction::Exit && unchanged,
                Command::ToggleFullscreen => action == PlayerAction::DidntTakeTurn && unchanged,
                Command::Other => action == PlayerAction::DidntTakeTurn && unchanged,
                Command::MoveUp => if alive {
                    action == PlayerAction::TookTurn && final(inventory)@ == old(inventory)@
                        && move_or_attack_outcome(
                        old(objects)@,
                        final(objects)@,
                        old(messages)@,
                        final(messages)@,
                        *map,
                        0,
                        -1,
                    )
                } else {
                    action == PlayerAction::DidntTakeTurn && unchanged
                },
                Command::MoveDown => if alive {
                    action == PlayerAction::TookTurn && final(inventory)@ == old(inventory)@
                        && move_or_attack_outcome(
                        old(objects)@,
                        final(objects)@,
                        old(messages)@,
                        final(messages)@,
                        *map,
                        0,
                        1,
                    )
                } else {
                    action == PlayerAction::DidntTakeTurn && unchanged
                },
                Command::MoveLeft => if alive {
                    action == PlayerAction::TookTurn && final(inventory)@ == old(inventory)@
                        && move_or_attack_outcome(
                        old(objects)@,
                        final(objects)@,
                        old(messages)@,
                        final(messages)@,
                        *map,
                        -1,
                        0,
                    )
                } else {
                    action == PlayerAction::DidntTakeTurn && unchanged
                },
                Command::MoveRight => if alive {
                    action == PlayerAction::TookTurn && final(inventory)@ == old(inventory)@
                        && move_or_attack_outcome(
                        old(objects)@,
                        final(objects)@,
                        old(messages)@,
                        final(messages)@,
                        *map,
                        1,
                        0,
                    )
                } else {
                    action == PlayerAction::DidntTakeTurn && unchanged
                },
                Command::Pickup => if alive {
                    action == PlayerAction::TookTurn && ({
                    let px = old(objects)@[0].x as int;
                    let py = old(objects)@[0].y as int;
                    if exists|t: int|
                        0 <= t < old(objects)@.len() && is_item_at(
                            #[trigger] old(objects)@[t],
                            px,
                            py,
                        ) {
                        exists|t: int|
                            {
                                &&& 0 <= t < old(objects)@.len()
                                &&& is_item_at(#[trigger] old(objects)@[t], px, py)
                                &&& forall|j: int|
                                    0 <= j < t ==> !is_item_at(#[trigger] old(objects)@[j], px, py)
                                &&& pickup_outcome(
                                    old(objects)@,
                                    final(objects)@,
                                    old(inventory)@,
                                    final(inventory)@,
                                    old(messages)@,
                                    final(messages)@,
                                    t,
                                )
                            }
                    } else {
                        unchanged
                    }
                })
                } else {
                    action == PlayerAction::DidntTakeTurn && unchanged
                },
                Command::Inventory(sel) => if alive {
                    action == PlayerAction::TookTurn && (match sel {
                        Some(idx) => if idx < old(inventory)@.len() {
                            use_item_outcome(
                                *fov,
                                old(objects)@,
                                final(objects)@,
                                old(inventory)@,
                                final(inventory)@,
                                old(messages)@,
                                final(messages)@,
                                idx as int,
                            )
                        } else {
                            unchanged
                        },
                        None => unchanged,
                    })
                } else {
                    action == PlayerAction::DidntTakeTurn && unchanged
                },
            }
        }),
{
    proof {
        lemma_extended_refl(old(messages)@);
    }
    let alive: bool = objects[PLAYER].alive;
    match cmd {
        Command::Exit => PlayerAction::Exit,
        Command::ToggleFullscreen => PlayerAction::DidntTakeTurn,
        Command::Other => PlayerAction::DidntTakeTurn,
        Command::MoveUp => {
            if alive {
                player_move_or_attack(0, -1, map, objects, messages);
                proof {
                    lemma_move_or_attack_extends(
                        old(objects)@,
                        objects@,
                        old(messages)@,
                        messages@,
                        *map,
                        0,
                        -1,
                    );
                }
                PlayerAction::TookTurn
            } else {
                PlayerAction::DidntTakeTurn
            }
        },
        Command::MoveDown => {
            if alive {
                player_move_or_attack(0, 1, map, objects, messages);
                proof {
                    lemma_move_or_attack_extends(
                        old(objects)@,
                        objects@,
                        old(messages)@,
                        messages@,
                        *map,
                        0,
                        1,
                    );
                }
                PlayerAction::TookTurn
            } else {
                PlayerAction::DidntTakeTurn
            }
        },
        Command::MoveLeft => {
            if alive {
                player_move_or_attack(-1, 0, map, objects, messages);
                proof {
                    lemma_move_or_attack_extends(
                        old(objects)@,
                        objects@,
                        old(messages)@,
                        messages@,
                        *map,
                        -1,
                        0,
                    );
                }
                PlayerAction::TookTurn
            } else {
                PlayerAction::DidntTakeTurn
            }
        },
        Command::MoveRight => {
            if alive {
                player_move_or_attack(1, 0, map, objects, messages);
                proof {
                    lemma_move_or_attack_extends(
                        old(objects)@,
                        objects@,
                        old(messages)@,
                        messages@,
                        *map,
                        1,
                        0,
                    );
                }
                PlayerAction::TookTurn
            } else {
                PlayerAction::DidntTakeTurn
            }
        },
        Command::Pickup => {
            if alive {
                let px: i32 = objects[PLAYER].x;
                let py: i32 = objects[PLAYER].y;
                let mut found: Option<usize> = None;
                let mut i: usize = 0;
                while i < objects.len()
                    invariant
                        i <= objects@.len(),
                        px == objects@[0].x,
                        py == objects@[0].y,
                        found is None ==> forall|j: int|
                            0 <= j < i ==> !is_item_at(#[trigger] objects@[j], px as int, py as int),
                        match found {
                            Some(t) => t < i && is_item_at(
                                objects@[t as int],
                                px as int,
                                py as int,
                            ) && forall|j: int|
                                0 <= j < t ==> !is_item_at(
                                    #[trigger] objects@[j],
                                    px as int,
                                    py as int,
                                ),
                            None => true,
                        },
                    decreases objects@.len() - i,
                {
                    if found.is_none() && objects[i].item.is_some() && objects[i].x == px
                        && objects[i].y == py {
                        found = Some(i);
                    }
                    i = i + 1;
                }
                match found {
                    Some(item_id) => {
                        proof {
                            assert(item_id != 0);
                        }
                        pick_item_up(item_id, objects, inventory, messages);
                        proof {
                            if old(inventory)@.len() >= crate::items::INVENTORY_CAP {
                                lemma_pushed_extends(
                                    old(messages)@,
                                    messages@,
                                    crate::items::inventory_full_msg(
                                        old(objects)@[item_id as int].name@,
                                    ),
                                    crate::color::spec_red(),
                                );
                            } else {
                                lemma_pushed_extends(
                                    old(messages)@,
                                    messages@,
                                    crate::items::picked_up_msg(
                                        old(objects)@[item_id as int].name@,
                                    ),
                                    crate::color::spec_green(),
                                );
                            }
                            assert forall|k: int|
                                0 <= k < objects@.len() implies in_bounds(
                                (#[trigger] objects@[k]).x as int,
                                objects@[k].y as int,
                            ) && !map.blocked_at(objects@[k].x as int, objects@[k].y as int)
                                && objects@[k].wf() by {
                                if old(inventory)@.len() < 26 {
                                    let src = old(objects)@.update(
                                        item_id as int,
                                        old(objects)@.last(),
                                    );
                                    assert(objects@[k] == src[k]);
                                }
                            }
                        }
                    },
                    None => {},
                }
                PlayerAction::TookTurn
            } else {
                PlayerAction::DidntTakeTurn
            }
        },
        Command::Inventory(sel) => {
            if alive {
                match sel {
                    Some(idx) => {
                        if idx < inventory.len() {
                            use_item(idx, fov, objects, inventory, messages);
                            proof {
                                lemma_use_item_preserves(
                                    *fov,
                                    *map,
                                    old(objects)@,
                                    objects@,
                                    old(inventory)@,
                                    inventory@,
                                    old(messages)@,
                                    messages@,
                                    idx as int,
                                );
                                lemma_use_item_extends(
                                    *fov,
                                    old(objects)@,
                                    objects@,
                                    old(inventory)@,
                                    inventory@,
                                    old(messages)@,
                                    messages@,
                                    idx as int,
                                );
                            }
                        }
                    },
                    None => {},
                }
                PlayerAction::TookTurn
            } else {
                PlayerAction::DidntTakeTurn
            }
        },
    }
}

/// How a full AI phase changes the world: registry slots `1` up to but
/// excluding `k` each contribute exactly one AI turn, in order — the
/// chain of [`take_turn_outcome`] steps, where a slot without AI
/// contributes a no-op step. Slot 0 is the player and never runs AI.
pub open spec fn phase_outcome(
    objs0: Seq<Object>,
    objs1: Seq<Object>,
    log0: Seq<Message>,
    log1: Seq<Message>,
    k: int,
    fov: FovData,
    m: GameMap,
) -> bool
    decreases k,
{
    if k <= 1 {
        objs1 == objs0 && log1 == log0
    } else {
        exists|objs_mid: Seq<Object>, log_mid: Seq<Message>|
            #![trigger take_turn_outcome(objs_mid, objs1, log_mid, log1, k - 1, fov, m)]
            {
                &&& phase_outcome(objs0, objs_mid, log0, log_mid, k - 1, fov, m)
                &&& take_turn_outcome(objs_mid, objs1, log_mid, log1, k - 1, fov, m)
            }
    }
}

/// Chaining one more AI turn onto a phase prefix extends the phase by
/// one slot.
proof fn lemma_phase_step(
    objs0: Seq<Object>,
    objs_mid: Seq<Object>,
    objs1: Seq<Object>,
    log0: Seq<Message>,
    log_mid: Seq<Message>,
    log1: Seq<Message>,
    k: int,
    fov: FovData,
    m: GameMap,
)
    requires
        k >= 1,
        phase_outcome(objs0, objs_mid, log0, log_mid, k, fov, m),
        take_turn_outcome(objs_mid, objs1, log_mid, log1, k, fov, m),
    ensures
        phase_outcome(objs0, objs1, log0, log1, k + 1, fov, m),
{
    assert(take_turn_outcome(objs_mid, objs1, log_mid, log1, (k + 1) - 1, fov, m));
    assert(phase_outcome(objs0, objs_mid, log0, log_mid, (k + 1) - 1, fov, m));
}

/// Run the AI phase of one turn: every entity after the player acts
/// exactly once, in registry order, each step being one
/// [`crate::engine::ai_take_turn`] outcome. The phase never adds or
/// removes entities, keeps everyone on the floor, and only appends to
/// the log.
pub fn ai_phase(
    fov: &FovData,
    map: &GameMap,
    objects: &mut Vec<Object>,
    messages: &mut Messages,
)
    requires
        map.wf(),
        walled(*map),
        fov.wf(),
        on_floor(*map, old(objects)@),
        registry_wf(old(objects)@),
        old(objects)@.len() >= 1,
    ensures
        final(objects)@.len() == old(objects)@.len(),
        on_floor(*map, final(objects)@),
        registry_wf(final(objects)@),
        log_extended(old(messages)@, final(messages)@),
        phase_outcome(
            old(objects)@,
            final(objects)@,
            old(messages)@,
            final(messages)@,
            old(objects)@.len() as int,
            *fov,
            *map,
        ),
{
    proof {
        lemma_extended_refl(old(messages)@);
    }
    let mut id: usize = 1;
    while id < objects.len()
        invariant
            map.wf(),
            walled(*map),
            fov.wf(),
            on_floor(*map, objects@),
            registry_wf(objects@),
            objects@.len() == old(objects)@.len(),
            objects@.len() >= 1,
            1 <= id <= objects@.len(),
            log_extended(old(messages)@, messages@),
            phase_outcome(
                old(objects)@,
                objects@,
                old(messages)@,
                messages@,
                id as int,
                *fov,
                *map,
            ),
        decreases objects@.len() - id,
    {
        let ghost objs_pre: Seq<Object> = objects@;
        let ghost log_pre: Seq<Message> = messages@;
        if objects[id].ai.is_some() {
            crate::engine::ai_take_turn(id, fov, map, objects, messages);
            proof {
                lemma_extended_transitive(old(messages)@, log_pre, messages@);
            }
        } else {
            proof {
                assert(take_turn_outcome(
                    objs_pre,
                    objects@,
                    log_pre,
                    messages@,
                    id as int,
                    *fov,
                    *map,
                ));
            }
        }
        proof {
            assert(take_turn_outcome(objs_pre, objects@, log_pre, messages@, id as int, *fov, *map));
            lemma_phase_step(
                old(objects)@,
                objs_pre,
                objects@,
                old(messages)@,
                log_pre,
                messages@,
                id as int,
                *fov,
                *map,
            );
        }
        id = id + 1;
    }
}

/// Map a printed key to a menu slot: letters select their alphabet
/// position (case-insensitively); anything else, or a position past the
/// end of the menu, selects nothing.
pub open spec fn spec_menu_choice(c: char, n: int) -> Option<int> {
    let code = c as int;
    let lc = if 'A' as int <= code <= 'Z' as int {
        code + 32
    } else {
        code
    };
    if 'a' as int <= lc <= 'z' as int && lc - ('a' as int) < n {
        Some(lc - ('a' as int))
    } else {
        None
    }
}

/// Decode a menu selection keypress against a menu of `num_options`
/// entries.
pub fn menu_choice(printable: char, num_options: usize) -> (r: Option<usize>)
    ensures
        match r {
            Some(i) => Some(i as int) == spec_menu_choice(printable, num_options as int),
            None => spec_menu_choice(printable, num_options as int) is None,
        },
{
    let code: u32 = printable as u32;
    let lc: u32 = if code >= 65 && code <= 90 {
        code + 32
    } else {
        code
    };
    if lc >= 97 && lc <= 122 {
        let index: usize = (lc - 97) as usize;
        if index < num_options {
            Some(index)
        } else {
            None
        }
    } else {
        None
    }
}

/// The option labels an inventory menu shows: the item names in order,
/// or a single placeholder line when the inventory is empty.
pub fn inventory_options(inventory: &Vec<Object>) -> (r: Vec<String>)
    ensures
        inventory@.len() == 0 ==> r@.len() == 1 && r@[0]@ == "Inventory is empty."@,
        inventory@.len() > 0 ==> r@.len() == inventory@.len() && forall|i: int|
            0 <= i < r@.len() ==> (#[trigger] r@[i])@ == inventory@[i].name@,
{
    let mut options: Vec<String> = Vec::new();
    if inventory.len() == 0 {
        options.push(String::from_str("Inventory is empty."));
    } else {
        let mut i: usize = 0;
        while i < inventory.len()
            invariant
                i <= inventory@.len(),
                options@.len() == i,
                forall|j: int| 0 <= j < i ==> (#[trigger] options@[j])@ == inventory@[j].name@,
            decreases inventory@.len() - i,
        {
            options.push(inventory[i].name.clone());
            i = i + 1;
        }
    }
    options
}

} // verus!
