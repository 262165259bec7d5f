//! Inventory handling and the usable-item effects: healing, a ranged
//! lightning bolt, and a confusion spell.

use crate::color::{
    spec_green, spec_light_green, spec_light_violet, spec_lighter_blue, spec_red, spec_white,
    Color,
};
use crate::engine::{nearest_qualifying, qual_in_range, with_ai};
use crate::entity::{damage_log, damaged_obj, fighter_with_hp, Ai, Item, Object, UseResult};
use crate::fov::FovData;
use crate::gamemap::in_bounds;
use crate::messages::{pushed, pushed2, Message, Messages};
use crate::textnum::{dec_rep, u32_to_string};
use vstd::prelude::*;

verus! {

/// Hit points restored by a healing potion.
pub const HEAL_AMOUNT: i32 = 4;

/// Damage dealt by a lightning bolt.
pub const LIGHTNING_DAMAGE: i32 = 40;

/// Maximum distance at which lightning finds a target.
pub const LIGHTNING_RANGE: i32 = 5;

/// Turns an entity stays confused.
pub const CONFUSE_NUM_TURNS: i32 = 10;

/// Maximum distance at which the confusion spell finds a target.
pub const CONFUSE_RANGE: i32 = 8;

/// Most items the inventory can hold (mnemonic keys a-z).
pub const INVENTORY_CAP: usize = 26;

pub open spec fn inventory_full_msg(name: Seq<char>) -> Seq<char> {
    "Inventory full, cannot pickup "@ + name + "."@
}

pub open spec fn picked_up_msg(name: Seq<char>) -> Seq<char> {
    "You picked up a "@ + name + "."@
}

pub open spec fn full_health_msg() -> Seq<char> {
    "You are already at full health."@
}

pub open spec fn heal_msg() -> Seq<char> {
    "Your wounds start to heal!"@
}

pub open spec fn lightning_msg(name: Seq<char>) -> Seq<char> {
    "A lightning bolt strikes the "@ + name + " for "@ + dec_rep(LIGHTNING_DAMAGE as nat)
        + " damage."@
}

pub open spec fn stumble_msg(name: Seq<char>) -> Seq<char> {
    "The "@ + name + " begins to stumble around!"@
}

pub open spec fn no_enemy_msg() -> Seq<char> {
    "No enemy is in range."@
}

pub open spec fn cancelled_msg() -> Seq<char> {
    "Cancelled"@
}

pub open spec fn cannot_use_msg(name: Seq<char>) -> Seq<char> {
    "The "@ + name + " cannot be used."@
}

/// How picking up the entity in slot `id` changes the world: with a
/// full inventory (26 slots) only a narration is added and the entity
/// stays in place; otherwise it leaves the registry (the last entity
/// swaps into its slot) and is appended to the inventory.
pub open spec fn pickup_outcome(
    objs0: Seq<Object>,
    objs1: Seq<Object>,
    inv0: Seq<Object>,
    inv1: Seq<Object>,
    log0: Seq<Message>,
    log1: Seq<Message>,
    id: int,
) -> bool {
    if inv0.len() >= INVENTORY_CAP {
        &&& objs1 == objs0
        &&& inv1 == inv0
        &&& pushed(log0, log1, inventory_full_msg(objs0[id].name@), spec_red())
    } else {
        &&& objs1 == objs0.update(id, objs0.last()).drop_last()
        &&& inv1 == inv0.push(objs0[id])
        &&& pushed(log0, log1, picked_up_msg(objs0[id].name@), spec_green())
    }
}

/// Move the entity in slot `object_id` from the world registry into the
/// inventory, unless the inventory is full: then only narrate. The
/// registry slot is filled by swapping in the last entity.
pub fn pick_item_up(
    object_id: usize,
    objects: &mut Vec<Object>,
    inventory: &mut Vec<Object>,
    messages: &mut Messages,
)
    requires
        object_id < old(objects)@.len(),
    ensures
        pickup_outcome(
            old(objects)@,
            final(objects)@,
            old(inventory)@,
            final(inventory)@,
            old(messages)@,
            final(messages)@,
            object_id as int,
        ),
{
    if inventory.len() >= INVENTORY_CAP {
        let mut text: String = String::from_str("Inventory full, cannot pickup ");
        text.append(objects[object_id].name.as_str());
        text.append(".");
        messages.add(text, Color::red());
    } else {
        let item: Object = objects.swap_remove(object_id);
        let mut text: String = String::from_str("You picked up a ");
        text.append(item.name.as_str());
        text.append(".");
        messages.add(text, Color::green());
        inventory.push(item);
    }
    proof {
        assert(final(messages)@.subrange(0, old(messages)@.len() as int) =~= old(messages)@);
    }
}

/// The effect of drinking a healing potion: without combat capability
/// the use is cancelled silently; otherwise hit points rise by
/// [`HEAL_AMOUNT`] capped at the maximum, with a narration — plus an
/// extra "already at full health" line when no healing was possible,
/// even though the potion is still consumed.
pub open spec fn heal_outcome(
    objs0: Seq<Object>,
    objs1: Seq<Object>,
    log0: Seq<Message>,
    log1: Seq<Message>,
    r: UseResult,
) -> bool {
    match objs0[0].fighter {
        None => r == UseResult::Cancelled && objs1 == objs0 && log1 == log0,
        Some(f) => {
            let nhp = if f.hp + HEAL_AMOUNT > f.max_hp {
                f.max_hp as int
            } else {
                f.hp + HEAL_AMOUNT
            };
            &&& r == UseResult::UsedUp
            &&& objs1 == objs0.update(
                0,
                Object { fighter: Some(fighter_with_hp(f, nhp)), ..objs0[0] },
            )
            &&& if f.hp == f.max_hp {
                pushed2(
                    log0,
                    log1,
                    full_health_msg(),
                    spec_red(),
                    heal_msg(),
                    spec_light_violet(),
                )
            } else {
                pushed(log0, log1, heal_msg(), spec_light_violet())
            }
        },
    }
}

/// Drink a healing potion: heal the player by [`HEAL_AMOUNT`], capped
/// at full health.
pub fn cast_heal(objects: &mut Vec<Object>, messages: &mut Messages) -> (r: UseResult)
    requires
        old(objects)@.len() >= 1,
        old(objects)@[0].wf(),
    ensures
        heal_outcome(old(objects)@, final(objects)@, old(messages)@, final(messages)@, r),
{
    match objects[crate::engine::PLAYER].fighter {
        Some(f) => {
            if f.hp == f.max_hp {
                messages.add(String::from_str("You are already at full health."), Color::red());
            }
            objects[crate::engine::PLAYER].heal(HEAL_AMOUNT);
            messages.add(String::from_str("Your wounds start to heal!"), Color::light_violet());
            proof {
                assert(objects@ =~= old(objects)@.update(
                    0,
                    Object {
                        fighter: objects@[0].fighter,
                        ..old(objects)@[0]
                    },
                ));
                assert(final(messages)@.subrange(0, old(messages)@.len() as int) =~= old(
                    messages,
                )@);
            }
            UseResult::UsedUp
        },
        None => UseResult::Cancelled,
    }
}

/// The effect of a lightning bolt: the nearest visible combat- and
/// AI-capable monster strictly within range takes fixed damage (dying
/// monsters narrate their death first, and the strike is narrated with
/// the name the target bears afterwards); with no such target, nothing
/// changes and the use is cancelled with a narration.
pub open spec fn lightning_outcome(
    fov: FovData,
    objs0: Seq<Object>,
    objs1: Seq<Object>,
    log0: Seq<Message>,
    log1: Seq<Message>,
    r: UseResult,
) -> bool {
    if exists|j: int|
        0 <= j < objs0.len() && #[trigger] qual_in_range(objs0, fov, LIGHTNING_RANGE as int, j) {
        &&& r == UseResult::UsedUp
        &&& objs1.len() == objs0.len()
        &&& exists|t: int|
            #![auto]
            {
                &&& nearest_qualifying(objs0, fov, LIGHTNING_RANGE as int, t)
                &&& damaged_obj(objs0[t], objs1[t], LIGHTNING_DAMAGE as int)
                &&& (forall|k: int| 0 <= k < objs0.len() && k != t ==> objs1[k] == objs0[k])
                &&& damage_log(objs0[t], log0, log1.drop_last(), LIGHTNING_DAMAGE as int)
                &&& log1.len() == log1.drop_last().len() + 1
                &&& log1.last().text@ == lightning_msg(objs1[t].name@)
                &&& log1.last().color == spec_lighter_blue()
            }
    } else {
        &&& r == UseResult::Cancelled
        &&& objs1 == objs0
        &&& pushed(log0, log1, no_enemy_msg(), spec_red())
    }
}

/// Strike the nearest visible monster in range with a lightning bolt.
pub fn cast_lightning(
    fov: &FovData,
    objects: &mut Vec<Object>,
    messages: &mut Messages,
) -> (r: UseResult)
    requires
        fov.wf(),
        old(objects)@.len() >= 1,
        forall|i: int|
            0 <= i < old(objects)@.len() ==> in_bounds(
                (#[trigger] old(objects)@[i]).x as int,
                old(objects)@[i].y as int,
            ),
    ensures
        lightning_outcome(
            *fov,
            old(objects)@,
            final(objects)@,
            old(messages)@,
            final(messages)@,
            r,
        ),
{
    let monster_id: Option<usize> = crate::engine::closest_monster(fov, objects, LIGHTNING_RANGE);
    match monster_id {
        Some(t) => {
            objects[t].take_damage(LIGHTNING_DAMAGE, messages);
            let ghost log_mid: Seq<Message> = messages@;
            let mut text: String = String::from_str("A lightning bolt strikes the ");
            text.append(objects[t].name.as_str());
            text.append(" for ");
            let num: String = u32_to_string(LIGHTNING_DAMAGE as u32);
            text.append(num.as_str());
            text.append(" damage.");
            messages.add(text, Color::lighter_blue());
            proof {
                assert(final(messages)@.drop_last() =~= log_mid);
            }
            UseResult::UsedUp
        },
        None => {
            messages.add(String::from_str("No enemy is in range."), Color::red());
            proof {
                assert(final(messages)@.subrange(0, old(messages)@.len() as int) =~= old(
                    messages,
                )@);
            }
            UseResult::Cancelled
        },
    }
}

/// The effect of a confusion scroll: the nearest visible combat- and
/// AI-capable monster strictly within range has its AI replaced by a
/// confused state remembering the previous one (basic if it had none),
/// with a narration; with no such target, nothing changes and the use
/// is cancelled with a narration.
pub open spec fn confuse_outcome(
    fov: FovData,
    objs0: Seq<Object>,
    objs1: Seq<Object>,
    log0: Seq<Message>,
    log1: Seq<Message>,
    r: UseResult,
) -> bool {
    if exists|j: int|
        0 <= j < objs0.len() && #[trigger] qual_in_range(objs0, fov, CONFUSE_RANGE as int, j) {
        &&& r == UseResult::UsedUp
        &&& objs1.len() == objs0.len()
        &&& exists|t: int|
            #![auto]
            {
                &&& nearest_qualifying(objs0, fov, CONFUSE_RANGE as int, t)
                &&& objs1[t] == with_ai(objs0[t], objs1[t].ai)
                &&& match objs1[t].ai {
                    Some(Ai::Confused { previous_ai, num_turns }) => {
                        &&& num_turns == CONFUSE_NUM_TURNS
                        &&& *previous_ai == (match objs0[t].ai {
                            Some(a) => a,
                            None => Ai::Basic,
                        })
                    },
                    _ => false,
                }
                &&& (forall|k: int| 0 <= k < objs0.len() && k != t ==> objs1[k] == objs0[k])
                &&& pushed(log0, log1, stumble_msg(objs0[t].name@), spec_light_green())
            }
    } else {
        &&& r == UseResult::Cancelled
        &&& objs1 == objs0
        &&& pushed(log0, log1, no_enemy_msg(), spec_red())
    }
}

/// Confuse the nearest visible monster in range for
/// [`CONFUSE_NUM_TURNS`] turns.
pub fn cast_confuse(
    fov: &FovData,
    objects: &mut Vec<Object>,
    messages: &mut Messages,
) -> (r: UseResult)
    requires
        fov.wf(),
        old(objects)@.len() >= 1,
        forall|i: int|
            0 <= i < old(objects)@.len() ==> in_bounds(
                (#[trigger] old(objects)@[i]).x as int,
                old(objects)@[i].y as int,
            ),
    ensures
        confuse_outcome(
            *fov,
            old(objects)@,
            final(objects)@,
            old(messages)@,
            final(messages)@,
            r,
        ),
{
    let monster_id: Option<usize> = crate::engine::closest_monster(fov, objects, CONFUSE_RANGE);
    match monster_id {
        Some(t) => {
            let mut text: String = String::from_str("The ");
            text.append(objects[t].name.as_str());
            text.append(" begins to stumble around!");
            let old_ai: Option<Ai> = objects[t].ai.take();
            let prev: Ai = match old_ai {
                Some(a) => a,
                None => Ai::Basic,
            };
            objects[t].ai = Some(
                Ai::Confused { previous_ai: Box::new(prev), num_turns: CONFUSE_NUM_TURNS },
            );
            messages.add(text, Color::light_green());
            proof {
                assert(objects@[t as int] == with_ai(
                    old(objects)@[t as int],
                    objects@[t as int].ai,
                ));
                assert(final(messages)@.subrange(0, old(messages)@.len() as int) =~= old(
                    messages,
                )@);
            }
            UseResult::UsedUp
        },
        None => {
            messages.add(String::from_str("No enemy is in range."), Color::red());
            proof {
                assert(final(messages)@.subrange(0, old(messages)@.len() as int) =~= old(
                    messages,
                )@);
            }
            UseResult::Cancelled
        },
    }
}

/// Whether using an item of this kind succeeds in the given world: a
/// potion needs the player's combat capability, the targeted scrolls
/// need a qualifying visible monster in their range.
pub open spec fn use_succeeds(kind: Item, fov: FovData, objs: Seq<Object>) -> bool {
    match kind {
        Item::Heal => objs[0].fighter is Some,
        Item::Lightning => exists|j: int|
            0 <= j < objs.len() && #[trigger] qual_in_range(objs, fov, LIGHTNING_RANGE as int, j),
        Item::Confuse => exists|j: int|
            0 <= j < objs.len() && #[trigger] qual_in_range(objs, fov, CONFUSE_RANGE as int, j),
    }
}

/// How using inventory slot `id` changes the world: an entity without
/// item capability only narrates; a successful use applies the item's
/// effect and consumes the slot; a cancelled use leaves the inventory
/// alone and narrates the cancellation after the effect's own lines.
pub open spec fn use_item_outcome(
    fov: FovData,
    objs0: Seq<Object>,
    objs1: Seq<Object>,
    inv0: Seq<Object>,
    inv1: Seq<Object>,
    log0: Seq<Message>,
    log1: Seq<Message>,
    id: int,
) -> bool {
    match inv0[id].item {
        None => {
            &&& objs1 == objs0
            &&& inv1 == inv0
            &&& pushed(log0, log1, cannot_use_msg(inv0[id].name@), spec_white())
        },
        Some(kind) => {
            if use_succeeds(kind, fov, objs0) {
                &&& inv1 == inv0.remove(id)
                &&& match kind {
                    Item::Heal => heal_outcome(objs0, objs1, log0, log1, UseResult::UsedUp),
                    Item::Lightning => lightning_outcome(
                        fov,
                        objs0,
                        objs1,
                        log0,
                        log1,
                        UseResult::UsedUp,
                    ),
                    Item::Confuse => confuse_outcome(
                        fov,
                        objs0,
                        objs1,
                        log0,
                        log1,
                        UseResult::UsedUp,
                    ),
                }
            } else {
                &&& inv1 == inv0
                &&& log1.len() == log1.drop_last().len() + 1
                &&& log1.last().text@ == cancelled_msg()
                &&& log1.last().color == spec_white()
                &&& match kind {
                    Item::Heal => heal_outcome(
                        objs0,
                        objs1,
                        log0,
                        log1.drop_last(),
                        UseResult::Cancelled,
                    ),
                    Item::Lightning => lightning_outcome(
                        fov,
                        objs0,
                        objs1,
                        log0,
                        log1.drop_last(),
                        UseResult::Cancelled,
                    ),
                    Item::Confuse => confuse_outcome(
                        fov,
                        objs0,
                        objs1,
                        log0,
                        log1.drop_last(),
                        UseResult::Cancelled,
                    ),
                }
            }
        },
    }
}

/// Use the item in inventory slot `inventory_id`: dispatch its effect,
/// consume the slot if the effect reports it was used up, and narrate a
/// cancellation otherwise. An entity without item capability cannot be
/// used and only narrates.
pub fn use_item(
    inventory_id: usize,
    fov: &FovData,
    objects: &mut Vec<Object>,
    inventory: &mut Vec<Object>,
    messages: &mut Messages,
)
    requires
        inventory_id < old(inventory)@.len(),
        fov.wf(),
        old(objects)@.len() >= 1,
        old(objects)@[0].wf(),
        forall|i: int|
            0 <= i < old(objects)@.len() ==> in_bounds(
                (#[trigger] old(objects)@[i]).x as int,
                old(objects)@[i].y as int,
            ),
    ensures
        use_item_outcome(
            *fov,
            old(objects)@,
            final(objects)@,
            old(inventory)@,
            final(inventory)@,
            old(messages)@,
            final(messages)@,
            inventory_id as int,
        ),
{
    let kind_opt: Option<Item> = inventory[inventory_id].item;
    match kind_opt {
        Some(kind) => {
            let result: UseResult = match kind {
                Item::Heal => cast_heal(objects, messages),
                Item::Lightning => cast_lightning(fov, objects, messages),
                Item::Confuse => cast_confuse(fov, objects, messages),
            };
            match result {
                UseResult::UsedUp => {
                    let _consumed: Object = inventory.remove(inventory_id);
                },
                UseResult::Cancelled => {
                    let ghost log_mid: Seq<Message> = messages@;
                    messages.add(String::from_str("Cancelled"), Color::white());
                    proof {
                        assert(final(messages)@.drop_last() =~= log_mid);
                    }
                },
            }
        },
        None => {
            let mut text: String = String::from_str("The ");
            text.append(inventory[inventory_id].name.as_str());
            text.append(" cannot be used.");
            messages.add(text, Color::white());
            proof {
                assert(final(messages)@.subrange(0, old(messages)@.len() as int) =~= old(
                    messages,
                )@);
            }
        },
    }
}

} // verus!
