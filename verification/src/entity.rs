//! Game entities: the player, monsters and items, with their combat,
//! AI and item capabilities, and the combat/death state transitions.

use crate::color::{
    spec_dark_red, spec_darker_green, spec_desaturated_green, spec_orange, spec_red, spec_white,
    Color,
};
use crate::messages::{pushed, Message, Messages};
use crate::textnum::{dec_rep, u32_to_string};
use vstd::prelude::*;

verus! {

/// Upper bound on combat statistics (hit points, defense, power). Keeps
/// all damage arithmetic comfortably inside `i32`.
pub const STAT_MAX: i32 = 1000;

/// What happens when a fighter's hit points are driven to zero or below.
#[derive(Clone, Copy, Debug, PartialEq, Eq, Structural)]
pub enum DeathCallback {
    Player,
    Monster,
}

/// The usable-item kinds.
#[derive(Clone, Copy, Debug, PartialEq, Eq, Structural)]
pub enum Item {
    Heal,
    Lightning,
    Confuse,
}

/// Outcome of using an item: consumed, or aborted without effect.
#[derive(Clone, Copy, Debug, PartialEq, Eq, Structural)]
pub enum UseResult {
    UsedUp,
    Cancelled,
}

/// Combat-capable attribute bundle attachable to an entity.
#[derive(Clone, Copy, Debug, PartialEq, Eq, Structural)]
pub struct Fighter {
    pub max_hp: i32,
    pub hp: i32,
    pub defense: i32,
    pub power: i32,
    pub on_death: DeathCallback,
}

/// AI state of a monster. A confused monster stumbles randomly for a
/// number of turns, then reverts to the stored previous state; confusion
/// is never nested by the game itself, but the representation allows it.
#[derive(Debug)]
pub enum Ai {
    Basic,
    Confused { previous_ai: Box<Ai>, num_turns: i32 },
}

/// A game entity: player, monster, item or remains. Entities live in one
/// ordered registry; all cross-entity interaction goes by index.
#[derive(Debug)]
pub struct Object {
    pub x: i32,
    pub y: i32,
    pub glyph: char,
    pub color: Color,
    pub name: String,
    pub blocks: bool,
    pub alive: bool,
    pub fighter: Option<Fighter>,
    pub ai: Option<Ai>,
    pub item: Option<Item>,
}

/// Combat statistics, when present, are within [`STAT_MAX`] bounds and
/// hit points never exceed the maximum.
pub open spec fn fighter_wf(f: Fighter) -> bool {
    &&& 0 <= f.power <= STAT_MAX
    &&& 0 <= f.defense <= STAT_MAX
    &&& 0 <= f.max_hp <= STAT_MAX
    &&& f.hp <= f.max_hp
}

/// Power of an entity's fighter, or 0 without one.
pub open spec fn fighter_power(o: Object) -> int {
    match o.fighter {
        Some(f) => f.power as int,
        None => 0,
    }
}

/// Defense of an entity's fighter, or 0 without one.
pub open spec fn fighter_defense(o: Object) -> int {
    match o.fighter {
        Some(f) => f.defense as int,
        None => 0,
    }
}

/// Hit points of an entity's fighter, or 0 without one.
pub open spec fn fighter_hp(o: Object) -> int {
    match o.fighter {
        Some(f) => f.hp as int,
        None => 0,
    }
}

/// Damage one melee attack deals before the zero clamp: attacker power
/// minus defender defense.
pub open spec fn spec_attack_damage(attacker: Object, defender: Object) -> int {
    fighter_power(attacker) - fighter_defense(defender)
}

/// The hit points left after applying `damage` (a non-positive damage has
/// no effect; the subtraction saturates at the machine minimum).
pub open spec fn hp_after(f: Fighter, damage: int) -> int {
    if damage > 0 {
        if f.hp - damage >= i32::MIN {
            f.hp - damage
        } else {
            i32::MIN as int
        }
    } else {
        f.hp as int
    }
}

/// `f` with its hit points replaced.
pub open spec fn fighter_with_hp(f: Fighter, hp: int) -> Fighter {
    Fighter { max_hp: f.max_hp, hp: hp as i32, defense: f.defense, power: f.power, on_death: f.on_death }
}

/// Whether applying `damage` to `o` triggers its death transition.
pub open spec fn spec_dies(o: Object, damage: int) -> bool {
    match o.fighter {
        Some(f) => hp_after(f, damage) <= 0 && o.alive,
        None => false,
    }
}

/// Narration for a landed melee attack.
pub open spec fn attack_hit_msg(attacker: Seq<char>, defender: Seq<char>, damage: nat) -> Seq<char> {
    attacker + " attacks "@ + defender + " for "@ + dec_rep(damage) + "."@
}

/// Narration for an attack absorbed by the defender's armor.
pub open spec fn attack_miss_msg(attacker: Seq<char>, defender: Seq<char>) -> Seq<char> {
    attacker + " attacks "@ + defender + " but has no effect."@
}

/// Narration for a monster's death.
pub open spec fn monster_death_msg(name: Seq<char>) -> Seq<char> {
    name + " dies!"@
}

/// The name a dead monster's remains carry.
pub open spec fn remains_name(name: Seq<char>) -> Seq<char> {
    "remains of "@ + name
}

/// How `take_damage` transforms the stricken entity itself: hit points
/// drop (saturating), and if they reach zero on a living entity the death
/// transition runs exactly once — the player keeps fighter data and turns
/// into a corpse glyph; a monster additionally loses its blocking, combat
/// and AI capabilities and is renamed to inert remains.
pub open spec fn damaged_obj(o0: Object, o1: Object, damage: int) -> bool {
    &&& o1.x == o0.x
    &&& o1.y == o0.y
    &&& o1.item == o0.item
    &&& match o0.fighter {
        None => o1 == o0,
        Some(f) => {
            let nhp = hp_after(f, damage);
            if nhp > 0 || !o0.alive {
                &&& o1.fighter == Some(fighter_with_hp(f, nhp))
                &&& o1.alive == o0.alive
                &&& o1.name == o0.name
                &&& o1.glyph == o0.glyph
                &&& o1.color == o0.color
                &&& o1.blocks == o0.blocks
                &&& o1.ai == o0.ai
            } else if f.on_death == DeathCallback::Player {
                &&& o1.fighter == Some(fighter_with_hp(f, nhp))
                &&& o1.alive == false
                &&& o1.name == o0.name
                &&& o1.glyph == '%'
                &&& o1.color == spec_dark_red()
                &&& o1.blocks == o0.blocks
                &&& o1.ai == o0.ai
            } else {
                &&& o1.fighter is None
                &&& o1.alive == false
                &&& o1.name@ == remains_name(o0.name@)
                &&& o1.glyph == '%'
                &&& o1.color == spec_dark_red()
                &&& o1.blocks == false
                &&& o1.ai is None
            }
        },
    }
}

/// How `take_damage` extends the message log: one death narration when
/// and only when the death transition runs.
pub open spec fn damage_log(o0: Object, log0: Seq<Message>, log1: Seq<Message>, damage: int) -> bool {
    if spec_dies(o0, damage) {
        match o0.fighter {
            Some(f) => if f.on_death == DeathCallback::Player {
                pushed(log0, log1, "You dead!"@, spec_red())
            } else {
                pushed(log0, log1, monster_death_msg(o0.name@), spec_orange())
            },
            None => false,
        }
    } else {
        log1 == log0
    }
}

/// Death is a one-way transition that runs exactly once: damage that
/// drives a living entity's hit points to zero or below leaves it not
/// alive, and no later damage can trigger the transition (or its
/// narration) again.
pub proof fn lemma_death_once(o0: Object, o1: Object, damage1: int, damage2: int)
    requires
        damaged_obj(o0, o1, damage1),
        spec_dies(o0, damage1),
    ensures
        o0.alive && !o1.alive,
        !spec_dies(o1, damage2),
{
}

impl Object {
    /// A valid entity: combat statistics, if any, are within bounds.
    pub open spec fn wf(self) -> bool {
        match self.fighter {
            Some(f) => fighter_wf(f),
            None => true,
        }
    }

    /// A blank, not-alive entity with no capabilities.
    pub fn new(x: i32, y: i32, glyph: char, name: &str, color: Color, blocks: bool) -> (o: Object)
        ensures
            o.x == x,
            o.y == y,
            o.glyph == glyph,
            o.color == color,
            o.name@ == name@,
            o.blocks == blocks,
            o.alive == false,
            o.fighter is None,
            o.ai is None,
            o.item is None,
            o.wf(),
    {
        Object {
            x,
            y,
            glyph,
            color,
            name: String::from_str(name),
            blocks,
            alive: false,
            fighter: None,
            ai: None,
            item: None,
        }
    }

    pub fn pos(&self) -> (p: (i32, i32))
        ensures
            p.0 == self.x,
            p.1 == self.y,
    {
        (self.x, self.y)
    }

    pub fn set_pos(&mut self, x: i32, y: i32)
        ensures
            *final(self) == (Object { x, y, ..*old(self) }),
    {
        self.x = x;
        self.y = y;
    }

    /// Apply `damage` to this entity, running the death transition if its
    /// hit points reach zero while it is alive. A non-positive damage
    /// never changes hit points, but can also never revive: once not
    /// alive, an entity stays not alive.
    pub fn take_damage(&mut self, damage: i32, messages: &mut Messages)
        ensures
            damaged_obj(*old(self), *final(self), damage as int),
            damage_log(*old(self), old(messages)@, final(messages)@, damage as int),
            old(self).alive == false ==> final(self).alive == false,
    {
        match self.fighter {
            Some(f) => {
                if damage > 0 {
                    let nhp: i32 = if f.hp >= i32::MIN + damage {
                        f.hp - damage
                    } else {
                        i32::MIN
                    };
                    self.fighter = Some(Fighter { hp: nhp, ..f });
                }
            },
            None => {},
        }
        match self.fighter {
            Some(f2) => {
                if f2.hp <= 0 && self.alive {
                    self.alive = false;
                    match f2.on_death {
                        DeathCallback::Player => {
                            messages.add(String::from_str("You dead!"), Color::red());
                            self.glyph = '%';
                            self.color = Color::dark_red();
                        },
                        DeathCallback::Monster => {
                            let mut text: String = self.name.clone();
                            text.append(" dies!");
                            messages.add(text, Color::orange());
                            self.glyph = '%';
                            self.color = Color::dark_red();
                            self.blocks = false;
                            self.fighter = None;
                            self.ai = None;
                            let mut renamed: String = String::from_str("remains of ");
                            renamed.append(self.name.as_str());
                            self.name = renamed;
                        },
                    }
                }
            },
            None => {},
        }
        proof {
            assert(final(messages)@.subrange(0, old(messages)@.len() as int) =~= old(messages)@);
        }
    }

    /// Restore hit points, capped at the maximum. No effect without a
    /// fighter.
    pub fn heal(&mut self, amount: i32)
        requires
            0 <= amount,
            match old(self).fighter {
                Some(f) => f.hp + amount <= i32::MAX,
                None => true,
            },
        ensures
            match old(self).fighter {
                None => *final(self) == *old(self),
                Some(f) => {
                    let nhp = if f.hp + amount > f.max_hp {
                        f.max_hp as int
                    } else {
                        f.hp + amount
                    };
                    *final(self) == (Object {
                        fighter: Some(fighter_with_hp(f, nhp)),
                        ..*old(self)
                    })
                },
            },
    {
        match self.fighter {
            Some(f) => {
                let mut nhp: i32 = f.hp + amount;
                if nhp > f.max_hp {
                    nhp = f.max_hp;
                }
                self.fighter = Some(Fighter { hp: nhp, ..f });
            },
            None => {},
        }
    }

    /// Suffer a melee attack from an assailant with the given name and
    /// power: damage is that power minus this entity's defense, clamped
    /// at zero ("no effect").
    pub fn receive_attack(&mut self, attacker_name: &str, power: i32, messages: &mut Messages)
        requires
            old(self).wf(),
            -STAT_MAX <= power <= STAT_MAX,
        ensures
            ({
                let dmg = power - fighter_defense(*old(self));
                &&& (dmg <= 0 ==> *final(self) == *old(self) && pushed(
                    old(messages)@,
                    final(messages)@,
                    attack_miss_msg(attacker_name@, old(self).name@),
                    spec_white(),
                ))
                &&& (dmg > 0 ==> damaged_obj(*old(self), *final(self), dmg))
                &&& (dmg > 0 ==> ({
                    let mid = final(messages)@.subrange(0, old(messages)@.len() as int + 1);
                    &&& pushed(
                        old(messages)@,
                        mid,
                        attack_hit_msg(attacker_name@, old(self).name@, dmg as nat),
                        spec_white(),
                    )
                    &&& damage_log(*old(self), mid, final(messages)@, dmg)
                }))
            }),
    {
        let defense: i32 = match self.fighter {
            Some(f) => f.defense,
            None => 0,
        };
        let damage: i32 = power - defense;
        if damage > 0 {
            let mut text: String = String::from_str(attacker_name);
            text.append(" attacks ");
            text.append(self.name.as_str());
            text.append(" for ");
            let num: String = u32_to_string(damage as u32);
            text.append(num.as_str());
            text.append(".");
            messages.add(text, Color::white());
            let ghost mid: Seq<Message> = messages@;
            self.take_damage(damage, messages);
            proof {
                assert(mid.subrange(0, old(messages)@.len() as int) =~= old(messages)@);
                assert(final(messages)@.subrange(0, old(messages)@.len() as int + 1) =~= mid);
            }
        } else {
            let mut text: String = String::from_str(attacker_name);
            text.append(" attacks ");
            text.append(self.name.as_str());
            text.append(" but has no effect.");
            messages.add(text, Color::white());
            proof {
                assert(final(messages)@.subrange(0, old(messages)@.len() as int) =~= old(
                    messages,
                )@);
            }
        }
    }

    /// Resolve one melee attack against `target`: damage is attacker
    /// power minus defender defense, clamped at zero ("no effect"). The
    /// attacker itself never changes.
    pub fn attack(&mut self, target: &mut Object, messages: &mut Messages)
        requires
            old(self).wf(),
            old(target).wf(),
        ensures
            *final(self) == *old(self),
            ({
                let dmg = spec_attack_damage(*old(self), *old(target));
                &&& (dmg <= 0 ==> *final(target) == *old(target) && pushed(
                    old(messages)@,
                    final(messages)@,
                    attack_miss_msg(old(self).name@, old(target).name@),
                    spec_white(),
                ))
                &&& (dmg > 0 ==> damaged_obj(*old(target), *final(target), dmg))
                &&& (dmg > 0 ==> ({
                    let mid = final(messages)@.subrange(
                        0,
                        old(messages)@.len() as int + 1,
                    );
                    &&& pushed(
                        old(messages)@,
                        mid,
                        attack_hit_msg(old(self).name@, old(target).name@, dmg as nat),
                        spec_white(),
                    )
                    &&& damage_log(*old(target), mid, final(messages)@, dmg)
                }))
            }),
    {
        let power: i32 = match self.fighter {
            Some(f) => f.power,
            None => 0,
        };
        target.receive_attack(self.name.as_str(), power, messages);
    }
}

/// `o` carries exactly the values of a freshly spawned orc (its
/// position aside).
pub open spec fn orc_values(o: Object) -> bool {
    &&& o.glyph == 'o'
    &&& o.name@ == "orc"@
    &&& o.color == spec_desaturated_green()
    &&& o.blocks
    &&& o.alive
    &&& o.fighter == Some(
        Fighter { max_hp: 10i32, hp: 10i32, defense: 0i32, power: 3i32, on_death: DeathCallback::Monster },
    )
    &&& o.ai == Some(Ai::Basic)
    &&& o.item is None
}

/// `o` carries exactly the values of a freshly spawned troll (its
/// position aside).
pub open spec fn troll_values(o: Object) -> bool {
    &&& o.glyph == 'T'
    &&& o.name@ == "troll"@
    &&& o.color == spec_darker_green()
    &&& o.blocks
    &&& o.alive
    &&& o.fighter == Some(
        Fighter { max_hp: 16i32, hp: 16i32, defense: 1i32, power: 4i32, on_death: DeathCallback::Monster },
    )
    &&& o.ai == Some(Ai::Basic)
    &&& o.item is None
}

/// A freshly spawned orc: a weak melee monster.
pub fn create_orc(x: i32, y: i32) -> (o: Object)
    ensures
        o.x == x,
        o.y == y,
        orc_values(o),
        o.wf(),
{
    let mut orc: Object = Object::new(x, y, 'o', "orc", Color::desaturated_green(), true);
    orc.fighter = Some(
        Fighter { max_hp: 10, hp: 10, defense: 0, power: 3, on_death: DeathCallback::Monster },
    );
    orc.ai = Some(Ai::Basic);
    orc.alive = true;
    orc
}

/// A freshly spawned troll: a stronger melee monster.
pub fn create_troll(x: i32, y: i32) -> (o: Object)
    ensures
        o.x == x,
        o.y == y,
        troll_values(o),
        o.wf(),
{
    let mut troll: Object = Object::new(x, y, 'T', "troll", Color::darker_green(), true);
    troll.fighter = Some(
        Fighter { max_hp: 16, hp: 16, defense: 1, power: 4, on_death: DeathCallback::Monster },
    );
    troll.ai = Some(Ai::Basic);
    troll.alive = true;
    troll
}

/// The player entity, alive and combat-capable, at the given spawn cell.
pub fn create_player(x: i32, y: i32) -> (o: Object)
    ensures
        o.x == x,
        o.y == y,
        o.glyph == '@',
        o.name@ == "player"@,
        o.color == spec_white(),
        o.blocks == true,
        o.alive == true,
        o.fighter == Some(
            Fighter { max_hp: 30i32, hp: 30i32, defense: 2i32, power: 5i32, on_death: DeathCallback::Player },
        ),
        o.ai is None,
        o.item is None,
        o.wf(),
{
    let mut player: Object = Object::new(x, y, '@', "player", Color::white(), true);
    player.fighter = Some(
        Fighter { max_hp: 30, hp: 30, defense: 2, power: 5, on_death: DeathCallback::Player },
    );
    player.alive = true;
    player
}

} // verus!
