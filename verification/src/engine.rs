//! Movement, blocking queries and melee resolution over the entity
//! registry.

use crate::color::{spec_red, spec_white, Color};
use crate::entity::{
    attack_hit_msg, attack_miss_msg, damage_log, damaged_obj, fighter_hp, spec_attack_damage, Ai,
    Object,
};
use crate::rng::rand_range;
use crate::fov::FovData;
use crate::gamemap::{in_bounds, walled, GameMap};
use crate::geom::{dist2, distance_sq, sq, step_toward, unit_step};
use crate::messages::{
    lemma_extended_refl, lemma_extended_transitive, lemma_pushed_extends, log_extended, pushed,
    Message, Messages,
};
use crate::{MAP_HEIGHT, MAP_WIDTH};
use vstd::prelude::*;

verus! {

/// Index of the player in the registry, by convention.
pub const PLAYER: usize = 0;

/// Movement into `(x, y)` is barred: by the terrain, or by any entity
/// that blocks movement and stands there.
pub open spec fn spec_is_blocked(m: GameMap, objs: Seq<Object>, x: int, y: int) -> bool {
    m.blocked_at(x, y) || exists|i: int|
        0 <= i < objs.len() && (#[trigger] objs[i]).blocks && objs[i].x == x && objs[i].y == y
}

/// Decide whether `(x, y)` is blocked for movement.
pub fn is_blocked(x: i32, y: i32, map: &GameMap, objects: &Vec<Object>) -> (b: bool)
    requires
        map.wf(),
        in_bounds(x as int, y as int),
    ensures
        b == spec_is_blocked(*map, objects@, x as int, y as int),
{
    if map.tile(x, y).blocked {
        return true;
    }
    let mut i: usize = 0;
    while i < objects.len()
        invariant
            i <= objects@.len(),
            forall|j: int|
                0 <= j < i ==> !((#[trigger] objects@[j]).blocks && objects@[j].x == x
                    && objects@[j].y == y),
        decreases objects@.len() - i,
    {
        if objects[i].blocks && objects[i].x == x && objects[i].y == y {
            return true;
        }
        i = i + 1;
    }
    false
}

/// Every entity stands on an unblocked cell of the grid. Together with
/// [`crate::gamemap::walled`] this keeps every entity strictly inside
/// the border, so one-step moves never leave the grid.
pub open spec fn on_floor(m: GameMap, objs: Seq<Object>) -> bool {
    forall|i: int|
        0 <= i < objs.len() ==> in_bounds((#[trigger] objs[i]).x as int, objs[i].y as int)
            && !m.blocked_at(objs[i].x as int, objs[i].y as int)
}

/// Every entity's combat statistics are within bounds.
pub open spec fn registry_wf(objs: Seq<Object>) -> bool {
    forall|i: int| 0 <= i < objs.len() ==> (#[trigger] objs[i]).wf()
}

/// How `move_by` changes the registry: the entity steps to the
/// destination when it is free, and stays put when it is blocked.
pub open spec fn moved_obj(
    objs0: Seq<Object>,
    objs1: Seq<Object>,
    id: int,
    m: GameMap,
    dx: int,
    dy: int,
) -> bool {
    let o = objs0[id];
    if !spec_is_blocked(m, objs0, o.x + dx, o.y + dy) {
        objs1 == objs0.update(id, Object { x: (o.x + dx) as i32, y: (o.y + dy) as i32, ..o })
    } else {
        objs1 == objs0
    }
}

/// Move entity `id` by `(dx, dy)` unless the destination is blocked.
pub fn move_by(id: usize, dx: i32, dy: i32, map: &GameMap, objects: &mut Vec<Object>)
    requires
        map.wf(),
        id < old(objects)@.len(),
        in_bounds(old(objects)@[id as int].x + dx, old(objects)@[id as int].y + dy),
    ensures
        moved_obj(old(objects)@, final(objects)@, id as int, *map, dx as int, dy as int),
{
    let x: i32 = objects[id].x;
    let y: i32 = objects[id].y;
    if !is_blocked(x + dx, y + dy, map, objects) {
        objects[id].x = x + dx;
        objects[id].y = y + dy;
        proof {
            assert(objects@ =~= old(objects)@.update(
                id as int,
                Object {
                    x: (old(objects)@[id as int].x + dx) as i32,
                    y: (old(objects)@[id as int].y + dy) as i32,
                    ..old(objects)@[id as int]
                },
            ));
        }
    }
}

/// How one melee attack of `objs0[attacker]` against `objs0[defender]`
/// changes the registry and the log: only the defender changes, and the
/// narration matches the clamped damage and a possible death.
pub open spec fn attacked(
    objs0: Seq<Object>,
    objs1: Seq<Object>,
    log0: Seq<Message>,
    log1: Seq<Message>,
    attacker: int,
    defender: int,
) -> bool {
    let a0 = objs0[attacker];
    let d0 = objs0[defender];
    let dmg = spec_attack_damage(a0, d0);
    &&& objs1.len() == objs0.len()
    &&& forall|k: int| 0 <= k < objs0.len() && k != defender ==> objs1[k] == objs0[k]
    &&& (dmg <= 0 ==> objs1[defender] == d0 && pushed(
        log0,
        log1,
        attack_miss_msg(a0.name@, d0.name@),
        spec_white(),
    ))
    &&& (dmg > 0 ==> damaged_obj(d0, objs1[defender], dmg) && ({
        let mid = log1.subrange(0, log0.len() as int + 1);
        &&& pushed(log0, mid, attack_hit_msg(a0.name@, d0.name@, dmg as nat), spec_white())
        &&& damage_log(d0, mid, log1, dmg)
    }))
}

/// Resolve a melee attack between two distinct registry slots.
pub fn attack_at(objects: &mut Vec<Object>, attacker: usize, defender: usize, messages: &mut Messages)
    requires
        attacker != defender,
        attacker < old(objects)@.len(),
        defender < old(objects)@.len(),
        old(objects)@[attacker as int].wf(),
        old(objects)@[defender as int].wf(),
    ensures
        attacked(
            old(objects)@,
            final(objects)@,
            old(messages)@,
            final(messages)@,
            attacker as int,
            defender as int,
        ),
{
    let power: i32 = match objects[attacker].fighter {
        Some(f) => f.power,
        None => 0,
    };
    let name: String = objects[attacker].name.clone();
    objects[defender].receive_attack(name.as_str(), power, messages);
}

/// A melee attack only appends to the log.
pub proof fn lemma_attacked_extends(
    objs0: Seq<Object>,
    objs1: Seq<Object>,
    log0: Seq<Message>,
    log1: Seq<Message>,
    att: int,
    def: int,
)
    requires
        attacked(objs0, objs1, log0, log1, att, def),
    ensures
        log_extended(log0, log1),
{
    let dmg = spec_attack_damage(objs0[att], objs0[def]);
    if dmg <= 0 {
        lemma_pushed_extends(
            log0,
            log1,
            attack_miss_msg(objs0[att].name@, objs0[def].name@),
            spec_white(),
        );
    } else {
        let mid = log1.subrange(0, log0.len() as int + 1);
        lemma_pushed_extends(
            log0,
            mid,
            attack_hit_msg(objs0[att].name@, objs0[def].name@, dmg as nat),
            spec_white(),
        );
        if crate::entity::spec_dies(objs0[def], dmg) {
            match objs0[def].fighter {
                Some(f) => {
                    if f.on_death == crate::entity::DeathCallback::Player {
                        lemma_pushed_extends(mid, log1, "You dead!"@, spec_red());
                    } else {
                        lemma_pushed_extends(
                            mid,
                            log1,
                            crate::entity::monster_death_msg(objs0[def].name@),
                            crate::color::spec_orange(),
                        );
                    }
                },
                None => {},
            }
        } else {
            lemma_extended_refl(mid);
        }
        lemma_extended_transitive(log0, mid, log1);
    }
}

/// One basic AI turn only appends to the log.
pub proof fn lemma_basic_outcome_extends(
    objs0: Seq<Object>,
    objs1: Seq<Object>,
    log0: Seq<Message>,
    log1: Seq<Message>,
    mid: int,
    fov: FovData,
    m: GameMap,
)
    requires
        basic_outcome(objs0, objs1, log0, log1, mid, fov, m),
    ensures
        log_extended(log0, log1),
{
    let mo = objs0[mid];
    let po = objs0[0];
    if !fov.vis_at(mo.x as int, mo.y as int) {
        lemma_extended_refl(log0);
    } else if dist2(mo.x as int, mo.y as int, po.x as int, po.y as int) >= 4 {
        lemma_extended_refl(log0);
    } else if fighter_hp(po) > 0 {
        lemma_attacked_extends(objs0, objs1, log0, log1, mid, 0);
    } else {
        lemma_extended_refl(log0);
    }
}

/// With a walled border, an entity on the floor stands strictly inside
/// the grid, so every one-step destination is still on the grid.
pub proof fn lemma_entity_interior(m: GameMap, objs: Seq<Object>, i: int)
    requires
        walled(m),
        on_floor(m, objs),
        0 <= i < objs.len(),
    ensures
        0 < objs[i].x < MAP_WIDTH - 1,
        0 < objs[i].y < MAP_HEIGHT - 1,
{
    let o = objs[i];
    assert(in_bounds(o.x as int, o.y as int) && !m.blocked_at(o.x as int, o.y as int));
    if o.x == 0 || o.x == MAP_WIDTH - 1 || o.y == 0 || o.y == MAP_HEIGHT - 1 {
        assert(m.blocked_at(o.x as int, o.y as int));
    }
}

/// A move onto an in-bounds destination keeps every entity on the floor
/// and every fighter within bounds.
pub proof fn lemma_moved_preserves(
    m: GameMap,
    objs0: Seq<Object>,
    objs1: Seq<Object>,
    id: int,
    dx: int,
    dy: int,
)
    requires
        0 <= id < objs0.len(),
        in_bounds(objs0[id].x + dx, objs0[id].y + dy),
        moved_obj(objs0, objs1, id, m, dx, dy),
        on_floor(m, objs0),
        registry_wf(objs0),
    ensures
        objs1.len() == objs0.len(),
        on_floor(m, objs1),
        registry_wf(objs1),
{
    assert forall|k: int|
        0 <= k < objs1.len() implies in_bounds((#[trigger] objs1[k]).x as int, objs1[k].y as int)
        && !m.blocked_at(objs1[k].x as int, objs1[k].y as int) && objs1[k].wf() by {
        if k != id || spec_is_blocked(m, objs0, objs0[id].x + dx, objs0[id].y + dy) {
            assert(objs1[k] == objs0[k]);
        }
    }
}

/// A melee attack keeps every entity on the floor and every fighter
/// within bounds: positions never change, and hit points only drop.
pub proof fn lemma_attacked_preserves(
    m: GameMap,
    objs0: Seq<Object>,
    objs1: Seq<Object>,
    log0: Seq<Message>,
    log1: Seq<Message>,
    att: int,
    def: int,
)
    requires
        0 <= att < objs0.len(),
        0 <= def < objs0.len(),
        att != def,
        attacked(objs0, objs1, log0, log1, att, def),
        on_floor(m, objs0),
        registry_wf(objs0),
    ensures
        objs1.len() == objs0.len(),
        on_floor(m, objs1),
        registry_wf(objs1),
{
    assert forall|k: int|
        0 <= k < objs1.len() implies in_bounds((#[trigger] objs1[k]).x as int, objs1[k].y as int)
        && !m.blocked_at(objs1[k].x as int, objs1[k].y as int) && objs1[k].wf() by {
        if k != def {
            assert(objs1[k] == objs0[k]);
        } else {
            let dmg = spec_attack_damage(objs0[att], objs0[def]);
            if dmg > 0 {
                assert(damaged_obj(objs0[def], objs1[def], dmg));
            } else {
                assert(objs1[def] == objs0[def]);
            }
        }
    }
}

/// Move entity `id` one rounded-unit step toward `(target_x, target_y)`,
/// unless the destination cell is blocked.
pub fn move_towards(
    id: usize,
    target_x: i32,
    target_y: i32,
    map: &GameMap,
    objects: &mut Vec<Object>,
)
    requires
        map.wf(),
        walled(*map),
        on_floor(*map, old(objects)@),
        id < old(objects)@.len(),
        in_bounds(target_x as int, target_y as int),
    ensures
        moved_obj(
            old(objects)@,
            final(objects)@,
            id as int,
            *map,
            step_toward(
                target_x - old(objects)@[id as int].x,
                target_y - old(objects)@[id as int].y,
            ),
            step_toward(
                target_y - old(objects)@[id as int].y,
                target_x - old(objects)@[id as int].x,
            ),
        ),
{
    proof {
        lemma_entity_interior(*map, objects@, id as int);
    }
    let ox: i32 = objects[id].x;
    let oy: i32 = objects[id].y;
    let dx: i32 = target_x - ox;
    let dy: i32 = target_y - oy;
    let step: (i32, i32) = unit_step(dx, dy);
    move_by(id, step.0, step.1, map, objects);
}

/// An entity with combat capability standing on `(x, y)`.
pub open spec fn is_melee_target(o: Object, x: int, y: int) -> bool {
    o.fighter is Some && o.x == x && o.y == y
}

/// How the player's directional action changes the world: attack the
/// first combat-capable entity standing on the destination cell, or
/// step there if it is free.
pub open spec fn move_or_attack_outcome(
    objs0: Seq<Object>,
    objs1: Seq<Object>,
    log0: Seq<Message>,
    log1: Seq<Message>,
    m: GameMap,
    dx: int,
    dy: int,
) -> bool {
    let tx = objs0[0].x + dx;
    let ty = objs0[0].y + dy;
    if exists|t: int| 0 <= t < objs0.len() && is_melee_target(#[trigger] objs0[t], tx, ty) {
        exists|t: int|
            {
                &&& 0 <= t < objs0.len()
                &&& is_melee_target(#[trigger] objs0[t], tx, ty)
                &&& forall|j: int| 0 <= j < t ==> !is_melee_target(#[trigger] objs0[j], tx, ty)
                &&& attacked(objs0, objs1, log0, log1, 0, t)
            }
    } else {
        moved_obj(objs0, objs1, 0, m, dx, dy) && log1 == log0
    }
}

/// The player's directional action only appends to the log.
pub proof fn lemma_move_or_attack_extends(
    objs0: Seq<Object>,
    objs1: Seq<Object>,
    log0: Seq<Message>,
    log1: Seq<Message>,
    m: GameMap,
    dx: int,
    dy: int,
)
    requires
        objs0.len() >= 1,
        move_or_attack_outcome(objs0, objs1, log0, log1, m, dx, dy),
    ensures
        log_extended(log0, log1),
{
    let tx = objs0[0].x + dx;
    let ty = objs0[0].y + dy;
    if exists|t: int| 0 <= t < objs0.len() && is_melee_target(#[trigger] objs0[t], tx, ty) {
        let t = choose|t: int|
            {
                &&& 0 <= t < objs0.len()
                &&& is_melee_target(#[trigger] objs0[t], tx, ty)
                &&& forall|j: int| 0 <= j < t ==> !is_melee_target(#[trigger] objs0[j], tx, ty)
                &&& attacked(objs0, objs1, log0, log1, 0, t)
            };
        lemma_attacked_extends(objs0, objs1, log0, log1, 0, t);
    } else {
        lemma_extended_refl(log0);
    }
}

/// Resolve the player's directional action: if a combat-capable entity
/// occupies the destination cell, attack the first such entity in
/// registry order; otherwise step there if it is free.
pub fn player_move_or_attack(
    dx: i32,
    dy: i32,
    map: &GameMap,
    objects: &mut Vec<Object>,
    messages: &mut Messages,
)
    requires
        map.wf(),
        walled(*map),
        on_floor(*map, old(objects)@),
        registry_wf(old(objects)@),
        old(objects)@.len() >= 1,
        -1 <= dx <= 1,
        -1 <= dy <= 1,
        !(dx == 0 && dy == 0),
    ensures
        final(objects)@.len() == old(objects)@.len(),
        on_floor(*map, final(objects)@),
        registry_wf(final(objects)@),
        move_or_attack_outcome(
            old(objects)@,
            final(objects)@,
            old(messages)@,
            final(messages)@,
            *map,
            dx as int,
            dy as int,
        ),
{
    proof {
        lemma_entity_interior(*map, objects@, 0);
    }
    let tx: i32 = objects[0].x + dx;
    let ty: i32 = objects[0].y + dy;
    let mut target: Option<usize> = None;
    let mut i: usize = 0;
    while i < objects.len()
        invariant
            i <= objects@.len(),
            target is None ==> forall|j: int|
                0 <= j < i ==> !is_melee_target(#[trigger] objects@[j], tx as int, ty as int),
            match target {
                Some(t) => t < i && is_melee_target(objects@[t as int], tx as int, ty as int)
                    && forall|j: int|
                    0 <= j < t ==> !is_melee_target(#[trigger] objects@[j], tx as int, ty as int),
                None => true,
            },
        decreases objects@.len() - i,
    {
        if target.is_none() && objects[i].fighter.is_some() && objects[i].x == tx && objects[i].y
            == ty {
            target = Some(i);
        }
        i = i + 1;
    }
    match target {
        Some(t) => {
            proof {
                assert(t != 0);
            }
            attack_at(objects, PLAYER, t, messages);
            proof {
                lemma_attacked_preserves(
                    *map,
                    old(objects)@,
                    objects@,
                    old(messages)@,
                    messages@,
                    0,
                    t as int,
                );
            }
        },
        None => {
            move_by(PLAYER, dx, dy, map, objects);
            proof {
                lemma_moved_preserves(
                    *map,
                    old(objects)@,
                    objects@,
                    0,
                    dx as int,
                    dy as int,
                );
            }
        },
    }
}

/// An entity the targeted effects can strike: not the player, combat-
/// and AI-capable, and currently visible.
pub open spec fn qualifies(objs: Seq<Object>, fov: FovData, i: int) -> bool {
    &&& i != 0
    &&& objs[i].fighter is Some
    &&& objs[i].ai is Some
    &&& fov.vis_at(objs[i].x as int, objs[i].y as int)
}

/// A qualifying entity whose distance to the player beats the initial
/// threshold `max_range + 1` strictly.
pub open spec fn qual_in_range(objs: Seq<Object>, fov: FovData, max_range: int, i: int) -> bool {
    &&& qualifies(objs, fov, i)
    &&& dist2(objs[0].x as int, objs[0].y as int, objs[i].x as int, objs[i].y as int) < sq(
        max_range + 1,
    )
}

/// `t` is the qualifying entity nearest to the player, first-seen wins
/// on a distance tie: no qualifying entity is strictly nearer, and none
/// with an earlier index is as near.
pub open spec fn nearest_qualifying(
    objs: Seq<Object>,
    fov: FovData,
    max_range: int,
    t: int,
) -> bool {
    let d_t = dist2(objs[0].x as int, objs[0].y as int, objs[t].x as int, objs[t].y as int);
    &&& 0 < t < objs.len()
    &&& qual_in_range(objs, fov, max_range, t)
    &&& forall|j: int|
        0 <= j < objs.len() && qual_in_range(objs, fov, max_range, j) ==> d_t <= dist2(
            objs[0].x as int,
            objs[0].y as int,
            (#[trigger] objs[j]).x as int,
            objs[j].y as int,
        )
    &&& forall|j: int|
        0 <= j < t && qual_in_range(objs, fov, max_range, j) ==> d_t < dist2(
            objs[0].x as int,
            objs[0].y as int,
            (#[trigger] objs[j]).x as int,
            objs[j].y as int,
        )
}

/// Find the monster closest to the player among those visible, combat-
/// and AI-capable and strictly within `max_range + 1`; on a distance tie
/// the earliest registry index wins.
pub fn closest_monster(fov: &FovData, objects: &Vec<Object>, max_range: i32) -> (r: Option<usize>)
    requires
        fov.wf(),
        objects@.len() >= 1,
        0 <= max_range <= 1000,
        forall|i: int|
            0 <= i < objects@.len() ==> in_bounds(
                (#[trigger] objects@[i]).x as int,
                objects@[i].y as int,
            ),
    ensures
        match r {
            Some(t) => nearest_qualifying(objects@, *fov, max_range as int, t as int),
            None => forall|j: int|
                0 <= j < objects@.len() ==> !qual_in_range(objects@, *fov, max_range as int, j),
        },
{
    let px: i32 = objects[0].x;
    let py: i32 = objects[0].y;
    let mut closest_enemy: Option<usize> = None;
    proof {
        assert(0 <= (max_range as i64 + 1) * (max_range as i64 + 1) == sq(max_range as int + 1)
            <= 1002001) by (nonlinear_arith)
            requires
                0 <= max_range <= 1000,
        ;
    }
    let mut closest_dist: i64 = (max_range as i64 + 1) * (max_range as i64 + 1);
    let mut id: usize = 0;
    while id < objects.len()
        invariant
            fov.wf(),
            objects@.len() >= 1,
            px == objects@[0].x,
            py == objects@[0].y,
            id <= objects@.len(),
            forall|i: int|
                0 <= i < objects@.len() ==> in_bounds(
                    (#[trigger] objects@[i]).x as int,
                    objects@[i].y as int,
                ),
            match closest_enemy {
                None => closest_dist == sq(max_range as int + 1) && forall|j: int|
                    0 <= j < id ==> !qual_in_range(objects@, *fov, max_range as int, j),
                Some(t) => {
                    &&& 0 < t < id
                    &&& qual_in_range(objects@, *fov, max_range as int, t as int)
                    &&& closest_dist == dist2(
                        px as int,
                        py as int,
                        objects@[t as int].x as int,
                        objects@[t as int].y as int,
                    )
                    &&& closest_dist < sq(max_range as int + 1)
                    &&& forall|j: int|
                        0 <= j < id && qual_in_range(objects@, *fov, max_range as int, j)
                            ==> closest_dist <= dist2(
                            px as int,
                            py as int,
                            (#[trigger] objects@[j]).x as int,
                            objects@[j].y as int,
                        )
                    &&& forall|j: int|
                        0 <= j < t && qual_in_range(objects@, *fov, max_range as int, j)
                            ==> closest_dist < dist2(
                            px as int,
                            py as int,
                            (#[trigger] objects@[j]).x as int,
                            objects@[j].y as int,
                        )
                },
            },
        decreases objects@.len() - id,
    {
        if id != PLAYER && objects[id].fighter.is_some() && objects[id].ai.is_some()
            && fov.is_in_fov(objects[id].x, objects[id].y) {
            let dist: i64 = distance_sq(px, py, objects[id].x, objects[id].y);
            if dist < closest_dist {
                closest_enemy = Some(id);
                closest_dist = dist;
            }
        }
        id = id + 1;
    }
    closest_enemy
}

/// How one turn of basic AI changes the world: an invisible monster
/// rests; a visible one at squared distance 4 or more steps toward the
/// player; an adjacent one attacks a player who still has hit points.
pub open spec fn basic_outcome(
    objs0: Seq<Object>,
    objs1: Seq<Object>,
    log0: Seq<Message>,
    log1: Seq<Message>,
    mid: int,
    fov: FovData,
    m: GameMap,
) -> bool {
    let mo = objs0[mid];
    let po = objs0[0];
    if !fov.vis_at(mo.x as int, mo.y as int) {
        objs1 == objs0 && log1 == log0
    } else if dist2(mo.x as int, mo.y as int, po.x as int, po.y as int) >= 4 {
        moved_obj(
            objs0,
            objs1,
            mid,
            m,
            step_toward(po.x - mo.x, po.y - mo.y),
            step_toward(po.y - mo.y, po.x - mo.x),
        ) && log1 == log0
    } else if fighter_hp(po) > 0 {
        attacked(objs0, objs1, log0, log1, mid, 0)
    } else {
        objs1 == objs0 && log1 == log0
    }
}

/// One turn of basic AI for the monster in slot `monster_id`.
pub fn ai_basic(
    monster_id: usize,
    fov: &FovData,
    map: &GameMap,
    objects: &mut Vec<Object>,
    messages: &mut Messages,
)
    requires
        map.wf(),
        walled(*map),
        fov.wf(),
        on_floor(*map, old(objects)@),
        registry_wf(old(objects)@),
        0 < monster_id < old(objects)@.len(),
    ensures
        final(objects)@.len() == old(objects)@.len(),
        on_floor(*map, final(objects)@),
        registry_wf(final(objects)@),
        basic_outcome(
            old(objects)@,
            final(objects)@,
            old(messages)@,
            final(messages)@,
            monster_id as int,
            *fov,
            *map,
        ),
{
    proof {
        lemma_entity_interior(*map, objects@, monster_id as int);
        lemma_entity_interior(*map, objects@, 0);
    }
    let mx: i32 = objects[monster_id].x;
    let my: i32 = objects[monster_id].y;
    if fov.is_in_fov(mx, my) {
        let px: i32 = objects[0].x;
        let py: i32 = objects[0].y;
        let d: i64 = distance_sq(mx, my, px, py);
        if d >= 4 {
            move_towards(monster_id, px, py, map, objects);
            proof {
                lemma_moved_preserves(
                    *map,
                    old(objects)@,
                    objects@,
                    monster_id as int,
                    step_toward(px - mx, py - my),
                    step_toward(py - my, px - mx),
                );
            }
        } else {
            let player_has_hp: bool = match objects[PLAYER].fighter {
                Some(f) => f.hp > 0,
                None => false,
            };
            if player_has_hp {
                attack_at(objects, monster_id, PLAYER, messages);
                proof {
                    lemma_attacked_preserves(
                        *map,
                        old(objects)@,
                        objects@,
                        old(messages)@,
                        messages@,
                        monster_id as int,
                        0,
                    );
                }
            }
        }
    }
}

/// Narration when confusion wears off.
pub open spec fn confusion_end_msg(name: Seq<char>) -> Seq<char> {
    "The "@ + name + " is no longer confused!"@
}

/// One turn of confused AI: while turns remain, stumble one random step
/// (possibly standing still) and count down; once exhausted, revert to
/// the stored previous state with a narration.
pub fn ai_confused(
    monster_id: usize,
    map: &GameMap,
    objects: &mut Vec<Object>,
    messages: &mut Messages,
    previous_ai: Box<Ai>,
    num_turns: i32,
) -> (new_ai: Ai)
    requires
        map.wf(),
        walled(*map),
        on_floor(*map, old(objects)@),
        registry_wf(old(objects)@),
        monster_id < old(objects)@.len(),
    ensures
        final(objects)@.len() == old(objects)@.len(),
        on_floor(*map, final(objects)@),
        registry_wf(final(objects)@),
        num_turns > 0 ==> ({
            &&& new_ai == Ai::Confused { previous_ai, num_turns: (num_turns - 1) as i32 }
            &&& final(messages)@ == old(messages)@
            &&& exists|dx: int, dy: int|
                #![auto]
                -1 <= dx <= 1 && -1 <= dy <= 1 && moved_obj(
                    old(objects)@,
                    final(objects)@,
                    monster_id as int,
                    *map,
                    dx,
                    dy,
                )
        }),
        num_turns <= 0 ==> ({
            &&& new_ai == *previous_ai
            &&& final(objects)@ == old(objects)@
            &&& pushed(
                old(messages)@,
                final(messages)@,
                confusion_end_msg(old(objects)@[monster_id as int].name@),
                spec_red(),
            )
        }),
{
    if num_turns > 0 {
        proof {
            lemma_entity_interior(*map, objects@, monster_id as int);
        }
        let dx: i32 = rand_range(-1, 2);
        let dy: i32 = rand_range(-1, 2);
        move_by(monster_id, dx, dy, map, objects);
        proof {
            lemma_moved_preserves(
                *map,
                old(objects)@,
                objects@,
                monster_id as int,
                dx as int,
                dy as int,
            );
        }
        Ai::Confused { previous_ai, num_turns: num_turns - 1 }
    } else {
        let mut text: String = String::from_str("The ");
        text.append(objects[monster_id].name.as_str());
        text.append(" is no longer confused!");
        messages.add(text, Color::red());
        proof {
            assert(messages@.subrange(0, old(messages)@.len() as int) =~= old(messages)@);
        }
        *previous_ai
    }
}

/// One step of the AI state machine: confusion counts down one turn and
/// reverts to the stored previous state once exhausted; basic AI stays
/// basic. The world effects of a step are described separately.
pub open spec fn next_ai(a: Ai) -> Ai {
    match a {
        Ai::Basic => Ai::Basic,
        Ai::Confused { previous_ai, num_turns } => if num_turns > 0 {
            Ai::Confused { previous_ai, num_turns: (num_turns - 1) as i32 }
        } else {
            *previous_ai
        },
    }
}

/// The AI state after `k` state-machine steps.
pub open spec fn iter_ai(a: Ai, k: nat) -> Ai
    decreases k,
{
    if k == 0 {
        a
    } else {
        iter_ai(next_ai(a), (k - 1) as nat)
    }
}

/// An entity confused for `n` turns takes exactly `n` confused steps:
/// after `k <= n` steps it is still confused with `n - k` turns left,
/// and on step `n + 1` it reverts to the stored previous state.
pub proof fn lemma_confusion_duration(previous_ai: Box<Ai>, n: int, k: int)
    requires
        0 <= k <= n,
        n < 0x7fff_ffff,
    ensures
        iter_ai(Ai::Confused { previous_ai, num_turns: n as i32 }, k as nat) == (Ai::Confused {
            previous_ai,
            num_turns: (n - k) as i32,
        }),
        iter_ai(Ai::Confused { previous_ai, num_turns: n as i32 }, (n + 1) as nat) == *previous_ai,
    decreases n,
{
    if n == 0 {
        let c0 = Ai::Confused { previous_ai, num_turns: 0i32 };
        assert(iter_ai(c0, 1nat) == iter_ai(next_ai(c0), 0nat));
        assert(iter_ai(next_ai(c0), 0nat) == next_ai(c0));
    } else {
        lemma_confusion_duration(
            previous_ai,
            n - 1,
            if k > 0 {
                k - 1
            } else {
                0
            },
        );
        if k > 0 {
            assert(iter_ai(Ai::Confused { previous_ai, num_turns: n as i32 }, k as nat) == iter_ai(
                Ai::Confused { previous_ai, num_turns: (n - 1) as i32 },
                (k - 1) as nat,
            ));
        }
        assert(iter_ai(Ai::Confused { previous_ai, num_turns: n as i32 }, (n + 1) as nat)
            == iter_ai(Ai::Confused { previous_ai, num_turns: (n - 1) as i32 }, n as nat));
    }
}

/// `o` with its AI slot replaced.
pub open spec fn with_ai(o: Object, a: Option<Ai>) -> Object {
    Object { ai: a, ..o }
}

/// How one AI turn for slot `mid` changes the world: the slot's AI
/// state advances by exactly one state-machine step, and the matching
/// world effect — basic chase/attack, a random confused stumble, or
/// the reversion narration — applies with the AI state taken out. An
/// entity without AI changes nothing.
pub open spec fn take_turn_outcome(
    objs0: Seq<Object>,
    objs1: Seq<Object>,
    log0: Seq<Message>,
    log1: Seq<Message>,
    mid: int,
    fov: FovData,
    m: GameMap,
) -> bool {
    &&& objs1.len() == objs0.len()
    &&& match objs0[mid].ai {
        None => objs1 == objs0 && log1 == log0,
        Some(a) => ({
            let base = objs0.update(mid, with_ai(objs0[mid], None));
            let w = objs1.update(mid, with_ai(objs1[mid], None));
            &&& objs1[mid].ai == Some(next_ai(a))
            &&& match a {
                Ai::Basic => basic_outcome(base, w, log0, log1, mid, fov, m),
                Ai::Confused { previous_ai: p, num_turns: n } => if n > 0 {
                    (exists|dx: int, dy: int|
                        #![auto]
                        -1 <= dx <= 1 && -1 <= dy <= 1 && moved_obj(base, w, mid, m, dx, dy))
                        && log1 == log0
                } else {
                    w == base && pushed(log0, log1, confusion_end_msg(objs0[mid].name@), spec_red())
                },
            }
        }),
    }
}

/// Run one AI turn for slot `monster_id`: take its AI state out, apply
/// the matching world effect with the state removed, then store the
/// advanced state back. An entity without AI does nothing.
pub fn ai_take_turn(
    monster_id: usize,
    fov: &FovData,
    map: &GameMap,
    objects: &mut Vec<Object>,
    messages: &mut Messages,
)
    requires
        map.wf(),
        walled(*map),
        fov.wf(),
        on_floor(*map, old(objects)@),
        registry_wf(old(objects)@),
        0 < monster_id < old(objects)@.len(),
    ensures
        on_floor(*map, final(objects)@),
        registry_wf(final(objects)@),
        log_extended(old(messages)@, final(messages)@),
        take_turn_outcome(
            old(objects)@,
            final(objects)@,
            old(messages)@,
            final(messages)@,
            monster_id as int,
            *fov,
            *map,
        ),
{
    let mid: usize = monster_id;
    let ai_opt: Option<Ai> = objects[mid].ai.take();
    proof {
        assert(objects@ =~= old(objects)@.update(
            mid as int,
            with_ai(old(objects)@[mid as int], None),
        ));
        assert forall|i: int|
            0 <= i < objects@.len() implies in_bounds(
            (#[trigger] objects@[i]).x as int,
            objects@[i].y as int,
        ) && !map.blocked_at(objects@[i].x as int, objects@[i].y as int) && objects@[i].wf() by {
            if i != mid {
                assert(objects@[i] == old(objects)@[i]);
            }
        }
    }
    match ai_opt {
        None => {
            proof {
                assert(objects@ =~= old(objects)@);
                lemma_extended_refl(old(messages)@);
            }
        },
        Some(ai) => {
            let ghost base: Seq<Object> = objects@;
            let new_ai: Ai = match ai {
                Ai::Basic => {
                    ai_basic(mid, fov, map, objects, messages);
                    Ai::Basic
                },
                Ai::Confused { previous_ai, num_turns } => {
                    ai_confused(mid, map, objects, messages, previous_ai, num_turns)
                },
            };
            let ghost world: Seq<Object> = objects@;
            objects[mid].ai = Some(new_ai);
            proof {
                assert(objects@ =~= world.update(
                    mid as int,
                    Object { ai: Some(new_ai), ..world[mid as int] },
                ));
                assert(world[mid as int].ai is None) by {
                    match old(objects)@[mid as int].ai {
                        Some(a0) => {
                            match a0 {
                                Ai::Basic => {
                                    assert(basic_outcome(
                                        base,
                                        world,
                                        old(messages)@,
                                        messages@,
                                        mid as int,
                                        *fov,
                                        *map,
                                    ));
                                },
                                Ai::Confused { previous_ai: p0, num_turns: n0 } => {},
                            }
                        },
                        None => {},
                    }
                }
                assert(objects@.update(mid as int, with_ai(objects@[mid as int], None)) =~= world);
                assert forall|i: int|
                    0 <= i < objects@.len() implies in_bounds(
                    (#[trigger] objects@[i]).x as int,
                    objects@[i].y as int,
                ) && !map.blocked_at(objects@[i].x as int, objects@[i].y as int)
                    && objects@[i].wf() by {
                    if i != mid {
                        assert(objects@[i] == world[i]);
                    }
                }
                match old(objects)@[mid as int].ai {
                    Some(a0) => {
                        match a0 {
                            Ai::Basic => {
                                lemma_basic_outcome_extends(
                                    base,
                                    world,
                                    old(messages)@,
                                    messages@,
                                    mid as int,
                                    *fov,
                                    *map,
                                );
                            },
                            Ai::Confused { previous_ai: p0, num_turns: n0 } => {
                                if n0 > 0 {
                                    lemma_extended_refl(old(messages)@);
                                } else {
                                    lemma_pushed_extends(
                                        old(messages)@,
                                        messages@,
                                        confusion_end_msg(old(objects)@[mid as int].name@),
                                        spec_red(),
                                    );
                                }
                            },
                        }
                    },
                    None => {},
                }
            }
        },
    }
}

/// The player's current and maximum hit points, or zeros without
/// combat capability — the health-bar pair a renderer shows.
pub fn player_hp(objects: &Vec<Object>) -> (r: (i32, i32))
    requires
        objects@.len() >= 1,
    ensures
        r.0 == fighter_hp(objects@[0]),
        r.1 == (match objects@[0].fighter {
            Some(f) => f.max_hp as int,
            None => 0int,
        }),
{
    match objects[PLAYER].fighter {
        Some(f) => (f.hp, f.max_hp),
        None => (0, 0),
    }
}

/// The indices a renderer should draw, in order: every entity standing
/// on a currently visible cell, non-blocking ones first and blocking
/// ones after (so they draw on top), each group in stable registry
/// order.
#[verifier::rlimit(50)]
pub fn draw_order(objects: &Vec<Object>, fov: &FovData) -> (r: Vec<usize>)
    requires
        fov.wf(),
        forall|i: int|
            0 <= i < objects@.len() ==> in_bounds(
                (#[trigger] objects@[i]).x as int,
                objects@[i].y as int,
            ),
    ensures
        forall|k: int|
            0 <= k < r@.len() ==> (#[trigger] r@[k]) < objects@.len() && fov.vis_at(
                objects@[r@[k] as int].x as int,
                objects@[r@[k] as int].y as int,
            ),
        forall|i: int|
            0 <= i < objects@.len() && fov.vis_at(
                (#[trigger] objects@[i]).x as int,
                objects@[i].y as int,
            ) ==> exists|k: int| 0 <= k < r@.len() && r@[k] == i,
        forall|k1: int, k2: int|
            0 <= k1 < k2 < r@.len() && objects@[r@[k1] as int].blocks == objects@[r@[k2] as int].blocks
                ==> (#[trigger] r@[k1]) < (#[trigger] r@[k2]),
        forall|k1: int, k2: int|
            0 <= k1 < k2 < r@.len() ==> !((#[trigger] objects@[r@[k1] as int]).blocks && !(
            #[trigger] objects@[r@[k2] as int]).blocks),
{
    let mut order: Vec<usize> = Vec::new();
    let mut i: usize = 0;
    while i < objects.len()
        invariant
            i <= objects@.len(),
            fov.wf(),
            forall|ii: int|
                0 <= ii < objects@.len() ==> in_bounds(
                    (#[trigger] objects@[ii]).x as int,
                    objects@[ii].y as int,
                ),
            forall|k: int|
                0 <= k < order@.len() ==> (#[trigger] order@[k]) < i && fov.vis_at(
                    objects@[order@[k] as int].x as int,
                    objects@[order@[k] as int].y as int,
                ) && !objects@[order@[k] as int].blocks,
            forall|ii: int|
                0 <= ii < i && fov.vis_at(
                    (#[trigger] objects@[ii]).x as int,
                    objects@[ii].y as int,
                ) && !objects@[ii].blocks ==> exists|k: int|
                    0 <= k < order@.len() && order@[k] == ii,
            forall|k1: int, k2: int|
                0 <= k1 < k2 < order@.len() ==> (#[trigger] order@[k1]) < (#[trigger] order@[k2]),
        decreases objects@.len() - i,
    {
        let ghost ord0: Seq<usize> = order@;
        if !objects[i].blocks && fov.is_in_fov(objects[i].x, objects[i].y) {
            order.push(i);
            proof {
                assert(order@[ord0.len() as int] == i);
                assert forall|k: int| 0 <= k < ord0.len() implies order@[k] == ord0[k] by {}
                assert forall|ii: int|
                    0 <= ii < i + 1 && fov.vis_at(
                        (#[trigger] objects@[ii]).x as int,
                        objects@[ii].y as int,
                    ) && !objects@[ii].blocks implies exists|k: int|
                    0 <= k < order@.len() && order@[k] == ii by {
                    if ii == i {
                        assert(order@[ord0.len() as int] == ii);
                    } else {
                        let k = choose|k: int| 0 <= k < ord0.len() && ord0[k] == ii;
                        assert(order@[k] == ii);
                    }
                }
            }
        }
        i = i + 1;
    }
    let ghost split: int = order@.len() as int;
    let mut j: usize = 0;
    while j < objects.len()
        invariant
            j <= objects@.len(),
            fov.wf(),
            forall|ii: int|
                0 <= ii < objects@.len() ==> in_bounds(
                    (#[trigger] objects@[ii]).x as int,
                    objects@[ii].y as int,
                ),
            0 <= split <= order@.len(),
            forall|k: int|
                0 <= k < split ==> (#[trigger] order@[k]) < objects@.len() && fov.vis_at(
                    objects@[order@[k] as int].x as int,
                    objects@[order@[k] as int].y as int,
                ) && !objects@[order@[k] as int].blocks,
            forall|ii: int|
                0 <= ii < objects@.len() && fov.vis_at(
                    (#[trigger] objects@[ii]).x as int,
                    objects@[ii].y as int,
                ) && !objects@[ii].blocks ==> exists|k: int| 0 <= k < split && order@[k] == ii,
            forall|k: int|
                split <= k < order@.len() ==> (#[trigger] order@[k]) < j && fov.vis_at(
                    objects@[order@[k] as int].x as int,
                    objects@[order@[k] as int].y as int,
                ) && objects@[order@[k] as int].blocks,
            forall|ii: int|
                0 <= ii < j && fov.vis_at(
                    (#[trigger] objects@[ii]).x as int,
                    objects@[ii].y as int,
                ) && objects@[ii].blocks ==> exists|k: int|
                    split <= k < order@.len() && order@[k] == ii,
            forall|k1: int, k2: int|
                0 <= k1 < k2 < order@.len() && (k2 < split || split <= k1) ==> (
                #[trigger] order@[k1]) < (#[trigger] order@[k2]),
        decreases objects@.len() - j,
    {
        let ghost ord0: Seq<usize> = order@;
        if objects[j].blocks && fov.is_in_fov(objects[j].x, objects[j].y) {
            order.push(j);
            proof {
                assert(order@ =~= ord0.push(j));
                assert(order@[ord0.len() as int] == j);
                assert forall|k: int| 0 <= k < ord0.len() implies order@[k] == ord0[k] by {}
                assert forall|ii: int|
                    0 <= ii < j + 1 && fov.vis_at(
                        (#[trigger] objects@[ii]).x as int,
                        objects@[ii].y as int,
                    ) && objects@[ii].blocks implies exists|k: int|
                    split <= k < order@.len() && order@[k] == ii by {
                    if ii == j {
                        assert(order@[ord0.len() as int] == ii);
                    } else {
                        assert(exists|k: int| split <= k < ord0.len() && ord0[k] == ii);
                        let k = choose|k: int| split <= k < ord0.len() && ord0[k] == ii;
                        assert(split <= k < ord0.len() && ord0[k] == ii);
                        assert(ord0.push(j)[k] == ord0[k]);
                        assert(order@[k] == ii);
                    }
                }
            }
        }
        j = j + 1;
    }
    order
}

} // verus!
