//! Turn-based simulation core of a grid-based dungeon crawler: procedural
//! map generation, field-of-view computation, and turn resolution across
//! player actions, monster AI, and item effects.
//!
//! Rendering, input polling and window management are external collaborators
//! and are not part of this crate.

use vstd::prelude::*;

mod color;
mod engine;
mod entity;
mod fov;
mod gamemap;
mod geom;
mod items;
mod mapgen;
mod messages;
mod rng;
mod textnum;
mod tile;
mod turn;

pub use color::Color;
pub use engine::{
    ai_basic, ai_confused, ai_take_turn, attack_at, closest_monster, draw_order, is_blocked,
    lemma_confusion_duration, move_by, move_towards, player_hp, player_move_or_attack, PLAYER,
};
pub use entity::{
    create_orc, create_player, create_troll, lemma_death_once, Ai, DeathCallback, Fighter, Item,
    Object, UseResult, STAT_MAX,
};
pub use fov::{
    is_visible, lemma_lit_wall_visible, lemma_opaque_blocks_behind, lemma_opaque_needs_light_walls,
    lemma_origin_visible, update_explored, FovData,
};
pub use gamemap::GameMap;
pub use geom::Rect;
pub use items::{
    cast_confuse, cast_heal, cast_lightning, pick_item_up, use_item, CONFUSE_NUM_TURNS,
    CONFUSE_RANGE, HEAL_AMOUNT, INVENTORY_CAP, LIGHTNING_DAMAGE, LIGHTNING_RANGE,
};
pub use mapgen::{
    make_map, place_objects, MAX_ROOMS, MAX_ROOM_ITEMS, MAX_ROOM_MONSTERS, ROOM_MAX_SIZE,
    ROOM_MIN_SIZE,
};
pub use messages::{Message, Messages};
pub use textnum::u32_to_string;
pub use tile::Tile;
pub use turn::{ai_phase, handle_command, inventory_options, menu_choice, Command, PlayerAction};

verus! {

/// Width of the dungeon grid, fixed for the session.
pub const MAP_WIDTH: i32 = 80;

/// Height of the dungeon grid, fixed for the session.
pub const MAP_HEIGHT: i32 = 45;

} // verus!
