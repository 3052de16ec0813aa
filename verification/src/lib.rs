//! A turn-based dungeon crawler engine: level generation, the entity roster
//! with combat and monster behaviour, visibility and exploration, inventory,
//! progression and session snapshots.

pub mod color;
pub mod tile;
pub mod room;
pub mod level;
pub mod text;
pub mod message;
pub mod entity;
pub mod fov;
pub mod game;
pub mod movement;
pub mod actions;
mod rng;
pub mod spawn;
pub mod inventory;
pub mod progression;
pub mod view;
pub mod menu;
pub mod turn;
pub mod save;
pub mod roster;
pub mod reach;
