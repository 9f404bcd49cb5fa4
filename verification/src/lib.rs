//! Core state of a turn-based, grid-exploration dungeon crawler.
//!
//! The library tracks a single player moving across a lazily generated map,
//! resolves room encounters (loot, monsters, merchants), manages survival
//! pressure (hunger), and tracks per-location enemy state. Rendering and
//! command parsing live outside; they drive the core through `GameState`.

pub mod enemy;
pub mod game_state;
pub mod geometry;
pub mod inventory;
pub mod player;
pub mod rng;
pub mod room;
pub mod table;
pub mod world_map;
