//! Tile-grid logic of an isometric survival game: map generation, walking
//! rules, path finding, inventory and looting, and the decisions of the
//! undead, each stated in its contract.
pub mod camera;
pub mod loot;
pub mod map;
pub mod path;
pub mod layout;
pub mod player;
pub mod entities;
pub mod buildings;
pub mod world;
pub mod walker;
pub mod zombie;
pub mod motion;
pub mod game;
pub mod rng;
pub mod laws;
