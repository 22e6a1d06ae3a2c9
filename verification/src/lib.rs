//! Simulation core of a turn-based dungeon crawler.

pub mod color;
pub mod tile;
pub mod rect;
pub mod grid;
pub mod text;
pub mod messages;
pub mod game;
pub mod object;
pub mod combat;
pub mod movement;
pub mod carve;
pub mod random;
pub mod spawn;
pub mod dungeon;
pub mod connect;
pub mod fov;
pub mod scene;
pub mod ai;
pub mod engine;
pub mod playable;
pub mod render;
