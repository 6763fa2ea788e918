//! The turn-based core of a tile-based exploration game.
//!
//! A player walks a map of tiles, picks up and uses items, and sees what is
//! near. This crate is the game without its window: handles and the
//! registries that issue them, the world of actors, items and terrain,
//! the rules by which a tile lets an actor in, what an actor sees, what
//! using an item does, and the engine that works through commands.
//!
//! Every function states what it computes or changes over the
//! mathematical model of its types, and is proved to do so.

pub mod action;
pub mod actor;
mod chance;
pub mod engine;
pub mod flake;
pub mod idmap;
pub mod item;
pub mod message;
pub mod point;
pub mod pointset;
pub mod population;
pub mod skill;
pub mod terrain;
pub mod text;
pub mod world;
