//! Simulation core of a grid-based, turn-based roguelike: a cooldown-driven
//! turn scheduler with priority-ordered action resolution, and a
//! constraint-based dungeon generator, over an explicit entity table.

pub mod direction;
pub mod vector;
pub mod model;
pub mod random;
pub mod game_world;
pub mod world;
pub mod actions;
pub mod behaviors;
pub mod scheduler;
pub mod generator;
pub mod levels;
pub mod action;
