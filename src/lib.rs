//! Runtime core of a small 2D battle game: a generational entity store and a
//! turn-based battle engine that runs over it.
pub mod component;
pub mod ecs;
pub mod battle;
mod random;
