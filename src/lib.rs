pub mod arena;
pub mod collider;
pub mod collision;
pub mod components;
pub mod control;
pub mod generation;
pub mod geometry;
pub mod logic;
pub mod model;
pub mod movement;
pub mod particles;
pub mod position;
mod random;
