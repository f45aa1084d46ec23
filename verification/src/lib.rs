//! Terrain generation, image layout and start-up dialog of a small
//! world-building game, with the decisions proved against their contracts.

pub mod terrain;
pub mod world;
pub mod image;
pub mod input;
pub mod dialog;
pub mod seeds;

