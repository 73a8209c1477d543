//! Population of a dungeon level, tile occupancy bookkeeping and the
//! clean-up that happens between levels.

pub mod occupancy;
pub mod world;
pub mod spawner;
