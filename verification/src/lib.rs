//! Cells: the verified core of an agar.io-like cell game.
//!
//! Each module holds the integer logic of one part of the game: the entity
//! registry, the spatial grids of the map, the per-step decisions of the
//! solvers and the validation of settings.
pub mod debug;
pub mod geometry;
pub mod entity;
pub mod storage;
pub mod map;
pub mod utils;
pub mod game;
pub mod random;
pub mod game_solver;
pub mod renderer;
