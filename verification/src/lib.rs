//! Verified core of Jasper's World: tile-map rules, settings, game-state
//! decisions and the LDtk level compiler.

pub mod game;
pub mod ldtk;
pub mod tilemap;
