//! Game rules that do not depend on the engine: application states, control
//! bindings, graphics settings, the sanctuary cutscene, HUD texts, weather and
//! window geometry persistence.

pub mod controls;
pub mod cutscene;
pub mod graphics;
pub mod hud;
pub mod states;
pub mod weather;
pub mod window_geometry;
