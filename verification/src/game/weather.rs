use vstd::prelude::*;

use crate::game::hud::LevelId;

verus! {

/// The particles a weather emitter releases.
#[derive(Debug, Clone, Copy, PartialEq, Eq, Structural)]
pub enum WeatherType {
    /// Falling leaves (Forest).
    Leaves,
    /// Rain (Subdivision).
    Rain,
    /// Drifting dust (City).
    Dust,
}

/// The weather of a level's layer: particle kind and the interval between
/// particles in milliseconds. Underground sublevels (layer 1) have none, nor
/// has the Sanctuary or an unknown level.
pub open spec fn weather(level: Option<LevelId>, layer_index: int) -> Option<(WeatherType, u32)> {
    if layer_index == 1 {
        None
    } else {
        match level {
            Some(LevelId::Forest) => Some((WeatherType::Leaves, 150u32)),
            Some(LevelId::Subdivision) => Some((WeatherType::Rain, 80u32)),
            Some(LevelId::City) => Some((WeatherType::Dust, 120u32)),
            _ => None,
        }
    }
}

/// The emitter to start when the level changes (the previous one is removed
/// in any case): which particles, and every how many milliseconds.
pub fn weather_for(level: Option<LevelId>, layer_index: usize) -> (w: Option<(WeatherType, u32)>)
    ensures
        w == weather(level, layer_index as int),
{
    if layer_index == 1 {
        return None;
    }
    match level {
        Some(LevelId::Forest) => Some((WeatherType::Leaves, 150)),
        Some(LevelId::Subdivision) => Some((WeatherType::Rain, 80)),
        Some(LevelId::City) => Some((WeatherType::Dust, 120)),
        _ => None,
    }
}

/// The weather of each level, on every layer except the underground one:
/// falling leaves every 150 ms in the Forest, rain every 80 ms in the
/// Subdivision, dust every 120 ms in the City; none underground, none in the
/// Sanctuary and none before a level is known.
pub proof fn lemma_weather_table(level: Option<LevelId>, layer_index: int)
    ensures
        layer_index != 1 && level == Some(LevelId::Forest) ==> weather(level, layer_index) == Some(
            (WeatherType::Leaves, 150u32),
        ),
        layer_index != 1 && level == Some(LevelId::Subdivision) ==> weather(level, layer_index)
            == Some((WeatherType::Rain, 80u32)),
        layer_index != 1 && level == Some(LevelId::City) ==> weather(level, layer_index) == Some(
            (WeatherType::Dust, 120u32),
        ),
        layer_index == 1 ==> weather(level, layer_index) is None,
        level == Some(LevelId::Sanctuary) || level is None ==> weather(level, layer_index) is None,
{
}

} // verus!
