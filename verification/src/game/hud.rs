use vstd::prelude::*;
use vstd::string::*;

use crate::ldtk::text::{decimal, decimal_string};

verus! {

/// The levels of the game.
#[derive(Debug, Clone, Copy, PartialEq, Eq, Hash, Structural)]
pub enum LevelId {
    Forest,
    Subdivision,
    City,
    Sanctuary,
}

/// The name shown for a level; "Forest" before any level is known.
pub open spec fn level_label(level: Option<LevelId>) -> Seq<char> {
    match level {
        Some(LevelId::Forest) => "Forest"@,
        Some(LevelId::Subdivision) => "Subdivision"@,
        Some(LevelId::City) => "City"@,
        Some(LevelId::Sanctuary) => "Sanctuary"@,
        None => "Forest"@,
    }
}

/// The level name display: the level's name, " L" and the layer counted
/// from 1, e.g. "City L2".
pub fn level_name_text(level: Option<LevelId>, layer_index: usize) -> (s: String)
    requires
        layer_index < usize::MAX,
    ensures
        s@ == level_label(level) + " L"@ + decimal(layer_index + 1),
{
    let name = match level {
        Some(LevelId::Forest) => "Forest",
        Some(LevelId::Subdivision) => "Subdivision",
        Some(LevelId::City) => "City",
        Some(LevelId::Sanctuary) => "Sanctuary",
        None => "Forest",
    };
    let layer = decimal_string(layer_index as i128 + 1);
    let mut s = String::from_str(name);
    s.append(" L");
    s.append(layer.as_str());
    s
}

/// The health display: "HP current/max", both whole numbers.
pub fn health_text(current: i32, max: i32) -> (s: String)
    ensures
        s@ == "HP "@ + decimal(current as int) + "/"@ + decimal(max as int),
{
    let c = decimal_string(current as i128);
    let m = decimal_string(max as i128);
    let mut s = String::from_str("HP ");
    s.append(c.as_str());
    s.append("/");
    s.append(m.as_str());
    s
}

/// The star counter: "Stars collected/total".
pub fn star_counter_text(collected: u32, total: u32) -> (s: String)
    ensures
        s@ == "Stars "@ + decimal(collected as int) + "/"@ + decimal(total as int),
{
    let c = decimal_string(collected as i128);
    let t = decimal_string(total as i128);
    let mut s = String::from_str("Stars ");
    s.append(c.as_str());
    s.append("/");
    s.append(t.as_str());
    s
}

/// The prompt near a door: a door to a higher layer enters the cave, any
/// other door leaves it.
pub open spec fn door_prompt(target_layer: int, layer_index: int) -> Seq<char> {
    if target_layer > layer_index {
        "Press E to enter the cave"@
    } else {
        "Press E to exit the cave"@
    }
}

/// The prompt shown near a door leading to `target_layer`, from the layer
/// `layer_index` the player is on.
pub fn door_prompt_text(target_layer: usize, layer_index: usize) -> (msg: &'static str)
    ensures
        msg@ == door_prompt(target_layer as int, layer_index as int),
{
    if target_layer > layer_index {
        "Press E to enter the cave"
    } else {
        "Press E to exit the cave"
    }
}

/// The name flashed on screen when a level starts; no flash before any level
/// is known.
pub fn flash_name(level: Option<LevelId>) -> (name: Option<&'static str>)
    ensures
        match name {
            Some(n) => level is Some && n@ == level_label(level),
            None => level is None,
        },
{
    match level {
        Some(LevelId::Forest) => Some("Forest"),
        Some(LevelId::Subdivision) => Some("Subdivision"),
        Some(LevelId::City) => Some("City"),
        Some(LevelId::Sanctuary) => Some("Sanctuary"),
        None => None,
    }
}

/// The level names, "Forest" before a level is known, and the door prompt:
/// entering the cave from the street (a door to a higher layer), leaving it
/// otherwise.
pub proof fn lemma_hud_labels(target_layer: int, layer_index: int)
    ensures
        level_label(Some(LevelId::Forest)) == "Forest"@,
        level_label(Some(LevelId::Subdivision)) == "Subdivision"@,
        level_label(Some(LevelId::City)) == "City"@,
        level_label(Some(LevelId::Sanctuary)) == "Sanctuary"@,
        level_label(None) == "Forest"@,
        target_layer > layer_index ==> door_prompt(target_layer, layer_index)
            == "Press E to enter the cave"@,
        target_layer <= layer_index ==> door_prompt(target_layer, layer_index)
            == "Press E to exit the cave"@,
{
}

} // verus!
