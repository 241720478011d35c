use vstd::prelude::*;

verus! {

/// Top-level application state.
#[derive(Debug, Clone, Copy, PartialEq, Eq, Hash, Structural)]
pub enum AppState {
    TitleScreen,
    MainMenu,
    Settings,
    SaveLoadMenu,
    Playing,
    Paused,
}

impl Default for AppState {
    fn default() -> (s: Self)
        ensures
            s == AppState::TitleScreen,
    {
        AppState::TitleScreen
    }
}

/// Sub-state for which settings tab is active (only meaningful in Settings).
#[derive(Debug, Clone, Copy, PartialEq, Eq, Hash, Structural)]
pub enum SettingsTab {
    Graphics,
    Audio,
    Controls,
}

impl Default for SettingsTab {
    fn default() -> (t: Self)
        ensures
            t == SettingsTab::Graphics,
    {
        SettingsTab::Graphics
    }
}

/// Remembers which state to return to after closing Settings.
#[derive(Debug, Clone, Copy, PartialEq, Eq, Structural)]
pub struct SettingsReturnState(pub AppState);

impl Default for SettingsReturnState {
    fn default() -> (s: Self)
        ensures
            s.0 == AppState::MainMenu,
    {
        SettingsReturnState(AppState::MainMenu)
    }
}

/// Whether the save/load menu is in save or load mode.
#[derive(Debug, Clone, Copy, PartialEq, Eq, Structural)]
pub enum SaveLoadMode {
    Load,
    Save,
}

impl Default for SaveLoadMode {
    fn default() -> (m: Self)
        ensures
            m == SaveLoadMode::Load,
    {
        SaveLoadMode::Load
    }
}

/// Remembers which state to return to after closing the save/load menu.
#[derive(Debug, Clone, Copy, PartialEq, Eq, Structural)]
pub struct SaveLoadReturnState(pub AppState);

impl Default for SaveLoadReturnState {
    fn default() -> (s: Self)
        ensures
            s.0 == AppState::MainMenu,
    {
        SaveLoadReturnState(AppState::MainMenu)
    }
}

/// Flag: when true, entering Playing triggers a full game reset.
#[derive(Debug, Clone, Copy, PartialEq, Eq, Structural)]
pub struct NewGameRequested(pub bool);

impl Default for NewGameRequested {
    fn default() -> (f: Self)
        ensures
            !f.0,
    {
        NewGameRequested(false)
    }
}

/// One-shot quit guard: set the moment an exit is requested; once set, every
/// later exit input is ignored.
#[derive(Debug, Clone, Copy, PartialEq, Eq, Structural)]
pub struct QuitRequested(pub bool);

impl Default for QuitRequested {
    fn default() -> (f: Self)
        ensures
            !f.0,
    {
        QuitRequested(false)
    }
}

/// The state that Escape switches to: Playing and Paused swap, no other
/// state has a counterpart.
pub open spec fn pause_counterpart(state: AppState) -> Option<AppState> {
    match state {
        AppState::Playing => Some(AppState::Paused),
        AppState::Paused => Some(AppState::Playing),
        _ => None,
    }
}

/// The state to switch to on this frame, if any: toggles between Playing and
/// Paused when Escape was just pressed, except while a level transition is in
/// progress (so that a pending transition's own state change is not
/// overwritten).
pub fn toggle_pause(state: AppState, escape_just_pressed: bool, transition_in_progress: bool) -> (next:
    Option<AppState>)
    ensures
        next == if transition_in_progress || !escape_just_pressed {
            None
        } else {
            pause_counterpart(state)
        },
{
    if transition_in_progress {
        return None;
    }
    if escape_just_pressed {
        match state {
            AppState::Playing => Some(AppState::Paused),
            AppState::Paused => Some(AppState::Playing),
            _ => None,
        }
    } else {
        None
    }
}

/// Pausing and unpausing: two presses of Escape lead back to the state the
/// game was in, for Playing and for Paused.
pub proof fn lemma_toggle_pause_twice(state: AppState)
    requires
        state == AppState::Playing || state == AppState::Paused,
    ensures
        pause_counterpart(state) is Some,
        pause_counterpart(pause_counterpart(state).unwrap()) == Some(state),
        pause_counterpart(state) != Some(state),
{
}

/// Whether the HUD is shown: only while playing or paused.
pub fn hud_visible(state: AppState) -> (visible: bool)
    ensures
        visible == (state == AppState::Playing || state == AppState::Paused),
{
    match state {
        AppState::Playing | AppState::Paused => true,
        _ => false,
    }
}

} // verus!
