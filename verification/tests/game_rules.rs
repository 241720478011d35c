use jaspers_world::game::controls::{keycode_display_name, ControlBindings, GameAction, Key, RebindingState};
use jaspers_world::game::cutscene::{
    AdvanceOutcome, BoxAction, CutsceneScript, DialogLine, SanctuaryCutsceneState,
};
use jaspers_world::game::graphics::{GraphicsSettings, RESOLUTION_COUNT};
use jaspers_world::game::hud::{
    door_prompt_text, flash_name, health_text, level_name_text, star_counter_text, LevelId,
};
use jaspers_world::game::weather::{weather_for, WeatherType};
use jaspers_world::game::states::{
    hud_visible, toggle_pause, AppState, NewGameRequested, QuitRequested, SaveLoadMode,
    SaveLoadReturnState, SettingsReturnState, SettingsTab,
};
use jaspers_world::game::window_geometry::{persist_window_geometry, WindowGeometry};
use jaspers_world::ldtk::bootstrap::{
    build_layout, city_layer0_tiles, city_layer1_tiles, city_layer2_tiles, empty_grid,
    forest_layer0_tiles, forest_layer1_tiles, forest_layer2_tiles, set_platform, set_walls,
    solid_row, subdivision_layer0_tiles, subdivision_layer1_tiles, subdivision_layer2_tiles,
    Platform,
};
use jaspers_world::ldtk::text::str_contains;
use jaspers_world::tilemap::{
    autotile_index, block_model, cube_model, merged_runs, neighbor_solid, BlockModel, CubeModel, TileType,
};

// ---------------------------------------------------------------------------
// Tiles
// ---------------------------------------------------------------------------

#[test]
fn autotile_surface_and_fill() {
    assert_eq!(autotile_index(false, false, false, false), 4);
    assert_eq!(autotile_index(false, true, true, false), 5);
    assert_eq!(autotile_index(false, true, true, true), 6);
    assert_eq!(autotile_index(false, false, true, true), 7);
    assert_eq!(autotile_index(true, true, true, false), 23);
    assert_eq!(autotile_index(true, true, true, true), 24);
    assert_eq!(autotile_index(true, false, true, true), 25);
    assert_eq!(autotile_index(true, false, false, false), 24);
}

#[test]
fn autotile_ignores_the_tile_below() {
    for up in [false, true] {
        for right in [false, true] {
            for left in [false, true] {
                assert_eq!(autotile_index(up, right, false, left), autotile_index(up, right, true, left));
            }
        }
    }
}

#[test]
fn neighbor_solid_bounds() {
    let grid = vec![vec![TileType::Solid, TileType::Empty], vec![TileType::Platform, TileType::Solid]];
    assert!(neighbor_solid(&grid, 2, 2, 0, 0));
    assert!(!neighbor_solid(&grid, 2, 2, 1, 0));
    assert!(neighbor_solid(&grid, 2, 2, 0, 1));
    assert!(!neighbor_solid(&grid, 2, 2, -1, 0));
    assert!(!neighbor_solid(&grid, 2, 2, 0, -1));
    assert!(!neighbor_solid(&grid, 2, 2, 2, 0));
    assert!(!neighbor_solid(&grid, 2, 2, 0, 2));
    // Only the stated part of the grid counts.
    assert!(!neighbor_solid(&grid, 1, 1, 1, 1));
}

#[test]
fn merged_runs_splits_on_other_tiles() {
    let row = vec![
        TileType::Solid,
        TileType::Solid,
        TileType::Empty,
        TileType::Platform,
        TileType::Solid,
        TileType::Solid,
        TileType::Solid,
    ];
    assert_eq!(merged_runs(&row, TileType::Solid), vec![(0, 1), (4, 6)]);
    assert_eq!(merged_runs(&row, TileType::Platform), vec![(3, 3)]);
    assert_eq!(merged_runs(&row, TileType::Empty), vec![(2, 2)]);
    assert_eq!(merged_runs(&[], TileType::Solid), vec![]);
    assert_eq!(merged_runs(&[TileType::Platform, TileType::Platform], TileType::Platform), vec![(0, 1)]);
}

// ---------------------------------------------------------------------------
// Bootstrap layouts
// ---------------------------------------------------------------------------

#[test]
fn grid_helpers() {
    let mut g = empty_grid(4, 3);
    assert_eq!(g, vec![vec![0; 4]; 3]);
    assert_eq!(solid_row(3), vec![1, 1, 1]);
    set_platform(&mut g, 1, 1, 2);
    assert_eq!(g[1], vec![0, 2, 2, 0]);
    set_walls(&mut g, 2, 4);
    assert_eq!(g[2], vec![1, 0, 0, 1]);
    // An empty range draws nothing.
    set_platform(&mut g, 0, 3, 2);
    assert_eq!(g[0], vec![0, 0, 0, 0]);
}

#[test]
fn layout_platforms_win_over_walls() {
    let g = build_layout(5, 3, &[0], &[1, 2], &[Platform { row: 1, col_start: 0, col_end: 1 }]);
    assert_eq!(g, vec![vec![1, 1, 1, 1, 1], vec![2, 2, 0, 0, 1], vec![1, 0, 0, 0, 1]]);
}

fn count(g: &[Vec<u8>], v: u8) -> usize {
    g.iter().flat_map(|r| r.iter()).filter(|&&t| t == v).count()
}

#[test]
fn forest_street_layer() {
    let g = forest_layer0_tiles();
    assert_eq!(g.len(), 22);
    assert!(g.iter().all(|r| r.len() == 96));
    assert_eq!(g[0], vec![1; 96]);
    assert_eq!(g[2], vec![1; 96]);
    assert_eq!(g[3], vec![0; 96]);
    assert_eq!(&g[6][4..9], &[2, 2, 2, 2, 2]);
    assert_eq!(g[6][3], 0);
    assert_eq!(g[6][9], 0);
    assert_eq!(count(&g, 1), 3 * 96);
    assert_eq!(count(&g, 2), 5 + 5 + 5 + 6 + 5 + 5 + 6 + 3 + 6 + 5 + 5);
}

#[test]
fn cave_layers_are_walled() {
    for g in [forest_layer1_tiles(), subdivision_layer1_tiles(), city_layer1_tiles()] {
        assert_eq!(g.len(), 18);
        for (r, row) in g.iter().enumerate() {
            assert_eq!(row.len(), 32);
            if r <= 1 || r >= 16 {
                assert_eq!(*row, vec![1; 32]);
            } else {
                assert_eq!(row[0], 1);
                assert_eq!(row[31], 1);
            }
        }
    }
    let forest = forest_layer1_tiles();
    assert_eq!(&forest[5][5..10], &[2; 5]);
    assert_eq!(forest[5][4], 0);
}

#[test]
fn other_layers_have_expected_sizes() {
    for (g, rows) in [
        (forest_layer2_tiles(), 22),
        (subdivision_layer0_tiles(), 22),
        (subdivision_layer2_tiles(), 22),
        (city_layer0_tiles(), 44),
        (city_layer2_tiles(), 44),
    ] {
        assert_eq!(g.len(), rows);
        assert!(g.iter().all(|r| r.len() == 96));
        assert_eq!(count(&g[0..3], 1), 3 * 96);
        let first_empty = if rows == 22 { 15 } else { 31 };
        assert!(g[first_empty..].iter().all(|r| r.iter().all(|&t| t == 0)));
    }
    let city = city_layer0_tiles();
    assert_eq!(&city[30][80..86], &[2; 6]);
}

// ---------------------------------------------------------------------------
// States
// ---------------------------------------------------------------------------

#[test]
fn state_defaults() {
    assert_eq!(AppState::default(), AppState::TitleScreen);
    assert_eq!(SettingsTab::default(), SettingsTab::Graphics);
    assert_eq!(SettingsReturnState::default().0, AppState::MainMenu);
    assert_eq!(SaveLoadReturnState::default().0, AppState::MainMenu);
    assert_eq!(SaveLoadMode::default(), SaveLoadMode::Load);
    assert!(!NewGameRequested::default().0);
    assert!(!QuitRequested::default().0);
}

#[test]
fn escape_toggles_pause() {
    assert_eq!(toggle_pause(AppState::Playing, true, false), Some(AppState::Paused));
    assert_eq!(toggle_pause(AppState::Paused, true, false), Some(AppState::Playing));
    assert_eq!(toggle_pause(AppState::MainMenu, true, false), None);
    assert_eq!(toggle_pause(AppState::Playing, false, false), None);
    // A transition in progress keeps its own pending state.
    assert_eq!(toggle_pause(AppState::Playing, true, true), None);
    let back = toggle_pause(toggle_pause(AppState::Playing, true, false).unwrap(), true, false);
    assert_eq!(back, Some(AppState::Playing));
}

#[test]
fn hud_only_in_game() {
    assert!(hud_visible(AppState::Playing));
    assert!(hud_visible(AppState::Paused));
    assert!(!hud_visible(AppState::MainMenu));
    assert!(!hud_visible(AppState::Settings));
    assert!(!hud_visible(AppState::TitleScreen));
    assert!(!hud_visible(AppState::SaveLoadMenu));
}

// ---------------------------------------------------------------------------
// Settings
// ---------------------------------------------------------------------------

#[test]
fn resolution_cycles() {
    let mut g = GraphicsSettings::default();
    assert_eq!(g.resolution_index, 0);
    assert!(!g.fullscreen);
    assert!(g.vsync);
    assert_eq!(g.resolution(), (1280, 720));
    g.cycle_resolution_backward();
    assert_eq!(g.resolution_index, RESOLUTION_COUNT - 1);
    assert_eq!(g.resolution(), (2560, 1440));
    g.cycle_resolution_forward();
    assert_eq!(g.resolution_index, 0);
    g.cycle_resolution_forward();
    assert_eq!(g.resolution(), (1600, 900));
    g.cycle_resolution_forward();
    assert_eq!(g.resolution(), (1920, 1080));
    g.cycle_resolution_backward();
    assert_eq!(g.resolution_index, 1);
}

#[test]
fn default_controls() {
    let c = ControlBindings::default();
    assert_eq!(c.key_for(GameAction::MoveLeft), Key::KeyA);
    assert_eq!(c.key_for(GameAction::MoveRight), Key::KeyD);
    assert_eq!(c.key_for(GameAction::Jump), Key::Space);
    assert_eq!(c.key_for(GameAction::Interact), Key::KeyE);
    assert_eq!(c.key_for(GameAction::Attack), Key::KeyF);
    assert_eq!(RebindingState::default().awaiting, None);
}

#[test]
fn rebind_swaps_a_taken_key() {
    let mut c = ControlBindings::default();
    c.rebind(GameAction::Jump, Key::KeyA);
    assert_eq!(c.key_for(GameAction::Jump), Key::KeyA);
    assert_eq!(c.key_for(GameAction::MoveLeft), Key::Space);
    c.rebind(GameAction::Attack, Key::KeyQ);
    assert_eq!(c.key_for(GameAction::Attack), Key::KeyQ);
    assert_eq!(c.key_for(GameAction::Interact), Key::KeyE);
    // Rebinding to the key already held changes nothing.
    c.rebind(GameAction::Attack, Key::KeyQ);
    assert_eq!(c.key_for(GameAction::Attack), Key::KeyQ);
    let keys: Vec<Key> = GameAction::all().into_iter().map(|a| c.key_for(a)).collect();
    assert_eq!(keys, vec![Key::Space, Key::KeyD, Key::KeyA, Key::KeyE, Key::KeyQ]);
}

#[test]
fn labels() {
    assert_eq!(GameAction::MoveLeft.display_name(), "Move Left");
    assert_eq!(GameAction::MoveRight.display_name(), "Move Right");
    assert_eq!(GameAction::Attack.display_name(), "Attack");
    assert_eq!(keycode_display_name(Key::KeyQ), "Q");
    assert_eq!(keycode_display_name(Key::ShiftLeft), "L-Shift");
    assert_eq!(keycode_display_name(Key::ControlRight), "R-Ctrl");
    assert_eq!(keycode_display_name(Key::ArrowUp), "Up");
    assert_eq!(keycode_display_name(Key::Escape), "???");
    assert_eq!(keycode_display_name(Key::Other(7)), "???");
}

// ---------------------------------------------------------------------------
// HUD
// ---------------------------------------------------------------------------

#[test]
fn hud_texts() {
    assert_eq!(level_name_text(Some(LevelId::City), 1), "City L2");
    assert_eq!(level_name_text(None, 0), "Forest L1");
    assert_eq!(level_name_text(Some(LevelId::Sanctuary), 9), "Sanctuary L10");
    assert_eq!(health_text(100, 100), "HP 100/100");
    assert_eq!(health_text(-3, 50), "HP -3/50");
    assert_eq!(star_counter_text(4, 11), "Stars 4/11");
    assert_eq!(door_prompt_text(1, 0), "Press E to enter the cave");
    assert_eq!(door_prompt_text(0, 1), "Press E to exit the cave");
    assert_eq!(door_prompt_text(2, 2), "Press E to exit the cave");
}

// ---------------------------------------------------------------------------
// Window geometry
// ---------------------------------------------------------------------------

#[test]
fn window_geometry_written_once_per_change() {
    let mut last = None;
    let g = (10, 20, 1280, 720);
    assert_eq!(persist_window_geometry(&mut last, false, None), None);
    assert_eq!(
        persist_window_geometry(&mut last, false, Some(g)),
        Some(WindowGeometry { x: 10, y: 20, width: 1280, height: 720 })
    );
    assert_eq!(last, Some(g));
    assert_eq!(persist_window_geometry(&mut last, false, Some(g)), None);
    let moved = (11, 20, 1280, 720);
    assert_eq!(persist_window_geometry(&mut last, true, Some(moved)), None);
    assert_eq!(last, Some(g));
    assert!(persist_window_geometry(&mut last, false, Some(moved)).is_some());
    assert_eq!(last, Some(moved));
}

// ---------------------------------------------------------------------------
// Sanctuary cutscene
// ---------------------------------------------------------------------------

fn script() -> CutsceneScript {
    CutsceneScript {
        lines: vec![
            DialogLine { speaker: "jasper".to_string(), text: "Hello!".to_string() },
            DialogLine { speaker: "family".to_string(), text: "Welcome home.".to_string() },
            DialogLine { speaker: "owl".to_string(), text: "Hoo.".to_string() },
        ],
        finish_prompt: "The End".to_string(),
    }
}

fn spawned(action: BoxAction) -> jaspers_world::game::cutscene::DialogBox {
    match action {
        BoxAction::Spawn(b) => b,
        other => panic!("expected a new box, got {:?}", other),
    }
}

#[test]
fn cutscene_plays_through() {
    let mut s = SanctuaryCutsceneState::default();
    // Without a script nothing starts.
    assert!(!s.check_trigger(true));
    s.config = Some(script());
    assert!(matches!(s.box_action(false), BoxAction::Despawn));
    assert!(!s.check_trigger(false));
    assert!(s.check_trigger(true));
    assert!(!s.check_trigger(true), "fires only once");

    let b = spawned(s.box_action(false));
    assert_eq!(b.speaker_label, "Jasper:");
    assert_eq!(b.text, "Hello!");
    assert!(b.side_left);
    assert!(!b.full_width);
    assert_eq!(b.hint, "[Space / E] to continue");
    assert!(matches!(s.box_action(true), BoxAction::Keep));

    assert_eq!(s.advance(false), AdvanceOutcome::Unchanged);
    assert_eq!(s.advance(true), AdvanceOutcome::NextLine);
    let b = spawned(s.box_action(false));
    assert_eq!(b.speaker_label, "Family:");
    assert!(!b.side_left);

    assert_eq!(s.advance(true), AdvanceOutcome::NextLine);
    let b = spawned(s.box_action(false));
    assert_eq!(b.speaker_label, "owl:");
    assert_eq!(b.text, "Hoo.");

    assert_eq!(s.advance(true), AdvanceOutcome::NextLine);
    assert!(s.awaiting_finish);
    let b = spawned(s.box_action(false));
    assert_eq!(b.speaker_label, "");
    assert_eq!(b.text, "The End");
    assert!(b.full_width);
    assert_eq!(b.hint, "[Space / E] to finish");

    assert_eq!(s.advance(true), AdvanceOutcome::Finished);
    assert!(s.finished);
    assert!(matches!(s.box_action(false), BoxAction::Despawn));
    assert_eq!(s.advance(true), AdvanceOutcome::Unchanged);
    assert!(!s.check_trigger(true));

    s.reset();
    assert!(s.config.is_some());
    assert!(!s.triggered && !s.awaiting_finish && !s.finished);
    assert_eq!(s.current_line, 0);
    assert!(s.check_trigger(true));
}

#[test]
fn autotile_rows_follow_exposure() {
    for bits in 0..16u8 {
        let (up, right, down, left) = (bits & 1 != 0, bits & 2 != 0, bits & 4 != 0, bits & 8 != 0);
        let idx = autotile_index(up, right, down, left);
        if up {
            assert!((20..40).contains(&idx));
        } else {
            assert!(idx < 20);
        }
    }
}

#[test]
fn runs_cover_each_target_cell_once() {
    let row = vec![
        TileType::Platform,
        TileType::Empty,
        TileType::Platform,
        TileType::Platform,
        TileType::Solid,
        TileType::Platform,
    ];
    let runs = merged_runs(&row, TileType::Platform);
    for (c, t) in row.iter().enumerate() {
        let holders = runs.iter().filter(|(s, e)| *s <= c && c <= *e).count();
        assert_eq!(holders, if *t == TileType::Platform { 1 } else { 0 });
    }
}

#[test]
fn weather_by_level() {
    assert_eq!(weather_for(Some(LevelId::Forest), 0), Some((WeatherType::Leaves, 150)));
    assert_eq!(weather_for(Some(LevelId::Subdivision), 2), Some((WeatherType::Rain, 80)));
    assert_eq!(weather_for(Some(LevelId::City), 0), Some((WeatherType::Dust, 120)));
    assert_eq!(weather_for(Some(LevelId::City), 1), None);
    assert_eq!(weather_for(Some(LevelId::Sanctuary), 0), None);
    assert_eq!(weather_for(None, 0), None);
}

#[test]
fn level_name_flash() {
    assert_eq!(flash_name(Some(LevelId::Subdivision)), Some("Subdivision"));
    assert_eq!(flash_name(Some(LevelId::Sanctuary)), Some("Sanctuary"));
    assert_eq!(flash_name(None), None);
}

#[test]
fn cutscene_without_lines_finishes_on_first_press() {
    let mut s = SanctuaryCutsceneState::default();
    s.config = Some(CutsceneScript { lines: vec![], finish_prompt: "Bye".to_string() });
    assert!(s.check_trigger(true));
    assert_eq!(s.advance(true), AdvanceOutcome::NextLine);
    assert!(s.awaiting_finish);
    assert_eq!(s.current_line, 1);
    let b = spawned(s.box_action(false));
    assert_eq!(b.text, "Bye");
    assert_eq!(s.advance(true), AdvanceOutcome::Finished);
}

#[test]
fn tile_model_kinds() {
    assert_eq!(cube_model("models/cement-platform.glb"), Some(CubeModel::CementPlatform));
    assert_eq!(cube_model("models/grass-block.glb"), Some(CubeModel::GrassBlock));
    assert_eq!(cube_model("models/redbricks.glb"), Some(CubeModel::Redbricks));
    assert_eq!(cube_model("models/block-grass-large.glb"), None);
    assert_eq!(block_model("kenney/block-grass-low.glb"), Some(BlockModel::GrassLow));
    assert_eq!(block_model("kenney/block-grass-large.glb"), Some(BlockModel::GrassLarge));
    assert_eq!(block_model("kenney/block-snow-large.glb"), Some(BlockModel::SnowLarge));
    assert_eq!(block_model("kenney/block-moving-large.glb"), Some(BlockModel::MovingLarge));
    assert_eq!(block_model("kenney/platform.glb"), Some(BlockModel::Platform));
    assert_eq!(block_model("models/cement-platform.glb"), None);
    assert_eq!(block_model("nature/cliff_blockCave_rock.glb"), Some(BlockModel::CaveBlock));
    assert_eq!(block_model("graveyard/stone-wall.glb"), Some(BlockModel::StoneWall));
    assert_eq!(block_model("graveyard/brick-wall.glb"), Some(BlockModel::BrickWall));
    assert_eq!(block_model("kenney/brick.glb"), Some(BlockModel::Brick));
    assert_eq!(block_model("models/unknown.glb"), None);
}

#[test]
fn substring_search() {
    assert!(str_contains("models/block-grass-low.glb", "block-grass"));
    assert!(str_contains("abc", ""));
    assert!(str_contains("abc", "abc"));
    assert!(!str_contains("abc", "abcd"));
    assert!(!str_contains("abc", "bd"));
    assert!(str_contains("aab", "ab"));
}
