use game_of_life::grid::{CellState, GameMode, Grid, KeyAction, MouseButton, Position};
use game_of_life::state::MainState;

fn click(g: &mut Grid, x: i32, y: i32) {
    // With the surface size equal to the grid dimensions, every cell is one
    // unit wide, so the point (x, y) maps to the cell (x, y).
    let d = g.dim();
    g.handle_mouse_click(MouseButton::Left, d, Position { x, y });
}

fn state_at(g: &Grid, x: i32, y: i32) -> CellState {
    g.cell_at(Position { x, y }).unwrap().state()
}

#[test]
fn transition_rule_table() {
    let expected_alive = [
        CellState::Dead,
        CellState::Dead,
        CellState::Alive,
        CellState::Alive,
        CellState::Dead,
        CellState::Dead,
        CellState::Dead,
        CellState::Dead,
        CellState::Dead,
    ];
    let expected_dead = [
        CellState::Dead,
        CellState::Dead,
        CellState::Dead,
        CellState::Alive,
        CellState::Dead,
        CellState::Dead,
        CellState::Dead,
        CellState::Dead,
        CellState::Dead,
    ];
    for around in 0..9 {
        let around: i32 = around;
        assert_eq!(CellState::Alive.calc_next(around), expected_alive[around as usize]);
        assert_eq!(CellState::Dead.calc_next(around), expected_dead[around as usize]);
    }
}

#[test]
fn blinker_flips_after_one_generation() {
    let mut g = Grid::new(Position { x: 3, y: 3 });
    click(&mut g, 0, 1);
    click(&mut g, 1, 1);
    click(&mut g, 2, 1);
    g.handle_key_press(KeyAction::TogglePlay);
    g.update();
    // The horizontal run became a vertical one: the cells above and below
    // the middle column were each born from the 3 alive cells of the frozen
    // previous generation.
    assert_eq!(state_at(&g, 1, 0), CellState::Alive);
    assert_eq!(state_at(&g, 1, 1), CellState::Alive);
    assert_eq!(state_at(&g, 1, 2), CellState::Alive);
    assert_eq!(state_at(&g, 0, 1), CellState::Dead);
    assert_eq!(state_at(&g, 2, 1), CellState::Dead);
    assert_eq!(state_at(&g, 0, 0), CellState::Dead);
    assert_eq!(state_at(&g, 2, 2), CellState::Dead);
}

#[test]
fn block_is_a_still_life() {
    let mut g = Grid::new(Position { x: 4, y: 4 });
    click(&mut g, 1, 1);
    click(&mut g, 2, 1);
    click(&mut g, 1, 2);
    click(&mut g, 2, 2);
    g.handle_key_press(KeyAction::TogglePlay);
    g.update();
    for x in 0..4 {
        for y in 0..4 {
            let x: i32 = x;
            let y: i32 = y;
            let expected = if (x == 1 || x == 2) && (y == 1 || y == 2) {
                CellState::Alive
            } else {
                CellState::Dead
            };
            assert_eq!(state_at(&g, x, y), expected);
        }
    }
}

#[test]
fn cell_toggle_ignored_while_playing() {
    let mut g = Grid::new(Position { x: 3, y: 3 });
    g.handle_key_press(KeyAction::TogglePlay);
    click(&mut g, 1, 1);
    assert_eq!(state_at(&g, 1, 1), CellState::Dead);
}

#[test]
fn non_left_click_ignored() {
    let mut g = Grid::new(Position { x: 3, y: 3 });
    let d = g.dim();
    g.handle_mouse_click(MouseButton::Right, d, Position { x: 1, y: 1 });
    g.handle_mouse_click(MouseButton::Middle, d, Position { x: 1, y: 1 });
    assert_eq!(state_at(&g, 1, 1), CellState::Dead);
}

#[test]
fn reset_ignored_while_playing() {
    let mut g = Grid::new(Position { x: 3, y: 3 });
    click(&mut g, 1, 1);
    g.handle_key_press(KeyAction::TogglePlay);
    g.handle_key_press(KeyAction::Reset);
    assert_eq!(state_at(&g, 1, 1), CellState::Alive);
    g.handle_key_press(KeyAction::TogglePlay);
    g.handle_key_press(KeyAction::Reset);
    assert_eq!(state_at(&g, 1, 1), CellState::Dead);
}

#[test]
fn update_is_noop_during_initialization() {
    let mut g = Grid::new(Position { x: 3, y: 3 });
    click(&mut g, 0, 1);
    click(&mut g, 1, 1);
    click(&mut g, 2, 1);
    g.update();
    assert_eq!(state_at(&g, 0, 1), CellState::Alive);
    assert_eq!(state_at(&g, 1, 1), CellState::Alive);
    assert_eq!(state_at(&g, 2, 1), CellState::Alive);
    assert_eq!(state_at(&g, 1, 0), CellState::Dead);
    assert_eq!(state_at(&g, 1, 2), CellState::Dead);
}

#[test]
fn toggle_play_cycles_modes() {
    let mut g = Grid::new(Position { x: 3, y: 3 });
    assert_eq!(g.mode(), GameMode::Initialization);
    g.handle_key_press(KeyAction::TogglePlay);
    assert_eq!(g.mode(), GameMode::Playing);
    g.handle_key_press(KeyAction::TogglePlay);
    assert_eq!(g.mode(), GameMode::Initialization);
}

#[test]
fn overlay_toggles_in_any_mode() {
    let mut g = Grid::new(Position { x: 3, y: 3 });
    assert_eq!(g.show_grid(), true);
    g.handle_key_press(KeyAction::ToggleGrid);
    assert_eq!(g.show_grid(), false);
    g.handle_key_press(KeyAction::TogglePlay);
    g.handle_key_press(KeyAction::ToggleGrid);
    assert_eq!(g.show_grid(), true);
}

#[test]
fn click_toggles_back_and_forth() {
    let mut g = Grid::new(Position { x: 3, y: 3 });
    click(&mut g, 2, 0);
    assert_eq!(state_at(&g, 2, 0), CellState::Alive);
    click(&mut g, 2, 0);
    assert_eq!(state_at(&g, 2, 0), CellState::Dead);
}

#[test]
fn click_maps_through_surface_coordinates() {
    let mut g = Grid::new(Position { x: 10, y: 10 });
    // On a 100 x 100 surface each cell is 10 units; the point (99, 99)
    // falls in the last cell.
    let win = Position { x: 100, y: 100 };
    g.handle_mouse_click(MouseButton::Left, win, Position { x: 99, y: 99 });
    assert_eq!(state_at(&g, 9, 9), CellState::Alive);
    assert_eq!(state_at(&g, 0, 0), CellState::Dead);
}

#[test]
fn ignored_clicks_need_no_surface() {
    // A non-editing click changes nothing whatever the surface data says.
    let mut g = Grid::new(Position { x: 3, y: 3 });
    g.toggle_play();
    g.handle_mouse_click(MouseButton::Left, Position { x: 0, y: 0 }, Position { x: -5, y: 9 });
    g.handle_mouse_click(MouseButton::Right, Position { x: -1, y: 0 }, Position { x: 7, y: 7 });
    assert_eq!(state_at(&g, 1, 1), CellState::Dead);
    assert_eq!(g.mode(), GameMode::Playing);
}

#[test]
fn render_flags_mirror_the_cells() {
    let mut g = Grid::new(Position { x: 3, y: 2 });
    click(&mut g, 1, 1);
    click(&mut g, 2, 0);
    let flags = g.render_flags();
    assert_eq!(flags.len(), 3);
    assert_eq!(flags[0].len(), 2);
    let expected = vec![vec![false, false], vec![false, true], vec![true, false]];
    assert_eq!(flags, expected);
}

#[test]
fn main_state_starts_initialized() {
    let s = MainState::new();
    assert_eq!(s.grid().dim(), Position { x: 48, y: 27 });
    assert_eq!(s.grid().mode(), GameMode::Initialization);
    assert_eq!(s.grid().show_grid(), true);
    assert_eq!(state_at(s.grid(), 0, 0), CellState::Dead);
    assert_eq!(state_at(s.grid(), 47, 26), CellState::Dead);
}

#[test]
fn main_state_forwards_input_and_ticks() {
    let mut s = MainState::new();
    let d = s.grid().dim();
    s.handle_mouse_click(MouseButton::Left, d, Position { x: 5, y: 5 });
    assert_eq!(state_at(s.grid(), 5, 5), CellState::Alive);
    s.update();
    assert_eq!(state_at(s.grid(), 5, 5), CellState::Alive);
    s.handle_key_press(KeyAction::TogglePlay);
    s.update();
    // A lone cell has no alive neighbor and dies once the simulation runs.
    assert_eq!(state_at(s.grid(), 5, 5), CellState::Dead);
}
