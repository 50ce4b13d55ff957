//! The top-level simulation state a host event loop drives: it owns the grid
//! and forwards the per-tick advance and the host-mapped input events.

use crate::grid::{
    key_press_transition, mouse_click_transition, tick_transition, CellState, GameMode, Grid,
    KeyAction, MouseButton, Position,
};
use vstd::prelude::*;

verus! {

/// The state driven by the host loop: a grid of fixed default dimensions.
pub struct MainState {
    grid: Grid,
}

impl MainState {
    /// The grid, for specifications.
    pub closed spec fn spec_grid(self) -> Grid {
        self.grid
    }

    /// A fresh state: a 48 x 27 grid, every cell dead, in `Initialization`
    /// mode with the overlay enabled.
    pub fn new() -> (s: MainState)
        ensures
            s.spec_grid().wf(),
            s.spec_grid().spec_dim() == (Position { x: 48, y: 27 }),
            s.spec_grid().spec_mode() == GameMode::Initialization,
            s.spec_grid().spec_show_grid() == true,
            forall|x: int, y: int|
                s.spec_grid().in_range_at(x, y) ==> s.spec_grid().cell_state(x, y)
                    == CellState::Dead,
    {
        MainState { grid: Grid::new(Position { x: 48, y: 27 }) }
    }

    /// A read-only view of the grid, for rendering.
    pub fn grid(&self) -> (r: &Grid)
        ensures
            *r == self.spec_grid(),
    {
        &self.grid
    }

    /// Mutable access to the grid, for the host's input dispatch.
    pub fn grid_mut(&mut self) -> (r: &mut Grid)
        ensures
            *r == old(self).spec_grid(),
            final(self).spec_grid() == *final(r),
    {
        &mut self.grid
    }

    /// One simulation tick: advances the grid a generation while `Playing`,
    /// and changes nothing while in `Initialization` mode.
    pub fn update(&mut self)
        requires
            old(self).spec_grid().wf(),
        ensures
            final(self).spec_grid().wf(),
            tick_transition(old(self).spec_grid(), final(self).spec_grid()),
    {
        self.grid.update();
    }

    /// Forwards a key action to the grid.
    pub fn handle_key_press(&mut self, action: KeyAction)
        requires
            old(self).spec_grid().wf(),
        ensures
            final(self).spec_grid().wf(),
            key_press_transition(old(self).spec_grid(), final(self).spec_grid(), action),
    {
        self.grid.handle_key_press(action);
    }

    /// Forwards a mouse click on the rendering surface to the grid.
    pub fn handle_mouse_click(&mut self, button: MouseButton, win_size: Position, pos: Position)
        requires
            old(self).spec_grid().wf(),
            button == MouseButton::Left && old(self).spec_grid().spec_mode()
                == GameMode::Initialization ==> {
                &&& 0 < win_size.x
                &&& 0 < win_size.y
                &&& 0 <= pos.x < win_size.x
                &&& 0 <= pos.y < win_size.y
            },
        ensures
            final(self).spec_grid().wf(),
            mouse_click_transition(
                old(self).spec_grid(),
                final(self).spec_grid(),
                button,
                win_size,
                pos,
            ),
    {
        self.grid.handle_mouse_click(button, win_size, pos);
    }
}

} // verus!
