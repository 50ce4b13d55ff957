//! The grid data model: cells, the neighbor count, the transition rule that
//! advances one generation, and the mode machine that gates editing.

use vstd::arithmetic::div_mod::lemma_multiply_divide_lt;
use vstd::arithmetic::mul::{lemma_mul_strict_inequality, lemma_mul_upper_bound};
use vstd::prelude::*;

verus! {

/// An integer 2-vector: a cell's identity and location in the grid, and the
/// type of quantized screen-space points and sizes.
#[derive(Clone, Copy, Debug, PartialEq, Eq, Structural)]
pub struct Position {
    pub x: i32,
    pub y: i32,
}

/// A cell is either dead or alive; no other state exists.
#[derive(Clone, Copy, Debug, PartialEq, Eq, Structural)]
pub enum CellState {
    Dead,
    Alive,
}

/// The two-state mode machine: editing is only permitted during
/// `Initialization`, generation advance only during `Playing`.
#[derive(Clone, Copy, Debug, PartialEq, Eq, Structural)]
pub enum GameMode {
    Initialization,
    Playing,
}

/// Mouse button identity, as handed over by the host window loop.
#[derive(Clone, Copy, Debug, PartialEq, Eq, Structural)]
pub enum MouseButton {
    Left,
    Right,
    Middle,
    Other,
}

/// The recognized key actions; the host maps raw key codes to these.
#[derive(Clone, Copy, Debug, PartialEq, Eq, Structural)]
pub enum KeyAction {
    ToggleGrid,
    TogglePlay,
    Reset,
}

/// A position-tagged binary state. The position is assigned at creation and
/// never mutated; only the state changes.
#[derive(Clone, Copy, Debug)]
pub struct Cell {
    state: CellState,
    pos: Position,
}

type Matrix = Vec<Vec<Cell>>;

/// The grid owns a `width x height` array of cells, indexed `[x][y]`,
/// together with the mode flag and the overlay-display flag.
pub struct Grid {
    dim: Position,
    matrix: Matrix,
    show_grid: bool,
    mode: GameMode,
}

/// The value a cell contributes to a neighbor count: 1 when alive, else 0.
pub open spec fn state_value(s: CellState) -> int {
    match s {
        CellState::Alive => 1,
        CellState::Dead => 0,
    }
}

/// The other of the two states.
pub open spec fn flipped(s: CellState) -> CellState {
    match s {
        CellState::Alive => CellState::Dead,
        CellState::Dead => CellState::Alive,
    }
}

/// The other of the two modes.
pub open spec fn flipped_mode(m: GameMode) -> GameMode {
    match m {
        GameMode::Initialization => GameMode::Playing,
        GameMode::Playing => GameMode::Initialization,
    }
}

/// The B3/S23 transition rule: an alive cell survives with 2 or 3 alive
/// neighbors, a dead cell is born with exactly 3; every other pair dies or
/// stays dead.
pub open spec fn next_state(s: CellState, around: int) -> CellState {
    match s {
        CellState::Alive => if around == 2 || around == 3 {
            CellState::Alive
        } else {
            CellState::Dead
        },
        CellState::Dead => if around == 3 {
            CellState::Alive
        } else {
            CellState::Dead
        },
    }
}

/// `q` lies in the Moore neighborhood of `pt`: at most one step away on each
/// axis, and not `pt` itself.
pub open spec fn is_neighbor(pt: Position, q: Position) -> bool {
    &&& -1 <= q.x - pt.x <= 1
    &&& -1 <= q.y - pt.y <= 1
    &&& !(q.x == pt.x && q.y == pt.y)
}

/// The order the Moore-neighborhood offsets are enumerated in: offset
/// `(dx, dy)` has slot `3 * (dx + 1) + (dy + 1)`, so slots run 0 to 8 with
/// slot 4 the excluded center.
pub open spec fn slot(pt: Position, q: Position) -> int {
    3 * (q.x - pt.x + 1) + (q.y - pt.y + 1)
}

/// The x coordinate of the neighborhood candidate in slot `k`.
spec fn cand_x(pt: Position, k: int) -> int {
    pt.x + k / 3 - 1
}

/// The y coordinate of the neighborhood candidate in slot `k`.
spec fn cand_y(pt: Position, k: int) -> int {
    pt.y + k % 3 - 1
}

/// Which grid column or row a surface coordinate falls in, when a surface of
/// `win` units is divided into `dim` equal cells: the floored quotient of the
/// coordinate by the cell size, which is `p * dim / win` for whole units.
pub open spec fn grid_axis_index(p: int, dim: int, win: int) -> int {
    p * dim / win
}

/// What one simulation tick does to a grid: while `Playing` every cell takes
/// its next-generation state, computed from the frozen previous generation;
/// in any other mode nothing changes at all.
pub open spec fn tick_transition(pre: Grid, post: Grid) -> bool {
    &&& pre.same_frame(post)
    &&& pre.spec_mode() == GameMode::Playing ==> forall|x: int, y: int|
        pre.in_range_at(x, y) ==> #[trigger] post.cell_state(x, y) == pre.next_gen_state(x, y)
    &&& pre.spec_mode() != GameMode::Playing ==> post == pre
}

/// What a key action does to a grid: flip the overlay, flip the mode, or —
/// only during `Initialization` — reset every cell to dead; a reset while
/// `Playing` is a no-op.
pub open spec fn key_press_transition(pre: Grid, post: Grid, action: KeyAction) -> bool {
    &&& post.spec_dim() == pre.spec_dim()
    &&& match action {
        KeyAction::ToggleGrid => {
            &&& post.spec_show_grid() == !pre.spec_show_grid()
            &&& post.spec_mode() == pre.spec_mode()
            &&& pre.same_cells(post)
        },
        KeyAction::TogglePlay => {
            &&& post.spec_mode() == flipped_mode(pre.spec_mode())
            &&& post.spec_show_grid() == pre.spec_show_grid()
            &&& pre.same_cells(post)
        },
        KeyAction::Reset => {
            &&& pre.same_frame(post)
            &&& (pre.spec_mode() == GameMode::Initialization ==> forall|x: int, y: int|
                post.in_range_at(x, y) ==> #[trigger] post.cell_state(x, y) == CellState::Dead)
            &&& (pre.spec_mode() != GameMode::Initialization ==> post == pre)
        },
    }
}

/// What a mouse click on the rendering surface does to a grid: a left click
/// during `Initialization` toggles the cell the point maps to; any other
/// button, any other mode, or a point mapping outside the grid changes
/// nothing.
pub open spec fn mouse_click_transition(
    pre: Grid,
    post: Grid,
    button: MouseButton,
    win_size: Position,
    pos: Position,
) -> bool {
    &&& pre.same_frame(post)
    &&& !(button == MouseButton::Left && pre.spec_mode() == GameMode::Initialization) ==> post
        == pre
    &&& (button == MouseButton::Left && pre.spec_mode() == GameMode::Initialization) ==> {
        let tx = grid_axis_index(pos.x as int, pre.width(), win_size.x as int);
        let ty = grid_axis_index(pos.y as int, pre.height(), win_size.y as int);
        &&& (pre.in_range_at(tx, ty) ==> {
            &&& post.cell_state(tx, ty) == flipped(pre.cell_state(tx, ty))
            &&& forall|x: int, y: int|
                pre.in_range_at(x, y) && !(x == tx && y == ty) ==> #[trigger] post.cell_state(x, y)
                    == pre.cell_state(x, y)
        })
        &&& (!pre.in_range_at(tx, ty) ==> post == pre)
    }
}

impl CellState {
    /// Applies the transition rule to this (current) state for a cell with
    /// `around` alive neighbors.
    pub fn calc_next(&self, around: i32) -> (r: CellState)
        ensures
            r == next_state(*self, around as int),
    {
        match self {
            CellState::Alive => {
                if around == 2 || around == 3 {
                    CellState::Alive
                } else {
                    CellState::Dead
                }
            },
            CellState::Dead => {
                if around == 3 {
                    CellState::Alive
                } else {
                    CellState::Dead
                }
            },
        }
    }
}

impl Cell {
    /// The cell's state, for specifications.
    pub closed spec fn spec_state(self) -> CellState {
        self.state
    }

    /// The cell's position, for specifications.
    pub closed spec fn spec_pos(self) -> Position {
        self.pos
    }

    fn new(pos: Position) -> (c: Cell)
        ensures
            c.spec_state() == CellState::Dead,
            c.spec_pos() == pos,
    {
        Cell { state: CellState::Dead, pos }
    }

    /// The position this cell was tagged with at creation.
    pub fn pos(&self) -> (r: Position)
        ensures
            r == self.spec_pos(),
    {
        self.pos
    }

    /// The cell's current state.
    pub fn state(&self) -> (r: CellState)
        ensures
            r == self.spec_state(),
    {
        self.state
    }

    /// Flips Alive to Dead and back; the position never changes.
    pub(crate) fn toggle(&mut self)
        ensures
            final(self).spec_state() == flipped(old(self).spec_state()),
            final(self).spec_pos() == old(self).spec_pos(),
    {
        self.state = match self.state {
            CellState::Alive => CellState::Dead,
            CellState::Dead => CellState::Alive,
        };
    }
}

impl Grid {
    /// The grid's width, for specifications: the x component of the
    /// dimension pair.
    pub open spec fn width(self) -> int {
        self.spec_dim().x as int
    }

    /// The grid's height, for specifications: the y component of the
    /// dimension pair.
    pub open spec fn height(self) -> int {
        self.spec_dim().y as int
    }

    /// The dimension pair, for specifications.
    pub closed spec fn spec_dim(self) -> Position {
        self.dim
    }

    /// The current mode, for specifications.
    pub closed spec fn spec_mode(self) -> GameMode {
        self.mode
    }

    /// Whether the grid overlay is drawn, for specifications.
    pub closed spec fn spec_show_grid(self) -> bool {
        self.show_grid
    }

    /// The cell stored at index `[x][y]`, for specifications.
    pub closed spec fn spec_cell(self, x: int, y: int) -> Cell {
        self.matrix@[x]@[y]
    }

    /// The state of the cell stored at index `[x][y]`, for specifications.
    pub open spec fn cell_state(self, x: int, y: int) -> CellState {
        self.spec_cell(x, y).spec_state()
    }

    /// Well-formedness: the dimensions are non-negative, the storage has
    /// exactly `width` columns of exactly `height` cells, and every cell's
    /// stored position equals its array index.
    pub closed spec fn wf(self) -> bool {
        &&& 0 <= self.dim.x
        &&& 0 <= self.dim.y
        &&& self.matrix@.len() == self.dim.x as int
        &&& forall|i: int|
            0 <= i < self.matrix@.len() ==> (#[trigger] self.matrix@[i]@.len()) == self.dim.y as int
        &&& forall|i: int, j: int|
            0 <= i < self.matrix@.len() && 0 <= j < self.matrix@[i]@.len() ==> (
            #[trigger] self.matrix@[i]@[j]).pos == (Position { x: i as i32, y: j as i32 })
    }

    /// `(x, y)` lies inside the half-open coordinate space
    /// `[0, width) x [0, height)`.
    pub open spec fn in_range_at(self, x: int, y: int) -> bool {
        0 <= x < self.width() && 0 <= y < self.height()
    }

    /// `pt` lies inside the grid's coordinate space.
    pub open spec fn in_range_spec(self, pt: Position) -> bool {
        self.in_range_at(pt.x as int, pt.y as int)
    }

    /// 1 when `(x, y)` is in range and alive, else 0.
    pub open spec fn live(self, x: int, y: int) -> int {
        if self.in_range_at(x, y) {
            state_value(self.cell_state(x, y))
        } else {
            0
        }
    }

    /// How many of the up-to-8 Moore neighbors of `(x, y)` are in range and
    /// currently alive.
    pub open spec fn live_neighbor_count(self, x: int, y: int) -> int {
        self.live(x - 1, y - 1) + self.live(x, y - 1) + self.live(x + 1, y - 1) + self.live(
            x - 1,
            y,
        ) + self.live(x + 1, y) + self.live(x - 1, y + 1) + self.live(x, y + 1) + self.live(
            x + 1,
            y + 1,
        )
    }

    /// 1 when `(x, y)` is in range, else 0.
    pub open spec fn in_range_bit(self, x: int, y: int) -> int {
        if self.in_range_at(x, y) {
            1
        } else {
            0
        }
    }

    /// How many of the 8 Moore-neighborhood offsets of `(x, y)` land in
    /// range: the number of neighbors the cell has.
    pub open spec fn neighbor_count(self, x: int, y: int) -> int {
        self.in_range_bit(x - 1, y - 1) + self.in_range_bit(x, y - 1) + self.in_range_bit(
            x + 1,
            y - 1,
        ) + self.in_range_bit(x - 1, y) + self.in_range_bit(x + 1, y) + self.in_range_bit(
            x - 1,
            y + 1,
        ) + self.in_range_bit(x, y + 1) + self.in_range_bit(x + 1, y + 1)
    }

    /// The state the cell at `(x, y)` takes in the next generation: the
    /// transition rule applied to its current state and its current alive
    /// neighbor count.
    pub open spec fn next_gen_state(self, x: int, y: int) -> CellState {
        next_state(self.cell_state(x, y), self.live_neighbor_count(x, y))
    }

    /// `pt` lies on the grid's border: in the first or last column or row.
    pub open spec fn on_border(self, pt: Position) -> bool {
        pt.x as int == 0 || pt.x as int == self.width() - 1 || pt.y as int == 0 || pt.y as int
            == self.height() - 1
    }

    /// `pt` is one of the four corner cells.
    pub open spec fn at_corner(self, pt: Position) -> bool {
        (pt.x as int == 0 || pt.x as int == self.width() - 1) && (pt.y as int == 0 || pt.y as int
            == self.height() - 1)
    }

    /// The grid keeps its dimensions, mode and overlay flag.
    pub open spec fn same_frame(self, other: Grid) -> bool {
        &&& other.spec_dim() == self.spec_dim()
        &&& other.spec_mode() == self.spec_mode()
        &&& other.spec_show_grid() == self.spec_show_grid()
    }

    /// Every in-range cell holds the same state in both grids.
    pub open spec fn same_cells(self, other: Grid) -> bool {
        forall|x: int, y: int|
            self.in_range_at(x, y) ==> self.cell_state(x, y) == #[trigger] other.cell_state(x, y)
    }

    /// A grid of the given dimensions with every cell dead, its position
    /// equal to its index, mode `Initialization`, and the overlay enabled.
    pub fn new(dim: Position) -> (g: Grid)
        requires
            0 <= dim.x,
            0 <= dim.y,
        ensures
            g.wf(),
            g.spec_dim() == dim,
            g.spec_mode() == GameMode::Initialization,
            g.spec_show_grid() == true,
            forall|x: int, y: int| g.in_range_at(x, y) ==> g.cell_state(x, y) == CellState::Dead,
    {
        let matrix = Self::dead_matrix(dim);
        Grid { dim, matrix, show_grid: true, mode: GameMode::Initialization }
    }

    /// A fresh `dim.x x dim.y` array of dead cells, each tagged with its
    /// index.
    #[verifier::loop_isolation(false)]
    fn dead_matrix(dim: Position) -> (matrix: Matrix)
        requires
            0 <= dim.x,
            0 <= dim.y,
        ensures
            matrix@.len() == dim.x as int,
            forall|i: int|
                0 <= i < matrix@.len() ==> (#[trigger] matrix@[i]@.len()) == dim.y as int,
            forall|i: int, j: int|
                0 <= i < dim.x as int && 0 <= j < dim.y as int ==> (#[trigger] matrix@[i]@[j]).pos
                    == (Position { x: i as i32, y: j as i32 }),
            forall|i: int, j: int|
                0 <= i < dim.x as int && 0 <= j < dim.y as int ==> (#[trigger] matrix@[i]@[j]).state
                    == CellState::Dead,
    {
        let mut matrix: Matrix = Vec::new();
        let mut x: i32 = 0;
        while x < dim.x
            invariant
                0 <= x <= dim.x,
                matrix@.len() == x as int,
                forall|i: int|
                    0 <= i < matrix@.len() ==> (#[trigger] matrix@[i]@.len()) == dim.y as int,
                forall|i: int, j: int|
                    0 <= i < x as int && 0 <= j < dim.y as int ==> (#[trigger] matrix@[i]@[j]).pos
                        == (Position { x: i as i32, y: j as i32 }),
                forall|i: int, j: int|
                    0 <= i < x as int && 0 <= j < dim.y as int ==> (#[trigger] matrix@[i]@[j]).state
                        == CellState::Dead,
            decreases dim.x - x,
        {
            let mut row: Vec<Cell> = Vec::new();
            let mut y: i32 = 0;
            while y < dim.y
                invariant
                    0 <= y <= dim.y,
                    row@.len() == y as int,
                    forall|j: int|
                        0 <= j < y as int ==> (#[trigger] row@[j]).pos == (Position {
                            x,
                            y: j as i32,
                        }),
                    forall|j: int| 0 <= j < y as int ==> (#[trigger] row@[j]).state
                        == CellState::Dead,
                decreases dim.y - y,
            {
                row.push(Cell::new(Position { x, y }));
                y = y + 1;
            }
            matrix.push(row);
            x = x + 1;
        }
        matrix
    }

    /// The fixed (width, height) pair the grid was created with.
    pub fn dim(&self) -> (r: Position)
        ensures
            r == self.spec_dim(),
    {
        self.dim
    }

    /// The current mode.
    pub fn mode(&self) -> (r: GameMode)
        ensures
            r == self.spec_mode(),
    {
        self.mode
    }

    /// Whether the grid overlay is currently drawn.
    pub fn show_grid(&self) -> (r: bool)
        ensures
            r == self.spec_show_grid(),
    {
        self.show_grid
    }

    /// True iff `0 <= x < width` and `0 <= y < height`: the single source of
    /// truth for boundary checks.
    pub fn in_range(&self, pt: Position) -> (r: bool)
        ensures
            r == self.in_range_spec(pt),
    {
        0 <= pt.x && pt.x < self.dim.x && 0 <= pt.y && pt.y < self.dim.y
    }

    /// The cell whose stored position equals `pt`, or nothing when `pt` lies
    /// outside the grid.
    pub fn cell_at(&self, pt: Position) -> (r: Option<&Cell>)
        requires
            self.wf(),
        ensures
            r.is_some() <==> self.in_range_spec(pt),
            r.is_some() ==> {
                &&& *r.unwrap() == self.spec_cell(pt.x as int, pt.y as int)
                &&& r.unwrap().spec_pos() == pt
                &&& r.unwrap().spec_state() == self.cell_state(pt.x as int, pt.y as int)
            },
    {
        if self.in_range(pt) {
            return Some(&self.matrix[pt.x as usize][pt.y as usize]);
        }
        None
    }

    /// The mutable counterpart of `cell_at`, with the identical bounds
    /// contract. The grid afterwards holds whatever the caller leaves in the
    /// returned cell; it stays well-formed as long as the caller leaves the
    /// cell's position alone.
    pub fn mut_cell_at(&mut self, pt: Position) -> (r: Option<&mut Cell>)
        requires
            old(self).wf(),
        ensures
            r.is_some() <==> old(self).in_range_spec(pt),
            !old(self).in_range_spec(pt) ==> *final(self) == *old(self),
            old(self).in_range_spec(pt) ==> {
                &&& *r.unwrap() == old(self).spec_cell(pt.x as int, pt.y as int)
                &&& old(self).same_frame(*final(self))
                &&& final(self).spec_cell(pt.x as int, pt.y as int) == *final(r.unwrap())
                &&& forall|x: int, y: int|
                    old(self).in_range_at(x, y) && !(x == pt.x as int && y == pt.y as int)
                        ==> #[trigger] final(self).cell_state(x, y) == old(self).cell_state(x, y)
                &&& (final(r.unwrap()).spec_pos() == pt ==> final(self).wf())
            },
    {
        if self.in_range(pt) {
            return Some(&mut self.matrix[pt.x as usize][pt.y as usize]);
        }
        None
    }

    /// Maps a point on a rendering surface to the grid cell it falls in: the
    /// surface is divided into `width x height` equal cells and the quotient
    /// of point by cell size is floored, per axis. For positive grid
    /// dimensions the result is always in range.
    pub fn map_screen_to_grid(&self, win_size: Position, pos: Position) -> (r: Position)
        requires
            self.wf(),
            0 < win_size.x,
            0 < win_size.y,
            0 <= pos.x < win_size.x,
            0 <= pos.y < win_size.y,
        ensures
            r.x as int == grid_axis_index(pos.x as int, self.width(), win_size.x as int),
            r.y as int == grid_axis_index(pos.y as int, self.height(), win_size.y as int),
            self.width() > 0 && self.height() > 0 ==> self.in_range_spec(r),
    {
        proof {
            lemma_mul_upper_bound(pos.x as int, 0x7fff_ffff, self.dim.x as int, 0x7fff_ffff);
            lemma_mul_upper_bound(pos.y as int, 0x7fff_ffff, self.dim.y as int, 0x7fff_ffff);
        }
        let rx = (pos.x as u64 * self.dim.x as u64) / (win_size.x as u64);
        let ry = (pos.y as u64 * self.dim.y as u64) / (win_size.y as u64);
        proof {
            Self::lemma_axis_index_in_range(pos.x as int, self.width(), win_size.x as int);
            Self::lemma_axis_index_in_range(pos.y as int, self.height(), win_size.y as int);
        }
        Position { x: rx as i32, y: ry as i32 }
    }

    /// 1 when the cell one Moore step `(dx, dy)` away from `pt` is in range
    /// and alive, else 0.
    fn live_at(&self, pt: Position, dx: i32, dy: i32) -> (b: i32)
        requires
            self.wf(),
            -1 <= dx <= 1,
            -1 <= dy <= 1,
        ensures
            b as int == self.live(pt.x as int + dx as int, pt.y as int + dy as int),
    {
        let nx = pt.x as i64 + dx as i64;
        let ny = pt.y as i64 + dy as i64;
        if 0 <= nx && nx < self.dim.x as i64 && 0 <= ny && ny < self.dim.y as i64 {
            match self.matrix[nx as usize][ny as usize].state {
                CellState::Alive => 1,
                CellState::Dead => 0,
            }
        } else {
            0
        }
    }

    /// Counts how many of the up-to-8 in-range Moore neighbors of `pt` are
    /// currently alive: dead contributes 0, alive contributes 1.
    fn count_live_neighbors(&self, pt: Position) -> (n: i32)
        requires
            self.wf(),
        ensures
            n as int == self.live_neighbor_count(pt.x as int, pt.y as int),
            0 <= n <= 8,
    {
        let mut n: i32 = 0;
        n = n + self.live_at(pt, -1, -1);
        n = n + self.live_at(pt, 0, -1);
        n = n + self.live_at(pt, 1, -1);
        n = n + self.live_at(pt, -1, 0);
        n = n + self.live_at(pt, 1, 0);
        n = n + self.live_at(pt, -1, 1);
        n = n + self.live_at(pt, 0, 1);
        n = n + self.live_at(pt, 1, 1);
        n
    }

    /// Computes the next generation into a fresh buffer from a frozen
    /// snapshot of the current one: every cell's next state is the transition
    /// rule applied to its current state and its current neighbor count.
    #[verifier::loop_isolation(false)]
    fn compute_next(&self) -> (next: Matrix)
        requires
            self.wf(),
        ensures
            next@.len() == self.width(),
            forall|i: int| 0 <= i < next@.len() ==> (#[trigger] next@[i]@.len()) == self.height(),
            forall|x: int, y: int|
                self.in_range_at(x, y) ==> (#[trigger] next@[x]@[y]).pos == (Position {
                    x: x as i32,
                    y: y as i32,
                }),
            forall|x: int, y: int|
                self.in_range_at(x, y) ==> (#[trigger] next@[x]@[y]).state == self.next_gen_state(
                    x,
                    y,
                ),
    {
        let mut next: Matrix = Vec::new();
        let mut x: i32 = 0;
        while x < self.dim.x
            invariant
                0 <= x <= self.dim.x,
                next@.len() == x as int,
                forall|i: int|
                    0 <= i < next@.len() ==> (#[trigger] next@[i]@.len()) == self.height(),
                forall|i: int, j: int|
                    0 <= i < x as int && 0 <= j < self.height() ==> (#[trigger] next@[i]@[j]).pos
                        == (Position { x: i as i32, y: j as i32 }),
                forall|i: int, j: int|
                    0 <= i < x as int && 0 <= j < self.height() ==> (#[trigger] next@[i]@[j]).state
                        == self.next_gen_state(i, j),
            decreases self.dim.x - x,
        {
            let mut row: Vec<Cell> = Vec::new();
            let mut y: i32 = 0;
            while y < self.dim.y
                invariant
                    0 <= x < self.dim.x,
                    0 <= y <= self.dim.y,
                    row@.len() == y as int,
                    forall|j: int|
                        0 <= j < y as int ==> (#[trigger] row@[j]).pos == (Position {
                            x,
                            y: j as i32,
                        }),
                    forall|j: int|
                        0 <= j < y as int ==> (#[trigger] row@[j]).state == self.next_gen_state(
                            x as int,
                            j,
                        ),
                decreases self.dim.y - y,
            {
                let pt = Position { x, y };
                let around = self.count_live_neighbors(pt);
                let current = self.matrix[x as usize][y as usize].state;
                row.push(Cell { state: current.calc_next(around), pos: pt });
                y = y + 1;
            }
            next.push(row);
            x = x + 1;
        }
        next
    }

    /// The per-frame render description: one alive/dead flag per cell,
    /// indexed `[x][y]` like the grid itself. A cell's bounding rectangle is
    /// its position scaled by the surface's cell size, which only the host
    /// knows; the overlay flag comes from `show_grid`.
    #[verifier::loop_isolation(false)]
    pub fn render_flags(&self) -> (r: Vec<Vec<bool>>)
        requires
            self.wf(),
        ensures
            r@.len() == self.width(),
            forall|i: int| 0 <= i < r@.len() ==> (#[trigger] r@[i]@.len()) == self.height(),
            forall|x: int, y: int|
                self.in_range_at(x, y) ==> ((#[trigger] r@[x]@[y]) <==> self.cell_state(x, y)
                    == CellState::Alive),
    {
        let mut flags: Vec<Vec<bool>> = Vec::new();
        let mut x: i32 = 0;
        while x < self.dim.x
            invariant
                0 <= x <= self.dim.x,
                flags@.len() == x as int,
                forall|i: int| 0 <= i < flags@.len() ==> (#[trigger] flags@[i]@.len())
                    == self.height(),
                forall|i: int, j: int|
                    0 <= i < x as int && 0 <= j < self.height() ==> ((#[trigger] flags@[i]@[j])
                        <==> self.cell_state(i, j) == CellState::Alive),
            decreases self.dim.x - x,
        {
            let mut column: Vec<bool> = Vec::new();
            let mut y: i32 = 0;
            while y < self.dim.y
                invariant
                    0 <= x < self.dim.x,
                    0 <= y <= self.dim.y,
                    column@.len() == y as int,
                    forall|j: int|
                        0 <= j < y as int ==> ((#[trigger] column@[j]) <==> self.cell_state(
                            x as int,
                            j,
                        ) == CellState::Alive),
                decreases self.dim.y - y,
            {
                let alive = match self.matrix[x as usize][y as usize].state {
                    CellState::Alive => true,
                    CellState::Dead => false,
                };
                column.push(alive);
                y = y + 1;
            }
            flags.push(column);
            x = x + 1;
        }
        flags
    }

    /// The per-tick advance entry point: while `Playing`, replaces the cell
    /// array with the next generation in one swap; in `Initialization` mode
    /// it changes nothing at all.
    pub fn update(&mut self)
        requires
            old(self).wf(),
        ensures
            final(self).wf(),
            tick_transition(*old(self), *final(self)),
    {
        match self.mode {
            GameMode::Playing => {
                let next = self.compute_next();
                self.matrix = next;
            },
            GameMode::Initialization => {},
        }
    }

    /// How many of the first `k` neighborhood slots of `pt` hold an in-range
    /// neighbor.
    spec fn nb_count_upto(self, pt: Position, k: int) -> int
        decreases k,
    {
        if k <= 0 {
            0
        } else {
            self.nb_count_upto(pt, k - 1) + if k - 1 != 4 && self.in_range_at(
                cand_x(pt, k - 1),
                cand_y(pt, k - 1),
            ) {
                1int
            } else {
                0int
            }
        }
    }

    /// A neighborhood slot number decodes back to the unique offset that
    /// produced it.
    proof fn lemma_slot_decode(pt: Position, q: Position, k: int)
        requires
            -1 <= q.x - pt.x <= 1,
            -1 <= q.y - pt.y <= 1,
            slot(pt, q) == k,
        ensures
            q.x == cand_x(pt, k),
            q.y == cand_y(pt, k),
    {
        let a = q.x - pt.x + 1;
        let b = q.y - pt.y + 1;
        assert(k == 3 * a + b);
        assert(k / 3 == a && k % 3 == b) by (nonlinear_arith)
            requires
                k == 3 * a + b,
                0 <= a <= 2,
                0 <= b <= 2,
        ;
    }

    /// All 9 slots together count exactly the in-range Moore neighbors.
    proof fn lemma_nb_count_total(self, pt: Position)
        ensures
            self.nb_count_upto(pt, 9) == self.neighbor_count(pt.x as int, pt.y as int),
    {
        reveal_with_fuel(Grid::nb_count_upto, 10);
    }

    /// The up-to-8 positions of the Moore neighborhood of `pt` that lie in
    /// range, each exactly once, in ascending slot order — so two calls with
    /// the same point yield the same sequence. Grid-edge and corner cells
    /// yield fewer than 8, and there is no wraparound.
    pub fn points_around(&self, pt: Position) -> (r: Vec<Position>)
        requires
            self.wf(),
        ensures
            forall|q: Position| #[trigger]
                r@.contains(q) <==> self.in_range_spec(q) && is_neighbor(pt, q),
            r@.no_duplicates(),
            r@.len() == self.neighbor_count(pt.x as int, pt.y as int),
            forall|i: int, j: int|
                0 <= i < j < r@.len() ==> slot(pt, #[trigger] r@[i]) < slot(pt, #[trigger] r@[j]),
    {
        broadcast use vstd::seq_lib::lemma_seq_contains_after_push;

        let mut r: Vec<Position> = Vec::new();
        let mut k: usize = 0;
        while k < 9
            invariant
                self.wf(),
                0 <= k <= 9,
                r@.no_duplicates(),
                forall|q: Position| #[trigger]
                    r@.contains(q) <==> self.in_range_spec(q) && is_neighbor(pt, q) && slot(pt, q)
                        < k as int,
                r@.len() == self.nb_count_upto(pt, k as int),
                forall|i: int, j: int|
                    0 <= i < j < r@.len() ==> slot(pt, #[trigger] r@[i]) < slot(
                        pt,
                        #[trigger] r@[j],
                    ),
            decreases 9 - k,
        {
            let ghost prev = r@;
            if k != 4 {
                let dx = (k / 3) as i64 - 1;
                let dy = (k % 3) as i64 - 1;
                let nx = pt.x as i64 + dx;
                let ny = pt.y as i64 + dy;
                if 0 <= nx && nx < self.dim.x as i64 && 0 <= ny && ny < self.dim.y as i64 {
                    let q = Position { x: nx as i32, y: ny as i32 };
                    proof {
                        assert(slot(pt, q) == k as int);
                        assert(!prev.contains(q));
                        assert forall|i: int| 0 <= i < prev.len() implies slot(pt, prev[i])
                            < k as int by {
                            assert(prev.contains(prev[i]));
                        }
                    }
                    r.push(q);
                }
            }
            proof {
                assert forall|q: Position|
                    self.in_range_spec(q) && is_neighbor(pt, q) && slot(pt, q) < k as int
                        + 1 implies #[trigger] r@.contains(q) by {
                    if slot(pt, q) == k as int {
                        Self::lemma_slot_decode(pt, q, k as int);
                        assert(r@[r@.len() - 1] == q);
                    } else {
                        assert(prev.contains(q));
                        let i = choose|i: int| 0 <= i < prev.len() && prev[i] == q;
                        assert(r@[i] == q);
                    }
                }
                assert forall|q: Position| #[trigger]
                    r@.contains(q) implies self.in_range_spec(q) && is_neighbor(pt, q) && slot(
                    pt,
                    q,
                ) < k as int + 1 by {
                    if !prev.contains(q) {
                        Self::lemma_slot_decode(pt, q, slot(pt, q));
                    }
                }
            }
            k = k + 1;
        }
        proof {
            self.lemma_nb_count_total(pt);
        }
        r
    }

    /// Flips whether the grid overlay is drawn; independent of mode, it
    /// affects rendering only, never the cells or the simulation.
    fn toggle_show_grid(&mut self)
        ensures
            final(self).spec_show_grid() == !old(self).spec_show_grid(),
            final(self).spec_dim() == old(self).spec_dim(),
            final(self).spec_mode() == old(self).spec_mode(),
            forall|x: int, y: int|
                #[trigger] final(self).cell_state(x, y) == old(self).cell_state(x, y),
            old(self).wf() ==> final(self).wf(),
    {
        self.show_grid = !self.show_grid;
    }

    /// The only mode transition: `Initialization` to `Playing` and back.
    pub fn toggle_play(&mut self)
        ensures
            final(self).spec_mode() == flipped_mode(old(self).spec_mode()),
            final(self).spec_dim() == old(self).spec_dim(),
            final(self).spec_show_grid() == old(self).spec_show_grid(),
            forall|x: int, y: int|
                #[trigger] final(self).cell_state(x, y) == old(self).cell_state(x, y),
            old(self).wf() ==> final(self).wf(),
    {
        self.mode = match self.mode {
            GameMode::Initialization => GameMode::Playing,
            GameMode::Playing => GameMode::Initialization,
        };
    }

    /// Reinitializes every cell to dead, keeping dimensions, mode and the
    /// overlay flag. Permitted only during `Initialization`: a no-op while
    /// `Playing`.
    pub fn reset(&mut self)
        requires
            old(self).wf(),
        ensures
            final(self).wf(),
            old(self).same_frame(*final(self)),
            old(self).spec_mode() == GameMode::Initialization ==> forall|x: int, y: int|
                final(self).in_range_at(x, y) ==> #[trigger] final(self).cell_state(x, y)
                    == CellState::Dead,
            old(self).spec_mode() != GameMode::Initialization ==> *final(self) == *old(self),
    {
        match self.mode {
            GameMode::Initialization => {
                let fresh = Self::dead_matrix(self.dim);
                self.matrix = fresh;
            },
            GameMode::Playing => {},
        }
    }

    /// Interprets a key action: flip the overlay, flip the mode,
    /// or reset the cells (reset being gated to `Initialization` mode).
    pub fn handle_key_press(&mut self, action: KeyAction)
        requires
            old(self).wf(),
        ensures
            final(self).wf(),
            key_press_transition(*old(self), *final(self), action),
    {
        match action {
            KeyAction::ToggleGrid => self.toggle_show_grid(),
            KeyAction::TogglePlay => self.toggle_play(),
            KeyAction::Reset => self.reset(),
        }
    }

    /// Interprets a mouse click on the rendering surface: a left click during
    /// `Initialization` toggles the cell the point maps to; any other button,
    /// any other mode, or a point mapping outside the grid changes nothing.
    /// Only a click that edits needs its point inside a positive surface.
    pub fn handle_mouse_click(&mut self, button: MouseButton, win_size: Position, pos: Position)
        requires
            old(self).wf(),
            button == MouseButton::Left && old(self).spec_mode() == GameMode::Initialization
                ==> {
                &&& 0 < win_size.x
                &&& 0 < win_size.y
                &&& 0 <= pos.x < win_size.x
                &&& 0 <= pos.y < win_size.y
            },
        ensures
            final(self).wf(),
            mouse_click_transition(*old(self), *final(self), button, win_size, pos),
    {
        let left = match button {
            MouseButton::Left => true,
            _ => false,
        };
        let editing = match self.mode {
            GameMode::Initialization => true,
            GameMode::Playing => false,
        };
        if !left || !editing {
            return;
        }
        let cell_pt = self.map_screen_to_grid(win_size, pos);
        if let Some(cell) = self.mut_cell_at(cell_pt) {
            cell.toggle();
        }
    }

    /// A surface coordinate inside the surface maps to a column (or row)
    /// inside the grid: the floored quotient is non-negative and, for a
    /// positive dimension, below it.
    proof fn lemma_axis_index_in_range(p: int, dim: int, win: int)
        requires
            0 <= p < win,
            0 <= dim,
        ensures
            0 <= grid_axis_index(p, dim, win),
            dim > 0 ==> grid_axis_index(p, dim, win) < dim,
            dim == 0 ==> grid_axis_index(p, dim, win) == 0,
    {
        if dim > 0 {
            lemma_mul_strict_inequality(p, win, dim);
            lemma_multiply_divide_lt(p * dim, win, dim);
        }
    }
}

/// In a grid at least 3 x 3, a cell has at most 8 neighbors, and exactly 8
/// when interior, exactly 5 on an edge but not a corner, and exactly 3 at a
/// corner: there is no wraparound. The alive neighbor count never exceeds
/// the neighbor count.
pub proof fn lemma_neighbor_counts(g: Grid, pt: Position)
    requires
        g.wf(),
        g.width() >= 3,
        g.height() >= 3,
        g.in_range_spec(pt),
    ensures
        g.live_neighbor_count(pt.x as int, pt.y as int) <= g.neighbor_count(
            pt.x as int,
            pt.y as int,
        ),
        g.neighbor_count(pt.x as int, pt.y as int) <= 8,
        1 <= pt.x as int <= g.width() - 2 && 1 <= pt.y as int <= g.height() - 2
            ==> g.neighbor_count(pt.x as int, pt.y as int) == 8,
        g.on_border(pt) && !g.at_corner(pt) ==> g.neighbor_count(pt.x as int, pt.y as int) == 5,
        g.at_corner(pt) ==> g.neighbor_count(pt.x as int, pt.y as int) == 3,
{
}

/// The transition-rule table, row by row: an alive cell stays alive exactly
/// with 2 or 3 alive neighbors, a dead cell becomes alive exactly with 3.
pub proof fn lemma_transition_rule(around: int)
    requires
        0 <= around <= 8,
    ensures
        next_state(CellState::Alive, around) == (if around == 2 || around == 3 {
            CellState::Alive
        } else {
            CellState::Dead
        }),
        next_state(CellState::Dead, around) == (if around == 3 {
            CellState::Alive
        } else {
            CellState::Dead
        }),
{
}

/// Synchronous update, seen on the classic blinker setup: when row `cy` of
/// an otherwise dead grid is entirely alive, one generation later every cell
/// directly above or below an interior column of that row is alive — each
/// saw exactly the 3 alive cells of the frozen previous generation.
pub proof fn lemma_blinker_step(g: Grid, h: Grid, cy: int)
    requires
        g.wf(),
        g.width() >= 3,
        g.height() >= 3,
        0 <= cy < g.height(),
        forall|x: int, y: int|
            g.in_range_at(x, y) ==> ((#[trigger] g.cell_state(x, y)) == CellState::Alive <==> y
                == cy),
        h.spec_dim() == g.spec_dim(),
        forall|x: int, y: int|
            g.in_range_at(x, y) ==> #[trigger] h.cell_state(x, y) == g.next_gen_state(x, y),
    ensures
        forall|x: int|
            1 <= x <= g.width() - 2 && 0 <= cy - 1 ==> #[trigger] h.cell_state(x, cy - 1)
                == CellState::Alive,
        forall|x: int|
            1 <= x <= g.width() - 2 && cy + 1 < g.height() ==> #[trigger] h.cell_state(x, cy + 1)
                == CellState::Alive,
{
    assert forall|x: int| 1 <= x <= g.width() - 2 && 0 <= cy - 1 implies #[trigger] h.cell_state(
        x,
        cy - 1,
    ) == CellState::Alive by {
        assert(g.live_neighbor_count(x, cy - 1) == 3);
    }
    assert forall|x: int| 1 <= x <= g.width() - 2 && cy + 1 < g.height() implies #[trigger] h.cell_state(
        x,
        cy + 1,
    ) == CellState::Alive by {
        assert(g.live_neighbor_count(x, cy + 1) == 3);
    }
}

/// The 2 x 2 block is a still life: with only such a block alive, away from
/// every grid edge, one generation changes nothing — each block cell has
/// exactly 3 alive neighbors, and no dead cell has exactly 3.
pub proof fn lemma_block_still_life(g: Grid, h: Grid, bx: int, by: int)
    requires
        g.wf(),
        1 <= bx && bx + 3 <= g.width(),
        1 <= by && by + 3 <= g.height(),
        forall|x: int, y: int|
            g.in_range_at(x, y) ==> ((#[trigger] g.cell_state(x, y)) == CellState::Alive <==> (bx
                <= x <= bx + 1 && by <= y <= by + 1)),
        h.spec_dim() == g.spec_dim(),
        forall|x: int, y: int|
            g.in_range_at(x, y) ==> #[trigger] h.cell_state(x, y) == g.next_gen_state(x, y),
    ensures
        forall|x: int, y: int|
            g.in_range_at(x, y) ==> #[trigger] h.cell_state(x, y) == g.cell_state(x, y),
{
    assert forall|x: int, y: int| g.in_range_at(x, y) implies #[trigger] h.cell_state(x, y)
        == g.cell_state(x, y) by {
        if bx <= x <= bx + 1 && by <= y <= by + 1 {
            assert(g.live_neighbor_count(x, y) == 3);
        } else {
            assert(g.live_neighbor_count(x, y) != 3);
        }
    }
}

} // verus!
