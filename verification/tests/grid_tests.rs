use game_of_life::grid::{Grid, Position};

fn grid() -> Grid {
    let dim = Position { x: 10, y: 10 };
    let grid = Grid::new(dim);
    return grid;
}

#[test]
fn creation() {
    let grid = grid();
    let cell = grid.cell_at(Position { x: 0, y: 0 }).unwrap();
    assert_eq!(cell.pos(), Position { x: 0, y: 0 });
}

#[test]
fn range() {
    let grid = grid();
    assert_eq!(grid.in_range(Position { x: -1, y: 0 }), false);
    assert_eq!(grid.in_range(Position { x: 0, y: 0 }), true);
    assert_eq!(grid.in_range(Position { x: 5, y: 5 }), true);
    assert_eq!(grid.in_range(Position { x: 10, y: 9 }), false);
}

#[test]
fn points_arround() {
    let grid = grid();
    let points: Vec<Position> = grid.points_around(Position { x: 0, y: 0 });
    assert_eq!(points.len(), 3);
    let points: Vec<Position> = grid.points_around(Position { x: 5, y: 5 });
    assert_eq!(points.len(), 8);
    let points: Vec<Position> = grid.points_around(Position { x: 0, y: 1 });
    assert_eq!(points.len(), 5);
}

#[test]
fn map_screen_to_grid() {
    let grid = grid();
    let win_size = Position { x: 100, y: 100 };
    let pos = Position { x: 1, y: 1 };
    let x = grid.map_screen_to_grid(win_size, pos);
    assert_eq!(x, Position { x: 0, y: 0 });

    let pos = Position { x: 99, y: 99 };
    let x = grid.map_screen_to_grid(win_size, pos);
    assert_eq!(x, Position { x: 9, y: 9 });
}

#[test]
fn vec() {
    let a = vec![vec![1, 2, 3]];
    let mut b = a.to_vec();
    b[0][0] = 7;
    println!("{:?}", &a);
    println!("{:?}", &b);
}

#[test]
fn points_arround_contents() {
    let grid = grid();
    let points: Vec<Position> = grid.points_around(Position { x: 0, y: 0 });
    assert!(points.contains(&Position { x: 0, y: 1 }));
    assert!(points.contains(&Position { x: 1, y: 0 }));
    assert!(points.contains(&Position { x: 1, y: 1 }));
    assert!(!points.contains(&Position { x: 0, y: 0 }));
}

#[test]
fn points_arround_outside_grid() {
    let grid = grid();
    // Just outside a corner: only the corner itself is an in-range neighbor.
    let points: Vec<Position> = grid.points_around(Position { x: -1, y: -1 });
    assert_eq!(points.len(), 1);
    assert!(points.contains(&Position { x: 0, y: 0 }));
}

#[test]
fn lookup_outside_is_none() {
    let grid = grid();
    assert!(grid.cell_at(Position { x: -1, y: 0 }).is_none());
    assert!(grid.cell_at(Position { x: 0, y: 10 }).is_none());
    assert!(grid.cell_at(Position { x: 9, y: 9 }).is_some());
}

#[test]
fn map_screen_to_grid_edges() {
    let grid = grid();
    let win_size = Position { x: 100, y: 100 };
    assert_eq!(grid.map_screen_to_grid(win_size, Position { x: 0, y: 0 }), Position { x: 0, y: 0 });
    assert_eq!(grid.map_screen_to_grid(win_size, Position { x: 9, y: 9 }), Position { x: 0, y: 0 });
    assert_eq!(
        grid.map_screen_to_grid(win_size, Position { x: 10, y: 10 }),
        Position { x: 1, y: 1 }
    );
    assert_eq!(
        grid.map_screen_to_grid(win_size, Position { x: 55, y: 23 }),
        Position { x: 5, y: 2 }
    );
}

#[test]
fn empty_grid_lookups() {
    let grid = Grid::new(Position { x: 0, y: 0 });
    assert!(grid.cell_at(Position { x: 0, y: 0 }).is_none());
    assert_eq!(grid.points_around(Position { x: 0, y: 0 }).len(), 0);
}
