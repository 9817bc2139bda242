use conway::engine::{Cell, Conway, GridError};
use conway::topology::CellPosition;

fn grid(width: usize, height: usize, live: &[(usize, usize)]) -> Vec<Vec<Cell>> {
    let mut cells = vec![vec![Cell::Dead; height]; width];
    for &(x, y) in live {
        cells[x][y] = Cell::Live;
    }
    cells
}

fn live_cells(engine: &Conway) -> Vec<(usize, usize)> {
    let mut out = Vec::new();
    for x in 0..engine.width() {
        for y in 0..engine.height() {
            if engine.cell(x, y) == Cell::Live {
                out.push((x, y));
            }
        }
    }
    out
}

#[test]
fn corner_has_three_neighbors() {
    assert_eq!(Conway::get_cell_neighbors(0, 0, 20, 20).len(), 3);
    assert_eq!(Conway::get_cell_neighbors(19, 19, 20, 20).len(), 3);
    assert_eq!(Conway::get_cell_neighbors(0, 4, 5, 5).len(), 3);
}

#[test]
fn edge_has_five_neighbors() {
    assert_eq!(Conway::get_cell_neighbors(0, 7, 20, 20).len(), 5);
    assert_eq!(Conway::get_cell_neighbors(7, 0, 20, 20).len(), 5);
    assert_eq!(Conway::get_cell_neighbors(19, 3, 20, 20).len(), 5);
    assert_eq!(Conway::get_cell_neighbors(3, 19, 20, 20).len(), 5);
}

#[test]
fn interior_has_eight_neighbors() {
    assert_eq!(Conway::get_cell_neighbors(1, 1, 3, 3).len(), 8);
    assert_eq!(Conway::get_cell_neighbors(10, 12, 20, 20).len(), 8);
}

#[test]
fn single_cell_has_no_neighbors() {
    assert!(Conway::get_cell_neighbors(0, 0, 1, 1).is_empty());
}

#[test]
fn thin_grid_neighbors() {
    assert_eq!(Conway::get_cell_neighbors(0, 0, 1, 4).len(), 1);
    assert_eq!(Conway::get_cell_neighbors(0, 2, 1, 4).len(), 2);
}

#[test]
fn neighbors_in_window_order() {
    let expected = vec![
        CellPosition { x: 0, y: 0 },
        CellPosition { x: 0, y: 1 },
        CellPosition { x: 0, y: 2 },
        CellPosition { x: 1, y: 0 },
        CellPosition { x: 1, y: 2 },
        CellPosition { x: 2, y: 0 },
        CellPosition { x: 2, y: 1 },
        CellPosition { x: 2, y: 2 },
    ];
    assert_eq!(Conway::get_cell_neighbors(1, 1, 3, 3), expected);
    let corner = vec![
        CellPosition { x: 0, y: 1 },
        CellPosition { x: 1, y: 0 },
        CellPosition { x: 1, y: 1 },
    ];
    assert_eq!(Conway::get_cell_neighbors(0, 0, 3, 3), corner);
}

#[test]
fn no_cell_is_its_own_neighbor() {
    for x in 0..4 {
        for y in 0..3 {
            let ns = Conway::get_cell_neighbors(x, y, 4, 3);
            assert!(!ns.contains(&CellPosition { x, y }));
            for n in &ns {
                assert!(n.x < 4 && n.y < 3);
                assert!(n.x.abs_diff(x) <= 1 && n.y.abs_diff(y) <= 1);
            }
        }
    }
}

#[test]
fn step_is_deterministic() {
    let cells = grid(6, 5, &[(0, 0), (1, 2), (2, 2), (3, 1), (3, 2), (4, 4), (5, 0)]);
    let mut a = Conway::from_cells(cells.clone()).unwrap();
    let mut b = Conway::from_cells(cells).unwrap();
    a.run_generation();
    b.run_generation();
    assert_eq!(a.snapshot(), b.snapshot());
    a.run_generation();
    b.run_generation();
    assert_eq!(a.snapshot(), b.snapshot());
}

#[test]
fn blinker_updates_simultaneously() {
    let mut engine = Conway::from_cells(grid(3, 3, &[(0, 1), (1, 1), (2, 1)])).unwrap();
    engine.run_generation();
    assert_eq!(live_cells(&engine), vec![(1, 0), (1, 1), (1, 2)]);
    assert_eq!(engine.cell(1, 1), Cell::Live);
    assert_eq!(engine.cell(0, 1), Cell::Dead);
    assert_eq!(engine.cell(2, 1), Cell::Dead);
    engine.run_generation();
    assert_eq!(live_cells(&engine), vec![(0, 1), (1, 1), (2, 1)]);
}

#[test]
fn isolated_cell_dies() {
    let mut engine = Conway::from_cells(grid(5, 5, &[(2, 2)])).unwrap();
    engine.run_generation();
    assert_eq!(engine.cell(2, 2), Cell::Dead);
    assert!(live_cells(&engine).is_empty());
}

#[test]
fn crowded_cell_dies() {
    let mut engine = Conway::from_cells(grid(5, 5, &[(2, 2), (1, 1), (1, 3), (3, 1), (3, 3)])).unwrap();
    engine.run_generation();
    assert_eq!(engine.cell(2, 2), Cell::Dead);
}

#[test]
fn dead_cell_with_three_is_born() {
    let mut engine = Conway::from_cells(grid(5, 5, &[(1, 1), (1, 3), (3, 2)])).unwrap();
    assert_eq!(engine.cell(2, 2), Cell::Dead);
    engine.run_generation();
    assert_eq!(engine.cell(2, 2), Cell::Live);
}

#[test]
fn live_cell_with_two_survives() {
    let mut engine = Conway::from_cells(grid(5, 5, &[(0, 0), (1, 1), (2, 2)])).unwrap();
    engine.run_generation();
    assert_eq!(live_cells(&engine), vec![(1, 1)]);
}

#[test]
fn block_is_still_life() {
    let cells = grid(6, 6, &[(2, 2), (2, 3), (3, 2), (3, 3)]);
    let mut engine = Conway::from_cells(cells.clone()).unwrap();
    for _ in 0..5 {
        engine.run_generation();
        assert_eq!(engine.snapshot(), cells);
    }
    let corner = grid(4, 3, &[(0, 0), (0, 1), (1, 0), (1, 1)]);
    let mut engine = Conway::from_cells(corner.clone()).unwrap();
    engine.run_generation();
    assert_eq!(engine.snapshot(), corner);
}

#[test]
fn topology_does_not_change() {
    let mut engine = Conway::from_cells(grid(4, 4, &[(1, 1), (1, 2), (2, 1)])).unwrap();
    let before = engine.neighbors_of(2, 3).to_vec();
    assert_eq!(engine.neighbors_of(2, 3).to_vec(), before);
    engine.run_generation();
    engine.run_generation();
    assert_eq!(engine.neighbors_of(2, 3).to_vec(), before);
    assert_eq!(before, Conway::get_cell_neighbors(2, 3, 4, 4));
}

#[test]
fn zero_dimension_is_refused() {
    assert!(matches!(Conway::new(0, 5), Err(GridError::InvalidDimension)));
    assert!(matches!(Conway::new(5, 0), Err(GridError::InvalidDimension)));
    assert!(matches!(Conway::from_cells(vec![]), Err(GridError::InvalidDimension)));
    assert!(matches!(Conway::from_cells(vec![vec![], vec![]]), Err(GridError::InvalidDimension)));
}

#[test]
fn ragged_grid_is_refused() {
    let cells = vec![vec![Cell::Dead; 3], vec![Cell::Live; 2], vec![Cell::Dead; 3]];
    assert!(matches!(Conway::from_cells(cells), Err(GridError::ShapeMismatch)));
}

#[test]
fn random_engine_has_its_dimensions() {
    let engine = Conway::new(20, 10).unwrap();
    assert_eq!(engine.width(), 20);
    assert_eq!(engine.height(), 10);
    let snap = engine.snapshot();
    assert_eq!(snap.len(), 20);
    assert!(snap.iter().all(|column| column.len() == 10));
    let mut engine = engine;
    engine.run_generation();
    assert_eq!(engine.width(), 20);
    assert_eq!(engine.height(), 10);
}

#[test]
fn random_engine_is_not_constant() {
    let engine = Conway::new(40, 40).unwrap();
    let live = live_cells(&engine).len();
    assert!(live > 0 && live < 1600);
}

#[test]
fn glyphs() {
    assert_eq!(Cell::Live.glyph(), 'X');
    assert_eq!(Cell::Dead.glyph(), '-');
}
