use termgrid::cell::{Cell, Point, SCREEN_BLANK_CHAR, SCREEN_PIXEL_WIDTH};
use termgrid::grid::{Grid, GridError};

#[test]
fn new_grid_is_blank_with_given_dimensions() {
    let g = Grid::new(4, 3, Cell::blank());
    assert_eq!(g.width(), 4);
    assert_eq!(g.height(), 3);
    for y in 0..3 {
        for x in 0..4 {
            let c = g.get(x, y).unwrap();
            assert_eq!(c.ch, SCREEN_BLANK_CHAR);
            assert_eq!(c.width, SCREEN_PIXEL_WIDTH);
        }
    }
}

#[test]
fn set_then_get_returns_exactly_the_cell() {
    let mut g = Grid::new(5, 5, Cell::blank());
    let c = Cell::new('#');
    g.set(2, 1, c).unwrap();
    assert_eq!(g.get(2, 1).unwrap(), c);
    // no other coordinate was touched
    for y in 0..5 {
        for x in 0..5 {
            if !(x == 2 && y == 1) {
                assert_eq!(g.get(x, y).unwrap(), Cell::blank());
            }
        }
    }
}

#[test]
fn get_and_set_refuse_out_of_range_coordinates() {
    let mut g = Grid::new(3, 2, Cell::blank());
    assert_eq!(g.get(3, 0), Err(GridError::OutOfBounds));
    assert_eq!(g.get(0, 2), Err(GridError::OutOfBounds));
    assert_eq!(g.set(3, 0, Cell::new('x')), Err(GridError::OutOfBounds));
    assert_eq!(g.set(0, 2, Cell::new('x')), Err(GridError::OutOfBounds));
    // the failed set changed nothing
    assert_eq!(g.get(0, 0).unwrap(), Cell::blank());
}

#[test]
fn diff_of_grid_against_itself_is_empty() {
    let mut g = Grid::new(4, 4, Cell::blank());
    // whatever mutations were applied, the self-diff stays empty
    g.set(0, 0, Cell::new('a')).unwrap();
    g.set(3, 3, Cell::new('b')).unwrap();
    g.set(1, 2, Cell::new('c')).unwrap();
    assert!(g.diff(&g).is_empty());
}

#[test]
fn diff_lists_changed_cells_in_row_major_order() {
    let base = Grid::new(3, 3, Cell::blank());
    let mut g = base.snapshot();
    g.set(2, 0, Cell::new('a')).unwrap();
    g.set(0, 1, Cell::new('b')).unwrap();
    g.set(1, 1, Cell::new('c')).unwrap();
    let d = g.diff(&base);
    assert_eq!(
        d,
        vec![
            (2, 0, Cell::new('a')),
            (0, 1, Cell::new('b')),
            (1, 1, Cell::new('c')),
        ]
    );
}

#[test]
fn snapshot_is_an_independent_copy() {
    let mut g = Grid::new(2, 2, Cell::blank());
    let snap = g.snapshot();
    g.set(0, 0, Cell::new('z')).unwrap();
    assert_eq!(snap.get(0, 0).unwrap(), Cell::blank());
    assert_eq!(g.get(0, 0).unwrap(), Cell::new('z'));
}

#[test]
fn cell_constructors_carry_their_values() {
    let c = Cell::new('q');
    assert_eq!(c.ch, 'q');
    assert_eq!(c.width, SCREEN_PIXEL_WIDTH);
    let w = Cell::with_width('r', 1);
    assert_eq!(w.ch, 'r');
    assert_eq!(w.width, 1);
    let p = Point::new(10, 10, 'c');
    assert_eq!((p.x, p.y, p.c), (10, 10, 'c'));
}

#[test]
fn zero_sized_grid_has_no_cells() {
    let g = Grid::new(0, 0, Cell::blank());
    assert_eq!(g.width(), 0);
    assert_eq!(g.height(), 0);
    assert_eq!(g.get(0, 0), Err(GridError::OutOfBounds));
    assert!(g.diff(&g).is_empty());
}
