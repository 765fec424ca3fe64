use termgrid::maze::{Maze, MazeTrait};

#[test]
fn new_maze_has_one_interior_passage_cell() {
    let m = Maze::new(6, 5);
    let mut passages = Vec::new();
    for ny in 0..5 {
        for nx in 0..6 {
            let v = m.get_at(nx, ny);
            assert!(v <= 1);
            if v == 1 {
                passages.push((nx, ny));
            }
        }
    }
    // exactly the randomly chosen start cell, strictly interior
    assert_eq!(passages.len(), 1);
    let (sx, sy) = passages[0];
    assert!(1 <= sx && sx < 5);
    assert!(1 <= sy && sy < 4);
}

#[test]
fn generate_marks_the_start_and_carves_only_passages() {
    let mut m = Maze::new(9, 7);
    let mut start = None;
    for ny in 0..7 {
        for nx in 0..9 {
            if m.get_at(nx, ny) == 1 {
                start = Some((nx, ny));
            }
        }
    }
    let (sx, sy) = start.unwrap();
    m.generate();
    assert_eq!(m.get_at(sx, sy), 2);
    for ny in 0..7 {
        for nx in 0..9 {
            let v = m.get_at(nx, ny);
            assert!(v <= 2);
            if (nx, ny) != (sx, sy) {
                assert!(v <= 1);
            }
            // the outer border stays walled
            if nx == 0 || ny == 0 || nx == 8 || ny == 6 {
                assert_eq!(v, 0);
            }
        }
    }
}

#[test]
fn smallest_maze_renders_deterministically() {
    // in a 3x3 maze the single interior cell is the start; generation
    // carves nothing else
    let mut m = Maze::new(3, 3);
    m.generate();
    assert_eq!(m.render(), "######\r\n##[]##\r\n######\r\n");
}

#[test]
fn insert_at_and_get_at_are_row_then_column() {
    let mut m = Maze::new(4, 3);
    // insert_at(row, column, code); get_at(column, row)
    m.insert_at(2, 3, 7);
    assert_eq!(m.get_at(3, 2), 7);
}

#[test]
fn swap_at_exchanges_two_cells() {
    let mut m = Maze::new(4, 3);
    m.insert_at(0, 1, 5);
    m.insert_at(2, 3, 6);
    m.swap_at(0, 1, 2, 3);
    assert_eq!(m.get_at(1, 0), 6);
    assert_eq!(m.get_at(3, 2), 5);
}

#[test]
fn render_uses_two_glyphs_per_cell() {
    let m = Maze::new(4, 3);
    let text = m.render();
    let lines: Vec<&str> = text.split("\r\n").filter(|l| !l.is_empty()).collect();
    assert_eq!(lines.len(), 3);
    for line in lines {
        assert_eq!(line.chars().count(), 8);
    }
}
