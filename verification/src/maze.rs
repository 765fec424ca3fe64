//! The maze utility: a randomized-Prim's-style carving of passages
//! into a grid of walls. It is independent of the renderer and draws
//! its randomness through one trusted call into the rand crate.
//!
//! Cell codes: 0 is a wall, 1 a passage, 2 the start marker.

use vstd::prelude::*;

use crate::text::all_ascii;
use crate::text::bytes_to_string;

verus! {

/// Relies on rand::random_range over `lo..hi`: a value drawn uniformly
/// from the nonempty range, so at least `lo` and below `hi`. (The
/// thread-local generator can abort on an operating-system entropy
/// failure; that does not depend on the arguments.)
#[verifier::external_body]
fn random_in(lo: usize, hi: usize) -> (r: usize)
    requires
        lo < hi,
    ensures
        lo <= r < hi,
{
    rand::random_range(lo..hi)
}

/// A maze under generation: the grid of cell codes, the frontier of
/// candidate walls, and the start cell.
pub struct Maze {
    x: usize,
    y: usize,
    grid: Vec<Vec<u8>>,
    walls: Vec<(usize, usize)>,
    start: (usize, usize),
}

/// The frontier walls a fresh maze starts with: the four neighbours of
/// the start cell, in the fixed probe order — below, right, above,
/// left — keeping only those strictly inside the outer border.
pub open spec fn start_walls(sx: int, sy: int, x: int, y: int) -> Seq<(usize, usize)> {
    (if 0 < sx && sx < x - 1 && 0 < sy + 1 && sy + 1 < y - 1 {
        seq![(sx as usize, (sy + 1) as usize)]
    } else {
        Seq::empty()
    }) + (if 0 < sx + 1 && sx + 1 < x - 1 && 0 < sy && sy < y - 1 {
        seq![((sx + 1) as usize, sy as usize)]
    } else {
        Seq::empty()
    }) + (if 0 < sx && sx < x - 1 && 0 < sy - 1 && sy - 1 < y - 1 {
        seq![(sx as usize, (sy - 1) as usize)]
    } else {
        Seq::empty()
    }) + (if 0 < sx - 1 && sx - 1 < x - 1 && 0 < sy && sy < y - 1 {
        seq![((sx - 1) as usize, sy as usize)]
    } else {
        Seq::empty()
    })
}

/// The number of wall cells (code 0) among the first `n` of a row.
pub open spec fn row_zeros(row: Seq<u8>, n: int) -> nat
    decreases n,
{
    if n <= 0 {
        0
    } else {
        row_zeros(row, n - 1) + (if row[n - 1] == 0 {
            1nat
        } else {
            0nat
        })
    }
}

/// The number of wall cells in the first `n` rows.
pub open spec fn grid_zeros(g: Seq<Seq<u8>>, n: int) -> nat
    decreases n,
{
    if n <= 0 {
        0
    } else {
        grid_zeros(g, n - 1) + row_zeros(g[n - 1], g[n - 1].len() as int)
    }
}

proof fn lemma_row_zeros_agree(r1: Seq<u8>, r2: Seq<u8>, n: int)
    requires
        n <= r1.len(),
        n <= r2.len(),
        forall|j: int| 0 <= j < n ==> r1[j] == r2[j],
    ensures
        row_zeros(r1, n) == row_zeros(r2, n),
    decreases n,
{
    if n > 0 {
        lemma_row_zeros_agree(r1, r2, n - 1);
    }
}

proof fn lemma_row_zeros_update(row: Seq<u8>, i: int, v: u8, n: int)
    requires
        0 <= i < n <= row.len(),
        row[i] == 0,
        v != 0,
    ensures
        row_zeros(row.update(i, v), n) + 1 == row_zeros(row, n),
    decreases n,
{
    if i == n - 1 {
        lemma_row_zeros_agree(row.update(i, v), row, n - 1);
    } else {
        lemma_row_zeros_update(row, i, v, n - 1);
    }
}

proof fn lemma_grid_zeros_agree(g1: Seq<Seq<u8>>, g2: Seq<Seq<u8>>, n: int)
    requires
        n <= g1.len(),
        n <= g2.len(),
        forall|j: int| 0 <= j < n ==> g1[j] == g2[j],
    ensures
        grid_zeros(g1, n) == grid_zeros(g2, n),
    decreases n,
{
    if n > 0 {
        lemma_grid_zeros_agree(g1, g2, n - 1);
    }
}

proof fn lemma_grid_zeros_update(g: Seq<Seq<u8>>, xi: int, yi: int, v: u8, n: int)
    requires
        0 <= yi < n <= g.len(),
        0 <= xi < g[yi].len(),
        g[yi][xi] == 0,
        v != 0,
    ensures
        grid_zeros(g.update(yi, g[yi].update(xi, v)), n) + 1 == grid_zeros(g, n),
    decreases n,
{
    let g2 = g.update(yi, g[yi].update(xi, v));
    if yi == n - 1 {
        lemma_grid_zeros_agree(g2, g, n - 1);
        lemma_row_zeros_update(g[yi], xi, v, g[yi].len() as int);
        assert(g2[n - 1] == g[yi].update(xi, v));
    } else {
        lemma_grid_zeros_update(g, xi, yi, v, n - 1);
        assert(g2[n - 1] == g[n - 1]);
    }
}

/// The maze's interface: construction, carving, and cell access. The
/// spec members give an implementation's abstract state — dimensions,
/// start cell, frontier, and the grid of cell codes.
pub trait MazeTrait: Sized {
    /// The maze's width in cells.
    spec fn spec_x(&self) -> usize;

    /// The maze's height in cells.
    spec fn spec_y(&self) -> usize;

    /// The start cell, as (column, row).
    spec fn spec_start(&self) -> (usize, usize);

    /// The frontier of candidate walls, as (column, row) pairs.
    spec fn spec_walls(&self) -> Seq<(usize, usize)>;

    /// The grid as a sequence of rows of cell codes.
    spec fn rows(&self) -> Seq<Seq<u8>>;

    /// The cell code at column `nx`, row `ny`.
    open spec fn cell(&self, nx: int, ny: int) -> u8 {
        self.rows()[ny][nx]
    }

    /// A proper rectangle of at least 3x3 cells, the start cell and
    /// every frontier wall strictly inside the outer border.
    open spec fn wf(&self) -> bool {
        &&& 3 <= self.spec_x()
        &&& 3 <= self.spec_y()
        &&& self.rows().len() == self.spec_y()
        &&& (forall|j: int|
            0 <= j < self.rows().len() ==> (#[trigger] self.rows()[j]).len() == self.spec_x())
        &&& (forall|k: int|
            0 <= k < self.spec_walls().len() ==> {
                let w = #[trigger] self.spec_walls()[k];
                0 < w.0 < self.spec_x() - 1 && 0 < w.1 < self.spec_y() - 1
            })
        &&& 1 <= self.spec_start().0 < self.spec_x() - 1
        &&& 1 <= self.spec_start().1 < self.spec_y() - 1
    }

    /// A fresh maze of `x` by `y` cells: all walls except a randomly
    /// chosen interior start cell carved as the first passage, with the
    /// frontier seeded from the start cell's interior neighbours.
    fn new(x: usize, y: usize) -> (r: Self)
        requires
            3 <= x,
            3 <= y,
        ensures
            r.wf(),
            r.spec_x() == x,
            r.spec_y() == y,
            1 <= r.spec_start().0 < x - 1,
            1 <= r.spec_start().1 < y - 1,
            forall|i: int, j: int|
                0 <= i < x && 0 <= j < y ==> r.cell(i, j) == (if i == r.spec_start().0 && j
                    == r.spec_start().1 {
                    1u8
                } else {
                    0u8
                }),
            r.spec_walls() == start_walls(
                r.spec_start().0 as int,
                r.spec_start().1 as int,
                x as int,
                y as int,
            ),
    ;

    /// Carve the maze: repeatedly take a random frontier wall; when it
    /// is still a wall with exactly one passage neighbour, carve it and
    /// put its interior wall neighbours on the frontier. Ends with the
    /// frontier empty and the start cell marked.
    fn generate(&mut self)
        requires
            old(self).wf(),
        ensures
            final(self).wf(),
            final(self).spec_x() == old(self).spec_x(),
            final(self).spec_y() == old(self).spec_y(),
            final(self).spec_start() == old(self).spec_start(),
            final(self).spec_walls().len() == 0,
            final(self).cell(
                old(self).spec_start().0 as int,
                old(self).spec_start().1 as int,
            ) == 2,
            forall|i: int, j: int|
                0 <= i < old(self).spec_x() && 0 <= j < old(self).spec_y() && !(i == old(
                    self,
                ).spec_start().0 && j == old(self).spec_start().1) ==> final(self).cell(i, j)
                    == old(self).cell(i, j) || final(self).cell(i, j) == 1,
            forall|i: int, j: int|
                0 <= i < old(self).spec_x() && 0 <= j < old(self).spec_y() && (i == 0 || j == 0
                    || i == old(self).spec_x() - 1 || j == old(self).spec_y() - 1)
                    ==> final(self).cell(i, j) == old(self).cell(i, j),
    ;

    /// Write cell code `c` at row `x`, column `y` (the first index
    /// selects the row, as the grid is stored by rows).
    fn insert_at(&mut self, x: usize, y: usize, c: u8)
        requires
            old(self).wf(),
            x < old(self).spec_y(),
            y < old(self).spec_x(),
        ensures
            final(self).wf(),
            final(self).spec_x() == old(self).spec_x(),
            final(self).spec_y() == old(self).spec_y(),
            final(self).spec_start() == old(self).spec_start(),
            final(self).spec_walls() == old(self).spec_walls(),
            final(self).rows() == old(self).rows().update(
                x as int,
                old(self).rows()[x as int].update(y as int, c),
            ),
    ;

    /// The cell code at column `nx`, row `ny`.
    fn get_at(&self, nx: usize, ny: usize) -> (r: u8)
        requires
            self.wf(),
            nx < self.spec_x(),
            ny < self.spec_y(),
        ensures
            r == self.cell(nx as int, ny as int),
    ;

    /// Swap the cell codes at row `xa`, column `ya` and row `xb`,
    /// column `yb`.
    fn swap_at(&mut self, xa: usize, ya: usize, xb: usize, yb: usize)
        requires
            old(self).wf(),
            xa < old(self).spec_y(),
            ya < old(self).spec_x(),
            xb < old(self).spec_y(),
            yb < old(self).spec_x(),
        ensures
            final(self).wf(),
            final(self).spec_x() == old(self).spec_x(),
            final(self).spec_y() == old(self).spec_y(),
            final(self).spec_start() == old(self).spec_start(),
            final(self).spec_walls() == old(self).spec_walls(),
            final(self).rows()[xa as int][ya as int] == old(self).rows()[xb as int][yb as int],
            final(self).rows()[xb as int][yb as int] == old(self).rows()[xa as int][ya as int],
            forall|i: int, j: int|
                0 <= j < old(self).rows().len() && 0 <= i < old(self).spec_x() && !(j == xa && i
                    == ya) && !(j == xb && i == yb) ==> final(self).rows()[j][i] == old(
                    self,
                ).rows()[j][i],
    ;
}

impl MazeTrait for Maze {
    closed spec fn spec_x(&self) -> usize {
        self.x
    }

    closed spec fn spec_y(&self) -> usize {
        self.y
    }

    closed spec fn spec_start(&self) -> (usize, usize) {
        self.start
    }

    closed spec fn spec_walls(&self) -> Seq<(usize, usize)> {
        self.walls@
    }

    closed spec fn rows(&self) -> Seq<Seq<u8>> {
        self.grid@.map_values(|r: Vec<u8>| r@)
    }

    fn new(x: usize, y: usize) -> (r: Self)
    {
        let start_x = random_in(1, x - 1);
        let start_y = random_in(1, y - 1);
        let mut grid: Vec<Vec<u8>> = Vec::new();
        for j in 0..y
            invariant
                start_x < x,
                start_y < y,
                grid@.len() == j,
                forall|b: int| 0 <= b < j ==> (#[trigger] grid@[b])@.len() == x,
                forall|a: int, b: int|
                    0 <= a < x && 0 <= b < j ==> grid@[b]@[a] == (if a == start_x && b == start_y {
                        1u8
                    } else {
                        0u8
                    }),
        {
            let mut row: Vec<u8> = Vec::new();
            for i in 0..x
                invariant
                    start_x < x,
                    start_y < y,
                    j < y,
                    row@.len() == i,
                    forall|a: int|
                        0 <= a < i ==> row@[a] == (if a == start_x && j == start_y {
                            1u8
                        } else {
                            0u8
                        }),
            {
                if i == start_x && j == start_y {
                    row.push(1);
                } else {
                    row.push(0);
                }
            }
            grid.push(row);
        }
        let mut walls: Vec<(usize, usize)> = Vec::new();
        if start_x > 0 && start_x < x - 1 && start_y + 1 > 0 && start_y + 1 < y - 1 {
            walls.push((start_x, start_y + 1));
        }
        if start_x + 1 > 0 && start_x + 1 < x - 1 && start_y > 0 && start_y < y - 1 {
            walls.push((start_x + 1, start_y));
        }
        if start_x > 0 && start_x < x - 1 && start_y >= 1 && start_y - 1 > 0 && start_y - 1 < y - 1 {
            walls.push((start_x, start_y - 1));
        }
        if start_x >= 1 && start_x - 1 > 0 && start_x - 1 < x - 1 && start_y > 0 && start_y < y - 1 {
            walls.push((start_x - 1, start_y));
        }
        let r = Maze { x, y, grid, walls, start: (start_x, start_y) };
        proof {
            assert(r.spec_walls() =~= start_walls(start_x as int, start_y as int, x as int, y as int));
        }
        r
    }

    fn get_at(&self, nx: usize, ny: usize) -> (r: u8)
    {
        proof {
            assert(self.grid@[ny as int]@ == self.rows()[ny as int]);
        }
        self.grid[ny][nx]
    }

    fn insert_at(&mut self, x: usize, y: usize, c: u8)
    {
        let mut row: Vec<u8> = Vec::new();
        proof {
            assert(self.grid@[x as int]@ == self.rows()[x as int]);
        }
        self.grid.set_and_swap(x, &mut row);
        row.set(y, c);
        self.grid.set_and_swap(x, &mut row);
        proof {
            assert(self.rows() =~= old(self).rows().update(
                x as int,
                old(self).rows()[x as int].update(y as int, c),
            ));
            assert forall|j: int|
                0 <= j < self.rows().len() implies (#[trigger] self.rows()[j]).len()
                == self.spec_x() by {
                if j == x {
                    assert(self.rows()[j] == old(self).rows()[x as int].update(y as int, c));
                } else {
                    assert(self.rows()[j] == old(self).rows()[j]);
                }
            }
            assert forall|k: int|
                0 <= k < self.spec_walls().len() implies {
                let w = #[trigger] self.spec_walls()[k];
                0 < w.0 < self.spec_x() - 1 && 0 < w.1 < self.spec_y() - 1
            } by {
                assert(self.spec_walls()[k] == old(self).spec_walls()[k]);
            }
        }
    }

    fn swap_at(&mut self, xa: usize, ya: usize, xb: usize, yb: usize)
    {
        proof {
            assert(self.grid@[xa as int]@ == self.rows()[xa as int]);
            assert(self.grid@[xb as int]@ == self.rows()[xb as int]);
        }
        let a: u8 = self.grid[xa][ya];
        let b: u8 = self.grid[xb][yb];
        self.insert_at(xa, ya, b);
        self.insert_at(xb, yb, a);
    }

    fn generate(&mut self)
    {
        while self.walls.len() > 0
            invariant
                self.wf(),
                self.spec_x() == old(self).spec_x(),
                self.spec_y() == old(self).spec_y(),
                self.spec_start() == old(self).spec_start(),
                forall|i: int, j: int|
                    0 <= i < self.spec_x() && 0 <= j < self.spec_y() ==> self.cell(i, j) == old(
                        self,
                    ).cell(i, j) || self.cell(i, j) == 1,
                forall|i: int, j: int|
                    0 <= i < self.spec_x() && 0 <= j < self.spec_y() && (i == 0 || j == 0 || i
                        == self.spec_x() - 1 || j == self.spec_y() - 1) ==> self.cell(i, j) == old(
                        self,
                    ).cell(i, j),
            decreases grid_zeros(self.rows(), self.spec_y() as int), self.walls@.len(),
        {
            let idx = random_in(0, self.walls.len());
            let ghost pre = self.spec_walls();
            let (wx, wy) = self.walls.swap_remove(idx);
            proof {
                assert forall|k: int|
                    0 <= k < self.spec_walls().len() implies {
                    let ww = #[trigger] self.spec_walls()[k];
                    0 < ww.0 < self.spec_x() - 1 && 0 < ww.1 < self.spec_y() - 1
                } by {
                    if k == idx {
                        assert(self.spec_walls()[k] == pre.last());
                    } else {
                        assert(self.spec_walls()[k] == pre[k]);
                    }
                }
                assert(0 < wx < self.spec_x() - 1 && 0 < wy < self.spec_y() - 1);
            }
            let mut adjacent: u32 = 0;
            if self.get_at(wx, wy + 1) == 1 {
                adjacent = adjacent + 1;
            }
            if self.get_at(wx + 1, wy) == 1 {
                adjacent = adjacent + 1;
            }
            if self.get_at(wx, wy - 1) == 1 {
                adjacent = adjacent + 1;
            }
            if self.get_at(wx - 1, wy) == 1 {
                adjacent = adjacent + 1;
            }
            if adjacent == 1 && self.get_at(wx, wy) == 0 {
                proof {
                    lemma_grid_zeros_update(
                        self.rows(),
                        wx as int,
                        wy as int,
                        1u8,
                        self.spec_y() as int,
                    );
                }
                self.insert_at(wy, wx, 1);
                if wx > 0 && wx < self.x - 1 && wy + 1 > 0 && wy + 1 < self.y - 1 && self.get_at(
                    wx,
                    wy + 1,
                ) == 0 {
                    self.walls.push((wx, wy + 1));
                }
                if wx + 1 > 0 && wx + 1 < self.x - 1 && wy > 0 && wy < self.y - 1 && self.get_at(
                    wx + 1,
                    wy,
                ) == 0 {
                    self.walls.push((wx + 1, wy));
                }
                if wx > 0 && wx < self.x - 1 && wy - 1 > 0 && wy - 1 < self.y - 1 && self.get_at(
                    wx,
                    wy - 1,
                ) == 0 {
                    self.walls.push((wx, wy - 1));
                }
                if wx - 1 > 0 && wx - 1 < self.x - 1 && wy > 0 && wy < self.y - 1 && self.get_at(
                    wx - 1,
                    wy,
                ) == 0 {
                    self.walls.push((wx - 1, wy));
                }
            }
        }
        let sx = self.start.0;
        let sy = self.start.1;
        self.insert_at(sy, sx, 2);
    }
}

/// The two glyph bytes a cell code is rendered as.
pub open spec fn glyph(v: u8) -> Seq<u8> {
    if v == 0 {
        seq![35u8, 35u8]
    } else if v == 1 {
        seq![95u8, 95u8]
    } else if v == 2 {
        seq![91u8, 93u8]
    } else {
        seq![63u8, 63u8]
    }
}

/// The glyphs of the first `n` cells of a row.
pub open spec fn row_text(row: Seq<u8>, n: int) -> Seq<u8>
    decreases n,
{
    if n <= 0 {
        Seq::empty()
    } else {
        row_text(row, n - 1) + glyph(row[n - 1])
    }
}

/// The glyphs of the first `n` rows, each row ended by a carriage
/// return and line feed.
pub open spec fn maze_text(g: Seq<Seq<u8>>, n: int) -> Seq<u8>
    decreases n,
{
    if n <= 0 {
        Seq::empty()
    } else {
        maze_text(g, n - 1) + row_text(g[n - 1], g[n - 1].len() as int) + seq![13u8, 10u8]
    }
}

impl Maze {
    /// The maze as text: walls as "##", passages as "__", the start as
    /// "[]", anything else as "??", one line per row.
    pub fn render(&self) -> (r: String)
        requires
            self.wf(),
        ensures
            r@ == maze_text(self.rows(), self.rows().len() as int).map_values(|b: u8| b as char),
    {
        let mut bytes: Vec<u8> = Vec::new();
        let h = self.y;
        let w = self.x;
        for j in 0..h
            invariant
                self.wf(),
                w == self.spec_x(),
                h == self.spec_y(),
                bytes@ == maze_text(self.rows(), j as int),
                all_ascii(bytes@),
        {
            for i in 0..w
                invariant
                    self.wf(),
                    w == self.spec_x(),
                    h == self.spec_y(),
                    j < h,
                    bytes@ == maze_text(self.rows(), j as int) + row_text(
                        self.rows()[j as int],
                        i as int,
                    ),
                    all_ascii(bytes@),
            {
                let v = self.get_at(i, j);
                if v == 0 {
                    bytes.push(35);
                    bytes.push(35);
                } else if v == 1 {
                    bytes.push(95);
                    bytes.push(95);
                } else if v == 2 {
                    bytes.push(91);
                    bytes.push(93);
                } else {
                    bytes.push(63);
                    bytes.push(63);
                }
                proof {
                    assert(bytes@ =~= maze_text(self.rows(), j as int) + row_text(
                        self.rows()[j as int],
                        i as int + 1,
                    ));
                }
            }
            bytes.push(13);
            bytes.push(10);
            proof {
                assert(bytes@ =~= maze_text(self.rows(), j as int + 1));
            }
        }
        let ghost all = bytes@;
        match bytes_to_string(bytes) {
            Some(s) => {
                proof {
                    assert(s@ =~= all.map_values(|b: u8| b as char));
                }
                s
            },
            None => unreached(),
        }
    }
}

} // verus!
