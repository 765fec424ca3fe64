//! The rectangular cell grid: a mapping from (x, y) coordinates to
//! display cells, together with the row-major diff used to flush only
//! the cells that changed since the last repaint.

use vstd::prelude::*;

use crate::cell::Cell;

verus! {

/// A grid access with a coordinate at or beyond the grid's extent.
#[derive(Clone, Copy, PartialEq, Eq, Structural, Debug)]
pub enum GridError {
    OutOfBounds,
}

/// A rectangular mapping from (x, y) to [`Cell`], `0 <= x < width`,
/// `0 <= y < height`, stored as rows. Its view is the sequence of rows,
/// each row a sequence of cells.
pub struct Grid {
    width: usize,
    height: usize,
    cells: Vec<Vec<Cell>>,
}

impl View for Grid {
    type V = Seq<Seq<Cell>>;

    closed spec fn view(&self) -> Seq<Seq<Cell>> {
        self.cells@.map_values(|row: Vec<Cell>| row@)
    }
}

impl Grid {
    pub closed spec fn spec_width(&self) -> usize {
        self.width
    }

    pub closed spec fn spec_height(&self) -> usize {
        self.height
    }

    /// The grid is a proper rectangle of its stated dimensions.
    pub open spec fn wf(&self) -> bool {
        &&& self@.len() == self.spec_height()
        &&& forall|y: int| 0 <= y < self@.len() ==> (#[trigger] self@[y]).len() == self.spec_width()
    }

    /// The cell stored at (x, y).
    pub open spec fn cell_at(&self, x: int, y: int) -> Cell {
        self@[y][x]
    }

    #[verifier::when_used_as_spec(spec_width)]
    pub fn width(&self) -> (r: usize)
        ensures
            r == self.spec_width(),
    {
        self.width
    }

    #[verifier::when_used_as_spec(spec_height)]
    pub fn height(&self) -> (r: usize)
        ensures
            r == self.spec_height(),
    {
        self.height
    }

    /// A fresh grid of the given dimensions with every cell equal to `fill`.
    pub fn new(width: usize, height: usize, fill: Cell) -> (r: Grid)
        ensures
            r.wf(),
            r.width() == width,
            r.height() == height,
            forall|x: int, y: int|
                0 <= x < width && 0 <= y < height ==> r.cell_at(x, y) == fill,
    {
        let mut cells: Vec<Vec<Cell>> = Vec::new();
        for y in 0..height
            invariant
                cells@.len() == y,
                forall|j: int| 0 <= j < y ==> (#[trigger] cells@[j])@.len() == width,
                forall|i: int, j: int|
                    0 <= i < width && 0 <= j < y ==> cells@[j]@[i] == fill,
        {
            let mut row: Vec<Cell> = Vec::new();
            for x in 0..width
                invariant
                    row@.len() == x,
                    forall|i: int| 0 <= i < x ==> row@[i] == fill,
            {
                row.push(fill);
            }
            cells.push(row);
        }
        Grid { width, height, cells }
    }

    /// Read the cell at (x, y); out-of-range coordinates are refused,
    /// never clamped.
    pub fn get(&self, x: usize, y: usize) -> (r: Result<Cell, GridError>)
        requires
            self.wf(),
        ensures
            x < self.width() && y < self.height() ==> r == Ok::<Cell, GridError>(
                self.cell_at(x as int, y as int),
            ),
            !(x < self.width() && y < self.height()) ==> r == Err::<Cell, GridError>(
                GridError::OutOfBounds,
            ),
    {
        if x < self.width && y < self.height {
            proof {
                assert(self.cells@[y as int]@ == self@[y as int]);
            }
            Ok(self.cells[y][x])
        } else {
            Err(GridError::OutOfBounds)
        }
    }

    /// Read the cell at a coordinate already known to be in range.
    pub fn at(&self, x: usize, y: usize) -> (r: Cell)
        requires
            self.wf(),
            x < self.width(),
            y < self.height(),
        ensures
            r == self.cell_at(x as int, y as int),
    {
        proof {
            assert(self.cells@[y as int]@ == self@[y as int]);
        }
        self.cells[y][x]
    }

    /// Replace the cell at (x, y) wholesale; out-of-range coordinates
    /// are refused and leave the grid untouched.
    pub fn set(&mut self, x: usize, y: usize, cell: Cell) -> (r: Result<(), GridError>)
        requires
            old(self).wf(),
        ensures
            final(self).wf(),
            final(self).width() == old(self).width(),
            final(self).height() == old(self).height(),
            x < old(self).width() && y < old(self).height() ==> {
                &&& r == Ok::<(), GridError>(())
                &&& final(self)@ == old(self)@.update(
                    y as int,
                    old(self)@[y as int].update(x as int, cell),
                )
            },
            !(x < old(self).width() && y < old(self).height()) ==> {
                &&& r == Err::<(), GridError>(GridError::OutOfBounds)
                &&& final(self)@ == old(self)@
            },
    {
        if x < self.width && y < self.height {
            let mut row: Vec<Cell> = Vec::new();
            proof {
                assert(self.cells@[y as int]@ == self@[y as int]);
            }
            self.cells.set_and_swap(y, &mut row);
            row.set(x, cell);
            self.cells.set_and_swap(y, &mut row);
            proof {
                assert(self@ =~= old(self)@.update(
                    y as int,
                    old(self)@[y as int].update(x as int, cell),
                ));
            }
            Ok(())
        } else {
            proof {
                assert(self@ =~= old(self)@);
            }
            Err(GridError::OutOfBounds)
        }
    }

    /// A full, independent copy of the grid.
    pub fn snapshot(&self) -> (r: Grid)
        requires
            self.wf(),
        ensures
            r.wf(),
            r.width() == self.width(),
            r.height() == self.height(),
            r@ == self@,
    {
        let mut cells: Vec<Vec<Cell>> = Vec::new();
        for y in 0..self.height
            invariant
                self.wf(),
                cells@.len() == y,
                forall|j: int| 0 <= j < y ==> (#[trigger] cells@[j])@ == self@[j],
        {
            let mut row: Vec<Cell> = Vec::new();
            for x in 0..self.width
                invariant
                    self.wf(),
                    y < self.spec_height(),
                    row@.len() == x,
                    x <= self.spec_width(),
                    forall|i: int| 0 <= i < x ==> row@[i] == self@[y as int][i],
            {
                proof {
                    assert(self.cells@[y as int]@ == self@[y as int]);
                }
                row.push(self.cells[y][x]);
            }
            proof {
                assert(row@ =~= self@[y as int]);
            }
            cells.push(row);
        }
        let r = Grid { width: self.width, height: self.height, cells };
        proof {
            assert(r@ =~= self@);
        }
        r
    }

    /// The diff entries of row `y` for columns `0 <= x < xn`: each
    /// coordinate whose cell differs between `a` and `b`, paired with
    /// `a`'s cell, in increasing column order.
    pub open spec fn row_diff(a: Seq<Seq<Cell>>, b: Seq<Seq<Cell>>, y: int, xn: int) -> Seq<
        (usize, usize, Cell),
    >
        decreases xn,
    {
        if xn <= 0 {
            Seq::empty()
        } else {
            Self::row_diff(a, b, y, xn - 1) + if a[y][xn - 1] == b[y][xn - 1] {
                Seq::empty()
            } else {
                seq![((xn - 1) as usize, y as usize, a[y][xn - 1])]
            }
        }
    }

    /// The diff entries of the first `yn` full rows, in row-major order.
    pub open spec fn diff_upto(
        a: Seq<Seq<Cell>>,
        b: Seq<Seq<Cell>>,
        width: int,
        yn: int,
    ) -> Seq<(usize, usize, Cell)>
        decreases yn,
    {
        if yn <= 0 {
            Seq::empty()
        } else {
            Self::diff_upto(a, b, width, yn - 1) + Self::row_diff(a, b, yn - 1, width)
        }
    }

    /// Every coordinate whose cell differs between `a` and `b`, with
    /// `a`'s cell, in row-major order.
    pub open spec fn diff_spec(a: &Grid, b: &Grid) -> Seq<(usize, usize, Cell)> {
        Self::diff_upto(a@, b@, a.spec_width() as int, a.spec_height() as int)
    }

    /// Every coordinate whose cell differs from `other`'s, with this
    /// grid's cell, in row-major order — the minimal set of writes that
    /// brings `other` up to date with `self`.
    pub fn diff(&self, other: &Grid) -> (r: Vec<(usize, usize, Cell)>)
        requires
            self.wf(),
            other.wf(),
            self.width() == other.width(),
            self.height() == other.height(),
        ensures
            r@ == Self::diff_spec(self, other),
    {
        let mut r: Vec<(usize, usize, Cell)> = Vec::new();
        for y in 0..self.height
            invariant
                self.wf(),
                other.wf(),
                self.spec_width() == other.spec_width(),
                self.spec_height() == other.spec_height(),
                r@ == Self::diff_upto(self@, other@, self.spec_width() as int, y as int),
        {
            for x in 0..self.width
                invariant
                    self.wf(),
                    other.wf(),
                    self.spec_width() == other.spec_width(),
                    self.spec_height() == other.spec_height(),
                    y < self.spec_height(),
                    x <= self.spec_width(),
                    r@ == Self::diff_upto(self@, other@, self.spec_width() as int, y as int)
                        + Self::row_diff(self@, other@, y as int, x as int),
            {
                proof {
                    assert(self.cells@[y as int]@ == self@[y as int]);
                    assert(other.cells@[y as int]@ == other@[y as int]);
                }
                let a = self.cells[y][x];
                let b = other.cells[y][x];
                if !(a.ch == b.ch && a.width == b.width) {
                    r.push((x, y, a));
                }
                proof {
                    assert(r@ =~= Self::diff_upto(self@, other@, self.spec_width() as int, y as int)
                        + Self::row_diff(self@, other@, y as int, x as int + 1));
                }
            }
        }
        r
    }
}

/// Law: a grid diffed against itself yields no entries, whatever
/// sequence of mutations produced it.
pub proof fn lemma_diff_self_empty(g: &Grid)
    ensures
        Grid::diff_spec(g, g) == Seq::<(usize, usize, Cell)>::empty(),
{
    lemma_diff_upto_self_empty(g@, g.spec_width() as int, g.spec_height() as int);
}

proof fn lemma_row_diff_self_empty(a: Seq<Seq<Cell>>, y: int, xn: int)
    ensures
        Grid::row_diff(a, a, y, xn) == Seq::<(usize, usize, Cell)>::empty(),
    decreases xn,
{
    if xn <= 0 {
    } else {
        lemma_row_diff_self_empty(a, y, xn - 1);
        assert(Grid::row_diff(a, a, y, xn) =~= Seq::<(usize, usize, Cell)>::empty());
    }
}

proof fn lemma_diff_upto_self_empty(a: Seq<Seq<Cell>>, width: int, yn: int)
    ensures
        Grid::diff_upto(a, a, width, yn) == Seq::<(usize, usize, Cell)>::empty(),
    decreases yn,
{
    if yn <= 0 {
    } else {
        lemma_diff_upto_self_empty(a, width, yn - 1);
        lemma_row_diff_self_empty(a, yn - 1, width);
        assert(Grid::diff_upto(a, a, width, yn) =~= Seq::<(usize, usize, Cell)>::empty());
    }
}


/// Law: after writing `cell` at in-range (x, y), reading the same
/// coordinate yields exactly that cell — no implicit transformation —
/// and every other coordinate is unchanged.
pub proof fn lemma_set_then_get(g: Seq<Seq<Cell>>, x: int, y: int, cell: Cell)
    requires
        0 <= y < g.len(),
        0 <= x < g[y].len(),
    ensures
        g.update(y, g[y].update(x, cell))[y][x] == cell,
        forall|i: int, j: int|
            0 <= j < g.len() && 0 <= i < g[j].len() && (i != x || j != y)
                ==> g.update(y, g[y].update(x, cell))[j][i] == g[j][i],
{
}

} // verus!
