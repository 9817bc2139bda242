use vstd::prelude::*;
use crate::topology::{CellPosition, coords, inside, neighbors, neighbors_upto, lemma_neighbors_upto_sound, shifted};

verus! {

/// The state of one cell of the grid.
#[derive(Clone, Copy, Debug, PartialEq, Eq, Structural)]
pub enum Cell {
    Live,
    Dead,
}

impl Cell {
    /// The glyph that renders this cell: `X` for a live one, `-` for a dead one.
    pub fn glyph(self) -> (r: char)
        ensures
            r == (if self == Cell::Live { 'X' } else { '-' }),
    {
        match self {
            Cell::Live => 'X',
            Cell::Dead => '-',
        }
    }
}

/// Why an engine could not be built.
#[derive(Clone, Copy, Debug, PartialEq, Eq, Structural)]
pub enum GridError {
    /// The width or the height is zero.
    InvalidDimension,
    /// The rows of the given grid do not all have the same length.
    ShapeMismatch,
}

/// A grid indexed `g[x][y]`, with `width` columns of `height` cells each.
pub open spec fn is_grid(g: Seq<Seq<Cell>>, width: int, height: int) -> bool {
    g.len() == width && forall|x: int| 0 <= x < width ==> (#[trigger] g[x]).len() == height
}

/// Whether the cell at `p` is live.
pub open spec fn is_live(g: Seq<Seq<Cell>>, p: (int, int)) -> bool {
    g[p.0][p.1] == Cell::Live
}

/// How many of the cells listed in `s` are live.
pub open spec fn count_live(g: Seq<Seq<Cell>>, s: Seq<(int, int)>) -> nat
    decreases s.len(),
{
    if s.len() == 0 {
        0
    } else {
        count_live(g, s.drop_last()) + if is_live(g, s.last()) { 1nat } else { 0nat }
    }
}

/// How many neighbours of `(x, y)` are live.
pub open spec fn live_neighbors(g: Seq<Seq<Cell>>, x: int, y: int, width: int, height: int) -> nat {
    count_live(g, neighbors(x, y, width, height))
}

/// The B3/S23 rule: a live cell survives with 2 or 3 live neighbours, a dead one is born
/// with exactly 3; every other cell is dead in the next generation.
pub open spec fn next_state(c: Cell, live: nat) -> Cell {
    match c {
        Cell::Live => if live == 2 || live == 3 { Cell::Live } else { Cell::Dead },
        Cell::Dead => if live == 3 { Cell::Live } else { Cell::Dead },
    }
}

/// The generation after `g`, every cell computed from `g` alone.
pub open spec fn next_grid(g: Seq<Seq<Cell>>, width: int, height: int) -> Seq<Seq<Cell>> {
    Seq::new(
        width as nat,
        |x: int|
            Seq::new(height as nat, |y: int| next_state(g[x][y], live_neighbors(g, x, y, width, height))),
    )
}

/// A grid with at least one column, at least one row, and columns of one length.
pub open spec fn well_shaped(g: Seq<Seq<Cell>>) -> bool {
    g.len() > 0 && g[0].len() > 0 && is_grid(g, g.len() as int, g[0].len() as int)
}

/// The plain value of a grid of vectors.
pub open spec fn grid_of(cells: Seq<Vec<Cell>>) -> Seq<Seq<Cell>> {
    cells.map_values(|row: Vec<Cell>| row@)
}

fn next_cell(c: Cell, live: usize) -> (r: Cell)
    ensures
        r == next_state(c, live as nat),
{
    match c {
        Cell::Live => if live == 2 || live == 3 { Cell::Live } else { Cell::Dead },
        Cell::Dead => if live == 3 { Cell::Live } else { Cell::Dead },
    }
}

/// Relies on rand::random: a coin flip drawn from the thread-local generator.
#[verifier::external_body]
fn coin_flip() -> (r: bool) {
    rand::random::<bool>()
}

/// A Game of Life engine on a bounded grid, with the neighbour table of every cell
/// computed once at construction.
pub struct Conway {
    cells: Vec<Vec<Cell>>,
    width: usize,
    height: usize,
    neighbors: Vec<Vec<Vec<CellPosition>>>,
}

impl View for Conway {
    type V = Seq<Seq<Cell>>;

    /// The current generation, indexed `[x][y]`.
    closed spec fn view(&self) -> Seq<Seq<Cell>> {
        grid_of(self.cells@)
    }
}

impl Conway {
    /// The number of columns.
    pub closed spec fn grid_width(&self) -> int {
        self.width as int
    }

    /// The number of rows.
    pub closed spec fn grid_height(&self) -> int {
        self.height as int
    }

    /// The neighbour table holds, for each cell, its neighbours in window order.
    pub closed spec fn table_ok(&self) -> bool {
        &&& self.neighbors@.len() == self.width
        &&& forall|x: int| 0 <= x < self.width ==> (#[trigger] self.neighbors@[x])@.len() == self.height
        &&& forall|x: int, y: int|
            0 <= x < self.width && 0 <= y < self.height ==> coords(#[trigger] self.neighbors@[x]@[y]@)
                == neighbors(x, y, self.width as int, self.height as int)
    }

    /// Both dimensions are positive, the grid has them, and the neighbour table is right.
    pub open spec fn wf(&self) -> bool {
        &&& self.grid_width() > 0
        &&& self.grid_height() > 0
        &&& is_grid(self@, self.grid_width(), self.grid_height())
        &&& self.table_ok()
    }

    /// The neighbours of `(x, y)` on a `width × height` grid, in window order.
    pub fn get_cell_neighbors(x: usize, y: usize, width: usize, height: usize) -> (r: Vec<CellPosition>)
        requires
            x < width,
            y < height,
        ensures
            coords(r@) == neighbors(x as int, y as int, width as int, height as int),
    {
        let mut r: Vec<CellPosition> = Vec::with_capacity(8);
        let mut k: usize = 0;
        while k < 9
            invariant
                k <= 9,
                x < width,
                y < height,
                coords(r@) == neighbors_upto(x as int, y as int, width as int, height as int, k as nat),
            decreases 9 - k,
        {
            if k != 4 {
                match (shifted(x, k / 3, width), shifted(y, k % 3, height)) {
                    (Some(nx), Some(ny)) => {
                        r.push(CellPosition { x: nx, y: ny });
                    },
                    _ => {},
                }
            }
            assert(coords(r@) =~= neighbors_upto(
                x as int,
                y as int,
                width as int,
                height as int,
                (k + 1) as nat,
            ));
            k = k + 1;
        }
        r
    }

    fn neighbor_table(width: usize, height: usize) -> (r: Vec<Vec<Vec<CellPosition>>>)
        ensures
            r@.len() == width,
            forall|x: int| 0 <= x < width ==> (#[trigger] r@[x])@.len() == height,
            forall|x: int, y: int|
                0 <= x < width && 0 <= y < height ==> coords(#[trigger] r@[x]@[y]@)
                    == neighbors(x, y, width as int, height as int),
    {
        let mut table: Vec<Vec<Vec<CellPosition>>> = Vec::new();
        let mut x: usize = 0;
        while x < width
            invariant
                x <= width,
                table@.len() == x,
                forall|i: int| 0 <= i < x ==> (#[trigger] table@[i])@.len() == height,
                forall|i: int, j: int|
                    0 <= i < x && 0 <= j < height ==> coords(#[trigger] table@[i]@[j]@)
                        == neighbors(i, j, width as int, height as int),
            decreases width - x,
        {
            let mut column: Vec<Vec<CellPosition>> = Vec::new();
            let mut y: usize = 0;
            while y < height
                invariant
                    x < width,
                    y <= height,
                    column@.len() == y,
                    forall|j: int| 0 <= j < y ==> coords(#[trigger] column@[j]@)
                        == neighbors(x as int, j, width as int, height as int),
                decreases height - y,
            {
                column.push(Self::get_cell_neighbors(x, y, width, height));
                y = y + 1;
            }
            table.push(column);
            x = x + 1;
        }
        table
    }

    fn build(cells: Vec<Vec<Cell>>, width: usize, height: usize) -> (r: Conway)
        requires
            width > 0,
            height > 0,
            is_grid(grid_of(cells@), width as int, height as int),
        ensures
            r.wf(),
            r@ == grid_of(cells@),
            r.grid_width() == width,
            r.grid_height() == height,
    {
        let neighbors = Self::neighbor_table(width, height);
        Conway { cells, width, height, neighbors }
    }

    /// A `width × height` engine whose cells are each live or dead by a fair coin flip.
    pub fn new(width: usize, height: usize) -> (r: Result<Conway, GridError>)
        ensures
            match r {
                Ok(c) => width > 0 && height > 0 && c.wf() && c.grid_width() == width
                    && c.grid_height() == height,
                Err(e) => (width == 0 || height == 0) && e == GridError::InvalidDimension,
            },
    {
        if width == 0 || height == 0 {
            return Err(GridError::InvalidDimension);
        }
        let mut cells: Vec<Vec<Cell>> = Vec::new();
        let mut x: usize = 0;
        while x < width
            invariant
                x <= width,
                cells@.len() == x,
                forall|i: int| 0 <= i < x ==> (#[trigger] cells@[i])@.len() == height,
            decreases width - x,
        {
            let mut column: Vec<Cell> = Vec::new();
            let mut y: usize = 0;
            while y < height
                invariant
                    y <= height,
                    column@.len() == y,
                decreases height - y,
            {
                column.push(if coin_flip() { Cell::Live } else { Cell::Dead });
                y = y + 1;
            }
            cells.push(column);
            x = x + 1;
        }
        assert(is_grid(grid_of(cells@), width as int, height as int));
        Ok(Self::build(cells, width, height))
    }

    /// An engine whose first generation is `cells`, indexed `cells[x][y]`: as many columns
    /// as `cells` holds, each of the length of the first.
    pub fn from_cells(cells: Vec<Vec<Cell>>) -> (r: Result<Conway, GridError>)
        ensures
            r is Ok <==> well_shaped(grid_of(cells@)),
            r matches Ok(c) ==> c.wf() && c@ == grid_of(cells@) && c.grid_width() == cells@.len()
                && c.grid_height() == cells@[0]@.len(),
            r == Err::<Conway, GridError>(GridError::InvalidDimension) <==> cells@.len() == 0
                || cells@[0]@.len() == 0,
            r == Err::<Conway, GridError>(GridError::ShapeMismatch) <==> cells@.len() > 0
                && cells@[0]@.len() > 0 && !well_shaped(grid_of(cells@)),
    {
        let width = cells.len();
        if width == 0 || cells[0].len() == 0 {
            return Err(GridError::InvalidDimension);
        }
        let height = cells[0].len();
        let mut x: usize = 0;
        while x < width
            invariant
                x <= width,
                width == cells@.len(),
                width > 0,
                height == cells@[0]@.len(),
                height > 0,
                forall|i: int| 0 <= i < x ==> (#[trigger] cells@[i])@.len() == height,
            decreases width - x,
        {
            if cells[x].len() != height {
                assert(grid_of(cells@)[x as int] == cells@[x as int]@);
                assert(!well_shaped(grid_of(cells@)));
                return Err(GridError::ShapeMismatch);
            }
            x = x + 1;
        }
        Ok(Self::build(cells, width, height))
    }

    /// The number of columns.
    pub fn width(&self) -> (r: usize)
        ensures
            r == self.grid_width(),
    {
        self.width
    }

    /// The number of rows.
    pub fn height(&self) -> (r: usize)
        ensures
            r == self.grid_height(),
    {
        self.height
    }

    /// The state of the cell at `(x, y)`.
    pub fn cell(&self, x: usize, y: usize) -> (r: Cell)
        requires
            self.wf(),
            x < self.grid_width(),
            y < self.grid_height(),
        ensures
            r == self@[x as int][y as int],
    {
        self.cells[x][y]
    }

    /// A copy of the current generation, indexed `[x][y]`.
    pub fn snapshot(&self) -> (r: Vec<Vec<Cell>>)
        requires
            self.wf(),
        ensures
            grid_of(r@) == self@,
    {
        let mut out: Vec<Vec<Cell>> = Vec::new();
        let mut x: usize = 0;
        while x < self.width
            invariant
                self.wf(),
                x <= self.width,
                out@.len() == x,
                forall|i: int| 0 <= i < x ==> (#[trigger] out@[i])@ == self@[i],
            decreases self.width - x,
        {
            let mut column: Vec<Cell> = Vec::new();
            let mut y: usize = 0;
            while y < self.height
                invariant
                    self.wf(),
                    x < self.width,
                    y <= self.height,
                    column@ == self@[x as int].take(y as int),
                decreases self.height - y,
            {
                column.push(self.cells[x][y]);
                y = y + 1;
                assert(column@ =~= self@[x as int].take(y as int));
            }
            assert(column@ =~= self@[x as int]);
            out.push(column);
            x = x + 1;
        }
        assert(grid_of(out@) =~= self@);
        out
    }

    /// The neighbours of `(x, y)`, in window order. They depend on the coordinate and the
    /// engine's dimensions alone, which never change.
    pub fn neighbors_of(&self, x: usize, y: usize) -> (r: &[CellPosition])
        requires
            self.wf(),
            x < self.grid_width(),
            y < self.grid_height(),
        ensures
            coords(r@) == neighbors(x as int, y as int, self.grid_width(), self.grid_height()),
    {
        self.neighbors[x][y].as_slice()
    }

    fn live_neighbor_count(&self, x: usize, y: usize) -> (r: usize)
        requires
            self.wf(),
            x < self.grid_width(),
            y < self.grid_height(),
        ensures
            r == live_neighbors(self@, x as int, y as int, self.grid_width(), self.grid_height()),
    {
        let ns = &self.neighbors[x][y];
        let ghost s = neighbors(x as int, y as int, self.width as int, self.height as int);
        proof {
            lemma_neighbors_upto_sound(x as int, y as int, self.width as int, self.height as int, 9);
        }
        let mut count: usize = 0;
        let mut i: usize = 0;
        while i < ns.len()
            invariant
                self.wf(),
                coords(ns@) == s,
                s.len() <= 9,
                forall|k: int| 0 <= k < s.len() ==> inside(#[trigger] s[k], self.width as int, self.height as int),
                i <= ns@.len(),
                count <= i,
                count == count_live(self@, s.take(i as int)),
            decreases ns@.len() - i,
        {
            let p = ns[i];
            assert(s[i as int] == p@);
            assert(self@[p.x as int] == self.cells@[p.x as int]@);
            assert(s.take(i as int + 1).drop_last() =~= s.take(i as int));
            if self.cells[p.x][p.y] == Cell::Live {
                count = count + 1;
            }
            i = i + 1;
        }
        assert(s.take(i as int) =~= s);
        count
    }

    /// Advances one generation: every cell follows the B3/S23 rule, counted on the
    /// generation before the step; the neighbour table and the dimensions stay as they are.
    pub fn run_generation(&mut self)
        requires
            old(self).wf(),
        ensures
            final(self).wf(),
            final(self).grid_width() == old(self).grid_width(),
            final(self).grid_height() == old(self).grid_height(),
            final(self)@ == next_grid(old(self)@, old(self).grid_width(), old(self).grid_height()),
    {
        let ghost g = self@;
        let ghost w = self.width as int;
        let ghost h = self.height as int;
        let mut new_cells: Vec<Vec<Cell>> = Vec::new();
        let mut x: usize = 0;
        while x < self.width
            invariant
                self.wf(),
                self@ == g,
                w == self.width,
                h == self.height,
                x <= self.width,
                new_cells@.len() == x,
                forall|i: int| 0 <= i < x ==> (#[trigger] new_cells@[i])@ == next_grid(g, w, h)[i],
            decreases self.width - x,
        {
            let mut column: Vec<Cell> = Vec::new();
            let mut y: usize = 0;
            while y < self.height
                invariant
                    self.wf(),
                    self@ == g,
                    w == self.width,
                    h == self.height,
                    x < self.width,
                    y <= self.height,
                    column@ == next_grid(g, w, h)[x as int].take(y as int),
                decreases self.height - y,
            {
                let live = self.live_neighbor_count(x, y);
                column.push(next_cell(self.cells[x][y], live));
                y = y + 1;
                assert(column@ =~= next_grid(g, w, h)[x as int].take(y as int));
            }
            assert(column@ =~= next_grid(g, w, h)[x as int]);
            new_cells.push(column);
            x = x + 1;
        }
        self.cells = new_cells;
        assert(self@ =~= next_grid(g, w, h));
    }
}

} // verus!
